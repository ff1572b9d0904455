//! The single-process walk-through's client side: every operation that needs
//! the secret key.
use vstd::prelude::*;
use crate::fhe::{
    build_config, default_config_builder, generate_key_pair, is_server_key_of, operable_key, sound_client_key,
};

verus! {

/// Generates a fresh key pair with `tfhe`'s default configuration: the secret
/// client key and the server key derived from it. Both are drawn at random;
/// for the default parameters the client key is sound and the server key
/// operable.
pub fn keygen() -> (r: (tfhe::ClientKey, tfhe::ServerKey))
    ensures
        is_server_key_of(r.0, r.1),
        sound_client_key(r.0),
        operable_key(r.1),
{
    let builder = default_config_builder();
    let config = build_config(builder);
    generate_key_pair(config)
}

} // verus!
