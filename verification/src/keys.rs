//! The client's keys: the secret client key, and the public server key
//! derived from it.
use vstd::prelude::*;
use crate::fhe::{
    build_config, decompress_server_key, default_config_builder, generate_client_key, is_compressed_key_of,
    is_decompression, is_server_key_of, new_compressed_server_key, operable_key, sound_client_key,
    sound_compressed_key,
};

verus! {

/// Generates a fresh client key with `tfhe`'s default configuration. The key
/// is drawn at random; it stays on the client's machine. A key made for the
/// default parameters is sound.
pub fn keygen() -> (r: tfhe::ClientKey)
    ensures
        sound_client_key(r),
{
    let builder = default_config_builder();
    let config = build_config(builder);
    generate_client_key(config)
}

/// Derives, from the client key, the compressed server key that is uploaded to
/// open the election (far smaller than the full key; the server decompresses
/// it on arrival). The client key must be sound.
pub fn compressed_server_key(client_key: &tfhe::ClientKey) -> (r: tfhe::CompressedServerKey)
    requires
        sound_client_key(*client_key),
    ensures
        is_compressed_key_of(*client_key, r),
        sound_compressed_key(r),
{
    new_compressed_server_key(client_key)
}

/// What the server does with an uploaded key once its body has been decoded:
/// decompresses it. The key must be sound (a malformed one makes `tfhe`'s
/// asserts panic); the result is then operable, and a server key of every
/// client key that it was compressed from.
pub fn server_key_from_upload(compressed: &tfhe::CompressedServerKey) -> (r: tfhe::ServerKey)
    requires
        sound_compressed_key(*compressed),
    ensures
        is_decompression(*compressed, r),
        operable_key(r),
        forall|ck: tfhe::ClientKey| is_compressed_key_of(ck, *compressed) ==> is_server_key_of(ck, r),
{
    decompress_server_key(compressed)
}

} // verus!
