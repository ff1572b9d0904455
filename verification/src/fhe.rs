//! The boundary to `tfhe`: its types as the proofs see them, names for what its
//! deterministic operations return, and the wrappers that make the calls.
use vstd::prelude::*;
use tfhe::prelude::{FheDecrypt, FheEq, FheTrivialEncrypt, FheTryEncrypt, IfThenElse};

verus! {

#[verifier::external_type_specification]
#[verifier::external_body]
pub struct ExFheBool(tfhe::FheBool);

#[verifier::external_type_specification]
#[verifier::external_body]
pub struct ExServerKey(tfhe::ServerKey);

#[verifier::external_type_specification]
#[verifier::external_body]
pub struct ExClientKey(tfhe::ClientKey);

#[verifier::external_type_specification]
#[verifier::external_body]
pub struct ExCompressedServerKey(tfhe::CompressedServerKey);

#[verifier::external_type_specification]
#[verifier::external_body]
pub struct ExConfig(tfhe::Config);

#[verifier::external_type_specification]
#[verifier::external_body]
pub struct ExConfigBuilder(tfhe::ConfigBuilder);

#[verifier::external_type_specification]
#[verifier::external_body]
pub struct ExTfheError(tfhe::Error);

/// An encrypted 8-bit unsigned integer (a `tfhe::FheUint8`): what a ballot
/// holds. `tfhe::FheUint<Id>` bounds `Id` by a trait that `tfhe` does not
/// export, so the type cannot be declared as an outside type; it is held here instead,
/// opaque.
#[verifier::external_body]
pub struct EncryptedChoice {
    pub(crate) ct: tfhe::FheUint8,
}

/// An encrypted 32-bit unsigned integer (a `tfhe::FheUint32`): one
/// candidate's count. Opaque, for the reason given at `EncryptedChoice`.
#[verifier::external_body]
pub struct EncryptedCount {
    pub(crate) ct: tfhe::FheUint32,
}

/// What `FheUint32::encrypt_trivial(value)` returns while `key` is the
/// thread's server key (a noiseless encryption: it depends on the key's
/// parameters, not on chance).
pub uninterp spec fn trivial_count(key: tfhe::ServerKey, value: u32) -> EncryptedCount;

/// What `count.decrypt(&key)` returns.
pub uninterp spec fn decrypted_count(key: tfhe::ClientKey, count: EncryptedCount) -> u32;

/// `test` is a possible outcome of `choice.eq(scalar)` while `key` is the
/// thread's server key. (The bootstrapping inside uses an FFT plan that `tfhe`
/// picks by timing, so the exact ciphertext may differ between runs.)
pub uninterp spec fn is_equality_test(key: tfhe::ServerKey, choice: EncryptedChoice, scalar: u8, test: tfhe::FheBool) -> bool;

/// `selected` is a possible outcome of `cond.if_then_else(&then_count,
/// &else_count)` while `key` is the thread's server key.
pub uninterp spec fn is_selection(
    key: tfhe::ServerKey,
    cond: tfhe::FheBool,
    then_count: EncryptedCount,
    else_count: EncryptedCount,
    selected: EncryptedCount,
) -> bool;

/// `sum` is a possible value of `a` after `a += &b` while `key` is the
/// thread's server key.
pub uninterp spec fn is_sum(key: tfhe::ServerKey, a: EncryptedCount, b: EncryptedCount, sum: EncryptedCount) -> bool;

/// `key` is a possible outcome of `compressed.decompress()`.
pub uninterp spec fn is_decompression(compressed: tfhe::CompressedServerKey, key: tfhe::ServerKey) -> bool;

/// `choice` is a possible outcome of `FheUint8::try_encrypt(value, &key)`
/// (encryption draws fresh noise).
pub uninterp spec fn is_encryption_of(key: tfhe::ClientKey, value: u8, choice: EncryptedChoice) -> bool;

/// `key` is a server key whose parameters and parts are those that `tfhe`'s
/// key generation makes for a sound parameter set, so that its operations do
/// not panic on ciphertexts that fit it.
pub uninterp spec fn operable_key(key: tfhe::ServerKey) -> bool;

/// `key` is a client key made by `tfhe`'s key generation for a sound parameter
/// set (a message modulus of at least 2, among others), so that encrypting with
/// it does not panic.
pub uninterp spec fn sound_client_key(key: tfhe::ClientKey) -> bool;

/// `compressed` is a compressed server key as `tfhe` makes it from a sound
/// client key, so that decompressing it does not panic.
pub uninterp spec fn sound_compressed_key(compressed: tfhe::CompressedServerKey) -> bool;

/// `server_key` was derived from `client_key` (by `tfhe::generate_keys`, or by
/// decompressing a key compressed from `client_key`).
pub uninterp spec fn is_server_key_of(client_key: tfhe::ClientKey, server_key: tfhe::ServerKey) -> bool;

/// `compressed` was made by `CompressedServerKey::new(&client_key)`.
pub uninterp spec fn is_compressed_key_of(client_key: tfhe::ClientKey, compressed: tfhe::CompressedServerKey) -> bool;

/// `builder` is `ConfigBuilder::default()`.
pub uninterp spec fn is_default_builder(builder: tfhe::ConfigBuilder) -> bool;

/// `config` holds `tfhe`'s default parameter set.
pub uninterp spec fn is_default_config(config: tfhe::Config) -> bool;

/// `choice` has the LWE dimension, moduli and block count of `key`'s
/// parameters, so that `key`'s operations accept it.
pub uninterp spec fn choice_fits(key: tfhe::ServerKey, choice: EncryptedChoice) -> bool;

/// `count` has the LWE dimension, moduli and block count of `key`'s parameters,
/// so that `key`'s operations accept it.
pub uninterp spec fn count_fits(key: tfhe::ServerKey, count: EncryptedCount) -> bool;

/// `b` has the LWE dimension and moduli of `key`'s parameters, so that `key`'s
/// operations accept it.
pub uninterp spec fn bool_fits(key: tfhe::ServerKey, b: tfhe::FheBool) -> bool;

/// Stands for a server key that has been made the thread's server key.
///
/// Only `install_server_key` makes one, and every one lives inside a single
/// function of this library that installs no other key while it lives; so
/// while it exists, its key is the key that `tfhe`'s operations use.
pub struct InstalledKey {
    key: tfhe::ServerKey,
}

impl InstalledKey {
    /// The installed key.
    pub closed spec fn key(&self) -> tfhe::ServerKey {
        self.key
    }
}

/// `tfhe::set_server_key`: makes `key` the server key that `tfhe`'s operations
/// use on this thread. The contract claims that the token holds `key`.
#[verifier::external_body]
pub(crate) fn install_server_key(key: &tfhe::ServerKey) -> (r: InstalledKey)
    ensures
        r.key() == *key,
{
    tfhe::set_server_key(key.clone());
    InstalledKey { key: key.clone() }
}

/// `Clone` of `tfhe::ServerKey` (it shares the key behind an `Arc`). The
/// contract claims that the copy is the same key.
#[verifier::external_body]
pub(crate) fn clone_server_key(key: &tfhe::ServerKey) -> (r: tfhe::ServerKey)
    ensures
        r == *key,
{
    key.clone()
}

/// `Clone` of `tfhe::FheUint8`. The contract claims that the copy is the same
/// ciphertext.
#[verifier::external_body]
pub(crate) fn clone_choice(choice: &EncryptedChoice) -> (r: EncryptedChoice)
    ensures
        r == *choice,
{
    EncryptedChoice { ct: choice.ct.clone() }
}

/// `Clone` of `tfhe::FheUint32`. The contract claims that the copy is the same
/// ciphertext.
#[verifier::external_body]
pub(crate) fn clone_count(count: &EncryptedCount) -> (r: EncryptedCount)
    ensures
        r == *count,
{
    EncryptedCount { ct: count.ct.clone() }
}

/// `FheUint32::encrypt_trivial(value)` under the installed key, which must be
/// operable (a message modulus below 2 makes it panic). The contract names the
/// result `trivial_count` of the installed key and `value`, claims that it fits
/// the key, and that every client key of the installed key decrypts it to
/// `value`: a trivial encryption carries no noise.
#[verifier::external_body]
pub(crate) fn encrypt_trivial_count(installed: &InstalledKey, value: u32) -> (r: EncryptedCount)
    requires
        operable_key(installed.key()),
    ensures
        r == trivial_count(installed.key(), value),
        count_fits(installed.key(), r),
        forall|ck: tfhe::ClientKey| is_server_key_of(ck, installed.key()) ==> decrypted_count(ck, r) == value,
{
    EncryptedCount { ct: tfhe::FheUint32::encrypt_trivial(value) }
}

/// `FheEq::eq` of a `tfhe::FheUint8` and a clear `u8` under the installed key.
/// The choice must fit the key (its keyswitch asserts the LWE dimension). The
/// contract claims that the result is an equality test of the arguments and
/// fits the key.
#[verifier::external_body]
pub(crate) fn encrypted_equals(installed: &InstalledKey, choice: &EncryptedChoice, scalar: u8) -> (r: tfhe::FheBool)
    requires
        operable_key(installed.key()),
        choice_fits(installed.key(), *choice),
    ensures
        is_equality_test(installed.key(), *choice, scalar, r),
        bool_fits(installed.key(), r),
{
    choice.ct.eq(scalar)
}

/// `IfThenElse::if_then_else` of a `tfhe::FheBool` over two `tfhe::FheUint32`
/// under the installed key; all three must fit the key. The contract claims
/// that the result is a selection of the arguments and fits the key.
#[verifier::external_body]
pub(crate) fn encrypted_select(
    installed: &InstalledKey,
    cond: &tfhe::FheBool,
    then_count: &EncryptedCount,
    else_count: &EncryptedCount,
) -> (r: EncryptedCount)
    requires
        operable_key(installed.key()),
        bool_fits(installed.key(), *cond),
        count_fits(installed.key(), *then_count),
        count_fits(installed.key(), *else_count),
    ensures
        is_selection(installed.key(), *cond, *then_count, *else_count, r),
        count_fits(installed.key(), r),
{
    EncryptedCount { ct: cond.if_then_else(&then_count.ct, &else_count.ct) }
}

/// `AddAssign` of two `tfhe::FheUint32` under the installed key; both must fit
/// the key. The contract claims that `acc` afterwards is a sum of the old `acc`
/// and `addend`, and fits the key.
#[verifier::external_body]
pub(crate) fn encrypted_add_assign(installed: &InstalledKey, acc: &mut EncryptedCount, addend: &EncryptedCount)
    requires
        operable_key(installed.key()),
        count_fits(installed.key(), *old(acc)),
        count_fits(installed.key(), *addend),
    ensures
        is_sum(installed.key(), *old(acc), *addend, *final(acc)),
        count_fits(installed.key(), *final(acc)),
{
    acc.ct += &addend.ct;
}

/// `FheDecrypt::decrypt` of a `tfhe::FheUint32` into a `u32`, with a sound
/// client key. The count must fit a server key of `key` (decryption asserts the LWE dimension). The
/// contract names the result `decrypted_count` of the arguments.
#[verifier::external_body]
pub(crate) fn decrypt_count(count: &EncryptedCount, key: &tfhe::ClientKey) -> (r: u32)
    requires
        sound_client_key(*key),
        exists|sk: tfhe::ServerKey| is_server_key_of(*key, sk) && count_fits(sk, *count),
    ensures
        r == decrypted_count(*key, *count),
{
    count.ct.decrypt(key)
}

/// `FheUint8::try_encrypt(value, key)` with a sound client key (a message
/// modulus below 2 makes it panic). In this version of `tfhe` it always returns
/// `Ok`. Encryption draws fresh noise, so the ciphertext is not named: the
/// contract claims only that it is an encryption of `value` under `key`, and
/// that it fits every server key of `key`. Whether it decrypts to `value` is
/// not claimed: that holds with overwhelming probability for sound parameters,
/// not with certainty.
#[verifier::external_body]
pub(crate) fn try_encrypt_choice(value: u8, key: &tfhe::ClientKey) -> (r: Result<EncryptedChoice, tfhe::Error>)
    requires
        sound_client_key(*key),
    ensures
        r is Ok,
        r is Ok ==> is_encryption_of(*key, value, r->Ok_0),
        r is Ok ==> forall|sk: tfhe::ServerKey| is_server_key_of(*key, sk) ==> choice_fits(sk, r->Ok_0),
{
    tfhe::FheUint8::try_encrypt(value, key).map(|ct| EncryptedChoice { ct })
}

/// `tfhe::Error`'s `Display` text. Nothing is claimed of it.
#[verifier::external_body]
pub(crate) fn tfhe_error_text(err: &tfhe::Error) -> String {
    err.to_string()
}

/// `ConfigBuilder::default()`. The contract claims only that it is the default
/// builder.
#[verifier::external_body]
pub(crate) fn default_config_builder() -> (r: tfhe::ConfigBuilder)
    ensures
        is_default_builder(r),
{
    tfhe::ConfigBuilder::default()
}

/// `ConfigBuilder::build`. The contract claims that the default builder builds
/// the default parameter set.
#[verifier::external_body]
pub(crate) fn build_config(builder: tfhe::ConfigBuilder) -> (r: tfhe::Config)
    ensures
        is_default_builder(builder) ==> is_default_config(r),
{
    builder.build()
}

/// `ClientKey::generate(config)` for the default parameter set (key generation
/// asserts a message modulus of 2 or 4, so other configurations can panic):
/// draws a fresh secret key. The contract claims only that it is sound.
#[verifier::external_body]
pub(crate) fn generate_client_key(config: tfhe::Config) -> (r: tfhe::ClientKey)
    requires
        is_default_config(config),
    ensures
        sound_client_key(r),
{
    tfhe::ClientKey::generate(config)
}

/// `tfhe::generate_keys(config)` for the default parameter set (other
/// configurations can panic, as at `ClientKey::generate`): draws a fresh key
/// pair. The contract claims that the server key is derived from the client
/// key, that the client key is sound and that the server key is operable.
#[verifier::external_body]
pub(crate) fn generate_key_pair(config: tfhe::Config) -> (r: (tfhe::ClientKey, tfhe::ServerKey))
    requires
        is_default_config(config),
    ensures
        is_server_key_of(r.0, r.1),
        sound_client_key(r.0),
        operable_key(r.1),
{
    tfhe::generate_keys(config)
}

/// `CompressedServerKey::new(client_key)` of a sound client key (key generation
/// for a degenerate parameter set can panic): draws fresh noise. The contract
/// claims that the result is compressed from `client_key`, and sound.
#[verifier::external_body]
pub(crate) fn new_compressed_server_key(client_key: &tfhe::ClientKey) -> (r: tfhe::CompressedServerKey)
    requires
        sound_client_key(*client_key),
    ensures
        is_compressed_key_of(*client_key, r),
        sound_compressed_key(r),
{
    tfhe::CompressedServerKey::new(client_key)
}

/// `CompressedServerKey::decompress` of a sound compressed key (a malformed one
/// makes its asserts panic). The contract claims that the result is a
/// decompression of the argument, operable, and a server key of every client
/// key that the argument was compressed from.
#[verifier::external_body]
pub(crate) fn decompress_server_key(compressed: &tfhe::CompressedServerKey) -> (r: tfhe::ServerKey)
    requires
        sound_compressed_key(*compressed),
    ensures
        is_decompression(*compressed, r),
        operable_key(r),
        forall|ck: tfhe::ClientKey| is_compressed_key_of(ck, *compressed) ==> is_server_key_of(ck, r),
{
    compressed.decompress()
}

} // verus!
