//! Bytes for the values that travel between client and server or rest in
//! files: `bincode` (standard configuration) over the values' `serde` forms.
//! A ballot travels as its encrypted choice, which is how `bincode` writes a
//! struct of one field.
use vstd::prelude::*;
use crate::election::Ballot;
use crate::errors::AppError;
use crate::fhe::{operable_key, EncryptedChoice, EncryptedCount};

verus! {

#[verifier::external_type_specification]
#[verifier::external_body]
pub struct ExEncodeError(bincode::error::EncodeError);

#[verifier::external_type_specification]
#[verifier::external_body]
pub struct ExDecodeError(bincode::error::DecodeError);

/// The bytes that `bincode` writes for a client key, if it can write it.
pub uninterp spec fn encoded_client_key(value: tfhe::ClientKey) -> Option<Seq<u8>>;

/// The value that `bincode` reads as a client key from the start of `bytes`, if
/// they hold one.
pub uninterp spec fn decoded_client_key(bytes: Seq<u8>) -> Option<tfhe::ClientKey>;

/// `bincode::serde::encode_to_vec` of a client key. The contract names the outcome
/// `encoded_client_key` of the argument.
/// It also claims that reading the bytes back, followed by any others, gives
/// the value again: `serde`'s derived forms round-trip through `bincode`.
#[verifier::external_body]
fn encode_client_key(value: &tfhe::ClientKey) -> (r: Result<Vec<u8>, bincode::error::EncodeError>)
    ensures
        match r {
            Ok(b) => encoded_client_key(*value) == Some(b@) && forall|extra: Seq<u8>| #[trigger] decoded_client_key(b@ + extra) == Some(*value),
            Err(_) => encoded_client_key(*value) is None,
        },
{
    bincode::serde::encode_to_vec(value, bincode::config::standard())
}

/// `bincode::serde::decode_from_slice` of a client key; bytes after the value are
/// ignored. The contract names the outcome `decoded_client_key` of the argument.
/// Empty bytes hold no value.
#[verifier::external_body]
fn decode_client_key(bytes: &[u8]) -> (r: Result<tfhe::ClientKey, bincode::error::DecodeError>)
    ensures
        match r {
            Ok(v) => decoded_client_key(bytes@) == Some(v),
            Err(_) => decoded_client_key(bytes@) is None,
        },
        bytes@.len() == 0 ==> r is Err,
{
    bincode::serde::decode_from_slice::<tfhe::ClientKey, _>(bytes, bincode::config::standard()).map(|(v, _)| v)
}

/// Encodes a client key to bytes; an error of `bincode` becomes `AppError::Encode`.
/// Decoding the bytes, followed by any others, gives the value back.
pub fn client_key_to_bytes(value: &tfhe::ClientKey) -> (r: Result<Vec<u8>, AppError>)
    ensures
        match r {
            Ok(b) => encoded_client_key(*value) == Some(b@) && forall|extra: Seq<u8>| #[trigger] decoded_client_key(b@ + extra) == Some(*value),
            Err(e) => encoded_client_key(*value) is None && e is Encode,
        },
{
    match encode_client_key(value) {
        Ok(b) => Ok(b),
        Err(e) => Err(AppError::Encode(encode_error_text(&e))),
    }
}

/// Decodes a client key from bytes; an error of `bincode` becomes
/// `AppError::Decode`.
pub fn client_key_from_bytes(bytes: &[u8]) -> (r: Result<tfhe::ClientKey, AppError>)
    ensures
        match r {
            Ok(v) => decoded_client_key(bytes@) == Some(v),
            Err(e) => decoded_client_key(bytes@) is None && e is Decode,
        },
        bytes@.len() == 0 ==> r is Err,
{
    match decode_client_key(bytes) {
        Ok(v) => Ok(v),
        Err(e) => Err(AppError::Decode(decode_error_text(&e))),
    }
}

/// The bytes that `bincode` writes for a server key, if it can write it.
pub uninterp spec fn encoded_server_key(value: tfhe::ServerKey) -> Option<Seq<u8>>;

/// The value that `bincode` reads as a server key from the start of `bytes`, if
/// they hold one.
pub uninterp spec fn decoded_server_key(bytes: Seq<u8>) -> Option<tfhe::ServerKey>;

/// `bincode::serde::encode_to_vec` of a server key. The contract names the outcome
/// `encoded_server_key` of the argument. It also claims that reading the bytes
/// of an operable key back, followed by any others, gives the key again:
/// `serde`'s derived forms round-trip through `bincode`.
#[verifier::external_body]
fn encode_server_key(value: &tfhe::ServerKey) -> (r: Result<Vec<u8>, bincode::error::EncodeError>)
    ensures
        match r {
            Ok(b) => encoded_server_key(*value) == Some(b@) && (operable_key(*value) ==> forall|extra: Seq<u8>|
                #[trigger] decoded_server_key(b@ + extra) == Some(*value)),
            Err(_) => encoded_server_key(*value) is None,
        },
{
    bincode::serde::encode_to_vec(value, bincode::config::standard())
}

/// `bincode::serde::decode_from_slice` of a server key; bytes after the value are
/// ignored. Bytes that describe a multi-bit bootstrapping key with a grouping
/// factor other than 2 or 3 make `tfhe`'s deserialization panic (`todo!`), so
/// the bytes must be the encoding of an operable key. The contract names the
/// outcome `decoded_server_key` of the argument.
#[verifier::external_body]
fn decode_server_key(bytes: &[u8]) -> (r: Result<tfhe::ServerKey, bincode::error::DecodeError>)
    requires
        exists|k: tfhe::ServerKey| operable_key(k) && encoded_server_key(k) == Some(bytes@),
    ensures
        match r {
            Ok(v) => decoded_server_key(bytes@) == Some(v),
            Err(_) => decoded_server_key(bytes@) is None,
        },
        bytes@.len() == 0 ==> r is Err,
{
    bincode::serde::decode_from_slice::<tfhe::ServerKey, _>(bytes, bincode::config::standard()).map(|(v, _)| v)
}

/// Encodes a server key to bytes; an error of `bincode` becomes `AppError::Encode`.
/// Decoding the bytes of an operable key, followed by any others, gives the key
/// back.
pub fn server_key_to_bytes(value: &tfhe::ServerKey) -> (r: Result<Vec<u8>, AppError>)
    ensures
        match r {
            Ok(b) => encoded_server_key(*value) == Some(b@) && (operable_key(*value) ==> forall|extra: Seq<u8>|
                #[trigger] decoded_server_key(b@ + extra) == Some(*value)),
            Err(e) => encoded_server_key(*value) is None && e is Encode,
        },
{
    match encode_server_key(value) {
        Ok(b) => Ok(b),
        Err(e) => Err(AppError::Encode(encode_error_text(&e))),
    }
}

/// Decodes a server key from bytes that encode an operable server key (on
/// crafted bytes `tfhe`'s deserialization may panic); an error of `bincode`
/// becomes `AppError::Decode`.
pub fn server_key_from_bytes(bytes: &[u8]) -> (r: Result<tfhe::ServerKey, AppError>)
    requires
        exists|k: tfhe::ServerKey| operable_key(k) && encoded_server_key(k) == Some(bytes@),
    ensures
        match r {
            Ok(v) => decoded_server_key(bytes@) == Some(v),
            Err(e) => decoded_server_key(bytes@) is None && e is Decode,
        },
        bytes@.len() == 0 ==> r is Err,
{
    match decode_server_key(bytes) {
        Ok(v) => Ok(v),
        Err(e) => Err(AppError::Decode(decode_error_text(&e))),
    }
}

/// The bytes that `bincode` writes for a compressed server key, if it can write it.
pub uninterp spec fn encoded_compressed_key(value: tfhe::CompressedServerKey) -> Option<Seq<u8>>;

/// The value that `bincode` reads as a compressed server key from the start of `bytes`, if
/// they hold one.
pub uninterp spec fn decoded_compressed_key(bytes: Seq<u8>) -> Option<tfhe::CompressedServerKey>;

/// `bincode::serde::encode_to_vec` of a compressed server key. The contract names the outcome
/// `encoded_compressed_key` of the argument.
/// It also claims that reading the bytes back, followed by any others, gives
/// the value again: `serde`'s derived forms round-trip through `bincode`.
#[verifier::external_body]
fn encode_compressed_key(value: &tfhe::CompressedServerKey) -> (r: Result<Vec<u8>, bincode::error::EncodeError>)
    ensures
        match r {
            Ok(b) => encoded_compressed_key(*value) == Some(b@) && forall|extra: Seq<u8>| #[trigger] decoded_compressed_key(b@ + extra) == Some(*value),
            Err(_) => encoded_compressed_key(*value) is None,
        },
{
    bincode::serde::encode_to_vec(value, bincode::config::standard())
}

/// `bincode::serde::decode_from_slice` of a compressed server key; bytes after the value are
/// ignored. The contract names the outcome `decoded_compressed_key` of the argument.
/// Empty bytes hold no value.
#[verifier::external_body]
fn decode_compressed_key(bytes: &[u8]) -> (r: Result<tfhe::CompressedServerKey, bincode::error::DecodeError>)
    ensures
        match r {
            Ok(v) => decoded_compressed_key(bytes@) == Some(v),
            Err(_) => decoded_compressed_key(bytes@) is None,
        },
        bytes@.len() == 0 ==> r is Err,
{
    bincode::serde::decode_from_slice::<tfhe::CompressedServerKey, _>(bytes, bincode::config::standard()).map(|(v, _)| v)
}

/// Encodes a compressed server key to bytes; an error of `bincode` becomes `AppError::Encode`.
/// Decoding the bytes, followed by any others, gives the value back.
pub fn compressed_key_to_bytes(value: &tfhe::CompressedServerKey) -> (r: Result<Vec<u8>, AppError>)
    ensures
        match r {
            Ok(b) => encoded_compressed_key(*value) == Some(b@) && forall|extra: Seq<u8>| #[trigger] decoded_compressed_key(b@ + extra) == Some(*value),
            Err(e) => encoded_compressed_key(*value) is None && e is Encode,
        },
{
    match encode_compressed_key(value) {
        Ok(b) => Ok(b),
        Err(e) => Err(AppError::Encode(encode_error_text(&e))),
    }
}

/// Decodes a compressed server key from bytes; an error of `bincode` becomes
/// `AppError::Decode`.
pub fn compressed_key_from_bytes(bytes: &[u8]) -> (r: Result<tfhe::CompressedServerKey, AppError>)
    ensures
        match r {
            Ok(v) => decoded_compressed_key(bytes@) == Some(v),
            Err(e) => decoded_compressed_key(bytes@) is None && e is Decode,
        },
        bytes@.len() == 0 ==> r is Err,
{
    match decode_compressed_key(bytes) {
        Ok(v) => Ok(v),
        Err(e) => Err(AppError::Decode(decode_error_text(&e))),
    }
}

/// The bytes that `bincode` writes for a ballot, if it can write it.
pub uninterp spec fn encoded_ballot(value: Ballot) -> Option<Seq<u8>>;

/// The value that `bincode` reads as a ballot from the start of `bytes`, if
/// they hold one.
pub uninterp spec fn decoded_ballot(bytes: Seq<u8>) -> Option<Ballot>;

/// `bincode::serde::encode_to_vec` of a ballot. The contract names the outcome
/// `encoded_ballot` of the argument.
/// It also claims that reading the bytes back, followed by any others, gives
/// the value again: `serde`'s derived forms round-trip through `bincode`.
#[verifier::external_body]
fn encode_ballot(value: &Ballot) -> (r: Result<Vec<u8>, bincode::error::EncodeError>)
    ensures
        match r {
            Ok(b) => encoded_ballot(*value) == Some(b@) && forall|extra: Seq<u8>| #[trigger] decoded_ballot(b@ + extra) == Some(*value),
            Err(_) => encoded_ballot(*value) is None,
        },
{
    bincode::serde::encode_to_vec(&value.encrypted_choice.ct, bincode::config::standard())
}

/// `bincode::serde::decode_from_slice` of a ballot; bytes after the value are
/// ignored. The contract names the outcome `decoded_ballot` of the argument.
/// Empty bytes hold no value.
#[verifier::external_body]
fn decode_ballot(bytes: &[u8]) -> (r: Result<Ballot, bincode::error::DecodeError>)
    ensures
        match r {
            Ok(v) => decoded_ballot(bytes@) == Some(v),
            Err(_) => decoded_ballot(bytes@) is None,
        },
        bytes@.len() == 0 ==> r is Err,
{
    bincode::serde::decode_from_slice::<tfhe::FheUint8, _>(bytes, bincode::config::standard()).map(|(ct, _)| Ballot { encrypted_choice: EncryptedChoice { ct } })
}

/// Encodes a ballot to bytes; an error of `bincode` becomes `AppError::Encode`.
/// Decoding the bytes, followed by any others, gives the value back.
pub fn ballot_to_bytes(value: &Ballot) -> (r: Result<Vec<u8>, AppError>)
    ensures
        match r {
            Ok(b) => encoded_ballot(*value) == Some(b@) && forall|extra: Seq<u8>| #[trigger] decoded_ballot(b@ + extra) == Some(*value),
            Err(e) => encoded_ballot(*value) is None && e is Encode,
        },
{
    match encode_ballot(value) {
        Ok(b) => Ok(b),
        Err(e) => Err(AppError::Encode(encode_error_text(&e))),
    }
}

/// Decodes a ballot from bytes; an error of `bincode` becomes
/// `AppError::Decode`.
pub fn ballot_from_bytes(bytes: &[u8]) -> (r: Result<Ballot, AppError>)
    ensures
        match r {
            Ok(v) => decoded_ballot(bytes@) == Some(v),
            Err(e) => decoded_ballot(bytes@) is None && e is Decode,
        },
        bytes@.len() == 0 ==> r is Err,
{
    match decode_ballot(bytes) {
        Ok(v) => Ok(v),
        Err(e) => Err(AppError::Decode(decode_error_text(&e))),
    }
}

/// The bytes that `bincode` writes for a list of ballots, if it can write it.
pub uninterp spec fn encoded_ballots(value: Seq<Ballot>) -> Option<Seq<u8>>;

/// The value that `bincode` reads as a list of ballots from the start of `bytes`, if
/// they hold one.
pub uninterp spec fn decoded_ballots(bytes: Seq<u8>) -> Option<Seq<Ballot>>;

/// `bincode::serde::encode_to_vec` of a list of ballots. The contract names the outcome
/// `encoded_ballots` of the argument.
/// It also claims that reading the bytes back, followed by any others, gives
/// the value again: `serde`'s derived forms round-trip through `bincode`.
#[verifier::external_body]
fn encode_ballots(value: &Vec<Ballot>) -> (r: Result<Vec<u8>, bincode::error::EncodeError>)
    ensures
        match r {
            Ok(b) => encoded_ballots(value@) == Some(b@) && forall|extra: Seq<u8>| #[trigger] decoded_ballots(b@ + extra) == Some(value@),
            Err(_) => encoded_ballots(value@) is None,
        },
{
    bincode::serde::encode_to_vec(value.iter().map(|b| &b.encrypted_choice.ct).collect::<Vec<_>>(), bincode::config::standard())
}

/// `bincode::serde::decode_from_slice` of a list of ballots; bytes after the value are
/// ignored. The contract names the outcome `decoded_ballots` of the argument.
/// Empty bytes hold no value.
#[verifier::external_body]
fn decode_ballots(bytes: &[u8]) -> (r: Result<Vec<Ballot>, bincode::error::DecodeError>)
    ensures
        match r {
            Ok(v) => decoded_ballots(bytes@) == Some(v@),
            Err(_) => decoded_ballots(bytes@) is None,
        },
        bytes@.len() == 0 ==> r is Err,
{
    bincode::serde::decode_from_slice::<Vec<tfhe::FheUint8>, _>(bytes, bincode::config::standard()).map(|(cts, _)| cts.into_iter().map(|ct| Ballot { encrypted_choice: EncryptedChoice { ct } }).collect())
}

/// Encodes a list of ballots to bytes; an error of `bincode` becomes `AppError::Encode`.
/// Decoding the bytes, followed by any others, gives the value back.
pub fn ballots_to_bytes(value: &Vec<Ballot>) -> (r: Result<Vec<u8>, AppError>)
    ensures
        match r {
            Ok(b) => encoded_ballots(value@) == Some(b@) && forall|extra: Seq<u8>| #[trigger] decoded_ballots(b@ + extra) == Some(value@),
            Err(e) => encoded_ballots(value@) is None && e is Encode,
        },
{
    match encode_ballots(value) {
        Ok(b) => Ok(b),
        Err(e) => Err(AppError::Encode(encode_error_text(&e))),
    }
}

/// Decodes a list of ballots from bytes; an error of `bincode` becomes
/// `AppError::Decode`.
pub fn ballots_from_bytes(bytes: &[u8]) -> (r: Result<Vec<Ballot>, AppError>)
    ensures
        match r {
            Ok(v) => decoded_ballots(bytes@) == Some(v@),
            Err(e) => decoded_ballots(bytes@) is None && e is Decode,
        },
        bytes@.len() == 0 ==> r is Err,
{
    match decode_ballots(bytes) {
        Ok(v) => Ok(v),
        Err(e) => Err(AppError::Decode(decode_error_text(&e))),
    }
}

/// The bytes that `bincode` writes for a list of encrypted counts, if it can write it.
pub uninterp spec fn encoded_counts(value: Seq<EncryptedCount>) -> Option<Seq<u8>>;

/// The value that `bincode` reads as a list of encrypted counts from the start of `bytes`, if
/// they hold one.
pub uninterp spec fn decoded_counts(bytes: Seq<u8>) -> Option<Seq<EncryptedCount>>;

/// `bincode::serde::encode_to_vec` of a list of encrypted counts. The contract names the outcome
/// `encoded_counts` of the argument.
/// It also claims that reading the bytes back, followed by any others, gives
/// the value again: `serde`'s derived forms round-trip through `bincode`.
#[verifier::external_body]
fn encode_counts(value: &Vec<EncryptedCount>) -> (r: Result<Vec<u8>, bincode::error::EncodeError>)
    ensures
        match r {
            Ok(b) => encoded_counts(value@) == Some(b@) && forall|extra: Seq<u8>| #[trigger] decoded_counts(b@ + extra) == Some(value@),
            Err(_) => encoded_counts(value@) is None,
        },
{
    bincode::serde::encode_to_vec(value.iter().map(|c| &c.ct).collect::<Vec<_>>(), bincode::config::standard())
}

/// `bincode::serde::decode_from_slice` of a list of encrypted counts; bytes after the value are
/// ignored. The contract names the outcome `decoded_counts` of the argument.
/// Empty bytes hold no value.
#[verifier::external_body]
fn decode_counts(bytes: &[u8]) -> (r: Result<Vec<EncryptedCount>, bincode::error::DecodeError>)
    ensures
        match r {
            Ok(v) => decoded_counts(bytes@) == Some(v@),
            Err(_) => decoded_counts(bytes@) is None,
        },
        bytes@.len() == 0 ==> r is Err,
{
    bincode::serde::decode_from_slice::<Vec<tfhe::FheUint32>, _>(bytes, bincode::config::standard()).map(|(cts, _)| cts.into_iter().map(|ct| EncryptedCount { ct }).collect())
}

/// Encodes a list of encrypted counts to bytes; an error of `bincode` becomes `AppError::Encode`.
/// Decoding the bytes, followed by any others, gives the value back.
pub fn counts_to_bytes(value: &Vec<EncryptedCount>) -> (r: Result<Vec<u8>, AppError>)
    ensures
        match r {
            Ok(b) => encoded_counts(value@) == Some(b@) && forall|extra: Seq<u8>| #[trigger] decoded_counts(b@ + extra) == Some(value@),
            Err(e) => encoded_counts(value@) is None && e is Encode,
        },
{
    match encode_counts(value) {
        Ok(b) => Ok(b),
        Err(e) => Err(AppError::Encode(encode_error_text(&e))),
    }
}

/// Decodes a list of encrypted counts from bytes; an error of `bincode` becomes
/// `AppError::Decode`.
pub fn counts_from_bytes(bytes: &[u8]) -> (r: Result<Vec<EncryptedCount>, AppError>)
    ensures
        match r {
            Ok(v) => decoded_counts(bytes@) == Some(v@),
            Err(e) => decoded_counts(bytes@) is None && e is Decode,
        },
        bytes@.len() == 0 ==> r is Err,
{
    match decode_counts(bytes) {
        Ok(v) => Ok(v),
        Err(e) => Err(AppError::Decode(decode_error_text(&e))),
    }
}

/// The bytes that `bincode` writes for an encrypted count, if it can write it.
pub uninterp spec fn encoded_count(value: EncryptedCount) -> Option<Seq<u8>>;

/// The value that `bincode` reads as an encrypted count from the start of `bytes`, if
/// they hold one.
pub uninterp spec fn decoded_count(bytes: Seq<u8>) -> Option<EncryptedCount>;

/// `bincode::serde::encode_to_vec` of an encrypted count. The contract names the outcome
/// `encoded_count` of the argument.
#[verifier::external_body]
fn encode_count(value: &EncryptedCount) -> (r: Result<Vec<u8>, bincode::error::EncodeError>)
    ensures
        match r {
            Ok(b) => encoded_count(*value) == Some(b@) && forall|extra: Seq<u8>| #[trigger] decoded_count(b@ + extra) == Some(*value),
            Err(_) => encoded_count(*value) is None,
        },
{
    bincode::serde::encode_to_vec(&value.ct, bincode::config::standard())
}

/// `bincode::serde::decode_from_slice` of an encrypted count; bytes after the value are
/// ignored. The contract names the outcome `decoded_count` of the argument.
/// Empty bytes hold no value.
#[verifier::external_body]
fn decode_count(bytes: &[u8]) -> (r: Result<EncryptedCount, bincode::error::DecodeError>)
    ensures
        match r {
            Ok(v) => decoded_count(bytes@) == Some(v),
            Err(_) => decoded_count(bytes@) is None,
        },
        bytes@.len() == 0 ==> r is Err,
{
    bincode::serde::decode_from_slice::<tfhe::FheUint32, _>(bytes, bincode::config::standard()).map(|(ct, _)| EncryptedCount { ct })
}

/// Encodes an encrypted count to bytes; an error of `bincode` becomes `AppError::Encode`.
/// Decoding the bytes, followed by any others, gives the value back.
pub fn count_to_bytes(value: &EncryptedCount) -> (r: Result<Vec<u8>, AppError>)
    ensures
        match r {
            Ok(b) => encoded_count(*value) == Some(b@) && forall|extra: Seq<u8>| #[trigger] decoded_count(b@ + extra) == Some(*value),
            Err(e) => encoded_count(*value) is None && e is Encode,
        },
{
    match encode_count(value) {
        Ok(b) => Ok(b),
        Err(e) => Err(AppError::Encode(encode_error_text(&e))),
    }
}

/// Decodes an encrypted count from bytes; an error of `bincode` becomes
/// `AppError::Decode`.
pub fn count_from_bytes(bytes: &[u8]) -> (r: Result<EncryptedCount, AppError>)
    ensures
        match r {
            Ok(v) => decoded_count(bytes@) == Some(v),
            Err(e) => decoded_count(bytes@) is None && e is Decode,
        },
        bytes@.len() == 0 ==> r is Err,
{
    match decode_count(bytes) {
        Ok(v) => Ok(v),
        Err(e) => Err(AppError::Decode(decode_error_text(&e))),
    }
}

/// The `Display` text of a `bincode` encoding error. Nothing is claimed of it.
#[verifier::external_body]
fn encode_error_text(err: &bincode::error::EncodeError) -> String {
    err.to_string()
}

/// The `Display` text of a `bincode` decoding error. Nothing is claimed of it.
#[verifier::external_body]
fn decode_error_text(err: &bincode::error::DecodeError) -> String {
    err.to_string()
}

} // verus!
