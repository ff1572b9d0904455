//! The single-process walk-through's server side: every operation on
//! encrypted data, none of which needs the secret key.
use vstd::prelude::*;
use crate::election::{Ballot, NUM_CANDIDATES};
use crate::fhe::{choice_fits, count_fits, install_server_key, operable_key, EncryptedCount};
use crate::tally::{tally_installed, tally_result};

verus! {

/// Computes the encrypted per-candidate counts of `ballots`, every count
/// starting from `initial_count` (an encryption that the client provides).
/// Makes `server_key` the thread's server key first. The key must be operable,
/// and the ballots and the initial count must fit it: on others `tfhe`'s
/// operations panic.
pub fn tally(server_key: &tfhe::ServerKey, ballots: &[Ballot], initial_count: &EncryptedCount) -> (counts: Vec<EncryptedCount>)
    requires
        operable_key(*server_key),
        count_fits(*server_key, *initial_count),
        forall|i: int| 0 <= i < ballots@.len() ==> choice_fits(*server_key, #[trigger] ballots@[i].encrypted_choice),
    ensures
        tally_result(*server_key, ballots@, *initial_count, counts@),
        counts@.len() == NUM_CANDIDATES,
        forall|c: int| 0 <= c < NUM_CANDIDATES ==> count_fits(*server_key, #[trigger] counts@[c]),
{
    let installed = install_server_key(server_key);
    tally_installed(&installed, ballots, initial_count)
}

} // verus!
