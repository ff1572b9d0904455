//! The homomorphic count: the server adds up encrypted ballots without ever
//! seeing a vote.
use vstd::prelude::*;
use crate::election::{Ballot, Candidate, NUM_CANDIDATES};
use crate::text::spec_result_line;
use crate::fhe::{
    bool_fits, choice_fits, clone_count, count_fits,
    decrypted_count, encrypt_trivial_count, encrypted_add_assign, encrypted_equals, encrypted_select,
    install_server_key, is_encryption_of, is_server_key_of, is_equality_test, is_selection, is_sum, operable_key,
    trivial_count, EncryptedChoice, EncryptedCount, InstalledKey,
};

verus! {

/// What counting one ballot for one candidate produced: the encrypted test
/// whether the ballot is for the candidate, the encrypted 1 or 0 selected by
/// it, and the candidate's count with it added.
pub struct CountStep {
    pub test: tfhe::FheBool,
    pub indicator: EncryptedCount,
    pub sum: EncryptedCount,
}

/// `step` is what counting `ballot` for the candidate with id `candidate`
/// produces from the count `before`: an equality test of the ballot's choice
/// with the id, a selection between the encryptions of 1 and 0 by that test,
/// and the sum of `before` and the selection.
pub open spec fn step_valid(key: tfhe::ServerKey, ballot: Ballot, candidate: int, before: EncryptedCount, step: CountStep) -> bool {
    &&& is_equality_test(key, ballot.encrypted_choice, candidate as u8, step.test)
    &&& is_selection(key, step.test, trivial_count(key, 1), trivial_count(key, 0), step.indicator)
    &&& is_sum(key, before, step.indicator, step.sum)
}

/// The count of the candidate with id `candidate` after the first `n` rows of
/// `trace`, each count starting from `initial`.
pub open spec fn count_at(initial: EncryptedCount, trace: Seq<Seq<CountStep>>, n: int, candidate: int) -> EncryptedCount {
    if n <= 0 {
        initial
    } else {
        trace[n - 1][candidate].sum
    }
}

/// `trace` records a run of the tally over `ballots`: one row per ballot, in
/// order, each row holding one valid step per candidate, starting from the
/// counts before that ballot.
#[verifier::opaque]
pub open spec fn tally_trace(key: tfhe::ServerKey, ballots: Seq<Ballot>, initial: EncryptedCount, trace: Seq<Seq<CountStep>>) -> bool {
    &&& trace.len() == ballots.len()
    &&& forall|i: int| 0 <= i < trace.len() ==> (#[trigger] trace[i]).len() == NUM_CANDIDATES
    &&& forall|i: int, c: int|
        0 <= i < trace.len() && 0 <= c < NUM_CANDIDATES ==> step_valid(
            key,
            ballots[i],
            c,
            count_at(initial, trace, i, c),
            #[trigger] trace[i][c],
        )
}

/// The counts after the first `n` rows of `trace`: entry `c` is the count of
/// the candidate with id `c`.
pub open spec fn trace_counts(initial: EncryptedCount, trace: Seq<Seq<CountStep>>, n: int) -> Seq<EncryptedCount> {
    Seq::new(NUM_CANDIDATES as nat, |c: int| count_at(initial, trace, n, c))
}

/// `counts` is a possible result of tallying `ballots` in order under `key`,
/// each count starting from `initial`.
pub open spec fn tally_result(key: tfhe::ServerKey, ballots: Seq<Ballot>, initial: EncryptedCount, counts: Seq<EncryptedCount>) -> bool {
    exists|trace: Seq<Seq<CountStep>>|
        #[trigger] tally_trace(key, ballots, initial, trace) && counts == trace_counts(initial, trace, ballots.len() as int)
}

/// `dec_choice`, `dec_bool` and `dec_count` read the step's ciphertexts as
/// computing on what they hold: the test holds whether the ballot's choice is
/// the id, the selection holds 1 or 0 by the test, and the sum holds the sum
/// modulo 2^32.
pub open spec fn step_decrypts(
    ballot: Ballot,
    candidate: int,
    before: EncryptedCount,
    step: CountStep,
    dec_choice: spec_fn(EncryptedChoice) -> u8,
    dec_bool: spec_fn(tfhe::FheBool) -> bool,
    dec_count: spec_fn(EncryptedCount) -> u32,
) -> bool {
    &&& dec_bool(step.test) == (dec_choice(ballot.encrypted_choice) == candidate as u8)
    &&& dec_count(step.indicator) == if dec_bool(step.test) { 1u32 } else { 0u32 }
    &&& dec_count(step.sum) as int == (dec_count(before) as int + dec_count(step.indicator) as int) % 0x1_0000_0000
}

/// Every step of `trace` decrypts as computing on what its ciphertexts hold.
pub open spec fn trace_decrypts(
    ballots: Seq<Ballot>,
    initial: EncryptedCount,
    trace: Seq<Seq<CountStep>>,
    dec_choice: spec_fn(EncryptedChoice) -> u8,
    dec_bool: spec_fn(tfhe::FheBool) -> bool,
    dec_count: spec_fn(EncryptedCount) -> u32,
) -> bool {
    forall|i: int, c: int|
        0 <= i < trace.len() && 0 <= c < NUM_CANDIDATES ==> step_decrypts(
            ballots[i],
            c,
            count_at(initial, trace, i, c),
            #[trigger] trace[i][c],
            dec_choice,
            dec_bool,
            dec_count,
        )
}

/// `counts` comes from a run of the tally over `ballots` whose every step
/// decrypts as computing on what its ciphertexts hold: the hypothesis speaks of
/// the ciphertexts of that run alone.
pub open spec fn faithful_tally(
    key: tfhe::ServerKey,
    ballots: Seq<Ballot>,
    initial: EncryptedCount,
    counts: Seq<EncryptedCount>,
    dec_choice: spec_fn(EncryptedChoice) -> u8,
    dec_bool: spec_fn(tfhe::FheBool) -> bool,
    dec_count: spec_fn(EncryptedCount) -> u32,
) -> bool {
    exists|trace: Seq<Seq<CountStep>>|
        #[trigger] tally_trace(key, ballots, initial, trace) && trace_decrypts(
            ballots,
            initial,
            trace,
            dec_choice,
            dec_bool,
            dec_count,
        ) && counts == trace_counts(initial, trace, ballots.len() as int)
}

/// The number of ballots among `ballots` whose choice `dec` reads as `id`.
pub open spec fn votes_for(ballots: Seq<Ballot>, dec: spec_fn(EncryptedChoice) -> u8, id: int) -> nat
    decreases ballots.len(),
{
    if ballots.len() == 0 {
        0
    } else {
        votes_for(ballots.drop_last(), dec, id) + if dec(ballots.last().encrypted_choice) as int == id {
            1nat
        } else {
            0nat
        }
    }
}

/// The number of ballots among `ballots` whose choice `dec` reads as the id of
/// some candidate.
pub open spec fn valid_ballots(ballots: Seq<Ballot>, dec: spec_fn(EncryptedChoice) -> u8) -> nat
    decreases ballots.len(),
{
    if ballots.len() == 0 {
        0
    } else {
        valid_ballots(ballots.drop_last(), dec) + if (dec(ballots.last().encrypted_choice) as int) < NUM_CANDIDATES {
            1nat
        } else {
            0nat
        }
    }
}

/// The sum of `votes_for` over the ids below `n`.
pub open spec fn total_votes(ballots: Seq<Ballot>, dec: spec_fn(EncryptedChoice) -> u8, n: nat) -> nat
    decreases n,
{
    if n == 0 {
        0
    } else {
        total_votes(ballots, dec, (n - 1) as nat) + votes_for(ballots, dec, n - 1)
    }
}

proof fn lemma_votes_for_bounded(ballots: Seq<Ballot>, dec: spec_fn(EncryptedChoice) -> u8, id: int)
    ensures
        votes_for(ballots, dec, id) <= ballots.len(),
    decreases ballots.len(),
{
    if ballots.len() > 0 {
        lemma_votes_for_bounded(ballots.drop_last(), dec, id);
    }
}

proof fn lemma_total_votes_step(ballots: Seq<Ballot>, dec: spec_fn(EncryptedChoice) -> u8, n: nat)
    requires
        ballots.len() > 0,
    ensures
        total_votes(ballots, dec, n) == total_votes(ballots.drop_last(), dec, n) + if (dec(
            ballots.last().encrypted_choice,
        ) as int) < n {
            1nat
        } else {
            0nat
        },
    decreases n,
{
    if n > 0 {
        lemma_total_votes_step(ballots, dec, (n - 1) as nat);
    }
}

/// Every ballot is counted once if it names a candidate, and for no one if it
/// does not: over all candidates, the votes add up to the number of ballots
/// whose choice is the id of some candidate.
pub proof fn lemma_each_ballot_counted_once(ballots: Seq<Ballot>, dec: spec_fn(EncryptedChoice) -> u8)
    ensures
        total_votes(ballots, dec, NUM_CANDIDATES as nat) == valid_ballots(ballots, dec),
    decreases ballots.len(),
{
    if ballots.len() > 0 {
        lemma_each_ballot_counted_once(ballots.drop_last(), dec);
        lemma_total_votes_step(ballots, dec, NUM_CANDIDATES as nat);
    } else {
        reveal_with_fuel(total_votes, 3);
    }
}

/// The number of `votes` for the candidate with id `id`.
pub open spec fn votes_cast(votes: Seq<Candidate>, id: int) -> nat
    decreases votes.len(),
{
    if votes.len() == 0 {
        0
    } else {
        votes_cast(votes.drop_last(), id) + if votes.last().spec_id() as int == id {
            1nat
        } else {
            0nat
        }
    }
}


proof fn lemma_trace_counts_votes(
    key: tfhe::ServerKey,
    ballots: Seq<Ballot>,
    initial: EncryptedCount,
    trace: Seq<Seq<CountStep>>,
    dec_choice: spec_fn(EncryptedChoice) -> u8,
    dec_bool: spec_fn(tfhe::FheBool) -> bool,
    dec_count: spec_fn(EncryptedCount) -> u32,
    n: int,
)
    requires
        tally_trace(key, ballots, initial, trace),
        trace_decrypts(ballots, initial, trace, dec_choice, dec_bool, dec_count),
        0 <= n <= ballots.len(),
    ensures
        forall|c: int|
            0 <= c < NUM_CANDIDATES ==> #[trigger] dec_count(count_at(initial, trace, n, c)) as int == (
            dec_count(initial) as int + votes_for(ballots.take(n), dec_choice, c)) % 0x1_0000_0000,
    decreases n,
{
    reveal(tally_trace);
    if n == 0 {
        assert forall|c: int| 0 <= c < NUM_CANDIDATES implies #[trigger] dec_count(count_at(initial, trace, n, c)) as int
            == (dec_count(initial) as int + votes_for(ballots.take(n), dec_choice, c)) % 0x1_0000_0000 by {
            vstd::arithmetic::div_mod::lemma_small_mod(dec_count(initial) as nat, 0x1_0000_0000);
        }
    } else {
        lemma_trace_counts_votes(key, ballots, initial, trace, dec_choice, dec_bool, dec_count, n - 1);
        assert(ballots.take(n).drop_last() =~= ballots.take(n - 1));
        assert forall|c: int| 0 <= c < NUM_CANDIDATES implies #[trigger] dec_count(count_at(initial, trace, n, c)) as int
            == (dec_count(initial) as int + votes_for(ballots.take(n), dec_choice, c)) % 0x1_0000_0000 by {
            let step = trace[n - 1][c];
            let prev = count_at(initial, trace, n - 1, c);
            assert(step_decrypts(ballots[n - 1], c, prev, step, dec_choice, dec_bool, dec_count));
            assert((c as u8) as int == c);
            assert(ballots.take(n).last() == ballots[n - 1]);
            let hit: int = if dec_choice(ballots[n - 1].encrypted_choice) as int == c { 1 } else { 0 };
            assert(dec_count(step.indicator) as int == hit);
            let a = dec_count(initial) as int + votes_for(ballots.take(n - 1), dec_choice, c);
            assert(dec_count(prev) as int == a % 0x1_0000_0000);
            vstd::arithmetic::div_mod::lemma_add_mod_noop(a, hit, 0x1_0000_0000);
            vstd::arithmetic::div_mod::lemma_small_mod(hit as nat, 0x1_0000_0000);
            vstd::arithmetic::div_mod::lemma_mod_twice(a, 0x1_0000_0000);
        }
    }
}

/// The tally counts the votes: when the run that produced `counts` decrypts as
/// computing on what its ciphertexts hold, the count of each candidate decrypts
/// to its initial value plus the number of ballots that decrypt to that
/// candidate's id, modulo 2^32.
pub proof fn lemma_tally_counts_votes(
    key: tfhe::ServerKey,
    ballots: Seq<Ballot>,
    initial: EncryptedCount,
    counts: Seq<EncryptedCount>,
    dec_choice: spec_fn(EncryptedChoice) -> u8,
    dec_bool: spec_fn(tfhe::FheBool) -> bool,
    dec_count: spec_fn(EncryptedCount) -> u32,
)
    requires
        faithful_tally(key, ballots, initial, counts, dec_choice, dec_bool, dec_count),
    ensures
        counts.len() == NUM_CANDIDATES,
        forall|c: int|
            0 <= c < NUM_CANDIDATES ==> #[trigger] dec_count(counts[c]) as int == (dec_count(initial) as int
                + votes_for(ballots, dec_choice, c)) % 0x1_0000_0000,
{
    let trace = choose|trace: Seq<Seq<CountStep>>|
        #[trigger] tally_trace(key, ballots, initial, trace) && trace_decrypts(
            ballots,
            initial,
            trace,
            dec_choice,
            dec_bool,
            dec_count,
        ) && counts == trace_counts(initial, trace, ballots.len() as int);
    lemma_trace_counts_votes(key, ballots, initial, trace, dec_choice, dec_bool, dec_count, ballots.len() as int);
    assert(ballots.take(ballots.len() as int) =~= ballots);
    assert forall|c: int| 0 <= c < NUM_CANDIDATES implies #[trigger] dec_count(counts[c]) as int == (dec_count(
        initial,
    ) as int + votes_for(ballots, dec_choice, c)) % 0x1_0000_0000 by {
        assert(counts[c] == count_at(initial, trace, ballots.len() as int, c));
    }
}

/// Counting from an encryption of 0 that decrypts to 0, and with fewer than
/// 2^32 ballots, each candidate's count decrypts to the number of ballots that
/// decrypt to its id, when the run decrypts as computing on what its
/// ciphertexts hold.
pub proof fn lemma_tally_from_zero_counts_votes(
    key: tfhe::ServerKey,
    ballots: Seq<Ballot>,
    counts: Seq<EncryptedCount>,
    dec_choice: spec_fn(EncryptedChoice) -> u8,
    dec_bool: spec_fn(tfhe::FheBool) -> bool,
    dec_count: spec_fn(EncryptedCount) -> u32,
)
    requires
        faithful_tally(key, ballots, trivial_count(key, 0), counts, dec_choice, dec_bool, dec_count),
        dec_count(trivial_count(key, 0)) == 0,
        ballots.len() < 0x1_0000_0000,
    ensures
        counts.len() == NUM_CANDIDATES,
        forall|c: int| 0 <= c < NUM_CANDIDATES ==> #[trigger] dec_count(counts[c]) == votes_for(ballots, dec_choice, c),
{
    lemma_tally_counts_votes(key, ballots, trivial_count(key, 0), counts, dec_choice, dec_bool, dec_count);
    assert forall|c: int| 0 <= c < NUM_CANDIDATES implies #[trigger] dec_count(counts[c]) == votes_for(
        ballots,
        dec_choice,
        c,
    ) by {
        lemma_votes_for_bounded(ballots, dec_choice, c);
        vstd::arithmetic::div_mod::lemma_small_mod(votes_for(ballots, dec_choice, c), 0x1_0000_0000);
    }
}

proof fn lemma_votes_for_concat(a: Seq<Ballot>, b: Seq<Ballot>, dec: spec_fn(EncryptedChoice) -> u8, id: int)
    ensures
        votes_for(a + b, dec, id) == votes_for(a, dec, id) + votes_for(b, dec, id),
    decreases b.len(),
{
    if b.len() == 0 {
        assert(a + b =~= a);
    } else {
        assert((a + b).drop_last() =~= a + b.drop_last());
        assert((a + b).last() == b.last());
        lemma_votes_for_concat(a, b.drop_last(), dec, id);
    }
}

/// Tallies add up: the counts of the ballots `a` followed by `b` decrypt to the
/// sums of the counts of `a` and of `b` (all counted from an encryption of 0
/// that decrypts to 0, with fewer than 2^32 ballots in all, and each run
/// decrypting as computing on what its ciphertexts hold).
pub proof fn lemma_tallies_add_up(
    key: tfhe::ServerKey,
    a: Seq<Ballot>,
    b: Seq<Ballot>,
    counts_a: Seq<EncryptedCount>,
    counts_b: Seq<EncryptedCount>,
    counts_ab: Seq<EncryptedCount>,
    dec_choice: spec_fn(EncryptedChoice) -> u8,
    dec_bool: spec_fn(tfhe::FheBool) -> bool,
    dec_count: spec_fn(EncryptedCount) -> u32,
)
    requires
        faithful_tally(key, a, trivial_count(key, 0), counts_a, dec_choice, dec_bool, dec_count),
        faithful_tally(key, b, trivial_count(key, 0), counts_b, dec_choice, dec_bool, dec_count),
        faithful_tally(key, a + b, trivial_count(key, 0), counts_ab, dec_choice, dec_bool, dec_count),
        dec_count(trivial_count(key, 0)) == 0,
        a.len() + b.len() < 0x1_0000_0000,
    ensures
        forall|c: int|
            0 <= c < NUM_CANDIDATES ==> #[trigger] dec_count(counts_ab[c]) as int == dec_count(counts_a[c]) as int
                + dec_count(counts_b[c]) as int,
{
    lemma_tally_from_zero_counts_votes(key, a, counts_a, dec_choice, dec_bool, dec_count);
    lemma_tally_from_zero_counts_votes(key, b, counts_b, dec_choice, dec_bool, dec_count);
    lemma_tally_from_zero_counts_votes(key, a + b, counts_ab, dec_choice, dec_bool, dec_count);
    assert forall|c: int| 0 <= c < NUM_CANDIDATES implies #[trigger] dec_count(counts_ab[c]) as int == dec_count(
        counts_a[c],
    ) as int + dec_count(counts_b[c]) as int by {
        lemma_votes_for_concat(a, b, dec_choice, c);
    }
}

/// The counts do not depend on the order of the ballots: tallying `a` then `b`
/// and tallying `b` then `a` give counts that decrypt alike (under the
/// hypotheses of `lemma_tallies_add_up`).
pub proof fn lemma_tally_ignores_order(
    key: tfhe::ServerKey,
    a: Seq<Ballot>,
    b: Seq<Ballot>,
    counts_ab: Seq<EncryptedCount>,
    counts_ba: Seq<EncryptedCount>,
    dec_choice: spec_fn(EncryptedChoice) -> u8,
    dec_bool: spec_fn(tfhe::FheBool) -> bool,
    dec_count: spec_fn(EncryptedCount) -> u32,
)
    requires
        faithful_tally(key, a + b, trivial_count(key, 0), counts_ab, dec_choice, dec_bool, dec_count),
        faithful_tally(key, b + a, trivial_count(key, 0), counts_ba, dec_choice, dec_bool, dec_count),
        dec_count(trivial_count(key, 0)) == 0,
        a.len() + b.len() < 0x1_0000_0000,
    ensures
        forall|c: int| 0 <= c < NUM_CANDIDATES ==> #[trigger] dec_count(counts_ab[c]) == dec_count(counts_ba[c]),
{
    lemma_tally_from_zero_counts_votes(key, a + b, counts_ab, dec_choice, dec_bool, dec_count);
    lemma_tally_from_zero_counts_votes(key, b + a, counts_ba, dec_choice, dec_bool, dec_count);
    assert forall|c: int| 0 <= c < NUM_CANDIDATES implies #[trigger] dec_count(counts_ab[c]) == dec_count(
        counts_ba[c],
    ) by {
        lemma_votes_for_concat(a, b, dec_choice, c);
        lemma_votes_for_concat(b, a, dec_choice, c);
    }
}

/// `ballots` were made from `votes`, one by one, under `client_key` (as
/// `Ballot::try_new` makes them), and `dec_choice` reads each ballot as the id
/// of its vote.
pub open spec fn ballots_encrypt(
    client_key: tfhe::ClientKey,
    ballots: Seq<Ballot>,
    votes: Seq<Candidate>,
    dec_choice: spec_fn(EncryptedChoice) -> u8,
) -> bool {
    &&& ballots.len() == votes.len()
    &&& forall|i: int|
        0 <= i < ballots.len() ==> is_encryption_of(client_key, votes[i].spec_id(), #[trigger] ballots[i].encrypted_choice)
            && dec_choice(ballots[i].encrypted_choice) == votes[i].spec_id()
}

proof fn lemma_votes_for_ballots(
    client_key: tfhe::ClientKey,
    ballots: Seq<Ballot>,
    votes: Seq<Candidate>,
    dec_choice: spec_fn(EncryptedChoice) -> u8,
    id: int,
)
    requires
        ballots_encrypt(client_key, ballots, votes, dec_choice),
    ensures
        votes_for(ballots, dec_choice, id) == votes_cast(votes, id),
    decreases ballots.len(),
{
    if ballots.len() > 0 {
        let n = ballots.len() - 1;
        assert(dec_choice(ballots[n].encrypted_choice) == votes[n].spec_id());
        assert(ballots_encrypt(client_key, ballots.drop_last(), votes.drop_last(), dec_choice)) by {
            assert forall|i: int| 0 <= i < ballots.drop_last().len() implies is_encryption_of(
                client_key,
                votes.drop_last()[i].spec_id(),
                #[trigger] ballots.drop_last()[i].encrypted_choice,
            ) && dec_choice(ballots.drop_last()[i].encrypted_choice) == votes.drop_last()[i].spec_id() by {
                assert(ballots.drop_last()[i] == ballots[i]);
                assert(votes.drop_last()[i] == votes[i]);
            }
        }
        lemma_votes_for_ballots(client_key, ballots.drop_last(), votes.drop_last(), dec_choice, id);
    }
}

/// The election end to end: the client encrypts `votes` as `ballots`, the
/// server tallies them with `tally` into `counts`, and the client decrypts the
/// counts into the result lines. When decryption under the client key reads the
/// ballots as their votes, the encryption of 0 as 0 (which `tally` ensures for
/// every client key of its server key), and every step of the run as computing
/// on what its ciphertexts hold, every candidate's line shows the number of
/// votes cast for it (fewer than 2^32 ballots).
pub proof fn lemma_election_result_counts_votes(
    client_key: tfhe::ClientKey,
    server_key: tfhe::ServerKey,
    votes: Seq<Candidate>,
    ballots: Seq<Ballot>,
    counts: Seq<EncryptedCount>,
    dec_choice: spec_fn(EncryptedChoice) -> u8,
    dec_bool: spec_fn(tfhe::FheBool) -> bool,
)
    requires
        ballots_encrypt(client_key, ballots, votes, dec_choice),
        faithful_tally(
            server_key,
            ballots,
            trivial_count(server_key, 0),
            counts,
            dec_choice,
            dec_bool,
            |c: EncryptedCount| decrypted_count(client_key, c),
        ),
        decrypted_count(client_key, trivial_count(server_key, 0)) == 0,
        ballots.len() < 0x1_0000_0000,
    ensures
        forall|i: int|
            0 <= i < NUM_CANDIDATES ==> #[trigger] spec_result_line(
                Candidate::spec_from_id(i as u8).unwrap(),
                decrypted_count(client_key, counts[i]) as nat,
            ) == spec_result_line(Candidate::spec_from_id(i as u8).unwrap(), votes_cast(votes, i)),
{
    let dec_count = |c: EncryptedCount| decrypted_count(client_key, c);
    lemma_tally_from_zero_counts_votes(server_key, ballots, counts, dec_choice, dec_bool, dec_count);
    assert forall|i: int| 0 <= i < NUM_CANDIDATES implies #[trigger] spec_result_line(
        Candidate::spec_from_id(i as u8).unwrap(),
        decrypted_count(client_key, counts[i]) as nat,
    ) == spec_result_line(Candidate::spec_from_id(i as u8).unwrap(), votes_cast(votes, i)) by {
        assert(dec_count(counts[i]) == votes_for(ballots, dec_choice, i));
        lemma_votes_for_ballots(client_key, ballots, votes, dec_choice, i);
    }
}

proof fn lemma_trace_push(
    key: tfhe::ServerKey,
    ballots: Seq<Ballot>,
    i: int,
    initial: EncryptedCount,
    trace: Seq<Seq<CountStep>>,
    row: Seq<CountStep>,
    before: Seq<EncryptedCount>,
)
    requires
        0 <= i < ballots.len(),
        tally_trace(key, ballots.take(i), initial, trace),
        row.len() == NUM_CANDIDATES,
        forall|c: int| 0 <= c < NUM_CANDIDATES ==> #[trigger] before[c] == count_at(initial, trace, i, c),
        forall|c: int| 0 <= c < NUM_CANDIDATES ==> step_valid(key, ballots[i], c, before[c], #[trigger] row[c]),
    ensures
        tally_trace(key, ballots.take(i + 1), initial, trace.push(row)),
        forall|c: int| 0 <= c < NUM_CANDIDATES ==> #[trigger] count_at(initial, trace.push(row), i + 1, c) == row[c].sum,
{
    reveal(tally_trace);
    let next_trace = trace.push(row);
    let prefix = ballots.take(i);
    let next = ballots.take(i + 1);
    assert forall|j: int| 0 <= j < next_trace.len() implies (#[trigger] next_trace[j]).len() == NUM_CANDIDATES by {
        if j < i {
            assert(next_trace[j] == trace[j]);
        }
    }
    assert forall|j: int, c: int| 0 <= j < next_trace.len() && 0 <= c < NUM_CANDIDATES implies step_valid(
        key,
        next[j],
        c,
        count_at(initial, next_trace, j, c),
        #[trigger] next_trace[j][c],
    ) by {
        if j < i {
            assert(next_trace[j] == trace[j]);
            assert(next[j] == prefix[j]);
            if j > 0 {
                assert(next_trace[j - 1] == trace[j - 1]);
            }
            assert(count_at(initial, next_trace, j, c) == count_at(initial, trace, j, c));
            assert(step_valid(key, prefix[j], c, count_at(initial, trace, j, c), trace[j][c]));
        } else {
            assert(next_trace[j] == row);
            assert(next[j] == ballots[i]);
            if i > 0 {
                assert(next_trace[i - 1] == trace[i - 1]);
            }
            assert(count_at(initial, next_trace, j, c) == count_at(initial, trace, i, c));
            assert(step_valid(key, ballots[i], c, before[c], row[c]));
        }
    }
    assert forall|c: int| 0 <= c < NUM_CANDIDATES implies #[trigger] count_at(initial, next_trace, i + 1, c)
        == row[c].sum by {
        assert(next_trace[i] == row);
    }
}

/// Adds one ballot to the counts, candidate by candidate, and gives back the
/// steps it made.
fn add_ballot(
    installed: &InstalledKey,
    counts: &mut Vec<EncryptedCount>,
    ballot: &Ballot,
    one: &EncryptedCount,
    zero: &EncryptedCount,
) -> (row: Ghost<Seq<CountStep>>)
    requires
        operable_key(installed.key()),
        choice_fits(installed.key(), ballot.encrypted_choice),
        old(counts)@.len() == NUM_CANDIDATES,
        forall|c: int| 0 <= c < NUM_CANDIDATES ==> count_fits(installed.key(), #[trigger] old(counts)@[c]),
        *one == trivial_count(installed.key(), 1),
        *zero == trivial_count(installed.key(), 0),
        count_fits(installed.key(), *one),
        count_fits(installed.key(), *zero),
    ensures
        final(counts)@.len() == NUM_CANDIDATES,
        row@.len() == NUM_CANDIDATES,
        forall|c: int|
            0 <= c < NUM_CANDIDATES ==> step_valid(installed.key(), *ballot, c, old(counts)@[c], #[trigger] row@[c]),
        forall|c: int| 0 <= c < NUM_CANDIDATES ==> #[trigger] final(counts)@[c] == row@[c].sum,
        forall|c: int| 0 <= c < NUM_CANDIDATES ==> count_fits(installed.key(), #[trigger] final(counts)@[c]),
{
    let ghost before = counts@;
    let ghost mut row: Seq<CountStep> = Seq::empty();
    let mut candidate_id: u8 = 0;
    while (candidate_id as usize) < NUM_CANDIDATES
        invariant
            candidate_id <= NUM_CANDIDATES,
            counts@.len() == NUM_CANDIDATES,
            before.len() == NUM_CANDIDATES,
            row.len() == candidate_id,
            operable_key(installed.key()),
            choice_fits(installed.key(), ballot.encrypted_choice),
            *one == trivial_count(installed.key(), 1),
            *zero == trivial_count(installed.key(), 0),
            count_fits(installed.key(), *one),
            count_fits(installed.key(), *zero),
            forall|c: int| 0 <= c < candidate_id ==> step_valid(installed.key(), *ballot, c, before[c], #[trigger] row[c]),
            forall|c: int| 0 <= c < candidate_id ==> #[trigger] counts@[c] == row[c].sum,
            forall|c: int| 0 <= c < candidate_id ==> count_fits(installed.key(), #[trigger] counts@[c]),
            forall|c: int| candidate_id <= c < NUM_CANDIDATES ==> #[trigger] counts@[c] == before[c],
            forall|c: int| 0 <= c < NUM_CANDIDATES ==> count_fits(installed.key(), #[trigger] before[c]),
        decreases NUM_CANDIDATES - candidate_id,
    {
        let is_match = encrypted_equals(installed, &ballot.encrypted_choice, candidate_id);
        let one_if_match = encrypted_select(installed, &is_match, one, zero);
        let idx = candidate_id as usize;
        let mut count = clone_count(&counts[idx]);
        encrypted_add_assign(installed, &mut count, &one_if_match);
        proof {
            row = row.push(CountStep { test: is_match, indicator: one_if_match, sum: count });
        }
        counts.set(idx, count);
        candidate_id = candidate_id + 1;
    }
    Ghost(row)
}

/// Tallies `ballots` under an installed key, every count starting from
/// `initial_count`.
#[verifier::rlimit(40)]
pub(crate) fn tally_installed(installed: &InstalledKey, ballots: &[Ballot], initial_count: &EncryptedCount) -> (counts: Vec<EncryptedCount>)
    requires
        operable_key(installed.key()),
        count_fits(installed.key(), *initial_count),
        forall|i: int| 0 <= i < ballots@.len() ==> choice_fits(installed.key(), #[trigger] ballots@[i].encrypted_choice),
    ensures
        tally_result(installed.key(), ballots@, *initial_count, counts@),
        counts@.len() == NUM_CANDIDATES,
        forall|c: int| 0 <= c < NUM_CANDIDATES ==> count_fits(installed.key(), #[trigger] counts@[c]),
{
    let ghost key = installed.key();
    let mut counts: Vec<EncryptedCount> = Vec::new();
    while counts.len() < NUM_CANDIDATES
        invariant
            counts@.len() <= NUM_CANDIDATES,
            forall|c: int| 0 <= c < counts@.len() ==> #[trigger] counts@[c] == *initial_count,
        decreases NUM_CANDIDATES - counts@.len(),
    {
        counts.push(clone_count(initial_count));
    }
    let one = encrypt_trivial_count(installed, 1);
    let zero = encrypt_trivial_count(installed, 0);
    let ghost mut trace: Seq<Seq<CountStep>> = Seq::empty();
    proof {
        reveal(tally_trace);
        assert(tally_trace(key, ballots@.take(0), *initial_count, trace));
    }
    let mut i: usize = 0;
    while i < ballots.len()
        invariant
            i <= ballots@.len(),
            key == installed.key(),
            operable_key(key),
            count_fits(key, *initial_count),
            forall|j: int| 0 <= j < ballots@.len() ==> choice_fits(key, #[trigger] ballots@[j].encrypted_choice),
            one == trivial_count(key, 1),
            zero == trivial_count(key, 0),
            count_fits(key, one),
            count_fits(key, zero),
            counts@.len() == NUM_CANDIDATES,
            tally_trace(key, ballots@.take(i as int), *initial_count, trace),
            forall|c: int| 0 <= c < NUM_CANDIDATES ==> #[trigger] counts@[c] == count_at(*initial_count, trace, i as int, c),
            forall|c: int| 0 <= c < NUM_CANDIDATES ==> count_fits(key, #[trigger] counts@[c]),
        decreases ballots@.len() - i,
    {
        let ghost before = counts@;
        let row = add_ballot(installed, &mut counts, &ballots[i], &one, &zero);
        proof {
            assert forall|c: int| 0 <= c < NUM_CANDIDATES implies #[trigger] before[c] == count_at(
                *initial_count,
                trace,
                i as int,
                c,
            ) by {}
            lemma_trace_push(key, ballots@, i as int, *initial_count, trace, row@, before);
            trace = trace.push(row@);
        }
        i = i + 1;
    }
    proof {
        assert(ballots@.take(ballots@.len() as int) =~= ballots@);
        assert(counts@ =~= trace_counts(*initial_count, trace, ballots@.len() as int));
        assert(tally_trace(key, ballots@, *initial_count, trace));
    }
    counts
}

/// Computes the encrypted per-candidate counts of `ballots` with the server key
/// alone: no client key is involved, so no vote is ever seen. Makes
/// `server_key` the thread's server key, then counts from an encryption of 0,
/// which every client key of `server_key` decrypts to 0 (so a tally of no
/// ballots decrypts to 0 for everyone). The key must be operable and every
/// ballot must fit it: on others `tfhe`'s operations panic.
pub fn tally(server_key: &tfhe::ServerKey, ballots: &[Ballot]) -> (counts: Vec<EncryptedCount>)
    requires
        operable_key(*server_key),
        forall|i: int| 0 <= i < ballots@.len() ==> choice_fits(*server_key, #[trigger] ballots@[i].encrypted_choice),
    ensures
        tally_result(*server_key, ballots@, trivial_count(*server_key, 0), counts@),
        counts@.len() == NUM_CANDIDATES,
        forall|c: int| 0 <= c < NUM_CANDIDATES ==> count_fits(*server_key, #[trigger] counts@[c]),
        forall|ck: tfhe::ClientKey|
            is_server_key_of(ck, *server_key) ==> #[trigger] decrypted_count(ck, trivial_count(*server_key, 0)) == 0,
        ballots@.len() == 0 ==> forall|ck: tfhe::ClientKey, c: int|
            is_server_key_of(ck, *server_key) && 0 <= c < NUM_CANDIDATES ==> #[trigger] decrypted_count(ck, counts@[c]) == 0,
{
    let installed = install_server_key(server_key);
    let zero = encrypt_trivial_count(&installed, 0);
    let counts = tally_installed(&installed, ballots, &zero);
    proof {
        if ballots@.len() == 0 {
            lemma_empty_tally(*server_key, ballots@, zero, counts@);
        }
    }
    counts
}

/// A tally of no ballots leaves every count at its initial value.
proof fn lemma_empty_tally(key: tfhe::ServerKey, ballots: Seq<Ballot>, initial: EncryptedCount, counts: Seq<EncryptedCount>)
    requires
        ballots.len() == 0,
        tally_result(key, ballots, initial, counts),
    ensures
        forall|c: int| 0 <= c < NUM_CANDIDATES ==> #[trigger] counts[c] == initial,
{
    let trace = choose|trace: Seq<Seq<CountStep>>|
        #[trigger] tally_trace(key, ballots, initial, trace) && counts == trace_counts(initial, trace, ballots.len() as int);
    assert forall|c: int| 0 <= c < NUM_CANDIDATES implies #[trigger] counts[c] == initial by {
        assert(counts[c] == count_at(initial, trace, 0, c));
    }
}

} // verus!
