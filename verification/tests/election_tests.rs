use blindtally::election::{Ballot, Candidate};
use blindtally::errors::AppError;
use blindtally::io::{compressed_key_from_bytes, compressed_key_to_bytes, counts_from_bytes, counts_to_bytes};
use blindtally::keys::{compressed_server_key, server_key_from_upload};
use blindtally::io::ballot_to_bytes;
use blindtally::routes::{
    count_prepared, ApiError, Election, STATUS_BAD_REQUEST, STATUS_CONFLICT, STATUS_CREATED, STATUS_NOT_FOUND,
};
use blindtally::tally::tally;
use blindtally::text::result_lines;
use tfhe::shortint::parameters::{
    DecompositionBaseLog, DecompositionLevelCount, DynamicDistribution, GlweDimension, LweDimension,
    PolynomialSize, StandardDev,
};
use tfhe::shortint::{
    CarryModulus, CiphertextModulus, ClassicPBSParameters, EncryptionKeyChoice, MaxNoiseLevel, MessageModulus,
};

/// A client key with tiny, insecure parameters, so that a test runs in a
/// fraction of a second. They are still a sound parameter set (message and
/// carry modulus 4), which is what the library's contracts ask of a key.
fn small_client_key() -> tfhe::ClientKey {
    let params = ClassicPBSParameters {
        lwe_dimension: LweDimension(1),
        glwe_dimension: GlweDimension(1),
        polynomial_size: PolynomialSize(256),
        lwe_noise_distribution: DynamicDistribution::new_gaussian_from_std_dev(StandardDev(0.000007069849454709433)),
        glwe_noise_distribution: DynamicDistribution::new_gaussian_from_std_dev(StandardDev(
            0.00000000000000029403601535432533,
        )),
        pbs_base_log: DecompositionBaseLog(23),
        pbs_level: DecompositionLevelCount(1),
        ks_level: DecompositionLevelCount(5),
        ks_base_log: DecompositionBaseLog(3),
        message_modulus: MessageModulus(4),
        carry_modulus: CarryModulus(4),
        max_noise_level: MaxNoiseLevel::new(5),
        log2_p_fail: -40.,
        ciphertext_modulus: CiphertextModulus::new_native(),
        encryption_key_choice: EncryptionKeyChoice::Big,
    };
    let config = tfhe::ConfigBuilder::with_custom_parameters(params, None).build();
    tfhe::ClientKey::generate(config)
}

fn small_keys() -> (tfhe::ClientKey, tfhe::ServerKey) {
    let client_key = small_client_key();
    let server_key = tfhe::ServerKey::new(&client_key);
    (client_key, server_key)
}

fn refusal<T>(r: Result<T, ApiError>) -> ApiError {
    match r {
        Err(e) => e,
        Ok(_) => panic!("the request was not refused"),
    }
}

#[test]
fn a_closed_election_refuses_ballots_and_tallies() {
    let client_key = small_client_key();
    let mut election = Election::new();
    let ballot = Ballot::try_new(Candidate::Alice, &client_key).unwrap();
    let refused = refusal(election.cast_ballot(ballot));
    assert_eq!(refused.status(), STATUS_CONFLICT);
    assert_eq!(refused.message(), "election not open: upload a server key first");
    let refused = refusal(election.prepare_tally());
    assert_eq!(refused.status(), 409);
    assert_eq!(refused.message(), "election not open: upload a server key first");
}

#[test]
fn results_are_not_found_before_any_tally() {
    let election = Election::default();
    let err = refusal(election.results());
    assert_eq!(err.status(), STATUS_NOT_FOUND);
    assert_eq!(err.message(), "no tally has been run yet");
}

#[test]
fn the_server_key_cannot_be_swapped() {
    let (_client_key, server_key) = small_keys();
    let (_other_client, other_key) = small_keys();
    let mut election = Election::new();
    assert_eq!(election.upload_key(server_key).unwrap(), STATUS_CREATED);
    let refused = refusal(election.upload_key(other_key));
    assert_eq!(refused.status(), STATUS_CONFLICT);
    assert_eq!(refused.message(), "election already has a server key");
}

#[test]
fn an_open_election_keeps_every_ballot_in_order() {
    let (client_key, server_key) = small_keys();
    let mut election = Election::new();
    election.upload_key(server_key).unwrap();
    for c in [Candidate::Bob, Candidate::Alice, Candidate::Bob] {
        assert_eq!(election.cast_ballot(Ballot::try_new(c, &client_key).ok().unwrap()).unwrap(), 201);
    }
    let (key, ballots) = election.prepare_tally().ok().unwrap();
    assert_eq!(ballots.len(), 3);
    let counts = tally(&key, &ballots);
    assert_eq!(result_lines(&counts, &client_key), vec!["Alice: 1 votes", "Bob: 2 votes"]);
}

#[test]
fn results_are_the_latest_tally_and_outlive_new_votes() {
    let (client_key, server_key) = small_keys();
    let mut election = Election::new();
    election.upload_key(server_key).unwrap();
    election.cast_ballot(Ballot::try_new(Candidate::Alice, &client_key).unwrap()).unwrap();
    let (key, ballots) = election.prepare_tally().ok().unwrap();
    let counts = tally(&key, &ballots);
    assert_eq!(election.finish_tally(counts, ballots.len()), "tallied 1 ballots");
    election.cast_ballot(Ballot::try_new(Candidate::Bob, &client_key).unwrap()).unwrap();
    let kept = election.results().ok().unwrap();
    assert_eq!(result_lines(kept, &client_key), vec!["Alice: 1 votes", "Bob: 0 votes"]);
    let (key, ballots) = election.prepare_tally().ok().unwrap();
    let counts = tally(&key, &ballots);
    assert_eq!(election.finish_tally(counts, ballots.len()), "tallied 2 ballots");
    let latest = election.results().ok().unwrap();
    assert_eq!(result_lines(latest, &client_key), vec!["Alice: 1 votes", "Bob: 1 votes"]);
}

/// The walk-through of the README: open, vote alice, bob, alice, tally, result.
#[test]
fn readme_election_gives_alice_two_and_bob_one() {
    let client_key = small_client_key();
    let upload = compressed_key_to_bytes(&compressed_server_key(&client_key)).unwrap();
    let mut election = Election::new();
    let server_key = server_key_from_upload(&compressed_key_from_bytes(&upload).unwrap());
    assert_eq!(election.upload_key(server_key).unwrap(), 201);
    for name in ["alice", "bob", "alice"] {
        let choice = Candidate::parse(name).unwrap();
        election.cast_ballot(Ballot::try_new(choice, &client_key).unwrap()).unwrap();
    }
    let (key, ballots) = election.prepare_tally().ok().unwrap();
    let counts = tally(&key, &ballots);
    assert_eq!(election.finish_tally(counts, ballots.len()), "tallied 3 ballots");
    let body = counts_to_bytes(election.results().ok().unwrap()).unwrap();
    let received = counts_from_bytes(&body).unwrap();
    assert_eq!(result_lines(&received, &client_key), vec!["Alice: 2 votes", "Bob: 1 votes"]);
}

#[test]
fn an_undecodable_key_upload_is_a_decode_error() {
    match compressed_key_from_bytes(&[1, 2, 3]) {
        Err(AppError::Decode(_)) => {}
        other => panic!("expected a decode error, got {:?}", other.map(|_| ())),
    }
}

#[test]
fn an_undecodable_ballot_is_answered_400_open_or_not() {
    let (client_key, server_key) = small_keys();
    let mut election = Election::new();
    assert_eq!(refusal(election.receive_ballot(&[])).status(), STATUS_BAD_REQUEST);
    election.upload_key(server_key).unwrap();
    assert_eq!(refusal(election.receive_ballot(&[7])).status(), STATUS_BAD_REQUEST);
    let body = ballot_to_bytes(&Ballot::try_new(Candidate::Bob, &client_key).unwrap()).unwrap();
    assert_eq!(election.receive_ballot(&body).unwrap(), STATUS_CREATED);
    assert_eq!(election.ballot_count(), 1);
}

#[test]
fn an_undecodable_key_is_answered_400_before_the_key_check() {
    let (_, server_key) = small_keys();
    let mut election = Election::new();
    election.upload_key(server_key).unwrap();
    let undecodable = compressed_key_from_bytes(&[1, 2, 3]).map(|_| unreachable!());
    assert_eq!(refusal(election.receive_key(undecodable)).status(), STATUS_BAD_REQUEST);
    let (_, other_key) = small_keys();
    assert_eq!(refusal(election.receive_key(Ok(other_key))).status(), STATUS_CONFLICT);
}

#[test]
fn count_prepared_reports_how_many_ballots_it_counted() {
    let (client_key, server_key) = small_keys();
    let ballots = vec![
        Ballot::try_new(Candidate::Alice, &client_key).unwrap(),
        Ballot::try_new(Candidate::Alice, &client_key).unwrap(),
    ];
    let (counts, n) = count_prepared(&server_key, &ballots);
    assert_eq!(n, 2);
    assert_eq!(result_lines(&counts, &client_key), vec!["Alice: 2 votes", "Bob: 0 votes"]);
}
