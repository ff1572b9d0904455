use blindtally::election::{Ballot, Candidate};
use blindtally::fhe::EncryptedCount;
use blindtally::io::{ballot_from_bytes, count_from_bytes};
use blindtally::server;
use blindtally::tally::tally;
use blindtally::text::result_lines;
use tfhe::prelude::FheTryEncrypt;
use tfhe::shortint::parameters::{
    DecompositionBaseLog, DecompositionLevelCount, DynamicDistribution, GlweDimension, LweDimension,
    PolynomialSize, StandardDev,
};
use tfhe::shortint::{
    CarryModulus, CiphertextModulus, ClassicPBSParameters, EncryptionKeyChoice, MaxNoiseLevel, MessageModulus,
};

/// A client key with tiny, insecure parameters, so that a test runs in a
/// fraction of a second. They are still a sound parameter set (message and
/// carry modulus 4), which is what the library's contracts ask of a key.
fn small_client_key() -> tfhe::ClientKey {
    let params = ClassicPBSParameters {
        lwe_dimension: LweDimension(1),
        glwe_dimension: GlweDimension(1),
        polynomial_size: PolynomialSize(256),
        lwe_noise_distribution: DynamicDistribution::new_gaussian_from_std_dev(StandardDev(0.000007069849454709433)),
        glwe_noise_distribution: DynamicDistribution::new_gaussian_from_std_dev(StandardDev(
            0.00000000000000029403601535432533,
        )),
        pbs_base_log: DecompositionBaseLog(23),
        pbs_level: DecompositionLevelCount(1),
        ks_level: DecompositionLevelCount(5),
        ks_base_log: DecompositionBaseLog(3),
        message_modulus: MessageModulus(4),
        carry_modulus: CarryModulus(4),
        max_noise_level: MaxNoiseLevel::new(5),
        log2_p_fail: -40.,
        ciphertext_modulus: CiphertextModulus::new_native(),
        encryption_key_choice: EncryptionKeyChoice::Big,
    };
    let config = tfhe::ConfigBuilder::with_custom_parameters(params, None).build();
    tfhe::ClientKey::generate(config)
}

fn small_keys() -> (tfhe::ClientKey, tfhe::ServerKey) {
    let client_key = small_client_key();
    let server_key = tfhe::ServerKey::new(&client_key);
    (client_key, server_key)
}

fn ballot_encrypting(id: u8, client_key: &tfhe::ClientKey) -> Ballot {
    let ct = tfhe::FheUint8::try_encrypt(id, client_key).unwrap();
    let bytes = bincode::serde::encode_to_vec(&ct, bincode::config::standard()).unwrap();
    ballot_from_bytes(&bytes).unwrap()
}

fn encrypted_count(value: u32, client_key: &tfhe::ClientKey) -> EncryptedCount {
    let ct = tfhe::FheUint32::try_encrypt(value, client_key).unwrap();
    let bytes = bincode::serde::encode_to_vec(&ct, bincode::config::standard()).unwrap();
    count_from_bytes(&bytes).unwrap()
}

#[test]
fn tally_of_no_ballots_is_zero_for_everyone() {
    let (client_key, server_key) = small_keys();
    let counts = tally(&server_key, &[]);
    assert_eq!(counts.len(), 2);
    assert_eq!(result_lines(&counts, &client_key), vec!["Alice: 0 votes", "Bob: 0 votes"]);
}

#[test]
fn tally_counts_each_candidates_votes() {
    let (client_key, server_key) = small_keys();
    let ballots: Vec<Ballot> = [Candidate::Alice, Candidate::Bob, Candidate::Alice, Candidate::Alice]
        .iter()
        .map(|c| Ballot::try_new(*c, &client_key).unwrap())
        .collect();
    let counts = tally(&server_key, &ballots);
    assert_eq!(result_lines(&counts, &client_key), vec!["Alice: 3 votes", "Bob: 1 votes"]);
}

#[test]
fn a_ballot_for_an_unknown_id_counts_for_no_one() {
    let (client_key, server_key) = small_keys();
    let ballots = vec![
        ballot_encrypting(7, &client_key),
        ballot_encrypting(1, &client_key),
        ballot_encrypting(255, &client_key),
    ];
    let counts = tally(&server_key, &ballots);
    assert_eq!(result_lines(&counts, &client_key), vec!["Alice: 0 votes", "Bob: 1 votes"]);
}

#[test]
fn tally_from_an_initial_count_adds_the_votes_to_it() {
    let (client_key, server_key) = small_keys();
    let seed = encrypted_count(5, &client_key);
    let ballots = vec![
        Ballot::try_new(Candidate::Bob, &client_key).unwrap(),
        Ballot::try_new(Candidate::Bob, &client_key).unwrap(),
    ];
    let counts = server::tally(&server_key, &ballots, &seed);
    assert_eq!(result_lines(&counts, &client_key), vec!["Alice: 5 votes", "Bob: 7 votes"]);
}

#[test]
fn counts_wrap_modulo_two_to_the_32() {
    let (client_key, server_key) = small_keys();
    let seed = encrypted_count(u32::MAX, &client_key);
    let ballots = vec![Ballot::try_new(Candidate::Alice, &client_key).unwrap()];
    let counts = server::tally(&server_key, &ballots, &seed);
    assert_eq!(result_lines(&counts, &client_key), vec!["Alice: 0 votes", "Bob: 4294967295 votes"]);
}

#[test]
fn tallies_add_up_over_concatenated_ballots_in_any_order() {
    let (client_key, server_key) = small_keys();
    let a: Vec<Ballot> = [Candidate::Alice, Candidate::Bob]
        .iter()
        .map(|c| Ballot::try_new(*c, &client_key).unwrap())
        .collect();
    let b: Vec<Ballot> = [Candidate::Alice, Candidate::Alice, Candidate::Bob]
        .iter()
        .map(|c| Ballot::try_new(*c, &client_key).unwrap())
        .collect();
    let decrypt = |counts: &Vec<EncryptedCount>| -> Vec<u32> {
        counts.iter().map(|c| blindtally::io::count_to_bytes(c).unwrap()).map(|bytes| {
            let (ct, _): (tfhe::FheUint32, usize) =
                bincode::serde::decode_from_slice(&bytes, bincode::config::standard()).unwrap();
            <tfhe::FheUint32 as tfhe::prelude::FheDecrypt<u32>>::decrypt(&ct, &client_key)
        }).collect()
    };
    let ab: Vec<Ballot> = a.iter().chain(b.iter()).map(|x| ballot_copy(x)).collect();
    let ba: Vec<Ballot> = b.iter().chain(a.iter()).map(|x| ballot_copy(x)).collect();
    let counts_a = decrypt(&tally(&server_key, &a));
    let counts_b = decrypt(&tally(&server_key, &b));
    let counts_ab = decrypt(&tally(&server_key, &ab));
    let counts_ba = decrypt(&tally(&server_key, &ba));
    assert_eq!(counts_a, vec![1, 1]);
    assert_eq!(counts_b, vec![2, 1]);
    assert_eq!(counts_ab, vec![counts_a[0] + counts_b[0], counts_a[1] + counts_b[1]]);
    assert_eq!(counts_ab, counts_ba);
}

fn ballot_copy(ballot: &Ballot) -> Ballot {
    ballot_from_bytes(&blindtally::io::ballot_to_bytes(ballot).unwrap()).unwrap()
}
