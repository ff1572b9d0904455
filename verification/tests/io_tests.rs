use blindtally::election::{Ballot, Candidate};
use blindtally::errors::AppError;
use blindtally::io::{
    ballot_from_bytes, ballot_to_bytes, ballots_from_bytes, ballots_to_bytes, client_key_from_bytes,
    client_key_to_bytes, compressed_key_from_bytes, count_from_bytes, counts_from_bytes, server_key_from_bytes,
    server_key_to_bytes,
};
use blindtally::tally::tally;
use blindtally::text::result_lines;
use tfhe::prelude::FheDecrypt;
use tfhe::shortint::parameters::{
    DecompositionBaseLog, DecompositionLevelCount, DynamicDistribution, GlweDimension, LweDimension,
    PolynomialSize, StandardDev,
};
use tfhe::shortint::{
    CarryModulus, CiphertextModulus, ClassicPBSParameters, EncryptionKeyChoice, MaxNoiseLevel, MessageModulus,
};

/// A client key with tiny, insecure parameters, so that a test runs in a
/// fraction of a second. They are still a sound parameter set (message and
/// carry modulus 4), which is what the library's contracts ask of a key.
fn small_client_key() -> tfhe::ClientKey {
    let params = ClassicPBSParameters {
        lwe_dimension: LweDimension(1),
        glwe_dimension: GlweDimension(1),
        polynomial_size: PolynomialSize(256),
        lwe_noise_distribution: DynamicDistribution::new_gaussian_from_std_dev(StandardDev(0.000007069849454709433)),
        glwe_noise_distribution: DynamicDistribution::new_gaussian_from_std_dev(StandardDev(
            0.00000000000000029403601535432533,
        )),
        pbs_base_log: DecompositionBaseLog(23),
        pbs_level: DecompositionLevelCount(1),
        ks_level: DecompositionLevelCount(5),
        ks_base_log: DecompositionBaseLog(3),
        message_modulus: MessageModulus(4),
        carry_modulus: CarryModulus(4),
        max_noise_level: MaxNoiseLevel::new(5),
        log2_p_fail: -40.,
        ciphertext_modulus: CiphertextModulus::new_native(),
        encryption_key_choice: EncryptionKeyChoice::Big,
    };
    let config = tfhe::ConfigBuilder::with_custom_parameters(params, None).build();
    tfhe::ClientKey::generate(config)
}

fn small_keys() -> (tfhe::ClientKey, tfhe::ServerKey) {
    let client_key = small_client_key();
    let server_key = tfhe::ServerKey::new(&client_key);
    (client_key, server_key)
}

fn decrypt_ballot(bytes: &[u8], client_key: &tfhe::ClientKey) -> u8 {
    let (ct, _): (tfhe::FheUint8, usize) =
        bincode::serde::decode_from_slice(bytes, bincode::config::standard()).unwrap();
    ct.decrypt(client_key)
}

#[test]
fn a_ballot_travels_as_its_encrypted_choice() {
    let client_key = small_client_key();
    let ballot = Ballot::try_new(Candidate::Bob, &client_key).unwrap();
    let bytes = ballot_to_bytes(&ballot).unwrap();
    assert_eq!(decrypt_ballot(&bytes, &client_key), 1);
    let back = ballot_from_bytes(&bytes).unwrap();
    assert_eq!(decrypt_ballot(&ballot_to_bytes(&back).unwrap(), &client_key), 1);
}

#[test]
fn keys_and_ballots_survive_the_trip_through_bytes() {
    let (client_key, server_key) = small_keys();
    let ballots = vec![
        Ballot::try_new(Candidate::Alice, &client_key).unwrap(),
        Ballot::try_new(Candidate::Bob, &client_key).unwrap(),
        Ballot::try_new(Candidate::Bob, &client_key).unwrap(),
    ];
    let ballots = ballots_from_bytes(&ballots_to_bytes(&ballots).unwrap()).unwrap();
    assert_eq!(ballots.len(), 3);
    let server_key = server_key_from_bytes(&server_key_to_bytes(&server_key).unwrap()).unwrap();
    let client_key = client_key_from_bytes(&client_key_to_bytes(&client_key).unwrap()).unwrap();
    let counts = tally(&server_key, &ballots);
    assert_eq!(result_lines(&counts, &client_key), vec!["Alice: 1 votes", "Bob: 2 votes"]);
}

#[test]
fn garbage_decodes_to_nothing() {
    let garbage = [0xffu8; 3];
    assert!(matches!(ballot_from_bytes(&garbage), Err(AppError::Decode(_))));
    assert!(matches!(counts_from_bytes(&garbage), Err(AppError::Decode(_))));
    assert!(matches!(client_key_from_bytes(&garbage), Err(AppError::Decode(_))));
    assert!(matches!(compressed_key_from_bytes(&[]), Err(AppError::Decode(_))));
    let text = match ballot_from_bytes(&[]) {
        Err(e) => e.text(),
        Ok(_) => panic!("empty bytes decoded to a ballot"),
    };
    assert!(text.starts_with("serialization (decode): "), "{text}");
}

#[test]
fn bytes_after_an_encoding_are_ignored() {
    let client_key = small_client_key();
    let ballot = Ballot::try_new(Candidate::Alice, &client_key).unwrap();
    let mut bytes = ballot_to_bytes(&ballot).unwrap();
    let exact = bytes.clone();
    bytes.extend_from_slice(&[9, 9, 9]);
    let back = ballot_from_bytes(&bytes).unwrap();
    assert_eq!(ballot_to_bytes(&back).unwrap(), exact);
    assert_eq!(decrypt_ballot(&exact, &client_key), 0);
}

#[test]
fn empty_bytes_hold_no_value_of_any_kind() {
    assert!(matches!(ballots_from_bytes(&[]), Err(AppError::Decode(_))));
    assert!(matches!(counts_from_bytes(&[]), Err(AppError::Decode(_))));
    assert!(matches!(count_from_bytes(&[]), Err(AppError::Decode(_))));
    assert!(matches!(client_key_from_bytes(&[]), Err(AppError::Decode(_))));
}
