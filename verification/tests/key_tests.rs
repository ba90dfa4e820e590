use staking_pool::key::{
    encode_staking_key, is_supported_key_length, parse_algorithm, parse_key_string, KeyAlgorithm,
    KeyError, FNDSA_KEY_BORSH_LEN, MLDSA_KEY_BORSH_LEN, SLHDSA_KEY_BORSH_LEN,
};

fn raw_key(len: usize) -> Vec<u8> {
    (0..len).map(|i| (i % 251) as u8 + 1).collect()
}

fn key_string(algo: &str, raw: &[u8]) -> String {
    format!("{}:{}", algo, bs58::encode(raw).into_string())
}

#[test]
fn fndsa_key_is_encoded_with_type_and_length_prefix() {
    let raw = raw_key(897);
    let bytes = parse_key_string(&key_string("fndsa", &raw)).unwrap();
    assert_eq!(bytes.len(), 902);
    assert_eq!(&bytes[..5], &[0x03, 0x81, 0x03, 0x00, 0x00]);
    assert_eq!(&bytes[5..], &raw[..]);
}

#[test]
fn mldsa_key_is_encoded_with_type_and_length_prefix() {
    let raw = raw_key(1952);
    let bytes = parse_key_string(&key_string("mldsa", &raw)).unwrap();
    assert_eq!(bytes.len(), MLDSA_KEY_BORSH_LEN);
    assert_eq!(&bytes[..5], &[0x02, 0xa0, 0x07, 0x00, 0x00]);
    assert_eq!(&bytes[5..], &raw[..]);
}

#[test]
fn slhdsa_key_is_encoded_with_type_and_length_prefix() {
    let raw = raw_key(32);
    let bytes = parse_key_string(&key_string("slhdsa", &raw)).unwrap();
    assert_eq!(bytes.len(), SLHDSA_KEY_BORSH_LEN);
    assert_eq!(&bytes[..5], &[0x04, 32, 0, 0, 0]);
    assert_eq!(&bytes[5..], &raw[..]);
}

#[test]
fn key_without_separator_is_refused() {
    assert_eq!(parse_key_string("fndsa"), Err(KeyError::MissingSeparator));
    assert_eq!(parse_key_string(""), Err(KeyError::MissingSeparator));
}

#[test]
fn key_with_unknown_algorithm_is_refused() {
    let raw = raw_key(32);
    assert_eq!(parse_key_string(&key_string("ed25519", &raw)), Err(KeyError::UnknownAlgorithm));
    assert_eq!(parse_key_string(&key_string("FNDSA", &raw)), Err(KeyError::UnknownAlgorithm));
}

#[test]
fn key_with_invalid_base58_is_refused() {
    // '0', 'O', 'I' and 'l' are not in the base58 alphabet.
    assert_eq!(parse_key_string("slhdsa:0OIl"), Err(KeyError::InvalidBase58));
    assert_eq!(parse_key_string("fndsa:abc:def"), Err(KeyError::InvalidBase58));
}

#[test]
fn key_of_wrong_length_is_refused_not_truncated() {
    assert_eq!(parse_key_string(&key_string("fndsa", &raw_key(898))), Err(KeyError::WrongLength));
    assert_eq!(parse_key_string(&key_string("mldsa", &raw_key(897))), Err(KeyError::WrongLength));
    assert_eq!(parse_key_string(&key_string("slhdsa", &raw_key(31))), Err(KeyError::WrongLength));
}

#[test]
fn only_the_first_colon_separates() {
    // The algorithm is the part before the first colon.
    let raw = raw_key(32);
    let s = format!("slh:dsa:{}", bs58::encode(&raw).into_string());
    assert_eq!(parse_key_string(&s), Err(KeyError::UnknownAlgorithm));
}

#[test]
fn algorithm_names() {
    assert_eq!(parse_algorithm("mldsa"), Some(KeyAlgorithm::MlDsa));
    assert_eq!(parse_algorithm("fndsa"), Some(KeyAlgorithm::FnDsa));
    assert_eq!(parse_algorithm("slhdsa"), Some(KeyAlgorithm::SlhDsa));
    assert_eq!(parse_algorithm("mldsa "), None);
    assert_eq!(parse_algorithm(""), None);
}

#[test]
fn encode_staking_key_checks_decoding_and_length() {
    assert_eq!(encode_staking_key(KeyAlgorithm::SlhDsa, None), Err(KeyError::InvalidBase58));
    assert_eq!(encode_staking_key(KeyAlgorithm::SlhDsa, Some(vec![1; 33])), Err(KeyError::WrongLength));
    let bytes = encode_staking_key(KeyAlgorithm::SlhDsa, Some(vec![9; 32])).unwrap();
    assert_eq!(bytes.len(), 37);
    assert_eq!(bytes[0], 4);
}

#[test]
fn parsed_keys_have_supported_lengths() {
    for (algo, len) in [("fndsa", 897), ("mldsa", 1952), ("slhdsa", 32)] {
        let bytes = parse_key_string(&key_string(algo, &raw_key(len))).unwrap();
        assert!(is_supported_key_length(bytes.len()));
    }
    assert!(is_supported_key_length(FNDSA_KEY_BORSH_LEN));
    assert!(!is_supported_key_length(897));
    assert!(!is_supported_key_length(0));
}
