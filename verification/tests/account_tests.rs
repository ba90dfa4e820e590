use staking_pool::account::{decode_pending_owner, encode_pending_owner};

#[test]
fn pending_owner_round_trip() {
    for id in ["alice.near", "validator_1.pool.near", "ab", "a-b_c.d0"] {
        let stored = encode_pending_owner(id);
        assert_eq!(stored, id.as_bytes().to_vec());
        assert_eq!(decode_pending_owner(Some(stored)), Some(id.to_string()));
    }
}

#[test]
fn empty_pending_owner_slot_reads_as_none() {
    assert_eq!(decode_pending_owner(None), None);
}

#[test]
fn malformed_pending_owner_bytes_read_as_none() {
    // Not UTF-8.
    assert_eq!(decode_pending_owner(Some(vec![0xff, 0xfe, 0x61])), None);
    // UTF-8 but not an account id.
    assert_eq!(decode_pending_owner(Some(b"Alice.near".to_vec())), None);
    assert_eq!(decode_pending_owner(Some(b"a".to_vec())), None);
    assert_eq!(decode_pending_owner(Some(b"alice..near".to_vec())), None);
    assert_eq!(decode_pending_owner(Some(b".alice".to_vec())), None);
    assert_eq!(decode_pending_owner(Some(b"alice-".to_vec())), None);
    assert_eq!(decode_pending_owner(Some(vec![b'a'; 65])), None);
    assert_eq!(decode_pending_owner(Some(vec![b'a'; 64])), Some("a".repeat(64)));
}
