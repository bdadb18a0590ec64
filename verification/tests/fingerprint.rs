use sheet_sync::fingerprint::{can_hash, digest, sha256_digest};

#[test]
fn digest_of_the_empty_payload() {
    assert_eq!(
        digest(b""),
        "E3B0C44298FC1C149AFBF4C8996FB92427AE41E4649B934CA495991B7852B855"
    );
}

#[test]
fn digest_of_abc_is_upper_case_hex() {
    let text = digest(b"abc");
    assert_eq!(
        text,
        "BA7816BF8F01CFEA414140DE5DAE2223B00361A396177A9CB410FF61F20015AD"
    );
    assert_eq!(text.len(), 64);
    assert!(text.chars().all(|c| c.is_ascii_digit() || ('A'..='F').contains(&c)));
}

#[test]
fn digest_is_the_same_on_every_call() {
    let payload = br#"{"sheets":[{"properties":{"sheetId":1,"title":"t"}}]}"#;
    assert_eq!(digest(payload), digest(payload));
    assert_eq!(digest(&payload.to_vec()), digest(payload));
}

#[test]
fn digest_tells_payloads_apart() {
    assert_ne!(digest(b"[1,2]"), digest(b"[1, 2]"));
}

#[test]
fn sha256_of_a_payload_longer_than_a_chunk() {
    let data: Vec<u8> = (0..5000u32).map(|i| (i % 251) as u8).collect();
    let whole = ring::digest::digest(&ring::digest::SHA256, &data);
    assert_eq!(sha256_digest(&data), whole.as_ref().to_vec());
    let edge: Vec<u8> = vec![7u8; 2048];
    let whole = ring::digest::digest(&ring::digest::SHA256, &edge);
    assert_eq!(sha256_digest(&edge), whole.as_ref().to_vec());
    assert_eq!(sha256_digest(&edge).len(), 32);
}

#[test]
fn every_payload_in_memory_can_be_hashed() {
    assert!(can_hash(0));
    assert!(can_hash(1 << 20));
}
