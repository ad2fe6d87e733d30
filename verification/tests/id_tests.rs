//! Identifier derivation and the byte encodings under it.
use formation::codec::{base64_encode, hex_decode, hex_encode, new_agent_id, random_index, sha3_256};
use formation::ids::{build_instance_id, derive_build_id, xor_bytes, IdError};
use formation::queue::build_queue_write;

#[test]
fn build_id_matches_sha3_of_address_and_name() {
    // owner address 0x11 * 20, name "svc"
    let addr = [0x11u8; 20];
    let build_id = derive_build_id(&addr, "svc");
    assert_eq!(
        build_id,
        "15345ea887d7f7df7e2b6f5d165a22baf33f4bf70e1702e0d67fe17cbe8978ff"
    );
}

#[test]
fn instance_id_is_xor_of_prefixes() {
    let addr = [0x11u8; 20];
    let build_id = derive_build_id(&addr, "svc");
    let node_id = "2222222222222222222222222222222222222222".to_string();
    let instance_id = build_instance_id(node_id, build_id).unwrap();
    assert_eq!(instance_id, "37167c8aa5f5d5fd5c094d7f34780098d11d69d5");
}

#[test]
fn build_id_is_deterministic() {
    let addr = [0x42u8; 20];
    assert_eq!(derive_build_id(&addr, "app"), derive_build_id(&addr, "app"));
    assert_ne!(derive_build_id(&addr, "app"), derive_build_id(&addr, "app2"));
}

#[test]
fn xor_recovers_either_operand() {
    let a: Vec<u8> = (0u8..20).collect();
    let b: Vec<u8> = (100u8..120).collect();
    let x = xor_bytes(&a, &b);
    assert_eq!(xor_bytes(&x, &b), a);
    assert_eq!(xor_bytes(&x, &a), b);
}

#[test]
fn instance_id_rejects_bad_inputs() {
    assert_eq!(
        build_instance_id("zz".to_string(), "11".repeat(32)),
        Err(IdError::InvalidHex)
    );
    assert_eq!(
        build_instance_id("11".to_string(), "11".repeat(32)),
        Err(IdError::TooShort)
    );
}

#[test]
fn hex_wrapper_encodes_and_decodes() {
    assert_eq!(hex_encode(&[1, 2, 3, 15, 16]), "0102030f10");
    assert_eq!(hex_decode("0102030f10"), Some(vec![1, 2, 3, 15, 16]));
    // mixed case decodes; odd length and bad digits do not
    assert_eq!(hex_decode("AbCd"), Some(vec![0xab, 0xcd]));
    assert_eq!(hex_decode("123"), None);
    assert_eq!(hex_decode("zz"), None);
}

#[test]
fn sha3_wrapper_matches_known_vector() {
    let digest = sha3_256(b"");
    assert_eq!(
        hex_encode(&digest),
        "a7ffc6f8bf1ed76651c14756a061d662f580ff4de43b49fa82d80a4b80f8434a"
    );
}

#[test]
fn base64_wrapper_encodes() {
    assert_eq!(base64_encode(b"hello"), "aGVsbG8=");
    assert_eq!(base64_encode(b""), "");
}

#[test]
fn agent_ids_are_hyphenated_uuids() {
    let id = new_agent_id();
    assert_eq!(id.len(), 36);
    assert_ne!(new_agent_id(), new_agent_id());
}

#[test]
fn random_index_stays_in_bounds() {
    for n in 1..10usize {
        for _ in 0..20 {
            assert!(random_index(n) < n);
        }
    }
}

#[test]
fn queue_write_frames_topic_and_subtopic() {
    let w = build_queue_write("pack", 0, &[1, 2, 3]);
    assert_eq!(
        w.topic,
        "48712b2ab2b3b9b6c3cfe71e518c7972bc818770269cdaece6e74d9565883a06"
    );
    assert_eq!(w.content, vec![0, 1, 2, 3]);
    let w2 = build_queue_write("state", 7, &[]);
    assert_eq!(
        w2.topic,
        "bd49b55f21b7dc8ed194de3638b6bbdebd67c81fa2d55c12d651ea8fdfd66be9"
    );
    assert_eq!(w2.content, vec![7]);
}
