use swarmbook::identity::generate_peer_id;

#[test]
fn ed25519_identity_is_generated() {
    let r = generate_peer_id("ed25519").expect("ed25519 is supported");
    assert_eq!(r.key_type, "ed25519");
    assert!(!r.peer_id.is_empty());
    assert!(!r.public_key_hex.is_empty());
    assert_eq!(r.public_key_hex.len() % 2, 0);
    assert!(r.public_key_hex.chars().all(|c| c.is_ascii_hexdigit() && !c.is_ascii_uppercase()));
}

#[test]
fn secp256k1_identity_is_generated() {
    let r = generate_peer_id("secp256k1").expect("secp256k1 is supported");
    assert_eq!(r.key_type, "secp256k1");
    assert!(!r.peer_id.is_empty());
    assert!(!r.public_key_hex.is_empty());
}

#[test]
fn ecdsa_identity_is_generated() {
    let r = generate_peer_id("ecdsa").expect("ecdsa is supported");
    assert_eq!(r.key_type, "ecdsa");
    assert!(!r.peer_id.is_empty());
    assert!(!r.public_key_hex.is_empty());
}

#[test]
fn unsupported_key_type_is_rejected() {
    let e = generate_peer_id("rsa").expect_err("rsa is not supported");
    assert_eq!(e, "Unsupported key type: rsa");
    let e = generate_peer_id("").expect_err("an empty tag is not supported");
    assert_eq!(e, "Unsupported key type: ");
}

#[test]
fn repeated_generation_gives_distinct_identifiers() {
    let a = generate_peer_id("ed25519").unwrap();
    let b = generate_peer_id("ed25519").unwrap();
    assert_ne!(a.peer_id, b.peer_id);
    assert_ne!(a.public_key_hex, b.public_key_hex);
}

#[test]
fn identifier_is_a_function_of_the_public_key_bytes() {
    for key_type in ["ed25519", "secp256k1", "ecdsa"] {
        let r = generate_peer_id(key_type).unwrap();
        // Re-derive the identifier from the returned key bytes alone.
        let bytes = hex::decode(&r.public_key_hex).expect("the hex rendering decodes");
        let public = libp2p_identity::PublicKey::try_decode_protobuf(&bytes)
            .expect("the bytes are a protobuf-encoded public key");
        assert_eq!(public.to_peer_id().to_string(), r.peer_id);
        // And the hex rendering round-trips.
        assert_eq!(hex::encode(&bytes), r.public_key_hex);
    }
}
