//! Generation of a fresh session identity: an asymmetric key pair of a
//! caller-selected algorithm family, the stable peer identifier derived
//! from its public key, and the hex rendering of that public key.

use vstd::prelude::*;
use vstd::string::StringExecFns;
use crate::strutil::str_eq;

verus! {

/// The outcome of generating a fresh peer identity.
#[derive(Clone, Debug)]
pub struct PeerIdResult {
    /// Stable textual identifier derived from the public key.
    pub peer_id: String,
    /// Lower-case hexadecimal rendering of the encoded public key.
    pub public_key_hex: String,
    /// The algorithm tag the identity was generated with.
    pub key_type: String,
}

/// The algorithm tags for which an identity can be generated.
pub open spec fn supported_key_type(t: Seq<char>) -> bool {
    t == "ed25519"@ || t == "secp256k1"@ || t == "ecdsa"@
}

/// The error text for an unsupported algorithm tag.
pub open spec fn unsupported_msg(t: Seq<char>) -> Seq<char> {
    "Unsupported key type: "@ + t
}

/// Lower-case hexadecimal digit of a value below sixteen.
pub open spec fn hex_digit(n: u8) -> char
    recommends
        n < 16,
{
    if n == 0 {
        '0'
    } else if n == 1 {
        '1'
    } else if n == 2 {
        '2'
    } else if n == 3 {
        '3'
    } else if n == 4 {
        '4'
    } else if n == 5 {
        '5'
    } else if n == 6 {
        '6'
    } else if n == 7 {
        '7'
    } else if n == 8 {
        '8'
    } else if n == 9 {
        '9'
    } else if n == 10 {
        'a'
    } else if n == 11 {
        'b'
    } else if n == 12 {
        'c'
    } else if n == 13 {
        'd'
    } else if n == 14 {
        'e'
    } else {
        'f'
    }
}

/// Lower-case hexadecimal rendering of a byte sequence: two digits per
/// byte, most significant digit first.
pub open spec fn hex_of(bytes: Seq<u8>) -> Seq<char>
    decreases bytes.len(),
{
    if bytes.len() == 0 {
        Seq::empty()
    } else {
        hex_of(bytes.drop_last()) + seq![
            hex_digit(bytes.last() / 16),
            hex_digit(bytes.last() % 16),
        ]
    }
}

/// The peer identifier that the underlying identity library derives from
/// a protobuf-encoded public key: the base58 form of a multihash of those
/// bytes, a deterministic function of them.
pub uninterp spec fn peer_id_of(public_key: Seq<u8>) -> Seq<char>;

/// Relies on libp2p_identity::Keypair::generate_ed25519 (a fresh random
/// key pair), PublicKey::encode_protobuf and PublicKey::to_peer_id: the
/// identifier is derived deterministically from the encoded public key
/// and rendered as a non-empty base58 string.
#[verifier::external_body]
fn generate_identity_ed25519() -> (r: (String, Vec<u8>))
    ensures
        r.0@ == peer_id_of(r.1@),
        r.0@.len() > 0,
{
    let keypair = libp2p_identity::Keypair::generate_ed25519();
    let public = keypair.public();
    (public.to_peer_id().to_string(), public.encode_protobuf())
}

/// Relies on libp2p_identity::Keypair::generate_secp256k1 (a fresh random
/// key pair), PublicKey::encode_protobuf and PublicKey::to_peer_id: the
/// identifier is derived deterministically from the encoded public key
/// and rendered as a non-empty base58 string.
#[verifier::external_body]
fn generate_identity_secp256k1() -> (r: (String, Vec<u8>))
    ensures
        r.0@ == peer_id_of(r.1@),
        r.0@.len() > 0,
{
    let keypair = libp2p_identity::Keypair::generate_secp256k1();
    let public = keypair.public();
    (public.to_peer_id().to_string(), public.encode_protobuf())
}

/// Relies on libp2p_identity::Keypair::generate_ecdsa (a fresh random
/// key pair), PublicKey::encode_protobuf and PublicKey::to_peer_id: the
/// identifier is derived deterministically from the encoded public key
/// and rendered as a non-empty base58 string.
#[verifier::external_body]
fn generate_identity_ecdsa() -> (r: (String, Vec<u8>))
    ensures
        r.0@ == peer_id_of(r.1@),
        r.0@.len() > 0,
{
    let keypair = libp2p_identity::Keypair::generate_ecdsa();
    let public = keypair.public();
    (public.to_peer_id().to_string(), public.encode_protobuf())
}

/// Relies on hex::encode: lower-case hexadecimal, two digits per byte,
/// most significant digit first.
#[verifier::external_body]
fn to_hex(bytes: &Vec<u8>) -> (r: String)
    ensures
        r@ == hex_of(bytes@),
{
    hex::encode(bytes.as_slice())
}

/// Generate a fresh identity of the given algorithm family and derive the
/// session identifier from its public key.
///
/// Succeeds exactly on the supported algorithm tags; the returned
/// identifier is a deterministic function of the key bytes whose hex
/// rendering is returned beside it.
pub fn generate_peer_id(key_type: &str) -> (r: Result<PeerIdResult, String>)
    ensures
        match r {
            Ok(res) => supported_key_type(key_type@) && res.key_type@ == key_type@
                && res.peer_id@.len() > 0 && (exists|pk: Seq<u8>|
                res.public_key_hex@ == #[trigger] hex_of(pk) && res.peer_id@ == peer_id_of(pk)),
            Err(msg) => !supported_key_type(key_type@) && msg@ == unsupported_msg(key_type@),
        },
{
    let generated: (String, Vec<u8>);
    if str_eq(key_type, "ed25519") {
        generated = generate_identity_ed25519();
    } else if str_eq(key_type, "secp256k1") {
        generated = generate_identity_secp256k1();
    } else if str_eq(key_type, "ecdsa") {
        generated = generate_identity_ecdsa();
    } else {
        let mut msg = String::from_str("Unsupported key type: ");
        msg.append(key_type);
        return Err(msg);
    }
    let hex_key = to_hex(&generated.1);
    proof {
        assert(hex_key@ == hex_of(generated.1@) && generated.0@ == peer_id_of(generated.1@));
    }
    Ok(PeerIdResult {
        peer_id: generated.0,
        public_key_hex: hex_key,
        key_type: key_type.to_owned(),
    })
}

} // verus!
