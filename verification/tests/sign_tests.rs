use authchain::bytes::{Address, Bytes32};
use authchain::records::Certificate;
use authchain::sign::{address_of_key, hash_and_sign, recover, sign, sign_then_recover, to_bytes, verify, Signature};

/// A well-known development private key with a well-known address.
fn test_key() -> Bytes32 {
    Bytes32 {
        bytes: hex::decode("ac0974bec39a17e36ba4a6b4d238ff944bacb478cbed5efcae784d7bf4f2ff80")
            .unwrap(),
    }
}

fn test_digest() -> Bytes32 {
    let mut b = vec![0u8; 32];
    b[0] = 0xAB;
    b[31] = 0xCD;
    Bytes32 { bytes: b }
}

#[test]
fn sign_then_recover_round_trip() {
    let key = test_key();
    let digest = test_digest();
    let sig = sign(&digest, &key).unwrap();
    let recovered = recover(&digest, &sig).unwrap();
    let expected = address_of_key(&key).unwrap();
    assert_eq!(recovered.bytes, expected.bytes);
}

#[test]
fn known_key_recovers_known_address() {
    let key = test_key();
    let digest = test_digest();
    let sig = sign(&digest, &key).unwrap();
    let recovered = recover(&digest, &sig).unwrap();
    let expected = hex::decode("f39Fd6e51aad88F6F4ce6aB8827279cffFb92266".to_lowercase()).unwrap();
    assert_eq!(
        recovered.bytes,
        expected,
        "recovered hex: {}",
        hex::encode(&recovered.bytes)
    );
}

#[test]
fn sign_then_recover_composition_agrees() {
    let key = test_key();
    let digest = test_digest();
    let (sig, recovered) = sign_then_recover(&digest, &key).unwrap();
    assert_eq!(recovered.bytes, address_of_key(&key).unwrap().bytes);
    let direct = sign(&digest, &key).unwrap();
    assert_eq!(sig.r, direct.r);
    assert_eq!(sig.s, direct.s);
    assert_eq!(sig.v, direct.v);
}

#[test]
fn hash_and_sign_signs_the_keccak_hash() {
    let key = test_key();
    let data = "asset payload".as_bytes().to_vec();
    let sig = hash_and_sign(&data, &key).unwrap();
    let digest = Bytes32 {
        bytes: ethers_core::utils::keccak256(&data).to_vec(),
    };
    let direct = sign(&digest, &key).unwrap();
    assert_eq!(sig.r, direct.r);
    assert_eq!(sig.s, direct.s);
    assert_eq!(sig.v, direct.v);
    let recovered = recover(&digest, &sig).unwrap();
    assert_eq!(recovered.bytes, address_of_key(&key).unwrap().bytes);
}

#[test]
fn signing_is_deterministic() {
    let key = test_key();
    let digest = test_digest();
    let s1 = sign(&digest, &key).unwrap();
    let s2 = sign(&digest, &key).unwrap();
    assert_eq!(s1.r, s2.r);
    assert_eq!(s1.s, s2.s);
    assert_eq!(s1.v, s2.v);
}

#[test]
fn selector_is_normalized() {
    let key = test_key();
    let digest = test_digest();
    let sig = sign(&digest, &key).unwrap();
    assert!(sig.v == 27 || sig.v == 28);
}

#[test]
fn verify_accepts_signer_and_rejects_other() {
    let key = test_key();
    let digest = test_digest();
    let sig = sign(&digest, &key).unwrap();
    let signer = address_of_key(&key).unwrap();
    assert!(verify(&digest, &sig, &signer));
    let other = Address { bytes: vec![7u8; 20] };
    assert!(!verify(&digest, &sig, &other));
}

#[test]
fn verify_rejects_signature_of_other_digest() {
    let key = test_key();
    let digest = test_digest();
    let sig = sign(&digest, &key).unwrap();
    let signer = address_of_key(&key).unwrap();
    let other_digest = Bytes32 { bytes: vec![9u8; 32] };
    assert!(!verify(&other_digest, &sig, &signer));
}

#[test]
fn zero_key_is_a_signing_error() {
    let key = Bytes32 { bytes: vec![0u8; 32] };
    let digest = test_digest();
    assert!(sign(&digest, &key).is_err());
    assert!(address_of_key(&key).is_err());
    assert!(hash_and_sign(&vec![1u8, 2, 3], &key).is_err());
    assert!(sign_then_recover(&digest, &key).is_err());
}

#[test]
fn key_above_curve_order_is_a_signing_error() {
    let key = Bytes32 {
        bytes: vec![0xFFu8; 32],
    };
    let digest = test_digest();
    assert!(sign(&digest, &key).is_err());
    assert!(address_of_key(&key).is_err());
}

#[test]
fn usable_key_always_signs() {
    let key = test_key();
    let digest = test_digest();
    assert!(sign(&digest, &key).is_ok());
    assert!(address_of_key(&key).is_ok());
    assert!(hash_and_sign(&vec![], &key).is_ok());
}

#[test]
fn zero_scalars_are_an_invalid_signature() {
    let digest = test_digest();
    let sig = Signature {
        r: vec![0u8; 32],
        s: vec![0u8; 32],
        v: 27,
    };
    assert!(recover(&digest, &sig).is_err());
}

#[test]
fn signature_serializes_as_r_s_v() {
    let sig = Signature {
        r: vec![1u8; 32],
        s: vec![2u8; 32],
        v: 28,
    };
    let bytes = to_bytes(&sig);
    assert_eq!(bytes.len(), 65);
    assert_eq!(&bytes[0..32], &[1u8; 32][..]);
    assert_eq!(&bytes[32..64], &[2u8; 32][..]);
    assert_eq!(bytes[64], 28);
}

/// Signing the example certificate digest and recovering yields the
/// signing key's address.
#[test]
fn certificate_digest_signs_and_recovers() {
    let c = Certificate {
        name: "Diploma".to_string(),
        unique_id: "cert-001".to_string(),
        serial: "SN-42".to_string(),
        date: 1700000000,
        owner: Address {
            bytes: {
                let mut b = vec![0u8; 20];
                b[19] = 1;
                b
            },
        },
        metadata: vec!["issued".to_string(), "2024".to_string()],
    };
    let digest = c.encode_eip712();
    let key = test_key();
    let sig = sign(&digest, &key).unwrap();
    let recovered = recover(&digest, &sig).unwrap();
    assert_eq!(recovered.bytes, address_of_key(&key).unwrap().bytes);
}
