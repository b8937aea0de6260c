use authchain::bytes::Address;
use ethers_core::abi::Token;
use ethers_core::utils::keccak256;
use authchain::eip712::{signing_digest, Domain, FieldValue};
use authchain::records::Certificate;

fn example_certificate() -> Certificate {
    Certificate {
        name: "Diploma".to_string(),
        unique_id: "cert-001".to_string(),
        serial: "SN-42".to_string(),
        date: 1700000000,
        owner: Address {
            bytes: {
                let mut b = vec![0u8; 20];
                b[19] = 1;
                b
            },
        },
        metadata: vec!["issued".to_string(), "2024".to_string()],
    }
}

#[test]
fn digest_is_deterministic() {
    let c1 = example_certificate();
    let c2 = example_certificate();
    assert_eq!(c1.encode_eip712().bytes, c2.encode_eip712().bytes);
}

#[test]
fn digest_changes_when_name_flips() {
    let base = example_certificate().encode_eip712().bytes;
    let mut c = example_certificate();
    c.name = "Diplomb".to_string();
    assert_ne!(base, c.encode_eip712().bytes);
}

#[test]
fn digest_changes_when_unique_id_flips() {
    let base = example_certificate().encode_eip712().bytes;
    let mut c = example_certificate();
    c.unique_id = "cert-002".to_string();
    assert_ne!(base, c.encode_eip712().bytes);
}

#[test]
fn digest_changes_when_serial_flips() {
    let base = example_certificate().encode_eip712().bytes;
    let mut c = example_certificate();
    c.serial = "SN-43".to_string();
    assert_ne!(base, c.encode_eip712().bytes);
}

#[test]
fn digest_changes_when_date_flips() {
    let base = example_certificate().encode_eip712().bytes;
    let mut c = example_certificate();
    c.date = 1700000001;
    assert_ne!(base, c.encode_eip712().bytes);
}

#[test]
fn digest_changes_when_owner_flips() {
    let base = example_certificate().encode_eip712().bytes;
    let mut c = example_certificate();
    c.owner.bytes[19] = 2;
    assert_ne!(base, c.encode_eip712().bytes);
}

#[test]
fn digest_changes_when_one_metadata_character_flips() {
    let base = example_certificate().encode_eip712().bytes;
    let mut c = example_certificate();
    c.metadata[1] = "2025".to_string();
    assert_ne!(base, c.encode_eip712().bytes);
}

#[test]
fn digest_changes_when_metadata_grows() {
    let base = example_certificate().encode_eip712().bytes;
    let mut c = example_certificate();
    c.metadata.push("extra".to_string());
    assert_ne!(base, c.encode_eip712().bytes);
}

fn example_values(c: &Certificate) -> Vec<FieldValue> {
    vec![
        FieldValue::Text(c.name.clone()),
        FieldValue::Text(c.unique_id.clone()),
        FieldValue::Text(c.serial.clone()),
        FieldValue::Uint256(c.date),
        FieldValue::Account(Address {
            bytes: c.owner.bytes.clone(),
        }),
        FieldValue::TextArray(c.metadata.clone()),
    ]
}

#[test]
fn same_record_under_two_domains_differs() {
    let c = example_certificate();
    let schema = Certificate::schema();
    let values = example_values(&c);
    let d1 = c.domain();
    let d2 = Domain {
        name: "CertificateAuth".to_string(),
        version: "2".to_string(),
        chain_id: d1.chain_id,
        verifying_contract: Address {
            bytes: d1.verifying_contract.bytes.clone(),
        },
    };
    let g1 = signing_digest(&d1, &schema, &values);
    let g2 = signing_digest(&d2, &schema, &values);
    assert_ne!(g1.bytes, g2.bytes);
}

#[test]
fn different_chain_id_changes_digest() {
    let c = example_certificate();
    let schema = Certificate::schema();
    let values = example_values(&c);
    let d1 = c.domain();
    let d2 = Domain {
        name: "CertificateAuth".to_string(),
        version: "1".to_string(),
        chain_id: 1,
        verifying_contract: Address {
            bytes: d1.verifying_contract.bytes.clone(),
        },
    };
    assert_ne!(
        signing_digest(&d1, &schema, &values).bytes,
        signing_digest(&d2, &schema, &values).bytes
    );
}

/// Recomputes the domain separator with the outside ABI encoder and hash,
/// mirroring the documented construction, and holds the library to it.
#[test]
fn domain_separator_matches_outside_abi_encoder() {
    let c = example_certificate();
    let type_hash = keccak256(
        "EIP712Domain(string name,string version,uint256 chainId,address verifyingContract)",
    );
    let name_hash = keccak256("CertificateAuth".as_bytes());
    let version_hash = keccak256("1".as_bytes());
    let verifying: ethers_core::types::Address = "0xC14CDcDb51EF45111dd2024AB1c003F49144928f"
        .parse()
        .unwrap();
    let encoded = ethers_core::abi::encode(&[
        Token::FixedBytes(type_hash.to_vec()),
        Token::FixedBytes(name_hash.to_vec()),
        Token::FixedBytes(version_hash.to_vec()),
        Token::Uint(ethers_core::types::U256::from(84532u64)),
        Token::Address(verifying),
    ]);
    let expected = keccak256(&encoded).to_vec();
    assert_eq!(c.domain_separator().bytes, expected);
}

/// Recomputes the record hash with the outside ABI encoder: the metadata
/// field is the hash of the concatenation of its elements' hashes.
#[test]
fn struct_hash_matches_outside_abi_encoder() {
    let c = example_certificate();
    let type_hash = keccak256(
        "Certificate(string name,string uniqueId,string serial,uint256 date,address owner,string[] metadata)",
    );
    let mut hashes: Vec<u8> = Vec::new();
    hashes.extend_from_slice(&keccak256("issued".as_bytes()));
    hashes.extend_from_slice(&keccak256("2024".as_bytes()));
    let metadata_hash = keccak256(&hashes);
    let mut owner = [0u8; 20];
    owner[19] = 1;
    let encoded = ethers_core::abi::encode(&[
        Token::FixedBytes(type_hash.to_vec()),
        Token::FixedBytes(keccak256("Diploma".as_bytes()).to_vec()),
        Token::FixedBytes(keccak256("cert-001".as_bytes()).to_vec()),
        Token::FixedBytes(keccak256("SN-42".as_bytes()).to_vec()),
        Token::Uint(ethers_core::types::U256::from(1700000000u64)),
        Token::Address(ethers_core::types::Address::from(owner)),
        Token::FixedBytes(metadata_hash.to_vec()),
    ]);
    let expected = keccak256(&encoded).to_vec();
    assert_eq!(c.struct_hash().bytes, expected);
}

/// The full digest is the hash of the two protocol markers, the domain
/// separator and the record hash, recomputed here with the outside hash.
#[test]
fn digest_matches_prefix_construction() {
    let c = example_certificate();
    let mut bytes: Vec<u8> = vec![0x19, 0x01];
    bytes.extend_from_slice(&c.domain_separator().bytes);
    bytes.extend_from_slice(&c.struct_hash().bytes);
    let expected = keccak256(&bytes).to_vec();
    assert_eq!(c.encode_eip712().bytes, expected);
}

/// An empty metadata sequence hashes as the hash of the empty
/// concatenation, and empty strings hash as the hash of no bytes.
#[test]
fn empty_metadata_and_strings_match_outside_encoder() {
    let c = Certificate {
        name: String::new(),
        unique_id: String::new(),
        serial: String::new(),
        date: 0,
        owner: Address {
            bytes: vec![0u8; 20],
        },
        metadata: Vec::new(),
    };
    let type_hash = keccak256(
        "Certificate(string name,string uniqueId,string serial,uint256 date,address owner,string[] metadata)",
    );
    let empty_hash = keccak256("".as_bytes());
    let metadata_hash = keccak256(&[] as &[u8]);
    let encoded = ethers_core::abi::encode(&[
        Token::FixedBytes(type_hash.to_vec()),
        Token::FixedBytes(empty_hash.to_vec()),
        Token::FixedBytes(empty_hash.to_vec()),
        Token::FixedBytes(empty_hash.to_vec()),
        Token::Uint(ethers_core::types::U256::from(0u64)),
        Token::Address(ethers_core::types::Address::zero()),
        Token::FixedBytes(metadata_hash.to_vec()),
    ]);
    let expected = keccak256(&encoded).to_vec();
    assert_eq!(c.struct_hash().bytes, expected);
}

/// The largest date still encodes as one right-aligned big-endian word.
#[test]
fn largest_date_encodes_like_outside_encoder() {
    let mut c = example_certificate();
    c.date = u64::MAX;
    let word = ethers_core::abi::encode(&[Token::Uint(ethers_core::types::U256::from(u64::MAX))]);
    let lib_word = authchain::encode::u64_to_word(u64::MAX);
    assert_eq!(lib_word, word);
    let d1 = c.encode_eip712();
    let d2 = c.encode_eip712();
    assert_eq!(d1.bytes, d2.bytes);
}

/// A multi-byte character in a string field still digests
/// deterministically and differs from its ASCII neighbour.
#[test]
fn non_ascii_name_digests_deterministically() {
    let mut c1 = example_certificate();
    c1.name = "Dipl\u{f4}me".to_string();
    let mut c2 = example_certificate();
    c2.name = "Diplome".to_string();
    assert_eq!(c1.encode_eip712().bytes, {
        let mut c = example_certificate();
        c.name = "Dipl\u{f4}me".to_string();
        c.encode_eip712().bytes
    });
    assert_ne!(c1.encode_eip712().bytes, c2.encode_eip712().bytes);
    let expected_name_hash = keccak256("Dipl\u{f4}me".as_bytes()).to_vec();
    let lib_hash = authchain::eip712::hash_text("Dipl\u{f4}me");
    assert_eq!(lib_hash, expected_name_hash);
}

#[test]
fn golden_digest_fixture() {
    let c = example_certificate();
    let digest = c.encode_eip712().bytes;
    let expected = hex::decode("9a95277bc9485d7a74797e87a0c58c63f55af41dc268d2ca6f57e6bc660de9a6")
        .unwrap();
    assert_eq!(
        digest,
        expected,
        "digest hex: {}",
        hex::encode(&digest)
    );
}
