use authchain::bytes::parse_address;
use ethers_core::abi::Token;
use ethers_core::utils::keccak256;
use authchain::records::{Asset, AssetDto, Certificate, CertificateDTO, ItemInput};
use authchain::schema::type_string;

fn example_dto() -> CertificateDTO {
    CertificateDTO {
        name: "Diploma".to_string(),
        unique_id: "cert-001".to_string(),
        serial: "SN-42".to_string(),
        date: 1700000000,
        owner: "0x0000000000000000000000000000000000000001".to_string(),
        metadata: vec!["issued".to_string(), "2024".to_string()],
    }
}

#[test]
fn dto_converts_with_prefix() {
    let c = Certificate::try_from(example_dto()).unwrap();
    assert_eq!(c.name, "Diploma");
    assert_eq!(c.date, 1700000000);
    let mut expected = vec![0u8; 20];
    expected[19] = 1;
    assert_eq!(c.owner.bytes, expected);
    assert_eq!(c.metadata, vec!["issued".to_string(), "2024".to_string()]);
}

#[test]
fn dto_converts_without_prefix() {
    let mut dto = example_dto();
    dto.owner = "C14CDcDb51EF45111dd2024AB1c003F49144928f".to_string();
    let c = Certificate::try_from(dto).unwrap();
    assert_eq!(c.owner.bytes[0], 0xC1);
    assert_eq!(c.owner.bytes[19], 0x8F);
}

#[test]
fn short_address_is_rejected() {
    let mut dto = example_dto();
    dto.owner = "0x1234".to_string();
    assert!(Certificate::try_from(dto).is_err());
}

#[test]
fn non_hex_address_is_rejected() {
    let mut dto = example_dto();
    dto.owner = "0x000000000000000000000000000000000000000g".to_string();
    assert!(Certificate::try_from(dto).is_err());
}

#[test]
fn non_ascii_address_is_rejected() {
    let mut dto = example_dto();
    dto.owner = "0x00000000000000000000000000000000000000\u{e9}".to_string();
    assert!(Certificate::try_from(dto).is_err());
}

#[test]
fn parse_address_reads_each_digit_pair() {
    let a = parse_address("0x0102030405060708090a0B0c0D0e0F1011121314").unwrap();
    assert_eq!(
        a.bytes,
        vec![1, 2, 3, 4, 5, 6, 7, 8, 9, 10, 11, 12, 13, 14, 15, 16, 17, 18, 19, 20]
    );
}

#[test]
fn certificate_type_string_is_canonical() {
    let s = type_string(&Certificate::schema());
    assert_eq!(
        String::from_utf8(s).unwrap(),
        "Certificate(string name,string uniqueId,string serial,uint256 date,address owner,string[] metadata)"
    );
}

#[test]
fn certificate_type_hash_matches_outside_hash() {
    let expected = ethers_core::utils::keccak256(
        "Certificate(string name,string uniqueId,string serial,uint256 date,address owner,string[] metadata)",
    )
    .to_vec();
    assert_eq!(Certificate::type_hash().bytes, expected);
}

#[test]
fn asset_type_string_is_canonical() {
    let s = type_string(&Asset::schema());
    assert_eq!(
        String::from_utf8(s).unwrap(),
        "Asset(string name,string serial,address owner)"
    );
}

#[test]
fn asset_dto_converts_and_hashes() {
    let dto = AssetDto {
        name: "Artifact".to_string(),
        serial: "A-7".to_string(),
        owner: "0x3b5fFD911B70ed3E166e3197880809C1e85b34B3".to_string(),
    };
    let a = Asset::try_from(dto).unwrap();
    assert_eq!(a.owner.bytes[0], 0x3B);
    let d1 = a.encode_eip712();
    let d2 = a.encode_eip712();
    assert_eq!(d1.bytes, d2.bytes);
}

#[test]
fn asset_struct_hash_matches_outside_abi_encoder() {
    let dto = AssetDto {
        name: "Artifact".to_string(),
        serial: "A-7".to_string(),
        owner: "0x3b5fFD911B70ed3E166e3197880809C1e85b34B3".to_string(),
    };
    let a = Asset::try_from(dto).unwrap();
    let type_hash = keccak256("Asset(string name,string serial,address owner)");
    let owner: ethers_core::types::Address = "0x3b5fFD911B70ed3E166e3197880809C1e85b34B3"
        .parse()
        .unwrap();
    let encoded = ethers_core::abi::encode(&[
        Token::FixedBytes(type_hash.to_vec()),
        Token::FixedBytes(keccak256("Artifact".as_bytes()).to_vec()),
        Token::FixedBytes(keccak256("A-7".as_bytes()).to_vec()),
        Token::Address(owner),
    ]);
    let expected = keccak256(&encoded).to_vec();
    assert_eq!(a.struct_hash().bytes, expected);
}

#[test]
fn word_reading_inverts_word_encoding() {
    for x in [0u64, 1, 255, 256, 1700000000, u64::MAX] {
        let word = authchain::encode::u64_to_word(x);
        let back = authchain::encode::word_to_u64(&word).unwrap();
        assert_eq!(back, x);
    }
    let mut big = vec![0u8; 32];
    big[23] = 1;
    assert!(authchain::encode::word_to_u64(&big).is_none());
}

#[test]
fn item_input_carries_its_identifier() {
    let i = ItemInput {
        item_id: "asset001".to_string(),
    };
    assert_eq!(i.item_id, "asset001");
}

#[test]
fn asset_domain_differs_from_certificate_domain() {
    let dto = AssetDto {
        name: "n".to_string(),
        serial: "s".to_string(),
        owner: "0x0000000000000000000000000000000000000001".to_string(),
    };
    let a = Asset::try_from(dto).unwrap();
    let c = Certificate::try_from(example_dto()).unwrap();
    assert_ne!(
        a.domain().verifying_contract.bytes,
        c.domain().verifying_contract.bytes
    );
}
