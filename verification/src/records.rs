use vstd::prelude::*;

use crate::bytes::{addr_chars_ok, addr_of_chars, parse_address, strip_hex_prefix, Address, Bytes32};
use crate::eip712::{
    digest_of, domain_separator, domain_separator_of, record_hash, record_hash_of, signing_digest,
    value_views, values_match, values_wf, Domain, DomainView, FieldValue, ValueView,
};
use crate::errors::ValidationError;
use crate::schema::{type_hash, type_hash_of, Field, FieldKind, FieldView, Schema, SchemaView};

verus! {

/// A certificate record: a named schema of ordered fields.  Field order is
/// part of the schema identity and must not be reordered.
pub struct Certificate {
    pub name: String,
    pub unique_id: String,
    pub serial: String,
    pub date: u64,
    pub owner: Address,
    pub metadata: Vec<String>,
}

/// The mathematical model of a certificate.
pub struct CertificateView {
    pub name: Seq<char>,
    pub unique_id: Seq<char>,
    pub serial: Seq<char>,
    pub date: u64,
    pub owner: Seq<u8>,
    pub metadata: Seq<Seq<char>>,
}

impl View for Certificate {
    type V = CertificateView;

    open spec fn view(&self) -> CertificateView {
        CertificateView {
            name: self.name@,
            unique_id: self.unique_id@,
            serial: self.serial@,
            date: self.date,
            owner: self.owner@,
            metadata: self.metadata@.map_values(|s: String| s@),
        }
    }
}

/// The certificate schema:
/// `Certificate(string name,string uniqueId,string serial,uint256 date,address owner,string[] metadata)`.
pub open spec fn cert_schema_view() -> SchemaView {
    SchemaView {
        name: "Certificate"@,
        fields: seq![
            FieldView { name: "name"@, kind: FieldKind::Text },
            FieldView { name: "uniqueId"@, kind: FieldKind::Text },
            FieldView { name: "serial"@, kind: FieldKind::Text },
            FieldView { name: "date"@, kind: FieldKind::Uint256 },
            FieldView { name: "owner"@, kind: FieldKind::Account },
            FieldView { name: "metadata"@, kind: FieldKind::TextArray },
        ],
    }
}

/// A certificate's field values, in schema order.
pub open spec fn cert_values(c: CertificateView) -> Seq<ValueView> {
    seq![
        ValueView::Text(c.name),
        ValueView::Text(c.unique_id),
        ValueView::Text(c.serial),
        ValueView::Uint256(c.date),
        ValueView::Account(c.owner),
        ValueView::TextArray(c.metadata),
    ]
}

/// The fixed certificate signing domain.
pub open spec fn cert_domain_view() -> DomainView {
    DomainView {
        name: "CertificateAuth"@,
        version: "1"@,
        chain_id: 84532,
        verifying_contract: seq![
            0xC1u8, 0x4Cu8, 0xDCu8, 0xDBu8, 0x51u8, 0xEFu8, 0x45u8, 0x11u8, 0x1Du8, 0xD2u8,
            0x02u8, 0x4Au8, 0xB1u8, 0xC0u8, 0x03u8, 0xF4u8, 0x91u8, 0x44u8, 0x92u8, 0x8Fu8,
        ],
    }
}

/// Duplicates a vector of strings, preserving contents and order.
pub fn clone_strings(v: &Vec<String>) -> (r: Vec<String>)
    ensures
        r@ == v@,
{
    let mut r: Vec<String> = Vec::new();
    let mut i: usize = 0;
    while i < v.len()
        invariant
            i <= v@.len(),
            r@ == v@.subrange(0, i as int),
        decreases v@.len() - i,
    {
        r.push(v[i].clone());
        proof {
            assert(v@.subrange(0, (i + 1) as int) =~= v@.subrange(0, i as int).push(v@[i as int]));
        }
        i = i + 1;
    }
    proof {
        assert(v@.subrange(0, v@.len() as int) =~= v@);
    }
    r
}

impl Certificate {
    /// A well-formed certificate holds a 20-byte owner address.
    pub open spec fn wf(&self) -> bool {
        self.owner.wf()
    }

    /// Builds the certificate schema as a value.
    pub fn schema() -> (r: Schema)
        ensures
            r@ == cert_schema_view(),
    {
        let mut fields: Vec<Field> = Vec::new();
        fields.push(Field { name: String::from_str("name"), kind: FieldKind::Text });
        fields.push(Field { name: String::from_str("uniqueId"), kind: FieldKind::Text });
        fields.push(Field { name: String::from_str("serial"), kind: FieldKind::Text });
        fields.push(Field { name: String::from_str("date"), kind: FieldKind::Uint256 });
        fields.push(Field { name: String::from_str("owner"), kind: FieldKind::Account });
        fields.push(Field { name: String::from_str("metadata"), kind: FieldKind::TextArray });
        let r = Schema { record_name: String::from_str("Certificate"), fields };
        proof {
            assert(r@.fields =~= cert_schema_view().fields);
            assert(r@ == cert_schema_view());
        }
        r
    }

    /// The certificate's field values, in schema order.
    pub fn values(&self) -> (r: Vec<FieldValue>)
        requires
            self.wf(),
        ensures
            values_wf(r@),
            values_match(cert_schema_view(), r@),
            value_views(r@) == cert_values(self@),
    {
        let mut vs: Vec<FieldValue> = Vec::new();
        vs.push(FieldValue::Text(self.name.clone()));
        vs.push(FieldValue::Text(self.unique_id.clone()));
        vs.push(FieldValue::Text(self.serial.clone()));
        vs.push(FieldValue::Uint256(self.date));
        vs.push(FieldValue::Account(Address { bytes: crate::bytes::clone_bytes(&self.owner.bytes) }));
        vs.push(FieldValue::TextArray(clone_strings(&self.metadata)));
        proof {
            assert(value_views(vs@) =~= cert_values(self@));
        }
        vs
    }

    /// The fixed signing domain of certificates.
    pub fn domain(&self) -> (r: Domain)
        ensures
            r.wf(),
            r@ == cert_domain_view(),
    {
        let bytes: Vec<u8> = vec![
            0xC1u8, 0x4Cu8, 0xDCu8, 0xDBu8, 0x51u8, 0xEFu8, 0x45u8, 0x11u8, 0x1Du8, 0xD2u8,
            0x02u8, 0x4Au8, 0xB1u8, 0xC0u8, 0x03u8, 0xF4u8, 0x91u8, 0x44u8, 0x92u8, 0x8Fu8,
        ];
        proof {
            assert(bytes@ =~= cert_domain_view().verifying_contract);
        }
        Domain {
            name: String::from_str("CertificateAuth"),
            version: String::from_str("1"),
            chain_id: 84532,
            verifying_contract: Address { bytes },
        }
    }

    /// The type signature hash of the certificate schema.
    pub fn type_hash() -> (r: Bytes32)
        ensures
            r.wf(),
            r@ == type_hash_of(cert_schema_view()),
    {
        let s = Self::schema();
        type_hash(&s)
    }

    /// The certificate's record hash under its schema.
    pub fn struct_hash(&self) -> (r: Bytes32)
        requires
            self.wf(),
        ensures
            r.wf(),
            r@ == record_hash_of(cert_schema_view(), cert_values(self@)),
    {
        let s = Self::schema();
        let vs = self.values();
        record_hash(&s, &vs)
    }

    /// The domain separator of the fixed certificate domain.
    pub fn domain_separator(&self) -> (r: Bytes32)
        ensures
            r.wf(),
            r@ == domain_separator_of(cert_domain_view()),
    {
        let d = self.domain();
        domain_separator(&d)
    }

    /// The signing digest of this certificate: a pure function of the
    /// domain and the record, so two calls on equal values yield equal
    /// digests.
    pub fn encode_eip712(&self) -> (r: Bytes32)
        requires
            self.wf(),
        ensures
            r.wf(),
            r@ == digest_of(cert_domain_view(), cert_schema_view(), cert_values(self@)),
    {
        let d = self.domain();
        let s = Self::schema();
        let vs = self.values();
        signing_digest(&d, &s, &vs)
    }

    /// Validates a transfer object into a certificate.  The owner string
    /// must be 40 hex digits, with or without a `0x` prefix; everything
    /// else carries over unchanged.
    pub fn try_from(dto: CertificateDTO) -> (r: Result<Certificate, ValidationError>)
        ensures
            r matches Ok(c) ==> c.wf() && c@ == (CertificateView {
                name: dto.name@,
                unique_id: dto.unique_id@,
                serial: dto.serial@,
                date: dto.date,
                owner: addr_of_chars(strip_hex_prefix(dto.owner@)),
                metadata: dto.metadata@.map_values(|s: String| s@),
            }),
            r is Err <==> !addr_chars_ok(strip_hex_prefix(dto.owner@)),
    {
        let owner = match parse_address(dto.owner.as_str()) {
            Ok(a) => a,
            Err(e) => {
                return Err(e);
            },
        };
        Ok(Certificate {
            name: dto.name,
            unique_id: dto.unique_id,
            serial: dto.serial,
            date: dto.date,
            owner,
            metadata: dto.metadata,
        })
    }
}

/// The certificate transfer object as the surrounding service receives it:
/// plain strings and a number, the owner as a hex address string.
pub struct CertificateDTO {
    pub name: String,
    pub unique_id: String,
    pub serial: String,
    pub date: u64,
    pub owner: String,
    pub metadata: Vec<String>,
}

/// A request naming one item by its identifier.
pub struct ItemInput {
    pub item_id: String,
}

/// An asset record attesting ownership: name, serial and owner address.
pub struct Asset {
    pub name: String,
    pub serial: String,
    pub owner: Address,
}

/// The mathematical model of an asset.
pub struct AssetView {
    pub name: Seq<char>,
    pub serial: Seq<char>,
    pub owner: Seq<u8>,
}

impl View for Asset {
    type V = AssetView;

    open spec fn view(&self) -> AssetView {
        AssetView { name: self.name@, serial: self.serial@, owner: self.owner@ }
    }
}

/// The asset schema: `Asset(string name,string serial,address owner)`.
pub open spec fn asset_schema_view() -> SchemaView {
    SchemaView {
        name: "Asset"@,
        fields: seq![
            FieldView { name: "name"@, kind: FieldKind::Text },
            FieldView { name: "serial"@, kind: FieldKind::Text },
            FieldView { name: "owner"@, kind: FieldKind::Account },
        ],
    }
}

/// An asset's field values, in schema order.
pub open spec fn asset_values(a: AssetView) -> Seq<ValueView> {
    seq![ValueView::Text(a.name), ValueView::Text(a.serial), ValueView::Account(a.owner)]
}

/// The fixed asset-ownership signing domain.
pub open spec fn asset_domain_view() -> DomainView {
    DomainView {
        name: "AssetOwnership"@,
        version: "1"@,
        chain_id: 84532,
        verifying_contract: seq![
            0x3Bu8, 0x5Fu8, 0xFDu8, 0x91u8, 0x1Bu8, 0x70u8, 0xEDu8, 0x3Eu8, 0x16u8, 0x6Eu8,
            0x31u8, 0x97u8, 0x88u8, 0x08u8, 0x09u8, 0xC1u8, 0xE8u8, 0x5Bu8, 0x34u8, 0xB3u8,
        ],
    }
}

impl Asset {
    /// A well-formed asset holds a 20-byte owner address.
    pub open spec fn wf(&self) -> bool {
        self.owner.wf()
    }

    /// Builds the asset schema as a value.
    pub fn schema() -> (r: Schema)
        ensures
            r@ == asset_schema_view(),
    {
        let mut fields: Vec<Field> = Vec::new();
        fields.push(Field { name: String::from_str("name"), kind: FieldKind::Text });
        fields.push(Field { name: String::from_str("serial"), kind: FieldKind::Text });
        fields.push(Field { name: String::from_str("owner"), kind: FieldKind::Account });
        let r = Schema { record_name: String::from_str("Asset"), fields };
        proof {
            assert(r@.fields =~= asset_schema_view().fields);
            assert(r@ == asset_schema_view());
        }
        r
    }

    /// The asset's field values, in schema order.
    pub fn values(&self) -> (r: Vec<FieldValue>)
        requires
            self.wf(),
        ensures
            values_wf(r@),
            values_match(asset_schema_view(), r@),
            value_views(r@) == asset_values(self@),
    {
        let mut vs: Vec<FieldValue> = Vec::new();
        vs.push(FieldValue::Text(self.name.clone()));
        vs.push(FieldValue::Text(self.serial.clone()));
        vs.push(FieldValue::Account(Address { bytes: crate::bytes::clone_bytes(&self.owner.bytes) }));
        proof {
            assert(value_views(vs@) =~= asset_values(self@));
        }
        vs
    }

    /// The fixed signing domain of assets.
    pub fn domain(&self) -> (r: Domain)
        ensures
            r.wf(),
            r@ == asset_domain_view(),
    {
        let bytes: Vec<u8> = vec![
            0x3Bu8, 0x5Fu8, 0xFDu8, 0x91u8, 0x1Bu8, 0x70u8, 0xEDu8, 0x3Eu8, 0x16u8, 0x6Eu8,
            0x31u8, 0x97u8, 0x88u8, 0x08u8, 0x09u8, 0xC1u8, 0xE8u8, 0x5Bu8, 0x34u8, 0xB3u8,
        ];
        proof {
            assert(bytes@ =~= asset_domain_view().verifying_contract);
        }
        Domain {
            name: String::from_str("AssetOwnership"),
            version: String::from_str("1"),
            chain_id: 84532,
            verifying_contract: Address { bytes },
        }
    }

    /// The asset's record hash under its schema.
    pub fn struct_hash(&self) -> (r: Bytes32)
        requires
            self.wf(),
        ensures
            r.wf(),
            r@ == record_hash_of(asset_schema_view(), asset_values(self@)),
    {
        let s = Self::schema();
        let vs = self.values();
        record_hash(&s, &vs)
    }

    /// The signing digest of this asset under the fixed asset domain.
    pub fn encode_eip712(&self) -> (r: Bytes32)
        requires
            self.wf(),
        ensures
            r.wf(),
            r@ == digest_of(asset_domain_view(), asset_schema_view(), asset_values(self@)),
    {
        let d = self.domain();
        let s = Self::schema();
        let vs = self.values();
        signing_digest(&d, &s, &vs)
    }

    /// Validates a transfer object into an asset.  The owner string must be
    /// 40 hex digits, with or without a `0x` prefix.
    pub fn try_from(dto: AssetDto) -> (r: Result<Asset, ValidationError>)
        ensures
            r matches Ok(a) ==> a.wf() && a@ == (AssetView {
                name: dto.name@,
                serial: dto.serial@,
                owner: addr_of_chars(strip_hex_prefix(dto.owner@)),
            }),
            r is Err <==> !addr_chars_ok(strip_hex_prefix(dto.owner@)),
    {
        let owner = match parse_address(dto.owner.as_str()) {
            Ok(a) => a,
            Err(e) => {
                return Err(e);
            },
        };
        Ok(Asset { name: dto.name, serial: dto.serial, owner })
    }
}

/// The asset transfer object: plain strings, the owner as a hex address
/// string.
pub struct AssetDto {
    pub name: String,
    pub serial: String,
    pub owner: String,
}

} // verus!
