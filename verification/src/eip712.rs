use vstd::prelude::*;

use crate::bytes::{append_bytes, clone_bytes, Address, Bytes32};
use crate::encode::{word_of_address, word_of_u64, address_to_word, u64_to_word};
use crate::keccak::{keccak256, keccak_of};
use crate::schema::{type_hash, type_hash_of, FieldKind, FieldView, Schema, SchemaView};
use vstd::utf8::encode_utf8;

verus! {

/// The signing domain: identifies the verification context.  Two records
/// with identical fields under different domains hash differently.
pub struct Domain {
    pub name: String,
    pub version: String,
    pub chain_id: u64,
    pub verifying_contract: Address,
}

/// The mathematical model of a domain.
pub struct DomainView {
    pub name: Seq<char>,
    pub version: Seq<char>,
    pub chain_id: u64,
    pub verifying_contract: Seq<u8>,
}

impl View for Domain {
    type V = DomainView;

    open spec fn view(&self) -> DomainView {
        DomainView {
            name: self.name@,
            version: self.version@,
            chain_id: self.chain_id,
            verifying_contract: self.verifying_contract@,
        }
    }
}

impl Domain {
    /// A well-formed domain holds a 20-byte verifying address.
    pub open spec fn wf(&self) -> bool {
        self.verifying_contract.wf()
    }
}

/// A field value of a record, matching one `FieldKind`.
pub enum FieldValue {
    Text(String),
    Uint256(u64),
    Account(Address),
    Word(Bytes32),
    TextArray(Vec<String>),
}

/// The mathematical model of a field value.
pub enum ValueView {
    Text(Seq<char>),
    Uint256(u64),
    Account(Seq<u8>),
    Word(Seq<u8>),
    TextArray(Seq<Seq<char>>),
}

impl View for FieldValue {
    type V = ValueView;

    open spec fn view(&self) -> ValueView {
        match self {
            FieldValue::Text(s) => ValueView::Text(s@),
            FieldValue::Uint256(x) => ValueView::Uint256(*x),
            FieldValue::Account(a) => ValueView::Account(a@),
            FieldValue::Word(w) => ValueView::Word(w@),
            FieldValue::TextArray(items) => ValueView::TextArray(
                items@.map_values(|s: String| s@),
            ),
        }
    }
}

impl FieldValue {
    /// Addresses hold 20 bytes and fixed words 32.
    pub open spec fn wf(&self) -> bool {
        match self {
            FieldValue::Account(a) => a.wf(),
            FieldValue::Word(w) => w.wf(),
            _ => true,
        }
    }

    /// The kind this value instantiates.
    pub open spec fn kind(&self) -> FieldKind {
        match self {
            FieldValue::Text(_) => FieldKind::Text,
            FieldValue::Uint256(_) => FieldKind::Uint256,
            FieldValue::Account(_) => FieldKind::Account,
            FieldValue::Word(_) => FieldKind::Word,
            FieldValue::TextArray(_) => FieldKind::TextArray,
        }
    }
}

/// The hash of a string value: the hash of its UTF-8 bytes.
pub open spec fn text_hash(s: Seq<char>) -> Seq<u8> {
    keccak_of(encode_utf8(s))
}

/// The concatenation, in order, of the hashes of each string element.
pub open spec fn text_hashes_concat(items: Seq<Seq<char>>) -> Seq<u8>
    decreases items.len(),
{
    if items.len() == 0 {
        Seq::empty()
    } else {
        text_hashes_concat(items.drop_last()) + text_hash(items.last())
    }
}

/// A sequence-of-strings value is encoded as the hash of the concatenation
/// of its elements' hashes.
pub open spec fn text_array_hash(items: Seq<Seq<char>>) -> Seq<u8> {
    keccak_of(text_hashes_concat(items))
}

/// The single 32-byte word a field value contributes to a record hash:
/// strings and string arrays by their hash, scalars by their fixed-width
/// encoding, fixed words verbatim.
pub open spec fn word_of_value(v: ValueView) -> Seq<u8> {
    match v {
        ValueView::Text(s) => text_hash(s),
        ValueView::Uint256(x) => word_of_u64(x),
        ValueView::Account(a) => word_of_address(a),
        ValueView::Word(w) => w,
        ValueView::TextArray(items) => text_array_hash(items),
    }
}

/// The concatenation, in order, of the words of each field value.
pub open spec fn words_of_values(vs: Seq<ValueView>) -> Seq<u8>
    decreases vs.len(),
{
    if vs.len() == 0 {
        Seq::empty()
    } else {
        words_of_values(vs.drop_last()) + word_of_value(vs.last())
    }
}

/// The record hash: the hash of the type signature hash followed by the
/// per-field words, in schema order.
pub open spec fn record_hash_of(s: SchemaView, vs: Seq<ValueView>) -> Seq<u8> {
    keccak_of(type_hash_of(s) + words_of_values(vs))
}

/// The fixed domain schema: `EIP712Domain(string name,string version,
/// uint256 chainId,address verifyingContract)`.
pub open spec fn domain_schema_view() -> SchemaView {
    SchemaView {
        name: "EIP712Domain"@,
        fields: seq![
            FieldView { name: "name"@, kind: FieldKind::Text },
            FieldView { name: "version"@, kind: FieldKind::Text },
            FieldView { name: "chainId"@, kind: FieldKind::Uint256 },
            FieldView { name: "verifyingContract"@, kind: FieldKind::Account },
        ],
    }
}

/// The domain's field values, in schema order.
pub open spec fn domain_values(d: DomainView) -> Seq<ValueView> {
    seq![
        ValueView::Text(d.name),
        ValueView::Text(d.version),
        ValueView::Uint256(d.chain_id),
        ValueView::Account(d.verifying_contract),
    ]
}

/// The domain separator: the record hash of the domain under the fixed
/// domain schema.
pub open spec fn domain_separator_of(d: DomainView) -> Seq<u8> {
    record_hash_of(domain_schema_view(), domain_values(d))
}

/// The signing digest: the hash of the two fixed protocol marker bytes
/// `0x19 0x01`, the domain separator, and the record hash.
pub open spec fn digest_of(d: DomainView, s: SchemaView, vs: Seq<ValueView>) -> Seq<u8> {
    keccak_of(seq![0x19u8, 0x01u8] + domain_separator_of(d) + record_hash_of(s, vs))
}

/// Determinism: the signing digest is a pure function of the domain, the
/// schema and the record values; equal inputs always yield the identical
/// digest, whoever computes it and however often.
pub proof fn lemma_digest_deterministic(
    d1: DomainView,
    d2: DomainView,
    s1: SchemaView,
    s2: SchemaView,
    v1: Seq<ValueView>,
    v2: Seq<ValueView>,
)
    requires
        d1 == d2,
        s1 == s2,
        v1 == v2,
    ensures
        digest_of(d1, s1, v1) == digest_of(d2, s2, v2),
{
}

/// Hashes the UTF-8 bytes of a string value.
pub fn hash_text(s: &str) -> (r: Vec<u8>)
    ensures
        r@ == text_hash(s@),
        r@.len() == 32,
{
    keccak256(s.as_bytes())
}

/// Encodes one field value as its 32-byte word.
pub fn encode_value(v: &FieldValue) -> (r: Vec<u8>)
    requires
        v.wf(),
    ensures
        r@ == word_of_value(v@),
        r@.len() == 32,
{
    match v {
        FieldValue::Text(s) => hash_text(s.as_str()),
        FieldValue::Uint256(x) => u64_to_word(*x),
        FieldValue::Account(a) => address_to_word(a),
        FieldValue::Word(w) => {
            let mut r: Vec<u8> = Vec::new();
            append_bytes(&mut r, w.bytes.as_slice());
            proof {
                assert(r@ =~= w@);
            }
            r
        },
        FieldValue::TextArray(items) => {
            let ghost views: Seq<Seq<char>> = items@.map_values(|s: String| s@);
            let mut acc: Vec<u8> = Vec::new();
            proof {
                assert(views.subrange(0, 0) =~= Seq::<Seq<char>>::empty());
            }
            let mut i: usize = 0;
            while i < items.len()
                invariant
                    i <= items@.len(),
                    views == items@.map_values(|s: String| s@),
                    views.len() == items@.len(),
                    acc@ == text_hashes_concat(views.subrange(0, i as int)),
                decreases items@.len() - i,
            {
                let h = hash_text(items[i].as_str());
                append_bytes(&mut acc, h.as_slice());
                proof {
                    let pre = views.subrange(0, i as int);
                    let post = views.subrange(0, i as int + 1);
                    assert(post.drop_last() =~= pre);
                    assert(post.last() == views[i as int]);
                }
                i = i + 1;
            }
            proof {
                assert(views.subrange(0, views.len() as int) =~= views);
            }
            keccak256(acc.as_slice())
        },
    }
}

/// All field values of a record are well formed.
pub open spec fn values_wf(vs: Seq<FieldValue>) -> bool {
    forall|i: int| 0 <= i < vs.len() ==> #[trigger] vs[i].wf()
}

/// The models of a sequence of field values.
pub open spec fn value_views(vs: Seq<FieldValue>) -> Seq<ValueView> {
    vs.map_values(|v: FieldValue| v@)
}

/// The values instantiate the schema: one value per field, each of the
/// declared kind.
pub open spec fn values_match(s: SchemaView, vs: Seq<FieldValue>) -> bool {
    vs.len() == s.fields.len() && forall|i: int|
        0 <= i < vs.len() ==> (#[trigger] vs[i]).kind() == s.fields[i].kind
}

/// Computes the record hash of the given values under the schema.
pub fn record_hash(s: &Schema, vs: &Vec<FieldValue>) -> (r: Bytes32)
    requires
        values_wf(vs@),
        values_match(s@, vs@),
    ensures
        r.wf(),
        r@ == record_hash_of(s@, value_views(vs@)),
{
    let th = type_hash(s);
    let mut enc: Vec<u8> = Vec::new();
    append_bytes(&mut enc, th.bytes.as_slice());
    let ghost views: Seq<ValueView> = value_views(vs@);
    proof {
        assert(views.subrange(0, 0) =~= Seq::<ValueView>::empty());
        assert(enc@ =~= type_hash_of(s@) + words_of_values(views.subrange(0, 0)));
    }
    let mut i: usize = 0;
    while i < vs.len()
        invariant
            i <= vs@.len(),
            views == value_views(vs@),
            views.len() == vs@.len(),
            values_wf(vs@),
            enc@ == type_hash_of(s@) + words_of_values(views.subrange(0, i as int)),
        decreases vs@.len() - i,
    {
        let w = encode_value(&vs[i]);
        append_bytes(&mut enc, w.as_slice());
        proof {
            let pre = views.subrange(0, i as int);
            let post = views.subrange(0, i as int + 1);
            assert(post.drop_last() =~= pre);
            assert(post.last() == views[i as int]);
            assert(enc@ =~= type_hash_of(s@) + words_of_values(post));
        }
        i = i + 1;
    }
    proof {
        assert(views.subrange(0, views.len() as int) =~= views);
    }
    let h = keccak256(enc.as_slice());
    Bytes32::new(h)
}

/// Builds the fixed domain schema as a value.
pub fn domain_schema() -> (r: Schema)
    ensures
        r@ == domain_schema_view(),
{
    let mut fields: Vec<crate::schema::Field> = Vec::new();
    fields.push(crate::schema::Field { name: String::from_str("name"), kind: FieldKind::Text });
    fields.push(crate::schema::Field {
        name: String::from_str("version"),
        kind: FieldKind::Text,
    });
    fields.push(crate::schema::Field {
        name: String::from_str("chainId"),
        kind: FieldKind::Uint256,
    });
    fields.push(crate::schema::Field {
        name: String::from_str("verifyingContract"),
        kind: FieldKind::Account,
    });
    let r = Schema { record_name: String::from_str("EIP712Domain"), fields };
    proof {
        assert(r@.fields =~= domain_schema_view().fields);
        assert(r@ == domain_schema_view());
    }
    r
}

/// Computes the domain separator of a domain.
pub fn domain_separator(d: &Domain) -> (r: Bytes32)
    requires
        d.wf(),
    ensures
        r.wf(),
        r@ == domain_separator_of(d@),
{
    let schema = domain_schema();
    let mut vs: Vec<FieldValue> = Vec::new();
    vs.push(FieldValue::Text(d.name.clone()));
    vs.push(FieldValue::Text(d.version.clone()));
    vs.push(FieldValue::Uint256(d.chain_id));
    vs.push(FieldValue::Account(Address { bytes: clone_bytes(&d.verifying_contract.bytes) }));
    proof {
        assert(value_views(vs@) =~= domain_values(d@));
        assert(values_match(schema@, vs@));
    }
    let r = record_hash(&schema, &vs);
    r
}

/// Computes the signing digest of a record under a domain: the hash of
/// `0x19 || 0x01 || domain_separator || record_hash`.  The two literal
/// prefix bytes are fixed protocol markers.
pub fn signing_digest(d: &Domain, s: &Schema, vs: &Vec<FieldValue>) -> (r: Bytes32)
    requires
        d.wf(),
        values_wf(vs@),
        values_match(s@, vs@),
    ensures
        r.wf(),
        r@ == digest_of(d@, s@, value_views(vs@)),
{
    let sep = domain_separator(d);
    let rec = record_hash(s, vs);
    let mut bytes: Vec<u8> = Vec::new();
    bytes.push(0x19u8);
    bytes.push(0x01u8);
    append_bytes(&mut bytes, sep.bytes.as_slice());
    append_bytes(&mut bytes, rec.bytes.as_slice());
    proof {
        assert(bytes@ =~= seq![0x19u8, 0x01u8] + domain_separator_of(d@) + record_hash_of(
            s@,
            value_views(vs@),
        ));
    }
    let h = keccak256(bytes.as_slice());
    Bytes32::new(h)
}

} // verus!
