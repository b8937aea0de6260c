use vstd::prelude::*;

use crate::bytes::append_bytes;
use crate::keccak::{keccak256, keccak_of};
use crate::bytes::Bytes32;
use vstd::utf8::encode_utf8;

verus! {

/// The field types a record schema may declare.
#[derive(PartialEq, Eq, Structural, Clone, Copy, Debug)]
pub enum FieldKind {
    /// A UTF-8 string; hashed before inclusion in a record hash.
    Text,
    /// A fixed-size unsigned integer, one big-endian 32-byte word.
    Uint256,
    /// A 20-byte address, right-aligned in its 32-byte slot.
    Account,
    /// A fixed 32-byte value, copied verbatim.
    Word,
    /// A sequence of UTF-8 strings; each element hashed, the hashes
    /// concatenated, and the concatenation hashed.
    TextArray,
}

/// One declared field: its name and its type.
pub struct Field {
    pub name: String,
    pub kind: FieldKind,
}

/// A named record schema: the type name and its ordered fields.  Field order
/// is part of the schema identity and must not be reordered between calls.
pub struct Schema {
    pub record_name: String,
    pub fields: Vec<Field>,
}

/// The mathematical model of a field: its name's characters and its kind.
pub struct FieldView {
    pub name: Seq<char>,
    pub kind: FieldKind,
}

/// The mathematical model of a schema.
pub struct SchemaView {
    pub name: Seq<char>,
    pub fields: Seq<FieldView>,
}

impl View for Field {
    type V = FieldView;

    open spec fn view(&self) -> FieldView {
        FieldView { name: self.name@, kind: self.kind }
    }
}

impl View for Schema {
    type V = SchemaView;

    open spec fn view(&self) -> SchemaView {
        SchemaView {
            name: self.record_name@,
            fields: self.fields@.map_values(|f: Field| f@),
        }
    }
}

/// The canonical type token of a field kind.
pub open spec fn kind_token(k: FieldKind) -> Seq<char> {
    match k {
        FieldKind::Text => "string"@,
        FieldKind::Uint256 => "uint256"@,
        FieldKind::Account => "address"@,
        FieldKind::Word => "bytes32"@,
        FieldKind::TextArray => "string[]"@,
    }
}

/// The canonical `type name` pair of one field.
pub open spec fn field_chars(f: FieldView) -> Seq<char> {
    kind_token(f.kind) + " "@ + f.name
}

/// The comma-joined field list, with no whitespace beyond the single space
/// inside each pair.
pub open spec fn fields_chars(fs: Seq<FieldView>) -> Seq<char>
    decreases fs.len(),
{
    if fs.len() == 0 {
        Seq::empty()
    } else if fs.len() == 1 {
        field_chars(fs[0])
    } else {
        fields_chars(fs.drop_last()) + ","@ + field_chars(fs.last())
    }
}

/// The canonical type signature string of a schema, e.g.
/// `Certificate(string name,...,string[] metadata)`.
pub open spec fn type_string_chars(s: SchemaView) -> Seq<char> {
    s.name + "("@ + fields_chars(s.fields) + ")"@
}

/// The UTF-8 bytes of the canonical type signature string.
pub open spec fn type_string_bytes(s: SchemaView) -> Seq<u8> {
    encode_utf8(type_string_chars(s))
}

/// The type signature hash: the hash of the canonical type string.
pub open spec fn type_hash_of(s: SchemaView) -> Seq<u8> {
    keccak_of(type_string_bytes(s))
}

/// UTF-8 encoding distributes over concatenation of character sequences.
pub proof fn lemma_encode_utf8_concat(a: Seq<char>, b: Seq<char>)
    ensures
        encode_utf8(a + b) == encode_utf8(a) + encode_utf8(b),
    decreases a.len(),
{
    if a.len() == 0 {
        assert(a + b =~= b);
        assert(encode_utf8(a) + encode_utf8(b) =~= encode_utf8(b));
    } else {
        assert((a + b).drop_first() =~= a.drop_first() + b);
        assert((a + b)[0] == a[0]);
        lemma_encode_utf8_concat(a.drop_first(), b);
        assert(encode_utf8(a + b) =~= encode_utf8(a) + encode_utf8(b));
    }
}

/// Appends the UTF-8 bytes of `s` to `dst`.
pub fn append_str_bytes(dst: &mut Vec<u8>, s: &str)
    ensures
        final(dst)@ == old(dst)@ + encode_utf8(s@),
{
    append_bytes(dst, s.as_bytes());
}

/// The canonical type token of a field kind, as a string slice.
pub fn kind_str(k: FieldKind) -> (r: &'static str)
    ensures
        r@ == kind_token(k),
{
    match k {
        FieldKind::Text => "string",
        FieldKind::Uint256 => "uint256",
        FieldKind::Account => "address",
        FieldKind::Word => "bytes32",
        FieldKind::TextArray => "string[]",
    }
}

/// Builds the UTF-8 bytes of the schema's canonical type signature string,
/// deterministically from the type name and the ordered fields.
pub fn type_string(s: &Schema) -> (r: Vec<u8>)
    ensures
        r@ == type_string_bytes(s@),
{
    let mut r: Vec<u8> = Vec::new();
    append_str_bytes(&mut r, s.record_name.as_str());
    append_str_bytes(&mut r, "(");
    proof {
        lemma_encode_utf8_concat(s.record_name@, "("@);
        assert(s@.fields.subrange(0, 0) =~= Seq::<FieldView>::empty());
    }
    let ghost head: Seq<char> = s.record_name@ + "("@;
    let mut i: usize = 0;
    while i < s.fields.len()
        invariant
            i <= s.fields@.len(),
            s@.fields.len() == s.fields@.len(),
            head == s.record_name@ + "("@,
            r@ == encode_utf8(head + fields_chars(s@.fields.subrange(0, i as int))),
        decreases s.fields@.len() - i,
    {
        let ghost pre: Seq<FieldView> = s@.fields.subrange(0, i as int);
        let ghost post: Seq<FieldView> = s@.fields.subrange(0, i as int + 1);
        if i > 0 {
            append_str_bytes(&mut r, ",");
            proof {
                lemma_encode_utf8_concat(head + fields_chars(pre), ","@);
            }
        }
        let f = &s.fields[i];
        append_str_bytes(&mut r, kind_str(f.kind));
        append_str_bytes(&mut r, " ");
        append_str_bytes(&mut r, f.name.as_str());
        proof {
            let fc = field_chars(s@.fields[i as int]);
            assert(s@.fields[i as int] == f@);
            if i == 0 {
                lemma_encode_utf8_concat(head, kind_token(f.kind));
                lemma_encode_utf8_concat(head + kind_token(f.kind), " "@);
                lemma_encode_utf8_concat(head + kind_token(f.kind) + " "@, f.name@);
                assert(post.len() == 1);
                assert(post[0] == s@.fields[0]);
                assert(fields_chars(post) == fc);
                assert(head + kind_token(f.kind) + " "@ + f.name@ =~= head + fields_chars(post));
            } else {
                let base = head + fields_chars(pre) + ","@;
                lemma_encode_utf8_concat(base, kind_token(f.kind));
                lemma_encode_utf8_concat(base + kind_token(f.kind), " "@);
                lemma_encode_utf8_concat(base + kind_token(f.kind) + " "@, f.name@);
                assert(post.drop_last() =~= pre);
                assert(post.last() == s@.fields[i as int]);
                assert(fields_chars(post) == fields_chars(pre) + ","@ + fc);
                assert(base + kind_token(f.kind) + " "@ + f.name@ =~= head + fields_chars(post));
            }
        }
        i = i + 1;
    }
    append_str_bytes(&mut r, ")");
    proof {
        assert(s@.fields.subrange(0, s@.fields.len() as int) =~= s@.fields);
        lemma_encode_utf8_concat(head + fields_chars(s@.fields), ")"@);
        assert(head + fields_chars(s@.fields) + ")"@ =~= type_string_chars(s@));
    }
    r
}

/// Computes the type signature hash of a schema.
pub fn type_hash(s: &Schema) -> (r: Bytes32)
    ensures
        r.wf(),
        r@ == type_hash_of(s@),
{
    let ts = type_string(s);
    let h = keccak256(ts.as_slice());
    Bytes32::new(h)
}

} // verus!
