use vstd::prelude::*;

verus! {

/// A 32-byte word: hash outputs, topics, fixed-width encoded values.
pub struct Bytes32 {
    pub bytes: Vec<u8>,
}

impl View for Bytes32 {
    type V = Seq<u8>;

    open spec fn view(&self) -> Seq<u8> {
        self.bytes@
    }
}

impl Bytes32 {
    /// A well-formed word holds exactly 32 bytes.
    pub open spec fn wf(&self) -> bool {
        self.bytes@.len() == 32
    }

    pub fn new(bytes: Vec<u8>) -> (r: Bytes32)
        requires
            bytes@.len() == 32,
        ensures
            r.wf(),
            r@ == bytes@,
    {
        Bytes32 { bytes }
    }

    pub fn zero() -> (r: Bytes32)
        ensures
            r.wf(),
            r@ == Seq::new(32, |i: int| 0u8),
    {
        let mut bytes: Vec<u8> = Vec::new();
        let mut i: usize = 0;
        while i < 32
            invariant
                i <= 32,
                bytes@ == Seq::new(i as nat, |j: int| 0u8),
            decreases 32 - i,
        {
            bytes.push(0u8);
            proof {
                assert(bytes@ =~= Seq::new((i + 1) as nat, |j: int| 0u8));
            }
            i = i + 1;
        }
        Bytes32 { bytes }
    }
}

/// A 20-byte account address.
pub struct Address {
    pub bytes: Vec<u8>,
}

impl View for Address {
    type V = Seq<u8>;

    open spec fn view(&self) -> Seq<u8> {
        self.bytes@
    }
}

impl Address {
    /// A well-formed address holds exactly 20 bytes.
    pub open spec fn wf(&self) -> bool {
        self.bytes@.len() == 20
    }

    pub fn new(bytes: Vec<u8>) -> (r: Address)
        requires
            bytes@.len() == 20,
        ensures
            r.wf(),
            r@ == bytes@,
    {
        Address { bytes }
    }

    pub fn zero() -> (r: Address)
        ensures
            r.wf(),
            r@ == Seq::new(20, |i: int| 0u8),
    {
        let mut bytes: Vec<u8> = Vec::new();
        let mut i: usize = 0;
        while i < 20
            invariant
                i <= 20,
                bytes@ == Seq::new(i as nat, |j: int| 0u8),
            decreases 20 - i,
        {
            bytes.push(0u8);
            proof {
                assert(bytes@ =~= Seq::new((i + 1) as nat, |j: int| 0u8));
            }
            i = i + 1;
        }
        Address { bytes }
    }
}

/// Appends all of `src` to `dst`, in order.
pub fn append_bytes(dst: &mut Vec<u8>, src: &[u8])
    ensures
        final(dst)@ == old(dst)@ + src@,
{
    let mut i: usize = 0;
    while i < src.len()
        invariant
            i <= src@.len(),
            dst@ == old(dst)@ + src@.subrange(0, i as int),
        decreases src@.len() - i,
    {
        dst.push(src[i]);
        proof {
            assert(src@.subrange(0, (i + 1) as int) =~= src@.subrange(0, i as int).push(
                src@[i as int],
            ));
        }
        i = i + 1;
    }
    proof {
        assert(src@.subrange(0, src@.len() as int) =~= src@);
    }
}

/// True of the characters `0`-`9`, `a`-`f` and `A`-`F`.
pub open spec fn is_hex_digit(c: char) -> bool {
    ('0' <= c && c <= '9') || ('a' <= c && c <= 'f') || ('A' <= c && c <= 'F')
}

/// The numeric value of a hex digit character.
pub open spec fn hex_val(c: char) -> int
    recommends
        is_hex_digit(c),
{
    if '0' <= c && c <= '9' {
        c as u32 - 48
    } else if 'a' <= c && c <= 'f' {
        c as u32 - 87
    } else {
        c as u32 - 55
    }
}

/// Drops a leading `0x`, if present.
pub open spec fn strip_hex_prefix(s: Seq<char>) -> Seq<char> {
    if s.len() >= 2 && s[0] == '0' && s[1] == 'x' {
        s.skip(2)
    } else {
        s
    }
}

/// A well-formed address body: exactly 40 hex digits.
pub open spec fn addr_chars_ok(s: Seq<char>) -> bool {
    s.len() == 40 && forall|i: int| 0 <= i < 40 ==> is_hex_digit(#[trigger] s[i])
}

/// The 20 bytes denoted by 40 hex digits, high digit first.
pub open spec fn addr_of_chars(s: Seq<char>) -> Seq<u8>
    recommends
        addr_chars_ok(s),
{
    Seq::new(20, |i: int| (16 * hex_val(s[2 * i]) + hex_val(s[2 * i + 1])) as u8)
}

/// True of the ASCII bytes of `0`-`9`, `a`-`f` and `A`-`F`.
pub open spec fn is_hex_digit_byte(b: u8) -> bool {
    (48 <= b && b <= 57) || (97 <= b && b <= 102) || (65 <= b && b <= 70)
}

/// The numeric value of an ASCII hex digit byte.
pub open spec fn hex_val_byte(b: u8) -> int
    recommends
        is_hex_digit_byte(b),
{
    if 48 <= b && b <= 57 {
        b - 48
    } else if 97 <= b && b <= 102 {
        b - 87
    } else {
        b - 55
    }
}

/// The numeric value of an ASCII hex digit byte, or `None`.
fn hex_digit_val(b: u8) -> (r: Option<u8>)
    ensures
        match r {
            Option::Some(v) => is_hex_digit_byte(b) && v == hex_val_byte(b) && v <= 15,
            Option::None => !is_hex_digit_byte(b),
        },
{
    if 48 <= b && b <= 57 {
        Some(b - 48)
    } else if 97 <= b && b <= 102 {
        Some(b - 87)
    } else if 65 <= b && b <= 70 {
        Some(b - 55)
    } else {
        None
    }
}

/// An ASCII character is a hex digit exactly when its byte is, and their
/// values agree.
proof fn lemma_hex_digit_char_byte(c: char, b: u8)
    requires
        '\0' <= c <= '\u{7f}',
        c as u8 == b,
    ensures
        is_hex_digit(c) <==> is_hex_digit_byte(b),
        is_hex_digit(c) ==> hex_val(c) == hex_val_byte(b),
{
}

/// Parses a hex address string, with or without a `0x` prefix, into its
/// 20-byte value.  Returns `ValidationError` exactly when the body is not
/// 40 hex digits.
pub fn parse_address(s: &str) -> (r: Result<Address, crate::errors::ValidationError>)
    ensures
        r matches Ok(a) ==> a.wf() && addr_chars_ok(strip_hex_prefix(s@)) && a@ == addr_of_chars(
            strip_hex_prefix(s@),
        ),
        r is Err <==> !addr_chars_ok(strip_hex_prefix(s@)),
{
    let ghost stripped: Seq<char> = strip_hex_prefix(s@);
    if !s.is_ascii() {
        proof {
            if addr_chars_ok(stripped) {
                assert forall|i: int| 0 <= i < s@.len() implies '\0' <= #[trigger] s@[i]
                    <= '\u{7f}' by {
                    if stripped == s@ {
                        assert(s@[i] == stripped[i]);
                        assert(is_hex_digit(stripped[i]));
                    } else {
                        if i >= 2 {
                            assert(s@[i] == stripped[i - 2]);
                            assert(is_hex_digit(stripped[i - 2]));
                        }
                    }
                }
                assert(vstd::utf8::is_ascii_chars(s@));
            }
        }
        return Err(crate::errors::ValidationError::InvalidAddressFormat);
    }
    let n = s.unicode_len();
    let off: usize = if n >= 2 && s.get_char(0) == '0' && s.get_char(1) == 'x' {
        2
    } else {
        0
    };
    proof {
        if off == 2 {
            assert(stripped =~= s@.skip(2));
        } else {
            assert(stripped == s@);
        }
    }
    if n - off != 40 {
        return Err(crate::errors::ValidationError::InvalidAddressFormat);
    }
    proof {
        assert(forall|k: int| 0 <= k < 40 ==> #[trigger] stripped[k] == s@[off + k]);
    }
    let mut bytes: Vec<u8> = Vec::new();
    let mut i: usize = 0;
    while i < 20
        invariant
            i <= 20,
            s.is_ascii(),
            off + 40 == n,
            n == s@.len(),
            off == 0 || off == 2,
            stripped == strip_hex_prefix(s@),
            stripped.len() == 40,
            forall|k: int| 0 <= k < 40 ==> #[trigger] stripped[k] == s@[off + k],
            forall|j: int| 0 <= j < 2 * i ==> is_hex_digit(#[trigger] stripped[j]),
            bytes@.len() == i,
            forall|j: int|
                0 <= j < i ==> #[trigger] bytes@[j] == (16 * hex_val(stripped[2 * j]) + hex_val(
                    stripped[2 * j + 1],
                )) as u8,
        decreases 20 - i,
    {
        let b1 = s.get_ascii(off + 2 * i);
        let b2 = s.get_ascii(off + 2 * i + 1);
        proof {
            assert(stripped[2 * i as int] == s@[off + 2 * i]);
            assert(stripped[2 * i as int + 1] == s@[off + 2 * i + 1]);
            assert('\0' <= stripped[2 * i as int] <= '\u{7f}');
            assert('\0' <= stripped[2 * i as int + 1] <= '\u{7f}');
            lemma_hex_digit_char_byte(stripped[2 * i as int], b1);
            lemma_hex_digit_char_byte(stripped[2 * i as int + 1], b2);
        }
        let v1 = hex_digit_val(b1);
        let v2 = hex_digit_val(b2);
        match (v1, v2) {
            (Some(h1), Some(h2)) => {
                bytes.push(16 * h1 + h2);
            },
            _ => {
                proof {
                    assert(!is_hex_digit(stripped[2 * i as int]) || !is_hex_digit(
                        stripped[2 * i as int + 1],
                    ));
                }
                return Err(crate::errors::ValidationError::InvalidAddressFormat);
            },
        }
        i = i + 1;
    }
    proof {
        assert(addr_chars_ok(stripped));
        assert(bytes@ =~= addr_of_chars(stripped));
    }
    Ok(Address { bytes })
}

/// Duplicates a byte vector, preserving its contents.
pub fn clone_bytes(v: &Vec<u8>) -> (r: Vec<u8>)
    ensures
        r@ == v@,
{
    let mut r: Vec<u8> = Vec::new();
    append_bytes(&mut r, v.as_slice());
    proof {
        assert(r@ =~= v@);
    }
    r
}

/// Byte-for-byte equality of two byte vectors.
pub fn bytes_eq(a: &Vec<u8>, b: &Vec<u8>) -> (r: bool)
    ensures
        r <==> a@ == b@,
{
    if a.len() != b.len() {
        proof {
            assert(a@.len() != b@.len());
        }
        return false;
    }
    let mut i: usize = 0;
    while i < a.len()
        invariant
            i <= a@.len(),
            a@.len() == b@.len(),
            forall|j: int| 0 <= j < i ==> a@[j] == b@[j],
        decreases a@.len() - i,
    {
        if a[i] != b[i] {
            return false;
        }
        i = i + 1;
    }
    proof {
        assert(a@ =~= b@);
    }
    true
}

} // verus!
