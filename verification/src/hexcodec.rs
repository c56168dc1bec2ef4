//! Lower-case hexadecimal encoding of byte strings, as used on the sync
//! wire format for ciphertexts and keys.

use vstd::prelude::*;
use vstd::utf8::*;
use vstd::string::StringSliceAdditionalSpecFns;
use crate::text::{digit_char, push_char};

verus! {

/// Lower-case hex digit for a nibble.
pub open spec fn hex_digit_lower(n: nat) -> char {
    if n < 10 {
        digit_char(n)
    } else {
        ((n - 10 + 97) as u32) as char
    }
}

/// Lower-case hex encoding: two digits per byte, high nibble first.
pub open spec fn hex_lower_chars(b: Seq<u8>) -> Seq<char>
    decreases b.len(),
{
    if b.len() == 0 {
        Seq::empty()
    } else {
        hex_lower_chars(b.drop_last()) + seq![
            hex_digit_lower((b.last() / 16) as nat),
            hex_digit_lower((b.last() % 16) as nat),
        ]
    }
}

/// Value of a hex digit of either case.
pub open spec fn hex_val(c: char) -> Option<nat> {
    let u = c as u32;
    if 48 <= u <= 57 {
        Some((u - 48) as nat)
    } else if 97 <= u <= 102 {
        Some((u - 87) as nat)
    } else if 65 <= u <= 70 {
        Some((u - 55) as nat)
    } else {
        None
    }
}

/// Decoding of a hex string of either case: `None` for an odd number of
/// characters or any character that is not a hex digit.
pub open spec fn hex_decode_chars(s: Seq<char>) -> Option<Seq<u8>>
    decreases s.len(),
{
    if s.len() % 2 != 0 {
        None
    } else if s.len() == 0 {
        Some(Seq::empty())
    } else {
        match (hex_decode_chars(s.subrange(0, s.len() - 2)), hex_val(s[s.len() - 2]), hex_val(
            s[s.len() - 1],
        )) {
            (Some(p), Some(h), Some(l)) => Some(p.push((h * 16 + l) as u8)),
            _ => None,
        }
    }
}

pub proof fn lemma_hex_lower_len(b: Seq<u8>)
    ensures
        hex_lower_chars(b).len() == 2 * b.len(),
    decreases b.len(),
{
    if b.len() > 0 {
        lemma_hex_lower_len(b.drop_last());
    }
}

/// Decoding a lower-case encoding gives the bytes back.
pub proof fn lemma_hex_round_trip(b: Seq<u8>)
    ensures
        hex_decode_chars(hex_lower_chars(b)) == Some(b),
    decreases b.len(),
{
    lemma_hex_lower_len(b);
    if b.len() > 0 {
        let p = b.drop_last();
        lemma_hex_round_trip(p);
        lemma_hex_lower_len(p);
        let s = hex_lower_chars(b);
        assert(s.subrange(0, s.len() - 2) =~= hex_lower_chars(p));
        let x = b.last();
        assert(hex_val(hex_digit_lower((x / 16) as nat)) == Some((x / 16) as nat));
        assert(hex_val(hex_digit_lower((x % 16) as nat)) == Some((x % 16) as nat));
        assert(((x / 16) as nat * 16 + (x % 16) as nat) as u8 == x);
        assert(p.push(x) =~= b);
    }
}

/// Characters of a lower-case encoding are ASCII hex digits.
pub proof fn lemma_hex_lower_digits(b: Seq<u8>, i: int)
    requires
        0 <= i < hex_lower_chars(b).len(),
    ensures
        hex_val(hex_lower_chars(b)[i]) is Some,
        (hex_lower_chars(b)[i] as u32) < 128,
    decreases b.len(),
{
    lemma_hex_lower_len(b);
    if b.len() > 0 {
        let p = b.drop_last();
        lemma_hex_lower_len(p);
        if i < 2 * p.len() {
            lemma_hex_lower_digits(p, i);
        }
    }
}

fn nibble_char(n: u8) -> (c: char)
    requires
        n < 16,
    ensures
        c == hex_digit_lower(n as nat),
{
    if n < 10 {
        (48u8 + n) as char
    } else {
        (87u8 + n) as char
    }
}

/// Lower-case hex encoding of a byte string.
pub fn encode_hex_lower(bytes: &[u8]) -> (s: String)
    ensures
        s@ == hex_lower_chars(bytes@),
{
    let mut s = String::new();
    let mut i: usize = 0;
    while i < bytes.len()
        invariant
            i <= bytes@.len(),
            s@ == hex_lower_chars(bytes@.subrange(0, i as int)),
        decreases bytes@.len() - i,
    {
        let b = bytes[i];
        push_char(&mut s, nibble_char(b / 16));
        push_char(&mut s, nibble_char(b % 16));
        proof {
            let next = bytes@.subrange(0, i + 1);
            assert(next.drop_last() =~= bytes@.subrange(0, i as int));
        }
        i += 1;
    }
    assert(bytes@.subrange(0, bytes@.len() as int) =~= bytes@);
    s
}

/// Why a hex field of a sync message could not be decoded.
#[derive(Debug)]
pub enum HexFieldError {
    /// The text has an odd number of bytes.
    OddLength,
    /// A two-byte group is not a number in base 16.
    InvalidDigit,
}

/// Value of an ASCII hex digit byte of either case.
pub open spec fn hex_byte_val(b: u8) -> Option<nat> {
    hex_val((b as u32) as char)
}

/// Value of a two-byte group of hex digits (either case), high digit first;
/// `None` unless both bytes are hex digits.
pub open spec fn pair_val(h: u8, l: u8) -> Option<u8> {
    match (hex_byte_val(h), hex_byte_val(l)) {
        (Some(a), Some(b)) => Some((a * 16 + b) as u8),
        _ => None,
    }
}

/// Decoding of the wire hex format over the UTF-8 bytes of the text:
/// `None` when some two-byte group is not two hex digits.
pub open spec fn decode_pairs(b: Seq<u8>) -> Option<Seq<u8>>
    decreases b.len(),
{
    if b.len() < 2 {
        Some(Seq::empty())
    } else {
        match (decode_pairs(b.subrange(0, b.len() - 2)), pair_val(b[b.len() - 2], b[b.len() - 1])) {
            (Some(p), Some(v)) => Some(p.push(v)),
            _ => None,
        }
    }
}

fn hex_nibble(b: u8) -> (r: Option<u8>)
    ensures
        match r {
            Some(v) => hex_byte_val(b) == Some(v as nat),
            None => hex_byte_val(b) is None,
        },
{
    if 48 <= b && b <= 57 {
        Some(b - 48)
    } else if 97 <= b && b <= 102 {
        Some(b - 87)
    } else if 65 <= b && b <= 70 {
        Some(b - 55)
    } else {
        None
    }
}

/// A two-byte group of hex digits read as one byte.
pub(crate) fn pair_value(h: u8, l: u8) -> (r: Option<u8>)
    ensures
        r == pair_val(h, l),
{
    match (hex_nibble(h), hex_nibble(l)) {
        (Some(x), Some(y)) => Some(x * 16 + y),
        _ => None,
    }
}

/// Decodes a hex field of a sync message: the text's byte length must be
/// even, and each two-byte group must be two hex digits (either case); any
/// other byte, a non-ASCII one included, is an invalid digit.
pub fn decode_hex_field(s: &str) -> (r: Result<Vec<u8>, HexFieldError>)
    ensures
        match r {
            Ok(v) => s.spec_bytes().len() % 2 == 0 && decode_pairs(s.spec_bytes()) == Some(v@),
            Err(HexFieldError::OddLength) => s.spec_bytes().len() % 2 != 0,
            Err(HexFieldError::InvalidDigit) => s.spec_bytes().len() % 2 == 0 && decode_pairs(
                s.spec_bytes(),
            ) is None,
        },
{
    let b = s.as_bytes();
    if b.len() % 2 != 0 {
        return Err(HexFieldError::OddLength);
    }
    let mut out: Vec<u8> = Vec::new();
    let mut i: usize = 0;
    while i < b.len()
        invariant
            b@ == s.spec_bytes(),
            b@.len() % 2 == 0,
            i % 2 == 0,
            i <= b@.len(),
            decode_pairs(b@.subrange(0, i as int)) == Some(out@),
        decreases b@.len() - i,
    {
        let h = b[i];
        let l = b[i + 1];
        let ghost next = b@.subrange(0, i + 2);
        assert(next.subrange(0, next.len() - 2) =~= b@.subrange(0, i as int));
        match pair_value(h, l) {
            Some(v) => {
                out.push(v);
            },
            None => {
                proof { lemma_decode_pairs_none_prefix(b@, i as int + 2); }
                return Err(HexFieldError::InvalidDigit);
            },
        }
        i += 2;
    }
    assert(b@.subrange(0, b@.len() as int) =~= b@);
    Ok(out)
}

/// A failing even-length prefix makes the whole decoding fail.
proof fn lemma_decode_pairs_none_prefix(b: Seq<u8>, k: int)
    requires
        0 <= k <= b.len(),
        k % 2 == 0,
        b.len() % 2 == 0,
        decode_pairs(b.subrange(0, k)) is None,
    ensures
        decode_pairs(b) is None,
    decreases b.len() - k,
{
    if k < b.len() {
        let next = b.subrange(0, k + 2);
        assert(next.subrange(0, next.len() - 2) =~= b.subrange(0, k));
        lemma_decode_pairs_none_prefix(b, k + 2);
    } else {
        assert(b.subrange(0, k) =~= b);
    }
}

proof fn lemma_digit_ascii(n: nat)
    requires
        n < 16,
    ensures
        '\0' <= hex_digit_lower(n) <= '\u{7f}',
{
    if n < 10 {
        assert(((n + 48) as u32) as char <= '\u{7f}');
    } else {
        assert(((n - 10 + 97) as u32) as char <= '\u{7f}');
    }
}

proof fn lemma_hex_lower_ascii(b: Seq<u8>)
    ensures
        is_ascii_chars(hex_lower_chars(b)),
    decreases b.len(),
{
    if b.len() > 0 {
        let p = b.drop_last();
        lemma_hex_lower_ascii(p);
        let x = b.last();
        lemma_digit_ascii((x / 16) as nat);
        lemma_digit_ascii((x % 16) as nat);
        let tail = seq![hex_digit_lower((x / 16) as nat), hex_digit_lower((x % 16) as nat)];
        assert(is_ascii_chars(tail));
        assert(hex_lower_chars(b) =~= hex_lower_chars(p) + tail);
        is_ascii_chars_concat(hex_lower_chars(b), hex_lower_chars(p), tail);
    }
}

proof fn lemma_digit_byte(c: char)
    requires
        hex_val(c) is Some,
        (c as u32) < 128,
    ensures
        hex_byte_val(c as u8) == hex_val(c),
{
    assert(((c as u8) as u32) as char == c);
}

/// Decoding the wire form of bytes a lower-case encoding produced, from
/// the whole of the bytes.
proof fn lemma_wire_prefix(b: Seq<u8>)
    ensures
        decode_pairs(encode_utf8(hex_lower_chars(b))) == Some(b),
    decreases b.len(),
{
    let c = hex_lower_chars(b);
    lemma_hex_lower_len(b);
    lemma_hex_lower_ascii(b);
    broadcast use is_ascii_chars_encode_utf8;
    let e = encode_utf8(c);
    assert(e.len() == c.len());
    if b.len() > 0 {
        let p = b.drop_last();
        let cp = hex_lower_chars(p);
        lemma_hex_lower_len(p);
        lemma_hex_lower_ascii(p);
        lemma_wire_prefix(p);
        let ep = encode_utf8(cp);
        assert(ep.len() == cp.len());
        assert(c.subrange(0, c.len() - 2) =~= cp);
        assert(e.subrange(0, e.len() - 2) =~= ep) by {
            assert forall|i: int| 0 <= i < ep.len() implies e.subrange(0, e.len() - 2)[i] == ep[i] by {
                assert(c[i] == cp[i]);
                assert(e[i] == c[i] as u8);
                assert(ep[i] == cp[i] as u8);
            }
        }
        let x = b.last();
        lemma_hex_lower_digits(b, c.len() - 2);
        lemma_hex_lower_digits(b, c.len() - 1);
        lemma_digit_byte(c[c.len() - 2]);
        lemma_digit_byte(c[c.len() - 1]);
        assert(e[e.len() - 2] == c[c.len() - 2] as u8);
        assert(e[e.len() - 1] == c[c.len() - 1] as u8);
        assert(c[c.len() - 2] == hex_digit_lower((x / 16) as nat));
        assert(c[c.len() - 1] == hex_digit_lower((x % 16) as nat));
        assert(hex_val(hex_digit_lower((x / 16) as nat)) == Some((x / 16) as nat));
        assert(hex_val(hex_digit_lower((x % 16) as nat)) == Some((x % 16) as nat));
        assert(((x / 16) as nat * 16 + (x % 16) as nat) as u8 == x);
        assert(pair_val(e[e.len() - 2], e[e.len() - 1]) == Some(x));
        assert(p.push(x) =~= b);
    }
}

/// What the sync wire encodes, it decodes: the lower-case hex text of any
/// bytes has an even length, and decoding it gives the bytes back.
pub proof fn law_hex_wire_round_trip(b: Seq<u8>)
    ensures
        encode_utf8(hex_lower_chars(b)).len() % 2 == 0,
        decode_pairs(encode_utf8(hex_lower_chars(b))) == Some(b),
{
    lemma_wire_prefix(b);
    let c = hex_lower_chars(b);
    lemma_hex_lower_len(b);
    lemma_hex_lower_ascii(b);
    broadcast use is_ascii_chars_encode_utf8;
    assert(encode_utf8(c).len() == c.len());
}

} // verus!
