//! Percent-encoding of image identifiers.
//!
//! In a request path an identifier is one segment: the bytes of its UTF-8 form,
//! with `%` and two hexadecimal digits in place of every byte that could be
//! taken for part of the path's own structure.

use vstd::prelude::*;
use vstd::utf8::{decode_utf8, valid_utf8};
use crate::text::{free_of, lemma_free_of_concat};

verus! {

/// The byte that begins an escape.
pub const PERCENT: u8 = '%' as u8;

/// True of the ASCII hexadecimal digits, in either case.
pub open spec fn is_hex(b: u8) -> bool {
    ||| 48 <= b <= 57
    ||| 65 <= b <= 70
    ||| 97 <= b <= 102
}

/// The value of a hexadecimal digit.
pub open spec fn hex_value(b: u8) -> int {
    if b <= 57 {
        b - 48
    } else if b <= 70 {
        b - 55
    } else {
        b - 87
    }
}

/// The upper-case hexadecimal digit of a value below 16.
pub open spec fn hex_digit(v: int) -> u8 {
    if v < 10 {
        (48 + v) as u8
    } else {
        (55 + v) as u8
    }
}

/// True of the bytes that an identifier holds only in escaped form: the
/// reserved characters `/ ? # [ ] @ %`, the space and the control characters,
/// and everything outside ASCII.
pub open spec fn is_escaped(b: u8) -> bool {
    ||| b == '/' as u8
    ||| b == '?' as u8
    ||| b == '#' as u8
    ||| b == '[' as u8
    ||| b == ']' as u8
    ||| b == '@' as u8
    ||| b == '%' as u8
    ||| b <= 32
    ||| b >= 127
}

/// The bytes that a percent-encoded text stands for, or `None` where a `%` is
/// not followed by two hexadecimal digits. Every other byte stands for itself.
pub open spec fn unescaped(s: Seq<u8>) -> Option<Seq<u8>>
    decreases s.len(),
{
    if s.len() == 0 {
        Some(Seq::<u8>::empty())
    } else if s[0] == PERCENT {
        if s.len() >= 3 && is_hex(s[1]) && is_hex(s[2]) {
            match unescaped(s.skip(3)) {
                Some(r) => Some(seq![(hex_value(s[1]) * 16 + hex_value(s[2])) as u8] + r),
                None => None,
            }
        } else {
            None
        }
    } else {
        match unescaped(s.skip(1)) {
            Some(r) => Some(seq![s[0]] + r),
            None => None,
        }
    }
}

/// One byte in percent-encoded form.
pub open spec fn escaped_byte(b: u8) -> Seq<u8> {
    if is_escaped(b) {
        seq![PERCENT, hex_digit(b as int / 16), hex_digit(b as int % 16)]
    } else {
        seq![b]
    }
}

/// The percent-encoded form of `bytes`.
pub open spec fn escaped(bytes: Seq<u8>) -> Seq<u8>
    decreases bytes.len(),
{
    if bytes.len() == 0 {
        Seq::<u8>::empty()
    } else {
        escaped_byte(bytes[0]) + escaped(bytes.skip(1))
    }
}

/// Decoding an encoded text gives the bytes back; the encoded text is free of
/// `/` and is empty only for no bytes.
pub proof fn lemma_escaped(bytes: Seq<u8>)
    ensures
        unescaped(escaped(bytes)) == Some(bytes),
        free_of(escaped(bytes), '/' as u8),
        escaped(bytes).len() >= bytes.len(),
    decreases bytes.len(),
{
    if bytes.len() != 0 {
        let b = bytes[0];
        let rest = bytes.skip(1);
        lemma_escaped(rest);
        let e = escaped_byte(b);
        let s = escaped(bytes);
        assert(s == e + escaped(rest));
        lemma_free_of_concat(e, escaped(rest), '/' as u8);
        if is_escaped(b) {
            let hi = hex_digit(b as int / 16);
            let lo = hex_digit(b as int % 16);
            assert(s[0] == PERCENT && s[1] == hi && s[2] == lo);
            assert(s.skip(3) =~= escaped(rest));
            assert(hex_value(hi) == b as int / 16);
            assert(hex_value(lo) == b as int % 16);
            assert(seq![b] + rest =~= bytes);
        } else {
            assert(s[0] == b);
            assert(s.skip(1) =~= escaped(rest));
            assert(seq![b] + rest =~= bytes);
        }
    }
}

/// True of the hexadecimal digits that an encoder writes: the upper-case ones.
pub open spec fn is_upper_hex(b: u8) -> bool {
    48 <= b <= 57 || 65 <= b <= 70
}

/// True if `s` is percent-encoded as an encoder writes it: every `%` leads
/// two upper-case hexadecimal digits and stands for a byte that must be
/// escaped, and every other byte is one that need not be.
pub open spec fn is_plain_escape(s: Seq<u8>) -> bool
    decreases s.len(),
{
    if s.len() == 0 {
        true
    } else if s[0] == PERCENT {
        &&& s.len() >= 3
        &&& is_upper_hex(s[1])
        &&& is_upper_hex(s[2])
        &&& is_escaped((hex_value(s[1]) * 16 + hex_value(s[2])) as u8)
        &&& is_plain_escape(s.skip(3))
    } else {
        !is_escaped(s[0]) && is_plain_escape(s.skip(1))
    }
}

/// The percent-encoded form begins with the form of the first byte.
pub proof fn lemma_escaped_first(b: u8, rest: Seq<u8>)
    ensures
        escaped(seq![b] + rest) == escaped_byte(b) + escaped(rest),
{
    let s = seq![b] + rest;
    assert(s[0] == b);
    assert(s.skip(1) =~= rest);
}

/// A text that is percent-encoded as an encoder writes it is the encoded
/// form of what it stands for.
pub proof fn lemma_escaped_of_unescaped(s: Seq<u8>)
    requires
        is_plain_escape(s),
    ensures
        unescaped(s) is Some,
        escaped(unescaped(s)->0) == s,
    decreases s.len(),
{
    if s.len() == 0 {
    } else if s[0] == PERCENT {
        let rest = s.skip(3);
        lemma_escaped_of_unescaped(rest);
        let r = unescaped(rest)->0;
        let b = (hex_value(s[1]) * 16 + hex_value(s[2])) as u8;
        lemma_escaped_first(b, r);
        assert(b as int / 16 == hex_value(s[1]) && b as int % 16 == hex_value(s[2]));
        assert(hex_digit(hex_value(s[1])) == s[1] && hex_digit(hex_value(s[2])) == s[2]);
        assert(escaped_byte(b) + rest =~= s);
    } else {
        let rest = s.skip(1);
        lemma_escaped_of_unescaped(rest);
        let r = unescaped(rest)->0;
        lemma_escaped_first(s[0], r);
        assert(escaped_byte(s[0]) + rest =~= s);
    }
}

/// The encoded form of any bytes is percent-encoded as an encoder writes it.
pub proof fn lemma_escaped_plain(bytes: Seq<u8>)
    ensures
        is_plain_escape(escaped(bytes)),
    decreases bytes.len(),
{
    if bytes.len() != 0 {
        let b = bytes[0];
        let rest = bytes.skip(1);
        lemma_escaped_plain(rest);
        let s = escaped(bytes);
        assert(s == escaped_byte(b) + escaped(rest));
        if is_escaped(b) {
            let hi = hex_digit(b as int / 16);
            let lo = hex_digit(b as int % 16);
            assert(s[0] == PERCENT && s[1] == hi && s[2] == lo);
            assert(s.skip(3) =~= escaped(rest));
            assert(hex_value(hi) == b as int / 16 && hex_value(lo) == b as int % 16);
        } else {
            assert(s[0] == b);
            assert(s.skip(1) =~= escaped(rest));
        }
    }
}

fn hex(b: u8) -> (r: Option<u8>)
    ensures
        r is Some == is_hex(b),
        r is Some ==> r->0 == hex_value(b),
{
    if b >= 48 && b <= 57 {
        Some(b - 48)
    } else if b >= 65 && b <= 70 {
        Some(b - 55)
    } else if b >= 97 && b <= 102 {
        Some(b - 87)
    } else {
        None
    }
}

fn upper_hex(v: u8) -> (r: u8)
    requires
        v < 16,
    ensures
        r == hex_digit(v as int),
{
    if v < 10 {
        48 + v
    } else {
        55 + v
    }
}

fn needs_escape(b: u8) -> (r: bool)
    ensures
        r == is_escaped(b),
{
    b == '/' as u8 || b == '?' as u8 || b == '#' as u8 || b == '[' as u8 || b == ']' as u8 || b
        == '@' as u8 || b == '%' as u8 || b <= 32 || b >= 127
}

/// Decodes a percent-encoded text.
pub fn unescape(s: &[u8]) -> (r: Option<Vec<u8>>)
    ensures
        r is Some == unescaped(s@) is Some,
        r is Some ==> r->0@ == unescaped(s@)->0,
{
    let mut out: Vec<u8> = Vec::new();
    let mut i: usize = 0;
    assert(s@.skip(0) =~= s@);
    while i < s.len()
        invariant
            i <= s@.len(),
            unescaped(s@) == match unescaped(s@.skip(i as int)) {
                Some(r) => Some(out@ + r),
                None => None,
            },
        decreases s@.len() - i,
    {
        let ghost rest = s@.skip(i as int);
        let ghost before = out@;
        let b: u8 = s[i];
        assert(rest[0] == b);
        if b == PERCENT {
            if s.len() - i < 3 {
                return None;
            }
            assert(rest[1] == s@[i + 1] && rest[2] == s@[i + 2]);
            let hi: u8 = match hex(s[i + 1]) {
                Some(v) => v,
                None => {
                    return None;
                },
            };
            let lo: u8 = match hex(s[i + 2]) {
                Some(v) => v,
                None => {
                    return None;
                },
            };
            out.push(hi * 16 + lo);
            proof {
                assert(rest.skip(3) =~= s@.skip(i + 3));
                if unescaped(rest.skip(3)) is Some {
                    let r = unescaped(rest.skip(3))->0;
                    assert(before + (seq![(hi * 16 + lo) as u8] + r) =~= out@ + r);
                }
            }
            i += 3;
        } else {
            out.push(b);
            proof {
                assert(rest.skip(1) =~= s@.skip(i + 1));
                if unescaped(rest.skip(1)) is Some {
                    let r = unescaped(rest.skip(1))->0;
                    assert(before + (seq![b] + r) =~= out@ + r);
                }
            }
            i += 1;
        }
    }
    assert(s@.skip(i as int) =~= Seq::<u8>::empty());
    assert(out@ + Seq::<u8>::empty() =~= out@);
    Some(out)
}

/// Appends the percent-encoded form of `bytes` to `out`.
pub fn escape(bytes: &[u8], out: &mut Vec<u8>)
    ensures
        final(out)@ == old(out)@ + escaped(bytes@),
{
    let mut i: usize = 0;
    assert(bytes@.skip(0) =~= bytes@);
    while i < bytes.len()
        invariant
            i <= bytes@.len(),
            out@ + escaped(bytes@.skip(i as int)) == old(out)@ + escaped(bytes@),
        decreases bytes@.len() - i,
    {
        let ghost rest = bytes@.skip(i as int);
        let ghost before = out@;
        let b: u8 = bytes[i];
        assert(rest[0] == b);
        assert(rest.skip(1) =~= bytes@.skip(i + 1));
        if needs_escape(b) {
            out.push(PERCENT);
            out.push(upper_hex(b / 16));
            out.push(upper_hex(b % 16));
            assert(out@ =~= before + escaped_byte(b));
        } else {
            out.push(b);
            assert(out@ =~= before + escaped_byte(b));
        }
        assert(out@ + escaped(rest.skip(1)) =~= before + escaped(rest));
        i += 1;
    }
    assert(bytes@.skip(i as int) =~= Seq::<u8>::empty());
    assert(out@ + Seq::<u8>::empty() =~= out@);
}

/// The text that `bytes` are the UTF-8 form of, if they are one.
///
/// This is `String::from_utf8` of the standard library, which accepts exactly
/// the well-formed UTF-8 byte strings and returns the text they encode.
#[verifier::external_body]
pub(crate) fn utf8_text(bytes: Vec<u8>) -> (r: Option<String>)
    ensures
        r is Some == valid_utf8(bytes@),
        r is Some ==> r->0@ == decode_utf8(bytes@),
{
    String::from_utf8(bytes).ok()
}

} // verus!
