//! Decimal numbers as ASCII bytes, and cutting byte strings at a separator.

use vstd::prelude::*;

verus! {

/// Why a string is not a number.
#[derive(Clone, Copy, Debug, PartialEq, Eq, Structural)]
pub enum NumberError {
    /// The string is empty, or holds a byte that the grammar does not allow.
    Malformed,
    /// The digits are a number, but too large a one.
    TooLarge,
}

/// The byte of the ASCII digit `0`.
pub const ZERO: u8 = '0' as u8;

/// True of the ASCII digits `0` to `9`.
pub open spec fn is_digit(b: u8) -> bool {
    48 <= b <= 57
}

/// True if every byte of `s` is an ASCII digit.
pub open spec fn all_digits(s: Seq<u8>) -> bool {
    forall|i: int| 0 <= i < s.len() ==> is_digit(#[trigger] s[i])
}

/// The decimal digits of `n`, most significant first, without leading zeros
/// (a single `0` for zero).
pub open spec fn digits(n: nat) -> Seq<u8>
    decreases n,
{
    if n < 10 {
        seq![(48 + n) as u8]
    } else {
        digits(n / 10).push((48 + n % 10) as u8)
    }
}

/// The number that a string of ASCII digits denotes; leading zeros count for
/// nothing and the empty string denotes zero.
pub open spec fn digits_value(s: Seq<u8>) -> nat
    decreases s.len(),
{
    if s.len() == 0 {
        0
    } else {
        digits_value(s.drop_last()) * 10 + (s.last() - 48) as nat
    }
}

/// Reading the digits of a number gives the number back.
pub proof fn lemma_digits_value(n: nat)
    ensures
        all_digits(digits(n)),
        digits(n).len() >= 1,
        digits_value(digits(n)) == n,
    decreases n,
{
    if n < 10 {
        let s = digits(n);
        assert(s.drop_last() =~= Seq::<u8>::empty());
        assert(digits_value(s.drop_last()) == 0);
    } else {
        lemma_digits_value(n / 10);
        let s = digits(n);
        assert(s.drop_last() =~= digits(n / 10));
    }
}

/// One more digit at the end multiplies the value by ten and adds the digit.
pub proof fn lemma_digits_value_push(s: Seq<u8>, b: u8)
    ensures
        digits_value(s.push(b)) == digits_value(s) * 10 + (b - 48) as nat,
{
    assert(s.push(b).drop_last() =~= s);
}

/// True if no byte of `s` is `b`.
pub open spec fn free_of(s: Seq<u8>, b: u8) -> bool {
    forall|i: int| 0 <= i < s.len() ==> #[trigger] s[i] != b
}

/// The position of the first `sep` in `s`, or the length of `s` if there is none.
pub open spec fn first_index(s: Seq<u8>, sep: u8) -> int
    decreases s.len(),
{
    if s.len() == 0 {
        0
    } else if s[0] == sep {
        0
    } else {
        1 + first_index(s.skip(1), sep)
    }
}

/// What stands before the first `sep` in `s` (all of `s` if there is none).
pub open spec fn head(s: Seq<u8>, sep: u8) -> Seq<u8> {
    s.subrange(0, first_index(s, sep))
}

/// What stands after the first `sep` in `s`, if there is one.
pub open spec fn tail(s: Seq<u8>, sep: u8) -> Option<Seq<u8>> {
    if first_index(s, sep) < s.len() {
        Some(s.subrange(first_index(s, sep) + 1, s.len() as int))
    } else {
        None
    }
}

/// `first_index` is the least position that holds `sep`.
pub proof fn lemma_first_index(s: Seq<u8>, sep: u8)
    ensures
        0 <= first_index(s, sep) <= s.len(),
        first_index(s, sep) < s.len() ==> s[first_index(s, sep)] == sep,
        forall|i: int| 0 <= i < first_index(s, sep) ==> #[trigger] s[i] != sep,
    decreases s.len(),
{
    if s.len() != 0 && s[0] != sep {
        let t = s.skip(1);
        lemma_first_index(t, sep);
        assert forall|i: int| 0 <= i < first_index(s, sep) implies #[trigger] s[i] != sep by {
            if i > 0 {
                assert(t[i - 1] == s[i]);
            }
        }
    }
}

/// A position that holds `sep` and has none before it is the first index.
pub proof fn lemma_first_index_is(s: Seq<u8>, sep: u8, k: int)
    requires
        0 <= k <= s.len(),
        k < s.len() ==> s[k] == sep,
        forall|i: int| 0 <= i < k ==> #[trigger] s[i] != sep,
    ensures
        first_index(s, sep) == k,
    decreases s.len(),
{
    if s.len() != 0 && k > 0 {
        let t = s.skip(1);
        assert(s[0] != sep);
        assert forall|i: int| 0 <= i < k - 1 implies #[trigger] t[i] != sep by {
            assert(t[i] == s[i + 1]);
        }
        lemma_first_index_is(t, sep, k - 1);
    }
}

/// Cutting `a + [sep] + b` at `sep` gives `a` and `b` back, if `a` is free of `sep`.
pub proof fn lemma_cut_joined(a: Seq<u8>, sep: u8, b: Seq<u8>)
    requires
        free_of(a, sep),
    ensures
        head(a + seq![sep] + b, sep) == a,
        tail(a + seq![sep] + b, sep) == Some(b),
{
    let s = a + seq![sep] + b;
    assert(s[a.len() as int] == sep);
    assert forall|i: int| 0 <= i < a.len() implies #[trigger] s[i] != sep by {
        assert(s[i] == a[i]);
    }
    lemma_first_index_is(s, sep, a.len() as int);
    assert(s.subrange(0, a.len() as int) =~= a);
    assert(s.subrange(a.len() as int + 1, s.len() as int) =~= b);
}

/// A string free of `sep` is its own head and has no tail.
pub proof fn lemma_cut_whole(a: Seq<u8>, sep: u8)
    requires
        free_of(a, sep),
    ensures
        head(a, sep) == a,
        tail(a, sep) is None,
{
    lemma_first_index_is(a, sep, a.len() as int);
    assert(a.subrange(0, a.len() as int) =~= a);
}

/// Finds the first `sep` in `s`.
pub fn find(s: &[u8], sep: u8) -> (k: usize)
    ensures
        k == first_index(s@, sep),
        k <= s@.len(),
{
    let mut i: usize = 0;
    while i < s.len() && s[i] != sep
        invariant
            i <= s@.len(),
            forall|j: int| 0 <= j < i ==> #[trigger] s@[j] != sep,
        decreases s@.len() - i,
    {
        i += 1;
    }
    proof {
        lemma_first_index_is(s@, sep, i as int);
    }
    i
}

/// Splits `s` at its first `sep`: what stands before it, and what stands after
/// it if there is one.
pub fn cut(s: &[u8], sep: u8) -> (r: (&[u8], Option<&[u8]>))
    ensures
        r.0@ == head(s@, sep),
        r.1 is Some == tail(s@, sep) is Some,
        r.1 is Some ==> r.1->0@ == tail(s@, sep)->0,
{
    let k: usize = find(s, sep);
    let before = vstd::slice::slice_subrange(s, 0, k);
    if k < s.len() {
        let after = vstd::slice::slice_subrange(s, k + 1, s.len());
        (before, Some(after))
    } else {
        (before, None)
    }
}

/// True if the two byte strings are equal.
pub fn same(a: &[u8], b: &[u8]) -> (r: bool)
    ensures
        r == (a@ == b@),
{
    if a.len() != b.len() {
        return false;
    }
    let mut i: usize = 0;
    while i < a.len()
        invariant
            i <= a@.len(),
            a@.len() == b@.len(),
            forall|j: int| 0 <= j < i ==> a@[j] == b@[j],
        decreases a@.len() - i,
    {
        if a[i] != b[i] {
            return false;
        }
        i += 1;
    }
    assert(a@ =~= b@);
    true
}

/// True if `s` begins with `p`.
pub fn starts_with(s: &[u8], p: &[u8]) -> (r: bool)
    ensures
        r == p@.is_prefix_of(s@),
{
    if p.len() > s.len() {
        return false;
    }
    same(vstd::slice::slice_subrange(s, 0, p.len()), p)
}

/// `s` without its first `n` bytes.
pub fn skip(s: &[u8], n: usize) -> (r: &[u8])
    requires
        n <= s@.len(),
    ensures
        r@ == s@.skip(n as int),
{
    vstd::slice::slice_subrange(s, n, s.len())
}

/// Appends the bytes of `word` to `out`.
pub fn push_all(out: &mut Vec<u8>, word: &[u8])
    ensures
        final(out)@ == old(out)@ + word@,
{
    let mut i: usize = 0;
    while i < word.len()
        invariant
            i <= word@.len(),
            out@ == old(out)@ + word@.subrange(0, i as int),
        decreases word@.len() - i,
    {
        out.push(word[i]);
        assert(out@ =~= old(out)@ + word@.subrange(0, i + 1));
        i += 1;
    }
    assert(word@.subrange(0, i as int) =~= word@);
}

/// A concatenation is free of a byte if and only if both parts are.
pub proof fn lemma_free_of_concat(a: Seq<u8>, c: Seq<u8>, b: u8)
    ensures
        free_of(a + c, b) == (free_of(a, b) && free_of(c, b)),
{
    let s = a + c;
    if free_of(a, b) && free_of(c, b) {
        assert forall|i: int| 0 <= i < s.len() implies #[trigger] s[i] != b by {
            if i < a.len() {
                assert(s[i] == a[i]);
            } else {
                assert(s[i] == c[i - a.len()]);
            }
        }
    }
    if free_of(s, b) {
        assert forall|i: int| 0 <= i < a.len() implies #[trigger] a[i] != b by {
            assert(s[i] == a[i]);
        }
        assert forall|i: int| 0 <= i < c.len() implies #[trigger] c[i] != b by {
            assert(s[i + a.len()] == c[i]);
        }
    }
}

/// Digits are free of every byte that is no digit.
pub proof fn lemma_digits_free_of(n: nat, b: u8)
    requires
        !is_digit(b),
    ensures
        free_of(digits(n), b),
{
    lemma_digits_value(n);
    let s = digits(n);
    assert forall|i: int| 0 <= i < s.len() implies #[trigger] s[i] != b by {
        assert(is_digit(s[i]));
    }
}

/// Appends the decimal digits of `n` to `out`.
pub fn push_digits(out: &mut Vec<u8>, n: u64)
    ensures
        final(out)@ == old(out)@ + digits(n as nat),
    decreases n,
{
    if n < 10 {
        out.push(ZERO + n as u8);
        assert(final(out)@ =~= old(out)@ + digits(n as nat));
    } else {
        push_digits(out, n / 10);
        out.push(ZERO + (n % 10) as u8);
        assert(out@ =~= old(out)@ + digits(n as nat));
    }
}

/// Reads a string of ASCII digits as a number of at most 32 bits.
pub fn read_u32(s: &[u8]) -> (r: Result<u32, NumberError>)
    ensures
        r == spec_read_u32(s@),
{
    if s.len() == 0 {
        return Err(NumberError::Malformed);
    }
    let mut i: usize = 0;
    let mut value: u64 = 0;
    let mut fits: bool = true;
    while i < s.len()
        invariant
            i <= s@.len(),
            all_digits(s@.subrange(0, i as int)),
            fits ==> value == digits_value(s@.subrange(0, i as int)) && value <= u32::MAX,
            !fits ==> digits_value(s@.subrange(0, i as int)) > u32::MAX,
        decreases s@.len() - i,
    {
        let b: u8 = s[i];
        if b < ZERO || b > 57 {
            proof {
                assert(!is_digit(s@[i as int]));
            }
            return Err(NumberError::Malformed);
        }
        proof {
            let t = s@.subrange(0, i as int);
            assert(s@.subrange(0, i + 1) =~= t.push(b));
            lemma_digits_value_push(t, b);
            assert forall|j: int| 0 <= j < i + 1 implies is_digit(#[trigger] s@.subrange(0, i + 1)[j]) by {
                if j < i {
                    assert(t[j] == s@[j]);
                }
            }
        }
        if fits {
            value = value * 10 + (b - ZERO) as u64;
            if value > 0xffff_ffff {
                fits = false;
            }
        }
        i += 1;
    }
    assert(s@.subrange(0, i as int) =~= s@);
    if fits {
        Ok(value as u32)
    } else {
        Err(NumberError::TooLarge)
    }
}

/// What `read_u32` returns: the value of a non-empty string of digits, if it
/// fits in 32 bits.
pub open spec fn spec_read_u32(s: Seq<u8>) -> Result<u32, NumberError> {
    if s.len() == 0 || !all_digits(s) {
        Err(NumberError::Malformed)
    } else if digits_value(s) > u32::MAX {
        Err(NumberError::TooLarge)
    } else {
        Ok(digits_value(s) as u32)
    }
}

/// Reading the digits of a 32-bit number gives the number back.
pub proof fn lemma_read_digits(n: u32)
    ensures
        spec_read_u32(digits(n as nat)) == Ok::<u32, NumberError>(n),
{
    lemma_digits_value(n as nat);
}

/// True if `s` is a number as it is written: digits, and no zero in front
/// of another digit.
pub open spec fn is_plain_number(s: Seq<u8>) -> bool {
    &&& s.len() > 0
    &&& all_digits(s)
    &&& (s[0] != 48 || s.len() == 1)
}

/// Digits that do not begin with a zero denote a positive number.
pub proof fn lemma_digits_value_positive(s: Seq<u8>)
    requires
        s.len() > 0,
        all_digits(s),
        s[0] != 48,
    ensures
        digits_value(s) > 0,
    decreases s.len(),
{
    assert(is_digit(s[0]));
    if s.len() > 1 {
        let t = s.drop_last();
        assert(t[0] == s[0]);
        assert forall|i: int| 0 <= i < t.len() implies is_digit(#[trigger] t[i]) by {
            assert(t[i] == s[i]);
        }
        lemma_digits_value_positive(t);
    } else {
        assert(s.drop_last() =~= Seq::<u8>::empty());
        assert(digits_value(s.drop_last()) == 0);
        assert(s.last() == s[0]);
    }
}

/// A number as it is written is the digits of what it denotes.
pub proof fn lemma_digits_of_value(s: Seq<u8>)
    requires
        is_plain_number(s),
    ensures
        digits(digits_value(s)) == s,
    decreases s.len(),
{
    let t = s.drop_last();
    let b = s.last();
    assert(is_digit(s[s.len() - 1]));
    let d = (b - 48) as nat;
    if s.len() == 1 {
        assert(t =~= Seq::<u8>::empty());
        assert(digits_value(t) == 0);
        assert(digits(d) =~= s);
    } else {
        assert(t[0] == s[0]);
        assert forall|i: int| 0 <= i < t.len() implies is_digit(#[trigger] t[i]) by {
            assert(t[i] == s[i]);
        }
        lemma_digits_value_positive(t);
        lemma_digits_of_value(t);
        let v = digits_value(t);
        assert((v * 10 + d) / 10 == v && (v * 10 + d) % 10 == d);
        assert(digits(v * 10 + d) == digits(v).push((48 + d) as u8));
        assert(t.push(b) =~= s);
    }
}

/// The digits of a number are a number as it is written.
pub proof fn lemma_digits_plain(n: nat)
    ensures
        is_plain_number(digits(n)),
    decreases n,
{
    lemma_digits_value(n);
    if n >= 10 {
        lemma_digits_plain(n / 10);
        lemma_digits_value(n / 10);
        let t = digits(n / 10);
        let s = digits(n);
        assert(s[0] == t[0]);
        if t[0] == 48 {
            // the digits of n / 10 are then the single digit 0
            assert(t.len() == 1);
            assert(t.drop_last() =~= Seq::<u8>::empty());
            assert(digits_value(t.drop_last()) == 0);
            assert(digits_value(t) == 0);
        }
    }
}

/// A text with a separator in it is what stands before the first one, the
/// separator, and what stands after it.
pub proof fn lemma_joined_cut(s: Seq<u8>, sep: u8)
    requires
        tail(s, sep) is Some,
    ensures
        s == head(s, sep) + seq![sep] + tail(s, sep)->0,
        free_of(head(s, sep), sep),
{
    lemma_first_index(s, sep);
    let k = first_index(s, sep);
    assert(s =~= head(s, sep) + seq![sep] + tail(s, sep)->0);
    assert forall|i: int| 0 <= i < head(s, sep).len() implies #[trigger] head(s, sep)[i]
        != sep by {
        assert(head(s, sep)[i] == s[i]);
    }
}

/// A text without the separator is its own head.
pub proof fn lemma_whole_cut(s: Seq<u8>, sep: u8)
    requires
        tail(s, sep) is None,
    ensures
        head(s, sep) == s,
{
    lemma_first_index(s, sep);
    assert(s.subrange(0, s.len() as int) =~= s);
}

} // verus!
