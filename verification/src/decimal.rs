//! Non-negative decimal fractions with nine places after the point.
//!
//! Percentages and rotation angles of a request are decimal numbers. They are
//! held exactly, as a count of billionths, so that reading a number and
//! writing it again changes nothing and scaling a pixel count by a percentage
//! rounds in one documented way.

use vstd::prelude::*;
use crate::text::{all_digits, cut, digits, free_of, head, is_digit, is_plain_number,
    lemma_cut_joined, lemma_cut_whole, lemma_digits_free_of, lemma_digits_value, push_digits,
    read_u32, spec_read_u32, tail, NumberError, ZERO};

verus! {

/// The number of billionths in one.
pub const BILLION: u64 = 1_000_000_000;

/// The byte of the decimal point.
pub const POINT: u8 = '.' as u8;

/// The number of places after the point.
pub const PLACES: usize = 9;

/// Ten to the power `k`.
pub open spec fn pow10(k: nat) -> nat
    decreases k,
{
    if k == 0 {
        1
    } else {
        10 * pow10((k - 1) as nat)
    }
}

/// The value of the digits `s` read as the places after a decimal point,
/// in units of ten to the minus `k`.
pub open spec fn places_value(s: Seq<u8>, k: nat) -> nat
    decreases s.len(),
{
    if s.len() == 0 || k == 0 {
        0
    } else {
        (s[0] - 48) as nat * pow10((k - 1) as nat) + places_value(s.skip(1), (k - 1) as nat)
    }
}

/// The places after the point of `f` units of ten to the minus `k`, without
/// trailing zeros.
pub open spec fn places(f: nat, k: nat) -> Seq<u8>
    decreases k,
{
    if f == 0 || k == 0 {
        Seq::<u8>::empty()
    } else {
        seq![(48 + f / pow10((k - 1) as nat)) as u8] + places(
            f % pow10((k - 1) as nat),
            (k - 1) as nat,
        )
    }
}

/// A non-negative decimal number, held as a count of billionths.
#[derive(Clone, Copy, Debug, PartialEq, Eq, Structural, Hash)]
pub struct Decimal {
    billionths: u64,
}

/// What a number reads as: the digits before the point, and the places after it
/// if any of them is not zero.
pub open spec fn decimal_text(d: Decimal) -> Seq<u8> {
    let f = d.units() % (BILLION as nat);
    if f == 0 {
        digits(d.units() / (BILLION as nat))
    } else {
        digits(d.units() / (BILLION as nat)) + seq![POINT] + places(f, PLACES as nat)
    }
}

/// The number that a text denotes: digits, then optionally a point and one to
/// nine more digits. The part before the point must fit in 32 bits.
pub open spec fn decimal_read(s: Seq<u8>) -> Result<Decimal, NumberError> {
    match spec_read_u32(head(s, POINT)) {
        Err(e) => Err(e),
        Ok(whole) => match tail(s, POINT) {
            None => Ok(Decimal::of(whole as nat * BILLION as nat)),
            Some(f) => if f.len() == 0 || f.len() > PLACES || !all_digits(f) {
                Err(NumberError::Malformed)
            } else {
                Ok(Decimal::of(whole as nat * BILLION as nat + places_value(f, PLACES as nat)))
            },
        },
    }
}

/// `pow10` on the exponents that occur.
pub proof fn lemma_pow10()
    ensures
        pow10(0) == 1,
        pow10(1) == 10,
        pow10(2) == 100,
        pow10(3) == 1_000,
        pow10(4) == 10_000,
        pow10(5) == 100_000,
        pow10(6) == 1_000_000,
        pow10(7) == 10_000_000,
        pow10(8) == 100_000_000,
        pow10(9) == 1_000_000_000,
{
    reveal_with_fuel(pow10, 11);
}

/// Places are digits, at most `k` of them and at least one for a non-zero
/// value, and read back as the value they were made from.
pub proof fn lemma_places(f: nat, k: nat)
    requires
        f < pow10(k),
    ensures
        all_digits(places(f, k)),
        places(f, k).len() <= k,
        f > 0 ==> places(f, k).len() >= 1,
        places_value(places(f, k), k) == f,
    decreases k,
{
    if f == 0 || k == 0 {
    } else {
        let p = pow10((k - 1) as nat);
        assert(p > 0) by {
            lemma_pow10_positive((k - 1) as nat);
        }
        let d = f / p;
        let r = f % p;
        assert(d < 10 && r < p && f == d * p + r) by (nonlinear_arith)
            requires
                p > 0,
                f < 10 * p,
                d == f / p,
                r == f % p,
        ;
        lemma_places(r, (k - 1) as nat);
        let rest = places(r, (k - 1) as nat);
        let s = places(f, k);
        assert(s == seq![(48 + d) as u8] + rest);
        assert(s.skip(1) =~= rest);
        assert(s[0] == (48 + d) as u8);
        assert forall|i: int| 0 <= i < s.len() implies is_digit(#[trigger] s[i]) by {
            if i > 0 {
                assert(s[i] == rest[i - 1]);
            }
        }
    }
}

/// Every power of ten is positive.
pub proof fn lemma_pow10_positive(k: nat)
    ensures
        pow10(k) > 0,
    decreases k,
{
    if k > 0 {
        lemma_pow10_positive((k - 1) as nat);
    }
}

/// The value of at most `k` digits after the point is below ten to the `k`.
pub proof fn lemma_places_value_bound(s: Seq<u8>, k: nat)
    requires
        all_digits(s),
        s.len() <= k,
    ensures
        places_value(s, k) < pow10(k),
    decreases s.len(),
{
    lemma_pow10_positive(k);
    if s.len() == 0 || k == 0 {
    } else {
        let t = s.skip(1);
        assert forall|i: int| 0 <= i < t.len() implies is_digit(#[trigger] t[i]) by {
            assert(t[i] == s[i + 1]);
        }
        lemma_places_value_bound(t, (k - 1) as nat);
        let p = pow10((k - 1) as nat);
        let d = (s[0] - 48) as nat;
        assert(is_digit(s[0]));
        assert(d * p + places_value(t, (k - 1) as nat) < 10 * p) by (nonlinear_arith)
            requires
                d <= 9,
                places_value(t, (k - 1) as nat) < p,
        ;
    }
}

/// Ten to the power `k`, for the exponents that fit.
fn power_of_ten(k: usize) -> (p: u64)
    requires
        k <= 9,
    ensures
        p == pow10(k as nat),
{
    let mut p: u64 = 1;
    let mut i: usize = 0;
    while i < k
        invariant
            i <= k <= 9,
            p == pow10(i as nat),
            p <= 1_000_000_000,
        decreases k - i,
    {
        proof {
            lemma_pow10();
            reveal_with_fuel(pow10, 2);
            assert(pow10((i + 1) as nat) == 10 * pow10(i as nat));
            if i == 0 {
            } else if i == 1 {
            } else if i == 2 {
            } else if i == 3 {
            } else if i == 4 {
            } else if i == 5 {
            } else if i == 6 {
            } else if i == 7 {
            } else {
            }
        }
        p = p * 10;
        i += 1;
    }
    p
}

impl Decimal {
    /// The number of billionths.
    pub closed spec fn units(self) -> nat {
        self.billionths as nat
    }

    /// The number with the given count of billionths, if that fits the type.
    pub closed spec fn of(units: nat) -> Decimal {
        Decimal { billionths: units as u64 }
    }

    /// True if the part before the point fits in 32 bits: the numbers that the
    /// grammar can write down.
    pub open spec fn wf(self) -> bool {
        self.units() / (BILLION as nat) <= u32::MAX
    }

    /// The whole number `n`.
    pub fn whole(n: u32) -> (d: Decimal)
        ensures
            d.units() == n as nat * BILLION as nat,
            d == Decimal::of(n as nat * BILLION as nat),
            d.wf(),
    {
        assert(n as nat * BILLION as nat <= u32::MAX as nat * 1_000_000_000) by (nonlinear_arith)
            requires
                n <= u32::MAX,
                BILLION == 1_000_000_000,
        ;
        assert((n as nat * 1_000_000_000) / 1_000_000_000 == n as nat) by (nonlinear_arith);
        Decimal { billionths: n as u64 * BILLION }
    }

    /// The number of `units` billionths.
    pub fn from_billionths(units: u64) -> (d: Decimal)
        ensures
            d.units() == units,
            d == Decimal::of(units as nat),
    {
        Decimal { billionths: units }
    }

    /// The count of billionths.
    pub fn billionths(&self) -> (n: u64)
        ensures
            n == self.units(),
    {
        self.billionths
    }

    /// True if the number is zero.
    pub fn is_zero(&self) -> (r: bool)
        ensures
            r == (self.units() == 0),
    {
        self.billionths == 0
    }

    /// Reads a number: digits, then optionally a point and one to nine more digits.
    pub fn read(s: &[u8]) -> (r: Result<Decimal, NumberError>)
        ensures
            r == decimal_read(s@),
            r is Ok ==> r->Ok_0.wf(),
    {
        let (before, after) = cut(s, POINT);
        let whole: u32 = match read_u32(before) {
            Ok(w) => w,
            Err(e) => {
                return Err(e);
            },
        };
        assert(whole as nat * BILLION as nat <= u32::MAX as nat * 1_000_000_000) by (nonlinear_arith)
            requires
                whole <= u32::MAX,
                BILLION == 1_000_000_000,
        ;
        let base: u64 = whole as u64 * BILLION;
        match after {
            None => {
                assert((whole as nat * 1_000_000_000) / 1_000_000_000 == whole as nat)
                    by (nonlinear_arith);
                Ok(Decimal { billionths: base })
            },
            Some(f) => {
                if f.len() == 0 || f.len() > PLACES {
                    return Err(NumberError::Malformed);
                }
                let mut i: usize = 0;
                let mut acc: u64 = 0;
                proof {
                    lemma_pow10();
                    assert(f@.skip(0) =~= f@);
                }
                while i < f.len()
                    invariant
                        i <= f@.len() <= 9,
                        f@.len() > 0,
                        spec_read_u32(head(s@, POINT)) == Ok::<u32, NumberError>(whole),
                        tail(s@, POINT) == Some(f@),
                        all_digits(f@.subrange(0, i as int)),
                        all_digits(f@.skip(i as int)) ==> places_value(f@, 9) == acc + places_value(
                            f@.skip(i as int),
                            (9 - i) as nat,
                        ),
                        acc + pow10((9 - i) as nat) <= 1_000_000_000,
                    decreases f@.len() - i,
                {
                    let b: u8 = f[i];
                    if b < ZERO || b > 57 {
                        proof {
                            assert(!is_digit(f@[i as int]));
                        }
                        return Err(NumberError::Malformed);
                    }
                    let p: u64 = power_of_ten(8 - i);
                    proof {
                        lemma_pow10();
                        let rest = f@.skip(i as int);
                        assert(rest[0] == b);
                        assert(rest.skip(1) =~= f@.skip(i + 1));
                        assert(pow10((9 - i) as nat) == 10 * pow10((8 - i) as nat));
                        assert((b - 48) as nat * p <= 9 * p) by (nonlinear_arith)
                            requires
                                b - 48 <= 9,
                                b >= 48,
                        ;
                        assert forall|j: int| 0 <= j < i + 1 implies is_digit(
                            #[trigger] f@.subrange(0, i + 1)[j],
                        ) by {
                            if j < i {
                                assert(f@.subrange(0, i as int)[j] == f@[j]);
                            }
                        }
                        if all_digits(f@.skip(i + 1)) {
                            assert forall|j: int| 0 <= j < rest.len() implies is_digit(
                                #[trigger] rest[j],
                            ) by {
                                if j > 0 {
                                    assert(f@.skip(i + 1)[j - 1] == rest[j]);
                                }
                            }
                        }
                    }
                    acc = acc + (b - ZERO) as u64 * p;
                    i += 1;
                }
                proof {
                    assert(f@.subrange(0, i as int) =~= f@);
                    assert(f@.skip(i as int) =~= Seq::<u8>::empty());
                    assert((whole as nat * 1_000_000_000 + acc as nat) / 1_000_000_000
                        == whole as nat) by (nonlinear_arith)
                        requires
                            acc < 1_000_000_000,
                    ;
                }
                Ok(Decimal { billionths: base + acc })
            },
        }
    }

    /// Appends the text of the number to `out`.
    pub fn write(&self, out: &mut Vec<u8>)
        ensures
            final(out)@ == old(out)@ + decimal_text(*self),
    {
        let whole: u64 = self.billionths / BILLION;
        let frac: u64 = self.billionths % BILLION;
        push_digits(out, whole);
        if frac != 0 {
            out.push(POINT);
            let mut f: u64 = frac;
            let mut k: usize = PLACES;
            proof {
                lemma_pow10();
            }
            while f != 0 && k > 0
                invariant
                    k <= 9,
                    f < pow10(k as nat),
                    out@ + places(f as nat, k as nat) == old(out)@ + digits(whole as nat) + seq![
                        POINT,
                    ] + places(frac as nat, 9),
                decreases k,
            {
                let p: u64 = power_of_ten(k - 1);
                proof {
                    lemma_pow10_positive((k - 1) as nat);
                    assert(f / p < 10 && f % p < p) by (nonlinear_arith)
                        requires
                            p > 0,
                            f < 10 * p,
                    ;
                }
                let ghost before = out@;
                out.push(ZERO + (f / p) as u8);
                proof {
                    assert(places(f as nat, k as nat) == seq![(48 + f as nat / pow10((k - 1) as nat)) as u8]
                        + places(f as nat % pow10((k - 1) as nat), (k - 1) as nat));
                    assert(out@ + places((f % p) as nat, (k - 1) as nat) =~= before + places(
                        f as nat,
                        k as nat,
                    ));
                }
                f = f % p;
                k -= 1;
            }
            proof {
                assert(places(f as nat, k as nat) =~= Seq::<u8>::empty());
                assert(out@ + Seq::<u8>::empty() =~= out@);
            }
        }
    }
}

/// Reading the text of a number gives the number back.
pub proof fn lemma_decimal_round_trip(d: Decimal)
    requires
        d.wf(),
    ensures
        decimal_read(decimal_text(d)) == Ok::<Decimal, NumberError>(d),
{
    let whole = d.units() / (BILLION as nat);
    let f = d.units() % (BILLION as nat);
    let w = digits(whole);
    lemma_digits_value(whole);
    lemma_pow10();
    assert(free_of(w, POINT)) by {
        lemma_digits_free_of(whole, POINT);
    }
    assert(d.units() == whole * 1_000_000_000 + f) by (nonlinear_arith)
        requires
            whole == d.units() / 1_000_000_000,
            f == d.units() % 1_000_000_000,
    ;
    if f == 0 {
        lemma_cut_whole(w, POINT);
    } else {
        let p = places(f, 9);
        lemma_places(f, 9);
        lemma_cut_joined(w, POINT, p);
    }
}

/// The text of a number is free of the byte `b`, if `b` is neither a digit nor
/// the point.
pub proof fn lemma_decimal_free_of(d: Decimal, b: u8)
    requires
        !is_digit(b),
        b != POINT,
    ensures
        free_of(decimal_text(d), b),
{
    let whole = d.units() / (BILLION as nat);
    let f = d.units() % (BILLION as nat);
    lemma_digits_value(whole);
    lemma_pow10();
    let w = digits(whole);
    if f != 0 {
        lemma_places(f, 9);
    }
    let t = decimal_text(d);
    assert forall|i: int| 0 <= i < t.len() implies #[trigger] t[i] != b by {
        if i < w.len() {
            assert(is_digit(w[i]));
        } else if i > w.len() {
            assert(is_digit(places(f, 9)[i - w.len() - 1]));
        }
    }
}

/// Every number that is read can be written down again: the part before its
/// point fits in 32 bits.
pub proof fn lemma_decimal_read_wf(s: Seq<u8>)
    ensures
        decimal_read(s) matches Ok(d) ==> d.wf(),
{
    if let Ok(whole) = spec_read_u32(head(s, POINT)) {
        assert(whole as nat * 1_000_000_000 <= 0xffff_ffff * 1_000_000_000) by (nonlinear_arith)
            requires
                whole <= 0xffff_ffff,
        ;
        match tail(s, POINT) {
            None => {
                assert((whole as nat * 1_000_000_000) / 1_000_000_000 == whole as nat)
                    by (nonlinear_arith);
            },
            Some(f) => {
                if !(f.len() == 0 || f.len() > PLACES || !all_digits(f)) {
                    lemma_places_value_bound(f, 9);
                    lemma_pow10();
                    let frac = places_value(f, 9);
                    assert((whole as nat * 1_000_000_000 + frac) / 1_000_000_000 == whole as nat)
                        by (nonlinear_arith)
                        requires
                            frac < 1_000_000_000,
                    ;
                }
            },
        }
    }
}

/// True if `s` is a decimal number as it is written: a whole part without a
/// zero in front, and either no point or a point and up to nine places of
/// which the last is not zero.
pub open spec fn is_plain_decimal(s: Seq<u8>) -> bool {
    &&& is_plain_number(head(s, POINT))
    &&& match tail(s, POINT) {
        None => true,
        Some(f) => 1 <= f.len() <= PLACES && all_digits(f) && f.last() != 48,
    }
}

/// Places of which the last is not zero denote a value that is not zero and
/// is written with these places.
pub proof fn lemma_places_of_value(f: Seq<u8>, k: nat)
    requires
        1 <= f.len() <= k,
        all_digits(f),
        f.last() != 48,
    ensures
        places_value(f, k) > 0,
        places(places_value(f, k), k) == f,
    decreases f.len(),
{
    let p = pow10((k - 1) as nat);
    lemma_pow10_positive((k - 1) as nat);
    assert(is_digit(f[0]));
    let d = (f[0] - 48) as nat;
    let rest = f.skip(1);
    assert forall|i: int| 0 <= i < rest.len() implies is_digit(#[trigger] rest[i]) by {
        assert(rest[i] == f[i + 1]);
    }
    let rv = places_value(rest, (k - 1) as nat);
    lemma_places_value_bound(rest, (k - 1) as nat);
    let v = places_value(f, k);
    assert(v == d * p + rv);
    assert(v / p == d && v % p == rv) by (nonlinear_arith)
        requires
            v == d * p + rv,
            rv < p,
            p > 0,
    ;
    if f.len() == 1 {
        assert(f.last() == f[0]);
        assert(rv == 0);
        assert(d * p > 0) by (nonlinear_arith)
            requires
                d > 0,
                p > 0,
        ;
        assert(places(v, k) == seq![(48 + d) as u8] + places(rv, (k - 1) as nat));
        assert(places(0, (k - 1) as nat) =~= Seq::<u8>::empty());
        assert(places(v, k) =~= f);
    } else {
        assert(rest.last() == f.last());
        lemma_places_of_value(rest, (k - 1) as nat);
        assert(v > 0) by (nonlinear_arith)
            requires
                v == d * p + rv,
                rv > 0,
                p > 0,
        ;
        assert(places(v, k) == seq![(48 + d) as u8] + places(rv, (k - 1) as nat));
        assert(seq![f[0]] + rest =~= f);
    }
}

/// A decimal number as it is written is the text of what it denotes.
pub proof fn lemma_text_of_decimal(s: Seq<u8>)
    requires
        is_plain_decimal(s),
        decimal_read(s) is Ok,
    ensures
        decimal_text(decimal_read(s)->Ok_0) == s,
{
    let w = head(s, POINT);
    let whole = spec_read_u32(w)->Ok_0 as nat;
    crate::text::lemma_digits_of_value(w);
    lemma_pow10();
    assert(whole * 1_000_000_000 <= 0xffff_ffff * 1_000_000_000) by (nonlinear_arith)
        requires
            whole <= 0xffff_ffff,
    ;
    match tail(s, POINT) {
        None => {
            crate::text::lemma_whole_cut(s, POINT);
            assert((whole * 1_000_000_000) / 1_000_000_000 == whole && (whole * 1_000_000_000)
                % 1_000_000_000 == 0) by (nonlinear_arith);
        },
        Some(f) => {
            crate::text::lemma_joined_cut(s, POINT);
            lemma_places_of_value(f, 9);
            lemma_places_value_bound(f, 9);
            let frac = places_value(f, 9);
            assert((whole * 1_000_000_000 + frac) / 1_000_000_000 == whole && (whole
                * 1_000_000_000 + frac) % 1_000_000_000 == frac) by (nonlinear_arith)
                requires
                    frac < 1_000_000_000,
            ;
        },
    }
}

/// The places of a value that is not zero end in a digit that is not zero.
pub proof fn lemma_places_plain(f: nat, k: nat)
    requires
        0 < f < pow10(k),
    ensures
        places(f, k).len() >= 1,
        places(f, k).last() != 48,
    decreases k,
{
    if k > 0 {
        let p = pow10((k - 1) as nat);
        lemma_pow10_positive((k - 1) as nat);
        let d = f / p;
        let r = f % p;
        assert(d < 10 && r < p && f == d * p + r) by (nonlinear_arith)
            requires
                p > 0,
                f < 10 * p,
                d == f / p,
                r == f % p,
        ;
        let s = places(f, k);
        let rest = places(r, (k - 1) as nat);
        assert(s == seq![(48 + d) as u8] + rest);
        if r == 0 {
            assert(rest =~= Seq::<u8>::empty());
            assert(s =~= seq![(48 + d) as u8]);
            assert(d > 0) by (nonlinear_arith)
                requires
                    f == d * p + r,
                    r == 0,
                    f > 0,
            ;
        } else {
            lemma_places_plain(r, (k - 1) as nat);
            assert(s.last() == rest.last());
        }
    }
}

/// The text of a number is a decimal number as it is written.
pub proof fn lemma_decimal_text_plain(d: Decimal)
    ensures
        is_plain_decimal(decimal_text(d)),
{
    let whole = d.units() / (BILLION as nat);
    let f = d.units() % (BILLION as nat);
    let w = digits(whole);
    crate::text::lemma_digits_plain(whole);
    lemma_digits_free_of(whole, POINT);
    lemma_pow10();
    if f == 0 {
        lemma_cut_whole(w, POINT);
    } else {
        lemma_places(f, 9);
        lemma_places_plain(f, 9);
        lemma_cut_joined(w, POINT, places(f, 9));
    }
}

} // verus!
