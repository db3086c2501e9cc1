//! Canonical paths, told by their text alone.
//!
//! A path is canonical if its identifier is percent-encoded as an encoder
//! writes it and its numbers are written without needless zeros. These are
//! the paths that `canonical_path` gives out, and on them reading a request
//! and writing it again changes nothing.

use vstd::prelude::*;
use vstd::utf8::encode_utf8;
use crate::decimal::{decimal_text, is_plain_decimal, lemma_decimal_text_plain,
    lemma_text_of_decimal};
use crate::iiif::canonical::{format_text, four_joined, identifier_text, joined,
    lemma_four_fields, lemma_identifier_round_trip, lemma_region_round_trip,
    lemma_rotation_round_trip, lemma_size_round_trip, parameters_text, quality_text, region_text,
    request_text, rotation_text, scale_text, size_text};
use crate::iiif::escape::{is_plain_escape, lemma_escaped_of_unescaped, lemma_escaped_plain,
    unescaped};
use crate::iiif::parse::{dimension_read, four_fields, parameters_read, region_read, request_read,
    rotation_read, scale_read, size_read, BANG, CARET, COMMA, DOT, FULL, INFO_JSON, MAX, PCT,
    SLASH, SQUARE};
use crate::iiif::service::{ImageServiceRequestKind, RequestView};
use crate::iiif::{NonZeroDimension, Region, Rotation, Scale, Size};
use crate::text::{digits, free_of, head, is_digit, is_plain_number, lemma_cut_joined,
    lemma_digits_free_of, lemma_digits_of_value, lemma_digits_plain, lemma_joined_cut, tail};

verus! {

/// True if the four fields of `s` are there and each is a number as it is written.
pub open spec fn is_plain_numbers(s: Seq<u8>) -> bool {
    four_fields(s) matches Some((a, b, c, d)) && is_plain_number(a) && is_plain_number(b)
        && is_plain_number(c) && is_plain_number(d)
}

/// True if the four fields of `s` are there and each is a decimal number as
/// it is written.
pub open spec fn is_plain_decimals(s: Seq<u8>) -> bool {
    four_fields(s) matches Some((a, b, c, d)) && is_plain_decimal(a) && is_plain_decimal(b)
        && is_plain_decimal(c) && is_plain_decimal(d)
}

/// True if `s` is a region in canonical form.
pub open spec fn is_canonical_region(s: Seq<u8>) -> bool {
    if s == FULL@ || s == SQUARE@ {
        true
    } else if PCT@.is_prefix_of(s) {
        is_plain_decimals(s.skip(4))
    } else {
        is_plain_numbers(s)
    }
}

/// True if `s` is a width and a height, each a number as it is written or
/// left out, but not both left out.
pub open spec fn is_plain_dimensions(s: Seq<u8>, both: bool) -> bool {
    tail(s, COMMA) matches Some(h) && {
        let w = head(s, COMMA);
        &&& w.len() == 0 || is_plain_number(w)
        &&& h.len() == 0 || is_plain_number(h)
        &&& w.len() > 0 || h.len() > 0
        &&& both ==> w.len() > 0 && h.len() > 0
    }
}

/// True if `s` is a scale in canonical form.
pub open spec fn is_canonical_scale(s: Seq<u8>) -> bool {
    if s == MAX@ {
        true
    } else if PCT@.is_prefix_of(s) {
        is_plain_decimal(s.skip(4))
    } else if s.len() > 0 && s[0] == BANG {
        is_plain_dimensions(s.skip(1), true)
    } else {
        is_plain_dimensions(s, false)
    }
}

/// True if `s` is a size in canonical form.
pub open spec fn is_canonical_size(s: Seq<u8>) -> bool {
    if s.len() > 0 && s[0] == CARET {
        is_canonical_scale(s.skip(1))
    } else {
        is_canonical_scale(s)
    }
}

/// True if `s` is a rotation in canonical form.
pub open spec fn is_canonical_rotation(s: Seq<u8>) -> bool {
    if s.len() > 0 && s[0] == BANG {
        is_plain_decimal(s.skip(1))
    } else {
        is_plain_decimal(s)
    }
}

/// True if the parameters `region/size/rotation/quality.format` are in
/// canonical form. Quality and format are words, which have one form only.
pub open spec fn is_canonical_parameters(s: Seq<u8>) -> bool {
    tail(s, SLASH) matches Some(t1) && tail(t1, SLASH) matches Some(t2) && {
        &&& is_canonical_region(head(s, SLASH))
        &&& is_canonical_size(head(t1, SLASH))
        &&& is_canonical_rotation(head(t2, SLASH))
    }
}

/// True if the path is in canonical form.
pub open spec fn is_canonical(path: Seq<u8>) -> bool {
    &&& path.len() > 0
    &&& is_plain_escape(head(path.skip(1), SLASH))
    &&& tail(path.skip(1), SLASH) matches Some(t) ==> t == INFO_JSON@ || is_canonical_parameters(t)
}

/// Four fields are their text again when joined by commas.
pub proof fn lemma_four_joined(s: Seq<u8>)
    requires
        four_fields(s) is Some,
    ensures
        ({
            let (a, b, c, d) = four_fields(s)->0;
            s == four_joined(a, b, c, d) && free_of(a, COMMA) && free_of(b, COMMA) && free_of(
                c,
                COMMA,
            )
        }),
{
    let t1 = tail(s, COMMA)->0;
    let t2 = tail(t1, COMMA)->0;
    lemma_joined_cut(s, COMMA);
    lemma_joined_cut(t1, COMMA);
    lemma_joined_cut(t2, COMMA);
}

/// A region in canonical form is the text of the region that it is read as.
pub proof fn lemma_text_of_region(s: Seq<u8>)
    requires
        is_canonical_region(s),
        region_read(s) is Ok,
    ensures
        region_text(region_read(s)->Ok_0) == s,
{
    if s == FULL@ || s == SQUARE@ {
    } else if PCT@.is_prefix_of(s) {
        let body = s.skip(4);
        let (a, b, c, d) = four_fields(body)->0;
        lemma_four_joined(body);
        lemma_text_of_decimal(a);
        lemma_text_of_decimal(b);
        lemma_text_of_decimal(c);
        lemma_text_of_decimal(d);
        assert(s =~= PCT@ + body);
    } else {
        let (a, b, c, d) = four_fields(s)->0;
        lemma_four_joined(s);
        lemma_digits_of_value(a);
        lemma_digits_of_value(b);
        lemma_digits_of_value(c);
        lemma_digits_of_value(d);
    }
}

/// A width or height as it is written is the digits of the count it is read as.
pub proof fn lemma_text_of_dimension(s: Seq<u8>)
    requires
        is_plain_number(s),
        dimension_read(s) is Ok,
    ensures
        digits(dimension_read(s)->Ok_0.value() as nat) == s,
{
    broadcast use NonZeroDimension::lemma_of;

    lemma_digits_of_value(s);
}

/// A scale in canonical form is the text of the scale that it is read as.
pub proof fn lemma_text_of_scale(s: Seq<u8>, upscale: bool)
    requires
        is_canonical_scale(s),
        scale_read(s, upscale) is Ok,
    ensures
        scale_text(scale_read(s, upscale)->Ok_0) == s,
{
    if s == MAX@ {
    } else if PCT@.is_prefix_of(s) {
        lemma_text_of_decimal(s.skip(4));
        assert(s =~= PCT@ + s.skip(4));
    } else if s.len() > 0 && s[0] == BANG {
        let body = s.skip(1);
        lemma_joined_cut(body, COMMA);
        lemma_text_of_dimension(head(body, COMMA));
        lemma_text_of_dimension(tail(body, COMMA)->0);
        assert(s =~= seq![BANG] + body);
    } else {
        let w = head(s, COMMA);
        let h = tail(s, COMMA)->0;
        lemma_joined_cut(s, COMMA);
        if h.len() == 0 {
            lemma_text_of_dimension(w);
            assert(h =~= Seq::<u8>::empty());
        } else if w.len() == 0 {
            lemma_text_of_dimension(h);
            assert(w =~= Seq::<u8>::empty());
        } else {
            lemma_text_of_dimension(w);
            lemma_text_of_dimension(h);
        }
    }
}

/// A size in canonical form is the text of the size that it is read as.
pub proof fn lemma_text_of_size(s: Seq<u8>)
    requires
        is_canonical_size(s),
        size_read(s) is Ok,
    ensures
        size_text(size_read(s)->Ok_0) == s,
{
    broadcast use Size::lemma_of;

    if s.len() > 0 && s[0] == CARET {
        lemma_text_of_scale(s.skip(1), true);
        assert(s =~= seq![CARET] + s.skip(1));
    } else {
        lemma_text_of_scale(s, false);
    }
}

/// A rotation in canonical form is the text of the rotation that it is read as.
pub proof fn lemma_text_of_rotation(s: Seq<u8>)
    requires
        is_canonical_rotation(s),
        rotation_read(s) is Ok,
    ensures
        rotation_text(rotation_read(s)->Ok_0) == s,
{
    broadcast use Rotation::lemma_of;

    if s.len() > 0 && s[0] == BANG {
        lemma_text_of_decimal(s.skip(1));
        assert(s =~= seq![BANG] + s.skip(1));
    } else {
        lemma_text_of_decimal(s);
    }
}

/// Parameters in canonical form are the text of the parameters that they
/// are read as.
pub proof fn lemma_text_of_parameters(s: Seq<u8>)
    requires
        is_canonical_parameters(s),
        parameters_read(s) is Ok,
    ensures
        parameters_text(parameters_read(s)->Ok_0) == s,
{
    let t1 = tail(s, SLASH)->0;
    let t2 = tail(t1, SLASH)->0;
    let t3 = tail(t2, SLASH)->0;
    lemma_joined_cut(s, SLASH);
    lemma_joined_cut(t1, SLASH);
    lemma_joined_cut(t2, SLASH);
    lemma_joined_cut(t3, DOT);
    lemma_text_of_region(head(s, SLASH));
    lemma_text_of_size(head(t1, SLASH));
    lemma_text_of_rotation(head(t2, SLASH));
}

/// On a path in canonical form, reading the request and writing its
/// canonical path gives the path back.
pub proof fn lemma_text_of_request(path: Seq<u8>)
    requires
        is_canonical(path),
        request_read(path) is Ok,
    ensures
        request_text(request_read(path)->Ok_0) == path,
{
    let rest = path.skip(1);
    let id = head(rest, SLASH);
    let t = tail(rest, SLASH)->0;
    lemma_joined_cut(rest, SLASH);
    lemma_escaped_of_unescaped(id);
    vstd::utf8::decode_utf8_encode_utf8(unescaped(id)->0);
    if t != INFO_JSON@ {
        lemma_text_of_parameters(t);
    }
    assert(path =~= seq![SLASH] + rest);
}

/// A text that begins with a digit, a comma or `!` is none of the words and
/// does not begin with `pct:`.
proof fn lemma_not_percent(s: Seq<u8>)
    requires
        s.len() > 0,
        is_digit(s[0]) || s[0] == COMMA || s[0] == BANG,
    ensures
        !PCT@.is_prefix_of(s),
        s != FULL@,
        s != SQUARE@,
        s != MAX@,
{
    assert(PCT@.len() == 4 && PCT@[0] == 'p' as u8);
    assert(FULL@[0] == 'f' as u8);
    assert(SQUARE@[0] == 's' as u8);
    assert(MAX@[0] == 'm' as u8);
    if PCT@.is_prefix_of(s) {
        assert(s.subrange(0, PCT@.len() as int)[0] == s[0]);
    }
}

/// A text that begins with `pct:` is none of the words.
proof fn lemma_percent(rest: Seq<u8>)
    ensures
        PCT@.is_prefix_of(PCT@ + rest),
        (PCT@ + rest).skip(4) == rest,
        PCT@ + rest != FULL@,
        PCT@ + rest != SQUARE@,
        PCT@ + rest != MAX@,
{
    let s = PCT@ + rest;
    assert(PCT@.len() == 4 && PCT@[0] == 'p' as u8);
    assert(s[0] == 'p' as u8);
    assert(FULL@[0] == 'f' as u8);
    assert(SQUARE@[0] == 's' as u8);
    assert(MAX@[0] == 'm' as u8);
    assert(s.subrange(0, 4) =~= PCT@);
    assert(s.skip(4) =~= rest);
}

/// The text of a region is in canonical form.
pub proof fn lemma_region_text_canonical(r: Region)
    ensures
        is_canonical_region(region_text(r)),
{
    match r {
        Region::Full => {},
        Region::Square => {},
        Region::Absolute { x, y, width, height } => {
            let a = digits(x as nat);
            let b = digits(y as nat);
            let c = digits(width as nat);
            let d = digits(height as nat);
            lemma_digits_plain(x as nat);
            lemma_digits_plain(y as nat);
            lemma_digits_plain(width as nat);
            lemma_digits_plain(height as nat);
            lemma_digits_free_of(x as nat, COMMA);
            lemma_digits_free_of(y as nat, COMMA);
            lemma_digits_free_of(width as nat, COMMA);
            lemma_four_fields(a, b, c, d);
            let s = four_joined(a, b, c, d);
            assert(s[0] == a[0]);
            lemma_not_percent(s);
        },
        Region::Percentage { x, y, width, height } => {
            let a = decimal_text(x);
            let b = decimal_text(y);
            let c = decimal_text(width);
            let d = decimal_text(height);
            lemma_decimal_text_plain(x);
            lemma_decimal_text_plain(y);
            lemma_decimal_text_plain(width);
            lemma_decimal_text_plain(height);
            crate::decimal::lemma_decimal_free_of(x, COMMA);
            crate::decimal::lemma_decimal_free_of(y, COMMA);
            crate::decimal::lemma_decimal_free_of(width, COMMA);
            lemma_four_fields(a, b, c, d);
            lemma_percent(four_joined(a, b, c, d));
        },
    }
}

/// The text of a scale with positive sides is in canonical form, and does
/// not begin with `^`.
pub proof fn lemma_scale_text_canonical(scale: Scale)
    requires
        scale.wf(),
    ensures
        is_canonical_scale(scale_text(scale)),
        scale_text(scale).len() > 0,
        scale_text(scale)[0] != CARET,
{
    let s = scale_text(scale);
    let empty = Seq::<u8>::empty();
    assert(MAX@.len() == 3 && MAX@[0] == 'm' as u8);
    match scale {
        Scale::Max => {},
        Scale::Percentage(p) => {
            lemma_decimal_text_plain(p);
            lemma_percent(decimal_text(p));
        },
        Scale::FixedWidth(w) => {
            let a = digits(w.value() as nat);
            lemma_digits_plain(w.value() as nat);
            lemma_digits_free_of(w.value() as nat, COMMA);
            lemma_cut_joined(a, COMMA, empty);
            assert(s[0] == a[0]);
            lemma_not_percent(s);
        },
        Scale::FixedHeight(h) => {
            let b = digits(h.value() as nat);
            lemma_digits_plain(h.value() as nat);
            lemma_cut_joined(empty, COMMA, b);
            assert(s[0] == COMMA);
            lemma_not_percent(s);
        },
        Scale::Fixed { width, height } => {
            let a = digits(width.value() as nat);
            let b = digits(height.value() as nat);
            lemma_digits_plain(width.value() as nat);
            lemma_digits_plain(height.value() as nat);
            lemma_digits_free_of(width.value() as nat, COMMA);
            lemma_cut_joined(a, COMMA, b);
            assert(s[0] == a[0]);
            lemma_not_percent(s);
        },
        Scale::AspectPreserving { width, height } => {
            let a = digits(width.value() as nat);
            let b = digits(height.value() as nat);
            lemma_digits_plain(width.value() as nat);
            lemma_digits_plain(height.value() as nat);
            lemma_digits_free_of(width.value() as nat, COMMA);
            lemma_cut_joined(a, COMMA, b);
            assert(s[0] == BANG);
            assert(s.skip(1) =~= joined(a, COMMA, b));
            lemma_not_percent(s);
        },
    }
}

/// The text of a well-formed size is in canonical form.
pub proof fn lemma_size_text_canonical(size: Size)
    requires
        size.wf(),
    ensures
        is_canonical_size(size_text(size)),
{
    let scale = size.spec_scale();
    lemma_scale_text_canonical(scale);
    let s = size_text(size);
    if size.spec_upscale() {
        assert(s[0] == CARET);
        assert(s.skip(1) =~= scale_text(scale));
    }
}

/// The text of a rotation is in canonical form.
pub proof fn lemma_rotation_text_canonical(r: Rotation)
    ensures
        is_canonical_rotation(rotation_text(r)),
{
    let d = r.spec_degrees();
    lemma_decimal_text_plain(d);
    crate::iiif::canonical::lemma_decimal_first(d);
    let s = rotation_text(r);
    if r.spec_mirror() {
        assert(s[0] == BANG);
        assert(s.skip(1) =~= decimal_text(d));
    } else {
        assert(s[0] == decimal_text(d)[0]);
    }
}

/// The canonical path of a well-formed request is in canonical form.
pub proof fn lemma_request_text_canonical(v: RequestView)
    requires
        v.wf(),
    ensures
        is_canonical(request_text(v)),
{
    let id = identifier_text(v.identifier);
    lemma_identifier_round_trip(v.identifier);
    lemma_escaped_plain(encode_utf8(v.identifier));
    let t = match v.kind {
        ImageServiceRequestKind::Info => INFO_JSON@,
        ImageServiceRequestKind::Image(p) => parameters_text(p),
    };
    let path = request_text(v);
    assert(path.skip(1) =~= joined(id, SLASH, t));
    lemma_cut_joined(id, SLASH, t);
    if let ImageServiceRequestKind::Image(p) = v.kind {
        let a = region_text(p.region);
        let b = size_text(p.size);
        let c = rotation_text(p.rotation);
        let t3 = joined(quality_text(p.quality), DOT, format_text(p.format));
        let t2 = joined(c, SLASH, t3);
        let t1 = joined(b, SLASH, t2);
        lemma_region_round_trip(p.region);
        lemma_size_round_trip(p.size);
        lemma_rotation_round_trip(p.rotation);
        lemma_cut_joined(c, SLASH, t3);
        lemma_cut_joined(b, SLASH, t2);
        lemma_cut_joined(a, SLASH, t1);
        lemma_region_text_canonical(p.region);
        lemma_size_text_canonical(p.size);
        lemma_rotation_text_canonical(p.rotation);
    }
}

/// Reading a request from a path and writing its canonical path gives the
/// path back if and only if the path is in canonical form.
pub proof fn lemma_round_trip_on_canonical_paths_only(path: Seq<u8>)
    requires
        request_read(path) is Ok,
    ensures
        request_text(request_read(path)->Ok_0) == path <==> is_canonical(path),
{
    if is_canonical(path) {
        lemma_text_of_request(path);
    }
    if request_text(request_read(path)->Ok_0) == path {
        crate::iiif::parse::lemma_request_read_wf(path);
        lemma_request_text_canonical(request_read(path)->Ok_0);
    }
}

} // verus!
