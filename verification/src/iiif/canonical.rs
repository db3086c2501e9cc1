//! The canonical path of a request, and the proof that reading it gives the
//! request back.

use vstd::prelude::*;
use vstd::utf8::encode_utf8;
use crate::decimal::{decimal_text, lemma_decimal_free_of, lemma_decimal_round_trip, Decimal,
    BILLION};
use crate::iiif::escape::{escape, escaped, lemma_escaped};
use crate::iiif::parse::{dimension_read, dimensions_read, format_read, four_fields,
    identifier_read, parameters_read, percent_read, quality_read, region_read, request_read,
    rotation_read, scale_read, size_read, ParseError, BANG, BITONAL, CARET, COLOR, COMMA, DEFAULT, DOT, FULL, GIF, GRAY, INFO_JSON,
    JP2, JPG, MAX, PCT, PDF, PNG, SLASH, SQUARE, TIF, WEBP};
use crate::iiif::service::{ImageParameters, ImageServiceRequest, ImageServiceRequestKind,
    RequestView};
use crate::iiif::{Format, NonZeroDimension, Quality, Region, Rotation, Scale, Size, HUNDRED};
use crate::text::{digits, free_of, is_digit, lemma_cut_joined, lemma_digits_free_of,
    lemma_digits_value, lemma_free_of_concat, lemma_read_digits, push_all, push_digits};

verus! {

/// `a`, `sep`, then `b`.
pub open spec fn joined(a: Seq<u8>, sep: u8, b: Seq<u8>) -> Seq<u8> {
    a + seq![sep] + b
}

/// The four fields `a,b,c,d`.
pub open spec fn four_joined(a: Seq<u8>, b: Seq<u8>, c: Seq<u8>, d: Seq<u8>) -> Seq<u8> {
    joined(a, COMMA, joined(b, COMMA, joined(c, COMMA, d)))
}

/// The canonical text of a region.
pub open spec fn region_text(r: Region) -> Seq<u8> {
    match r {
        Region::Full => FULL@,
        Region::Square => SQUARE@,
        Region::Absolute { x, y, width, height } => four_joined(
            digits(x as nat),
            digits(y as nat),
            digits(width as nat),
            digits(height as nat),
        ),
        Region::Percentage { x, y, width, height } => PCT@ + four_joined(
            decimal_text(x),
            decimal_text(y),
            decimal_text(width),
            decimal_text(height),
        ),
    }
}

/// The canonical text of a scale.
pub open spec fn scale_text(s: Scale) -> Seq<u8> {
    match s {
        Scale::Max => MAX@,
        Scale::Percentage(p) => PCT@ + decimal_text(p),
        Scale::FixedWidth(w) => joined(digits(w.value() as nat), COMMA, Seq::<u8>::empty()),
        Scale::FixedHeight(h) => joined(Seq::<u8>::empty(), COMMA, digits(h.value() as nat)),
        Scale::Fixed { width, height } => joined(
            digits(width.value() as nat),
            COMMA,
            digits(height.value() as nat),
        ),
        Scale::AspectPreserving { width, height } => seq![BANG] + joined(
            digits(width.value() as nat),
            COMMA,
            digits(height.value() as nat),
        ),
    }
}

/// The canonical text of a size.
pub open spec fn size_text(s: Size) -> Seq<u8> {
    if s.spec_upscale() {
        seq![CARET] + scale_text(s.spec_scale())
    } else {
        scale_text(s.spec_scale())
    }
}

/// The canonical text of a rotation.
pub open spec fn rotation_text(r: Rotation) -> Seq<u8> {
    if r.spec_mirror() {
        seq![BANG] + decimal_text(r.spec_degrees())
    } else {
        decimal_text(r.spec_degrees())
    }
}

/// The word for a quality.
pub open spec fn quality_text(q: Quality) -> Seq<u8> {
    match q {
        Quality::Color => COLOR@,
        Quality::Gray => GRAY@,
        Quality::Bitonal => BITONAL@,
        Quality::Default => DEFAULT@,
    }
}

/// The file extension of a format.
pub open spec fn format_text(f: Format) -> Seq<u8> {
    match f {
        Format::Jpg => JPG@,
        Format::Tif => TIF@,
        Format::Png => PNG@,
        Format::Gif => GIF@,
        Format::Jp2 => JP2@,
        Format::Pdf => PDF@,
        Format::Webp => WEBP@,
    }
}

/// The canonical text of an identifier: its UTF-8 bytes, percent-encoded.
pub open spec fn identifier_text(identifier: Seq<char>) -> Seq<u8> {
    escaped(encode_utf8(identifier))
}

/// The canonical text of the parameters: `region/size/rotation/quality.format`.
pub open spec fn parameters_text(p: ImageParameters) -> Seq<u8> {
    joined(
        region_text(p.region),
        SLASH,
        joined(
            size_text(p.size),
            SLASH,
            joined(
                rotation_text(p.rotation),
                SLASH,
                joined(quality_text(p.quality), DOT, format_text(p.format)),
            ),
        ),
    )
}

/// The canonical path of a request.
pub open spec fn request_text(v: RequestView) -> Seq<u8> {
    seq![SLASH] + joined(
        identifier_text(v.identifier),
        SLASH,
        match v.kind {
            ImageServiceRequestKind::Info => INFO_JSON@,
            ImageServiceRequestKind::Image(p) => parameters_text(p),
        },
    )
}

/// Joined parts are free of a byte that the parts are free of and that is not
/// the separator.
pub proof fn lemma_joined_free_of(a: Seq<u8>, sep: u8, b: Seq<u8>, x: u8)
    requires
        free_of(a, x),
        free_of(b, x),
        sep != x,
    ensures
        free_of(joined(a, sep, b), x),
{
    lemma_free_of_concat(a, seq![sep], x);
    lemma_free_of_concat(a + seq![sep], b, x);
}

/// Four fields joined by commas are read as the four fields.
pub proof fn lemma_four_fields(a: Seq<u8>, b: Seq<u8>, c: Seq<u8>, d: Seq<u8>)
    requires
        free_of(a, COMMA),
        free_of(b, COMMA),
        free_of(c, COMMA),
    ensures
        four_fields(four_joined(a, b, c, d)) == Some((a, b, c, d)),
{
    lemma_cut_joined(c, COMMA, d);
    lemma_cut_joined(b, COMMA, joined(c, COMMA, d));
    lemma_cut_joined(a, COMMA, joined(b, COMMA, joined(c, COMMA, d)));
}

/// The text of a percentage of at most 100 is read as the percentage.
pub proof fn lemma_percent_round_trip(d: Decimal)
    requires
        d.units() <= HUNDRED,
    ensures
        percent_read(decimal_text(d)) == Ok::<Decimal, ParseError>(d),
        decimal_text(d).len() > 0,
        is_digit(decimal_text(d)[0]),
{
    assert(d.units() / (BILLION as nat) <= 100) by (nonlinear_arith)
        requires
            d.units() <= 100_000_000_000,
            BILLION == 1_000_000_000,
    ;
    lemma_decimal_round_trip(d);
    lemma_decimal_first(d);
}

/// The text of a number begins with a digit.
pub proof fn lemma_decimal_first(d: Decimal)
    ensures
        decimal_text(d).len() > 0,
        is_digit(decimal_text(d)[0]),
{
    lemma_digits_value(d.units() / (BILLION as nat));
    let w = digits(d.units() / (BILLION as nat));
    assert(is_digit(w[0]));
}

/// Reading the text of a region gives the region back, and the text is free of `/`.
pub proof fn lemma_region_round_trip(r: Region)
    requires
        r.wf(),
    ensures
        region_read(region_text(r)) == Ok::<Region, ParseError>(r),
        free_of(region_text(r), SLASH),
{
    let s = region_text(r);
    match r {
        Region::Full => {
            assert(FULL@.len() == 4 && FULL@[0] == 'f' as u8 && FULL@[1] == 'u' as u8 && FULL@[2]
                == 'l' as u8 && FULL@[3] == 'l' as u8);
        },
        Region::Square => {
            assert(SQUARE@.len() == 6);
            assert(FULL@.len() == 4);
            assert(SQUARE@[0] == 's' as u8 && SQUARE@[1] == 'q' as u8 && SQUARE@[2] == 'u' as u8
                && SQUARE@[3] == 'a' as u8 && SQUARE@[4] == 'r' as u8 && SQUARE@[5] == 'e' as u8);
        },
        Region::Absolute { x, y, width, height } => {
            let a = digits(x as nat);
            let b = digits(y as nat);
            let c = digits(width as nat);
            let d = digits(height as nat);
            lemma_digits_value(x as nat);
            lemma_digits_free_of(x as nat, COMMA);
            lemma_digits_free_of(y as nat, COMMA);
            lemma_digits_free_of(width as nat, COMMA);
            lemma_digits_free_of(x as nat, SLASH);
            lemma_digits_free_of(y as nat, SLASH);
            lemma_digits_free_of(width as nat, SLASH);
            lemma_digits_free_of(height as nat, SLASH);
            lemma_four_fields(a, b, c, d);
            lemma_read_digits(x);
            lemma_read_digits(y);
            lemma_read_digits(width);
            lemma_read_digits(height);
            assert(s[0] == a[0]);
            assert(is_digit(a[0]));
            assert(FULL@[0] == 'f' as u8);
            assert(SQUARE@[0] == 's' as u8);
            assert(PCT@[0] == 'p' as u8);
            assert(!PCT@.is_prefix_of(s)) by {
                if PCT@.is_prefix_of(s) {
                    assert(s.subrange(0, PCT@.len() as int)[0] == s[0]);
                }
            }
            lemma_joined_free_of(c, COMMA, d, SLASH);
            lemma_joined_free_of(b, COMMA, joined(c, COMMA, d), SLASH);
            lemma_joined_free_of(a, COMMA, joined(b, COMMA, joined(c, COMMA, d)), SLASH);
        },
        Region::Percentage { x, y, width, height } => {
            let a = decimal_text(x);
            let b = decimal_text(y);
            let c = decimal_text(width);
            let d = decimal_text(height);
            let f = four_joined(a, b, c, d);
            lemma_decimal_free_of(x, COMMA);
            lemma_decimal_free_of(y, COMMA);
            lemma_decimal_free_of(width, COMMA);
            lemma_decimal_free_of(x, SLASH);
            lemma_decimal_free_of(y, SLASH);
            lemma_decimal_free_of(width, SLASH);
            lemma_decimal_free_of(height, SLASH);
            lemma_four_fields(a, b, c, d);
            lemma_percent_round_trip(x);
            lemma_percent_round_trip(y);
            lemma_percent_round_trip(width);
            lemma_percent_round_trip(height);
            assert(PCT@.len() == 4 && PCT@[0] == 'p' as u8 && PCT@[1] == 'c' as u8 && PCT@[2]
                == 't' as u8 && PCT@[3] == ':' as u8);
            assert(s[0] == 'p' as u8);
            assert(FULL@[0] == 'f' as u8);
            assert(SQUARE@[0] == 's' as u8);
            assert(s.subrange(0, 4) =~= PCT@);
            assert(s.skip(4) =~= f);
            lemma_joined_free_of(c, COMMA, d, SLASH);
            lemma_joined_free_of(b, COMMA, joined(c, COMMA, d), SLASH);
            lemma_joined_free_of(a, COMMA, joined(b, COMMA, joined(c, COMMA, d)), SLASH);
            lemma_free_of_concat(PCT@, f, SLASH);
        },
    }
}

/// The digits of a positive count are read as the count.
pub proof fn lemma_dimension_round_trip(d: NonZeroDimension)
    requires
        d.wf(),
    ensures
        dimension_read(digits(d.value() as nat)) == Ok::<NonZeroDimension, ParseError>(d),
        digits(d.value() as nat).len() > 0,
        is_digit(digits(d.value() as nat)[0]),
        free_of(digits(d.value() as nat), COMMA),
        free_of(digits(d.value() as nat), SLASH),
{
    lemma_read_digits(d.value());
    lemma_digits_value(d.value() as nat);
    lemma_digits_free_of(d.value() as nat, COMMA);
    lemma_digits_free_of(d.value() as nat, SLASH);
    d.lemma_parts();
}

/// A width and a height joined by a comma are read as the two.
pub proof fn lemma_dimensions_round_trip(w: NonZeroDimension, h: NonZeroDimension)
    requires
        w.wf(),
        h.wf(),
    ensures
        dimensions_read(joined(digits(w.value() as nat), COMMA, digits(h.value() as nat))) == Ok::<
            (NonZeroDimension, NonZeroDimension),
            ParseError,
        >((w, h)),
        free_of(joined(digits(w.value() as nat), COMMA, digits(h.value() as nat)), SLASH),
{
    lemma_dimension_round_trip(w);
    lemma_dimension_round_trip(h);
    lemma_cut_joined(digits(w.value() as nat), COMMA, digits(h.value() as nat));
    lemma_joined_free_of(digits(w.value() as nat), COMMA, digits(h.value() as nat), SLASH);
}

/// Reading the text of a scale gives the scale back; the text is free of `/`
/// and does not begin with `^`.
pub proof fn lemma_scale_round_trip(scale: Scale, upscale: bool)
    requires
        Size::of(scale, upscale).wf(),
    ensures
        scale_read(scale_text(scale), upscale) == Ok::<Scale, ParseError>(scale),
        free_of(scale_text(scale), SLASH),
        scale_text(scale).len() > 0,
        scale_text(scale)[0] != CARET,
{
    broadcast use Size::lemma_of;

    let s = scale_text(scale);
    assert(MAX@.len() == 3 && MAX@[0] == 'm' as u8 && MAX@[1] == 'a' as u8 && MAX@[2]
        == 'x' as u8);
    assert(PCT@.len() == 4 && PCT@[0] == 'p' as u8 && PCT@[1] == 'c' as u8 && PCT@[2] == 't' as u8
        && PCT@[3] == ':' as u8);
    let empty = Seq::<u8>::empty();
    match scale {
        Scale::Max => {},
        Scale::Percentage(p) => {
            lemma_decimal_round_trip(p);
            lemma_decimal_free_of(p, SLASH);
            lemma_free_of_concat(PCT@, decimal_text(p), SLASH);
            assert(s[0] == 'p' as u8);
            assert(s.subrange(0, 4) =~= PCT@);
            assert(s.skip(4) =~= decimal_text(p));
        },
        Scale::FixedWidth(w) => {
            let a = digits(w.value() as nat);
            lemma_dimension_round_trip(w);
            lemma_cut_joined(a, COMMA, empty);
            lemma_joined_free_of(a, COMMA, empty, SLASH);
            assert(s[0] == a[0]);
            assert(!PCT@.is_prefix_of(s)) by {
                if PCT@.is_prefix_of(s) {
                    assert(s.subrange(0, PCT@.len() as int)[0] == s[0]);
                }
            }
        },
        Scale::FixedHeight(h) => {
            let b = digits(h.value() as nat);
            lemma_dimension_round_trip(h);
            lemma_cut_joined(empty, COMMA, b);
            lemma_joined_free_of(empty, COMMA, b, SLASH);
            assert(s[0] == COMMA);
            assert(!PCT@.is_prefix_of(s)) by {
                if PCT@.is_prefix_of(s) {
                    assert(s.subrange(0, PCT@.len() as int)[0] == s[0]);
                }
            }
        },
        Scale::Fixed { width, height } => {
            let a = digits(width.value() as nat);
            let b = digits(height.value() as nat);
            lemma_dimension_round_trip(width);
            lemma_dimension_round_trip(height);
            lemma_dimensions_round_trip(width, height);
            lemma_cut_joined(a, COMMA, b);
            assert(s[0] == a[0]);
            assert(!PCT@.is_prefix_of(s)) by {
                if PCT@.is_prefix_of(s) {
                    assert(s.subrange(0, PCT@.len() as int)[0] == s[0]);
                }
            }
        },
        Scale::AspectPreserving { width, height } => {
            let a = digits(width.value() as nat);
            let b = digits(height.value() as nat);
            lemma_dimensions_round_trip(width, height);
            assert(s[0] == BANG);
            assert(s.skip(1) =~= joined(a, COMMA, b));
            assert(!PCT@.is_prefix_of(s)) by {
                if PCT@.is_prefix_of(s) {
                    assert(s.subrange(0, PCT@.len() as int)[0] == s[0]);
                }
            }
            lemma_free_of_concat(seq![BANG], joined(a, COMMA, b), SLASH);
        },
    }
}

/// Reading the text of a size gives the size back, and the text is free of `/`.
pub proof fn lemma_size_round_trip(size: Size)
    requires
        size.wf(),
    ensures
        size_read(size_text(size)) == Ok::<Size, ParseError>(size),
        free_of(size_text(size), SLASH),
{
    size.lemma_parts();
    let scale = size.spec_scale();
    let upscale = size.spec_upscale();
    lemma_scale_round_trip(scale, upscale);
    let s = size_text(size);
    if upscale {
        assert(s[0] == CARET);
        assert(s.skip(1) =~= scale_text(scale));
        lemma_free_of_concat(seq![CARET], scale_text(scale), SLASH);
    } else {
        assert(s[0] != CARET);
    }
}

/// Reading the text of a rotation gives the rotation back, and the text is
/// free of `/`.
pub proof fn lemma_rotation_round_trip(r: Rotation)
    requires
        r.wf(),
    ensures
        rotation_read(rotation_text(r)) == Ok::<Rotation, ParseError>(r),
        free_of(rotation_text(r), SLASH),
{
    r.lemma_parts();
    let d = r.spec_degrees();
    assert(d.units() / (BILLION as nat) <= 360) by (nonlinear_arith)
        requires
            d.units() < 360_000_000_000,
            BILLION == 1_000_000_000,
    ;
    lemma_decimal_round_trip(d);
    lemma_decimal_first(d);
    lemma_decimal_free_of(d, SLASH);
    let s = rotation_text(r);
    if r.spec_mirror() {
        assert(s[0] == BANG);
        assert(s.skip(1) =~= decimal_text(d));
        lemma_free_of_concat(seq![BANG], decimal_text(d), SLASH);
    } else {
        assert(s[0] == decimal_text(d)[0]);
    }
}

/// What the words of the grammar hold.
pub proof fn lemma_words()
    ensures
        COLOR@ =~= seq!['c' as u8, 'o' as u8, 'l' as u8, 'o' as u8, 'r' as u8],
        GRAY@ =~= seq!['g' as u8, 'r' as u8, 'a' as u8, 'y' as u8],
        BITONAL@ =~= seq![
            'b' as u8,
            'i' as u8,
            't' as u8,
            'o' as u8,
            'n' as u8,
            'a' as u8,
            'l' as u8,
        ],
        DEFAULT@ =~= seq![
            'd' as u8,
            'e' as u8,
            'f' as u8,
            'a' as u8,
            'u' as u8,
            'l' as u8,
            't' as u8,
        ],
        JPG@ =~= seq!['j' as u8, 'p' as u8, 'g' as u8],
        TIF@ =~= seq!['t' as u8, 'i' as u8, 'f' as u8],
        PNG@ =~= seq!['p' as u8, 'n' as u8, 'g' as u8],
        GIF@ =~= seq!['g' as u8, 'i' as u8, 'f' as u8],
        JP2@ =~= seq!['j' as u8, 'p' as u8, '2' as u8],
        PDF@ =~= seq!['p' as u8, 'd' as u8, 'f' as u8],
        WEBP@ =~= seq!['w' as u8, 'e' as u8, 'b' as u8, 'p' as u8],
        INFO_JSON@ =~= seq![
            'i' as u8,
            'n' as u8,
            'f' as u8,
            'o' as u8,
            '.' as u8,
            'j' as u8,
            's' as u8,
            'o' as u8,
            'n' as u8,
        ],
{
}

/// Reading the word of a quality gives the quality back; the word is free of
/// `/` and of `.`.
pub proof fn lemma_quality_round_trip(q: Quality)
    ensures
        quality_read(quality_text(q)) == Ok::<Quality, ParseError>(q),
        free_of(quality_text(q), SLASH),
        free_of(quality_text(q), DOT),
{
    lemma_words();
    let s = quality_text(q);
    match q {
        Quality::Color => {},
        Quality::Gray => {
            assert(s.len() != COLOR@.len());
        },
        Quality::Bitonal => {
            assert(s.len() != COLOR@.len());
            assert(s.len() != GRAY@.len());
        },
        Quality::Default => {
            assert(s.len() != COLOR@.len());
            assert(s.len() != GRAY@.len());
            assert(s[0] != BITONAL@[0]);
        },
    }
}

/// Reading the extension of a format gives the format back; the extension is
/// free of `/`.
pub proof fn lemma_format_round_trip(f: Format)
    ensures
        format_read(format_text(f)) == Ok::<Format, ParseError>(f),
        free_of(format_text(f), SLASH),
{
    lemma_words();
    let s = format_text(f);
    assert(JPG@[0] == 'j' as u8 && JPG@[2] == 'g' as u8);
    assert(TIF@[0] == 't' as u8);
    assert(PNG@[0] == 'p' as u8 && PNG@[1] == 'n' as u8);
    assert(GIF@[0] == 'g' as u8);
    assert(JP2@[0] == 'j' as u8 && JP2@[2] == '2' as u8);
    assert(PDF@[0] == 'p' as u8 && PDF@[1] == 'd' as u8);
    assert(WEBP@.len() == 4);
}

/// Reading the text of an identifier that is not empty gives the identifier
/// back, and the text is free of `/`.
pub proof fn lemma_identifier_round_trip(identifier: Seq<char>)
    requires
        identifier.len() > 0,
    ensures
        identifier_read(identifier_text(identifier)) == Ok::<Seq<char>, ParseError>(identifier),
        free_of(identifier_text(identifier), SLASH),
{
    let bytes = encode_utf8(identifier);
    lemma_escaped(bytes);
    vstd::utf8::encode_utf8_valid_utf8(identifier);
    vstd::utf8::encode_utf8_decode_utf8(identifier);
    assert(bytes.len() > 0) by {
        if bytes.len() == 0 {
            assert(vstd::utf8::decode_utf8(bytes).len() == 0);
        }
    }
}

/// Reading the text of parameters gives the parameters back; the text holds a `/`.
pub proof fn lemma_parameters_round_trip(p: ImageParameters)
    requires
        p.wf(),
    ensures
        parameters_read(parameters_text(p)) == Ok::<ImageParameters, ParseError>(p),
        !free_of(parameters_text(p), SLASH),
{
    let a = region_text(p.region);
    let b = size_text(p.size);
    let c = rotation_text(p.rotation);
    let d = quality_text(p.quality);
    let e = format_text(p.format);
    lemma_region_round_trip(p.region);
    lemma_size_round_trip(p.size);
    lemma_rotation_round_trip(p.rotation);
    lemma_quality_round_trip(p.quality);
    lemma_format_round_trip(p.format);
    let t3 = joined(d, DOT, e);
    let t2 = joined(c, SLASH, t3);
    let t1 = joined(b, SLASH, t2);
    let s = joined(a, SLASH, t1);
    lemma_cut_joined(d, DOT, e);
    lemma_cut_joined(c, SLASH, t3);
    lemma_cut_joined(b, SLASH, t2);
    lemma_cut_joined(a, SLASH, t1);
    assert(s[a.len() as int] == SLASH);
}

/// Reading the canonical path of a request gives the request back, without
/// the time of its last access, which no path holds.
pub proof fn lemma_request_round_trip(v: RequestView)
    requires
        v.wf(),
    ensures
        request_read(request_text(v)) == Ok::<RequestView, ParseError>(
            RequestView { last_access_time: None, ..v },
        ),
{
    let id = identifier_text(v.identifier);
    lemma_identifier_round_trip(v.identifier);
    let t = match v.kind {
        ImageServiceRequestKind::Info => INFO_JSON@,
        ImageServiceRequestKind::Image(p) => parameters_text(p),
    };
    let path = request_text(v);
    let rest = joined(id, SLASH, t);
    assert(path[0] == SLASH);
    assert(path.skip(1) =~= rest);
    lemma_cut_joined(id, SLASH, t);
    match v.kind {
        ImageServiceRequestKind::Info => {},
        ImageServiceRequestKind::Image(p) => {
            lemma_parameters_round_trip(p);
            lemma_words();
            assert(free_of(INFO_JSON@, SLASH));
        },
    }
}

/// Whatever path a request was read from, its canonical path is read as the
/// same request.
pub proof fn lemma_canonical_path_is_read_alike(path: Seq<u8>)
    requires
        request_read(path) is Ok,
    ensures
        request_read(request_text(request_read(path)->Ok_0)) == request_read(path),
{
    crate::iiif::parse::lemma_request_read_wf(path);
    lemma_request_round_trip(request_read(path)->Ok_0);
}

/// Appends one byte to `out`.
fn push_byte(out: &mut Vec<u8>, b: u8)
    ensures
        final(out)@ == old(out)@ + seq![b],
{
    out.push(b);
    assert(out@ =~= old(out)@ + seq![b]);
}

/// Appends the canonical text of a region to `out`.
pub fn write_region(r: &Region, out: &mut Vec<u8>)
    ensures
        final(out)@ == old(out)@ + region_text(*r),
{
    match r {
        Region::Full => push_all(out, FULL.as_slice()),
        Region::Square => push_all(out, SQUARE.as_slice()),
        Region::Absolute { x, y, width, height } => {
            push_digits(out, *x as u64);
            push_byte(out, COMMA);
            push_digits(out, *y as u64);
            push_byte(out, COMMA);
            push_digits(out, *width as u64);
            push_byte(out, COMMA);
            push_digits(out, *height as u64);
            assert(out@ =~= old(out)@ + region_text(*r));
        },
        Region::Percentage { x, y, width, height } => {
            push_all(out, PCT.as_slice());
            x.write(out);
            push_byte(out, COMMA);
            y.write(out);
            push_byte(out, COMMA);
            width.write(out);
            push_byte(out, COMMA);
            height.write(out);
            assert(out@ =~= old(out)@ + region_text(*r));
        },
    }
}

/// Appends the canonical text of a size to `out`.
pub fn write_size(s: &Size, out: &mut Vec<u8>)
    ensures
        final(out)@ == old(out)@ + size_text(*s),
{
    if s.upscale() {
        push_byte(out, CARET);
    }
    match s.scale() {
        Scale::Max => push_all(out, MAX.as_slice()),
        Scale::Percentage(p) => {
            push_all(out, PCT.as_slice());
            p.write(out);
        },
        Scale::FixedWidth(w) => {
            push_digits(out, w.get() as u64);
            push_byte(out, COMMA);
        },
        Scale::FixedHeight(h) => {
            push_byte(out, COMMA);
            push_digits(out, h.get() as u64);
        },
        Scale::Fixed { width, height } => {
            push_digits(out, width.get() as u64);
            push_byte(out, COMMA);
            push_digits(out, height.get() as u64);
        },
        Scale::AspectPreserving { width, height } => {
            push_byte(out, BANG);
            push_digits(out, width.get() as u64);
            push_byte(out, COMMA);
            push_digits(out, height.get() as u64);
        },
    }
    assert(out@ =~= old(out)@ + size_text(*s));
}

/// Appends the canonical text of a rotation to `out`.
pub fn write_rotation(r: &Rotation, out: &mut Vec<u8>)
    ensures
        final(out)@ == old(out)@ + rotation_text(*r),
{
    if r.mirror() {
        push_byte(out, BANG);
    }
    r.degrees().write(out);
    assert(out@ =~= old(out)@ + rotation_text(*r));
}

/// Appends the word of a quality to `out`.
pub fn write_quality(q: &Quality, out: &mut Vec<u8>)
    ensures
        final(out)@ == old(out)@ + quality_text(*q),
{
    match q {
        Quality::Color => push_all(out, COLOR.as_slice()),
        Quality::Gray => push_all(out, GRAY.as_slice()),
        Quality::Bitonal => push_all(out, BITONAL.as_slice()),
        Quality::Default => push_all(out, DEFAULT.as_slice()),
    }
}

/// Appends the extension of a format to `out`.
pub fn write_format(f: &Format, out: &mut Vec<u8>)
    ensures
        final(out)@ == old(out)@ + format_text(*f),
{
    match f {
        Format::Jpg => push_all(out, JPG.as_slice()),
        Format::Tif => push_all(out, TIF.as_slice()),
        Format::Png => push_all(out, PNG.as_slice()),
        Format::Gif => push_all(out, GIF.as_slice()),
        Format::Jp2 => push_all(out, JP2.as_slice()),
        Format::Pdf => push_all(out, PDF.as_slice()),
        Format::Webp => push_all(out, WEBP.as_slice()),
    }
}

/// Appends the canonical text of the parameters to `out`.
pub fn write_parameters(p: &ImageParameters, out: &mut Vec<u8>)
    ensures
        final(out)@ == old(out)@ + parameters_text(*p),
{
    let ghost a = region_text(p.region);
    let ghost b = size_text(p.size);
    let ghost c = rotation_text(p.rotation);
    let ghost d = quality_text(p.quality);
    let ghost e = format_text(p.format);
    write_region(&p.region, out);
    push_byte(out, SLASH);
    let ghost s1 = out@;
    assert(s1 == old(out)@ + a + seq![SLASH]);
    write_size(&p.size, out);
    push_byte(out, SLASH);
    let ghost s2 = out@;
    assert(s2 == s1 + b + seq![SLASH]);
    write_rotation(&p.rotation, out);
    push_byte(out, SLASH);
    let ghost s3 = out@;
    assert(s3 == s2 + c + seq![SLASH]);
    write_quality(&p.quality, out);
    push_byte(out, DOT);
    write_format(&p.format, out);
    assert(out@ == s3 + d + seq![DOT] + e);
    proof {
        let t3 = joined(d, DOT, e);
        let t2 = joined(c, SLASH, t3);
        let t1 = joined(b, SLASH, t2);
        assert(s3 + d + seq![DOT] + e =~= s3 + t3);
        assert(s2 + c + seq![SLASH] + t3 =~= s2 + t2);
        assert(s1 + b + seq![SLASH] + t2 =~= s1 + t1);
        assert(old(out)@ + a + seq![SLASH] + t1 =~= old(out)@ + joined(a, SLASH, t1));
    }
}

impl ImageServiceRequest {
    /// The canonical path of the request: the one that `parse` reads as this
    /// request.
    pub fn canonical_path(&self) -> (path: Vec<u8>)
        ensures
            path@ == request_text(self@),
    {
        let mut out: Vec<u8> = Vec::new();
        push_byte(&mut out, SLASH);
        escape(self.identifier.as_str().as_bytes(), &mut out);
        push_byte(&mut out, SLASH);
        let ghost id = identifier_text(self@.identifier);
        assert(out@ =~= seq![SLASH] + id + seq![SLASH]);
        match &self.kind {
            ImageServiceRequestKind::Info => {
                push_all(&mut out, INFO_JSON.as_slice());
                assert(out@ =~= seq![SLASH] + joined(id, SLASH, INFO_JSON@));
            },
            ImageServiceRequestKind::Image(p) => {
                write_parameters(p, &mut out);
                assert(out@ =~= seq![SLASH] + joined(id, SLASH, parameters_text(*p)));
            },
        }
        out
    }
}

} // verus!
