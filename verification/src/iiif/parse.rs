//! Reading the elements of a request path.
//!
//! Each element has a function that says what a text denotes
//! (`region_read`, `size_read`, ...) and a reader that computes it. The
//! grammar is that of the IIIF Image API 3.0: a region is `full`, `square`,
//! `x,y,w,h` or `pct:x,y,w,h`; a size is `max`, `w,`, `,h`, `pct:n`, `w,h` or
//! `!w,h`, each after an optional `^`; a rotation is a decimal number below
//! 360 after an optional `!`.

use vstd::prelude::*;
use vstd::utf8::{decode_utf8, valid_utf8};
use crate::decimal::{decimal_read, Decimal};
use crate::iiif::escape::{unescape, unescaped, utf8_text};
use crate::iiif::service::{is_outcome, ImageParameters, ImageServiceRequest,
    ImageServiceRequestKind, RequestView};
use crate::iiif::{Format, NonZeroDimension, Quality, Region, Rotation, Scale, Size, FULL_TURN,
    HUNDRED};
use crate::text::{cut, head, read_u32, same, skip, spec_read_u32, starts_with, tail,
    NumberError};

verus! {

/// The separator of the segments of a path.
pub const SLASH: u8 = '/' as u8;

/// The separator of the numbers of a region or size.
pub const COMMA: u8 = ',' as u8;

/// The mark of a size that may be larger than the region.
pub const CARET: u8 = '^' as u8;

/// The mark of a mirrored rotation, and of a size kept within a box.
pub const BANG: u8 = '!' as u8;

/// The separator of quality and format.
pub const DOT: u8 = '.' as u8;

/// The region `full`.
pub const FULL: [u8; 4] = ['f' as u8, 'u' as u8, 'l' as u8, 'l' as u8];

/// The region `square`.
pub const SQUARE: [u8; 6] = ['s' as u8, 'q' as u8, 'u' as u8, 'a' as u8, 'r' as u8, 'e' as u8];

/// What a region or size in percent begins with.
pub const PCT: [u8; 4] = ['p' as u8, 'c' as u8, 't' as u8, ':' as u8];

/// The size `max`.
pub const MAX: [u8; 3] = ['m' as u8, 'a' as u8, 'x' as u8];

/// The quality `color`.
pub const COLOR: [u8; 5] = ['c' as u8, 'o' as u8, 'l' as u8, 'o' as u8, 'r' as u8];

/// The quality `gray`.
pub const GRAY: [u8; 4] = ['g' as u8, 'r' as u8, 'a' as u8, 'y' as u8];

/// The quality `bitonal`.
pub const BITONAL: [u8; 7] = [
    'b' as u8,
    'i' as u8,
    't' as u8,
    'o' as u8,
    'n' as u8,
    'a' as u8,
    'l' as u8,
];

/// The quality `default`.
pub const DEFAULT: [u8; 7] = [
    'd' as u8,
    'e' as u8,
    'f' as u8,
    'a' as u8,
    'u' as u8,
    'l' as u8,
    't' as u8,
];

/// The format `jpg`.
pub const JPG: [u8; 3] = ['j' as u8, 'p' as u8, 'g' as u8];

/// The format `tif`.
pub const TIF: [u8; 3] = ['t' as u8, 'i' as u8, 'f' as u8];

/// The format `png`.
pub const PNG: [u8; 3] = ['p' as u8, 'n' as u8, 'g' as u8];

/// The format `gif`.
pub const GIF: [u8; 3] = ['g' as u8, 'i' as u8, 'f' as u8];

/// The format `jp2`.
pub const JP2: [u8; 3] = ['j' as u8, 'p' as u8, '2' as u8];

/// The format `pdf`.
pub const PDF: [u8; 3] = ['p' as u8, 'd' as u8, 'f' as u8];

/// The format `webp`.
pub const WEBP: [u8; 4] = ['w' as u8, 'e' as u8, 'b' as u8, 'p' as u8];

/// The last segment of a request for an image's description.
pub const INFO_JSON: [u8; 9] = [
    'i' as u8,
    'n' as u8,
    'f' as u8,
    'o' as u8,
    '.' as u8,
    'j' as u8,
    's' as u8,
    'o' as u8,
    'n' as u8,
];

/// The part of a request path that an error is about.
#[derive(Clone, Copy, Debug, PartialEq, Eq, Structural, Hash)]
pub enum Element {
    Path,
    Identifier,
    Region,
    Size,
    Rotation,
    Quality,
    Format,
}

/// What is wrong with an element.
#[derive(Clone, Copy, Debug, PartialEq, Eq, Structural, Hash)]
pub enum Reason {
    /// The element is not there.
    Missing,
    /// A `%` is not followed by two hexadecimal digits.
    Encoding,
    /// The percent-decoded bytes are no UTF-8 text.
    NotUtf8,
    /// The element does not follow its grammar.
    Malformed,
    /// A number is too large for its place.
    OutOfRange,
    /// A width or height of zero.
    Zero,
    /// A word that is none of the known ones.
    Unknown,
}

/// Why a path is not a request: the element at fault, and what is wrong with it.
#[derive(Clone, Copy, Debug, PartialEq, Eq, Structural, Hash)]
pub struct ParseError {
    pub element: Element,
    pub reason: Reason,
}

/// The error for a number that could not be read in `element`.
pub open spec fn number_error(element: Element, e: NumberError) -> ParseError {
    match e {
        NumberError::Malformed => ParseError { element, reason: Reason::Malformed },
        NumberError::TooLarge => ParseError { element, reason: Reason::OutOfRange },
    }
}

/// The four fields of `a,b,c,d`; the last one is all that follows the third comma.
pub open spec fn four_fields(s: Seq<u8>) -> Option<(Seq<u8>, Seq<u8>, Seq<u8>, Seq<u8>)> {
    match tail(s, COMMA) {
        None => None,
        Some(t1) => match tail(t1, COMMA) {
            None => None,
            Some(t2) => match tail(t2, COMMA) {
                None => None,
                Some(t3) => Some((head(s, COMMA), head(t1, COMMA), head(t2, COMMA), t3)),
            },
        },
    }
}

/// A count of pixels in a region.
pub open spec fn pixels_read(s: Seq<u8>) -> Result<u32, ParseError> {
    match spec_read_u32(s) {
        Ok(v) => Ok(v),
        Err(e) => Err(number_error(Element::Region, e)),
    }
}

/// A percentage in a region: a decimal number of at most 100.
pub open spec fn percent_read(s: Seq<u8>) -> Result<Decimal, ParseError> {
    match decimal_read(s) {
        Err(e) => Err(number_error(Element::Region, e)),
        Ok(d) => if d.units() > HUNDRED {
            Err(ParseError { element: Element::Region, reason: Reason::OutOfRange })
        } else {
            Ok(d)
        },
    }
}

/// The region `x,y,w,h` in pixels.
pub open spec fn pixel_region_read(s: Seq<u8>) -> Result<Region, ParseError> {
    match four_fields(s) {
        None => Err(ParseError { element: Element::Region, reason: Reason::Malformed }),
        Some((a, b, c, d)) => match pixels_read(a) {
            Err(e) => Err(e),
            Ok(x) => match pixels_read(b) {
                Err(e) => Err(e),
                Ok(y) => match pixels_read(c) {
                    Err(e) => Err(e),
                    Ok(width) => match pixels_read(d) {
                        Err(e) => Err(e),
                        Ok(height) => Ok(Region::Absolute { x, y, width, height }),
                    },
                },
            },
        },
    }
}

/// The region `x,y,w,h` in percent, without its `pct:`.
pub open spec fn percent_region_read(s: Seq<u8>) -> Result<Region, ParseError> {
    match four_fields(s) {
        None => Err(ParseError { element: Element::Region, reason: Reason::Malformed }),
        Some((a, b, c, d)) => match percent_read(a) {
            Err(e) => Err(e),
            Ok(x) => match percent_read(b) {
                Err(e) => Err(e),
                Ok(y) => match percent_read(c) {
                    Err(e) => Err(e),
                    Ok(width) => match percent_read(d) {
                        Err(e) => Err(e),
                        Ok(height) => Ok(Region::Percentage { x, y, width, height }),
                    },
                },
            },
        },
    }
}

/// The region that a text denotes.
pub open spec fn region_read(s: Seq<u8>) -> Result<Region, ParseError> {
    if s == FULL@ {
        Ok(Region::Full)
    } else if s == SQUARE@ {
        Ok(Region::Square)
    } else if PCT@.is_prefix_of(s) {
        percent_region_read(s.skip(4))
    } else {
        pixel_region_read(s)
    }
}

/// A width or height in a size: a count of pixels that is not zero.
pub open spec fn dimension_read(s: Seq<u8>) -> Result<NonZeroDimension, ParseError> {
    match spec_read_u32(s) {
        Err(e) => Err(number_error(Element::Size, e)),
        Ok(v) => if v == 0 {
            Err(ParseError { element: Element::Size, reason: Reason::Zero })
        } else {
            Ok(NonZeroDimension::of(v))
        },
    }
}

/// A width and a height, both given: `w,h`.
pub open spec fn dimensions_read(s: Seq<u8>) -> Result<
    (NonZeroDimension, NonZeroDimension),
    ParseError,
> {
    match tail(s, COMMA) {
        None => Err(ParseError { element: Element::Size, reason: Reason::Malformed }),
        Some(h) => match dimension_read(head(s, COMMA)) {
            Err(e) => Err(e),
            Ok(width) => match dimension_read(h) {
                Err(e) => Err(e),
                Ok(height) => Ok((width, height)),
            },
        },
    }
}

/// The scale that a text denotes, the `^` taken off. A percentage above 100
/// is in range only with leave to upscale.
pub open spec fn scale_read(s: Seq<u8>, upscale: bool) -> Result<Scale, ParseError> {
    if s == MAX@ {
        Ok(Scale::Max)
    } else if PCT@.is_prefix_of(s) {
        match decimal_read(s.skip(4)) {
            Err(e) => Err(number_error(Element::Size, e)),
            Ok(p) => if !upscale && p.units() > HUNDRED {
                Err(ParseError { element: Element::Size, reason: Reason::OutOfRange })
            } else {
                Ok(Scale::Percentage(p))
            },
        }
    } else if s.len() > 0 && s[0] == BANG {
        match dimensions_read(s.skip(1)) {
            Err(e) => Err(e),
            Ok((width, height)) => Ok(Scale::AspectPreserving { width, height }),
        }
    } else {
        match tail(s, COMMA) {
            None => Err(ParseError { element: Element::Size, reason: Reason::Malformed }),
            Some(h) => {
                let w = head(s, COMMA);
                if w.len() == 0 && h.len() == 0 {
                    Err(ParseError { element: Element::Size, reason: Reason::Malformed })
                } else if h.len() == 0 {
                    match dimension_read(w) {
                        Err(e) => Err(e),
                        Ok(width) => Ok(Scale::FixedWidth(width)),
                    }
                } else if w.len() == 0 {
                    match dimension_read(h) {
                        Err(e) => Err(e),
                        Ok(height) => Ok(Scale::FixedHeight(height)),
                    }
                } else {
                    match dimensions_read(s) {
                        Err(e) => Err(e),
                        Ok((width, height)) => Ok(Scale::Fixed { width, height }),
                    }
                }
            },
        }
    }
}

/// The size that a text denotes.
pub open spec fn size_read(s: Seq<u8>) -> Result<Size, ParseError> {
    let upscale = s.len() > 0 && s[0] == CARET;
    let body = if upscale {
        s.skip(1)
    } else {
        s
    };
    match scale_read(body, upscale) {
        Err(e) => Err(e),
        Ok(scale) => Ok(Size::of(scale, upscale)),
    }
}

/// The rotation that a text denotes.
pub open spec fn rotation_read(s: Seq<u8>) -> Result<Rotation, ParseError> {
    let mirror = s.len() > 0 && s[0] == BANG;
    let body = if mirror {
        s.skip(1)
    } else {
        s
    };
    match decimal_read(body) {
        Err(e) => Err(number_error(Element::Rotation, e)),
        Ok(d) => if d.units() >= FULL_TURN {
            Err(ParseError { element: Element::Rotation, reason: Reason::OutOfRange })
        } else {
            Ok(Rotation::of(d, mirror))
        },
    }
}

/// The quality that a word denotes.
pub open spec fn quality_read(s: Seq<u8>) -> Result<Quality, ParseError> {
    if s == COLOR@ {
        Ok(Quality::Color)
    } else if s == GRAY@ {
        Ok(Quality::Gray)
    } else if s == BITONAL@ {
        Ok(Quality::Bitonal)
    } else if s == DEFAULT@ {
        Ok(Quality::Default)
    } else {
        Err(ParseError { element: Element::Quality, reason: Reason::Unknown })
    }
}

/// The format that a file extension denotes.
pub open spec fn format_read(s: Seq<u8>) -> Result<Format, ParseError> {
    if s == JPG@ {
        Ok(Format::Jpg)
    } else if s == TIF@ {
        Ok(Format::Tif)
    } else if s == PNG@ {
        Ok(Format::Png)
    } else if s == GIF@ {
        Ok(Format::Gif)
    } else if s == JP2@ {
        Ok(Format::Jp2)
    } else if s == PDF@ {
        Ok(Format::Pdf)
    } else if s == WEBP@ {
        Ok(Format::Webp)
    } else {
        Err(ParseError { element: Element::Format, reason: Reason::Unknown })
    }
}

fn number_failed(element: Element, e: NumberError) -> (r: ParseError)
    ensures
        r == number_error(element, e),
{
    match e {
        NumberError::Malformed => ParseError { element, reason: Reason::Malformed },
        NumberError::TooLarge => ParseError { element, reason: Reason::OutOfRange },
    }
}

fn read_four_fields(s: &[u8]) -> (r: Option<(&[u8], &[u8], &[u8], &[u8])>)
    ensures
        r is Some == four_fields(s@) is Some,
        r is Some ==> {
            let f = four_fields(s@)->0;
            let g = r->0;
            g.0@ == f.0 && g.1@ == f.1 && g.2@ == f.2 && g.3@ == f.3
        },
{
    let (a, t1) = cut(s, COMMA);
    let t1 = match t1 {
        Some(t) => t,
        None => {
            return None;
        },
    };
    let (b, t2) = cut(t1, COMMA);
    let t2 = match t2 {
        Some(t) => t,
        None => {
            return None;
        },
    };
    let (c, t3) = cut(t2, COMMA);
    match t3 {
        Some(d) => Some((a, b, c, d)),
        None => None,
    }
}

fn read_pixels(s: &[u8]) -> (r: Result<u32, ParseError>)
    ensures
        r == pixels_read(s@),
{
    match read_u32(s) {
        Ok(v) => Ok(v),
        Err(e) => Err(number_failed(Element::Region, e)),
    }
}

fn read_percent(s: &[u8]) -> (r: Result<Decimal, ParseError>)
    ensures
        r == percent_read(s@),
{
    match Decimal::read(s) {
        Err(e) => Err(number_failed(Element::Region, e)),
        Ok(d) => {
            if d.billionths() > HUNDRED {
                Err(ParseError { element: Element::Region, reason: Reason::OutOfRange })
            } else {
                Ok(d)
            }
        },
    }
}

/// Reads a region.
pub fn read_region(s: &[u8]) -> (r: Result<Region, ParseError>)
    ensures
        r == region_read(s@),
        r is Ok ==> r->Ok_0.wf(),
{
    if same(s, FULL.as_slice()) {
        return Ok(Region::Full);
    }
    if same(s, SQUARE.as_slice()) {
        return Ok(Region::Square);
    }
    let percent: bool = starts_with(s, PCT.as_slice());
    let body: &[u8] = if percent {
        skip(s, 4)
    } else {
        s
    };
    let (a, b, c, d) = match read_four_fields(body) {
        Some(f) => f,
        None => {
            return Err(ParseError { element: Element::Region, reason: Reason::Malformed });
        },
    };
    if percent {
        let x: Decimal = read_percent(a)?;
        let y: Decimal = read_percent(b)?;
        let width: Decimal = read_percent(c)?;
        let height: Decimal = read_percent(d)?;
        Ok(Region::Percentage { x, y, width, height })
    } else {
        let x: u32 = read_pixels(a)?;
        let y: u32 = read_pixels(b)?;
        let width: u32 = read_pixels(c)?;
        let height: u32 = read_pixels(d)?;
        Ok(Region::Absolute { x, y, width, height })
    }
}

fn read_dimension(s: &[u8]) -> (r: Result<NonZeroDimension, ParseError>)
    ensures
        r == dimension_read(s@),
        r is Ok ==> r->Ok_0.wf(),
{
    match read_u32(s) {
        Err(e) => Err(number_failed(Element::Size, e)),
        Ok(v) => match NonZeroDimension::new(v) {
            Some(d) => Ok(d),
            None => Err(ParseError { element: Element::Size, reason: Reason::Zero }),
        },
    }
}

fn read_dimensions(s: &[u8]) -> (r: Result<(NonZeroDimension, NonZeroDimension), ParseError>)
    ensures
        r == dimensions_read(s@),
        r is Ok ==> r->Ok_0.0.wf() && r->Ok_0.1.wf(),
{
    let (w, h) = cut(s, COMMA);
    match h {
        None => Err(ParseError { element: Element::Size, reason: Reason::Malformed }),
        Some(h) => {
            let width: NonZeroDimension = read_dimension(w)?;
            let height: NonZeroDimension = read_dimension(h)?;
            Ok((width, height))
        },
    }
}

fn read_scale(s: &[u8], upscale: bool) -> (r: Result<Scale, ParseError>)
    ensures
        r == scale_read(s@, upscale),
        r is Ok ==> r->Ok_0.wf() && (r->Ok_0 matches Scale::Percentage(p) ==> upscale || p.units()
            <= HUNDRED),
{
    if same(s, MAX.as_slice()) {
        return Ok(Scale::Max);
    }
    if starts_with(s, PCT.as_slice()) {
        return match Decimal::read(skip(s, 4)) {
            Err(e) => Err(number_failed(Element::Size, e)),
            Ok(p) => {
                if !upscale && p.billionths() > HUNDRED {
                    Err(ParseError { element: Element::Size, reason: Reason::OutOfRange })
                } else {
                    Ok(Scale::Percentage(p))
                }
            },
        };
    }
    if s.len() > 0 && s[0] == BANG {
        let (width, height) = read_dimensions(skip(s, 1))?;
        return Ok(Scale::AspectPreserving { width, height });
    }
    let (w, h) = cut(s, COMMA);
    match h {
        None => Err(ParseError { element: Element::Size, reason: Reason::Malformed }),
        Some(h) => {
            if w.len() == 0 && h.len() == 0 {
                Err(ParseError { element: Element::Size, reason: Reason::Malformed })
            } else if h.len() == 0 {
                let width: NonZeroDimension = read_dimension(w)?;
                Ok(Scale::FixedWidth(width))
            } else if w.len() == 0 {
                let height: NonZeroDimension = read_dimension(h)?;
                Ok(Scale::FixedHeight(height))
            } else {
                let width: NonZeroDimension = read_dimension(w)?;
                let height: NonZeroDimension = read_dimension(h)?;
                Ok(Scale::Fixed { width, height })
            }
        },
    }
}

/// Reads a size.
pub fn read_size(s: &[u8]) -> (r: Result<Size, ParseError>)
    ensures
        r == size_read(s@),
        r is Ok ==> r->Ok_0.wf(),
{
    broadcast use Size::lemma_of;

    let upscale: bool = s.len() > 0 && s[0] == CARET;
    let body: &[u8] = if upscale {
        skip(s, 1)
    } else {
        s
    };
    let scale: Scale = read_scale(body, upscale)?;
    if upscale {
        Ok(Size::upscaled(scale))
    } else {
        Ok(Size::new(scale))
    }
}

/// Reads a rotation.
pub fn read_rotation(s: &[u8]) -> (r: Result<Rotation, ParseError>)
    ensures
        r == rotation_read(s@),
        r is Ok ==> r->Ok_0.wf(),
{
    broadcast use Rotation::lemma_of;

    let mirror: bool = s.len() > 0 && s[0] == BANG;
    let body: &[u8] = if mirror {
        skip(s, 1)
    } else {
        s
    };
    match Decimal::read(body) {
        Err(e) => Err(number_failed(Element::Rotation, e)),
        Ok(d) => {
            if d.billionths() >= FULL_TURN {
                Err(ParseError { element: Element::Rotation, reason: Reason::OutOfRange })
            } else if mirror {
                Ok(Rotation::mirrored(d))
            } else {
                Ok(Rotation::new(d))
            }
        },
    }
}

/// Reads a quality.
pub fn read_quality(s: &[u8]) -> (r: Result<Quality, ParseError>)
    ensures
        r == quality_read(s@),
{
    if same(s, COLOR.as_slice()) {
        Ok(Quality::Color)
    } else if same(s, GRAY.as_slice()) {
        Ok(Quality::Gray)
    } else if same(s, BITONAL.as_slice()) {
        Ok(Quality::Bitonal)
    } else if same(s, DEFAULT.as_slice()) {
        Ok(Quality::Default)
    } else {
        Err(ParseError { element: Element::Quality, reason: Reason::Unknown })
    }
}

/// Reads a format.
pub fn read_format(s: &[u8]) -> (r: Result<Format, ParseError>)
    ensures
        r == format_read(s@),
{
    if same(s, JPG.as_slice()) {
        Ok(Format::Jpg)
    } else if same(s, TIF.as_slice()) {
        Ok(Format::Tif)
    } else if same(s, PNG.as_slice()) {
        Ok(Format::Png)
    } else if same(s, GIF.as_slice()) {
        Ok(Format::Gif)
    } else if same(s, JP2.as_slice()) {
        Ok(Format::Jp2)
    } else if same(s, PDF.as_slice()) {
        Ok(Format::Pdf)
    } else if same(s, WEBP.as_slice()) {
        Ok(Format::Webp)
    } else {
        Err(ParseError { element: Element::Format, reason: Reason::Unknown })
    }
}

/// The identifier that a path segment denotes: not empty, percent-decoded, and
/// read as UTF-8.
pub open spec fn identifier_read(s: Seq<u8>) -> Result<Seq<char>, ParseError> {
    if s.len() == 0 {
        Err(ParseError { element: Element::Identifier, reason: Reason::Missing })
    } else {
        match unescaped(s) {
            None => Err(ParseError { element: Element::Identifier, reason: Reason::Encoding }),
            Some(bytes) => if valid_utf8(bytes) {
                Ok(decode_utf8(bytes))
            } else {
                Err(ParseError { element: Element::Identifier, reason: Reason::NotUtf8 })
            },
        }
    }
}

/// The parameters that `region/size/rotation/quality.format` denotes. A
/// segment that is not there is reported before any that is there is read;
/// after that the first element at fault, from the left, gives the error.
pub open spec fn parameters_read(s: Seq<u8>) -> Result<ImageParameters, ParseError> {
    match tail(s, SLASH) {
        None => Err(ParseError { element: Element::Size, reason: Reason::Missing }),
        Some(t1) => match tail(t1, SLASH) {
            None => Err(ParseError { element: Element::Rotation, reason: Reason::Missing }),
            Some(t2) => match tail(t2, SLASH) {
                None => Err(ParseError { element: Element::Quality, reason: Reason::Missing }),
                Some(t3) => match tail(t3, DOT) {
                    None => Err(ParseError { element: Element::Format, reason: Reason::Missing }),
                    Some(f) => match region_read(head(s, SLASH)) {
                        Err(e) => Err(e),
                        Ok(region) => match size_read(head(t1, SLASH)) {
                            Err(e) => Err(e),
                            Ok(size) => match rotation_read(head(t2, SLASH)) {
                                Err(e) => Err(e),
                                Ok(rotation) => match quality_read(head(t3, DOT)) {
                                    Err(e) => Err(e),
                                    Ok(quality) => match format_read(f) {
                                        Err(e) => Err(e),
                                        Ok(format) => Ok(
                                            ImageParameters {
                                                region,
                                                size,
                                                rotation,
                                                quality,
                                                format,
                                            },
                                        ),
                                    },
                                },
                            },
                        },
                    },
                },
            },
        },
    }
}

/// The request that a path denotes: `/identifier/info.json`, or
/// `/identifier/region/size/rotation/quality.format`.
pub open spec fn request_read(path: Seq<u8>) -> Result<RequestView, ParseError> {
    if path.len() == 0 || path[0] != SLASH {
        Err(ParseError { element: Element::Path, reason: Reason::Malformed })
    } else {
        let rest = path.skip(1);
        match identifier_read(head(rest, SLASH)) {
            Err(e) => Err(e),
            Ok(identifier) => match tail(rest, SLASH) {
                None => Err(ParseError { element: Element::Region, reason: Reason::Missing }),
                Some(t) => if t == INFO_JSON@ {
                    Ok(
                        RequestView {
                            identifier,
                            kind: ImageServiceRequestKind::Info,
                            last_access_time: None,
                        },
                    )
                } else {
                    match parameters_read(t) {
                        Err(e) => Err(e),
                        Ok(p) => Ok(
                            RequestView {
                                identifier,
                                kind: ImageServiceRequestKind::Image(p),
                                last_access_time: None,
                            },
                        ),
                    }
                },
            },
        }
    }
}

/// Reads an identifier.
pub fn read_identifier(s: &[u8]) -> (r: Result<String, ParseError>)
    ensures
        r is Ok == identifier_read(s@) is Ok,
        r is Ok ==> r->Ok_0@ == identifier_read(s@)->Ok_0 && r->Ok_0@.len() > 0,
        r is Err ==> r->Err_0 == identifier_read(s@)->Err_0,
{
    if s.len() == 0 {
        return Err(ParseError { element: Element::Identifier, reason: Reason::Missing });
    }
    match unescape(s) {
        None => Err(ParseError { element: Element::Identifier, reason: Reason::Encoding }),
        Some(bytes) => {
            proof {
                lemma_unescaped_len(s@);
                if valid_utf8(bytes@) {
                    // a text without characters has no bytes
                    vstd::utf8::decode_utf8_encode_utf8(bytes@);
                    if decode_utf8(bytes@).len() == 0 {
                        assert(vstd::utf8::encode_utf8(decode_utf8(bytes@)).len() == 0);
                    }
                }
            }
            match utf8_text(bytes) {
                Some(text) => Ok(text),
                None => Err(ParseError { element: Element::Identifier, reason: Reason::NotUtf8 }),
            }
        },
    }
}

/// What a text that is not empty decodes to is not empty.
pub proof fn lemma_unescaped_len(s: Seq<u8>)
    requires
        s.len() > 0,
    ensures
        unescaped(s) is Some ==> unescaped(s)->0.len() > 0,
{
}

/// Reads the parameters of an image request.
pub fn read_parameters(s: &[u8]) -> (r: Result<ImageParameters, ParseError>)
    ensures
        r == parameters_read(s@),
        r is Ok ==> r->Ok_0.wf(),
{
    let (region, t1) = cut(s, SLASH);
    let t1 = match t1 {
        Some(t) => t,
        None => {
            return Err(ParseError { element: Element::Size, reason: Reason::Missing });
        },
    };
    let (size, t2) = cut(t1, SLASH);
    let t2 = match t2 {
        Some(t) => t,
        None => {
            return Err(ParseError { element: Element::Rotation, reason: Reason::Missing });
        },
    };
    let (rotation, t3) = cut(t2, SLASH);
    let t3 = match t3 {
        Some(t) => t,
        None => {
            return Err(ParseError { element: Element::Quality, reason: Reason::Missing });
        },
    };
    let (quality, format) = cut(t3, DOT);
    let format = match format {
        Some(t) => t,
        None => {
            return Err(ParseError { element: Element::Format, reason: Reason::Missing });
        },
    };
    let region: Region = read_region(region)?;
    let size: Size = read_size(size)?;
    let rotation: Rotation = read_rotation(rotation)?;
    let quality: Quality = read_quality(quality)?;
    let format: Format = read_format(format)?;
    Ok(ImageParameters { region, size, rotation, quality, format })
}

/// Reads a request from the bytes of a path.
pub fn read_request(path: &[u8]) -> (r: Result<ImageServiceRequest, ParseError>)
    ensures
        is_outcome(r, request_read(path@)),
        r is Ok ==> r->Ok_0@.wf(),
{
    if path.len() == 0 || path[0] != SLASH {
        return Err(ParseError { element: Element::Path, reason: Reason::Malformed });
    }
    let rest = skip(path, 1);
    let (id, t) = cut(rest, SLASH);
    let identifier: String = read_identifier(id)?;
    let t = match t {
        Some(t) => t,
        None => {
            return Err(ParseError { element: Element::Region, reason: Reason::Missing });
        },
    };
    if same(t, INFO_JSON.as_slice()) {
        return Ok(
            ImageServiceRequest {
                identifier,
                kind: ImageServiceRequestKind::Info,
                last_access_time: None,
            },
        );
    }
    let parameters: ImageParameters = read_parameters(t)?;
    Ok(
        ImageServiceRequest {
            identifier,
            kind: ImageServiceRequestKind::Image(parameters),
            last_access_time: None,
        },
    )
}

/// A region that is read is well formed.
pub proof fn lemma_region_read_wf(s: Seq<u8>)
    ensures
        region_read(s) matches Ok(r) ==> r.wf(),
{
}

/// A size that is read is well formed.
pub proof fn lemma_size_read_wf(s: Seq<u8>)
    ensures
        size_read(s) matches Ok(size) ==> size.wf(),
{
    broadcast use Size::lemma_of, NonZeroDimension::lemma_of;

    let upscale = s.len() > 0 && s[0] == CARET;
    let body = if upscale {
        s.skip(1)
    } else {
        s
    };
    if PCT@.is_prefix_of(body) {
        crate::decimal::lemma_decimal_read_wf(body.skip(4));
    }
}

/// A rotation that is read is well formed.
pub proof fn lemma_rotation_read_wf(s: Seq<u8>)
    ensures
        rotation_read(s) matches Ok(r) ==> r.wf(),
{
    broadcast use Rotation::lemma_of;

}

/// Parameters that are read are well formed.
pub proof fn lemma_parameters_read_wf(s: Seq<u8>)
    ensures
        parameters_read(s) matches Ok(p) ==> p.wf(),
{
    if let Some(t1) = tail(s, SLASH) {
        if let Some(t2) = tail(t1, SLASH) {
            lemma_region_read_wf(head(s, SLASH));
            lemma_size_read_wf(head(t1, SLASH));
            lemma_rotation_read_wf(head(t2, SLASH));
        }
    }
}

/// A request that is read is well formed: whatever path it came from, it has
/// a canonical path of its own.
pub proof fn lemma_request_read_wf(path: Seq<u8>)
    ensures
        request_read(path) matches Ok(v) ==> v.wf(),
{
    if path.len() > 0 && path[0] == SLASH {
        let rest = path.skip(1);
        let id = head(rest, SLASH);
        if id.len() > 0 {
            lemma_unescaped_len(id);
            if let Some(bytes) = unescaped(id) {
                if valid_utf8(bytes) {
                    vstd::utf8::decode_utf8_encode_utf8(bytes);
                    if decode_utf8(bytes).len() == 0 {
                        assert(vstd::utf8::encode_utf8(decode_utf8(bytes)).len() == 0);
                    }
                }
            }
        }
        if let Some(t) = tail(rest, SLASH) {
            lemma_parameters_read_wf(t);
        }
    }
}

} // verus!
