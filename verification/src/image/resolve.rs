//! From the parameters of a request to pixels: which rectangle of the image
//! is decoded, and to which size it is scaled.
//!
//! Where a size is computed from a ratio it is rounded to the nearest pixel,
//! a half rounding up. Without leave to upscale a size is cut down to the
//! region's own, axis by axis. `max` asks for the largest size of the
//! region's aspect ratio that the image's limits admit; every other scale
//! that goes beyond a limit is refused.

use vstd::prelude::*;
use vstd::string::StringExecFns;
use crate::decimal::Decimal;
use crate::iiif::{Dimension, Region, Scale, Size, HUNDRED};
use crate::image::info::ImageInfo;
use crate::image::{AbsoluteRegion, Dimensions};

verus! {

/// Why the parameters of a request cannot be met by an image.
#[derive(Clone, Copy, Debug, PartialEq, Eq, Structural)]
pub enum ParameterError {
    /// The region holds no pixel.
    EmptyRegion,
    /// A region given in pixels reaches beyond the image.
    RegionOutOfBounds,
    /// The size has a width or a height of zero.
    ZeroDimension,
    /// The size asks for leave to upscale, which the server does not give.
    UpscalingDisabled,
    /// The size goes beyond a limit of the image, or beyond what 32 bits hold.
    TooLarge,
    /// The request asks for a rotation or a mirroring, and the server does neither.
    UnsupportedRotation,
    /// The request asks for a quality other than `default`, and the server
    /// changes no colours.
    UnsupportedQuality,
    /// The request asks for a format that the server does not encode.
    UnsupportedFormat,
}

impl ParameterError {
    /// What the error says of itself.
    pub open spec fn message_text(self) -> Seq<char> {
        match self {
            ParameterError::EmptyRegion => "The region holds no pixel."@,
            ParameterError::RegionOutOfBounds => "The region reaches beyond the image."@,
            ParameterError::ZeroDimension => "The size has a width or height of zero."@,
            ParameterError::UpscalingDisabled => "The size asks for upscaling, which is disabled."@,
            ParameterError::TooLarge => "The size is beyond the limits of the image."@,
            ParameterError::UnsupportedRotation => "The rotation is not supported."@,
            ParameterError::UnsupportedQuality => "The quality is not supported."@,
            ParameterError::UnsupportedFormat => "The format is not supported."@,
        }
    }

    /// What the error says of itself.
    pub fn message(&self) -> (text: String)
        ensures
            text@ == self.message_text(),
    {
        match self {
            ParameterError::EmptyRegion => String::from_str("The region holds no pixel."),
            ParameterError::RegionOutOfBounds => String::from_str(
                "The region reaches beyond the image.",
            ),
            ParameterError::ZeroDimension => String::from_str(
                "The size has a width or height of zero.",
            ),
            ParameterError::UpscalingDisabled => String::from_str(
                "The size asks for upscaling, which is disabled.",
            ),
            ParameterError::TooLarge => String::from_str(
                "The size is beyond the limits of the image.",
            ),
            ParameterError::UnsupportedRotation => String::from_str(
                "The rotation is not supported.",
            ),
            ParameterError::UnsupportedQuality => String::from_str("The quality is not supported."),
            ParameterError::UnsupportedFormat => String::from_str("The format is not supported."),
        }
    }
}

/// The largest sizes to which an image is scaled.
#[derive(Clone, Copy, Debug, PartialEq, Eq, Structural)]
pub struct Limits {
    pub max_width: Option<Dimension>,
    pub max_height: Option<Dimension>,
    pub max_area: Option<Dimension>,
}

/// `a / b`, rounded to the nearest whole number, a half rounding up.
pub open spec fn round_div(a: nat, b: nat) -> nat {
    (2 * a + b) / (2 * b)
}

/// `p` percent of `n`, rounded to the nearest whole number.
pub open spec fn percent_of(p: Decimal, n: nat) -> nat {
    round_div(n * p.units(), HUNDRED as nat)
}

/// The smaller of two numbers.
pub open spec fn least(a: nat, b: nat) -> nat {
    if a <= b {
        a
    } else {
        b
    }
}

/// The rectangle of an image of `width` by `height` pixels that a region
/// names. The whole image for `full`; the largest centred square for
/// `square`; a rectangle in pixels as it is, if it is not empty and lies
/// within the image; a rectangle in percent rounded to pixels and cut off at
/// the image's right and lower edge.
pub open spec fn region_resolved(width: Dimension, height: Dimension, region: Region) -> Result<
    AbsoluteRegion,
    ParameterError,
> {
    match region {
        Region::Full => not_empty(AbsoluteRegion { x: 0, y: 0, width, height }),
        Region::Square => {
            let side = least(width as nat, height as nat) as Dimension;
            not_empty(
                AbsoluteRegion {
                    x: ((width - side) / 2) as Dimension,
                    y: ((height - side) / 2) as Dimension,
                    width: side,
                    height: side,
                },
            )
        },
        Region::Absolute { x, y, width: w, height: h } => if w == 0 || h == 0 {
            Err(ParameterError::EmptyRegion)
        } else if x + w > width || y + h > height {
            Err(ParameterError::RegionOutOfBounds)
        } else {
            Ok(AbsoluteRegion { x, y, width: w, height: h })
        },
        Region::Percentage { x, y, width: w, height: h } => {
            let left = least(percent_of(x, width as nat), width as nat);
            let top = least(percent_of(y, height as nat), height as nat);
            not_empty(
                AbsoluteRegion {
                    x: left as Dimension,
                    y: top as Dimension,
                    width: least(percent_of(w, width as nat), (width - left) as nat) as Dimension,
                    height: least(percent_of(h, height as nat), (height - top) as nat) as Dimension,
                },
            )
        },
    }
}

/// `r`, unless it holds no pixel.
pub open spec fn not_empty(r: AbsoluteRegion) -> Result<AbsoluteRegion, ParameterError> {
    if r.width == 0 || r.height == 0 {
        Err(ParameterError::EmptyRegion)
    } else {
        Ok(r)
    }
}

/// The largest size of the aspect ratio `rw : rh` within a box, of which a
/// side that is `None` sets no bound; without any bound, `rw` by `rh` itself.
pub open spec fn fitted(rw: nat, rh: nat, w: Option<nat>, h: Option<nat>) -> (nat, nat) {
    match (w, h) {
        (Some(w), Some(h)) => if w * rh <= h * rw {
            (w, round_div(rh * w, rw))
        } else {
            (round_div(rw * h, rh), h)
        },
        (Some(w), None) => (w, round_div(rh * w, rw)),
        (None, Some(h)) => (round_div(rw * h, rh), h),
        (None, None) => (rw, rh),
    }
}

/// The greatest width up to `w` at which a size of the aspect ratio `rw : rh`
/// has at most `area` pixels.
pub open spec fn width_within_area(rw: nat, rh: nat, w: nat, area: nat) -> nat
    decreases w,
{
    if w == 0 || w * round_div(rh * w, rw) <= area {
        w
    } else {
        width_within_area(rw, rh, (w - 1) as nat, area)
    }
}

/// A bound as a number, where there is one.
pub open spec fn bound(limit: Option<Dimension>) -> Option<nat> {
    match limit {
        Some(v) => Some(v as nat),
        None => None,
    }
}

/// The largest size of the aspect ratio `rw : rh` that the limits admit.
pub open spec fn largest(limits: Limits, rw: nat, rh: nat) -> (nat, nat) {
    let (w, h) = fitted(rw, rh, bound(limits.max_width), bound(limits.max_height));
    match limits.max_area {
        Some(area) => if w * h > area {
            let narrow = width_within_area(rw, rh, w, area as nat);
            (narrow, round_div(rh * narrow, rw))
        } else {
            (w, h)
        },
        None => (w, h),
    }
}

/// The size that a scale asks for of a region of `rw` by `rh` pixels.
pub open spec fn requested(limits: Limits, rw: nat, rh: nat, scale: Scale) -> (nat, nat) {
    match scale {
        Scale::Max => largest(limits, rw, rh),
        Scale::Percentage(p) => (percent_of(p, rw), percent_of(p, rh)),
        Scale::FixedWidth(w) => (w.value() as nat, round_div(rh * (w.value() as nat), rw)),
        Scale::FixedHeight(h) => (round_div(rw * (h.value() as nat), rh), h.value() as nat),
        Scale::Fixed { width, height } => (width.value() as nat, height.value() as nat),
        Scale::AspectPreserving { width, height } => fitted(
            rw,
            rh,
            Some(width.value() as nat),
            Some(height.value() as nat),
        ),
    }
}

/// True if a size goes beyond a limit, or beyond what 32 bits hold.
pub open spec fn exceeds(limits: Limits, w: nat, h: nat) -> bool {
    ||| w > u32::MAX
    ||| h > u32::MAX
    ||| (limits.max_width matches Some(m) && w > m)
    ||| (limits.max_height matches Some(m) && h > m)
    ||| (limits.max_area matches Some(m) && w * h > m)
}

/// The size in pixels to which a region of `rw` by `rh` pixels is scaled.
/// `upscaling` says whether the server gives leave to upscale at all.
pub open spec fn size_resolved(
    limits: Limits,
    rw: Dimension,
    rh: Dimension,
    size: Size,
    upscaling: bool,
) -> Result<Dimensions, ParameterError> {
    if rw == 0 || rh == 0 {
        Err(ParameterError::EmptyRegion)
    } else if size.spec_upscale() && !upscaling {
        Err(ParameterError::UpscalingDisabled)
    } else {
        let (w0, h0) = requested(limits, rw as nat, rh as nat, size.spec_scale());
        let (w, h) = if size.spec_upscale() {
            (w0, h0)
        } else {
            (least(w0, rw as nat), least(h0, rh as nat))
        };
        if exceeds(limits, w, h) {
            Err(ParameterError::TooLarge)
        } else if w == 0 || h == 0 {
            Err(ParameterError::ZeroDimension)
        } else {
            Ok((w as Dimension, h as Dimension))
        }
    }
}

/// The product of two 32-bit numbers.
fn product(a: u32, b: u32) -> (r: u64)
    ensures
        r == a as nat * b as nat,
        r <= 0xffff_ffff * 0xffff_ffff,
{
    assert(a as nat * b as nat <= 0xffff_ffff * 0xffff_ffff) by (nonlinear_arith)
        requires
            a <= 0xffff_ffff,
            b <= 0xffff_ffff,
    ;
    a as u64 * b as u64
}

/// `a / b`, rounded to the nearest whole number.
fn rounded_quotient(a: u64, b: u32) -> (r: u64)
    requires
        b > 0,
        a <= 0xffff_ffff * 0xffff_ffff,
    ensures
        r == round_div(a as nat, b as nat),
{
    let n: u128 = 2 * (a as u128) + b as u128;
    let d: u128 = 2 * (b as u128);
    let q: u128 = n / d;
    assert(q <= 0xffff_ffff_ffff_ffff) by (nonlinear_arith)
        requires
            q == n / d,
            d >= 2,
            n <= 2 * (0xffff_ffff * 0xffff_ffff) + 0xffff_ffff,
    ;
    q as u64
}

/// `p` percent of `n`, rounded to the nearest whole number.
fn percentage(p: Decimal, n: u32) -> (r: u64)
    ensures
        r == percent_of(p, n as nat),
{
    let units: u64 = p.billionths();
    assert(n as nat * units as nat <= 0xffff_ffff * 0xffff_ffff_ffff_ffff) by (nonlinear_arith)
        requires
            n <= 0xffff_ffff,
            units <= 0xffff_ffff_ffff_ffff,
    ;
    let a: u128 = n as u128 * units as u128;
    let q: u128 = (2 * a + HUNDRED as u128) / (2 * HUNDRED as u128);
    assert(q <= 0xffff_ffff_ffff_ffff) by (nonlinear_arith)
        requires
            a <= 0xffff_ffff * 0xffff_ffff_ffff_ffff,
            q == (2 * a + 100_000_000_000) / 200_000_000_000,
    ;
    q as u64
}

fn smaller(a: u64, b: u64) -> (r: u64)
    ensures
        r == least(a as nat, b as nat),
{
    if a <= b {
        a
    } else {
        b
    }
}

/// Resolves a region against an image of `width` by `height` pixels.
pub fn resolve_region(width: Dimension, height: Dimension, region: &Region) -> (r: Result<
    AbsoluteRegion,
    ParameterError,
>)
    ensures
        r == region_resolved(width, height, *region),
        r is Ok ==> r->Ok_0.within(width, height),
{
    let found: AbsoluteRegion = match region {
        Region::Full => AbsoluteRegion { x: 0, y: 0, width, height },
        Region::Square => {
            let side: u32 = if width <= height {
                width
            } else {
                height
            };
            AbsoluteRegion { x: (width - side) / 2, y: (height - side) / 2, width: side, height: side }
        },
        Region::Absolute { x, y, width: w, height: h } => {
            if *w == 0 || *h == 0 {
                return Err(ParameterError::EmptyRegion);
            }
            if *x as u64 + *w as u64 > width as u64 || *y as u64 + *h as u64 > height as u64 {
                return Err(ParameterError::RegionOutOfBounds);
            }
            AbsoluteRegion { x: *x, y: *y, width: *w, height: *h }
        },
        Region::Percentage { x, y, width: w, height: h } => {
            let left: u64 = smaller(percentage(*x, width), width as u64);
            let top: u64 = smaller(percentage(*y, height), height as u64);
            let across: u64 = smaller(percentage(*w, width), width as u64 - left);
            let down: u64 = smaller(percentage(*h, height), height as u64 - top);
            AbsoluteRegion {
                x: left as u32,
                y: top as u32,
                width: across as u32,
                height: down as u32,
            }
        },
    };
    if found.width == 0 || found.height == 0 {
        Err(ParameterError::EmptyRegion)
    } else {
        Ok(found)
    }
}

/// The largest size of the aspect ratio `rw : rh` within a box.
fn fit(rw: u32, rh: u32, w: Option<u32>, h: Option<u32>) -> (r: (u64, u64))
    requires
        rw > 0,
        rh > 0,
    ensures
        (r.0 as nat, r.1 as nat) == fitted(rw as nat, rh as nat, bound(w), bound(h)),
{
    match (w, h) {
        (Some(w), Some(h)) => {
            if product(w, rh) <= product(h, rw) {
                (w as u64, rounded_quotient(product(rh, w), rw))
            } else {
                (rounded_quotient(product(rw, h), rh), h as u64)
            }
        },
        (Some(w), None) => (w as u64, rounded_quotient(product(rh, w), rw)),
        (None, Some(h)) => (rounded_quotient(product(rw, h), rh), h as u64),
        (None, None) => (rw as u64, rh as u64),
    }
}

/// The pixels of the size of aspect ratio `rw : rh` that is `w` wide.
pub open spec fn area_at(rw: nat, rh: nat, w: nat) -> nat {
    w * round_div(rh * w, rw)
}

/// A wider size of the same aspect ratio has no fewer pixels.
pub proof fn lemma_area_grows(rw: nat, rh: nat, a: nat, b: nat)
    requires
        rw > 0,
        a <= b,
    ensures
        area_at(rw, rh, a) <= area_at(rw, rh, b),
{
    let fa = round_div(rh * a, rw);
    let fb = round_div(rh * b, rw);
    assert(rh * a <= rh * b) by (nonlinear_arith)
        requires
            a <= b,
    ;
    vstd::arithmetic::div_mod::lemma_div_is_ordered(
        (2 * (rh * a) + rw) as int,
        (2 * (rh * b) + rw) as int,
        (2 * rw) as int,
    );
    assert(a * fa <= b * fb) by (nonlinear_arith)
        requires
            a <= b,
            fa <= fb,
    ;
}

/// If `lo` is within the area and the next width is not, `lo` is the
/// greatest width within the area up to any `w` from `lo` on.
pub proof fn lemma_width_within_area(rw: nat, rh: nat, w: nat, area: nat, lo: nat)
    requires
        rw > 0,
        lo <= w,
        area_at(rw, rh, lo) <= area,
        lo < w ==> area_at(rw, rh, lo + 1) > area,
    ensures
        width_within_area(rw, rh, w, area) == lo,
    decreases w - lo,
{
    if lo < w {
        lemma_area_grows(rw, rh, lo + 1, w);
        lemma_width_within_area(rw, rh, (w - 1) as nat, area, lo);
    }
}

fn area_of(rw: u32, rh: u32, w: u32) -> (r: u128)
    requires
        rw > 0,
    ensures
        r == area_at(rw as nat, rh as nat, w as nat),
{
    let h: u64 = rounded_quotient(product(rh, w), rw);
    assert(w as nat * h as nat <= 0xffff_ffff * 0xffff_ffff_ffff_ffff) by (nonlinear_arith)
        requires
            w <= 0xffff_ffff,
            h <= 0xffff_ffff_ffff_ffff,
    ;
    w as u128 * h as u128
}

/// The greatest width up to `w` at which the size of aspect ratio `rw : rh`
/// has at most `area` pixels.
fn narrow_to_area(rw: u32, rh: u32, w: u32, area: u32) -> (r: u32)
    requires
        rw > 0,
    ensures
        r == width_within_area(rw as nat, rh as nat, w as nat, area as nat),
{
    if area_of(rw, rh, w) <= area as u128 {
        return w;
    }
    let mut lo: u32 = 0;
    let mut hi: u32 = w;
    assert(area_at(rw as nat, rh as nat, 0) == 0);
    while hi - lo > 1
        invariant
            rw > 0,
            lo < hi <= w,
            area_at(rw as nat, rh as nat, lo as nat) <= area,
            area_at(rw as nat, rh as nat, hi as nat) > area,
        decreases hi - lo,
    {
        let mid: u32 = lo + (hi - lo) / 2;
        if area_of(rw, rh, mid) <= area as u128 {
            lo = mid;
        } else {
            hi = mid;
        }
    }
    proof {
        lemma_width_within_area(rw as nat, rh as nat, w as nat, area as nat, lo as nat);
    }
    lo
}

/// The largest size of the aspect ratio `rw : rh` that the limits admit.
fn largest_size(limits: &Limits, rw: u32, rh: u32) -> (r: (u64, u64))
    requires
        rw > 0,
        rh > 0,
    ensures
        (r.0 as nat, r.1 as nat) == largest(*limits, rw as nat, rh as nat),
{
    let (w, h) = fit(rw, rh, limits.max_width, limits.max_height);
    match limits.max_area {
        Some(area) => {
            assert(w as nat * h as nat <= 0xffff_ffff_ffff_ffff * 0xffff_ffff_ffff_ffff)
                by (nonlinear_arith)
                requires
                    w <= 0xffff_ffff_ffff_ffff,
                    h <= 0xffff_ffff_ffff_ffff,
            ;
            if w as u128 * h as u128 > area as u128 {
                if w > 0xffff_ffff {
                    // a width beyond 32 bits has more pixels than any area
                    // limit; the search starts below it
                    proof {
                        lemma_wide_is_over(rw as nat, rh as nat, w as nat, area as nat);
                    }
                    let narrow: u32 = narrow_to_area(rw, rh, 0xffff_ffff, area);
                    (narrow as u64, rounded_quotient(product(rh, narrow), rw))
                } else {
                    let narrow: u32 = narrow_to_area(rw, rh, w as u32, area);
                    (narrow as u64, rounded_quotient(product(rh, narrow), rw))
                }
            } else {
                (w, h)
            }
        },
        None => (w, h),
    }
}

/// Above 32 bits every width is over a 32-bit area limit, so the greatest
/// width within the limit is found from the largest 32-bit width down.
pub proof fn lemma_wide_is_over(rw: nat, rh: nat, w: nat, area: nat)
    requires
        rw > 0,
        rh > 0,
        w >= 0xffff_ffff,
        rw <= 0xffff_ffff,
        area <= 0xffff_ffff,
    ensures
        width_within_area(rw, rh, w, area) == width_within_area(rw, rh, 0xffff_ffff, area),
    decreases w,
{
    if w > 0xffff_ffff {
        // w * rh / rw >= 1 rounded, so the area is at least w
        let f = round_div(rh * w, rw);
        assert(2 * (rh * w) + rw >= 2 * rw) by (nonlinear_arith)
            requires
                rh >= 1,
                w >= rw,
        ;
        vstd::arithmetic::div_mod::lemma_div_is_ordered(
            (2 * rw) as int,
            (2 * (rh * w) + rw) as int,
            (2 * rw) as int,
        );
        vstd::arithmetic::div_mod::lemma_div_basics((2 * rw) as int);
        assert(f >= 1);
        assert(w * f >= w) by (nonlinear_arith)
            requires
                f >= 1,
        ;
        lemma_wide_is_over(rw, rh, (w - 1) as nat, area);
    }
}

/// Resolves a size against a region of `rw` by `rh` pixels.
pub fn resolve_size(limits: &Limits, rw: Dimension, rh: Dimension, size: &Size, upscaling: bool) -> (r:
    Result<Dimensions, ParameterError>)
    ensures
        r == size_resolved(*limits, rw, rh, *size, upscaling),
        r is Ok ==> r->Ok_0.0 > 0 && r->Ok_0.1 > 0,
        r is Ok && !size.spec_upscale() ==> r->Ok_0.0 <= rw && r->Ok_0.1 <= rh,
        r is Ok ==> !exceeds(*limits, r->Ok_0.0 as nat, r->Ok_0.1 as nat),
{
    if rw == 0 || rh == 0 {
        return Err(ParameterError::EmptyRegion);
    }
    if size.upscale() && !upscaling {
        return Err(ParameterError::UpscalingDisabled);
    }
    let (w0, h0): (u64, u64) = match size.scale() {
        Scale::Max => largest_size(limits, rw, rh),
        Scale::Percentage(p) => (percentage(p, rw), percentage(p, rh)),
        Scale::FixedWidth(w) => (w.get() as u64, rounded_quotient(product(rh, w.get()), rw)),
        Scale::FixedHeight(h) => (rounded_quotient(product(rw, h.get()), rh), h.get() as u64),
        Scale::Fixed { width, height } => (width.get() as u64, height.get() as u64),
        Scale::AspectPreserving { width, height } => fit(
            rw,
            rh,
            Some(width.get()),
            Some(height.get()),
        ),
    };
    let (w, h): (u64, u64) = if size.upscale() {
        (w0, h0)
    } else {
        (smaller(w0, rw as u64), smaller(h0, rh as u64))
    };
    if w > 0xffff_ffff || h > 0xffff_ffff {
        return Err(ParameterError::TooLarge);
    }
    if let Some(m) = limits.max_width {
        if w > m as u64 {
            return Err(ParameterError::TooLarge);
        }
    }
    if let Some(m) = limits.max_height {
        if h > m as u64 {
            return Err(ParameterError::TooLarge);
        }
    }
    if let Some(m) = limits.max_area {
        if product(w as u32, h as u32) > m as u64 {
            return Err(ParameterError::TooLarge);
        }
    }
    if w == 0 || h == 0 {
        return Err(ParameterError::ZeroDimension);
    }
    Ok((w as u32, h as u32))
}

impl ImageInfo {
    /// The largest sizes to which the image is scaled.
    pub fn limits(&self) -> (l: Limits)
        ensures
            l == (Limits {
                max_width: self.max_width,
                max_height: self.max_height,
                max_area: self.max_area,
            }),
    {
        Limits { max_width: self.max_width, max_height: self.max_height, max_area: self.max_area }
    }
}

/// A whole multiple of the divisor is divided without rounding.
pub proof fn lemma_round_div_multiple(k: nat, b: nat)
    requires
        b > 0,
    ensures
        round_div(k * b, b) == k,
{
    assert((2 * (k * b) + b) / (2 * b) == k) by (nonlinear_arith)
        requires
            b > 0,
    ;
}

/// Rounded division keeps the order of the dividends.
pub proof fn lemma_round_div_ordered(a: nat, c: nat, b: nat)
    requires
        b > 0,
        a <= c,
    ensures
        round_div(a, b) <= round_div(c, b),
{
    vstd::arithmetic::div_mod::lemma_div_is_ordered(
        (2 * a + b) as int,
        (2 * c + b) as int,
        (2 * b) as int,
    );
}

/// The region `pct:0,0,100,100` is the region `full`.
pub proof fn lemma_whole_percentage_is_full(
    width: Dimension,
    height: Dimension,
    x: Decimal,
    y: Decimal,
    w: Decimal,
    h: Decimal,
)
    requires
        x.units() == 0,
        y.units() == 0,
        w.units() == HUNDRED,
        h.units() == HUNDRED,
    ensures
        region_resolved(width, height, Region::Percentage { x, y, width: w, height: h })
            == region_resolved(width, height, Region::Full),
{
    assert(width as nat * x.units() == 0 && height as nat * y.units() == 0) by (nonlinear_arith)
        requires
            x.units() == 0,
            y.units() == 0,
    ;
    lemma_round_div_multiple(0, HUNDRED as nat);
    assert(0 * (HUNDRED as nat) == 0);
    lemma_round_div_multiple(width as nat, HUNDRED as nat);
    lemma_round_div_multiple(height as nat, HUNDRED as nat);
}

/// On a square image the region `square` is the region `full`.
pub proof fn lemma_square_of_square_is_full(side: Dimension)
    ensures
        region_resolved(side, side, Region::Square) == region_resolved(side, side, Region::Full),
{
}

/// A size that is resolved has no side of zero, lies within the limits of
/// the image, and without leave to upscale within the region.
pub proof fn lemma_size_resolved(
    limits: Limits,
    rw: Dimension,
    rh: Dimension,
    size: Size,
    upscaling: bool,
)
    requires
        size_resolved(limits, rw, rh, size, upscaling) is Ok,
    ensures
        size_resolved(limits, rw, rh, size, upscaling)->Ok_0.0 > 0,
        size_resolved(limits, rw, rh, size, upscaling)->Ok_0.1 > 0,
        !exceeds(
            limits,
            size_resolved(limits, rw, rh, size, upscaling)->Ok_0.0 as nat,
            size_resolved(limits, rw, rh, size, upscaling)->Ok_0.1 as nat,
        ),
        !size.spec_upscale() ==> size_resolved(limits, rw, rh, size, upscaling)->Ok_0.0 <= rw
            && size_resolved(limits, rw, rh, size, upscaling)->Ok_0.1 <= rh,
        size.spec_upscale() ==> upscaling,
{
}

/// Without leave to upscale, `max` on a region that the limits admit as it
/// is gives the region's own size, however far the limits are.
pub proof fn lemma_max_clamps(limits: Limits, rw: Dimension, rh: Dimension, upscaling: bool)
    requires
        rw > 0,
        rh > 0,
        limits.max_width matches Some(m) ==> m >= rw,
        limits.max_height matches Some(m) ==> m >= rh,
        limits.max_area is None,
    ensures
        size_resolved(limits, rw, rh, Size::of(Scale::Max, false), upscaling) == Ok::<
            Dimensions,
            ParameterError,
        >((rw, rh)),
{
    broadcast use Size::lemma_of;

    let (w, h) = fitted(rw as nat, rh as nat, bound(limits.max_width), bound(limits.max_height));
    lemma_fitted_covers(limits, rw, rh);
}

/// With leave to upscale, `max` on a region smaller than the limits gives a
/// size that is no smaller than the region and reaches one of the limits.
pub proof fn lemma_max_upscales(
    rw: Dimension,
    rh: Dimension,
    max_width: Dimension,
    max_height: Dimension,
)
    requires
        rw > 0,
        rh > 0,
        max_width >= rw,
        max_height >= rh,
    ensures
        size_resolved(
            Limits { max_width: Some(max_width), max_height: Some(max_height), max_area: None },
            rw,
            rh,
            Size::of(Scale::Max, true),
            true,
        ) matches Ok((w, h)) && w >= rw && h >= rh && (w == max_width || h == max_height),
{
    broadcast use Size::lemma_of;

    let limits = Limits {
        max_width: Some(max_width),
        max_height: Some(max_height),
        max_area: None,
    };
    lemma_fitted_covers(limits, rw, rh);
    lemma_fitted_within(rw as nat, rh as nat, max_width as nat, max_height as nat);
}

/// The largest size within limits that are no smaller than the region is no
/// smaller than the region.
pub proof fn lemma_fitted_covers(limits: Limits, rw: Dimension, rh: Dimension)
    requires
        rw > 0,
        rh > 0,
        limits.max_width matches Some(m) ==> m >= rw,
        limits.max_height matches Some(m) ==> m >= rh,
    ensures
        fitted(rw as nat, rh as nat, bound(limits.max_width), bound(limits.max_height)).0 >= rw,
        fitted(rw as nat, rh as nat, bound(limits.max_width), bound(limits.max_height)).1 >= rh,
{
    let a = rw as nat;
    let b = rh as nat;
    match limits.max_width {
        Some(m) => {
            lemma_round_div_multiple(b, a);
            assert(b * a <= b * (m as nat)) by (nonlinear_arith)
                requires
                    a <= m,
            ;
            lemma_round_div_ordered(b * a, b * (m as nat), a);
        },
        None => {},
    }
    match limits.max_height {
        Some(m) => {
            lemma_round_div_multiple(a, b);
            assert(a * b <= a * (m as nat)) by (nonlinear_arith)
                requires
                    b <= m,
            ;
            lemma_round_div_ordered(a * b, a * (m as nat), b);
        },
        None => {},
    }
}

/// The largest size of an aspect ratio within a box lies within the box and
/// has one side of the box.
pub proof fn lemma_fitted_within(rw: nat, rh: nat, w: nat, h: nat)
    requires
        rw > 0,
        rh > 0,
    ensures
        fitted(rw, rh, Some(w), Some(h)).0 <= w,
        fitted(rw, rh, Some(w), Some(h)).1 <= h,
        fitted(rw, rh, Some(w), Some(h)).0 == w || fitted(rw, rh, Some(w), Some(h)).1 == h,
{
    if w * rh <= h * rw {
        assert(rh * w <= h * rw) by (nonlinear_arith)
            requires
                w * rh <= h * rw,
        ;
        lemma_round_div_ordered(rh * w, h * rw, rw);
        lemma_round_div_multiple(h, rw);
    } else {
        assert(rw * h <= w * rh) by (nonlinear_arith)
            requires
                w * rh > h * rw,
        ;
        lemma_round_div_ordered(rw * h, w * rh, rh);
        lemma_round_div_multiple(w, rh);
    }
}

} // verus!
