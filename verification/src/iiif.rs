//! The parameters of a IIIF image request: region, size, rotation, quality
//! and format.

use vstd::prelude::*;
use crate::decimal::Decimal;

pub mod canonical;
pub mod escape;
pub mod http;
pub mod parse;
pub mod service;
pub mod syntax;

verus! {

/// A count of pixels along one axis.
pub type Dimension = u32;

/// The billionths in one hundred: the largest percentage of a whole.
pub const HUNDRED: u64 = 100_000_000_000;

/// The billionths in 360: the first angle that is out of range.
pub const FULL_TURN: u64 = 360_000_000_000;

/// A count of pixels that is not zero.
#[derive(Clone, Copy, Debug, PartialEq, Eq, Structural, Hash)]
pub struct NonZeroDimension {
    value: Dimension,
}

impl NonZeroDimension {
    #[verifier::type_invariant]
    spec fn positive(self) -> bool {
        self.value > 0
    }

    /// The count of pixels.
    pub closed spec fn value(self) -> Dimension {
        self.value
    }

    /// The count `value`, whether zero or not: a value to reason about, which
    /// running code gets only from `new`.
    pub closed spec fn of(value: Dimension) -> NonZeroDimension {
        NonZeroDimension { value }
    }

    /// `of` and `value` are inverse to each other.
    pub broadcast proof fn lemma_of(value: Dimension)
        ensures
            (#[trigger] NonZeroDimension::of(value)).value() == value,
    {
    }

    /// A count is known by its value.
    pub proof fn lemma_parts(self)
        ensures
            self == NonZeroDimension::of(self.value()),
    {
    }

    /// True if the count is not zero. It holds of every value that running code
    /// can hold; a law about all values asks for it.
    pub open spec fn wf(self) -> bool {
        self.value() > 0
    }

    /// `value` as a non-zero count, if it is one.
    pub fn new(value: Dimension) -> (r: Option<NonZeroDimension>)
        ensures
            r is Some == (value > 0),
            r is Some ==> r->0 == NonZeroDimension::of(value) && r->0.wf(),
    {
        if value > 0 {
            Some(NonZeroDimension { value })
        } else {
            None
        }
    }

    /// The count of pixels, which is not zero.
    pub fn get(&self) -> (v: Dimension)
        ensures
            v == self.value(),
            v > 0,
            self.wf(),
    {
        proof {
            use_type_invariant(self);
        }
        self.value
    }
}

/// The part of the image that is asked for.
#[derive(Clone, Copy, Debug, PartialEq, Eq, Structural)]
#[allow(inconsistent_fields)]
pub enum Region {
    /// The whole image.
    Full,
    /// The largest centred square.
    Square,
    /// A rectangle in pixels.
    Absolute { x: Dimension, y: Dimension, width: Dimension, height: Dimension },
    /// A rectangle in percent of the image's width and height.
    Percentage { x: Decimal, y: Decimal, width: Decimal, height: Decimal },
}

impl Region {
    /// True if every percentage lies between 0 and 100.
    pub open spec fn wf(self) -> bool {
        match self {
            Region::Percentage { x, y, width, height } => {
                &&& x.units() <= HUNDRED
                &&& y.units() <= HUNDRED
                &&& width.units() <= HUNDRED
                &&& height.units() <= HUNDRED
            },
            _ => true,
        }
    }
}

/// How the region is scaled.
#[derive(Clone, Copy, Debug, PartialEq, Eq, Structural)]
pub enum Scale {
    /// The largest size that the image allows.
    Max,
    /// A percentage of the region's size.
    Percentage(Decimal),
    /// A width; the height follows from the aspect ratio.
    FixedWidth(NonZeroDimension),
    /// A height; the width follows from the aspect ratio.
    FixedHeight(NonZeroDimension),
    /// A width and a height, whatever the aspect ratio.
    Fixed { width: NonZeroDimension, height: NonZeroDimension },
    /// The largest size of the region's aspect ratio within a width and a height.
    AspectPreserving { width: NonZeroDimension, height: NonZeroDimension },
}

impl Scale {
    /// True if every pixel count is positive and a percentage can be written down.
    pub open spec fn wf(self) -> bool {
        match self {
            Scale::Max => true,
            Scale::Percentage(p) => p.wf(),
            Scale::FixedWidth(w) => w.wf(),
            Scale::FixedHeight(h) => h.wf(),
            Scale::Fixed { width, height } => width.wf() && height.wf(),
            Scale::AspectPreserving { width, height } => width.wf() && height.wf(),
        }
    }

    /// The scale to exactly `width` by `height`.
    pub fn fixed(width: Option<NonZeroDimension>, height: Option<NonZeroDimension>) -> (s: Scale)
        requires
            width is Some,
            height is Some,
        ensures
            s == (Scale::Fixed { width: width->0, height: height->0 }),
    {
        Scale::Fixed { width: width.unwrap(), height: height.unwrap() }
    }

    /// The scale to a height of `height`.
    pub fn fixed_height(height: Option<NonZeroDimension>) -> (s: Scale)
        requires
            height is Some,
        ensures
            s == Scale::FixedHeight(height->0),
    {
        Scale::FixedHeight(height.unwrap())
    }

    /// The scale to a width of `width`.
    pub fn fixed_width(width: Option<NonZeroDimension>) -> (s: Scale)
        requires
            width is Some,
        ensures
            s == Scale::FixedWidth(width->0),
    {
        Scale::FixedWidth(width.unwrap())
    }
}

/// A scale, and whether the result may be larger than the region.
#[derive(Clone, Copy, Debug, PartialEq, Eq, Structural)]
pub struct Size {
    scale: Scale,
    upscale: bool,
}

impl Size {
    /// The scale.
    pub closed spec fn spec_scale(self) -> Scale {
        self.scale
    }

    /// Whether the result may be larger than the region.
    pub closed spec fn spec_upscale(self) -> bool {
        self.upscale
    }

    /// The size with the given parts.
    pub closed spec fn of(scale: Scale, upscale: bool) -> Size {
        Size { scale, upscale }
    }

    /// `of` puts together what the two accessors take apart.
    pub broadcast proof fn lemma_of(scale: Scale, upscale: bool)
        ensures
            (#[trigger] Size::of(scale, upscale)).spec_scale() == scale,
            Size::of(scale, upscale).spec_upscale() == upscale,
    {
    }

    /// A size is known by its two parts.
    pub proof fn lemma_parts(self)
        ensures
            self == Size::of(self.spec_scale(), self.spec_upscale()),
    {
    }

    /// True if the scale is well formed and a percentage above 100 comes only
    /// with leave to upscale.
    pub open spec fn wf(self) -> bool {
        &&& self.spec_scale().wf()
        &&& (self.spec_scale() matches Scale::Percentage(p) ==> self.spec_upscale() || p.units()
            <= HUNDRED)
    }

    /// `scale` without leave to upscale.
    pub fn new(scale: Scale) -> (s: Size)
        ensures
            s == Size::of(scale, false),
    {
        Size { upscale: false, scale }
    }

    /// `scale` with leave to upscale.
    pub fn upscaled(scale: Scale) -> (s: Size)
        ensures
            s == Size::of(scale, true),
    {
        Size { upscale: true, scale }
    }

    /// The scale.
    pub fn scale(&self) -> (s: Scale)
        ensures
            s == self.spec_scale(),
    {
        self.scale
    }

    /// Whether the result may be larger than the region.
    pub fn upscale(&self) -> (u: bool)
        ensures
            u == self.spec_upscale(),
    {
        self.upscale
    }
}

/// A rotation clockwise by an angle in degrees, after an optional mirroring
/// about the vertical axis.
#[derive(Clone, Copy, Debug, PartialEq, Eq, Structural)]
pub struct Rotation {
    degrees: Decimal,
    mirror: bool,
}

impl Rotation {
    /// The angle in degrees.
    pub closed spec fn spec_degrees(self) -> Decimal {
        self.degrees
    }

    /// Whether the image is mirrored before it is rotated.
    pub closed spec fn spec_mirror(self) -> bool {
        self.mirror
    }

    /// The rotation with the given parts.
    pub closed spec fn of(degrees: Decimal, mirror: bool) -> Rotation {
        Rotation { degrees, mirror }
    }

    /// `of` puts together what the two accessors take apart.
    pub broadcast proof fn lemma_of(degrees: Decimal, mirror: bool)
        ensures
            (#[trigger] Rotation::of(degrees, mirror)).spec_degrees() == degrees,
            Rotation::of(degrees, mirror).spec_mirror() == mirror,
    {
    }

    /// A rotation is known by its two parts.
    pub proof fn lemma_parts(self)
        ensures
            self == Rotation::of(self.spec_degrees(), self.spec_mirror()),
    {
    }

    /// A rotation and its mirrored counterpart turn by the same angle and
    /// differ in nothing but the mirroring.
    pub proof fn lemma_mirrored(degrees: Decimal)
        ensures
            Rotation::of(degrees, true).spec_degrees() == Rotation::of(degrees, false).spec_degrees(),
            Rotation::of(degrees, true).spec_mirror(),
            !Rotation::of(degrees, false).spec_mirror(),
            Rotation::of(degrees, true).wf() == Rotation::of(degrees, false).wf(),
    {
    }

    /// True if the angle is below 360 degrees.
    pub open spec fn wf(self) -> bool {
        self.spec_degrees().units() < FULL_TURN
    }

    /// The rotation by `degrees`, without mirroring.
    pub fn new(degrees: Decimal) -> (r: Rotation)
        ensures
            r == Rotation::of(degrees, false),
    {
        Rotation { mirror: false, degrees }
    }

    /// The rotation by `degrees`, after mirroring.
    pub fn mirrored(degrees: Decimal) -> (r: Rotation)
        ensures
            r == Rotation::of(degrees, true),
    {
        Rotation { mirror: true, degrees }
    }

    /// The angle in degrees.
    pub fn degrees(&self) -> (d: Decimal)
        ensures
            d == self.spec_degrees(),
    {
        self.degrees
    }

    /// Whether the image is mirrored before it is rotated.
    pub fn mirror(&self) -> (m: bool)
        ensures
            m == self.spec_mirror(),
    {
        self.mirror
    }
}

/// The colour treatment that is asked for.
#[derive(Clone, Copy, Debug, Hash, PartialEq, Eq, Structural)]
pub enum Quality {
    Color,
    Gray,
    Bitonal,
    Default,
}

/// The format of the encoded image.
#[derive(Clone, Copy, Debug, Hash, PartialEq, Eq, Structural)]
pub enum Format {
    Jpg,
    Tif,
    Png,
    Gif,
    Jp2,
    Pdf,
    Webp,
}

impl Format {
    /// The media type of the format.
    pub open spec fn media_type(self) -> Seq<char> {
        match self {
            Format::Jpg => "image/jpeg"@,
            Format::Tif => "image/tiff"@,
            Format::Png => "image/png"@,
            Format::Gif => "image/gif"@,
            Format::Jp2 => "image/jp2"@,
            Format::Pdf => "application/pdf"@,
            Format::Webp => "image/webp"@,
        }
    }

    /// The media type of the format.
    pub fn mime(&self) -> (s: &'static str)
        ensures
            s@ == self.media_type(),
    {
        match self {
            Format::Jpg => "image/jpeg",
            Format::Tif => "image/tiff",
            Format::Png => "image/png",
            Format::Gif => "image/gif",
            Format::Jp2 => "image/jp2",
            Format::Pdf => "application/pdf",
            Format::Webp => "image/webp",
        }
    }
}

} // verus!
