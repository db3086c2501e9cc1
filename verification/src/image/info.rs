//! What is known of an image before any pixel is decoded.

use vstd::prelude::*;
use crate::iiif::Dimension;

verus! {

/// The most resolution levels that an image description can list: the scale
/// factor of the last one must fit in 16 bits.
pub const MAX_LEVELS: u32 = 16;

/// The rows of a chunk of decoded pixels where the codec's tiles suggest none.
pub const DEFAULT_CHUNK_HEIGHT: Dimension = 16;

/// A size at which the image can be had without scaling by the server.
#[derive(Clone, Copy, Debug, PartialEq, Eq, Structural)]
pub struct PreferredSize {
    pub width: Dimension,
    pub height: Dimension,
}

/// A grid of tiles that clients may ask for, at each of some scale factors.
#[derive(Clone, Debug, PartialEq, Eq)]
pub struct Tile {
    pub scale_factors: Vec<u16>,
    pub width: Dimension,
    pub height: Option<Dimension>,
}

/// The description of an image.
#[derive(Clone, Debug, PartialEq, Eq)]
pub struct ImageInfo {
    /// The width of the full image, in pixels.
    pub width: Dimension,
    /// The height of the full image, in pixels.
    pub height: Dimension,
    /// The maximum width the image can be scaled to, in pixels.
    pub max_width: Option<Dimension>,
    /// The maximum height the image can be scaled to, in pixels.
    pub max_height: Option<Dimension>,
    /// The maximum area the image can be scaled to, in pixels.
    pub max_area: Option<Dimension>,
    /// The preferred sizes (if any) for scaled versions of the image.
    pub sizes: Option<Vec<PreferredSize>>,
    /// The regions of the image that can be stitched together to the full image.
    pub tiles: Option<Vec<Tile>>,
    /// The preferred formats for the image.
    pub preferred_formats: Option<Vec<String>>,
    /// The license or rights statement that applies to the image.
    pub rights: Option<String>,
}

/// What the header of a JPEG 2000 codestream says of an image.
#[derive(Clone, Copy, Debug, PartialEq, Eq, Structural)]
pub struct CodestreamInfo {
    pub width: Dimension,
    pub height: Dimension,
    pub tile_width: Dimension,
    pub tile_height: Dimension,
    /// The number of resolution levels, each half the one before in both axes.
    pub dwt_levels: u32,
}

/// Two to the power `n`.
pub open spec fn pow2(n: nat) -> nat
    decreases n,
{
    if n == 0 {
        1
    } else {
        2 * pow2((n - 1) as nat)
    }
}

/// The scale factors of `levels` resolution levels: 1, 2, 4, ...
pub open spec fn scale_factors(levels: nat) -> Seq<u16> {
    Seq::new(levels, |i: int| pow2(i as nat) as u16)
}

/// The sizes of `levels` resolution levels of an image: the full size divided
/// by each scale factor, the largest first.
pub open spec fn preferred_sizes(width: Dimension, height: Dimension, levels: nat) -> Seq<
    PreferredSize,
> {
    Seq::new(
        levels,
        |i: int|
            PreferredSize {
                width: (width as nat / pow2(i as nat)) as Dimension,
                height: (height as nat / pow2(i as nat)) as Dimension,
            },
    )
}

/// Powers of two are positive and each is twice the one before.
pub proof fn lemma_pow2(n: nat)
    ensures
        pow2(n) > 0,
        pow2(n + 1) == 2 * pow2(n),
    decreases n,
{
    if n > 0 {
        lemma_pow2((n - 1) as nat);
    }
}

/// The powers of two below the level limit fit in 16 bits.
pub proof fn lemma_pow2_small(n: nat)
    requires
        n < 16,
    ensures
        pow2(n) <= 32768,
{
    reveal_with_fuel(pow2, 17);
}

impl ImageInfo {
    /// True if this is the description of the image with the codestream
    /// header `c`: one tile grid of the codec's tile size with the scale
    /// factors 1 to 2^(levels-1), the sizes of all levels, and the full size
    /// as the largest that can be asked for.
    pub open spec fn describes(self, c: CodestreamInfo) -> bool {
        &&& self.width == c.width
        &&& self.height == c.height
        &&& self.max_width == Some(c.width)
        &&& self.max_height == Some(c.height)
        &&& self.max_area is None
        &&& self.preferred_formats is None
        &&& self.rights is None
        &&& self.sizes matches Some(sizes)
        &&& sizes@ == preferred_sizes(c.width, c.height, c.dwt_levels as nat)
        &&& self.tiles matches Some(tiles)
        &&& tiles@.len() == 1
        &&& tiles@[0].width == c.tile_width
        &&& tiles@[0].height == Some(c.tile_height)
        &&& tiles@[0].scale_factors@ == scale_factors(c.dwt_levels as nat)
    }

    /// The description of the image with the codestream header `c`, if its
    /// levels are few enough for their scale factors to be written down.
    pub fn from_codestream(c: &CodestreamInfo) -> (r: Option<ImageInfo>)
        ensures
            r is Some == (c.dwt_levels <= MAX_LEVELS),
            r is Some ==> r->0.describes(*c),
    {
        if c.dwt_levels > MAX_LEVELS {
            return None;
        }
        let mut factors: Vec<u16> = Vec::new();
        let mut sizes: Vec<PreferredSize> = Vec::new();
        let mut factor: u32 = 1;
        let mut level: u32 = 0;
        while level < c.dwt_levels
            invariant
                level <= c.dwt_levels <= 16,
                factor == pow2(level as nat),
                factor <= 65536,
                factors@ == scale_factors(level as nat),
                sizes@ == preferred_sizes(c.width, c.height, level as nat),
            decreases c.dwt_levels - level,
        {
            proof {
                lemma_pow2(level as nat);
                lemma_pow2_small(level as nat);
            }
            factors.push(factor as u16);
            sizes.push(PreferredSize { width: c.width / factor, height: c.height / factor });
            proof {
                assert(factors@ =~= scale_factors((level + 1) as nat));
                assert(sizes@ =~= preferred_sizes(c.width, c.height, (level + 1) as nat));
            }
            factor = factor * 2;
            level += 1;
        }
        let mut tiles: Vec<Tile> = Vec::new();
        tiles.push(
            Tile { width: c.tile_width, height: Some(c.tile_height), scale_factors: factors },
        );
        Some(
            ImageInfo {
                width: c.width,
                height: c.height,
                max_width: Some(c.width),
                max_height: Some(c.height),
                max_area: None,
                sizes: Some(sizes),
                tiles: Some(tiles),
                preferred_formats: None,
                rights: None,
            },
        )
    }

    /// The rows of one chunk of decoded pixels: the height of the codec's
    /// tiles where they are as wide as the image, and at least 16 rows.
    pub open spec fn spec_chunk_height(self) -> Dimension {
        match self.tiles {
            Some(tiles) => if tiles@.len() > 0 && tiles@[0].width >= self.width
                && tiles@[0].height is Some && tiles@[0].height->0 > DEFAULT_CHUNK_HEIGHT {
                tiles@[0].height->0
            } else {
                DEFAULT_CHUNK_HEIGHT
            },
            None => DEFAULT_CHUNK_HEIGHT,
        }
    }

    /// The rows of one chunk of decoded pixels.
    pub fn chunk_height(&self) -> (rows: Dimension)
        ensures
            rows == self.spec_chunk_height(),
            rows >= DEFAULT_CHUNK_HEIGHT,
    {
        match &self.tiles {
            Some(tiles) => {
                if tiles.len() > 0 && tiles[0].width >= self.width {
                    match tiles[0].height {
                        Some(h) => {
                            if h > DEFAULT_CHUNK_HEIGHT {
                                h
                            } else {
                                DEFAULT_CHUNK_HEIGHT
                            }
                        },
                        None => DEFAULT_CHUNK_HEIGHT,
                    }
                } else {
                    DEFAULT_CHUNK_HEIGHT
                }
            },
            None => DEFAULT_CHUNK_HEIGHT,
        }
    }
}

} // verus!
