//! Images: what is known of one, and what part of one is wanted.

use vstd::prelude::*;
use crate::iiif::Dimension;

pub mod info;
pub mod locator;
pub mod resolve;
pub mod transcoding;

verus! {

/// A width and a height in pixels.
pub type Dimensions = (Dimension, Dimension);

/// A rectangle of pixels within an image.
#[derive(Clone, Copy, Debug, PartialEq, Eq, Structural)]
pub struct AbsoluteRegion {
    pub x: Dimension,
    pub y: Dimension,
    pub width: Dimension,
    pub height: Dimension,
}

impl AbsoluteRegion {
    /// True if the rectangle is not empty and lies within an image of
    /// `width` by `height` pixels.
    pub open spec fn within(self, width: Dimension, height: Dimension) -> bool {
        &&& self.width > 0
        &&& self.height > 0
        &&& self.x + self.width <= width
        &&& self.y + self.height <= height
    }
}

} // verus!
