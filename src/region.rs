//! Rectangular regions of a pixel grid and how they split.
use vstd::prelude::*;

verus! {

/// A rectangle of pixels: columns `[x, x + width)` and rows `[y, y + height)`.
#[derive(Clone, Copy, Debug, PartialEq, Eq, Structural)]
pub struct Region {
    pub x: u32,
    pub y: u32,
    pub width: u32,
    pub height: u32,
}

impl Region {
    /// The region's far edges stay within `u32`.
    pub open spec fn wf(self) -> bool {
        self.x + self.width <= u32::MAX && self.y + self.height <= u32::MAX
    }

    /// The region lies inside a grid of `w` by `h` pixels.
    pub open spec fn within(self, w: int, h: int) -> bool {
        self.x + self.width <= w && self.y + self.height <= h
    }

    /// Pixel `(px, py)` belongs to the region.
    pub open spec fn contains(self, px: int, py: int) -> bool {
        self.x <= px < self.x + self.width && self.y <= py < self.y + self.height
    }

    /// The two halves of a split at column offset `p`, clamped to the width:
    /// a left part `min(p, width)` wide and a right part with the rest.
    pub open spec fn spec_split_horizontally(self, p: int) -> (Region, Region) {
        let q = if p <= self.width { p } else { self.width as int };
        (
            Region { x: self.x, y: self.y, width: q as u32, height: self.height },
            Region {
                x: (self.x + q) as u32,
                y: self.y,
                width: (self.width - q) as u32,
                height: self.height,
            },
        )
    }

    /// The two halves of a split at row offset `p`, clamped to the height:
    /// a top part `min(p, height)` high and a bottom part with the rest.
    pub open spec fn spec_split_vertically(self, p: int) -> (Region, Region) {
        let q = if p <= self.height { p } else { self.height as int };
        (
            Region { x: self.x, y: self.y, width: self.width, height: q as u32 },
            Region {
                x: self.x,
                y: (self.y + q) as u32,
                width: self.width,
                height: (self.height - q) as u32,
            },
        )
    }

    /// The region covering a whole grid of `width` by `height` pixels.
    pub fn full(width: u32, height: u32) -> (r: Region)
        ensures
            r == (Region { x: 0, y: 0, width, height }),
            r.wf(),
            r.within(width as int, height as int),
    {
        Region { x: 0, y: 0, width, height }
    }

    /// Splits into a left and a right part at column offset `pixel`.
    pub fn split_horizontally(&self, pixel: u32) -> (r: (Region, Region))
        requires
            self.wf(),
        ensures
            r == self.spec_split_horizontally(pixel as int),
            r.0.wf(),
            r.1.wf(),
    {
        let q: u32 = if pixel <= self.width { pixel } else { self.width };
        (
            Region { x: self.x, y: self.y, width: q, height: self.height },
            Region { x: self.x + q, y: self.y, width: self.width - q, height: self.height },
        )
    }

    /// Splits into a top and a bottom part at row offset `pixel`.
    pub fn split_vertically(&self, pixel: u32) -> (r: (Region, Region))
        requires
            self.wf(),
        ensures
            r == self.spec_split_vertically(pixel as int),
            r.0.wf(),
            r.1.wf(),
    {
        let q: u32 = if pixel <= self.height { pixel } else { self.height };
        (
            Region { x: self.x, y: self.y, width: self.width, height: q },
            Region { x: self.x, y: self.y + q, width: self.width, height: self.height - q },
        )
    }
}

/// A horizontal split at an offset `p <= width` gives parts `p` and `width - p`
/// wide, each as high as the region; their column ranges are disjoint and
/// together cover the region's columns, so every pixel of the region lies in
/// exactly one part and every pixel of a part lies in the region.
pub proof fn lemma_split_horizontally_partitions(r: Region, p: int)
    requires
        r.wf(),
        0 <= p <= r.width,
    ensures
        ({
            let (a, b) = r.spec_split_horizontally(p);
            &&& a.width == p && b.width == r.width - p
            &&& a.height == r.height && b.height == r.height
            &&& a.x == r.x && b.x == r.x + p && a.y == r.y && b.y == r.y
            &&& forall|px: int, py: int|
                r.contains(px, py) <==> (a.contains(px, py) || b.contains(px, py))
            &&& forall|px: int, py: int| !(a.contains(px, py) && b.contains(px, py))
        }),
{
}

/// A vertical split at an offset `p <= height` gives parts `p` and
/// `height - p` high, each as wide as the region; their row ranges are
/// disjoint and together cover the region's rows.
pub proof fn lemma_split_vertically_partitions(r: Region, p: int)
    requires
        r.wf(),
        0 <= p <= r.height,
    ensures
        ({
            let (a, b) = r.spec_split_vertically(p);
            &&& a.height == p && b.height == r.height - p
            &&& a.width == r.width && b.width == r.width
            &&& a.y == r.y && b.y == r.y + p && a.x == r.x && b.x == r.x
            &&& forall|px: int, py: int|
                r.contains(px, py) <==> (a.contains(px, py) || b.contains(px, py))
            &&& forall|px: int, py: int| !(a.contains(px, py) && b.contains(px, py))
        }),
{
}

/// An offset past the far edge clamps: the first part is the whole region and
/// the second is empty, for either direction of split.
pub proof fn lemma_split_clamps(r: Region, p: int)
    requires
        r.wf(),
    ensures
        p >= r.width ==> r.spec_split_horizontally(p).0.width == r.width
            && r.spec_split_horizontally(p).1.width == 0,
        p >= r.height ==> r.spec_split_vertically(p).0.height == r.height
            && r.spec_split_vertically(p).1.height == 0,
{
}

/// Splitting a region keeps both parts inside any grid that holds the region.
pub proof fn lemma_split_stays_within(r: Region, p: int, w: int, h: int)
    requires
        r.wf(),
        r.within(w, h),
        0 <= p,
    ensures
        r.spec_split_horizontally(p).0.within(w, h),
        r.spec_split_horizontally(p).1.within(w, h),
        r.spec_split_vertically(p).0.within(w, h),
        r.spec_split_vertically(p).1.within(w, h),
{
}

/// Splitting at half the extent, rounded down, gives a first part
/// `floor(n / 2)` and a second part `n - floor(n / 2)` long, for width and
/// height alike.
pub proof fn lemma_split_in_halves(r: Region)
    requires
        r.wf(),
    ensures
        r.spec_split_horizontally(r.width as int / 2).0.width == r.width as int / 2,
        r.spec_split_horizontally(r.width as int / 2).1.width == r.width - r.width as int / 2,
        r.spec_split_vertically(r.height as int / 2).0.height == r.height as int / 2,
        r.spec_split_vertically(r.height as int / 2).1.height == r.height - r.height as int / 2,
{
}

} // verus!
