//! The mathematical model of a grayscale image, over which the contracts of
//! this crate are stated.

use vstd::prelude::*;

verus! {

/// The mathematical model of a grayscale image: its dimensions and one
/// sample for every coordinate pair inside them.
#[verifier::ext_equal]
pub struct Raster {
    pub width: nat,
    pub height: nat,
    pub pixels: Map<(int, int), u8>,
}

impl Raster {
    /// Whether `(x, y)` lies inside the grid.
    pub open spec fn contains(self, x: int, y: int) -> bool {
        0 <= x < self.width && 0 <= y < self.height
    }

    /// A raster is well formed when it holds a sample exactly for the
    /// coordinates inside its dimensions.
    pub open spec fn wf(self) -> bool {
        forall|x: int, y: int| self.pixels.dom().contains((x, y)) <==> self.contains(x, y)
    }

    /// The sample at column `x` of row `y`.
    pub open spec fn at(self, x: int, y: int) -> u8 {
        self.pixels[(x, y)]
    }

    /// The raster of the given dimensions whose sample at `(x, y)` is `f(x, y)`.
    pub open spec fn from_fn(width: nat, height: nat, f: spec_fn(int, int) -> u8) -> Raster {
        Raster {
            width,
            height,
            pixels: Map::new(
                |p: (int, int)| 0 <= p.0 < width && 0 <= p.1 < height,
                |p: (int, int)| f(p.0, p.1),
            ),
        }
    }

    /// The all-zero raster of the given dimensions.
    pub open spec fn blank(width: nat, height: nat) -> Raster {
        Raster::from_fn(width, height, |x: int, y: int| 0u8)
    }

    /// This raster with the sample at `(x, y)` replaced by `v`.
    pub open spec fn put(self, x: int, y: int, v: u8) -> Raster {
        Raster { width: self.width, height: self.height, pixels: self.pixels.insert((x, y), v) }
    }

    /// Whether every sample equals `c`.
    pub open spec fn is_uniform(self, c: u8) -> bool {
        forall|x: int, y: int| self.contains(x, y) ==> self.at(x, y) == c
    }

    /// Row `y` as a sequence of samples, left to right.
    pub open spec fn row(self, y: int) -> Seq<u8> {
        Seq::new(self.width, |x: int| self.at(x, y))
    }

    /// Column `x` as a sequence of samples, top to bottom.
    pub open spec fn column(self, x: int) -> Seq<u8> {
        Seq::new(self.height, |y: int| self.at(x, y))
    }
}

/// Replacing a sample inside a well-formed raster keeps it well formed,
/// sets that sample and changes no other.
pub proof fn lemma_put(r: Raster, x: int, y: int, v: u8)
    requires
        r.wf(),
        r.contains(x, y),
    ensures
        r.put(x, y, v).wf(),
        r.put(x, y, v).at(x, y) == v,
        forall|a: int, b: int| a != x || b != y ==> #[trigger] r.put(x, y, v).at(a, b) == r.at(a, b),
{
    let after = r.put(x, y, v);
    assert forall|a: int, b: int| after.pixels.dom().contains((a, b)) <==> after.contains(
        a,
        b,
    ) by {
        assert(r.pixels.dom().contains((a, b)) <==> r.contains(a, b));
        assert((a, b) == (x, y) <==> a == x && b == y);
    }
}

/// Two well-formed rasters of the same dimensions that agree on every
/// sample are the same raster.
pub proof fn lemma_raster_equal(a: Raster, b: Raster)
    requires
        a.wf(),
        b.wf(),
        a.width == b.width,
        a.height == b.height,
        forall|x: int, y: int| a.contains(x, y) ==> a.at(x, y) == b.at(x, y),
    ensures
        a == b,
{
    assert forall|p: (int, int)| a.pixels.dom().contains(p) <==> b.pixels.dom().contains(p) by {
        assert(a.pixels.dom().contains((p.0, p.1)) <==> a.contains(p.0, p.1));
        assert(b.pixels.dom().contains((p.0, p.1)) <==> b.contains(p.0, p.1));
    }
    assert forall|p: (int, int)| a.pixels.dom().contains(p) implies a.pixels[p] == b.pixels[p] by {
        assert(a.pixels.dom().contains((p.0, p.1)) <==> a.contains(p.0, p.1));
        assert(a.at(p.0, p.1) == b.at(p.0, p.1));
    }
    assert(a.pixels =~= b.pixels);
}

/// A raster made from a function is well formed and holds the function's
/// value at every coordinate pair inside it.
pub proof fn lemma_from_fn(width: nat, height: nat, f: spec_fn(int, int) -> u8)
    ensures
        Raster::from_fn(width, height, f).wf(),
        Raster::from_fn(width, height, f).width == width,
        Raster::from_fn(width, height, f).height == height,
        forall|x: int, y: int|
            0 <= x < width && 0 <= y < height ==> #[trigger] Raster::from_fn(width, height, f).at(
                x,
                y,
            ) == f(x, y),
{
}

} // verus!
