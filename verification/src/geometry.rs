//! Plane geometry in whole world units: vectors, poses and boxes.

use vstd::prelude::*;

verus! {

/// A point, displacement or extent of the plane, in whole world units.
#[derive(Clone, Copy, Debug, PartialEq, Eq, Structural)]
pub struct Vector2 {
    pub x: i32,
    pub y: i32,
}

impl Vector2 {
    pub fn new(x: i32, y: i32) -> (v: Self)
        ensures
            v == (Vector2 { x, y }),
    {
        Vector2 { x, y }
    }
}

/// A pose: where a shape's centre lies and how far it is turned.
///
/// The turn is carried with the pose and handed on unchanged. Boxes are
/// tested for overlap along the world axes, whatever their turn.
#[derive(Clone, Copy, Debug, PartialEq, Eq, Structural)]
pub struct Isometry {
    pub translation: Vector2,
    pub rotation: i32,
}

impl Isometry {
    pub fn new(translation: Vector2, rotation: i32) -> (iso: Self)
        ensures
            iso == (Isometry { translation, rotation }),
    {
        Isometry { translation, rotation }
    }
}

/// Two spans of a line, each given by its centre and its half length,
/// share a stretch of positive length. A span whose half length is not
/// positive covers nothing.
pub open spec fn spans_overlap(c1: int, h1: int, c2: int, h2: int) -> bool {
    &&& h1 > 0
    &&& h2 > 0
    &&& c1 - h1 < c2 + h2
    &&& c2 - h2 < c1 + h1
}

/// A box centred on its pose, reaching `half_extents` to each side.
#[derive(Clone, Copy, Debug, PartialEq, Eq, Structural)]
pub struct Cuboid {
    pub half_extents: Vector2,
}

impl Cuboid {
    pub fn new(half_extents: Vector2) -> (c: Self)
        ensures
            c == (Cuboid { half_extents }),
    {
        Cuboid { half_extents }
    }

    /// The box at `at` and the box `other` at `other_at` share an area of
    /// positive size. Boxes that only touch along an edge or at a corner do
    /// not overlap.
    pub open spec fn overlaps(self, at: Vector2, other: Cuboid, other_at: Vector2) -> bool {
        &&& spans_overlap(
            at.x as int,
            self.half_extents.x as int,
            other_at.x as int,
            other.half_extents.x as int,
        )
        &&& spans_overlap(
            at.y as int,
            self.half_extents.y as int,
            other_at.y as int,
            other.half_extents.y as int,
        )
    }

    pub fn intersects(&self, at: Vector2, other: &Cuboid, other_at: Vector2) -> (hit: bool)
        ensures
            hit == self.overlaps(at, *other, other_at),
    {
        span_test(at.x, self.half_extents.x, other_at.x, other.half_extents.x) && span_test(
            at.y,
            self.half_extents.y,
            other_at.y,
            other.half_extents.y,
        )
    }
}

fn span_test(c1: i32, h1: i32, c2: i32, h2: i32) -> (hit: bool)
    ensures
        hit == spans_overlap(c1 as int, h1 as int, c2 as int, h2 as int),
{
    let c1w: i64 = c1 as i64;
    let h1w: i64 = h1 as i64;
    let c2w: i64 = c2 as i64;
    let h2w: i64 = h2 as i64;
    h1 > 0 && h2 > 0 && c1w - h1w < c2w + h2w && c2w - h2w < c1w + h1w
}

/// Overlap does not depend on which box is named first.
pub proof fn lemma_overlap_symmetric(a: Cuboid, at_a: Vector2, b: Cuboid, at_b: Vector2)
    ensures
        a.overlaps(at_a, b, at_b) == b.overlaps(at_b, a, at_a),
{
}

} // verus!
