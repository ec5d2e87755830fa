//! Whether an image point lies above the robot's own limbs as they appear in
//! the image. Image y grows downwards, so "above" means a smaller y.
//!
//! Positions are in fixed-point units (see `image::PIXEL`).
use vstd::prelude::*;

verus! {

#[derive(Clone, Copy, Debug, PartialEq, Eq, Structural)]
pub struct PixelPosition {
    pub x: i32,
    pub y: i32,
}

/// The outline of one limb in the image, as a polyline ordered by x.
#[derive(Clone, Debug)]
pub struct Limb {
    pub pixel_polygon: Vec<PixelPosition>,
}

/// The first edge of the polyline, from point `i` to point `i + 1`, whose
/// horizontal extent holds `x`, searching from edge `from` on.
pub open spec fn spanning_edge_from(polygon: Seq<PixelPosition>, x: i32, from: int) -> Option<int>
    decreases polygon.len() - from,
{
    if from < 0 || from + 1 >= polygon.len() {
        None
    } else if polygon[from].x <= x <= polygon[from + 1].x {
        Some(from)
    } else {
        spanning_edge_from(polygon, x, from + 1)
    }
}

/// `point` lies strictly above the edge from `a` to `b`: above its
/// higher end for a vertical edge, else above the line through both ends.
pub open spec fn above_edge(a: PixelPosition, b: PixelPosition, point: PixelPosition) -> bool {
    if a.x == b.x {
        point.y < a.y && point.y < b.y
    } else {
        (point.y - a.y) * (b.x - a.x) < (point.x - a.x) * (b.y - a.y)
    }
}

/// The limb leaves the point free: the point is above the first edge that
/// spans it horizontally, or no edge does.
pub open spec fn clear_of_limb(limb: Seq<PixelPosition>, point: PixelPosition) -> bool {
    match spanning_edge_from(limb, point.x, 0) {
        Some(i) => above_edge(limb[i], limb[i + 1], point),
        None => true,
    }
}

fn is_above_edge(a: PixelPosition, b: PixelPosition, point: PixelPosition) -> (r: bool)
    ensures
        r == above_edge(a, b, point),
{
    if a.x == b.x {
        point.y < a.y && point.y < b.y
    } else {
        let dy = point.y as i64 - a.y as i64;
        let dx = b.x as i64 - a.x as i64;
        let px = point.x as i64 - a.x as i64;
        let by = b.y as i64 - a.y as i64;
        proof {
            lemma_product_fits(dy, dx);
            lemma_product_fits(px, by);
        }
        (dy as i128) * (dx as i128) < (px as i128) * (by as i128)
    }
}

proof fn lemma_product_fits(a: i64, b: i64)
    requires
        -0x1_0000_0000 <= a <= 0x1_0000_0000,
        -0x1_0000_0000 <= b <= 0x1_0000_0000,
    ensures
        -0x1_0000_0000_0000_0000 <= a * b <= 0x1_0000_0000_0000_0000,
{
    assert(-0x1_0000_0000_0000_0000 <= a * b <= 0x1_0000_0000_0000_0000) by (nonlinear_arith)
        requires
            -0x1_0000_0000 <= a <= 0x1_0000_0000,
            -0x1_0000_0000 <= b <= 0x1_0000_0000,
    ;
}

/// Whether `pixel_position` is clear of the limb.
pub fn is_clear_of_limb(limb: &Limb, pixel_position: PixelPosition) -> (r: bool)
    ensures
        r == clear_of_limb(limb.pixel_polygon@, pixel_position),
{
    let polygon = &limb.pixel_polygon;
    let mut i: usize = 0;
    while polygon.len() > 0 && i < polygon.len() - 1
        invariant
            polygon.len() == 0 || i <= polygon.len() - 1,
            polygon@ == limb.pixel_polygon@,
            spanning_edge_from(polygon@, pixel_position.x, 0) == spanning_edge_from(
                polygon@,
                pixel_position.x,
                i as int,
            ),
        decreases polygon.len() - i,
    {
        if polygon[i].x <= pixel_position.x && pixel_position.x <= polygon[i + 1].x {
            let above = is_above_edge(polygon[i], polygon[i + 1], pixel_position);
            return above;
        }
        i += 1;
    }
    true
}

/// Whether `pixel_position` lies above every limb.
pub fn is_above_limbs(pixel_position: PixelPosition, projected_limbs: &[Limb]) -> (r: bool)
    ensures
        r == forall|k: int|
            0 <= k < projected_limbs@.len() ==> #[trigger] clear_of_limb(
                projected_limbs@[k].pixel_polygon@,
                pixel_position,
            ),
{
    let mut k: usize = 0;
    while k < projected_limbs.len()
        invariant
            k <= projected_limbs.len(),
            forall|j: int|
                0 <= j < k ==> #[trigger] clear_of_limb(projected_limbs@[j].pixel_polygon@, pixel_position),
        decreases projected_limbs.len() - k,
    {
        if !is_clear_of_limb(&projected_limbs[k], pixel_position) {
            return false;
        }
        k += 1;
    }
    true
}

/// The outlines of all limbs in one image.
#[derive(Clone, Debug)]
pub struct ProjectedLimbs {
    pub limbs: Vec<Limb>,
}

} // verus!
