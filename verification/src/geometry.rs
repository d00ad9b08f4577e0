//! Axis-aligned bounding boxes: intersection testing and penetration depth.
//!
//! A box is described by its center position and its full width and height.
//! Its extent on an axis is `[center - size / 2, center + size / 2]`, and two
//! boxes collide only when they overlap with strict inequality on both axes:
//! boxes that merely share an edge do not count as colliding.

use vstd::prelude::*;

verus! {

/// Largest coordinate or size magnitude of placed level content (arena
/// bounds, walls, collectibles). Keeping content inside this bound lets all
/// box arithmetic stay far from `i64` overflow.
pub const COORD_LIMIT: i64 = 1_000_000_000_000;

/// Largest coordinate magnitude of a movable box center. Depth-corrected
/// sliding pins a moved center to the edge of a placed box, so a movable
/// center never drifts more than one extent past placed content; the looser
/// bound is closed under that correction.
pub const DRIFT_LIMIT: i64 = 2_000_000_000_000;

/// A coordinate of placed level content.
pub open spec fn coord_ok(c: int) -> bool {
    -COORD_LIMIT <= c <= COORD_LIMIT
}

/// A coordinate usable as a box center on either axis, movable boxes
/// included.
pub open spec fn center_ok(c: int) -> bool {
    -DRIFT_LIMIT <= c <= DRIFT_LIMIT
}

/// A usable box width or height: non-negative and bounded.
pub open spec fn extent_ok(s: int) -> bool {
    0 <= s <= COORD_LIMIT
}

/// A 2D value: a position (x, y) or a size (width, height), in integer world
/// units.
#[derive(Clone, Copy, PartialEq, Eq, Structural, Debug)]
pub struct Vec2 {
    pub x: i64,
    pub y: i64,
}

impl Vec2 {
    /// Both components are usable center coordinates (movable boxes
    /// included).
    pub open spec fn pos_ok(self) -> bool {
        center_ok(self.x as int) && center_ok(self.y as int)
    }

    /// Both components are coordinates of placed level content.
    pub open spec fn placed_ok(self) -> bool {
        coord_ok(self.x as int) && coord_ok(self.y as int)
    }

    /// Both components are usable box extents.
    pub open spec fn size_ok(self) -> bool {
        extent_ok(self.x as int) && extent_ok(self.y as int)
    }
}

/// Lower edge of a box's extent on one axis.
pub open spec fn span_lo(center: int, size: int) -> int {
    center - size / 2
}

/// Upper edge of a box's extent on one axis.
pub open spec fn span_hi(center: int, size: int) -> int {
    center + size / 2
}

/// Strict overlap of the two extents on one axis.
pub open spec fn axis_overlaps(a_c: int, a_s: int, b_c: int, b_s: int) -> bool {
    span_lo(a_c, a_s) < span_hi(b_c, b_s) && span_hi(a_c, a_s) > span_lo(b_c, b_s)
}

/// Box A (center `(ax, ay)`, size `a_size`) overlaps box B on both axes
/// (strictly: touching edges do not count).
pub open spec fn overlaps_at(ax: int, ay: int, a_size: Vec2, b_pos: Vec2, b_size: Vec2) -> bool {
    axis_overlaps(ax, a_size.x as int, b_pos.x as int, b_size.x as int) && axis_overlaps(
        ay,
        a_size.y as int,
        b_pos.y as int,
        b_size.y as int,
    )
}

/// The two boxes overlap on both axes (strictly: touching edges do not
/// count).
pub open spec fn overlaps(a_pos: Vec2, a_size: Vec2, b_pos: Vec2, b_size: Vec2) -> bool {
    overlaps_at(a_pos.x as int, a_pos.y as int, a_size, b_pos, b_size)
}

/// Box A sticks through one side of box B on this axis: A's extent crosses
/// exactly one edge of B's extent. When A's extent is confined inside B's (or
/// swallows it), neither side qualifies.
pub open spec fn axis_hit(a_c: int, a_s: int, b_c: int, b_s: int) -> bool {
    let a_lo = span_lo(a_c, a_s);
    let a_hi = span_hi(a_c, a_s);
    let b_lo = span_lo(b_c, b_s);
    let b_hi = span_hi(b_c, b_s);
    (a_lo < b_lo && a_hi > b_lo && a_hi < b_hi) || (a_lo > b_lo && a_lo < b_hi && a_hi > b_hi)
}

/// Signed penetration depth on this axis: how far A's crossing edge protrudes
/// past the edge of B it crossed. Zero when neither side qualifies.
pub open spec fn axis_depth(a_c: int, a_s: int, b_c: int, b_s: int) -> int {
    let a_lo = span_lo(a_c, a_s);
    let a_hi = span_hi(a_c, a_s);
    let b_lo = span_lo(b_c, b_s);
    let b_hi = span_hi(b_c, b_s);
    if a_lo < b_lo && a_hi > b_lo && a_hi < b_hi {
        a_hi - b_lo
    } else if a_lo > b_lo && a_lo < b_hi && a_hi > b_hi {
        a_lo - b_hi
    } else {
        0
    }
}

/// Box A at `(ax, ay)` overlaps box B and crosses a side of B on at least
/// one axis, so a nonzero penetration depth exists to push back from. This
/// is the hypothesis under which the depth correction separates the boxes
/// (see `lemma_depth_correction_separates_at`); for a box confined inside
/// the other on both axes the depths are zero and the correction moves
/// nothing.
pub open spec fn collides_at(ax: int, ay: int, a_size: Vec2, b_pos: Vec2, b_size: Vec2) -> bool {
    overlaps_at(ax, ay, a_size, b_pos, b_size) && (axis_hit(
        ax,
        a_size.x as int,
        b_pos.x as int,
        b_size.x as int,
    ) || axis_hit(ay, a_size.y as int, b_pos.y as int, b_size.y as int))
}

/// The two boxes overlap through a crossed side (see `collides_at`).
pub open spec fn collides(a_pos: Vec2, a_size: Vec2, b_pos: Vec2, b_size: Vec2) -> bool {
    collides_at(a_pos.x as int, a_pos.y as int, a_size, b_pos, b_size)
}

/// Signed per-axis penetration depths of box A into box B. When A crosses a
/// side of B, subtracting each depth from A's center separates the boxes
/// (see `lemma_depth_correction_separates`); when A's extent is confined
/// inside B's (or swallows it) on an axis, that axis's depth is zero.
#[derive(Clone, Copy, PartialEq, Eq, Structural, Debug)]
pub struct Collision {
    pub x_depth: i64,
    pub y_depth: i64,
}

/// Reports whether two boxes overlap, strictly on both axes.
pub fn intersects(a_pos: Vec2, a_size: Vec2, b_pos: Vec2, b_size: Vec2) -> (r: bool)
    requires
        a_pos.pos_ok(),
        a_size.size_ok(),
        b_pos.pos_ok(),
        b_size.size_ok(),
    ensures
        r == overlaps(a_pos, a_size, b_pos, b_size),
{
    let a_min_x = a_pos.x - a_size.x / 2;
    let a_max_x = a_pos.x + a_size.x / 2;
    let a_min_y = a_pos.y - a_size.y / 2;
    let a_max_y = a_pos.y + a_size.y / 2;
    let b_min_x = b_pos.x - b_size.x / 2;
    let b_max_x = b_pos.x + b_size.x / 2;
    let b_min_y = b_pos.y - b_size.y / 2;
    let b_max_y = b_pos.y + b_size.y / 2;
    a_min_x < b_max_x && a_max_x > b_min_x && a_min_y < b_max_y && a_max_y > b_min_y
}

/// Tests two boxes for collision and computes the per-axis penetration
/// depths. Returns `Some` exactly when the boxes strictly overlap, `None`
/// when they do not; an axis on which A's extent crosses no side of B's --
/// confined inside it, swallowing it, or edge-aligned -- contributes a depth
/// of zero.
pub fn collide(a_pos: Vec2, a_size: Vec2, b_pos: Vec2, b_size: Vec2) -> (r: Option<Collision>)
    requires
        a_pos.pos_ok(),
        a_size.size_ok(),
        b_pos.pos_ok(),
        b_size.size_ok(),
    ensures
        r is Some <==> overlaps(a_pos, a_size, b_pos, b_size),
        r matches Some(c) ==> c.x_depth == axis_depth(
            a_pos.x as int,
            a_size.x as int,
            b_pos.x as int,
            b_size.x as int,
        ) && c.y_depth == axis_depth(
            a_pos.y as int,
            a_size.y as int,
            b_pos.y as int,
            b_size.y as int,
        ),
{
    let a_min_x = a_pos.x - a_size.x / 2;
    let a_max_x = a_pos.x + a_size.x / 2;
    let a_min_y = a_pos.y - a_size.y / 2;
    let a_max_y = a_pos.y + a_size.y / 2;
    let b_min_x = b_pos.x - b_size.x / 2;
    let b_max_x = b_pos.x + b_size.x / 2;
    let b_min_y = b_pos.y - b_size.y / 2;
    let b_max_y = b_pos.y + b_size.y / 2;

    if a_min_x < b_max_x && a_max_x > b_min_x && a_min_y < b_max_y && a_max_y > b_min_y {
        let x_depth: i64 = if a_min_x < b_min_x && a_max_x > b_min_x && a_max_x < b_max_x {
            a_max_x - b_min_x
        } else if a_min_x > b_min_x && a_min_x < b_max_x && a_max_x > b_max_x {
            a_min_x - b_max_x
        } else {
            0
        };

        let y_depth: i64 = if a_min_y < b_min_y && a_max_y > b_min_y && a_max_y < b_max_y {
            a_max_y - b_min_y
        } else if a_min_y > b_min_y && a_min_y < b_max_y && a_max_y > b_max_y {
            a_min_y - b_max_y
        } else {
            0
        };

        Some(Collision { x_depth, y_depth })
    } else {
        None
    }
}

/// Intersection is symmetric: swapping the two boxes never changes the
/// answer.
pub proof fn lemma_intersects_symmetric(a_pos: Vec2, a_size: Vec2, b_pos: Vec2, b_size: Vec2)
    ensures
        overlaps(a_pos, a_size, b_pos, b_size) == overlaps(b_pos, b_size, a_pos, a_size),
{
}

/// Boxes that share only an edge on some axis do not overlap.
pub proof fn lemma_touching_edge_not_overlapping(
    a_pos: Vec2,
    a_size: Vec2,
    b_pos: Vec2,
    b_size: Vec2,
)
    requires
        span_hi(a_pos.x as int, a_size.x as int) == span_lo(b_pos.x as int, b_size.x as int)
            || span_hi(b_pos.x as int, b_size.x as int) == span_lo(a_pos.x as int, a_size.x as int)
            || span_hi(a_pos.y as int, a_size.y as int) == span_lo(b_pos.y as int, b_size.y as int)
            || span_hi(b_pos.y as int, b_size.y as int) == span_lo(a_pos.y as int, a_size.y as int),
    ensures
        !overlaps(a_pos, a_size, b_pos, b_size),
{
}

/// Depth-corrected sliding separates the boxes: when box A at `(ax, ay)`
/// collides with box B through a crossed side and both penetration depths are
/// subtracted from A's center, the moved box no longer overlaps B.
pub proof fn lemma_depth_correction_separates_at(
    ax: int,
    ay: int,
    a_size: Vec2,
    b_pos: Vec2,
    b_size: Vec2,
    mx: int,
    my: int,
)
    requires
        collides_at(ax, ay, a_size, b_pos, b_size),
        mx == ax - axis_depth(ax, a_size.x as int, b_pos.x as int, b_size.x as int),
        my == ay - axis_depth(ay, a_size.y as int, b_pos.y as int, b_size.y as int),
    ensures
        !overlaps_at(mx, my, a_size, b_pos, b_size),
{
}

/// Depth-corrected sliding separates the boxes, stated over box values: when
/// a collision with a crossed side is found and the penetration depths are
/// subtracted from A's center, the moved box no longer overlaps B.
pub proof fn lemma_depth_correction_separates(
    a_pos: Vec2,
    a_size: Vec2,
    b_pos: Vec2,
    b_size: Vec2,
    moved: Vec2,
)
    requires
        collides(a_pos, a_size, b_pos, b_size),
        moved.x == a_pos.x - axis_depth(
            a_pos.x as int,
            a_size.x as int,
            b_pos.x as int,
            b_size.x as int,
        ),
        moved.y == a_pos.y - axis_depth(
            a_pos.y as int,
            a_size.y as int,
            b_pos.y as int,
            b_size.y as int,
        ),
    ensures
        !overlaps(moved, a_size, b_pos, b_size),
{
    lemma_depth_correction_separates_at(
        a_pos.x as int,
        a_pos.y as int,
        a_size,
        b_pos,
        b_size,
        moved.x as int,
        moved.y as int,
    );
}

/// A corrected center stays inside the movable-center bound: the penetration
/// depth pins the moved coordinate to an edge of the placed box, so it lands
/// within one half-extent of placed content; where the depth is zero the
/// coordinate does not move.
pub proof fn lemma_corrected_center_bounded(ax: int, a_s: int, b_c: int, b_s: int, mx: int)
    requires
        center_ok(ax),
        extent_ok(a_s),
        coord_ok(b_c),
        extent_ok(b_s),
        mx == ax - axis_depth(ax, a_s, b_c, b_s),
    ensures
        center_ok(mx),
{
}

} // verus!
