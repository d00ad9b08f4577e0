//! Collision-free procedural level generation.
//!
//! Two strategies: rejection sampling over the whole playable band (draw a
//! random position, discard it on any overlap with what was already accepted
//! or with a protected zone, give up on an object after a capped number of
//! attempts), and lattice sampling (one Bernoulli trial per grid cell, where
//! the cell spacing alone guarantees separation). Both produce a set of
//! collidable objects no two of which overlap.

use vstd::prelude::*;

use crate::geometry::Vec2;
use crate::geometry::extent_ok;
use crate::geometry::intersects;
use crate::geometry::overlaps;
use crate::geometry::overlaps_at;
use crate::geometry::lemma_intersects_symmetric;
use crate::interaction::CollidableObject;
use crate::interaction::Collider;
use crate::movement::Arena;

verus! {

/// Largest Bernoulli denominator the generator accepts.
pub const ODDS_LIMIT: i64 = 1_000_000;

/// Relies on rand::random_range over `lo..hi`: a value drawn from the
/// half-open range by the thread-local generator. The call panics on an
/// empty range, which the precondition excludes; beyond that it can only
/// abort if the operating system fails to supply entropy when the
/// thread-local generator is first seeded, an environmental failure on a par
/// with running out of memory.
#[verifier::external_body]
fn sample_range(lo: i64, hi: i64) -> (r: i64)
    requires
        lo < hi,
    ensures
        lo <= r < hi,
{
    rand::random_range(lo..hi)
}

/// One object the generator should try to place: its box size and role.
#[derive(Clone, Copy, PartialEq, Eq, Structural, Debug)]
pub struct PlacementRequest {
    pub size: Vec2,
    pub kind: Collider,
}

/// The accepted objects take their sizes and roles from a subsequence of the
/// requests, in order: each request yields at most one object, and a skipped
/// request leaves no trace.
pub open spec fn matches_requests(
    placed: Seq<CollidableObject>,
    requests: Seq<PlacementRequest>,
) -> bool
    decreases requests.len(),
{
    if placed.len() == 0 {
        true
    } else if requests.len() == 0 {
        false
    } else if placed.last().size == requests.last().size && placed.last().kind
        == requests.last().kind {
        matches_requests(placed.drop_last(), requests.drop_last()) || matches_requests(
            placed,
            requests.drop_last(),
        )
    } else {
        matches_requests(placed, requests.drop_last())
    }
}

/// The center of an interior cell of the generator's lattice: on the column
/// lattice that starts three cells in from the left bound (leaving the wall
/// and a clear travel lane), within three cells of the right bound, and on
/// the row lattice that starts one cell up from the bottom bound and stops a
/// cell short of the top.
pub open spec fn lattice_cell(arena: Arena, cell: int, cx: int, cy: int) -> bool {
    &&& arena.x_min + 3 * cell <= cx
    &&& cx + 3 * cell <= arena.x_max
    &&& (cx - (arena.x_min + 3 * cell)) % cell == 0
    &&& arena.y_min + cell <= cy < arena.y_max - cell
    &&& (cy - (arena.y_min + cell)) % cell == 0
}

/// Every interior lattice cell holds a placed object centered on it.
pub open spec fn covers_lattice(placed: Seq<CollidableObject>, arena: Arena, cell: int) -> bool {
    forall|cx: int, cy: int|
        #[trigger] lattice_cell(arena, cell, cx, cy) ==> exists|k: int|
            0 <= k < placed.len() && (#[trigger] placed[k]).position.x == cx
                && placed[k].position.y == cy
}

/// Every interior lattice cell before the sweep point -- in an earlier
/// column, or in the current column `x_lim` below row `y_lim` -- holds a
/// placed object centered on it.
pub open spec fn covers_lattice_below(
    placed: Seq<CollidableObject>,
    arena: Arena,
    cell: int,
    x_lim: int,
    y_lim: int,
) -> bool {
    forall|cx: int, cy: int|
        #[trigger] lattice_cell(arena, cell, cx, cy) && (cx < x_lim || (cx == x_lim && cy < y_lim))
            ==> exists|k: int|
            0 <= k < placed.len() && (#[trigger] placed[k]).position.x == cx
                && placed[k].position.y == cy
}

/// Two points of one `cell`-spaced lattice that lie within a cell of each
/// other coincide.
proof fn lemma_lattice_point_unique(base: int, a: int, b: int, cell: int)
    requires
        0 < cell,
        (a - base) % cell == 0,
        (b - base) % cell == 0,
        b <= a < b + cell,
    ensures
        a == b,
{
    let d = a - b;
    assert(d % cell == 0) by {
        vstd::arithmetic::div_mod::lemma_sub_mod_noop(a - base, b - base, cell);
        vstd::arithmetic::div_mod::lemma_small_mod(0nat, cell as nat);
    }
    assert(d % cell == d) by {
        vstd::arithmetic::div_mod::lemma_small_mod(d as nat, cell as nat);
    }
}

/// A box centered at `(px, py)` overlaps neither any already placed object
/// nor the protected zone.
pub open spec fn placement_free_at(
    px: int,
    py: int,
    size: Vec2,
    placed: Seq<CollidableObject>,
    zone_pos: Vec2,
    zone_size: Vec2,
) -> bool {
    &&& forall|k: int|
        0 <= k < placed.len() ==> !(#[trigger] overlaps_at(
            px,
            py,
            size,
            placed[k].position,
            placed[k].size,
        ))
    &&& !overlaps_at(px, py, size, zone_pos, zone_size)
}

/// A box at `pos` overlaps neither any already placed object nor the
/// protected zone.
pub open spec fn placement_free(
    pos: Vec2,
    size: Vec2,
    placed: Seq<CollidableObject>,
    zone_pos: Vec2,
    zone_size: Vec2,
) -> bool {
    placement_free_at(pos.x as int, pos.y as int, size, placed, zone_pos, zone_size)
}

/// Lower edge (inclusive) of the x coordinates the spot search draws from: a
/// box of this size keeps half a buffer of box extent plus wall thickness to
/// the arena's bound, strictly.
pub open spec fn band_lo_x(arena: Arena, size: Vec2) -> int {
    arena.x_min + (size.x + arena.wall) / 2 + 1
}

/// Upper edge (exclusive) of the x coordinates the spot search draws from.
pub open spec fn band_hi_x(arena: Arena, size: Vec2) -> int {
    arena.x_max - (size.x + arena.wall) / 2
}

/// Lower edge (inclusive) of the y coordinates the spot search draws from.
pub open spec fn band_lo_y(arena: Arena, size: Vec2) -> int {
    arena.y_min + (size.y + arena.wall) / 2 + 1
}

/// Upper edge (exclusive) of the y coordinates the spot search draws from.
pub open spec fn band_hi_y(arena: Arena, size: Vec2) -> int {
    arena.y_max - (size.y + arena.wall) / 2
}

/// The sampling band for this box size holds at least one position on each
/// axis.
pub open spec fn band_nonempty(arena: Arena, size: Vec2) -> bool {
    band_lo_x(arena, size) < band_hi_x(arena, size) && band_lo_y(arena, size) < band_hi_y(
        arena,
        size,
    )
}

/// Every position of the sampling band is free of the placed objects and of
/// the protected zone: whatever the draw, a candidate there is accepted.
pub open spec fn band_all_free(
    arena: Arena,
    size: Vec2,
    placed: Seq<CollidableObject>,
    zone_pos: Vec2,
    zone_size: Vec2,
) -> bool {
    forall|px: int, py: int|
        band_lo_x(arena, size) <= px < band_hi_x(arena, size) && band_lo_y(arena, size) <= py
            < band_hi_y(arena, size) ==> #[trigger] placement_free_at(
            px,
            py,
            size,
            placed,
            zone_pos,
            zone_size,
        )
}

/// Tests a candidate box against every placed object and the protected zone.
fn spot_is_free(
    pos: Vec2,
    size: Vec2,
    placed: &Vec<CollidableObject>,
    zone_pos: Vec2,
    zone_size: Vec2,
) -> (r: bool)
    requires
        pos.pos_ok(),
        size.size_ok(),
        forall|k: int| 0 <= k < placed@.len() ==> (#[trigger] placed@[k]).wf(),
        zone_pos.pos_ok(),
        zone_size.size_ok(),
    ensures
        r == placement_free(pos, size, placed@, zone_pos, zone_size),
{
    let n = placed.len();
    let mut i: usize = 0;
    while i < n
        invariant
            0 <= i <= n,
            n == placed@.len(),
            pos.pos_ok(),
            size.size_ok(),
            forall|k: int| 0 <= k < placed@.len() ==> (#[trigger] placed@[k]).wf(),
            forall|j: int|
                0 <= j < i ==> !(#[trigger] overlaps_at(
                    pos.x as int,
                    pos.y as int,
                    size,
                    placed@[j].position,
                    placed@[j].size,
                )),
        decreases n - i,
    {
        let o = &placed[i];
        if intersects(pos, size, o.position, o.size) {
            return false;
        }
        i = i + 1;
    }
    !intersects(pos, size, zone_pos, zone_size)
}

/// Draws random positions for a box of the given size until one is free of
/// every placed object and of the protected zone, giving up after `attempts`
/// draws. Candidates are drawn strictly inside the playable band (half a
/// buffer of box extent plus wall thickness to each arena bound); when the
/// band is empty for this size no draw is attempted and the object is
/// skipped outright. A returned position is free; `None` means the object is
/// skipped, which keeps generation terminating. When the whole band is free
/// -- nothing placed near it and the zone clear of it -- the very first draw
/// is accepted, so with at least one attempt the search must succeed.
pub fn find_free_spot(
    arena: &Arena,
    size: Vec2,
    placed: &Vec<CollidableObject>,
    zone_pos: Vec2,
    zone_size: Vec2,
    attempts: u32,
) -> (r: Option<Vec2>)
    requires
        arena.wf(),
        size.size_ok(),
        forall|k: int| 0 <= k < placed@.len() ==> (#[trigger] placed@[k]).wf(),
        zone_pos.pos_ok(),
        zone_size.size_ok(),
    ensures
        r matches Some(p) ==> p.placed_ok() && placement_free(p, size, placed@, zone_pos, zone_size)
            && band_lo_x(*arena, size) <= p.x < band_hi_x(*arena, size) && band_lo_y(*arena, size)
            <= p.y < band_hi_y(*arena, size),
        !band_nonempty(*arena, size) ==> r is None,
        attempts >= 1 && band_nonempty(*arena, size) && band_all_free(
            *arena,
            size,
            placed@,
            zone_pos,
            zone_size,
        ) ==> r is Some,
{
    let buffer_x = size.x + arena.wall;
    let buffer_y = size.y + arena.wall;
    let lo_x = arena.x_min + buffer_x / 2 + 1;
    let hi_x = arena.x_max - buffer_x / 2;
    let lo_y = arena.y_min + buffer_y / 2 + 1;
    let hi_y = arena.y_max - buffer_y / 2;
    if lo_x >= hi_x || lo_y >= hi_y {
        return None;
    }
    let mut a: u32 = 0;
    while a < attempts
        invariant
            lo_x < hi_x,
            lo_y < hi_y,
            lo_x == band_lo_x(*arena, size),
            hi_x == band_hi_x(*arena, size),
            lo_y == band_lo_y(*arena, size),
            hi_y == band_hi_y(*arena, size),
            arena.wf(),
            size.size_ok(),
            forall|k: int| 0 <= k < placed@.len() ==> (#[trigger] placed@[k]).wf(),
            zone_pos.pos_ok(),
            zone_size.size_ok(),
            lo_x >= arena.x_min,
            hi_x <= arena.x_max,
            lo_y >= arena.y_min,
            hi_y <= arena.y_max,
            band_all_free(*arena, size, placed@, zone_pos, zone_size) ==> a == 0,
        decreases attempts - a,
    {
        let x = sample_range(lo_x, hi_x);
        let y = sample_range(lo_y, hi_y);
        let p = Vec2 { x, y };
        if spot_is_free(p, size, placed, zone_pos, zone_size) {
            return Some(p);
        }
        proof {
            // A rejected draw refutes a fully free band: the drawn position
            // lies inside it.
            if band_all_free(*arena, size, placed@, zone_pos, zone_size) {
                assert(placement_free_at(x as int, y as int, size, placed@, zone_pos, zone_size));
                assert(false);
            }
        }
        a = a + 1;
    }
    None
}

/// Places the requested objects by rejection sampling: for each request, up
/// to `attempts` random draws, accepting the first position that overlaps
/// neither any previously accepted object nor the protected zone, and
/// skipping the object when every draw is rejected. No two accepted objects
/// overlap, none overlaps the protected zone, and every accepted object
/// carries the size and role of one of the requests.
pub fn generate_layout(
    arena: &Arena,
    requests: &Vec<PlacementRequest>,
    zone_pos: Vec2,
    zone_size: Vec2,
    attempts: u32,
) -> (placed: Vec<CollidableObject>)
    requires
        arena.wf(),
        forall|m: int| 0 <= m < requests@.len() ==> (#[trigger] requests@[m]).size.size_ok(),
        zone_pos.pos_ok(),
        zone_size.size_ok(),
    ensures
        forall|k: int| 0 <= k < placed@.len() ==> (#[trigger] placed@[k]).wf(),
        forall|i: int, j: int|
            0 <= i < j < placed@.len() ==> !(#[trigger] overlaps(
                placed@[i].position,
                placed@[i].size,
                placed@[j].position,
                placed@[j].size,
            )),
        forall|k: int|
            0 <= k < placed@.len() ==> !(#[trigger] overlaps(
                placed@[k].position,
                placed@[k].size,
                zone_pos,
                zone_size,
            )),
        forall|k: int|
            0 <= k < placed@.len() ==> exists|m: int|
                0 <= m < requests@.len() && (#[trigger] placed@[k]).size == (
                #[trigger] requests@[m]).size && placed@[k].kind == requests@[m].kind,
        matches_requests(placed@, requests@),
        placed@.len() <= requests@.len(),
        requests@.len() >= 1 && attempts >= 1 && band_nonempty(*arena, requests@[0].size)
            && band_all_free(
            *arena,
            requests@[0].size,
            Seq::<CollidableObject>::empty(),
            zone_pos,
            zone_size,
        ) ==> placed@.len() >= 1,
{
    let n = requests.len();
    let mut placed: Vec<CollidableObject> = Vec::new();
    let mut i: usize = 0;
    while i < n
        invariant
            0 <= i <= n,
            n == requests@.len(),
            arena.wf(),
            forall|m: int| 0 <= m < requests@.len() ==> (#[trigger] requests@[m]).size.size_ok(),
            zone_pos.pos_ok(),
            zone_size.size_ok(),
            forall|k: int| 0 <= k < placed@.len() ==> (#[trigger] placed@[k]).wf(),
            forall|a: int, b: int|
                0 <= a < b < placed@.len() ==> !(#[trigger] overlaps(
                    placed@[a].position,
                    placed@[a].size,
                    placed@[b].position,
                    placed@[b].size,
                )),
            forall|k: int|
                0 <= k < placed@.len() ==> !(#[trigger] overlaps(
                    placed@[k].position,
                    placed@[k].size,
                    zone_pos,
                    zone_size,
                )),
            forall|k: int|
                0 <= k < placed@.len() ==> exists|m: int|
                    0 <= m < requests@.len() && (#[trigger] placed@[k]).size == (
                    #[trigger] requests@[m]).size && placed@[k].kind == requests@[m].kind,
            matches_requests(placed@, requests@.take(i as int)),
            placed@.len() <= i,
            requests@.len() >= 1 && attempts >= 1 && band_nonempty(*arena, requests@[0].size)
                && band_all_free(
                *arena,
                requests@[0].size,
                Seq::<CollidableObject>::empty(),
                zone_pos,
                zone_size,
            ) && i >= 1 ==> placed@.len() >= 1,
        decreases n - i,
    {
        let req = &requests[i];
        let spot = find_free_spot(arena, req.size, &placed, zone_pos, zone_size, attempts);
        proof {
            if i == 0 {
                assert(placed@ =~= Seq::<CollidableObject>::empty());
            }
        }
        let ghost placed_prev = placed@;
        if let Some(p) = spot {
            proof {
                assert forall|a: int| 0 <= a < placed@.len() implies !overlaps(
                    placed@[a].position,
                    placed@[a].size,
                    p,
                    req.size,
                ) by {
                    lemma_intersects_symmetric(p, req.size, placed@[a].position, placed@[a].size);
                }
            }
            placed.push(CollidableObject { position: p, size: req.size, kind: req.kind });
        }
        proof {
            assert(requests@.take(i as int + 1).drop_last() =~= requests@.take(i as int));
            assert(requests@.take(i as int + 1).last() == requests@[i as int]);
            if placed@.len() > placed_prev.len() {
                assert(placed@.drop_last() =~= placed_prev);
            }
        }
        i = i + 1;
    }
    proof {
        assert(requests@.take(n as int) =~= requests@);
    }
    placed
}

/// Scatters objects over a regular lattice of `cell`-sized grid cells, one
/// Bernoulli trial per cell: a cell receives an object with probability
/// 1/odds. Columns alternate between solid obstacles and scorable
/// collectibles, the outermost two columns and one row of cells are left
/// clear for the boundary walls and the travel lanes beside them, and no
/// overlap check is needed: the lattice spacing alone separates the objects,
/// every placed box being at most one cell wide and one cell tall.
pub fn grid_layout(
    arena: &Arena,
    cell: i64,
    solid_odds: i64,
    scorable_odds: i64,
    solid_size: Vec2,
    scorable_size: Vec2,
) -> (placed: Vec<CollidableObject>)
    requires
        arena.wf(),
        0 < cell,
        extent_ok(cell as int),
        solid_size.size_ok(),
        scorable_size.size_ok(),
        solid_size.x <= cell,
        solid_size.y <= cell,
        scorable_size.x <= cell,
        scorable_size.y <= cell,
        1 <= solid_odds <= ODDS_LIMIT,
        1 <= scorable_odds <= ODDS_LIMIT,
    ensures
        forall|k: int| 0 <= k < placed@.len() ==> (#[trigger] placed@[k]).wf(),
        forall|i: int, j: int|
            0 <= i < j < placed@.len() ==> !(#[trigger] overlaps(
                placed@[i].position,
                placed@[i].size,
                placed@[j].position,
                placed@[j].size,
            )),
        forall|k: int|
            0 <= k < placed@.len() ==> ((#[trigger] placed@[k]).kind is Solid && placed@[k].size
                == solid_size) || (placed@[k].kind is Scorable && placed@[k].size == scorable_size),
        forall|k: int|
            0 <= k < placed@.len() ==> arena.x_min + 2 * cell < (#[trigger] placed@[k]).position.x
                && placed@[k].position.x + 3 * cell <= arena.x_max && arena.y_min + cell <= placed@[
                k
            ].position.y && placed@[k].position.y < arena.y_max - cell,
        forall|k: int|
            0 <= k < placed@.len() ==> lattice_cell(
                *arena,
                cell as int,
                (#[trigger] placed@[k]).position.x as int,
                placed@[k].position.y as int,
            ),
        forall|k: int|
            0 <= k < placed@.len() ==> ((#[trigger] placed@[k]).kind is Solid ==> (placed@[
                k
            ].position.x - (arena.x_min + 3 * cell)) % (2 * cell) == 0),
        forall|k: int|
            0 <= k < placed@.len() ==> ((#[trigger] placed@[k]).kind is Scorable ==> (placed@[
                k
            ].position.x - (arena.x_min + 3 * cell)) % (2 * cell) == cell),
        solid_odds == 1 && scorable_odds == 1 ==> covers_lattice(placed@, *arena, cell as int),
{
    let mut placed: Vec<CollidableObject> = Vec::new();
    let mut x: i64 = arena.x_min + 3 * cell;
    let mut solid_column: bool = true;
    proof {
        vstd::arithmetic::div_mod::lemma_mod_multiples_basic(0, cell as int);
        vstd::arithmetic::div_mod::lemma_mod_multiples_basic(0, 2 * (cell as int));
    }
    while x + 3 * cell <= arena.x_max
        invariant
            arena.wf(),
            0 < cell,
            extent_ok(cell as int),
            solid_size.size_ok(),
            scorable_size.size_ok(),
            solid_size.x <= cell,
            solid_size.y <= cell,
            scorable_size.x <= cell,
            scorable_size.y <= cell,
            1 <= solid_odds <= ODDS_LIMIT,
            1 <= scorable_odds <= ODDS_LIMIT,
            arena.x_min + 3 * cell <= x,
            x == arena.x_min + 3 * cell || x <= arena.x_max - 2 * cell,
            forall|k: int| 0 <= k < placed@.len() ==> (#[trigger] placed@[k]).wf(),
            forall|i: int, j: int|
                0 <= i < j < placed@.len() ==> !(#[trigger] overlaps(
                    placed@[i].position,
                    placed@[i].size,
                    placed@[j].position,
                    placed@[j].size,
                )),
            forall|k: int|
                0 <= k < placed@.len() ==> ((#[trigger] placed@[k]).kind is Solid && placed@[
                k
                ].size == solid_size) || (placed@[k].kind is Scorable && placed@[k].size
                    == scorable_size),
            forall|k: int|
                0 <= k < placed@.len() ==> arena.x_min + 2 * cell < (
                #[trigger] placed@[k]).position.x && placed@[k].position.x + 3 * cell
                    <= arena.x_max && arena.y_min + cell <= placed@[k].position.y && placed@[
                k
                ].position.y < arena.y_max - cell,
            forall|k: int| 0 <= k < placed@.len() ==> (#[trigger] placed@[k]).position.x <= x - cell,
            (x - (arena.x_min + 3 * cell)) % (cell as int) == 0,
            solid_column ==> (x - (arena.x_min + 3 * cell)) % (2 * cell) == 0,
            !solid_column ==> (x - (arena.x_min + 3 * cell)) % (2 * cell) == cell,
            forall|k: int|
                0 <= k < placed@.len() ==> lattice_cell(
                    *arena,
                    cell as int,
                    (#[trigger] placed@[k]).position.x as int,
                    placed@[k].position.y as int,
                ),
            forall|k: int|
                0 <= k < placed@.len() ==> ((#[trigger] placed@[k]).kind is Solid ==> (placed@[
                    k
                ].position.x - (arena.x_min + 3 * cell)) % (2 * cell) == 0),
            forall|k: int|
                0 <= k < placed@.len() ==> ((#[trigger] placed@[k]).kind is Scorable ==> (placed@[
                    k
                ].position.x - (arena.x_min + 3 * cell)) % (2 * cell) == cell),
            solid_odds == 1 && scorable_odds == 1 ==> covers_lattice_below(
                placed@,
                *arena,
                cell as int,
                x as int,
                arena.y_min as int,
            ),
        decreases arena.x_max - x,
    {
        let odds = if solid_column {
            solid_odds
        } else {
            scorable_odds
        };
        let size = if solid_column {
            solid_size
        } else {
            scorable_size
        };
        let kind = if solid_column {
            Collider::Solid
        } else {
            Collider::Scorable
        };
        let mut y: i64 = arena.y_min + cell;
        proof {
            vstd::arithmetic::div_mod::lemma_mod_multiples_basic(0, cell as int);
        }
        while y < arena.y_max - cell
            invariant
                arena.wf(),
                0 < cell,
                extent_ok(cell as int),
                size.size_ok(),
                size.x <= cell,
                size.y <= cell,
                solid_size.x <= cell,
                solid_size.y <= cell,
                scorable_size.x <= cell,
                scorable_size.y <= cell,
                size == solid_size || size == scorable_size,
                kind is Solid || kind is Scorable,
                kind is Solid ==> size == solid_size,
                kind is Scorable ==> size == scorable_size,
                1 <= odds <= ODDS_LIMIT,
                arena.x_min + 3 * cell <= x,
                x + 3 * cell <= arena.x_max,
                arena.y_min + cell <= y,
                forall|k: int| 0 <= k < placed@.len() ==> (#[trigger] placed@[k]).wf(),
                forall|i: int, j: int|
                    0 <= i < j < placed@.len() ==> !(#[trigger] overlaps(
                        placed@[i].position,
                        placed@[i].size,
                        placed@[j].position,
                        placed@[j].size,
                    )),
                forall|k: int|
                    0 <= k < placed@.len() ==> ((#[trigger] placed@[k]).kind is Solid && placed@[
                    k
                    ].size == solid_size) || (placed@[k].kind is Scorable && placed@[k].size
                        == scorable_size),
                forall|k: int|
                    0 <= k < placed@.len() ==> arena.x_min + 2 * cell < (
                    #[trigger] placed@[k]).position.x && placed@[k].position.x + 3 * cell
                        <= arena.x_max && arena.y_min + cell <= placed@[k].position.y && placed@[
                    k
                    ].position.y < arena.y_max - cell,
                forall|k: int|
                    0 <= k < placed@.len() ==> (#[trigger] placed@[k]).position.x <= x - cell || (
                    placed@[k].position.x == x && placed@[k].position.y <= y - cell),
                (x - (arena.x_min + 3 * cell)) % (cell as int) == 0,
                (y - (arena.y_min + cell)) % (cell as int) == 0,
                kind is Solid ==> (x - (arena.x_min + 3 * cell)) % (2 * cell) == 0,
                kind is Scorable ==> (x - (arena.x_min + 3 * cell)) % (2 * cell) == cell,
                forall|k: int|
                    0 <= k < placed@.len() ==> lattice_cell(
                        *arena,
                        cell as int,
                        (#[trigger] placed@[k]).position.x as int,
                        placed@[k].position.y as int,
                    ),
                forall|k: int|
                    0 <= k < placed@.len() ==> ((#[trigger] placed@[k]).kind is Solid ==> (placed@[
                        k
                    ].position.x - (arena.x_min + 3 * cell)) % (2 * cell) == 0),
                forall|k: int|
                    0 <= k < placed@.len() ==> ((#[trigger] placed@[k]).kind is Scorable ==> (
                    placed@[k].position.x - (arena.x_min + 3 * cell)) % (2 * cell) == cell),
                solid_odds == 1 && scorable_odds == 1 ==> odds == 1,
                solid_odds == 1 && scorable_odds == 1 ==> covers_lattice_below(
                    placed@,
                    *arena,
                    cell as int,
                    x as int,
                    y as int,
                ),
            decreases arena.y_max - y,
        {
            let draw = sample_range(1, odds + 1);
            let ghost placed_prev = placed@;
            if draw == 1 {
                let p = Vec2 { x, y };
                proof {
                    assert forall|a: int| 0 <= a < placed@.len() implies !overlaps(
                        placed@[a].position,
                        placed@[a].size,
                        p,
                        size,
                    ) by {
                        let o = placed@[a];
                        assert((o.kind is Solid && o.size == solid_size) || (o.kind is Scorable
                            && o.size == scorable_size));
                        assert(o.size.x <= cell && o.size.y <= cell);
                        assert(o.position.x <= x - cell || (o.position.x == x && o.position.y <= y
                            - cell));
                    }
                }
                placed.push(CollidableObject { position: p, size, kind });
            }
            proof {
                if solid_odds == 1 && scorable_odds == 1 {
                    assert(draw == 1);
                    assert forall|cx: int, cy: int|
                        #[trigger] lattice_cell(*arena, cell as int, cx, cy) && (cx < x || (cx == x
                            && cy < y + cell)) implies exists|k: int|
                        0 <= k < placed@.len() && (#[trigger] placed@[k]).position.x == cx
                            && placed@[k].position.y == cy by {
                        if cx < x || (cx == x && cy < y) {
                            let k0 = choose|k0: int|
                                0 <= k0 < placed_prev.len() && (#[trigger] placed_prev[
                                    k0
                                ]).position.x == cx && placed_prev[k0].position.y == cy;
                            assert(placed@[k0] == placed_prev[k0]);
                        } else {
                            lemma_lattice_point_unique(
                                arena.y_min + cell,
                                cy,
                                y as int,
                                cell as int,
                            );
                            assert(placed@[placed@.len() - 1].position.x == x);
                            assert(placed@[placed@.len() - 1].position.y == y);
                        }
                    }
                }
                vstd::arithmetic::div_mod::lemma_mod_add_multiples_vanish(
                    y - (arena.y_min + cell),
                    cell as int,
                );
            }
            y = y + cell;
        }
        proof {
            if solid_odds == 1 && scorable_odds == 1 {
                assert forall|cx: int, cy: int|
                    #[trigger] lattice_cell(*arena, cell as int, cx, cy) && (cx < x + cell || (cx
                        == x + cell && cy < arena.y_min)) implies exists|k: int|
                    0 <= k < placed@.len() && (#[trigger] placed@[k]).position.x == cx && placed@[
                        k
                    ].position.y == cy by {
                    if cx == x + cell {
                        assert(arena.y_min + cell <= cy);
                    } else if x < cx {
                        lemma_lattice_point_unique(
                            arena.x_min + 3 * cell,
                            cx,
                            x as int,
                            cell as int,
                        );
                    } else if cx == x {
                        assert(cy < arena.y_max - cell);
                        assert(cy < y);
                    }
                }
            }
            vstd::arithmetic::div_mod::lemma_mod_add_multiples_vanish(
                x - (arena.x_min + 3 * cell),
                cell as int,
            );
            // The column parity swaps: adding one cell to an offset that is
            // an even (odd) multiple of the cell makes it an odd (even) one.
            vstd::arithmetic::div_mod::lemma_add_mod_noop_right(
                cell as int,
                x - (arena.x_min + 3 * cell),
                2 * (cell as int),
            );
            vstd::arithmetic::div_mod::lemma_small_mod(cell as nat, (2 * cell) as nat);
            vstd::arithmetic::div_mod::lemma_mod_self_0(2 * (cell as int));
        }
        x = x + cell;
        solid_column = !solid_column;
    }
    proof {
        if solid_odds == 1 && scorable_odds == 1 {
            assert forall|cx: int, cy: int|
                #[trigger] lattice_cell(*arena, cell as int, cx, cy) implies exists|k: int|
                0 <= k < placed@.len() && (#[trigger] placed@[k]).position.x == cx && placed@[
                    k
                ].position.y == cy by {
                assert(cx + 3 * cell <= arena.x_max);
                assert(cx < x);
            }
        }
    }
    placed
}

/// The four boundary walls of the arena, as solid collidable objects: one
/// wall centered on each bound, `wall` thick, long enough to close the
/// corners.
pub fn boundary_walls(arena: &Arena) -> (walls: Vec<CollidableObject>)
    requires
        arena.wf(),
        arena.x_max - arena.x_min + arena.wall <= crate::geometry::COORD_LIMIT,
        arena.y_max - arena.y_min + arena.wall <= crate::geometry::COORD_LIMIT,
    ensures
        walls@.len() == 4,
        forall|k: int| 0 <= k < 4 ==> (#[trigger] walls@[k]).wf() && walls@[k].kind is Solid,
        ({
            let mid_x = arena.x_min + (arena.x_max - arena.x_min) / 2;
            let mid_y = arena.y_min + (arena.y_max - arena.y_min) / 2;
            let width = arena.x_max - arena.x_min;
            let height = arena.y_max - arena.y_min;
            &&& walls@[0].position.x == arena.x_min && walls@[0].position.y == mid_y
            &&& walls@[0].size.x == arena.wall && walls@[0].size.y == height + arena.wall
            &&& walls@[1].position.x == arena.x_max && walls@[1].position.y == mid_y
            &&& walls@[1].size.x == arena.wall && walls@[1].size.y == height + arena.wall
            &&& walls@[2].position.x == mid_x && walls@[2].position.y == arena.y_min
            &&& walls@[2].size.x == width + arena.wall && walls@[2].size.y == arena.wall
            &&& walls@[3].position.x == mid_x && walls@[3].position.y == arena.y_max
            &&& walls@[3].size.x == width + arena.wall && walls@[3].size.y == arena.wall
        }),
{
    let width = arena.x_max - arena.x_min;
    let height = arena.y_max - arena.y_min;
    let mid_x = arena.x_min + width / 2;
    let mid_y = arena.y_min + height / 2;
    let vertical = Vec2 { x: arena.wall, y: height + arena.wall };
    let horizontal = Vec2 { x: width + arena.wall, y: arena.wall };
    let mut walls: Vec<CollidableObject> = Vec::new();
    walls.push(
        CollidableObject {
            position: Vec2 { x: arena.x_min, y: mid_y },
            size: vertical,
            kind: Collider::Solid,
        },
    );
    walls.push(
        CollidableObject {
            position: Vec2 { x: arena.x_max, y: mid_y },
            size: vertical,
            kind: Collider::Solid,
        },
    );
    walls.push(
        CollidableObject {
            position: Vec2 { x: mid_x, y: arena.y_min },
            size: horizontal,
            kind: Collider::Solid,
        },
    );
    walls.push(
        CollidableObject {
            position: Vec2 { x: mid_x, y: arena.y_max },
            size: horizontal,
            kind: Collider::Solid,
        },
    );
    walls
}

/// Draws a new position for a movable box until one is free of every
/// collidable object and of the protected zone, giving up -- and leaving the
/// position unchanged -- after `attempts` draws. Used for the timer-driven
/// random repositioning of autonomous chasers; the cap keeps the move
/// skippable rather than looping forever. When the whole sampling band is
/// free, the first draw is accepted, so with at least one attempt the move
/// must happen.
pub fn try_reposition(
    position: &mut Vec2,
    size: Vec2,
    objects: &Vec<CollidableObject>,
    arena: &Arena,
    zone_pos: Vec2,
    zone_size: Vec2,
    attempts: u32,
) -> (moved: bool)
    requires
        arena.wf(),
        size.size_ok(),
        forall|k: int| 0 <= k < objects@.len() ==> (#[trigger] objects@[k]).wf(),
        zone_pos.pos_ok(),
        zone_size.size_ok(),
    ensures
        !moved ==> *final(position) == *old(position),
        moved ==> final(position).placed_ok() && placement_free(
            *final(position),
            size,
            objects@,
            zone_pos,
            zone_size,
        ),
        attempts >= 1 && band_nonempty(*arena, size) && band_all_free(
            *arena,
            size,
            objects@,
            zone_pos,
            zone_size,
        ) ==> moved,
{
    let spot = find_free_spot(arena, size, objects, zone_pos, zone_size, attempts);
    match spot {
        Option::Some(p) => {
            *position = p;
            true
        },
        Option::None => false,
    }
}

} // verus!
