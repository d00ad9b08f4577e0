//! Bounded incremental movement with collision resolution.
//!
//! Each tick an actor's directional intent (two signed axes in {-1, 0, +1}),
//! its speed and the elapsed time yield a candidate position. The candidate
//! is limited to the arena on each axis independently: an axis coordinate
//! that would leave the playable band does not move at all. The combined
//! candidate is then tested against every solid object and resolved either by
//! rejecting the whole move or by depth-corrected sliding; a slide whose
//! corrected position still intersects a solid is rejected too, so in either
//! mode an actor clear of every solid stays clear of them all.

use vstd::prelude::*;

use crate::geometry::Collision;
use crate::geometry::Vec2;
use crate::geometry::axis_depth;
use crate::geometry::center_ok;
use crate::geometry::collide;
use crate::geometry::coord_ok;
use crate::geometry::extent_ok;
use crate::geometry::intersects;
use crate::geometry::lemma_corrected_center_bounded;
use crate::geometry::overlaps_at;

verus! {

/// Largest movement speed the engine accepts, in world units per second.
pub const SPEED_LIMIT: i64 = 1_000_000;

/// Largest elapsed time between two ticks the engine accepts, in
/// milliseconds.
pub const TICK_MS_LIMIT: i64 = 1_000_000;

/// The playable area: an axis-aligned band of the plane delimited by the
/// centers of the four boundary walls, which are `wall` thick.
#[derive(Clone, Copy, PartialEq, Eq, Structural, Debug)]
pub struct Arena {
    pub x_min: i64,
    pub x_max: i64,
    pub y_min: i64,
    pub y_max: i64,
    pub wall: i64,
}

impl Arena {
    pub open spec fn wf(self) -> bool {
        &&& coord_ok(self.x_min as int)
        &&& coord_ok(self.x_max as int)
        &&& coord_ok(self.y_min as int)
        &&& coord_ok(self.y_max as int)
        &&& self.x_min <= self.x_max
        &&& self.y_min <= self.y_max
        &&& extent_ok(self.wall as int)
    }

    pub fn new(x_min: i64, x_max: i64, y_min: i64, y_max: i64, wall: i64) -> (r: Arena)
        ensures
            r == (Arena { x_min, x_max, y_min, y_max, wall }),
    {
        Arena { x_min, x_max, y_min, y_max, wall }
    }
}

/// A solid obstacle as the movement resolver sees it: a box that blocks
/// actors.
#[derive(Clone, Copy, PartialEq, Eq, Structural, Debug)]
pub struct Object {
    pub position: Vec2,
    pub size: Vec2,
}

impl Object {
    pub open spec fn wf(self) -> bool {
        self.position.placed_ok() && self.size.size_ok()
    }
}

/// A movable entity: the player-controlled runner or an autonomous chaser.
/// Its directional intent comes from the host (pressed keys or a timer-driven
/// random source) as two signed axis values.
#[derive(Clone, Copy, PartialEq, Eq, Structural, Debug)]
pub struct Actor {
    pub position: Vec2,
    pub size: Vec2,
    pub speed: i64,
}

impl Actor {
    pub open spec fn wf(self) -> bool {
        self.position.pos_ok() && self.size.size_ok() && 0 <= self.speed <= SPEED_LIMIT
    }

    pub fn new(position: Vec2, size: Vec2, speed: i64) -> (r: Actor)
        ensures
            r == (Actor { position, size, speed }),
    {
        Actor { position, size, speed }
    }

    pub fn speed(&self) -> (r: i64)
        ensures
            r == self.speed,
    {
        self.speed
    }
}

/// How a candidate position that collides with a solid object is resolved.
#[derive(Clone, Copy, PartialEq, Eq, Structural, Debug)]
pub enum ResolveMode {
    /// Discard the whole move: the actor keeps its prior position whenever
    /// the candidate intersects any solid object.
    Reject,
    /// Subtract the penetration depth from the candidate on each axis,
    /// letting the actor slide along the non-penetrating axis; a corrected
    /// position that still intersects some solid object is discarded whole,
    /// like a rejected move.
    Slide,
}

/// Distance covered in one tick: speed is in world units per second, elapsed
/// time in milliseconds, and the product is scaled back to world units,
/// rounding towards zero.
pub open spec fn step_magnitude(delta_ms: int, speed: int) -> int {
    (delta_ms * speed) / 1000
}

/// Unlimited candidate coordinate on one axis: the current coordinate plus
/// the intent-signed step.
pub open spec fn axis_candidate(cur: int, delta_ms: int, dir: int, speed: int) -> int {
    cur + dir * step_magnitude(delta_ms, speed)
}

/// Limits a candidate coordinate to the playable band on one axis. The band
/// leaves half a buffer -- actor extent plus wall thickness -- to each bound;
/// a candidate on or beyond the band's edge is rejected outright and the
/// coordinate does not move at all.
pub open spec fn axis_limited(
    cur: int,
    cand: int,
    size: int,
    wall: int,
    min_bound: int,
    max_bound: int,
) -> int {
    let buffer = size + wall;
    if cand >= max_bound - buffer / 2 || cand <= min_bound + buffer / 2 {
        cur
    } else {
        cand
    }
}

/// The committed coordinate on one axis after one tick, before collision
/// resolution: the limited candidate.
pub open spec fn moved_axis(
    cur: int,
    delta_ms: int,
    dir: int,
    speed: int,
    size: int,
    wall: int,
    min_bound: int,
    max_bound: int,
) -> int {
    axis_limited(cur, axis_candidate(cur, delta_ms, dir, speed), size, wall, min_bound, max_bound)
}

/// The box at `(cx, cy)` intersects at least one of the objects.
pub open spec fn blocked_at(cx: int, cy: int, size: Vec2, objs: Seq<Object>) -> bool {
    exists|k: int|
        0 <= k < objs.len() && #[trigger] overlaps_at(cx, cy, size, objs[k].position, objs[k].size)
}

/// Object `k` is the first the box at `(cx, cy)` intersects, and `c` holds
/// the penetration depths of the box into it (zero on an axis where no side
/// is crossed).
pub open spec fn first_collision_with(
    cx: int,
    cy: int,
    size: Vec2,
    objs: Seq<Object>,
    k: int,
    c: Collision,
) -> bool {
    &&& 0 <= k < objs.len()
    &&& overlaps_at(cx, cy, size, objs[k].position, objs[k].size)
    &&& forall|j: int|
        0 <= j < k ==> !(#[trigger] overlaps_at(cx, cy, size, objs[j].position, objs[j].size))
    &&& c.x_depth == axis_depth(cx, size.x as int, objs[k].position.x as int, objs[k].size.x as int)
    &&& c.y_depth == axis_depth(cy, size.y as int, objs[k].position.y as int, objs[k].size.y as int)
}

/// The outcome of a slide from a blocked candidate `(cx, cy)`: object `k` is
/// the first the candidate intersects, and the committed position `post` is
/// the depth-corrected candidate when that correction is clear of every
/// object, and the prior position `pre` -- the move discarded whole -- when
/// some object still overlaps it (as one must when the candidate is confined
/// inside an object and the depths are zero).
pub open spec fn slide_outcome(
    cx: int,
    cy: int,
    size: Vec2,
    objs: Seq<Object>,
    k: int,
    pre: Vec2,
    post: Vec2,
) -> bool {
    let mx = cx - axis_depth(cx, size.x as int, objs[k].position.x as int, objs[k].size.x as int);
    let my = cy - axis_depth(cy, size.y as int, objs[k].position.y as int, objs[k].size.y as int);
    &&& 0 <= k < objs.len()
    &&& overlaps_at(cx, cy, size, objs[k].position, objs[k].size)
    &&& forall|j: int|
        0 <= j < k ==> !(#[trigger] overlaps_at(cx, cy, size, objs[j].position, objs[j].size))
    &&& if blocked_at(mx, my, size, objs) {
        post == pre
    } else {
        post.x == mx && post.y == my
    }
}

/// Relates an actor position before a tick (`pre`) to the position committed
/// after it (`post`): the candidate is the per-axis limited move of `pre`,
/// and `post` is the candidate resolved against the objects in the given
/// mode. Under `Reject`, a candidate that intersects any object leaves the
/// position at `pre`. Under `Slide`, the candidate is depth-corrected against
/// the first object it intersects and committed only if the correction is
/// clear of every object; otherwise the move is discarded whole. Either way
/// an actor that intersects no object never comes to intersect one.
pub open spec fn move_resolved(
    pre: Vec2,
    post: Vec2,
    delta_ms: int,
    x_dir: int,
    y_dir: int,
    size: Vec2,
    speed: int,
    objs: Seq<Object>,
    arena: Arena,
    mode: ResolveMode,
) -> bool {
    let cx = moved_axis(
        pre.x as int,
        delta_ms,
        x_dir,
        speed,
        size.x as int,
        arena.wall as int,
        arena.x_min as int,
        arena.x_max as int,
    );
    let cy = moved_axis(
        pre.y as int,
        delta_ms,
        y_dir,
        speed,
        size.y as int,
        arena.wall as int,
        arena.y_min as int,
        arena.y_max as int,
    );
    match mode {
        ResolveMode::Reject => if blocked_at(cx, cy, size, objs) {
            post == pre
        } else {
            post.x == cx && post.y == cy
        },
        ResolveMode::Slide => if !blocked_at(cx, cy, size, objs) {
            post.x == cx && post.y == cy
        } else {
            exists|k: int| #[trigger] slide_outcome(cx, cy, size, objs, k, pre, post)
        },
    }
}

/// Computes the candidate coordinate of one axis for one tick and limits it
/// to the playable band between the two bounds.
pub fn get_new_player_position(
    current_position: i64,
    delta_ms: i64,
    direction: i64,
    size: i64,
    speed: i64,
    min_bound: i64,
    max_bound: i64,
    wall: i64,
) -> (r: i64)
    requires
        center_ok(current_position as int),
        0 <= delta_ms <= TICK_MS_LIMIT,
        -1 <= direction <= 1,
        extent_ok(size as int),
        0 <= speed <= SPEED_LIMIT,
        coord_ok(min_bound as int),
        coord_ok(max_bound as int),
        extent_ok(wall as int),
    ensures
        r == moved_axis(
            current_position as int,
            delta_ms as int,
            direction as int,
            speed as int,
            size as int,
            wall as int,
            min_bound as int,
            max_bound as int,
        ),
        center_ok(r as int),
{
    proof {
        assert(0 <= delta_ms * speed <= 1_000_000_000_000) by (nonlinear_arith)
            requires
                0 <= delta_ms <= 1_000_000,
                0 <= speed <= 1_000_000,
        ;
    }
    let step: i64 = delta_ms * speed / 1000;
    proof {
        assert(-1_000_000_000 <= direction * step <= 1_000_000_000) by (nonlinear_arith)
            requires
                -1 <= direction <= 1,
                0 <= step <= 1_000_000_000,
        ;
    }
    let new_position: i64 = current_position + direction * step;
    let buffer: i64 = size + wall;
    if new_position >= max_bound - buffer / 2 || new_position <= min_bound + buffer / 2 {
        current_position
    } else {
        new_position
    }
}

/// Reports whether a box at `pos` intersects any of the objects.
pub fn overlaps_any(pos: Vec2, size: Vec2, objects: &Vec<Object>) -> (r: bool)
    requires
        pos.pos_ok(),
        size.size_ok(),
        forall|k: int| 0 <= k < objects@.len() ==> (#[trigger] objects@[k]).wf(),
    ensures
        r == blocked_at(pos.x as int, pos.y as int, size, objects@),
{
    let n = objects.len();
    let mut i: usize = 0;
    while i < n
        invariant
            0 <= i <= n,
            n == objects@.len(),
            pos.pos_ok(),
            size.size_ok(),
            forall|k: int| 0 <= k < objects@.len() ==> (#[trigger] objects@[k]).wf(),
            forall|j: int|
                0 <= j < i ==> !(#[trigger] overlaps_at(
                    pos.x as int,
                    pos.y as int,
                    size,
                    objects@[j].position,
                    objects@[j].size,
                )),
        decreases n - i,
    {
        let o = &objects[i];
        if intersects(pos, size, o.position, o.size) {
            return true;
        }
        i = i + 1;
    }
    false
}

/// Tests a box against every object in order and returns the penetration
/// depths against the first object it intersects, or `None` when it
/// intersects none.
pub fn collides_with_objects(position: Vec2, size: Vec2, objects: &Vec<Object>) -> (r: Option<
    Collision,
>)
    requires
        position.pos_ok(),
        size.size_ok(),
        forall|k: int| 0 <= k < objects@.len() ==> (#[trigger] objects@[k]).wf(),
    ensures
        r is None ==> !blocked_at(position.x as int, position.y as int, size, objects@),
        r matches Some(c) ==> exists|k: int|
            #[trigger] first_collision_with(
                position.x as int,
                position.y as int,
                size,
                objects@,
                k,
                c,
            ),
{
    let n = objects.len();
    let mut i: usize = 0;
    while i < n
        invariant
            0 <= i <= n,
            n == objects@.len(),
            position.pos_ok(),
            size.size_ok(),
            forall|k: int| 0 <= k < objects@.len() ==> (#[trigger] objects@[k]).wf(),
            forall|j: int|
                0 <= j < i ==> !(#[trigger] overlaps_at(
                    position.x as int,
                    position.y as int,
                    size,
                    objects@[j].position,
                    objects@[j].size,
                )),
        decreases n - i,
    {
        let o = &objects[i];
        let collision = collide(position, size, o.position, o.size);
        if let Some(c) = collision {
            proof {
                assert(first_collision_with(
                    position.x as int,
                    position.y as int,
                    size,
                    objects@,
                    i as int,
                    c,
                ));
            }
            return Some(c);
        }
        i = i + 1;
    }
    None
}

/// Moves one actor for one tick. The directional intent, speed and elapsed
/// time yield a candidate coordinate per axis, each limited to the playable
/// band; the combined candidate is then resolved against the solid objects.
/// Under `Reject`, a candidate that intersects any object is discarded whole
/// and the actor keeps its prior position. Under `Slide`, the penetration
/// depths against the first object the candidate intersects are subtracted
/// from the candidate, and the corrected position is committed only if it is
/// clear of every object -- otherwise the move is discarded whole, like a
/// rejected one. In either mode an actor that intersects no solid object
/// never comes to intersect one.
pub fn update_position(
    position: &mut Vec2,
    delta_ms: i64,
    x_direction: i64,
    y_direction: i64,
    size: Vec2,
    speed: i64,
    objects: &Vec<Object>,
    arena: &Arena,
    mode: ResolveMode,
)
    requires
        old(position).pos_ok(),
        0 <= delta_ms <= TICK_MS_LIMIT,
        -1 <= x_direction <= 1,
        -1 <= y_direction <= 1,
        size.size_ok(),
        0 <= speed <= SPEED_LIMIT,
        forall|k: int| 0 <= k < objects@.len() ==> (#[trigger] objects@[k]).wf(),
        arena.wf(),
    ensures
        final(position).pos_ok(),
        move_resolved(
            *old(position),
            *final(position),
            delta_ms as int,
            x_direction as int,
            y_direction as int,
            size,
            speed as int,
            objects@,
            *arena,
            mode,
        ),
        !blocked_at(old(position).x as int, old(position).y as int, size, objects@)
            ==> !blocked_at(final(position).x as int, final(position).y as int, size, objects@),
{
    let cand_x = get_new_player_position(
        position.x,
        delta_ms,
        x_direction,
        size.x,
        speed,
        arena.x_min,
        arena.x_max,
        arena.wall,
    );
    let cand_y = get_new_player_position(
        position.y,
        delta_ms,
        y_direction,
        size.y,
        speed,
        arena.y_min,
        arena.y_max,
        arena.wall,
    );
    let cand = Vec2 { x: cand_x, y: cand_y };
    match mode {
        ResolveMode::Reject => {
            if !overlaps_any(cand, size, objects) {
                *position = cand;
            }
        },
        ResolveMode::Slide => {
            match collides_with_objects(cand, size, objects) {
                Some(c) => {
                    let ghost k = choose|k: int|
                        #[trigger] first_collision_with(
                            cand.x as int,
                            cand.y as int,
                            size,
                            objects@,
                            k,
                            c,
                        );
                    proof {
                        assert(objects@[k].wf());
                        lemma_corrected_center_bounded(
                            cand.x as int,
                            size.x as int,
                            objects@[k].position.x as int,
                            objects@[k].size.x as int,
                            cand.x - c.x_depth,
                        );
                        lemma_corrected_center_bounded(
                            cand.y as int,
                            size.y as int,
                            objects@[k].position.y as int,
                            objects@[k].size.y as int,
                            cand.y - c.y_depth,
                        );
                    }
                    let corrected = Vec2 { x: cand_x - c.x_depth, y: cand_y - c.y_depth };
                    if !overlaps_any(corrected, size, objects) {
                        *position = corrected;
                    }
                    proof {
                        assert(slide_outcome(
                            cand.x as int,
                            cand.y as int,
                            size,
                            objects@,
                            k,
                            *old(position),
                            *position,
                        ));
                    }
                },
                None => {
                    *position = cand;
                },
            }
        },
    }
}

} // verus!
