//! The per-tick interaction and scoring pass.
//!
//! After movement, each dynamic actor is tested against every collidable
//! object in order; the first object whose box intersects the actor's decides
//! the tick's single interaction. A scorable object scores (while the round
//! is in progress) and is removed exactly once; a hazard loses the round; the
//! goal wins it once enough objects have been collected. Every terminal
//! transition goes through the latch of `GameState`, so a finished round is
//! never changed again.

use vstd::prelude::*;

use crate::geometry::Vec2;
use crate::geometry::intersects;
use crate::geometry::overlaps_at;
use crate::movement::Actor;
use crate::movement::Arena;
use crate::movement::Object;
use crate::movement::ResolveMode;
use crate::movement::TICK_MS_LIMIT;
use crate::movement::blocked_at;
use crate::movement::move_resolved;
use crate::movement::update_position;
use crate::state::GameOutcome;
use crate::state::GameState;

verus! {

/// The role a collidable object plays in the interaction pass.
#[derive(Clone, Copy, PartialEq, Eq, Structural, Debug)]
pub enum Collider {
    /// Blocks movement; never interacts.
    Solid,
    /// Collected on contact: scores once and disappears.
    Scorable,
    /// Loses the round on contact.
    Hazard,
    /// Wins the round on contact once the score threshold is reached.
    Goal,
}

/// A collidable level object: a box with a role.
#[derive(Clone, Copy, PartialEq, Eq, Structural, Debug)]
pub struct CollidableObject {
    pub position: Vec2,
    pub size: Vec2,
    pub kind: Collider,
}

impl CollidableObject {
    pub open spec fn wf(self) -> bool {
        self.position.placed_ok() && self.size.size_ok()
    }
}

/// The movement resolver's view of a collidable object: its box alone.
pub open spec fn object_of(c: CollidableObject) -> Object {
    Object { position: c.position, size: c.size }
}

/// The boxes of the solid objects, in order.
pub open spec fn solids_of(s: Seq<CollidableObject>) -> Seq<Object>
    decreases s.len(),
{
    if s.len() == 0 {
        Seq::empty()
    } else if s.last().kind is Solid {
        solids_of(s.drop_last()).push(object_of(s.last()))
    } else {
        solids_of(s.drop_last())
    }
}

/// Extracts the boxes of the solid objects, in order, for the movement
/// resolver.
pub fn solid_objects(colliders: &Vec<CollidableObject>) -> (r: Vec<Object>)
    requires
        forall|k: int| 0 <= k < colliders@.len() ==> (#[trigger] colliders@[k]).wf(),
    ensures
        r@ == solids_of(colliders@),
        forall|k: int| 0 <= k < r@.len() ==> (#[trigger] r@[k]).wf(),
{
    let n = colliders.len();
    let mut r: Vec<Object> = Vec::new();
    let mut i: usize = 0;
    while i < n
        invariant
            0 <= i <= n,
            n == colliders@.len(),
            forall|k: int| 0 <= k < colliders@.len() ==> (#[trigger] colliders@[k]).wf(),
            r@ == solids_of(colliders@.take(i as int)),
            forall|k: int| 0 <= k < r@.len() ==> (#[trigger] r@[k]).wf(),
        decreases n - i,
    {
        let c = &colliders[i];
        if matches!(c.kind, Collider::Solid) {
            r.push(Object { position: c.position, size: c.size });
        }
        proof {
            assert(colliders@.take(i as int + 1).drop_last() =~= colliders@.take(i as int));
            assert(colliders@.take(i as int + 1).last() == colliders@[i as int]);
        }
        i = i + 1;
    }
    proof {
        assert(colliders@.take(n as int) =~= colliders@);
    }
    r
}

/// The actor box at `(ax, ay)` intersects none of the collidable objects.
pub open spec fn overlap_none(ax: int, ay: int, size: Vec2, objs: Seq<CollidableObject>) -> bool {
    forall|k: int|
        0 <= k < objs.len() ==> !(#[trigger] overlaps_at(
            ax,
            ay,
            size,
            objs[k].position,
            objs[k].size,
        ))
}

/// Object `k` is the first collidable object the actor box at `(ax, ay)`
/// intersects.
pub open spec fn first_overlap(
    ax: int,
    ay: int,
    size: Vec2,
    objs: Seq<CollidableObject>,
    k: int,
) -> bool {
    &&& 0 <= k < objs.len()
    &&& overlaps_at(ax, ay, size, objs[k].position, objs[k].size)
    &&& forall|j: int|
        0 <= j < k ==> !(#[trigger] overlaps_at(ax, ay, size, objs[j].position, objs[j].size))
}

/// The effect of the tick's single interaction, given that object `k` is the
/// first one hit: a solid does nothing; a scorable object scores (only while
/// the round is in progress) and is removed exactly once; a hazard loses the
/// round if it is in progress; the goal wins it if it is in progress and the
/// score has reached the threshold. A finished round never changes state
/// again.
pub open spec fn interaction_applied(
    objs: Seq<CollidableObject>,
    k: int,
    pre: GameState,
    post: GameState,
    post_objs: Seq<CollidableObject>,
    threshold: u32,
) -> bool {
    match objs[k].kind {
        Collider::Solid => post == pre && post_objs == objs,
        Collider::Scorable => {
            &&& post_objs == objs.remove(k)
            &&& post.outcome == pre.outcome
            &&& post.score == if pre.outcome is InProgress {
                pre.score + 1
            } else {
                pre.score as int
            }
        },
        Collider::Hazard => {
            &&& post_objs == objs
            &&& post.score == pre.score
            &&& post.outcome == if pre.outcome is InProgress {
                GameOutcome::Lost
            } else {
                pre.outcome
            }
        },
        Collider::Goal => {
            &&& post_objs == objs
            &&& post.score == pre.score
            &&& post.outcome == if pre.outcome is InProgress && pre.score >= threshold {
                GameOutcome::Won
            } else {
                pre.outcome
            }
        },
    }
}

/// Relates the game state and object set before one interaction pass to
/// those after it, for an actor box at `(ax, ay)`: either the actor touches
/// nothing and nothing changes, or the first intersected object's effect is
/// applied.
pub open spec fn interaction_step(
    pre: GameState,
    post: GameState,
    pre_objs: Seq<CollidableObject>,
    post_objs: Seq<CollidableObject>,
    ax: int,
    ay: int,
    size: Vec2,
    threshold: u32,
    r: Option<usize>,
) -> bool {
    match r {
        Option::None => {
            &&& overlap_none(ax, ay, size, pre_objs)
            &&& post == pre
            &&& post_objs == pre_objs
        },
        Option::Some(i) => {
            &&& first_overlap(ax, ay, size, pre_objs, i as int)
            &&& interaction_applied(pre_objs, i as int, pre, post, post_objs, threshold)
        },
    }
}

/// The terminal latch is idempotent: once the outcome is terminal, an
/// interaction pass leaves the game state exactly as it was -- the outcome
/// does not change and the score does not advance -- whatever the actor
/// touches and however many further passes run, each preserving the state in
/// turn.
pub proof fn lemma_terminal_latch(
    pre: GameState,
    post: GameState,
    pre_objs: Seq<CollidableObject>,
    post_objs: Seq<CollidableObject>,
    ax: int,
    ay: int,
    size: Vec2,
    threshold: u32,
    r: Option<usize>,
)
    requires
        pre.outcome.is_terminal(),
        interaction_step(pre, post, pre_objs, post_objs, ax, ay, size, threshold, r),
    ensures
        post == pre,
{
}

/// Finds the first collidable object the actor box intersects, in set order.
pub fn first_overlap_index(actor_pos: Vec2, actor_size: Vec2, objects: &Vec<CollidableObject>) -> (r:
    Option<usize>)
    requires
        actor_pos.pos_ok(),
        actor_size.size_ok(),
        forall|k: int| 0 <= k < objects@.len() ==> (#[trigger] objects@[k]).wf(),
    ensures
        r is None ==> overlap_none(actor_pos.x as int, actor_pos.y as int, actor_size, objects@),
        r matches Some(i) ==> first_overlap(
            actor_pos.x as int,
            actor_pos.y as int,
            actor_size,
            objects@,
            i as int,
        ),
{
    let n = objects.len();
    let mut i: usize = 0;
    while i < n
        invariant
            0 <= i <= n,
            n == objects@.len(),
            actor_pos.pos_ok(),
            actor_size.size_ok(),
            forall|k: int| 0 <= k < objects@.len() ==> (#[trigger] objects@[k]).wf(),
            forall|j: int|
                0 <= j < i ==> !(#[trigger] overlaps_at(
                    actor_pos.x as int,
                    actor_pos.y as int,
                    actor_size,
                    objects@[j].position,
                    objects@[j].size,
                )),
        decreases n - i,
    {
        let o = &objects[i];
        if intersects(actor_pos, actor_size, o.position, o.size) {
            return Some(i);
        }
        i = i + 1;
    }
    None
}

/// Runs one interaction pass for one actor: tests the actor against every
/// collidable object in order and applies the effect of the first one its box
/// intersects. Returns the index (into the set as it was before the pass) of
/// the object that interacted, if any. The removal of a scorable object is
/// exactly-once: it leaves the set here and is gone for every later test.
pub fn interact(
    state: &mut GameState,
    objects: &mut Vec<CollidableObject>,
    actor_pos: Vec2,
    actor_size: Vec2,
    threshold: u32,
) -> (r: Option<usize>)
    requires
        old(state).score < u32::MAX,
        actor_pos.pos_ok(),
        actor_size.size_ok(),
        forall|k: int| 0 <= k < old(objects)@.len() ==> (#[trigger] old(objects)@[k]).wf(),
    ensures
        forall|k: int| 0 <= k < final(objects)@.len() ==> (#[trigger] final(objects)@[k]).wf(),
        final(state).score <= old(state).score + 1,
        old(state).outcome.is_terminal() ==> *final(state) == *old(state),
        interaction_step(
            *old(state),
            *final(state),
            old(objects)@,
            final(objects)@,
            actor_pos.x as int,
            actor_pos.y as int,
            actor_size,
            threshold,
            r,
        ),
{
    let hit = first_overlap_index(actor_pos, actor_size, objects);
    match hit {
        Option::None => Option::None,
        Option::Some(i) => {
            match objects[i].kind {
                Collider::Solid => {},
                Collider::Scorable => {
                    state.record_score();
                    let _removed = objects.remove(i);
                },
                Collider::Hazard => {
                    state.try_finish(GameOutcome::Lost);
                },
                Collider::Goal => {
                    if state.score >= threshold {
                        state.try_finish(GameOutcome::Won);
                    }
                },
            }
            Option::Some(i)
        },
    }
}

/// Advances one actor by one tick: movement first, then the interaction
/// pass at the committed position, in the strict move-then-resolve order of
/// the simulation. Movement is resolved against the solid objects only, and
/// an actor that intersects none of them never comes to intersect one; the
/// interaction pass then tests the moved actor against the whole collidable
/// set. Returns the index (into the set as it was before the tick) of the
/// object that interacted, if any.
pub fn tick_actor(
    state: &mut GameState,
    objects: &mut Vec<CollidableObject>,
    actor: &mut Actor,
    delta_ms: i64,
    x_direction: i64,
    y_direction: i64,
    arena: &Arena,
    mode: ResolveMode,
    threshold: u32,
) -> (r: Option<usize>)
    requires
        old(state).score < u32::MAX,
        old(actor).wf(),
        0 <= delta_ms <= TICK_MS_LIMIT,
        -1 <= x_direction <= 1,
        -1 <= y_direction <= 1,
        arena.wf(),
        forall|k: int| 0 <= k < old(objects)@.len() ==> (#[trigger] old(objects)@[k]).wf(),
    ensures
        final(actor).size == old(actor).size,
        final(actor).speed == old(actor).speed,
        final(actor).wf(),
        forall|k: int| 0 <= k < final(objects)@.len() ==> (#[trigger] final(objects)@[k]).wf(),
        final(state).score <= old(state).score + 1,
        old(state).outcome.is_terminal() ==> *final(state) == *old(state),
        move_resolved(
            old(actor).position,
            final(actor).position,
            delta_ms as int,
            x_direction as int,
            y_direction as int,
            old(actor).size,
            old(actor).speed as int,
            solids_of(old(objects)@),
            *arena,
            mode,
        ),
        !blocked_at(
            old(actor).position.x as int,
            old(actor).position.y as int,
            old(actor).size,
            solids_of(old(objects)@),
        ) ==> !blocked_at(
            final(actor).position.x as int,
            final(actor).position.y as int,
            old(actor).size,
            solids_of(old(objects)@),
        ),
        interaction_step(
            *old(state),
            *final(state),
            old(objects)@,
            final(objects)@,
            final(actor).position.x as int,
            final(actor).position.y as int,
            old(actor).size,
            threshold,
            r,
        ),
{
    let solids = solid_objects(objects);
    let mut pos = actor.position;
    update_position(
        &mut pos,
        delta_ms,
        x_direction,
        y_direction,
        actor.size,
        actor.speed,
        &solids,
        arena,
        mode,
    );
    actor.position = pos;
    interact(state, objects, actor.position, actor.size, threshold)
}

/// Tests the runner against a chasing actor and, when their boxes intersect,
/// loses the round -- latched: a round already finished never changes.
pub fn check_hazard_contact(
    state: &mut GameState,
    actor_pos: Vec2,
    actor_size: Vec2,
    hazard_pos: Vec2,
    hazard_size: Vec2,
)
    requires
        actor_pos.pos_ok(),
        actor_size.size_ok(),
        hazard_pos.pos_ok(),
        hazard_size.size_ok(),
    ensures
        final(state).score == old(state).score,
        final(state).outcome == if crate::geometry::overlaps(
            actor_pos,
            actor_size,
            hazard_pos,
            hazard_size,
        ) && old(state).outcome is InProgress {
            GameOutcome::Lost
        } else {
            old(state).outcome
        },
{
    if intersects(actor_pos, actor_size, hazard_pos, hazard_size) {
        state.try_finish(GameOutcome::Lost);
    }
}

} // verus!
