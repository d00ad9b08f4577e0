use space_race::geometry::Vec2;
use space_race::interaction::CollidableObject;
use space_race::interaction::Collider;
use space_race::interaction::check_hazard_contact;
use space_race::interaction::first_overlap_index;
use space_race::interaction::interact;
use space_race::interaction::solid_objects;
use space_race::interaction::tick_actor;
use space_race::movement::Actor;
use space_race::movement::Arena;
use space_race::movement::ResolveMode;
use space_race::state::GameOutcome;
use space_race::state::GameState;

fn v(x: i64, y: i64) -> Vec2 {
    Vec2 { x, y }
}

fn obj(x: i64, y: i64, w: i64, h: i64, kind: Collider) -> CollidableObject {
    CollidableObject { position: v(x, y), size: v(w, h), kind }
}

#[test]
fn scorable_scores_and_is_removed_exactly_once() {
    let mut state = GameState::new();
    let mut objects = vec![obj(0, 0, 10, 10, Collider::Scorable)];
    let r = interact(&mut state, &mut objects, v(0, 0), v(10, 10), 5);
    assert_eq!(r, Some(0));
    assert_eq!(state.score, 1);
    assert!(objects.is_empty());

    // The next tick finds no object: exactly one scoring event happened.
    let r2 = interact(&mut state, &mut objects, v(0, 0), v(10, 10), 5);
    assert_eq!(r2, None);
    assert_eq!(state.score, 1);
}

#[test]
fn scorable_removed_but_not_counted_after_terminal() {
    let mut state = GameState::new();
    state.try_finish(GameOutcome::Lost);
    let mut objects = vec![obj(0, 0, 10, 10, Collider::Scorable)];
    interact(&mut state, &mut objects, v(0, 0), v(10, 10), 5);
    assert!(objects.is_empty());
    assert_eq!(state.score, 0);
    assert_eq!(state.outcome, GameOutcome::Lost);
}

#[test]
fn goal_needs_the_threshold() {
    let mut state = GameState::new();
    let mut objects = vec![obj(0, 0, 10, 10, Collider::Goal)];
    interact(&mut state, &mut objects, v(0, 0), v(10, 10), 5);
    assert_eq!(state.outcome, GameOutcome::InProgress);
    assert_eq!(objects.len(), 1);
}

#[test]
fn hazard_loses_the_round() {
    let mut state = GameState::new();
    let mut objects = vec![obj(0, 0, 10, 10, Collider::Hazard)];
    interact(&mut state, &mut objects, v(0, 0), v(10, 10), 5);
    assert_eq!(state.outcome, GameOutcome::Lost);
    assert_eq!(objects.len(), 1);
}

#[test]
fn collect_five_then_win_and_stay_won() {
    // Scoreboard starts at 0 and the win threshold is 5. The first hit
    // leaves the score at 1 with the round in progress; after the fifth
    // distinct collectible and a visit to the goal the round is won, and a
    // hazard contact afterwards cannot change that.
    let mut state = GameState::new();
    let mut objects = vec![
        obj(0, 0, 10, 10, Collider::Scorable),
        obj(0, 0, 10, 10, Collider::Scorable),
        obj(0, 0, 10, 10, Collider::Scorable),
        obj(0, 0, 10, 10, Collider::Scorable),
        obj(0, 0, 10, 10, Collider::Scorable),
        obj(0, 0, 10, 10, Collider::Goal),
    ];
    interact(&mut state, &mut objects, v(0, 0), v(10, 10), 5);
    assert_eq!(state.score, 1);
    assert_eq!(state.outcome, GameOutcome::InProgress);
    for _ in 0..4 {
        interact(&mut state, &mut objects, v(0, 0), v(10, 10), 5);
    }
    assert_eq!(state.score, 5);
    assert_eq!(state.outcome, GameOutcome::InProgress);

    interact(&mut state, &mut objects, v(0, 0), v(10, 10), 5);
    assert_eq!(state.outcome, GameOutcome::Won);

    objects.insert(0, obj(0, 0, 10, 10, Collider::Hazard));
    interact(&mut state, &mut objects, v(0, 0), v(10, 10), 5);
    assert_eq!(state.outcome, GameOutcome::Won);
    assert_eq!(state.score, 5);
}

#[test]
fn only_the_first_overlapping_object_interacts() {
    let mut state = GameState::new();
    let mut objects = vec![
        obj(0, 0, 10, 10, Collider::Scorable),
        obj(0, 0, 12, 12, Collider::Scorable),
    ];
    let r = interact(&mut state, &mut objects, v(0, 0), v(10, 10), 5);
    assert_eq!(r, Some(0));
    assert_eq!(state.score, 1);
    assert_eq!(objects.len(), 1);
    assert_eq!(objects[0].size, v(12, 12));
}

#[test]
fn a_solid_first_hit_blocks_the_tick() {
    // The iteration stops at the first intersecting object even when it is
    // solid: with a collectible behind it, nothing scores this tick.
    let mut state = GameState::new();
    let mut objects = vec![
        obj(0, 0, 10, 10, Collider::Solid),
        obj(0, 0, 10, 10, Collider::Scorable),
    ];
    let r = interact(&mut state, &mut objects, v(0, 0), v(10, 10), 5);
    assert_eq!(r, Some(0));
    assert_eq!(state.score, 0);
    assert_eq!(objects.len(), 2);
}

#[test]
fn first_overlap_index_ignores_touching_edges() {
    let objects = vec![
        obj(20, 0, 10, 10, Collider::Scorable),
        obj(10, 0, 10, 10, Collider::Scorable),
    ];
    // The actor spans x in [-5, 5]: it touches the second object's edge at 5
    // without overlap; grown to extent 12 it overlaps the second one only.
    assert_eq!(first_overlap_index(v(0, 0), v(10, 10), &objects), None);
    assert_eq!(first_overlap_index(v(0, 0), v(12, 12), &objects), Some(1));
}

#[test]
fn solid_objects_keeps_only_solids_in_order() {
    let colliders = vec![
        obj(1, 1, 2, 2, Collider::Scorable),
        obj(3, 3, 4, 4, Collider::Solid),
        obj(5, 5, 6, 6, Collider::Goal),
        obj(7, 7, 8, 8, Collider::Solid),
    ];
    let solids = solid_objects(&colliders);
    assert_eq!(solids.len(), 2);
    assert_eq!(solids[0].position, v(3, 3));
    assert_eq!(solids[1].position, v(7, 7));
}

#[test]
fn check_hazard_contact_latches_a_loss() {
    let mut state = GameState::new();
    check_hazard_contact(&mut state, v(0, 0), v(10, 10), v(100, 0), v(10, 10));
    assert_eq!(state.outcome, GameOutcome::InProgress);
    check_hazard_contact(&mut state, v(0, 0), v(10, 10), v(5, 0), v(10, 10));
    assert_eq!(state.outcome, GameOutcome::Lost);

    let mut won = GameState::new();
    won.try_finish(GameOutcome::Won);
    check_hazard_contact(&mut won, v(0, 0), v(10, 10), v(5, 0), v(10, 10));
    assert_eq!(won.outcome, GameOutcome::Won);
}

#[test]
fn tick_moves_then_scores() {
    let arena = Arena::new(-450, 450, -300, 300, 10);
    let mut state = GameState::new();
    let mut objects = vec![obj(8, 0, 4, 4, Collider::Scorable)];
    let mut actor = Actor::new(v(0, 0), v(4, 4), 500);
    let r = tick_actor(
        &mut state,
        &mut objects,
        &mut actor,
        16,
        1,
        0,
        &arena,
        ResolveMode::Slide,
        5,
    );
    assert_eq!(actor.position, v(8, 0));
    assert_eq!(r, Some(0));
    assert_eq!(state.score, 1);
    assert!(objects.is_empty());
}

#[test]
fn tick_slides_off_a_wall() {
    let arena = Arena::new(-450, 450, -300, 300, 10);
    let mut state = GameState::new();
    let mut objects = vec![obj(100, 0, 20, 20, Collider::Solid)];
    let mut actor = Actor::new(v(80, 0), v(20, 20), 500);
    let r = tick_actor(
        &mut state,
        &mut objects,
        &mut actor,
        16,
        1,
        1,
        &arena,
        ResolveMode::Slide,
        5,
    );
    assert_eq!(actor.position, v(80, 20));
    assert_eq!(r, None);
    assert_eq!(state.score, 0);
    assert_eq!(objects.len(), 1);
}
