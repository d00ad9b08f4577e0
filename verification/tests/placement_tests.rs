use space_race::geometry::Vec2;
use space_race::geometry::intersects;
use space_race::interaction::CollidableObject;
use space_race::interaction::Collider;
use space_race::movement::Arena;
use space_race::placement::PlacementRequest;
use space_race::placement::boundary_walls;
use space_race::placement::find_free_spot;
use space_race::placement::generate_layout;
use space_race::placement::grid_layout;
use space_race::placement::try_reposition;

fn v(x: i64, y: i64) -> Vec2 {
    Vec2 { x, y }
}

fn assert_pairwise_clear(placed: &[CollidableObject]) {
    for i in 0..placed.len() {
        for j in 0..placed.len() {
            if i != j {
                assert!(
                    !intersects(placed[i].position, placed[i].size, placed[j].position, placed[j].size),
                    "objects {} and {} overlap",
                    i,
                    j
                );
            }
        }
    }
}

#[test]
fn rejection_sampling_layout_has_no_overlaps() {
    let arena = Arena::new(-450, 450, -300, 300, 10);
    let zone_pos = v(-400, 100);
    let zone_size = v(48, 48);
    let mut requests = Vec::new();
    for _ in 0..10 {
        requests.push(PlacementRequest { size: v(48, 48), kind: Collider::Scorable });
    }
    for _ in 0..5 {
        requests.push(PlacementRequest { size: v(30, 30), kind: Collider::Solid });
    }
    let placed = generate_layout(&arena, &requests, zone_pos, zone_size, 20);
    assert!(placed.len() <= requests.len());
    assert_pairwise_clear(&placed);
    for o in placed.iter() {
        assert!(!intersects(o.position, o.size, zone_pos, zone_size));
        match o.kind {
            Collider::Scorable => assert_eq!(o.size, v(48, 48)),
            Collider::Solid => assert_eq!(o.size, v(30, 30)),
            _ => panic!("unexpected kind"),
        }
    }
}

#[test]
fn find_free_spot_draws_inside_the_band() {
    // With extent 0 and walls 0 the band is (x_min, x_max) exclusive; a
    // two-unit-wide arena leaves exactly one admissible coordinate per axis,
    // so the draw is forced.
    let arena = Arena::new(0, 2, 10, 12, 0);
    let placed: Vec<CollidableObject> = Vec::new();
    let spot = find_free_spot(&arena, v(0, 0), &placed, v(500, 500), v(0, 0), 3);
    assert_eq!(spot, Some(v(1, 11)));
}

#[test]
fn forced_placement_is_deterministic() {
    // A band with exactly one admissible coordinate per axis and a far-away
    // protected zone leave the generator no choice: the single request must
    // be placed, at the only possible spot.
    let arena = Arena::new(0, 2, 10, 12, 0);
    let requests = vec![PlacementRequest { size: v(0, 0), kind: Collider::Solid }];
    let placed = generate_layout(&arena, &requests, v(500, 500), v(0, 0), 1);
    assert_eq!(placed.len(), 1);
    assert_eq!(placed[0].position, v(1, 11));
    assert_eq!(placed[0].size, v(0, 0));
    assert_eq!(placed[0].kind, Collider::Solid);
}

#[test]
fn forced_reposition_is_deterministic() {
    let arena = Arena::new(0, 2, 10, 12, 0);
    let objects: Vec<CollidableObject> = Vec::new();
    let mut position = v(500, 500);
    let moved = try_reposition(&mut position, v(0, 0), &objects, &arena, v(500, 500), v(0, 0), 1);
    assert!(moved);
    assert_eq!(position, v(1, 11));
}

#[test]
fn find_free_spot_gives_up_without_room() {
    let arena = Arena::new(0, 1, 0, 1, 0);
    let placed: Vec<CollidableObject> = Vec::new();
    let spot = find_free_spot(&arena, v(0, 0), &placed, v(500, 500), v(0, 0), 100);
    assert_eq!(spot, None);
}

#[test]
fn reposition_skips_after_exhausted_attempts() {
    let arena = Arena::new(-100, 100, -100, 100, 10);
    let objects: Vec<CollidableObject> = Vec::new();
    let mut position = v(7, 7);
    let moved = try_reposition(&mut position, v(10, 10), &objects, &arena, v(0, 0), v(0, 0), 0);
    assert!(!moved);
    assert_eq!(position, v(7, 7));
}

#[test]
fn reposition_lands_clear_of_everything() {
    let arena = Arena::new(-100, 100, -100, 100, 10);
    let objects = vec![CollidableObject {
        position: v(50, 50),
        size: v(20, 20),
        kind: Collider::Solid,
    }];
    let zone_pos = v(-50, -50);
    let zone_size = v(40, 40);
    let mut position = v(7, 7);
    let moved = try_reposition(
        &mut position,
        v(10, 10),
        &objects,
        &arena,
        zone_pos,
        zone_size,
        1000,
    );
    // A thousand draws over this arena find a free spot in practice; when
    // one is committed it overlaps neither the object nor the zone and lies
    // inside the band.
    if moved {
        assert!(!intersects(position, v(10, 10), objects[0].position, objects[0].size));
        assert!(!intersects(position, v(10, 10), zone_pos, zone_size));
        assert!(position.x > -100 && position.x < 100);
        assert!(position.y > -100 && position.y < 100);
    } else {
        assert_eq!(position, v(7, 7));
    }
}

#[test]
fn full_lattice_when_every_trial_hits() {
    // Odds of 1 make every Bernoulli trial succeed, so the layout is
    // deterministic: five columns at x = -200..200 step 100, four rows at
    // y = -200..100 step 100, columns alternating solid and scorable.
    let arena = Arena::new(-500, 500, -300, 300, 100);
    let placed = grid_layout(&arena, 100, 1, 1, v(100, 100), v(25, 25));
    assert_eq!(placed.len(), 20);
    assert_pairwise_clear(&placed);
    let solids = placed.iter().filter(|o| o.kind == Collider::Solid).count();
    let scorables = placed.iter().filter(|o| o.kind == Collider::Scorable).count();
    assert_eq!(solids, 12);
    assert_eq!(scorables, 8);
    for o in placed.iter() {
        assert!(o.position.x >= -200 && o.position.x <= 200);
        assert!(o.position.y >= -200 && o.position.y <= 100);
        assert_eq!((o.position.x + 200) % 100, 0);
        assert_eq!((o.position.y + 200) % 100, 0);
        match o.kind {
            Collider::Solid => {
                assert_eq!(o.size, v(100, 100));
                // Solid columns sit at even multiples of the cell from the
                // first column.
                assert_eq!((o.position.x + 200) % 200, 0);
            }
            Collider::Scorable => {
                assert_eq!(o.size, v(25, 25));
                // Scorable columns alternate with them, one cell over.
                assert_eq!((o.position.x + 200) % 200, 100);
            }
            _ => panic!("unexpected kind"),
        }
    }
    assert_eq!(placed[0].position, v(-200, -200));
    assert_eq!(placed[0].kind, Collider::Solid);
}

#[test]
fn lattice_is_empty_in_a_tiny_arena() {
    let arena = Arena::new(0, 100, 0, 100, 10);
    let placed = grid_layout(&arena, 100, 2, 9, v(100, 100), v(25, 25));
    assert!(placed.is_empty());
}

#[test]
fn boundary_walls_close_the_arena() {
    let arena = Arena::new(-1500, 1500, -800, 800, 100);
    let walls = boundary_walls(&arena);
    assert_eq!(walls.len(), 4);
    for w in walls.iter() {
        assert_eq!(w.kind, Collider::Solid);
    }
    assert_eq!(walls[0].position, v(-1500, 0));
    assert_eq!(walls[0].size, v(100, 1700));
    assert_eq!(walls[1].position, v(1500, 0));
    assert_eq!(walls[1].size, v(100, 1700));
    assert_eq!(walls[2].position, v(0, -800));
    assert_eq!(walls[2].size, v(3100, 100));
    assert_eq!(walls[3].position, v(0, 800));
    assert_eq!(walls[3].size, v(3100, 100));
}
