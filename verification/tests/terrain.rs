use platformer::body::{Body, PhysicsError, Velocity};
use platformer::geometry::{Collision, Position, Size};
use platformer::resolve::{check_for_collisions, respond_to_contact, Contact, Obstacle};

fn body(x: i64, y: i64, vx: i64, vy: i64) -> Body {
    Body::new(
        Position { x, y, z: 0 },
        Velocity { x: vx, y: vy },
        Size::new(100, 200).expect("positive extents"),
    )
}

fn block(x: i64, y: i64) -> Obstacle {
    Obstacle::new(Position { x, y, z: 0 }, Size::square(100).expect("positive side"))
}

#[test]
fn obstacle_holds_what_it_was_given() {
    let o = Obstacle::new(Position { x: 1, y: 2, z: 3 }, Size::new(4, 5).expect("positive"));
    assert_eq!(o.position(), Position { x: 1, y: 2, z: 3 });
    assert_eq!(o.size(), Size::new(4, 5).expect("positive"));
}

#[test]
fn top_contact_stops_and_snaps() {
    let mut b = body(7, -1081, 3, -47);
    assert_eq!(respond_to_contact(&mut b, &block(0, -1200), Collision::Top), Ok(()));
    assert_eq!(b.velocity(), Velocity { x: 0, y: 0 });
    assert_eq!(b.position(), Position { x: 7, y: -1050, z: 0 });
}

#[test]
fn bottom_contact_stops_in_place() {
    let mut b = body(7, -1340, 3, 25);
    assert_eq!(respond_to_contact(&mut b, &block(0, -1200), Collision::Bottom), Ok(()));
    assert_eq!(b.velocity(), Velocity { x: 0, y: 0 });
    assert_eq!(b.position(), Position { x: 7, y: -1340, z: 0 });
}

#[test]
fn other_contacts_change_nothing() {
    for side in [Collision::Left, Collision::Right, Collision::Inside] {
        let mut b = body(7, -1200, 3, 25);
        assert_eq!(respond_to_contact(&mut b, &block(0, -1200), side), Ok(()));
        assert_eq!(b, body(7, -1200, 3, 25));
    }
}

#[test]
fn snap_out_of_range_fails_and_changes_nothing() {
    let high = block(0, i64::MAX - 149);
    let mut b = body(0, i64::MAX - 100, 3, -4);
    assert_eq!(respond_to_contact(&mut b, &high, Collision::Top), Err(PhysicsError::OutOfRange));
    assert_eq!(b, body(0, i64::MAX - 100, 3, -4));
    // One unit lower the snapped height is the largest that fits.
    let fits = block(0, i64::MAX - 150);
    assert_eq!(respond_to_contact(&mut b, &fits, Collision::Top), Ok(()));
    assert_eq!(b.position().y, i64::MAX);
}

#[test]
fn pass_over_nothing_changes_nothing() {
    let mut b = body(0, -500, 3, -4);
    assert_eq!(check_for_collisions(&mut b, &Vec::new()), Ok(Vec::new()));
    assert_eq!(b, body(0, -500, 3, -4));
}

#[test]
fn pass_over_distant_terrain_changes_nothing() {
    let terrain = vec![block(-1550, -1200), block(-1450, -1200), block(1550, -1200)];
    let mut b = body(0, -500, 3, -4);
    assert_eq!(check_for_collisions(&mut b, &terrain), Ok(Vec::new()));
    assert_eq!(b, body(0, -500, 3, -4));
}

#[test]
fn landing_on_one_block_snaps_to_it() {
    let terrain = vec![block(0, -1100)];
    let mut b = body(0, -960, 0, -30);
    let contacts = check_for_collisions(&mut b, &terrain);
    assert_eq!(contacts, Ok(vec![Contact { obstacle: 0, side: Collision::Top }]));
    assert_eq!(b.velocity(), Velocity { x: 0, y: 0 });
    assert_eq!(b.position(), Position { x: 0, y: -950, z: 0 });
}

#[test]
fn striking_the_underside_stops_without_moving() {
    let terrain = vec![block(0, 0)];
    let mut b = body(0, -140, 5, 30);
    let contacts = check_for_collisions(&mut b, &terrain);
    assert_eq!(contacts, Ok(vec![Contact { obstacle: 0, side: Collision::Bottom }]));
    assert_eq!(b.velocity(), Velocity { x: 0, y: 0 });
    assert_eq!(b.position(), Position { x: 0, y: -140, z: 0 });
}

#[test]
fn side_contacts_are_reported_and_change_nothing() {
    // The taller body covers the block from top to bottom and side to side.
    let terrain = vec![block(0, 0)];
    let mut b = body(0, 10, 20, -3);
    let contacts = check_for_collisions(&mut b, &terrain);
    assert_eq!(contacts, Ok(vec![Contact { obstacle: 0, side: Collision::Inside }]));
    assert_eq!(b, body(0, 10, 20, -3));

    let mut b = body(-95, 80, 20, -3);
    let contacts = check_for_collisions(&mut b, &terrain);
    assert_eq!(contacts, Ok(vec![Contact { obstacle: 0, side: Collision::Left }]));
    assert_eq!(b, body(-95, 80, 20, -3));

    let mut b = body(95, 80, 20, -3);
    let contacts = check_for_collisions(&mut b, &terrain);
    assert_eq!(contacts, Ok(vec![Contact { obstacle: 0, side: Collision::Right }]));
    assert_eq!(b, body(95, 80, 20, -3));
}

#[test]
fn snap_takes_the_body_off_the_next_block() {
    // The body has sunk into two neighbours; the first lifts it clear of both.
    let terrain = vec![block(-50, -1200), block(50, -1200)];
    let mut b = body(0, -1081, 0, -47);
    let contacts = check_for_collisions(&mut b, &terrain);
    assert_eq!(contacts, Ok(vec![Contact { obstacle: 0, side: Collision::Top }]));
    assert_eq!(b.position(), Position { x: 0, y: -1050, z: 0 });
    assert_eq!(b.velocity(), Velocity { x: 0, y: 0 });
}

#[test]
fn later_correction_replaces_an_earlier_one() {
    // Two blocks at different heights under the body: each is tested against
    // the body as the one before left it, and the last snap stands.
    let terrain = vec![block(-50, -1200), block(50, -1170)];
    let mut b = body(0, -1060, 0, -10);
    let contacts = check_for_collisions(&mut b, &terrain);
    assert_eq!(
        contacts,
        Ok(vec![
            Contact { obstacle: 0, side: Collision::Top },
            Contact { obstacle: 1, side: Collision::Top },
        ])
    );
    assert_eq!(b.position(), Position { x: 0, y: -1020, z: 0 });

    // In the other order the higher block lifts the body clear of the lower.
    let terrain = vec![block(50, -1170), block(-50, -1200)];
    let mut b = body(0, -1060, 0, -10);
    let contacts = check_for_collisions(&mut b, &terrain);
    assert_eq!(contacts, Ok(vec![Contact { obstacle: 0, side: Collision::Top }]));
    assert_eq!(b.position(), Position { x: 0, y: -1020, z: 0 });
}

#[test]
fn velocity_stays_zero_after_a_stop_in_the_same_pass() {
    // Stopped by an underside, then touching a side: the stop stands.
    let terrain = vec![block(0, 0), block(-90, -100)];
    let mut b = body(0, -140, 5, 30);
    let contacts = check_for_collisions(&mut b, &terrain);
    assert_eq!(
        contacts,
        Ok(vec![
            Contact { obstacle: 0, side: Collision::Bottom },
            Contact { obstacle: 1, side: Collision::Right },
        ])
    );
    assert_eq!(b.velocity(), Velocity { x: 0, y: 0 });
    assert_eq!(b.position(), Position { x: 0, y: -140, z: 0 });
}

#[test]
fn pass_out_of_range_fails_and_undoes_earlier_corrections() {
    let terrain = vec![block(-50, i64::MAX - 150), block(50, i64::MAX - 120)];
    // The first block lifts the body to the largest height there is; from
    // there it has landed on the second, whose snap does not fit.
    let mut b = body(0, i64::MAX - 10, 3, -4);
    assert_eq!(check_for_collisions(&mut b, &terrain), Err(PhysicsError::OutOfRange));
    assert_eq!(b, body(0, i64::MAX - 10, 3, -4));
    // Without the second block the pass succeeds.
    let terrain = vec![block(-50, i64::MAX - 150)];
    assert_eq!(
        check_for_collisions(&mut b, &terrain),
        Ok(vec![Contact { obstacle: 0, side: Collision::Top }])
    );
    assert_eq!(b.position().y, i64::MAX);
}

#[test]
fn tie_is_reported_as_inside_and_changes_nothing() {
    let square = Size::square(100).expect("positive side");
    let start = Body::new(Position { x: 80, y: -1020, z: 0 }, Velocity { x: -10, y: -10 }, square);
    let mut b = start;
    let contacts = check_for_collisions(&mut b, &vec![block(0, -1100)]);
    assert_eq!(contacts, Ok(vec![Contact { obstacle: 0, side: Collision::Inside }]));
    assert_eq!(b, start);
}
