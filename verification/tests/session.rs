use platformer::body::{Body, Intent, PhysicsError, Velocity};
use platformer::geometry::{Collision, Position, Size};
use platformer::level::{make_field, make_mario};
use platformer::resolve::{Contact, Obstacle};
use platformer::world::{TickReport, World};

const NONE: Intent = Intent { left: false, right: false, up: false, down: false };

fn body(x: i64, y: i64, vx: i64, vy: i64) -> Body {
    Body::new(
        Position { x, y, z: 0 },
        Velocity { x: vx, y: vy },
        Size::new(100, 200).expect("positive extents"),
    )
}

fn block(x: i64, y: i64) -> Obstacle {
    Obstacle::new(Position { x, y, z: 0 }, Size::square(100).expect("positive side"))
}

fn world(body: Body, terrain: Vec<Obstacle>) -> World {
    World::new(body, terrain).expect("obstacles apart")
}

#[test]
fn mario_starts_at_rest_at_the_origin() {
    let mario = make_mario();
    assert_eq!(mario.position(), Position { x: 0, y: 0, z: 0 });
    assert_eq!(mario.velocity(), Velocity { x: 0, y: 0 });
    assert_eq!((mario.size().width(), mario.size().height()), (100, 200));
}

#[test]
fn field_is_a_row_of_blocks_across_the_screen() {
    let field = make_field();
    assert_eq!(field.len(), 32);
    for (i, obstacle) in field.iter().enumerate() {
        assert_eq!(
            obstacle.position(),
            Position { x: -1550 + 100 * i as i64, y: -1200, z: 0 }
        );
        assert_eq!(obstacle.size(), Size::square(100).expect("positive side"));
    }
    assert_eq!(field[0].position().x, -1550);
    assert_eq!(field[31].position().x, 1550);
}

#[test]
fn field_makes_a_world() {
    let w = World::new(make_mario(), make_field()).expect("floor blocks apart");
    assert_eq!(w.obstacles().len(), 32);
    assert_eq!(w.obstacles(), &make_field());
    assert_eq!(w.body(), make_mario());
    assert_eq!(w.last_contact(), None);
}

#[test]
fn world_rejects_overlapping_obstacles() {
    assert!(World::new(make_mario(), vec![block(0, 0), block(99, 0)]).is_none());
    assert!(World::new(make_mario(), vec![block(0, 0), block(500, 0), block(0, 0)]).is_none());
    assert!(World::new(make_mario(), vec![block(0, 0), block(500, 0), block(450, -30)]).is_none());
    // Touching is not overlapping.
    assert!(World::new(make_mario(), vec![block(0, 0), block(100, 0), block(0, 100)]).is_some());
    assert!(World::new(make_mario(), Vec::new()).is_some());
    assert!(World::new(make_mario(), vec![block(0, 0)]).is_some());
}

#[test]
fn airborne_tick_is_gravity_only() {
    // Body at y = -50 px, velocity (0, 5) px per tick, nothing near.
    let mut w = world(body(0, -500, 0, 50), make_field());
    let report = w.tick(NONE).expect("in range");
    assert_eq!(report, TickReport { grounded: false, contacts: Vec::new() });
    assert_eq!(w.velocity(), Velocity { x: 0, y: 49 });
    assert_eq!(w.position(), Position { x: 0, y: -450, z: 0 });
    assert_eq!(w.last_contact(), None);
}

#[test]
fn landing_resets_velocity_and_snaps() {
    // An obstacle at y = -110 px under a descending body 20 px tall.
    let mut w = world(body(0, -930, 0, -20), vec![block(0, -1100)]);
    // Bottom edge at -103 px, the obstacle's top at -105 px: no contact yet.
    // After this tick the bottom edge is at -105 px: they touch, no more.
    let report = w.tick(NONE).expect("in range");
    assert_eq!(report.contacts, Vec::new());
    assert_eq!(w.position().y, -950);
    assert_eq!(w.velocity(), Velocity { x: 0, y: -21 });
    // This tick takes it 2.1 px into the obstacle.
    let report = w.tick(NONE).expect("in range");
    assert_eq!(report.contacts, vec![Contact { obstacle: 0, side: Collision::Top }]);
    assert!(!report.grounded);
    assert_eq!(w.velocity(), Velocity { x: 0, y: 0 });
    assert_eq!(w.position(), Position { x: 0, y: -1100 + 150, z: 0 });
    assert_eq!(w.last_contact(), Some(Contact { obstacle: 0, side: Collision::Top }));
}

#[test]
fn grounded_left_sets_horizontal_velocity() {
    for prior in [0, 35, -35, 20, -20] {
        let mut w = world(body(0, -1100, prior, 0), Vec::new());
        let report = w.tick(Intent { left: true, ..NONE }).expect("in range");
        assert!(report.grounded);
        assert_eq!(w.velocity().x, -20);
        assert_eq!(w.position().x, -20);
    }
}

#[test]
fn tick_steers_then_moves_then_resolves() {
    // Grounded, jumping to the right under a low ceiling: the new velocity
    // moves the body in the same tick, and the contact is found where the
    // move has taken it.
    let ceiling = block(20, -940);
    let mut w = world(body(0, -1100, 0, 0), vec![ceiling]);
    let report = w.tick(Intent { right: true, up: true, ..NONE }).expect("in range");
    assert!(report.grounded);
    assert_eq!(report.contacts, vec![Contact { obstacle: 0, side: Collision::Bottom }]);
    assert_eq!(w.position(), Position { x: 20, y: -1070, z: 0 });
    assert_eq!(w.velocity(), Velocity { x: 0, y: 0 });
}

#[test]
fn jump_rises_and_falls_back() {
    let mut w = world(body(0, -1050, 0, 0), Vec::new());
    let report = w.tick(Intent { up: true, ..NONE }).expect("in range");
    assert!(report.grounded);
    assert_eq!(w.position().y, -1020);
    assert_eq!(w.velocity().y, 29);
    // In the air the held direction counts for nothing.
    let mut height = -1020;
    for tick in 1..=60 {
        let report = w.tick(Intent { left: true, up: true, ..NONE }).expect("in range");
        if height > -1050 {
            assert!(!report.grounded);
        }
        height += 30 - tick;
        if height > -1050 {
            assert_eq!(w.position().y, height);
            assert_eq!(w.velocity(), Velocity { x: 0, y: 29 - tick });
        } else {
            break;
        }
    }
}

#[test]
fn mario_falls_to_the_floor_and_rests_on_it() {
    let mut w = world(make_mario(), make_field());
    let mut ticks = 0;
    let landing = loop {
        let report = w.tick(NONE).expect("in range");
        ticks += 1;
        if !report.contacts.is_empty() {
            break report;
        }
        assert_eq!(w.velocity(), Velocity { x: 0, y: -ticks });
        assert_eq!(w.position().y, -ticks * (ticks - 1) / 2);
        assert!(ticks < 100);
    };
    // After 47 ticks the body is 108.1 px down, 3.1 px into the floor, over
    // the seam of two blocks; the left one is tested first and lifts it clear.
    assert_eq!(ticks, 47);
    assert_eq!(landing.contacts, vec![Contact { obstacle: 15, side: Collision::Top }]);
    assert!(!landing.grounded);
    assert_eq!(w.position(), Position { x: 0, y: -1050, z: 0 });
    assert_eq!(w.velocity(), Velocity { x: 0, y: 0 });

    // At rest the body touches the floor: a tick without contact, in which
    // gravity starts again.
    let report = w.tick(NONE).expect("in range");
    assert_eq!(report, TickReport { grounded: true, contacts: Vec::new() });
    assert_eq!(w.position().y, -1050);
    assert_eq!(w.velocity(), Velocity { x: 0, y: -1 });
    assert_eq!(w.last_contact(), Some(Contact { obstacle: 15, side: Collision::Top }));

    // The next one sinks it a tenth of a pixel and the floor lifts it again.
    let report = w.tick(NONE).expect("in range");
    assert_eq!(report.contacts, vec![Contact { obstacle: 15, side: Collision::Top }]);
    assert_eq!(w.position().y, -1050);
    assert_eq!(w.velocity(), Velocity { x: 0, y: 0 });
}

#[test]
fn walking_moves_along_the_floor() {
    let mut w = world(body(0, -1050, 0, 0), make_field());
    let report = w.tick(Intent { right: true, ..NONE }).expect("in range");
    assert_eq!(report, TickReport { grounded: true, contacts: Vec::new() });
    assert_eq!(w.position(), Position { x: 20, y: -1050, z: 0 });
    assert_eq!(w.velocity(), Velocity { x: 20, y: -1 });
    // The next tick sinks the body into the floor, which stops it.
    let report = w.tick(Intent { right: true, ..NONE }).expect("in range");
    assert_eq!(report.contacts, vec![Contact { obstacle: 15, side: Collision::Top }]);
    assert_eq!(w.position(), Position { x: 40, y: -1050, z: 0 });
    assert_eq!(w.velocity(), Velocity { x: 0, y: 0 });
}

#[test]
fn last_contact_outlives_ticks_without_contact() {
    let mut w = world(body(0, -960, 0, -30), vec![block(0, -1100), block(0, 5000)]);
    assert_eq!(w.last_contact(), None);
    let report = w.tick(NONE).expect("in range");
    assert_eq!(report.contacts, vec![Contact { obstacle: 0, side: Collision::Top }]);
    assert_eq!(w.last_contact(), Some(Contact { obstacle: 0, side: Collision::Top }));
    let report = w.tick(NONE).expect("in range");
    assert_eq!(report.contacts, Vec::new());
    assert_eq!(w.last_contact(), Some(Contact { obstacle: 0, side: Collision::Top }));
}

#[test]
fn terrain_never_changes() {
    let mut w = world(make_mario(), make_field());
    for _ in 0..200 {
        w.tick(Intent { left: true, right: false, up: true, down: true }).expect("in range");
        assert_eq!(w.obstacles(), &make_field());
        assert_eq!(w.body().size(), make_mario().size());
    }
}

#[test]
fn tick_out_of_range_fails_and_changes_nothing() {
    let start = body(i64::MAX - 5, 0, 6, 0);
    let mut w = world(start, make_field());
    assert_eq!(w.tick(NONE), Err(PhysicsError::OutOfRange));
    assert_eq!(w.body(), start);
    assert_eq!(w.last_contact(), None);

    // The move fits, the snap that follows it does not.
    let start = body(0, i64::MAX - 5, 0, -5);
    let mut w = world(start, vec![block(0, i64::MAX - 140)]);
    assert_eq!(w.tick(NONE), Err(PhysicsError::OutOfRange));
    assert_eq!(w.body(), start);
    assert_eq!(w.last_contact(), None);
}
