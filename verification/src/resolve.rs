//! The static terrain and the last stage of a tick: testing the body against
//! every obstacle and correcting it where it has struck one.

use vstd::prelude::*;
use crate::body::{Body, BodyState, PhysicsError, Velocity};
use crate::geometry::{collide, collide_spec, rect_of, Collision, Position, Rect, Size};
use crate::units::TOP_SNAP_OFFSET;

verus! {

/// A piece of terrain. It is made once and never changes.
#[derive(Clone, Copy, Debug, PartialEq, Eq)]
pub struct Obstacle {
    position: Position,
    size: Size,
}

/// The record of one contact: which obstacle, by its place in the terrain,
/// and which of its sides was struck.
#[derive(Clone, Copy, Debug, PartialEq, Eq, Structural)]
pub struct Contact {
    pub obstacle: usize,
    pub side: Collision,
}

impl View for Obstacle {
    type V = Rect;

    open spec fn view(&self) -> Rect {
        rect_of(self.spec_position(), self.spec_size())
    }
}

impl Obstacle {
    /// The centre.
    pub closed spec fn spec_position(&self) -> Position {
        self.position
    }

    /// The extent.
    pub closed spec fn spec_size(&self) -> Size {
        self.size
    }

    /// An obstacle with the given centre and extent.
    pub fn new(position: Position, size: Size) -> (obstacle: Obstacle)
        ensures
            obstacle.spec_position() == position,
            obstacle.spec_size() == size,
    {
        Obstacle { position, size }
    }

    /// The obstacle's centre.
    #[verifier::when_used_as_spec(spec_position)]
    pub fn position(&self) -> (position: Position)
        ensures
            position == self.spec_position(),
    {
        self.position
    }

    /// The obstacle's extent.
    #[verifier::when_used_as_spec(spec_size)]
    pub fn size(&self) -> (size: Size)
        ensures
            size == self.spec_size(),
    {
        self.size
    }
}

/// The rectangles of a terrain, in its order.
pub open spec fn rects_of(obstacles: Seq<Obstacle>) -> Seq<Rect> {
    Seq::new(obstacles.len(), |i: int| obstacles[i]@)
}

/// No two rectangles of the terrain overlap; they may touch.
pub open spec fn pairwise_apart(rects: Seq<Rect>) -> bool {
    forall|i: int, j: int|
        #![trigger rects[i], rects[j]]
        0 <= i < j < rects.len() ==> !rects[i].overlaps(rects[j])
}

impl BodyState {
    /// The body after it has answered a contact on `side` of `obstacle`.
    /// Landing on the top stops the body and puts its centre a fixed
    /// distance above the obstacle's centre. Striking the underside stops
    /// it where it is. The other sides change nothing.
    pub open spec fn respond(self, obstacle: Rect, side: Collision) -> BodyState {
        match side {
            Collision::Top => BodyState { y: obstacle.y + TOP_SNAP_OFFSET, vx: 0, vy: 0, ..self },
            Collision::Bottom => BodyState { vx: 0, vy: 0, ..self },
            _ => self,
        }
    }

    /// The body after it has been tested against one obstacle.
    pub open spec fn resolve_contact(self, obstacle: Rect) -> BodyState {
        match collide_spec(self.rect(), obstacle) {
            Some(side) => self.respond(obstacle, side),
            None => self,
        }
    }
}

/// The body after the first `count` obstacles have been dealt with, one
/// after the other: each is tested against the body as the earlier ones
/// left it, so a later correction replaces an earlier one.
pub open spec fn resolve_prefix(body: BodyState, obstacles: Seq<Rect>, count: nat) -> BodyState
    decreases count,
{
    if count == 0 {
        body
    } else {
        resolve_prefix(body, obstacles, (count - 1) as nat).resolve_contact(obstacles[count - 1])
    }
}

/// The contacts that the first `count` obstacles give, in the order of the
/// terrain.
pub open spec fn contacts_prefix(body: BodyState, obstacles: Seq<Rect>, count: nat) -> Seq<
    Contact,
>
    decreases count,
{
    if count == 0 {
        Seq::empty()
    } else {
        let earlier = contacts_prefix(body, obstacles, (count - 1) as nat);
        let reached = resolve_prefix(body, obstacles, (count - 1) as nat);
        match collide_spec(reached.rect(), obstacles[count - 1]) {
            Some(side) => earlier.push(Contact { obstacle: (count - 1) as usize, side }),
            None => earlier,
        }
    }
}

/// Every state that the body goes through while the first `count` obstacles
/// are dealt with fits 64-bit integers.
pub open spec fn prefix_representable(body: BodyState, obstacles: Seq<Rect>, count: nat) -> bool
    decreases count,
{
    &&& resolve_prefix(body, obstacles, count).representable()
    &&& count > 0 ==> prefix_representable(body, obstacles, (count - 1) as nat)
}

/// The body after a whole pass over the terrain.
pub open spec fn resolve_all(body: BodyState, obstacles: Seq<Rect>) -> BodyState {
    resolve_prefix(body, obstacles, obstacles.len())
}

/// The contacts of a whole pass over the terrain.
pub open spec fn contacts_of(body: BodyState, obstacles: Seq<Rect>) -> Seq<Contact> {
    contacts_prefix(body, obstacles, obstacles.len())
}

/// Every state of a whole pass over the terrain fits 64-bit integers.
pub open spec fn pass_representable(body: BodyState, obstacles: Seq<Rect>) -> bool {
    prefix_representable(body, obstacles, obstacles.len())
}

/// A pass that goes wrong early has gone wrong: what holds of a longer
/// prefix holds of each shorter one.
pub proof fn lemma_prefix_representable_shrinks(
    body: BodyState,
    obstacles: Seq<Rect>,
    shorter: nat,
    longer: nat,
)
    requires
        shorter <= longer,
        prefix_representable(body, obstacles, longer),
    ensures
        prefix_representable(body, obstacles, shorter),
    decreases longer,
{
    if shorter < longer {
        lemma_prefix_representable_shrinks(body, obstacles, shorter, (longer - 1) as nat);
    }
}

/// Corrects the body for a contact on `side` of `obstacle`. Fails, and
/// leaves the body as it was, exactly when the corrected height would not
/// fit a 64-bit integer.
pub fn respond_to_contact(body: &mut Body, obstacle: &Obstacle, side: Collision) -> (done: Result<
    (),
    PhysicsError,
>)
    ensures
        done is Ok <==> old(body)@.respond(obstacle@, side).representable(),
        done is Ok ==> final(body)@ == old(body)@.respond(obstacle@, side),
        done is Err ==> *final(body) == *old(body),
        final(body).spec_size() == old(body).spec_size(),
{
    match side {
        Collision::Top => {
            match obstacle.position().y.checked_add(TOP_SNAP_OFFSET) {
                Some(y) => {
                    let at: Position = body.position();
                    body.set_velocity(Velocity { x: 0, y: 0 });
                    body.set_position(Position { x: at.x, y, z: at.z });
                    Ok(())
                },
                None => Err(PhysicsError::OutOfRange),
            }
        },
        Collision::Bottom => {
            body.set_velocity(Velocity { x: 0, y: 0 });
            Ok(())
        },
        Collision::Left | Collision::Right | Collision::Inside => Ok(()),
    }
}

/// Last stage of a tick: tests the body against each obstacle in turn,
/// corrects it for each contact, and returns the contacts in the order of
/// the terrain. Fails, and leaves the body as it was, exactly when a
/// corrected height would not fit a 64-bit integer.
pub fn check_for_collisions(body: &mut Body, obstacles: &Vec<Obstacle>) -> (outcome: Result<
    Vec<Contact>,
    PhysicsError,
>)
    ensures
        outcome is Ok <==> pass_representable(old(body)@, rects_of(obstacles@)),
        outcome matches Ok(contacts) ==> {
            &&& final(body)@ == resolve_all(old(body)@, rects_of(obstacles@))
            &&& contacts@ == contacts_of(old(body)@, rects_of(obstacles@))
        },
        outcome is Err ==> *final(body) == *old(body),
        final(body).spec_size() == old(body).spec_size(),
{
    let start: Body = *body;
    let ghost rects = rects_of(obstacles@);
    let mut contacts: Vec<Contact> = Vec::new();
    let mut i: usize = 0;
    while i < obstacles.len()
        invariant
            i <= obstacles.len(),
            rects == rects_of(obstacles@),
            start == *old(body),
            body@ == resolve_prefix(start@, rects, i as nat),
            contacts@ == contacts_prefix(start@, rects, i as nat),
            prefix_representable(start@, rects, i as nat),
            body.spec_size() == start.spec_size(),
        decreases obstacles.len() - i,
    {
        let obstacle: &Obstacle = &obstacles[i];
        assert(rects[i as int] == obstacle@);
        let hit: Option<Collision> = collide(
            body.position(),
            body.size(),
            obstacle.position(),
            obstacle.size(),
        );
        if let Some(side) = hit {
            contacts.push(Contact { obstacle: i, side });
            if respond_to_contact(body, obstacle, side).is_err() {
                proof {
                    if pass_representable(start@, rects) {
                        lemma_prefix_representable_shrinks(
                            start@,
                            rects,
                            (i + 1) as nat,
                            obstacles.len() as nat,
                        );
                    }
                }
                *body = start;
                return Err(PhysicsError::OutOfRange);
            }
        }
        i = i + 1;
    }
    Ok(contacts)
}

/// A pass over a single obstacle whose top the body has struck stops the
/// body and puts its centre the fixed distance above the obstacle's centre,
/// and reports that one contact.
pub proof fn lemma_top_contact_snaps(body: BodyState, obstacle: Rect)
    requires
        collide_spec(body.rect(), obstacle) == Some(Collision::Top),
    ensures
        resolve_all(body, seq![obstacle]).vx == 0,
        resolve_all(body, seq![obstacle]).vy == 0,
        resolve_all(body, seq![obstacle]).y == obstacle.y + TOP_SNAP_OFFSET,
        resolve_all(body, seq![obstacle]).x == body.x,
        contacts_of(body, seq![obstacle]) == seq![Contact { obstacle: 0, side: Collision::Top }],
{
    let terrain = seq![obstacle];
    assert(terrain.len() == 1);
    assert(terrain[0] == obstacle);
    reveal_with_fuel(resolve_prefix, 2);
    reveal_with_fuel(contacts_prefix, 2);
    assert(resolve_prefix(body, terrain, 0) == body);
    assert(contacts_prefix(body, terrain, 1) =~= seq![
        Contact { obstacle: 0, side: Collision::Top },
    ]);
}

/// A body that came down onto an obstacle with no horizontal offset is,
/// after a pass over that obstacle, at rest the fixed distance above the
/// obstacle's centre.
pub proof fn lemma_landing_snaps(body: BodyState, obstacle: Rect)
    requires
        body.x == obstacle.x,
        body.rect().enters_from_above(obstacle),
    ensures
        resolve_all(body, seq![obstacle]).vx == 0,
        resolve_all(body, seq![obstacle]).vy == 0,
        resolve_all(body, seq![obstacle]).y == obstacle.y + TOP_SNAP_OFFSET,
{
    crate::geometry::lemma_centred_from_above_is_top(body.rect(), obstacle);
    lemma_top_contact_snaps(body, obstacle);
}

/// A body that has struck the underside of an obstacle is stopped and not
/// moved: it may stay sunk in the obstacle.
pub proof fn lemma_bottom_contact_stops_in_place(body: BodyState, obstacle: Rect)
    requires
        collide_spec(body.rect(), obstacle) == Some(Collision::Bottom),
    ensures
        body.resolve_contact(obstacle) == (BodyState { vx: 0, vy: 0, ..body }),
{
}

/// A contact on the left, on the right or inside changes nothing.
pub proof fn lemma_side_contact_changes_nothing(body: BodyState, obstacle: Rect)
    requires
        collide_spec(body.rect(), obstacle) is Some,
        collide_spec(body.rect(), obstacle) != Some(Collision::Top),
        collide_spec(body.rect(), obstacle) != Some(Collision::Bottom),
    ensures
        body.resolve_contact(obstacle) == body,
{
}

/// A pass during which the body touches none of the first `count`
/// obstacles leaves it as it was and reports nothing.
pub proof fn lemma_untouched_pass_changes_nothing(
    body: BodyState,
    obstacles: Seq<Rect>,
    count: nat,
)
    requires
        count <= obstacles.len(),
        forall|i: int| 0 <= i < count ==> !body.rect().overlaps(#[trigger] obstacles[i]),
    ensures
        resolve_prefix(body, obstacles, count) == body,
        contacts_prefix(body, obstacles, count) == Seq::<Contact>::empty(),
    decreases count,
{
    if count > 0 {
        lemma_untouched_pass_changes_nothing(body, obstacles, (count - 1) as nat);
        assert(!body.rect().overlaps(obstacles[count - 1]));
    }
}

/// Within one pass a later correction replaces an earlier one: after the
/// pass the body is as the last obstacle left it.
pub proof fn lemma_last_obstacle_decides(body: BodyState, obstacles: Seq<Rect>)
    requires
        obstacles.len() > 0,
    ensures
        resolve_all(body, obstacles) == resolve_prefix(
            body,
            obstacles,
            (obstacles.len() - 1) as nat,
        ).resolve_contact(obstacles.last()),
{
}

} // verus!
