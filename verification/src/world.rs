//! The simulation state and the tick that advances it.

use vstd::prelude::*;
use crate::body::{apply_velocity, move_mario, Body, BodyState, Intent, PhysicsError, Velocity};
use crate::geometry::{collide, Position, Rect};
use crate::resolve::{
    check_for_collisions, contacts_of, contacts_prefix, lemma_untouched_pass_changes_nothing,
    pairwise_apart, pass_representable, rects_of, resolve_all, Contact, Obstacle,
};
use crate::units::GRAVITY;

verus! {

/// One body and the terrain it moves over, with the most recent contact.
/// The terrain is fixed when the world is made, and no two of its
/// obstacles overlap.
pub struct World {
    body: Body,
    obstacles: Vec<Obstacle>,
    last_contact: Option<Contact>,
}

/// What one tick has to tell an observer.
#[derive(Debug, PartialEq, Eq)]
pub struct TickReport {
    /// Whether the body was found grounded as the tick began.
    pub grounded: bool,
    /// The contacts of the tick, in the order of the terrain.
    pub contacts: Vec<Contact>,
}

/// The body after one tick: steered, then moved, then corrected against
/// the terrain.
pub open spec fn tick_spec(body: BodyState, intent: Intent, obstacles: Seq<Rect>) -> BodyState {
    resolve_all(body.steer(intent).advance(), obstacles)
}

/// The contacts of one tick: those of the moved body, in the order of the
/// terrain.
pub open spec fn tick_contacts(body: BodyState, intent: Intent, obstacles: Seq<Rect>) -> Seq<
    Contact,
> {
    contacts_of(body.steer(intent).advance(), obstacles)
}

/// Every state that the body goes through during one tick fits 64-bit
/// integers.
pub open spec fn tick_representable(body: BodyState, intent: Intent, obstacles: Seq<Rect>) -> bool {
    &&& body.steer(intent).advance().representable()
    &&& pass_representable(body.steer(intent).advance(), obstacles)
}

/// The contact that an observer sees after a tick: the last one of the
/// tick, or the one seen before where the tick gave none.
pub open spec fn latest_contact(earlier: Option<Contact>, contacts: Seq<Contact>) -> Option<
    Contact,
> {
    if contacts.len() > 0 {
        Some(contacts.last())
    } else {
        earlier
    }
}

/// A world as the contracts see it.
pub struct WorldState {
    pub body: BodyState,
    pub obstacles: Seq<Rect>,
    pub last_contact: Option<Contact>,
}

impl WorldState {
    /// The world after one tick: the body steered, moved and corrected, the
    /// terrain as it was, and the latest contact kept up to date.
    pub open spec fn tick(self, intent: Intent) -> WorldState {
        WorldState {
            body: tick_spec(self.body, intent, self.obstacles),
            obstacles: self.obstacles,
            last_contact: latest_contact(
                self.last_contact,
                tick_contacts(self.body, intent, self.obstacles),
            ),
        }
    }
}

impl View for World {
    type V = WorldState;

    open spec fn view(&self) -> WorldState {
        WorldState {
            body: self.spec_body()@,
            obstacles: rects_of(self.spec_obstacles()),
            last_contact: self.spec_last_contact(),
        }
    }
}

/// Each of the first `count` obstacles gives at most one contact, and each
/// contact names one of them.
pub proof fn lemma_contacts_name_obstacles(body: BodyState, obstacles: Seq<Rect>, count: nat)
    requires
        count <= usize::MAX,
    ensures
        contacts_prefix(body, obstacles, count).len() <= count,
        forall|k: int|
            0 <= k < contacts_prefix(body, obstacles, count).len() ==> (
            #[trigger] contacts_prefix(body, obstacles, count)[k]).obstacle < count,
    decreases count,
{
    if count > 0 {
        lemma_contacts_name_obstacles(body, obstacles, (count - 1) as nat);
    }
}

impl World {
    /// The body as it is now.
    pub closed spec fn spec_body(&self) -> Body {
        self.body
    }

    /// The terrain, in its order.
    pub closed spec fn spec_obstacles(&self) -> Seq<Obstacle> {
        self.obstacles@
    }

    /// The most recent contact, if there has been one.
    pub closed spec fn spec_last_contact(&self) -> Option<Contact> {
        self.last_contact
    }

    /// No two obstacles overlap, and the most recent contact names an
    /// obstacle of this world. Holds of every `World` that executable code
    /// can get hold of.
    #[verifier::type_invariant]
    pub open spec fn well_formed(self) -> bool {
        &&& pairwise_apart(rects_of(self.spec_obstacles()))
        &&& self.spec_last_contact() matches Some(contact) ==> contact.obstacle
            < self.spec_obstacles().len()
    }

    /// A world with this body and this terrain and no contact yet, unless
    /// two of the obstacles overlap.
    pub fn new(body: Body, obstacles: Vec<Obstacle>) -> (world: Option<World>)
        ensures
            world is Some <==> pairwise_apart(rects_of(obstacles@)),
            world matches Some(w) ==> {
                &&& w.spec_body() == body
                &&& w.spec_obstacles() == obstacles@
                &&& w.spec_last_contact() is None
            },
    {
        let ghost rects = rects_of(obstacles@);
        let mut j: usize = 0;
        while j < obstacles.len()
            invariant
                j <= obstacles.len(),
                rects == rects_of(obstacles@),
                forall|p: int, q: int|
                    #![trigger rects[p], rects[q]]
                    0 <= p < q < j ==> !rects[p].overlaps(rects[q]),
            decreases obstacles.len() - j,
        {
            let mut i: usize = 0;
            while i < j
                invariant
                    i <= j < obstacles.len(),
                    rects == rects_of(obstacles@),
                    forall|p: int|
                        #![trigger rects[p]]
                        0 <= p < i ==> !rects[p].overlaps(rects[j as int]),
                decreases j - i,
            {
                let first: &Obstacle = &obstacles[i];
                let second: &Obstacle = &obstacles[j];
                assert(rects[i as int] == first@ && rects[j as int] == second@);
                if collide(first.position(), first.size(), second.position(), second.size())
                    .is_some() {
                    return None;
                }
                i = i + 1;
            }
            j = j + 1;
        }
        Some(World { body, obstacles, last_contact: None })
    }

    /// The body as it is now.
    #[verifier::when_used_as_spec(spec_body)]
    pub fn body(&self) -> (body: Body)
        ensures
            body == self.spec_body(),
    {
        self.body
    }

    /// Where the body's centre is now.
    pub fn position(&self) -> (position: Position)
        ensures
            position == self.spec_body().spec_position(),
    {
        self.body.position()
    }

    /// How fast the body moves now.
    pub fn velocity(&self) -> (velocity: Velocity)
        ensures
            velocity == self.spec_body().spec_velocity(),
    {
        self.body.velocity()
    }

    /// The terrain: no two of its obstacles overlap.
    pub fn obstacles(&self) -> (obstacles: &Vec<Obstacle>)
        ensures
            obstacles@ == self.spec_obstacles(),
            pairwise_apart(rects_of(obstacles@)),
    {
        proof {
            use_type_invariant(self);
        }
        &self.obstacles
    }

    /// The most recent contact, if there has been one. It names an obstacle
    /// of this world.
    pub fn last_contact(&self) -> (contact: Option<Contact>)
        ensures
            contact == self.spec_last_contact(),
            contact matches Some(c) ==> c.obstacle < self.spec_obstacles().len(),
    {
        proof {
            use_type_invariant(self);
        }
        self.last_contact
    }

    /// Advances the world by one tick: steers the body from `intent`, moves
    /// it and applies gravity, then corrects it against every obstacle, in
    /// that order. The terrain never changes. Fails, and changes nothing,
    /// exactly when a value of the tick would not fit a 64-bit integer.
    pub fn tick(&mut self, intent: Intent) -> (outcome: Result<TickReport, PhysicsError>)
        ensures
            final(self).spec_obstacles() == old(self).spec_obstacles(),
            final(self).spec_body().spec_size() == old(self).spec_body().spec_size(),
            outcome is Ok <==> tick_representable(
                old(self)@.body,
                intent,
                old(self)@.obstacles,
            ),
            outcome matches Ok(report) ==> {
                &&& final(self)@ == old(self)@.tick(intent)
                &&& report.grounded == old(self)@.body.grounded()
                &&& report.contacts@ == tick_contacts(
                    old(self)@.body,
                    intent,
                    old(self)@.obstacles,
                )
            },
            outcome is Err ==> {
                &&& final(self)@ == old(self)@
                &&& final(self).spec_body() == old(self).spec_body()
            },
    {
        proof {
            use_type_invariant(&*self);
        }
        let mut body: Body = self.body;
        let grounded: bool = apply_velocity(&mut body, intent);
        if move_mario(&mut body).is_err() {
            return Err(PhysicsError::OutOfRange);
        }
        let ghost moved = body@;
        let count: usize = self.obstacles.len();
        match check_for_collisions(&mut body, &self.obstacles) {
            Ok(contacts) => {
                proof {
                    lemma_contacts_name_obstacles(
                        moved,
                        rects_of(self.obstacles@),
                        count as nat,
                    );
                }
                if contacts.len() > 0 {
                    self.last_contact = Some(contacts[contacts.len() - 1]);
                }
                self.body = body;
                Ok(TickReport { grounded, contacts })
            },
            Err(error) => Err(error),
        }
    }
}

/// The body overlaps no obstacle of the terrain.
pub open spec fn clear_of(body: BodyState, obstacles: Seq<Rect>) -> bool {
    forall|i: int| 0 <= i < obstacles.len() ==> !body.rect().overlaps(#[trigger] obstacles[i])
}

/// A tick in which the moved body touches nothing is steering and
/// displacement only, and reports no contact.
pub proof fn lemma_tick_without_contact(body: BodyState, intent: Intent, obstacles: Seq<Rect>)
    requires
        clear_of(body.steer(intent).advance(), obstacles),
    ensures
        tick_spec(body, intent, obstacles) == body.steer(intent).advance(),
        tick_contacts(body, intent, obstacles) == Seq::<Contact>::empty(),
{
    lemma_untouched_pass_changes_nothing(body.steer(intent).advance(), obstacles, obstacles.len());
}

/// Unless a jump replaces it or a contact stops the body, every tick takes
/// exactly gravity from the vertical velocity, however fast the body
/// already falls.
pub proof fn lemma_tick_takes_gravity(body: BodyState, intent: Intent, obstacles: Seq<Rect>)
    requires
        !(body.grounded() && intent.up),
        clear_of(body.steer(intent).advance(), obstacles),
    ensures
        tick_spec(body, intent, obstacles).vy == body.vy - GRAVITY,
        tick_spec(body, intent, obstacles).vy < body.vy,
{
    lemma_tick_without_contact(body, intent, obstacles);
}

/// In the air the intent counts for nothing: whatever is held, a tick
/// without contact is one displacement, which leaves the horizontal
/// velocity alone and takes gravity from the vertical one.
pub proof fn lemma_tick_airborne_ignores_intent(
    body: BodyState,
    intent: Intent,
    obstacles: Seq<Rect>,
)
    requires
        !body.grounded(),
        clear_of(body.advance(), obstacles),
    ensures
        tick_spec(body, intent, obstacles) == body.advance(),
        tick_spec(body, intent, obstacles).vx == body.vx,
        tick_spec(body, intent, obstacles).vy == body.vy - GRAVITY,
{
    lemma_tick_without_contact(body, intent, obstacles);
}

} // verus!
