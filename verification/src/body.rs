//! The controlled body and the two stages of a tick that move it: steering
//! from the directional intent, then displacement and gravity.

use vstd::prelude::*;
use crate::geometry::{Position, Rect, Size};
use crate::units::{GRAVITY, GROUND_LEVEL, JUMP_SPEED, WALK_SPEED};

verus! {

/// Displacement per tick, in sub-pixel units.
#[derive(Clone, Copy, Debug, PartialEq, Eq, Structural)]
pub struct Velocity {
    pub x: i64,
    pub y: i64,
}

/// The directions that the player holds during one tick. Any subset may be
/// active at once.
#[derive(Clone, Copy, Debug, PartialEq, Eq, Structural)]
pub struct Intent {
    pub left: bool,
    pub right: bool,
    pub up: bool,
    pub down: bool,
}

/// A value that the simulation cannot hold: a coordinate or a velocity
/// component would leave the range of a 64-bit integer.
#[derive(Clone, Copy, Debug, PartialEq, Eq, Structural)]
pub enum PhysicsError {
    OutOfRange,
}

/// The body under the player's control. Position and velocity change every
/// tick; the extent is fixed when the body is made.
#[derive(Clone, Copy, Debug, PartialEq, Eq)]
pub struct Body {
    position: Position,
    velocity: Velocity,
    size: Size,
}

/// A body as the contracts see it: the same quantities, unbounded.
pub struct BodyState {
    pub x: int,
    pub y: int,
    pub z: int,
    pub vx: int,
    pub vy: int,
    pub width: int,
    pub height: int,
}

impl BodyState {
    /// The rectangle that the body occupies.
    pub open spec fn rect(self) -> Rect {
        Rect { x: self.x, y: self.y, width: self.width, height: self.height }
    }

    /// The body counts as standing on the floor: its centre is at or below
    /// the nominal floor surface, whatever the terrain is.
    pub open spec fn grounded(self) -> bool {
        self.y <= GROUND_LEVEL
    }

    /// The body after the intent has been applied. On the ground an active
    /// direction replaces a velocity component: left and right set the
    /// horizontal one (right prevails when both are active), up sets the
    /// vertical one, down changes nothing. In the air nothing changes.
    pub open spec fn steer(self, intent: Intent) -> BodyState {
        if self.grounded() {
            BodyState {
                vx: if intent.right {
                    WALK_SPEED as int
                } else if intent.left {
                    -WALK_SPEED
                } else {
                    self.vx
                },
                vy: if intent.up {
                    JUMP_SPEED as int
                } else {
                    self.vy
                },
                ..self
            }
        } else {
            self
        }
    }

    /// The body after one displacement: moved by its velocity as it was
    /// before the step, and only then slowed vertically by gravity.
    pub open spec fn advance(self) -> BodyState {
        BodyState { x: self.x + self.vx, y: self.y + self.vy, vy: self.vy - GRAVITY, ..self }
    }

    /// The body after `ticks` displacements in a row.
    pub open spec fn fall(self, ticks: nat) -> BodyState
        decreases ticks,
    {
        if ticks == 0 {
            self
        } else {
            self.fall((ticks - 1) as nat).advance()
        }
    }

    /// Position and velocity fit the 64-bit integers that a `Body` holds.
    pub open spec fn representable(self) -> bool {
        &&& i64::MIN <= self.x <= i64::MAX
        &&& i64::MIN <= self.y <= i64::MAX
        &&& i64::MIN <= self.vx <= i64::MAX
        &&& i64::MIN <= self.vy <= i64::MAX
    }
}

impl View for Body {
    type V = BodyState;

    open spec fn view(&self) -> BodyState {
        BodyState {
            x: self.spec_position().x as int,
            y: self.spec_position().y as int,
            z: self.spec_position().z as int,
            vx: self.spec_velocity().x as int,
            vy: self.spec_velocity().y as int,
            width: self.spec_size().spec_width() as int,
            height: self.spec_size().spec_height() as int,
        }
    }
}

impl Body {
    /// The centre.
    pub closed spec fn spec_position(&self) -> Position {
        self.position
    }

    /// The velocity.
    pub closed spec fn spec_velocity(&self) -> Velocity {
        self.velocity
    }

    /// The extent.
    pub closed spec fn spec_size(&self) -> Size {
        self.size
    }

    /// A body with the given centre, velocity and extent.
    pub fn new(position: Position, velocity: Velocity, size: Size) -> (body: Body)
        ensures
            body.spec_position() == position,
            body.spec_velocity() == velocity,
            body.spec_size() == size,
    {
        Body { position, velocity, size }
    }

    /// The body's centre.
    #[verifier::when_used_as_spec(spec_position)]
    pub fn position(&self) -> (position: Position)
        ensures
            position == self.spec_position(),
    {
        self.position
    }

    /// The body's velocity.
    #[verifier::when_used_as_spec(spec_velocity)]
    pub fn velocity(&self) -> (velocity: Velocity)
        ensures
            velocity == self.spec_velocity(),
    {
        self.velocity
    }

    /// Puts the body's centre at `position`; velocity and extent stay.
    pub fn set_position(&mut self, position: Position)
        ensures
            final(self).spec_position() == position,
            final(self).spec_velocity() == old(self).spec_velocity(),
            final(self).spec_size() == old(self).spec_size(),
    {
        self.position = position;
    }

    /// Gives the body the velocity `velocity`; centre and extent stay.
    pub fn set_velocity(&mut self, velocity: Velocity)
        ensures
            final(self).spec_velocity() == velocity,
            final(self).spec_position() == old(self).spec_position(),
            final(self).spec_size() == old(self).spec_size(),
    {
        self.velocity = velocity;
    }

    /// The body's extent.
    #[verifier::when_used_as_spec(spec_size)]
    pub fn size(&self) -> (size: Size)
        ensures
            size == self.spec_size(),
    {
        self.size
    }
}

/// Whether a body whose centre is at `translation` counts as grounded.
pub fn is_on_ground(translation: Position) -> (grounded: bool)
    ensures
        grounded <==> translation.y <= GROUND_LEVEL,
{
    translation.y <= GROUND_LEVEL
}

/// First stage of a tick: turns the intent into velocity, and reports
/// whether the body was found grounded.
pub fn apply_velocity(body: &mut Body, intent: Intent) -> (grounded: bool)
    ensures
        grounded == old(body)@.grounded(),
        final(body)@ == old(body)@.steer(intent),
        final(body).spec_position() == old(body).spec_position(),
        final(body).spec_size() == old(body).spec_size(),
        grounded && intent.right ==> final(body).spec_velocity().x == WALK_SPEED,
        grounded && intent.left && !intent.right ==> final(body).spec_velocity().x == -WALK_SPEED,
        grounded && intent.up ==> final(body).spec_velocity().y == JUMP_SPEED,
        !grounded ==> *final(body) == *old(body),
{
    let grounded: bool = is_on_ground(body.position);
    if grounded {
        if intent.left {
            body.velocity.x = -WALK_SPEED;
        }
        if intent.right {
            body.velocity.x = WALK_SPEED;
        }
        if intent.up {
            body.velocity.y = JUMP_SPEED;
        }
    }
    grounded
}

/// Second stage of a tick: moves the body by its velocity, then takes
/// gravity from the vertical velocity. Fails, and leaves the body as it
/// was, exactly when a result would not fit a 64-bit integer.
pub fn move_mario(body: &mut Body) -> (moved: Result<(), PhysicsError>)
    ensures
        moved is Ok <==> old(body)@.advance().representable(),
        moved is Ok ==> final(body)@ == old(body)@.advance(),
        moved is Ok ==> final(body).spec_velocity().y == old(body).spec_velocity().y - GRAVITY,
        moved is Ok ==> final(body).spec_velocity().x == old(body).spec_velocity().x,
        moved is Err ==> *final(body) == *old(body),
        final(body).spec_size() == old(body).spec_size(),
{
    let x: Option<i64> = body.position.x.checked_add(body.velocity.x);
    let y: Option<i64> = body.position.y.checked_add(body.velocity.y);
    let vy: Option<i64> = body.velocity.y.checked_sub(GRAVITY);
    match (x, y, vy) {
        (Some(x), Some(y), Some(vy)) => {
            body.position.x = x;
            body.position.y = y;
            body.velocity.y = vy;
            Ok(())
        },
        _ => Err(PhysicsError::OutOfRange),
    }
}

/// On the ground an active direction fixes the velocity component it
/// governs, whatever that component was before: right gives the walking
/// speed, left its negative unless right is active too, up the jump speed.
pub proof fn lemma_grounded_intent_overrides(body: BodyState, intent: Intent)
    requires
        body.grounded(),
    ensures
        intent.right ==> body.steer(intent).vx == WALK_SPEED,
        intent.left && !intent.right ==> body.steer(intent).vx == -WALK_SPEED,
        intent.up ==> body.steer(intent).vy == JUMP_SPEED,
        !intent.left && !intent.right ==> body.steer(intent).vx == body.vx,
        !intent.up ==> body.steer(intent).vy == body.vy,
{
}

/// In the air no intent changes anything: after steering and one
/// displacement the horizontal velocity is what it was, and the vertical
/// one has lost gravity and nothing else.
pub proof fn lemma_airborne_ignores_intent(body: BodyState, intent: Intent)
    requires
        !body.grounded(),
    ensures
        body.steer(intent) == body,
        body.steer(intent).advance().vx == body.vx,
        body.steer(intent).advance().vy == body.vy - GRAVITY,
{
}

/// Each displacement takes exactly gravity from the vertical velocity, so
/// after any number of them it has dropped by that many times gravity: it
/// never levels off. The horizontal velocity is untouched.
pub proof fn lemma_fall_loses_gravity_each_tick(body: BodyState, ticks: nat)
    ensures
        body.fall(ticks).vy == body.vy - ticks * GRAVITY,
        body.fall(ticks).vx == body.vx,
        ticks > 0 ==> body.fall(ticks).vy < body.fall((ticks - 1) as nat).vy,
    decreases ticks,
{
    if ticks > 0 {
        lemma_fall_loses_gravity_each_tick(body, (ticks - 1) as nat);
    }
}

} // verus!
