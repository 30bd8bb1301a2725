//! The layout that a session starts from: the player and the floor.

use vstd::prelude::*;
use crate::body::{Body, Velocity};
use crate::geometry::{Position, Rect, Size};
use crate::resolve::{pairwise_apart, rects_of, Obstacle};

verus! {

/// Side of a floor block: ten pixels.
pub const BLOCK_EXTENT: i64 = 100;

/// Number of blocks in the floor: one for each block-wide column of the screen.
pub const FIELD_BLOCKS: usize = 32;

/// Centre of the leftmost floor block on the x axis.
pub const FIELD_LEFT: i64 = -1550;

/// Centre of every floor block on the y axis.
pub const FIELD_LEVEL: i64 = -1200;

/// Width of the player: ten pixels.
pub const MARIO_WIDTH: i64 = 100;

/// Height of the player: twenty pixels.
pub const MARIO_HEIGHT: i64 = 200;

/// The `index`-th block of the floor, counted from the left: the blocks
/// stand side by side at one height, each a square.
pub open spec fn field_block(index: int) -> Rect {
    Rect {
        x: FIELD_LEFT + index * BLOCK_EXTENT,
        y: FIELD_LEVEL as int,
        width: BLOCK_EXTENT as int,
        height: BLOCK_EXTENT as int,
    }
}

/// The player as a session starts: at the origin, at rest.
pub fn make_mario() -> (mario: Body)
    ensures
        mario.spec_position() == (Position { x: 0, y: 0, z: 0 }),
        mario.spec_velocity() == (Velocity { x: 0, y: 0 }),
        mario.spec_size().spec_width() == MARIO_WIDTH,
        mario.spec_size().spec_height() == MARIO_HEIGHT,
{
    let size: Size = Size::new(MARIO_WIDTH, MARIO_HEIGHT).unwrap();
    Body::new(Position { x: 0, y: 0, z: 0 }, Velocity { x: 0, y: 0 }, size)
}

/// The floor: a row of square blocks that spans the screen, from left to
/// right, all at draw order zero. Neighbours touch and no two blocks
/// overlap.
pub fn make_field() -> (field: Vec<Obstacle>)
    ensures
        field@.len() == FIELD_BLOCKS,
        forall|i: int| 0 <= i < FIELD_BLOCKS ==> (#[trigger] field@[i])@ == field_block(i),
        forall|i: int| 0 <= i < FIELD_BLOCKS ==> (#[trigger] field@[i]).spec_position().z == 0,
        pairwise_apart(rects_of(field@)),
{
    let size: Size = Size::square(BLOCK_EXTENT).unwrap();
    let mut field: Vec<Obstacle> = Vec::new();
    let mut x_coord: i64 = FIELD_LEFT;
    let mut placed: usize = 0;
    while placed < FIELD_BLOCKS
        invariant
            placed <= FIELD_BLOCKS,
            field@.len() == placed,
            x_coord == FIELD_LEFT + placed * BLOCK_EXTENT,
            size.spec_width() == BLOCK_EXTENT,
            size.spec_height() == BLOCK_EXTENT,
            forall|i: int| 0 <= i < placed ==> (#[trigger] field@[i])@ == field_block(i),
            forall|i: int| 0 <= i < placed ==> (#[trigger] field@[i]).spec_position().z == 0,
        decreases FIELD_BLOCKS - placed,
    {
        field.push(Obstacle::new(Position { x: x_coord, y: FIELD_LEVEL, z: 0 }, size));
        x_coord = x_coord + BLOCK_EXTENT;
        placed = placed + 1;
    }
    proof {
        let rects = rects_of(field@);
        assert forall|i: int, j: int|
            #![trigger rects[i], rects[j]]
            0 <= i < j < rects.len() implies !rects[i].overlaps(rects[j]) by {
            assert(rects[i] == field@[i]@);
            assert(rects[j] == field@[j]@);
        }
    }
    field
}

} // verus!
