//! The grid rules of the snake game: how the heads step, and which food a
//! head has reached.

use vstd::prelude::*;
use crate::body::{Intent, PhysicsError};

verus! {

/// A cell of the snake's grid.
#[derive(Clone, Copy, Debug, PartialEq, Eq, Structural)]
pub struct Cell {
    pub x: i32,
    pub y: i32,
}

/// One if the direction is held, zero if not.
pub open spec fn held(direction: bool) -> int {
    if direction {
        1
    } else {
        0
    }
}

/// The column of a head after one move: a step left for left, then a step
/// right for right.
pub open spec fn stepped_x(x: int, intent: Intent) -> int {
    x - held(intent.left) + held(intent.right)
}

/// The row of a head after one move: a step down for down, then a step up
/// for up.
pub open spec fn stepped_y(y: int, intent: Intent) -> int {
    y - held(intent.down) + held(intent.up)
}

/// Every single step of the move stays on the grid that 32-bit integers
/// span. The steps are taken in the order left, right, down, up, so held
/// against the lower edge left and right together do not fit, though they
/// cancel.
pub open spec fn steps_fit(cell: Cell, intent: Intent) -> bool {
    &&& i32::MIN <= cell.x - held(intent.left)
    &&& stepped_x(cell.x as int, intent) <= i32::MAX
    &&& i32::MIN <= cell.y - held(intent.down)
    &&& stepped_y(cell.y as int, intent) <= i32::MAX
}

/// The places among the first `count` foods that lie on the cell `head`,
/// in rising order.
pub open spec fn reached_by(head: Cell, foods: Seq<Cell>, count: nat) -> Seq<usize>
    decreases count,
{
    if count == 0 {
        Seq::empty()
    } else {
        let earlier = reached_by(head, foods, (count - 1) as nat);
        if foods[count - 1] == head {
            earlier.push((count - 1) as usize)
        } else {
            earlier
        }
    }
}

/// What the first `count` heads have reached: for each head in turn, the
/// places of the foods on its cell. A food under two heads is named twice.
pub open spec fn reached(heads: Seq<Cell>, foods: Seq<Cell>, count: nat) -> Seq<usize>
    decreases count,
{
    if count == 0 {
        Seq::empty()
    } else {
        reached(heads, foods, (count - 1) as nat) + reached_by(
            heads[count - 1],
            foods,
            foods.len(),
        )
    }
}

/// Every place that `reached_by` names is one of the first `count`.
pub proof fn lemma_reached_by_names_foods(head: Cell, foods: Seq<Cell>, count: nat)
    requires
        count <= foods.len() <= usize::MAX,
    ensures
        reached_by(head, foods, count).len() <= count,
        forall|k: int|
            0 <= k < reached_by(head, foods, count).len() ==> {
                &&& (#[trigger] reached_by(head, foods, count)[k]) < count
                &&& foods[reached_by(head, foods, count)[k] as int] == head
            },
    decreases count,
{
    if count > 0 {
        lemma_reached_by_names_foods(head, foods, (count - 1) as nat);
    }
}

/// Every place that `reached` names is the place of a food, and that food
/// lies under one of the first `count` heads.
pub proof fn lemma_reached_names_foods(heads: Seq<Cell>, foods: Seq<Cell>, count: nat)
    requires
        count <= heads.len(),
        foods.len() <= usize::MAX,
    ensures
        forall|k: int|
            0 <= k < reached(heads, foods, count).len() ==> {
                &&& (#[trigger] reached(heads, foods, count)[k]) < foods.len()
                &&& exists|h: int|
                    0 <= h < count && foods[reached(heads, foods, count)[k] as int]
                        == #[trigger] heads[h]
            },
    decreases count,
{
    if count > 0 {
        let earlier = reached(heads, foods, (count - 1) as nat);
        let last = reached_by(heads[count - 1], foods, foods.len());
        lemma_reached_names_foods(heads, foods, (count - 1) as nat);
        lemma_reached_by_names_foods(heads[count - 1], foods, foods.len());
        assert forall|k: int| 0 <= k < reached(heads, foods, count).len() implies {
            &&& (#[trigger] reached(heads, foods, count)[k]) < foods.len()
            &&& exists|h: int|
                0 <= h < count && foods[reached(heads, foods, count)[k] as int]
                    == #[trigger] heads[h]
        } by {
            if k < earlier.len() {
                assert(reached(heads, foods, count)[k] == earlier[k]);
                let h = choose|h: int|
                    0 <= h < count - 1 && foods[earlier[k] as int] == #[trigger] heads[h];
                assert(foods[earlier[k] as int] == heads[h]);
            } else {
                assert(reached(heads, foods, count)[k] == last[k - earlier.len()]);
                assert(foods[last[k - earlier.len()] as int] == heads[count - 1]);
            }
        }
    }
}

/// Moves every head by one step for each direction held: left and right
/// along x, down and up along y. Fails, and leaves the heads as they were,
/// exactly when some step of some head would leave the range of a 32-bit
/// integer.
pub fn snake_movement(heads: &mut Vec<Cell>, intent: Intent) -> (moved: Result<(), PhysicsError>)
    ensures
        moved is Ok <==> forall|i: int|
            0 <= i < old(heads)@.len() ==> steps_fit(#[trigger] old(heads)@[i], intent),
        moved is Ok ==> {
            &&& final(heads)@.len() == old(heads)@.len()
            &&& forall|i: int|
                0 <= i < old(heads)@.len() ==> {
                    &&& (#[trigger] final(heads)@[i]).x == stepped_x(old(heads)@[i].x as int, intent)
                    &&& final(heads)@[i].y == stepped_y(old(heads)@[i].y as int, intent)
                }
        },
        moved is Err ==> final(heads)@ == old(heads)@,
{
    let mut next: Vec<Cell> = Vec::new();
    let mut i: usize = 0;
    while i < heads.len()
        invariant
            i <= heads.len(),
            heads@ == old(heads)@,
            next@.len() == i,
            forall|k: int| 0 <= k < i ==> steps_fit(#[trigger] heads@[k], intent),
            forall|k: int|
                0 <= k < i ==> {
                    &&& (#[trigger] next@[k]).x == stepped_x(heads@[k].x as int, intent)
                    &&& next@[k].y == stepped_y(heads@[k].y as int, intent)
                },
        decreases heads.len() - i,
    {
        let mut pos: Cell = heads[i];
        if intent.left {
            match pos.x.checked_sub(1) {
                Some(x) => {
                    pos.x = x;
                },
                None => {
                    assert(!steps_fit(heads@[i as int], intent));
                    return Err(PhysicsError::OutOfRange);
                },
            }
        }
        if intent.right {
            match pos.x.checked_add(1) {
                Some(x) => {
                    pos.x = x;
                },
                None => {
                    assert(!steps_fit(heads@[i as int], intent));
                    return Err(PhysicsError::OutOfRange);
                },
            }
        }
        if intent.down {
            match pos.y.checked_sub(1) {
                Some(y) => {
                    pos.y = y;
                },
                None => {
                    assert(!steps_fit(heads@[i as int], intent));
                    return Err(PhysicsError::OutOfRange);
                },
            }
        }
        if intent.up {
            match pos.y.checked_add(1) {
                Some(y) => {
                    pos.y = y;
                },
                None => {
                    assert(!steps_fit(heads@[i as int], intent));
                    return Err(PhysicsError::OutOfRange);
                },
            }
        }
        next.push(pos);
        i = i + 1;
    }
    *heads = next;
    Ok(())
}

/// Names the food that the heads have reached: for each head in turn, the
/// place in `foods` of every food on the head's cell, in the order of
/// `foods`. Each entry is one meal; a food under two heads is named twice.
pub fn snake_eating(heads: &Vec<Cell>, foods: &Vec<Cell>) -> (eaten: Vec<usize>)
    ensures
        eaten@ == reached(heads@, foods@, heads@.len()),
        forall|k: int| 0 <= k < eaten@.len() ==> (#[trigger] eaten@[k]) < foods@.len(),
{
    let mut eaten: Vec<usize> = Vec::new();
    let count: usize = foods.len();
    let mut h: usize = 0;
    while h < heads.len()
        invariant
            h <= heads.len(),
            count == foods@.len(),
            eaten@ == reached(heads@, foods@, h as nat),
        decreases heads.len() - h,
    {
        let head: Cell = heads[h];
        let ghost before = eaten@;
        let mut f: usize = 0;
        while f < count
            invariant
                f <= count == foods@.len(),
                h < heads.len(),
                head == heads@[h as int],
                before == reached(heads@, foods@, h as nat),
                eaten@ == before + reached_by(head, foods@, f as nat),
            decreases count - f,
        {
            let food: Cell = foods[f];
            if food.x == head.x && food.y == head.y {
                eaten.push(f);
            }
            assert(eaten@ =~= before + reached_by(head, foods@, (f + 1) as nat));
            f = f + 1;
        }
        h = h + 1;
    }
    proof {
        lemma_reached_names_foods(heads@, foods@, heads@.len());
    }
    eaten
}

} // verus!
