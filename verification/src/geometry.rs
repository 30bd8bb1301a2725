//! Axis-aligned rectangles and the test that tells whether, and on which
//! side, one of them has struck another.

use vstd::prelude::*;

verus! {

/// A point of the world. Physics reads `x` and `y`; `z` only orders drawing
/// and is carried along untouched.
#[derive(Clone, Copy, Debug, PartialEq, Eq, Structural)]
pub struct Position {
    pub x: i64,
    pub y: i64,
    pub z: i64,
}

/// Full width and height of a rectangle, both strictly positive.
#[derive(Clone, Copy, Debug, PartialEq, Eq)]
pub struct Size {
    width: i64,
    height: i64,
}

/// The side of the second rectangle that the first one has struck.
#[derive(Clone, Copy, Debug, PartialEq, Eq, Structural)]
pub enum Collision {
    Left,
    Right,
    Top,
    Bottom,
    /// The rectangles overlap and no one side is singled out: either the
    /// first sticks out of the second on one side only on neither axis, or
    /// it does so on both and equally deep.
    Inside,
}

/// A rectangle as the contracts see it: centre and full extent, unbounded.
pub struct Rect {
    pub x: int,
    pub y: int,
    pub width: int,
    pub height: int,
}

impl Size {
    /// The full width.
    pub closed spec fn spec_width(&self) -> i64 {
        self.width
    }

    /// The full height.
    pub closed spec fn spec_height(&self) -> i64 {
        self.height
    }

    /// Both extents are strictly positive. Holds of every `Size` that
    /// executable code can get hold of.
    #[verifier::type_invariant]
    pub open spec fn positive(self) -> bool {
        self.spec_width() > 0 && self.spec_height() > 0
    }

    /// A size of the given extents, unless one of them is zero or negative.
    pub fn new(width: i64, height: i64) -> (size: Option<Size>)
        ensures
            size is Some <==> width > 0 && height > 0,
            size matches Some(s) ==> s.spec_width() == width && s.spec_height() == height,
    {
        if width > 0 && height > 0 {
            Some(Size { width, height })
        } else {
            None
        }
    }

    /// A square of side `x`, unless `x` is zero or negative.
    pub fn square(x: i64) -> (size: Option<Size>)
        ensures
            size is Some <==> x > 0,
            size matches Some(s) ==> s.spec_width() == x && s.spec_height() == x,
    {
        Size::new(x, x)
    }

    /// The full width, which is positive.
    #[verifier::when_used_as_spec(spec_width)]
    pub fn width(&self) -> (w: i64)
        ensures
            w == self.spec_width(),
            w > 0,
    {
        proof {
            use_type_invariant(self);
        }
        self.width
    }

    /// The full height, which is positive.
    #[verifier::when_used_as_spec(spec_height)]
    pub fn height(&self) -> (h: i64)
        ensures
            h == self.spec_height(),
            h > 0,
    {
        proof {
            use_type_invariant(self);
        }
        self.height
    }
}

/// The rectangle with centre `position` and extent `size`.
pub open spec fn rect_of(position: Position, size: Size) -> Rect {
    Rect {
        x: position.x as int,
        y: position.y as int,
        width: size.spec_width() as int,
        height: size.spec_height() as int,
    }
}

/// How far apart two coordinates are.
pub open spec fn distance(p: int, q: int) -> int {
    if p <= q {
        q - p
    } else {
        p - q
    }
}

/// Twice the length that two spans share on one axis, from their centres and
/// full extents: the sum of the half extents less the distance of the
/// centres, doubled so that it stays an integer. Zero when the spans touch,
/// negative when there is a gap.
pub open spec fn penetration(centre_a: int, extent_a: int, centre_b: int, extent_b: int) -> int {
    extent_a + extent_b - 2 * distance(centre_a, centre_b)
}

/// Whether the first span sticks out of the second on exactly one side:
/// the centres are further apart than half the difference of the extents.
/// When it does not, one span contains the other.
pub open spec fn leans_out(centre_a: int, extent_a: int, centre_b: int, extent_b: int) -> bool {
    2 * distance(centre_a, centre_b) > distance(extent_a, extent_b)
}

impl Rect {
    /// Twice the coordinate of the left edge.
    pub open spec fn left(self) -> int {
        2 * self.x - self.width
    }

    /// Twice the coordinate of the right edge.
    pub open spec fn right(self) -> int {
        2 * self.x + self.width
    }

    /// Twice the coordinate of the lower edge.
    pub open spec fn bottom(self) -> int {
        2 * self.y - self.height
    }

    /// Twice the coordinate of the upper edge.
    pub open spec fn top(self) -> int {
        2 * self.y + self.height
    }

    /// The interiors of the two rectangles meet: they share a positive
    /// length on both axes.
    pub open spec fn overlaps(self, other: Rect) -> bool {
        &&& penetration(self.x, self.width, other.x, other.width) > 0
        &&& penetration(self.y, self.height, other.y, other.height) > 0
    }

    /// On at least one axis the projections of the two rectangles share no
    /// length: one ends where, or before, the other begins.
    pub open spec fn apart_on_an_axis(self, other: Rect) -> bool {
        ||| self.right() <= other.left()
        ||| other.right() <= self.left()
        ||| self.top() <= other.bottom()
        ||| other.top() <= self.bottom()
    }
}

/// Whether `a` has struck `b`, and on which side of `b`.
///
/// Nothing is struck unless the interiors overlap. Otherwise each axis on
/// which `a` leans out of `b` names a side of `b` (left or right by the
/// order of the centres on x, bottom or top on y) with the shared length on
/// that axis as its depth. Where one axis alone names a side, that side is
/// the answer. Where both do, the strictly shallower one is; equal depths
/// single out neither, and the answer is `Inside`, as it is where no side
/// is named at all.
pub open spec fn collide_spec(a: Rect, b: Rect) -> Option<Collision> {
    let depth_x = penetration(a.x, a.width, b.x, b.width);
    let depth_y = penetration(a.y, a.height, b.y, b.height);
    let sided_x = leans_out(a.x, a.width, b.x, b.width);
    let sided_y = leans_out(a.y, a.height, b.y, b.height);
    let horizontal = if a.x < b.x {
        Collision::Left
    } else {
        Collision::Right
    };
    let vertical = if a.y < b.y {
        Collision::Bottom
    } else {
        Collision::Top
    };
    if !a.overlaps(b) {
        None
    } else if sided_x && sided_y {
        if depth_y < depth_x {
            Some(vertical)
        } else if depth_x < depth_y {
            Some(horizontal)
        } else {
            Some(Collision::Inside)
        }
    } else if sided_y {
        Some(vertical)
    } else if sided_x {
        Some(horizontal)
    } else {
        Some(Collision::Inside)
    }
}

/// Twice the lower end of the span with the given centre and full extent.
fn low_end(centre: i64, extent: i64) -> (end: i128)
    ensures
        end == 2 * centre - extent,
{
    2 * (centre as i128) - (extent as i128)
}

/// Twice the upper end of the span with the given centre and full extent.
fn high_end(centre: i64, extent: i64) -> (end: i128)
    ensures
        end == 2 * centre + extent,
{
    2 * (centre as i128) + (extent as i128)
}

/// Tests the rectangle `a` (centre `a_pos`, extent `a_size`) against the
/// rectangle `b`, and names the side of `b` that `a` has struck.
pub fn collide(a_pos: Position, a_size: Size, b_pos: Position, b_size: Size) -> (hit: Option<
    Collision,
>)
    ensures
        hit == collide_spec(rect_of(a_pos, a_size), rect_of(b_pos, b_size)),
        hit is Some <==> rect_of(a_pos, a_size).overlaps(rect_of(b_pos, b_size)),
        rect_of(a_pos, a_size).apart_on_an_axis(rect_of(b_pos, b_size)) ==> hit is None,
{
    let a_left: i128 = low_end(a_pos.x, a_size.width());
    let a_right: i128 = high_end(a_pos.x, a_size.width());
    let a_bottom: i128 = low_end(a_pos.y, a_size.height());
    let a_top: i128 = high_end(a_pos.y, a_size.height());
    let b_left: i128 = low_end(b_pos.x, b_size.width());
    let b_right: i128 = high_end(b_pos.x, b_size.width());
    let b_bottom: i128 = low_end(b_pos.y, b_size.height());
    let b_top: i128 = high_end(b_pos.y, b_size.height());

    if !(a_left < b_right && a_right > b_left && a_bottom < b_top && a_top > b_bottom) {
        return None;
    }
    // The side struck on each axis and how deep; no depth where neither side is struck.
    let (x_side, x_depth): (Collision, Option<i128>) = if a_left < b_left && a_right < b_right {
        (Collision::Left, Some(a_right - b_left))
    } else if a_left > b_left && a_right > b_right {
        (Collision::Right, Some(b_right - a_left))
    } else {
        (Collision::Inside, None)
    };
    let (y_side, y_depth): (Collision, Option<i128>) = if a_bottom < b_bottom && a_top < b_top {
        (Collision::Bottom, Some(a_top - b_bottom))
    } else if a_bottom > b_bottom && a_top > b_top {
        (Collision::Top, Some(b_top - a_bottom))
    } else {
        (Collision::Inside, None)
    };
    match (x_depth, y_depth) {
        (Some(dx), Some(dy)) => {
            if dy < dx {
                Some(y_side)
            } else if dx < dy {
                Some(x_side)
            } else {
                Some(Collision::Inside)
            }
        },
        (None, Some(_)) => Some(y_side),
        (_, None) => Some(x_side),
    }
}

/// Where the first rectangle leans out of the second on both axes, the
/// strictly shallower contact names the side, and equal depths give
/// `Inside`.
pub proof fn lemma_corner_contact(a: Rect, b: Rect)
    requires
        a.overlaps(b),
        leans_out(a.x, a.width, b.x, b.width),
        leans_out(a.y, a.height, b.y, b.height),
    ensures
        penetration(a.y, a.height, b.y, b.height) < penetration(a.x, a.width, b.x, b.width)
            ==> collide_spec(a, b) == Some(Collision::Top) || collide_spec(a, b) == Some(
            Collision::Bottom,
        ),
        penetration(a.x, a.width, b.x, b.width) < penetration(a.y, a.height, b.y, b.height)
            ==> collide_spec(a, b) == Some(Collision::Left) || collide_spec(a, b) == Some(
            Collision::Right,
        ),
        penetration(a.x, a.width, b.x, b.width) == penetration(a.y, a.height, b.y, b.height)
            ==> collide_spec(a, b) == Some(Collision::Inside),
{
}

impl Rect {
    /// `self` overlaps `other` with its lower edge inside `other` and its
    /// upper edge above it: it came down onto `other`.
    pub open spec fn enters_from_above(self, other: Rect) -> bool {
        &&& self.overlaps(other)
        &&& other.bottom() < self.bottom()
        &&& other.top() < self.top()
    }

    /// `self` overlaps `other` with its upper edge inside `other` and its
    /// lower edge below it: it came up into `other`.
    pub open spec fn enters_from_below(self, other: Rect) -> bool {
        &&& self.overlaps(other)
        &&& self.bottom() < other.bottom()
        &&& self.top() < other.top()
    }
}

/// Two rectangles overlap exactly when, on both axes, each begins before the
/// other ends.
pub proof fn lemma_overlap_by_edges(a: Rect, b: Rect)
    ensures
        a.overlaps(b) <==> a.left() < b.right() && b.left() < a.right() && a.bottom() < b.top()
            && b.bottom() < a.top(),
        a.overlaps(b) <==> !a.apart_on_an_axis(b),
{
}

/// Rectangles whose projections share no length on some axis never collide.
pub proof fn lemma_apart_means_no_contact(a: Rect, b: Rect)
    requires
        a.apart_on_an_axis(b),
    ensures
        collide_spec(a, b) is None,
{
}

/// A rectangle that came down onto another with no horizontal offset has
/// struck its top.
pub proof fn lemma_centred_from_above_is_top(a: Rect, b: Rect)
    requires
        a.x == b.x,
        a.enters_from_above(b),
    ensures
        collide_spec(a, b) == Some(Collision::Top),
{
}

/// A rectangle that came up into another with no horizontal offset has
/// struck its bottom.
pub proof fn lemma_centred_from_below_is_bottom(a: Rect, b: Rect)
    requires
        a.x == b.x,
        a.enters_from_below(b),
    ensures
        collide_spec(a, b) == Some(Collision::Bottom),
{
}

} // verus!
