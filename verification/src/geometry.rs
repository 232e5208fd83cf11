//! Points and axis-aligned boxes on the integer grid of the arena.

use vstd::prelude::*;

verus! {

/// A point of the arena, in world units.
#[derive(Debug, Clone, Copy, PartialEq, Eq, Structural)]
pub struct Position {
    pub x: i32,
    pub y: i32,
}

/// A direction on the grid. Its length does not matter.
#[derive(Debug, Clone, Copy, PartialEq, Eq, Structural)]
pub struct Direction {
    pub x: i64,
    pub y: i64,
}

impl Position {
    /// The direction from this point to `target`.
    pub open spec fn towards(self, target: Position) -> Direction {
        Direction { x: (target.x - self.x) as i64, y: (target.y - self.y) as i64 }
    }

    /// The direction from this point to `target`.
    pub fn direction_to(&self, target: &Position) -> (r: Direction)
        ensures
            r == self.towards(*target),
            r.x == target.x - self.x,
            r.y == target.y - self.y,
    {
        Direction { x: target.x as i64 - self.x as i64, y: target.y as i64 - self.y as i64 }
    }
}

/// Where an entity stands, and how far it is turned.
#[derive(Debug, Clone, Copy, PartialEq, Eq, Structural)]
pub struct Transform {
    pub translation: Position,
    /// The turn, in millionths of a radian.
    pub rotation: i32,
}

impl Transform {
    /// The place `translation`, not turned.
    pub open spec fn spec_at(translation: Position) -> Transform {
        Transform { translation, rotation: 0 }
    }

    /// The place `translation`, not turned.
    pub fn at(translation: Position) -> (r: Transform)
        ensures
            r == Transform::spec_at(translation),
    {
        Transform { translation, rotation: 0 }
    }
}

/// An axis-aligned box, borders included.
#[derive(Debug, Clone, Copy, PartialEq, Eq, Structural)]
pub struct Aabb {
    pub min_x: i64,
    pub min_y: i64,
    pub max_x: i64,
    pub max_y: i64,
}

impl Aabb {
    /// The box around `center` that reaches `half_width` to the left and to the
    /// right of it, and `half_height` below and above.
    pub open spec fn around(center: Position, half_width: u32, half_height: u32) -> Aabb {
        Aabb {
            min_x: (center.x - half_width) as i64,
            min_y: (center.y - half_height) as i64,
            max_x: (center.x + half_width) as i64,
            max_y: (center.y + half_height) as i64,
        }
    }

    /// The two boxes have a point in common. Boxes that only touch do.
    pub open spec fn overlaps(self, other: Aabb) -> bool {
        &&& self.min_x <= other.max_x
        &&& other.min_x <= self.max_x
        &&& self.min_y <= other.max_y
        &&& other.min_y <= self.max_y
    }

    /// `p` lies in the box.
    pub open spec fn contains_point(self, p: (int, int)) -> bool {
        &&& self.min_x <= p.0 <= self.max_x
        &&& self.min_y <= p.1 <= self.max_y
    }

    pub fn new_around(center: Position, half_width: u32, half_height: u32) -> (r: Aabb)
        ensures
            r == Aabb::around(center, half_width, half_height),
            r.min_x == center.x - half_width,
            r.max_x == center.x + half_width,
            r.min_y == center.y - half_height,
            r.max_y == center.y + half_height,
    {
        Aabb {
            min_x: center.x as i64 - half_width as i64,
            min_y: center.y as i64 - half_height as i64,
            max_x: center.x as i64 + half_width as i64,
            max_y: center.y as i64 + half_height as i64,
        }
    }

    pub fn intersects(&self, other: &Aabb) -> (r: bool)
        ensures
            r == self.overlaps(*other),
    {
        self.min_x <= other.max_x && other.min_x <= self.max_x && self.min_y <= other.max_y
            && other.min_y <= self.max_y
    }

    /// Two boxes intersect exactly when some point lies in both, as long as
    /// neither is empty.
    pub proof fn lemma_intersects_is_common_point(self, other: Aabb)
        requires
            self.min_x <= self.max_x,
            self.min_y <= self.max_y,
            other.min_x <= other.max_x,
            other.min_y <= other.max_y,
        ensures
            self.overlaps(other) <==> exists|p: (int, int)|
                self.contains_point(p) && other.contains_point(p),
    {
        if self.overlaps(other) {
            let x: int = if self.min_x >= other.min_x {
                self.min_x as int
            } else {
                other.min_x as int
            };
            let y: int = if self.min_y >= other.min_y {
                self.min_y as int
            } else {
                other.min_y as int
            };
            assert(self.contains_point((x, y)) && other.contains_point((x, y)));
        }
    }
}

} // verus!
