//! Directions of the six cuboid faces, vectors and display transformations.

use vstd::prelude::*;
use crate::fixed::Fixed;

verus! {

/// A pair of scalars: a texture coordinate.
pub type Vec2 = [Fixed; 2];

/// A triple of scalars: a position, a direction, or the three parts of a
/// rotation, translation or scale.
pub type Vec3 = [Fixed; 3];

/// One of the six axis-aligned face directions of a cuboid.
#[derive(Copy, Clone, Debug, PartialEq, Eq, Structural)]
pub enum Direction {
    Down,
    Up,
    North,
    South,
    West,
    East,
}

impl Direction {
    /// Position of the direction in the fixed order down, up, north, south,
    /// west, east.
    pub open spec fn spec_index(self) -> usize {
        match self {
            Direction::Down => 0,
            Direction::Up => 1,
            Direction::North => 2,
            Direction::South => 3,
            Direction::West => 4,
            Direction::East => 5,
        }
    }

    /// The direction that follows `self` in the fixed order, wrapping from
    /// east back to down.
    pub open spec fn spec_cycle(self) -> Direction {
        match self {
            Direction::Down => Direction::Up,
            Direction::Up => Direction::North,
            Direction::North => Direction::South,
            Direction::South => Direction::West,
            Direction::West => Direction::East,
            Direction::East => Direction::Down,
        }
    }

    /// The direction that follows `self` in the fixed order, wrapping from
    /// east back to down.
    #[verifier::when_used_as_spec(spec_cycle)]
    pub fn cycle(self) -> (next: Direction)
        ensures
            next == self.spec_cycle(),
            next.spec_index() == (self.spec_index() + 1) % 6,
    {
        match self {
            Direction::Down => Direction::Up,
            Direction::Up => Direction::North,
            Direction::North => Direction::South,
            Direction::South => Direction::West,
            Direction::West => Direction::East,
            Direction::East => Direction::Down,
        }
    }

    /// Position of the direction in the fixed order down, up, north, south,
    /// west, east.
    #[verifier::when_used_as_spec(spec_index)]
    pub fn index(self) -> (i: usize)
        ensures
            i == self.spec_index(),
            i < 6,
    {
        match self {
            Direction::Down => 0,
            Direction::Up => 1,
            Direction::North => 2,
            Direction::South => 3,
            Direction::West => 4,
            Direction::East => 5,
        }
    }

    /// The outward unit normal of a face that looks in this direction: down
    /// and up along y, north and south along z, west and east along x.
    pub open spec fn normal(self) -> (int, int, int) {
        match self {
            Direction::Down => (0, -1, 0),
            Direction::Up => (0, 1, 0),
            Direction::North => (0, 0, -1),
            Direction::South => (0, 0, 1),
            Direction::West => (-1, 0, 0),
            Direction::East => (1, 0, 0),
        }
    }

    /// The outward unit normal as a vector.
    pub open spec fn spec_vector(self) -> Vec3 {
        [
            Fixed { raw: (65536 * self.normal().0) as i32 },
            Fixed { raw: (65536 * self.normal().1) as i32 },
            Fixed { raw: (65536 * self.normal().2) as i32 },
        ]
    }

    /// The outward unit normal as a vector.
    #[verifier::when_used_as_spec(spec_vector)]
    pub fn vector(self) -> (v: Vec3)
        ensures
            v == self.spec_vector(),
    {
        let zero = Fixed::zero();
        let plus = Fixed::one();
        let minus = Fixed::from_raw(-65536);
        let v = match self {
            Direction::Down => [zero, minus, zero],
            Direction::Up => [zero, plus, zero],
            Direction::North => [zero, zero, minus],
            Direction::South => [zero, zero, plus],
            Direction::West => [minus, zero, zero],
            Direction::East => [plus, zero, zero],
        };
        assert(v =~= self.spec_vector());
        v
    }

    /// Whether the normal points along its axis in the negative sense: so
    /// it is for down, north and west.
    pub open spec fn spec_negative_axis(self) -> bool {
        self.spec_index() % 2 == 0
    }

    /// Whether the normal points along its axis in the negative sense.
    #[verifier::when_used_as_spec(spec_negative_axis)]
    pub fn negative_axis(self) -> (neg: bool)
        ensures
            neg == self.spec_negative_axis(),
            neg == (self.normal().0 + self.normal().1 + self.normal().2 < 0),
    {
        self.index() % 2 == 0
    }
}

/// How a model is turned, moved and scaled in one display context.
#[derive(Copy, Clone, Debug, PartialEq, Eq)]
pub struct DisplayTransformation {
    pub rotation: Vec3,
    pub translation: Vec3,
    pub scale: Vec3,
}

/// The transformation that turns by nothing, moves by nothing and scales by
/// one.
pub open spec fn identity_transformation() -> DisplayTransformation {
    DisplayTransformation {
        rotation: [Fixed { raw: 0 }, Fixed { raw: 0 }, Fixed { raw: 0 }],
        translation: [Fixed { raw: 0 }, Fixed { raw: 0 }, Fixed { raw: 0 }],
        scale: [Fixed { raw: 65536 }, Fixed { raw: 65536 }, Fixed { raw: 65536 }],
    }
}

impl Default for DisplayTransformation {
    fn default() -> (t: DisplayTransformation)
        ensures
            t == identity_transformation(),
    {
        let zero = Fixed::zero();
        let one = Fixed::one();
        let t = DisplayTransformation {
            rotation: [zero, zero, zero],
            translation: [zero, zero, zero],
            scale: [one, one, one],
        };
        assert(t.rotation =~= identity_transformation().rotation);
        assert(t.translation =~= identity_transformation().translation);
        assert(t.scale =~= identity_transformation().scale);
        t
    }
}

/// The transformations of the eight display contexts.
#[derive(Clone, Debug, PartialEq, Eq)]
pub struct Display {
    pub thirdperson_righthand: DisplayTransformation,
    pub thirdperson_lefthand: DisplayTransformation,
    pub firstperson_righthand: DisplayTransformation,
    pub firstperson_lefthand: DisplayTransformation,
    pub gui: DisplayTransformation,
    pub head: DisplayTransformation,
    pub ground: DisplayTransformation,
    pub fixed: DisplayTransformation,
}

impl Display {
    /// The table with the identity in every context.
    pub open spec fn identity() -> Display {
        Display {
            thirdperson_righthand: identity_transformation(),
            thirdperson_lefthand: identity_transformation(),
            firstperson_righthand: identity_transformation(),
            firstperson_lefthand: identity_transformation(),
            gui: identity_transformation(),
            head: identity_transformation(),
            ground: identity_transformation(),
            fixed: identity_transformation(),
        }
    }
}

impl Default for Display {
    fn default() -> (d: Display)
        ensures
            d == Display::identity(),
    {
        let t = DisplayTransformation::default();
        Display {
            thirdperson_righthand: t,
            thirdperson_lefthand: t,
            firstperson_righthand: t,
            firstperson_lefthand: t,
            gui: t,
            head: t,
            ground: t,
            fixed: t,
        }
    }
}

} // verus!
