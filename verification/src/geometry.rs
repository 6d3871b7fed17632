//! Directions, vertices and quads: the unit step of each direction and the
//! four-corner template of the face that looks in that direction.

use vstd::prelude::*;
use crate::colour::Colour;

verus! {

/// One of the six axis-aligned directions a cell face can look in.
#[derive(Clone, Copy, Debug, PartialEq, Eq, Structural)]
pub enum Direction {
    Up,
    Down,
    East,
    West,
    North,
    South,
}

/// One of the three grid axes. Each axis carries a pair of opposite
/// directions.
#[derive(Clone, Copy, Debug, PartialEq, Eq, Structural)]
pub enum Axis {
    X,
    Y,
    Z,
}

/// A corner of a grid cell. Coordinates are whole numbers; the cell at
/// `(x, y, z)` spans from that vertex to `(x + 1, y + 1, z + 1)`.
#[derive(Clone, Copy, Debug, PartialEq, Eq, Structural)]
pub struct Vertex {
    pub x: u32,
    pub y: u32,
    pub z: u32,
}

/// One visible face of a solid cell.
#[derive(Clone, Copy, Debug, PartialEq, Eq)]
pub struct Quad {
    pub vertices: [Vertex; 4],
    pub colour: Colour,
    pub side: Direction,
}

/// The neighbouring coordinate as the machine holds it: a step below zero
/// lands on the largest `u32`.
pub open spec fn wrapped(c: int) -> int {
    if c < 0 {
        u32::MAX as int
    } else {
        c
    }
}

impl Axis {
    /// The direction of this axis along which coordinates grow.
    pub open spec fn spec_positive(self) -> Direction {
        match self {
            Axis::X => Direction::East,
            Axis::Y => Direction::Up,
            Axis::Z => Direction::North,
        }
    }

    /// The direction of this axis along which coordinates shrink.
    pub open spec fn spec_negative(self) -> Direction {
        match self {
            Axis::X => Direction::West,
            Axis::Y => Direction::Down,
            Axis::Z => Direction::South,
        }
    }

    /// The direction of this axis along which coordinates grow.
    #[verifier::when_used_as_spec(spec_positive)]
    pub fn positive(self) -> (d: Direction)
        ensures
            d == self.spec_positive(),
    {
        match self {
            Axis::X => Direction::East,
            Axis::Y => Direction::Up,
            Axis::Z => Direction::North,
        }
    }

    /// The direction of this axis along which coordinates shrink.
    #[verifier::when_used_as_spec(spec_negative)]
    pub fn negative(self) -> (d: Direction)
        ensures
            d == self.spec_negative(),
    {
        match self {
            Axis::X => Direction::West,
            Axis::Y => Direction::Down,
            Axis::Z => Direction::South,
        }
    }
}

impl Direction {
    /// The unit step `(dx, dy, dz)` from a cell to its neighbour in this
    /// direction.
    pub open spec fn offset(self) -> (int, int, int) {
        match self {
            Direction::Up => (0, 1, 0),
            Direction::Down => (0, -1, 0),
            Direction::East => (1, 0, 0),
            Direction::West => (-1, 0, 0),
            Direction::North => (0, 0, 1),
            Direction::South => (0, 0, -1),
        }
    }

    /// The four corners of the face that looks in this direction, as offsets
    /// from the cell's own coordinate, in the order in which they are emitted.
    pub open spec fn corners(self) -> Seq<(int, int, int)> {
        match self {
            Direction::Up => seq![(0, 1, 0), (1, 1, 0), (1, 1, 1), (0, 1, 1)],
            Direction::Down => seq![(0, 0, 0), (0, 0, 1), (1, 0, 1), (1, 0, 0)],
            Direction::East => seq![(1, 0, 0), (1, 0, 1), (1, 1, 1), (1, 1, 0)],
            Direction::West => seq![(0, 0, 0), (0, 1, 0), (0, 1, 1), (0, 0, 1)],
            Direction::North => seq![(0, 0, 1), (0, 1, 1), (1, 1, 1), (1, 0, 1)],
            Direction::South => seq![(0, 0, 0), (1, 0, 0), (1, 1, 0), (0, 1, 0)],
        }
    }

    /// The direction that looks the other way.
    pub open spec fn opposite(self) -> Direction {
        match self {
            Direction::Up => Direction::Down,
            Direction::Down => Direction::Up,
            Direction::East => Direction::West,
            Direction::West => Direction::East,
            Direction::North => Direction::South,
            Direction::South => Direction::North,
        }
    }

    /// The axis this direction runs along.
    pub open spec fn spec_axis(self) -> Axis {
        match self {
            Direction::East | Direction::West => Axis::X,
            Direction::Up | Direction::Down => Axis::Y,
            Direction::North | Direction::South => Axis::Z,
        }
    }

    /// The axis this direction runs along.
    #[verifier::when_used_as_spec(spec_axis)]
    pub fn axis(self) -> (a: Axis)
        ensures
            a == self.spec_axis(),
    {
        match self {
            Direction::East | Direction::West => Axis::X,
            Direction::Up | Direction::Down => Axis::Y,
            Direction::North | Direction::South => Axis::Z,
        }
    }

    /// Whether a step in this direction from `(x, y, z)` can be held in
    /// `u32` coordinates without running past the largest value.
    pub open spec fn can_step(self, x: u32, y: u32, z: u32) -> bool {
        let (dx, dy, dz) = self.offset();
        x + dx <= u32::MAX && y + dy <= u32::MAX && z + dz <= u32::MAX
    }

    /// The coordinate one unit away from `(x, y, z)` in this direction.
    /// Stepping down from zero wraps to `u32::MAX`, which no grid dimension
    /// can exceed, so a bounds check always catches it.
    pub fn step(&self, x: u32, y: u32, z: u32) -> (n: [u32; 3])
        requires
            self.can_step(x, y, z),
        ensures
            n[0] == wrapped(x + self.offset().0),
            n[1] == wrapped(y + self.offset().1),
            n[2] == wrapped(z + self.offset().2),
    {
        match self {
            Direction::Up => [x, y + 1, z],
            Direction::Down => [x, y.wrapping_sub(1), z],
            Direction::East => [x + 1, y, z],
            Direction::West => [x.wrapping_sub(1), y, z],
            Direction::North => [x, y, z + 1],
            Direction::South => [x, y, z.wrapping_sub(1)],
        }
    }

    /// Moves `v` by `amount` units in this direction.
    pub fn translate(&self, v: &mut Vertex, amount: u32)
        requires
            old(v).in_range_after(*self, amount as int),
        ensures
            final(v).x == old(v).x + amount * self.offset().0,
            final(v).y == old(v).y + amount * self.offset().1,
            final(v).z == old(v).z + amount * self.offset().2,
    {
        match self {
            Direction::Up => v.y += amount,
            Direction::Down => v.y -= amount,
            Direction::East => v.x += amount,
            Direction::West => v.x -= amount,
            Direction::North => v.z += amount,
            Direction::South => v.z -= amount,
        };
    }
}

impl Vertex {
    /// Whether this vertex, moved `amount` units in direction `dir`, still
    /// has coordinates that fit in `u32`.
    pub open spec fn in_range_after(self, dir: Direction, amount: int) -> bool {
        let (dx, dy, dz) = dir.offset();
        &&& 0 <= self.x + amount * dx <= u32::MAX
        &&& 0 <= self.y + amount * dy <= u32::MAX
        &&& 0 <= self.z + amount * dz <= u32::MAX
    }
}

/// The vertex at corner `i` of the face of cell `(x, y, z)` that looks in
/// direction `side`.
pub open spec fn corner_vertex(side: Direction, i: int, x: u32, y: u32, z: u32) -> Vertex {
    let c = side.corners()[i];
    Vertex { x: (x + c.0) as u32, y: (y + c.1) as u32, z: (z + c.2) as u32 }
}

/// The four vertices of the face of cell `(x, y, z)` that looks in direction
/// `side`.
pub open spec fn quad_vertices(side: Direction, x: u32, y: u32, z: u32) -> [Vertex; 4] {
    [
        corner_vertex(side, 0, x, y, z),
        corner_vertex(side, 1, x, y, z),
        corner_vertex(side, 2, x, y, z),
        corner_vertex(side, 3, x, y, z),
    ]
}

/// Builds the unit-square face of cell `(x, y, z)` that looks in direction
/// `side`.
pub fn make_quad(side: Direction, x: u32, y: u32, z: u32) -> (q: [Vertex; 4])
    requires
        x < u32::MAX,
        y < u32::MAX,
        z < u32::MAX,
    ensures
        q == quad_vertices(side, x, y, z),
{
    let x1: u32 = x + 1;
    let y1: u32 = y + 1;
    let z1: u32 = z + 1;
    let q = match side {
        Direction::Up => [vertex(x, y1, z), vertex(x1, y1, z), vertex(x1, y1, z1), vertex(x, y1, z1)],
        Direction::Down => [vertex(x, y, z), vertex(x, y, z1), vertex(x1, y, z1), vertex(x1, y, z)],
        Direction::East => [vertex(x1, y, z), vertex(x1, y, z1), vertex(x1, y1, z1), vertex(x1, y1, z)],
        Direction::West => [vertex(x, y, z), vertex(x, y1, z), vertex(x, y1, z1), vertex(x, y, z1)],
        Direction::North => [vertex(x, y, z1), vertex(x, y1, z1), vertex(x1, y1, z1), vertex(x1, y, z1)],
        Direction::South => [vertex(x, y, z), vertex(x1, y, z), vertex(x1, y1, z), vertex(x, y1, z)],
    };
    assert(q =~= quad_vertices(side, x, y, z));
    q
}

fn vertex(x: u32, y: u32, z: u32) -> (v: Vertex)
    ensures
        v == (Vertex { x, y, z }),
{
    Vertex { x, y, z }
}

/// The two directions of an axis are opposite, and every direction is one of
/// the two directions of its axis.
pub proof fn lemma_axis_pairs(dir: Direction)
    ensures
        dir == dir.spec_axis().spec_positive() || dir == dir.spec_axis().spec_negative(),
        dir.spec_axis().spec_positive() != dir.spec_axis().spec_negative(),
        dir.spec_axis().spec_positive().offset().0 == -dir.spec_axis().spec_negative().offset().0,
        dir.spec_axis().spec_positive().offset().1 == -dir.spec_axis().spec_negative().offset().1,
        dir.spec_axis().spec_positive().offset().2 == -dir.spec_axis().spec_negative().offset().2,
{
}

/// Every face template is a unit square on the side of the cell that its
/// direction points to: each corner is a corner of the unit cube, all four
/// lie in the plane the direction leaves the cell through, and each corner
/// differs from the next (the last from the first) in exactly one coordinate.
pub proof fn lemma_quad_is_unit_face(dir: Direction)
    ensures
        dir.corners().len() == 4,
        forall|i: int|
            0 <= i < 4 ==> {
                let c = #[trigger] dir.corners()[i];
                &&& (c.0 == 0 || c.0 == 1)
                &&& (c.1 == 0 || c.1 == 1)
                &&& (c.2 == 0 || c.2 == 1)
                &&& on_face(dir, c)
            },
        forall|i: int|
            0 <= i < 4 ==> #[trigger] manhattan(dir.corners()[i], dir.corners()[(i + 1) % 4]) == 1,
{
    assert forall|i: int| 0 <= i < 4 implies {
        let c = #[trigger] dir.corners()[i];
        &&& (c.0 == 0 || c.0 == 1)
        &&& (c.1 == 0 || c.1 == 1)
        &&& (c.2 == 0 || c.2 == 1)
        &&& on_face(dir, c)
    } by {
        if i == 0 {
        } else if i == 1 {
        } else if i == 2 {
        } else {
        }
    }
    assert forall|i: int| 0 <= i < 4 implies #[trigger] manhattan(
        dir.corners()[i],
        dir.corners()[(i + 1) % 4],
    ) == 1 by {
        if i == 0 {
        } else if i == 1 {
        } else if i == 2 {
        } else {
        }
    }
}

/// Whether the cube corner `c` lies in the plane through which direction
/// `dir` leaves the unit cube.
pub open spec fn on_face(dir: Direction, c: (int, int, int)) -> bool {
    let (dx, dy, dz) = dir.offset();
    2 * (c.0 * dx + c.1 * dy + c.2 * dz) == dx + dy + dz + 1
}

/// The sum of the coordinate distances between two points.
pub open spec fn manhattan(a: (int, int, int), b: (int, int, int)) -> int {
    abs(a.0 - b.0) + abs(a.1 - b.1) + abs(a.2 - b.2)
}

/// The distance of `i` from zero.
pub open spec fn abs(i: int) -> int {
    if i < 0 {
        -i
    } else {
        i
    }
}

/// The cross product of two vectors.
pub open spec fn cross(a: (int, int, int), b: (int, int, int)) -> (int, int, int) {
    (a.1 * b.2 - a.2 * b.1, a.2 * b.0 - a.0 * b.2, a.0 * b.1 - a.1 * b.0)
}

/// The vector from `a` to `b`.
pub open spec fn delta(a: (int, int, int), b: (int, int, int)) -> (int, int, int) {
    (b.0 - a.0, b.1 - a.1, b.2 - a.2)
}

/// All six faces wind the same way: the cross product of the first edge with
/// the second is the opposite of the outward step, for every direction.
pub proof fn lemma_quad_winding(dir: Direction)
    ensures
        ({
            let c = dir.corners();
            let n = cross(delta(c[0], c[1]), delta(c[1], c[2]));
            let (dx, dy, dz) = dir.offset();
            n.0 == -dx && n.1 == -dy && n.2 == -dz
        }),
{
    let c = dir.corners();
    let e1 = delta(c[0], c[1]);
    let e2 = delta(c[1], c[2]);
    assert((e1.0 == 0 || e1.0 == 1 || e1.0 == -1) && (e1.1 == 0 || e1.1 == 1 || e1.1 == -1) && (
    e1.2 == 0 || e1.2 == 1 || e1.2 == -1));
    assert((e2.0 == 0 || e2.0 == 1 || e2.0 == -1) && (e2.1 == 0 || e2.1 == 1 || e2.1 == -1) && (
    e2.2 == 0 || e2.2 == 1 || e2.2 == -1));
}

/// A face determines its cell: two faces that look the same way and start at
/// the same vertex belong to the same cell.
pub proof fn lemma_quad_vertices_injective(
    side: Direction,
    x1: u32,
    y1: u32,
    z1: u32,
    x2: u32,
    y2: u32,
    z2: u32,
)
    requires
        x1 < u32::MAX,
        y1 < u32::MAX,
        z1 < u32::MAX,
        x2 < u32::MAX,
        y2 < u32::MAX,
        z2 < u32::MAX,
        quad_vertices(side, x1, y1, z1) == quad_vertices(side, x2, y2, z2),
    ensures
        x1 == x2,
        y1 == y2,
        z1 == z2,
{
    let a = quad_vertices(side, x1, y1, z1);
    let b = quad_vertices(side, x2, y2, z2);
    assert(a[0] == corner_vertex(side, 0, x1, y1, z1));
    assert(b[0] == corner_vertex(side, 0, x2, y2, z2));
}

} // verus!
