use voxel_mesh::geometry::{make_quad, Axis, Direction, Vertex};

const ALL: [Direction; 6] = [
    Direction::Up,
    Direction::Down,
    Direction::East,
    Direction::West,
    Direction::North,
    Direction::South,
];

fn v(x: u32, y: u32, z: u32) -> Vertex {
    Vertex { x, y, z }
}

#[test]
fn step_moves_one_unit() {
    assert_eq!(Direction::Up.step(4, 5, 6), [4, 6, 6]);
    assert_eq!(Direction::Down.step(4, 5, 6), [4, 4, 6]);
    assert_eq!(Direction::East.step(4, 5, 6), [5, 5, 6]);
    assert_eq!(Direction::West.step(4, 5, 6), [3, 5, 6]);
    assert_eq!(Direction::North.step(4, 5, 6), [4, 5, 7]);
    assert_eq!(Direction::South.step(4, 5, 6), [4, 5, 5]);
}

#[test]
fn step_below_zero_wraps_to_the_largest_value() {
    assert_eq!(Direction::Down.step(0, 0, 0), [0, u32::MAX, 0]);
    assert_eq!(Direction::West.step(0, 0, 0), [u32::MAX, 0, 0]);
    assert_eq!(Direction::South.step(0, 0, 0), [0, 0, u32::MAX]);
}

#[test]
fn step_up_to_the_largest_value() {
    assert_eq!(Direction::East.step(u32::MAX - 1, 0, 0), [u32::MAX, 0, 0]);
    assert_eq!(Direction::West.step(u32::MAX, 0, 0), [u32::MAX - 1, 0, 0]);
}

#[test]
fn translate_moves_along_the_direction() {
    let mut p = v(10, 20, 30);
    Direction::Up.translate(&mut p, 3);
    assert_eq!(p, v(10, 23, 30));
    Direction::Down.translate(&mut p, 23);
    assert_eq!(p, v(10, 0, 30));
    Direction::East.translate(&mut p, 0);
    assert_eq!(p, v(10, 0, 30));
    Direction::East.translate(&mut p, 5);
    assert_eq!(p, v(15, 0, 30));
    Direction::West.translate(&mut p, 15);
    assert_eq!(p, v(0, 0, 30));
    Direction::North.translate(&mut p, u32::MAX - 30);
    assert_eq!(p, v(0, 0, u32::MAX));
    Direction::South.translate(&mut p, 1);
    assert_eq!(p, v(0, 0, u32::MAX - 1));
}

#[test]
fn quads_follow_the_face_templates() {
    let (x, y, z) = (1, 2, 3);
    assert_eq!(make_quad(Direction::Up, x, y, z), [v(1, 3, 3), v(2, 3, 3), v(2, 3, 4), v(1, 3, 4)]);
    assert_eq!(make_quad(Direction::Down, x, y, z), [v(1, 2, 3), v(1, 2, 4), v(2, 2, 4), v(2, 2, 3)]);
    assert_eq!(make_quad(Direction::East, x, y, z), [v(2, 2, 3), v(2, 2, 4), v(2, 3, 4), v(2, 3, 3)]);
    assert_eq!(make_quad(Direction::West, x, y, z), [v(1, 2, 3), v(1, 3, 3), v(1, 3, 4), v(1, 2, 4)]);
    assert_eq!(make_quad(Direction::North, x, y, z), [v(1, 2, 4), v(1, 3, 4), v(2, 3, 4), v(2, 2, 4)]);
    assert_eq!(make_quad(Direction::South, x, y, z), [v(1, 2, 3), v(2, 2, 3), v(2, 3, 3), v(1, 3, 3)]);
}

#[test]
fn quads_are_unit_squares_on_the_outer_side_of_the_cell() {
    for dir in ALL {
        let (x, y, z) = (7u32, 8u32, 9u32);
        let quad = make_quad(dir, x, y, z);
        let next = dir.step(x, y, z);
        for (i, p) in quad.iter().enumerate() {
            assert!(p.x == x || p.x == x + 1);
            assert!(p.y == y || p.y == y + 1);
            assert!(p.z == z || p.z == z + 1);
            // On the side of the cell that the direction points to.
            if next[0] != x {
                assert_eq!(p.x, x.max(next[0]));
            }
            if next[1] != y {
                assert_eq!(p.y, y.max(next[1]));
            }
            if next[2] != z {
                assert_eq!(p.z, z.max(next[2]));
            }
            let q = quad[(i + 1) % 4];
            let distance = p.x.abs_diff(q.x) + p.y.abs_diff(q.y) + p.z.abs_diff(q.z);
            assert_eq!(distance, 1);
        }
    }
}

#[test]
fn quads_all_wind_the_same_way() {
    for dir in ALL {
        let quad = make_quad(dir, 5, 5, 5);
        let e = |a: Vertex, b: Vertex| {
            (b.x as i64 - a.x as i64, b.y as i64 - a.y as i64, b.z as i64 - a.z as i64)
        };
        let a = e(quad[0], quad[1]);
        let b = e(quad[1], quad[2]);
        let cross = (a.1 * b.2 - a.2 * b.1, a.2 * b.0 - a.0 * b.2, a.0 * b.1 - a.1 * b.0);
        let next = dir.step(5, 5, 5);
        let out = (next[0] as i64 - 5, next[1] as i64 - 5, next[2] as i64 - 5);
        assert_eq!(cross, (-out.0, -out.1, -out.2));
    }
}

#[test]
fn quad_at_the_largest_cell_coordinate() {
    let m = u32::MAX;
    assert_eq!(
        make_quad(Direction::East, m - 1, m - 1, m - 1),
        [v(m, m - 1, m - 1), v(m, m - 1, m), v(m, m, m), v(m, m, m - 1)]
    );
}

#[test]
fn each_axis_has_two_opposite_directions() {
    assert_eq!(Axis::X.positive(), Direction::East);
    assert_eq!(Axis::X.negative(), Direction::West);
    assert_eq!(Axis::Y.positive(), Direction::Up);
    assert_eq!(Axis::Y.negative(), Direction::Down);
    assert_eq!(Axis::Z.positive(), Direction::North);
    assert_eq!(Axis::Z.negative(), Direction::South);
    for dir in ALL {
        let axis = dir.axis();
        assert!(axis.positive() == dir || axis.negative() == dir);
    }
}
