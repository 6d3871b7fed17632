//! What holds of every mesh: which quads it contains, and how many there are
//! for empty grids, solid grids, single voxels and adjacent pairs.

use vstd::prelude::*;
use vstd::seq_lib::{
    lemma_no_dup_in_concat, lemma_seq_concat_contains_all_elements, lemma_seq_contains_after_push,
};
use crate::geometry::{corner_vertex, lemma_axis_pairs, Axis, Direction, Quad};
use crate::grid::{lemma_index_in_range, GridView, EMPTY};
use crate::mesh::{cell_on, face_quad, faces_along, faces_in_row, faces_in_slice, mesh, visible};

verus! {

/// Whether `quad` stands for a visible face of the grid.
pub open spec fn is_face(g: GridView, quad: Quad) -> bool {
    exists|x: int, y: int, z: int, dir: Direction| #[trigger]
        visible(g, x, y, z, dir) && quad == face_quad(g, x, y, z, dir)
}

proof fn lemma_row_sound(g: GridView, dir: Direction, a: int, b: int, n: int, quad: Quad)
    requires
        faces_in_row(g, dir, a, b, n).contains(quad),
    ensures
        is_face(g, quad),
    decreases n,
{
    if n > 0 {
        let (x, y, z) = cell_on(dir.spec_axis(), a, b, n - 1);
        let before = faces_in_row(g, dir, a, b, n - 1);
        if visible(g, x, y, z, dir) {
            lemma_seq_contains_after_push(before, face_quad(g, x, y, z, dir), quad);
        }
        if before.contains(quad) {
            lemma_row_sound(g, dir, a, b, n - 1, quad);
        }
    }
}

proof fn lemma_slice_sound(g: GridView, dir: Direction, a: int, n: int, quad: Quad)
    requires
        faces_in_slice(g, dir, a, n).contains(quad),
    ensures
        is_face(g, quad),
    decreases n,
{
    if n > 0 {
        let before = faces_in_slice(g, dir, a, n - 1);
        let row = faces_in_row(g, dir, a, n - 1, g.extents(dir.spec_axis()).2);
        lemma_seq_concat_contains_all_elements(before, row, quad);
        if before.contains(quad) {
            lemma_slice_sound(g, dir, a, n - 1, quad);
        } else {
            lemma_row_sound(g, dir, a, n - 1, g.extents(dir.spec_axis()).2, quad);
        }
    }
}

proof fn lemma_along_sound(g: GridView, axis: Axis, n: int, quad: Quad)
    requires
        faces_along(g, axis, n).contains(quad),
    ensures
        is_face(g, quad),
    decreases n,
{
    if n > 0 {
        let before = faces_along(g, axis, n - 1);
        let up = faces_in_slice(g, axis.spec_positive(), n - 1, g.extents(axis).1);
        let down = faces_in_slice(g, axis.spec_negative(), n - 1, g.extents(axis).1);
        lemma_seq_concat_contains_all_elements(before + up, down, quad);
        lemma_seq_concat_contains_all_elements(before, up, quad);
        if before.contains(quad) {
            lemma_along_sound(g, axis, n - 1, quad);
        } else if up.contains(quad) {
            lemma_slice_sound(g, axis.spec_positive(), n - 1, g.extents(axis).1, quad);
        } else {
            lemma_slice_sound(g, axis.spec_negative(), n - 1, g.extents(axis).1, quad);
        }
    }
}

/// Every quad of the mesh stands for a visible face: a solid cell's face
/// whose neighbour is empty or outside the grid, with the face's vertices,
/// the cell's colour and the face's direction.
pub proof fn lemma_mesh_sound(g: GridView, quad: Quad)
    requires
        mesh(g).contains(quad),
    ensures
        is_face(g, quad),
{
    let xs = faces_along(g, Axis::X, g.width as int);
    let ys = faces_along(g, Axis::Y, g.height as int);
    let zs = faces_along(g, Axis::Z, g.depth as int);
    lemma_seq_concat_contains_all_elements(xs + ys, zs, quad);
    lemma_seq_concat_contains_all_elements(xs, ys, quad);
    if xs.contains(quad) {
        lemma_along_sound(g, Axis::X, g.width as int, quad);
    } else if ys.contains(quad) {
        lemma_along_sound(g, Axis::Y, g.height as int, quad);
    } else {
        lemma_along_sound(g, Axis::Z, g.depth as int, quad);
    }
}

proof fn lemma_row_complete(g: GridView, dir: Direction, a: int, b: int, n: int, c: int)
    requires
        0 <= c < n,
        ({
            let (x, y, z) = cell_on(dir.spec_axis(), a, b, c);
            visible(g, x, y, z, dir)
        }),
    ensures
        ({
            let (x, y, z) = cell_on(dir.spec_axis(), a, b, c);
            faces_in_row(g, dir, a, b, n).contains(face_quad(g, x, y, z, dir))
        }),
    decreases n,
{
    let (x, y, z) = cell_on(dir.spec_axis(), a, b, c);
    let quad = face_quad(g, x, y, z, dir);
    let (lx, ly, lz) = cell_on(dir.spec_axis(), a, b, n - 1);
    let before = faces_in_row(g, dir, a, b, n - 1);
    if c < n - 1 {
        lemma_row_complete(g, dir, a, b, n - 1, c);
    }
    if visible(g, lx, ly, lz, dir) {
        lemma_seq_contains_after_push(before, face_quad(g, lx, ly, lz, dir), quad);
    }
}

proof fn lemma_slice_complete(g: GridView, dir: Direction, a: int, n: int, b: int, c: int)
    requires
        0 <= b < n,
        0 <= c < g.extents(dir.spec_axis()).2,
        ({
            let (x, y, z) = cell_on(dir.spec_axis(), a, b, c);
            visible(g, x, y, z, dir)
        }),
    ensures
        ({
            let (x, y, z) = cell_on(dir.spec_axis(), a, b, c);
            faces_in_slice(g, dir, a, n).contains(face_quad(g, x, y, z, dir))
        }),
    decreases n,
{
    let (x, y, z) = cell_on(dir.spec_axis(), a, b, c);
    let quad = face_quad(g, x, y, z, dir);
    let before = faces_in_slice(g, dir, a, n - 1);
    let row = faces_in_row(g, dir, a, n - 1, g.extents(dir.spec_axis()).2);
    lemma_seq_concat_contains_all_elements(before, row, quad);
    if b < n - 1 {
        lemma_slice_complete(g, dir, a, n - 1, b, c);
    } else {
        lemma_row_complete(g, dir, a, b, g.extents(dir.spec_axis()).2, c);
    }
}

proof fn lemma_along_complete(g: GridView, dir: Direction, n: int, a: int, b: int, c: int)
    requires
        0 <= a < n,
        0 <= b < g.extents(dir.spec_axis()).1,
        0 <= c < g.extents(dir.spec_axis()).2,
        ({
            let (x, y, z) = cell_on(dir.spec_axis(), a, b, c);
            visible(g, x, y, z, dir)
        }),
    ensures
        ({
            let (x, y, z) = cell_on(dir.spec_axis(), a, b, c);
            faces_along(g, dir.spec_axis(), n).contains(face_quad(g, x, y, z, dir))
        }),
    decreases n,
{
    let axis = dir.spec_axis();
    let (x, y, z) = cell_on(axis, a, b, c);
    let quad = face_quad(g, x, y, z, dir);
    let before = faces_along(g, axis, n - 1);
    let up = faces_in_slice(g, axis.spec_positive(), n - 1, g.extents(axis).1);
    let down = faces_in_slice(g, axis.spec_negative(), n - 1, g.extents(axis).1);
    lemma_seq_concat_contains_all_elements(before + up, down, quad);
    lemma_seq_concat_contains_all_elements(before, up, quad);
    if a < n - 1 {
        lemma_along_complete(g, dir, n - 1, a, b, c);
    } else {
        lemma_axis_pairs(dir);
        lemma_slice_complete(g, dir, a, g.extents(axis).1, b, c);
    }
}

/// Every visible face has its quad in the mesh.
pub proof fn lemma_mesh_complete(g: GridView, x: int, y: int, z: int, dir: Direction)
    requires
        visible(g, x, y, z, dir),
    ensures
        mesh(g).contains(face_quad(g, x, y, z, dir)),
{
    let axis = dir.spec_axis();
    let (a, b, c) = cell_on(axis, x, y, z);
    assert(cell_on(axis, a, b, c) == (x, y, z));
    let quad = face_quad(g, x, y, z, dir);
    let xs = faces_along(g, Axis::X, g.width as int);
    let ys = faces_along(g, Axis::Y, g.height as int);
    let zs = faces_along(g, Axis::Z, g.depth as int);
    lemma_seq_concat_contains_all_elements(xs + ys, zs, quad);
    lemma_seq_concat_contains_all_elements(xs, ys, quad);
    lemma_along_complete(g, dir, g.extents(axis).0, a, b, c);
}

/// One where `b` holds, zero where it does not.
pub open spec fn one_if(b: bool) -> int {
    if b {
        1
    } else {
        0
    }
}

/// The visible faces looking in direction `dir` in the first `n` slices
/// along the direction's axis.
pub open spec fn faces_towards(g: GridView, dir: Direction, n: int) -> Seq<Quad>
    decreases n,
{
    if n <= 0 {
        Seq::empty()
    } else {
        faces_towards(g, dir, n - 1) + faces_in_slice(
            g,
            dir,
            n - 1,
            g.extents(dir.spec_axis()).1,
        )
    }
}

/// The number of faces seen looking in direction `dir`.
pub open spec fn count_towards(g: GridView, dir: Direction) -> int {
    faces_towards(g, dir, g.extents(dir.spec_axis()).0).len() as int
}

proof fn lemma_along_len(g: GridView, axis: Axis, n: int)
    ensures
        faces_along(g, axis, n).len() == faces_towards(g, axis.spec_positive(), n).len()
            + faces_towards(g, axis.spec_negative(), n).len(),
    decreases n,
{
    if n > 0 {
        lemma_along_len(g, axis, n - 1);
    }
}

/// The mesh has as many quads as there are visible faces, direction by
/// direction.
pub proof fn lemma_mesh_len(g: GridView)
    ensures
        mesh(g).len() == count_towards(g, Direction::East) + count_towards(g, Direction::West)
            + count_towards(g, Direction::Up) + count_towards(g, Direction::Down) + count_towards(
            g,
            Direction::North,
        ) + count_towards(g, Direction::South),
{
    lemma_along_len(g, Axis::X, g.width as int);
    lemma_along_len(g, Axis::Y, g.height as int);
    lemma_along_len(g, Axis::Z, g.depth as int);
}

/// Whether, looking in direction `dir`, the only faces seen are those of the
/// cells `p` and `q`, each counted only where its flag is set.
pub open spec fn seen_only_at(
    g: GridView,
    dir: Direction,
    p: (int, int, int),
    at_p: bool,
    q: (int, int, int),
    at_q: bool,
) -> bool {
    forall|x: int, y: int, z: int|
        g.in_bounds(x, y, z) ==> (#[trigger] visible(g, x, y, z, dir) <==> (at_p && (x, y, z) == p)
            || (at_q && (x, y, z) == q))
}

spec fn in_row(axis: Axis, p: (int, int, int), a: int, b: int, n: int) -> bool {
    let r = cell_on(axis, p.0, p.1, p.2);
    r.0 == a && r.1 == b && 0 <= r.2 < n
}

spec fn in_slice(axis: Axis, p: (int, int, int), a: int, n: int) -> bool {
    let r = cell_on(axis, p.0, p.1, p.2);
    r.0 == a && 0 <= r.1 < n
}

spec fn in_slices(axis: Axis, p: (int, int, int), n: int) -> bool {
    let r = cell_on(axis, p.0, p.1, p.2);
    0 <= r.0 < n
}

proof fn lemma_row_len_points(
    g: GridView,
    dir: Direction,
    p: (int, int, int),
    at_p: bool,
    q: (int, int, int),
    at_q: bool,
    a: int,
    b: int,
    n: int,
)
    requires
        seen_only_at(g, dir, p, at_p, q, at_q),
        at_p && at_q ==> p != q,
        0 <= a < g.extents(dir.spec_axis()).0,
        0 <= b < g.extents(dir.spec_axis()).1,
        0 <= n <= g.extents(dir.spec_axis()).2,
    ensures
        faces_in_row(g, dir, a, b, n).len() == one_if(at_p && in_row(dir.spec_axis(), p, a, b, n))
            + one_if(at_q && in_row(dir.spec_axis(), q, a, b, n)),
    decreases n,
{
    if n > 0 {
        lemma_row_len_points(g, dir, p, at_p, q, at_q, a, b, n - 1);
        let (x, y, z) = cell_on(dir.spec_axis(), a, b, n - 1);
        assert(g.in_bounds(x, y, z));
        assert(visible(g, x, y, z, dir) <==> (at_p && (x, y, z) == p) || (at_q && (x, y, z) == q));
    }
}

proof fn lemma_slice_len_points(
    g: GridView,
    dir: Direction,
    p: (int, int, int),
    at_p: bool,
    q: (int, int, int),
    at_q: bool,
    a: int,
    n: int,
)
    requires
        seen_only_at(g, dir, p, at_p, q, at_q),
        at_p ==> g.in_bounds(p.0, p.1, p.2),
        at_q ==> g.in_bounds(q.0, q.1, q.2),
        at_p && at_q ==> p != q,
        0 <= a < g.extents(dir.spec_axis()).0,
        0 <= n <= g.extents(dir.spec_axis()).1,
    ensures
        faces_in_slice(g, dir, a, n).len() == one_if(at_p && in_slice(dir.spec_axis(), p, a, n))
            + one_if(at_q && in_slice(dir.spec_axis(), q, a, n)),
    decreases n,
{
    if n > 0 {
        lemma_slice_len_points(g, dir, p, at_p, q, at_q, a, n - 1);
        lemma_row_len_points(g, dir, p, at_p, q, at_q, a, n - 1, g.extents(dir.spec_axis()).2);
    }
}

proof fn lemma_towards_len_points(
    g: GridView,
    dir: Direction,
    p: (int, int, int),
    at_p: bool,
    q: (int, int, int),
    at_q: bool,
    n: int,
)
    requires
        seen_only_at(g, dir, p, at_p, q, at_q),
        at_p ==> g.in_bounds(p.0, p.1, p.2),
        at_q ==> g.in_bounds(q.0, q.1, q.2),
        at_p && at_q ==> p != q,
        0 <= n <= g.extents(dir.spec_axis()).0,
    ensures
        faces_towards(g, dir, n).len() == one_if(at_p && in_slices(dir.spec_axis(), p, n)) + one_if(
            at_q && in_slices(dir.spec_axis(), q, n),
        ),
    decreases n,
{
    if n > 0 {
        lemma_towards_len_points(g, dir, p, at_p, q, at_q, n - 1);
        lemma_slice_len_points(g, dir, p, at_p, q, at_q, n - 1, g.extents(dir.spec_axis()).1);
    }
}

/// Where, looking in one direction, faces are seen at no more than two
/// cells, the mesh holds one quad of that direction for each of them.
pub proof fn lemma_count_points(
    g: GridView,
    dir: Direction,
    p: (int, int, int),
    at_p: bool,
    q: (int, int, int),
    at_q: bool,
)
    requires
        seen_only_at(g, dir, p, at_p, q, at_q),
        at_p ==> g.in_bounds(p.0, p.1, p.2),
        at_q ==> g.in_bounds(q.0, q.1, q.2),
        at_p && at_q ==> p != q,
    ensures
        count_towards(g, dir) == one_if(at_p) + one_if(at_q),
{
    lemma_towards_len_points(g, dir, p, at_p, q, at_q, g.extents(dir.spec_axis()).0);
}

/// A grid in which every cell is empty has no quads.
pub proof fn lemma_empty_grid(g: GridView)
    requires
        g.wf(),
        forall|i: int| 0 <= i < g.cells.len() ==> g.cells[i] == EMPTY,
    ensures
        mesh(g).len() == 0,
{
    lemma_mesh_len(g);
    let o = (0int, 0int, 0int);
    assert forall|dir: Direction| count_towards(g, dir) == 0 by {
        assert forall|x: int, y: int, z: int| g.in_bounds(x, y, z) implies !#[trigger] visible(
            g,
            x,
            y,
            z,
            dir,
        ) by {
            lemma_index_in_range(g, x, y, z);
        }
        lemma_count_points(g, dir, o, false, o, false);
    }
}

/// Whether every cell of the grid holds a voxel.
pub open spec fn all_solid(g: GridView) -> bool {
    forall|i: int| 0 <= i < g.cells.len() ==> g.cells[i] != EMPTY
}

/// The slice whose faces looking in direction `dir` lie on the outside of
/// the grid: the last one for a direction that looks up its axis, the first
/// one for a direction that looks down it.
spec fn outer_slice(g: GridView, dir: Direction) -> int {
    if dir == dir.spec_axis().spec_positive() {
        g.extents(dir.spec_axis()).0 - 1
    } else {
        0
    }
}

proof fn lemma_row_len_solid(g: GridView, dir: Direction, a: int, b: int, n: int)
    requires
        g.wf(),
        all_solid(g),
        0 <= a < g.extents(dir.spec_axis()).0,
        0 <= b < g.extents(dir.spec_axis()).1,
        0 <= n <= g.extents(dir.spec_axis()).2,
    ensures
        faces_in_row(g, dir, a, b, n).len() == if a == outer_slice(g, dir) {
            n
        } else {
            0
        },
    decreases n,
{
    if n > 0 {
        lemma_row_len_solid(g, dir, a, b, n - 1);
        let (x, y, z) = cell_on(dir.spec_axis(), a, b, n - 1);
        let (dx, dy, dz) = dir.offset();
        lemma_index_in_range(g, x, y, z);
        if g.in_bounds(x + dx, y + dy, z + dz) {
            lemma_index_in_range(g, x + dx, y + dy, z + dz);
        }
        assert(visible(g, x, y, z, dir) <==> a == outer_slice(g, dir));
    }
}

proof fn lemma_slice_len_solid(g: GridView, dir: Direction, a: int, n: int)
    requires
        g.wf(),
        all_solid(g),
        0 <= a < g.extents(dir.spec_axis()).0,
        0 <= n <= g.extents(dir.spec_axis()).1,
    ensures
        faces_in_slice(g, dir, a, n).len() == if a == outer_slice(g, dir) {
            n * g.extents(dir.spec_axis()).2
        } else {
            0
        },
    decreases n,
{
    if n > 0 {
        let row = g.extents(dir.spec_axis()).2;
        lemma_slice_len_solid(g, dir, a, n - 1);
        lemma_row_len_solid(g, dir, a, n - 1, row);
        assert((n - 1) * row + row == n * row) by (nonlinear_arith);
    }
}

proof fn lemma_towards_len_solid(g: GridView, dir: Direction, n: int)
    requires
        g.wf(),
        all_solid(g),
        0 <= n <= g.extents(dir.spec_axis()).0,
    ensures
        faces_towards(g, dir, n).len() == if 0 <= outer_slice(g, dir) < n {
            g.extents(dir.spec_axis()).1 * g.extents(dir.spec_axis()).2
        } else {
            0
        },
    decreases n,
{
    if n > 0 {
        lemma_towards_len_solid(g, dir, n - 1);
        lemma_slice_len_solid(g, dir, n - 1, g.extents(dir.spec_axis()).1);
    }
}

/// A grid in which every cell is solid has exactly the quads of its bounding
/// box: `2 * (width * height + height * depth + width * depth)` of them.
/// A grid with exactly one dimension of zero has no cells and no quads,
/// while the formula is not zero; every other grid is covered.
pub proof fn lemma_solid_grid(g: GridView)
    requires
        g.wf(),
        all_solid(g),
        g.volume() > 0 || g.width * g.height + g.height * g.depth + g.width * g.depth == 0,
    ensures
        mesh(g).len() == 2 * (g.width * g.height + g.height * g.depth + g.width * g.depth),
{
    let w = g.width as int;
    let h = g.height as int;
    let d = g.depth as int;
    lemma_mesh_len(g);
    lemma_towards_len_solid(g, Direction::East, w);
    lemma_towards_len_solid(g, Direction::West, w);
    lemma_towards_len_solid(g, Direction::Up, h);
    lemma_towards_len_solid(g, Direction::Down, h);
    lemma_towards_len_solid(g, Direction::North, d);
    lemma_towards_len_solid(g, Direction::South, d);
    if g.volume() > 0 {
        assert(w > 0 && h > 0 && d > 0) by (nonlinear_arith)
            requires
                w * h * d > 0,
                w >= 0,
                h >= 0,
                d >= 0,
        ;
        assert(h * w == w * h) by (nonlinear_arith);
    } else {
        assert(w * h == 0 && h * d == 0 && w * d == 0 && h * w == 0) by (nonlinear_arith)
            requires
                w * h + h * d + w * d == 0,
                w >= 0,
                h >= 0,
                d >= 0,
        ;
    }
}

/// A grid whose only solid cell is `(x, y, z)` has exactly six quads: the
/// cell's face in each of the six directions. This holds wherever in the
/// grid the cell lies.
pub proof fn lemma_single_voxel(g: GridView, x: int, y: int, z: int)
    requires
        g.wf(),
        g.solid(x, y, z),
        forall|i: int, j: int, k: int|
            g.in_bounds(i, j, k) && (i, j, k) != (x, y, z) ==> #[trigger] g.cell(i, j, k) == EMPTY,
    ensures
        mesh(g).len() == 6,
        forall|dir: Direction| mesh(g).contains(#[trigger] face_quad(g, x, y, z, dir)),
{
    let p = (x, y, z);
    lemma_mesh_len(g);
    assert forall|dir: Direction| #[trigger] count_towards(g, dir) == 1 by {
        assert(visible(g, x, y, z, dir));
        lemma_count_points(g, dir, p, true, p, false);
    }
    assert forall|dir: Direction| mesh(g).contains(#[trigger] face_quad(g, x, y, z, dir)) by {
        assert(visible(g, x, y, z, dir));
        lemma_mesh_complete(g, x, y, z, dir);
    }
}

/// A grid whose only solid cells are `(x, y, z)` and its neighbour in
/// direction `toward` has exactly ten quads: every face of the two cells but
/// the two that they turn to each other. This holds wherever in the grid the
/// pair lies.
pub proof fn lemma_adjacent_pair(g: GridView, x: int, y: int, z: int, toward: Direction)
    requires
        g.wf(),
        g.solid(x, y, z),
        g.solid(x + toward.offset().0, y + toward.offset().1, z + toward.offset().2),
        forall|i: int, j: int, k: int|
            g.in_bounds(i, j, k) && (i, j, k) != (x, y, z) && (i, j, k) != (
                x + toward.offset().0,
                y + toward.offset().1,
                z + toward.offset().2,
            ) ==> #[trigger] g.cell(i, j, k) == EMPTY,
    ensures
        mesh(g).len() == 10,
        forall|dir: Direction|
            dir != toward ==> mesh(g).contains(#[trigger] face_quad(g, x, y, z, dir)),
        forall|dir: Direction|
            dir != toward.opposite() ==> mesh(g).contains(
                #[trigger] face_quad(
                    g,
                    x + toward.offset().0,
                    y + toward.offset().1,
                    z + toward.offset().2,
                    dir,
                ),
            ),
{
    let p = (x, y, z);
    let q = (x + toward.offset().0, y + toward.offset().1, z + toward.offset().2);
    lemma_mesh_len(g);
    assert forall|dir: Direction| #[trigger]
        count_towards(g, dir) == one_if(dir != toward) + one_if(dir != toward.opposite()) by {
        assert(visible(g, p.0, p.1, p.2, dir) <==> dir != toward);
        assert(visible(g, q.0, q.1, q.2, dir) <==> dir != toward.opposite());
        lemma_count_points(g, dir, p, dir != toward, q, dir != toward.opposite());
    }
    assert forall|dir: Direction| dir != toward implies mesh(g).contains(
        #[trigger] face_quad(g, x, y, z, dir),
    ) by {
        assert(visible(g, p.0, p.1, p.2, dir));
        lemma_mesh_complete(g, x, y, z, dir);
    }
    assert forall|dir: Direction| dir != toward.opposite() implies mesh(g).contains(
        #[trigger] face_quad(g, q.0, q.1, q.2, dir),
    ) by {
        assert(visible(g, q.0, q.1, q.2, dir));
        lemma_mesh_complete(g, q.0, q.1, q.2, dir);
    }
}

/// The cell a face quad belongs to, read off its first vertex.
spec fn origin(quad: Quad) -> (int, int, int) {
    let c = quad.side.corners()[0];
    (quad.vertices[0].x - c.0, quad.vertices[0].y - c.1, quad.vertices[0].z - c.2)
}

/// Where a scan along the axis of the quad's direction finds the quad's
/// cell: its slice, its row and its place in the row.
spec fn place(quad: Quad) -> (int, int, int) {
    let (x, y, z) = origin(quad);
    cell_on(quad.side.spec_axis(), x, y, z)
}

proof fn lemma_place(g: GridView, dir: Direction, a: int, b: int, c: int)
    requires
        g.wf(),
        ({
            let (x, y, z) = cell_on(dir.spec_axis(), a, b, c);
            g.in_bounds(x, y, z)
        }),
    ensures
        ({
            let (x, y, z) = cell_on(dir.spec_axis(), a, b, c);
            let quad = face_quad(g, x, y, z, dir);
            quad.side == dir && place(quad) == (a, b, c)
        }),
{
    let (x, y, z) = cell_on(dir.spec_axis(), a, b, c);
    let quad = face_quad(g, x, y, z, dir);
    assert(quad.vertices[0] == corner_vertex(dir, 0, x as u32, y as u32, z as u32));
}

proof fn lemma_row_places(g: GridView, dir: Direction, a: int, b: int, n: int, quad: Quad)
    requires
        g.wf(),
        faces_in_row(g, dir, a, b, n).contains(quad),
    ensures
        quad.side == dir,
        place(quad).0 == a,
        place(quad).1 == b,
        0 <= place(quad).2 < n,
    decreases n,
{
    if n > 0 {
        let (x, y, z) = cell_on(dir.spec_axis(), a, b, n - 1);
        let before = faces_in_row(g, dir, a, b, n - 1);
        if visible(g, x, y, z, dir) {
            lemma_seq_contains_after_push(before, face_quad(g, x, y, z, dir), quad);
            lemma_place(g, dir, a, b, n - 1);
        }
        if before.contains(quad) {
            lemma_row_places(g, dir, a, b, n - 1, quad);
        }
    }
}

proof fn lemma_slice_places(g: GridView, dir: Direction, a: int, n: int, quad: Quad)
    requires
        g.wf(),
        faces_in_slice(g, dir, a, n).contains(quad),
    ensures
        quad.side == dir,
        place(quad).0 == a,
        0 <= place(quad).1 < n,
    decreases n,
{
    if n > 0 {
        let before = faces_in_slice(g, dir, a, n - 1);
        let row = faces_in_row(g, dir, a, n - 1, g.extents(dir.spec_axis()).2);
        lemma_seq_concat_contains_all_elements(before, row, quad);
        if before.contains(quad) {
            lemma_slice_places(g, dir, a, n - 1, quad);
        } else {
            lemma_row_places(g, dir, a, n - 1, g.extents(dir.spec_axis()).2, quad);
        }
    }
}

proof fn lemma_along_places(g: GridView, axis: Axis, n: int, quad: Quad)
    requires
        g.wf(),
        faces_along(g, axis, n).contains(quad),
    ensures
        quad.side.spec_axis() == axis,
        0 <= place(quad).0 < n,
    decreases n,
{
    if n > 0 {
        let before = faces_along(g, axis, n - 1);
        let up = faces_in_slice(g, axis.spec_positive(), n - 1, g.extents(axis).1);
        let down = faces_in_slice(g, axis.spec_negative(), n - 1, g.extents(axis).1);
        lemma_seq_concat_contains_all_elements(before + up, down, quad);
        lemma_seq_concat_contains_all_elements(before, up, quad);
        if before.contains(quad) {
            lemma_along_places(g, axis, n - 1, quad);
        } else if up.contains(quad) {
            lemma_slice_places(g, axis.spec_positive(), n - 1, g.extents(axis).1, quad);
        } else {
            lemma_slice_places(g, axis.spec_negative(), n - 1, g.extents(axis).1, quad);
        }
    }
}

proof fn lemma_row_distinct(g: GridView, dir: Direction, a: int, b: int, n: int)
    requires
        g.wf(),
    ensures
        faces_in_row(g, dir, a, b, n).no_duplicates(),
    decreases n,
{
    if n > 0 {
        lemma_row_distinct(g, dir, a, b, n - 1);
        let (x, y, z) = cell_on(dir.spec_axis(), a, b, n - 1);
        let before = faces_in_row(g, dir, a, b, n - 1);
        if visible(g, x, y, z, dir) {
            let quad = face_quad(g, x, y, z, dir);
            lemma_place(g, dir, a, b, n - 1);
            assert forall|i: int| 0 <= i < before.len() implies before[i] != quad by {
                assert(before.contains(before[i]));
                lemma_row_places(g, dir, a, b, n - 1, before[i]);
            }
            assert(before.push(quad) =~= before + seq![quad]);
            lemma_no_dup_in_concat(before, seq![quad]);
        }
    }
}

proof fn lemma_slice_distinct(g: GridView, dir: Direction, a: int, n: int)
    requires
        g.wf(),
    ensures
        faces_in_slice(g, dir, a, n).no_duplicates(),
    decreases n,
{
    if n > 0 {
        let nc = g.extents(dir.spec_axis()).2;
        lemma_slice_distinct(g, dir, a, n - 1);
        lemma_row_distinct(g, dir, a, n - 1, nc);
        let before = faces_in_slice(g, dir, a, n - 1);
        let row = faces_in_row(g, dir, a, n - 1, nc);
        assert forall|i: int, j: int| 0 <= i < before.len() && 0 <= j < row.len() implies before[i]
            != row[j] by {
            assert(before.contains(before[i]));
            assert(row.contains(row[j]));
            lemma_slice_places(g, dir, a, n - 1, before[i]);
            lemma_row_places(g, dir, a, n - 1, nc, row[j]);
        }
        lemma_no_dup_in_concat(before, row);
    }
}

proof fn lemma_along_distinct(g: GridView, axis: Axis, n: int)
    requires
        g.wf(),
    ensures
        faces_along(g, axis, n).no_duplicates(),
    decreases n,
{
    if n > 0 {
        let nb = g.extents(axis).1;
        lemma_along_distinct(g, axis, n - 1);
        lemma_slice_distinct(g, axis.spec_positive(), n - 1, nb);
        lemma_slice_distinct(g, axis.spec_negative(), n - 1, nb);
        let before = faces_along(g, axis, n - 1);
        let up = faces_in_slice(g, axis.spec_positive(), n - 1, nb);
        let down = faces_in_slice(g, axis.spec_negative(), n - 1, nb);
        assert forall|i: int, j: int| 0 <= i < before.len() && 0 <= j < up.len() implies before[i]
            != up[j] by {
            assert(before.contains(before[i]));
            assert(up.contains(up[j]));
            lemma_along_places(g, axis, n - 1, before[i]);
            lemma_slice_places(g, axis.spec_positive(), n - 1, nb, up[j]);
        }
        lemma_no_dup_in_concat(before, up);
        let first = before + up;
        assert forall|i: int, j: int| 0 <= i < first.len() && 0 <= j < down.len() implies first[i]
            != down[j] by {
            assert(first.contains(first[i]));
            assert(down.contains(down[j]));
            lemma_seq_concat_contains_all_elements(before, up, first[i]);
            lemma_slice_places(g, axis.spec_negative(), n - 1, nb, down[j]);
            if before.contains(first[i]) {
                lemma_along_places(g, axis, n - 1, first[i]);
            } else {
                lemma_slice_places(g, axis.spec_positive(), n - 1, nb, first[i]);
            }
        }
        lemma_no_dup_in_concat(first, down);
    }
}

/// No quad occurs twice in the mesh: every visible face has exactly one
/// quad.
pub proof fn lemma_mesh_distinct(g: GridView)
    requires
        g.wf(),
    ensures
        mesh(g).no_duplicates(),
{
    let xs = faces_along(g, Axis::X, g.width as int);
    let ys = faces_along(g, Axis::Y, g.height as int);
    let zs = faces_along(g, Axis::Z, g.depth as int);
    lemma_along_distinct(g, Axis::X, g.width as int);
    lemma_along_distinct(g, Axis::Y, g.height as int);
    lemma_along_distinct(g, Axis::Z, g.depth as int);
    assert forall|i: int, j: int| 0 <= i < xs.len() && 0 <= j < ys.len() implies xs[i] != ys[j] by {
        assert(xs.contains(xs[i]));
        assert(ys.contains(ys[j]));
        lemma_along_places(g, Axis::X, g.width as int, xs[i]);
        lemma_along_places(g, Axis::Y, g.height as int, ys[j]);
    }
    lemma_no_dup_in_concat(xs, ys);
    let first = xs + ys;
    assert forall|i: int, j: int| 0 <= i < first.len() && 0 <= j < zs.len() implies first[i]
        != zs[j] by {
        assert(first.contains(first[i]));
        assert(zs.contains(zs[j]));
        lemma_seq_concat_contains_all_elements(xs, ys, first[i]);
        lemma_along_places(g, Axis::Z, g.depth as int, zs[j]);
        if xs.contains(first[i]) {
            lemma_along_places(g, Axis::X, g.width as int, first[i]);
        } else {
            lemma_along_places(g, Axis::Y, g.height as int, first[i]);
        }
    }
    lemma_no_dup_in_concat(first, zs);
}

} // verus!
