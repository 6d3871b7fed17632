//! The face-culling mesher: one quad for every face of a solid cell whose
//! neighbour is empty or outside the grid.

use vstd::prelude::*;
use crate::geometry::{make_quad, quad_vertices, Axis, Direction, Quad};
use crate::grid::{GridView, VoxelModel};

verus! {

/// Whether the face of cell `(x, y, z)` that looks in direction `dir` can be
/// seen: the cell is solid and the cell one step away is not. A step that
/// leaves the grid, on either side, lands on an empty cell.
pub open spec fn visible(g: GridView, x: int, y: int, z: int, dir: Direction) -> bool {
    let (dx, dy, dz) = dir.offset();
    g.solid(x, y, z) && !g.solid(x + dx, y + dy, z + dz)
}

/// The quad that stands for the face of cell `(x, y, z)` looking in
/// direction `dir`: the direction's unit square at the cell, in the cell's
/// colour.
pub open spec fn face_quad(g: GridView, x: int, y: int, z: int, dir: Direction) -> Quad {
    Quad {
        vertices: quad_vertices(dir, x as u32, y as u32, z as u32),
        colour: g.palette[g.cell(x, y, z) as int],
        side: dir,
    }
}

/// The cell that a scan along `axis` visits at slice `a`, row `b`, step `c`.
/// A scan along x walks y, then z; one along y walks x, then z; one along z
/// walks y, then x.
pub open spec fn cell_on(axis: Axis, a: int, b: int, c: int) -> (int, int, int) {
    match axis {
        Axis::X => (a, b, c),
        Axis::Y => (b, a, c),
        Axis::Z => (c, b, a),
    }
}

impl GridView {
    /// The number of slices, of rows in a slice and of cells in a row that a
    /// scan along `axis` visits.
    pub open spec fn extents(self, axis: Axis) -> (int, int, int) {
        match axis {
            Axis::X => (self.width as int, self.height as int, self.depth as int),
            Axis::Y => (self.height as int, self.width as int, self.depth as int),
            Axis::Z => (self.depth as int, self.height as int, self.width as int),
        }
    }
}

/// The visible faces looking in direction `dir` among the first `n` cells of
/// row `b` of slice `a`, in scan order.
pub open spec fn faces_in_row(g: GridView, dir: Direction, a: int, b: int, n: int) -> Seq<Quad>
    decreases n,
{
    if n <= 0 {
        Seq::empty()
    } else {
        let (x, y, z) = cell_on(dir.spec_axis(), a, b, n - 1);
        let before = faces_in_row(g, dir, a, b, n - 1);
        if visible(g, x, y, z, dir) {
            before.push(face_quad(g, x, y, z, dir))
        } else {
            before
        }
    }
}

/// The visible faces looking in direction `dir` in the first `n` rows of
/// slice `a`.
pub open spec fn faces_in_slice(g: GridView, dir: Direction, a: int, n: int) -> Seq<Quad>
    decreases n,
{
    if n <= 0 {
        Seq::empty()
    } else {
        faces_in_slice(g, dir, a, n - 1) + faces_in_row(
            g,
            dir,
            a,
            n - 1,
            g.extents(dir.spec_axis()).2,
        )
    }
}

/// The visible faces of the first `n` slices along `axis`: slice by slice,
/// first all faces looking up the axis, then all faces looking down it.
pub open spec fn faces_along(g: GridView, axis: Axis, n: int) -> Seq<Quad>
    decreases n,
{
    if n <= 0 {
        Seq::empty()
    } else {
        faces_along(g, axis, n - 1) + faces_in_slice(
            g,
            axis.spec_positive(),
            n - 1,
            g.extents(axis).1,
        ) + faces_in_slice(g, axis.spec_negative(), n - 1, g.extents(axis).1)
    }
}

/// The surface mesh of a grid: the visible faces found scanning along x,
/// then along y, then along z.
pub open spec fn mesh(g: GridView) -> Seq<Quad> {
    faces_along(g, Axis::X, g.width as int) + faces_along(g, Axis::Y, g.height as int)
        + faces_along(g, Axis::Z, g.depth as int)
}

/// The cell that a scan along `axis` visits at slice `a`, row `b`, step `c`.
fn locate(axis: Axis, a: u32, b: u32, c: u32) -> (p: (u32, u32, u32))
    ensures
        (p.0 as int, p.1 as int, p.2 as int) == cell_on(axis, a as int, b as int, c as int),
{
    match axis {
        Axis::X => (a, b, c),
        Axis::Y => (b, a, c),
        Axis::Z => (c, b, a),
    }
}

impl VoxelModel {
    /// The number of slices, of rows in a slice and of cells in a row that a
    /// scan along `axis` visits.
    fn extents(&self, axis: Axis) -> (e: (u32, u32, u32))
        ensures
            (e.0 as int, e.1 as int, e.2 as int) == self@.extents(axis),
    {
        match axis {
            Axis::X => (self.width(), self.height(), self.depth()),
            Axis::Y => (self.height(), self.width(), self.depth()),
            Axis::Z => (self.depth(), self.height(), self.width()),
        }
    }

    /// Appends the face of cell `(x, y, z)` looking in direction `dir` to
    /// `layer` if that face is visible.
    fn add_quad(&self, layer: &mut Vec<Quad>, dir: Direction, x: u32, y: u32, z: u32)
        requires
            self@.in_bounds(x as int, y as int, z as int),
        ensures
            final(layer)@ == if visible(self@, x as int, y as int, z as int, dir) {
                old(layer)@.push(face_quad(self@, x as int, y as int, z as int, dir))
            } else {
                old(layer)@
            },
    {
        proof {
            use_type_invariant(self);
        }
        if let Ok(Some(c)) = self.at(x, y, z) {
            // Look at the voxel in front of this one.
            let neigh_pos = dir.step(x, y, z);
            let neigh = self.at(neigh_pos[0], neigh_pos[1], neigh_pos[2]);
            // Only a face with no voxel in front of it is part of the surface.
            let hidden = match neigh {
                Ok(Some(_)) => true,
                _ => false,
            };
            assert(hidden == self@.solid(
                x + dir.offset().0,
                y + dir.offset().1,
                z + dir.offset().2,
            ));
            if !hidden {
                let quad = Quad { vertices: make_quad(dir, x, y, z), colour: c, side: dir };
                assert(quad == face_quad(self@, x as int, y as int, z as int, dir));
                layer.push(quad);
            }
        }
    }

    /// Appends the visible faces of all slices along `axis` to `result`.
    fn scan_axis(&self, axis: Axis, result: &mut Vec<Quad>)
        ensures
            final(result)@ == old(result)@ + faces_along(self@, axis, self@.extents(axis).0),
    {
        let (na, nb, nc) = self.extents(axis);
        let up = axis.positive();
        let down = axis.negative();
        let ghost g = self@;
        let ghost start = result@;
        let mut a: u32 = 0;
        while a < na
            invariant
                a <= na,
                g == self@,
                (na as int, nb as int, nc as int) == g.extents(axis),
                up == axis.spec_positive(),
                down == axis.spec_negative(),
                result@ == start + faces_along(g, axis, a as int),
            decreases na - a,
        {
            let mut up_layer: Vec<Quad> = Vec::new();
            let mut down_layer: Vec<Quad> = Vec::new();
            let mut b: u32 = 0;
            while b < nb
                invariant
                    a < na,
                    b <= nb,
                    g == self@,
                    (na as int, nb as int, nc as int) == g.extents(axis),
                    up == axis.spec_positive(),
                    down == axis.spec_negative(),
                    up_layer@ == faces_in_slice(g, up, a as int, b as int),
                    down_layer@ == faces_in_slice(g, down, a as int, b as int),
                decreases nb - b,
            {
                let ghost up_rows = up_layer@;
                let ghost down_rows = down_layer@;
                let mut c: u32 = 0;
                while c < nc
                    invariant
                        a < na,
                        b < nb,
                        c <= nc,
                        g == self@,
                        (na as int, nb as int, nc as int) == g.extents(axis),
                        up == axis.spec_positive(),
                        down == axis.spec_negative(),
                        up_layer@ == up_rows + faces_in_row(g, up, a as int, b as int, c as int),
                        down_layer@ == down_rows + faces_in_row(
                            g,
                            down,
                            a as int,
                            b as int,
                            c as int,
                        ),
                    decreases nc - c,
                {
                    let (x, y, z) = locate(axis, a, b, c);
                    let ghost up_row = faces_in_row(g, up, a as int, b as int, c as int);
                    let ghost down_row = faces_in_row(g, down, a as int, b as int, c as int);
                    self.add_quad(&mut up_layer, up, x, y, z);
                    self.add_quad(&mut down_layer, down, x, y, z);
                    proof {
                        let q_up = face_quad(g, x as int, y as int, z as int, up);
                        let q_down = face_quad(g, x as int, y as int, z as int, down);
                        assert((up_rows + up_row).push(q_up) =~= up_rows + up_row.push(q_up));
                        assert((down_rows + down_row).push(q_down) =~= down_rows + down_row.push(
                            q_down,
                        ));
                    }
                    c += 1;
                }
                b += 1;
            }
            proof {
                let before = faces_along(g, axis, a as int);
                assert(start + before + up_layer@ + down_layer@ =~= start + (before + up_layer@
                    + down_layer@));
            }
            result.append(&mut up_layer);
            result.append(&mut down_layer);
            a += 1;
        }
    }

    /// Builds the surface mesh: for each of the three axes, slice by slice,
    /// a quad for every face of a solid cell whose neighbour along the axis
    /// is empty or outside the grid.
    pub fn polygonise(&self) -> (quads: Vec<Quad>)
        ensures
            quads@ == mesh(self@),
    {
        let mut result: Vec<Quad> = Vec::new();
        self.scan_axis(Axis::X, &mut result);
        self.scan_axis(Axis::Y, &mut result);
        self.scan_axis(Axis::Z, &mut result);
        result
    }
}

} // verus!
