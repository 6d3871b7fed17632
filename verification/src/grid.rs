//! The voxel grid: a dense three-dimensional array of palette indices with
//! one reserved value for "no voxel", read through bounds-checked lookups.

use vstd::prelude::*;
use crate::colour::Colour;

verus! {

/// The cell value that means "no voxel here". It is never looked up in the
/// palette.
pub const EMPTY: u8 = 255;

/// The mathematical content of a voxel grid.
pub struct GridView {
    pub width: nat,
    pub height: nat,
    pub depth: nat,
    /// One palette index per cell, `z` varying fastest, then `y`, then `x`.
    pub cells: Seq<u8>,
    pub palette: Seq<Colour>,
}

impl GridView {
    /// The number of cells.
    pub open spec fn volume(self) -> nat {
        self.width * self.height * self.depth
    }

    /// A grid is well formed when it stores exactly one byte per cell, its
    /// palette has 256 entries and its dimensions fit in 32 bits.
    pub open spec fn wf(self) -> bool {
        &&& self.cells.len() == self.volume()
        &&& self.palette.len() == 256
        &&& self.width <= u32::MAX
        &&& self.height <= u32::MAX
        &&& self.depth <= u32::MAX
    }

    /// Whether `(x, y, z)` names a cell of the grid.
    pub open spec fn in_bounds(self, x: int, y: int, z: int) -> bool {
        &&& 0 <= x < self.width
        &&& 0 <= y < self.height
        &&& 0 <= z < self.depth
    }

    /// The position of cell `(x, y, z)` in the flat cell sequence.
    pub open spec fn index(self, x: int, y: int, z: int) -> int {
        z + y * self.depth + x * self.height * self.depth
    }

    /// The coordinates of the cell stored at position `i`.
    pub open spec fn coords(self, i: int) -> (int, int, int) {
        (
            i / (self.height * self.depth) as int,
            (i / self.depth as int) % self.height as int,
            i % self.depth as int,
        )
    }

    /// The byte stored for cell `(x, y, z)`.
    pub open spec fn cell(self, x: int, y: int, z: int) -> u8 {
        self.cells[self.index(x, y, z)]
    }

    /// Whether `(x, y, z)` holds a voxel. Every coordinate outside the grid
    /// counts as empty.
    pub open spec fn solid(self, x: int, y: int, z: int) -> bool {
        self.in_bounds(x, y, z) && self.cell(x, y, z) != EMPTY
    }

    /// The colour of cell `(x, y, z)`: none where the cell is empty, else the
    /// palette entry the cell names.
    pub open spec fn colour_at(self, x: int, y: int, z: int) -> Option<Colour> {
        if self.cell(x, y, z) == EMPTY {
            None
        } else {
            Some(self.palette[self.cell(x, y, z) as int])
        }
    }
}

/// A voxel model: the grid's dimensions, its palette and its cell data.
pub struct VoxelModel {
    width: u32,
    height: u32,
    depth: u32,
    palette: [Colour; 256],
    data: Vec<u8>,
}

impl View for VoxelModel {
    type V = GridView;

    closed spec fn view(&self) -> GridView {
        GridView {
            width: self.width as nat,
            height: self.height as nat,
            depth: self.depth as nat,
            cells: self.data@,
            palette: self.palette@,
        }
    }
}

impl VoxelModel {
    /// Every model holds a well-formed grid.
    #[verifier::type_invariant]
    pub open spec fn inv(&self) -> bool {
        self@.wf()
    }

    /// Builds a model from its parts, or nothing when `data` does not hold
    /// exactly one byte per cell.
    pub fn new(width: u32, height: u32, depth: u32, palette: [Colour; 256], data: Vec<u8>) -> (m:
        Option<VoxelModel>)
        ensures
            m.is_some() <==> data@.len() == width as nat * height as nat * depth as nat,
            m matches Some(model) ==> model@ == (GridView {
                width: width as nat,
                height: height as nat,
                depth: depth as nat,
                cells: data@,
                palette: palette@,
            }),
    {
        let volume = volume_of(width, height, depth);
        if data.len() as u128 == volume {
            Some(VoxelModel { width, height, depth, palette, data })
        } else {
            None
        }
    }

    /// The number of cells along x.
    pub fn width(&self) -> (w: u32)
        ensures
            w == self@.width,
    {
        self.width
    }

    /// The number of cells along y.
    pub fn height(&self) -> (h: u32)
        ensures
            h == self@.height,
    {
        self.height
    }

    /// The number of cells along z.
    pub fn depth(&self) -> (d: u32)
        ensures
            d == self@.depth,
    {
        self.depth
    }

    /// The 256 palette entries.
    pub fn palette(&self) -> (p: &[Colour; 256])
        ensures
            p@ == self@.palette,
    {
        &self.palette
    }

    /// The stored cell bytes, `z` varying fastest.
    pub fn data(&self) -> (d: &Vec<u8>)
        ensures
            d@ == self@.cells,
    {
        &self.data
    }

    /// The position of the in-bounds cell `(x, y, z)` in the cell data.
    pub fn index(&self, x: u32, y: u32, z: u32) -> (i: usize)
        requires
            self@.in_bounds(x as int, y as int, z as int),
        ensures
            i == self@.index(x as int, y as int, z as int),
            i < self@.cells.len(),
    {
        let len = self.data.len();
        proof {
            use_type_invariant(self);
            lemma_index_terms(
                self.width as int,
                self.height as int,
                self.depth as int,
                x as int,
                y as int,
                z as int,
            );
            assert(len == self.width as int * self.height as int * self.depth as int);
            assert(y * self.depth <= x * self.height * self.depth + y * self.depth + z);
        }
        let plane: usize = x as usize * self.height as usize;
        let rows: usize = y as usize * self.depth as usize;
        z as usize + rows + plane * self.depth as usize
    }

    /// Looks up cell `(x, y, z)`. Fails when a coordinate is outside the
    /// grid; otherwise gives the cell's colour, or nothing for an empty cell.
    pub fn at(&self, x: u32, y: u32, z: u32) -> (r: Result<Option<Colour>, ()>)
        ensures
            r.is_err() <==> !self@.in_bounds(x as int, y as int, z as int),
            r matches Ok(c) ==> c == self@.colour_at(x as int, y as int, z as int),
    {
        if x >= self.width || y >= self.height || z >= self.depth {
            return Err(());
        }
        let index = self.index(x, y, z);
        let value = self.data[index];
        Ok(
            if value == EMPTY {
                None
            } else {
                Some(self.palette[value as usize])
            },
        )
    }
}

/// The number of cells of a grid with the given dimensions.
pub fn volume_of(width: u32, height: u32, depth: u32) -> (v: u128)
    ensures
        v == width as nat * height as nat * depth as nat,
{
    assert(width as nat * height as nat <= 0xffff_ffff * 0xffff_ffff) by (nonlinear_arith)
        requires
            width <= 0xffff_ffff,
            height <= 0xffff_ffff,
    ;
    let plane: u128 = width as u128 * height as u128;
    assert(plane as nat * depth as nat <= (0xffff_ffff * 0xffff_ffff) * 0xffff_ffff)
        by (nonlinear_arith)
        requires
            plane <= 0xffff_ffff * 0xffff_ffff,
            depth <= 0xffff_ffff,
    ;
    plane * depth as u128
}

/// The partial sums of the index formula never exceed the index itself, and
/// the plane term is the product of its parts in either grouping.
proof fn lemma_index_terms(w: int, h: int, d: int, x: int, y: int, z: int)
    requires
        0 <= x < w,
        0 <= y < h,
        0 <= z < d,
    ensures
        0 <= x * h <= x * h * d,
        0 <= y * d,
        x * h * d == (x * h) * d,
        z + y * d + x * h * d < w * h * d,
{
    assert(0 <= x * h) by (nonlinear_arith)
        requires
            0 <= x,
            0 <= h,
    ;
    assert(x * h <= (x * h) * d) by (nonlinear_arith)
        requires
            0 <= x * h,
            1 <= d,
    ;
    assert(0 <= y * d) by (nonlinear_arith)
        requires
            0 <= y,
            0 <= d,
    ;
    assert(y * d <= (h - 1) * d) by (nonlinear_arith)
        requires
            y <= h - 1,
            0 <= d,
    ;
    assert((x * h) * d <= ((w - 1) * h) * d) by (nonlinear_arith)
        requires
            x <= w - 1,
            0 <= h,
            0 <= d,
    ;
    assert(((w - 1) * h) * d + (h - 1) * d + d == w * h * d) by (nonlinear_arith);
}

/// The index of every cell of the grid lies in `[0, volume)`.
pub proof fn lemma_index_in_range(g: GridView, x: int, y: int, z: int)
    requires
        g.in_bounds(x, y, z),
    ensures
        0 <= g.index(x, y, z) < g.volume(),
{
    lemma_index_terms(g.width as int, g.height as int, g.depth as int, x, y, z);
}

/// Different cells have different indices.
pub proof fn lemma_index_injective(g: GridView, x1: int, y1: int, z1: int, x2: int, y2: int, z2: int)
    requires
        g.in_bounds(x1, y1, z1),
        g.in_bounds(x2, y2, z2),
        g.index(x1, y1, z1) == g.index(x2, y2, z2),
    ensures
        x1 == x2,
        y1 == y2,
        z1 == z2,
{
    lemma_coords_of_index(g, x1, y1, z1);
    lemma_coords_of_index(g, x2, y2, z2);
}

/// `coords` undoes `index` on every cell of the grid.
pub proof fn lemma_coords_of_index(g: GridView, x: int, y: int, z: int)
    requires
        g.in_bounds(x, y, z),
    ensures
        g.coords(g.index(x, y, z)) == (x, y, z),
{
    let h = g.height as int;
    let d = g.depth as int;
    let i = g.index(x, y, z);
    let r = z + y * d;
    assert(0 <= r < h * d) by (nonlinear_arith)
        requires
            0 <= y < h,
            0 <= z < d,
            r == z + y * d,
    ;
    assert(i == x * (h * d) + r) by (nonlinear_arith)
        requires
            i == z + y * d + x * h * d,
            r == z + y * d,
    ;
    vstd::arithmetic::div_mod::lemma_fundamental_div_mod_converse(i, h * d, x, r);
    // i / d == y + x * h and i % d == z
    assert(i == (y + x * h) * d + z) by (nonlinear_arith)
        requires
            i == z + y * d + x * h * d,
    ;
    vstd::arithmetic::div_mod::lemma_fundamental_div_mod_converse(i, d, y + x * h, z);
    vstd::arithmetic::div_mod::lemma_fundamental_div_mod_converse(y + x * h, h, x, y);
}

/// Every position in `[0, volume)` is the index of a cell of the grid,
/// namely of the cell at `coords`.
pub proof fn lemma_index_onto(g: GridView, i: int)
    requires
        0 <= i < g.volume(),
    ensures
        ({
            let (x, y, z) = g.coords(i);
            g.in_bounds(x, y, z) && g.index(x, y, z) == i
        }),
        exists|x: int, y: int, z: int| g.in_bounds(x, y, z) && #[trigger] g.index(x, y, z) == i,
{
    let w = g.width as int;
    let h = g.height as int;
    let d = g.depth as int;
    assert(w > 0 && h > 0 && d > 0) by (nonlinear_arith)
        requires
            0 <= i < w * h * d,
            w >= 0,
            h >= 0,
            d >= 0,
    ;
    assert(h * d > 0) by (nonlinear_arith)
        requires
            h > 0,
            d > 0,
    ;
    let (x, y, z) = g.coords(i);
    let q = i / d;
    vstd::arithmetic::div_mod::lemma_fundamental_div_mod(i, d);
    vstd::arithmetic::div_mod::lemma_mod_bound(i, d);
    vstd::arithmetic::div_mod::lemma_fundamental_div_mod(q, h);
    vstd::arithmetic::div_mod::lemma_mod_bound(q, h);
    vstd::arithmetic::div_mod::lemma_div_denominator(i, d, h);
    assert(d * h == h * d) by (nonlinear_arith);
    assert(q / h == x);
    vstd::arithmetic::div_mod::lemma_div_pos_is_pos(i, h * d);
    assert(w * h * d == w * (h * d)) by (nonlinear_arith);
    assert(x < w) by {
        vstd::arithmetic::div_mod::lemma_fundamental_div_mod(i, h * d);
        vstd::arithmetic::div_mod::lemma_mod_bound(i, h * d);
        assert(x < w) by (nonlinear_arith)
            requires
                i == (h * d) * x + i % (h * d),
                0 <= i % (h * d),
                i < w * h * d,
                h * d > 0,
                w * h * d == w * (h * d),
        ;
    }
    assert(g.index(x, y, z) == i) by (nonlinear_arith)
        requires
            i == d * q + z,
            q == h * x + y,
            g.index(x, y, z) == z + y * d + x * h * d,
    ;
}

} // verus!
