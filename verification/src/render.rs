//! What a renderer is handed: the mesh cut into triangles, and the state of
//! the frame loop that shows it.

use vstd::prelude::*;
use crate::colour::Colour;
use crate::geometry::{Quad, Vertex};

verus! {

/// One corner of a triangle: where it is and what colour it has.
#[derive(Clone, Copy, Debug, PartialEq, Eq, Structural)]
pub struct Corner {
    pub position: Vertex,
    pub colour: Colour,
}

/// The quad corners that make up its two triangles, in drawing order: the
/// first three corners, then the third, the fourth and the first again.
pub open spec fn corner_order() -> Seq<int> {
    seq![0, 1, 2, 2, 3, 0]
}

/// Corner `k` of the triangle list of `quads`: six corners per quad, each in
/// the quad's colour.
pub open spec fn triangle_corner(quads: Seq<Quad>, k: int) -> Corner {
    let quad = quads[k / 6];
    Corner { position: quad.vertices[corner_order()[k % 6]], colour: quad.colour }
}

/// The triangle list of `quads`: two triangles for every quad, in order.
pub open spec fn triangles(quads: Seq<Quad>) -> Seq<Corner> {
    Seq::new(6 * quads.len(), |k: int| triangle_corner(quads, k))
}

/// Cuts every quad into two triangles that share the diagonal from its first
/// corner to its third.
pub fn triangulate(quads: &Vec<Quad>) -> (corners: Vec<Corner>)
    ensures
        corners@ == triangles(quads@),
{
    let mut corners: Vec<Corner> = Vec::new();
    let mut i: usize = 0;
    while i < quads.len()
        invariant
            i <= quads.len(),
            corners@.len() == 6 * i,
            forall|k: int| 0 <= k < 6 * i ==> corners@[k] == triangle_corner(quads@, k),
        decreases quads.len() - i,
    {
        let quad = &quads[i];
        let colour = quad.colour;
        corners.push(Corner { position: quad.vertices[0], colour });
        corners.push(Corner { position: quad.vertices[1], colour });
        corners.push(Corner { position: quad.vertices[2], colour });
        corners.push(Corner { position: quad.vertices[2], colour });
        corners.push(Corner { position: quad.vertices[3], colour });
        corners.push(Corner { position: quad.vertices[0], colour });
        i += 1;
    }
    corners
}

/// The state of the frame loop.
#[derive(Clone, Copy, Debug, PartialEq, Eq, Structural)]
pub struct State {
    /// Set once the window was asked to close.
    pub exit: bool,
    /// The number of frames drawn so far.
    pub t: u32,
}

/// What the window reports to the frame loop.
#[derive(Clone, Copy, Debug, PartialEq, Eq, Structural)]
pub enum Event {
    /// The window was asked to close.
    CloseRequested,
    /// Anything else.
    Other,
}

/// Takes note of a window event: a request to close ends the loop, every
/// other event leaves the state as it is.
pub fn handle_event(ev: Event, state: &mut State)
    ensures
        final(state).exit == (old(state).exit || ev == Event::CloseRequested),
        final(state).t == old(state).t,
{
    match ev {
        Event::CloseRequested => {
            state.exit = true;
        },
        Event::Other => (),
    }
}

} // verus!
