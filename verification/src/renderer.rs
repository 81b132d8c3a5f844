//! Renderer-facing plain values.  The graphics pipeline itself lives
//! outside this crate; the simulation only tags which buffer something is
//! drawn into.

use vstd::prelude::*;

verus! {

/// Vertex buffers that exist on the GPU.
#[derive(Clone, Copy, Debug, PartialEq, Eq, Structural)]
pub enum BufferType {
    Game,
    UI,
    Terrain,
}

} // verus!
