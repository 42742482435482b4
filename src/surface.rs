//! Options of a presentation surface that the library passes through.
use vstd::prelude::*;

verus! {

/// How a surface's alpha channel is composited.
#[derive(Clone, Copy, PartialEq, Eq, Structural, Debug)]
pub enum AlphaMode {
    Opaque,
    Premultiplied,
}

} // verus!
