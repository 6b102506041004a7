use vstd::prelude::*;

verus! {

/// The ground plane `y = 0` as a scene primitive. This library only names it: its distance
/// function works on floating-point points and belongs to the renderer.
#[derive(Clone, Copy, Debug, PartialEq, Eq)]
pub struct Plane;

} // verus!
