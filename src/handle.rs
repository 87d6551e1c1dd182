use vstd::prelude::*;

verus! {

/// A native window or content surface, identified by its raw handle value.
/// The engine never owns the surface; it only refers to it.
#[derive(Clone, Copy, Debug, PartialEq, Eq, Hash, Structural)]
pub struct SurfaceHandle {
    pub raw: isize,
}

/// The installed global mouse hook, identified by its raw handle value.
#[derive(Clone, Copy, Debug, PartialEq, Eq, Hash, Structural)]
pub struct HookHandle {
    pub raw: isize,
}

} // verus!
