use vstd::prelude::*;

verus! {

/// A surface's width and height in pixels.
#[derive(Debug, Clone, Copy, PartialEq, Eq, Structural)]
pub struct SurfaceSize(pub u32, pub u32);

impl SurfaceSize {
    pub fn width_u32(&self) -> (r: u32)
        ensures
            r == self.0,
    {
        self.0
    }

    pub fn height_u32(&self) -> (r: u32)
        ensures
            r == self.1,
    {
        self.1
    }
}

/// The surface extent a resize to `width` × `height` configures: each side at least one pixel.
pub fn configured_extent(width: u32, height: u32) -> (r: (u32, u32))
    ensures
        r.0 == if width >= 1 { width } else { 1 },
        r.1 == if height >= 1 { height } else { 1 },
{
    let w = if width >= 1 { width } else { 1 };
    let h = if height >= 1 { height } else { 1 };
    (w, h)
}

} // verus!
