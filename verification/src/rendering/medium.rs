use vstd::prelude::*;

verus! {

/// The substance that fills a region of the world.
#[derive(Debug, Clone, Copy, PartialEq, Eq, Structural)]
pub enum Medium {
    Air,
    Water,
    Ground,
    Vacuum,
}

impl Medium {
    /// Whether the medium is solid: only ground is.
    pub open spec fn spec_is_solid(self) -> bool {
        self is Ground
    }

    /// Whether the medium is a fluid: air and water are.
    pub open spec fn spec_is_fluid(self) -> bool {
        self is Air || self is Water
    }

    pub fn is_solid(self) -> (r: bool)
        ensures
            r == self.spec_is_solid(),
    {
        matches!(self, Medium::Ground)
    }

    pub fn is_fluid(self) -> (r: bool)
        ensures
            r == self.spec_is_fluid(),
    {
        matches!(self, Medium::Air | Medium::Water)
    }
}

} // verus!
