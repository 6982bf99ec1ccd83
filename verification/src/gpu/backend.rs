use vstd::prelude::*;

verus! {

/// The graphics backends a GPU instance is asked to use.
#[derive(Debug, Clone, Copy, PartialEq, Eq, Structural)]
pub enum Backend {
    Vulkan,
    Gl,
    All,
}

/// The backend to use given what probing found: Vulkan when it has an adapter, else GL when it
/// has one, else every backend.
pub fn available_backend(vulkan_found: bool, gl_found: bool) -> (r: Backend)
    ensures
        r == (if vulkan_found {
            Backend::Vulkan
        } else if gl_found {
            Backend::Gl
        } else {
            Backend::All
        }),
{
    if vulkan_found {
        return Backend::Vulkan;
    }
    if gl_found {
        return Backend::Gl;
    }
    Backend::All
}

} // verus!
