use vstd::prelude::*;
use vstd::string::*;

verus! {

/// A render target with a color texture of type `T`, an optional depth texture, and the
/// size, in pixels, that both have.
pub struct FrameBuffer<T> {
    color: T,
    depth: Option<T>,
    size: (u32, u32),
}

impl<T> FrameBuffer<T> {
    pub closed spec fn spec_size(&self) -> (u32, u32) {
        self.size
    }

    pub closed spec fn spec_color(&self) -> T {
        self.color
    }

    pub closed spec fn spec_depth(&self) -> Option<T> {
        self.depth
    }

    /// A frame buffer of `size` made of the given textures.
    pub fn from_parts(color: T, depth: Option<T>, size: (u32, u32)) -> (r: Self)
        ensures
            r.spec_color() == color,
            r.spec_depth() == depth,
            r.spec_size() == size,
    {
        Self { color, depth, size }
    }

    pub fn size(&self) -> (r: (u32, u32))
        ensures
            r == self.spec_size(),
    {
        self.size
    }

    pub fn color(&self) -> (r: &T)
        ensures
            *r == self.spec_color(),
    {
        &self.color
    }

    pub fn depth(&self) -> (r: &Option<T>)
        ensures
            *r == self.spec_depth(),
    {
        &self.depth
    }

    /// Records `new_size` as the buffer's size; tells whether it differs from the old one (the
    /// textures then need to be made anew at that size).
    pub fn set_size(&mut self, new_size: (u32, u32)) -> (changed: bool)
        ensures
            changed == (old(self).spec_size() != new_size),
            final(self).spec_size() == new_size,
            final(self).spec_color() == old(self).spec_color(),
            final(self).spec_depth() == old(self).spec_depth(),
    {
        let changed = self.size.0 != new_size.0 || self.size.1 != new_size.1;
        self.size = new_size;
        changed
    }

    /// Puts `color` in place of the color texture.
    pub fn set_color(&mut self, color: T)
        ensures
            final(self).spec_color() == color,
            final(self).spec_size() == old(self).spec_size(),
            final(self).spec_depth() == old(self).spec_depth(),
    {
        self.color = color;
    }

    /// Takes the depth texture out, leaving none.
    pub fn take_depth(&mut self) -> (r: Option<T>)
        ensures
            r == old(self).spec_depth(),
            final(self).spec_depth() is None,
            final(self).spec_size() == old(self).spec_size(),
            final(self).spec_color() == old(self).spec_color(),
    {
        let mut d = None;
        std::mem::swap(&mut d, &mut self.depth);
        d
    }

    /// Puts `depth` in place of the depth texture.
    pub fn set_depth(&mut self, depth: Option<T>)
        ensures
            final(self).spec_depth() == depth,
            final(self).spec_size() == old(self).spec_size(),
            final(self).spec_color() == old(self).spec_color(),
    {
        self.depth = depth;
    }
}

/// What kind of render target a frame buffer serves as.
#[derive(Debug, Clone, Copy)]
pub enum RenderTargetKind {
    Scene,
    Hdr,
    Shadow,
    Bloom,
    Custom(&'static str),
}

impl RenderTargetKind {
    /// The kind as a value: a tag for the variant and, for a custom kind, its name.
    pub open spec fn key(self) -> (int, Seq<char>) {
        match self {
            RenderTargetKind::Scene => (0, Seq::empty()),
            RenderTargetKind::Hdr => (1, Seq::empty()),
            RenderTargetKind::Shadow => (2, Seq::empty()),
            RenderTargetKind::Bloom => (3, Seq::empty()),
            RenderTargetKind::Custom(name) => (4, name@),
        }
    }

    /// Whether two kinds are the same: the same variant, and for custom kinds the same name.
    pub fn same_kind(&self, other: &RenderTargetKind) -> (r: bool)
        ensures
            r == (self.key() == other.key()),
    {
        match (self, other) {
            (RenderTargetKind::Scene, RenderTargetKind::Scene) => true,
            (RenderTargetKind::Hdr, RenderTargetKind::Hdr) => true,
            (RenderTargetKind::Shadow, RenderTargetKind::Shadow) => true,
            (RenderTargetKind::Bloom, RenderTargetKind::Bloom) => true,
            (RenderTargetKind::Custom(a), RenderTargetKind::Custom(b)) => str_eq(a, b),
            _ => false,
        }
    }
}

/// Whether `a` and `b` are the same kind of render target: the same variant, and for custom
/// kinds the same name.
pub open spec fn kinds_alike(a: RenderTargetKind, b: RenderTargetKind) -> bool {
    ||| a is Scene && b is Scene
    ||| a is Hdr && b is Hdr
    ||| a is Shadow && b is Shadow
    ||| a is Bloom && b is Bloom
    ||| a matches RenderTargetKind::Custom(n) && b matches RenderTargetKind::Custom(o) && n@ == o@
}

/// Kinds are told apart exactly by their keys: two kinds share a key exactly when they are the
/// same variant (with the same name, for custom kinds), so `same_kind` is false for different
/// variants and each kind keeps a target of its own.
pub proof fn law_kind_keys_tell_kinds_apart(a: RenderTargetKind, b: RenderTargetKind)
    ensures
        (a.key() == b.key()) == kinds_alike(a, b),
{
}

/// Whether two strings hold the same characters.
pub fn str_eq(a: &str, b: &str) -> (r: bool)
    ensures
        r == (a@ == b@),
{
    let n = a.unicode_len();
    if n != b.unicode_len() {
        return false;
    }
    let mut i: usize = 0;
    while i < n
        invariant
            n == a@.len(),
            n == b@.len(),
            i <= n,
            forall|j: int| 0 <= j < i ==> a@[j] == b@[j],
        decreases n - i,
    {
        if a.get_char(i) != b.get_char(i) {
            return false;
        }
        i += 1;
    }
    assert(a@ =~= b@);
    true
}

} // verus!
