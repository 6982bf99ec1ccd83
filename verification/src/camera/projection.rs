use super::controls::Key;
use vstd::prelude::*;

verus! {

/// How the camera views the scene.
#[derive(Debug, Clone, Copy, PartialEq, Eq, Structural)]
pub enum Projection {
    FirstPerson,
    ThirdPerson,
    Orthographic,
}

impl Projection {
    /// The projection that follows this one in the cycle first person, third person,
    /// orthographic.
    pub open spec fn spec_next(self) -> Projection {
        match self {
            Projection::FirstPerson => Projection::ThirdPerson,
            Projection::ThirdPerson => Projection::Orthographic,
            Projection::Orthographic => Projection::FirstPerson,
        }
    }

    pub fn next(&self) -> (r: Projection)
        ensures
            r == self.spec_next(),
    {
        match self {
            Projection::FirstPerson => Projection::ThirdPerson,
            Projection::ThirdPerson => Projection::Orthographic,
            Projection::Orthographic => Projection::FirstPerson,
        }
    }

    /// Whether the projection is a perspective one (first or third person).
    pub fn is_perspective(&self) -> (r: bool)
        ensures
            r == !(*self is Orthographic),
    {
        match self {
            Projection::Orthographic => false,
            _ => true,
        }
    }

    /// The projection a key event switches to: pressing M (not a key repeat) cycles to the
    /// next projection; any other event switches to none.
    pub fn process(&self, key: Key, pressed: bool, repeat: bool) -> (r: Option<Projection>)
        ensures
            r == (if key is M && pressed && !repeat {
                Some(self.spec_next())
            } else {
                None
            }),
    {
        if pressed && !repeat {
            match key {
                Key::M => return Some(self.next()),
                _ => {},
            }
        }
        None
    }
}

/// The camera's free-look setting after a key event: pressing L (not a key repeat) flips it.
pub fn toggled_free_look(free_look: bool, key: Key, pressed: bool, repeat: bool) -> (r: bool)
    ensures
        r == (if key is L && pressed && !repeat {
            !free_look
        } else {
            free_look
        }),
{
    match key {
        Key::L => {
            if pressed && !repeat {
                !free_look
            } else {
                free_look
            }
        },
        _ => free_look,
    }
}

/// Cycling the projection three times comes back to where it started, and every projection
/// differs from the next.
pub proof fn law_projection_cycle(p: Projection)
    ensures
        p.spec_next().spec_next().spec_next() == p,
        p.spec_next() != p,
{
}

} // verus!
