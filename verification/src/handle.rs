//! Kernel object identifiers.

use vstd::prelude::*;

verus! {

/// Identifier the kernel assigned to a mode-setting object (connector, CRTC,
/// plane, property, framebuffer). The kernel never hands out zero.
#[derive(Clone, Copy, PartialEq, Eq, Structural, Debug, Hash)]
pub struct Handle {
    raw: u32,
}

impl View for Handle {
    type V = u32;

    closed spec fn view(&self) -> u32 {
        self.raw
    }
}

impl Handle {
    #[verifier::type_invariant]
    spec fn nonzero(self) -> bool {
        self.raw != 0
    }

    /// The handle with the given identifier, unless the identifier is zero.
    pub fn new(raw: u32) -> (handle: Option<Handle>)
        ensures
            raw == 0 <==> handle is None,
            handle matches Some(h) ==> h@ == raw,
    {
        if raw == 0 {
            None
        } else {
            Some(Handle { raw })
        }
    }

    /// The identifier itself.
    pub fn raw(self) -> (raw: u32)
        ensures
            raw == self@,
            raw != 0,
    {
        proof {
            use_type_invariant(&self);
        }
        self.raw
    }
}

} // verus!
