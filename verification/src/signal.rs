//! The signals by which a session says that it pauses or resumes.

use vstd::prelude::*;

verus! {

/// A session transition. The device-scoped signals name a device by the
/// major and minor parts of its number.
#[derive(Clone, Copy, Debug, PartialEq, Eq)]
pub enum Signal {
    /// The whole session is paused.
    PauseSession,
    /// One device is paused.
    PauseDevice { major: u32, minor: u32 },
    /// The whole session is active again.
    ActivateSession,
    /// One device is active again. `new_fd`, if given, is a descriptor onto
    /// which the connection to the device is to be duplicated.
    ActivateDevice { major: u32, minor: u32, new_fd: Option<i32> },
}

} // verus!
