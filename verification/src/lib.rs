//! Session-aware recovery of a kernel mode-setting device's display state.
//!
//! The crate is the decision core of a session observer: it is told of
//! session signals and of the kernel's replies, and it answers with the next
//! kernel request to perform. It performs no input or output itself.

pub mod device;
pub mod devnum;
pub mod error;
pub mod handle;
pub mod laws;
pub mod model;
pub mod property;
pub mod protocol;
pub mod registry;
pub mod request;
pub mod session;
pub mod signal;
pub mod surface;
