//! What passes between the observer and whoever talks to the kernel for it:
//! requests one way, replies the other.

use crate::error::{Error, ErrorView, KernelError, Operation};
use crate::handle::Handle;
use crate::property::ResourceHandles;
use crate::request::request_writes;
use crate::surface::Mode;
use drm::control::atomic::AtomicModeReq;
use vstd::prelude::*;

verus! {

/// A call to make on the device.
#[derive(Debug)]
pub enum Request {
    /// Clear the plane `plane` of the surface bound to `crtc`.
    ClearPlane { crtc: Handle, plane: Handle },
    /// Give up exclusive control of the device.
    ReleaseMasterLock,
    /// Duplicate the descriptor `from`, the connection to the device, onto
    /// the descriptor `onto`.
    DuplicateDescriptor { from: i32, onto: i32 },
    /// Take exclusive control of the device.
    AcquireMasterLock,
    /// List the device's connectors and CRTCs.
    ResourceHandles,
    /// Submit the transaction, saying whether it may set modes.
    AtomicCommit { allow_modeset: bool, request: AtomicModeReq },
    /// Make the kernel's description of `mode` anew for the surface bound to
    /// `crtc`.
    UseMode { crtc: Handle, mode: Mode },
}

/// A request as a value: a transaction is what it writes.
pub enum RequestView {
    ClearPlane { crtc: Handle, plane: Handle },
    ReleaseMasterLock,
    DuplicateDescriptor { from: i32, onto: i32 },
    AcquireMasterLock,
    ResourceHandles,
    AtomicCommit { allow_modeset: bool, writes: Map<(u32, u32), u64> },
    UseMode { crtc: Handle, mode: Mode },
}

impl RequestView {
    /// The call that the request asks for, as the failure policy names it.
    pub open spec fn operation(self) -> Operation {
        match self {
            RequestView::ClearPlane { .. } => Operation::CursorClear,
            RequestView::ReleaseMasterLock => Operation::ReleaseControl,
            RequestView::DuplicateDescriptor { .. } => Operation::DescriptorDuplication,
            RequestView::AcquireMasterLock => Operation::AcquireControl,
            RequestView::ResourceHandles => Operation::ResourceEnumeration,
            RequestView::AtomicCommit { .. } => Operation::TransactionSubmission,
            RequestView::UseMode { .. } => Operation::ModeRegeneration,
        }
    }
}

impl View for Request {
    type V = RequestView;

    open spec fn view(&self) -> RequestView {
        match *self {
            Request::ClearPlane { crtc, plane } => RequestView::ClearPlane { crtc, plane },
            Request::ReleaseMasterLock => RequestView::ReleaseMasterLock,
            Request::DuplicateDescriptor { from, onto } => RequestView::DuplicateDescriptor {
                from,
                onto,
            },
            Request::AcquireMasterLock => RequestView::AcquireMasterLock,
            Request::ResourceHandles => RequestView::ResourceHandles,
            Request::AtomicCommit { allow_modeset, request } => RequestView::AtomicCommit {
                allow_modeset,
                writes: request_writes(request),
            },
            Request::UseMode { crtc, mode } => RequestView::UseMode { crtc, mode },
        }
    }
}

impl Request {
    /// The call that the request asks for, as the failure policy names it.
    pub fn operation(&self) -> (operation: Operation)
        ensures
            operation == self@.operation(),
    {
        match self {
            Request::ClearPlane { .. } => Operation::CursorClear,
            Request::ReleaseMasterLock => Operation::ReleaseControl,
            Request::DuplicateDescriptor { .. } => Operation::DescriptorDuplication,
            Request::AcquireMasterLock => Operation::AcquireControl,
            Request::ResourceHandles => Operation::ResourceEnumeration,
            Request::AtomicCommit { .. } => Operation::TransactionSubmission,
            Request::UseMode { .. } => Operation::ModeRegeneration,
        }
    }
}

/// The kernel's answer to a request.
pub enum Reply {
    /// The call failed.
    Failed(KernelError),
    /// The call succeeded and gave nothing back.
    Done,
    /// The device's connectors and CRTCs.
    Handles(ResourceHandles),
    /// The identifier of the kernel's new description of a mode.
    Blob(u64),
}

/// How the handling of a signal ended.
#[derive(Clone, Copy, Debug, PartialEq, Eq)]
pub enum Outcome {
    /// The signal was for another device.
    Ignored,
    /// The device is paused.
    Paused,
    /// The device is active. `reset` says whether its display state could be
    /// brought back to a known one.
    Activated { reset: Result<(), Error> },
    /// The connection to the device could not be duplicated onto the
    /// replacement descriptor. The process must not go on.
    DescriptorLost { source: KernelError },
    /// The reply answers no request that is waiting.
    OutOfTurn,
}

/// An outcome as a value.
pub enum OutcomeView {
    Ignored,
    Paused,
    Activated { reset: Result<(), ErrorView> },
    DescriptorLost { source: KernelError },
    OutOfTurn,
}

impl View for Outcome {
    type V = OutcomeView;

    open spec fn view(&self) -> OutcomeView {
        match *self {
            Outcome::Ignored => OutcomeView::Ignored,
            Outcome::Paused => OutcomeView::Paused,
            Outcome::Activated { reset } => OutcomeView::Activated {
                reset: match reset {
                    Ok(_) => Ok(()),
                    Err(error) => Err(error@),
                },
            },
            Outcome::DescriptorLost { source } => OutcomeView::DescriptorLost { source },
            Outcome::OutOfTurn => OutcomeView::OutOfTurn,
        }
    }
}

/// What the observer wants next.
#[derive(Debug)]
pub enum Step {
    /// Make this call and come back with the kernel's reply.
    Call(Request),
    /// Nothing more: the signal is dealt with.
    Done(Outcome),
}

/// A step as a value.
pub enum StepView {
    Call(RequestView),
    Done(OutcomeView),
}

impl View for Step {
    type V = StepView;

    open spec fn view(&self) -> StepView {
        match *self {
            Step::Call(request) => StepView::Call(request@),
            Step::Done(outcome) => StepView::Done(outcome@),
        }
    }
}

/// The call whose reply the observer waits for.
#[derive(Clone, Copy, Debug, PartialEq, Eq)]
pub enum Pending {
    /// None: no signal is being handled.
    Idle,
    /// The clearing of the cursor plane of the surface in the place `slot`.
    CursorClear { slot: usize },
    ReleaseControl,
    DescriptorDuplication,
    AcquireControl,
    ResourceEnumeration,
    TransactionSubmission,
    /// The new description of the mode of the surface in the place `slot`.
    ModeRegeneration { slot: usize },
}

} // verus!
