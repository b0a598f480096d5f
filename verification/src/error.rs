//! Failures, and what is done about each.

use vstd::prelude::*;

verus! {

/// Why the kernel refused a call, as the error number it gave.
#[derive(Clone, Copy, Debug, PartialEq, Eq)]
pub struct KernelError {
    pub errno: i32,
}

impl KernelError {
    /// The error that says that there is no such device: what a call comes
    /// to when the device it is meant for is gone.
    pub open spec fn spec_no_device() -> KernelError {
        KernelError { errno: 19 }
    }

    /// The error that says that there is no such device.
    pub fn no_device() -> (error: KernelError)
        ensures
            error == Self::spec_no_device(),
    {
        KernelError { errno: 19 }
    }
}

/// A failure that is handed to the caller.
#[derive(Clone, Copy, Debug, PartialEq, Eq)]
pub enum Error {
    /// The kernel refused a call on the device numbered `dev`.
    Access { errmsg: &'static str, dev: u64, source: KernelError },
}

/// The calls that can fail while a session transition is handled.
#[derive(Clone, Copy, Debug, PartialEq, Eq)]
pub enum Operation {
    /// Clearing a surface's cursor plane while pausing.
    CursorClear,
    /// Giving up exclusive control of the device while pausing.
    ReleaseControl,
    /// Duplicating the device connection onto a replacement descriptor.
    DescriptorDuplication,
    /// Taking exclusive control of the device again while activating.
    AcquireControl,
    /// Listing the device's connectors and CRTCs.
    ResourceEnumeration,
    /// Submitting the transaction that switches the device off.
    TransactionSubmission,
    /// Making the kernel's description of a surface's mode anew.
    ModeRegeneration,
    /// Looking up the identifier of a named property.
    PropertyLookup,
}

/// How loudly a failure that is passed over is logged.
#[derive(Clone, Copy, Debug, PartialEq, Eq)]
pub enum Severity {
    Warning,
    Error,
    Critical,
}

/// What is done when a call fails.
#[derive(Clone, Copy, Debug, PartialEq, Eq)]
pub enum Policy {
    /// The failure is logged and the work goes on as if the call had
    /// succeeded.
    LogAndContinue(Severity),
    /// The failure ends the recovery in progress and is handed to the caller
    /// as an error.
    Report,
    /// The failure cannot be recovered from: the process must not go on.
    Fatal,
    /// The failure shows a defect in the code that set the device up: the
    /// process must not go on.
    Abort,
}

/// What is done when the given call fails.
pub open spec fn spec_failure_policy(operation: Operation) -> Policy {
    match operation {
        Operation::CursorClear => Policy::LogAndContinue(Severity::Warning),
        Operation::ReleaseControl => Policy::LogAndContinue(Severity::Error),
        Operation::DescriptorDuplication => Policy::Fatal,
        Operation::AcquireControl => Policy::LogAndContinue(Severity::Critical),
        Operation::ResourceEnumeration => Policy::Report,
        Operation::TransactionSubmission => Policy::Report,
        Operation::ModeRegeneration => Policy::Report,
        Operation::PropertyLookup => Policy::Abort,
    }
}

/// Says what is done when the given call fails.
pub fn failure_policy(operation: Operation) -> (policy: Policy)
    ensures
        policy == spec_failure_policy(operation),
{
    match operation {
        Operation::CursorClear => Policy::LogAndContinue(Severity::Warning),
        Operation::ReleaseControl => Policy::LogAndContinue(Severity::Error),
        Operation::DescriptorDuplication => Policy::Fatal,
        Operation::AcquireControl => Policy::LogAndContinue(Severity::Critical),
        Operation::ResourceEnumeration => Policy::Report,
        Operation::TransactionSubmission => Policy::Report,
        Operation::ModeRegeneration => Policy::Report,
        Operation::PropertyLookup => Policy::Abort,
    }
}

/// The words that go with a reported failure of the given call.
pub open spec fn spec_failure_message(operation: Operation) -> Seq<char> {
    match operation {
        Operation::ResourceEnumeration => "Error loading drm resources"@,
        Operation::TransactionSubmission => "Failed to disable connectors"@,
        Operation::ModeRegeneration => "Failed to create Property Blob for mode"@,
        Operation::CursorClear => "Failed to clear cursor"@,
        Operation::ReleaseControl => "Failed to drop drm master state"@,
        Operation::DescriptorDuplication => "Failed to replace file descriptor of drm device"@,
        Operation::AcquireControl => "Failed to acquire drm master again"@,
        Operation::PropertyLookup => "Unknown property"@,
    }
}

/// Gives the words that go with a failure of the given call.
pub fn failure_message(operation: Operation) -> (message: &'static str)
    ensures
        message@ == spec_failure_message(operation),
{
    match operation {
        Operation::ResourceEnumeration => "Error loading drm resources",
        Operation::TransactionSubmission => "Failed to disable connectors",
        Operation::ModeRegeneration => "Failed to create Property Blob for mode",
        Operation::CursorClear => "Failed to clear cursor",
        Operation::ReleaseControl => "Failed to drop drm master state",
        Operation::DescriptorDuplication => "Failed to replace file descriptor of drm device",
        Operation::AcquireControl => "Failed to acquire drm master again",
        Operation::PropertyLookup => "Unknown property",
    }
}

/// What an error says: its words, the number of the device, and the cause.
pub struct ErrorView {
    pub message: Seq<char>,
    pub dev: u64,
    pub source: KernelError,
}

impl View for Error {
    type V = ErrorView;

    open spec fn view(&self) -> ErrorView {
        match *self {
            Error::Access { errmsg, dev, source } => ErrorView { message: errmsg@, dev, source },
        }
    }
}

/// What the error says that reports that the kernel refused the given call
/// on the device numbered `dev`.
pub open spec fn spec_access_error(operation: Operation, dev: u64, source: KernelError) -> ErrorView {
    ErrorView { message: spec_failure_message(operation), dev, source }
}

/// Makes the error that reports that the kernel refused the given call on
/// the device numbered `dev`.
pub fn access_error(operation: Operation, dev: u64, source: KernelError) -> (error: Error)
    ensures
        error@ == spec_access_error(operation, dev, source),
{
    Error::Access { errmsg: failure_message(operation), dev, source }
}

} // verus!
