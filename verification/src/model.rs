//! What the observer does, as mathematics: from what it knows and what it is
//! told to what it knows next and what it asks for.

use crate::device::AtomicDrmDevice;
use crate::devnum::spec_identifies;
use crate::error::{spec_access_error, spec_failure_policy, KernelError, Operation, Policy};
use crate::protocol::{OutcomeView, Pending, Reply, RequestView, StepView};
use crate::registry::{spec_next_live, SlotView};
use crate::request::disable_writes;
use crate::signal::Signal;
use vstd::prelude::*;

verus! {

/// What an observer knows: the number of its device, whether this process
/// holds exclusive control of it, whether the device is in use, and the call
/// whose reply it waits for.
pub struct ObserverView {
    pub dev_id: u64,
    pub privileged: bool,
    pub active: bool,
    pub pending: Pending,
}

/// What the observer knows and wants after it was told of a signal.
pub struct Advance {
    pub observer: ObserverView,
    pub step: StepView,
}

/// What the observer knows and wants after it was given a reply, and the
/// surfaces as it left them.
pub struct Transition {
    pub observer: ObserverView,
    pub backends: Seq<SlotView>,
    pub step: StepView,
}

/// Whether the flag fits the call waited for: control is given up only once
/// the device is out of use, and display state is reset only once it is in
/// use again.
pub open spec fn consistent(observer: ObserverView) -> bool {
    match observer.pending {
        Pending::ReleaseControl => !observer.active,
        Pending::ResourceEnumeration => observer.active,
        Pending::TransactionSubmission => observer.active,
        Pending::ModeRegeneration { .. } => observer.active,
        _ => true,
    }
}

/// The call that is waited for, as the failure policy names it.
pub open spec fn spec_operation(pending: Pending) -> Option<Operation> {
    match pending {
        Pending::Idle => None,
        Pending::CursorClear { .. } => Some(Operation::CursorClear),
        Pending::ReleaseControl => Some(Operation::ReleaseControl),
        Pending::DescriptorDuplication => Some(Operation::DescriptorDuplication),
        Pending::AcquireControl => Some(Operation::AcquireControl),
        Pending::ResourceEnumeration => Some(Operation::ResourceEnumeration),
        Pending::TransactionSubmission => Some(Operation::TransactionSubmission),
        Pending::ModeRegeneration { .. } => Some(Operation::ModeRegeneration),
    }
}

/// The observer is done with the signal.
pub open spec fn finish(observer: ObserverView, outcome: OutcomeView) -> Advance {
    Advance {
        observer: ObserverView { pending: Pending::Idle, ..observer },
        step: StepView::Done(outcome),
    }
}

/// The observer asks for a call and waits for its reply.
pub open spec fn call(observer: ObserverView, pending: Pending, request: RequestView) -> Advance {
    Advance { observer: ObserverView { pending, ..observer }, step: StepView::Call(request) }
}

/// The last part of pausing: the device is out of use, and exclusive control
/// of it is given up if this process holds it and the device is still there.
pub open spec fn spec_release(observer: ObserverView, device: bool) -> Advance {
    let observer = ObserverView { active: false, ..observer };
    if observer.privileged && device {
        call(observer, Pending::ReleaseControl, RequestView::ReleaseMasterLock)
    } else {
        finish(observer, OutcomeView::Paused)
    }
}

/// The first part of pausing, from the place `from` on: the cursor plane of
/// the next surface that is still there is cleared; after the last one the
/// pause goes on to its last part.
pub open spec fn spec_clear_cursors(
    observer: ObserverView,
    device: bool,
    backends: Seq<SlotView>,
    from: int,
) -> Advance {
    match spec_next_live(backends, from) {
        Some(i) => call(
            observer,
            Pending::CursorClear { slot: i as usize },
            RequestView::ClearPlane {
                crtc: backends[i].crtc,
                plane: backends[i].surface->0.planes.cursor,
            },
        ),
        None => spec_release(observer, device),
    }
}

/// A pause. One that names another device changes nothing.
pub open spec fn spec_pause(
    observer: ObserverView,
    devnum: Option<(u32, u32)>,
    device: bool,
    backends: Seq<SlotView>,
) -> Advance {
    if devnum matches Some((major, minor)) && !spec_identifies(observer.dev_id, major, minor) {
        Advance { observer, step: StepView::Done(OutcomeView::Ignored) }
    } else {
        spec_clear_cursors(observer, device, backends, 0)
    }
}

/// The reset of the display state begins: the device's connectors and CRTCs
/// are asked for. If the device is gone they cannot be listed, and the reset
/// ends at once with the error of that call, so that it never counts as done
/// while surfaces are left as they were.
pub open spec fn spec_reset_state(observer: ObserverView, device: bool) -> Advance {
    if device {
        call(observer, Pending::ResourceEnumeration, RequestView::ResourceHandles)
    } else {
        finish(
            observer,
            OutcomeView::Activated {
                reset: Err(
                    spec_access_error(
                        Operation::ResourceEnumeration,
                        observer.dev_id,
                        KernelError::spec_no_device(),
                    ),
                ),
            },
        )
    }
}

/// The device is in use again, and its display state is reset.
pub open spec fn spec_activated(observer: ObserverView, device: bool) -> Advance {
    spec_reset_state(ObserverView { active: true, ..observer }, device)
}

/// Exclusive control is taken again, if this process holds it and the device
/// is still there; then the device is in use again.
pub open spec fn spec_acquire(observer: ObserverView, device: bool) -> Advance {
    if observer.privileged && device {
        call(observer, Pending::AcquireControl, RequestView::AcquireMasterLock)
    } else {
        spec_activated(observer, device)
    }
}

/// An activation. One that names another device changes nothing. One that
/// names this device and brings a replacement descriptor first has the
/// connection duplicated onto it, if the device is still there.
pub open spec fn spec_activate(
    observer: ObserverView,
    devnum: Option<(u32, u32, Option<i32>)>,
    dev: Option<&AtomicDrmDevice>,
) -> Advance {
    match devnum {
        Some((major, minor, new_fd)) => {
            if !spec_identifies(observer.dev_id, major, minor) {
                Advance { observer, step: StepView::Done(OutcomeView::Ignored) }
            } else if new_fd is Some && dev is Some {
                call(
                    observer,
                    Pending::DescriptorDuplication,
                    RequestView::DuplicateDescriptor { from: dev->0.fd, onto: new_fd->0 },
                )
            } else {
                spec_acquire(observer, dev is Some)
            }
        },
        None => spec_acquire(observer, dev is Some),
    }
}

/// What the observer does when it is told of a signal.
pub open spec fn spec_signal(
    observer: ObserverView,
    signal: Signal,
    dev: Option<&AtomicDrmDevice>,
    backends: Seq<SlotView>,
) -> Advance {
    match signal {
        Signal::PauseSession => spec_pause(observer, None, dev is Some, backends),
        Signal::PauseDevice { major, minor } => spec_pause(
            observer,
            Some((major, minor)),
            dev is Some,
            backends,
        ),
        Signal::ActivateSession => spec_activate(observer, None, dev),
        Signal::ActivateDevice { major, minor, new_fd } => spec_activate(
            observer,
            Some((major, minor, new_fd)),
            dev,
        ),
    }
}

/// An advance that leaves the surfaces as they are.
pub open spec fn keeping(backends: Seq<SlotView>, advance: Advance) -> Transition {
    Transition { observer: advance.observer, backends, step: advance.step }
}

/// The surfaces after the one in the place `slot`, if it is still there, took
/// the kernel's new description `blob` of the mode it is asked for, and had
/// its cursor state emptied.
pub open spec fn spec_regenerated_at(backends: Seq<SlotView>, slot: int, blob: u64) -> Seq<
    SlotView,
> {
    if 0 <= slot < backends.len() && backends[slot].live() {
        backends.update(
            slot,
            backends[slot].regenerate(backends[slot].surface->0.pending.mode, blob),
        )
    } else {
        backends
    }
}

/// The second part of the reset, from the place `from` on: the last known
/// configuration of the next surface that is still there is invalidated and
/// a new description of its mode is asked for; after the last one the reset
/// has succeeded.
pub open spec fn spec_reset_surfaces(
    observer: ObserverView,
    backends: Seq<SlotView>,
    from: int,
) -> Transition {
    match spec_next_live(backends, from) {
        Some(i) => keeping(
            backends.update(i, backends[i].invalidate()),
            call(
                observer,
                Pending::ModeRegeneration { slot: i as usize },
                RequestView::UseMode {
                    crtc: backends[i].crtc,
                    mode: backends[i].surface->0.pending.mode,
                },
            ),
        ),
        None => keeping(backends, finish(observer, OutcomeView::Activated { reset: Ok(()) })),
    }
}

/// Whether the reply can be the answer to the call that is waited for.
pub open spec fn spec_in_turn(pending: Pending, reply: Reply, device: bool) -> bool {
    match pending {
        Pending::Idle => false,
        Pending::ResourceEnumeration => reply is Failed || (reply is Handles && device),
        Pending::ModeRegeneration { .. } => reply is Failed || reply is Blob,
        _ => reply is Failed || reply is Done,
    }
}

/// The reply answers no call that is waited for: nothing changes.
pub open spec fn out_of_turn(observer: ObserverView, backends: Seq<SlotView>) -> Transition {
    Transition { observer, backends, step: StepView::Done(OutcomeView::OutOfTurn) }
}

/// What the observer does when it is given a reply that is no failure: it
/// goes on from the call that it waited for, if the reply is of the kind
/// that answers that call.
pub open spec fn spec_proceed(
    observer: ObserverView,
    reply: Reply,
    dev: Option<&AtomicDrmDevice>,
    backends: Seq<SlotView>,
) -> Transition {
    match (observer.pending, reply) {
        (Pending::CursorClear { slot }, Reply::Done) => keeping(
            backends,
            spec_clear_cursors(observer, dev is Some, backends, slot + 1),
        ),
        (Pending::ReleaseControl, Reply::Done) => keeping(
            backends,
            finish(observer, OutcomeView::Paused),
        ),
        (Pending::DescriptorDuplication, Reply::Done) => keeping(
            backends,
            spec_acquire(observer, dev is Some),
        ),
        (Pending::AcquireControl, Reply::Done) => keeping(
            backends,
            spec_activated(observer, dev is Some),
        ),
        (Pending::ResourceEnumeration, Reply::Handles(handles)) => match dev {
            Some(device) => keeping(
                backends,
                call(
                    observer,
                    Pending::TransactionSubmission,
                    RequestView::AtomicCommit {
                        allow_modeset: true,
                        writes: disable_writes(handles, device.prop_mapping),
                    },
                ),
            ),
            None => out_of_turn(observer, backends),
        },
        (Pending::TransactionSubmission, Reply::Done) => spec_reset_surfaces(
            observer,
            backends,
            0,
        ),
        (Pending::ModeRegeneration { slot }, Reply::Blob(blob)) => spec_reset_surfaces(
            observer,
            spec_regenerated_at(backends, slot as int, blob),
            slot + 1,
        ),
        _ => out_of_turn(observer, backends),
    }
}

/// What the observer does when it is given a reply. A reply out of turn
/// changes nothing. A failure is dealt with as the failure policy says of
/// the call: passed over, so that the work goes on as after a success;
/// reported, which ends the reset with an error; or fatal.
pub open spec fn spec_resume(
    observer: ObserverView,
    reply: Reply,
    dev: Option<&AtomicDrmDevice>,
    backends: Seq<SlotView>,
) -> Transition {
    match reply {
        Reply::Failed(source) => match spec_operation(observer.pending) {
            Some(operation) => match spec_failure_policy(operation) {
                Policy::LogAndContinue(_) => spec_proceed(observer, Reply::Done, dev, backends),
                Policy::Report => keeping(
                    backends,
                    finish(
                        observer,
                        OutcomeView::Activated {
                            reset: Err(spec_access_error(operation, observer.dev_id, source)),
                        },
                    ),
                ),
                _ => keeping(backends, finish(observer, OutcomeView::DescriptorLost { source })),
            },
            None => out_of_turn(observer, backends),
        },
        _ => spec_proceed(observer, reply, dev, backends),
    }
}

} // verus!
