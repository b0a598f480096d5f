//! The session observer of a device: it hears of session transitions and
//! keeps the device's display state sound across them.

use crate::device::AtomicDrmDevice;
use crate::devnum::identifies;
use crate::error::{access_error, failure_policy, KernelError, Operation, Policy};
use crate::model::{
    consistent, spec_acquire, spec_activate, spec_activated, spec_clear_cursors, spec_in_turn,
    spec_operation, spec_pause, spec_proceed, spec_release, spec_reset_state,
    spec_reset_surfaces, spec_resume, spec_signal, Advance, ObserverView, Transition,
};
use crate::protocol::{Outcome, OutcomeView, Pending, Reply, Request, Step, StepView};
use crate::registry::SurfaceRegistry;
use crate::request::disable_request;
use crate::signal::Signal;
use vstd::prelude::*;

verus! {

/// The observer of one device. It is told of session signals and of the
/// kernel's replies, and says each time which call to make next.
#[derive(Debug)]
pub struct AtomicDrmDeviceObserver {
    dev_id: u64,
    privileged: bool,
    active: bool,
    pending: Pending,
}

impl View for AtomicDrmDeviceObserver {
    type V = ObserverView;

    closed spec fn view(&self) -> ObserverView {
        ObserverView {
            dev_id: self.dev_id,
            privileged: self.privileged,
            active: self.active,
            pending: self.pending,
        }
    }
}

impl AtomicDrmDevice {
    /// Makes the observer that is to be registered for this device's session
    /// signals: it has the device's number, privilege and activity flag, and
    /// waits for nothing.
    pub fn link(&self) -> (observer: AtomicDrmDeviceObserver)
        ensures
            observer@ == (ObserverView {
                dev_id: self.dev_id,
                privileged: self.privileged,
                active: self.active,
                pending: Pending::Idle,
            }),
    {
        AtomicDrmDeviceObserver {
            dev_id: self.dev_id,
            privileged: self.privileged,
            active: self.active,
            pending: Pending::Idle,
        }
    }
}

impl AtomicDrmDeviceObserver {
    #[verifier::type_invariant]
    spec fn flag_fits(self) -> bool {
        consistent(self@)
    }

    /// The number of the observed device.
    pub fn dev_id(&self) -> (dev_id: u64)
        ensures
            dev_id == self@.dev_id,
    {
        self.dev_id
    }

    /// Whether this process holds exclusive control of the device.
    pub fn is_privileged(&self) -> (privileged: bool)
        ensures
            privileged == self@.privileged,
    {
        self.privileged
    }

    /// Whether the device is in use. A pause clears the flag and an
    /// activation sets it; nothing else changes it.
    pub fn is_active(&self) -> (active: bool)
        ensures
            active == self@.active,
            consistent(self@),
    {
        proof {
            use_type_invariant(self);
        }
        self.active
    }

    /// The call whose reply is waited for.
    pub fn pending(&self) -> (pending: Pending)
        ensures
            pending == self@.pending,
            consistent(self@),
    {
        proof {
            use_type_invariant(self);
        }
        self.pending
    }

    fn set(&mut self, active: bool, pending: Pending)
        requires
            consistent(ObserverView { active, pending, ..old(self)@ }),
        ensures
            final(self)@ == (ObserverView { active, pending, ..old(self)@ }),
    {
        *self = AtomicDrmDeviceObserver {
            dev_id: self.dev_id,
            privileged: self.privileged,
            active,
            pending,
        };
    }

    fn finish(&mut self, active: bool, outcome: Outcome) -> (step: Step)
        ensures
            final(self)@ == (ObserverView { active, pending: Pending::Idle, ..old(self)@ }),
            step@ == StepView::Done(outcome@),
    {
        self.set(active, Pending::Idle);
        Step::Done(outcome)
    }

    fn call(&mut self, active: bool, pending: Pending, request: Request) -> (step: Step)
        requires
            consistent(ObserverView { active, pending, ..old(self)@ }),
        ensures
            final(self)@ == (ObserverView { active, pending, ..old(self)@ }),
            step@ == StepView::Call(request@),
    {
        self.set(active, pending);
        Step::Call(request)
    }

    fn release(&mut self, device: bool) -> (step: Step)
        ensures
            (Advance { observer: final(self)@, step: step@ }) == spec_release(old(self)@, device),
    {
        if self.privileged && device {
            self.call(false, Pending::ReleaseControl, Request::ReleaseMasterLock)
        } else {
            self.finish(false, Outcome::Paused)
        }
    }

    /// Goes on with the pause at the next surface that is still there, from
    /// the place `from` on: a cursor left on screen would stay visible on
    /// top of whatever the next session shows, so its plane is cleared.
    /// After the last surface the device is out of use.
    fn clear_cursors(&mut self, device: bool, backends: &SurfaceRegistry, from: usize) -> (step:
        Step)
        ensures
            (Advance { observer: final(self)@, step: step@ }) == spec_clear_cursors(
                old(self)@,
                device,
                backends@,
                from as int,
            ),
    {
        match backends.next_live(from) {
            Some(i) => {
                let crtc = backends.crtc_at(i);
                let surface = backends.surface_at(i).unwrap();
                let request = surface.clear_plane(crtc, surface.planes.cursor);
                let active = self.active;
                self.call(active, Pending::CursorClear { slot: i }, request)
            },
            None => self.release(device),
        }
    }

    /// Handles a pause of the session (`devnum` is `None`) or of the device
    /// with the given major and minor numbers. A pause of another device
    /// changes nothing. Else the cursor plane of every surface that is still
    /// there is cleared, one call at a time, whatever the kernel says to
    /// each; then the device is out of use; then exclusive control is given
    /// up, if this process holds it and the device is still there.
    pub fn pause(
        &mut self,
        devnum: Option<(u32, u32)>,
        dev: Option<&AtomicDrmDevice>,
        backends: &SurfaceRegistry,
    ) -> (step: Step)
        ensures
            (Advance { observer: final(self)@, step: step@ }) == spec_pause(
                old(self)@,
                devnum,
                dev is Some,
                backends@,
            ),
            consistent(final(self)@),
            step@ == StepView::Done(OutcomeView::Paused) ==> !final(self)@.active,
    {
        proof {
            use_type_invariant(&*self);
        }
        if let Some((major, minor)) = devnum {
            if !identifies(self.dev_id, major, minor) {
                return Step::Done(Outcome::Ignored);
            }
        }
        self.clear_cursors(dev.is_some(), backends, 0)
    }

    /// Begins the reset of the display state of a device that is in use
    /// again. Another session may have left the device in any state, and
    /// surfaces are updated one at a time, so updates on top of that state
    /// could ask for what the hardware cannot do. So the whole device is
    /// switched off in one transaction first: here its connectors and CRTCs
    /// are asked for; the transaction is built from the reply, and once it is
    /// in, every surface is made to start over. If the device is gone the
    /// reset ends at once, with the error of the listing.
    fn reset_state(&mut self, device: bool) -> (step: Step)
        requires
            old(self)@.active,
        ensures
            (Advance { observer: final(self)@, step: step@ }) == spec_reset_state(
                old(self)@,
                device,
            ),
    {
        if device {
            self.call(true, Pending::ResourceEnumeration, Request::ResourceHandles)
        } else {
            let gone = access_error(
                Operation::ResourceEnumeration,
                self.dev_id,
                KernelError::no_device(),
            );
            self.finish(true, Outcome::Activated { reset: Err(gone) })
        }
    }

    fn activated(&mut self, device: bool) -> (step: Step)
        ensures
            (Advance { observer: final(self)@, step: step@ }) == spec_activated(old(self)@, device),
    {
        self.set(true, Pending::Idle);
        self.reset_state(device)
    }

    fn acquire(&mut self, device: bool) -> (step: Step)
        ensures
            (Advance { observer: final(self)@, step: step@ }) == spec_acquire(old(self)@, device),
    {
        if self.privileged && device {
            let active = self.active;
            self.call(active, Pending::AcquireControl, Request::AcquireMasterLock)
        } else {
            self.activated(device)
        }
    }

    /// Handles an activation of the session (`devnum` is `None`) or of the
    /// device with the given major and minor numbers, which may bring a
    /// replacement descriptor. An activation of another device changes
    /// nothing. Else the connection is duplicated onto the replacement
    /// descriptor, if there is one and the device is still there; exclusive
    /// control is taken again, if this process holds it and the device is
    /// still there; the device is in use; and the reset of its display state
    /// begins. The reset is never over with the first step: on a device that
    /// is gone it fails at once, and the activation ends with its error.
    pub fn activate(
        &mut self,
        devnum: Option<(u32, u32, Option<i32>)>,
        dev: Option<&AtomicDrmDevice>,
    ) -> (step: Step)
        ensures
            (Advance { observer: final(self)@, step: step@ }) == spec_activate(
                old(self)@,
                devnum,
                dev,
            ),
            consistent(final(self)@),
            step@ is Done && step@->Done_0 is Activated ==> final(self)@.active,
            step@ != StepView::Done(OutcomeView::Activated { reset: Ok(()) }),
    {
        proof {
            use_type_invariant(&*self);
        }
        if let Some((major, minor, new_fd)) = devnum {
            if !identifies(self.dev_id, major, minor) {
                return Step::Done(Outcome::Ignored);
            }
            if let Some(onto) = new_fd {
                if let Some(device) = dev {
                    let active = self.active;
                    return self.call(
                        active,
                        Pending::DescriptorDuplication,
                        Request::DuplicateDescriptor { from: device.fd, onto },
                    );
                }
            }
        }
        self.acquire(dev.is_some())
    }

    /// Handles a session signal: says which call to make first, or that
    /// there is nothing to do. A signal that comes while a reply is waited
    /// for takes the place of what was in progress.
    pub fn signal(
        &mut self,
        signal: Signal,
        dev: Option<&AtomicDrmDevice>,
        backends: &SurfaceRegistry,
    ) -> (step: Step)
        ensures
            (Advance { observer: final(self)@, step: step@ }) == spec_signal(
                old(self)@,
                signal,
                dev,
                backends@,
            ),
            consistent(final(self)@),
            step@ == StepView::Done(OutcomeView::Paused) ==> !final(self)@.active,
            step@ is Done && step@->Done_0 is Activated ==> final(self)@.active,
            step@ != StepView::Done(OutcomeView::Activated { reset: Ok(()) }),
    {
        match signal {
            Signal::PauseSession => self.pause(None, dev, backends),
            Signal::PauseDevice { major, minor } => self.pause(Some((major, minor)), dev, backends),
            Signal::ActivateSession => self.activate(None, dev),
            Signal::ActivateDevice { major, minor, new_fd } => self.activate(
                Some((major, minor, new_fd)),
                dev,
            ),
        }
    }

    /// Goes on with the reset at the next surface that is still there, from
    /// the place `from` on: its last known configuration is invalidated, so
    /// that its next update sets the mode again, and a new description of
    /// its mode is asked for. After the last surface the reset is over.
    fn reset_surfaces(&mut self, backends: &mut SurfaceRegistry, from: usize) -> (step: Step)
        requires
            old(self)@.active,
        ensures
            (Transition { observer: final(self)@, backends: final(backends)@, step: step@ })
                == spec_reset_surfaces(old(self)@, old(backends)@, from as int),
    {
        match backends.next_live(from) {
            Some(i) => {
                let crtc = backends.crtc_at(i);
                let mode = backends.surface_at(i).unwrap().pending.mode;
                backends.invalidate_at(i);
                self.call(
                    true,
                    Pending::ModeRegeneration { slot: i },
                    Request::UseMode { crtc, mode },
                )
            },
            None => self.finish(true, Outcome::Activated { reset: Ok(()) }),
        }
    }

    fn operation(&self) -> (operation: Option<Operation>)
        ensures
            operation == spec_operation(self@.pending),
    {
        match self.pending {
            Pending::Idle => None,
            Pending::CursorClear { .. } => Some(Operation::CursorClear),
            Pending::ReleaseControl => Some(Operation::ReleaseControl),
            Pending::DescriptorDuplication => Some(Operation::DescriptorDuplication),
            Pending::AcquireControl => Some(Operation::AcquireControl),
            Pending::ResourceEnumeration => Some(Operation::ResourceEnumeration),
            Pending::TransactionSubmission => Some(Operation::TransactionSubmission),
            Pending::ModeRegeneration { .. } => Some(Operation::ModeRegeneration),
        }
    }

    /// Tells whether the reply can be the answer to the call that is waited
    /// for, given whether the device is still there.
    pub fn in_turn(&self, reply: &Reply, device: bool) -> (fits: bool)
        ensures
            fits == spec_in_turn(self@.pending, *reply, device),
    {
        let failed = matches!(reply, Reply::Failed(_));
        match self.pending {
            Pending::Idle => false,
            Pending::ResourceEnumeration => failed || (matches!(reply, Reply::Handles(_))
                && device),
            Pending::ModeRegeneration { .. } => failed || matches!(reply, Reply::Blob(_)),
            _ => failed || matches!(reply, Reply::Done),
        }
    }

    /// Goes on from the call that was waited for, given a reply that is no
    /// failure. A reply of a kind that does not answer that call changes
    /// nothing.
    fn proceed(
        &mut self,
        reply: Reply,
        dev: Option<&AtomicDrmDevice>,
        backends: &mut SurfaceRegistry,
    ) -> (step: Step)
        requires
            consistent(old(self)@),
            !(reply is Failed),
            old(self)@.pending is ResourceEnumeration && reply is Handles && dev is Some
                ==> dev->0.prop_mapping.spec_covers(reply->Handles_0),
        ensures
            (Transition { observer: final(self)@, backends: final(backends)@, step: step@ })
                == spec_proceed(old(self)@, reply, dev, old(backends)@),
    {
        let device = dev.is_some();
        match (self.pending, reply) {
            (Pending::CursorClear { slot }, Reply::Done) => {
                let from = if slot < backends.len() {
                    slot + 1
                } else {
                    backends.len()
                };
                self.clear_cursors(device, backends, from)
            },
            (Pending::ReleaseControl, Reply::Done) => self.finish(false, Outcome::Paused),
            (Pending::DescriptorDuplication, Reply::Done) => self.acquire(device),
            (Pending::AcquireControl, Reply::Done) => self.activated(device),
            (Pending::ResourceEnumeration, Reply::Handles(handles)) => match dev {
                Some(d) => {
                    let request = disable_request(&handles, &d.prop_mapping);
                    self.call(
                        true,
                        Pending::TransactionSubmission,
                        Request::AtomicCommit { allow_modeset: true, request },
                    )
                },
                None => Step::Done(Outcome::OutOfTurn),
            },
            (Pending::TransactionSubmission, Reply::Done) => self.reset_surfaces(backends, 0),
            (Pending::ModeRegeneration { slot }, Reply::Blob(blob)) => {
                let from = if slot < backends.len() {
                    slot + 1
                } else {
                    backends.len()
                };
                if slot < backends.len() {
                    if let Some(surface) = backends.surface_at(slot) {
                        let mode = surface.pending.mode;
                        let _ = backends.use_mode_at(slot, mode, Ok(blob), self.dev_id);
                    }
                }
                self.reset_surfaces(backends, from)
            },
            _ => Step::Done(Outcome::OutOfTurn),
        }
    }

    /// Takes the kernel's reply to the call that was asked for last, and
    /// says which call to make next, or how the handling of the signal
    /// ended. A reply that answers no waiting call changes nothing. A
    /// failure is dealt with as the failure policy says of the call.
    ///
    /// The property mapping of the device must name every property that
    /// disabling the listed connectors and CRTCs writes to.
    pub fn resume(
        &mut self,
        reply: Reply,
        dev: Option<&AtomicDrmDevice>,
        backends: &mut SurfaceRegistry,
    ) -> (step: Step)
        requires
            old(self)@.pending is ResourceEnumeration && reply is Handles && dev is Some
                ==> dev->0.prop_mapping.spec_covers(reply->Handles_0),
        ensures
            (Transition { observer: final(self)@, backends: final(backends)@, step: step@ })
                == spec_resume(old(self)@, reply, dev, old(backends)@),
            consistent(final(self)@),
            !spec_in_turn(old(self)@.pending, reply, dev is Some) ==> step@ == StepView::Done(
                OutcomeView::OutOfTurn,
            ) && final(self)@ == old(self)@ && final(backends)@ == old(backends)@,
            step@ == StepView::Done(OutcomeView::Paused) ==> !final(self)@.active,
            step@ is Done && step@->Done_0 is Activated ==> final(self)@.active,
    {
        proof {
            use_type_invariant(&*self);
        }
        match reply {
            Reply::Failed(source) => match self.operation() {
                Some(operation) => {
                    let active = self.active;
                    match failure_policy(operation) {
                        Policy::LogAndContinue(_) => self.proceed(Reply::Done, dev, backends),
                        Policy::Report => self.finish(
                            active,
                            Outcome::Activated {
                                reset: Err(access_error(operation, self.dev_id, source)),
                            },
                        ),
                        _ => self.finish(active, Outcome::DescriptorLost { source }),
                    }
                },
                None => Step::Done(Outcome::OutOfTurn),
            },
            reply => self.proceed(reply, dev, backends),
        }
    }
}

} // verus!
