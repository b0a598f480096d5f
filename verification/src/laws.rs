//! What holds of the observer whatever it is told.

use crate::device::AtomicDrmDevice;
use crate::devnum::spec_identifies;
use crate::error::{spec_access_error, spec_failure_policy, KernelError, Policy};
use crate::model::{
    consistent, finish, keeping, out_of_turn, spec_acquire, spec_clear_cursors, spec_in_turn,
    spec_operation, spec_regenerated_at, spec_reset_state, spec_reset_surfaces, spec_resume,
    spec_signal, Advance, ObserverView, Transition,
};
use crate::property::ResourceHandles;
use crate::protocol::{OutcomeView, Pending, Reply, RequestView, StepView};
use crate::registry::{spec_next_live, SlotView};
use crate::request::disable_writes;
use crate::signal::Signal;
use crate::surface::CursorState;
use vstd::prelude::*;

verus! {

/// Whether the signal names a device, and one other than the device numbered
/// `dev_id`.
pub open spec fn foreign(signal: Signal, dev_id: u64) -> bool {
    match signal {
        Signal::PauseDevice { major, minor } => !spec_identifies(dev_id, major, minor),
        Signal::ActivateDevice { major, minor, .. } => !spec_identifies(dev_id, major, minor),
        _ => false,
    }
}

/// A signal for another device changes nothing: the activity flag and the
/// call waited for stay as they are, and no call is asked for, so that no
/// surface is touched and no descriptor is duplicated.
pub proof fn lemma_foreign_signal_changes_nothing(
    observer: ObserverView,
    signal: Signal,
    dev: Option<&AtomicDrmDevice>,
    backends: Seq<SlotView>,
)
    requires
        foreign(signal, observer.dev_id),
    ensures
        spec_signal(observer, signal, dev, backends) == (Advance {
            observer,
            step: StepView::Done(OutcomeView::Ignored),
        }),
{
}

/// The activity flag always fits the call that is waited for; when a pause
/// is over the flag is down, and when an activation is over, however its
/// reset went, the flag is up.
pub proof fn lemma_flag_follows_signal(
    observer: ObserverView,
    signal: Signal,
    dev: Option<&AtomicDrmDevice>,
    backends: Seq<SlotView>,
)
    requires
        consistent(observer),
    ensures
        ({
            let next = spec_signal(observer, signal, dev, backends);
            &&& consistent(next.observer)
            &&& next.step == StepView::Done(OutcomeView::Paused) ==> !next.observer.active
            &&& next.step is Done && next.step->Done_0 is Activated ==> next.observer.active
        }),
{
}

/// The same, of a reply.
pub proof fn lemma_flag_follows_reply(
    observer: ObserverView,
    reply: Reply,
    dev: Option<&AtomicDrmDevice>,
    backends: Seq<SlotView>,
)
    requires
        consistent(observer),
    ensures
        ({
            let next = spec_resume(observer, reply, dev, backends);
            &&& consistent(next.observer)
            &&& next.step == StepView::Done(OutcomeView::Paused) ==> !next.observer.active
            &&& next.step is Done && next.step->Done_0 is Activated ==> next.observer.active
        }),
{
}

/// A cursor plane that cannot be cleared does not end the pause: what the
/// observer does next is what it does when the plane was cleared.
pub proof fn lemma_cursor_clear_failure_is_passed_over(
    observer: ObserverView,
    source: KernelError,
    dev: Option<&AtomicDrmDevice>,
    backends: Seq<SlotView>,
)
    requires
        observer.pending is CursorClear,
    ensures
        spec_resume(observer, Reply::Failed(source), dev, backends) == spec_resume(
            observer,
            Reply::Done,
            dev,
            backends,
        ),
{
}

/// A failure is dealt with as the policy says of the call that failed: one
/// that is logged leaves the observer where a success leaves it; one that is
/// reported ends the reset with the error of that call, and the device stays
/// in use; the one that is fatal ends the activation at once.
pub proof fn lemma_failures_follow_policy(
    observer: ObserverView,
    source: KernelError,
    dev: Option<&AtomicDrmDevice>,
    backends: Seq<SlotView>,
)
    requires
        observer.pending !is Idle,
    ensures
        ({
            let operation = spec_operation(observer.pending)->0;
            let next = spec_resume(observer, Reply::Failed(source), dev, backends);
            match spec_failure_policy(operation) {
                Policy::LogAndContinue(_) => next == spec_resume(
                    observer,
                    Reply::Done,
                    dev,
                    backends,
                ),
                Policy::Report => next == keeping(
                    backends,
                    finish(
                        observer,
                        OutcomeView::Activated {
                            reset: Err(spec_access_error(operation, observer.dev_id, source)),
                        },
                    ),
                ),
                Policy::Fatal => next == keeping(
                    backends,
                    finish(observer, OutcomeView::DescriptorLost { source }),
                ),
                Policy::Abort => false,
            }
        }),
{
}

/// An activation of this device that brings a replacement descriptor first
/// asks for the connection to the device to be duplicated onto that
/// descriptor, and touches nothing before the reply.
pub proof fn lemma_replacement_descriptor_is_filled_first(
    observer: ObserverView,
    major: u32,
    minor: u32,
    onto: i32,
    dev: &AtomicDrmDevice,
    backends: Seq<SlotView>,
)
    requires
        spec_identifies(observer.dev_id, major, minor),
    ensures
        spec_signal(
            observer,
            Signal::ActivateDevice { major, minor, new_fd: Some(onto) },
            Some(dev),
            backends,
        ) == (Advance {
            observer: ObserverView { pending: Pending::DescriptorDuplication, ..observer },
            step: StepView::Call(RequestView::DuplicateDescriptor { from: dev.fd, onto }),
        }),
{
}

/// Until the next place at or after `from` whose surface is still there, no
/// place has a surface.
pub proof fn lemma_next_live(slots: Seq<SlotView>, from: int)
    requires
        0 <= from,
    ensures
        match spec_next_live(slots, from) {
            Some(i) => from <= i < slots.len() && slots[i].live() && forall|j: int|
                from <= j < i ==> !slots[j].live(),
            None => forall|j: int| from <= j < slots.len() ==> !slots[j].live(),
        },
    decreases slots.len() - from,
{
    if from < slots.len() && !slots[from].live() {
        lemma_next_live(slots, from + 1);
    }
}

/// What comes of a signal once the kernel has answered: the calls that were
/// asked for, in order, and where the observer and the surfaces stand.
pub struct Run {
    pub requests: Seq<RequestView>,
    pub end: Transition,
}

/// What comes of it when, from `start` on, the kernel answers each call that
/// is asked for with the next of `replies`, until the signal is dealt with
/// or the replies run out.
pub open spec fn spec_run(start: Transition, dev: Option<&AtomicDrmDevice>, replies: Seq<Reply>) -> Run
    decreases replies.len(),
{
    match start.step {
        StepView::Done(_) => Run { requests: Seq::empty(), end: start },
        StepView::Call(request) => if replies.len() == 0 {
            Run { requests: seq![request], end: start }
        } else {
            let rest = spec_run(
                spec_resume(start.observer, replies[0], dev, start.backends),
                dev,
                replies.drop_first(),
            );
            Run { requests: seq![request] + rest.requests, end: rest.end }
        },
    }
}

/// The calls that clear the cursor plane of every surface that is still
/// there, from the place `from` on, in the order of the places.
pub open spec fn spec_cursor_clears(backends: Seq<SlotView>, from: int) -> Seq<RequestView>
    decreases backends.len() - from,
{
    if from < 0 || from >= backends.len() {
        Seq::empty()
    } else if backends[from].live() {
        seq![
            RequestView::ClearPlane {
                crtc: backends[from].crtc,
                plane: backends[from].surface->0.planes.cursor,
            },
        ] + spec_cursor_clears(backends, from + 1)
    } else {
        spec_cursor_clears(backends, from + 1)
    }
}

/// The calls of a whole pause: every cursor plane is cleared, then exclusive
/// control is given up if it is held and the device is there.
pub open spec fn spec_pause_requests(observer: ObserverView, device: bool, backends: Seq<SlotView>) -> Seq<
    RequestView,
> {
    spec_cursor_clears(backends, 0) + (if observer.privileged && device {
        seq![RequestView::ReleaseMasterLock]
    } else {
        Seq::empty()
    })
}

/// The calls that describe anew the mode of every surface that is still
/// there, from the place `from` on, in the order of the places.
pub open spec fn spec_regenerations(backends: Seq<SlotView>, from: int) -> Seq<RequestView>
    decreases backends.len() - from,
{
    if from < 0 || from >= backends.len() {
        Seq::empty()
    } else if backends[from].live() {
        seq![
            RequestView::UseMode {
                crtc: backends[from].crtc,
                mode: backends[from].surface->0.pending.mode,
            },
        ] + spec_regenerations(backends, from + 1)
    } else {
        spec_regenerations(backends, from + 1)
    }
}

/// Whether the reset has left the surfaces as it should: the registry has
/// the places it had, the same surfaces are still there, and each of them
/// from the place `from` on has an invalidated last known configuration and
/// an empty cursor state, and is asked for the mode it was asked for before.
pub open spec fn spec_reset_done(before: Seq<SlotView>, after: Seq<SlotView>, from: int) -> bool {
    &&& after.len() == before.len()
    &&& forall|j: int| 0 <= j < from && j < before.len() ==> after[j] == before[j]
    &&& forall|j: int|
        from <= j < before.len() ==> {
            &&& (#[trigger] after[j]).crtc == before[j].crtc
            &&& after[j].live() == before[j].live()
            &&& after[j].live() ==> {
                &&& after[j].surface->0.current.invalidated()
                &&& after[j].surface->0.cursor == CursorState::spec_empty()
                &&& after[j].surface->0.pending.mode == before[j].surface->0.pending.mode
                &&& after[j].surface->0.pending.connectors
                    == before[j].surface->0.pending.connectors
                &&& after[j].surface->0.planes == before[j].surface->0.planes
            }
        }
}

proof fn lemma_cursor_clears_skip(backends: Seq<SlotView>, from: int)
    requires
        0 <= from,
    ensures
        match spec_next_live(backends, from) {
            Some(i) => spec_cursor_clears(backends, from) == seq![
                RequestView::ClearPlane {
                    crtc: backends[i].crtc,
                    plane: backends[i].surface->0.planes.cursor,
                },
            ] + spec_cursor_clears(backends, i + 1),
            None => spec_cursor_clears(backends, from) == Seq::<RequestView>::empty(),
        },
    decreases backends.len() - from,
{
    if from < backends.len() && !backends[from].live() {
        lemma_cursor_clears_skip(backends, from + 1);
    }
}

proof fn lemma_regenerations_skip(backends: Seq<SlotView>, from: int)
    requires
        0 <= from,
    ensures
        match spec_next_live(backends, from) {
            Some(i) => spec_regenerations(backends, from) == seq![
                RequestView::UseMode {
                    crtc: backends[i].crtc,
                    mode: backends[i].surface->0.pending.mode,
                },
            ] + spec_regenerations(backends, i + 1),
            None => spec_regenerations(backends, from) == Seq::<RequestView>::empty(),
        },
    decreases backends.len() - from,
{
    if from < backends.len() && !backends[from].live() {
        lemma_regenerations_skip(backends, from + 1);
    }
}

proof fn lemma_regenerations_agree(one: Seq<SlotView>, other: Seq<SlotView>, from: int)
    requires
        0 <= from,
        one.len() == other.len(),
        forall|j: int| from <= j < one.len() ==> one[j] == other[j],
    ensures
        spec_regenerations(one, from) == spec_regenerations(other, from),
    decreases one.len() - from,
{
    if from < one.len() {
        lemma_regenerations_agree(one, other, from + 1);
    }
}

proof fn lemma_clear_cursors_run(
    observer: ObserverView,
    dev: Option<&AtomicDrmDevice>,
    backends: Seq<SlotView>,
    from: int,
    replies: Seq<Reply>,
)
    requires
        0 <= from,
        backends.len() <= usize::MAX,
        forall|k: int| 0 <= k < replies.len() ==> replies[k] is Failed || replies[k] is Done,
        replies.len() >= spec_cursor_clears(backends, from).len() + 1,
    ensures
        ({
            let run = spec_run(
                keeping(backends, spec_clear_cursors(observer, dev is Some, backends, from)),
                dev,
                replies,
            );
            &&& run.requests == spec_cursor_clears(backends, from) + (if observer.privileged
                && dev is Some {
                seq![RequestView::ReleaseMasterLock]
            } else {
                Seq::empty()
            })
            &&& run.end == keeping(
                backends,
                finish(ObserverView { active: false, ..observer }, OutcomeView::Paused),
            )
        }),
    decreases backends.len() - from,
{
    lemma_next_live(backends, from);
    lemma_cursor_clears_skip(backends, from);
    let start = keeping(backends, spec_clear_cursors(observer, dev is Some, backends, from));
    let run = spec_run(start, dev, replies);
    let tail = if observer.privileged && dev is Some {
        seq![RequestView::ReleaseMasterLock]
    } else {
        Seq::empty()
    };
    match spec_next_live(backends, from) {
        Some(i) => {
            let next = spec_resume(start.observer, replies[0], dev, backends);
            assert(next == keeping(
                backends,
                spec_clear_cursors(start.observer, dev is Some, backends, i + 1),
            ));
            let rest = replies.drop_first();
            assert(spec_cursor_clears(backends, from).len() == 1 + spec_cursor_clears(
                backends,
                i + 1,
            ).len());
            lemma_clear_cursors_run(start.observer, dev, backends, i + 1, rest);
            assert(run.requests =~= spec_cursor_clears(backends, from) + tail);
        },
        None => {
            if observer.privileged && dev is Some {
                let next = spec_resume(start.observer, replies[0], dev, backends);
                assert(next.step is Done);
                assert(spec_run(next, dev, replies.drop_first()).requests
                    =~= Seq::<RequestView>::empty());
                assert(run.requests =~= spec_cursor_clears(backends, from) + tail);
            } else {
                assert(run.requests =~= spec_cursor_clears(backends, from) + tail);
            }
        },
    }
}

/// A pause that is meant for this device clears the cursor plane of every
/// surface that is still there, once each and in the order of the places,
/// whatever the kernel answers to each call; then it gives up exclusive
/// control if this process holds it and the device is there. When it is over
/// the activity flag is down, and no surface has changed.
pub proof fn lemma_pause_visits_every_surface(
    observer: ObserverView,
    signal: Signal,
    dev: Option<&AtomicDrmDevice>,
    backends: Seq<SlotView>,
    replies: Seq<Reply>,
)
    requires
        signal is PauseSession || signal is PauseDevice,
        !foreign(signal, observer.dev_id),
        backends.len() <= usize::MAX,
        forall|k: int| 0 <= k < replies.len() ==> replies[k] is Failed || replies[k] is Done,
        replies.len() >= spec_pause_requests(observer, dev is Some, backends).len(),
    ensures
        ({
            let run = spec_run(
                keeping(backends, spec_signal(observer, signal, dev, backends)),
                dev,
                replies,
            );
            &&& run.requests == spec_pause_requests(observer, dev is Some, backends)
            &&& run.end.step == StepView::Done(OutcomeView::Paused)
            &&& !run.end.observer.active
            &&& run.end.backends == backends
        }),
{
    let start = keeping(backends, spec_signal(observer, signal, dev, backends));
    assert(start == keeping(backends, spec_clear_cursors(observer, dev is Some, backends, 0)));
    if observer.privileged && dev is Some {
        lemma_clear_cursors_run(observer, dev, backends, 0, replies);
    } else {
        // one more reply than calls keeps the induction simple; it is never read
        let padded = replies.push(Reply::Done);
        lemma_clear_cursors_run(observer, dev, backends, 0, padded);
        lemma_run_ignores_spare_reply(start, dev, replies, Reply::Done);
    }
}

proof fn lemma_run_ignores_spare_reply(
    start: Transition,
    dev: Option<&AtomicDrmDevice>,
    replies: Seq<Reply>,
    spare: Reply,
)
    requires
        spec_run(start, dev, replies.push(spare)).requests.len() <= replies.len(),
    ensures
        spec_run(start, dev, replies.push(spare)) == spec_run(start, dev, replies),
    decreases replies.len(),
{
    if start.step is Call {
        if replies.len() > 0 {
            let next = spec_resume(start.observer, replies[0], dev, start.backends);
            assert(replies.push(spare).drop_first() =~= replies.drop_first().push(spare));
            assert(replies.push(spare)[0] == replies[0]);
            lemma_run_ignores_spare_reply(next, dev, replies.drop_first(), spare);
        } else {
            assert(replies.push(spare).drop_first() =~= Seq::<Reply>::empty());
        }
    }
}

proof fn lemma_run_done(start: Transition, dev: Option<&AtomicDrmDevice>, replies: Seq<Reply>)
    requires
        start.step is Done,
    ensures
        spec_run(start, dev, replies) == (Run { requests: Seq::empty(), end: start }),
{
}

proof fn lemma_reset_surfaces_run(
    observer: ObserverView,
    dev: Option<&AtomicDrmDevice>,
    backends: Seq<SlotView>,
    from: int,
    replies: Seq<Reply>,
)
    requires
        0 <= from,
        backends.len() <= usize::MAX,
        observer.active,
    ensures
        ({
            let run = spec_run(spec_reset_surfaces(observer, backends, from), dev, replies);
            run.end.step == StepView::Done(OutcomeView::Activated { reset: Ok(()) }) ==> {
                &&& run.requests == spec_regenerations(backends, from)
                &&& spec_reset_done(backends, run.end.backends, from)
                &&& run.end.observer.active
            }
        }),
    decreases backends.len() - from,
{
    lemma_next_live(backends, from);
    lemma_regenerations_skip(backends, from);
    let start = spec_reset_surfaces(observer, backends, from);
    let run = spec_run(start, dev, replies);
    match spec_next_live(backends, from) {
        Some(i) => {
            if replies.len() > 0 && replies[0] is Blob {
                let invalidated = backends.update(i, backends[i].invalidate());
                assert(start.backends == invalidated);
                let regenerated = spec_regenerated_at(invalidated, i, replies[0]->Blob_0);
                let next = spec_resume(start.observer, replies[0], dev, invalidated);
                assert(next == spec_reset_surfaces(start.observer, regenerated, i + 1));
                lemma_reset_surfaces_run(
                    start.observer,
                    dev,
                    regenerated,
                    i + 1,
                    replies.drop_first(),
                );
                lemma_regenerations_agree(regenerated, backends, i + 1);
                if run.end.step == StepView::Done(OutcomeView::Activated { reset: Ok(()) }) {
                    assert(run.requests =~= spec_regenerations(backends, from));
                    assert(spec_reset_done(backends, run.end.backends, from)) by {
                        assert(spec_reset_done(regenerated, run.end.backends, i + 1));
                        assert forall|j: int| from <= j < backends.len() implies {
                            &&& (#[trigger] run.end.backends[j]).crtc == backends[j].crtc
                            &&& run.end.backends[j].live() == backends[j].live()
                            &&& run.end.backends[j].live() ==> {
                                &&& run.end.backends[j].surface->0.current.invalidated()
                                &&& run.end.backends[j].surface->0.cursor
                                    == CursorState::spec_empty()
                                &&& run.end.backends[j].surface->0.pending.mode
                                    == backends[j].surface->0.pending.mode
                                &&& run.end.backends[j].surface->0.pending.connectors
                                    == backends[j].surface->0.pending.connectors
                                &&& run.end.backends[j].surface->0.planes
                                    == backends[j].surface->0.planes
                            }
                        } by {
                            if j <= i {
                                assert(run.end.backends[j] == regenerated[j]);
                            } else {
                                assert(regenerated[j] == backends[j]);
                            }
                        }
                    }
                }
            } else if replies.len() > 0 {
                lemma_run_done(
                    spec_resume(start.observer, replies[0], dev, start.backends),
                    dev,
                    replies.drop_first(),
                );
            }
        },
        None => {
            assert(run.requests =~= spec_regenerations(backends, from));
        },
    }
}

/// The calls of a whole reset that succeeds, when the kernel lists `handles`:
/// the connectors and CRTCs are asked for, one transaction that may set
/// modes switches all of them off, and then the mode of every surface that
/// is still there is described anew, in the order of the places.
pub open spec fn spec_reset_requests(
    handles: ResourceHandles,
    dev: &AtomicDrmDevice,
    backends: Seq<SlotView>,
) -> Seq<RequestView> {
    seq![
        RequestView::ResourceHandles,
        RequestView::AtomicCommit {
            allow_modeset: true,
            writes: disable_writes(handles, dev.prop_mapping),
        },
    ] + spec_regenerations(backends, 0)
}

/// The outcome of an activation whose reset has succeeded.
pub open spec fn reset_succeeded() -> StepView {
    StepView::Done(OutcomeView::Activated { reset: Ok(()) })
}

/// A reset succeeds only on a device that is there, and then it has made
/// exactly the calls of `spec_reset_requests`, in that order: one listing,
/// one transaction, and one new mode description for each surface that is
/// still there. It leaves each of these surfaces with an invalidated last
/// known configuration and an empty cursor state, and the device in use.
pub proof fn lemma_successful_reset(
    observer: ObserverView,
    dev: Option<&AtomicDrmDevice>,
    backends: Seq<SlotView>,
    replies: Seq<Reply>,
)
    requires
        backends.len() <= usize::MAX,
        observer.active,
    ensures
        ({
            let run = spec_run(
                keeping(backends, spec_reset_state(observer, dev is Some)),
                dev,
                replies,
            );
            run.end.step == reset_succeeded() ==> {
                &&& dev is Some
                &&& replies.len() >= 2
                &&& replies[0] is Handles
                &&& replies[1] is Done
                &&& run.requests == spec_reset_requests(replies[0]->Handles_0, dev->0, backends)
                &&& spec_reset_done(backends, run.end.backends, 0)
                &&& run.end.observer.active
            }
        }),
{
    let start = keeping(backends, spec_reset_state(observer, dev is Some));
    let run = spec_run(start, dev, replies);
    if dev is None {
        lemma_run_done(start, dev, replies);
    } else if replies.len() > 0 && replies[0] is Handles {
        let listed = spec_resume(start.observer, replies[0], dev, backends);
        let rest = replies.drop_first();
        assert(run.requests == seq![RequestView::ResourceHandles] + spec_run(
            listed,
            dev,
            rest,
        ).requests);
        if rest.len() > 0 && rest[0] is Done {
            let committed = spec_resume(listed.observer, rest[0], dev, backends);
            assert(committed == spec_reset_surfaces(listed.observer, backends, 0));
            lemma_reset_surfaces_run(listed.observer, dev, backends, 0, rest.drop_first());
            if run.end.step == reset_succeeded() {
                assert(run.requests =~= spec_reset_requests(
                    replies[0]->Handles_0,
                    dev->0,
                    backends,
                ));
            }
        } else if rest.len() > 0 {
            lemma_run_done(
                spec_resume(listed.observer, rest[0], dev, backends),
                dev,
                rest.drop_first(),
            );
        }
    } else if replies.len() > 0 {
        lemma_run_done(
            spec_resume(start.observer, replies[0], dev, backends),
            dev,
            replies.drop_first(),
        );
    }
}

/// The calls of a whole activation of this device, from the point where
/// exclusive control is taken again, when the reset succeeds: exclusive
/// control is asked for if this process holds it, and then the reset is
/// made.
pub open spec fn spec_activation_requests(
    observer: ObserverView,
    handles: ResourceHandles,
    dev: &AtomicDrmDevice,
    backends: Seq<SlotView>,
) -> Seq<RequestView> {
    (if observer.privileged {
        seq![RequestView::AcquireMasterLock]
    } else {
        Seq::empty()
    }) + spec_reset_requests(handles, dev, backends)
}

/// What `lemma_successful_activation` says of a run that began at `start`.
pub open spec fn spec_activation_done(
    observer: ObserverView,
    dev: Option<&AtomicDrmDevice>,
    backends: Seq<SlotView>,
    replies: Seq<Reply>,
    run: Run,
) -> bool {
    let first: int = if observer.privileged { 1 } else { 0 };
    run.end.step == reset_succeeded() ==> {
        &&& dev is Some
        &&& replies.len() >= first + 2
        &&& replies[first] is Handles
        &&& run.requests == spec_activation_requests(
            observer,
            replies[first]->Handles_0,
            dev->0,
            backends,
        )
        &&& spec_reset_done(backends, run.end.backends, 0)
        &&& run.end.observer.active
    }
}

proof fn lemma_acquire_run(
    observer: ObserverView,
    dev: Option<&AtomicDrmDevice>,
    backends: Seq<SlotView>,
    replies: Seq<Reply>,
)
    requires
        backends.len() <= usize::MAX,
    ensures
        spec_activation_done(
            observer,
            dev,
            backends,
            replies,
            spec_run(keeping(backends, spec_acquire(observer, dev is Some)), dev, replies),
        ),
{
    let start = keeping(backends, spec_acquire(observer, dev is Some));
    let run = spec_run(start, dev, replies);
    let up = ObserverView { active: true, ..observer };
    if observer.privileged && dev is Some {
        if replies.len() > 0 && (replies[0] is Failed || replies[0] is Done) {
            let taken = spec_resume(start.observer, replies[0], dev, backends);
            assert(taken == keeping(backends, spec_reset_state(up, true)));
            let rest = replies.drop_first();
            lemma_successful_reset(up, dev, backends, rest);
            if run.end.step == reset_succeeded() {
                assert(rest[0] == replies[1]);
                assert(run.requests =~= spec_activation_requests(
                    observer,
                    replies[1]->Handles_0,
                    dev->0,
                    backends,
                ));
            }
        } else if replies.len() > 0 {
            lemma_run_done(
                spec_resume(start.observer, replies[0], dev, backends),
                dev,
                replies.drop_first(),
            );
        }
    } else {
        assert(start == keeping(backends, spec_reset_state(up, dev is Some)));
        lemma_successful_reset(up, dev, backends, replies);
        if run.end.step == reset_succeeded() {
            assert(run.requests =~= spec_activation_requests(
                observer,
                replies[0]->Handles_0,
                dev->0,
                backends,
            ));
        }
    }
}

/// An activation of the session ends with a reset that succeeded only if
/// the device is there, and then it has made exactly the calls of
/// `spec_activation_requests`, whatever the kernel said when exclusive
/// control was asked for. It leaves the device in use and every surface that
/// is still there with an invalidated last known configuration and an empty
/// cursor state.
pub proof fn lemma_successful_activation(
    observer: ObserverView,
    dev: Option<&AtomicDrmDevice>,
    backends: Seq<SlotView>,
    replies: Seq<Reply>,
)
    requires
        backends.len() <= usize::MAX,
    ensures
        spec_activation_done(
            observer,
            dev,
            backends,
            replies,
            spec_run(
                keeping(backends, spec_signal(observer, Signal::ActivateSession, dev, backends)),
                dev,
                replies,
            ),
        ),
{
    lemma_acquire_run(observer, dev, backends, replies);
}

/// Whatever activation is signalled, whether the device is there or gone,
/// and whatever the kernel answers: the reset never counts as succeeded
/// while a surface that is still there keeps its last known configuration.
/// When the outcome says that the reset succeeded, every such surface has no
/// connectors and the mode of zeroes there, and an empty cursor state, and
/// the device is in use.
pub proof fn lemma_reset_success_means_invalidated(
    observer: ObserverView,
    signal: Signal,
    dev: Option<&AtomicDrmDevice>,
    backends: Seq<SlotView>,
    replies: Seq<Reply>,
)
    requires
        signal is ActivateSession || signal is ActivateDevice,
        backends.len() <= usize::MAX,
    ensures
        ({
            let run = spec_run(
                keeping(backends, spec_signal(observer, signal, dev, backends)),
                dev,
                replies,
            );
            run.end.step == reset_succeeded() ==> {
                &&& dev is Some
                &&& spec_reset_done(backends, run.end.backends, 0)
                &&& run.end.observer.active
            }
        }),
{
    let start = keeping(backends, spec_signal(observer, signal, dev, backends));
    match signal {
        Signal::ActivateDevice { major, minor, new_fd } => {
            if !spec_identifies(observer.dev_id, major, minor) {
                lemma_run_done(start, dev, replies);
            } else if new_fd is Some && dev is Some {
                if replies.len() > 0 {
                    let next = spec_resume(start.observer, replies[0], dev, backends);
                    if replies[0] is Done {
                        assert(next == keeping(backends, spec_acquire(start.observer, true)));
                        lemma_acquire_run(start.observer, dev, backends, replies.drop_first());
                    } else {
                        lemma_run_done(next, dev, replies.drop_first());
                    }
                }
            } else {
                lemma_acquire_run(observer, dev, backends, replies);
            }
        },
        _ => {
            lemma_acquire_run(observer, dev, backends, replies);
        },
    }
}

proof fn lemma_reset_surfaces_succeeds(
    observer: ObserverView,
    dev: Option<&AtomicDrmDevice>,
    backends: Seq<SlotView>,
    from: int,
    replies: Seq<Reply>,
)
    requires
        0 <= from,
        backends.len() <= usize::MAX,
        forall|k: int| 0 <= k < replies.len() ==> replies[k] is Blob,
        replies.len() == spec_regenerations(backends, from).len(),
    ensures
        spec_run(spec_reset_surfaces(observer, backends, from), dev, replies).end.step
            == reset_succeeded(),
    decreases backends.len() - from,
{
    lemma_next_live(backends, from);
    lemma_regenerations_skip(backends, from);
    let start = spec_reset_surfaces(observer, backends, from);
    match spec_next_live(backends, from) {
        Some(i) => {
            assert(replies.len() >= 1);
            let invalidated = backends.update(i, backends[i].invalidate());
            let regenerated = spec_regenerated_at(invalidated, i, replies[0]->Blob_0);
            let next = spec_resume(start.observer, replies[0], dev, invalidated);
            assert(next == spec_reset_surfaces(start.observer, regenerated, i + 1));
            lemma_regenerations_agree(regenerated, backends, i + 1);
            lemma_reset_surfaces_succeeds(
                start.observer,
                dev,
                regenerated,
                i + 1,
                replies.drop_first(),
            );
        },
        None => {},
    }
}

/// An activation of the session in which every call of the reset succeeds
/// does end with a reset that succeeded, whatever the kernel said when
/// exclusive control was asked for: the device is there, the listing and the
/// transaction are answered, and the mode of every surface that is still
/// there is described. With `lemma_successful_activation` this gives the
/// calls that were made and the state that is left.
pub proof fn lemma_activation_succeeds_when_every_call_does(
    observer: ObserverView,
    dev: &AtomicDrmDevice,
    backends: Seq<SlotView>,
    replies: Seq<Reply>,
)
    requires
        backends.len() <= usize::MAX,
        ({
            let first: int = if observer.privileged { 1 } else { 0 };
            &&& replies.len() == first + 2 + spec_regenerations(backends, 0).len()
            &&& observer.privileged ==> replies[0] is Done || replies[0] is Failed
            &&& replies[first] is Handles
            &&& replies[first + 1] is Done
            &&& forall|k: int| first + 2 <= k < replies.len() ==> replies[k] is Blob
        }),
    ensures
        ({
            let run = spec_run(
                keeping(
                    backends,
                    spec_signal(observer, Signal::ActivateSession, Some(dev), backends),
                ),
                Some(dev),
                replies,
            );
            &&& run.end.step == reset_succeeded()
            &&& spec_activation_done(observer, Some(dev), backends, replies, run)
        }),
{
    let start = keeping(
        backends,
        spec_signal(observer, Signal::ActivateSession, Some(dev), backends),
    );
    let up = ObserverView { active: true, ..observer };
    let from_listing = if observer.privileged {
        let taken = spec_resume(start.observer, replies[0], Some(dev), backends);
        assert(taken == keeping(backends, spec_reset_state(up, true)));
        replies.drop_first()
    } else {
        assert(start == keeping(backends, spec_reset_state(up, true)));
        replies
    };
    let asked = keeping(backends, spec_reset_state(up, true));
    let listed = spec_resume(asked.observer, from_listing[0], Some(dev), backends);
    let from_commit = from_listing.drop_first();
    let committed = spec_resume(listed.observer, from_commit[0], Some(dev), backends);
    assert(committed == spec_reset_surfaces(listed.observer, backends, 0));
    let descriptions = from_commit.drop_first();
    lemma_reset_surfaces_succeeds(listed.observer, Some(dev), backends, 0, descriptions);
    assert(spec_run(listed, Some(dev), from_commit).end == spec_run(
        committed,
        Some(dev),
        descriptions,
    ).end);
    assert(spec_run(asked, Some(dev), from_listing).end == spec_run(
        listed,
        Some(dev),
        from_commit,
    ).end);
    lemma_successful_activation(observer, Some(dev), backends, replies);
}

/// The number of transactions among the calls.
pub open spec fn spec_commits(requests: Seq<RequestView>) -> nat
    decreases requests.len(),
{
    if requests.len() == 0 {
        0
    } else {
        spec_commits(requests.drop_first()) + (if requests[0] is AtomicCommit {
            1nat
        } else {
            0nat
        })
    }
}

proof fn lemma_commits_after(request: RequestView, rest: Seq<RequestView>)
    ensures
        spec_commits(seq![request] + rest) == spec_commits(rest) + (if request is AtomicCommit {
            1nat
        } else {
            0nat
        }),
{
    assert((seq![request] + rest).drop_first() =~= rest);
}

proof fn lemma_reset_surfaces_never_commit(
    observer: ObserverView,
    dev: Option<&AtomicDrmDevice>,
    backends: Seq<SlotView>,
    from: int,
    replies: Seq<Reply>,
)
    requires
        0 <= from,
        backends.len() <= usize::MAX,
    ensures
        spec_commits(
            spec_run(spec_reset_surfaces(observer, backends, from), dev, replies).requests,
        ) == 0,
    decreases backends.len() - from,
{
    lemma_next_live(backends, from);
    let start = spec_reset_surfaces(observer, backends, from);
    match spec_next_live(backends, from) {
        Some(i) => {
            let asked = RequestView::UseMode {
                crtc: backends[i].crtc,
                mode: backends[i].surface->0.pending.mode,
            };
            if replies.len() > 0 {
                let next = spec_resume(start.observer, replies[0], dev, start.backends);
                if replies[0] is Blob {
                    let regenerated = spec_regenerated_at(
                        start.backends,
                        i,
                        replies[0]->Blob_0,
                    );
                    assert(next == spec_reset_surfaces(start.observer, regenerated, i + 1));
                    lemma_reset_surfaces_never_commit(
                        start.observer,
                        dev,
                        regenerated,
                        i + 1,
                        replies.drop_first(),
                    );
                } else {
                    lemma_run_done(next, dev, replies.drop_first());
                }
                lemma_commits_after(asked, spec_run(next, dev, replies.drop_first()).requests);
            } else {
                lemma_commits_after(asked, Seq::empty());
                assert(seq![asked] + Seq::<RequestView>::empty() =~= seq![asked]);
            }
        },
        None => {},
    }
}

/// Whether the kernel answered so that the reset got as far as its
/// transaction: the device is there, exclusive control, if it was asked
/// for, was answered, and the listing gave the connectors and CRTCs.
pub open spec fn spec_listing_answered(
    observer: ObserverView,
    dev: Option<&AtomicDrmDevice>,
    replies: Seq<Reply>,
) -> bool {
    let first: int = if observer.privileged { 1 } else { 0 };
    &&& dev is Some
    &&& replies.len() > first
    &&& observer.privileged ==> replies[0] is Done || replies[0] is Failed
    &&& replies[first] is Handles
}

/// An activation of the session asks for one transaction or none, never
/// more: one once the listing is answered, whatever the kernel says to the
/// transaction and to the mode descriptions after it, and none before.
pub proof fn lemma_activation_commits_once(
    observer: ObserverView,
    dev: Option<&AtomicDrmDevice>,
    backends: Seq<SlotView>,
    replies: Seq<Reply>,
)
    requires
        backends.len() <= usize::MAX,
    ensures
        spec_commits(
            spec_run(
                keeping(backends, spec_signal(observer, Signal::ActivateSession, dev, backends)),
                dev,
                replies,
            ).requests,
        ) == (if spec_listing_answered(observer, dev, replies) {
            1nat
        } else {
            0nat
        }),
{
    let start = keeping(backends, spec_signal(observer, Signal::ActivateSession, dev, backends));
    let up = ObserverView { active: true, ..observer };
    if observer.privileged && dev is Some {
        if replies.len() > 0 {
            let taken = spec_resume(start.observer, replies[0], dev, backends);
            let rest = replies.drop_first();
            if replies[0] is Failed || replies[0] is Done {
                assert(taken == keeping(backends, spec_reset_state(up, true)));
                lemma_reset_commits_once(up, dev, backends, rest);
                if rest.len() > 0 {
                    assert(rest[0] == replies[1]);
                }
            } else {
                lemma_run_done(taken, dev, rest);
            }
            lemma_commits_after(
                RequestView::AcquireMasterLock,
                spec_run(taken, dev, rest).requests,
            );
        } else {
            lemma_commits_after(RequestView::AcquireMasterLock, Seq::empty());
            assert(seq![RequestView::AcquireMasterLock] + Seq::<RequestView>::empty() =~= seq![
                RequestView::AcquireMasterLock,
            ]);
        }
    } else {
        assert(start == keeping(backends, spec_reset_state(up, dev is Some)));
        lemma_reset_commits_once(up, dev, backends, replies);
    }
}

proof fn lemma_reset_commits_once(
    observer: ObserverView,
    dev: Option<&AtomicDrmDevice>,
    backends: Seq<SlotView>,
    replies: Seq<Reply>,
)
    requires
        backends.len() <= usize::MAX,
        observer.active,
    ensures
        spec_commits(
            spec_run(keeping(backends, spec_reset_state(observer, dev is Some)), dev, replies).requests,
        ) == (if dev is Some && replies.len() > 0 && replies[0] is Handles {
            1nat
        } else {
            0nat
        }),
{
    let start = keeping(backends, spec_reset_state(observer, dev is Some));
    if dev is None {
        lemma_run_done(start, dev, replies);
    } else if replies.len() == 0 {
        lemma_commits_after(RequestView::ResourceHandles, Seq::empty());
        assert(seq![RequestView::ResourceHandles] + Seq::<RequestView>::empty() =~= seq![
            RequestView::ResourceHandles,
        ]);
    } else {
        let listed = spec_resume(start.observer, replies[0], dev, backends);
        let rest = replies.drop_first();
        if replies[0] is Handles {
            let commit = listed.step->Call_0;
            if rest.len() > 0 {
                let committed = spec_resume(listed.observer, rest[0], dev, backends);
                if rest[0] is Done {
                    assert(committed == spec_reset_surfaces(listed.observer, backends, 0));
                    lemma_reset_surfaces_never_commit(
                        listed.observer,
                        dev,
                        backends,
                        0,
                        rest.drop_first(),
                    );
                } else {
                    lemma_run_done(committed, dev, rest.drop_first());
                }
                lemma_commits_after(commit, spec_run(committed, dev, rest.drop_first()).requests);
            } else {
                lemma_commits_after(commit, Seq::empty());
                assert(seq![commit] + Seq::<RequestView>::empty() =~= seq![commit]);
            }
        } else {
            lemma_run_done(listed, dev, rest);
        }
        lemma_commits_after(RequestView::ResourceHandles, spec_run(listed, dev, rest).requests);
    }
}

/// A reply that cannot be the answer to the call that is waited for changes
/// nothing.
pub proof fn lemma_reply_out_of_turn_changes_nothing(
    observer: ObserverView,
    reply: Reply,
    dev: Option<&AtomicDrmDevice>,
    backends: Seq<SlotView>,
)
    requires
        !spec_in_turn(observer.pending, reply, dev is Some),
    ensures
        spec_resume(observer, reply, dev, backends) == out_of_turn(observer, backends),
{
}

} // verus!
