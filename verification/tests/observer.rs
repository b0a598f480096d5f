use drm::control::atomic::AtomicModeReq;
use drm_atomic_session::device::AtomicDrmDevice;
use drm_atomic_session::error::{Error, KernelError, Operation};
use drm_atomic_session::handle::Handle;
use drm_atomic_session::property::{PropMapping, PropTable, ResourceHandles};
use drm_atomic_session::protocol::{Outcome, Pending, Reply, Request, Step};
use drm_atomic_session::registry::SurfaceRegistry;
use drm_atomic_session::request::disable_request;
use drm_atomic_session::session::AtomicDrmDeviceObserver;
use drm_atomic_session::signal::Signal;
use drm_atomic_session::surface::{CursorState, Mode, Planes, State, Surface};

const CARD0: u64 = 0xe200; // 226:0

fn obj(raw: u32) -> Handle {
    Handle::new(raw).unwrap()
}

fn mode(width: u16, height: u16) -> Mode {
    Mode {
        clock: 100_000,
        hdisplay: width,
        hsync_start: width + 10,
        hsync_end: width + 20,
        htotal: width + 30,
        hskew: 0,
        vdisplay: height,
        vsync_start: height + 1,
        vsync_end: height + 2,
        vtotal: height + 3,
        vscan: 0,
        vrefresh: 60,
        flags: 0,
        kind: 0,
    }
}

fn surface(connector: u32, cursor_plane: u32, width: u16) -> Surface {
    Surface {
        pending: State { mode: mode(width, 600), blob: 7, connectors: vec![obj(connector)] },
        current: State { mode: mode(width, 600), blob: 7, connectors: vec![obj(connector)] },
        cursor: CursorState {
            position: Some((3, 4)),
            hotspot: (1, 1),
            framebuffer: Some(obj(500)),
        },
        planes: Planes { primary: obj(cursor_plane + 100), cursor: obj(cursor_plane) },
    }
}

fn device(privileged: bool, active: bool) -> AtomicDrmDevice {
    let mut connectors = PropTable::new();
    connectors.insert(obj(31), "CRTC_ID", obj(20));
    connectors.insert(obj(32), "CRTC_ID", obj(20));
    let mut crtcs = PropTable::new();
    for raw in [41, 42, 43] {
        crtcs.insert(obj(raw), "ACTIVE", obj(22));
        crtcs.insert(obj(raw), "MODE_ID", obj(23));
    }
    AtomicDrmDevice {
        fd: 9,
        dev_id: CARD0,
        privileged,
        active,
        prop_mapping: PropMapping { connectors, crtcs },
    }
}

/// Three places: two surfaces with one that was torn down between them.
fn three_places() -> SurfaceRegistry {
    let mut registry = SurfaceRegistry::new();
    registry.insert(obj(41), Some(surface(31, 51, 800)));
    registry.insert(obj(42), None);
    registry.insert(obj(43), Some(surface(32, 53, 1024)));
    registry
}

fn listing() -> ResourceHandles {
    ResourceHandles::new(vec![obj(31), obj(32)], vec![obj(41), obj(42), obj(43)]).unwrap()
}

fn refused(errno: i32) -> Reply {
    Reply::Failed(KernelError { errno })
}

fn expect_call(step: Step) -> Request {
    match step {
        Step::Call(request) => request,
        Step::Done(outcome) => panic!("expected a call, got {:?}", outcome),
    }
}

fn expect_done(step: Step) -> Outcome {
    match step {
        Step::Done(outcome) => outcome,
        Step::Call(request) => panic!("expected the end, got {:?}", request),
    }
}

fn cleared(request: &Request) -> (u32, u32) {
    match request {
        Request::ClearPlane { crtc, plane } => (crtc.raw(), plane.raw()),
        other => panic!("expected a plane to be cleared, got {:?}", other),
    }
}

fn regenerated(request: &Request) -> (u32, Mode) {
    match request {
        Request::UseMode { crtc, mode } => (crtc.raw(), *mode),
        other => panic!("expected a mode to be described, got {:?}", other),
    }
}

fn submitted(request: Request) -> (bool, AtomicModeReq) {
    match request {
        Request::AtomicCommit { allow_modeset, request } => (allow_modeset, request),
        other => panic!("expected a transaction, got {:?}", other),
    }
}

#[test]
fn link_copies_identity_privilege_and_flag() {
    let observer: AtomicDrmDeviceObserver = device(true, true).link();
    assert_eq!(observer.dev_id(), CARD0);
    assert!(observer.is_privileged());
    assert!(observer.is_active());
    assert_eq!(observer.pending(), Pending::Idle);
    let observer = device(false, false).link();
    assert!(!observer.is_privileged());
    assert!(!observer.is_active());
}

#[test]
fn pause_of_another_device_changes_nothing() {
    let dev = device(true, true);
    let registry = three_places();
    let mut observer = dev.link();
    let step = observer.signal(Signal::PauseDevice { major: 226, minor: 1 }, Some(&dev), &registry);
    assert_eq!(expect_done(step), Outcome::Ignored);
    assert!(observer.is_active());
    assert_eq!(observer.pending(), Pending::Idle);
    assert_eq!(registry.surface_at(0).unwrap().cursor.position, Some((3, 4)));
    assert_eq!(registry.surface_at(2).unwrap().cursor.framebuffer, Some(obj(500)));
}

#[test]
fn activate_of_another_device_changes_nothing() {
    let dev = device(true, false);
    let registry = three_places();
    let mut observer = dev.link();
    let step = observer.signal(
        Signal::ActivateDevice { major: 225, minor: 0, new_fd: Some(12) },
        Some(&dev),
        &registry,
    );
    assert_eq!(expect_done(step), Outcome::Ignored);
    assert!(!observer.is_active());
    assert_eq!(observer.pending(), Pending::Idle);
}

#[test]
fn foreign_signal_while_waiting_keeps_waiting() {
    let dev = device(true, true);
    let registry = three_places();
    let mut observer = dev.link();
    let _ = observer.signal(Signal::PauseSession, Some(&dev), &registry);
    assert_eq!(observer.pending(), Pending::CursorClear { slot: 0 });
    let step = observer.signal(Signal::PauseDevice { major: 1, minor: 1 }, Some(&dev), &registry);
    assert_eq!(expect_done(step), Outcome::Ignored);
    assert_eq!(observer.pending(), Pending::CursorClear { slot: 0 });
}

#[test]
fn pause_clears_each_cursor_then_releases() {
    let dev = device(true, true);
    let mut registry = three_places();
    let mut observer = dev.link();

    let first = expect_call(observer.signal(Signal::PauseSession, Some(&dev), &registry));
    assert_eq!(cleared(&first), (41, 51));
    assert!(observer.is_active());

    let second = expect_call(observer.resume(Reply::Done, Some(&dev), &mut registry));
    assert_eq!(cleared(&second), (43, 53));
    assert!(observer.is_active());

    let third = expect_call(observer.resume(Reply::Done, Some(&dev), &mut registry));
    assert!(matches!(third, Request::ReleaseMasterLock));
    assert!(!observer.is_active());
    assert_eq!(observer.pending(), Pending::ReleaseControl);

    let end = expect_done(observer.resume(Reply::Done, Some(&dev), &mut registry));
    assert_eq!(end, Outcome::Paused);
    assert!(!observer.is_active());
    assert_eq!(observer.pending(), Pending::Idle);
}

#[test]
fn pause_goes_on_after_a_cursor_that_cannot_be_cleared() {
    let dev = device(true, true);
    let mut registry = SurfaceRegistry::new();
    for k in 0..5u32 {
        registry.insert(obj(41 + k), Some(surface(31, 51 + k, 800)));
    }
    for failing in 0..5usize {
        let mut observer = dev.link();
        let mut seen = Vec::new();
        let mut step = observer.signal(Signal::PauseDevice { major: 226, minor: 0 }, Some(&dev), &registry);
        let mut asked = 0usize;
        loop {
            match step {
                Step::Call(Request::ClearPlane { crtc, plane }) => {
                    seen.push((crtc.raw(), plane.raw()));
                    let reply = if asked == failing { refused(16) } else { Reply::Done };
                    asked += 1;
                    step = observer.resume(reply, Some(&dev), &mut registry);
                }
                Step::Call(Request::ReleaseMasterLock) => {
                    step = observer.resume(Reply::Done, Some(&dev), &mut registry);
                }
                Step::Call(other) => panic!("unexpected call {:?}", other),
                Step::Done(outcome) => {
                    assert_eq!(outcome, Outcome::Paused);
                    break;
                }
            }
        }
        assert_eq!(seen, vec![(41, 51), (42, 52), (43, 53), (44, 54), (45, 55)]);
        assert!(!observer.is_active());
    }
}

#[test]
fn pause_absorbs_failure_to_release() {
    let dev = device(true, true);
    let mut registry = SurfaceRegistry::new();
    let mut observer = dev.link();
    let only = expect_call(observer.signal(Signal::PauseSession, Some(&dev), &registry));
    assert!(matches!(only, Request::ReleaseMasterLock));
    assert!(!observer.is_active());
    let end = expect_done(observer.resume(refused(1), Some(&dev), &mut registry));
    assert_eq!(end, Outcome::Paused);
    assert!(!observer.is_active());
}

#[test]
fn pause_without_privilege_never_releases() {
    let dev = device(false, true);
    let mut registry = three_places();
    let mut observer = dev.link();
    let _ = expect_call(observer.signal(Signal::PauseSession, Some(&dev), &registry));
    let _ = expect_call(observer.resume(refused(5), Some(&dev), &mut registry));
    let end = expect_done(observer.resume(refused(5), Some(&dev), &mut registry));
    assert_eq!(end, Outcome::Paused);
    assert!(!observer.is_active());
}

#[test]
fn pause_without_device_or_surfaces_only_lowers_the_flag() {
    let dev = device(true, true);
    let registry = SurfaceRegistry::new();
    let mut observer = dev.link();
    let end = expect_done(observer.signal(Signal::PauseSession, None, &registry));
    assert_eq!(end, Outcome::Paused);
    assert!(!observer.is_active());
}

#[test]
fn pause_leaves_surfaces_alone() {
    let dev = device(false, true);
    let mut registry = three_places();
    let mut observer = dev.link();
    let mut step = observer.signal(Signal::PauseSession, Some(&dev), &registry);
    while let Step::Call(_) = step {
        step = observer.resume(Reply::Done, Some(&dev), &mut registry);
    }
    assert_eq!(registry.len(), 3);
    let kept = registry.surface_at(0).unwrap();
    assert_eq!(kept.cursor.position, Some((3, 4)));
    assert_eq!(kept.current.connectors, vec![obj(31)]);
    assert_eq!(kept.current.mode, mode(800, 600));
}

#[test]
fn activate_with_replacement_descriptor_duplicates_first() {
    let dev = device(true, false);
    let mut registry = three_places();
    let mut observer = dev.link();
    let first = expect_call(observer.signal(
        Signal::ActivateDevice { major: 226, minor: 0, new_fd: Some(12) },
        Some(&dev),
        &registry,
    ));
    match first {
        Request::DuplicateDescriptor { from, onto } => {
            assert_eq!(from, 9);
            assert_eq!(onto, 12);
        }
        other => panic!("expected a duplication, got {:?}", other),
    }
    assert!(!observer.is_active());
    assert_eq!(observer.pending(), Pending::DescriptorDuplication);

    let second = expect_call(observer.resume(Reply::Done, Some(&dev), &mut registry));
    assert!(matches!(second, Request::AcquireMasterLock));
    assert!(!observer.is_active());
}

#[test]
fn activate_with_lost_descriptor_is_fatal() {
    let dev = device(true, false);
    let mut registry = three_places();
    let mut observer = dev.link();
    let _ = observer.signal(
        Signal::ActivateDevice { major: 226, minor: 0, new_fd: Some(12) },
        Some(&dev),
        &registry,
    );
    let end = expect_done(observer.resume(refused(9), Some(&dev), &mut registry));
    assert_eq!(end, Outcome::DescriptorLost { source: KernelError { errno: 9 } });
    assert!(!observer.is_active());
    assert_eq!(observer.pending(), Pending::Idle);
}

#[test]
fn activate_without_device_duplicates_nothing_and_reports_the_reset() {
    let dev = device(true, false);
    let registry = three_places();
    let mut observer = dev.link();
    let end = expect_done(observer.signal(
        Signal::ActivateDevice { major: 226, minor: 0, new_fd: Some(12) },
        None,
        &registry,
    ));
    // the device is gone: nothing can be listed, so the reset is not done
    assert_eq!(
        end,
        Outcome::Activated {
            reset: Err(Error::Access {
                errmsg: "Error loading drm resources",
                dev: CARD0,
                source: KernelError { errno: 19 }
            })
        }
    );
    assert!(observer.is_active());
    assert_eq!(observer.pending(), Pending::Idle);
    assert_eq!(registry.surface_at(0).unwrap().current.connectors, vec![obj(31)]);
}

#[test]
fn reset_is_never_reported_done_with_a_surface_left_as_it_was() {
    for present in [false, true] {
        let dev = device(false, false);
        let handle = if present { Some(&dev) } else { None };
        let mut registry = three_places();
        let mut observer = dev.link();
        let mut step = observer.signal(Signal::ActivateSession, handle, &registry);
        let mut blob = 0u64;
        loop {
            let reply = match step {
                Step::Done(outcome) => {
                    if outcome == (Outcome::Activated { reset: Ok(()) }) {
                        for place in [0usize, 2] {
                            let surface = registry.surface_at(place).unwrap();
                            assert!(surface.current.connectors.is_empty());
                            assert_eq!(surface.current.mode, Mode::zeroed());
                        }
                        assert!(present);
                    } else {
                        assert!(!present);
                    }
                    break;
                }
                Step::Call(Request::ResourceHandles) => Reply::Handles(listing()),
                Step::Call(Request::UseMode { .. }) => {
                    blob += 1;
                    Reply::Blob(blob)
                }
                Step::Call(_) => Reply::Done,
            };
            step = observer.resume(reply, handle, &mut registry);
        }
        assert!(observer.is_active());
    }
}

#[test]
fn activate_goes_on_when_control_is_refused() {
    let dev = device(true, false);
    let mut registry = three_places();
    let mut observer = dev.link();
    let first = expect_call(observer.signal(Signal::ActivateSession, Some(&dev), &registry));
    assert!(matches!(first, Request::AcquireMasterLock));
    assert!(!observer.is_active());
    let second = expect_call(observer.resume(refused(13), Some(&dev), &mut registry));
    assert!(matches!(second, Request::ResourceHandles));
    assert!(observer.is_active());
}

#[test]
fn reset_reports_failed_listing() {
    let dev = device(false, false);
    let mut registry = three_places();
    let mut observer = dev.link();
    let first = expect_call(observer.signal(Signal::ActivateSession, Some(&dev), &registry));
    assert!(matches!(first, Request::ResourceHandles));
    let end = expect_done(observer.resume(refused(13), Some(&dev), &mut registry));
    assert_eq!(
        end,
        Outcome::Activated {
            reset: Err(Error::Access {
                errmsg: "Error loading drm resources",
                dev: CARD0,
                source: KernelError { errno: 13 }
            })
        }
    );
    assert!(observer.is_active());
    assert_eq!(registry.surface_at(0).unwrap().current.connectors, vec![obj(31)]);
}

#[test]
fn reset_reports_refused_transaction() {
    let dev = device(false, false);
    let mut registry = three_places();
    let mut observer = dev.link();
    let _ = observer.signal(Signal::ActivateSession, Some(&dev), &registry);
    let commit = expect_call(observer.resume(Reply::Handles(listing()), Some(&dev), &mut registry));
    let (allow_modeset, _) = submitted(commit);
    assert!(allow_modeset);
    let end = expect_done(observer.resume(refused(22), Some(&dev), &mut registry));
    assert_eq!(
        end,
        Outcome::Activated {
            reset: Err(Error::Access {
                errmsg: "Failed to disable connectors",
                dev: CARD0,
                source: KernelError { errno: 22 }
            })
        }
    );
    assert!(observer.is_active());
    // no surface was touched
    assert_eq!(registry.surface_at(0).unwrap().current.connectors, vec![obj(31)]);
    assert_eq!(registry.surface_at(2).unwrap().cursor.position, Some((3, 4)));
}

#[test]
fn reset_submits_the_disable_transaction() {
    let dev = device(false, false);
    let mut registry = three_places();
    let mut observer = dev.link();
    let _ = observer.signal(Signal::ActivateSession, Some(&dev), &registry);
    let commit = expect_call(observer.resume(Reply::Handles(listing()), Some(&dev), &mut registry));
    let (allow_modeset, request) = submitted(commit);
    assert!(allow_modeset);
    let expected = disable_request(&listing(), &dev.prop_mapping);
    assert_eq!(format!("{:?}", request), format!("{:?}", expected));
    assert_ne!(format!("{:?}", request), format!("{:?}", AtomicModeReq::new()));
}

#[test]
fn reset_aborts_at_the_first_mode_that_cannot_be_described() {
    let dev = device(false, false);
    let mut registry = three_places();
    let mut observer = dev.link();
    let _ = observer.signal(Signal::ActivateSession, Some(&dev), &registry);
    let _ = observer.resume(Reply::Handles(listing()), Some(&dev), &mut registry);
    let first = expect_call(observer.resume(Reply::Done, Some(&dev), &mut registry));
    assert_eq!(regenerated(&first), (41, mode(800, 600)));
    let end = expect_done(observer.resume(refused(28), Some(&dev), &mut registry));
    assert_eq!(
        end,
        Outcome::Activated {
            reset: Err(Error::Access {
                errmsg: "Failed to create Property Blob for mode",
                dev: CARD0,
                source: KernelError { errno: 28 }
            })
        }
    );
    assert!(observer.is_active());
    // the first surface was invalidated but its cursor state was not reset
    let first = registry.surface_at(0).unwrap();
    assert!(first.current.connectors.is_empty());
    assert_eq!(first.current.mode, Mode::zeroed());
    assert_eq!(first.cursor.position, Some((3, 4)));
    // the remaining surface was not reached
    let last = registry.surface_at(2).unwrap();
    assert_eq!(last.current.connectors, vec![obj(32)]);
    assert_eq!(last.current.mode, mode(1024, 600));
}

#[test]
fn successful_reset_invalidates_every_surface() {
    let dev = device(false, false);
    let mut registry = three_places();
    let mut observer = dev.link();
    let _ = observer.signal(Signal::ActivateSession, Some(&dev), &registry);
    let _ = observer.resume(Reply::Handles(listing()), Some(&dev), &mut registry);
    let first = expect_call(observer.resume(Reply::Done, Some(&dev), &mut registry));
    assert_eq!(regenerated(&first), (41, mode(800, 600)));
    let second = expect_call(observer.resume(Reply::Blob(101), Some(&dev), &mut registry));
    assert_eq!(regenerated(&second), (43, mode(1024, 600)));
    let end = expect_done(observer.resume(Reply::Blob(102), Some(&dev), &mut registry));
    assert_eq!(end, Outcome::Activated { reset: Ok(()) });
    assert!(observer.is_active());

    for (place, blob, width, connector) in [(0usize, 101u64, 800u16, 31u32), (2, 102, 1024, 32)] {
        let surface = registry.surface_at(place).unwrap();
        assert!(surface.current.connectors.is_empty());
        assert_eq!(surface.current.mode, Mode::zeroed());
        assert_eq!(surface.current.blob, 7);
        assert_eq!(surface.pending.mode, mode(width, 600));
        assert_eq!(surface.pending.blob, blob);
        assert_eq!(surface.pending.connectors, vec![obj(connector)]);
        assert_eq!(surface.cursor, CursorState::empty());
    }
    assert!(registry.surface_at(1).is_none());
}

#[test]
fn pause_then_activate_end_to_end() {
    let dev = device(true, true);
    let mut registry = three_places();
    let mut observer = dev.link();
    let mut flags = vec![observer.is_active()];
    let mut trace: Vec<&'static str> = Vec::new();
    let mut blob = 200u64;

    for signal in [Signal::PauseSession, Signal::ActivateSession] {
        let mut step = observer.signal(signal, Some(&dev), &registry);
        loop {
            if *flags.last().unwrap() != observer.is_active() {
                flags.push(observer.is_active());
                trace.push(if observer.is_active() { "up" } else { "down" });
            }
            let reply = match step {
                Step::Done(_) => break,
                Step::Call(Request::ClearPlane { .. }) => {
                    trace.push("clear");
                    Reply::Done
                }
                Step::Call(Request::ReleaseMasterLock) => {
                    trace.push("release");
                    Reply::Done
                }
                Step::Call(Request::AcquireMasterLock) => {
                    trace.push("acquire");
                    Reply::Done
                }
                Step::Call(Request::ResourceHandles) => {
                    trace.push("list");
                    Reply::Handles(listing())
                }
                Step::Call(Request::AtomicCommit { allow_modeset, .. }) => {
                    assert!(allow_modeset);
                    trace.push("commit");
                    Reply::Done
                }
                Step::Call(Request::UseMode { .. }) => {
                    trace.push("mode");
                    blob += 1;
                    Reply::Blob(blob)
                }
                Step::Call(Request::DuplicateDescriptor { .. }) => panic!("no descriptor given"),
            };
            step = observer.resume(reply, Some(&dev), &mut registry);
        }
    }
    assert_eq!(flags, vec![true, false, true]);
    assert_eq!(
        trace,
        vec![
            "clear", "clear", "down", "release", "acquire", "up", "list", "commit", "mode", "mode"
        ]
    );
}

#[test]
fn reply_out_of_turn_changes_nothing() {
    let dev = device(true, true);
    let mut registry = three_places();
    let mut observer = dev.link();
    assert!(!observer.in_turn(&Reply::Done, true));
    let end = expect_done(observer.resume(Reply::Done, Some(&dev), &mut registry));
    assert_eq!(end, Outcome::OutOfTurn);
    assert!(observer.is_active());

    let _ = observer.signal(Signal::PauseSession, Some(&dev), &registry);
    assert!(observer.in_turn(&Reply::Done, true));
    assert!(observer.in_turn(&refused(1), true));
    assert!(!observer.in_turn(&Reply::Blob(3), true));
    let end = expect_done(observer.resume(Reply::Blob(3), Some(&dev), &mut registry));
    assert_eq!(end, Outcome::OutOfTurn);
    assert_eq!(observer.pending(), Pending::CursorClear { slot: 0 });
    assert_eq!(registry.surface_at(0).unwrap().pending.blob, 7);
}

#[test]
fn listing_without_device_is_out_of_turn() {
    let dev = device(false, false);
    let mut registry = three_places();
    let mut observer = dev.link();
    let _ = observer.signal(Signal::ActivateSession, Some(&dev), &registry);
    assert_eq!(observer.pending(), Pending::ResourceEnumeration);
    assert!(!observer.in_turn(&Reply::Handles(listing()), false));
    let end = expect_done(observer.resume(Reply::Handles(listing()), None, &mut registry));
    assert_eq!(end, Outcome::OutOfTurn);
    assert_eq!(observer.pending(), Pending::ResourceEnumeration);
}

#[test]
fn new_signal_takes_the_place_of_work_in_progress() {
    let dev = device(false, false);
    let mut registry = three_places();
    let mut observer = dev.link();
    let _ = observer.signal(Signal::ActivateSession, Some(&dev), &registry);
    assert!(observer.is_active());
    let first = expect_call(observer.signal(Signal::PauseSession, Some(&dev), &registry));
    assert_eq!(cleared(&first), (41, 51));
    let _ = observer.resume(Reply::Done, Some(&dev), &mut registry);
    let end = expect_done(observer.resume(Reply::Done, Some(&dev), &mut registry));
    assert_eq!(end, Outcome::Paused);
    assert!(!observer.is_active());
}

#[test]
fn surface_torn_down_while_waiting_is_skipped() {
    let dev = device(false, false);
    let mut registry = three_places();
    let mut observer = dev.link();
    let _ = observer.signal(Signal::ActivateSession, Some(&dev), &registry);
    let _ = observer.resume(Reply::Handles(listing()), Some(&dev), &mut registry);
    let _ = expect_call(observer.resume(Reply::Done, Some(&dev), &mut registry));
    registry.insert(obj(41), None);
    let next = expect_call(observer.resume(Reply::Blob(11), Some(&dev), &mut registry));
    assert_eq!(regenerated(&next), (43, mode(1024, 600)));
    assert!(registry.surface_at(0).is_none());
}

#[test]
fn request_names_its_operation() {
    assert_eq!(Request::ReleaseMasterLock.operation(), Operation::ReleaseControl);
    assert_eq!(Request::AcquireMasterLock.operation(), Operation::AcquireControl);
    assert_eq!(Request::ResourceHandles.operation(), Operation::ResourceEnumeration);
    assert_eq!(
        Request::ClearPlane { crtc: obj(1), plane: obj(2) }.operation(),
        Operation::CursorClear
    );
    assert_eq!(
        Request::DuplicateDescriptor { from: 1, onto: 2 }.operation(),
        Operation::DescriptorDuplication
    );
    assert_eq!(
        Request::UseMode { crtc: obj(1), mode: mode(1, 1) }.operation(),
        Operation::ModeRegeneration
    );
    assert_eq!(
        Request::AtomicCommit { allow_modeset: true, request: AtomicModeReq::new() }.operation(),
        Operation::TransactionSubmission
    );
}
