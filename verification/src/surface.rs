//! Surfaces: what one output is asked to show, what it was last known to
//! show, and its cursor.

use crate::error::{access_error, spec_access_error, Error, KernelError, Operation};
use crate::handle::Handle;
use crate::protocol::{Request, RequestView};
use vstd::prelude::*;

verus! {

/// The timing of a display signal.
#[derive(Clone, Copy, PartialEq, Eq, Structural, Debug)]
pub struct Mode {
    pub clock: u32,
    pub hdisplay: u16,
    pub hsync_start: u16,
    pub hsync_end: u16,
    pub htotal: u16,
    pub hskew: u16,
    pub vdisplay: u16,
    pub vsync_start: u16,
    pub vsync_end: u16,
    pub vtotal: u16,
    pub vscan: u16,
    pub vrefresh: u32,
    pub flags: u32,
    pub kind: u32,
}

impl Mode {
    /// The record of zeroes. No display can be driven with it, so it stands
    /// for "no mode known".
    pub open spec fn spec_zeroed() -> Mode {
        Mode {
            clock: 0,
            hdisplay: 0,
            hsync_start: 0,
            hsync_end: 0,
            htotal: 0,
            hskew: 0,
            vdisplay: 0,
            vsync_start: 0,
            vsync_end: 0,
            vtotal: 0,
            vscan: 0,
            vrefresh: 0,
            flags: 0,
            kind: 0,
        }
    }

    /// Whether the mode can drive a display: it has a pixel clock and a
    /// visible area.
    pub open spec fn spec_displays(self) -> bool {
        self.clock > 0 && self.hdisplay > 0 && self.vdisplay > 0
    }

    /// The record of zeroes.
    pub fn zeroed() -> (mode: Mode)
        ensures
            mode == Self::spec_zeroed(),
    {
        Mode {
            clock: 0,
            hdisplay: 0,
            hsync_start: 0,
            hsync_end: 0,
            htotal: 0,
            hskew: 0,
            vdisplay: 0,
            vsync_start: 0,
            vsync_end: 0,
            vtotal: 0,
            vscan: 0,
            vrefresh: 0,
            flags: 0,
            kind: 0,
        }
    }

    /// Tells whether the mode can drive a display.
    pub fn displays(&self) -> (able: bool)
        ensures
            able == self.spec_displays(),
    {
        self.clock > 0 && self.hdisplay > 0 && self.vdisplay > 0
    }
}

/// The configuration of one output: its mode, the kernel's description of
/// that mode, and the connectors that show it. Of the connectors only which
/// ones are listed matters, not how often or in what order.
#[derive(Debug)]
pub struct State {
    pub mode: Mode,
    pub blob: u64,
    pub connectors: Vec<Handle>,
}

/// A configuration as a value: the connectors are a set.
pub struct StateView {
    pub mode: Mode,
    pub blob: u64,
    pub connectors: Set<Handle>,
}

impl StateView {
    /// Whether a client can ask for this configuration: some connector shows
    /// a mode that can drive a display.
    pub open spec fn requestable(self) -> bool {
        self.mode.spec_displays() && self.connectors.len() > 0 && self.connectors.finite()
    }

    /// Whether this is a configuration made to differ from all that a client
    /// can ask for: no connectors and the mode of zeroes.
    pub open spec fn invalidated(self) -> bool {
        self.mode == Mode::spec_zeroed() && self.connectors == Set::<Handle>::empty()
    }

    /// This configuration made to differ from all that a client can ask for.
    pub open spec fn invalidate(self) -> StateView {
        StateView { mode: Mode::spec_zeroed(), blob: self.blob, connectors: Set::empty() }
    }
}

impl View for State {
    type V = StateView;

    open spec fn view(&self) -> StateView {
        StateView { mode: self.mode, blob: self.blob, connectors: self.connectors@.to_set() }
    }
}

impl State {
    /// Makes the configuration differ from all that a client can ask for, so
    /// that the next update cannot be taken for a change of buffers alone.
    pub fn invalidate(&mut self)
        ensures
            final(self)@ == old(self)@.invalidate(),
            final(self)@.invalidated(),
    {
        self.connectors.clear();
        self.mode = Mode::zeroed();
        assert(self.connectors@.to_set() =~= Set::<Handle>::empty());
    }
}

/// Where the cursor is and what it looks like.
#[derive(Clone, Copy, Debug, PartialEq, Eq)]
pub struct CursorState {
    pub position: Option<(u32, u32)>,
    pub hotspot: (u32, u32),
    pub framebuffer: Option<Handle>,
}

impl CursorState {
    /// The state of a cursor that was never set: nowhere, with no image.
    pub open spec fn spec_empty() -> CursorState {
        CursorState { position: None, hotspot: (0, 0), framebuffer: None }
    }

    /// Whether the cursor is on screen: it has an image and a place.
    pub open spec fn spec_shown(self) -> bool {
        self.framebuffer is Some && self.position is Some
    }

    /// The state of a cursor that was never set.
    pub fn empty() -> (state: CursorState)
        ensures
            state == Self::spec_empty(),
    {
        CursorState { position: None, hotspot: (0, 0), framebuffer: None }
    }

    /// Tells whether the cursor is on screen.
    pub fn shown(&self) -> (visible: bool)
        ensures
            visible == self.spec_shown(),
            self.framebuffer is None ==> !visible,
    {
        self.framebuffer.is_some() && self.position.is_some()
    }
}

/// The hardware layers of one output.
#[derive(Clone, Copy, Debug, PartialEq, Eq)]
pub struct Planes {
    pub primary: Handle,
    pub cursor: Handle,
}

/// One output's share of the device.
#[derive(Debug)]
pub struct Surface {
    /// The configuration asked for.
    pub pending: State,
    /// The configuration last known to be in the hardware, or one that was
    /// invalidated.
    pub current: State,
    pub cursor: CursorState,
    pub planes: Planes,
}

/// A surface as a value.
pub struct SurfaceView {
    pub pending: StateView,
    pub current: StateView,
    pub cursor: CursorState,
    pub planes: Planes,
}

impl SurfaceView {
    /// The surface after its mode was made anew as the kernel's `blob`: the
    /// configuration asked for has `mode` and that description.
    pub open spec fn use_mode(self, mode: Mode, blob: u64) -> SurfaceView {
        SurfaceView { pending: StateView { mode, blob, ..self.pending }, ..self }
    }

    /// The surface after its cursor state was replaced.
    pub open spec fn set_cursor_state(self, state: CursorState) -> SurfaceView {
        SurfaceView { cursor: state, ..self }
    }

    /// The surface after its last known configuration was invalidated.
    pub open spec fn invalidate(self) -> SurfaceView {
        SurfaceView { current: self.current.invalidate(), ..self }
    }
}

impl View for Surface {
    type V = SurfaceView;

    open spec fn view(&self) -> SurfaceView {
        SurfaceView {
            pending: self.pending@,
            current: self.current@,
            cursor: self.cursor,
            planes: self.planes,
        }
    }
}

impl Surface {
    /// The call that clears the plane `plane` of this surface, which is bound
    /// to `crtc`. The surface itself keeps no record of what its planes show.
    pub fn clear_plane(&self, crtc: Handle, plane: Handle) -> (request: Request)
        ensures
            request@ == (RequestView::ClearPlane { crtc, plane }),
    {
        Request::ClearPlane { crtc, plane }
    }

    /// Takes the kernel's answer to the request to describe `mode` anew. On
    /// success the configuration asked for has `mode` and the new
    /// description; on failure nothing changes and the failure is reported
    /// for the device numbered `dev`.
    pub fn use_mode(&mut self, mode: Mode, uploaded: Result<u64, KernelError>, dev: u64) -> (done:
        Result<(), Error>)
        ensures
            match uploaded {
                Ok(blob) => done is Ok && final(self)@ == old(self)@.use_mode(mode, blob),
                Err(source) => final(self)@ == old(self)@ && done is Err && done->Err_0@
                    == spec_access_error(Operation::ModeRegeneration, dev, source),
            },
    {
        match uploaded {
            Ok(blob) => {
                self.pending.mode = mode;
                self.pending.blob = blob;
                Ok(())
            },
            Err(source) => Err(access_error(Operation::ModeRegeneration, dev, source)),
        }
    }

    /// Replaces the cursor state as a whole.
    pub fn set_cursor_state(&mut self, state: CursorState)
        ensures
            final(self)@ == old(self)@.set_cursor_state(state),
    {
        self.cursor = state;
    }

    /// Invalidates the last known configuration.
    pub fn invalidate(&mut self)
        ensures
            final(self)@ == old(self)@.invalidate(),
    {
        self.current.invalidate();
    }
}

/// An invalidated configuration differs from every configuration that a
/// client can ask for, so an update that compares the two never finds them
/// equal.
pub proof fn lemma_invalidated_differs(current: StateView, asked: StateView)
    requires
        current.invalidated(),
        asked.requestable(),
    ensures
        current != asked,
{
}

} // verus!
