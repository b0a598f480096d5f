//! The registry of a device's surfaces, by the CRTC each is bound to.

use crate::error::{access_error, spec_access_error, Error, KernelError, Operation};
use crate::handle::Handle;
use crate::surface::{CursorState, Mode, Surface, SurfaceView};
use vstd::prelude::*;

verus! {

/// One place in the registry: the CRTC of an output and the surface bound to
/// it, or nothing if that surface was torn down.
#[derive(Debug)]
pub struct Slot {
    pub crtc: Handle,
    pub surface: Option<Surface>,
}

/// A place in the registry as a value.
pub struct SlotView {
    pub crtc: Handle,
    pub surface: Option<SurfaceView>,
}

impl SlotView {
    /// Whether the surface of this place is still there.
    pub open spec fn live(self) -> bool {
        self.surface is Some
    }

    /// This place after the last known configuration of its surface, if it
    /// has one, was invalidated.
    pub open spec fn invalidate(self) -> SlotView {
        match self.surface {
            Some(surface) => SlotView { crtc: self.crtc, surface: Some(surface.invalidate()) },
            None => self,
        }
    }

    /// This place after its surface, if it has one, took the kernel's new
    /// description `blob` of `mode` and had its cursor state emptied.
    pub open spec fn regenerate(self, mode: Mode, blob: u64) -> SlotView {
        match self.surface {
            Some(surface) => SlotView {
                crtc: self.crtc,
                surface: Some(
                    surface.use_mode(mode, blob).set_cursor_state(CursorState::spec_empty()),
                ),
            },
            None => self,
        }
    }
}

impl View for Slot {
    type V = SlotView;

    open spec fn view(&self) -> SlotView {
        SlotView {
            crtc: self.crtc,
            surface: match self.surface {
                Some(surface) => Some(surface@),
                None => None,
            },
        }
    }
}

/// The first place at or after `from` whose surface is still there.
pub open spec fn spec_next_live(slots: Seq<SlotView>, from: int) -> Option<int>
    decreases slots.len() - from,
{
    if from < 0 || from >= slots.len() {
        None
    } else if slots[from].live() {
        Some(from)
    } else {
        spec_next_live(slots, from + 1)
    }
}

/// Whether no two places are for the same CRTC.
pub open spec fn spec_keys_distinct(slots: Seq<SlotView>) -> bool {
    forall|i: int, j: int| 0 <= i < j < slots.len() ==> slots[i].crtc@ != slots[j].crtc@
}

/// The surfaces of a device. No two places are for the same CRTC. The places
/// are kept in the order in which their CRTCs were first bound, so that work
/// on one surface after another can say how far it has come.
#[derive(Debug)]
pub struct SurfaceRegistry {
    slots: Vec<Slot>,
}

impl View for SurfaceRegistry {
    type V = Seq<SlotView>;

    closed spec fn view(&self) -> Seq<SlotView> {
        views(self.slots@)
    }
}

/// The places as values.
pub open spec fn views(slots: Seq<Slot>) -> Seq<SlotView> {
    Seq::new(slots.len(), |i: int| slots[i]@)
}

proof fn lemma_same_keys(before: Seq<SlotView>, after: Seq<SlotView>)
    requires
        spec_keys_distinct(before),
        after.len() == before.len(),
        forall|j: int| 0 <= j < before.len() ==> after[j].crtc@ == before[j].crtc@,
    ensures
        spec_keys_distinct(after),
{
    assert forall|a: int, b: int| 0 <= a < b < after.len() implies after[a].crtc@
        != after[b].crtc@ by {
        assert(before[a].crtc@ != before[b].crtc@);
    }
}

impl SurfaceRegistry {
    #[verifier::type_invariant]
    spec fn keys_distinct(self) -> bool {
        spec_keys_distinct(self@)
    }

    /// The registry of no surfaces.
    pub fn new() -> (registry: SurfaceRegistry)
        ensures
            registry@ == Seq::<SlotView>::empty(),
    {
        let registry = SurfaceRegistry { slots: Vec::new() };
        assert(registry@ =~= Seq::<SlotView>::empty());
        registry
    }

    /// The number of places.
    pub fn len(&self) -> (n: usize)
        ensures
            n == self@.len(),
            spec_keys_distinct(self@),
    {
        proof {
            use_type_invariant(self);
        }
        self.slots.len()
    }

    /// The place that is for `crtc`, if there is one. There is never a
    /// second.
    pub fn position(&self, crtc: Handle) -> (found: Option<usize>)
        ensures
            match found {
                Some(i) => i < self@.len() && self@[i as int].crtc@ == crtc@ && forall|j: int|
                    0 <= j < self@.len() && self@[j].crtc@ == crtc@ ==> j == i,
                None => forall|j: int| 0 <= j < self@.len() ==> self@[j].crtc@ != crtc@,
            },
    {
        proof {
            use_type_invariant(self);
        }
        let mut i: usize = 0;
        while i < self.slots.len()
            invariant
                i <= self.slots@.len(),
                spec_keys_distinct(self@),
                forall|j: int| 0 <= j < i ==> self@[j].crtc@ != crtc@,
            decreases self.slots@.len() - i,
        {
            if self.slots[i].crtc.raw() == crtc.raw() {
                assert forall|j: int| 0 <= j < self@.len() && self@[j].crtc@ == crtc@ implies j
                    == i by {
                    if j > i {
                        assert(self@[i as int].crtc@ != self@[j].crtc@);
                    }
                }
                return Some(i);
            }
            i = i + 1;
        }
        None
    }

    /// Binds `surface` to `crtc`, in place of what was bound to it before.
    /// `None` records that the surface bound to `crtc` was torn down.
    pub fn insert(&mut self, crtc: Handle, surface: Option<Surface>)
        ensures
            match surface {
                Some(s) => spec_inserted(old(self)@, final(self)@, crtc, Some(s@)),
                None => spec_inserted(old(self)@, final(self)@, crtc, None),
            },
    {
        let found = self.position(crtc);
        proof {
            use_type_invariant(&*self);
        }
        let slot = Slot { crtc, surface };
        let mut slots = self.take();
        match found {
            Some(i) => {
                slots.set(i, slot);
            },
            None => {
                slots.push(slot);
            },
        }
        proof {
            let after = views(slots@);
            match found {
                Some(i) => {
                    assert(after =~= old(self)@.update(i as int, slot@));
                    lemma_same_keys(old(self)@, after);
                },
                None => {
                    assert(after =~= old(self)@.push(slot@));
                    assert forall|a: int, b: int| 0 <= a < b < after.len() implies after[a].crtc@
                        != after[b].crtc@ by {
                        if b < old(self)@.len() {
                            assert(old(self)@[a].crtc@ != old(self)@[b].crtc@);
                        }
                    }
                },
            }
        }
        self.slots = slots;
    }

    /// Takes the places out, so that they can be changed, and leaves none.
    fn take(&mut self) -> (slots: Vec<Slot>)
        ensures
            slots == old(self).slots,
            final(self).slots@.len() == 0,
    {
        let mut slots = Vec::new();
        core::mem::swap(&mut self.slots, &mut slots);
        slots
    }

    /// The CRTC of the place `i`.
    pub fn crtc_at(&self, i: usize) -> (crtc: Handle)
        requires
            i < self@.len(),
        ensures
            crtc == self@[i as int].crtc,
    {
        self.slots[i].crtc
    }

    /// The surface of the place `i`, if it is still there.
    pub fn surface_at(&self, i: usize) -> (surface: Option<&Surface>)
        requires
            i < self@.len(),
        ensures
            surface is Some <==> self@[i as int].live(),
            surface matches Some(s) ==> Some(s@) == self@[i as int].surface,
    {
        self.slots[i].surface.as_ref()
    }

    /// The first place at or after `from` whose surface is still there.
    pub fn next_live(&self, from: usize) -> (found: Option<usize>)
        ensures
            match found {
                Some(i) => spec_next_live(self@, from as int) == Some(i as int) && from <= i
                    < self@.len() && self@[i as int].live(),
                None => spec_next_live(self@, from as int) is None,
            },
    {
        let mut i: usize = from;
        while i < self.slots.len()
            invariant
                from <= i,
                spec_next_live(self@, from as int) == spec_next_live(self@, i as int),
            decreases self.slots@.len() - i,
        {
            if self.slots[i].surface.is_some() {
                return Some(i);
            }
            i = i + 1;
        }
        None
    }

    /// Invalidates the last known configuration of the surface of the place
    /// `i`, if that surface is still there.
    pub fn invalidate_at(&mut self, i: usize)
        requires
            i < old(self)@.len(),
        ensures
            final(self)@ == old(self)@.update(i as int, old(self)@[i as int].invalidate()),
    {
        proof {
            use_type_invariant(&*self);
        }
        let mut slots = self.take();
        let slot = &mut slots[i];
        match &mut slot.surface {
            Some(surface) => {
                surface.invalidate();
            },
            None => {},
        }
        proof {
            assert(views(slots@) =~= old(self)@.update(i as int, old(self)@[i as int].invalidate()));
            lemma_same_keys(old(self)@, views(slots@));
        }
        self.slots = slots;
    }

    /// Hands the kernel's answer to the request to describe `mode` anew to
    /// the surface of the place `i`. If the surface took it, its cursor state
    /// is emptied as well, so that the cursor is set again. Where the surface
    /// is gone nothing changes, and a failure is still reported.
    pub fn use_mode_at(
        &mut self,
        i: usize,
        mode: Mode,
        uploaded: Result<u64, KernelError>,
        dev: u64,
    ) -> (done: Result<(), Error>)
        requires
            i < old(self)@.len(),
        ensures
            match uploaded {
                Ok(blob) => done is Ok && final(self)@ == old(self)@.update(
                    i as int,
                    old(self)@[i as int].regenerate(mode, blob),
                ),
                Err(source) => final(self)@ == old(self)@ && done is Err && done->Err_0@
                    == spec_access_error(Operation::ModeRegeneration, dev, source),
            },
    {
        proof {
            use_type_invariant(&*self);
        }
        let mut slots = self.take();
        let slot = &mut slots[i];
        let done = match &mut slot.surface {
            Some(surface) => {
                let done = surface.use_mode(mode, uploaded, dev);
                if done.is_ok() {
                    surface.set_cursor_state(CursorState::empty());
                }
                done
            },
            None => match uploaded {
                Ok(_) => Ok(()),
                Err(source) => Err(access_error(Operation::ModeRegeneration, dev, source)),
            },
        };
        proof {
            match uploaded {
                Ok(blob) => {
                    assert(views(slots@) =~= old(self)@.update(
                        i as int,
                        old(self)@[i as int].regenerate(mode, blob),
                    ));
                },
                Err(_) => {
                    assert(views(slots@) =~= old(self)@);
                },
            }
            lemma_same_keys(old(self)@, views(slots@));
        }
        self.slots = slots;
        done
    }
}

/// Whether `after` is `before` with `surface` bound to `crtc`: in the place
/// that was for `crtc`, or in a new last place if there was none.
pub open spec fn spec_inserted(
    before: Seq<SlotView>,
    after: Seq<SlotView>,
    crtc: Handle,
    surface: Option<SurfaceView>,
) -> bool {
    let slot = SlotView { crtc, surface };
    if exists|i: int| 0 <= i < before.len() && before[i].crtc@ == crtc@ {
        exists|i: int|
            0 <= i < before.len() && before[i].crtc@ == crtc@ && after == before.update(i, slot)
    } else {
        after == before.push(slot)
    }
}

} // verus!
