//! The mapping from named hardware properties to the identifiers the kernel
//! gave them.

use crate::handle::Handle;
use vstd::prelude::*;

verus! {

/// One line of a property table: on `object`, the property called `name` has
/// the identifier `id`.
pub struct PropEntry {
    pub object: Handle,
    pub name: String,
    pub id: Handle,
}

/// What a list of entries says, later entries overriding earlier ones: the
/// identifier of each named property of each object.
pub open spec fn table_of(entries: Seq<PropEntry>) -> Map<(u32, Seq<char>), u32>
    decreases entries.len(),
{
    if entries.len() == 0 {
        Map::empty()
    } else {
        let last = entries.last();
        table_of(entries.drop_last()).insert((last.object@, last.name@), last.id@)
    }
}

/// Property identifiers of the objects of one class, by object and name. The
/// entries are kept as they were recorded and read from the last one back.
pub struct PropTable {
    entries: Vec<PropEntry>,
}

impl View for PropTable {
    type V = Map<(u32, Seq<char>), u32>;

    closed spec fn view(&self) -> Map<(u32, Seq<char>), u32> {
        table_of(self.entries@)
    }
}

impl PropTable {
    /// The table that names no property.
    pub fn new() -> (table: PropTable)
        ensures
            table@ == Map::<(u32, Seq<char>), u32>::empty(),
    {
        PropTable { entries: Vec::new() }
    }

    /// Records that on `object` the property called `name` has the identifier
    /// `id`, in place of what the table said of that name before.
    pub fn insert(&mut self, object: Handle, name: &str, id: Handle)
        ensures
            final(self)@ == old(self)@.insert((object@, name@), id@),
    {
        let entry = PropEntry { object, name: name.to_owned(), id };
        self.entries.push(entry);
        assert(self.entries@.drop_last() == old(self).entries@);
    }

    /// The identifier of the property called `name` on `object`, if the table
    /// has it.
    pub fn get(&self, object: Handle, name: &str) -> (id: Option<Handle>)
        ensures
            id is Some <==> self@.contains_key((object@, name@)),
            id matches Some(h) ==> h@ == self@[(object@, name@)],
    {
        let wanted = name.to_owned();
        let mut i = self.entries.len();
        assert(self.entries@.take(i as int) == self.entries@);
        while i > 0
            invariant
                i <= self.entries@.len(),
                wanted@ == name@,
                self@.contains_key((object@, name@)) <==> table_of(
                    self.entries@.take(i as int),
                ).contains_key((object@, name@)),
                self@.contains_key((object@, name@)) ==> self@[(object@, name@)] == table_of(
                    self.entries@.take(i as int),
                )[(object@, name@)],
            decreases i,
        {
            i = i - 1;
            let entry = &self.entries[i];
            assert(self.entries@.take(i + 1).drop_last() == self.entries@.take(i as int));
            assert(self.entries@.take(i + 1).last() == self.entries@[i as int]);
            if entry.object.raw() == object.raw() && entry.name == wanted {
                return Some(entry.id);
            }
        }
        assert(self.entries@.take(0).len() == 0);
        None
    }
}

/// The name of the connector property that holds the CRTC a connector is
/// driven by.
pub open spec fn crtc_id_name() -> Seq<char> {
    "CRTC_ID"@
}

/// The name of the CRTC property that holds the mode a CRTC scans out.
pub open spec fn mode_id_name() -> Seq<char> {
    "MODE_ID"@
}

/// The name of the CRTC property that says whether a CRTC is running.
pub open spec fn active_name() -> Seq<char> {
    "ACTIVE"@
}

/// A value to write to a property.
#[derive(Clone, Copy, Debug)]
pub enum PropertyValue {
    /// No CRTC: the value of a CRTC-typed property that is unset.
    NoCrtc,
    /// A truth value.
    Boolean(bool),
    /// A value of a type the library does not interpret.
    Unknown(u64),
}

impl PropertyValue {
    /// The 64 bits the kernel is handed for the value.
    pub open spec fn raw(self) -> u64 {
        match self {
            PropertyValue::NoCrtc => 0,
            PropertyValue::Boolean(b) => if b { 1 } else { 0 },
            PropertyValue::Unknown(bits) => bits,
        }
    }
}

/// The connectors and CRTCs that a device has, as the kernel lists them.
pub struct ResourceHandles {
    connectors: Vec<Handle>,
    crtcs: Vec<Handle>,
}

impl ResourceHandles {
    /// One write per connector and two per CRTC fit the 32-bit counters of a
    /// transaction.
    #[verifier::type_invariant]
    spec fn fits(self) -> bool {
        self.connectors@.len() + 2 * self.crtcs@.len() <= u32::MAX
    }

    /// The connectors, in the kernel's order.
    pub closed spec fn spec_connectors(self) -> Seq<Handle> {
        self.connectors@
    }

    /// The CRTCs, in the kernel's order.
    pub closed spec fn spec_crtcs(self) -> Seq<Handle> {
        self.crtcs@
    }

    /// Whether lists of these lengths can be held: a transaction that writes
    /// once to each connector and twice to each CRTC must fit 32-bit counters.
    pub open spec fn spec_fits(connectors: nat, crtcs: nat) -> bool {
        connectors + 2 * crtcs <= u32::MAX
    }

    /// The lists, unless they are too long to be held.
    pub fn new(connectors: Vec<Handle>, crtcs: Vec<Handle>) -> (handles: Option<ResourceHandles>)
        ensures
            handles is Some <==> Self::spec_fits(connectors@.len(), crtcs@.len()),
            handles matches Some(h) ==> h.spec_connectors() == connectors@ && h.spec_crtcs()
                == crtcs@,
    {
        let limit: usize = 0xffff_ffff;
        if connectors.len() <= limit && crtcs.len() <= (limit - connectors.len()) / 2 {
            Some(ResourceHandles { connectors, crtcs })
        } else {
            None
        }
    }

    /// The connectors, in the kernel's order.
    pub fn connectors(&self) -> (list: &Vec<Handle>)
        ensures
            list@ == self.spec_connectors(),
            Self::spec_fits(self.spec_connectors().len(), self.spec_crtcs().len()),
    {
        proof {
            use_type_invariant(self);
        }
        &self.connectors
    }

    /// The CRTCs, in the kernel's order.
    pub fn crtcs(&self) -> (list: &Vec<Handle>)
        ensures
            list@ == self.spec_crtcs(),
            Self::spec_fits(self.spec_connectors().len(), self.spec_crtcs().len()),
    {
        proof {
            use_type_invariant(self);
        }
        &self.crtcs
    }
}

/// The property identifiers of a device's connectors and CRTCs. It is built
/// when the device is opened and only read afterwards.
pub struct PropMapping {
    pub connectors: PropTable,
    pub crtcs: PropTable,
}

impl PropMapping {
    /// Whether the mapping names every property that disabling the given
    /// connectors and CRTCs writes to.
    pub open spec fn spec_covers(self, handles: ResourceHandles) -> bool {
        &&& forall|i: int|
            0 <= i < handles.spec_connectors().len() ==> self.connectors@.contains_key(
                (#[trigger] handles.spec_connectors()[i]@, crtc_id_name()),
            )
        &&& forall|j: int|
            0 <= j < handles.spec_crtcs().len() ==> self.crtcs@.contains_key(
                (#[trigger] handles.spec_crtcs()[j]@, mode_id_name()),
            ) && self.crtcs@.contains_key((handles.spec_crtcs()[j]@, active_name()))
    }

    /// Tells whether the mapping names every property that disabling the
    /// given connectors and CRTCs writes to.
    pub fn covers(&self, handles: &ResourceHandles) -> (complete: bool)
        ensures
            complete == self.spec_covers(*handles),
    {
        let connectors = handles.connectors();
        let mut i: usize = 0;
        while i < connectors.len()
            invariant
                i <= connectors@.len(),
                connectors@ == handles.spec_connectors(),
                forall|k: int|
                    0 <= k < i ==> self.connectors@.contains_key(
                        (#[trigger] handles.spec_connectors()[k]@, crtc_id_name()),
                    ),
            decreases connectors@.len() - i,
        {
            if self.connectors.get(connectors[i], "CRTC_ID").is_none() {
                return false;
            }
            i = i + 1;
        }
        let crtcs = handles.crtcs();
        let mut j: usize = 0;
        while j < crtcs.len()
            invariant
                j <= crtcs@.len(),
                crtcs@ == handles.spec_crtcs(),
                forall|k: int|
                    0 <= k < handles.spec_connectors().len() ==> self.connectors@.contains_key(
                        (#[trigger] handles.spec_connectors()[k]@, crtc_id_name()),
                    ),
                forall|k: int|
                    0 <= k < j ==> self.crtcs@.contains_key(
                        (#[trigger] handles.spec_crtcs()[k]@, mode_id_name()),
                    ) && self.crtcs@.contains_key((handles.spec_crtcs()[k]@, active_name())),
            decreases crtcs@.len() - j,
        {
            if self.crtcs.get(crtcs[j], "MODE_ID").is_none() {
                return false;
            }
            if self.crtcs.get(crtcs[j], "ACTIVE").is_none() {
                return false;
            }
            j = j + 1;
        }
        true
    }
}

} // verus!
