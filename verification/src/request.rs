//! Atomic transactions: batches of property writes that the kernel takes or
//! refuses as a whole.

use crate::handle::Handle;
use crate::property::{
    active_name, crtc_id_name, mode_id_name, PropMapping, PropertyValue, ResourceHandles,
};
use drm::control::atomic::AtomicModeReq;
use vstd::prelude::*;

verus! {

#[verifier::external_type_specification]
#[verifier::external_body]
pub struct ExAtomicModeReq(drm::control::atomic::AtomicModeReq);

/// What a transaction writes: for each object and property it names, by
/// their identifiers, the 64 bits to write.
pub uninterp spec fn request_writes(req: AtomicModeReq) -> Map<(u32, u32), u64>;

/// What a transaction writes that writes nothing.
pub open spec fn no_writes() -> Map<(u32, u32), u64> {
    Map::empty()
}

/// The object a write goes to.
#[derive(Clone, Copy, Debug)]
pub enum Object {
    Connector(Handle),
    Crtc(Handle),
}

impl Object {
    /// The object's identifier.
    pub open spec fn id(self) -> u32 {
        match self {
            Object::Connector(handle) => handle@,
            Object::Crtc(handle) => handle@,
        }
    }
}

/// Calls `AtomicModeReq::new`. Trusted: the new transaction writes nothing.
#[verifier::external_body]
fn new_request() -> (req: AtomicModeReq)
    ensures
        request_writes(req) == no_writes(),
{
    AtomicModeReq::new()
}

/// Calls `AtomicModeReq::add_property`. Trusted: afterwards the transaction
/// writes the value's 64 bits to the property of the object, in place of what
/// it wrote there before, and writes elsewhere what it wrote before. The
/// transaction counts its writes in 32 bits, so it must hold fewer than that
/// many.
#[verifier::external_body]
fn add_property(req: &mut AtomicModeReq, object: Object, property: Handle, value: PropertyValue)
    requires
        request_writes(*old(req)).dom().finite(),
        request_writes(*old(req)).dom().len() < u32::MAX,
    ensures
        request_writes(*final(req)) == request_writes(*old(req)).insert(
            (object.id(), property@),
            value.raw(),
        ),
{
    let property = drm::control::from_u32::<drm::control::property::Handle>(property.raw()).unwrap();
    let value = match value {
        PropertyValue::NoCrtc => drm::control::property::Value::CRTC(None),
        PropertyValue::Boolean(b) => drm::control::property::Value::Boolean(b),
        PropertyValue::Unknown(bits) => drm::control::property::Value::Unknown(bits),
    };
    match object {
        Object::Connector(h) => req.add_property(drm::control::from_u32::<drm::control::connector::Handle>(h.raw()).unwrap(), property, value),
        Object::Crtc(h) => req.add_property(drm::control::from_u32::<drm::control::crtc::Handle>(h.raw()).unwrap(), property, value),
    }
}

/// Whether disabling the first `n` of the connectors and the first `m` of the
/// CRTCs writes to the property `key.1` of the object `key.0`: a connector's
/// CRTC assignment, or a CRTC's active flag or mode.
pub open spec fn disables(
    key: (u32, u32),
    handles: ResourceHandles,
    n: int,
    m: int,
    mapping: PropMapping,
) -> bool {
    ||| exists|i: int|
        0 <= i < n && key == (
            #[trigger] handles.spec_connectors()[i]@,
            mapping.connectors@[(handles.spec_connectors()[i]@, crtc_id_name())],
        )
    ||| exists|j: int|
        0 <= j < m && key.0 == #[trigger] handles.spec_crtcs()[j]@ && (key.1
            == mapping.crtcs@[(handles.spec_crtcs()[j]@, active_name())] || key.1
            == mapping.crtcs@[(handles.spec_crtcs()[j]@, mode_id_name())])
}

/// The writes that switch a device off: every connector loses its CRTC, every
/// CRTC is made inactive and loses its mode. Each of these is the value zero.
pub open spec fn disable_writes(handles: ResourceHandles, mapping: PropMapping) -> Map<
    (u32, u32),
    u64,
> {
    Map::new(
        |key: (u32, u32)|
            disables(
                key,
                handles,
                handles.spec_connectors().len() as int,
                handles.spec_crtcs().len() as int,
                mapping,
            ),
        |key: (u32, u32)| 0u64,
    )
}

/// Builds the one transaction that switches the device off, so that what
/// another session left behind cannot conflict with later updates.
pub fn disable_request(handles: &ResourceHandles, mapping: &PropMapping) -> (req: AtomicModeReq)
    requires
        mapping.spec_covers(*handles),
    ensures
        request_writes(req) == disable_writes(*handles, *mapping),
{
    let mut req = new_request();
    let connectors = handles.connectors();
    let crtcs = handles.crtcs();
    assert(request_writes(req) =~= Map::new(
        |key: (u32, u32)| disables(key, *handles, 0, 0, *mapping),
        |key: (u32, u32)| 0u64,
    ));
    let mut i: usize = 0;
    while i < connectors.len()
        invariant
            i <= connectors@.len(),
            connectors@ == handles.spec_connectors(),
            crtcs@ == handles.spec_crtcs(),
            connectors@.len() + 2 * crtcs@.len() <= u32::MAX,
            mapping.spec_covers(*handles),
            request_writes(req) == Map::new(
                |key: (u32, u32)| disables(key, *handles, i as int, 0, *mapping),
                |key: (u32, u32)| 0u64,
            ),
            request_writes(req).dom().finite(),
            request_writes(req).dom().len() <= i,
        decreases connectors@.len() - i,
    {
        let conn = connectors[i];
        let prop = mapping.connectors.get(conn, "CRTC_ID").unwrap();
        let ghost before = request_writes(req);
        add_property(&mut req, Object::Connector(conn), prop, PropertyValue::NoCrtc);
        assert(request_writes(req) =~= Map::new(
            |key: (u32, u32)| disables(key, *handles, i + 1, 0, *mapping),
            |key: (u32, u32)| 0u64,
        )) by {
            assert(before.insert((conn@, prop@), 0u64) == request_writes(req));
            assert forall|key: (u32, u32)|
                disables(key, *handles, i + 1, 0, *mapping) <==> (disables(
                    key,
                    *handles,
                    i as int,
                    0,
                    *mapping,
                ) || key == (conn@, prop@)) by {
                if key == (conn@, prop@) {
                    assert(key.0 == handles.spec_connectors()[i as int]@);
                }
            }
        }
        i = i + 1;
    }
    let mut j: usize = 0;
    while j < crtcs.len()
        invariant
            j <= crtcs@.len(),
            i == connectors@.len(),
            connectors@ == handles.spec_connectors(),
            crtcs@ == handles.spec_crtcs(),
            connectors@.len() + 2 * crtcs@.len() <= u32::MAX,
            mapping.spec_covers(*handles),
            request_writes(req) == Map::new(
                |key: (u32, u32)| disables(key, *handles, i as int, j as int, *mapping),
                |key: (u32, u32)| 0u64,
            ),
            request_writes(req).dom().finite(),
            request_writes(req).dom().len() <= i + 2 * j,
        decreases crtcs@.len() - j,
    {
        let crtc = crtcs[j];
        let mode_prop = mapping.crtcs.get(crtc, "MODE_ID").unwrap();
        let active_prop = mapping.crtcs.get(crtc, "ACTIVE").unwrap();
        let ghost before = request_writes(req);
        add_property(&mut req, Object::Crtc(crtc), active_prop, PropertyValue::Boolean(false));
        add_property(&mut req, Object::Crtc(crtc), mode_prop, PropertyValue::Unknown(0));
        assert(request_writes(req) =~= Map::new(
            |key: (u32, u32)| disables(key, *handles, i as int, j + 1, *mapping),
            |key: (u32, u32)| 0u64,
        )) by {
            assert(before.insert((crtc@, active_prop@), 0u64).insert((crtc@, mode_prop@), 0u64)
                == request_writes(req));
            assert forall|key: (u32, u32)|
                disables(key, *handles, i as int, j + 1, *mapping) <==> (disables(
                    key,
                    *handles,
                    i as int,
                    j as int,
                    *mapping,
                ) || key == (crtc@, active_prop@) || key == (crtc@, mode_prop@)) by {
                if key == (crtc@, active_prop@) || key == (crtc@, mode_prop@) {
                    assert(key.0 == handles.spec_crtcs()[j as int]@);
                }
            }
        }
        j = j + 1;
    }
    req
}

} // verus!
