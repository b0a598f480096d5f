use drm::control::atomic::AtomicModeReq;
use drm::control::{connector, crtc, from_u32, property};
use drm_atomic_session::handle::Handle;
use drm_atomic_session::property::{PropMapping, PropTable, ResourceHandles};
use drm_atomic_session::request::disable_request;

fn id(raw: u32) -> Handle {
    Handle::new(raw).unwrap()
}

fn prop(raw: u32) -> property::Handle {
    from_u32(raw).unwrap()
}

fn two_by_two() -> PropMapping {
    let mut connectors = PropTable::new();
    connectors.insert(id(31), "CRTC_ID", id(20));
    connectors.insert(id(33), "CRTC_ID", id(20));
    let mut crtcs = PropTable::new();
    crtcs.insert(id(41), "ACTIVE", id(22));
    crtcs.insert(id(41), "MODE_ID", id(23));
    crtcs.insert(id(45), "ACTIVE", id(22));
    crtcs.insert(id(45), "MODE_ID", id(23));
    PropMapping { connectors, crtcs }
}

#[test]
fn disable_request_of_nothing_is_empty() {
    let handles = ResourceHandles::new(vec![], vec![]).unwrap();
    let request = disable_request(&handles, &two_by_two());
    assert_eq!(format!("{:?}", request), format!("{:?}", AtomicModeReq::new()));
}

#[test]
fn disable_request_writes_every_connector_and_crtc() {
    let handles = ResourceHandles::new(vec![id(31), id(33)], vec![id(41), id(45)]).unwrap();
    let request = disable_request(&handles, &two_by_two());

    let mut expected = AtomicModeReq::new();
    expected.add_property(
        from_u32::<connector::Handle>(31).unwrap(),
        prop(20),
        property::Value::CRTC(None),
    );
    expected.add_property(
        from_u32::<connector::Handle>(33).unwrap(),
        prop(20),
        property::Value::CRTC(None),
    );
    for raw in [41, 45] {
        let crtc = from_u32::<crtc::Handle>(raw).unwrap();
        expected.add_property(crtc, prop(22), property::Value::Boolean(false));
        expected.add_property(crtc, prop(23), property::Value::Unknown(0));
    }
    assert_eq!(format!("{:?}", request), format!("{:?}", expected));
    assert_ne!(format!("{:?}", request), format!("{:?}", AtomicModeReq::new()));
}

#[test]
fn disable_request_is_one_write_per_property() {
    // a connector listed twice is still written once
    let handles = ResourceHandles::new(vec![id(31), id(31)], vec![id(41)]).unwrap();
    let request = disable_request(&handles, &two_by_two());

    let mut expected = AtomicModeReq::new();
    expected.add_raw_property(31.try_into().unwrap(), prop(20), 0);
    expected.add_raw_property(41.try_into().unwrap(), prop(22), 0);
    expected.add_raw_property(41.try_into().unwrap(), prop(23), 0);
    assert_eq!(format!("{:?}", request), format!("{:?}", expected));
}

#[test]
fn disable_request_does_not_depend_on_listing_order() {
    let forward = ResourceHandles::new(vec![id(31), id(33)], vec![id(41), id(45)]).unwrap();
    let backward = ResourceHandles::new(vec![id(33), id(31)], vec![id(45), id(41)]).unwrap();
    let mapping = two_by_two();
    assert_eq!(
        format!("{:?}", disable_request(&forward, &mapping)),
        format!("{:?}", disable_request(&backward, &mapping))
    );
}
