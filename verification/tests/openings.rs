use pynokhwa::device::{CameraIndex, CameraInfo};
use pynokhwa::error::CameraError;
use pynokhwa::opening::{
    check_can_use, requested_camera, CameraOpening, CanUseAction, CanUseEvent, OpeningAction,
    ProbeOutcome,
};
use pynokhwa::registry::Registry;

fn by_id(id: &str) -> CameraIndex {
    CameraIndex::String(id.to_string())
}

fn devices() -> Option<Vec<CameraInfo>> {
    Some(vec![CameraInfo {
        human_name: "cam".to_string(),
        description: String::new(),
        misc: "sys".to_string(),
        index: CameraIndex::Index(0),
    }])
}

#[test]
fn a_number_comes_before_an_id() {
    assert_eq!(requested_camera(Some(2), Some("x".to_string())), Ok(CameraIndex::Index(2)));
    assert_eq!(requested_camera(Some(2), None), Ok(CameraIndex::Index(2)));
    assert_eq!(requested_camera(None, Some("x".to_string())), Ok(by_id("x")));
    assert_eq!(
        requested_camera(None, None),
        Err(CameraError::Value(
            "Camera index must be an int index or string unique_id".to_string()
        ))
    );
}

#[test]
fn a_camera_is_registered_once_and_found_under_either_name() {
    let mut registry: Registry<u32> = Registry::new();
    let opening = CameraOpening::new(CameraIndex::Index(0), &devices(), &Vec::new());
    assert_eq!(opening.registry_key, "id:sys");
    assert_eq!(registry.lookup(&opening.registry_key), None);
    assert_eq!(opening.found::<u32>(None), OpeningAction::Open(&CameraIndex::Index(0)));
    assert_eq!(opening.finish(&mut registry, Ok(("camera", 11))), Ok("camera"));

    let again = CameraOpening::new(by_id("sys"), &devices(), &Vec::new());
    let found = registry.lookup(&again.registry_key).copied();
    assert_eq!(found, Some(11));
    assert_eq!(again.found(found), OpeningAction::Reuse(11));
}

#[test]
fn an_unstable_id_opens_the_device_by_its_number() {
    let devices = Some(vec![CameraInfo {
        human_name: "plain".to_string(),
        description: String::new(),
        misc: String::new(),
        index: CameraIndex::Index(5),
    }]);
    let mut registry: Registry<u32> = Registry::new();
    let by_number = CameraOpening::new(CameraIndex::Index(5), &devices, &Vec::new());
    assert_eq!(by_number.finish(&mut registry, Ok(((), 1))), Ok(()));

    let opening = CameraOpening::new(by_id("index:5"), &devices, &Vec::new());
    assert_eq!(registry.lookup(&opening.registry_key), Some(&1));
    assert_eq!(opening.found::<u32>(None), OpeningAction::Open(&CameraIndex::Index(5)));
}

#[test]
fn a_stable_id_is_not_taken_for_the_number_of_another_device() {
    let info = |index: u32, misc: &str| CameraInfo {
        human_name: "cam".to_string(),
        description: String::new(),
        misc: misc.to_string(),
        index: CameraIndex::Index(index),
    };
    let devices = Some(vec![info(3, ""), info(5, "index:3")]);
    let mut registry: Registry<u32> = Registry::new();
    let other = CameraOpening::new(CameraIndex::Index(3), &devices, &Vec::new());
    assert_eq!(other.finish(&mut registry, Ok(((), 3))), Ok(()));
    let opening = CameraOpening::new(by_id("index:3"), &devices, &Vec::new());
    assert_eq!(registry.lookup(&opening.registry_key), None);
    assert_eq!(opening.found::<u32>(None), OpeningAction::Open(&by_id("index:3")));

    let by_number = CameraOpening::new(CameraIndex::Index(5), &devices, &Vec::new());
    assert_eq!(by_number.finish(&mut registry, Ok(((), 5))), Ok(()));
    assert_eq!(registry.lookup(&opening.registry_key), Some(&5));
}

#[test]
fn a_camera_that_does_not_open_is_not_registered() {
    let mut registry: Registry<u32> = Registry::new();
    let opening = CameraOpening::new(by_id("x"), &None, &Vec::new());
    let failed: Result<((), u32), String> = Err("denied".to_string());
    assert_eq!(
        opening.finish(&mut registry, failed),
        Err(CameraError::Runtime("denied".to_string()))
    );
    assert_eq!(registry.lookup(&"id:x".to_string()), None);
}

#[test]
fn an_entry_replaces_the_one_before_it() {
    let mut registry = Registry::new();
    for (key, value) in [("a", 1), ("b", 2), ("c", 3), ("a", 4), ("b", 5)] {
        registry.insert(key.to_string(), value);
    }
    assert_eq!(registry.lookup(&"a".to_string()), Some(&4));
    assert_eq!(registry.lookup(&"b".to_string()), Some(&5));
    assert_eq!(registry.lookup(&"c".to_string()), Some(&3));
    assert_eq!(registry.lookup(&"d".to_string()), None);
}

#[test]
fn dead_entries_are_dropped() {
    let mut registry = Registry::new();
    for (key, value) in [("a", 1), ("b", 2), ("c", 3), ("d", 4)] {
        registry.insert(key.to_string(), value);
    }
    registry.retain(|value| value % 2 == 0);
    assert_eq!(registry.lookup(&"a".to_string()), None);
    assert_eq!(registry.lookup(&"b".to_string()), Some(&2));
    assert_eq!(registry.lookup(&"c".to_string()), None);
    assert_eq!(registry.lookup(&"d".to_string()), Some(&4));
    registry.retain(|_| false);
    assert_eq!(registry.lookup(&"b".to_string()), None);
}

#[test]
fn a_camera_in_use_can_be_used() {
    let action = check_can_use(3, CanUseEvent::Registered { live: true });
    assert_eq!(action, CanUseAction::Answer(true));
}

#[test]
fn any_other_camera_is_probed() {
    let action = check_can_use(3, CanUseEvent::Registered { live: false });
    assert_eq!(action, CanUseAction::Probe(CameraIndex::Index(3)));
    for (outcome, answer) in [
        (ProbeOutcome::Opened, true),
        (ProbeOutcome::Failed, false),
        (ProbeOutcome::Panicked, false),
    ] {
        assert_eq!(check_can_use(3, CanUseEvent::Probed(outcome)), CanUseAction::Answer(answer));
    }
}
