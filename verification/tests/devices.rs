use pynokhwa::device::{
    camera_registry_key, canonical_registry_key, linux_unique_id, name_to_open, query, stable_unique_id,
    CameraIndex, CameraInfo, DeviceLink,
};
use pynokhwa::error::CameraError;
use pynokhwa::text::decimal_text;

fn device(index: CameraIndex, name: &str, misc: &str) -> CameraInfo {
    CameraInfo {
        human_name: name.to_string(),
        description: format!("{name} description"),
        misc: misc.to_string(),
        index,
    }
}

fn link(path: &str, target: Option<&str>) -> DeviceLink {
    DeviceLink { path: path.to_string(), target: target.map(str::to_string) }
}

fn by_id(id: &str) -> CameraIndex {
    CameraIndex::String(id.to_string())
}

#[test]
fn numerals_agree_with_the_standard_library() {
    for n in [0u32, 1, 9, 10, 11, 99, 100, 101, 640, 1000, 65535, 65536, 1_000_000_007, u32::MAX] {
        assert_eq!(decimal_text(n), n.to_string());
    }
}

#[test]
fn names_spell_out_their_keys() {
    assert_eq!(camera_registry_key(&CameraIndex::Index(0)), "index:0");
    assert_eq!(camera_registry_key(&CameraIndex::Index(4294967295)), "index:4294967295");
    assert_eq!(camera_registry_key(&by_id("usb-cam")), "id:usb-cam");
    assert_eq!(camera_registry_key(&by_id("")), "id:");
    assert_eq!(camera_registry_key(&by_id("index:3")), "id:index:3");
}

#[test]
fn first_link_to_the_device_is_taken() {
    let links = vec![
        link("/dev/v4l/by-id/broken", None),
        link("/dev/v4l/by-id/other", Some("video1")),
        link("/dev/v4l/by-id/cam-index0", Some("video10")),
        link("/dev/v4l/by-id/cam-again", Some("video10")),
    ];
    assert_eq!(linux_unique_id(10, &links), Some("/dev/v4l/by-id/cam-index0".to_string()));
    assert_eq!(linux_unique_id(1, &links), Some("/dev/v4l/by-id/other".to_string()));
    assert_eq!(linux_unique_id(0, &links), None);
    assert_eq!(linux_unique_id(0, &Vec::new()), None);
}

#[test]
fn unique_ids_prefer_the_system_then_a_link_then_the_number() {
    let links = vec![link("/dev/v4l/by-id/cam", Some("video2"))];
    assert_eq!(stable_unique_id(2, "sys", &links), ("sys".to_string(), true));
    assert_eq!(stable_unique_id(2, "", &links), ("/dev/v4l/by-id/cam".to_string(), true));
    assert_eq!(stable_unique_id(3, "", &links), ("index:3".to_string(), false));
}

#[test]
fn either_name_resolves_to_one_key() {
    let devices = Some(vec![
        device(by_id("stream"), "network", "net"),
        device(CameraIndex::Index(0), "front", "sys-front"),
        device(CameraIndex::Index(1), "back", ""),
        device(CameraIndex::Index(2), "side", ""),
    ]);
    let links = vec![link("/dev/v4l/by-id/back", Some("video1"))];
    let key = |name: &CameraIndex| canonical_registry_key(name, &devices, &links);

    assert_eq!(key(&CameraIndex::Index(0)), "id:sys-front");
    assert_eq!(key(&by_id("sys-front")), "id:sys-front");
    assert_eq!(key(&CameraIndex::Index(1)), "id:/dev/v4l/by-id/back");
    assert_eq!(key(&by_id("/dev/v4l/by-id/back")), "id:/dev/v4l/by-id/back");
    assert_eq!(key(&CameraIndex::Index(2)), "index:2");
    assert_eq!(key(&by_id("index:2")), "index:2");
    assert_eq!(key(&by_id("index:0")), "id:index:0");
    assert_eq!(key(&CameraIndex::Index(9)), "index:9");
    assert_eq!(key(&by_id("net")), "id:net");
    assert_eq!(key(&by_id("")), "id:");
}

#[test]
fn without_a_list_a_name_is_its_own_key() {
    let links = vec![link("/dev/v4l/by-id/cam", Some("video0"))];
    assert_eq!(canonical_registry_key(&CameraIndex::Index(0), &None, &links), "index:0");
    assert_eq!(canonical_registry_key(&by_id("x"), &None, &links), "id:x");
}

#[test]
fn a_repeated_number_stands_for_its_first_device() {
    let devices = Some(vec![
        device(CameraIndex::Index(0), "one", "a"),
        device(CameraIndex::Index(0), "two", "b"),
    ]);
    let links = Vec::new();
    assert_eq!(canonical_registry_key(&CameraIndex::Index(0), &devices, &links), "id:a");
    assert_eq!(canonical_registry_key(&by_id("b"), &devices, &links), "id:b");
}

#[test]
fn a_device_without_a_stable_id_has_one_key() {
    let devices = vec![device(CameraIndex::Index(3), "plain", "")];
    let links = Vec::new();
    let told = query(Ok(vec![device(CameraIndex::Index(3), "plain", "")]), &links).unwrap();
    assert_eq!((told[0].4.as_str(), told[0].5), ("index:3", false));
    let devices = Some(devices);
    assert_eq!(
        canonical_registry_key(&by_id(&told[0].4), &devices, &links),
        canonical_registry_key(&CameraIndex::Index(3), &devices, &links)
    );
    assert_eq!(canonical_registry_key(&by_id("index:3"), &devices, &links), "index:3");
    assert_eq!(name_to_open(by_id("index:3"), &devices, &links), CameraIndex::Index(3));
    assert_eq!(name_to_open(CameraIndex::Index(3), &devices, &links), CameraIndex::Index(3));
    assert_eq!(name_to_open(by_id("index:4"), &devices, &links), by_id("index:4"));
    assert_eq!(name_to_open(by_id("index:3"), &None, &links), by_id("index:3"));
}

#[test]
fn an_id_told_of_two_devices_stands_for_the_stable_one() {
    let devices = Some(vec![
        device(CameraIndex::Index(0), "odd", "index:1"),
        device(CameraIndex::Index(1), "plain", ""),
    ]);
    let links = Vec::new();
    assert_eq!(canonical_registry_key(&by_id("index:1"), &devices, &links), "id:index:1");
    assert_eq!(canonical_registry_key(&CameraIndex::Index(1), &devices, &links), "index:1");
    assert_eq!(name_to_open(by_id("index:1"), &devices, &links), by_id("index:1"));
}

#[test]
fn a_stable_id_comes_before_an_earlier_stand_in() {
    let devices = Some(vec![
        device(CameraIndex::Index(3), "plain", ""),
        device(CameraIndex::Index(5), "odd", "index:3"),
    ]);
    let links = Vec::new();
    let key = |name: &CameraIndex| canonical_registry_key(name, &devices, &links);
    assert_eq!(key(&CameraIndex::Index(5)), "id:index:3");
    assert_eq!(key(&by_id("index:3")), "id:index:3");
    assert_eq!(key(&CameraIndex::Index(3)), "index:3");
    assert_eq!(name_to_open(by_id("index:3"), &devices, &links), by_id("index:3"));
    assert_eq!(name_to_open(CameraIndex::Index(5), &devices, &links), CameraIndex::Index(5));
    assert_eq!(name_to_open(CameraIndex::Index(3), &devices, &links), CameraIndex::Index(3));
}

#[test]
fn a_linked_path_comes_before_an_earlier_stand_in() {
    let devices = Some(vec![
        device(CameraIndex::Index(3), "plain", ""),
        device(CameraIndex::Index(5), "linked", ""),
    ]);
    let links = vec![link("index:3", Some("video5"))];
    let key = |name: &CameraIndex| canonical_registry_key(name, &devices, &links);
    assert_eq!(key(&CameraIndex::Index(5)), "id:index:3");
    assert_eq!(key(&by_id("index:3")), "id:index:3");
    assert_eq!(key(&CameraIndex::Index(3)), "index:3");
}

#[test]
fn query_tells_of_numbered_devices_in_order() {
    let devices = vec![
        device(CameraIndex::Index(3), "front", "sys"),
        device(by_id("stream"), "network", "net"),
        device(CameraIndex::Index(1), "back", ""),
        device(CameraIndex::Index(2), "side", ""),
    ];
    let links = vec![link("/dev/v4l/by-id/back", Some("video1"))];
    let rows = query(Ok(devices), &links).unwrap();
    assert_eq!(
        rows,
        vec![
            (
                3,
                "front".to_string(),
                "front description".to_string(),
                "sys".to_string(),
                "sys".to_string(),
                true
            ),
            (
                1,
                "back".to_string(),
                "back description".to_string(),
                String::new(),
                "/dev/v4l/by-id/back".to_string(),
                true
            ),
            (
                2,
                "side".to_string(),
                "side description".to_string(),
                String::new(),
                "index:2".to_string(),
                false
            ),
        ]
    );
}

#[test]
fn query_passes_an_error_on() {
    let result = query(Err("no backend".to_string()), &Vec::new());
    assert_eq!(result, Err(CameraError::Runtime("no backend".to_string())));
}
