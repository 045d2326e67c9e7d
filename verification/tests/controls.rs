use pynokhwa::control::{
    get_controls, CamControl, ControlValueDescription, KnownCameraControl, SetValueAction,
};
use pynokhwa::error::CameraError;

fn control(description: ControlValueDescription) -> CamControl {
    CamControl { control: KnownCameraControl::Gain, description, active: false }
}

#[test]
fn ranges_follow_the_description() {
    let cases = [
        (ControlValueDescription::NoValue, (0, 0, 0)),
        (ControlValueDescription::Integer { value: -5, step: 2 }, (-5, -5, 2)),
        (ControlValueDescription::IntegerRange { min: -64, max: 64, step: 1 }, (-64, 64, 1)),
        (ControlValueDescription::Float { value: 7, step: 0 }, (7, 7, 0)),
        (ControlValueDescription::FloatRange { min: 1, max: 9, step: 3 }, (1, 9, 3)),
        (ControlValueDescription::Boolean, (0, 1, 1)),
        (ControlValueDescription::String, (0, 0, 0)),
        (ControlValueDescription::Bytes { value: vec![1, 2, 3] }, (0, 3, 1)),
        (ControlValueDescription::Bytes { value: Vec::new() }, (0, 0, 1)),
        (ControlValueDescription::KeyValuePair { key: 4, value: -4 }, (4, -4, 1)),
        (ControlValueDescription::Point { x: 3, y: 8 }, (3, 8, 1)),
        (ControlValueDescription::Enum { possible: vec![10, 20, 30] }, (0, 2, 1)),
        (ControlValueDescription::Enum { possible: vec![10] }, (0, 0, 1)),
        (ControlValueDescription::Enum { possible: Vec::new() }, (0, 0, 1)),
        (ControlValueDescription::RGB { max_red: 255 }, (0, 255, 1)),
    ];
    for (description, range) in cases {
        assert_eq!(control(description).value_range(), range);
    }
}

#[test]
fn wide_keys_keep_their_low_bits() {
    let wide: [i128; 6] = [
        i64::MAX as i128 + 1,
        i64::MIN as i128 - 1,
        1i128 << 64,
        (1i128 << 64) + 5,
        i128::MIN,
        i128::MAX,
    ];
    for n in wide {
        let description = ControlValueDescription::KeyValuePair { key: n, value: -1 };
        assert_eq!(control(description).value_range(), (n as i64, -1, 1));
    }
}

#[test]
fn a_value_activates_and_is_applied() {
    let mut gain = control(ControlValueDescription::NoValue);
    assert_eq!(
        gain.set_value(true, Some(12)),
        SetValueAction::Apply { control: KnownCameraControl::Gain, value: 12 }
    );
    assert!(gain.is_active());
    assert_eq!(CamControl::value_applied(Some(Ok(()))), Ok(()));
    assert_eq!(
        CamControl::value_applied(Some(Err("out of range".to_string()))),
        Err(CameraError::Runtime("out of range".to_string()))
    );
    assert_eq!(
        CamControl::value_applied(None),
        Err(CameraError::Runtime("Camera not initialized".to_string()))
    );
}

#[test]
fn no_value_deactivates() {
    let mut gain = control(ControlValueDescription::NoValue);
    assert_eq!(gain.set_active(true), Ok(()));
    assert!(gain.is_active());
    assert_eq!(gain.set_value(true, None), SetValueAction::Answer(Ok(())));
    assert!(!gain.is_active());
}

#[test]
fn a_dropped_camera_takes_no_values() {
    let dropped = SetValueAction::Answer(Err(CameraError::Runtime(
        "Control is unusable as camera object has been dropped".to_string(),
    )));
    let mut gain = control(ControlValueDescription::NoValue);
    assert_eq!(gain.set_value(false, Some(1)), dropped);
    assert!(!gain.is_active());
    assert_eq!(gain.set_active(true), Ok(()));
    assert_eq!(gain.set_value(false, None), dropped);
    assert!(gain.is_active());
}

#[test]
fn controls_are_listed_by_name() {
    let listed = vec![("Gain".to_string(), control(ControlValueDescription::Boolean))];
    let given = get_controls(Some(Ok(listed))).unwrap();
    assert_eq!(given, vec![("Gain".to_string(), control(ControlValueDescription::Boolean))]);
    assert_eq!(get_controls(Some(Err("unsupported".to_string()))), Ok(Vec::new()));
    assert_eq!(
        get_controls(None),
        Err(CameraError::Runtime("Camera not initialized".to_string()))
    );
}
