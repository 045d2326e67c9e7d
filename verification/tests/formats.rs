use nokhwa::utils::FrameFormat as DeviceFrameFormat;
use pynokhwa::error::CameraError;
use pynokhwa::format::{get_formats, info, mode_to_text, CamFormat, CameraFormat, FrameFormat};

const NAMES: [(&str, FrameFormat); 8] = [
    ("mjpeg", FrameFormat::MJPEG),
    ("yuyv", FrameFormat::YUYV),
    ("gray", FrameFormat::GRAY),
    ("nv12", FrameFormat::NV12),
    ("rawrgb", FrameFormat::RAWRGB),
    ("rawbgr", FrameFormat::RAWBGR),
    ("ba10", FrameFormat::BA10),
    ("ba12", FrameFormat::BA12),
];

const UNSUPPORTED: &str = "Unsupported value (should be one of 'mjpeg', 'yuyv', 'gray', 'nv12', 'rawrgb', 'rawbgr', 'ba10', 'ba12')";

#[test]
fn every_name_is_accepted_and_given_back() {
    for (name, format) in NAMES {
        let made = CamFormat::new(640, 480, 30, name.to_string()).unwrap();
        assert_eq!(made, CamFormat { width: 640, height: 480, frame_rate: 30, format });
        assert_eq!(made.get_format(), name);
    }
}

#[test]
fn other_names_are_refused() {
    for name in ["", "MJPEG", "mjpeg ", "h264", "ba11"] {
        assert_eq!(
            CamFormat::new(1, 2, 3, name.to_string()),
            Err(CameraError::Value(UNSUPPORTED.to_string()))
        );
        let mut format = CamFormat { width: 1, height: 2, frame_rate: 3, format: FrameFormat::GRAY };
        assert_eq!(
            format.set_format(name.to_string()),
            Err(CameraError::Value(UNSUPPORTED.to_string()))
        );
        assert_eq!(format.format, FrameFormat::GRAY);
    }
}

#[test]
fn setting_the_encoding_leaves_the_rest() {
    let mut format = CamFormat::new(1280, 720, 60, "mjpeg".to_string()).unwrap();
    assert_eq!(format.set_format("ba12".to_string()), Ok(()));
    assert_eq!(
        format,
        CamFormat { width: 1280, height: 720, frame_rate: 60, format: FrameFormat::BA12 }
    );
}

#[test]
fn conversion_keeps_every_part() {
    let caller = CamFormat { width: 1, height: 2, frame_rate: 3, format: FrameFormat::NV12 };
    let device = CameraFormat::from(caller);
    assert_eq!(
        device,
        CameraFormat { width: 1, height: 2, frame_rate: 3, format: FrameFormat::NV12 }
    );
    assert_eq!(CamFormat::from(device), caller);
}

#[test]
fn info_prints_as_the_device_crate_does() {
    let cases = [
        (FrameFormat::MJPEG, DeviceFrameFormat::MJPEG),
        (FrameFormat::YUYV, DeviceFrameFormat::YUYV),
        (FrameFormat::NV12, DeviceFrameFormat::NV12),
        (FrameFormat::GRAY, DeviceFrameFormat::GRAY),
        (FrameFormat::RAWRGB, DeviceFrameFormat::RAWRGB),
        (FrameFormat::RAWBGR, DeviceFrameFormat::RAWBGR),
    ];
    for (format, device_format) in cases {
        let ours = CameraFormat { width: 1920, height: 1080, frame_rate: 25, format };
        let theirs = nokhwa::utils::CameraFormat::new_from(1920, 1080, device_format, 25);
        assert_eq!(info(Some(ours)), Ok(format!("Selected format: {:?}", theirs)));
    }
    let raw = CameraFormat { width: 0, height: 7, frame_rate: 1, format: FrameFormat::BA10 };
    assert_eq!(
        info(Some(raw)).unwrap(),
        "Selected format: CameraFormat { resolution: Resolution { width_x: 0, height_y: 7 }, format: BA10, frame_rate: 1 }"
    );
}

#[test]
fn a_released_camera_has_no_info_and_no_formats() {
    let gone = CameraError::Runtime("Camera not initialized".to_string());
    assert_eq!(info(None).unwrap_err(), gone);
    assert_eq!(get_formats(None).unwrap_err(), gone);
}

#[test]
fn listed_formats_are_handed_on_in_order() {
    let a = CameraFormat { width: 640, height: 480, frame_rate: 30, format: FrameFormat::YUYV };
    let b = CameraFormat { width: 320, height: 240, frame_rate: 15, format: FrameFormat::MJPEG };
    assert_eq!(
        get_formats(Some(Ok(vec![a, b]))),
        Ok(vec![CamFormat::from(a), CamFormat::from(b)])
    );
    assert_eq!(get_formats(Some(Ok(Vec::new()))), Ok(Vec::new()));
    assert_eq!(
        get_formats(Some(Err("busy".to_string()))),
        Err(CameraError::Runtime("busy".to_string()))
    );
}

#[test]
fn modes_are_written_with_resolution_and_rate() {
    let format = CameraFormat { width: 640, height: 480, frame_rate: 30, format: FrameFormat::GRAY };
    assert_eq!(mode_to_text(format), "640x480@30");
}
