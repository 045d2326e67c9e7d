use pynokhwa::error::CameraError;
use pynokhwa::format::{CamFormat, CameraFormat, FrameFormat};
use pynokhwa::frame::Image;
use pynokhwa::session::{CameraInternal, CloseAction, StartAction};
use pynokhwa::worker::{CaptureOutcome, Worker, WorkerAction, TOLERATED_FAILURES};

fn format(width: u32) -> CameraFormat {
    CameraFormat { width, height: 480, format: FrameFormat::YUYV, frame_rate: 30 }
}

fn pixel(value: u8) -> CaptureOutcome {
    CaptureOutcome::Frame(Some(Image { width: 1, height: 1, raw: vec![value; 3] }))
}

fn failure(text: &str) -> CaptureOutcome {
    CaptureOutcome::Failed(text.to_string())
}

/// A session with one user and a worker that captures.
fn streaming() -> (CameraInternal<u32>, Worker) {
    let mut session = CameraInternal::new();
    assert_eq!(session.start(format(640)), StartAction::SpawnWorker(format(640)));
    session.attach_worker(7);
    let worker = Worker::new();
    assert_eq!(worker.configured(&mut session, Some((Ok(()), Ok(())))), WorkerAction::Capture);
    (session, worker)
}

#[test]
fn a_new_session_is_idle() {
    let session: CameraInternal<u32> = CameraInternal::new();
    assert_eq!(session.active_count, 0);
    assert!(!session.running);
    assert_eq!(session.worker, None);
    assert!(session.last_frame().0.is_none());
    assert_eq!(session.last_frame().1, 0);
    assert_eq!(session.check_err(), Ok(()));
}

#[test]
fn only_the_first_start_spawns_a_worker() {
    let (mut session, _) = streaming();
    assert_eq!(session.start(format(640)), StartAction::CompareFormat(format(640)));
    assert_eq!(session.confirm_start(format(640), Some(format(640))), Ok(()));
    assert_eq!(session.active_count, 2);
    assert!(session.running);
}

#[test]
fn a_start_in_another_format_is_turned_away() {
    let (mut session, _) = streaming();
    session.start(format(1280));
    assert_eq!(
        session.confirm_start(format(1280), Some(format(640))),
        Err("Error: Camera is already streaming with a different format. Current: 640x480@30, Requested: 1280x480@30".to_string())
    );
    assert_eq!(session.active_count, 1);
    assert!(session.running);

    // The encoding counts too, though the message does not show it.
    let gray = CameraFormat { format: FrameFormat::GRAY, ..format(640) };
    session.start(gray);
    assert_eq!(
        session.confirm_start(gray, Some(format(640))),
        Err("Error: Camera is already streaming with a different format. Current: 640x480@30, Requested: 640x480@30".to_string())
    );
    assert_eq!(session.active_count, 1);
}

#[test]
fn a_start_on_a_vanished_camera_is_turned_away() {
    let (mut session, _) = streaming();
    let requested = CamFormat::from(format(640));
    assert_eq!(session.open(requested), StartAction::CompareFormat(format(640)));
    assert_eq!(
        session.confirm_open(format(640), None),
        Err(CameraError::Runtime(
            "Error: Camera is not available while marked as running".to_string()
        ))
    );
    assert_eq!(session.active_count, 1);
}

#[test]
fn the_user_counter_starts_over() {
    let mut session: CameraInternal<u32> = CameraInternal::new();
    session.running = true;
    session.active_count = usize::MAX;
    session.start(format(640));
    assert_eq!(session.active_count, 0);
    assert!(session.confirm_start(format(640), None).is_err());
    assert_eq!(session.active_count, usize::MAX);
}

#[test]
fn the_last_close_shuts_down() {
    let (mut session, mut worker) = streaming();
    session.start(format(640));
    assert_eq!(session.confirm_start(format(640), Some(format(640))), Ok(()));
    worker.captured(&mut session, pixel(1));
    worker.captured(&mut session, pixel(2));

    assert_eq!(session.close(), CloseAction::StillOpen);
    assert!(session.running);
    assert_eq!(session.close(), CloseAction::Shutdown(Some(7)));
    assert!(!session.running);
    assert_eq!(session.worker, None);

    // The worker notices, and ends.
    assert_eq!(worker.captured(&mut session, pixel(3)), WorkerAction::StopStream);
    worker.stopped(&mut session);
    session.release();
    assert!(session.last_frame().0.is_none());
    assert_eq!(session.last_frame().1, 3);
    assert_eq!(session.check_err(), Ok(()));

    assert_eq!(session.close(), CloseAction::NotOpen);
    assert_eq!(session.active_count, 0);
}

#[test]
fn a_released_device_answers_no_request() {
    let gone = CameraError::Runtime("Camera not initialized".to_string());
    let (mut session, worker) = streaming();
    assert!(session.device_held);
    assert!(session.info(Some(format(640))).is_ok());
    assert_eq!(session.get_formats(Some(Ok(vec![format(640)]))).unwrap().len(), 1);
    assert_eq!(session.get_controls(Some(Ok(Vec::new()))), Ok(Vec::new()));
    assert_eq!(session.info(None), Err(gone));

    session.close();
    worker.stopped(&mut session);
    session.release();
    assert!(!session.device_held);

    // Whatever the caller still believes to know of the device.
    let gone = || CameraError::Runtime("Camera not initialized".to_string());
    assert_eq!(session.info(Some(format(640))), Err(gone()));
    assert_eq!(session.get_formats(Some(Ok(vec![format(640)]))), Err(gone()));
    assert_eq!(session.get_controls(Some(Ok(Vec::new()))), Err(gone()));

    // A start finds the device gone, and says so.
    assert_eq!(session.start(format(640)), StartAction::SpawnWorker(format(640)));
    assert_eq!(
        Worker::new().configured(&mut session, Some((Ok(()), Ok(())))),
        WorkerAction::Exit
    );
    assert_eq!(
        session.check_err(),
        Err(CameraError::Runtime("Error: Camera was closed before worker could start".to_string()))
    );
    assert!(!session.device_held);
}

#[test]
fn refused_starts_and_surplus_closes_do_not_count() {
    let (mut session, worker) = streaming();
    session.start(format(640));
    assert_eq!(session.confirm_start(format(640), Some(format(640))), Ok(()));
    session.start(format(320));
    assert!(session.confirm_start(format(320), Some(format(640))).is_err());
    worker.stopped(&mut session);
    assert_eq!(session.active_count, 2);
    assert_eq!(session.close(), CloseAction::StillOpen);
    assert_eq!(session.close(), CloseAction::Shutdown(Some(7)));
    assert_eq!(session.close(), CloseAction::NotOpen);
    assert_eq!(session.active_count, 0);
}

#[test]
fn numbers_go_on_after_a_restart() {
    let (mut session, mut worker) = streaming();
    worker.captured(&mut session, pixel(1));
    for _ in 0..4 {
        worker.captured(&mut session, failure("timeout"));
    }
    worker.stopped(&mut session);
    assert_eq!(session.last_frame().1, 1);

    assert_eq!(session.start(format(320)), StartAction::SpawnWorker(format(320)));
    let mut worker = Worker::new();
    assert_eq!(worker.captured(&mut session, pixel(9)), WorkerAction::Capture);
    let (frame, seq) = session.last_frame();
    assert_eq!(seq, 2);
    assert_eq!(*frame, Some(Image { width: 1, height: 1, raw: vec![9; 3] }));
    assert_eq!(session.last_frame(), (frame, seq));
}

#[test]
fn stopping_gives_up_the_worker_once() {
    let (mut session, _) = streaming();
    assert_eq!(session.stop(), Some(7));
    assert_eq!(session.stop(), None);
    assert!(!session.running);
    assert_eq!(session.active_count, 1);
}

#[test]
fn a_camera_closed_before_its_worker_started_is_reported() {
    let mut session: CameraInternal<u32> = CameraInternal::new();
    session.start(format(640));
    assert_eq!(Worker::new().configured(&mut session, None), WorkerAction::Exit);
    assert!(!session.running);
    let expected = Err(CameraError::Runtime(
        "Error: Camera was closed before worker could start".to_string(),
    ));
    assert_eq!(session.check_err(), expected);
    assert_eq!(session.check_err(), expected);
}

#[test]
fn the_first_error_of_configuring_is_reported() {
    let cases = [
        (Err("format".to_string()), Ok(()), "format"),
        (Err("format".to_string()), Err("stream".to_string()), "format"),
        (Ok(()), Err("stream".to_string()), "stream"),
    ];
    for (set_format, open_stream, text) in cases {
        let mut session: CameraInternal<u32> = CameraInternal::new();
        session.start(format(640));
        let action = Worker::new().configured(&mut session, Some((set_format, open_stream)));
        assert_eq!(action, WorkerAction::Exit);
        assert!(!session.running);
        assert_eq!(session.active_count, 1);
        assert_eq!(session.check_err(), Err(CameraError::Runtime(text.to_string())));
    }
}

#[test]
fn the_fourth_failure_in_a_row_ends_the_worker() {
    assert_eq!(TOLERATED_FAILURES, 3);
    let (mut session, mut worker) = streaming();
    for n in 1..=3 {
        assert_eq!(
            worker.captured(&mut session, failure(&format!("failure {n}"))),
            WorkerAction::Capture
        );
        assert_eq!(session.check_err(), Ok(()));
    }
    assert_eq!(worker.captured(&mut session, failure("failure 4")), WorkerAction::StopStream);
    assert_eq!(session.check_err(), Err(CameraError::Runtime("failure 4".to_string())));
    worker.stopped(&mut session);
    assert!(!session.running);
    assert_eq!(session.active_count, 1);
}

#[test]
fn a_frame_starts_the_count_anew() {
    let (mut session, mut worker) = streaming();
    for _ in 0..3 {
        worker.captured(&mut session, failure("timeout"));
    }
    // Even one that cannot be decoded.
    assert_eq!(worker.captured(&mut session, CaptureOutcome::Frame(None)), WorkerAction::Capture);
    assert_eq!(session.last_frame().1, 0);
    for _ in 0..3 {
        assert_eq!(worker.captured(&mut session, failure("timeout")), WorkerAction::Capture);
    }
    assert_eq!(
        worker.captured(&mut session, CaptureOutcome::Panicked),
        WorkerAction::StopStream
    );
    assert_eq!(
        session.check_err(),
        Err(CameraError::Runtime("Error: Frame capture panic".to_string()))
    );
}

#[test]
fn a_released_camera_ends_the_worker_without_an_error() {
    let (mut session, mut worker) = streaming();
    assert_eq!(
        worker.captured(&mut session, CaptureOutcome::CameraGone),
        WorkerAction::StopStream
    );
    assert_eq!(session.check_err(), Ok(()));
}

#[test]
fn a_worker_without_users_does_not_capture() {
    let (mut session, mut worker) = streaming();
    session.active_count = 0;
    assert_eq!(worker.captured(&mut session, failure("timeout")), WorkerAction::StopStream);
    assert_eq!(
        Worker::new().configured(&mut session, Some((Ok(()), Ok(())))),
        WorkerAction::StopStream
    );
}
