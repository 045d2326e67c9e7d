use std::sync::Arc;

use image::{ImageBuffer, Rgb};
use nokhwa::pixel_format::RgbFormat;
use nokhwa::utils::{FrameFormat as DeviceFrameFormat, Resolution};
use pynokhwa::decode::{can_decode, decode_frame, image_from_decoded, RawFrame};
use pynokhwa::format::FrameFormat;
use pynokhwa::frame::{poll_frame, poll_frame_with_seq, FrameSnapshot, Image};

fn frame(width: u32, height: u32, bytes: Vec<u8>, format: FrameFormat) -> RawFrame {
    RawFrame { width, height, bytes, format }
}

fn image(width: u32, height: u32, raw: Vec<u8>) -> Image {
    Image { width, height, raw }
}

fn from_buffer(buffer: ImageBuffer<Rgb<u8>, Vec<u8>>) -> Image {
    image(buffer.width(), buffer.height(), buffer.into_raw())
}

#[test]
fn test_frame_snapshot_seq_increments() {
    let snapshot_mutex = parking_lot::FairMutex::new(FrameSnapshot {
        seq: 0,
        frame: Arc::new(None),
    });

    // Initial state: seq=0, frame=None
    {
        let s = snapshot_mutex.lock();
        assert_eq!(s.seq, 0);
        assert!(s.frame.is_none());
    }

    // Simulate worker storing a frame: seq should advance
    {
        let mut s = snapshot_mutex.lock();
        s.seq += 1;
        s.frame = Arc::new(Some(from_buffer(ImageBuffer::from_pixel(2, 2, Rgb([255u8, 0, 0])))));
    }
    {
        let s = snapshot_mutex.lock();
        assert_eq!(s.seq, 1);
        assert!(s.frame.is_some());
    }

    // Two reads without worker update: seq stays the same
    let seq1 = snapshot_mutex.lock().seq;
    let seq2 = snapshot_mutex.lock().seq;
    assert_eq!(seq1, seq2);

    // Simulate close: clear frame, seq stays monotonic
    {
        let mut s = snapshot_mutex.lock();
        s.frame = Arc::new(None);
    }
    {
        let s = snapshot_mutex.lock();
        assert_eq!(s.seq, 1);
        assert!(s.frame.is_none());
    }
}

#[test]
fn a_snapshot_counts_what_it_stores() {
    let mut snapshot = FrameSnapshot::new();
    assert_eq!(snapshot.latest().1, 0);
    assert!(snapshot.latest().0.is_none());

    snapshot.store(from_buffer(ImageBuffer::from_pixel(2, 2, Rgb([255u8, 0, 0]))));
    let (frame, seq) = snapshot.latest();
    assert_eq!(seq, 1);
    assert_eq!(*frame, Some(image(2, 2, vec![255, 0, 0, 255, 0, 0, 255, 0, 0, 255, 0, 0])));

    snapshot.clear();
    assert_eq!(snapshot.latest().1, 1);
    assert!(snapshot.latest().0.is_none());

    snapshot.store(image(1, 1, vec![1, 2, 3]));
    assert_eq!(snapshot.latest().1, 2);
    // A reader keeps the frame that it was handed.
    assert!(frame.is_some());
}

#[test]
fn raw_rgb_is_taken_as_it_stands() {
    let bytes = vec![1, 2, 3, 4, 5, 6];
    let raw = frame(2, 1, bytes.clone(), FrameFormat::RAWRGB);
    assert!(can_decode(&raw));
    assert_eq!(decode_frame(&raw), Some(image(2, 1, bytes)));
}

#[test]
fn raw_bgr_is_reversed_in_groups() {
    let raw = frame(2, 1, vec![1, 2, 3, 4, 5, 6, 7, 8], FrameFormat::RAWBGR);
    assert_eq!(decode_frame(&raw), Some(image(2, 1, vec![3, 2, 1, 6, 5, 4, 0, 0])));
}

#[test]
fn gray_is_repeated() {
    let raw = frame(2, 1, vec![10, 20], FrameFormat::GRAY);
    assert_eq!(decode_frame(&raw), Some(image(2, 1, vec![10, 10, 10, 20, 20, 20])));
}

#[test]
fn chroma_layouts_are_decoded_by_the_device_crate() {
    let yuyv = vec![81, 90, 145, 240, 16, 128, 235, 128];
    let nv12 = vec![81, 145, 16, 235, 90, 240];
    let cases = [
        (2, 2, yuyv, FrameFormat::YUYV, DeviceFrameFormat::YUYV),
        (2, 2, nv12, FrameFormat::NV12, DeviceFrameFormat::NV12),
    ];
    for (width, height, bytes, format, device_format) in cases {
        let buffer = nokhwa::Buffer::new(Resolution::new(width, height), &bytes, device_format);
        let expected = from_buffer(buffer.decode_image::<RgbFormat>().unwrap());
        assert_eq!(expected.raw.len(), 12);
        assert_ne!(expected.raw, bytes);
        assert_eq!(decode_frame(&frame(width, height, bytes, format)), Some(expected));
    }
}

#[test]
fn chroma_is_computed_for_every_pixel() {
    // Red and a lighter red share their chroma; black and white have none.
    let yuyv = vec![81, 90, 145, 240, 16, 128, 235, 128];
    assert_eq!(
        decode_frame(&frame(2, 2, yuyv, FrameFormat::YUYV)),
        Some(image(2, 2, vec![255, 0, 0, 255, 74, 74, 0, 0, 0, 255, 255, 255]))
    );
    // Four columns and two rows, with one pair of chroma bytes for each half.
    let nv12 = vec![81, 145, 16, 235, 16, 235, 126, 41, 90, 240, 128, 128];
    assert_eq!(
        decode_frame(&frame(4, 2, nv12, FrameFormat::NV12)),
        Some(image(
            4,
            2,
            vec![
                255, 0, 0, 255, 74, 74, 0, 0, 0, 255, 255, 255, 179, 0, 0, 255, 179, 178, 128, 128,
                128, 29, 29, 29
            ]
        ))
    );
}

#[test]
fn frames_of_the_wrong_size_are_not_decoded() {
    assert_eq!(decode_frame(&frame(2, 2, vec![0; 11], FrameFormat::RAWRGB)), None);
    assert_eq!(decode_frame(&frame(2, 2, vec![0; 11], FrameFormat::RAWBGR)), None);
    assert_eq!(decode_frame(&frame(2, 2, vec![0; 3], FrameFormat::GRAY)), None);
    assert_eq!(decode_frame(&frame(2, 2, vec![0; 6], FrameFormat::YUYV)), None);
    assert_eq!(decode_frame(&frame(2, 2, vec![0; 4], FrameFormat::YUYV)), None);
    assert_eq!(decode_frame(&frame(2, 2, vec![0; 7], FrameFormat::NV12)), None);
    assert_eq!(decode_frame(&frame(3, 2, vec![0; 9], FrameFormat::NV12)), None);
    // Bytes beyond the image stay in the buffer.
    assert_eq!(
        decode_frame(&frame(1, 1, vec![1, 2, 3, 4], FrameFormat::RAWRGB)),
        Some(image(1, 1, vec![1, 2, 3, 4]))
    );
    assert_eq!(
        decode_frame(&frame(0, 5, Vec::new(), FrameFormat::RAWRGB)),
        Some(image(0, 5, Vec::new()))
    );
}

#[test]
fn only_total_decoders_are_offered() {
    assert!(!can_decode(&frame(1, 1, vec![0; 3], FrameFormat::MJPEG)));
    assert!(!can_decode(&frame(1, 1, vec![0; 3], FrameFormat::BA10)));
    assert!(!can_decode(&frame(1, 1, vec![0; 3], FrameFormat::BA12)));
    assert!(can_decode(&frame(0, 2, Vec::new(), FrameFormat::YUYV)));
    assert!(!can_decode(&frame(0, 2, Vec::new(), FrameFormat::NV12)));
    assert!(!can_decode(&frame(65536, 65536, Vec::new(), FrameFormat::NV12)));
    assert!(can_decode(&frame(1920, 1080, Vec::new(), FrameFormat::NV12)));
    // A frame without rows, as wide as a row in RGB can be counted, and one wider.
    assert!(can_decode(&frame(1431655765, 0, Vec::new(), FrameFormat::NV12)));
    assert!(!can_decode(&frame(1431655766, 0, Vec::new(), FrameFormat::NV12)));
    assert_eq!(decode_frame(&frame(1431655765, 0, Vec::new(), FrameFormat::NV12)), None);
    assert_eq!(
        decode_frame(&frame(1431655764, 0, Vec::new(), FrameFormat::NV12)),
        Some(image(1431655764, 0, Vec::new()))
    );
}

#[test]
fn decoded_parts_become_an_image_if_they_fit() {
    assert_eq!(
        image_from_decoded(Some((1, 2, vec![1, 2, 3, 4, 5, 6]))),
        Some(image(1, 2, vec![1, 2, 3, 4, 5, 6]))
    );
    assert_eq!(image_from_decoded(Some((1, 2, vec![1, 2, 3, 4, 5]))), None);
    assert_eq!(image_from_decoded(Some((u32::MAX, u32::MAX, vec![1, 2, 3]))), None);
    assert_eq!(image_from_decoded(None), None);
}

#[test]
fn polling_gives_size_and_bytes() {
    let offered = Some(image(1, 1, vec![7, 8, 9]));
    let bytes = vec![7, 8, 9];
    assert_eq!(poll_frame(&offered), Some((1, 1, &bytes)));
    assert_eq!(poll_frame_with_seq(&offered, 42), Some((1, 1, &bytes, 42)));
    assert_eq!(poll_frame(&None), None);
    assert_eq!(poll_frame_with_seq(&None, 42), None);
}
