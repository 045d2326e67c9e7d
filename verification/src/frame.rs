//! Decoded frames: publishing the latest one, and polling it.

use std::sync::Arc;

use vstd::prelude::*;

verus! {

/// An RGB image, three bytes per pixel, row by row.
#[derive(Debug, PartialEq, Eq)]
pub struct Image {
    pub width: u32,
    pub height: u32,
    pub raw: Vec<u8>,
}

/// An [`Image`] as contracts speak of it.
pub struct ImageView {
    pub width: u32,
    pub height: u32,
    pub raw: Seq<u8>,
}

impl View for Image {
    type V = ImageView;

    open spec fn view(&self) -> ImageView {
        ImageView { width: self.width, height: self.height, raw: self.raw@ }
    }
}

/// The latest decoded frame, with the number of frames that were published so far.
#[derive(Debug)]
pub struct FrameSnapshot {
    pub seq: u64,
    pub frame: Arc<Option<Image>>,
}

/// The image in an offer, if there is one.
pub open spec fn frame_view(frame: Option<Image>) -> Option<ImageView> {
    match frame {
        Some(image) => Some(image@),
        None => None,
    }
}

impl FrameSnapshot {
    /// Nothing has been published yet.
    pub fn new() -> (snapshot: FrameSnapshot)
        ensures
            snapshot.seq == 0,
            *snapshot.frame is None,
            frame_view(*snapshot.frame) is None,
    {
        FrameSnapshot { seq: 0, frame: Arc::new(None) }
    }

    /// Publishes `image` under the next number.
    pub fn store(&mut self, image: Image)
        requires
            old(self).seq < u64::MAX,
        ensures
            final(self).seq == old(self).seq + 1,
            *final(self).frame == Some(image),
            frame_view(*final(self).frame) == Some(image@),
    {
        self.seq = self.seq + 1;
        self.frame = Arc::new(Some(image));
    }

    /// Withdraws the frame; the count goes on from where it is.
    pub fn clear(&mut self)
        ensures
            final(self).seq == old(self).seq,
            *final(self).frame is None,
            frame_view(*final(self).frame) is None,
    {
        self.frame = Arc::new(None);
    }

    /// The frame and its number.
    pub fn latest(&self) -> (latest: (Arc<Option<Image>>, u64))
        ensures
            latest.0 == self.frame,
            latest.1 == self.seq,
    {
        (Arc::clone(&self.frame), self.seq)
    }
}

/// Width, height and bytes of the frame on offer, if there is one.
pub fn poll_frame(frame: &Option<Image>) -> (polled: Option<(u32, u32, &Vec<u8>)>)
    ensures
        polled is Some <==> *frame is Some,
        polled matches Some((width, height, raw)) ==> {
            &&& *frame matches Some(image)
            &&& width == image.width
            &&& height == image.height
            &&& raw@ == image.raw@
        },
        match frame_view(*frame) {
            Some(image) => {
                &&& polled matches Some((width, height, raw))
                &&& (ImageView { width, height, raw: raw@ }) == image
            },
            None => polled is None,
        },
{
    match frame {
        Some(image) => Some((image.width, image.height, &image.raw)),
        None => None,
    }
}

/// The same, with the number of the frame.
pub fn poll_frame_with_seq(frame: &Option<Image>, seq: u64) -> (polled: Option<
    (u32, u32, &Vec<u8>, u64),
>)
    ensures
        polled is Some <==> *frame is Some,
        polled matches Some((width, height, raw, number)) ==> {
            &&& *frame matches Some(image)
            &&& width == image.width
            &&& height == image.height
            &&& raw@ == image.raw@
            &&& number == seq
        },
        match frame_view(*frame) {
            Some(image) => {
                &&& polled matches Some((width, height, raw, number))
                &&& (ImageView { width, height, raw: raw@ }) == image
                &&& number == seq
            },
            None => polled is None,
        },
{
    match frame {
        Some(image) => Some((image.width, image.height, &image.raw, seq)),
        None => None,
    }
}

/// An image is seen with its own size and its own bytes, and there is one to see exactly if there
/// is one.
pub proof fn a_frame_is_seen_as_it_is(frame: Option<Image>)
    ensures
        frame_view(frame) is Some <==> frame is Some,
        frame matches Some(image) ==> {
            &&& frame_view(frame) matches Some(seen)
            &&& seen.width == image.width
            &&& seen.height == image.height
            &&& seen.raw == image.raw@
        },
{
}

} // verus!
