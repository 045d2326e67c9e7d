//! From the bytes of a captured frame to an RGB image.

use vstd::prelude::*;

use crate::format::FrameFormat;
use crate::frame::{Image, ImageView, frame_view};

verus! {

/// A frame as a camera delivers it.
#[derive(Debug, PartialEq, Eq)]
pub struct RawFrame {
    pub width: u32,
    pub height: u32,
    pub bytes: Vec<u8>,
    pub format: FrameFormat,
}

/// The encodings whose decoder is total: it returns on every input within the limits of
/// [`within_limits`].
#[derive(Clone, Copy, Debug, PartialEq, Eq, Structural)]
pub enum PixelLayout {
    Yuyv,
    Nv12,
    Gray,
    RawRgb,
    RawBgr,
}

/// The layout of an encoding that has a total decoder.
pub open spec fn layout_of(format: FrameFormat) -> Option<PixelLayout> {
    match format {
        FrameFormat::YUYV => Some(PixelLayout::Yuyv),
        FrameFormat::NV12 => Some(PixelLayout::Nv12),
        FrameFormat::GRAY => Some(PixelLayout::Gray),
        FrameFormat::RAWRGB => Some(PixelLayout::RawRgb),
        FrameFormat::RAWBGR => Some(PixelLayout::RawBgr),
        FrameFormat::MJPEG | FrameFormat::BA10 | FrameFormat::BA12 => None,
    }
}

/// The sizes for which the decoder of `layout` stays clear of arithmetic overflow, of a buffer that
/// outgrows what can be allocated, and of rows without pixels.
pub open spec fn within_limits(width: u32, height: u32, len: nat, layout: PixelLayout) -> bool {
    match layout {
        PixelLayout::RawRgb | PixelLayout::RawBgr => true,
        PixelLayout::Gray => 6 * len <= isize::MAX,
        PixelLayout::Yuyv => 2 * len <= isize::MAX,
        PixelLayout::Nv12 => {
            &&& width > 0
            &&& 3 * width <= u32::MAX
            &&& 3 * (width * height) <= u32::MAX
            &&& 3 * (width * height) <= isize::MAX
        },
    }
}

/// Whether [`decode_frame`] takes the frame.
pub open spec fn is_decodable(frame: RawFrame) -> bool {
    layout_of(frame.format) matches Some(layout) && within_limits(
        frame.width,
        frame.height,
        frame.bytes@.len(),
        layout,
    )
}

/// Whether `len` bytes hold an image of this size.
pub open spec fn image_fits(width: u32, height: u32, len: nat) -> bool {
    &&& 3 * width <= usize::MAX
    &&& 3 * width * height <= len
}

/// The image of this size in `raw`, if it fits there.
pub open spec fn image_in(width: u32, height: u32, raw: Seq<u8>) -> Option<ImageView> {
    if image_fits(width, height, raw.len()) {
        Some(ImageView { width, height, raw })
    } else {
        None
    }
}

/// Every byte three times over.
pub open spec fn gray_to_rgb(bytes: Seq<u8>) -> Seq<u8> {
    Seq::new(3 * bytes.len(), |i: int| bytes[i / 3])
}

/// Each group of three bytes reversed; zeros where the last group is incomplete.
pub open spec fn bgr_to_rgb(bytes: Seq<u8>) -> Seq<u8> {
    Seq::new(
        bytes.len(),
        |i: int|
            if 3 * (i / 3) + 3 <= bytes.len() {
                bytes[3 * (i / 3) + 2 - i % 3]
            } else {
                0u8
            },
    )
}

/// `n` brought into the range of a byte.
pub open spec fn clamped(n: int) -> u8 {
    if n < 0 {
        0
    } else if n > 255 {
        255
    } else {
        n as u8
    }
}

/// One channel of a pixel in YCbCr: red, green or blue.
pub open spec fn rgb_channel(y: u8, u: u8, v: u8, channel: int) -> u8 {
    let luma = 298 * (y - 16) + 128;
    let d = u - 128;
    let e = v - 128;
    if channel == 0 {
        clamped((luma + 409 * e) / 256)
    } else if channel == 1 {
        clamped((luma - 100 * d - 208 * e) / 256)
    } else {
        clamped((luma + 516 * d) / 256)
    }
}

/// Two pixels for each group of four bytes, which holds their two lumas and the chroma that they
/// share.
pub open spec fn yuyv_to_rgb(bytes: Seq<u8>) -> Seq<u8> {
    Seq::new(
        bytes.len() / 4 * 6,
        |i: int|
            {
                let group = i / 6 * 4;
                let luma = group + i % 6 / 3 * 2;
                rgb_channel(bytes[luma], bytes[group + 1], bytes[group + 3], i % 3)
            },
    )
}

/// One pixel for each luma; behind the lumas stands one pair of chroma bytes for each square of
/// four pixels.
pub open spec fn nv12_to_rgb(width: u32, height: u32, bytes: Seq<u8>) -> Seq<u8> {
    Seq::new(
        (3 * (width * height)) as nat,
        |i: int|
            {
                let pixel = i / 3;
                let row = pixel / (width as int);
                let column = pixel % (width as int);
                let chroma = width * height + row / 2 * width + column / 2 * 2;
                rgb_channel(bytes[pixel], bytes[chroma], bytes[chroma + 1], i % 3)
            },
    )
}

/// The bytes of a frame in RGB; `None` if their number does not suit the layout.
pub open spec fn rgb_bytes(
    width: u32,
    height: u32,
    bytes: Seq<u8>,
    layout: PixelLayout,
) -> Option<Seq<u8>> {
    match layout {
        PixelLayout::RawRgb => Some(bytes),
        PixelLayout::RawBgr => Some(bgr_to_rgb(bytes)),
        PixelLayout::Gray => Some(gray_to_rgb(bytes)),
        PixelLayout::Yuyv => if bytes.len() % 4 == 0 {
            Some(yuyv_to_rgb(bytes))
        } else {
            None
        },
        PixelLayout::Nv12 => if width % 2 == 0 && height % 2 == 0 && bytes.len() == 3 * (width
            * height) / 2 {
            Some(nv12_to_rgb(width, height, bytes))
        } else {
            None
        },
    }
}

/// The image that a frame shows; `None` if its bytes do not make up one of its size.
pub open spec fn decoded_rgb(
    width: u32,
    height: u32,
    bytes: Seq<u8>,
    layout: PixelLayout,
) -> Option<ImageView> {
    match rgb_bytes(width, height, bytes, layout) {
        Some(raw) => image_in(width, height, raw),
        None => None,
    }
}

/// An image taken apart.
pub type ImageParts = (u32, u32, Vec<u8>);

/// The image that its parts make up.
pub open spec fn parts_view(parts: Option<ImageParts>) -> Option<ImageView> {
    match parts {
        Some((width, height, raw)) => Some(ImageView { width, height, raw: raw@ }),
        None => None,
    }
}

/// `nokhwa::Buffer::decode_image` with the decoder `RgbFormat`; an error counts as no image.
///
/// Trusted: it copies raw RGB, reverses the groups of raw BGR, repeats gray bytes, and computes the
/// pixels of the two chroma layouts in integer arithmetic; it refuses chroma data of the wrong
/// length, an NV12 frame of odd size, and a result too short for the resolution. Within the limits
/// none of these decoders panics.
#[verifier::external_body]
fn decode_rgb(width: u32, height: u32, bytes: &Vec<u8>, layout: PixelLayout) -> (parts: Option<
    ImageParts,
>)
    requires
        within_limits(width, height, bytes@.len(), layout),
    ensures
        parts_view(parts) == decoded_rgb(width, height, bytes@, layout),
{
    let source = match layout {
        PixelLayout::Yuyv => nokhwa::utils::FrameFormat::YUYV,
        PixelLayout::Nv12 => nokhwa::utils::FrameFormat::NV12,
        PixelLayout::Gray => nokhwa::utils::FrameFormat::GRAY,
        PixelLayout::RawRgb => nokhwa::utils::FrameFormat::RAWRGB,
        PixelLayout::RawBgr => nokhwa::utils::FrameFormat::RAWBGR,
    };
    let buffer = nokhwa::Buffer::new(nokhwa::utils::Resolution::new(width, height), bytes, source);
    match buffer.decode_image::<nokhwa::pixel_format::RgbFormat>() {
        Ok(image) => Some((image.width(), image.height(), image.into_raw())),
        Err(_) => None,
    }
}

/// `image::ImageBuffer::from_raw` for RGB pixels.
///
/// Trusted: it wraps the buffer unchanged, and refuses one that is too short for the dimensions,
/// or dimensions whose size in bytes no buffer can have.
#[verifier::external_body]
fn image_buffer(width: u32, height: u32, raw: Vec<u8>) -> (parts: Option<ImageParts>)
    ensures
        parts_view(parts) == image_in(width, height, raw@),
{
    image::ImageBuffer::<image::Rgb<u8>, Vec<u8>>::from_raw(width, height, raw).map(
        |buffer| (buffer.width(), buffer.height(), buffer.into_raw()),
    )
}

/// Tests whether [`decode_frame`] takes the frame.
pub fn can_decode(frame: &RawFrame) -> (decodable: bool)
    ensures
        decodable == is_decodable(*frame),
{
    match layout(frame.format) {
        Some(layout) => fits_limits(frame.width, frame.height, frame.bytes.len(), layout),
        None => false,
    }
}

fn layout(format: FrameFormat) -> (layout: Option<PixelLayout>)
    ensures
        layout == layout_of(format),
{
    match format {
        FrameFormat::YUYV => Some(PixelLayout::Yuyv),
        FrameFormat::NV12 => Some(PixelLayout::Nv12),
        FrameFormat::GRAY => Some(PixelLayout::Gray),
        FrameFormat::RAWRGB => Some(PixelLayout::RawRgb),
        FrameFormat::RAWBGR => Some(PixelLayout::RawBgr),
        FrameFormat::MJPEG | FrameFormat::BA10 | FrameFormat::BA12 => None,
    }
}

fn fits_limits(width: u32, height: u32, len: usize, layout: PixelLayout) -> (fits: bool)
    ensures
        fits == within_limits(width, height, len as nat, layout),
{
    let allocation: usize = isize::MAX as usize;
    match layout {
        PixelLayout::RawRgb | PixelLayout::RawBgr => true,
        PixelLayout::Gray => len <= allocation / 6,
        PixelLayout::Yuyv => len <= allocation / 2,
        PixelLayout::Nv12 => {
            assert(width * height <= u32::MAX * u32::MAX) by (nonlinear_arith)
                requires
                    0 <= width <= u32::MAX,
                    0 <= height <= u32::MAX,
            ;
            let pixels: u64 = width as u64 * height as u64;
            width > 0 && width <= u32::MAX / 3 && pixels <= u32::MAX as u64 / 3 && pixels <= allocation as u64 / 3
        },
    }
}

/// Makes an image of what the decoder returned.
pub fn image_from_decoded(decoded: Option<ImageParts>) -> (image: Option<Image>)
    ensures
        frame_view(image) == match parts_view(decoded) {
            Some(parts) => image_in(parts.width, parts.height, parts.raw),
            None => None,
        },
{
    match decoded {
        Some((width, height, raw)) => match image_buffer(width, height, raw) {
            Some((width, height, raw)) => Some(Image { width, height, raw }),
            None => None,
        },
        None => None,
    }
}

/// Decodes a frame to RGB; `None` if it cannot be decoded.
pub fn decode_frame(frame: &RawFrame) -> (image: Option<Image>)
    requires
        is_decodable(*frame),
    ensures
        frame_view(image) == decoded_rgb(
            frame.width,
            frame.height,
            frame.bytes@,
            layout_of(frame.format).unwrap(),
        ),
{
    match layout(frame.format) {
        Some(layout) => image_from_decoded(
            decode_rgb(frame.width, frame.height, &frame.bytes, layout),
        ),
        None => None,
    }
}

/// An image is made of a buffer exactly if the buffer is long enough for it, and then with the size
/// that was asked for and with the buffer unchanged.
pub proof fn a_buffer_becomes_an_image_unchanged(width: u32, height: u32, raw: Seq<u8>)
    ensures
        image_in(width, height, raw) is Some <==> 3 * width <= usize::MAX && 3 * width * height
            <= raw.len(),
        image_in(width, height, raw) matches Some(image) ==> {
            &&& image.width == width
            &&& image.height == height
            &&& image.raw == raw
        },
{
}

/// The parts of an image are seen as they are.
pub proof fn parts_are_seen_as_they_are(parts: Option<ImageParts>)
    ensures
        parts_view(parts) is Some <==> parts is Some,
        parts matches Some((width, height, raw)) ==> {
            &&& parts_view(parts) matches Some(image)
            &&& image.width == width
            &&& image.height == height
            &&& image.raw == raw@
        },
{
}

/// Frames of raw and gray encodings are taken at any size that can be allocated, YUYV frames too,
/// and NV12 frames that have pixels, as long as their size can be computed. Other encodings are
/// never taken.
pub proof fn these_frames_are_taken(frame: RawFrame)
    ensures
        frame.format is RAWRGB || frame.format is RAWBGR ==> is_decodable(frame),
        frame.format is GRAY ==> (is_decodable(frame) <==> 6 * frame.bytes@.len() <= isize::MAX),
        frame.format is YUYV ==> (is_decodable(frame) <==> 2 * frame.bytes@.len() <= isize::MAX),
        frame.format is NV12 ==> (is_decodable(frame) <==> {
            &&& frame.width > 0
            &&& 3 * frame.width <= u32::MAX
            &&& 3 * (frame.width * frame.height) <= u32::MAX
            &&& 3 * (frame.width * frame.height) <= isize::MAX
        }),
        frame.format is MJPEG || frame.format is BA10 || frame.format is BA12 ==> !is_decodable(
            frame,
        ),
{
}

/// Raw RGB is taken as it is.
pub proof fn rgb_is_taken_as_it_is(width: u32, height: u32, bytes: Seq<u8>)
    requires
        3 * width <= usize::MAX,
        3 * width * height <= bytes.len(),
    ensures
        layout_of(FrameFormat::RAWRGB) matches Some(layout) && decoded_rgb(
            width,
            height,
            bytes,
            layout,
        ) == Some(ImageView { width, height, raw: bytes }),
{
}

/// Raw BGR has the bytes of each pixel reversed; an incomplete one at the end is black.
pub proof fn bgr_has_its_pixels_reversed(width: u32, height: u32, bytes: Seq<u8>)
    requires
        3 * width <= usize::MAX,
        3 * width * height <= bytes.len(),
    ensures
        ({
            &&& layout_of(FrameFormat::RAWBGR) matches Some(layout)
            &&& decoded_rgb(width, height, bytes, layout) matches Some(image)
            &&& image.width == width && image.height == height
            &&& image.raw.len() == bytes.len()
            &&& forall|pixel: int|
                #![trigger bytes[3 * pixel]]
                0 <= pixel && 3 * pixel + 3 <= bytes.len() ==> image.raw[3 * pixel] == bytes[3
                    * pixel + 2] && image.raw[3 * pixel + 1] == bytes[3 * pixel + 1] && image.raw[3
                    * pixel + 2] == bytes[3 * pixel]
            &&& forall|i: int|
                bytes.len() - bytes.len() % 3 <= i < bytes.len() ==> #[trigger] image.raw[i] == 0
        }),
{
}

/// Each byte of a gray frame becomes one pixel with three equal channels.
pub proof fn gray_becomes_three_equal_channels(width: u32, height: u32, bytes: Seq<u8>)
    requires
        3 * width <= usize::MAX,
        3 * width * height <= 3 * bytes.len(),
    ensures
        ({
            &&& layout_of(FrameFormat::GRAY) matches Some(layout)
            &&& decoded_rgb(width, height, bytes, layout) matches Some(image)
            &&& image.width == width && image.height == height
            &&& image.raw.len() == 3 * bytes.len()
            &&& forall|pixel: int|
                #![trigger bytes[pixel]]
                0 <= pixel < bytes.len() ==> image.raw[3 * pixel] == bytes[pixel] && image.raw[3
                    * pixel + 1] == bytes[pixel] && image.raw[3 * pixel + 2] == bytes[pixel]
        }),
{
}

/// A YUYV frame is made of whole groups of four bytes, or it cannot be decoded. Each pixel has a
/// luma of its own, and shares its chroma with the other pixel of its group.
pub proof fn yuyv_pixels_share_chroma_in_pairs(width: u32, height: u32, bytes: Seq<u8>)
    requires
        3 * width <= usize::MAX,
        3 * width * height <= bytes.len() / 4 * 6,
    ensures
        ({
            &&& layout_of(FrameFormat::YUYV) matches Some(layout)
            &&& decoded_rgb(width, height, bytes, layout) is Some <==> bytes.len() % 4 == 0
            &&& decoded_rgb(width, height, bytes, layout) matches Some(image) ==> {
                &&& image.width == width && image.height == height
                &&& 2 * image.raw.len() == 3 * bytes.len()
                &&& forall|pixel: int, channel: int|
                    #![trigger image.raw[3 * pixel + channel]]
                    0 <= pixel && 2 * pixel < bytes.len() && 0 <= channel < 3 ==> image.raw[3
                        * pixel + channel] == rgb_channel(
                        bytes[2 * pixel],
                        bytes[4 * (pixel / 2) + 1],
                        bytes[4 * (pixel / 2) + 3],
                        channel,
                    )
            }
        }),
{
    let raw = yuyv_to_rgb(bytes);
    if bytes.len() % 4 == 0 {
        assert forall|pixel: int, channel: int|
            #![trigger raw[3 * pixel + channel]]
            0 <= pixel && 2 * pixel < bytes.len() && 0 <= channel < 3 implies raw[3 * pixel
            + channel] == rgb_channel(
            bytes[2 * pixel],
            bytes[4 * (pixel / 2) + 1],
            bytes[4 * (pixel / 2) + 3],
            channel,
        ) by {
            let i = 3 * pixel + channel;
            assert(i / 6 == pixel / 2);
            assert(i % 3 == channel);
            assert(i % 6 / 3 == pixel % 2);
            assert(i / 6 * 4 + i % 6 / 3 * 2 == 2 * pixel);
        }
    }
}

/// An NV12 frame has even sides and one and a half bytes per pixel, or it cannot be decoded. Each
/// pixel has a luma of its own, and shares its chroma with the three others of its square.
pub proof fn nv12_pixels_share_chroma_in_squares(width: u32, height: u32, bytes: Seq<u8>)
    requires
        3 * width <= usize::MAX,
        width > 0,
    ensures
        ({
            &&& layout_of(FrameFormat::NV12) matches Some(layout)
            &&& decoded_rgb(width, height, bytes, layout) is Some <==> {
                &&& width % 2 == 0
                &&& height % 2 == 0
                &&& 2 * bytes.len() == 3 * (width * height)
            }
            &&& decoded_rgb(width, height, bytes, layout) matches Some(image) ==> {
                &&& image.width == width && image.height == height
                &&& image.raw.len() == 3 * (width * height)
                &&& forall|row: int, column: int, channel: int|
                    #![trigger image.raw[3 * (row * width + column) + channel]]
                    0 <= row < height && 0 <= column < width && 0 <= channel < 3 ==> image.raw[3 * (
                    row * width + column) + channel] == rgb_channel(
                        bytes[row * width + column],
                        bytes[width * height + row / 2 * width + column / 2 * 2],
                        bytes[width * height + row / 2 * width + column / 2 * 2 + 1],
                        channel,
                    )
            }
        }),
{
    let raw = nv12_to_rgb(width, height, bytes);
    assert(width * height >= 0) by (nonlinear_arith)
        requires
            width >= 0,
            height >= 0,
    ;
    assert(3 * width * height == 3 * (width * height)) by (nonlinear_arith);
    if width % 2 == 0 {
        assert((width * height) % 2 == 0) by (nonlinear_arith)
            requires
                width % 2 == 0,
        {
            let half = width as int / 2;
            assert(width == 2 * half);
            assert(width * height == 2 * (half * height));
        }
    }
    assert forall|row: int, column: int, channel: int|
        #![trigger raw[3 * (row * width + column) + channel]]
        0 <= row < height && 0 <= column < width && 0 <= channel < 3 implies raw[3 * (row * width
        + column) + channel] == rgb_channel(
        bytes[row * width + column],
        bytes[width * height + row / 2 * width + column / 2 * 2],
        bytes[width * height + row / 2 * width + column / 2 * 2 + 1],
        channel,
    ) by {
        lemma_pixel_position(width, height, row, column);
        let i = 3 * (row * width + column) + channel;
        assert(i / 3 == row * width + column && i % 3 == channel);
    }
}

/// Row and column of a pixel are the quotient and the remainder of its position.
proof fn lemma_pixel_position(width: u32, height: u32, row: int, column: int)
    requires
        0 <= row < height,
        0 <= column < width,
    ensures
        0 <= row * width + column < width * height,
        (row * width + column) / (width as int) == row,
        (row * width + column) % (width as int) == column,
{
    let pixel = row * width + column;
    assert(0 <= pixel < width * height) by (nonlinear_arith)
        requires
            0 <= row < height,
            0 <= column < width,
            pixel == row * width + column,
    ;
    vstd::arithmetic::div_mod::lemma_fundamental_div_mod_converse(
        pixel,
        width as int,
        row,
        column,
    );
}

/// A channel is the weighted sum of luma and chroma in units of 256, cut off at the ends of a byte.
pub proof fn a_channel_is_a_weighted_sum(y: u8, u: u8, v: u8)
    ensures
        ({
            let luma = 298 * (y - 16) + 128;
            let red = luma + 409 * (v - 128);
            let green = luma - 100 * (u - 128) - 208 * (v - 128);
            let blue = luma + 516 * (u - 128);
            &&& is_scaled_down(red, rgb_channel(y, u, v, 0))
            &&& is_scaled_down(green, rgb_channel(y, u, v, 1))
            &&& is_scaled_down(blue, rgb_channel(y, u, v, 2))
        }),
{
}

/// Whether `byte` is what is left of `sum` in units of 256.
pub open spec fn is_scaled_down(sum: int, byte: u8) -> bool {
    if sum < 0 {
        byte == 0
    } else if sum >= 65536 {
        byte == 255
    } else {
        256 * byte <= sum < 256 * byte + 256
    }
}

/// Without chroma a pixel is gray: black at the lowest luma of video, white at the highest, and the
/// brighter the higher its luma.
pub proof fn a_pixel_without_chroma_is_gray(y: u8, brighter: u8)
    requires
        y <= brighter,
    ensures
        rgb_channel(y, 128, 128, 0) == rgb_channel(y, 128, 128, 1),
        rgb_channel(y, 128, 128, 1) == rgb_channel(y, 128, 128, 2),
        rgb_channel(y, 128, 128, 0) <= rgb_channel(brighter, 128, 128, 0),
        y <= 16 ==> rgb_channel(y, 128, 128, 0) == 0,
        y >= 235 ==> rgb_channel(y, 128, 128, 0) == 255,
{
}

/// A decoded image has the size of its frame, and all of its pixels.
pub proof fn a_decoded_image_is_complete(frame: RawFrame)
    requires
        is_decodable(frame),
    ensures
        decoded_rgb(
            frame.width,
            frame.height,
            frame.bytes@,
            layout_of(frame.format).unwrap(),
        ) matches Some(image) ==> {
            &&& image.width == frame.width
            &&& image.height == frame.height
            &&& 3 * frame.width * frame.height <= image.raw.len()
        },
{
}

} // verus!
