//! Stream formats: their names, and what a caller may ask for.

use vstd::prelude::*;
use vstd::string::*;

use crate::error::{CameraError, CameraErrorView, not_initialized, not_initialized_error};
use crate::text::{concat, decimal, decimal_text};

verus! {

/// How the bytes of a captured frame are encoded.
#[derive(Clone, Copy, Debug, PartialEq, Eq, Structural)]
pub enum FrameFormat {
    MJPEG,
    YUYV,
    NV12,
    GRAY,
    RAWRGB,
    RAWBGR,
    /// Raw 10-bit Bayer GRBG straight off the sensor.
    BA10,
    /// Raw 12-bit Bayer GRBG straight off the sensor.
    BA12,
}

/// The format of a stream, as devices report and accept it.
#[derive(Clone, Copy, Debug, PartialEq, Eq, Structural)]
pub struct CameraFormat {
    pub width: u32,
    pub height: u32,
    pub format: FrameFormat,
    pub frame_rate: u32,
}

/// A stream format in the hands of a caller.
#[derive(Clone, Copy, Debug, PartialEq, Eq, Structural)]
pub struct CamFormat {
    pub width: u32,
    pub height: u32,
    pub frame_rate: u32,
    pub format: FrameFormat,
}

/// The name under which callers know an encoding.
pub open spec fn format_name(format: FrameFormat) -> Seq<char> {
    match format {
        FrameFormat::MJPEG => "mjpeg"@,
        FrameFormat::YUYV => "yuyv"@,
        FrameFormat::NV12 => "nv12"@,
        FrameFormat::GRAY => "gray"@,
        FrameFormat::RAWRGB => "rawrgb"@,
        FrameFormat::RAWBGR => "rawbgr"@,
        FrameFormat::BA10 => "ba10"@,
        FrameFormat::BA12 => "ba12"@,
    }
}

/// Whether `name` is the name of an encoding.
pub open spec fn is_format_name(name: Seq<char>) -> bool {
    exists|format: FrameFormat| #[trigger] format_name(format) == name
}

/// The answer to a name that is none.
pub open spec fn unsupported_format() -> CameraErrorView {
    CameraErrorView::Value(
        "Unsupported value (should be one of 'mjpeg', 'yuyv', 'gray', 'nv12', 'rawrgb', 'rawbgr', 'ba10', 'ba12')"@,
    )
}

/// No two encodings share a name.
pub proof fn format_names_are_distinct(a: FrameFormat, b: FrameFormat)
    requires
        format_name(a) == format_name(b),
    ensures
        a == b,
{
    reveal_strlit("mjpeg");
    reveal_strlit("yuyv");
    reveal_strlit("nv12");
    reveal_strlit("gray");
    reveal_strlit("rawrgb");
    reveal_strlit("rawbgr");
    reveal_strlit("ba10");
    reveal_strlit("ba12");
    assert("yuyv"@[0] == 'y' && "nv12"@[0] == 'n' && "gray"@[0] == 'g');
    assert("ba10"@[0] == 'b' && "ba12"@[0] == 'b');
    assert("ba10"@[3] == '0' && "ba12"@[3] == '2');
    assert("rawrgb"@[3] == 'r' && "rawbgr"@[3] == 'b');
}

/// The name of an encoding is accepted wherever a name is asked for, and stands for that encoding
/// alone.
pub proof fn an_encoding_is_restored_from_its_name(format: FrameFormat)
    ensures
        is_format_name(format_name(format)),
        forall|other: FrameFormat| #[trigger]
            format_name(other) == format_name(format) ==> other == format,
{
    assert forall|other: FrameFormat| #[trigger]
        format_name(other) == format_name(format) implies other == format by {
        format_names_are_distinct(other, format);
    }
}

impl CamFormat {
    /// A format made from its parts, which need not be one that a device has listed: some sensors
    /// report a range of resolutions, and the driver settles what is valid when the format is set.
    pub fn new(width: u32, height: u32, frame_rate: u32, format: String) -> (result: Result<
        CamFormat,
        CameraError,
    >)
        ensures
            result is Ok <==> is_format_name(format@),
            result matches Ok(made) ==> {
                &&& made.width == width
                &&& made.height == height
                &&& made.frame_rate == frame_rate
                &&& format_name(made.format) == format@
            },
            result matches Err(error) ==> error@ == unsupported_format(),
    {
        let mut made = CamFormat { width, height, frame_rate, format: FrameFormat::MJPEG };
        match made.set_format(format) {
            Ok(()) => Ok(made),
            Err(error) => Err(error),
        }
    }

    /// The name of the encoding.
    pub fn get_format(&self) -> (name: String)
        ensures
            name@ == format_name(self.format),
    {
        match self.format {
            FrameFormat::MJPEG => "mjpeg".to_owned(),
            FrameFormat::YUYV => "yuyv".to_owned(),
            FrameFormat::GRAY => "gray".to_owned(),
            FrameFormat::NV12 => "nv12".to_owned(),
            FrameFormat::RAWRGB => "rawrgb".to_owned(),
            FrameFormat::RAWBGR => "rawbgr".to_owned(),
            FrameFormat::BA10 => "ba10".to_owned(),
            FrameFormat::BA12 => "ba12".to_owned(),
        }
    }

    /// Changes the encoding to the one named `fmt`.
    pub fn set_format(&mut self, fmt: String) -> (result: Result<(), CameraError>)
        ensures
            result is Ok <==> is_format_name(fmt@),
            result is Ok ==> {
                &&& format_name(final(self).format) == fmt@
                &&& final(self).width == old(self).width
                &&& final(self).height == old(self).height
                &&& final(self).frame_rate == old(self).frame_rate
            },
            result matches Err(error) ==> error@ == unsupported_format() && *final(self) == *old(
                self,
            ),
    {
        let format = if fmt == "mjpeg".to_owned() {
            FrameFormat::MJPEG
        } else if fmt == "yuyv".to_owned() {
            FrameFormat::YUYV
        } else if fmt == "gray".to_owned() {
            FrameFormat::GRAY
        } else if fmt == "nv12".to_owned() {
            FrameFormat::NV12
        } else if fmt == "rawrgb".to_owned() {
            FrameFormat::RAWRGB
        } else if fmt == "rawbgr".to_owned() {
            FrameFormat::RAWBGR
        } else if fmt == "ba10".to_owned() {
            FrameFormat::BA10
        } else if fmt == "ba12".to_owned() {
            FrameFormat::BA12
        } else {
            return Err(
                CameraError::Value(
                    "Unsupported value (should be one of 'mjpeg', 'yuyv', 'gray', 'nv12', 'rawrgb', 'rawbgr', 'ba10', 'ba12')".to_owned(),
                ),
            );
        };
        assert(format_name(format) == fmt@);
        self.format = format;
        Ok(())
    }
}

impl From<CamFormat> for CameraFormat {
    fn from(fmt: CamFormat) -> (format: CameraFormat) {
        CameraFormat {
            width: fmt.width,
            height: fmt.height,
            format: fmt.format,
            frame_rate: fmt.frame_rate,
        }
    }
}

impl vstd::std_specs::convert::FromSpecImpl<CamFormat> for CameraFormat {
    open spec fn obeys_from_spec() -> bool {
        true
    }

    open spec fn from_spec(fmt: CamFormat) -> CameraFormat {
        CameraFormat {
            width: fmt.width,
            height: fmt.height,
            format: fmt.format,
            frame_rate: fmt.frame_rate,
        }
    }
}

impl From<CameraFormat> for CamFormat {
    fn from(fmt: CameraFormat) -> (format: CamFormat) {
        CamFormat {
            width: fmt.width,
            height: fmt.height,
            format: fmt.format,
            frame_rate: fmt.frame_rate,
        }
    }
}

impl vstd::std_specs::convert::FromSpecImpl<CameraFormat> for CamFormat {
    open spec fn obeys_from_spec() -> bool {
        true
    }

    open spec fn from_spec(fmt: CameraFormat) -> CamFormat {
        CamFormat {
            width: fmt.width,
            height: fmt.height,
            format: fmt.format,
            frame_rate: fmt.frame_rate,
        }
    }
}

/// Resolution and rate in the form that messages give them, such as `640x480@30`.
pub open spec fn mode_text(format: CameraFormat) -> Seq<char> {
    decimal(format.width as nat) + "x"@ + decimal(format.height as nat) + "@"@ + decimal(
        format.frame_rate as nat,
    )
}

/// Writes resolution and rate.
pub fn mode_to_text(format: CameraFormat) -> (text: String)
    ensures
        text@ == mode_text(format),
{
    let mut text = decimal_text(format.width);
    text.append("x");
    text.append(decimal_text(format.height).as_str());
    text.append("@");
    text.append(decimal_text(format.frame_rate).as_str());
    text
}

/// The name of an encoding in diagnostic output.
pub open spec fn format_debug(format: FrameFormat) -> Seq<char> {
    match format {
        FrameFormat::MJPEG => "MJPEG"@,
        FrameFormat::YUYV => "YUYV"@,
        FrameFormat::NV12 => "NV12"@,
        FrameFormat::GRAY => "GRAY"@,
        FrameFormat::RAWRGB => "RAWRGB"@,
        FrameFormat::RAWBGR => "RAWBGR"@,
        FrameFormat::BA10 => "BA10"@,
        FrameFormat::BA12 => "BA12"@,
    }
}

/// A stream format in diagnostic output.
pub open spec fn camera_format_debug(format: CameraFormat) -> Seq<char> {
    "CameraFormat { resolution: Resolution { width_x: "@ + decimal(format.width as nat)
        + ", height_y: "@ + decimal(format.height as nat) + " }, format: "@ + format_debug(
        format.format,
    ) + ", frame_rate: "@ + decimal(format.frame_rate as nat) + " }"@
}

fn format_debug_text(format: FrameFormat) -> (text: &'static str)
    ensures
        text@ == format_debug(format),
{
    match format {
        FrameFormat::MJPEG => "MJPEG",
        FrameFormat::YUYV => "YUYV",
        FrameFormat::NV12 => "NV12",
        FrameFormat::GRAY => "GRAY",
        FrameFormat::RAWRGB => "RAWRGB",
        FrameFormat::RAWBGR => "RAWBGR",
        FrameFormat::BA10 => "BA10",
        FrameFormat::BA12 => "BA12",
    }
}

/// Describes the format that a camera is set to; `None` if the device has been released.
pub fn info(current: Option<CameraFormat>) -> (result: Result<String, CameraError>)
    ensures
        match current {
            Some(format) => {
                result matches Ok(text) && text@ == "Selected format: "@ + camera_format_debug(
                    format,
                )
            },
            None => result matches Err(error) && error@ == not_initialized(),
        },
{
    match current {
        Some(format) => {
            let mut text = "CameraFormat { resolution: Resolution { width_x: ".to_owned();
            text.append(decimal_text(format.width).as_str());
            text.append(", height_y: ");
            text.append(decimal_text(format.height).as_str());
            text.append(" }, format: ");
            text.append(format_debug_text(format.format));
            text.append(", frame_rate: ");
            text.append(decimal_text(format.frame_rate).as_str());
            text.append(" }");
            Ok(concat("Selected format: ", text.as_str()))
        },
        None => Err(not_initialized_error()),
    }
}

/// Formats as a device lists them, in the hands of a caller.
pub open spec fn caller_formats(formats: Seq<CameraFormat>) -> Seq<CamFormat> {
    formats.map_values(
        |format: CameraFormat|
            CamFormat {
                width: format.width,
                height: format.height,
                frame_rate: format.frame_rate,
                format: format.format,
            },
    )
}

/// The formats that a device lists, in its order; `None` if it has been released.
pub fn get_formats(listed: Option<Result<Vec<CameraFormat>, String>>) -> (result: Result<
    Vec<CamFormat>,
    CameraError,
>)
    ensures
        match listed {
            None => result matches Err(error) && error@ == not_initialized(),
            Some(Ok(formats)) => result matches Ok(given) && given@ == caller_formats(formats@),
            Some(Err(text)) => {
                result matches Err(error) && error@ == CameraErrorView::Runtime(text@)
            },
        },
{
    let formats = match listed {
        None => {
            return Err(not_initialized_error());
        },
        Some(Err(text)) => {
            return Err(CameraError::Runtime(text));
        },
        Some(Ok(formats)) => formats,
    };
    let mut given: Vec<CamFormat> = Vec::new();
    let mut i: usize = 0;
    while i < formats.len()
        invariant
            i <= formats@.len(),
            given@.len() == i,
            forall|j: int| 0 <= j < i ==> #[trigger] given@[j] == caller_formats(formats@)[j],
        decreases formats@.len() - i,
    {
        given.push(CamFormat::from(formats[i]));
        i = i + 1;
    }
    assert(given@ =~= caller_formats(formats@));
    Ok(given)
}

/// A device's format comes back unchanged from the hands of a caller, and a caller's from those of
/// a device.
pub proof fn formats_survive_conversion(device: CameraFormat, caller: CamFormat)
    ensures
        <CameraFormat as vstd::std_specs::convert::FromSpec<CamFormat>>::from_spec(
            <CamFormat as vstd::std_specs::convert::FromSpec<CameraFormat>>::from_spec(device),
        ) == device,
        <CamFormat as vstd::std_specs::convert::FromSpec<CameraFormat>>::from_spec(
            <CameraFormat as vstd::std_specs::convert::FromSpec<CamFormat>>::from_spec(caller),
        ) == caller,
{
}

/// Converting a format keeps width, height, rate and encoding, each as what it is.
pub proof fn conversion_keeps_every_part(device: CameraFormat, caller: CamFormat)
    ensures
        ({
            let given = <CamFormat as vstd::std_specs::convert::FromSpec<CameraFormat>>::from_spec(
                device,
            );
            &&& given.width == device.width
            &&& given.height == device.height
            &&& given.frame_rate == device.frame_rate
            &&& given.format == device.format
        }),
        ({
            let asked = <CameraFormat as vstd::std_specs::convert::FromSpec<CamFormat>>::from_spec(
                caller,
            );
            &&& asked.width == caller.width
            &&& asked.height == caller.height
            &&& asked.frame_rate == caller.frame_rate
            &&& asked.format == caller.format
        }),
        <CamFormat as vstd::std_specs::convert::FromSpec<CameraFormat>>::obeys_from_spec(),
        <CameraFormat as vstd::std_specs::convert::FromSpec<CamFormat>>::obeys_from_spec(),
{
}

/// A caller is given every format that the device lists, at the same place and with the same parts,
/// and no other.
pub proof fn every_listed_format_is_given(formats: Seq<CameraFormat>)
    ensures
        caller_formats(formats).len() == formats.len(),
        forall|i: int|
            0 <= i < formats.len() ==> {
                &&& (#[trigger] caller_formats(formats)[i]).width == formats[i].width
                &&& caller_formats(formats)[i].height == formats[i].height
                &&& caller_formats(formats)[i].frame_rate == formats[i].frame_rate
                &&& caller_formats(formats)[i].format == formats[i].format
            },
{
}

/// The names of the encodings, letter by letter.
pub proof fn encodings_are_spelled_like_this(format: FrameFormat)
    ensures
        format_name(format) == match format {
            FrameFormat::MJPEG => seq!['m', 'j', 'p', 'e', 'g'],
            FrameFormat::YUYV => seq!['y', 'u', 'y', 'v'],
            FrameFormat::NV12 => seq!['n', 'v', '1', '2'],
            FrameFormat::GRAY => seq!['g', 'r', 'a', 'y'],
            FrameFormat::RAWRGB => seq!['r', 'a', 'w', 'r', 'g', 'b'],
            FrameFormat::RAWBGR => seq!['r', 'a', 'w', 'b', 'g', 'r'],
            FrameFormat::BA10 => seq!['b', 'a', '1', '0'],
            FrameFormat::BA12 => seq!['b', 'a', '1', '2'],
        },
{
    reveal_strlit("mjpeg");
    reveal_strlit("yuyv");
    reveal_strlit("nv12");
    reveal_strlit("gray");
    reveal_strlit("rawrgb");
    reveal_strlit("rawbgr");
    reveal_strlit("ba10");
    reveal_strlit("ba12");
    match format {
        FrameFormat::MJPEG => assert(format_name(format) =~= seq!['m', 'j', 'p', 'e', 'g']),
        FrameFormat::YUYV => assert(format_name(format) =~= seq!['y', 'u', 'y', 'v']),
        FrameFormat::NV12 => assert(format_name(format) =~= seq!['n', 'v', '1', '2']),
        FrameFormat::GRAY => assert(format_name(format) =~= seq!['g', 'r', 'a', 'y']),
        FrameFormat::RAWRGB => assert(format_name(format) =~= seq!['r', 'a', 'w', 'r', 'g', 'b']),
        FrameFormat::RAWBGR => assert(format_name(format) =~= seq!['r', 'a', 'w', 'b', 'g', 'r']),
        FrameFormat::BA10 => assert(format_name(format) =~= seq!['b', 'a', '1', '0']),
        FrameFormat::BA12 => assert(format_name(format) =~= seq!['b', 'a', '1', '2']),
    }
}

/// These names are accepted, and no others.
pub proof fn these_names_and_no_others_are_accepted(name: Seq<char>)
    ensures
        is_format_name(name) <==> {
            ||| name == "mjpeg"@
            ||| name == "yuyv"@
            ||| name == "nv12"@
            ||| name == "gray"@
            ||| name == "rawrgb"@
            ||| name == "rawbgr"@
            ||| name == "ba10"@
            ||| name == "ba12"@
        },
{
    if is_format_name(name) {
        let format = choose|format: FrameFormat| #[trigger] format_name(format) == name;
        assert(format_name(format) == name);
    }
    assert(format_name(FrameFormat::MJPEG) == "mjpeg"@);
    assert(format_name(FrameFormat::YUYV) == "yuyv"@);
    assert(format_name(FrameFormat::NV12) == "nv12"@);
    assert(format_name(FrameFormat::GRAY) == "gray"@);
    assert(format_name(FrameFormat::RAWRGB) == "rawrgb"@);
    assert(format_name(FrameFormat::RAWBGR) == "rawbgr"@);
    assert(format_name(FrameFormat::BA10) == "ba10"@);
    assert(format_name(FrameFormat::BA12) == "ba12"@);
}

/// The diagnostic name of an encoding is its name in capitals.
pub proof fn diagnostics_name_encodings_in_capitals(format: FrameFormat)
    ensures
        format_debug(format).len() == format_name(format).len(),
        forall|i: int|
            0 <= i < format_name(format).len() ==> #[trigger] format_debug(format)[i] as int
                == format_name(format)[i] as int - if format_name(format)[i] as int >= 'a' as int {
                'a' as int - 'A' as int
            } else {
                0
            },
{
    reveal_strlit("mjpeg");
    reveal_strlit("yuyv");
    reveal_strlit("nv12");
    reveal_strlit("gray");
    reveal_strlit("rawrgb");
    reveal_strlit("rawbgr");
    reveal_strlit("ba10");
    reveal_strlit("ba12");
    reveal_strlit("MJPEG");
    reveal_strlit("YUYV");
    reveal_strlit("NV12");
    reveal_strlit("GRAY");
    reveal_strlit("RAWRGB");
    reveal_strlit("RAWBGR");
    reveal_strlit("BA10");
    reveal_strlit("BA12");
}

/// Resolution and rate are written out one after the other: width, `x`, height, `@`, rate.
pub proof fn a_mode_is_written_part_by_part(format: CameraFormat)
    ensures
        ({
            let text = mode_text(format);
            let width = decimal(format.width as nat);
            let height = decimal(format.height as nat);
            let x = width.len() as int;
            let at = x + 1 + height.len();
            &&& text.take(x) == width
            &&& text[x] == 'x'
            &&& text.subrange(x + 1, at) == height
            &&& text[at] == '@'
            &&& text.skip(at + 1) == decimal(format.frame_rate as nat)
        }),
{
    reveal_strlit("x");
    reveal_strlit("@");
    let text = mode_text(format);
    let width = decimal(format.width as nat);
    let height = decimal(format.height as nat);
    let x = width.len() as int;
    let at = x + 1 + height.len();
    assert(text.take(x) =~= width);
    assert(text.subrange(x + 1, at) =~= height);
    assert(text.skip(at + 1) =~= decimal(format.frame_rate as nat));
}

/// A description gives width, height, encoding and rate, in this order, and each behind its label.
pub proof fn a_description_gives_every_part(format: CameraFormat)
    ensures
        ({
            let text = camera_format_debug(format);
            let width = decimal(format.width as nat);
            let height = decimal(format.height as nat);
            let rate = decimal(format.frame_rate as nat);
            let a = "CameraFormat { resolution: Resolution { width_x: "@.len() as int;
            let b = a + width.len() + ", height_y: "@.len();
            let c = b + height.len() + " }, format: "@.len();
            let d = c + format_debug(format.format).len() + ", frame_rate: "@.len();
            &&& text.take(a) == "CameraFormat { resolution: Resolution { width_x: "@
            &&& text.subrange(a, a + width.len()) == width
            &&& text.subrange(a + width.len(), b) == ", height_y: "@
            &&& text.subrange(b, b + height.len()) == height
            &&& text.subrange(b + height.len(), c) == " }, format: "@
            &&& text.subrange(c, c + format_debug(format.format).len()) == format_debug(
                format.format,
            )
            &&& text.subrange(c + format_debug(format.format).len(), d) == ", frame_rate: "@
            &&& text.subrange(d, d + rate.len()) == rate
            &&& text.skip(d + rate.len()) == " }"@
        }),
{
    let text = camera_format_debug(format);
    let width = decimal(format.width as nat);
    let height = decimal(format.height as nat);
    let name = format_debug(format.format);
    let rate = decimal(format.frame_rate as nat);
    let a = "CameraFormat { resolution: Resolution { width_x: "@.len() as int;
    let b = a + width.len() + ", height_y: "@.len();
    let c = b + height.len() + " }, format: "@.len();
    let d = c + name.len() + ", frame_rate: "@.len();
    assert(text.take(a) =~= "CameraFormat { resolution: Resolution { width_x: "@);
    assert(text.subrange(a, a + width.len()) =~= width);
    assert(text.subrange(a + width.len(), b) =~= ", height_y: "@);
    assert(text.subrange(b, b + height.len()) =~= height);
    assert(text.subrange(b + height.len(), c) =~= " }, format: "@);
    assert(text.subrange(c, c + name.len()) =~= name);
    assert(text.subrange(c + name.len(), d) =~= ", frame_rate: "@);
    assert(text.subrange(d, d + rate.len()) =~= rate);
    assert(text.skip(d + rate.len()) =~= " }"@);
}

/// The refusal of a name that is none lists every name that is one, in quotes.
pub proof fn a_refused_name_is_answered_with_all_names(format: FrameFormat)
    ensures
        unsupported_format() is Value,
        exists|at: int|
            #![trigger unsupported_format()->Value_0.skip(at)]
            0 <= at <= unsupported_format()->Value_0.len() && (seq!['\''] + format_name(format)
                + seq!['\'']).is_prefix_of(unsupported_format()->Value_0.skip(at)),
{
    reveal_strlit(
        "Unsupported value (should be one of 'mjpeg', 'yuyv', 'gray', 'nv12', 'rawrgb', 'rawbgr', 'ba10', 'ba12')",
    );
    encodings_are_spelled_like_this(format);
    let text = unsupported_format()->Value_0;
    let at: int = match format {
        FrameFormat::MJPEG => 36,
        FrameFormat::YUYV => 45,
        FrameFormat::GRAY => 53,
        FrameFormat::NV12 => 61,
        FrameFormat::RAWRGB => 69,
        FrameFormat::RAWBGR => 79,
        FrameFormat::BA10 => 89,
        FrameFormat::BA12 => 97,
    };
    let quoted = seq!['\''] + format_name(format) + seq!['\''];
    assert(quoted =~= text.skip(at).take(quoted.len() as int));
    assert(quoted.is_prefix_of(text.skip(at)));
}

} // verus!
