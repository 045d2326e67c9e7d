//! Camera controls: their ranges, and setting them.

use vstd::prelude::*;

use crate::error::{
    CameraError, CameraErrorView, not_initialized, not_initialized_error, runtime_result,
};

verus! {

/// What a control sets.
#[derive(Clone, Copy, Debug, PartialEq, Eq, Structural)]
pub enum KnownCameraControl {
    Brightness,
    Contrast,
    Hue,
    Saturation,
    Sharpness,
    Gamma,
    WhiteBalance,
    BacklightComp,
    Gain,
    Pan,
    Tilt,
    Zoom,
    Exposure,
    Iris,
    Focus,
    /// A control that only the platform knows, by its id there.
    Other(u128),
}

/// The values that a control takes. Numbers that a device gives in floating point are held here as
/// the integer that they are cast to.
#[allow(inconsistent_fields)]
#[derive(Debug, PartialEq, Eq)]
pub enum ControlValueDescription {
    NoValue,
    Integer { value: i64, step: i64 },
    IntegerRange { min: i64, max: i64, step: i64 },
    Float { value: i64, step: i64 },
    FloatRange { min: i64, max: i64, step: i64 },
    Boolean,
    String,
    Bytes { value: Vec<u8> },
    KeyValuePair { key: i128, value: i128 },
    Point { x: i64, y: i64 },
    Enum { possible: Vec<i64> },
    RGB { max_red: i64 },
}

/// A control of a camera.
#[derive(Debug, PartialEq, Eq)]
pub struct CamControl {
    pub control: KnownCameraControl,
    pub description: ControlValueDescription,
    pub active: bool,
}

/// The number in 64-bit two's complement that has the low 64 bits of `n`.
pub open spec fn low_bits(n: int) -> int {
    let bits = n % 0x1_0000_0000_0000_0000;
    if bits < 0x8000_0000_0000_0000 {
        bits
    } else {
        bits - 0x1_0000_0000_0000_0000
    }
}

/// Least value, greatest value and step of a control.
pub open spec fn range_of(description: ControlValueDescription) -> (int, int, int) {
    match description {
        ControlValueDescription::NoValue => (0, 0, 0),
        ControlValueDescription::Integer { value, step } => (value as int, value as int, step as int),
        ControlValueDescription::IntegerRange { min, max, step } => (
            min as int,
            max as int,
            step as int,
        ),
        ControlValueDescription::Float { value, step } => (value as int, value as int, step as int),
        ControlValueDescription::FloatRange { min, max, step } => (
            min as int,
            max as int,
            step as int,
        ),
        ControlValueDescription::Boolean => (0, 1, 1),
        ControlValueDescription::String => (0, 0, 0),
        ControlValueDescription::Bytes { value } => (0, value@.len() as int, 1),
        ControlValueDescription::KeyValuePair { key, value } => (
            low_bits(key as int),
            low_bits(value as int),
            1,
        ),
        ControlValueDescription::Point { x, y } => (x as int, y as int, 1),
        ControlValueDescription::Enum { possible } => (
            0,
            if possible@.len() == 0 {
                0
            } else {
                possible@.len() - 1
            },
            1,
        ),
        ControlValueDescription::RGB { max_red } => (0, max_red as int, 1),
    }
}

/// Whether the lengths in a description fit into a range.
pub open spec fn is_countable(description: ControlValueDescription) -> bool {
    match description {
        ControlValueDescription::Bytes { value } => value@.len() <= i64::MAX,
        ControlValueDescription::Enum { possible } => possible@.len() <= i64::MAX,
        _ => true,
    }
}

/// What setting a value calls for.
#[derive(Debug, PartialEq, Eq)]
pub enum SetValueAction {
    /// The request is answered.
    Answer(Result<(), CameraError>),
    /// Set the control of the device to this integer, and finish.
    Apply { control: KnownCameraControl, value: i64 },
}

fn truncated(n: i128) -> (m: i64)
    ensures
        m == low_bits(n as int),
{
    let m: i64 = #[verifier::truncate] (n as i64);
    assert(m == {
        let bits = n % 0x1_0000_0000_0000_0000i128;
        if bits < 0x8000_0000_0000_0000i128 {
            bits
        } else {
            (bits - 0x1_0000_0000_0000_0000i128) as i128
        }
    }) by (bit_vector)
        requires
            m == n as i64,
    ;
    m
}

impl CamControl {
    /// Least value, greatest value and step. What has no order of its own is given a range that is
    /// arbitrary but always the same.
    pub fn value_range(&self) -> (range: (i64, i64, i64))
        requires
            is_countable(self.description),
        ensures
            self.description matches ControlValueDescription::IntegerRange { min, max, step }
                ==> range == (min, max, step),
            self.description matches ControlValueDescription::FloatRange { min, max, step }
                ==> range == (min, max, step),
            self.description matches ControlValueDescription::Integer { value, step } ==> range == (
                value,
                value,
                step,
            ),
            self.description matches ControlValueDescription::Float { value, step } ==> range == (
                value,
                value,
                step,
            ),
            (range.0 as int, range.1 as int, range.2 as int) == range_of(self.description),
    {
        match &self.description {
            ControlValueDescription::NoValue => (0, 0, 0),
            ControlValueDescription::Integer { value, step } => (*value, *value, *step),
            ControlValueDescription::IntegerRange { min, max, step } => (*min, *max, *step),
            ControlValueDescription::Float { value, step } => (*value, *value, *step),
            ControlValueDescription::FloatRange { min, max, step } => (*min, *max, *step),
            ControlValueDescription::Boolean => (0, 1, 1),
            ControlValueDescription::String => (0, 0, 0),
            ControlValueDescription::Bytes { value } => (0, value.len() as i64, 1),
            ControlValueDescription::KeyValuePair { key, value } => (
                truncated(*key),
                truncated(*value),
                1,
            ),
            ControlValueDescription::Point { x, y } => (*x, *y, 1),
            ControlValueDescription::Enum { possible } => if possible.is_empty() {
                (0, 0, 1)
            } else {
                (0, possible.len() as i64 - 1, 1)
            },
            ControlValueDescription::RGB { max_red } => (0, *max_red, 1),
        }
    }

    /// Sets a value, which makes the control active, or makes it inactive where there is none.
    /// Nothing can be set once the camera object has been dropped.
    pub fn set_value(&mut self, camera_alive: bool, value: Option<i64>) -> (action: SetValueAction)
        ensures
            action is Apply <==> camera_alive && value is Some,
            action matches SetValueAction::Apply { control, value: asked } ==> control == old(
                self,
            ).control && value == Some(asked),
            action matches SetValueAction::Answer(answer) ==> (answer is Ok <==> camera_alive),
            final(self).control == old(self).control,
            final(self).description == old(self).description,
            final(self).active == if camera_alive {
                value is Some
            } else {
                old(self).active
            },
            match (camera_alive, value) {
                (false, _) => {
                    action matches SetValueAction::Answer(Err(error)) && error@
                        == CameraErrorView::Runtime(
                        "Control is unusable as camera object has been dropped"@,
                    )
                },
                (true, None) => action == SetValueAction::Answer(Ok(())),
                (true, Some(value)) => {
                    action == (SetValueAction::Apply { control: old(self).control, value })
                },
            },
    {
        if !camera_alive {
            return SetValueAction::Answer(
                Err(
                    CameraError::Runtime(
                        "Control is unusable as camera object has been dropped".to_owned(),
                    ),
                ),
            );
        }
        match value {
            Some(value) => {
                self.active = true;
                SetValueAction::Apply { control: self.control, value }
            },
            None => {
                self.active = false;
                SetValueAction::Answer(Ok(()))
            },
        }
    }

    /// Takes in what setting the device gave; `None` if the device has been released.
    pub fn value_applied(outcome: Option<Result<(), String>>) -> (result: Result<(), CameraError>)
        ensures
            match outcome {
                None => result matches Err(error) && error@ == not_initialized(),
                Some(Ok(())) => result is Ok,
                Some(Err(text)) => {
                    result matches Err(error) && error@ == CameraErrorView::Runtime(text@)
                },
            },
    {
        match outcome {
            None => Err(not_initialized_error()),
            Some(outcome) => runtime_result(outcome),
        }
    }

    /// Whether the control is in use.
    pub fn is_active(&self) -> (active: bool)
        ensures
            active == self.active,
    {
        self.active
    }

    /// Marks the control as in use or not, without touching the device.
    pub fn set_active(&mut self, active: bool) -> (result: Result<(), CameraError>)
        ensures
            result is Ok,
            final(self).active == active,
            final(self).control == old(self).control,
            final(self).description == old(self).description,
    {
        self.active = active;
        Ok(())
    }
}

/// The controls of a camera by name, as the device gave them; `None` if it has been released. A
/// device that cannot list its controls counts as one that has none.
pub fn get_controls(listed: Option<Result<Vec<(String, CamControl)>, String>>) -> (result: Result<
    Vec<(String, CamControl)>,
    CameraError,
>)
    ensures
        match listed {
            None => result matches Err(error) && error@ == not_initialized(),
            Some(Ok(controls)) => result matches Ok(given) && given@ == controls@,
            Some(Err(_)) => result matches Ok(given) && given@.len() == 0,
        },
{
    match listed {
        None => Err(not_initialized_error()),
        Some(Ok(controls)) => Ok(controls),
        Some(Err(_)) => Ok(Vec::new()),
    }
}

/// A range is that of its description: a control that declares least value, greatest value and step
/// has exactly these, a single value is both the least and the greatest, and a switch is off or on.
/// What has no order of its own counts from zero, or from the first of a pair to the second.
pub proof fn a_range_is_the_declared_one(description: ControlValueDescription)
    ensures
        ({
            let (least, greatest, step) = range_of(description);
            match description {
                ControlValueDescription::IntegerRange { min, max, step: declared }
                | ControlValueDescription::FloatRange { min, max, step: declared } => {
                    least == min && greatest == max && step == declared
                },
                ControlValueDescription::Integer { value, step: declared }
                | ControlValueDescription::Float { value, step: declared } => {
                    least == value && greatest == value && step == declared
                },
                ControlValueDescription::Boolean => least == 0 && greatest == 1 && step == 1,
                ControlValueDescription::NoValue | ControlValueDescription::String => {
                    least == 0 && greatest == 0 && step == 0
                },
                ControlValueDescription::Bytes { value } => {
                    least == 0 && greatest == value@.len() && step == 1
                },
                ControlValueDescription::Enum { possible } => {
                    &&& least == 0 && step == 1
                    &&& forall|choice: int| #![trigger possible@[choice]]
                        0 <= choice < possible@.len() ==> least <= choice <= greatest
                    &&& greatest == 0 || greatest < possible@.len()
                },
                ControlValueDescription::Point { x, y } => {
                    least == x && greatest == y && step == 1
                },
                ControlValueDescription::RGB { max_red } => {
                    least == 0 && greatest == max_red && step == 1
                },
                ControlValueDescription::KeyValuePair { key, value } => {
                    &&& step == 1
                    &&& i64::MIN <= least <= i64::MAX && i64::MIN <= greatest <= i64::MAX
                    &&& (key - least) % 0x1_0000_0000_0000_0000 == 0
                    &&& (value - greatest) % 0x1_0000_0000_0000_0000 == 0
                },
            }
        }),
{
    if let ControlValueDescription::KeyValuePair { key, value } = description {
        low_bits_keep_what_fits(key as int);
        low_bits_keep_what_fits(value as int);
    }
    if let ControlValueDescription::Enum { possible } = description {
        if possible@.len() > 0 {
            assert(possible@[possible@.len() - 1] == possible@[possible@.len() - 1]);
        }
    }
}

/// Cutting a number down to 64 bits gives one that fits into them, differs by a multiple of their
/// range, and is the number itself if that fits.
pub proof fn low_bits_keep_what_fits(n: int)
    ensures
        i64::MIN <= low_bits(n) <= i64::MAX,
        (n - low_bits(n)) % 0x1_0000_0000_0000_0000 == 0,
        i64::MIN <= n <= i64::MAX ==> low_bits(n) == n,
{
    let range: int = 0x1_0000_0000_0000_0000;
    assert(n == range * (n / range) + n % range);
}

/// Every description that can be held has a range; only a length that outgrows the range does not.
pub proof fn every_description_has_a_range(description: ControlValueDescription)
    requires
        description matches ControlValueDescription::Bytes { value } ==> value@.len() <= i64::MAX,
        description matches ControlValueDescription::Enum { possible } ==> possible@.len()
            <= i64::MAX,
    ensures
        is_countable(description),
{
}

} // verus!
