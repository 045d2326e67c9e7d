//! What a caller is told when a request fails.

use vstd::prelude::*;

verus! {

/// The exception that a failed request raises.
#[derive(Debug, PartialEq, Eq)]
pub enum CameraError {
    /// Something went wrong while it was carried out.
    Runtime(String),
    /// One of its arguments is not acceptable.
    Value(String),
}

/// A [`CameraError`] as contracts speak of it.
pub enum CameraErrorView {
    Runtime(Seq<char>),
    Value(Seq<char>),
}

impl View for CameraError {
    type V = CameraErrorView;

    open spec fn view(&self) -> CameraErrorView {
        match self {
            CameraError::Runtime(message) => CameraErrorView::Runtime(message@),
            CameraError::Value(message) => CameraErrorView::Value(message@),
        }
    }
}

/// What a general error of the capture crate prints for `message`.
pub open spec fn general_error_text(message: Seq<char>) -> Seq<char> {
    "Error: "@ + message
}

/// The text of `nokhwa::NokhwaError::GeneralError`.
///
/// Trusted: its `Display` writes `Error: ` and then the message that it was made with.
#[verifier::external_body]
pub(crate) fn general_error(message: String) -> (text: String)
    ensures
        text@ == general_error_text(message@),
{
    nokhwa::NokhwaError::GeneralError(message).to_string()
}

/// Hands a success on, and turns the text of a device error into a runtime error.
pub fn runtime_result<T>(outcome: Result<T, String>) -> (result: Result<T, CameraError>)
    ensures
        match outcome {
            Ok(value) => result == Ok::<T, CameraError>(value),
            Err(text) => result matches Err(error) && error@ == CameraErrorView::Runtime(text@),
        },
{
    match outcome {
        Ok(value) => Ok(value),
        Err(text) => Err(CameraError::Runtime(text)),
    }
}

/// The answer to any request that needs the device once the device has been released.
pub open spec fn not_initialized() -> CameraErrorView {
    CameraErrorView::Runtime("Camera not initialized"@)
}

/// Makes that answer.
pub fn not_initialized_error() -> (error: CameraError)
    ensures
        error@ == not_initialized(),
        error@ == CameraErrorView::Runtime("Camera not initialized"@),
{
    CameraError::Runtime("Camera not initialized".to_owned())
}

/// An error is of the kind that it was raised as, and says what it was raised with.
pub proof fn an_error_keeps_its_kind_and_text(error: CameraError)
    ensures
        error@ is Runtime <==> error is Runtime,
        error@ is Value <==> error is Value,
        error matches CameraError::Runtime(text) ==> error@ == CameraErrorView::Runtime(text@),
        error matches CameraError::Value(text) ==> error@ == CameraErrorView::Value(text@),
{
}

/// A general error is its message behind the word `Error`, with nothing of the message lost.
pub proof fn a_general_error_gives_its_message(message: Seq<char>)
    ensures
        general_error_text(message).take(7) == seq!['E', 'r', 'r', 'o', 'r', ':', ' '],
        general_error_text(message).skip(7) == message,
{
    reveal_strlit("Error: ");
    assert(general_error_text(message).take(7) =~= seq!['E', 'r', 'r', 'o', 'r', ':', ' ']);
    assert(general_error_text(message).skip(7) =~= message);
}

/// Asking for a device that is gone is no fault of the arguments: the answer is a runtime error that
/// says so.
pub proof fn a_missing_device_is_a_runtime_error()
    ensures
        not_initialized() matches CameraErrorView::Runtime(text) && text
            == "Camera not initialized"@,
{
}

} // verus!
