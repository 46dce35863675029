//! The error values of `liquid_core`, seen through their message and their
//! chain of annotated frames.

use vstd::prelude::*;
use liquid_core::Error;

verus! {

#[verifier::external_type_specification]
#[verifier::external_body]
pub struct ExError(liquid_core::Error);

/// One step of an error's chain: an optional description of the step and the
/// annotations attached to it, oldest first.
pub ghost struct Frame {
    pub trace: Option<Seq<char>>,
    pub context: Seq<(Seq<char>, Seq<char>)>,
}

/// The top-level message of an error.
pub uninterp spec fn error_message(e: Error) -> Seq<char>;

/// The frames that an error has accumulated, oldest first.
pub uninterp spec fn error_frames(e: Error) -> Seq<Frame>;

/// The frames of a new error: one frame, without description or annotation.
pub open spec fn fresh_frames() -> Seq<Frame> {
    seq![Frame { trace: None, context: Seq::empty() }]
}

/// The frames of `frames` after one more annotation on the newest frame.
pub open spec fn annotated(frames: Seq<Frame>, key: Seq<char>, value: Seq<char>) -> Seq<Frame>
    recommends
        frames.len() > 0,
{
    frames.update(
        frames.len() - 1,
        (Frame { trace: frames.last().trace, context: frames.last().context.push((key, value)) }),
    )
}

/// The frames of `frames` after a new step described by `trace`.
pub open spec fn traced(frames: Seq<Frame>, trace: Seq<char>) -> Seq<Frame> {
    frames.push(Frame { trace: Some(trace), context: Seq::empty() })
}

/// Whether `frames` holds, in one frame, the annotation `key` = `value`.
pub open spec fn has_annotation(frames: Seq<Frame>, key: Seq<char>, value: Seq<char>) -> bool {
    exists|i: int, j: int|
        0 <= i < frames.len() && 0 <= j < frames[i].context.len()
            && #[trigger] frames[i].context[j] == (key, value)
}

/// Calls `liquid_core::Error::with_msg`: the new error carries `msg` as its
/// message and one frame without description or annotation.
#[verifier::external_body]
pub(crate) fn error_with_message(msg: &str) -> (e: Error)
    ensures
        error_message(e) == msg@,
        error_frames(e) == fresh_frames(),
{
    Error::with_msg(msg.to_owned())
}

/// Calls `liquid_core::Error::trace`: a frame described by `trace` is
/// appended, the message and the earlier frames stay.
#[verifier::external_body]
pub(crate) fn error_trace(e: Error, trace: String) -> (r: Error)
    ensures
        error_message(r) == error_message(e),
        error_frames(r) == traced(error_frames(e), trace@),
{
    e.trace(trace)
}

/// Calls `liquid_core::Error::context`: the annotation goes to the end of the
/// newest frame, everything else stays. The outside function panics on an
/// error without frames, which `requires` leaves out.
#[verifier::external_body]
pub(crate) fn error_context(e: Error, key: &str, value: String) -> (r: Error)
    requires
        error_frames(e).len() > 0,
    ensures
        error_message(r) == error_message(e),
        error_frames(r) == annotated(error_frames(e), key@, value@),
{
    e.context(key.to_owned(), value)
}

/// The message of the error that stands for a failed write.
pub open spec fn render_failure_message() -> Seq<char> {
    "Failed to render"@
}

/// The error that replaces the failure of a write to the output: only the
/// fixed message is left of it.
pub fn render_failure() -> (e: Error)
    ensures
        error_message(e) == render_failure_message(),
        error_frames(e) == fresh_frames(),
{
    error_with_message("Failed to render")
}

} // verus!
