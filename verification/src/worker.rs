//! The worker of a session: it configures the device, captures frames until it is no longer
//! wanted, and stops the stream.
//!
//! A worker never touches the device itself. It says what to do next, and is told what came of it.

use vstd::prelude::*;

use crate::error::{general_error, general_error_text};
use crate::frame::{Image, ImageView, frame_view};
use crate::session::{
    CameraInternal, SessionView, Step, a_session_runs_on_for_its_users, accounted, closes, refusals,
    starts,
};

verus! {

/// How many captures in a row may fail before the worker gives up.
pub const TOLERATED_FAILURES: u32 = 3;

/// What the worker's thread does next.
#[derive(Clone, Copy, Debug, PartialEq, Eq, Structural)]
pub enum WorkerAction {
    /// Ask the device for one frame.
    Capture,
    /// Stop the stream if the device is there, whatever that gives, then end.
    StopStream,
    /// End at once.
    Exit,
}

/// What came of asking the device for one frame.
#[derive(Debug, PartialEq, Eq)]
pub enum CaptureOutcome {
    /// The device has been released.
    CameraGone,
    /// The attempt panicked.
    Panicked,
    /// The device reports an error.
    Failed(String),
    /// A frame came; `None` if it could not be decoded.
    Frame(Option<Image>),
}

/// The error that a capture came to, if it failed.
pub open spec fn failure_text(outcome: CaptureOutcome) -> Option<Seq<char>> {
    match outcome {
        CaptureOutcome::Panicked => Some(general_error_text("Frame capture panic"@)),
        CaptureOutcome::Failed(text) => Some(text@),
        CaptureOutcome::CameraGone | CaptureOutcome::Frame(_) => None,
    }
}

/// What configuring the device came to: the first error of the two calls. The stream is opened
/// even if the format was refused.
pub open spec fn configure_error(
    set_format: Result<(), String>,
    open_stream: Result<(), String>,
) -> Option<Seq<char>> {
    match (set_format, open_stream) {
        (Err(text), _) => Some(text@),
        (Ok(()), Err(text)) => Some(text@),
        (Ok(()), Ok(())) => None,
    }
}

/// The next thing to do while frames are being captured.
pub open spec fn next_action<W>(session: SessionView<W>) -> WorkerAction {
    if session.wanted() {
        WorkerAction::Capture
    } else {
        WorkerAction::StopStream
    }
}

/// Whether the worker gives up on this outcome after `failures` failed captures in a row.
pub open spec fn gives_up(failures: nat, outcome: CaptureOutcome) -> bool {
    failure_text(outcome) is Some && failures >= TOLERATED_FAILURES
}

/// How many captures in a row have failed after this outcome.
pub open spec fn failures_after(failures: nat, outcome: CaptureOutcome) -> nat {
    match outcome {
        CaptureOutcome::Frame(_) => 0,
        CaptureOutcome::CameraGone => failures,
        CaptureOutcome::Panicked | CaptureOutcome::Failed(_) => if failures >= TOLERATED_FAILURES {
            failures
        } else {
            failures + 1
        },
    }
}

/// What this outcome does to the session after `failures` failed captures in a row.
pub open spec fn session_after<W>(
    session: SessionView<W>,
    failures: nat,
    outcome: CaptureOutcome,
) -> SessionView<W> {
    match outcome {
        CaptureOutcome::Frame(image) => match frame_view(image) {
            Some(image) => session.after(Step::Publish(image)),
            None => session,
        },
        _ => if gives_up(failures, outcome) {
            session.after(Step::Report(failure_text(outcome).unwrap()))
        } else {
            session
        },
    }
}

/// What a worker remembers from one frame to the next.
#[derive(Debug)]
pub struct Worker {
    consecutive_timeouts: u32,
}

impl Worker {
    #[verifier::type_invariant]
    spec fn within_tolerance(self) -> bool {
        self.consecutive_timeouts <= TOLERATED_FAILURES
    }

    /// How many captures in a row have failed.
    pub closed spec fn failures(self) -> nat {
        self.consecutive_timeouts as nat
    }

    /// A worker that has captured nothing yet.
    pub fn new() -> (worker: Worker)
        ensures
            worker.failures() == 0,
    {
        Worker { consecutive_timeouts: 0 }
    }

    fn next<W>(session: &CameraInternal<W>) -> (action: WorkerAction)
        ensures
            action == WorkerAction::Capture <==> session.running && session.active_count > 0,
            action == WorkerAction::Capture || action == WorkerAction::StopStream,
            action == next_action(session@),
    {
        if session.running && session.active_count > 0 {
            WorkerAction::Capture
        } else {
            WorkerAction::StopStream
        }
    }

    /// Takes in what configuring the device gave: the results of setting the format and of opening
    /// the stream, or `None` if the device had been let go of before.
    pub fn configured<W>(
        &self,
        session: &mut CameraInternal<W>,
        outcome: Option<(Result<(), String>, Result<(), String>)>,
    ) -> (action: WorkerAction)
        ensures
            action == WorkerAction::Capture <==> {
                &&& old(session).device_held
                &&& outcome matches Some((Ok(()), Ok(())))
                &&& old(session).running
                &&& old(session).active_count > 0
            },
            action == WorkerAction::Exit <==> !(old(session).device_held && outcome matches Some(
                (Ok(()), Ok(())),
            )),
            action == WorkerAction::Exit ==> !final(session).running && final(session).last_err is Some,
            match old(session)@.heard(outcome) {
                None => {
                    &&& action == WorkerAction::Exit
                    &&& final(session)@ == old(session)@.after(
                        Step::Report(
                            general_error_text("Camera was closed before worker could start"@),
                        ),
                    ).after(Step::Finish)
                },
                Some((set_format, open_stream)) => match configure_error(set_format, open_stream) {
                    Some(text) => {
                        &&& action == WorkerAction::Exit
                        &&& final(session)@ == old(session)@.after(Step::Report(text)).after(
                            Step::Finish,
                        )
                    },
                    None => {
                        &&& action == next_action(old(session)@)
                        &&& final(session)@ == old(session)@
                    },
                },
            },
    {
        let error = match session.hear(outcome) {
            None => Some(
                general_error("Camera was closed before worker could start".to_owned()),
            ),
            Some((Err(text), _)) => Some(text),
            Some((Ok(()), Err(text))) => Some(text),
            Some((Ok(()), Ok(()))) => None,
        };
        match error {
            Some(text) => {
                session.report(text);
                session.finish();
                WorkerAction::Exit
            },
            None => Worker::next(session),
        }
    }

    /// Takes in what asking for a frame gave. A frame that was decoded is published; a failure is
    /// let pass until there have been too many in a row.
    pub fn captured<W>(
        &mut self,
        session: &mut CameraInternal<W>,
        outcome: CaptureOutcome,
    ) -> (action: WorkerAction)
        requires
            outcome matches CaptureOutcome::Frame(Some(_)) ==> old(session)@.seq < u64::MAX,
        ensures
            action == WorkerAction::Capture <==> {
                &&& old(session).running
                &&& old(session).active_count > 0
                &&& outcome is Frame || (outcome !is CameraGone && old(self).failures() < 3)
            },
            action == WorkerAction::Capture || action == WorkerAction::StopStream,
            final(session).device_held == old(session).device_held,
            final(session).active_count == old(session).active_count,
            final(session).running == old(session).running,
            final(session).worker == old(session).worker,
            outcome matches CaptureOutcome::Frame(Some(image)) ==> {
                &&& *final(session).last_frame.frame == Some(image)
                &&& final(session).last_frame.seq == old(session).last_frame.seq + 1
            },
            outcome matches CaptureOutcome::Failed(text) ==> (old(self).failures() >= 3 ==> (
            final(session).last_err == Some(text))),
            outcome is Frame || outcome is CameraGone || old(self).failures() < 3 ==> (
            final(session).last_err == old(session).last_err),
            final(session)@ == session_after(old(session)@, old(self).failures(), outcome),
            final(self).failures() == failures_after(old(self).failures(), outcome),
            action == if outcome is CameraGone || gives_up(old(self).failures(), outcome) {
                WorkerAction::StopStream
            } else {
                next_action(final(session)@)
            },
    {
        proof {
            use_type_invariant(&*self);
        }
        let text = match outcome {
            CaptureOutcome::CameraGone => {
                return WorkerAction::StopStream;
            },
            CaptureOutcome::Frame(image) => {
                self.consecutive_timeouts = 0;
                if let Some(image) = image {
                    session.publish(image);
                }
                return Worker::next(session);
            },
            CaptureOutcome::Panicked => general_error("Frame capture panic".to_owned()),
            CaptureOutcome::Failed(text) => text,
        };
        if self.consecutive_timeouts >= TOLERATED_FAILURES {
            session.report(text);
            return WorkerAction::StopStream;
        }
        self.consecutive_timeouts = self.consecutive_timeouts + 1;
        Worker::next(session)
    }

    /// Takes in that the stream has been stopped, which ends the worker.
    pub fn stopped<W>(&self, session: &mut CameraInternal<W>)
        ensures
            !final(session).running,
            final(session)@ == old(session)@.after(Step::Finish),
    {
        session.finish();
    }
}

/// How many failures in a row a worker counts after these outcomes.
pub open spec fn counted_failures(outcomes: Seq<CaptureOutcome>) -> nat
    decreases outcomes.len(),
{
    if outcomes.len() == 0 {
        0
    } else {
        failures_after(counted_failures(outcomes.drop_last()), outcomes.last())
    }
}

/// How many outcomes at the end of `outcomes` are failures.
pub open spec fn trailing_failures(outcomes: Seq<CaptureOutcome>) -> nat
    decreases outcomes.len(),
{
    if outcomes.len() == 0 || failure_text(outcomes.last()) is None {
        0
    } else {
        trailing_failures(outcomes.drop_last()) + 1
    }
}

/// While the device is there, a worker gives up on exactly the outcome that makes one failure in a
/// row more than it tolerates; one frame in between starts the count anew.
pub proof fn a_worker_gives_up_on_failures_in_a_row(
    outcomes: Seq<CaptureOutcome>,
    outcome: CaptureOutcome,
)
    requires
        forall|i: int| 0 <= i < outcomes.len() ==> !(#[trigger] outcomes[i] is CameraGone),
    ensures
        gives_up(counted_failures(outcomes), outcome) <==> trailing_failures(outcomes.push(outcome))
            > TOLERATED_FAILURES,
{
    lemma_counted_failures(outcomes);
    assert(outcomes.push(outcome).drop_last() =~= outcomes);
}

/// The count is that of the failures at the end, as far as it is kept.
proof fn lemma_counted_failures(outcomes: Seq<CaptureOutcome>)
    requires
        forall|i: int| 0 <= i < outcomes.len() ==> !(#[trigger] outcomes[i] is CameraGone),
    ensures
        counted_failures(outcomes) == if trailing_failures(outcomes) > TOLERATED_FAILURES {
            TOLERATED_FAILURES as nat
        } else {
            trailing_failures(outcomes)
        },
    decreases outcomes.len(),
{
    if outcomes.len() > 0 {
        lemma_counted_failures(outcomes.drop_last());
        assert(!(outcomes[outcomes.len() - 1] is CameraGone));
    }
}

/// The session after a worker has taken in these outcomes.
pub open spec fn streamed<W>(
    session: SessionView<W>,
    outcomes: Seq<CaptureOutcome>,
) -> SessionView<W>
    decreases outcomes.len(),
{
    if outcomes.len() == 0 {
        session
    } else {
        session_after(
            streamed(session, outcomes.drop_last()),
            counted_failures(outcomes.drop_last()),
            outcomes.last(),
        )
    }
}

/// The images among these outcomes.
pub open spec fn decoded_images(outcomes: Seq<CaptureOutcome>) -> Seq<ImageView>
    decreases outcomes.len(),
{
    if outcomes.len() == 0 {
        Seq::empty()
    } else {
        let before = decoded_images(outcomes.drop_last());
        match outcomes.last() {
            CaptureOutcome::Frame(Some(image)) => before.push(image@),
            _ => before,
        }
    }
}

/// A worker publishes each image that is decoded, and nothing else: the number of the frame on
/// offer counts them, and the frame is the last of them.
pub proof fn every_decoded_image_is_published<W>(
    session: SessionView<W>,
    outcomes: Seq<CaptureOutcome>,
)
    ensures
        streamed(session, outcomes).seq == session.seq + decoded_images(outcomes).len(),
        streamed(session, outcomes).frame == if decoded_images(outcomes).len() > 0 {
            Some(decoded_images(outcomes).last())
        } else {
            session.frame
        },
    decreases outcomes.len(),
{
    if outcomes.len() > 0 {
        every_decoded_image_is_published(session, outcomes.drop_last());
    }
}

/// A worker reports no error as long as there are not too many failures in a row.
pub proof fn tolerated_failures_are_not_reported<W>(
    session: SessionView<W>,
    outcomes: Seq<CaptureOutcome>,
)
    requires
        forall|i: int| 0 <= i < outcomes.len() ==> !(#[trigger] outcomes[i] is CameraGone),
        forall|i: int|
            0 <= i <= outcomes.len() ==> #[trigger] trailing_failures(outcomes.take(i))
                <= TOLERATED_FAILURES,
    ensures
        streamed(session, outcomes).err == session.err,
    decreases outcomes.len(),
{
    if outcomes.len() > 0 {
        let before = outcomes.drop_last();
        assert forall|i: int| 0 <= i <= before.len() implies #[trigger] trailing_failures(
            before.take(i),
        ) <= TOLERATED_FAILURES by {
            assert(before.take(i) =~= outcomes.take(i));
        }
        tolerated_failures_are_not_reported(session, before);
        assert(outcomes.take(outcomes.len() as int) =~= outcomes);
        assert(before.push(outcomes.last()) =~= outcomes);
        a_worker_gives_up_on_failures_in_a_row(before, outcomes.last());
    }
}

/// Whether a capture failed: it panicked, or the device reported an error.
pub open spec fn is_failure(outcome: CaptureOutcome) -> bool {
    outcome is Panicked || outcome is Failed
}

/// A capture that failed says why: in the words of the device, or that it panicked. No other
/// outcome does.
pub proof fn a_failure_says_why(outcome: CaptureOutcome)
    ensures
        failure_text(outcome) is Some <==> outcome is Panicked || outcome is Failed,
        outcome matches CaptureOutcome::Failed(text) ==> failure_text(outcome) == Some(text@),
        outcome is Panicked ==> failure_text(outcome) == Some(
            general_error_text("Frame capture panic"@),
        ),
{
}

/// A device is configured exactly if both calls succeed; otherwise the first error of the two is
/// the one that counts.
pub proof fn a_device_is_configured_if_both_calls_succeed(
    set_format: Result<(), String>,
    open_stream: Result<(), String>,
)
    ensures
        configure_error(set_format, open_stream) is None <==> set_format is Ok && open_stream is Ok,
        set_format matches Err(text) ==> configure_error(set_format, open_stream) == Some(text@),
        set_format is Ok ==> (open_stream matches Err(text) ==> configure_error(
            set_format,
            open_stream,
        ) == Some(text@)),
{
}

/// The worker captures on exactly while the session runs and somebody has it open, whatever the
/// session's frames and errors are; otherwise it stops the stream.
pub proof fn a_worker_captures_while_there_are_users<W>(session: SessionView<W>)
    ensures
        next_action(session) == WorkerAction::Capture <==> session.running && session.active_count
            > 0,
        next_action(session) == WorkerAction::StopStream <==> !session.running
            || session.active_count <= 0,
{
}

/// However many frames and failures a worker has taken in, it has not touched the device, the
/// users, the worker's handle or whether the session runs; so it goes on exactly as before.
pub proof fn a_stream_goes_on_for_any_number_of_frames<W>(
    session: SessionView<W>,
    outcomes: Seq<CaptureOutcome>,
)
    ensures
        streamed(session, outcomes).running == session.running,
        streamed(session, outcomes).active_count == session.active_count,
        streamed(session, outcomes).device_held == session.device_held,
        streamed(session, outcomes).worker == session.worker,
        session.running && session.active_count > 0 ==> next_action(streamed(session, outcomes))
            == WorkerAction::Capture,
    decreases outcomes.len(),
{
    if outcomes.len() > 0 {
        a_stream_goes_on_for_any_number_of_frames(session, outcomes.drop_last());
    }
}

/// From a start on, the worker captures for as long as somebody has the camera open, unless it is
/// stopped or done, through every frame, report and further start.
pub proof fn a_worker_goes_on_for_its_users<W>(steps: Seq<Step<W>>, start: int)
    requires
        accounted(steps),
        starts(steps) <= usize::MAX,
        0 <= start < steps.len(),
        steps[start] is Start,
        forall|i: int|
            start < i < steps.len() ==> !(#[trigger] steps[i] is Stop) && !(steps[i] is Finish),
        forall|i: int|
            start < i <= steps.len() ==> starts(#[trigger] steps.take(i)) > refusals(steps.take(i))
                + closes(steps.take(i)),
    ensures
        next_action(SessionView::<W>::initial().after_all(steps)) == WorkerAction::Capture,
{
    a_session_runs_on_for_its_users(steps, start);
}

/// The failures that a worker counts reach a number that it tolerates exactly if that many outcomes
/// at the end have failed.
proof fn lemma_counted_at_the_end(outcomes: Seq<CaptureOutcome>, count: int)
    requires
        0 <= count <= 3,
    ensures
        (count <= outcomes.len() && forall|i: int|
            outcomes.len() - count <= i < outcomes.len() ==> is_failure(#[trigger] outcomes[i]))
            ==> counted_failures(outcomes) >= count,
        (forall|i: int| 0 <= i < outcomes.len() ==> !(#[trigger] outcomes[i] is CameraGone)) && (
        counted_failures(outcomes) >= count) ==> {
            &&& count <= outcomes.len()
            &&& forall|i: int|
                outcomes.len() - count <= i < outcomes.len() ==> is_failure(#[trigger] outcomes[i])
        },
    decreases count,
{
    if count > 0 && outcomes.len() > 0 {
        let before = outcomes.drop_last();
        let last = outcomes.len() - 1;
        lemma_counted_at_the_end(before, count - 1);
        if count <= outcomes.len() && forall|i: int|
            outcomes.len() - count <= i < outcomes.len() ==> is_failure(#[trigger] outcomes[i]) {
            assert(is_failure(outcomes[last]));
            assert forall|i: int| before.len() - (count - 1) <= i < before.len() implies is_failure(
                #[trigger] before[i],
            ) by {
                assert(before[i] == outcomes[i]);
            }
        }
        if (forall|i: int| 0 <= i < outcomes.len() ==> !(#[trigger] outcomes[i] is CameraGone)) && (
        counted_failures(outcomes) >= count) {
            assert(!(outcomes[last] is CameraGone));
            assert forall|i: int| 0 <= i < before.len() implies !(
            #[trigger] before[i] is CameraGone) by {
                assert(before[i] == outcomes[i]);
            }
            assert forall|i: int|
                outcomes.len() - count <= i < outcomes.len() implies is_failure(
                #[trigger] outcomes[i],
            ) by {
                if i < last {
                    assert(before[i] == outcomes[i]);
                }
            }
        }
    }
}

/// When four captures in a row have failed, what the last of them came to is reported, whatever was
/// captured and published before, and the worker gives up.
pub proof fn the_fourth_failure_in_a_row_is_reported<W>(
    session: SessionView<W>,
    outcomes: Seq<CaptureOutcome>,
)
    requires
        outcomes.len() >= 4,
        forall|i: int|
            outcomes.len() - 4 <= i < outcomes.len() ==> is_failure(#[trigger] outcomes[i]),
    ensures
        gives_up(counted_failures(outcomes.drop_last()), outcomes.last()),
        outcomes.last() matches CaptureOutcome::Failed(text) ==> streamed(session, outcomes).err
            == Some(text@),
        outcomes.last() is Panicked ==> streamed(session, outcomes).err == Some(
            general_error_text("Frame capture panic"@),
        ),
{
    let before = outcomes.drop_last();
    assert(is_failure(outcomes[outcomes.len() - 1]));
    assert forall|i: int| before.len() - 3 <= i < before.len() implies is_failure(
        #[trigger] before[i],
    ) by {
        assert(before[i] == outcomes[i]);
    }
    lemma_counted_at_the_end(before, 3);
}

/// While the device is there, a worker gives up on no less than four failures in a row.
pub proof fn a_worker_gives_up_on_four_failures_only(
    outcomes: Seq<CaptureOutcome>,
    outcome: CaptureOutcome,
)
    requires
        forall|i: int| 0 <= i < outcomes.len() ==> !(#[trigger] outcomes[i] is CameraGone),
        gives_up(counted_failures(outcomes), outcome),
    ensures
        is_failure(outcome),
        outcomes.len() >= 3,
        forall|i: int|
            outcomes.len() - 3 <= i < outcomes.len() ==> is_failure(#[trigger] outcomes[i]),
{
    lemma_counted_at_the_end(outcomes, 3);
}

/// The error on offer after a run of outcomes is the one from before it, or what one of the failures
/// in it came to.
pub proof fn an_error_comes_from_a_failure<W>(session: SessionView<W>, outcomes: Seq<CaptureOutcome>)
    ensures
        streamed(session, outcomes).err != session.err ==> exists|i: int|
            0 <= i < outcomes.len() && is_failure(#[trigger] outcomes[i]) && streamed(
                session,
                outcomes,
            ).err == failure_text(outcomes[i]),
    decreases outcomes.len(),
{
    if outcomes.len() > 0 {
        let before = outcomes.drop_last();
        let last = outcomes.len() - 1;
        an_error_comes_from_a_failure(session, before);
        if streamed(session, outcomes).err == streamed(session, before).err {
            if streamed(session, outcomes).err != session.err {
                let i = choose|i: int|
                    0 <= i < before.len() && is_failure(#[trigger] before[i]) && streamed(
                        session,
                        before,
                    ).err == failure_text(before[i]);
                assert(outcomes[i] == before[i]);
            }
        } else {
            assert(is_failure(outcomes[last]));
        }
    }
}

} // verus!
