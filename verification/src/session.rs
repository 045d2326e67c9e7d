//! One camera shared by several users: who has it open, whether its worker runs, and what the
//! worker has published.
//!
//! The device handle and the threads live outside. Each operation here is one step on the shared
//! state, taken under its lock; what must happen without the lock (joining a thread, talking to
//! the device) is named by the step's result.

use std::sync::Arc;

use vstd::prelude::*;
use vstd::string::*;

use crate::control::{CamControl, get_controls};
use crate::error::{
    CameraError, CameraErrorView, general_error, general_error_text, not_initialized,
    runtime_result,
};
use crate::format::{
    CamFormat, CameraFormat, caller_formats, camera_format_debug, get_formats, info, mode_text,
    mode_to_text,
};
use crate::frame::{FrameSnapshot, Image, ImageView, frame_view};

verus! {

/// The state that the users of a camera and its worker share. `W` is the handle by which a worker
/// is joined.
pub struct CameraInternal<W> {
    /// Whether the device is held; it is not taken up again once it has been released.
    pub device_held: bool,
    /// How many users have the camera open.
    pub active_count: usize,
    /// Whether a worker is meant to run.
    pub running: bool,
    /// The worker that was started last, until it is joined.
    pub worker: Option<W>,
    pub last_frame: FrameSnapshot,
    /// What ended the last worker, in the words of the device.
    pub last_err: Option<String>,
}

/// A [`CameraInternal`] as contracts speak of it.
#[verifier::ext_equal]
pub struct SessionView<W> {
    pub device_held: bool,
    pub active_count: int,
    pub running: bool,
    pub worker: Option<W>,
    pub seq: int,
    pub frame: Option<ImageView>,
    pub err: Option<Seq<char>>,
}

/// The steps that change a session.
pub enum Step<W> {
    /// A user asks for the stream.
    Start,
    /// That user is turned away.
    Refuse,
    /// The worker that a start called for has been spawned.
    Attach(W),
    /// A user closes the camera.
    Close,
    /// The worker is told to end, whoever still has the camera open.
    Stop,
    /// The device has been released, and what was published is withdrawn.
    Release,
    /// The worker publishes a frame.
    Publish(ImageView),
    /// The worker reports what it cannot cope with.
    Report(Seq<char>),
    /// The worker is done.
    Finish,
}

/// One more on a counter that starts over after its largest value.
pub open spec fn count_up(count: int) -> int {
    if count == usize::MAX {
        0
    } else {
        count + 1
    }
}

/// One less on such a counter.
pub open spec fn count_down(count: int) -> int {
    if count == 0 {
        usize::MAX as int
    } else {
        count - 1
    }
}

impl<W> SessionView<W> {
    /// The session of a camera that nobody has opened yet.
    pub open spec fn initial() -> Self {
        SessionView {
            device_held: true,
            active_count: 0,
            running: false,
            worker: None,
            seq: 0,
            frame: None,
            err: None,
        }
    }

    /// The session after one step.
    pub open spec fn after(self, step: Step<W>) -> Self {
        match step {
            Step::Start => SessionView {
                active_count: count_up(self.active_count),
                running: true,
                ..self
            },
            Step::Refuse => SessionView {
                active_count: count_down(self.active_count),
                ..self
            },
            Step::Attach(worker) => SessionView { worker: Some(worker), ..self },
            Step::Close => if self.active_count == 0 {
                self
            } else if self.active_count == 1 {
                SessionView { active_count: 0, running: false, worker: None, ..self }
            } else {
                SessionView { active_count: self.active_count - 1, ..self }
            },
            Step::Stop => SessionView { running: false, worker: None, ..self },
            Step::Release => SessionView { device_held: false, frame: None, err: None, ..self },
            Step::Publish(image) => SessionView { seq: self.seq + 1, frame: Some(image), ..self },
            Step::Report(text) => SessionView { err: Some(text), ..self },
            Step::Finish => SessionView { running: false, ..self },
        }
    }

    /// The session after a run of steps.
    pub open spec fn after_all(self, steps: Seq<Step<W>>) -> Self
        decreases steps.len(),
    {
        if steps.len() == 0 {
            self
        } else {
            self.after_all(steps.drop_last()).after(steps.last())
        }
    }

    /// What the device says, which is nothing once it has been released.
    pub open spec fn heard<T>(self, said: Option<T>) -> Option<T> {
        if self.device_held {
            said
        } else {
            None
        }
    }

    /// Whether the worker goes on to the next frame.
    pub open spec fn wanted(self) -> bool {
        self.running && self.active_count > 0
    }
}

/// The text of an error, if there is one.
pub open spec fn err_view(err: Option<String>) -> Option<Seq<char>> {
    match err {
        Some(text) => Some(text@),
        None => None,
    }
}

impl<W> View for CameraInternal<W> {
    type V = SessionView<W>;

    open spec fn view(&self) -> SessionView<W> {
        SessionView {
            device_held: self.device_held,
            active_count: self.active_count as int,
            running: self.running,
            worker: self.worker,
            seq: self.last_frame.seq as int,
            frame: frame_view(*self.last_frame.frame),
            err: err_view(self.last_err),
        }
    }
}

/// What a start calls for.
#[derive(Clone, Copy, Debug, PartialEq, Eq, Structural)]
pub enum StartAction {
    /// Nothing streams yet: spawn a worker that configures this format, and attach it.
    SpawnWorker(CameraFormat),
    /// A worker streams already: find the format that it uses, and confirm this one against it.
    CompareFormat(CameraFormat),
}

/// What a close calls for.
#[derive(Debug, PartialEq, Eq)]
pub enum CloseAction<W> {
    /// Nobody had the camera open.
    NotOpen,
    /// Others still have it open.
    StillOpen,
    /// The last user is gone: join the worker, let go of the device, then release.
    Shutdown(Option<W>),
}

/// What a close of this session calls for.
pub open spec fn close_action<W>(session: SessionView<W>) -> CloseAction<W> {
    if session.active_count == 0 {
        CloseAction::NotOpen
    } else if session.active_count == 1 {
        CloseAction::Shutdown(session.worker)
    } else {
        CloseAction::StillOpen
    }
}

/// Why a start is turned away when the device streams with `current` already; `None` if the device
/// is gone.
pub open spec fn refusal_text(requested: CameraFormat, current: Option<CameraFormat>) -> Seq<char> {
    match current {
        None => general_error_text("Camera is not available while marked as running"@),
        Some(current) => general_error_text(
            "Camera is already streaming with a different format. Current: "@ + mode_text(current)
                + ", Requested: "@ + mode_text(requested),
        ),
    }
}

impl<W> CameraInternal<W> {
    /// The session of a camera that nobody has opened yet.
    pub fn new() -> (session: CameraInternal<W>)
        ensures
            session@ == SessionView::<W>::initial(),
            session.device_held,
            session.active_count == 0,
            !session.running,
            session.worker is None,
            session.last_frame.seq == 0,
            *session.last_frame.frame is None,
            session.last_err is None,
    {
        CameraInternal {
            device_held: true,
            active_count: 0,
            running: false,
            worker: None,
            last_frame: FrameSnapshot::new(),
            last_err: None,
        }
    }

    /// What the device says, which is nothing once it has been released.
    pub(crate) fn hear<T>(&self, said: Option<T>) -> (heard: Option<T>)
        ensures
            self.device_held ==> heard == said,
            !self.device_held ==> heard is None,
            heard == self@.heard(said),
    {
        if self.device_held {
            said
        } else {
            None
        }
    }

    /// Describes the format that the device is set to.
    pub fn info(&self, current: Option<CameraFormat>) -> (result: Result<String, CameraError>)
        ensures
            result is Ok <==> self.device_held && current is Some,
            match self@.heard(current) {
                Some(format) => {
                    result matches Ok(text) && text@ == "Selected format: "@ + camera_format_debug(
                        format,
                    )
                },
                None => result matches Err(error) && error@ == not_initialized(),
            },
    {
        info(self.hear(current))
    }

    /// The formats that the device lists, in its order.
    pub fn get_formats(&self, listed: Option<Result<Vec<CameraFormat>, String>>) -> (result: Result<
        Vec<CamFormat>,
        CameraError,
    >)
        ensures
            listed matches Some(Ok(formats)) ==> (self.device_held ==> {
                &&& result matches Ok(given)
                &&& given@.len() == formats@.len()
                &&& forall|i: int|
                    0 <= i < formats@.len() ==> (#[trigger] given@[i]).width == formats@[i].width
                        && given@[i].height == formats@[i].height && given@[i].frame_rate
                        == formats@[i].frame_rate && given@[i].format == formats@[i].format
            }),
            match self@.heard(listed) {
                None => result matches Err(error) && error@ == not_initialized(),
                Some(Ok(formats)) => result matches Ok(given) && given@ == caller_formats(formats@),
                Some(Err(text)) => {
                    result matches Err(error) && error@ == CameraErrorView::Runtime(text@)
                },
            },
    {
        get_formats(self.hear(listed))
    }

    /// The controls of the device by name; one that cannot list them counts as one that has none.
    pub fn get_controls(
        &self,
        listed: Option<Result<Vec<(String, CamControl)>, String>>,
    ) -> (result: Result<Vec<(String, CamControl)>, CameraError>)
        ensures
            listed matches Some(Ok(controls)) ==> (self.device_held ==> {
                &&& result matches Ok(given)
                &&& given@ == controls@
            }),
            match self@.heard(listed) {
                None => result matches Err(error) && error@ == not_initialized(),
                Some(Ok(controls)) => result matches Ok(given) && given@ == controls@,
                Some(Err(_)) => result matches Ok(given) && given@.len() == 0,
            },
    {
        get_controls(self.hear(listed))
    }

    /// Counts one more user in. The first one needs a worker; a later one must agree with what
    /// streams already.
    pub fn start(&mut self, format: CameraFormat) -> (action: StartAction)
        ensures
            final(self).running,
            old(self).active_count < usize::MAX ==> final(self).active_count == old(
                self,
            ).active_count + 1,
            action is SpawnWorker <==> !old(self).running,
            action matches StartAction::SpawnWorker(asked) ==> asked == format,
            action matches StartAction::CompareFormat(asked) ==> asked == format,
            final(self)@ == old(self)@.after(Step::Start),
            action == if old(self)@.running {
                StartAction::CompareFormat(format)
            } else {
                StartAction::SpawnWorker(format)
            },
    {
        self.active_count = self.active_count.wrapping_add(1);
        if self.running {
            StartAction::CompareFormat(format)
        } else {
            self.running = true;
            StartAction::SpawnWorker(format)
        }
    }

    /// Keeps the handle of the worker that a start called for.
    pub fn attach_worker(&mut self, worker: W)
        ensures
            final(self).worker == Some(worker),
            final(self)@ == old(self)@.after(Step::Attach(worker)),
    {
        self.worker = Some(worker);
    }

    /// Settles a start on a running stream: it stands only if the device is held and uses the
    /// requested format; otherwise the user is counted out again.
    pub fn confirm_start(
        &mut self,
        requested: CameraFormat,
        current: Option<CameraFormat>,
    ) -> (result: Result<(), String>)
        ensures
            result is Ok <==> old(self).device_held && current == Some(requested),
            result is Ok <==> old(self)@.heard(current) == Some(requested),
            result is Ok ==> final(self)@ == old(self)@,
            result matches Err(text) ==> {
                &&& text@ == refusal_text(requested, old(self)@.heard(current))
                &&& final(self)@ == old(self)@.after(Step::Refuse)
            },
    {
        match self.hear(current) {
            None => {
                self.active_count = self.active_count.wrapping_sub(1);
                Err(general_error("Camera is not available while marked as running".to_owned()))
            },
            Some(current) => {
                if current == requested {
                    return Ok(());
                }
                self.active_count = self.active_count.wrapping_sub(1);
                let mut message =
                    "Camera is already streaming with a different format. Current: ".to_owned();
                message.append(mode_to_text(current).as_str());
                message.append(", Requested: ");
                message.append(mode_to_text(requested).as_str());
                Err(general_error(message))
            },
        }
    }

    /// A caller asks for a stream in this format.
    pub fn open(&mut self, format: CamFormat) -> (action: StartAction)
        ensures
            action is SpawnWorker <==> !old(self).running,
            action matches StartAction::SpawnWorker(asked) ==> asked.width == format.width
                && asked.height == format.height && asked.frame_rate == format.frame_rate
                && asked.format == format.format,
            action matches StartAction::CompareFormat(asked) ==> asked.width == format.width
                && asked.height == format.height && asked.frame_rate == format.frame_rate
                && asked.format == format.format,
            final(self)@ == old(self)@.after(Step::Start),
            ({
                let format = CameraFormat {
                    width: format.width,
                    height: format.height,
                    format: format.format,
                    frame_rate: format.frame_rate,
                };
                action == if old(self)@.running {
                    StartAction::CompareFormat(format)
                } else {
                    StartAction::SpawnWorker(format)
                }
            }),
    {
        self.start(CameraFormat::from(format))
    }

    /// Settles what a caller asked for on a running stream, and says why where it is turned away.
    pub fn confirm_open(
        &mut self,
        requested: CameraFormat,
        current: Option<CameraFormat>,
    ) -> (result: Result<(), CameraError>)
        ensures
            result is Ok <==> old(self).device_held && current == Some(requested),
            result is Ok <==> old(self)@.heard(current) == Some(requested),
            result is Ok ==> final(self)@ == old(self)@,
            result matches Err(error) ==> {
                &&& error@ == CameraErrorView::Runtime(
                    refusal_text(requested, old(self)@.heard(current)),
                )
                &&& final(self)@ == old(self)@.after(Step::Refuse)
            },
    {
        runtime_result(self.confirm_start(requested, current))
    }

    /// Counts one user out; the last one ends the stream.
    pub fn close(&mut self) -> (action: CloseAction<W>)
        ensures
            final(self).active_count == if old(self).active_count == 0 {
                0
            } else {
                old(self).active_count - 1
            },
            action is NotOpen <==> old(self).active_count == 0,
            action is Shutdown <==> old(self).active_count == 1,
            final(self)@ == old(self)@.after(Step::Close),
            action == close_action(old(self)@),
    {
        if self.active_count == 0 {
            return CloseAction::NotOpen;
        }
        self.active_count = self.active_count - 1;
        if self.active_count == 0 {
            CloseAction::Shutdown(self.stop())
        } else {
            CloseAction::StillOpen
        }
    }

    /// Tells the worker to end, and gives up its handle, so that it can be joined.
    pub fn stop(&mut self) -> (worker: Option<W>)
        ensures
            !final(self).running,
            final(self).worker is None,
            final(self)@ == old(self)@.after(Step::Stop),
            worker == old(self)@.worker,
            worker == old(self).worker,
    {
        self.running = false;
        self.worker.take()
    }

    /// Takes in that the worker has ended and the device has been let go of, and withdraws the frame
    /// and the error. The numbering of frames goes on for as long as the session lives.
    pub fn release(&mut self)
        ensures
            !final(self).device_held,
            *final(self).last_frame.frame is None,
            final(self).last_frame.seq == old(self).last_frame.seq,
            final(self).last_err is None,
            final(self)@ == old(self)@.after(Step::Release),
    {
        self.device_held = false;
        self.last_frame.clear();
        self.last_err = None;
    }

    /// Publishes a frame.
    pub(crate) fn publish(&mut self, image: Image)
        requires
            old(self)@.seq < u64::MAX,
        ensures
            final(self).last_frame.seq == old(self).last_frame.seq + 1,
            *final(self).last_frame.frame == Some(image),
            final(self).last_err == old(self).last_err,
            final(self)@ == old(self)@.after(Step::Publish(image@)),
    {
        self.last_frame.store(image);
    }

    /// Leaves word of an error.
    pub(crate) fn report(&mut self, text: String)
        ensures
            final(self).last_err == Some(text),
            final(self)@ == old(self)@.after(Step::Report(text@)),
    {
        self.last_err = Some(text);
    }

    /// Marks the worker as ended.
    pub(crate) fn finish(&mut self)
        ensures
            !final(self).running,
            final(self)@ == old(self)@.after(Step::Finish),
    {
        self.running = false;
    }

    /// The latest frame and its number.
    pub fn last_frame(&self) -> (latest: (Arc<Option<Image>>, u64))
        ensures
            *latest.0 == *self.last_frame.frame,
            latest.1 == self.last_frame.seq,
            frame_view(*latest.0) == self@.frame,
            latest.1 == self@.seq,
    {
        self.last_frame.latest()
    }

    /// Passes on what ended the last worker, as often as it is asked.
    pub fn check_err(&self) -> (result: Result<(), CameraError>)
        ensures
            result is Err <==> self.last_err is Some,
            self.last_err matches Some(text) ==> {
                &&& result matches Err(error)
                &&& error@ == CameraErrorView::Runtime(text@)
            },
            match self@.err {
                Some(text) => result matches Err(error) && error@ == CameraErrorView::Runtime(text),
                None => result is Ok,
            },
    {
        match &self.last_err {
            Some(text) => Err(CameraError::Runtime(text.clone())),
            None => Ok(()),
        }
    }
}

/// How many frames a run of steps publishes.
pub open spec fn published<W>(steps: Seq<Step<W>>) -> nat
    decreases steps.len(),
{
    if steps.len() == 0 {
        0
    } else {
        published(steps.drop_last()) + if steps.last() is Publish {
            1nat
        } else {
            0
        }
    }
}

/// The number of a frame counts the frames that were published since the session began, through
/// every start, close and error. It never decreases, and it is never reset.
pub proof fn frames_are_numbered_for_life<W>(session: SessionView<W>, steps: Seq<Step<W>>)
    ensures
        session.after_all(steps).seq == session.seq + published(steps),
    decreases steps.len(),
{
    if steps.len() > 0 {
        frames_are_numbered_for_life(session, steps.drop_last());
    }
}

/// A frame on offer has a number: in no session can one be found under zero.
pub proof fn a_frame_on_offer_is_numbered<W>(steps: Seq<Step<W>>)
    ensures
        SessionView::<W>::initial().after_all(steps).frame is Some ==> SessionView::<W>::initial().after_all(
            steps,
        ).seq > 0,
    decreases steps.len(),
{
    if steps.len() > 0 {
        a_frame_on_offer_is_numbered(steps.drop_last());
        frames_are_numbered_for_life(SessionView::<W>::initial(), steps.drop_last());
    }
}

/// The number of users stays within its counter, whatever happens.
pub proof fn users_stay_countable<W>(steps: Seq<Step<W>>)
    ensures
        0 <= SessionView::<W>::initial().after_all(steps).active_count <= usize::MAX,
    decreases steps.len(),
{
    if steps.len() > 0 {
        users_stay_countable(steps.drop_last());
    }
}

/// A start that is turned away leaves a running session as it was.
pub proof fn a_refused_start_leaves_no_trace<W>(session: SessionView<W>)
    requires
        session.running,
        0 <= session.active_count <= usize::MAX,
    ensures
        session.after(Step::Start).after(Step::Refuse) == session,
{
}

/// Two reads of a session carry the same number exactly if nothing was published in between, and
/// then they give the same frame, unless it has been withdrawn.
pub proof fn one_number_is_one_frame<W>(session: SessionView<W>, steps: Seq<Step<W>>)
    ensures
        session.after_all(steps).seq == session.seq <==> forall|i: int|
            0 <= i < steps.len() ==> !(#[trigger] steps[i] is Publish),
        session.after_all(steps).seq == session.seq ==> {
            ||| session.after_all(steps).frame is None
            ||| session.after_all(steps).frame == session.frame
        },
    decreases steps.len(),
{
    frames_are_numbered_for_life(session, steps);
    if steps.len() > 0 {
        let before = steps.drop_last();
        one_number_is_one_frame(session, before);
        frames_are_numbered_for_life(session, before);
        if published(steps) == 0 {
            assert forall|i: int| 0 <= i < steps.len() implies !(#[trigger] steps[i] is Publish) by {
                if i < before.len() {
                    assert(before[i] == steps[i]);
                }
            }
        } else if !(steps.last() is Publish) {
            let i = choose|i: int| 0 <= i < before.len() && (#[trigger] before[i] is Publish);
            assert(steps[i] is Publish);
        } else {
            assert(steps[steps.len() - 1] is Publish);
        }
    }
}

/// An error stays on offer until it is withdrawn or another one takes its place.
pub proof fn an_error_stays_on_offer<W>(session: SessionView<W>, steps: Seq<Step<W>>)
    requires
        forall|i: int|
            0 <= i < steps.len() ==> !(#[trigger] steps[i] is Report) && !(steps[i] is Release),
    ensures
        session.after_all(steps).err == session.err,
    decreases steps.len(),
{
    if steps.len() > 0 {
        an_error_stays_on_offer(session, steps.drop_last());
    }
}

/// Once a session does not run, only a start makes it run again: until then no worker that looks
/// at it goes on.
pub proof fn only_a_start_revives<W>(session: SessionView<W>, steps: Seq<Step<W>>)
    requires
        !session.running,
        forall|i: int| 0 <= i < steps.len() ==> !(#[trigger] steps[i] is Start),
    ensures
        !session.after_all(steps).running,
        !session.after_all(steps).wanted(),
    decreases steps.len(),
{
    if steps.len() > 0 {
        only_a_start_revives(session, steps.drop_last());
    }
}

/// A session runs from a start until its worker is done, it is stopped, or the last user closes
/// it. While it runs, no start calls for a second worker.
pub proof fn what_keeps_a_session_running<W>(session: SessionView<W>, step: Step<W>)
    ensures
        session.after(step).running <==> {
            ||| step is Start
            ||| {
                &&& session.running
                &&& !(step is Stop)
                &&& !(step is Finish)
                &&& !(step is Close && session.active_count == 1)
            }
        },
{
}

/// The last close and the release that follows it leave nothing but the numbering, whatever the
/// worker still did in between, and the device is gone.
pub proof fn the_last_close_resets<W>(session: SessionView<W>, steps: Seq<Step<W>>)
    requires
        session.active_count == 1,
        forall|i: int|
            0 <= i < steps.len() ==> #[trigger] steps[i] is Publish || steps[i] is Report
                || steps[i] is Finish,
    ensures
        session.after(Step::Close).after_all(steps).after(Step::Release) == (SessionView {
            device_held: false,
            seq: session.seq + published(steps),
            ..SessionView::<W>::initial()
        }),
    decreases steps.len(),
{
    if steps.len() > 0 {
        the_last_close_resets(session, steps.drop_last());
    }
}

/// Once the device has been released it stays so, and whatever is asked of it finds nothing.
pub proof fn a_released_device_stays_released<W, T>(
    session: SessionView<W>,
    steps: Seq<Step<W>>,
    said: Option<T>,
)
    requires
        !session.device_held,
    ensures
        !session.after_all(steps).device_held,
        session.after_all(steps).heard(said) is None,
    decreases steps.len(),
{
    if steps.len() > 0 {
        a_released_device_stays_released(session, steps.drop_last(), said);
    }
}

/// The device is held until it is released, and only then let go.
pub proof fn only_a_release_lets_go_of_the_device<W>(session: SessionView<W>, step: Step<W>)
    ensures
        session.after(step).device_held <==> session.device_held && !(step is Release),
{
}

/// After the last close and its release, whatever follows, every request to the device finds
/// nothing.
pub proof fn the_last_close_releases_the_device_for_good<W, T>(
    session: SessionView<W>,
    ending: Seq<Step<W>>,
    later: Seq<Step<W>>,
    said: Option<T>,
)
    requires
        session.active_count == 1,
        forall|i: int|
            0 <= i < ending.len() ==> #[trigger] ending[i] is Publish || ending[i] is Report
                || ending[i] is Finish,
    ensures
        close_action(session) == CloseAction::Shutdown(session.worker),
        session.after(Step::Close).after_all(ending).after(Step::Release).after_all(later).heard(
            said,
        ) is None,
{
    a_released_device_stays_released(
        session.after(Step::Close).after_all(ending).after(Step::Release),
        later,
        said,
    );
}

/// How many steps of a run start.
pub open spec fn starts<W>(steps: Seq<Step<W>>) -> nat
    decreases steps.len(),
{
    if steps.len() == 0 {
        0
    } else {
        starts(steps.drop_last()) + if steps.last() is Start {
            1nat
        } else {
            0
        }
    }
}

/// How many starts of a run are turned away.
pub open spec fn refusals<W>(steps: Seq<Step<W>>) -> nat
    decreases steps.len(),
{
    if steps.len() == 0 {
        0
    } else {
        refusals(steps.drop_last()) + if steps.last() is Refuse {
            1nat
        } else {
            0
        }
    }
}

/// How many steps of a run close.
pub open spec fn closes<W>(steps: Seq<Step<W>>) -> nat
    decreases steps.len(),
{
    if steps.len() == 0 {
        0
    } else {
        closes(steps.drop_last()) + if steps.last() is Close {
            1nat
        } else {
            0
        }
    }
}

/// Whether nobody is turned away, and the stream ends only when it is closed.
pub open spec fn undisturbed<W>(steps: Seq<Step<W>>) -> bool {
    forall|i: int|
        0 <= i < steps.len() ==> !(#[trigger] steps[i] is Refuse) && !(steps[i] is Stop) && !(
        steps[i] is Finish)
}

/// Undisturbed, a session runs exactly while someone has it open.
pub proof fn a_session_runs_while_someone_has_it_open<W>(steps: Seq<Step<W>>)
    requires
        undisturbed(steps),
        starts(steps) <= usize::MAX,
    ensures
        0 <= SessionView::<W>::initial().after_all(steps).active_count <= starts(steps),
        SessionView::<W>::initial().after_all(steps).running <==> SessionView::<
            W,
        >::initial().after_all(steps).active_count > 0,
    decreases steps.len(),
{
    if steps.len() > 0 {
        a_session_runs_while_someone_has_it_open(steps.drop_last());
    }
}

/// Whether at no point of a run more users have been turned away or have closed than had started.
pub open spec fn accounted<W>(steps: Seq<Step<W>>) -> bool {
    forall|i: int|
        0 <= i <= steps.len() ==> refusals(#[trigger] steps.take(i)) + closes(steps.take(i))
            <= starts(steps.take(i))
}

/// The users of a session are those who started it, were not turned away, and have not closed it
/// yet, whatever the worker does meanwhile, and in whatever order they come and go.
pub proof fn every_start_needs_its_close<W>(steps: Seq<Step<W>>)
    requires
        accounted(steps),
        starts(steps) <= usize::MAX,
    ensures
        SessionView::<W>::initial().after_all(steps).active_count == starts(steps) - refusals(steps)
            - closes(steps),
    decreases steps.len(),
{
    assert(steps.take(steps.len() as int) =~= steps);
    if steps.len() > 0 {
        let before = steps.drop_last();
        assert forall|i: int| 0 <= i <= before.len() implies refusals(#[trigger] before.take(i))
            + closes(before.take(i)) <= starts(before.take(i)) by {
            assert(before.take(i) =~= steps.take(i));
        }
        every_start_needs_its_close(before);
    }
}

/// Closing counts users out one by one, down to none; a close too many does nothing. Exactly the
/// close of the last user shuts down.
pub proof fn only_the_last_close_shuts_down<W>(session: SessionView<W>, steps: Seq<Step<W>>)
    requires
        session.active_count >= 0,
        forall|i: int|
            0 <= i < steps.len() ==> !(#[trigger] steps[i] is Start) && !(steps[i] is Refuse),
    ensures
        session.after_all(steps).active_count == if closes(steps) <= session.active_count {
            session.active_count - closes(steps)
        } else {
            0
        },
        close_action(session.after_all(steps)) is Shutdown <==> closes(steps) + 1
            == session.active_count,
    decreases steps.len(),
{
    if steps.len() > 0 {
        only_the_last_close_shuts_down(session, steps.drop_last());
    }
}

/// After a run in which users start, and some are turned away, and a second one in which users
/// close, the users left are the starts that stood less the closes, and never less than none. The
/// next close shuts down exactly if it is the one that matches the last of these starts.
pub proof fn closes_match_starts<W>(opening: Seq<Step<W>>, closing: Seq<Step<W>>)
    requires
        accounted(opening),
        starts(opening) <= usize::MAX,
        forall|i: int| 0 <= i < opening.len() ==> !(#[trigger] opening[i] is Close),
        forall|i: int|
            0 <= i < closing.len() ==> !(#[trigger] closing[i] is Start) && !(closing[i] is Refuse),
    ensures
        ({
            let stood = starts(opening) - refusals(opening);
            let session = SessionView::<W>::initial().after_all(opening).after_all(closing);
            &&& session.active_count == if closes(closing) <= stood {
                stood - closes(closing)
            } else {
                0
            }
            &&& close_action(session) is Shutdown <==> closes(closing) + 1 == stood
        }),
{
    every_start_needs_its_close(opening);
    lemma_no_close(opening);
    only_the_last_close_shuts_down(SessionView::<W>::initial().after_all(opening), closing);
}

proof fn lemma_no_close<W>(steps: Seq<Step<W>>)
    requires
        forall|i: int| 0 <= i < steps.len() ==> !(#[trigger] steps[i] is Close),
    ensures
        closes(steps) == 0,
    decreases steps.len(),
{
    if steps.len() > 0 {
        lemma_no_close(steps.drop_last());
    }
}

/// A session is seen with its own state: nothing of it is left out, and nothing is made up.
pub proof fn a_session_is_seen_as_it_is<W>(session: CameraInternal<W>)
    ensures
        session@.device_held == session.device_held,
        session@.active_count == session.active_count,
        session@.running == session.running,
        session@.worker == session.worker,
        session@.seq == session.last_frame.seq,
        session@.frame is Some <==> *session.last_frame.frame is Some,
        *session.last_frame.frame matches Some(image) ==> session@.frame == Some(image@),
        session@.err is Some <==> session.last_err is Some,
        session.last_err matches Some(text) ==> session@.err == Some(text@),
{
}

/// A camera that was just constructed is held, but nobody has it open, nothing runs, and nothing
/// has been published or reported.
pub proof fn a_new_session_is_idle<W>()
    ensures
        SessionView::<W>::initial().device_held,
        SessionView::<W>::initial().active_count == 0,
        !SessionView::<W>::initial().running,
        SessionView::<W>::initial().worker is None,
        SessionView::<W>::initial().seq == 0,
        SessionView::<W>::initial().frame is None,
        SessionView::<W>::initial().err is None,
{
}

/// While the device is held, what it says is passed on unchanged, whether the session runs or not
/// and however many users it has.
pub proof fn a_held_device_is_heard<W, T>(session: SessionView<W>, said: Option<T>)
    requires
        session.device_held,
    ensures
        session.heard(said) == said,
{
}

/// From its construction until it is released a device is heard, whatever else happens.
pub proof fn a_device_is_heard_until_it_is_released<W, T>(steps: Seq<Step<W>>, said: Option<T>)
    requires
        forall|i: int| 0 <= i < steps.len() ==> !(#[trigger] steps[i] is Release),
    ensures
        SessionView::<W>::initial().after_all(steps).device_held,
        SessionView::<W>::initial().after_all(steps).heard(said) == said,
    decreases steps.len(),
{
    if steps.len() > 0 {
        a_device_is_heard_until_it_is_released(steps.drop_last(), said);
    }
}

/// An error that is reported is on offer, whatever the session was, and stays there until it is
/// withdrawn or another one takes its place.
pub proof fn a_reported_error_is_on_offer<W>(
    session: SessionView<W>,
    text: Seq<char>,
    later: Seq<Step<W>>,
)
    requires
        forall|i: int|
            0 <= i < later.len() ==> !(#[trigger] later[i] is Report) && !(later[i] is Release),
    ensures
        session.after(Step::Report(text)).err == Some(text),
        session.after(Step::Report(text)).after_all(later).err == Some(text),
{
    an_error_stays_on_offer(session.after(Step::Report(text)), later);
}

/// A frame that is published is on offer, whatever the session was, and stays there until it is
/// withdrawn or another one takes its place.
pub proof fn a_published_frame_is_on_offer<W>(
    session: SessionView<W>,
    image: ImageView,
    later: Seq<Step<W>>,
)
    requires
        forall|i: int|
            0 <= i < later.len() ==> !(#[trigger] later[i] is Publish) && !(later[i] is Release),
    ensures
        session.after(Step::Publish(image)).frame == Some(image),
        session.after(Step::Publish(image)).after_all(later).frame == Some(image),
        session.after(Step::Publish(image)).after_all(later).seq == session.seq + 1,
    decreases later.len(),
{
    if later.len() > 0 {
        a_published_frame_is_on_offer(session, image, later.drop_last());
    }
}

/// A worker that was attached is the one to join: the last close and a stop give it up, and until
/// then nothing but another worker takes its place.
pub proof fn an_attached_worker_is_kept_for_joining<W>(session: SessionView<W>, step: Step<W>)
    ensures
        step matches Step::Attach(worker) ==> session.after(step).worker == Some(worker),
        step is Stop || (step is Close && session.active_count == 1) ==> session.after(
            step,
        ).worker is None,
        !(step is Attach) && !(step is Stop) && !(step is Close && session.active_count == 1)
            ==> session.after(step).worker == session.worker,
{
}

/// A start counts one user in, a refusal and a close count one out, and nothing else touches the
/// count.
pub proof fn users_come_and_go_one_by_one<W>(session: SessionView<W>, step: Step<W>)
    requires
        0 <= session.active_count < usize::MAX,
        step is Refuse ==> session.active_count > 0,
    ensures
        session.after(step).active_count - session.active_count == if step is Start {
            1int
        } else if session.active_count > 0 && (step is Refuse || step is Close) {
            -1
        } else {
            0
        },
{
}

/// The counter of users goes round: one up and one down, in either order, cancel out, and within
/// its range it counts by one.
pub proof fn the_user_counter_goes_round(count: int)
    requires
        0 <= count <= usize::MAX,
    ensures
        0 <= count_up(count) <= usize::MAX,
        0 <= count_down(count) <= usize::MAX,
        count_down(count_up(count)) == count,
        count_up(count_down(count)) == count,
        count < usize::MAX ==> count_up(count) == count + 1,
        count > 0 ==> count_down(count) == count - 1,
{
}

/// Only publishing advances the numbering; only publishing and a release change the frame on offer;
/// only a report and a release change the error on offer.
pub proof fn what_changes_what_is_on_offer<W>(session: SessionView<W>, step: Step<W>)
    ensures
        session.after(step).seq == session.seq + if step is Publish {
            1int
        } else {
            0
        },
        !(step is Publish) && !(step is Release) ==> session.after(step).frame == session.frame,
        !(step is Report) && !(step is Release) ==> session.after(step).err == session.err,
        step is Release ==> session.after(step).frame is None && session.after(step).err is None,
{
}

/// A close is answered by how many users there were: none, one, who takes the worker along to join
/// it, or more.
pub proof fn a_close_is_answered_by_the_users_left<W>(session: SessionView<W>)
    ensures
        close_action(session) is NotOpen <==> session.active_count == 0,
        close_action(session) is Shutdown <==> session.active_count == 1,
        close_action(session) matches CloseAction::Shutdown(worker) ==> worker == session.worker,
{
}

/// A run of steps is taken one after the other.
pub proof fn runs_follow_each_other<W>(
    session: SessionView<W>,
    first: Seq<Step<W>>,
    second: Seq<Step<W>>,
    step: Step<W>,
)
    ensures
        session.after_all(first + second) == session.after_all(first).after_all(second),
        session.after_all(seq![step]) == session.after(step),
        session.after_all(Seq::empty()) == session,
    decreases second.len(),
{
    assert(seq![step].drop_last() =~= Seq::empty());
    assert(session.after_all(seq![step].drop_last()) == session);
    if second.len() > 0 {
        runs_follow_each_other(session, first, second.drop_last(), step);
        assert((first + second).drop_last() =~= first + second.drop_last());
        assert((first + second).last() == second.last());
    } else {
        assert(first + second =~= first);
    }
}

/// From a start on, a session runs for as long as somebody has it open, unless it is stopped or its
/// worker is done.
pub proof fn a_session_runs_on_for_its_users<W>(steps: Seq<Step<W>>, start: int)
    requires
        accounted(steps),
        starts(steps) <= usize::MAX,
        0 <= start < steps.len(),
        steps[start] is Start,
        forall|i: int|
            start < i < steps.len() ==> !(#[trigger] steps[i] is Stop) && !(steps[i] is Finish),
        forall|i: int|
            start < i <= steps.len() ==> starts(#[trigger] steps.take(i)) > refusals(steps.take(i))
                + closes(steps.take(i)),
    ensures
        SessionView::<W>::initial().after_all(steps).running,
        SessionView::<W>::initial().after_all(steps).active_count > 0,
        SessionView::<W>::initial().after_all(steps).wanted(),
    decreases steps.len(),
{
    let whole = steps.take(steps.len() as int);
    assert(whole =~= steps);
    every_start_needs_its_close(steps);
    let before = steps.drop_last();
    if start < before.len() {
        assert forall|i: int| 0 <= i <= before.len() implies refusals(#[trigger] before.take(i))
            + closes(before.take(i)) <= starts(before.take(i)) by {
            assert(before.take(i) =~= steps.take(i));
        }
        assert forall|i: int| start < i <= before.len() implies starts(#[trigger] before.take(i))
            > refusals(before.take(i)) + closes(before.take(i)) by {
            assert(before.take(i) =~= steps.take(i));
        }
        a_session_runs_on_for_its_users(before, start);
        assert(!(steps[steps.len() - 1] is Stop) && !(steps[steps.len() - 1] is Finish));
    }
}

/// A worker is wanted exactly while the session runs and somebody has it open, whatever has been
/// published or reported.
pub proof fn a_worker_is_wanted_while_there_are_users<W>(session: SessionView<W>)
    ensures
        session.wanted() <==> session.running && session.active_count > 0,
{
}

/// A refusal of a format says which one streams, and then which one was asked for.
pub proof fn a_refusal_names_both_formats(requested: CameraFormat, current: CameraFormat)
    ensures
        ({
            let text = refusal_text(requested, Some(current));
            let lead = general_error_text(
                "Camera is already streaming with a different format. Current: "@,
            );
            let middle = ", Requested: "@;
            let a = lead.len() as int;
            let b = a + mode_text(current).len();
            let c = b + middle.len();
            &&& text.take(a) == lead
            &&& text.subrange(a, b) == mode_text(current)
            &&& text.subrange(b, c) == middle
            &&& text.skip(c) == mode_text(requested)
        }),
        refusal_text(requested, None) == general_error_text(
            "Camera is not available while marked as running"@,
        ),
{
    let text = refusal_text(requested, Some(current));
    let lead = general_error_text(
        "Camera is already streaming with a different format. Current: "@,
    );
    let middle = ", Requested: "@;
    let a = lead.len() as int;
    let b = a + mode_text(current).len();
    let c = b + middle.len();
    assert(text =~= lead + mode_text(current) + middle + mode_text(requested));
    assert(text.take(a) =~= lead);
    assert(text.subrange(a, b) =~= mode_text(current));
    assert(text.subrange(b, c) =~= middle);
    assert(text.skip(c) =~= mode_text(requested));
}

} // verus!
