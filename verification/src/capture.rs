//! The capture orchestrator: the loop that decides, tick by tick, whether to
//! stop, to wait or to capture, and the cycle that turns what the
//! collaborators report into one event.
//!
//! Neither the loop nor the cycle touches the outside world. Each is a state
//! machine: it is told what happened and answers with what to do next. The
//! driver sleeps, asks the collaborators and writes to the store.

use crate::config::{Config, ConfigView};
use crate::database::{CaptureRecord, RecordView};
use crate::error::{CaptureError, DatabaseError, ImageStoreError, MetadataError, OcrError};
use crate::image_store::{image_path, ImageStore};
use crate::pause_control::PauseControl;
use crate::timestamp::{captured_at_text, Timestamp};
use vstd::prelude::*;
use vstd::string::*;

verus! {

/// The state of the loop.
#[derive(Debug, Clone, Copy, PartialEq, Eq, Structural)]
pub enum LoopState {
    Running,
    /// The shutdown request was seen. Nothing leads out of this state.
    ShuttingDown,
}

/// What the driver does after a tick.
#[derive(Debug, Clone, Copy, PartialEq, Eq, Structural)]
pub enum LoopAction {
    /// Leave the loop.
    Exit,
    /// Paused: wait one interval and tick again, without an event.
    Sleep { seconds: u64 },
    /// Run one capture cycle to its end, wait one interval whatever came of
    /// the cycle, and tick again.
    CaptureThenSleep { seconds: u64 },
}

/// What the loop sees at a tick.
pub struct Observation {
    pub shutdown_requested: bool,
    pub paused: bool,
}

/// The state after a tick. A shutdown request is final.
pub open spec fn next_state(state: LoopState, seen: Observation) -> LoopState {
    if state == LoopState::ShuttingDown || seen.shutdown_requested {
        LoopState::ShuttingDown
    } else {
        LoopState::Running
    }
}

/// The action of a tick: a shutdown request comes first, then the pause.
pub open spec fn action_of(state: LoopState, interval: u64, seen: Observation) -> LoopAction {
    if state == LoopState::ShuttingDown || seen.shutdown_requested {
        LoopAction::Exit
    } else if seen.paused {
        LoopAction::Sleep { seconds: interval }
    } else {
        LoopAction::CaptureThenSleep { seconds: interval }
    }
}

/// The actions of the ticks of a run, one for each observation.
pub open spec fn actions_of(state: LoopState, interval: u64, seen: Seq<Observation>) -> Seq<
    LoopAction,
>
    decreases seen.len(),
{
    if seen.len() == 0 {
        Seq::empty()
    } else {
        seq![action_of(state, interval, seen[0])] + actions_of(
            next_state(state, seen[0]),
            interval,
            seen.drop_first(),
        )
    }
}

/// The number of capture cycles among `actions`.
pub open spec fn captures_in(actions: Seq<LoopAction>) -> nat
    decreases actions.len(),
{
    if actions.len() == 0 {
        0
    } else {
        let first: nat = if actions[0] is CaptureThenSleep {
            1
        } else {
            0
        };
        first + captures_in(actions.drop_first())
    }
}

/// The capture loop of one tracker.
#[derive(Debug)]
pub struct CaptureLoop {
    config: Config,
    image_store: ImageStore,
    pause_control: PauseControl,
    state: LoopState,
}

impl CaptureLoop {
    /// The settings the loop was made with.
    pub closed spec fn settings(&self) -> ConfigView {
        self.config@
    }

    /// The state of the loop.
    pub closed spec fn phase(&self) -> LoopState {
        self.state
    }

    /// The root directory of the loop's image store.
    pub closed spec fn images_root(&self) -> Seq<char> {
        self.image_store.root()
    }

    /// The JPEG quality of the loop's image store.
    pub closed spec fn images_quality(&self) -> u8 {
        self.image_store.quality()
    }

    /// The marker of the loop's pause gate.
    pub closed spec fn pause_marker(&self) -> Seq<char> {
        self.pause_control.marker()
    }

    /// A loop with the given settings, running.
    pub fn new(config: Config) -> (made: CaptureLoop)
        ensures
            made.settings() == config@,
            made.phase() == LoopState::Running,
            made.images_root() == config@.images_dir,
            made.images_quality() == config@.jpeg_quality,
            made.pause_marker() == config@.pause_file,
    {
        let image_store = ImageStore::new(config.images_dir.clone(), config.jpeg_quality);
        let pause_control = PauseControl::new(config.pause_file.clone());
        CaptureLoop { config, image_store, pause_control, state: LoopState::Running }
    }

    /// The state of the loop.
    pub fn state(&self) -> (state: LoopState)
        ensures
            state == self.phase(),
    {
        self.state
    }

    /// Whether the loop goes on.
    pub fn is_running(&self) -> (running: bool)
        ensures
            running == (self.phase() == LoopState::Running),
    {
        self.state == LoopState::Running
    }

    /// The settings the loop was made with.
    pub fn config(&self) -> (config: &Config)
        ensures
            config@ == self.settings(),
    {
        &self.config
    }

    /// The loop's image store.
    pub fn image_store(&self) -> (store: &ImageStore)
        ensures
            store.root() == self.images_root(),
            store.quality() == self.images_quality(),
    {
        &self.image_store
    }

    /// The loop's pause gate.
    pub fn pause_control(&self) -> (gate: &PauseControl)
        ensures
            gate.marker() == self.pause_marker(),
    {
        &self.pause_control
    }

    /// One tick: given whether shutdown was requested and whether the pause
    /// gate is closed, what to do until the next tick.
    pub fn tick(&mut self, shutdown_requested: bool, paused: bool) -> (action: LoopAction)
        ensures
            action == action_of(
                old(self).phase(),
                old(self).settings().interval_seconds,
                Observation { shutdown_requested, paused },
            ),
            final(self).phase() == next_state(
                old(self).phase(),
                Observation { shutdown_requested, paused },
            ),
            final(self).settings() == old(self).settings(),
            final(self).images_root() == old(self).images_root(),
            final(self).images_quality() == old(self).images_quality(),
            final(self).pause_marker() == old(self).pause_marker(),
    {
        if self.state == LoopState::ShuttingDown || shutdown_requested {
            self.state = LoopState::ShuttingDown;
            LoopAction::Exit
        } else if paused {
            LoopAction::Sleep { seconds: self.config.interval_seconds }
        } else {
            LoopAction::CaptureThenSleep { seconds: self.config.interval_seconds }
        }
    }
}

/// After a shutdown request was seen, every tick answers `Exit`, whatever
/// is seen later.
pub proof fn lemma_shutdown_is_final(interval: u64, seen: Seq<Observation>, i: int)
    requires
        0 <= i < seen.len(),
    ensures
        actions_of(LoopState::ShuttingDown, interval, seen)[i] == LoopAction::Exit,
        actions_of(LoopState::ShuttingDown, interval, seen).len() == seen.len(),
    decreases seen.len(),
{
    lemma_actions_len(LoopState::ShuttingDown, interval, seen);
    if i > 0 {
        lemma_actions_len(LoopState::ShuttingDown, interval, seen.drop_first());
        lemma_shutdown_is_final(interval, seen.drop_first(), i - 1);
    }
}

/// A run has one action for each observation.
pub proof fn lemma_actions_len(state: LoopState, interval: u64, seen: Seq<Observation>)
    ensures
        actions_of(state, interval, seen).len() == seen.len(),
    decreases seen.len(),
{
    if seen.len() > 0 {
        lemma_actions_len(next_state(state, seen[0]), interval, seen.drop_first());
    }
}

/// No capture cycle follows a tick that saw the shutdown request.
pub proof fn lemma_no_capture_after_shutdown(state: LoopState, interval: u64, seen: Seq<Observation>)
    requires
        seen.len() > 0,
        seen[0].shutdown_requested || state == LoopState::ShuttingDown,
    ensures
        captures_in(actions_of(state, interval, seen)) == 0,
    decreases seen.len(),
{
    let actions = actions_of(state, interval, seen);
    let rest = actions_of(LoopState::ShuttingDown, interval, seen.drop_first());
    assert(actions.drop_first() =~= rest);
    assert(actions[0] == LoopAction::Exit);
    if seen.len() > 1 {
        lemma_no_capture_after_shutdown(LoopState::ShuttingDown, interval, seen.drop_first());
    } else {
        assert(rest =~= Seq::empty());
    }
    assert(captures_in(actions) == captures_in(actions.drop_first()));
}

/// Shutdown latency. Let the shutdown flag be raised at any time after the
/// observation of one tick, so that the next tick sees it. Then from that
/// one tick on the loop runs at most one capture cycle, the one that was
/// under way, and none after it.
pub proof fn lemma_shutdown_latency(state: LoopState, interval: u64, seen: Seq<Observation>)
    requires
        seen.len() >= 2,
        seen[1].shutdown_requested,
    ensures
        captures_in(actions_of(state, interval, seen)) <= 1,
        captures_in(actions_of(state, interval, seen).drop_first()) == 0,
{
    let actions = actions_of(state, interval, seen);
    let rest = actions_of(next_state(state, seen[0]), interval, seen.drop_first());
    assert(actions.drop_first() =~= rest);
    assert(actions.len() > 0);
    lemma_no_capture_after_shutdown(next_state(state, seen[0]), interval, seen.drop_first());
}

/// How far a capture cycle has come: what it waits for.
#[derive(Debug, Clone, Copy, PartialEq, Eq, Structural)]
pub enum CycleStage {
    AwaitingApp,
    AwaitingTitle,
    AwaitingScreenshot,
    AwaitingText,
    AwaitingStore,
    Finished,
}

/// What the driver reports to a cycle.
#[derive(Debug)]
pub enum CycleEvent {
    /// The outcome of the query for the foreground application.
    ActiveApp(Result<String, MetadataError>),
    /// The outcome of the query for the window title.
    WindowTitle(Result<String, MetadataError>),
    /// The outcome of the screenshot: the path of the image.
    Screenshot(Result<String, ImageStoreError>),
    /// The outcome of text recognition on the image.
    Text(Result<String, OcrError>),
    /// The outcome of the insert into the event store: the id.
    Stored(Result<i64, DatabaseError>),
}

/// What the driver does next for a cycle.
#[derive(Debug)]
pub enum CycleStep {
    QueryActiveApp,
    QueryWindowTitle,
    /// Take a screenshot into the file at `path`.
    TakeScreenshot { path: String },
    /// Recognise the text of the image at `path`.
    RecognizeText { path: String },
    /// Insert `record` into the event store.
    Store { record: CaptureRecord },
    /// The cycle is over; a failed insert is handed on for the log.
    Done(Result<(), CaptureError>),
    /// The event was not the one awaited. Nothing changed.
    Unexpected,
}

/// A step, as mathematical values.
pub enum StepView {
    QueryActiveApp,
    QueryWindowTitle,
    TakeScreenshot { path: Seq<char> },
    RecognizeText { path: Seq<char> },
    Store { record: RecordView },
    Done(Result<(), CaptureError>),
    Unexpected,
}

impl View for CycleStep {
    type V = StepView;

    open spec fn view(&self) -> StepView {
        match *self {
            CycleStep::QueryActiveApp => StepView::QueryActiveApp,
            CycleStep::QueryWindowTitle => StepView::QueryWindowTitle,
            CycleStep::TakeScreenshot { path } => StepView::TakeScreenshot { path: path@ },
            CycleStep::RecognizeText { path } => StepView::RecognizeText { path: path@ },
            CycleStep::Store { record } => StepView::Store { record: record@ },
            CycleStep::Done(outcome) => StepView::Done(outcome),
            CycleStep::Unexpected => StepView::Unexpected,
        }
    }
}

/// A cycle, as mathematical values.
pub struct CycleView {
    pub stage: CycleStage,
    pub captured_at: Seq<char>,
    pub target: Seq<char>,
    pub active_app: Seq<char>,
    pub window_title: Seq<char>,
    pub image_path: Option<Seq<char>>,
    pub ocr_text: Option<Seq<char>>,
}

/// The name recorded where the foreground application is not known.
pub open spec fn unknown_app() -> Seq<char> {
    "Unknown"@
}

/// The cycle that starts at a moment stamped `captured_at`, with `target`
/// as the path for its screenshot.
pub open spec fn started(captured_at: Seq<char>, target: Seq<char>) -> CycleView {
    CycleView {
        stage: CycleStage::AwaitingApp,
        captured_at,
        target,
        active_app: Seq::empty(),
        window_title: Seq::empty(),
        image_path: None,
        ocr_text: None,
    }
}

/// The event that a cycle records from what it has gathered.
pub open spec fn record_of(cycle: CycleView) -> RecordView {
    RecordView {
        id: None,
        captured_at: cycle.captured_at,
        image_path: cycle.image_path,
        active_app: cycle.active_app,
        window_title: cycle.window_title,
        is_paused: false,
        is_private: false,
        ocr_text: cycle.ocr_text,
    }
}

/// The cycle after `event`, and the step it asks for. No failure of a
/// collaborator ends the cycle: an unknown application is recorded under
/// the name for it, a title that is not to be had as empty, a failed
/// screenshot as no image, and failed or empty recognition as no text. Text
/// is asked for only where there is an image.
pub open spec fn advanced(cycle: CycleView, event: CycleEvent) -> (CycleView, StepView) {
    match (cycle.stage, event) {
        (CycleStage::AwaitingApp, CycleEvent::ActiveApp(outcome)) => (
            CycleView {
                stage: CycleStage::AwaitingTitle,
                active_app: match outcome {
                    Ok(name) => name@,
                    Err(_) => unknown_app(),
                },
                ..cycle
            },
            StepView::QueryWindowTitle,
        ),
        (CycleStage::AwaitingTitle, CycleEvent::WindowTitle(outcome)) => (
            CycleView {
                stage: CycleStage::AwaitingScreenshot,
                window_title: match outcome {
                    Ok(title) => title@,
                    Err(_) => Seq::empty(),
                },
                ..cycle
            },
            StepView::TakeScreenshot { path: cycle.target },
        ),
        (CycleStage::AwaitingScreenshot, CycleEvent::Screenshot(Ok(path))) => (
            CycleView { stage: CycleStage::AwaitingText, image_path: Some(path@), ..cycle },
            StepView::RecognizeText { path: path@ },
        ),
        (CycleStage::AwaitingScreenshot, CycleEvent::Screenshot(Err(_))) => {
            let next = CycleView { stage: CycleStage::AwaitingStore, image_path: None, ..cycle };
            (next, StepView::Store { record: record_of(next) })
        },
        (CycleStage::AwaitingText, CycleEvent::Text(outcome)) => {
            let next = CycleView {
                stage: CycleStage::AwaitingStore,
                ocr_text: match outcome {
                    Ok(text) => if text@.len() == 0 {
                        None
                    } else {
                        Some(text@)
                    },
                    Err(_) => None,
                },
                ..cycle
            };
            (next, StepView::Store { record: record_of(next) })
        },
        (CycleStage::AwaitingStore, CycleEvent::Stored(outcome)) => (
            CycleView { stage: CycleStage::Finished, ..cycle },
            StepView::Done(
                match outcome {
                    Ok(_) => Ok(()),
                    Err(e) => Err(CaptureError::DatabaseError(e)),
                },
            ),
        ),
        _ => (cycle, StepView::Unexpected),
    }
}

/// What holds of every cycle: text is recorded only with an image, and a
/// cycle that waits for text has an image and no text yet.
pub open spec fn coherent(cycle: CycleView) -> bool {
    &&& cycle.ocr_text is Some ==> cycle.image_path is Some
    &&& cycle.stage == CycleStage::AwaitingText ==> cycle.image_path is Some
    &&& (cycle.stage == CycleStage::AwaitingApp || cycle.stage == CycleStage::AwaitingTitle
        || cycle.stage == CycleStage::AwaitingScreenshot || cycle.stage
        == CycleStage::AwaitingText) ==> cycle.ocr_text is None
}

/// One capture cycle: what has been gathered so far, and what is awaited.
#[derive(Debug)]
pub struct CaptureCycle {
    stage: CycleStage,
    captured_at: String,
    target: String,
    active_app: String,
    window_title: String,
    image_path: Option<String>,
    ocr_text: Option<String>,
}

impl View for CaptureCycle {
    type V = CycleView;

    closed spec fn view(&self) -> CycleView {
        CycleView {
            stage: self.stage,
            captured_at: self.captured_at@,
            target: self.target@,
            active_app: self.active_app@,
            window_title: self.window_title@,
            image_path: crate::database::text_of(self.image_path),
            ocr_text: crate::database::text_of(self.ocr_text),
        }
    }
}

impl CaptureCycle {
    #[verifier::type_invariant]
    spec fn is_coherent(self) -> bool {
        coherent(self@)
    }

    /// Starts the cycle of the moment `timestamp`, whose screenshot goes
    /// into `image_store`. The first step is the query for the application.
    pub fn start(timestamp: &Timestamp, image_store: &ImageStore) -> (begun: (CaptureCycle, CycleStep))
        ensures
            begun.0@ == started(
                captured_at_text(timestamp@),
                image_path(image_store.root(), timestamp@),
            ),
            begun.1@ == StepView::QueryActiveApp,
    {
        let cycle = CaptureCycle {
            stage: CycleStage::AwaitingApp,
            captured_at: timestamp.captured_at(),
            target: image_store.get_path(timestamp),
            active_app: String::new(),
            window_title: String::new(),
            image_path: None,
            ocr_text: None,
        };
        (cycle, CycleStep::QueryActiveApp)
    }

    /// What the cycle waits for.
    pub fn stage(&self) -> (stage: CycleStage)
        ensures
            stage == self@.stage,
            coherent(self@),
    {
        proof {
            use_type_invariant(self);
        }
        self.stage
    }

    /// The event as gathered so far.
    fn record(&self) -> (record: CaptureRecord)
        ensures
            record@ == record_of(self@),
    {
        CaptureRecord {
            id: None,
            captured_at: self.captured_at.clone(),
            image_path: match &self.image_path {
                Some(path) => Some(path.clone()),
                None => None,
            },
            active_app: self.active_app.clone(),
            window_title: self.window_title.clone(),
            is_paused: false,
            is_private: false,
            ocr_text: match &self.ocr_text {
                Some(text) => Some(text.clone()),
                None => None,
            },
        }
    }

    /// Takes in what the driver reports and answers with the next step.
    pub fn advance(&mut self, event: CycleEvent) -> (step: CycleStep)
        ensures
            (final(self)@, step@) == advanced(old(self)@, event),
            coherent(old(self)@),
            coherent(final(self)@),
    {
        proof {
            use_type_invariant(&*self);
        }
        match (self.stage, event) {
            (CycleStage::AwaitingApp, CycleEvent::ActiveApp(outcome)) => {
                self.active_app = match outcome {
                    Ok(name) => name,
                    Err(_) => String::from_str("Unknown"),
                };
                self.stage = CycleStage::AwaitingTitle;
                CycleStep::QueryWindowTitle
            },
            (CycleStage::AwaitingTitle, CycleEvent::WindowTitle(outcome)) => {
                self.window_title = match outcome {
                    Ok(title) => title,
                    Err(_) => String::new(),
                };
                self.stage = CycleStage::AwaitingScreenshot;
                CycleStep::TakeScreenshot { path: self.target.clone() }
            },
            (CycleStage::AwaitingScreenshot, CycleEvent::Screenshot(Ok(path))) => {
                let shown = path.clone();
                self.image_path = Some(path);
                self.stage = CycleStage::AwaitingText;
                CycleStep::RecognizeText { path: shown }
            },
            (CycleStage::AwaitingScreenshot, CycleEvent::Screenshot(Err(_))) => {
                self.image_path = None;
                self.stage = CycleStage::AwaitingStore;
                CycleStep::Store { record: self.record() }
            },
            (CycleStage::AwaitingText, CycleEvent::Text(outcome)) => {
                self.stage = CycleStage::AwaitingStore;
                self.ocr_text = match outcome {
                    Ok(text) => if text.as_str().unicode_len() == 0 {
                        None
                    } else {
                        Some(text)
                    },
                    Err(_) => None,
                };
                CycleStep::Store { record: self.record() }
            },
            (CycleStage::AwaitingStore, CycleEvent::Stored(outcome)) => {
                self.stage = CycleStage::Finished;
                CycleStep::Done(
                    match outcome {
                        Ok(_) => Ok(()),
                        Err(e) => Err(CaptureError::from(e)),
                    },
                )
            },
            _ => CycleStep::Unexpected,
        }
    }
}

impl CaptureLoop {
    /// Starts the capture cycle of the moment `timestamp`.
    pub fn begin_cycle(&self, timestamp: &Timestamp) -> (begun: (CaptureCycle, CycleStep))
        ensures
            begun.0@ == started(
                captured_at_text(timestamp@),
                image_path(self.images_root(), timestamp@),
            ),
            begun.1@ == StepView::QueryActiveApp,
    {
        CaptureCycle::start(timestamp, &self.image_store)
    }
}

/// The steps that a cycle asks for as `events` are reported to it in order.
pub open spec fn steps_of(cycle: CycleView, events: Seq<CycleEvent>) -> Seq<StepView>
    decreases events.len(),
{
    if events.len() == 0 {
        Seq::empty()
    } else {
        seq![advanced(cycle, events[0]).1] + steps_of(
            advanced(cycle, events[0]).0,
            events.drop_first(),
        )
    }
}

/// The cycle after `events` were reported to it in order.
pub open spec fn cycle_after(cycle: CycleView, events: Seq<CycleEvent>) -> CycleView
    decreases events.len(),
{
    if events.len() == 0 {
        cycle
    } else {
        cycle_after(advanced(cycle, events[0]).0, events.drop_first())
    }
}

/// The number of inserts among `steps`.
pub open spec fn stores_in(steps: Seq<StepView>) -> nat
    decreases steps.len(),
{
    if steps.len() == 0 {
        0
    } else {
        let first: nat = if steps[0] is Store {
            1
        } else {
            0
        };
        first + stores_in(steps.drop_first())
    }
}

/// Whether the cycle has asked for its insert.
pub open spec fn has_stored(cycle: CycleView) -> bool {
    cycle.stage == CycleStage::AwaitingStore || cycle.stage == CycleStage::Finished
}

/// An event is recorded with text only if it is recorded with an image:
/// every step keeps a cycle coherent, and every record handed out for
/// insertion has an image wherever it has text.
pub proof fn lemma_text_only_with_image(cycle: CycleView, event: CycleEvent)
    requires
        coherent(cycle),
    ensures
        coherent(advanced(cycle, event).0),
        advanced(cycle, event).1 matches StepView::Store { record } ==> (record.ocr_text is Some
            ==> record.image_path is Some),
        advanced(cycle, event).1 matches StepView::Store { record } ==> record.id is None
            && !record.is_paused && !record.is_private,
{
}

/// A cycle asks for one insert, neither more nor fewer: whatever is
/// reported, in whatever order, the steps hold one insert if the cycle has
/// come to its insert, and none before.
pub proof fn lemma_one_store_per_cycle(cycle: CycleView, events: Seq<CycleEvent>)
    ensures
        has_stored(cycle) ==> stores_in(steps_of(cycle, events)) == 0,
        !has_stored(cycle) ==> stores_in(steps_of(cycle, events)) == (if has_stored(
            cycle_after(cycle, events),
        ) {
            1nat
        } else {
            0nat
        }),
        has_stored(cycle) ==> has_stored(cycle_after(cycle, events)),
    decreases events.len(),
{
    if events.len() > 0 {
        let next = advanced(cycle, events[0]).0;
        let steps = steps_of(cycle, events);
        assert(steps.drop_first() =~= steps_of(next, events.drop_first()));
        assert(steps[0] == advanced(cycle, events[0]).1);
        lemma_one_store_per_cycle(next, events.drop_first());
    }
}

/// Where every collaborator fails, the cycle still records one event: the
/// application under the name for an unknown one, an empty title, no image
/// and no text. That holds whatever the failures are.
pub proof fn lemma_cycle_survives_all_failures(
    captured_at: Seq<char>,
    target: Seq<char>,
    app_failure: MetadataError,
    title_failure: MetadataError,
    screenshot_failure: ImageStoreError,
)
    ensures
        ({
            let events = seq![
                CycleEvent::ActiveApp(Err(app_failure)),
                CycleEvent::WindowTitle(Err(title_failure)),
                CycleEvent::Screenshot(Err(screenshot_failure)),
            ];
            let steps = steps_of(started(captured_at, target), events);
            &&& steps == seq![
                StepView::QueryWindowTitle,
                StepView::TakeScreenshot { path: target },
                StepView::Store {
                    record: RecordView {
                        id: None,
                        captured_at,
                        image_path: None,
                        active_app: unknown_app(),
                        window_title: Seq::empty(),
                        is_paused: false,
                        is_private: false,
                        ocr_text: None,
                    },
                },
            ]
            &&& stores_in(steps) == 1
        }),
{
    let events = seq![
        CycleEvent::ActiveApp(Err(app_failure)),
        CycleEvent::WindowTitle(Err(title_failure)),
        CycleEvent::Screenshot(Err(screenshot_failure)),
    ];
    let c0 = started(captured_at, target);
    let c1 = advanced(c0, events[0]).0;
    let c2 = advanced(c1, events[1]).0;
    let c3 = advanced(c2, events[2]).0;
    let e1 = events.drop_first();
    let e2 = e1.drop_first();
    let e3 = e2.drop_first();
    assert(e3.len() == 0);
    assert(steps_of(c3, e3) =~= Seq::empty());
    assert(steps_of(c2, e2) =~= seq![advanced(c2, events[2]).1]);
    assert(steps_of(c1, e1) =~= seq![advanced(c1, events[1]).1, advanced(c2, events[2]).1]);
    let steps = steps_of(c0, events);
    assert(steps =~= seq![
        advanced(c0, events[0]).1,
        advanced(c1, events[1]).1,
        advanced(c2, events[2]).1,
    ]);
    lemma_one_store_per_cycle(c0, events);
    assert(cycle_after(c3, e3) == c3);
    assert(cycle_after(c2, e2) == c3);
    assert(cycle_after(c1, e1) == c3);
    assert(cycle_after(c0, events) == c3);
}

} // verus!
