//! The dashboard controller: the state machine behind the control loop.
//!
//! A front end runs the loop. It waits for the next event of the multiplexer,
//! collects the messages that arrived meanwhile, and hands both to
//! [`App::turn`], which tells it what to do: nothing, draw a frame, or shut
//! down. The parts of a turn can be had one by one: [`App::drain`] for the
//! messages, [`App::handle_event`] for the event, [`App::draw`] for the frame.
//! Messages change the live state and events never do; only a render event
//! asks for a frame.

use vstd::prelude::*;
use crate::nats::message::{message_views, Message, MessageView};
use crate::ui::aggregator::{history_views, Aggregator};
use crate::ui::model::{
    lemma_history_only_grows,
    lemma_subjects_are_finite,
    lemma_subjects_only_grow,
    AggregatorView,
};
use crate::ui::subject_details::{details_of, DetailsFrame, DetailsFrameView, SubjectDetails};
use crate::ui::subject_overview::{
    is_overview_of,
    lemma_overview_follows_snapshot,
    lemma_overview_is_unique,
    lemma_selection_is_clamped,
    row_views,
    OverviewRow,
    OverviewView,
    RowView,
    SubjectOverview,
};
use crate::ui::tui::{KeyCode, KeyEvent, TuiEvent};

verus! {

/// Where the controller is in its life.
#[derive(Debug, Clone, Copy, PartialEq, Eq)]
pub enum AppState {
    /// The subscription and the multiplexer are being set up.
    Starting,
    /// The control loop runs.
    Running,
    /// A quit key was handled; the resources are being released.
    ShuttingDown,
    /// The session is over.
    Stopped,
}

impl AppState {
    /// The position of the state in the controller's life.
    pub open spec fn rank(self) -> nat {
        match self {
            AppState::Starting => 0,
            AppState::Running => 1,
            AppState::ShuttingDown => 2,
            AppState::Stopped => 3,
        }
    }
}

/// What the front end does after an event was handled.
#[derive(Debug, Clone, Copy, PartialEq, Eq)]
pub enum Action {
    /// Nothing; wait for the next event.
    Continue,
    /// Draw a frame.
    Draw,
    /// Cancel the multiplexer and the forwarding task, give the terminal
    /// back, and leave the loop.
    Shutdown,
}

/// The mathematical content of an [`App`].
pub struct AppView {
    /// Ticks per second.
    pub tick_rate: u32,
    /// Renders per second.
    pub frame_rate: u32,
    /// Where the controller is in its life.
    pub state: AppState,
    /// The live state.
    pub messages: AggregatorView,
    /// The selection of the overview.
    pub overview: OverviewView,
}

impl AppView {
    /// What the front end is told to do for `event`. Outside the running
    /// state nothing; in it a render event asks for a frame, a quit key for
    /// the shutdown, and every other event for nothing.
    pub open spec fn action(self, event: TuiEvent) -> Action {
        if !(self.state is Running) {
            Action::Continue
        } else {
            match event {
                TuiEvent::Render => Action::Draw,
                TuiEvent::Key(key) => if key.spec_is_quit() {
                    Action::Shutdown
                } else {
                    Action::Continue
                },
                TuiEvent::Tick => Action::Continue,
                TuiEvent::Error => Action::Continue,
            }
        }
    }

    /// The state after `event`. Outside the running state nothing changes; in
    /// it a quit key begins the shutdown, any other key goes to the selection
    /// of the overview, and ticks, renders and errors change nothing.
    pub open spec fn handle(self, event: TuiEvent) -> AppView {
        if !(self.state is Running) {
            self
        } else {
            match event {
                TuiEvent::Key(key) => if key.spec_is_quit() {
                    AppView { state: AppState::ShuttingDown, ..self }
                } else {
                    AppView { overview: self.overview.key(key.code), ..self }
                },
                TuiEvent::Render => self,
                TuiEvent::Tick => self,
                TuiEvent::Error => self,
            }
        }
    }

    /// The state after `events`, handled in their order.
    pub open spec fn handle_all(self, events: Seq<TuiEvent>) -> AppView
        decreases events.len(),
    {
        if events.len() == 0 {
            self
        } else {
            self.handle_all(events.drop_last()).handle(events.last())
        }
    }

    /// What the front end is told to do for each of `events`, handled in
    /// their order.
    pub open spec fn actions(self, events: Seq<TuiEvent>) -> Seq<Action>
        decreases events.len(),
    {
        if events.len() == 0 {
            Seq::empty()
        } else {
            self.actions(events.drop_last()).push(
                self.handle_all(events.drop_last()).action(events.last()),
            )
        }
    }

    /// The state after a batch of messages arrived: in the running state they
    /// are handed to the live state in their order, otherwise they are
    /// dropped.
    pub open spec fn drain(self, batch: Seq<MessageView>) -> AppView {
        if self.state is Running {
            AppView { messages: self.messages.ingest_all(batch), ..self }
        } else {
            self
        }
    }

    /// The number of subjects seen so far.
    pub open spec fn subject_count(self) -> nat {
        self.messages.subjects().len()
    }

    /// The state after a frame was laid out: the selection is fitted to the
    /// number of subjects.
    pub open spec fn drawn(self) -> AppView {
        AppView { overview: self.overview.resize(self.subject_count() as usize), ..self }
    }

    /// What holds of the controller at any time: the selection is empty or
    /// points at a row, and there is a subject for every row.
    pub open spec fn inv(self) -> bool {
        &&& self.overview.in_range()
        &&& self.overview.count <= self.subject_count()
    }

    /// The state once the subscription and the multiplexer are set up: a
    /// starting controller runs, any other stays as it is.
    pub open spec fn start(self) -> AppView {
        if self.state is Starting {
            AppView { state: AppState::Running, ..self }
        } else {
            self
        }
    }

    /// The state once the multiplexer has ended without a quit key: a running
    /// controller shuts down, as it does after a quit key.
    pub open spec fn close(self) -> AppView {
        if self.state is Running {
            AppView { state: AppState::ShuttingDown, ..self }
        } else {
            self
        }
    }

    /// The state once the resources are released: the session is over,
    /// unless the controller runs, which has to shut down first.
    pub open spec fn stop(self) -> AppView {
        if self.state is Running {
            self
        } else {
            AppView { state: AppState::Stopped, ..self }
        }
    }

    /// The state after one step of a session.
    pub open spec fn step(self, step: Step) -> AppView {
        match step {
            Step::Start => self.start(),
            Step::Event(event) => self.handle(event),
            Step::Batch(batch) => self.drain(batch),
            Step::Frame => self.drawn(),
            Step::Close => self.close(),
            Step::Stop => self.stop(),
        }
    }

    /// The state after `steps`, taken in their order.
    pub open spec fn run(self, steps: Seq<Step>) -> AppView
        decreases steps.len(),
    {
        if steps.len() == 0 {
            self
        } else {
            self.run(steps.drop_last()).step(steps.last())
        }
    }
}

/// One step of a session, as the controller sees it.
pub enum Step {
    /// The subscription and the multiplexer were set up.
    Start,
    /// The multiplexer delivered an event.
    Event(TuiEvent),
    /// Messages arrived.
    Batch(Seq<MessageView>),
    /// A frame was laid out.
    Frame,
    /// The multiplexer ended.
    Close,
    /// The resources were released.
    Stop,
}

/// The number of shutdowns among `actions`.
pub open spec fn shutdowns(actions: Seq<Action>) -> nat
    decreases actions.len(),
{
    if actions.len() == 0 {
        0
    } else {
        shutdowns(actions.drop_last()) + if actions.last() is Shutdown {
            1nat
        } else {
            0nat
        }
    }
}

/// The number of frames asked for among `actions`.
pub open spec fn draws(actions: Seq<Action>) -> nat
    decreases actions.len(),
{
    if actions.len() == 0 {
        0
    } else {
        draws(actions.drop_last()) + if actions.last() is Draw {
            1nat
        } else {
            0nat
        }
    }
}

/// Each event is answered by one action.
pub proof fn lemma_one_action_per_event(app: AppView, events: Seq<TuiEvent>)
    ensures
        app.actions(events).len() == events.len(),
    decreases events.len(),
{
    if events.len() > 0 {
        lemma_one_action_per_event(app, events.drop_last());
    }
}

/// The action for an event is the one that the state reached by the events
/// before it gives.
pub proof fn lemma_action_at(app: AppView, events: Seq<TuiEvent>, i: int)
    requires
        0 <= i < events.len(),
    ensures
        app.actions(events).len() == events.len(),
        app.actions(events)[i] == app.handle_all(events.take(i)).action(events[i]),
    decreases events.len(),
{
    lemma_one_action_per_event(app, events);
    lemma_one_action_per_event(app, events.drop_last());
    if i < events.len() - 1 {
        lemma_action_at(app, events.drop_last(), i);
        assert(events.drop_last().take(i) =~= events.take(i));
    } else {
        assert(events.drop_last() =~= events.take(i));
    }
}

/// Only a render event asks for a frame: whatever the state and whatever the
/// events, an event that is answered by a draw is a render event.
pub proof fn lemma_only_render_draws(app: AppView, events: Seq<TuiEvent>, i: int)
    requires
        0 <= i < events.len(),
        app.actions(events)[i] is Draw,
    ensures
        events[i] is Render,
        app.handle_all(events.take(i)).state is Running,
{
    lemma_action_at(app, events, i);
}

/// Ticks alone draw nothing and change nothing: after any number of tick
/// events the state, and with it whatever a frame would show, is as it was,
/// and no frame was asked for.
pub proof fn lemma_ticks_change_nothing(app: AppView, events: Seq<TuiEvent>)
    requires
        forall|i: int| 0 <= i < events.len() ==> #[trigger] events[i] is Tick,
    ensures
        app.handle_all(events) == app,
        draws(app.actions(events)) == 0,
    decreases events.len(),
{
    if events.len() > 0 {
        lemma_ticks_change_nothing(app, events.drop_last());
        assert(events.last() == events[events.len() - 1]);
        assert(app.actions(events).drop_last() =~= app.actions(events.drop_last()));
    }
}

/// Once the controller does not run, events are answered by nothing and
/// change nothing.
pub proof fn lemma_events_after_the_end(app: AppView, events: Seq<TuiEvent>)
    requires
        !(app.state is Running),
    ensures
        app.handle_all(events) == app,
        shutdowns(app.actions(events)) == 0,
        draws(app.actions(events)) == 0,
    decreases events.len(),
{
    if events.len() > 0 {
        lemma_events_after_the_end(app, events.drop_last());
        assert(app.actions(events).drop_last() =~= app.actions(events.drop_last()));
    }
}

/// Handling `first` and then `rest` is handling all of them in a row.
pub proof fn lemma_handle_first(app: AppView, first: TuiEvent, rest: Seq<TuiEvent>)
    ensures
        app.handle_all(seq![first] + rest) == app.handle(first).handle_all(rest),
        app.actions(seq![first] + rest) == seq![app.action(first)] + app.handle(first).actions(
            rest,
        ),
    decreases rest.len(),
{
    let all = seq![first] + rest;
    if rest.len() == 0 {
        let none = Seq::<TuiEvent>::empty();
        assert(all.drop_last() =~= none);
        assert(rest =~= none);
        assert(app.handle_all(none) == app);
        assert(app.actions(none) == Seq::<Action>::empty());
        assert(app.handle(first).actions(none) == Seq::<Action>::empty());
        assert(app.actions(all) =~= seq![app.action(first)] + app.handle(first).actions(rest));
    } else {
        lemma_handle_first(app, first, rest.drop_last());
        assert(all.drop_last() =~= seq![first] + rest.drop_last());
        assert(all.last() == rest.last());
        assert(app.actions(all) =~= seq![app.action(first)] + app.handle(first).actions(rest));
    }
}

/// The number of shutdowns among actions put one after the other is the sum
/// of the numbers in each part.
pub proof fn lemma_shutdowns_add(a: Seq<Action>, b: Seq<Action>)
    ensures
        shutdowns(a + b) == shutdowns(a) + shutdowns(b),
    decreases b.len(),
{
    if b.len() == 0 {
        assert(a + b =~= a);
    } else {
        lemma_shutdowns_add(a, b.drop_last());
        assert((a + b).drop_last() =~= a + b.drop_last());
        assert((a + b).last() == b.last());
    }
}

/// A quit key shuts the session down exactly once, however many events were
/// queued behind it: the key is answered by the shutdown, and every event
/// after it by nothing, so that the terminal is given back once.
pub proof fn lemma_quit_shuts_down_once(app: AppView, quit: KeyEvent, pending: Seq<TuiEvent>)
    requires
        app.state is Running,
        quit.spec_is_quit(),
    ensures
        app.action(TuiEvent::Key(quit)) is Shutdown,
        shutdowns(app.actions(seq![TuiEvent::Key(quit)] + pending)) == 1,
        app.handle_all(seq![TuiEvent::Key(quit)] + pending).state is ShuttingDown,
{
    let key = TuiEvent::Key(quit);
    let after = app.handle(key);
    lemma_handle_first(app, key, pending);
    lemma_events_after_the_end(after, pending);
    lemma_shutdowns_add(seq![app.action(key)], after.actions(pending));
    assert(seq![app.action(key)].drop_last() =~= Seq::<Action>::empty());
    assert(shutdowns(Seq::<Action>::empty()) == 0);
    assert(shutdowns(seq![app.action(key)]) == 1);
}

/// Once the shutdown has begun, whether by a quit key or because the
/// multiplexer ended, no event is answered by another one, and the end of
/// the multiplexer neither.
pub proof fn lemma_no_shutdown_after_shutdown(app: AppView, events: Seq<TuiEvent>)
    requires
        app.state is Running,
    ensures
        shutdowns(app.close().actions(events)) == 0,
        app.close().handle_all(events).close() == app.close().handle_all(events),
        app.close().handle_all(events).state is ShuttingDown,
{
    lemma_events_after_the_end(app.close(), events);
}

/// No session is shut down twice: whatever the state and whatever the events,
/// at most one of them is answered by the shutdown.
pub proof fn lemma_at_most_one_shutdown(app: AppView, events: Seq<TuiEvent>)
    ensures
        shutdowns(app.actions(events)) <= 1,
        shutdowns(app.actions(events)) == 1 ==> !(app.handle_all(events).state is Running),
    decreases events.len(),
{
    if events.len() > 0 {
        lemma_at_most_one_shutdown(app, events.drop_last());
        assert(app.actions(events).drop_last() =~= app.actions(events.drop_last()));
        lemma_stays_ended(app, events.drop_last(), events.last());
    }
}

/// An event never brings a controller that does not run back to running.
proof fn lemma_stays_ended(app: AppView, events: Seq<TuiEvent>, next: TuiEvent)
    ensures
        !(app.handle_all(events).state is Running) ==> !(app.handle_all(events).handle(
            next,
        ).state is Running),
{
}

/// The controller only moves forward through its life, from starting over
/// running and shutting down to stopped, whatever the steps of the session.
pub proof fn lemma_state_only_advances(app: AppView, steps: Seq<Step>)
    ensures
        app.state.rank() <= app.run(steps).state.rank(),
        app.state is Stopped ==> app.run(steps).state is Stopped,
    decreases steps.len(),
{
    if steps.len() > 0 {
        lemma_state_only_advances(app, steps.drop_last());
    }
}

/// The selection always points at a subject: whatever the steps of a
/// session, the selection is empty or an index below the number of subjects
/// seen so far.
pub proof fn lemma_selection_within_subjects(app: AppView, steps: Seq<Step>)
    requires
        app.inv(),
    ensures
        app.run(steps).inv(),
        app.run(steps).overview.selected matches Some(index) ==> index < app.run(
            steps,
        ).subject_count(),
    decreases steps.len(),
{
    if steps.len() > 0 {
        let earlier = app.run(steps.drop_last());
        lemma_selection_within_subjects(app, steps.drop_last());
        match steps.last() {
            Step::Batch(batch) => {
                lemma_subjects_only_grow(earlier.messages, batch);
            },
            Step::Event(event) => {
                match event {
                    TuiEvent::Key(key) => {
                        lemma_selection_is_clamped(earlier.overview, key.code, 0);
                    },
                    _ => {},
                }
            },
            Step::Frame => {
                lemma_subjects_are_finite(earlier.messages);
                lemma_resize_to_subjects(earlier);
            },
            _ => {},
        }
    }
}

/// Laying a frame out leaves the selection within the subjects.
proof fn lemma_resize_to_subjects(app: AppView)
    requires
        app.inv(),
    ensures
        app.drawn().inv(),
{
    lemma_selection_is_clamped(app.overview, KeyCode::Other, app.subject_count() as usize);
}

/// Histories are append-only over a whole session: whatever the steps,
/// events, frames and batches of messages alike, the history that a subject
/// has now stays as the beginning of the history that it has then.
pub proof fn lemma_session_keeps_histories(app: AppView, steps: Seq<Step>, subject: Seq<char>)
    ensures
        app.messages.history(subject).is_prefix_of(app.run(steps).messages.history(subject)),
        app.messages.history(subject).len() <= app.run(steps).messages.history(subject).len(),
    decreases steps.len(),
{
    if steps.len() > 0 {
        let earlier = app.run(steps.drop_last());
        lemma_session_keeps_histories(app, steps.drop_last(), subject);
        match steps.last() {
            Step::Batch(batch) => {
                lemma_history_only_grows(earlier.messages, batch, subject);
            },
            _ => {},
        }
    }
}

/// Frames and events leave the live state alone: a session without batches
/// of messages ends with the histories with which it began.
pub proof fn lemma_only_batches_change_messages(app: AppView, steps: Seq<Step>)
    requires
        forall|i: int| 0 <= i < steps.len() ==> !(#[trigger] steps[i] is Batch),
    ensures
        app.run(steps).messages == app.messages,
    decreases steps.len(),
{
    if steps.len() > 0 {
        lemma_only_batches_change_messages(app, steps.drop_last());
        assert(steps.last() == steps[steps.len() - 1]);
    }
}


/// The mathematical content of a [`Frame`].
pub struct FrameView {
    /// The rows of the overview.
    pub overview: Seq<RowView>,
    /// The index of the selected row.
    pub selected: Option<usize>,
    /// What the detail pane shows, if a row is selected.
    pub details: Option<DetailsFrameView>,
}

/// Everything that one frame shows.
#[derive(Debug, PartialEq, Eq)]
pub struct Frame {
    /// The rows of the overview, sorted by subject.
    pub overview: Vec<OverviewRow>,
    /// The index of the selected row.
    pub selected: Option<usize>,
    /// What the detail pane shows, if a row is selected.
    pub details: Option<DetailsFrame>,
}

impl View for Frame {
    type V = FrameView;

    open spec fn view(&self) -> FrameView {
        FrameView {
            overview: row_views(self.overview@),
            selected: self.selected,
            details: match self.details {
                Some(details) => Some(details@),
                None => None,
            },
        }
    }
}

/// What one turn of the control loop asks of the front end.
#[derive(Debug, PartialEq, Eq)]
pub enum Turn {
    /// Nothing; wait for the next event.
    Continue,
    /// Draw this frame.
    Draw(Frame),
    /// Cancel the multiplexer and the forwarding task, give the terminal
    /// back, and leave the loop.
    Shutdown,
}

/// Whether `frame` is what `state` shows after `seconds` whole seconds of the
/// session: the overview of the live state, the selection fitted to it, and
/// the details of the selected subject.
pub open spec fn is_frame_of(frame: FrameView, state: AppView, seconds: nat) -> bool {
    &&& is_overview_of(frame.overview, state.messages)
    &&& frame.selected == state.drawn().overview.selected
    &&& frame.details == match frame.selected {
        Some(index) => details_of(
            state.messages.history(frame.overview[index as int].subject),
            seconds,
        ),
        None => None,
    }
}

/// A state shows one frame only: what is drawn is decided by the state and
/// the uptime.
pub proof fn lemma_frame_is_unique(a: FrameView, b: FrameView, state: AppView, seconds: nat)
    requires
        is_frame_of(a, state, seconds),
        is_frame_of(b, state, seconds),
    ensures
        a == b,
{
    lemma_overview_is_unique(a.overview, b.overview, state.messages);
}

/// The dashboard controller.
pub struct App {
    tick_rate: u32,
    frame_rate: u32,
    state: AppState,
    messages: Aggregator,
    subject_overview_widget: SubjectOverview,
    subject_details_widget: SubjectDetails,
}

impl View for App {
    type V = AppView;

    closed spec fn view(&self) -> AppView {
        AppView {
            tick_rate: self.tick_rate,
            frame_rate: self.frame_rate,
            state: self.state,
            messages: self.messages@,
            overview: self.subject_overview_widget@,
        }
    }
}

impl App {
    /// The invariant of the controller: the selection is empty or points at
    /// a row, and there is a subject for every row.
    #[verifier::type_invariant]
    spec fn wf(self) -> bool {
        self@.inv()
    }

    /// Creates a controller that is starting, with an empty live state that
    /// keeps every message, and with nothing selected.
    pub fn new(tick_rate: u32, frame_rate: u32) -> (app: App)
        ensures
            app@ == (AppView {
                tick_rate,
                frame_rate,
                state: AppState::Starting,
                messages: AggregatorView::empty(false),
                overview: OverviewView { selected: None, count: 0 },
            }),
    {
        App::with_dedup(tick_rate, frame_rate, false)
    }

    /// Creates a controller as [`App::new`] does, whose live state drops
    /// repeated messages if `dedup` is set.
    pub fn with_dedup(tick_rate: u32, frame_rate: u32, dedup: bool) -> (app: App)
        ensures
            app@ == (AppView {
                tick_rate,
                frame_rate,
                state: AppState::Starting,
                messages: AggregatorView::empty(dedup),
                overview: OverviewView { selected: None, count: 0 },
            }),
    {
        App {
            tick_rate,
            frame_rate,
            state: AppState::Starting,
            messages: Aggregator::new(dedup),
            subject_overview_widget: SubjectOverview::new(),
            subject_details_widget: SubjectDetails::new(),
        }
    }

    /// Ticks per second.
    pub fn tick_rate(&self) -> (rate: u32)
        ensures
            rate == self@.tick_rate,
    {
        self.tick_rate
    }

    /// Renders per second.
    pub fn frame_rate(&self) -> (rate: u32)
        ensures
            rate == self@.frame_rate,
    {
        self.frame_rate
    }

    /// Where the controller is in its life.
    pub fn state(&self) -> (state: AppState)
        ensures
            state == self@.state,
    {
        self.state
    }

    /// The index of the selected row of the overview, if a row is selected.
    /// There is a subject for it: the index is below the number of subjects.
    pub fn selected(&self) -> (selected: Option<usize>)
        ensures
            selected == self@.overview.selected,
            self@.inv(),
            selected matches Some(index) ==> index < self@.subject_count(),
    {
        proof {
            use_type_invariant(&*self);
        }
        self.subject_overview_widget.selected()
    }

    /// The live state.
    pub fn messages(&self) -> (messages: &Aggregator)
        ensures
            messages@ == self@.messages,
    {
        &self.messages
    }

    /// Records that the subscription and the multiplexer are set up: a
    /// starting controller runs from now on. In any other state nothing
    /// changes. Returns whether the controller runs.
    pub fn start(&mut self) -> (running: bool)
        ensures
            final(self)@ == old(self)@.start(),
            running == final(self)@.state is Running,
    {
        proof {
            use_type_invariant(&*self);
        }
        match self.state {
            AppState::Starting => {
                self.state = AppState::Running;
                true
            },
            AppState::Running => true,
            _ => false,
        }
    }

    /// Records that the multiplexer has ended without a quit key. A running
    /// controller shuts down, and the front end is told so as after a quit
    /// key; in any other state nothing changes.
    pub fn close(&mut self) -> (action: Action)
        ensures
            final(self)@ == old(self)@.close(),
            action == if old(self)@.state is Running {
                Action::Shutdown
            } else {
                Action::Continue
            },
    {
        proof {
            use_type_invariant(&*self);
        }
        match self.state {
            AppState::Running => {
                self.state = AppState::ShuttingDown;
                Action::Shutdown
            },
            _ => Action::Continue,
        }
    }

    /// Records that the resources are released: the session is over. A
    /// controller that was never started is stopped as well; a running one
    /// stays running, since it has to shut down first.
    pub fn stop(&mut self)
        ensures
            final(self)@ == old(self)@.stop(),
    {
        proof {
            use_type_invariant(&*self);
        }
        match self.state {
            AppState::Running => {},
            _ => {
                self.state = AppState::Stopped;
            },
        }
    }

    /// Handles one event of the multiplexer and returns what the front end is
    /// to do. The live state is never changed by an event.
    pub fn handle_event(&mut self, event: TuiEvent) -> (action: Action)
        ensures
            final(self)@ == old(self)@.handle(event),
            action == old(self)@.action(event),
            final(self)@.messages == old(self)@.messages,
    {
        proof {
            use_type_invariant(&*self);
        }
        match self.state {
            AppState::Running => {},
            _ => {
                return Action::Continue;
            },
        }
        match event {
            TuiEvent::Render => Action::Draw,
            TuiEvent::Key(key) => {
                if key.is_quit() {
                    self.state = AppState::ShuttingDown;
                    Action::Shutdown
                } else {
                    let mut overview = SubjectOverview::new();
                    core::mem::swap(&mut overview, &mut self.subject_overview_widget);
                    overview.handle_key(key.code);
                    self.subject_overview_widget = overview;
                    Action::Continue
                }
            },
            TuiEvent::Tick => Action::Continue,
            TuiEvent::Error => Action::Continue,
        }
    }

    /// Hands a batch of freshly arrived messages to the live state, in their
    /// order. Outside the running state the batch is dropped. Returns the
    /// number of messages that the live state accepted.
    pub fn drain(&mut self, batch: Vec<Message>) -> (accepted: usize)
        ensures
            final(self)@ == old(self)@.drain(message_views(batch@)),
            accepted == final(self)@.messages.total() - old(self)@.messages.total(),
    {
        proof {
            use_type_invariant(&*self);
        }
        match self.state {
            AppState::Running => {},
            _ => {
                return 0;
            },
        }
        let ghost all = message_views(batch@);
        let ghost before = self.messages@;
        let ghost overview = self.subject_overview_widget@;
        let count = batch.len();
        let mut emptied = App::new(self.tick_rate, self.frame_rate);
        core::mem::swap(self, &mut emptied);
        let App {
            tick_rate,
            frame_rate,
            state,
            messages,
            subject_overview_widget,
            subject_details_widget,
        } = emptied;
        let mut messages = messages;
        let mut accepted: usize = 0;
        assert(all.take(0) =~= Seq::<MessageView>::empty());
        for message in iter: batch
            invariant
                count == all.len(),
                iter.seq().len() == count,
                forall|k: int| 0 <= k < count ==> (#[trigger] iter.seq()[k])@ == all[k],
                messages@ == before.ingest_all(all.take(iter.index() as int)),
                accepted == messages@.total() - before.total(),
                accepted <= iter.index(),
        {
            let ghost i = iter.index() as int;
            assert(message@ == all[i]);
            assert(all.take(i + 1).drop_last() =~= all.take(i));
            assert(all.take(i + 1).last() == all[i]);
            if messages.ingest(message) {
                accepted = accepted + 1;
            }
        }
        proof {
            assert(all.take(count as int) =~= all);
            lemma_subjects_only_grow(before, all);
        }
        *self = App {
            tick_rate,
            frame_rate,
            state,
            messages,
            subject_overview_widget,
            subject_details_widget,
        };
        accepted
    }

    /// Takes one turn of the control loop: hands the messages that arrived
    /// since the last turn to the live state, then handles the event, and
    /// lays the frame out if the event asks for one. A frame therefore shows
    /// every message that arrived before its render event.
    pub fn turn(&mut self, batch: Vec<Message>, event: TuiEvent, uptime_seconds: u64) -> (turn:
        Turn)
        ensures
            match turn {
                Turn::Continue => {
                    &&& old(self)@.drain(message_views(batch@)).action(event) is Continue
                    &&& final(self)@ == old(self)@.drain(message_views(batch@)).handle(event)
                },
                Turn::Draw(frame) => {
                    &&& old(self)@.drain(message_views(batch@)).action(event) is Draw
                    &&& is_frame_of(
                        frame@,
                        old(self)@.drain(message_views(batch@)),
                        uptime_seconds as nat,
                    )
                    &&& final(self)@ == old(self)@.drain(message_views(batch@)).handle(
                        event,
                    ).drawn()
                },
                Turn::Shutdown => {
                    &&& old(self)@.drain(message_views(batch@)).action(event) is Shutdown
                    &&& final(self)@ == old(self)@.drain(message_views(batch@)).handle(event)
                },
            },
    {
        self.drain(batch);
        match self.handle_event(event) {
            Action::Continue => Turn::Continue,
            Action::Draw => Turn::Draw(self.draw(uptime_seconds)),
            Action::Shutdown => Turn::Shutdown,
        }
    }

    /// Lays a frame out: the overview of the live state, the selection fitted
    /// to it, and the details of the selected subject after `uptime_seconds`
    /// whole seconds of the session.
    pub fn draw(&mut self, uptime_seconds: u64) -> (frame: Frame)
        ensures
            final(self)@ == old(self)@.drawn(),
            is_frame_of(frame@, old(self)@, uptime_seconds as nat),
    {
        proof {
            use_type_invariant(&*self);
        }
        let mut widget = SubjectOverview::new();
        core::mem::swap(&mut widget, &mut self.subject_overview_widget);
        let overview = widget.render(&self.messages);
        let selected = widget.selected();
        self.subject_overview_widget = widget;
        let histories = self.messages.snapshot();
        let ghost snapshot = history_views(histories@);
        proof {
            lemma_overview_follows_snapshot(row_views(overview@), snapshot, self.messages@);
        }
        let details = match selected {
            Some(index) => {
                assert(snapshot[index as int] == histories@[index as int]@);
                assert(row_views(overview@)[index as int] == overview@[index as int]@);
                self.subject_details_widget.render(&histories[index], uptime_seconds)
            },
            None => None,
        };
        Frame { overview, selected, details }
    }
}

} // verus!
