//! The event source multiplexer, without its I/O.
//!
//! A front end owns the terminal and the timers. This module decides what the
//! multiplexer makes of them: which terminal input becomes an event, how long
//! the timers wait, which steps take the terminal over and give it back, and
//! which error is reported when one of them fails.

use vstd::prelude::*;

verus! {

/// Why the terminal could not be taken over, or not be given back.
#[derive(Debug, PartialEq, Eq)]
pub enum TuiError {
    /// Setting the terminal up failed; the text says at which step.
    InitFailed(String),
    /// Restoring the terminal failed; the text says at which step.
    ExitFailed(String),
}

impl TuiError {
    /// The text that the error carries.
    pub open spec fn spec_description(&self) -> Seq<char> {
        match self {
            TuiError::InitFailed(text) => text@,
            TuiError::ExitFailed(text) => text@,
        }
    }

    /// Returns the text that the error carries.
    pub fn description(&self) -> (text: &str)
        ensures
            text@ == self.spec_description(),
    {
        match self {
            TuiError::InitFailed(text) => text.as_str(),
            TuiError::ExitFailed(text) => text.as_str(),
        }
    }
}

/// A key of the keyboard, as far as the dashboard tells keys apart.
#[derive(Debug, Clone, Copy, PartialEq, Eq)]
pub enum KeyCode {
    /// A character key.
    Char(char),
    /// The up arrow.
    Up,
    /// The down arrow.
    Down,
    /// Any other key.
    Other,
}

/// What happened to a key.
#[derive(Debug, Clone, Copy, PartialEq, Eq)]
pub enum KeyEventKind {
    /// The key went down.
    Press,
    /// The key is held and repeats.
    Repeat,
    /// The key went up.
    Release,
}

/// One keyboard event.
#[derive(Debug, Clone, Copy, PartialEq, Eq)]
pub struct KeyEvent {
    /// The key.
    pub code: KeyCode,
    /// What happened to it.
    pub kind: KeyEventKind,
}

impl KeyEvent {
    /// Whether the key ends the session: it is the letter `q`.
    pub open spec fn spec_is_quit(self) -> bool {
        self.code == KeyCode::Char('q')
    }

    /// Tells whether the key ends the session.
    pub fn is_quit(&self) -> (quit: bool)
        ensures
            quit == self.spec_is_quit(),
    {
        match self.code {
            KeyCode::Char(c) => c == 'q',
            _ => false,
        }
    }
}

/// What the terminal's input stream yields.
#[derive(Debug, Clone, Copy, PartialEq, Eq)]
pub enum TerminalInput {
    /// A keyboard event.
    Key(KeyEvent),
    /// Any other input: mouse, resize, focus, paste.
    Other,
    /// The stream reported an error.
    Failed,
    /// The stream has ended.
    Closed,
}

/// An event that the multiplexer hands to the control loop.
#[derive(Debug, Clone, Copy, PartialEq, Eq)]
pub enum TuiEvent {
    /// Reading the terminal failed.
    Error,
    /// The tick timer fired.
    Tick,
    /// The render timer fired: redraw now.
    Render,
    /// A key was pressed.
    Key(KeyEvent),
}

/// The event that a piece of terminal input becomes, if it becomes one: a
/// key press is handed on, an error is reported, everything else is dropped.
pub open spec fn event_of(input: TerminalInput) -> Option<TuiEvent> {
    match input {
        TerminalInput::Key(key) => if key.kind is Press {
            Some(TuiEvent::Key(key))
        } else {
            None
        },
        TerminalInput::Failed => Some(TuiEvent::Error),
        TerminalInput::Other => None,
        TerminalInput::Closed => None,
    }
}

/// The steps that take the terminal over, in the order in which they are made.
#[derive(Debug, Clone, Copy, PartialEq, Eq)]
pub enum InitStep {
    /// Switch to the alternate screen.
    EnterAlternateScreen,
    /// Switch raw input mode on.
    EnableRawMode,
    /// Create the terminal handle.
    CreateTerminal,
    /// Clear the screen.
    ClearTerminal,
}

impl InitStep {
    /// The text reported when this step fails.
    pub open spec fn spec_failure(self) -> Seq<char> {
        match self {
            InitStep::EnterAlternateScreen => "Failed to enter alternate screen"@,
            InitStep::EnableRawMode => "Failed to enable alternate screen"@,
            InitStep::CreateTerminal => "Failed to init terminal"@,
            InitStep::ClearTerminal => "Failed to clear terminal"@,
        }
    }

    /// Returns the text reported when this step fails.
    pub fn failure(self) -> (text: String)
        ensures
            text@ == self.spec_failure(),
    {
        match self {
            InitStep::EnterAlternateScreen => "Failed to enter alternate screen".to_string(),
            InitStep::EnableRawMode => "Failed to enable alternate screen".to_string(),
            InitStep::CreateTerminal => "Failed to init terminal".to_string(),
            InitStep::ClearTerminal => "Failed to clear terminal".to_string(),
        }
    }
}

/// The steps that give the terminal back, in the order in which they are made.
#[derive(Debug, Clone, Copy, PartialEq, Eq)]
pub enum ExitStep {
    /// Flush what is still to be drawn.
    Flush,
    /// Leave the alternate screen.
    LeaveAlternateScreen,
    /// Switch raw input mode off.
    DisableRawMode,
}

impl ExitStep {
    /// The text reported when this step fails.
    pub open spec fn spec_failure(self) -> Seq<char> {
        match self {
            ExitStep::Flush => "Failed to flush terminal"@,
            ExitStep::LeaveAlternateScreen => "Failed to leave alternate screen"@,
            ExitStep::DisableRawMode => "Failed to disable raw mode"@,
        }
    }

    /// Returns the text reported when this step fails.
    pub fn failure(self) -> (text: String)
        ensures
            text@ == self.spec_failure(),
    {
        match self {
            ExitStep::Flush => "Failed to flush terminal".to_string(),
            ExitStep::LeaveAlternateScreen => "Failed to leave alternate screen".to_string(),
            ExitStep::DisableRawMode => "Failed to disable raw mode".to_string(),
        }
    }
}

/// The steps that give the terminal back, all of them, in order.
pub open spec fn restore_steps() -> Seq<ExitStep> {
    seq![ExitStep::Flush, ExitStep::LeaveAlternateScreen, ExitStep::DisableRawMode]
}

/// Ticks per second, unless configured otherwise.
pub const DEFAULT_TICK_RATE: u32 = 4;

/// Renders per second, unless configured otherwise.
pub const DEFAULT_FRAME_RATE: u32 = 60;

/// Nanoseconds in a second.
pub const NANOS_PER_SECOND: u64 = 1_000_000_000;

/// Whether a timer can fire `rate` times a second: at least once, and with
/// at least a nanosecond between two firings.
pub open spec fn valid_rate(rate: u32) -> bool {
    0 < rate <= NANOS_PER_SECOND
}

/// The time between two firings of a timer that fires `rate` times a second,
/// in whole nanoseconds.
pub open spec fn period_nanos(rate: u32) -> int {
    NANOS_PER_SECOND as int / rate as int
}

/// A timer with a valid rate waits at least a nanosecond, and at most a second.
pub proof fn lemma_period_is_positive(rate: u32)
    requires
        valid_rate(rate),
    ensures
        0 < period_nanos(rate) <= NANOS_PER_SECOND,
{
    let r = rate as int;
    assert(0 < 1_000_000_000int / r <= 1_000_000_000) by (nonlinear_arith)
        requires
            0 < r <= 1_000_000_000,
    ;
}

/// How long the two timers wait between firings.
#[derive(Debug, Clone, Copy, PartialEq, Eq)]
pub struct Schedule {
    /// Nanoseconds between two ticks.
    pub tick_nanos: u64,
    /// Nanoseconds between two renders.
    pub render_nanos: u64,
}

/// The mathematical content of a [`Tui`].
pub struct TuiView {
    /// Ticks per second.
    pub tick_rate: u32,
    /// Renders per second.
    pub frame_rate: u32,
    /// Whether the multiplexer was shut down and the terminal given back.
    pub shut_down: bool,
}

impl TuiView {
    /// The steps that a shutdown in this state has to take: all of them if
    /// the terminal is still held, none if it was given back before.
    pub open spec fn exit_steps(self) -> Seq<ExitStep> {
        if self.shut_down {
            Seq::empty()
        } else {
            restore_steps()
        }
    }

    /// The state after a shutdown.
    pub open spec fn exit(self) -> TuiView {
        TuiView { shut_down: true, ..self }
    }

    /// What the control loop gets when it asks for the next event and
    /// `queued` is what the queue holds at its front: an event that is
    /// queued is handed out, also after the shutdown; an empty queue means
    /// waiting while the sources run, and the end once they were shut down.
    pub open spec fn next(self, queued: Option<TuiEvent>) -> Next {
        match queued {
            Some(event) => Next::Event(event),
            None => if self.shut_down {
                Next::Closed
            } else {
                Next::Wait
            },
        }
    }
}

/// What the control loop gets when it asks for the next event.
#[derive(Debug, Clone, Copy, PartialEq, Eq)]
pub enum Next {
    /// This event.
    Event(TuiEvent),
    /// Nothing yet: wait until a source produces an event.
    Wait,
    /// Nothing any more: the multiplexer was shut down and the queue is empty.
    Closed,
}

/// The state of the multiplexer: its two rates, and whether it still holds
/// the terminal.
#[derive(Debug)]
pub struct Tui {
    tick_rate: u32,
    frame_rate: u32,
    shut_down: bool,
}

impl View for Tui {
    type V = TuiView;

    closed spec fn view(&self) -> TuiView {
        TuiView {
            tick_rate: self.tick_rate,
            frame_rate: self.frame_rate,
            shut_down: self.shut_down,
        }
    }
}

impl Tui {
    /// Concludes taking the terminal over. `failed` is the first step that
    /// failed, if one did: the error then carries that step's text.
    /// Otherwise the multiplexer holds the terminal and is not shut down.
    pub fn init(tick_rate: u32, frame_rate: u32, failed: Option<InitStep>) -> (started: Result<
        Tui,
        TuiError,
    >)
        ensures
            match failed {
                Some(step) => (started matches Err(TuiError::InitFailed(text)) && text@
                    == step.spec_failure()),
                None => (started matches Ok(tui) && tui@ == (TuiView {
                    tick_rate,
                    frame_rate,
                    shut_down: false,
                })),
            },
    {
        match failed {
            Some(step) => Err(TuiError::InitFailed(step.failure())),
            None => Ok(Tui { tick_rate, frame_rate, shut_down: false }),
        }
    }

    /// Computes how long the tick timer and the render timer wait between
    /// firings. There is no schedule if one of the rates is not valid: zero,
    /// or more than a firing in a nanosecond.
    pub fn start(&self) -> (schedule: Option<Schedule>)
        ensures
            match schedule {
                Some(periods) => {
                    &&& valid_rate(self@.tick_rate)
                    &&& valid_rate(self@.frame_rate)
                    &&& periods.tick_nanos == period_nanos(self@.tick_rate)
                    &&& periods.render_nanos == period_nanos(self@.frame_rate)
                    &&& periods.tick_nanos > 0
                    &&& periods.render_nanos > 0
                },
                None => !valid_rate(self@.tick_rate) || !valid_rate(self@.frame_rate),
            },
    {
        if self.tick_rate == 0 || self.tick_rate as u64 > NANOS_PER_SECOND || self.frame_rate == 0
            || self.frame_rate as u64 > NANOS_PER_SECOND {
            return None;
        }
        proof {
            lemma_period_is_positive(self.tick_rate);
            lemma_period_is_positive(self.frame_rate);
        }
        Some(
            Schedule {
                tick_nanos: NANOS_PER_SECOND / (self.tick_rate as u64),
                render_nanos: NANOS_PER_SECOND / (self.frame_rate as u64),
            },
        )
    }

    /// Decides what the multiplexer makes of a piece of terminal input.
    pub fn classify(input: TerminalInput) -> (event: Option<TuiEvent>)
        ensures
            event == event_of(input),
    {
        match input {
            TerminalInput::Key(key) => match key.kind {
                KeyEventKind::Press => Some(TuiEvent::Key(key)),
                _ => None,
            },
            TerminalInput::Failed => Some(TuiEvent::Error),
            _ => None,
        }
    }

    /// Decides what the control loop gets when it asks for the next event.
    /// `queued` is the event at the front of the queue, if the queue holds
    /// one. Queued events are handed out also after the shutdown, so that the
    /// queue is drained before the end is reported.
    pub fn next(&self, queued: Option<TuiEvent>) -> (next: Next)
        ensures
            next == self@.next(queued),
    {
        match queued {
            Some(event) => Next::Event(event),
            None => if self.shut_down {
                Next::Closed
            } else {
                Next::Wait
            },
        }
    }

    /// Tells whether the multiplexer was shut down.
    pub fn is_shut_down(&self) -> (shut_down: bool)
        ensures
            shut_down == self@.shut_down,
    {
        self.shut_down
    }

    /// Shuts the multiplexer down and returns the steps that give the
    /// terminal back. They are returned once: a multiplexer that was shut
    /// down before returns none, so the terminal is not restored twice.
    pub fn exit(&mut self) -> (steps: Vec<ExitStep>)
        ensures
            final(self)@ == old(self)@.exit(),
            steps@ == old(self)@.exit_steps(),
    {
        let mut steps: Vec<ExitStep> = Vec::new();
        if !self.shut_down {
            steps.push(ExitStep::Flush);
            steps.push(ExitStep::LeaveAlternateScreen);
            steps.push(ExitStep::DisableRawMode);
            self.shut_down = true;
        }
        assert(steps@ =~= old(self)@.exit_steps());
        steps
    }

    /// Reports how giving the terminal back went. `failed` holds the steps
    /// that failed, in the order in which they were made; every step is
    /// attempted whether or not an earlier one failed. The error carries the
    /// text of the first step that failed.
    pub fn exit_result(failed: &[ExitStep]) -> (outcome: Result<(), TuiError>)
        ensures
            failed@.len() == 0 ==> outcome is Ok,
            failed@.len() > 0 ==> (outcome matches Err(TuiError::ExitFailed(text)) && text@
                == failed@[0].spec_failure()),
    {
        if failed.len() == 0 {
            Ok(())
        } else {
            Err(TuiError::ExitFailed(failed[0].failure()))
        }
    }
}

/// Shutting down twice gives the terminal back once: after a first call of
/// [`Tui::exit`], whatever the state before it, a further call has no steps
/// left to take and changes nothing.
pub proof fn lemma_exit_restores_once(before: TuiView)
    ensures
        !before.shut_down ==> before.exit_steps() == restore_steps(),
        before.exit().exit_steps() == Seq::<ExitStep>::empty(),
        before.exit().exit() == before.exit(),
{
}

/// After the shutdown the queue is drained and then the end is reported: the
/// control loop gets each of the `queue`d events in turn, and the end once
/// none is left. It is never told to wait.
pub proof fn lemma_shutdown_drains_queue(before: TuiView, queue: Seq<TuiEvent>, i: int)
    requires
        0 <= i <= queue.len(),
    ensures
        before.exit().next(front(queue.skip(i))) == if i < queue.len() {
            Next::Event(queue[i])
        } else {
            Next::Closed
        },
{
}

/// The event at the front of a queue, if it holds one.
pub open spec fn front(queue: Seq<TuiEvent>) -> Option<TuiEvent> {
    if queue.len() > 0 {
        Some(queue[0])
    } else {
        None
    }
}

} // verus!
