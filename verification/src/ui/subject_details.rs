//! The detail pane: what is shown of the selected subject.

use vstd::prelude::*;
use crate::nats::message::{message_views, MessageView};
use crate::ui::aggregator::SubjectHistory;
use crate::ui::text::{decode_lossy, display_text, render_payload, utf8_lossy};

verus! {

/// The number of messages that the history list shows at most.
pub const HISTORY_WINDOW: usize = 100;

/// The number of messages that the history list shows of a history of
/// `len` messages.
pub open spec fn window_len(len: nat) -> nat {
    if len <= HISTORY_WINDOW {
        len
    } else {
        HISTORY_WINDOW as nat
    }
}

/// The history list of a subject: its most recent messages as text, the
/// latest first, as many as the window holds.
pub open spec fn recent_texts(history: Seq<MessageView>) -> Seq<Seq<char>> {
    Seq::new(
        window_len(history.len()),
        |i: int| utf8_lossy(history[history.len() - 1 - i].payload),
    )
}

/// Messages per second, in hundredths and rounded down: `count` messages over
/// `seconds` whole seconds. There is no rate before the first second is over.
pub open spec fn rate_hundredths(count: nat, seconds: nat) -> Option<nat> {
    if seconds == 0 {
        None
    } else {
        Some(count * 100 / seconds)
    }
}

/// Computes the rate of `count` messages over `seconds` whole seconds, in
/// hundredths of a message per second.
pub fn message_rate(count: usize, seconds: u64) -> (rate: Option<u128>)
    ensures
        match rate {
            Some(hundredths) => rate_hundredths(count as nat, seconds as nat) == Some(
                hundredths as nat,
            ),
            None => rate_hundredths(count as nat, seconds as nat) is None,
        },
{
    if seconds == 0 {
        None
    } else {
        let scaled: u128 = (count as u128) * 100;
        Some(scaled / (seconds as u128))
    }
}

/// The mathematical content of a [`DetailsFrame`].
pub struct DetailsFrameView {
    /// The size of the latest payload in bytes.
    pub payload_bytes: nat,
    /// The latest payload as text.
    pub payload: Seq<char>,
    /// The most recent messages as text, the latest first.
    pub recent: Seq<Seq<char>>,
    /// The number of messages in the history.
    pub total: nat,
    /// Messages per second since the session began, in hundredths.
    pub rate: Option<nat>,
}

/// What the detail pane shows of one subject.
#[derive(Debug, PartialEq, Eq)]
pub struct DetailsFrame {
    /// The size of the latest payload in bytes.
    pub payload_bytes: usize,
    /// The latest payload as text: pretty-printed if it is JSON, decoded as
    /// it stands otherwise.
    pub payload: String,
    /// The most recent messages as text, the latest first.
    pub recent: Vec<String>,
    /// The number of messages in the history.
    pub total: usize,
    /// Messages per second since the session began, in hundredths.
    pub rate: Option<u128>,
}

impl View for DetailsFrame {
    type V = DetailsFrameView;

    open spec fn view(&self) -> DetailsFrameView {
        DetailsFrameView {
            payload_bytes: self.payload_bytes as nat,
            payload: self.payload@,
            recent: Seq::new(self.recent@.len(), |i: int| self.recent@[i]@),
            total: self.total as nat,
            rate: match self.rate {
                Some(hundredths) => Some(hundredths as nat),
                None => None,
            },
        }
    }
}

/// What the detail pane shows of a history after `seconds` whole seconds of
/// the session: nothing if the history is empty.
pub open spec fn details_of(history: Seq<MessageView>, seconds: nat) -> Option<DetailsFrameView> {
    if history.len() == 0 {
        None
    } else {
        Some(
            DetailsFrameView {
                payload_bytes: history.last().payload.len(),
                payload: display_text(history.last().payload),
                recent: recent_texts(history),
                total: history.len(),
                rate: rate_hundredths(history.len(), seconds),
            },
        )
    }
}

/// The view model of the detail pane. It holds no state of its own: all that
/// it shows is computed from the selected subject's history.
#[derive(Debug)]
pub struct SubjectDetails {}

impl Default for SubjectDetails {
    /// The view model.
    fn default() -> (details: SubjectDetails)
        ensures
            details == (SubjectDetails {}),
    {
        SubjectDetails::new()
    }
}

impl SubjectDetails {
    /// Creates the view model.
    pub fn new() -> (details: SubjectDetails)
        ensures
            details == (SubjectDetails {}),
    {
        SubjectDetails {}
    }

    /// Computes what the pane shows of `history` after `uptime_seconds` whole
    /// seconds of the session: the latest payload and its size, the most
    /// recent messages with the latest first, the length of the history and
    /// the message rate. An empty history shows nothing.
    pub fn render(&self, history: &SubjectHistory, uptime_seconds: u64) -> (frame: Option<
        DetailsFrame,
    >)
        ensures
            match frame {
                Some(shown) => details_of(history@.messages, uptime_seconds as nat) == Some(shown@),
                None => details_of(history@.messages, uptime_seconds as nat) is None,
            },
    {
        let messages = history.messages();
        let len = messages.len();
        if len == 0 {
            return None;
        }
        let ghost model = history@.messages;
        assert(model == message_views(messages@));
        let latest = &messages[len - 1];
        assert(model.last() == latest@);
        let payload = render_payload(latest.payload.as_slice());
        let mut recent: Vec<String> = Vec::new();
        let mut i: usize = 0;
        while i < len && i < HISTORY_WINDOW
            invariant
                len == messages@.len(),
                model == message_views(messages@),
                i <= window_len(len as nat),
                recent@.len() == i,
                forall|k: int|
                    0 <= k < i ==> (#[trigger] recent@[k])@ == utf8_lossy(
                        model[len - 1 - k].payload,
                    ),
            decreases len - i,
        {
            let message = &messages[len - 1 - i];
            assert(model[len - 1 - i] == message@);
            recent.push(decode_lossy(message.payload.as_slice()));
            i += 1;
        }
        let frame = DetailsFrame {
            payload_bytes: latest.payload.len(),
            payload,
            recent,
            total: len,
            rate: message_rate(len, uptime_seconds),
        };
        assert(frame@.recent =~= recent_texts(model));
        Some(frame)
    }
}

} // verus!
