//! The model of the live state.
//!
//! The live state is modelled by the log of the messages that were accepted,
//! in the order of their arrival. A subject's history is the part of the log
//! that was published under it; the total is the length of the log. What the
//! dashboard promises of its state is stated and proved here, over the model.

use vstd::prelude::*;
use crate::nats::message::MessageView;

verus! {

/// The part of `log` that was published under `subject`, in the order of the log.
pub open spec fn history_of(log: Seq<MessageView>, subject: Seq<char>) -> Seq<MessageView>
    decreases log.len(),
{
    if log.len() == 0 {
        Seq::empty()
    } else {
        let earlier = history_of(log.drop_last(), subject);
        if log.last().subject == subject {
            earlier.push(log.last())
        } else {
            earlier
        }
    }
}

/// Whether some message of `history` carries `payload`.
pub open spec fn holds_payload(history: Seq<MessageView>, payload: Seq<u8>) -> bool {
    exists|i: int| 0 <= i < history.len() && (#[trigger] history[i]).payload == payload
}

/// The model of the live state: the accepted messages in arrival order, and
/// whether repeated messages are dropped.
pub struct AggregatorView {
    /// Every message that was accepted, oldest first.
    pub log: Seq<MessageView>,
    /// Whether a message is dropped when its subject and payload were seen before.
    pub dedup: bool,
}

impl AggregatorView {
    /// The state at the start of a session.
    pub open spec fn empty(dedup: bool) -> AggregatorView {
        AggregatorView { log: Seq::empty(), dedup }
    }

    /// The messages accepted under `subject`, oldest first.
    pub open spec fn history(self, subject: Seq<char>) -> Seq<MessageView> {
        history_of(self.log, subject)
    }

    /// Whether any message was accepted under `subject`.
    pub open spec fn has_subject(self, subject: Seq<char>) -> bool {
        self.history(subject).len() > 0
    }

    /// The subjects under which a message was accepted.
    pub open spec fn subjects(self) -> Set<Seq<char>> {
        Set::new(|subject: Seq<char>| self.has_subject(subject))
    }

    /// Whether `payload` was accepted under `subject` before.
    pub open spec fn seen(self, subject: Seq<char>, payload: Seq<u8>) -> bool {
        holds_payload(self.history(subject), payload)
    }

    /// The number of messages accepted, over all subjects.
    pub open spec fn total(self) -> nat {
        self.log.len()
    }

    /// Whether `message` would be accepted: always without deduplication, and
    /// with it unless the same payload was accepted under the same subject.
    pub open spec fn accepts(self, message: MessageView) -> bool {
        !self.dedup || !self.seen(message.subject, message.payload)
    }

    /// The state after `message` was handed in.
    pub open spec fn ingest(self, message: MessageView) -> AggregatorView {
        if self.accepts(message) {
            AggregatorView { log: self.log.push(message), dedup: self.dedup }
        } else {
            self
        }
    }

    /// The state after `messages` were handed in, in their order.
    pub open spec fn ingest_all(self, messages: Seq<MessageView>) -> AggregatorView
        decreases messages.len(),
    {
        if messages.len() == 0 {
            self
        } else {
            self.ingest_all(messages.drop_last()).ingest(messages.last())
        }
    }
}

/// Adding a message to the log adds it to the history of its subject and
/// leaves every other history as it was.
pub proof fn lemma_history_of_push(log: Seq<MessageView>, message: MessageView, subject: Seq<char>)
    ensures
        history_of(log.push(message), subject) == if message.subject == subject {
            history_of(log, subject).push(message)
        } else {
            history_of(log, subject)
        },
{
    assert(log.push(message).drop_last() =~= log);
}

/// Every message of a subject's history was published under that subject.
pub proof fn lemma_history_of_subject(log: Seq<MessageView>, subject: Seq<char>, i: int)
    requires
        0 <= i < history_of(log, subject).len(),
    ensures
        history_of(log, subject)[i].subject == subject,
    decreases log.len(),
{
    if log.len() > 0 {
        let earlier = history_of(log.drop_last(), subject);
        if i < earlier.len() {
            lemma_history_of_subject(log.drop_last(), subject, i);
        }
    }
}

/// Histories are append-only: whatever is handed in afterwards, the history
/// that a subject has now stays as the beginning of the history that it has
/// then. In particular no history ever gets shorter.
pub proof fn lemma_history_only_grows(
    state: AggregatorView,
    messages: Seq<MessageView>,
    subject: Seq<char>,
)
    ensures
        state.history(subject).is_prefix_of(state.ingest_all(messages).history(subject)),
        state.history(subject).len() <= state.ingest_all(messages).history(subject).len(),
    decreases messages.len(),
{
    if messages.len() > 0 {
        let earlier = state.ingest_all(messages.drop_last());
        lemma_history_only_grows(state, messages.drop_last(), subject);
        lemma_history_of_push(earlier.log, messages.last(), subject);
    }
}

/// Without deduplication nothing is lost and nothing is counted twice: the log
/// grows by exactly the messages handed in, in their order, whatever their
/// subjects, payloads and sequence numbers. Starting from the empty state the
/// total is the number of messages handed in.
pub proof fn lemma_no_loss_without_dedup(state: AggregatorView, messages: Seq<MessageView>)
    requires
        !state.dedup,
    ensures
        state.ingest_all(messages).log == state.log + messages,
        state.ingest_all(messages).total() == state.total() + messages.len(),
        AggregatorView::empty(false).ingest_all(messages).total() == messages.len(),
{
    lemma_log_without_dedup(state, messages);
    lemma_log_without_dedup(AggregatorView::empty(false), messages);
}

/// Without deduplication the log grows by exactly the messages handed in.
proof fn lemma_log_without_dedup(state: AggregatorView, messages: Seq<MessageView>)
    requires
        !state.dedup,
    ensures
        state.ingest_all(messages).log == state.log + messages,
        !state.ingest_all(messages).dedup,
    decreases messages.len(),
{
    if messages.len() > 0 {
        lemma_log_without_dedup(state, messages.drop_last());
        assert(state.log + messages =~= (state.log + messages.drop_last()).push(messages.last()));
    } else {
        assert(state.log + messages =~= state.log);
    }
}

/// With deduplication, handing in a message whose subject and payload were
/// just accepted changes nothing: the pair is reflected once.
pub proof fn lemma_dedup_is_idempotent(
    state: AggregatorView,
    first: MessageView,
    second: MessageView,
)
    requires
        state.dedup,
        first.subject == second.subject,
        first.payload == second.payload,
    ensures
        state.ingest(first).ingest(second) == state.ingest(first),
{
    if state.accepts(first) {
        lemma_history_of_push(state.log, first, first.subject);
        let history = state.ingest(first).history(first.subject);
        assert(history[history.len() - 1].payload == second.payload);
    }
}

/// With deduplication, two messages handed in under one subject at the start
/// of a session leave a history of one message if their payloads are the
/// same, and of two if they differ.
pub proof fn lemma_dedup_counts_distinct_payloads(first: MessageView, second: MessageView)
    requires
        first.subject == second.subject,
    ensures
        first.payload == second.payload ==> AggregatorView::empty(true).ingest(first).ingest(
            second,
        ).history(first.subject).len() == 1,
        first.payload != second.payload ==> AggregatorView::empty(true).ingest(first).ingest(
            second,
        ).history(first.subject).len() == 2,
{
    let start = AggregatorView::empty(true);
    let once = start.ingest(first);
    assert(start.accepts(first));
    lemma_history_of_push(start.log, first, first.subject);
    assert(once.history(first.subject) =~= seq![first]);
    if first.payload == second.payload {
        lemma_dedup_is_idempotent(start, first, second);
    } else {
        assert(once.accepts(second));
        lemma_history_of_push(once.log, second, first.subject);
    }
}

/// With deduplication from the start of a session, no history ever holds the
/// same payload twice.
pub proof fn lemma_dedup_keeps_payloads_distinct(
    messages: Seq<MessageView>,
    subject: Seq<char>,
    i: int,
    j: int,
)
    requires
        0 <= i < j < AggregatorView::empty(true).ingest_all(messages).history(subject).len(),
    ensures
        AggregatorView::empty(true).ingest_all(messages).history(subject)[i].payload
            != AggregatorView::empty(true).ingest_all(messages).history(subject)[j].payload,
    decreases messages.len(),
{
    let start = AggregatorView::empty(true);
    if messages.len() > 0 {
        let earlier = start.ingest_all(messages.drop_last());
        let last = messages.last();
        lemma_ingest_all_keeps_mode(start, messages.drop_last());
        lemma_history_of_push(earlier.log, last, subject);
        if j < earlier.history(subject).len() {
            lemma_dedup_keeps_payloads_distinct(messages.drop_last(), subject, i, j);
        } else {
            assert(earlier.accepts(last));
            assert(earlier.history(subject)[i].payload != last.payload);
        }
    }
}

/// With deduplication from the start of a session, a subject and a payload
/// count as seen exactly when a message with them was handed in.
pub proof fn lemma_seen_is_handed_in(
    messages: Seq<MessageView>,
    subject: Seq<char>,
    payload: Seq<u8>,
)
    ensures
        AggregatorView::empty(true).ingest_all(messages).seen(subject, payload) <==> exists|
            i: int,
        |
            0 <= i < messages.len() && (#[trigger] messages[i]).subject == subject && messages[i].payload
                == payload,
    decreases messages.len(),
{
    let start = AggregatorView::empty(true);
    let after = start.ingest_all(messages);
    if messages.len() > 0 {
        let rest = messages.drop_last();
        let last = messages.last();
        let earlier = start.ingest_all(rest);
        lemma_seen_is_handed_in(rest, subject, payload);
        lemma_ingest_all_keeps_mode(start, rest);
        lemma_history_of_push(earlier.log, last, subject);
        if earlier.seen(subject, payload) {
            let k = choose|k: int|
                0 <= k < earlier.history(subject).len() && (#[trigger] earlier.history(
                    subject,
                )[k]).payload == payload;
            assert(after.history(subject)[k].payload == payload);
            let i = choose|i: int|
                0 <= i < rest.len() && (#[trigger] rest[i]).subject == subject && rest[i].payload
                    == payload;
            assert(messages[i] == rest[i]);
        } else {
            if last.subject == subject && last.payload == payload {
                assert(messages[messages.len() - 1] == last);
                assert(earlier.accepts(last));
                let history = after.history(subject);
                assert(history[history.len() - 1].payload == payload);
            } else {
                if after.seen(subject, payload) {
                    let k = choose|k: int|
                        0 <= k < after.history(subject).len() && (#[trigger] after.history(
                            subject,
                        )[k]).payload == payload;
                    if k < earlier.history(subject).len() {
                        assert(earlier.history(subject)[k].payload == payload);
                    }
                }
                if exists|i: int|
                    0 <= i < messages.len() && (#[trigger] messages[i]).subject == subject
                        && messages[i].payload == payload {
                    let i = choose|i: int|
                        0 <= i < messages.len() && (#[trigger] messages[i]).subject == subject
                            && messages[i].payload == payload;
                    assert(rest[i] == messages[i]);
                }
            }
        }
    }
}

/// Handing messages in never switches deduplication on or off.
pub proof fn lemma_ingest_all_keeps_mode(state: AggregatorView, messages: Seq<MessageView>)
    ensures
        state.ingest_all(messages).dedup == state.dedup,
    decreases messages.len(),
{
    if messages.len() > 0 {
        lemma_ingest_all_keeps_mode(state, messages.drop_last());
    }
}

/// Adding a message to the log adds its subject to the subjects.
pub proof fn lemma_subjects_of_push(state: AggregatorView, message: MessageView)
    ensures
        (AggregatorView { log: state.log.push(message), dedup: state.dedup }).subjects()
            == state.subjects().insert(message.subject),
{
    let grown = AggregatorView { log: state.log.push(message), dedup: state.dedup };
    assert forall|subject: Seq<char>| grown.subjects().contains(subject)
        == state.subjects().insert(message.subject).contains(subject) by {
        lemma_history_of_push(state.log, message, subject);
    }
    assert(grown.subjects() =~= state.subjects().insert(message.subject));
}

/// A state has finitely many subjects, and no more than it has messages.
pub proof fn lemma_subjects_are_finite(state: AggregatorView)
    ensures
        state.subjects().finite(),
        state.subjects().len() <= state.total(),
    decreases state.log.len(),
{
    if state.log.len() == 0 {
        assert(state.subjects() =~= Set::<Seq<char>>::empty());
    } else {
        let earlier = AggregatorView { log: state.log.drop_last(), dedup: state.dedup };
        lemma_subjects_are_finite(earlier);
        lemma_subjects_of_push(earlier, state.log.last());
        assert(state.log =~= earlier.log.push(state.log.last()));
    }
}

/// Subjects are never removed: whatever is handed in afterwards, every
/// subject that the state has now it has then, so that their number never
/// falls.
pub proof fn lemma_subjects_only_grow(state: AggregatorView, messages: Seq<MessageView>)
    ensures
        state.subjects().subset_of(state.ingest_all(messages).subjects()),
        state.subjects().len() <= state.ingest_all(messages).subjects().len(),
{
    let after = state.ingest_all(messages);
    assert forall|subject: Seq<char>| state.subjects().contains(subject) implies after.subjects().contains(
        subject,
    ) by {
        lemma_history_only_grows(state, messages, subject);
    }
    lemma_subjects_are_finite(after);
    vstd::set_lib::lemma_len_subset(state.subjects(), after.subjects());
}

} // verus!
