//! The live state of the dashboard: every subject seen so far, with the
//! messages that arrived under it.
//!
//! The aggregator stores the histories one by one, sorted by subject, and is
//! held to the model of the state by its type invariant: nothing outside this
//! module can bring about an aggregator whose histories are not those of its
//! model.

use vstd::prelude::*;
use crate::nats::message::{message_views, Message, MessageView};
use crate::ui::listing::{
    is_snapshot_of,
    lemma_snapshot_counts_subjects,
    lemma_total_counts_histories,
    stored,
    HistoryView,
};
use crate::ui::model::{holds_payload, lemma_history_of_push, AggregatorView};
use crate::ui::order::{
    bytes_equal,
    lemma_subject_lt_connected,
    lemma_subject_lt_irreflexive,
    lemma_subject_lt_transitive,
    subject_before,
    subject_equal,
    subject_lt,
};

verus! {

/// The messages that arrived under one subject, oldest first. The histories
/// that an aggregator holds are never empty and only ever grow at their end.
pub struct SubjectHistory {
    subject: String,
    messages: Vec<Message>,
}

impl View for SubjectHistory {
    type V = HistoryView;

    closed spec fn view(&self) -> HistoryView {
        HistoryView { subject: self.subject@, messages: message_views(self.messages@) }
    }
}

impl SubjectHistory {
    /// The subject of this history.
    pub fn subject(&self) -> (subject: &str)
        ensures
            subject@ == self@.subject,
    {
        self.subject.as_str()
    }

    /// The messages of this history, oldest first.
    pub fn messages(&self) -> (messages: &[Message])
        ensures
            message_views(messages@) == self@.messages,
    {
        self.messages.as_slice()
    }

    /// The number of messages in this history.
    pub fn len(&self) -> (len: usize)
        ensures
            len == self@.messages.len(),
    {
        self.messages.len()
    }

    /// The message that arrived last, if there is one.
    pub fn latest(&self) -> (latest: Option<&Message>)
        ensures
            match latest {
                Some(message) => self@.messages.len() > 0 && message@ == self@.messages.last(),
                None => self@.messages.len() == 0,
            },
    {
        let len = self.messages.len();
        if len == 0 {
            None
        } else {
            Some(&self.messages[len - 1])
        }
    }

    /// Tells whether some message of this history carries `payload`.
    pub fn contains_payload(&self, payload: &[u8]) -> (found: bool)
        ensures
            found == holds_payload(self@.messages, payload@),
    {
        let mut i: usize = 0;
        while i < self.messages.len()
            invariant
                i <= self.messages.len(),
                forall|k: int| 0 <= k < i ==> (#[trigger] self.messages@[k]).payload@ != payload@,
            decreases self.messages.len() - i,
        {
            if bytes_equal(self.messages[i].payload.as_slice(), payload) {
                assert(self@.messages[i as int].payload == payload@);
                return true;
            }
            i += 1;
        }
        assert forall|k: int| 0 <= k < self@.messages.len() implies (
        #[trigger] self@.messages[k]).payload != payload@ by {
            assert(self.messages@[k].payload@ != payload@);
        }
        false
    }
}

/// The contents of a run of histories, one for one.
pub open spec fn history_views(histories: Seq<SubjectHistory>) -> Seq<HistoryView> {
    Seq::new(histories.len(), |i: int| histories[i]@)
}

/// The live state: for each subject seen so far, the messages that arrived
/// under it.
pub struct Aggregator {
    histories: Vec<SubjectHistory>,
    dedup: bool,
    total: usize,
    log: Ghost<Seq<MessageView>>,
}

impl View for Aggregator {
    type V = AggregatorView;

    closed spec fn view(&self) -> AggregatorView {
        AggregatorView { log: self.log@, dedup: self.dedup }
    }
}

impl Aggregator {
    /// The invariant of the stored state: the histories are those of the
    /// model, one for each subject that has messages, sorted by subject, and
    /// the total is the length of the log as far as it can be counted.
    #[verifier::type_invariant]
    spec fn wf(self) -> bool {
        &&& is_snapshot_of(history_views(self.histories@), self@)
        &&& self.total == if self.log@.len() <= usize::MAX {
            self.log@.len()
        } else {
            usize::MAX as nat
        }
    }

    /// Creates an empty state. With `dedup`, a message whose subject and
    /// payload were accepted before is dropped when it arrives again.
    pub fn new(dedup: bool) -> (aggregator: Aggregator)
        ensures
            aggregator@ == AggregatorView::empty(dedup),
    {
        Aggregator { histories: Vec::new(), dedup, total: 0, log: Ghost(Seq::empty()) }
    }

    /// Whether repeated messages are dropped.
    pub fn dedup(&self) -> (dedup: bool)
        ensures
            dedup == self@.dedup,
    {
        self.dedup
    }

    /// The number of messages accepted so far, over all subjects. The count
    /// stops at `usize::MAX`.
    pub fn total(&self) -> (total: usize)
        ensures
            total == if self@.total() <= usize::MAX {
                self@.total()
            } else {
                usize::MAX as nat
            },
    {
        proof {
            use_type_invariant(&*self);
        }
        self.total
    }

    /// The number of subjects seen so far.
    pub fn subject_count(&self) -> (count: usize)
        ensures
            self@.subjects().finite(),
            count == self@.subjects().len(),
    {
        proof {
            use_type_invariant(&*self);
            lemma_snapshot_counts_subjects(history_views(self.histories@), self@);
        }
        self.histories.len()
    }

    /// The histories of all subjects seen so far, sorted by subject. The
    /// borrow keeps the state from changing while the listing is read.
    pub fn snapshot(&self) -> (rows: &[SubjectHistory])
        ensures
            is_snapshot_of(history_views(rows@), self@),
            stored(history_views(rows@)) == self@.total(),
    {
        proof {
            use_type_invariant(&*self);
            lemma_total_counts_histories(history_views(self.histories@), self@);
        }
        self.histories.as_slice()
    }

    /// The history of `subject`, if any message arrived under it.
    pub fn history(&self, subject: &str) -> (found: Option<&SubjectHistory>)
        ensures
            match found {
                Some(history) => {
                    &&& self@.has_subject(subject@)
                    &&& history@.subject == subject@
                    &&& history@.messages == self@.history(subject@)
                },
                None => !self@.has_subject(subject@),
            },
    {
        proof {
            use_type_invariant(&*self);
        }
        let position = position(&self.histories, subject);
        let ghost rows = history_views(self.histories@);
        if position < self.histories.len() && subject_equal(
            self.histories[position].subject(),
            subject,
        ) {
            assert(rows[position as int] == self.histories@[position as int]@);
            Some(&self.histories[position])
        } else {
            proof {
                lemma_position_is_free(rows, position as int, subject@);
            }
            None
        }
    }

    /// Hands a message in. It is appended to the history of its subject, which
    /// is created if this is the subject's first message. With deduplication
    /// a message whose subject and payload were accepted before changes
    /// nothing. Returns whether the message was accepted.
    pub fn ingest(&mut self, message: Message) -> (accepted: bool)
        ensures
            final(self)@ == old(self)@.ingest(message@),
            accepted == old(self)@.accepts(message@),
    {
        proof {
            use_type_invariant(&*self);
        }
        let ghost before = history_views(self.histories@);
        let ghost state = self@;
        let ghost added = message@;
        let position = position(&self.histories, message.subject.as_str());
        let known = position < self.histories.len() && subject_equal(
            self.histories[position].subject(),
            message.subject.as_str(),
        );
        if known {
            assert(before[position as int] == self.histories@[position as int]@);
            if self.dedup && self.histories[position].contains_payload(
                message.payload.as_slice(),
            ) {
                return false;
            }
        }
        let mut emptied = Aggregator::new(self.dedup);
        core::mem::swap(self, &mut emptied);
        let Aggregator { histories, dedup, total, log } = emptied;
        let mut histories = histories;
        if known {
            histories[position].messages.push(message);
            proof {
                let longer = HistoryView {
                    subject: added.subject,
                    messages: before[position as int].messages.push(added),
                };
                assert(histories@[position as int]@.messages =~= longer.messages);
                assert(history_views(histories@) =~= before.update(position as int, longer));
                lemma_snapshot_after_append(before, state, added, position as int);
            }
        } else {
            proof {
                lemma_position_is_free(before, position as int, added.subject);
            }
            let subject = message.subject.clone();
            let mut messages: Vec<Message> = Vec::new();
            messages.push(message);
            histories.insert(position, SubjectHistory { subject, messages });
            proof {
                let first = HistoryView { subject: added.subject, messages: seq![added] };
                assert(histories@[position as int]@.messages =~= first.messages);
                assert(history_views(histories@) =~= before.insert(position as int, first));
                lemma_snapshot_after_insert(before, state, added, position as int);
            }
        }
        let total = if total < usize::MAX {
            total + 1
        } else {
            total
        };
        *self = Aggregator { histories, dedup, total, log: Ghost(state.log.push(added)) };
        true
    }
}

/// Whether the rows are in ascending order of their subjects.
spec fn ascending(rows: Seq<HistoryView>) -> bool {
    forall|i: int, j: int|
        0 <= i < j < rows.len() ==> subject_lt(
            (#[trigger] rows[i]).subject,
            (#[trigger] rows[j]).subject,
        )
}

/// Finds the index of the first history whose subject is not below `subject`.
fn position(histories: &Vec<SubjectHistory>, subject: &str) -> (position: usize)
    requires
        ascending(history_views(histories@)),
    ensures
        position <= histories@.len(),
        forall|i: int|
            0 <= i < position ==> subject_lt(
                (#[trigger] history_views(histories@)[i]).subject,
                subject@,
            ),
        forall|i: int|
            position <= i < histories@.len() ==> !subject_lt(
                (#[trigger] history_views(histories@)[i]).subject,
                subject@,
            ),
{
    let ghost rows = history_views(histories@);
    let mut low: usize = 0;
    let mut high: usize = histories.len();
    while low < high
        invariant
            rows == history_views(histories@),
            ascending(rows),
            low <= high <= histories@.len(),
            forall|i: int| 0 <= i < low ==> subject_lt((#[trigger] rows[i]).subject, subject@),
            forall|i: int|
                high <= i < rows.len() ==> !subject_lt((#[trigger] rows[i]).subject, subject@),
        decreases high - low,
    {
        let middle = low + (high - low) / 2;
        assert(rows[middle as int] == histories@[middle as int]@);
        if subject_before(histories[middle].subject(), subject) {
            proof {
                assert forall|i: int| 0 <= i < middle + 1 implies subject_lt(
                    (#[trigger] rows[i]).subject,
                    subject@,
                ) by {
                    if i < middle {
                        assert(subject_lt(rows[i].subject, rows[middle as int].subject));
                        lemma_subject_lt_transitive(
                            rows[i].subject,
                            rows[middle as int].subject,
                            subject@,
                        );
                    }
                }
            }
            low = middle + 1;
        } else {
            proof {
                assert forall|i: int| middle <= i < rows.len() implies !subject_lt(
                    (#[trigger] rows[i]).subject,
                    subject@,
                ) by {
                    if middle < i && subject_lt(rows[i].subject, subject@) {
                        assert(subject_lt(rows[middle as int].subject, rows[i].subject));
                        lemma_subject_lt_transitive(
                            rows[middle as int].subject,
                            rows[i].subject,
                            subject@,
                        );
                    }
                }
            }
            high = middle;
        }
    }
    low
}

/// Where the search for a subject ends at a row with another subject, or
/// behind the last row, no row has the subject.
proof fn lemma_position_is_free(rows: Seq<HistoryView>, position: int, subject: Seq<char>)
    requires
        0 <= position <= rows.len(),
        forall|i: int| 0 <= i < position ==> subject_lt((#[trigger] rows[i]).subject, subject),
        forall|i: int|
            position <= i < rows.len() ==> !subject_lt((#[trigger] rows[i]).subject, subject),
        forall|i: int, j: int|
            0 <= i < j < rows.len() ==> subject_lt(
                (#[trigger] rows[i]).subject,
                (#[trigger] rows[j]).subject,
            ),
        position < rows.len() ==> rows[position].subject != subject,
    ensures
        forall|i: int| 0 <= i < rows.len() ==> (#[trigger] rows[i]).subject != subject,
{
    assert forall|i: int| 0 <= i < rows.len() implies (#[trigger] rows[i]).subject != subject by {
        lemma_subject_lt_irreflexive(subject);
        if position < i {
            assert(subject_lt(rows[position].subject, rows[i].subject));
        }
    }
}

/// A snapshot with the message appended to the row of its subject is the
/// snapshot of the state with the message added to the log.
proof fn lemma_snapshot_after_append(
    before: Seq<HistoryView>,
    state: AggregatorView,
    added: MessageView,
    at: int,
)
    requires
        is_snapshot_of(before, state),
        0 <= at < before.len(),
        before[at].subject == added.subject,
    ensures
        is_snapshot_of(
            before.update(
                at,
                HistoryView { subject: added.subject, messages: before[at].messages.push(added) },
            ),
            AggregatorView { log: state.log.push(added), dedup: state.dedup },
        ),
{
    let after = before.update(
        at,
        HistoryView { subject: added.subject, messages: before[at].messages.push(added) },
    );
    let grown = AggregatorView { log: state.log.push(added), dedup: state.dedup };
    assert forall|i: int, j: int| 0 <= i < j < after.len() implies subject_lt(
        (#[trigger] after[i]).subject,
        (#[trigger] after[j]).subject,
    ) by {
        assert(subject_lt(before[i].subject, before[j].subject));
    }
    assert forall|i: int| 0 <= i < after.len() implies {
        &&& (#[trigger] after[i]).messages.len() > 0
        &&& after[i].messages == grown.history(after[i].subject)
    } by {
        lemma_history_of_push(state.log, added, after[i].subject);
        lemma_subject_lt_irreflexive(added.subject);
        assert(before[i].messages.len() > 0);
        if i < at {
            assert(subject_lt(before[i].subject, before[at].subject));
        }
        if at < i {
            assert(subject_lt(before[at].subject, before[i].subject));
        }
    }
    assert forall|subject: Seq<char>| #[trigger] grown.has_subject(subject) implies exists|i: int|
        0 <= i < after.len() && (#[trigger] after[i]).subject == subject by {
        lemma_history_of_push(state.log, added, subject);
        if subject == added.subject {
            assert(after[at].subject == subject);
        } else {
            assert(state.has_subject(subject));
            let k = choose|k: int| 0 <= k < before.len() && (#[trigger] before[k]).subject == subject;
            assert(after[k].subject == subject);
        }
    }
}

/// A snapshot with a row for the first message of a subject, put in where
/// the subject belongs, is the snapshot of the state with the message added
/// to the log.
proof fn lemma_snapshot_after_insert(
    before: Seq<HistoryView>,
    state: AggregatorView,
    added: MessageView,
    at: int,
)
    requires
        is_snapshot_of(before, state),
        0 <= at <= before.len(),
        forall|i: int| 0 <= i < at ==> subject_lt((#[trigger] before[i]).subject, added.subject),
        forall|i: int|
            at <= i < before.len() ==> !subject_lt((#[trigger] before[i]).subject, added.subject),
        forall|i: int| 0 <= i < before.len() ==> (#[trigger] before[i]).subject != added.subject,
    ensures
        !state.has_subject(added.subject),
        is_snapshot_of(
            before.insert(at, HistoryView { subject: added.subject, messages: seq![added] }),
            AggregatorView { log: state.log.push(added), dedup: state.dedup },
        ),
{
    let after = before.insert(at, HistoryView { subject: added.subject, messages: seq![added] });
    let grown = AggregatorView { log: state.log.push(added), dedup: state.dedup };
    assert(!state.has_subject(added.subject));
    assert forall|i: int, j: int| 0 <= i < j < after.len() implies subject_lt(
        (#[trigger] after[i]).subject,
        (#[trigger] after[j]).subject,
    ) by {
        if j == at {
            assert(subject_lt(before[i].subject, added.subject));
        } else if i == at {
            if !subject_lt(added.subject, before[j - 1].subject) {
                lemma_subject_lt_connected(added.subject, before[j - 1].subject);
            }
        } else if j < at {
            assert(subject_lt(before[i].subject, before[j].subject));
        } else if i < at {
            assert(subject_lt(before[i].subject, before[j - 1].subject));
        } else {
            assert(subject_lt(before[i - 1].subject, before[j - 1].subject));
        }
    }
    assert forall|i: int| 0 <= i < after.len() implies {
        &&& (#[trigger] after[i]).messages.len() > 0
        &&& after[i].messages == grown.history(after[i].subject)
    } by {
        lemma_history_of_push(state.log, added, after[i].subject);
        if i < at {
            assert(after[i] == before[i]);
            assert(before[i].messages.len() > 0);
        } else if i == at {
            assert(state.history(added.subject) =~= Seq::<MessageView>::empty());
            assert(grown.history(added.subject) =~= seq![added]);
        } else {
            assert(after[i] == before[i - 1]);
            assert(before[i - 1].messages.len() > 0);
        }
    }
    assert forall|subject: Seq<char>| #[trigger] grown.has_subject(subject) implies exists|i: int|
        0 <= i < after.len() && (#[trigger] after[i]).subject == subject by {
        lemma_history_of_push(state.log, added, subject);
        if subject == added.subject {
            assert(after[at].subject == subject);
        } else {
            assert(state.has_subject(subject));
            let k = choose|k: int| 0 <= k < before.len() && (#[trigger] before[k]).subject == subject;
            if k < at {
                assert(after[k].subject == subject);
            } else {
                assert(after[k + 1].subject == subject);
            }
        }
    }
}

} // verus!
