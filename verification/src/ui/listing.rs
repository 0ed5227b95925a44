//! Listings of the live state: its subjects in ascending order, each with
//! its history.
//!
//! A state has exactly one such listing, which is why a row can be named by
//! its index, and its rows hold every accepted message exactly once.

use vstd::prelude::*;
use crate::nats::message::MessageView;
use crate::ui::model::{history_of, lemma_history_of_push, AggregatorView};
use crate::ui::order::{lemma_subject_lt_irreflexive, lemma_subject_lt_transitive, subject_lt};

verus! {

/// The mathematical content of a stored history: a subject with its messages.
pub struct HistoryView {
    /// The subject.
    pub subject: Seq<char>,
    /// The messages accepted under it, oldest first.
    pub messages: Seq<MessageView>,
}

/// Whether `rows` lists the histories of `state`: one row for each subject
/// that has messages, sorted by subject, each with that subject's messages.
pub open spec fn is_snapshot_of(rows: Seq<HistoryView>, state: AggregatorView) -> bool {
    &&& forall|i: int, j: int|
        0 <= i < j < rows.len() ==> subject_lt(
            (#[trigger] rows[i]).subject,
            (#[trigger] rows[j]).subject,
        )
    &&& forall|i: int|
        0 <= i < rows.len() ==> {
            &&& (#[trigger] rows[i]).messages.len() > 0
            &&& rows[i].messages == state.history(rows[i].subject)
        }
    &&& forall|subject: Seq<char>| #[trigger]
        state.has_subject(subject) ==> exists|i: int|
            0 <= i < rows.len() && (#[trigger] rows[i]).subject == subject
}

/// Whether `names` lists the subjects of `state`: each subject that has
/// messages once, and in ascending order.
pub open spec fn is_listing_of(names: Seq<Seq<char>>, state: AggregatorView) -> bool {
    &&& forall|i: int, j: int|
        0 <= i < j < names.len() ==> subject_lt(#[trigger] names[i], #[trigger] names[j])
    &&& forall|i: int| 0 <= i < names.len() ==> state.has_subject(#[trigger] names[i])
    &&& forall|subject: Seq<char>| #[trigger]
        state.has_subject(subject) ==> names.contains(subject)
}

/// Two listings of one state agree on their first `k` subjects.
proof fn lemma_listings_agree_up_to(
    a: Seq<Seq<char>>,
    b: Seq<Seq<char>>,
    state: AggregatorView,
    k: int,
)
    requires
        is_listing_of(a, state),
        is_listing_of(b, state),
        0 <= k <= a.len(),
        k <= b.len(),
    ensures
        forall|i: int| 0 <= i < k ==> a[i] == b[i],
    decreases k,
{
    if k > 0 {
        lemma_listings_agree_up_to(a, b, state, k - 1);
        let i = k - 1;
        assert(state.has_subject(a[i]));
        assert(state.has_subject(b[i]));
        let j = choose|j: int| 0 <= j < b.len() && b[j] == a[i];
        let h = choose|h: int| 0 <= h < a.len() && a[h] == b[i];
        lemma_subject_lt_irreflexive(a[i]);
        lemma_subject_lt_irreflexive(b[i]);
        if j < i {
            assert(a[j] == b[j]);
            assert(subject_lt(a[j], a[i]));
        }
        if h < i {
            assert(a[h] == b[h]);
            assert(subject_lt(b[h], b[i]));
        }
        if j > i && h > i {
            assert(subject_lt(b[i], b[j]));
            assert(subject_lt(a[i], a[h]));
            lemma_subject_lt_transitive(a[i], b[i], a[i]);
        }
    }
}

/// A state has one listing of its subjects only.
pub proof fn lemma_listing_is_unique(a: Seq<Seq<char>>, b: Seq<Seq<char>>, state: AggregatorView)
    requires
        is_listing_of(a, state),
        is_listing_of(b, state),
    ensures
        a == b,
{
    let n = if a.len() <= b.len() {
        a.len() as int
    } else {
        b.len() as int
    };
    lemma_listings_agree_up_to(a, b, state, n);
    if a.len() < b.len() {
        assert(state.has_subject(b[n]));
        let h = choose|h: int| 0 <= h < a.len() && a[h] == b[n];
        assert(subject_lt(b[h], b[n]));
        lemma_subject_lt_irreflexive(b[n]);
    }
    if b.len() < a.len() {
        assert(state.has_subject(a[n]));
        let j = choose|j: int| 0 <= j < b.len() && b[j] == a[n];
        assert(subject_lt(a[j], a[n]));
        lemma_subject_lt_irreflexive(a[n]);
    }
    assert(a =~= b);
}

/// The subjects of a snapshot are the listing of the state's subjects.
pub proof fn lemma_snapshot_is_listing(rows: Seq<HistoryView>, state: AggregatorView)
    requires
        is_snapshot_of(rows, state),
    ensures
        is_listing_of(row_subjects(rows), state),
{
    let names = row_subjects(rows);
    assert forall|i: int, j: int| 0 <= i < j < names.len() implies subject_lt(
        #[trigger] names[i],
        #[trigger] names[j],
    ) by {
        assert(subject_lt(rows[i].subject, rows[j].subject));
    }
    assert forall|i: int| 0 <= i < names.len() implies state.has_subject(#[trigger] names[i]) by {
        assert(rows[i].messages.len() > 0);
    }
    assert forall|subject: Seq<char>| #[trigger] state.has_subject(subject) implies names.contains(
        subject,
    ) by {
        let i = choose|i: int| 0 <= i < rows.len() && (#[trigger] rows[i]).subject == subject;
        assert(names[i] == subject);
    }
}

/// A state has one snapshot only.
pub proof fn lemma_snapshot_is_unique(
    a: Seq<HistoryView>,
    b: Seq<HistoryView>,
    state: AggregatorView,
)
    requires
        is_snapshot_of(a, state),
        is_snapshot_of(b, state),
    ensures
        a == b,
{
    lemma_snapshot_is_listing(a, state);
    lemma_snapshot_is_listing(b, state);
    lemma_listing_is_unique(row_subjects(a), row_subjects(b), state);
    assert(a.len() == row_subjects(a).len());
    assert(b.len() == row_subjects(b).len());
    assert forall|i: int| 0 <= i < a.len() implies a[i] == b[i] by {
        assert(row_subjects(a)[i] == a[i].subject);
        assert(row_subjects(b)[i] == b[i].subject);
        assert(a[i].messages == state.history(a[i].subject));
        assert(b[i].messages == state.history(b[i].subject));
    }
    assert(a =~= b);
}

/// The subjects of a listing, in its order.
pub open spec fn row_subjects(rows: Seq<HistoryView>) -> Seq<Seq<char>> {
    Seq::new(rows.len(), |i: int| rows[i].subject)
}

/// A listing of a state has one row for each of its subjects.
pub proof fn lemma_snapshot_counts_subjects(rows: Seq<HistoryView>, state: AggregatorView)
    requires
        is_snapshot_of(rows, state),
    ensures
        state.subjects().finite(),
        state.subjects().len() == rows.len(),
        row_subjects(rows).no_duplicates(),
        row_subjects(rows).to_set() == state.subjects(),
{
    let names = row_subjects(rows);
    assert forall|i: int, j: int| 0 <= i < names.len() && 0 <= j < names.len() && i != j implies names[i]
        != names[j] by {
        if i < j {
            assert(subject_lt(rows[i].subject, rows[j].subject));
        } else {
            assert(subject_lt(rows[j].subject, rows[i].subject));
        }
        lemma_subject_lt_irreflexive(names[i]);
    }
    assert forall|subject: Seq<char>| names.to_set().contains(subject) == state.subjects().contains(
        subject,
    ) by {
        if names.to_set().contains(subject) {
            let i = choose|i: int| 0 <= i < names.len() && names[i] == subject;
            assert(rows[i].messages.len() > 0);
        }
        if state.has_subject(subject) {
            let i = choose|i: int| 0 <= i < rows.len() && (#[trigger] rows[i]).subject == subject;
            assert(names[i] == subject);
        }
    }
    assert(names.to_set() =~= state.subjects());
    names.unique_seq_to_set();
    vstd::seq_lib::seq_to_set_is_finite(names);
}

/// The number of messages that a listing holds, over all its rows.
pub open spec fn stored(rows: Seq<HistoryView>) -> nat
    decreases rows.len(),
{
    if rows.len() == 0 {
        0
    } else {
        stored(rows.drop_last()) + rows.last().messages.len()
    }
}

/// Taking a row out of a listing takes its messages out of the count.
proof fn lemma_stored_remove(rows: Seq<HistoryView>, at: int)
    requires
        0 <= at < rows.len(),
    ensures
        stored(rows.remove(at)) + rows[at].messages.len() == stored(rows),
    decreases rows.len(),
{
    if at == rows.len() - 1 {
        assert(rows.remove(at) =~= rows.drop_last());
    } else {
        lemma_stored_remove(rows.drop_last(), at);
        assert(rows.remove(at).drop_last() =~= rows.drop_last().remove(at));
        assert(rows.remove(at).last() == rows.last());
    }
}

/// Replacing a row of a listing replaces its messages in the count.
proof fn lemma_stored_update(rows: Seq<HistoryView>, at: int, row: HistoryView)
    requires
        0 <= at < rows.len(),
    ensures
        stored(rows.update(at, row)) + rows[at].messages.len() == stored(rows)
            + row.messages.len(),
    decreases rows.len(),
{
    if at == rows.len() - 1 {
        assert(rows.update(at, row).drop_last() =~= rows.drop_last());
    } else {
        lemma_stored_update(rows.drop_last(), at, row);
        assert(rows.update(at, row).drop_last() =~= rows.drop_last().update(at, row));
        assert(rows.update(at, row).last() == rows.last());
    }
}

/// The total is the number of messages in the histories: every accepted
/// message is in the history of exactly one subject, so the rows of a
/// snapshot hold as many messages as were accepted.
pub proof fn lemma_total_counts_histories(rows: Seq<HistoryView>, state: AggregatorView)
    requires
        is_snapshot_of(rows, state),
    ensures
        stored(rows) == state.total(),
    decreases state.log.len(),
{
    if state.log.len() == 0 {
        if rows.len() > 0 {
            assert(rows[0].messages.len() > 0);
        }
    } else {
        let log = state.log.drop_last();
        let last = state.log.last();
        let earlier = AggregatorView { log, dedup: state.dedup };
        assert(state.log =~= log.push(last));
        lemma_history_of_push(log, last, last.subject);
        assert(state.has_subject(last.subject));
        let at = choose|at: int| 0 <= at < rows.len() && (#[trigger] rows[at]).subject == last.subject;
        let shorter = HistoryView { subject: last.subject, messages: history_of(log, last.subject) };
        let before = if shorter.messages.len() == 0 {
            rows.remove(at)
        } else {
            rows.update(at, shorter)
        };
        assert forall|i: int| 0 <= i < rows.len() && i != at implies {
            &&& (#[trigger] rows[i]).subject != last.subject
            &&& rows[i].messages == earlier.history(rows[i].subject)
        } by {
            if i < at {
                assert(subject_lt(rows[i].subject, rows[at].subject));
            } else {
                assert(subject_lt(rows[at].subject, rows[i].subject));
            }
            lemma_subject_lt_irreflexive(last.subject);
            lemma_history_of_push(log, last, rows[i].subject);
        }
        assert forall|i: int, j: int| 0 <= i < j < before.len() implies subject_lt(
            (#[trigger] before[i]).subject,
            (#[trigger] before[j]).subject,
        ) by {
            if shorter.messages.len() == 0 {
                let a = if i < at { i } else { i + 1 };
                let b = if j < at { j } else { j + 1 };
                assert(before[i] == rows[a]);
                assert(before[j] == rows[b]);
                assert(subject_lt(rows[a].subject, rows[b].subject));
            } else {
                assert(before[i].subject == rows[i].subject);
                assert(before[j].subject == rows[j].subject);
                assert(subject_lt(rows[i].subject, rows[j].subject));
            }
        }
        assert forall|i: int| 0 <= i < before.len() implies {
            &&& (#[trigger] before[i]).messages.len() > 0
            &&& before[i].messages == earlier.history(before[i].subject)
        } by {
            if shorter.messages.len() == 0 {
                let a = if i < at { i } else { i + 1 };
                assert(before[i] == rows[a]);
                assert(rows[a].messages.len() > 0);
            } else if i != at {
                assert(before[i] == rows[i]);
                assert(rows[i].messages.len() > 0);
            }
        }
        assert forall|subject: Seq<char>| #[trigger]
            earlier.has_subject(subject) implies exists|i: int|
            0 <= i < before.len() && (#[trigger] before[i]).subject == subject by {
            lemma_history_of_push(log, last, subject);
            assert(state.has_subject(subject));
            let k = choose|k: int| 0 <= k < rows.len() && (#[trigger] rows[k]).subject == subject;
            if shorter.messages.len() == 0 {
                let i = if k < at { k } else { k - 1 };
                assert(before[i] == rows[k]);
            } else {
                assert(before[k].subject == subject);
            }
        }
        lemma_total_counts_histories(before, earlier);
        if shorter.messages.len() == 0 {
            lemma_stored_remove(rows, at);
        } else {
            lemma_stored_update(rows, at, shorter);
        }
    }
}

} // verus!
