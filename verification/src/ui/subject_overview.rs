//! The overview pane: the subjects seen so far, and which of them is selected.

use vstd::prelude::*;
use crate::ui::aggregator::{history_views, Aggregator};
use crate::ui::listing::{
    is_listing_of,
    is_snapshot_of,
    lemma_listing_is_unique,
    lemma_snapshot_counts_subjects,
    lemma_snapshot_is_listing,
    row_subjects,
    HistoryView,
};
use crate::ui::model::AggregatorView;
use crate::ui::order::subject_lt;
use crate::ui::tui::KeyCode;

verus! {

/// The mathematical content of an [`OverviewRow`].
pub struct RowView {
    /// The subject.
    pub subject: Seq<char>,
    /// The number of messages that arrived under it.
    pub count: nat,
}

/// One line of the overview: a subject and the number of its messages.
#[derive(Debug, PartialEq, Eq)]
pub struct OverviewRow {
    /// The subject.
    pub subject: String,
    /// The number of messages that arrived under it.
    pub count: usize,
}

impl View for OverviewRow {
    type V = RowView;

    open spec fn view(&self) -> RowView {
        RowView { subject: self.subject@, count: self.count as nat }
    }
}

/// The contents of a run of rows, one for one.
pub open spec fn row_views(rows: Seq<OverviewRow>) -> Seq<RowView> {
    Seq::new(rows.len(), |i: int| rows[i]@)
}

/// Whether `rows` is the overview of `state`: one row for each subject that
/// has messages, sorted by subject, each with the number of that subject's
/// messages.
pub open spec fn is_overview_of(rows: Seq<RowView>, state: AggregatorView) -> bool {
    &&& forall|i: int, j: int|
        0 <= i < j < rows.len() ==> subject_lt(
            (#[trigger] rows[i]).subject,
            (#[trigger] rows[j]).subject,
        )
    &&& forall|i: int|
        0 <= i < rows.len() ==> {
            &&& (#[trigger] rows[i]).count > 0
            &&& rows[i].count == state.history(rows[i].subject).len()
        }
    &&& forall|subject: Seq<char>| #[trigger]
        state.has_subject(subject) ==> exists|i: int|
            0 <= i < rows.len() && (#[trigger] rows[i]).subject == subject
}

/// The subjects of an overview, in its order.
pub open spec fn overview_subjects(rows: Seq<RowView>) -> Seq<Seq<char>> {
    Seq::new(rows.len(), |i: int| rows[i].subject)
}

/// The subjects of an overview are the listing of the state's subjects.
pub proof fn lemma_overview_is_listing(rows: Seq<RowView>, state: AggregatorView)
    requires
        is_overview_of(rows, state),
    ensures
        is_listing_of(overview_subjects(rows), state),
{
    let names = overview_subjects(rows);
    assert forall|i: int, j: int| 0 <= i < j < names.len() implies subject_lt(
        #[trigger] names[i],
        #[trigger] names[j],
    ) by {
        assert(subject_lt(rows[i].subject, rows[j].subject));
    }
    assert forall|i: int| 0 <= i < names.len() implies state.has_subject(#[trigger] names[i]) by {
        assert(rows[i].count > 0);
    }
    assert forall|subject: Seq<char>| #[trigger] state.has_subject(subject) implies names.contains(
        subject,
    ) by {
        let i = choose|i: int| 0 <= i < rows.len() && (#[trigger] rows[i]).subject == subject;
        assert(names[i] == subject);
    }
}

/// A state has one overview only.
pub proof fn lemma_overview_is_unique(a: Seq<RowView>, b: Seq<RowView>, state: AggregatorView)
    requires
        is_overview_of(a, state),
        is_overview_of(b, state),
    ensures
        a == b,
{
    lemma_overview_is_listing(a, state);
    lemma_overview_is_listing(b, state);
    lemma_listing_is_unique(overview_subjects(a), overview_subjects(b), state);
    assert(a.len() == overview_subjects(a).len());
    assert(b.len() == overview_subjects(b).len());
    assert forall|i: int| 0 <= i < a.len() implies a[i] == b[i] by {
        assert(overview_subjects(a)[i] == a[i].subject);
        assert(overview_subjects(b)[i] == b[i].subject);
        assert(a[i].count == state.history(a[i].subject).len());
        assert(b[i].count == state.history(b[i].subject).len());
    }
    assert(a =~= b);
}

/// Rows that give the subject and the number of messages of each row of a
/// snapshot are the overview of the state.
pub proof fn lemma_overview_of_snapshot(
    rows: Seq<RowView>,
    snapshot: Seq<HistoryView>,
    state: AggregatorView,
)
    requires
        is_snapshot_of(snapshot, state),
        rows.len() == snapshot.len(),
        forall|i: int|
            0 <= i < rows.len() ==> {
                &&& (#[trigger] rows[i]).subject == snapshot[i].subject
                &&& rows[i].count == snapshot[i].messages.len()
            },
    ensures
        is_overview_of(rows, state),
{
    assert forall|i: int, j: int| 0 <= i < j < rows.len() implies subject_lt(
        (#[trigger] rows[i]).subject,
        (#[trigger] rows[j]).subject,
    ) by {
        assert(subject_lt(snapshot[i].subject, snapshot[j].subject));
    }
    assert forall|i: int| 0 <= i < rows.len() implies {
        &&& (#[trigger] rows[i]).count > 0
        &&& rows[i].count == state.history(rows[i].subject).len()
    } by {
        assert(snapshot[i].messages.len() > 0);
    }
    assert forall|subject: Seq<char>| #[trigger] state.has_subject(subject) implies exists|i: int|
        0 <= i < rows.len() && (#[trigger] rows[i]).subject == subject by {
        let i = choose|i: int|
            0 <= i < snapshot.len() && (#[trigger] snapshot[i]).subject == subject;
        assert(rows[i].subject == subject);
    }
}

/// The overview and the snapshot of one state have the same subjects at the
/// same places.
pub proof fn lemma_overview_follows_snapshot(
    rows: Seq<RowView>,
    snapshot: Seq<HistoryView>,
    state: AggregatorView,
)
    requires
        is_overview_of(rows, state),
        is_snapshot_of(snapshot, state),
    ensures
        rows.len() == snapshot.len(),
        forall|i: int|
            0 <= i < rows.len() ==> (#[trigger] rows[i]).subject == snapshot[i].subject,
{
    lemma_overview_is_listing(rows, state);
    lemma_snapshot_is_listing(snapshot, state);
    lemma_listing_is_unique(overview_subjects(rows), row_subjects(snapshot), state);
    assert(rows.len() == overview_subjects(rows).len());
    assert(snapshot.len() == row_subjects(snapshot).len());
    assert forall|i: int| 0 <= i < rows.len() implies (#[trigger] rows[i]).subject
        == snapshot[i].subject by {
        assert(overview_subjects(rows)[i] == rows[i].subject);
        assert(row_subjects(snapshot)[i] == snapshot[i].subject);
    }
}

/// The state of the selection: the selected index, if a row is selected, and
/// the number of rows that the overview had when it was last laid out.
pub struct OverviewView {
    /// The index of the selected row.
    pub selected: Option<usize>,
    /// The number of rows.
    pub count: usize,
}

impl OverviewView {
    /// Whether the selection points at a row: it is empty, or an index below
    /// the number of rows.
    pub open spec fn in_range(self) -> bool {
        match self.selected {
            Some(index) => index < self.count,
            None => true,
        }
    }

    /// The selection after a step down: the first row if none was selected,
    /// the row below otherwise, and the last row stays selected. Without rows
    /// nothing is selected.
    pub open spec fn next(self) -> OverviewView {
        let selected = if self.count == 0 {
            None
        } else {
            match self.selected {
                None => Some(0usize),
                Some(index) => if index + 1 < self.count {
                    Some((index + 1) as usize)
                } else {
                    Some((self.count - 1) as usize)
                },
            }
        };
        OverviewView { selected, count: self.count }
    }

    /// The selection after a step up: the first row if none was selected, the
    /// row above otherwise, and the first row stays selected. Without rows
    /// nothing is selected.
    pub open spec fn previous(self) -> OverviewView {
        let selected = if self.count == 0 {
            None
        } else {
            match self.selected {
                None => Some(0usize),
                Some(index) => if index == 0 {
                    Some(0usize)
                } else {
                    Some((index - 1) as usize)
                },
            }
        };
        OverviewView { selected, count: self.count }
    }

    /// The state with nothing selected.
    pub open spec fn reset(self) -> OverviewView {
        OverviewView { selected: None, count: self.count }
    }

    /// The state after the overview was laid out with `count` rows: a
    /// selection beyond the last row moves to the last row, and is dropped if
    /// there is no row.
    pub open spec fn resize(self, count: usize) -> OverviewView {
        let selected = match self.selected {
            Some(index) => if index < count {
                Some(index)
            } else if count == 0 {
                None
            } else {
                Some((count - 1) as usize)
            },
            None => None,
        };
        OverviewView { selected, count }
    }

    /// The state after a key: the down arrow and `j` step down, the up arrow
    /// and `k` step up, every other key changes nothing.
    pub open spec fn key(self, key: KeyCode) -> OverviewView {
        match key {
            KeyCode::Down => self.next(),
            KeyCode::Up => self.previous(),
            KeyCode::Char(c) => if c == 'j' {
                self.next()
            } else if c == 'k' {
                self.previous()
            } else {
                self
            },
            KeyCode::Other => self,
        }
    }
}

/// The selection is clamped and never wraps around: a step up from the first
/// row stays on the first row, a step down from the last row stays on the
/// last row, and after any operation the selection is empty or points at a
/// row.
pub proof fn lemma_selection_is_clamped(state: OverviewView, key: KeyCode, count: usize)
    requires
        state.in_range(),
    ensures
        state.selected == Some(0usize) && state.count > 0 ==> state.previous().selected == Some(
            0usize,
        ),
        state.count > 0 && state.selected == Some((state.count - 1) as usize)
            ==> state.next().selected == state.selected,
        state.next().in_range(),
        state.previous().in_range(),
        state.reset().in_range(),
        state.key(key).in_range(),
        state.resize(count).in_range(),
{
}

/// The view model of the overview pane. It keeps the selection within the
/// rows that the overview had when it was last laid out.
#[derive(Debug)]
pub struct SubjectOverview {
    selected: Option<usize>,
    count: usize,
}

impl View for SubjectOverview {
    type V = OverviewView;

    closed spec fn view(&self) -> OverviewView {
        OverviewView { selected: self.selected, count: self.count }
    }
}

impl Default for SubjectOverview {
    /// The view model of an empty overview with nothing selected.
    fn default() -> (overview: SubjectOverview)
        ensures
            overview@ == (OverviewView { selected: None, count: 0 }),
    {
        SubjectOverview::new()
    }
}

impl SubjectOverview {
    /// The invariant of the view model: the selection is empty or points at
    /// a row.
    #[verifier::type_invariant]
    spec fn in_range(self) -> bool {
        self@.in_range()
    }

    /// Creates the view model of an empty overview with nothing selected.
    pub fn new() -> (overview: SubjectOverview)
        ensures
            overview@ == (OverviewView { selected: None, count: 0 }),
    {
        SubjectOverview { selected: None, count: 0 }
    }

    /// Lays the overview out: returns one row for each subject of `messages`,
    /// sorted by subject, and fits the selection to the number of rows.
    pub fn render(&mut self, messages: &Aggregator) -> (rows: Vec<OverviewRow>)
        ensures
            final(self)@.in_range(),
            is_overview_of(row_views(rows@), messages@),
            rows@.len() == messages@.subjects().len(),
            final(self)@ == old(self)@.resize(rows@.len() as usize),
    {
        let histories = messages.snapshot();
        let ghost snapshot = history_views(histories@);
        proof {
            lemma_snapshot_counts_subjects(snapshot, messages@);
        }
        let mut rows: Vec<OverviewRow> = Vec::new();
        let mut i: usize = 0;
        while i < histories.len()
            invariant
                i <= histories@.len(),
                snapshot == history_views(histories@),
                rows@.len() == i,
                forall|k: int|
                    0 <= k < i ==> {
                        &&& (#[trigger] rows@[k])@.subject == snapshot[k].subject
                        &&& rows@[k]@.count == snapshot[k].messages.len()
                    },
            decreases histories@.len() - i,
        {
            let history = &histories[i];
            assert(snapshot[i as int] == history@);
            rows.push(OverviewRow { subject: history.subject().to_string(), count: history.len() });
            i += 1;
        }
        proof {
            let listed = row_views(rows@);
            assert forall|k: int| 0 <= k < listed.len() implies {
                &&& (#[trigger] listed[k]).subject == snapshot[k].subject
                &&& listed[k].count == snapshot[k].messages.len()
            } by {
                assert(listed[k] == rows@[k]@);
            }
            lemma_overview_of_snapshot(listed, snapshot, messages@);
        }
        proof {
            use_type_invariant(&*self);
        }
        let count = rows.len();
        self.selected = match self.selected {
            Some(index) => if index < count {
                Some(index)
            } else if count == 0 {
                None
            } else {
                Some(count - 1)
            },
            None => None,
        };
        self.count = count;
        rows
    }

    /// Applies a key to the selection: the down arrow and `j` step down, the
    /// up arrow and `k` step up, every other key changes nothing.
    pub fn handle_key(&mut self, key: KeyCode)
        ensures
            final(self)@.in_range(),
            final(self)@ == old(self)@.key(key),
    {
        proof {
            use_type_invariant(&*self);
        }
        match key {
            KeyCode::Down => self.select_next(),
            KeyCode::Up => self.select_previous(),
            KeyCode::Char(c) => {
                if c == 'j' {
                    self.select_next()
                } else if c == 'k' {
                    self.select_previous()
                }
            },
            KeyCode::Other => {},
        }
    }

    /// Moves the selection one row down. The first row is selected if none
    /// was, and the last row stays selected.
    pub fn select_next(&mut self)
        ensures
            final(self)@.in_range(),
            final(self)@ == old(self)@.next(),
    {
        proof {
            use_type_invariant(&*self);
        }
        if self.count == 0 {
            self.selected = None;
        } else {
            self.selected = match self.selected {
                None => Some(0),
                Some(index) => if index < self.count - 1 {
                    Some(index + 1)
                } else {
                    Some(self.count - 1)
                },
            };
        }
    }

    /// Moves the selection one row up. The first row is selected if none
    /// was, and the first row stays selected.
    pub fn select_previous(&mut self)
        ensures
            final(self)@.in_range(),
            final(self)@ == old(self)@.previous(),
    {
        proof {
            use_type_invariant(&*self);
        }
        if self.count == 0 {
            self.selected = None;
        } else {
            self.selected = match self.selected {
                None => Some(0),
                Some(index) => if index == 0 {
                    Some(0)
                } else {
                    Some(index - 1)
                },
            };
        }
    }

    /// Drops the selection.
    pub fn reset_selection(&mut self)
        ensures
            final(self)@.in_range(),
            final(self)@ == old(self)@.reset(),
    {
        self.selected = None;
    }

    /// The index of the selected row, if a row is selected. It is below the
    /// number of rows.
    pub fn selected(&self) -> (selected: Option<usize>)
        ensures
            selected == self@.selected,
            self@.in_range(),
    {
        proof {
            use_type_invariant(&*self);
        }
        self.selected
    }

    /// The number of rows that the overview had when it was last laid out.
    pub fn count(&self) -> (count: usize)
        ensures
            count == self@.count,
    {
        self.count
    }
}

} // verus!
