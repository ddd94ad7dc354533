//! The fuzzy selectable list: entries with labels, a filter typed into an
//! embedded line editor, a selection that always rests on a matching entry
//! while one exists, and a window that always shows the selection.
//!
//! `ListModel` is the mathematical model. It holds only what cannot be
//! derived: the labels, the filter editor, the selected index and the
//! window's size. Which entries match, how many do, and where the window
//! starts all follow from these.

use crate::editor::{EditorState, ReturnType, TextInput, TextInputType};
use crate::flags::{
    count_before, count_set, lemma_count_monotonic, lemma_count_set_flag, lemma_count_zero,
    lemma_next_set, lemma_prev_set, next_set, prev_set,
};
use crate::fuzzy::{
    as_ints, fuzzy_matches, fuzzy_positions, is_embedding, is_leftmost, law_empty_filter_matches,
    law_label_matches_itself,
};
use crate::keys::{KeyCode, KeyEvent, Modifier};
use crate::markup::{cell, plain_style, MarkupColor, Style, StyledChar};
use crate::text::to_chars;
use crate::window::{
    available_rows, law_selected_row_is_visible, offset_for, rows_available, scroll_offset,
    window_rows, window_size,
};
use vstd::prelude::*;

verus! {

/// The most rows a list ever shows.
pub const MAX_ROWS: usize = 12;

/// The list as a mathematical value.
pub struct ListModel {
    pub labels: Seq<Seq<char>>,
    pub filter: EditorState,
    pub selected: int,
    pub window: int,
}

/// The result of feeding a sequence of keys to a list.
pub enum ListOutcome {
    /// The keys ran out before the list ended.
    Pending(ListModel),
    /// Enter was pressed; the index of the entry selected at that moment.
    Committed(int),
    /// Escape was pressed.
    Cancelled,
    /// Control+C was pressed.
    Aborted,
}

/// What a key does to a list.
#[derive(Clone, Copy, Debug, PartialEq, Eq, Structural)]
pub enum ListStep {
    /// The list goes on; it has to be drawn again.
    Continue,
    /// Enter: the selected entry is the answer.
    Commit,
    /// Escape: no answer, the caller goes back.
    Cancel,
    /// Control+C: no answer, the program exits.
    Exit,
}

/// What stands in front of a row of the window.
#[derive(Clone, Copy, Debug, PartialEq, Eq, Structural)]
pub enum RowMarker {
    /// The row is the selection.
    Selected,
    /// The row is the window's first and entries are hidden above it.
    MoreAbove,
    /// The row is the window's last and entries are hidden below it.
    MoreBelow,
    /// Nothing to point out.
    Plain,
}

/// One row of the window.
#[derive(Debug)]
pub struct Row {
    /// The index of the entry the row shows.
    pub index: usize,
    pub marker: RowMarker,
    /// The positions in the label at which the filter's characters were
    /// found, in order.
    pub highlights: Vec<usize>,
}

/// The marker of row `k` of `shown`, the window starting at `offset` among
/// `count` matching entries: the selection is marked as such; otherwise the
/// last row says when more follows and the first row says when more
/// precedes.
pub open spec fn marker_at(k: int, shown: int, offset: int, count: int, selected: bool) -> RowMarker {
    if selected {
        RowMarker::Selected
    } else if k == shown - 1 && count > offset + shown {
        RowMarker::MoreBelow
    } else if k == 0 && offset > 0 {
        RowMarker::MoreAbove
    } else {
        RowMarker::Plain
    }
}

/// Computes `marker_at`.
pub fn marker_for(k: usize, shown: usize, offset: usize, count: usize, selected: bool) -> (marker:
    RowMarker)
    ensures
        marker == marker_at(k as int, shown as int, offset as int, count as int, selected),
{
    if selected {
        RowMarker::Selected
    } else if shown >= 1 && k == shown - 1 && count >= shown && count - shown > offset {
        RowMarker::MoreBelow
    } else if k == 0 && offset > 0 {
        RowMarker::MoreAbove
    } else {
        RowMarker::Plain
    }
}

/// The step a key stands for: Escape, Enter, Up and Down count whatever
/// modifier is held, and only Control+C aborts.
pub open spec fn step_of(event: KeyEvent) -> ListStep {
    if event.code == KeyCode::Esc {
        ListStep::Cancel
    } else if event.code == KeyCode::Enter {
        ListStep::Commit
    } else if event.is_abort() {
        ListStep::Exit
    } else {
        ListStep::Continue
    }
}

impl ListModel {
    /// For each entry, whether the filter matches its label.
    pub open spec fn flags(self) -> Seq<bool> {
        Seq::new(self.labels.len(), |i: int| fuzzy_matches(self.filter.text, self.labels[i]))
    }

    /// How many entries match.
    pub open spec fn match_count(self) -> int {
        count_set(self.flags())
    }

    /// The place of the selected entry among the matching ones: how many
    /// matching entries stand before it.
    pub open spec fn rank(self) -> int {
        count_before(self.flags(), self.selected)
    }

    /// The first of the matching entries that the window shows.
    pub open spec fn offset(self) -> int {
        scroll_offset(self.rank(), self.match_count(), self.window)
    }

    /// How many rows the window shows.
    pub open spec fn shown(self) -> int {
        if self.match_count() < self.window {
            self.match_count()
        } else {
            self.window
        }
    }

    /// The list has an entry, the selection is an entry, it matches while
    /// any entry does and is the first entry otherwise, and the window has
    /// between one row and one row per entry.
    pub open spec fn wf(self) -> bool {
        &&& self.labels.len() > 0
        &&& 0 <= self.selected < self.labels.len()
        &&& 1 <= self.window <= self.labels.len()
        &&& self.filter.wf()
        &&& !self.filter.masked
        &&& self.match_count() > 0 ==> self.flags()[self.selected]
        &&& self.match_count() == 0 ==> self.selected == 0
    }

    /// The list as it starts: no filter, the first entry selected.
    pub open spec fn initial(labels: Seq<Seq<char>>, window: int) -> ListModel {
        ListModel { labels, filter: EditorState::empty(false), selected: 0, window }
    }

    /// Puts the selection where it belongs after the filter changed: it
    /// stays if the selected entry still matches, else it goes to the first
    /// matching entry, or to the first entry when none matches.
    pub open spec fn reselect(self) -> ListModel {
        let first = next_set(self.flags(), 0);
        if 0 <= self.selected < self.labels.len() && self.flags()[self.selected] {
            self
        } else if first < self.labels.len() {
            ListModel { selected: first, ..self }
        } else {
            ListModel { selected: 0, ..self }
        }
    }

    /// Moves the selection to the previous matching entry, if there is one.
    pub open spec fn up(self) -> ListModel {
        let target = prev_set(self.flags(), self.selected);
        if target >= 0 {
            ListModel { selected: target, ..self }
        } else {
            self
        }
    }

    /// Moves the selection to the next matching entry, if there is one.
    pub open spec fn down(self) -> ListModel {
        let target = next_set(self.flags(), self.selected + 1);
        if target < self.labels.len() {
            ListModel { selected: target, ..self }
        } else {
            self
        }
    }

    /// Hands a key to the filter editor and puts the selection where it
    /// then belongs.
    pub open spec fn edit(self, event: KeyEvent) -> ListModel {
        ListModel { filter: self.filter.apply(event), ..self }.reselect()
    }

    /// The result of feeding `events` in order: the first Escape cancels,
    /// the first Enter commits the entry selected at that moment, the
    /// first Control+C aborts, every other key changes the list.
    pub open spec fn run(self, events: Seq<KeyEvent>) -> ListOutcome
        decreases events.len(),
    {
        if events.len() == 0 {
            ListOutcome::Pending(self)
        } else {
            match step_of(events[0]) {
                ListStep::Cancel => ListOutcome::Cancelled,
                ListStep::Commit => ListOutcome::Committed(self.selected),
                ListStep::Exit => ListOutcome::Aborted,
                ListStep::Continue => self.apply(events[0]).run(events.drop_first()),
            }
        }
    }

    /// The list after one key.
    pub open spec fn apply(self, event: KeyEvent) -> ListModel {
        if step_of(event) != ListStep::Continue {
            self
        } else if event.code == KeyCode::Up {
            self.up()
        } else if event.code == KeyCode::Down {
            self.down()
        } else {
            self.edit(event)
        }
    }
}

proof fn lemma_count_all_set(flags: Seq<bool>, n: int)
    requires
        0 <= n <= flags.len(),
        forall|k: int| 0 <= k < n ==> flags[k],
    ensures
        count_before(flags, n) == n,
    decreases n,
{
    if n > 0 {
        lemma_count_all_set(flags, n - 1);
    }
}

/// Reselecting gives a well-formed list whenever the list has an entry, a
/// proper window and a plain filter.
pub proof fn lemma_reselect_wf(list: ListModel)
    requires
        list.labels.len() > 0,
        1 <= list.window <= list.labels.len(),
        list.filter.wf(),
        !list.filter.masked,
    ensures
        list.reselect().wf(),
        list.reselect().flags() == list.flags(),
{
    let flags = list.flags();
    lemma_next_set(flags, 0);
    lemma_count_zero(flags);
    let after = list.reselect();
    assert(after.flags() == flags);
    if next_set(flags, 0) < flags.len() {
        lemma_count_set_flag(flags, next_set(flags, 0));
    }
}

/// Every key takes a well-formed list to a well-formed list: in every
/// state that keys can reach, the selection rests on a matching entry
/// while one exists and on the first entry otherwise.
pub proof fn law_keys_preserve_wf(list: ListModel, event: KeyEvent)
    requires
        list.wf(),
    ensures
        list.apply(event).wf(),
        list.apply(event).labels == list.labels,
        list.apply(event).window == list.window,
{
    let flags = list.flags();
    lemma_prev_set(flags, list.selected);
    lemma_next_set(flags, list.selected + 1);
    assert(list.up().flags() == flags);
    assert(list.down().flags() == flags);
    if prev_set(flags, list.selected) >= 0 {
        lemma_count_set_flag(flags, prev_set(flags, list.selected));
    }
    if next_set(flags, list.selected + 1) < flags.len() {
        lemma_count_set_flag(flags, next_set(flags, list.selected + 1));
    }
    crate::editor::lemma_apply_preserves_wf(list.filter, event);
    lemma_reselect_wf(ListModel { filter: list.filter.apply(event), ..list });
}

/// While at least one entry matches, the selected entry is inside the
/// window: its place among the matching entries is at or behind the
/// window's first row and before the row that follows its last. Where every
/// entry before the selected one matches, as with an empty filter, that
/// place is the selected index itself.
pub proof fn law_selection_in_window(list: ListModel)
    requires
        list.wf(),
        list.match_count() > 0,
    ensures
        0 <= list.offset() <= list.rank() < list.offset() + list.window,
        list.rank() < list.match_count(),
        (forall|k: int| 0 <= k < list.selected ==> list.flags()[k]) ==> list.offset()
            <= list.selected < list.offset() + list.window,
{
    let flags = list.flags();
    lemma_count_set_flag(flags, list.selected);
    lemma_count_monotonic(flags, 0, list.selected);
    law_selected_row_is_visible(list.rank(), list.match_count(), list.window);
    if forall|k: int| 0 <= k < list.selected ==> flags[k] {
        lemma_count_all_set(flags, list.selected);
    }
}

/// Whatever keys a list is fed from its start, the state it reaches is
/// well-formed, and while at least one entry matches, the selected entry
/// is inside the window. An entry that Enter commits is an entry of the
/// list.
pub proof fn law_reachable_states(list: ListModel, events: Seq<KeyEvent>)
    requires
        list.wf(),
    ensures
        match list.run(events) {
            ListOutcome::Pending(reached) => {
                &&& reached.wf()
                &&& reached.labels == list.labels
                &&& reached.window == list.window
                &&& reached.match_count() > 0 ==> reached.offset() <= reached.rank()
                    < reached.offset() + reached.window
            },
            ListOutcome::Committed(index) => 0 <= index < list.labels.len(),
            _ => true,
        },
    decreases events.len(),
{
    if events.len() == 0 {
        if list.match_count() > 0 {
            law_selection_in_window(list);
        }
    } else if step_of(events[0]) == ListStep::Continue {
        law_keys_preserve_wf(list, events[0]);
        law_reachable_states(list.apply(events[0]), events.drop_first());
    }
}

/// A list as it starts is well-formed, whatever its labels, as long as it
/// has one, and whatever its window, as long as that has between one row
/// and one row per entry.
pub proof fn law_initial_list(labels: Seq<Seq<char>>, window: int)
    requires
        labels.len() > 0,
        1 <= window <= labels.len(),
    ensures
        ListModel::initial(labels, window).wf(),
        ListModel::initial(labels, window).match_count() == labels.len(),
        ListModel::initial(labels, window).offset() == 0,
{
    let start = ListModel::initial(labels, window);
    law_empty_filter_matches_all(start);
    law_selection_in_window(start);
    assert(start.rank() == 0);
}

/// With an empty filter every entry matches.
pub proof fn law_empty_filter_matches_all(list: ListModel)
    requires
        list.filter.text.len() == 0,
    ensures
        forall|i: int| 0 <= i < list.labels.len() ==> list.flags()[i],
        list.match_count() == list.labels.len(),
{
    assert(list.filter.text =~= Seq::<char>::empty());
    assert forall|i: int| 0 <= i < list.labels.len() implies list.flags()[i] by {
        law_empty_filter_matches(list.labels[i]);
    }
    lemma_count_all_set(list.flags(), list.labels.len() as int);
}

/// A filter that is an entry's whole label matches that entry.
pub proof fn law_full_label_matches(list: ListModel, i: int)
    requires
        0 <= i < list.labels.len(),
        list.filter.text == list.labels[i],
    ensures
        list.flags()[i],
        list.match_count() > 0,
{
    law_label_matches_itself(list.labels[i]);
    lemma_count_set_flag(list.flags(), i);
}

/// When the filter matches no entry, the count of matches is zero and the
/// selection falls back to the first entry.
pub proof fn law_no_match_selects_first(list: ListModel)
    requires
        forall|i: int| 0 <= i < list.labels.len() ==> !list.flags()[i],
    ensures
        list.match_count() == 0,
        list.reselect().selected == 0,
        list.wf() ==> list.selected == 0,
{
    lemma_count_zero(list.flags());
    lemma_next_set(list.flags(), 0);
}

/// One entry of a list: the caller's value, the label it is shown and
/// filtered by, its place in the list as it was given, and whether the
/// filter currently matches it.
pub struct SelectableItem<T> {
    pub value: T,
    pub label: Vec<char>,
    pub original_index: usize,
    pub matched: bool,
}

/// A list being browsed.
pub struct ListView<T> {
    pub items: Vec<SelectableItem<T>>,
    pub selected: usize,
    pub offset: usize,
    pub window: usize,
    pub filter: TextInput,
}

impl<T> View for ListView<T> {
    type V = ListModel;

    open spec fn view(&self) -> ListModel {
        ListModel {
            labels: Seq::new(self.items@.len(), |i: int| self.items@[i].label@),
            filter: self.filter@,
            selected: self.selected as int,
            window: self.window as int,
        }
    }
}

impl<T> ListView<T> {
    /// The model is well-formed, and what the list stores beside it agrees
    /// with it: each entry knows its index and whether it matches, and the
    /// offset is the one the model derives.
    pub open spec fn wf(&self) -> bool {
        &&& self@.wf()
        &&& self.offset == self@.offset()
        &&& forall|i: int|
            0 <= i < self.items@.len() ==> (#[trigger] self.items@[i]).original_index == i
        &&& forall|i: int|
            0 <= i < self.items@.len() ==> (#[trigger] self.items@[i]).matched == self@.flags()[i]
    }

    fn refilter(&mut self)
        requires
            old(self).items@.len() > 0,
        ensures
            final(self)@ == old(self)@,
            final(self).offset == old(self).offset,
            final(self).filter == old(self).filter,
            final(self).selected == old(self).selected,
            final(self).items@.len() == old(self).items@.len(),
            forall|i: int|
                0 <= i < final(self).items@.len() ==> (#[trigger] final(self).items@[i]).value
                    == old(self).items@[i].value,
            forall|i: int|
                0 <= i < final(self).items@.len() ==> (#[trigger] final(self).items@[i]).matched
                    == old(self)@.flags()[i],
            forall|i: int|
                0 <= i < final(self).items@.len() ==> (#[trigger] final(self).items@[i]).original_index
                    == old(self).items@[i].original_index,
    {
        let mut i: usize = 0;
        while i < self.items.len()
            invariant
                i <= self.items@.len(),
                self.filter == old(self).filter,
                self.selected == old(self).selected,
                self.window == old(self).window,
                self.offset == old(self).offset,
                forall|k: int|
                    0 <= k < self.items@.len() ==> (#[trigger] self.items@[k]).label
                        == old(self).items@[k].label,
                forall|k: int|
                    0 <= k < self.items@.len() ==> (#[trigger] self.items@[k]).value
                        == old(self).items@[k].value,
                self.items@.len() == old(self).items@.len(),
                forall|k: int|
                    0 <= k < i ==> (#[trigger] self.items@[k]).matched == old(self)@.flags()[k],
                forall|k: int|
                    0 <= k < self.items@.len() ==> (#[trigger] self.items@[k]).original_index
                        == old(self).items@[k].original_index,
            decreases self.items@.len() - i,
        {
            let found = fuzzy_positions(&self.filter.input, &self.items[i].label);
            self.items[i].matched = found.is_some();
            i += 1;
        }
        assert(self@.labels =~= old(self)@.labels);
    }

    /// The flags as the entries store them.
    pub open spec fn stored_flags(&self) -> Seq<bool> {
        Seq::new(self.items@.len(), |i: int| self.items@[i].matched)
    }

    fn matches_before(&self, n: usize) -> (count: usize)
        requires
            n <= self.items@.len(),
        ensures
            count == count_before(self.stored_flags(), n as int),
            count <= n,
    {
        let mut count: usize = 0;
        let mut i: usize = 0;
        while i < n
            invariant
                i <= n <= self.items@.len(),
                count <= i,
                count == count_before(self.stored_flags(), i as int),
            decreases n - i,
        {
            if self.items[i].matched {
                count += 1;
            }
            i += 1;
        }
        count
    }

    fn next_match(&self, start: usize) -> (found: usize)
        requires
            start <= self.items@.len(),
        ensures
            found == next_set(self.stored_flags(), start as int),
            start <= found <= self.items@.len(),
    {
        let mut i: usize = start;
        while i < self.items.len()
            invariant
                start <= i <= self.items@.len(),
                next_set(self.stored_flags(), start as int) == next_set(
                    self.stored_flags(),
                    i as int,
                ),
            decreases self.items@.len() - i,
        {
            if self.items[i].matched {
                return i;
            }
            i += 1;
        }
        i
    }

    fn previous_match(&self, end: usize) -> (found: Option<usize>)
        requires
            end <= self.items@.len(),
        ensures
            match found {
                Some(p) => p == prev_set(self.stored_flags(), end as int) && p < end,
                None => prev_set(self.stored_flags(), end as int) == -1,
            },
    {
        let mut i: usize = end;
        while i > 0
            invariant
                i <= end <= self.items@.len(),
                prev_set(self.stored_flags(), end as int) == prev_set(
                    self.stored_flags(),
                    i as int,
                ),
            decreases i,
        {
            if self.items[i - 1].matched {
                return Some(i - 1);
            }
            i -= 1;
        }
        None
    }

    /// Decides whether the list is well-formed.
    pub fn is_wf(&self) -> (valid: bool)
        ensures
            valid == self.wf(),
    {
        let total = self.items.len();
        if total == 0 || self.selected >= total || self.window < 1 || self.window > total {
            return false;
        }
        if !self.filter.is_wf() {
            return false;
        }
        match self.filter.input_type {
            TextInputType::Text => {},
            TextInputType::Password => {
                return false;
            },
        }
        let mut i: usize = 0;
        while i < total
            invariant
                i <= total,
                total == self.items@.len(),
                forall|k: int| 0 <= k < i ==> (#[trigger] self.items@[k]).original_index == k,
                forall|k: int|
                    0 <= k < i ==> (#[trigger] self.items@[k]).matched == self@.flags()[k],
            decreases total - i,
        {
            let found = fuzzy_positions(&self.filter.input, &self.items[i].label);
            if self.items[i].original_index != i || self.items[i].matched != found.is_some() {
                return false;
            }
            i += 1;
        }
        assert(self.stored_flags() =~= self@.flags());
        let count = self.matches_before(total);
        let rank = self.matches_before(self.selected);
        proof {
            lemma_count_zero(self@.flags());
            if self.items@[self.selected as int].matched {
                lemma_count_set_flag(self@.flags(), self.selected as int);
            }
        }
        if count > 0 {
            if !self.items[self.selected].matched {
                return false;
            }
        } else if self.selected != 0 {
            return false;
        }
        self.offset == offset_for(rank, count, self.window)
    }

    /// How many entries match the filter.
    pub fn match_count(&self) -> (count: usize)
        requires
            self.wf(),
        ensures
            count == self@.match_count(),
    {
        assert(self.stored_flags() =~= self@.flags());
        self.matches_before(self.items.len())
    }

    fn place_window(&mut self)
        requires
            old(self).selected < old(self).items@.len(),
            old(self).stored_flags() == old(self)@.flags(),
        ensures
            final(self).offset == old(self)@.offset(),
            final(self).items == old(self).items,
            final(self).selected == old(self).selected,
            final(self).window == old(self).window,
            final(self).filter == old(self).filter,
    {
        let rank = self.matches_before(self.selected);
        let count = self.matches_before(self.items.len());
        self.offset = offset_for(rank, count, self.window);
    }

    fn settle(&mut self)
        requires
            old(self).items@.len() > 0,
            old(self).selected < old(self).items@.len(),
            1 <= old(self).window <= old(self).items@.len(),
            old(self).filter.wf(),
            old(self).filter.input_type == TextInputType::Text,
            forall|i: int|
                0 <= i < old(self).items@.len() ==> (#[trigger] old(self).items@[i]).original_index
                    == i,
        ensures
            final(self)@ == old(self)@.reselect(),
            final(self).wf(),
            final(self).filter == old(self).filter,
            final(self).items@.len() == old(self).items@.len(),
            forall|i: int|
                0 <= i < final(self).items@.len() ==> (#[trigger] final(self).items@[i]).value
                    == old(self).items@[i].value,
    {
        self.refilter();
        assert(self.stored_flags() =~= self@.flags());
        proof {
            lemma_reselect_wf(self@);
        }
        if !self.items[self.selected].matched {
            let first = self.next_match(0);
            self.selected = if first < self.items.len() {
                first
            } else {
                0
            };
        }
        assert(self@.labels =~= old(self)@.labels);
        assert(self@ == old(self)@.reselect());
        assert(self.stored_flags() =~= self@.flags());
        self.place_window();
        assert(self@.labels =~= old(self)@.labels);
    }

    /// A list over `entries`, each a value with the label it goes by, on a
    /// terminal of `terminal_rows` rows (`None` when that is unknown),
    /// behind a prompt that ends at column `position`.
    ///
    /// Without an entry there is nothing to choose from, and the list is
    /// cancelled at once. Otherwise nothing is filtered yet, the first
    /// entry is selected and the window starts at the top.
    pub fn new(entries: Vec<(T, String)>, terminal_rows: Option<u16>, position: usize) -> (list:
        Result<ListView<T>, ReturnType>)
        ensures
            list is Err <==> entries@.len() == 0,
            list matches Err(cause) ==> cause == ReturnType::Cancel,
            list matches Ok(view) ==> {
                &&& view.wf()
                &&& view@ == ListModel::initial(
                    Seq::new(entries@.len(), |i: int| entries@[i].1@),
                    window_rows(
                        entries@.len() as int,
                        available_rows(terminal_rows, 1),
                        MAX_ROWS as int,
                    ),
                )
                &&& view.offset == 0
                &&& view.filter.position == position
                &&& view.items@.len() == entries@.len()
                &&& forall|i: int|
                    0 <= i < entries@.len() ==> (#[trigger] view.items@[i]).value == entries@[i].0
            },
    {
        let mut entries = entries;
        let ghost given = entries@;
        let total = entries.len();
        if total == 0 {
            return Err(ReturnType::Cancel);
        }
        let mut items: Vec<SelectableItem<T>> = Vec::new();
        while entries.len() > 0
            invariant
                items@.len() + entries@.len() == total,
                total == given.len(),
                entries@ =~= given.subrange(items@.len() as int, total as int),
                forall|i: int|
                    0 <= i < items@.len() ==> {
                        &&& (#[trigger] items@[i]).value == given[i].0
                        &&& items@[i].label@ == given[i].1@
                        &&& items@[i].original_index == i
                    },
            decreases entries@.len(),
        {
            let index = items.len();
            let (value, label) = entries.remove(0);
            items.push(
                SelectableItem {
                    value,
                    label: to_chars(label.as_str()),
                    original_index: index,
                    matched: true,
                },
            );
        }
        let window = window_size(total, rows_available(terminal_rows, 1), MAX_ROWS);
        let mut view = ListView {
            items,
            selected: 0,
            offset: 0,
            window,
            filter: TextInput::new(position, TextInputType::Text),
        };
        let ghost labels = Seq::new(given.len(), |i: int| given[i].1@);
        assert(view@.labels =~= labels);
        view.settle();
        proof {
            let start = ListModel::initial(labels, window as int);
            law_empty_filter_matches_all(start);
            assert(start.reselect() == start);
            law_selection_in_window(start);
            assert(start.rank() == 0);
        }
        Ok(view)
    }

    /// Handles one key: Escape cancels, Enter commits the selected entry,
    /// Control+C aborts, Up and Down move the selection among the
    /// matching entries, and every other key edits the filter.
    pub fn handle_key(&mut self, event: KeyEvent) -> (step: ListStep)
        requires
            old(self).wf(),
        ensures
            step == step_of(event),
            final(self)@ == old(self)@.apply(event),
            final(self).wf(),
            final(self).filter.position == old(self).filter.position,
            final(self).items@.len() == old(self).items@.len(),
            forall|i: int|
                0 <= i < final(self).items@.len() ==> (#[trigger] final(self).items@[i]).value
                    == old(self).items@[i].value,
    {
        match event.code {
            KeyCode::Esc => {
                return ListStep::Cancel;
            },
            KeyCode::Enter => {
                return ListStep::Commit;
            },
            KeyCode::Char(c) => {
                if c == 'c' {
                    match event.modifiers {
                        Modifier::Control => {
                            return ListStep::Exit;
                        },
                        _ => {},
                    }
                }
            },
            _ => {},
        }
        assert(self.stored_flags() =~= self@.flags());
        proof {
            law_keys_preserve_wf(self@, event);
        }
        match event.code {
            KeyCode::Up => {
                match self.previous_match(self.selected) {
                    Some(target) => {
                        self.selected = target;
                    },
                    None => {},
                }
                assert(self@ == old(self)@.up());
                assert(self.stored_flags() =~= self@.flags());
                self.place_window();
            },
            KeyCode::Down => {
                let total = self.items.len();
                let target = self.next_match(self.selected + 1);
                if target < total {
                    self.selected = target;
                }
                assert(self@ == old(self)@.down());
                assert(self.stored_flags() =~= self@.flags());
                self.place_window();
            },
            _ => {
                proof {
                    crate::editor::lemma_apply_preserves_wf(self.filter@, event);
                }
                self.filter.handle_event(event);
                assert(self@.labels =~= old(self)@.labels);
                self.settle();
            },
        }
        ListStep::Continue
    }

    /// Feeds `events` in order until one of them ends the list.
    ///
    /// `Some(Ok(index))` when Enter was reached, with the index of the
    /// entry selected at that moment; `Some(Err(..))` when Escape or
    /// Control+C was reached first; `None` when the keys ran out, the list
    /// being left as the keys made it.
    pub fn feed(&mut self, events: &Vec<KeyEvent>) -> (result: Option<Result<usize, ReturnType>>)
        requires
            old(self).wf(),
        ensures
            match old(self)@.run(events@) {
                ListOutcome::Pending(state) => result is None && final(self)@ == state,
                ListOutcome::Committed(index) => result == Some(Ok::<usize, ReturnType>(index as usize))
                    && 0 <= index < old(self).items@.len() && final(self).selected == index,
                ListOutcome::Cancelled => result == Some(Err::<usize, ReturnType>(ReturnType::Cancel)),
                ListOutcome::Aborted => result == Some(Err::<usize, ReturnType>(ReturnType::Exit)),
            },
            final(self).wf(),
            final(self).items@.len() == old(self).items@.len(),
            forall|i: int|
                0 <= i < final(self).items@.len() ==> (#[trigger] final(self).items@[i]).value
                    == old(self).items@[i].value,
    {
        let mut i: usize = 0;
        assert(events@.subrange(0, events@.len() as int) =~= events@);
        while i < events.len()
            invariant
                i <= events@.len(),
                self.wf(),
                self.items@.len() == old(self).items@.len(),
                forall|k: int|
                    0 <= k < self.items@.len() ==> (#[trigger] self.items@[k]).value == old(
                        self,
                    ).items@[k].value,
                old(self)@.run(events@) == self@.run(events@.subrange(i as int, events@.len() as int)),
            decreases events@.len() - i,
        {
            let ghost rest = events@.subrange(i as int, events@.len() as int);
            assert(rest[0] == events@[i as int]);
            assert(rest.drop_first() =~= events@.subrange(i as int + 1, events@.len() as int));
            match self.handle_key(events[i]) {
                ListStep::Exit => {
                    return Some(Err(ReturnType::Exit));
                },
                ListStep::Cancel => {
                    return Some(Err(ReturnType::Cancel));
                },
                ListStep::Commit => {
                    return Some(Ok(self.selected));
                },
                ListStep::Continue => {},
            }
            i += 1;
        }
        None
    }

    /// The value of the selected entry.
    pub fn selected_value(&self) -> (value: &T)
        requires
            self.wf(),
        ensures
            *value == self.items@[self.selected as int].value,
    {
        &self.items[self.selected].value
    }

    /// Gives up the list for the value of the selected entry.
    pub fn into_selected(self) -> (value: T)
        requires
            self.wf(),
        ensures
            value == self.items@[self.selected as int].value,
    {
        let mut items = self.items;
        let item = items.swap_remove(self.selected);
        item.value
    }

    /// Row `k` of the window shows entry `index`: the entry matches and
    /// exactly `offset + k` matching entries stand before it.
    pub open spec fn row_shows(&self, k: int, index: int) -> bool {
        &&& 0 <= index < self.items@.len()
        &&& self@.flags()[index]
        &&& count_before(self@.flags(), index) == self.offset + k
    }

    /// The rows of the window, top to bottom.
    ///
    /// There is one row per matching entry from the window's first on,
    /// as many as the window holds. Each row names its entry, carries the
    /// marker that belongs at its place and says which characters of the
    /// label the filter was found at, each as far left as it can be.
    pub fn visible_rows(&self) -> (rows: Vec<Row>)
        requires
            self.wf(),
        ensures
            rows@.len() == self@.shown(),
            forall|k: int|
                0 <= k < rows@.len() ==> {
                    &&& self.row_shows(k, (#[trigger] rows@[k]).index as int)
                    &&& rows@[k].marker == marker_at(
                        k,
                        self@.shown(),
                        self.offset as int,
                        self@.match_count(),
                        rows@[k].index == self.selected,
                    )
                    &&& is_embedding(
                        self@.filter.text,
                        self@.labels[rows@[k].index as int],
                        as_ints(rows@[k].highlights@),
                    )
                    &&& is_leftmost(
                        self@.filter.text,
                        self@.labels[rows@[k].index as int],
                        as_ints(rows@[k].highlights@),
                    )
                },
    {
        assert(self.stored_flags() =~= self@.flags());
        let count = self.matches_before(self.items.len());
        let shown = if count < self.window {
            count
        } else {
            self.window
        };
        let ghost flags = self@.flags();
        let mut rows: Vec<Row> = Vec::new();
        let mut rank: usize = 0;
        let mut i: usize = 0;
        while i < self.items.len()
            invariant
                self.wf(),
                flags == self@.flags(),
                self.stored_flags() == flags,
                count == self@.match_count(),
                shown == self@.shown(),
                i <= self.items@.len(),
                rank == count_before(flags, i as int),
                rank <= i,
                rank <= self.offset ==> rows@.len() == 0,
                rank > self.offset ==> rows@.len() == if rank - self.offset < shown {
                    rank - self.offset
                } else {
                    shown as int
                },
                forall|k: int|
                    0 <= k < rows@.len() ==> {
                        &&& self.row_shows(k, (#[trigger] rows@[k]).index as int)
                        &&& rows@[k].index < i
                        &&& rows@[k].marker == marker_at(
                            k,
                            shown as int,
                            self.offset as int,
                            count as int,
                            rows@[k].index == self.selected,
                        )
                        &&& is_embedding(
                            self@.filter.text,
                            self@.labels[rows@[k].index as int],
                            as_ints(rows@[k].highlights@),
                        )
                        &&& is_leftmost(
                            self@.filter.text,
                            self@.labels[rows@[k].index as int],
                            as_ints(rows@[k].highlights@),
                        )
                    },
            decreases self.items@.len() - i,
        {
            if self.items[i].matched {
                if rank >= self.offset && rows.len() < shown {
                    let place = rows.len();
                    let marker = marker_for(place, shown, self.offset, count, i == self.selected);
                    match fuzzy_positions(&self.filter.input, &self.items[i].label) {
                        Some(highlights) => {
                            rows.push(Row { index: i, marker, highlights });
                        },
                        None => {
                            assert(false);
                        },
                    }
                }
                rank += 1;
            }
            i += 1;
        }
        rows
    }
}

/// What a list over the labels of `entries` makes of `events`.
pub open spec fn list_outcome<T>(
    entries: Seq<(T, String)>,
    terminal_rows: Option<u16>,
    events: Seq<KeyEvent>,
) -> ListOutcome {
    ListModel::initial(
        Seq::new(entries.len(), |i: int| entries[i].1@),
        window_rows(entries.len() as int, available_rows(terminal_rows, 1), MAX_ROWS as int),
    ).run(events)
}

/// Runs a list on keys that are already known: a list over `entries` is
/// fed `events` in order.
///
/// Without an entry the list is cancelled at once. Otherwise the answer
/// is the value of the entry that was selected when Enter was reached, or
/// how the list ended without one, or `None` when the keys ran out.
pub fn list<T>(
    entries: Vec<(T, String)>,
    terminal_rows: Option<u16>,
    position: usize,
    events: &Vec<KeyEvent>,
) -> (result: Option<Result<T, ReturnType>>)
    ensures
        entries@.len() == 0 ==> result matches Some(Err(ReturnType::Cancel)),
        entries@.len() > 0 ==> match list_outcome(entries@, terminal_rows, events@) {
            ListOutcome::Pending(_) => result is None,
            ListOutcome::Committed(index) => 0 <= index < entries@.len() && result == Some(
                Ok::<T, ReturnType>(entries@[index].0),
            ),
            ListOutcome::Cancelled => result matches Some(Err(ReturnType::Cancel)),
            ListOutcome::Aborted => result matches Some(Err(ReturnType::Exit)),
        },
{
    match ListView::new(entries, terminal_rows, position) {
        Err(cause) => Some(Err(cause)),
        Ok(view) => {
            let mut view = view;
            match view.feed(events) {
                None => None,
                Some(Err(cause)) => Some(Err(cause)),
                Some(Ok(_)) => Some(Ok(view.into_selected())),
            }
        },
    }
}

/// The style of the marker of the selected row: cyan.
pub open spec fn marker_style() -> Style {
    Style { foreground: MarkupColor::Cyan, ..plain_style() }
}

/// The style of the characters of a label at which the filter was found:
/// underlined.
pub open spec fn highlight_style() -> Style {
    Style { underlined: true, ..plain_style() }
}

/// The two characters in front of a row: `>` and a space for the
/// selection, an arrow and a space where entries are hidden, two spaces
/// otherwise.
pub open spec fn marker_cells(marker: RowMarker) -> Seq<StyledChar> {
    match marker {
        RowMarker::Selected => seq![cell('>', marker_style()), cell(' ', plain_style())],
        RowMarker::MoreAbove => seq![cell('▲', plain_style()), cell(' ', plain_style())],
        RowMarker::MoreBelow => seq![cell('▼', plain_style()), cell(' ', plain_style())],
        RowMarker::Plain => seq![cell(' ', plain_style()), cell(' ', plain_style())],
    }
}

/// The character of a label at `i` as it is drawn: highlighted when `i` is
/// among `highlights`.
pub open spec fn label_cell(label: Seq<char>, highlights: Seq<usize>, i: int) -> StyledChar {
    if highlights.contains(i as usize) {
        cell(label[i], highlight_style())
    } else {
        cell(label[i], plain_style())
    }
}

/// A row as it is drawn: the marker, then the label with its highlights.
pub open spec fn row_drawn(marker: RowMarker, label: Seq<char>, highlights: Seq<usize>) -> Seq<
    StyledChar,
> {
    marker_cells(marker) + Seq::new(label.len(), |i: int| label_cell(label, highlights, i))
}

fn is_highlight(highlights: &Vec<usize>, i: usize) -> (found: bool)
    ensures
        found == highlights@.contains(i),
{
    let mut k: usize = 0;
    while k < highlights.len()
        invariant
            k <= highlights@.len(),
            forall|m: int| 0 <= m < k ==> highlights@[m] != i,
        decreases highlights@.len() - k,
    {
        if highlights[k] == i {
            return true;
        }
        k += 1;
    }
    false
}

/// Draws a row: the styled characters of its marker and of `label`, the
/// characters at which the filter was found highlighted.
pub fn row_cells(row: &Row, label: &Vec<char>) -> (cells: Vec<StyledChar>)
    ensures
        cells@ == row_drawn(row.marker, label@, row.highlights@),
{
    let plain = Style {
        bold: false,
        italic: false,
        underlined: false,
        dim: false,
        foreground: MarkupColor::Unset,
        background: MarkupColor::Unset,
    };
    let highlighted = Style { underlined: true, ..plain };
    let mut cells: Vec<StyledChar> = Vec::new();
    match row.marker {
        RowMarker::Selected => {
            cells.push(StyledChar { ch: '>', style: Style { foreground: MarkupColor::Cyan, ..plain } });
        },
        RowMarker::MoreAbove => {
            cells.push(StyledChar { ch: '▲', style: plain });
        },
        RowMarker::MoreBelow => {
            cells.push(StyledChar { ch: '▼', style: plain });
        },
        RowMarker::Plain => {
            cells.push(StyledChar { ch: ' ', style: plain });
        },
    }
    cells.push(StyledChar { ch: ' ', style: plain });
    assert(cells@ =~= marker_cells(row.marker));
    let mut i: usize = 0;
    while i < label.len()
        invariant
            i <= label@.len(),
            plain == plain_style(),
            highlighted == highlight_style(),
            cells@ == marker_cells(row.marker) + Seq::new(
                i as nat,
                |k: int| label_cell(label@, row.highlights@, k),
            ),
        decreases label@.len() - i,
    {
        let style = if is_highlight(&row.highlights, i) {
            highlighted
        } else {
            plain
        };
        let ghost before = cells@;
        let next = StyledChar { ch: label[i], style };
        assert(next == label_cell(label@, row.highlights@, i as int));
        cells.push(next);
        assert(before.push(next) =~= marker_cells(row.marker) + Seq::new(
            (i + 1) as nat,
            |k: int| label_cell(label@, row.highlights@, k),
        ));
        i += 1;
    }
    cells
}

} // verus!
