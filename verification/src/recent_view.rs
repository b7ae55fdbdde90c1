use vstd::prelude::*;

use std::collections::HashSet;

use crate::entry::Entry;
use crate::filter::{toggle_filter, toggled, Filter, FilterContext, FilterToggle};
use crate::fuzzy::{
    commands_fit, is_top_matches, lemma_top_matches_unique, search_fuzzy_indices, term_fits, FuzzyMatcher,
    MAX_TERM_CHARS,
};
use crate::keys::{inside, saturating_add_u16, Area, Key, KeyCode, MouseKind};
use crate::rows::{grouped, grouped_rows, lemma_expand_keeps_group_row, lemma_group_rows_unique, row_head, visible_in_range, Row};
use crate::text::{opt_string_view, pop_char, push_char};

verus! {

broadcast use vstd::std_specs::hash::group_hash_axioms;

/// The most search results the history view shows.
pub const TUI_ENTRY_LIMIT: usize = 10000;

/// A command the user confirmed in the editor, for the entry it came from.
#[derive(Debug)]
pub struct EditedCommand {
    pub entry_index: usize,
    pub command: String,
}

/// What the caller has to do after an input event.
#[derive(Debug)]
pub enum ViewOutcome {
    /// Nothing more; redraw.
    Continue,
    /// Leave the view.
    Exit,
    /// Open the command editor on this text.
    OpenEditor(String),
    /// Load the entries matching this filter and hand them to `apply_filter`.
    Refetch(Filter),
    /// Soft-delete the entry with this id, then reload the entries.
    Delete(i64),
    /// Restore the soft-deleted entry with this id, then reload the entries.
    Restore(i64),
}

/// The first row, when there is one.
pub open spec fn first_row(n: nat) -> Option<usize> {
    if n > 0 {
        Some(0)
    } else {
        None
    }
}

/// The selection after moving down: the first row when nothing is selected,
/// otherwise the next row when there is one.
pub open spec fn moved_down(n: nat, selected: Option<usize>) -> Option<usize> {
    match selected {
        None => first_row(n),
        Some(s) => if s + 1 < n {
            Some((s + 1) as usize)
        } else {
            selected
        },
    }
}

/// The selection after moving up: the last row when nothing is selected,
/// otherwise the previous row (clamped to the list).
pub open spec fn moved_up(n: nat, selected: Option<usize>) -> Option<usize> {
    match selected {
        None => if n > 0 {
            Some((n - 1) as usize)
        } else {
            None
        },
        Some(s) => if s == 0 || n == 0 {
            selected
        } else if s - 1 < n {
            Some((s - 1) as usize)
        } else {
            Some((n - 1) as usize)
        },
    }
}

/// The entries visible for a search query: all of them, newest first, for
/// the empty query; otherwise the best fuzzy matches, best first.
pub open spec fn visible_for(entries: Seq<Entry>, query: Seq<char>, visible: Seq<usize>) -> bool {
    if query.len() == 0 {
        visible == Seq::new(entries.len(), |i: int| i as usize)
    } else {
        is_top_matches(entries, query, entries.len() as int, TUI_ENTRY_LIMIT, visible)
    }
}

/// The position of the nearest group row before row `n`, as its entry.
pub open spec fn group_before(rows: Seq<Row>, n: int) -> Option<usize>
    decreases n,
{
    if n <= 0 {
        None
    } else {
        match rows[n - 1] {
            Row::Group { entry_index, .. } => Some(entry_index),
            _ => group_before(rows, n - 1),
        }
    }
}

/// The first row that heads the group of entry `g`, searching from row `k`.
pub open spec fn group_row_from(rows: Seq<Row>, g: usize, k: int) -> Option<usize>
    decreases rows.len() - k,
{
    if k < 0 || k >= rows.len() {
        None
    } else {
        match rows[k] {
            Row::Group { entry_index, .. } => if entry_index == g {
                Some(k as usize)
            } else {
                group_row_from(rows, g, k + 1)
            },
            _ => group_row_from(rows, g, k + 1),
        }
    }
}

/// The group a collapse acts on: the selected group, or the group an
/// occurrence row belongs to.
pub open spec fn collapse_target(rows: Seq<Row>, selected: Option<usize>) -> Option<usize> {
    match selected {
        Some(r) => if r < rows.len() {
            match rows[r as int] {
                Row::Group { entry_index, .. } => Some(entry_index),
                Row::Occurrence(_) => group_before(rows, r as int),
                Row::Entry(_) => None,
            }
        } else {
            None
        },
        None => None,
    }
}

/// What a key press in the list does.
#[derive(Debug, Clone, Copy, PartialEq, Eq, Structural)]
pub enum ListCommand {
    EnterSearch,
    Exit,
    OpenEditor,
    MoveDown,
    MoveUp,
    Expand,
    Collapse,
    Toggle(FilterToggle),
    /// One press of `d`; two in a row delete (or restore) the selected entry.
    DeletePress,
    Nothing,
}

/// What a key press in the list does (see `list_key_command`).
pub open spec fn list_command_of(key: Key) -> ListCommand {
    match key.code {
        KeyCode::Char(c) => if key.plain() {
            if c == '/' {
                ListCommand::EnterSearch
            } else if c == 'j' {
                ListCommand::MoveDown
            } else if c == 'k' {
                ListCommand::MoveUp
            } else if c == 'l' {
                ListCommand::Expand
            } else if c == 'h' {
                ListCommand::Collapse
            } else if c == 'c' {
                ListCommand::Toggle(FilterToggle::Cwd)
            } else if c == 'r' {
                ListCommand::Toggle(FilterToggle::Repo)
            } else if c == 'b' {
                ListCommand::Toggle(FilterToggle::Branch)
            } else if c == 'o' {
                ListCommand::Toggle(FilterToggle::Success)
            } else if c == 'f' {
                ListCommand::Toggle(FilterToggle::Fail)
            } else if c == 'x' {
                ListCommand::Toggle(FilterToggle::Deleted)
            } else if c == 'd' {
                ListCommand::DeletePress
            } else {
                ListCommand::Nothing
            }
        } else if c == 'c' && key.control {
            ListCommand::Exit
        } else {
            ListCommand::Nothing
        },
        KeyCode::Esc => ListCommand::Exit,
        KeyCode::Enter => ListCommand::OpenEditor,
        KeyCode::Down => ListCommand::MoveDown,
        KeyCode::Up => ListCommand::MoveUp,
        KeyCode::Right => ListCommand::Expand,
        KeyCode::Left => ListCommand::Collapse,
        _ => ListCommand::Nothing,
    }
}

/// Maps a key press in the list to its command: `/` searches, Esc and
/// Ctrl+C leave, Enter edits, arrows and `hjkl` move, expand and collapse,
/// `c r b o f x` toggle the directory, repository, branch, success, failure
/// and deleted filters, and `d` (pressed twice) deletes or restores.
pub fn list_key_command(key: &Key) -> (c: ListCommand)
    ensures
        c == list_command_of(*key),
{
    match key.code {
        KeyCode::Char(c) => if key.no_modifiers() {
            if c == '/' {
                ListCommand::EnterSearch
            } else if c == 'j' {
                ListCommand::MoveDown
            } else if c == 'k' {
                ListCommand::MoveUp
            } else if c == 'l' {
                ListCommand::Expand
            } else if c == 'h' {
                ListCommand::Collapse
            } else if c == 'c' {
                ListCommand::Toggle(FilterToggle::Cwd)
            } else if c == 'r' {
                ListCommand::Toggle(FilterToggle::Repo)
            } else if c == 'b' {
                ListCommand::Toggle(FilterToggle::Branch)
            } else if c == 'o' {
                ListCommand::Toggle(FilterToggle::Success)
            } else if c == 'f' {
                ListCommand::Toggle(FilterToggle::Fail)
            } else if c == 'x' {
                ListCommand::Toggle(FilterToggle::Deleted)
            } else if c == 'd' {
                ListCommand::DeletePress
            } else {
                ListCommand::Nothing
            }
        } else if c == 'c' && key.control {
            ListCommand::Exit
        } else {
            ListCommand::Nothing
        },
        KeyCode::Esc => ListCommand::Exit,
        KeyCode::Enter => ListCommand::OpenEditor,
        KeyCode::Down => ListCommand::MoveDown,
        KeyCode::Up => ListCommand::MoveUp,
        KeyCode::Right => ListCommand::Expand,
        KeyCode::Left => ListCommand::Collapse,
        _ => ListCommand::Nothing,
    }
}

/// What a key press in search mode does.
#[derive(Debug, Clone, Copy, PartialEq, Eq, Structural)]
pub enum SearchCommand {
    Cancel,
    OpenEditor,
    MoveDown,
    MoveUp,
    Expand,
    Collapse,
    DeleteChar,
    Exit,
    Type(char),
    Nothing,
}

/// What a key press in search mode does (see `search_key_command`).
pub open spec fn search_command_of(key: Key) -> SearchCommand {
    match key.code {
        KeyCode::Esc => SearchCommand::Cancel,
        KeyCode::Enter => SearchCommand::OpenEditor,
        KeyCode::Down => SearchCommand::MoveDown,
        KeyCode::Up => SearchCommand::MoveUp,
        KeyCode::Right => SearchCommand::Expand,
        KeyCode::Left => SearchCommand::Collapse,
        KeyCode::Backspace => SearchCommand::DeleteChar,
        KeyCode::Char(c) => if c == 'c' && key.control {
            SearchCommand::Exit
        } else if key.text_input() {
            SearchCommand::Type(c)
        } else {
            SearchCommand::Nothing
        },
        _ => SearchCommand::Nothing,
    }
}

/// Maps a key press in search mode: Esc leaves search mode, Enter edits,
/// arrows move, expand and collapse, Backspace deletes, Ctrl+C leaves the
/// view, and other characters typed without Control or Alt extend the query.
pub fn search_key_command(key: &Key) -> (c: SearchCommand)
    ensures
        c == search_command_of(*key),
{
    match key.code {
        KeyCode::Esc => SearchCommand::Cancel,
        KeyCode::Enter => SearchCommand::OpenEditor,
        KeyCode::Down => SearchCommand::MoveDown,
        KeyCode::Up => SearchCommand::MoveUp,
        KeyCode::Right => SearchCommand::Expand,
        KeyCode::Left => SearchCommand::Collapse,
        KeyCode::Backspace => SearchCommand::DeleteChar,
        KeyCode::Char(c) => if c == 'c' && key.control {
            SearchCommand::Exit
        } else if !key.control && !key.alt {
            SearchCommand::Type(c)
        } else {
            SearchCommand::Nothing
        },
        _ => SearchCommand::Nothing,
    }
}

/// A filter as plain values: equal views mean equal filters.
pub open spec fn filter_view(f: Filter) -> (
    Option<Seq<char>>,
    Option<Seq<char>>,
    Option<Seq<char>>,
    Option<Seq<char>>,
    bool,
    bool,
    bool,
    Option<usize>,
) {
    (
        opt_string_view(f.cwd),
        opt_string_view(f.project_cwd),
        opt_string_view(f.git_repo),
        opt_string_view(f.git_branch),
        f.only_success,
        f.only_failure,
        f.only_deleted,
        f.limit,
    )
}

/// Whether two filters are equal.
pub fn same_filter(a: &Filter, b: &Filter) -> (r: bool)
    ensures
        r == (filter_view(*a) == filter_view(*b)),
{
    same_opt(&a.cwd, &b.cwd) && same_opt(&a.project_cwd, &b.project_cwd) && same_opt(
        &a.git_repo,
        &b.git_repo,
    ) && same_opt(&a.git_branch, &b.git_branch) && a.only_success == b.only_success
        && a.only_failure == b.only_failure && a.only_deleted == b.only_deleted && a.limit
        == b.limit
}

/// Whether two optional strings are equal.
pub fn same_opt(a: &Option<String>, b: &Option<String>) -> (r: bool)
    ensures
        r == (opt_string_view(*a) == opt_string_view(*b)),
{
    match (a, b) {
        (Some(x), Some(y)) => *x == *y,
        (None, None) => true,
        _ => false,
    }
}

/// The entry of the selected row, when a row is selected.
pub open spec fn selected_index_of(rows: Seq<Row>, selected: Option<usize>) -> Option<usize> {
    match selected {
        Some(r) => if r < rows.len() {
            Some(row_head(rows[r as int]))
        } else {
            None
        },
        None => None,
    }
}

/// The state of the recent-history view: the loaded entries, which of them
/// are visible for the search query, the rows they are grouped into, which
/// groups are expanded, the active filter, the selection and the editor.
pub struct RecentView {
    pub entries: Vec<Entry>,
    pub visible_entries: Vec<usize>,
    pub rows: Vec<Row>,
    pub expanded_groups: HashSet<usize>,
    pub context: FilterContext,
    pub filter: Filter,
    pub selected: Option<usize>,
    pub command_to_run: Option<EditedCommand>,
    pub editing: bool,
    pub search_mode: bool,
    pub search_query: String,
    /// `d` was pressed once; a second press deletes or restores.
    pub delete_pending: bool,
    pub matcher: FuzzyMatcher,
}

/// The loaded data, visible entries and rows are the same.
pub open spec fn same_data(a: RecentView, b: RecentView) -> bool {
    &&& a.entries@ == b.entries@
    &&& a.visible_entries@ == b.visible_entries@
    &&& a.rows@ == b.rows@
    &&& a.expanded_groups@ == b.expanded_groups@
    &&& a.context == b.context
    &&& a.filter == b.filter
}

/// The editor, search mode and confirmed command are the same.
pub open spec fn same_modes(a: RecentView, b: RecentView) -> bool {
    &&& a.command_to_run == b.command_to_run
    &&& a.editing == b.editing
    &&& a.search_mode == b.search_mode
    &&& a.search_query@ == b.search_query@
    &&& a.delete_pending == b.delete_pending
}

/// Nothing observable changed.
pub open spec fn unchanged(a: RecentView, b: RecentView) -> bool {
    same_data(a, b) && same_modes(a, b) && a.selected == b.selected
}

/// `b` has the entries, groups, filter and editor state of `a`, with the
/// visible entries and rows recomputed for its own query and the first row
/// selected.
pub open spec fn refreshed(a: RecentView, b: RecentView) -> bool {
    &&& b.wf()
    &&& b.entries@ == a.entries@
    &&& b.expanded_groups@ == a.expanded_groups@
    &&& b.context == a.context
    &&& b.filter == a.filter
    &&& b.command_to_run == a.command_to_run
    &&& b.editing == a.editing
    &&& b.delete_pending == a.delete_pending
    &&& b.selected == first_row(b.rows@.len())
}

/// `b` is `a` with the visible entries and rows recomputed for its entries,
/// query and expanded groups, and the first row selected.
pub open spec fn refiltered(a: RecentView, b: RecentView) -> bool {
    &&& refreshed(a, b)
    &&& b.search_mode == a.search_mode
    &&& b.search_query@ == a.search_query@
}

/// Only the selection changed, to `selected`.
pub open spec fn selection_set(a: RecentView, b: RecentView, selected: Option<usize>) -> bool {
    same_data(a, b) && same_modes(a, b) && b.selected == selected
}

/// Search mode was entered and the view refreshed.
pub open spec fn search_entered(a: RecentView, b: RecentView) -> bool {
    refreshed(a, b) && b.search_mode && b.search_query@ == a.search_query@
}

/// Search mode was left, the query cleared and the view refreshed.
pub open spec fn search_cancelled(a: RecentView, b: RecentView) -> bool {
    refreshed(a, b) && !b.search_mode && b.search_query@.len() == 0
}

/// A character was added to the query and the view refreshed.
pub open spec fn char_typed(a: RecentView, b: RecentView, c: char) -> bool {
    refreshed(a, b) && b.search_mode == a.search_mode && b.search_query@ == a.search_query@.push(c)
}

/// The last query character was removed and the view refreshed; nothing
/// happens on an empty query.
pub open spec fn char_deleted(a: RecentView, b: RecentView) -> bool {
    if a.search_query@.len() > 0 {
        refreshed(a, b) && b.search_mode == a.search_mode && b.search_query@
            == a.search_query@.drop_last()
    } else {
        unchanged(a, b)
    }
}

/// The editor was opened on the selected entry's command, which the outcome
/// carries; without a selected entry nothing happens.
pub open spec fn editor_opened(a: RecentView, b: RecentView, outcome: ViewOutcome) -> bool {
    &&& same_data(a, b)
    &&& b.selected == a.selected
    &&& b.search_mode == a.search_mode
    &&& b.search_query@ == a.search_query@
    &&& b.command_to_run == a.command_to_run
    &&& b.delete_pending == a.delete_pending
    &&& match selected_index_of(a.rows@, a.selected) {
        Some(i) => if i < a.entries@.len() {
            outcome == ViewOutcome::OpenEditor(a.entries@[i as int].command) && b.editing
        } else {
            outcome == ViewOutcome::Continue && b.editing == a.editing
        },
        None => outcome == ViewOutcome::Continue && b.editing == a.editing,
    }
}

/// The effect of expanding the selected row: a collapsed group opens and
/// stays selected; anything else leaves the view unchanged.
pub open spec fn expanded(a: RecentView, b: RecentView) -> bool {
    match a.selected {
        Some(r) => if r < a.rows@.len() && (a.rows@[r as int] matches Row::Group { entry_index, .. }
            && !a.expanded_groups@.contains(entry_index)) {
            let g = row_head(a.rows@[r as int]);
            &&& b.expanded_groups@ == a.expanded_groups@.insert(g)
            &&& b.rows@ == grouped(a.entries@, a.visible_entries@, b.expanded_groups@)
            &&& b.selected == a.selected
            &&& b.entries@ == a.entries@
            &&& b.visible_entries@ == a.visible_entries@
            &&& b.context == a.context
            &&& b.filter == a.filter
            &&& same_modes(a, b)
        } else {
            unchanged(a, b)
        },
        None => unchanged(a, b),
    }
}

/// The effect of collapsing: the targeted expanded group closes and its
/// group row is selected; anything else leaves the view unchanged.
pub open spec fn collapsed(a: RecentView, b: RecentView) -> bool {
    match collapse_target(a.rows@, a.selected) {
        Some(g) => if a.expanded_groups@.contains(g) {
            &&& b.expanded_groups@ == a.expanded_groups@.remove(g)
            &&& b.rows@ == grouped(a.entries@, a.visible_entries@, b.expanded_groups@)
            &&& b.selected == match group_row_from(b.rows@, g, 0) {
                Some(k) => Some(k),
                None => a.selected,
            }
            &&& b.entries@ == a.entries@
            &&& b.visible_entries@ == a.visible_entries@
            &&& b.context == a.context
            &&& b.filter == a.filter
            &&& same_modes(a, b)
        } else {
            unchanged(a, b)
        },
        None => unchanged(a, b),
    }
}

/// The view with a pending `d` forgotten.
pub open spec fn disarmed(a: RecentView) -> RecentView {
    RecentView { delete_pending: false, ..a }
}

/// The effect of pressing `d`: the first press arms deletion; the second
/// asks the caller to delete the selected entry (or to restore it when the
/// deleted entries are shown) and disarms.
pub open spec fn delete_pressed(a: RecentView, b: RecentView, outcome: ViewOutcome) -> bool {
    if !a.delete_pending {
        &&& same_data(a, b)
        &&& b.selected == a.selected
        &&& b.command_to_run == a.command_to_run
        &&& b.editing == a.editing
        &&& b.search_mode == a.search_mode
        &&& b.search_query@ == a.search_query@
        &&& b.delete_pending
        &&& outcome == ViewOutcome::Continue
    } else {
        &&& unchanged(disarmed(a), b)
        &&& outcome == match selected_index_of(a.rows@, a.selected) {
            Some(i) => if i < a.entries@.len() {
                if a.filter.only_deleted {
                    ViewOutcome::Restore(a.entries@[i as int].id)
                } else {
                    ViewOutcome::Delete(a.entries@[i as int].id)
                }
            } else {
                ViewOutcome::Continue
            },
            None => ViewOutcome::Continue,
        }
    }
}

/// The first group row headed by `g`, searching from row `k`, is row `r`
/// when that is the only one.
pub proof fn lemma_only_group_row_found(rows: Seq<Row>, g: usize, r: int, k: int)
    requires
        0 <= k <= r < rows.len(),
        rows[r] matches Row::Group { entry_index, .. } && entry_index == g,
        forall|j: int| 0 <= j < rows.len() && j != r ==> !((#[trigger] rows[j]) matches Row::Group { entry_index, .. } && entry_index == g),
    ensures
        group_row_from(rows, g, k) == Some(r as usize),
    decreases r - k,
{
    if k < r {
        lemma_only_group_row_found(rows, g, r, k + 1);
    }
}

/// Expanding the selected collapsed group and collapsing it again gives
/// back the same rows and expanded groups, with the group row selected.
pub proof fn lemma_collapse_undoes_expand(a: RecentView, b: RecentView, c: RecentView)
    requires
        a.wf(),
        expanded(a, b),
        collapsed(b, c),
        a.selected matches Some(r) && r < a.rows@.len() && (a.rows@[r as int] matches Row::Group {
            entry_index,
            ..
        } && !a.expanded_groups@.contains(entry_index)),
    ensures
        c.rows@ == a.rows@,
        c.expanded_groups@ == a.expanded_groups@,
        c.selected == a.selected,
{
    let r = a.selected.unwrap() as int;
    let g = row_head(a.rows@[r]);
    lemma_expand_keeps_group_row(a.entries@, a.visible_entries@, a.expanded_groups@, r);
    assert(b.rows@[r] is Group && row_head(b.rows@[r]) == g);
    assert(collapse_target(b.rows@, b.selected) == Some(g));
    assert(b.expanded_groups@.remove(g) =~= a.expanded_groups@);
    assert(c.rows@ == a.rows@);
    assert forall|j: int| 0 <= j < a.rows@.len() && j != r implies !((#[trigger] a.rows@[j]) matches Row::Group {
        entry_index,
        ..
    } && entry_index == g) by {
        if a.rows@[j] is Group && row_head(a.rows@[j]) == g {
            lemma_group_rows_unique(a.entries@, a.visible_entries@, a.expanded_groups@, j, r);
        }
    }
    lemma_only_group_row_found(a.rows@, g, r, 0);
}

/// The visible entries are determined by the entries and the query.
pub proof fn lemma_visible_determined(entries: Seq<Entry>, query: Seq<char>, v1: Seq<usize>, v2: Seq<usize>)
    requires
        visible_for(entries, query, v1),
        visible_for(entries, query, v2),
    ensures
        v1 == v2,
{
    if query.len() > 0 {
        lemma_top_matches_unique(entries, query, entries.len() as int, TUI_ENTRY_LIMIT, v1, v2);
    }
}

/// Typing a search character and deleting it again gives back the same
/// query, visible entries and rows.
pub proof fn lemma_delete_undoes_typing(a: RecentView, b: RecentView, c: RecentView, ch: char)
    requires
        a.wf(),
        char_typed(a, b, ch),
        char_deleted(b, c),
    ensures
        c.search_query@ == a.search_query@,
        c.search_mode == a.search_mode,
        c.visible_entries@ == a.visible_entries@,
        c.rows@ == a.rows@,
{
    assert(b.search_query@.len() > 0);
    assert(c.search_query@ =~= a.search_query@);
    lemma_visible_determined(a.entries@, a.search_query@, a.visible_entries@, c.visible_entries@);
}

impl RecentView {
    /// The visible entries and rows agree with the entries, query and
    /// expanded groups.
    pub open spec fn wf(self) -> bool {
        &&& commands_fit(self.entries@)
        &&& term_fits(self.search_query@)
        &&& visible_in_range(self.entries@, self.visible_entries@)
        &&& visible_for(self.entries@, self.search_query@, self.visible_entries@)
        &&& self.rows@ == grouped(self.entries@, self.visible_entries@, self.expanded_groups@)
    }

    /// Opens the view on loaded entries; an initial query (even an empty one)
    /// starts it in search mode.
    pub fn new(entries: Vec<Entry>, context: FilterContext, filter: Filter, initial_query: Option<String>) -> (v: Self)
        requires
            commands_fit(entries@),
            initial_query matches Some(q) ==> term_fits(q@),
        ensures
            v.wf(),
            v.entries@ == entries@,
            v.context == context,
            v.filter == filter,
            v.expanded_groups@ == Set::<usize>::empty(),
            v.search_mode == initial_query.is_some(),
            v.search_query@ == match initial_query {
                Some(q) => q@,
                None => Seq::<char>::empty(),
            },
            v.selected == first_row(v.rows@.len()),
            v.command_to_run.is_none(),
            !v.editing,
            !v.delete_pending,
    {
        let search_mode = initial_query.is_some();
        let search_query = match initial_query {
            Some(q) => q,
            None => String::new(),
        };
        let mut v = RecentView {
            entries,
            visible_entries: Vec::new(),
            rows: Vec::new(),
            expanded_groups: HashSet::new(),
            context,
            filter,
            selected: None,
            command_to_run: None,
            editing: false,
            search_mode,
            search_query,
            delete_pending: false,
            matcher: FuzzyMatcher::new(),
        };
        v.refilter();
        v
    }

    /// Whether the command editor is open.
    pub fn is_editing(&self) -> (r: bool)
        ensures
            r == self.editing,
    {
        self.editing
    }

    /// Recomputes the visible entries and rows and selects the first row.
    pub fn refilter(&mut self)
        requires
            commands_fit(old(self).entries@),
            term_fits(old(self).search_query@),
        ensures
            refiltered(*old(self), *final(self)),
    {
        if self.search_query.unicode_len() == 0 {
            let mut visible: Vec<usize> = Vec::new();
            let mut i: usize = 0;
            while i < self.entries.len()
                invariant
                    i <= self.entries@.len(),
                    visible@ == Seq::new(i as nat, |k: int| k as usize),
                decreases self.entries@.len() - i,
            {
                visible.push(i);
                i = i + 1;
                assert(visible@ =~= Seq::new(i as nat, |k: int| k as usize));
            }
            self.visible_entries = visible;
        } else {
            self.visible_entries = search_fuzzy_indices(
                &mut self.matcher,
                self.entries.as_slice(),
                self.search_query.as_str(),
                TUI_ENTRY_LIMIT,
            );
        }
        self.rows = grouped_rows(self.entries.as_slice(), self.visible_entries.as_slice(), &self.expanded_groups);
        self.select_first_entry();
    }

    /// The entry of the selected row.
    pub fn selected_entry_index(&self) -> (r: Option<usize>)
        ensures
            r == selected_index_of(self.rows@, self.selected),
    {
        match self.selected {
            Some(row_index) => if row_index < self.rows.len() {
                match self.rows[row_index] {
                    Row::Entry(i) => Some(i),
                    Row::Occurrence(i) => Some(i),
                    Row::Group { entry_index, .. } => Some(entry_index),
                }
            } else {
                None
            },
            None => None,
        }
    }

    /// The entry of the selected row, when it exists.
    pub fn selected_entry(&self) -> (r: Option<&Entry>)
        ensures
            match selected_index_of(self.rows@, self.selected) {
                Some(i) => if i < self.entries@.len() {
                    r == Some(&self.entries@[i as int])
                } else {
                    r.is_none()
                },
                None => r.is_none(),
            },
    {
        match self.selected_entry_index() {
            Some(i) => if i < self.entries.len() {
                Some(&self.entries[i])
            } else {
                None
            },
            None => None,
        }
    }

    /// Selects the first row, if any.
    pub fn select_first_entry(&mut self)
        ensures
            same_data(*old(self), *final(self)),
            same_modes(*old(self), *final(self)),
            final(self).selected == first_row(old(self).rows@.len()),
    {
        if self.rows.len() > 0 {
            self.selected = Some(0);
        } else {
            self.selected = None;
        }
    }

    /// Selects nothing.
    pub fn clear_selection(&mut self)
        ensures
            same_data(*old(self), *final(self)),
            same_modes(*old(self), *final(self)),
            final(self).selected.is_none(),
    {
        self.selected = None;
    }

    /// Selects the next row (see `moved_down`).
    pub fn move_down(&mut self)
        ensures
            same_data(*old(self), *final(self)),
            same_modes(*old(self), *final(self)),
            final(self).selected == moved_down(old(self).rows@.len(), old(self).selected),
    {
        match self.selected {
            None => self.select_first_entry(),
            Some(s) => {
                let n = self.rows.len();
                if s < usize::MAX && s + 1 < n {
                    self.selected = Some(s + 1);
                } else {
                    assert(!(s + 1 < old(self).rows@.len()));
                }
            },
        }
    }

    /// Selects the previous row (see `moved_up`).
    pub fn move_up(&mut self)
        ensures
            same_data(*old(self), *final(self)),
            same_modes(*old(self), *final(self)),
            final(self).selected == moved_up(old(self).rows@.len(), old(self).selected),
    {
        let n = self.rows.len();
        match self.selected {
            None => {
                if n > 0 {
                    self.selected = Some(n - 1);
                }
            },
            Some(s) => {
                if s != 0 && n != 0 {
                    if s - 1 < n {
                        self.selected = Some(s - 1);
                    } else {
                        self.selected = Some(n - 1);
                    }
                }
            },
        }
    }

    /// Selects the row under a left click inside the list area, given the
    /// list's scroll offset; returns whether a row was selected.
    pub fn select_clicked_entry(&mut self, kind: MouseKind, column: u16, row: u16, area: Area, offset: usize) -> (r: bool)
        ensures
            same_data(*old(self), *final(self)),
            same_modes(*old(self), *final(self)),
            r == (kind == MouseKind::LeftDown && inside(area, column, row) && (if offset + (row - area.y) > usize::MAX {
                usize::MAX as int
            } else {
                offset + (row - area.y)
            }) < old(self).rows@.len()),
            r ==> final(self).selected == Some(
                (if offset + (row - area.y) > usize::MAX {
                    usize::MAX as int
                } else {
                    offset + (row - area.y)
                }) as usize,
            ),
            !r ==> final(self).selected == old(self).selected,
    {
        if kind != MouseKind::LeftDown {
            return false;
        }
        let left = area.x;
        let right = saturating_add_u16(area.x, area.width);
        let top = area.y;
        let bottom = saturating_add_u16(area.y, area.height);
        if column < left || column >= right || row < top || row >= bottom {
            return false;
        }
        let visible_offset = (row - top) as usize;
        let row_index = if offset > usize::MAX - visible_offset {
            usize::MAX
        } else {
            offset + visible_offset
        };
        if row_index < self.rows.len() {
            self.selected = Some(row_index);
            return true;
        }
        false
    }

    /// Opens the editor on the selected entry's command, if an entry is
    /// selected, and returns that command.
    pub fn open_editor_for_selected_entry(&mut self) -> (r: Option<String>)
        ensures
            same_data(*old(self), *final(self)),
            final(self).selected == old(self).selected,
            final(self).search_mode == old(self).search_mode,
            final(self).search_query@ == old(self).search_query@,
            final(self).command_to_run == old(self).command_to_run,
            final(self).delete_pending == old(self).delete_pending,
            match selected_index_of(old(self).rows@, old(self).selected) {
                Some(i) => if i < old(self).entries@.len() {
                    r == Some(old(self).entries@[i as int].command) && final(self).editing
                } else {
                    r.is_none() && final(self).editing == old(self).editing
                },
                None => r.is_none() && final(self).editing == old(self).editing,
            },
    {
        let command = match self.selected_entry() {
            Some(entry) => entry.command.clone(),
            None => {
                return None;
            },
        };
        self.editing = true;
        Some(command)
    }

    /// Closes the editor without changing the command.
    pub fn cancel_edit(&mut self)
        ensures
            same_data(*old(self), *final(self)),
            final(self).selected == old(self).selected,
            final(self).command_to_run == old(self).command_to_run,
            final(self).search_mode == old(self).search_mode,
            final(self).search_query@ == old(self).search_query@,
            !final(self).editing,
    {
        self.editing = false;
    }

    /// Accepts the edited command text for the selected entry; returns
    /// whether the view should close and run it.
    pub fn confirm_edit(&mut self, text: String) -> (r: bool)
        ensures
            same_data(*old(self), *final(self)),
            final(self).selected == old(self).selected,
            final(self).search_mode == old(self).search_mode,
            final(self).search_query@ == old(self).search_query@,
            match selected_index_of(old(self).rows@, old(self).selected) {
                None => !r && !final(self).editing && final(self).command_to_run == old(self).command_to_run,
                Some(i) => if old(self).editing {
                    &&& r
                    &&& !final(self).editing
                    &&& final(self).command_to_run == Some(EditedCommand { entry_index: i, command: text })
                } else {
                    !r && !final(self).editing && final(self).command_to_run == old(self).command_to_run
                },
            },
    {
        let entry_index = match self.selected_entry_index() {
            Some(i) => i,
            None => {
                self.editing = false;
                return false;
            },
        };
        if !self.editing {
            return false;
        }
        self.editing = false;
        self.command_to_run = Some(EditedCommand { entry_index, command: text });
        true
    }

    /// The filter after a toggle, when the toggle changes the filter.
    pub fn toggle_filter(&self, toggle: FilterToggle) -> (r: Option<Filter>)
        ensures
            filter_view(toggled(self.filter, toggle, self.context)) == filter_view(self.filter)
                ==> r.is_none(),
            filter_view(toggled(self.filter, toggle, self.context)) != filter_view(self.filter)
                ==> r == Some(toggled(self.filter, toggle, self.context)),
    {
        let mut filter = self.filter.duplicate();
        toggle_filter(&mut filter, toggle, &self.context);
        if same_filter(&filter, &self.filter) {
            None
        } else {
            Some(filter)
        }
    }

    /// Installs a new filter with the entries loaded for it: groups collapse
    /// and the view is recomputed.
    pub fn apply_filter(&mut self, filter: Filter, entries: Vec<Entry>)
        requires
            commands_fit(entries@),
            term_fits(old(self).search_query@),
        ensures
            final(self).wf(),
            final(self).entries@ == entries@,
            final(self).filter == filter,
            final(self).context == old(self).context,
            final(self).expanded_groups@ == Set::<usize>::empty(),
            same_modes(*old(self), *final(self)),
            final(self).selected == first_row(final(self).rows@.len()),
    {
        self.entries = entries;
        self.filter = filter;
        self.expanded_groups.clear();
        self.refilter();
    }

    /// Enters search mode, keeping the query.
    pub fn enter_search_mode(&mut self)
        requires
            commands_fit(old(self).entries@),
            term_fits(old(self).search_query@),
        ensures
            search_entered(*old(self), *final(self)),
    {
        self.search_mode = true;
        self.refilter();
    }

    /// Leaves search mode and clears the query.
    pub fn cancel_search_mode(&mut self)
        requires
            commands_fit(old(self).entries@),
        ensures
            search_cancelled(*old(self), *final(self)),
    {
        self.search_mode = false;
        self.search_query = String::new();
        self.refilter();
    }

    /// Adds a character to the query.
    pub fn push_search_char(&mut self, c: char)
        requires
            commands_fit(old(self).entries@),
            old(self).search_query@.len() < MAX_TERM_CHARS,
        ensures
            char_typed(*old(self), *final(self), c),
    {
        push_char(&mut self.search_query, c);
        self.refilter();
    }

    /// Removes the last character of the query.
    pub fn pop_search_char(&mut self)
        requires
            commands_fit(old(self).entries@),
            term_fits(old(self).search_query@),
        ensures
            char_deleted(*old(self), *final(self)),
    {
        let popped = pop_char(&mut self.search_query);
        if popped.is_some() {
            self.refilter();
        }
    }

    fn open_editor(&mut self) -> (outcome: ViewOutcome)
        ensures
            editor_opened(*old(self), *final(self), outcome),
    {
        match self.open_editor_for_selected_entry() {
            Some(command) => ViewOutcome::OpenEditor(command),
            None => ViewOutcome::Continue,
        }
    }

    /// Handles a key press in search mode (see `search_command_of`).
    pub fn handle_search_key(&mut self, key: &Key) -> (outcome: ViewOutcome)
        requires
            old(self).wf(),
            search_command_of(*key) is Type ==> old(self).search_query@.len() < MAX_TERM_CHARS,
        ensures
            final(self).wf(),
            match search_command_of(*key) {
                SearchCommand::Cancel => search_cancelled(*old(self), *final(self)) && outcome == ViewOutcome::Continue,
                SearchCommand::OpenEditor => editor_opened(*old(self), *final(self), outcome),
                SearchCommand::MoveDown => selection_set(*old(self), *final(self), moved_down(old(self).rows@.len(), old(self).selected))
                    && outcome == ViewOutcome::Continue,
                SearchCommand::MoveUp => selection_set(*old(self), *final(self), moved_up(old(self).rows@.len(), old(self).selected))
                    && outcome == ViewOutcome::Continue,
                SearchCommand::Expand => expanded(*old(self), *final(self)) && outcome == ViewOutcome::Continue,
                SearchCommand::Collapse => collapsed(*old(self), *final(self)) && outcome == ViewOutcome::Continue,
                SearchCommand::DeleteChar => char_deleted(*old(self), *final(self)) && outcome == ViewOutcome::Continue,
                SearchCommand::Exit => selection_set(*old(self), *final(self), None) && outcome == ViewOutcome::Exit,
                SearchCommand::Type(c) => char_typed(*old(self), *final(self), c) && outcome == ViewOutcome::Continue,
                SearchCommand::Nothing => unchanged(*old(self), *final(self)) && outcome == ViewOutcome::Continue,
            },
    {
        match search_key_command(key) {
            SearchCommand::Cancel => {
                self.cancel_search_mode();
                ViewOutcome::Continue
            },
            SearchCommand::OpenEditor => self.open_editor(),
            SearchCommand::MoveDown => {
                self.move_down();
                ViewOutcome::Continue
            },
            SearchCommand::MoveUp => {
                self.move_up();
                ViewOutcome::Continue
            },
            SearchCommand::Expand => {
                self.expand_selected_group();
                ViewOutcome::Continue
            },
            SearchCommand::Collapse => {
                self.collapse_selected_group();
                ViewOutcome::Continue
            },
            SearchCommand::DeleteChar => {
                self.pop_search_char();
                ViewOutcome::Continue
            },
            SearchCommand::Exit => {
                self.clear_selection();
                ViewOutcome::Exit
            },
            SearchCommand::Type(c) => {
                self.push_search_char(c);
                ViewOutcome::Continue
            },
            SearchCommand::Nothing => ViewOutcome::Continue,
        }
    }

    /// Handles the `d` key: the first press arms deletion, the second asks
    /// for the selected entry to be deleted (or restored).
    fn press_delete(&mut self) -> (outcome: ViewOutcome)
        requires
            old(self).wf(),
        ensures
            final(self).wf(),
            delete_pressed(*old(self), *final(self), outcome),
    {
        if !self.delete_pending {
            self.delete_pending = true;
            return ViewOutcome::Continue;
        }
        self.delete_pending = false;
        match self.selected_entry_index() {
            Some(i) => {
                if i < self.entries.len() {
                    let id = self.entries[i].id;
                    if self.filter.only_deleted {
                        ViewOutcome::Restore(id)
                    } else {
                        ViewOutcome::Delete(id)
                    }
                } else {
                    ViewOutcome::Continue
                }
            },
            None => ViewOutcome::Continue,
        }
    }

    /// Handles a key press in the list (see `list_command_of`); a filter
    /// toggle that changes the filter asks the caller to load its entries.
    /// Any key but `d` forgets a pending `d`.
    pub fn handle_list_key(&mut self, key: &Key) -> (outcome: ViewOutcome)
        requires
            old(self).wf(),
        ensures
            final(self).wf(),
            match list_command_of(*key) {
                ListCommand::DeletePress => delete_pressed(*old(self), *final(self), outcome),
                ListCommand::EnterSearch => search_entered(disarmed(*old(self)), *final(self)) && outcome == ViewOutcome::Continue,
                ListCommand::Exit => selection_set(disarmed(*old(self)), *final(self), None) && outcome == ViewOutcome::Exit,
                ListCommand::OpenEditor => editor_opened(disarmed(*old(self)), *final(self), outcome),
                ListCommand::MoveDown => selection_set(disarmed(*old(self)), *final(self), moved_down(old(self).rows@.len(), old(self).selected))
                    && outcome == ViewOutcome::Continue,
                ListCommand::MoveUp => selection_set(disarmed(*old(self)), *final(self), moved_up(old(self).rows@.len(), old(self).selected))
                    && outcome == ViewOutcome::Continue,
                ListCommand::Expand => expanded(disarmed(*old(self)), *final(self)) && outcome == ViewOutcome::Continue,
                ListCommand::Collapse => collapsed(disarmed(*old(self)), *final(self)) && outcome == ViewOutcome::Continue,
                ListCommand::Toggle(t) => {
                    &&& unchanged(disarmed(*old(self)), *final(self))
                    &&& if filter_view(toggled(old(self).filter, t, old(self).context)) == filter_view(old(self).filter) {
                        outcome == ViewOutcome::Continue
                    } else {
                        outcome == ViewOutcome::Refetch(toggled(old(self).filter, t, old(self).context))
                    }
                },
                ListCommand::Nothing => unchanged(disarmed(*old(self)), *final(self)) && outcome == ViewOutcome::Continue,
            },
    {
        let command = list_key_command(key);
        if command == ListCommand::DeletePress {
            return self.press_delete();
        }
        self.delete_pending = false;
        match command {
            ListCommand::EnterSearch => {
                self.enter_search_mode();
                ViewOutcome::Continue
            },
            ListCommand::Exit => {
                self.clear_selection();
                ViewOutcome::Exit
            },
            ListCommand::OpenEditor => self.open_editor(),
            ListCommand::MoveDown => {
                self.move_down();
                ViewOutcome::Continue
            },
            ListCommand::MoveUp => {
                self.move_up();
                ViewOutcome::Continue
            },
            ListCommand::Expand => {
                self.expand_selected_group();
                ViewOutcome::Continue
            },
            ListCommand::Collapse => {
                self.collapse_selected_group();
                ViewOutcome::Continue
            },
            ListCommand::Toggle(t) => match self.toggle_filter(t) {
                Some(filter) => ViewOutcome::Refetch(filter),
                None => ViewOutcome::Continue,
            },
            ListCommand::DeletePress => ViewOutcome::Continue,
            ListCommand::Nothing => ViewOutcome::Continue,
        }
    }

    /// Handles a mouse event outside the editor: scrolling moves the
    /// selection, and a left click on a row selects it and opens the editor.
    pub fn handle_mouse(&mut self, kind: MouseKind, column: u16, row: u16, area: Area, offset: usize) -> (outcome: ViewOutcome)
        requires
            old(self).wf(),
        ensures
            final(self).wf(),
            old(self).editing ==> unchanged(*old(self), *final(self)) && outcome == ViewOutcome::Continue,
            !old(self).editing && kind == MouseKind::ScrollDown ==> selection_set(*old(self), *final(self), moved_down(old(self).rows@.len(), old(self).selected))
                && outcome == ViewOutcome::Continue,
            !old(self).editing && kind == MouseKind::ScrollUp ==> selection_set(*old(self), *final(self), moved_up(old(self).rows@.len(), old(self).selected))
                && outcome == ViewOutcome::Continue,
            !old(self).editing && kind == MouseKind::Other ==> unchanged(*old(self), *final(self)) && outcome == ViewOutcome::Continue,
            !old(self).editing && kind == MouseKind::LeftDown ==> same_data(*old(self), *final(self))
                && final(self).search_mode == old(self).search_mode
                && final(self).search_query@ == old(self).search_query@
                && final(self).command_to_run == old(self).command_to_run,
    {
        if self.editing {
            return ViewOutcome::Continue;
        }
        match kind {
            MouseKind::ScrollDown => {
                self.move_down();
                ViewOutcome::Continue
            },
            MouseKind::ScrollUp => {
                self.move_up();
                ViewOutcome::Continue
            },
            MouseKind::LeftDown => {
                if self.select_clicked_entry(kind, column, row, area, offset) {
                    self.open_editor()
                } else {
                    ViewOutcome::Continue
                }
            },
            MouseKind::Other => ViewOutcome::Continue,
        }
    }

    /// The confirmed entry with its command replaced by the edited text.
    pub fn finished_entry(&self) -> (r: Option<Entry>)
        ensures
            match self.command_to_run {
                Some(edited) => if edited.entry_index < self.entries@.len() {
                    r == Some(Entry { command: edited.command, ..self.entries@[edited.entry_index as int] })
                } else {
                    r.is_none()
                },
                None => r.is_none(),
            },
    {
        match &self.command_to_run {
            Some(edited) => if edited.entry_index < self.entries.len() {
                Some(self.entries[edited.entry_index].with_command(edited.command.clone()))
            } else {
                None
            },
            None => None,
        }
    }

    /// Expands the selected group (see `expanded`).
    pub fn expand_selected_group(&mut self)
        requires
            old(self).wf(),
        ensures
            expanded(*old(self), *final(self)),
            final(self).wf(),
    {
        let row_index = match self.selected {
            Some(r) => r,
            None => {
                return;
            },
        };
        if row_index >= self.rows.len() {
            return;
        }
        let entry_index = match self.rows[row_index] {
            Row::Group { entry_index, .. } => entry_index,
            _ => {
                return;
            },
        };
        let ghost before = *old(self);
        let newly = self.expanded_groups.insert(entry_index);
        assert(self.expanded_groups@ == before.expanded_groups@.insert(entry_index));
        assert(newly == !before.expanded_groups@.contains(entry_index));
        if newly {
            self.rows = grouped_rows(self.entries.as_slice(), self.visible_entries.as_slice(), &self.expanded_groups);
            self.selected = Some(row_index);
        } else {
            assert(self.expanded_groups@ =~= before.expanded_groups@);
        }
    }

    /// Collapses the selected group, or the group of the selected occurrence
    /// (see `collapsed`).
    pub fn collapse_selected_group(&mut self)
        requires
            old(self).wf(),
        ensures
            collapsed(*old(self), *final(self)),
            final(self).wf(),
    {
        let row_index = match self.selected {
            Some(r) => r,
            None => {
                return;
            },
        };
        if row_index >= self.rows.len() {
            return;
        }
        let group_index = match self.rows[row_index] {
            Row::Group { entry_index, .. } => Some(entry_index),
            Row::Occurrence(_) => self.group_before_row(row_index),
            Row::Entry(_) => None,
        };
        let group_index = match group_index {
            Some(g) => g,
            None => {
                return;
            },
        };
        let ghost before = *old(self);
        assert(collapse_target(before.rows@, before.selected) == Some(group_index));
        let removed = self.expanded_groups.remove(&group_index);
        assert(removed == before.expanded_groups@.contains(group_index));
        assert(self.expanded_groups@ =~= before.expanded_groups@.remove(group_index));
        if removed {
            self.rows = grouped_rows(self.entries.as_slice(), self.visible_entries.as_slice(), &self.expanded_groups);
            match self.find_group_row(group_index) {
                Some(k) => {
                    self.selected = Some(k);
                },
                None => {},
            }
        } else {
            assert(self.expanded_groups@ =~= before.expanded_groups@);
        }
    }

    fn group_before_row(&self, row_index: usize) -> (r: Option<usize>)
        requires
            row_index <= self.rows@.len(),
        ensures
            r == group_before(self.rows@, row_index as int),
    {
        let mut k = row_index;
        while k > 0
            invariant
                k <= row_index <= self.rows@.len(),
                group_before(self.rows@, row_index as int) == group_before(self.rows@, k as int),
            decreases k,
        {
            match self.rows[k - 1] {
                Row::Group { entry_index, .. } => {
                    return Some(entry_index);
                },
                _ => {},
            }
            k = k - 1;
        }
        None
    }

    fn find_group_row(&self, g: usize) -> (r: Option<usize>)
        ensures
            r == group_row_from(self.rows@, g, 0),
    {
        let mut k: usize = 0;
        while k < self.rows.len()
            invariant
                k <= self.rows@.len(),
                group_row_from(self.rows@, g, 0) == group_row_from(self.rows@, g, k as int),
            decreases self.rows@.len() - k,
        {
            match self.rows[k] {
                Row::Group { entry_index, .. } => {
                    if entry_index == g {
                        return Some(k);
                    }
                },
                _ => {},
            }
            k = k + 1;
        }
        None
    }
}

} // verus!
