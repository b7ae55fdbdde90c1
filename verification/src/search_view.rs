use vstd::prelude::*;

use crate::entry::Entry;
use crate::filter::{toggle_filter, toggled, Filter, FilterContext, FilterToggle};
use crate::fuzzy::{commands_fit, search_fuzzy_indices, term_fits, FuzzyMatcher, MAX_TERM_CHARS};
use crate::keys::{Key, KeyCode};
use crate::recent_view::{filter_view, lemma_visible_determined, same_filter, visible_for, EditedCommand, ViewOutcome, TUI_ENTRY_LIMIT};
use crate::text::{pop_char, push_char};

verus! {

/// The state of the search view: loaded entries, the matches of the query
/// as positions into them, the filter, the selection and the editor.
pub struct SearchView {
    pub query: String,
    pub entries: Vec<Entry>,
    pub filtered: Vec<usize>,
    pub context: FilterContext,
    pub filter: Filter,
    pub selected: Option<usize>,
    pub command_to_run: Option<EditedCommand>,
    pub editing: bool,
    pub matcher: FuzzyMatcher,
}

/// The selection after moving down in a flat list of `n` results.
pub open spec fn flat_down(n: nat, selected: Option<usize>) -> Option<usize> {
    if n == 0 {
        selected
    } else {
        let s = match selected {
            Some(s) => s as int,
            None => 0,
        };
        Some((if s + 1 < n - 1 { s + 1 } else { n - 1 }) as usize)
    }
}

/// The selection after moving up in a flat list of `n` results.
pub open spec fn flat_up(n: nat, selected: Option<usize>) -> Option<usize> {
    if n == 0 {
        selected
    } else {
        let s = match selected {
            Some(s) => s as int,
            None => 0,
        };
        Some((if s > 0 { s - 1 } else { 0 }) as usize)
    }
}

/// What a key press in the search view does.
#[derive(Debug, Clone, Copy, PartialEq, Eq, Structural)]
pub enum SearchViewCommand {
    Exit,
    OpenEditor,
    MoveDown,
    MoveUp,
    DeleteChar,
    Toggle(FilterToggle),
    Type(char),
    Nothing,
}

/// What a key press in the search view does (see `search_view_key_command`).
pub open spec fn search_view_command_of(key: Key) -> SearchViewCommand {
    match key.code {
        KeyCode::Esc => SearchViewCommand::Exit,
        KeyCode::Enter => SearchViewCommand::OpenEditor,
        KeyCode::Down => SearchViewCommand::MoveDown,
        KeyCode::Up => SearchViewCommand::MoveUp,
        KeyCode::Backspace => SearchViewCommand::DeleteChar,
        KeyCode::Char(c) => if c == 'c' && key.control {
            SearchViewCommand::Exit
        } else if key.alt && c == 'c' {
            SearchViewCommand::Toggle(FilterToggle::Cwd)
        } else if key.alt && c == 'r' {
            SearchViewCommand::Toggle(FilterToggle::Repo)
        } else if key.alt && c == 'b' {
            SearchViewCommand::Toggle(FilterToggle::Branch)
        } else if key.alt && c == 'o' {
            SearchViewCommand::Toggle(FilterToggle::Success)
        } else if key.alt && c == 'f' {
            SearchViewCommand::Toggle(FilterToggle::Fail)
        } else if c == 'j' && key.plain() {
            SearchViewCommand::MoveDown
        } else if c == 'k' && key.plain() {
            SearchViewCommand::MoveUp
        } else if key.text_input() {
            SearchViewCommand::Type(c)
        } else {
            SearchViewCommand::Nothing
        },
        _ => SearchViewCommand::Nothing,
    }
}

/// Maps a key press in the search view: Esc and Ctrl+C leave, Enter edits,
/// arrows and plain `j`/`k` move, Backspace deletes, Alt+`c r b o f` toggle
/// filters and other characters typed without Control or Alt extend the query.
pub fn search_view_key_command(key: &Key) -> (c: SearchViewCommand)
    ensures
        c == search_view_command_of(*key),
{
    match key.code {
        KeyCode::Esc => SearchViewCommand::Exit,
        KeyCode::Enter => SearchViewCommand::OpenEditor,
        KeyCode::Down => SearchViewCommand::MoveDown,
        KeyCode::Up => SearchViewCommand::MoveUp,
        KeyCode::Backspace => SearchViewCommand::DeleteChar,
        KeyCode::Char(c) => if c == 'c' && key.control {
            SearchViewCommand::Exit
        } else if key.alt && c == 'c' {
            SearchViewCommand::Toggle(FilterToggle::Cwd)
        } else if key.alt && c == 'r' {
            SearchViewCommand::Toggle(FilterToggle::Repo)
        } else if key.alt && c == 'b' {
            SearchViewCommand::Toggle(FilterToggle::Branch)
        } else if key.alt && c == 'o' {
            SearchViewCommand::Toggle(FilterToggle::Success)
        } else if key.alt && c == 'f' {
            SearchViewCommand::Toggle(FilterToggle::Fail)
        } else if c == 'j' && key.no_modifiers() {
            SearchViewCommand::MoveDown
        } else if c == 'k' && key.no_modifiers() {
            SearchViewCommand::MoveUp
        } else if !key.control && !key.alt {
            SearchViewCommand::Type(c)
        } else {
            SearchViewCommand::Nothing
        },
        _ => SearchViewCommand::Nothing,
    }
}

/// The entry of the selected result, when one is selected.
pub open spec fn selected_result(filtered: Seq<usize>, selected: Option<usize>) -> Option<usize> {
    match selected {
        Some(s) => if s < filtered.len() {
            Some(filtered[s as int])
        } else {
            None
        },
        None => None,
    }
}

/// The results depend on the loaded entries and the query alone, so typing a
/// character and deleting it again brings back the same results.
pub proof fn lemma_search_results_determined(a: SearchView, b: SearchView)
    requires
        a.wf(),
        b.wf(),
        a.entries@ == b.entries@,
        a.query@ == b.query@,
    ensures
        a.filtered@ == b.filtered@,
{
    lemma_visible_determined(a.entries@, a.query@, a.filtered@, b.filtered@);
}

impl SearchView {
    /// The results are the fuzzy matches of the query among the entries;
    /// nucleo can score the query and the commands.
    pub open spec fn wf(self) -> bool {
        commands_fit(self.entries@) && term_fits(self.query@) && visible_for(
            self.entries@,
            self.query@,
            self.filtered@,
        )
    }

    /// Opens the view on loaded entries with an initial query.
    pub fn new(entries: Vec<Entry>, initial_query: String, context: FilterContext, filter: Filter) -> (v: Self)
        requires
            commands_fit(entries@),
            term_fits(initial_query@),
        ensures
            v.wf(),
            v.entries@ == entries@,
            v.query@ == initial_query@,
            v.context == context,
            v.filter == filter,
            v.selected == (if v.filtered@.len() > 0 { Some(0usize) } else { None }),
            v.command_to_run.is_none(),
            !v.editing,
    {
        let mut v = SearchView {
            query: initial_query,
            entries,
            filtered: Vec::new(),
            context,
            filter,
            selected: None,
            command_to_run: None,
            editing: false,
            matcher: FuzzyMatcher::new(),
        };
        v.refilter();
        v
    }

    /// Recomputes the results for the query and selects the first one.
    pub fn refilter(&mut self)
        requires
            commands_fit(old(self).entries@),
            term_fits(old(self).query@),
        ensures
            final(self).wf(),
            final(self).query@ == old(self).query@,
            final(self).entries@ == old(self).entries@,
            final(self).context == old(self).context,
            final(self).filter == old(self).filter,
            final(self).command_to_run == old(self).command_to_run,
            final(self).editing == old(self).editing,
            final(self).selected == (if final(self).filtered@.len() > 0 { Some(0usize) } else { None }),
    {
        if self.query.unicode_len() == 0 {
            let mut visible: Vec<usize> = Vec::new();
            let mut i: usize = 0;
            while i < self.entries.len()
                invariant
                    i <= self.entries@.len(),
                    visible@ == Seq::new(i as nat, |k: int| k as usize),
                decreases self.entries@.len() - i,
            {
                visible.push(i);
                i = i + 1;
                assert(visible@ =~= Seq::new(i as nat, |k: int| k as usize));
            }
            self.filtered = visible;
        } else {
            self.filtered = search_fuzzy_indices(
                &mut self.matcher,
                self.entries.as_slice(),
                self.query.as_str(),
                TUI_ENTRY_LIMIT,
            );
        }
        self.selected = if self.filtered.len() > 0 { Some(0) } else { None };
    }

    /// The entry of the selected result.
    pub fn selected_entry_index(&self) -> (r: Option<usize>)
        ensures
            r == selected_result(self.filtered@, self.selected),
    {
        match self.selected {
            Some(s) => if s < self.filtered.len() {
                Some(self.filtered[s])
            } else {
                None
            },
            None => None,
        }
    }

    /// The selected entry.
    pub fn selected_entry(&self) -> (r: Option<&Entry>)
        ensures
            match selected_result(self.filtered@, self.selected) {
                Some(i) => if i < self.entries@.len() {
                    r == Some(&self.entries@[i as int])
                } else {
                    r.is_none()
                },
                None => r.is_none(),
            },
    {
        match self.selected_entry_index() {
            Some(i) => if i < self.entries.len() {
                Some(&self.entries[i])
            } else {
                None
            },
            None => None,
        }
    }

    /// Selects nothing.
    pub fn clear_selection(&mut self)
        ensures
            *final(self) == (SearchView { selected: None, ..*old(self) }),
    {
        self.selected = None;
    }

    /// Selects the next result (see `flat_down`).
    pub fn move_down(&mut self)
        ensures
            *final(self) == (SearchView { selected: flat_down(old(self).filtered@.len(), old(self).selected), ..*old(self) }),
    {
        let n = self.filtered.len();
        if n == 0 {
            return;
        }
        let s = match self.selected {
            Some(s) => s,
            None => 0,
        };
        let next = if s < usize::MAX { s + 1 } else { s };
        self.selected = Some(if next < n - 1 { next } else { n - 1 });
    }

    /// Selects the previous result (see `flat_up`).
    pub fn move_up(&mut self)
        ensures
            *final(self) == (SearchView { selected: flat_up(old(self).filtered@.len(), old(self).selected), ..*old(self) }),
    {
        let n = self.filtered.len();
        if n == 0 {
            return;
        }
        let s = match self.selected {
            Some(s) => s,
            None => 0,
        };
        self.selected = Some(if s > 0 { s - 1 } else { 0 });
    }

    /// Adds a character to the query.
    pub fn push_query_char(&mut self, c: char)
        requires
            commands_fit(old(self).entries@),
            old(self).query@.len() < MAX_TERM_CHARS,
        ensures
            final(self).wf(),
            final(self).query@ == old(self).query@.push(c),
            final(self).entries@ == old(self).entries@,
            final(self).filter == old(self).filter,
            final(self).context == old(self).context,
            final(self).editing == old(self).editing,
            final(self).command_to_run == old(self).command_to_run,
            final(self).selected == (if final(self).filtered@.len() > 0 { Some(0usize) } else { None }),
    {
        push_char(&mut self.query, c);
        self.refilter();
    }

    /// Removes the last query character and refreshes; nothing happens on an
    /// empty query.
    pub fn pop_query_char(&mut self)
        requires
            old(self).wf(),
        ensures
            final(self).wf(),
            old(self).query@.len() == 0 ==> *final(self) == (SearchView { query: final(self).query, ..*old(self) })
                && final(self).query@ == old(self).query@,
            old(self).query@.len() > 0 ==> {
                &&& final(self).query@ == old(self).query@.drop_last()
                &&& final(self).entries@ == old(self).entries@
                &&& final(self).filter == old(self).filter
                &&& final(self).editing == old(self).editing
                &&& final(self).command_to_run == old(self).command_to_run
                &&& final(self).selected == (if final(self).filtered@.len() > 0 { Some(0usize) } else { None })
            },
    {
        let popped = pop_char(&mut self.query);
        if popped.is_some() {
            self.refilter();
        }
    }

    /// Opens the editor on the selected entry's command and returns it.
    pub fn open_editor_for_selected_entry(&mut self) -> (r: Option<String>)
        ensures
            match selected_result(old(self).filtered@, old(self).selected) {
                Some(i) => if i < old(self).entries@.len() {
                    r == Some(old(self).entries@[i as int].command) && *final(self) == (SearchView { editing: true, ..*old(self) })
                } else {
                    r.is_none() && *final(self) == *old(self)
                },
                None => r.is_none() && *final(self) == *old(self),
            },
    {
        let command = match self.selected_entry() {
            Some(entry) => entry.command.clone(),
            None => {
                return None;
            },
        };
        self.editing = true;
        Some(command)
    }

    /// Closes the editor without changing anything.
    pub fn cancel_edit(&mut self)
        ensures
            *final(self) == (SearchView { editing: false, ..*old(self) }),
    {
        self.editing = false;
    }

    /// Accepts the edited text for the selected entry; returns whether the
    /// view should close and run it.
    pub fn confirm_edit(&mut self, text: String) -> (r: bool)
        ensures
            match selected_result(old(self).filtered@, old(self).selected) {
                None => !r && *final(self) == (SearchView { editing: false, ..*old(self) }),
                Some(i) => if old(self).editing {
                    r && *final(self) == (SearchView {
                        editing: false,
                        command_to_run: Some(EditedCommand { entry_index: i, command: text }),
                        ..*old(self)
                    })
                } else {
                    !r && *final(self) == *old(self)
                },
            },
    {
        let entry_index = match self.selected_entry_index() {
            Some(i) => i,
            None => {
                self.editing = false;
                return false;
            },
        };
        if !self.editing {
            return false;
        }
        self.editing = false;
        self.command_to_run = Some(EditedCommand { entry_index, command: text });
        true
    }

    /// The filter after a toggle, when the toggle changes the filter.
    pub fn toggle_filter(&self, toggle: FilterToggle) -> (r: Option<Filter>)
        ensures
            filter_view(toggled(self.filter, toggle, self.context)) == filter_view(self.filter)
                ==> r.is_none(),
            filter_view(toggled(self.filter, toggle, self.context)) != filter_view(self.filter)
                ==> r == Some(toggled(self.filter, toggle, self.context)),
    {
        let mut filter = self.filter.duplicate();
        toggle_filter(&mut filter, toggle, &self.context);
        if same_filter(&filter, &self.filter) {
            None
        } else {
            Some(filter)
        }
    }

    /// Installs a new filter with the entries loaded for it and refreshes.
    pub fn apply_filter(&mut self, filter: Filter, entries: Vec<Entry>)
        requires
            commands_fit(entries@),
            term_fits(old(self).query@),
        ensures
            final(self).wf(),
            final(self).entries@ == entries@,
            final(self).filter == filter,
            final(self).query@ == old(self).query@,
            final(self).context == old(self).context,
            final(self).editing == old(self).editing,
            final(self).command_to_run == old(self).command_to_run,
            final(self).selected == (if final(self).filtered@.len() > 0 { Some(0usize) } else { None }),
    {
        self.entries = entries;
        self.filter = filter;
        self.refilter();
    }

    /// Handles a key press (see `search_view_command_of`); a filter toggle
    /// that changes the filter asks the caller to load its entries.
    pub fn handle_key(&mut self, key: &Key) -> (outcome: ViewOutcome)
        requires
            old(self).wf(),
            search_view_command_of(*key) is Type ==> old(self).query@.len() < MAX_TERM_CHARS,
        ensures
            final(self).wf(),
            match search_view_command_of(*key) {
                SearchViewCommand::Exit => *final(self) == (SearchView { selected: None, ..*old(self) })
                    && outcome == ViewOutcome::Exit,
                SearchViewCommand::OpenEditor => match selected_result(old(self).filtered@, old(self).selected) {
                    Some(i) => if i < old(self).entries@.len() {
                        outcome == ViewOutcome::OpenEditor(old(self).entries@[i as int].command)
                            && *final(self) == (SearchView { editing: true, ..*old(self) })
                    } else {
                        outcome == ViewOutcome::Continue && *final(self) == *old(self)
                    },
                    None => outcome == ViewOutcome::Continue && *final(self) == *old(self),
                },
                SearchViewCommand::MoveDown => *final(self) == (SearchView {
                    selected: flat_down(old(self).filtered@.len(), old(self).selected),
                    ..*old(self)
                }) && outcome == ViewOutcome::Continue,
                SearchViewCommand::MoveUp => *final(self) == (SearchView {
                    selected: flat_up(old(self).filtered@.len(), old(self).selected),
                    ..*old(self)
                }) && outcome == ViewOutcome::Continue,
                SearchViewCommand::DeleteChar => outcome == ViewOutcome::Continue && (old(self).query@.len() > 0 ==> {
                    &&& final(self).query@ == old(self).query@.drop_last()
                    &&& final(self).entries@ == old(self).entries@
                    &&& final(self).filter == old(self).filter
                    &&& final(self).editing == old(self).editing
                    &&& final(self).command_to_run == old(self).command_to_run
                    &&& final(self).selected == (if final(self).filtered@.len() > 0 { Some(0usize) } else { None })
                }) && (old(self).query@.len() == 0 ==> final(self).query@ == old(self).query@
                    && *final(self) == (SearchView { query: final(self).query, ..*old(self) })),
                SearchViewCommand::Toggle(t) => *final(self) == *old(self) && if filter_view(
                    toggled(old(self).filter, t, old(self).context),
                ) == filter_view(old(self).filter) {
                    outcome == ViewOutcome::Continue
                } else {
                    outcome == ViewOutcome::Refetch(toggled(old(self).filter, t, old(self).context))
                },
                SearchViewCommand::Type(c) => {
                    &&& outcome == ViewOutcome::Continue
                    &&& final(self).query@ == old(self).query@.push(c)
                    &&& final(self).entries@ == old(self).entries@
                    &&& final(self).filter == old(self).filter
                    &&& final(self).editing == old(self).editing
                    &&& final(self).command_to_run == old(self).command_to_run
                    &&& final(self).selected == (if final(self).filtered@.len() > 0 { Some(0usize) } else { None })
                },
                SearchViewCommand::Nothing => *final(self) == *old(self) && outcome == ViewOutcome::Continue,
            },
    {
        match search_view_key_command(key) {
            SearchViewCommand::Exit => {
                self.clear_selection();
                ViewOutcome::Exit
            },
            SearchViewCommand::OpenEditor => match self.open_editor_for_selected_entry() {
                Some(command) => ViewOutcome::OpenEditor(command),
                None => ViewOutcome::Continue,
            },
            SearchViewCommand::MoveDown => {
                self.move_down();
                ViewOutcome::Continue
            },
            SearchViewCommand::MoveUp => {
                self.move_up();
                ViewOutcome::Continue
            },
            SearchViewCommand::DeleteChar => {
                self.pop_query_char();
                ViewOutcome::Continue
            },
            SearchViewCommand::Toggle(t) => match self.toggle_filter(t) {
                Some(filter) => ViewOutcome::Refetch(filter),
                None => ViewOutcome::Continue,
            },
            SearchViewCommand::Type(c) => {
                self.push_query_char(c);
                ViewOutcome::Continue
            },
            SearchViewCommand::Nothing => ViewOutcome::Continue,
        }
    }

    /// The confirmed entry with its command replaced by the edited text.
    pub fn finished_entry(&self) -> (r: Option<Entry>)
        ensures
            match self.command_to_run {
                Some(edited) => if edited.entry_index < self.entries@.len() {
                    r == Some(Entry { command: edited.command, ..self.entries@[edited.entry_index as int] })
                } else {
                    r.is_none()
                },
                None => r.is_none(),
            },
    {
        match &self.command_to_run {
            Some(edited) => if edited.entry_index < self.entries.len() {
                Some(self.entries[edited.entry_index].with_command(edited.command.clone()))
            } else {
                None
            },
            None => None,
        }
    }
}

} // verus!
