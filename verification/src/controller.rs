//! The workflow controller: the multi-screen state machine that coordinates
//! browsing, search, environments, the input form, runs and history.
//!
//! The controller owns all mutable session state and decides every
//! transition; the outside work it asks for (listing a directory, reading a
//! schema, querying the index, running a script) is performed by the caller,
//! which hands the outcome back through one of the `*_loaded`, `set_*` or
//! `*_failed` methods.

use vstd::prelude::*;
use crate::envfile::{assoc_get, EnvFile, EnvironmentConfig};
use crate::history::HistoryEntry;
use crate::ports::WorkspaceEntry;
use crate::schema::{Field, OutputField, QueueSpec, Schema};
use crate::select::{move_index, moved_index, wrap_index, wrapped_index};

verus! {

/// The screens of the interface; `ScriptSelect` is the initial one.
#[derive(Debug, Clone, Copy, PartialEq, Eq, Structural)]
pub enum Screen {
    ScriptSelect,
    Search,
    Environments,
    FieldInput,
    History,
    Running,
    RunResult,
    Error,
}

/// What the background index reports about itself.
#[derive(Debug, Clone, Copy, PartialEq, Eq, Structural)]
pub enum SearchStatus {
    Idle,
    Indexing,
    Ready(u64),
    Error,
}

/// One hit returned by the search index.
#[derive(Debug)]
pub struct SearchResult {
    pub script_path: String,
}

impl Clone for SearchResult {
    fn clone(&self) -> (r: SearchResult)
        ensures
            r == *self,
    {
        SearchResult { script_path: self.script_path.clone() }
    }
}

/// Which pane of the history screen holds the focus.
#[derive(Debug, Clone, Copy, PartialEq, Eq, Structural)]
pub enum HistoryFocus {
    List,
    Output,
}

/// How a finished run is labelled.
#[derive(Debug, Clone, Copy, PartialEq, Eq, Structural)]
pub enum ExecutionStatus {
    Success,
    Failed(Option<i32>),
    Error,
}

impl ExecutionStatus {
    /// The label of a history entry: a kept launch error beats everything,
    /// then the success flag decides.
    pub fn from_history(entry: &HistoryEntry) -> (r: ExecutionStatus)
        ensures
            entry@.error is Some ==> r == ExecutionStatus::Error,
            entry@.error is None && entry@.success ==> r == ExecutionStatus::Success,
            entry@.error is None && !entry@.success ==> r == ExecutionStatus::Failed(
                entry@.exit_code,
            ),
    {
        if entry.error.is_some() {
            ExecutionStatus::Error
        } else if entry.success {
            ExecutionStatus::Success
        } else {
            ExecutionStatus::Failed(entry.exit_code)
        }
    }
}

/// The browse screen's state: the directory being shown, its entries, the
/// cursor, the auxiliary panel, the schema preview and a one-entry cache.
pub struct NavigationState {
    pub current_dir: String,
    pub entries: Vec<WorkspaceEntry>,
    pub selection: usize,
    pub widget: Option<String>,
    pub widget_error: Option<String>,
    pub widget_loading: bool,
    pub widget_pending: bool,
    pub schema_preview: Option<Schema>,
    pub schema_preview_error: Option<String>,
    pub preview_script: Option<String>,
    pub schema_cache: Option<(String, Schema)>,
}

/// The environments screen's state.
pub struct EnvironmentState {
    pub config: Option<EnvironmentConfig>,
    pub error: Option<String>,
    pub entries: Vec<EnvFile>,
    pub selection: usize,
    pub preview: Vec<(String, String)>,
    pub preview_error: Option<String>,
    pub preview_scroll: u16,
}

/// The search screen's state.
pub struct SearchState {
    pub query: Vec<char>,
    pub results: Vec<SearchResult>,
    pub selection: usize,
    pub details: Option<String>,
    pub status: SearchStatus,
    pub error: Option<String>,
}

/// The history screen's state.
pub struct HistoryState {
    pub entries: Vec<HistoryEntry>,
    pub selection: usize,
    pub focus: HistoryFocus,
}

/// The input form's state: one text buffer per field, in display order.
pub struct FieldInputState {
    pub schema_name: Option<String>,
    pub schema_description: Option<String>,
    pub fields: Vec<Field>,
    pub field_index: usize,
    pub field_inputs: Vec<Vec<char>>,
    pub args: Vec<String>,
    pub error: Option<String>,
    pub selected_script: Option<String>,
}

/// The whole interactive session.
pub struct App {
    pub workspace_root: String,
    pub screen: Screen,
    pub env_return: Option<Screen>,
    pub navigation: NavigationState,
    pub environment: EnvironmentState,
    pub search: SearchState,
    pub history: HistoryState,
    pub field_input: FieldInputState,
    pub result: Option<(String, Vec<String>)>,
    pub should_quit: bool,
    pub run_output_scroll: u16,
    pub error_message: Option<String>,
}

/// A selection index is in range, or pinned at 0 over an empty list.
pub open spec fn sel_ok(index: usize, len: nat) -> bool {
    if len == 0 {
        index == 0
    } else {
        index < len
    }
}

impl App {
    /// The controller's invariant: every cursor stays inside its list and
    /// the form holds one buffer per field.
    pub open spec fn wf(self) -> bool {
        &&& sel_ok(self.navigation.selection, self.navigation.entries@.len())
        &&& sel_ok(self.environment.selection, self.environment.entries@.len())
        &&& sel_ok(self.search.selection, self.search.results@.len())
        &&& sel_ok(self.history.selection, self.history.entries@.len())
        &&& sel_ok(self.field_input.field_index, self.field_input.fields@.len())
        &&& self.field_input.field_inputs@.len() == self.field_input.fields@.len()
    }

    /// A fresh session on the workspace root: the browse screen, every
    /// cursor at its first entry.
    pub fn new(
        workspace_root: String,
        entries: Vec<WorkspaceEntry>,
        history: Vec<HistoryEntry>,
        search_status: SearchStatus,
    ) -> (r: App)
        ensures
            r.wf(),
            r.screen == Screen::ScriptSelect,
            r.navigation.entries@ == entries@,
            r.navigation.current_dir@ == workspace_root@,
            r.history.entries@ == history@,
            r.search.status == search_status,
            r.result is None,
            !r.should_quit,
            r.env_return is None,
    {
        let current_dir = workspace_root.clone();
        App {
            workspace_root,
            screen: Screen::ScriptSelect,
            env_return: Option::None,
            navigation: NavigationState {
                current_dir,
                entries,
                selection: 0,
                widget: Option::None,
                widget_error: Option::None,
                widget_loading: false,
                widget_pending: false,
                schema_preview: Option::None,
                schema_preview_error: Option::None,
                preview_script: Option::None,
                schema_cache: Option::None,
            },
            environment: EnvironmentState {
                config: Option::None,
                error: Option::None,
                entries: Vec::new(),
                selection: 0,
                preview: Vec::new(),
                preview_error: Option::None,
                preview_scroll: 0,
            },
            search: SearchState {
                query: Vec::new(),
                results: Vec::new(),
                selection: 0,
                details: Option::None,
                status: search_status,
                error: Option::None,
            },
            history: HistoryState { entries: history, selection: 0, focus: HistoryFocus::List },
            field_input: FieldInputState {
                schema_name: Option::None,
                schema_description: Option::None,
                fields: Vec::new(),
                field_index: 0,
                field_inputs: Vec::new(),
                args: Vec::new(),
                error: Option::None,
                selected_script: Option::None,
            },
            result: Option::None,
            should_quit: false,
            run_output_scroll: 0,
            error_message: Option::None,
        }
    }

    /// The entry under the browse cursor.
    pub fn selected_entry(&self) -> (r: Option<&WorkspaceEntry>)
        ensures
            match r {
                Option::Some(e) => self.navigation.entries@.len() > 0 && *e
                    == self.navigation.entries@[self.navigation.selection as int],
                Option::None => self.navigation.selection >= self.navigation.entries@.len(),
            },
    {
        if self.navigation.selection < self.navigation.entries.len() {
            Option::Some(&self.navigation.entries[self.navigation.selection])
        } else {
            Option::None
        }
    }

    /// Moves the browse cursor, clamped to the list; nothing else changes.
    pub fn move_selection(&mut self, delta: isize)
        requires
            old(self).wf(),
        ensures
            final(self).wf(),
            final(self).navigation.selection == moved_index(
                old(self).navigation.entries@.len(),
                old(self).navigation.selection as nat,
                delta as int,
            ),
            *final(self) == (App {
                navigation: (NavigationState {
                    selection: final(self).navigation.selection,
                    ..old(self).navigation
                }),
                ..*old(self)
            }),
    {
        let len = self.navigation.entries.len();
        self.navigation.selection = move_index(len, self.navigation.selection, delta);
        proof {
            crate::select::lemma_moved_index_in_range(
                self.navigation.entries@.len(),
                old(self).navigation.selection as nat,
                delta as int,
            );
        }
    }

    /// Moves the environment cursor, clamped to the list; nothing else
    /// changes.
    pub fn move_env_selection(&mut self, delta: isize)
        requires
            old(self).wf(),
        ensures
            final(self).wf(),
            final(self).environment.selection == moved_index(
                old(self).environment.entries@.len(),
                old(self).environment.selection as nat,
                delta as int,
            ),
            *final(self) == (App {
                environment: (EnvironmentState {
                    selection: final(self).environment.selection,
                    ..old(self).environment
                }),
                ..*old(self)
            }),
    {
        let len = self.environment.entries.len();
        self.environment.selection = move_index(len, self.environment.selection, delta);
        proof {
            crate::select::lemma_moved_index_in_range(
                self.environment.entries@.len(),
                old(self).environment.selection as nat,
                delta as int,
            );
        }
    }

    /// Moves the search cursor, clamped to the result list; nothing else
    /// changes.
    pub fn move_search_selection(&mut self, delta: isize)
        requires
            old(self).wf(),
        ensures
            final(self).wf(),
            final(self).search.selection == moved_index(
                old(self).search.results@.len(),
                old(self).search.selection as nat,
                delta as int,
            ),
            *final(self) == (App {
                search: (SearchState {
                    selection: final(self).search.selection,
                    ..old(self).search
                }),
                ..*old(self)
            }),
    {
        let len = self.search.results.len();
        self.search.selection = move_index(len, self.search.selection, delta);
        proof {
            crate::select::lemma_moved_index_in_range(
                self.search.results@.len(),
                old(self).search.selection as nat,
                delta as int,
            );
        }
    }

    /// Moves the history cursor, clamped to the list; changing it resets the
    /// output scroll. An empty list leaves the whole state untouched.
    pub fn move_history_selection(&mut self, delta: isize)
        requires
            old(self).wf(),
        ensures
            final(self).wf(),
            old(self).history.entries@.len() == 0 ==> *final(self) == *old(self),
            old(self).history.entries@.len() > 0 ==> final(self).history.selection == moved_index(
                old(self).history.entries@.len(),
                old(self).history.selection as nat,
                delta as int,
            ) && *final(self) == (App {
                history: (HistoryState {
                    selection: final(self).history.selection,
                    ..old(self).history
                }),
                run_output_scroll: 0,
                ..*old(self)
            }),
    {
        let len = self.history.entries.len();
        if len == 0 {
            return;
        }
        self.history.selection = move_index(len, self.history.selection, delta);
        self.run_output_scroll = 0;
        proof {
            crate::select::lemma_moved_index_in_range(
                self.history.entries@.len(),
                old(self).history.selection as nat,
                delta as int,
            );
        }
    }

    /// Moves the field cursor of the form, wrapping modulo the field count;
    /// any shown validation error is cleared. An empty form leaves the whole
    /// state untouched.
    pub fn move_field_selection(&mut self, delta: isize)
        requires
            old(self).wf(),
        ensures
            final(self).wf(),
            old(self).field_input.fields@.len() == 0 ==> *final(self) == *old(self),
            old(self).field_input.fields@.len() > 0 ==> final(self).field_input.field_index
                == wrapped_index(
                old(self).field_input.fields@.len(),
                old(self).field_input.field_index as nat,
                delta as int,
            ) && *final(self) == (App {
                field_input: (FieldInputState {
                    field_index: final(self).field_input.field_index,
                    error: Option::None,
                    ..old(self).field_input
                }),
                ..*old(self)
            }),
    {
        let len = self.field_input.fields.len();
        if len == 0 {
            return;
        }
        self.field_input.field_index = wrap_index(len, self.field_input.field_index, delta);
        self.field_input.error = Option::None;
        proof {
            crate::select::lemma_wrapped_index_in_range(
                self.field_input.fields@.len(),
                old(self).field_input.field_index as nat,
                delta as int,
            );
        }
    }

    /// Enters the environments screen, remembering where to return to.
    pub fn enter_envs(&mut self)
        requires
            old(self).wf(),
        ensures
            final(self).wf(),
            final(self).screen == Screen::Environments,
            final(self).env_return == Option::Some(old(self).screen),
    {
        self.env_return = Option::Some(self.screen);
        self.screen = Screen::Environments;
    }

    /// Leaves the environments screen, restoring exactly the screen that
    /// entered it.
    pub fn exit_envs(&mut self)
        requires
            old(self).wf(),
        ensures
            final(self).wf(),
            final(self).screen == (match old(self).env_return {
                Option::Some(s) => s,
                Option::None => Screen::ScriptSelect,
            }),
            final(self).env_return is None,
    {
        self.screen = match self.env_return {
            Option::Some(s) => s,
            Option::None => Screen::ScriptSelect,
        };
        self.env_return = Option::None;
    }

    /// Enters the search screen with a fresh status.
    pub fn enter_search(&mut self, status: SearchStatus)
        requires
            old(self).wf(),
        ensures
            final(self).wf(),
            final(self).screen == Screen::Search,
            final(self).search.status == status,
    {
        self.search.status = status;
        self.screen = Screen::Search;
    }

    /// Scrolls the environment preview, clamped at zero.
    pub fn scroll_env_preview(&mut self, delta: i16)
        requires
            old(self).wf(),
        ensures
            final(self).wf(),
            final(self).environment.preview_scroll as int == (if old(
                self,
            ).environment.preview_scroll + delta < 0 {
                0int
            } else if old(self).environment.preview_scroll + delta > u16::MAX {
                u16::MAX as int
            } else {
                old(self).environment.preview_scroll + delta
            }),
    {
        let cur: i32 = self.environment.preview_scroll as i32 + delta as i32;
        let next: i32 = if cur < 0 {
            0
        } else if cur > u16::MAX as i32 {
            u16::MAX as i32
        } else {
            cur
        };
        self.environment.preview_scroll = next as u16;
    }

    /// Scrolls the run output, saturating at both ends.
    pub fn scroll_run_output(&mut self, delta: i16)
        requires
            old(self).wf(),
        ensures
            final(self).wf(),
            delta >= 0 ==> final(self).run_output_scroll as int == (if old(
                self,
            ).run_output_scroll + delta > u16::MAX {
                u16::MAX as int
            } else {
                old(self).run_output_scroll + delta
            }),
            delta < 0 ==> final(self).run_output_scroll as int == (if old(self).run_output_scroll
                + delta < 0 {
                0int
            } else {
                old(self).run_output_scroll + delta
            }),
    {
        let cur: i32 = self.run_output_scroll as i32 + delta as i32;
        let next: i32 = if cur < 0 {
            0
        } else if cur > u16::MAX as i32 {
            u16::MAX as i32
        } else {
            cur
        };
        self.run_output_scroll = next as u16;
    }

    pub fn reset_run_output_scroll(&mut self)
        requires
            old(self).wf(),
        ensures
            final(self).wf(),
            final(self).run_output_scroll == 0,
            final(self).history == old(self).history,
            final(self).result == old(self).result,
            final(self).screen == old(self).screen,
            final(self).field_input == old(self).field_input,
    {
        self.run_output_scroll = 0;
    }

    /// Notes that a background load for the current directory has started:
    /// the old panel content is invalidated and the loading flag raised.
    pub fn start_widget_load(&mut self)
        requires
            old(self).wf(),
        ensures
            final(self).wf(),
            *final(self) == (App {
                navigation: (NavigationState {
                    widget: Option::None,
                    widget_error: Option::None,
                    widget_loading: true,
                    widget_pending: true,
                    ..old(self).navigation
                }),
                ..*old(self)
            }),
    {
        self.navigation.widget_loading = true;
        self.navigation.widget = Option::None;
        self.navigation.widget_error = Option::None;
        self.navigation.widget_pending = true;
    }

    /// Takes a delivered background result: the panel content is replaced
    /// and the loading flag cleared.
    pub fn widget_delivered(&mut self, widget: Option<String>, error: Option<String>)
        requires
            old(self).wf(),
        ensures
            final(self).wf(),
            *final(self) == (App {
                navigation: (NavigationState {
                    widget: widget,
                    widget_error: error,
                    widget_loading: false,
                    widget_pending: false,
                    ..old(self).navigation
                }),
                ..*old(self)
            }),
    {
        self.navigation.widget = widget;
        self.navigation.widget_error = error;
        self.navigation.widget_loading = false;
        self.navigation.widget_pending = false;
    }

    /// Treats a broken background channel as "no data", never as fatal.
    pub fn widget_channel_broken(&mut self)
        requires
            old(self).wf(),
        ensures
            final(self).wf(),
            *final(self) == (App {
                navigation: (NavigationState {
                    widget_loading: false,
                    widget_pending: false,
                    ..old(self).navigation
                }),
                ..*old(self)
            }),
    {
        self.navigation.widget_loading = false;
        self.navigation.widget_pending = false;
    }

    /// Replaces the entry list after a directory was listed: the cursor
    /// resets to the first entry and any error is cleared.
    pub fn set_entries(&mut self, entries: Vec<WorkspaceEntry>)
        requires
            old(self).wf(),
        ensures
            final(self).wf(),
            final(self).navigation.entries@ == entries@,
            final(self).navigation.selection == 0,
            final(self).error_message is None,
            final(self).screen == old(self).screen,
            final(self).navigation.current_dir == old(self).navigation.current_dir,
            final(self).history == old(self).history,
            final(self).field_input == old(self).field_input,
            final(self).result == old(self).result,
    {
        self.navigation.entries = entries;
        self.navigation.selection = 0;
        self.error_message = Option::None;
    }

    /// Enters a directory: the current directory changes and its listing
    /// replaces the entries.
    pub fn enter_directory(&mut self, dir: String, entries: Vec<WorkspaceEntry>)
        requires
            old(self).wf(),
        ensures
            final(self).wf(),
            final(self).navigation.current_dir@ == dir@,
            final(self).navigation.entries@ == entries@,
            final(self).navigation.selection == 0,
            final(self).error_message is None,
    {
        self.navigation.current_dir = dir;
        self.set_entries(entries);
    }

    /// Enters the error screen after listing or loading failed outside the
    /// form-validation path.
    pub fn listing_failed(&mut self, message: String)
        requires
            old(self).wf(),
        ensures
            final(self).wf(),
            *final(self) == (App {
                screen: Screen::Error,
                error_message: Option::Some(message),
                ..*old(self)
            }),
    {
        self.error_message = Option::Some(message);
        self.screen = Screen::Error;
    }

    /// Leaves the error screen back to browsing.
    pub fn back_to_script_select(&mut self)
        requires
            old(self).wf(),
        ensures
            final(self).wf(),
            final(self).screen == Screen::ScriptSelect,
            final(self).field_input.fields@.len() == 0,
            final(self).field_input.field_inputs@.len() == 0,
            final(self).field_input.field_index == 0,
            final(self).field_input.error is None,
            final(self).field_input.selected_script is None,
            final(self).result is None,
            final(self).history == old(self).history,
            final(self).run_output_scroll == old(self).run_output_scroll,
            final(self).environment == old(self).environment,
            final(self).search == old(self).search,
    {
        self.screen = Screen::ScriptSelect;
        self.field_input.schema_name = Option::None;
        self.field_input.schema_description = Option::None;
        self.field_input.fields = Vec::new();
        self.field_input.field_index = 0;
        self.field_input.field_inputs = Vec::new();
        self.field_input.args = Vec::new();
        self.field_input.error = Option::None;
        self.field_input.selected_script = Option::None;
        self.result = Option::None;
    }

    /// Prepends a finished run to the history and selects it.
    pub fn add_history_entry(&mut self, entry: HistoryEntry)
        requires
            old(self).wf(),
        ensures
            final(self).wf(),
            final(self).history.entries@ == seq![entry] + old(self).history.entries@,
            final(self).history.selection == 0,
            final(self).screen == old(self).screen,
            final(self).result == old(self).result,
            final(self).field_input == old(self).field_input,
            final(self).run_output_scroll == old(self).run_output_scroll,
    {
        self.history.entries.insert(0, entry);
        self.history.selection = 0;
        proof {
            assert(self.history.entries@ =~= seq![entry] + old(self).history.entries@);
        }
    }

    /// The entry under the history cursor.
    pub fn current_history_entry(&self) -> (r: Option<&HistoryEntry>)
        ensures
            match r {
                Option::Some(e) => self.history.entries@.len() > 0 && *e
                    == self.history.entries@[self.history.selection as int],
                Option::None => self.history.selection >= self.history.entries@.len(),
            },
    {
        if self.history.selection < self.history.entries.len() {
            Option::Some(&self.history.entries[self.history.selection])
        } else {
            Option::None
        }
    }

    /// Appends one typed character to the search query.
    pub fn append_search_char(&mut self, c: char)
        requires
            old(self).wf(),
        ensures
            final(self).wf(),
            final(self).search.query@ == old(self).search.query@.push(c),
    {
        self.search.query.push(c);
    }

    /// Removes the last character of the search query, if any.
    pub fn pop_search_char(&mut self)
        requires
            old(self).wf(),
        ensures
            final(self).wf(),
            old(self).search.query@.len() > 0 ==> final(self).search.query@ == old(
                self,
            ).search.query@.drop_last(),
            old(self).search.query@.len() == 0 ==> final(self).search.query@ == old(
                self,
            ).search.query@,
    {
        if self.search.query.len() > 0 {
            self.search.query.pop();
        }
    }

    /// Replaces the search results after a query: the cursor resets to the
    /// first hit.
    pub fn set_search_results(&mut self, results: Vec<SearchResult>)
        requires
            old(self).wf(),
        ensures
            final(self).wf(),
            final(self).search.results@ == results@,
            final(self).search.selection == 0,
            final(self).search.error is None,
    {
        self.search.results = results;
        self.search.selection = 0;
        self.search.error = Option::None;
    }

    /// Records a query failure: the result list empties.
    pub fn set_search_error(&mut self, message: String)
        requires
            old(self).wf(),
        ensures
            final(self).wf(),
            final(self).search.results@.len() == 0,
            final(self).search.selection == 0,
            final(self).search.error == Option::Some(message),
    {
        self.search.results = Vec::new();
        self.search.selection = 0;
        self.search.error = Option::Some(message);
    }

    /// Stores the index's current status.
    pub fn set_search_status(&mut self, status: SearchStatus)
        requires
            old(self).wf(),
        ensures
            final(self).wf(),
            final(self).search.status == status,
    {
        self.search.status = status;
    }

    /// Stores the details loaded for the selected hit.
    pub fn set_search_details(&mut self, details: Option<String>)
        requires
            old(self).wf(),
        ensures
            final(self).wf(),
            final(self).search.details == details,
    {
        self.search.details = details;
    }

    /// The workspace-relative path of the selected search hit.
    pub fn selected_search_path(&self) -> (r: Option<String>)
        ensures
            match r {
                Option::Some(p) => self.search.results@.len() > 0 && p@
                    == self.search.results@[self.search.selection as int].script_path@,
                Option::None => self.search.selection >= self.search.results@.len(),
            },
    {
        if self.search.selection < self.search.results.len() {
            Option::Some(self.search.results[self.search.selection].script_path.clone())
        } else {
            Option::None
        }
    }

    /// The name of the selected environment file.
    pub fn selected_env_name(&self) -> (r: Option<String>)
        ensures
            match r {
                Option::Some(n) => self.environment.entries@.len() > 0 && n@
                    == self.environment.entries@[self.environment.selection as int].name@,
                Option::None => self.environment.selection >= self.environment.entries@.len(),
            },
    {
        if self.environment.selection < self.environment.entries.len() {
            Option::Some(self.environment.entries[self.environment.selection].name.clone())
        } else {
            Option::None
        }
    }

    /// Stores a loaded environment configuration and file list. The cursor
    /// lands on the first entry bearing the active environment's name; with
    /// an active name that the list does not hold it falls back to the first
    /// entry, and with no active name it stays where it was, clamped to the
    /// new list.
    pub fn set_env_config(
        &mut self,
        config: Option<EnvironmentConfig>,
        entries: Vec<EnvFile>,
        error: Option<String>,
    )
        requires
            old(self).wf(),
        ensures
            final(self).wf(),
            final(self).environment.entries@ == entries@,
            final(self).environment.config == config,
            final(self).environment.error == error,
            entries@.len() == 0 ==> final(self).environment.selection == 0,
            entries@.len() > 0 ==> ({
                let sel = final(self).environment.selection as int;
                let clamped: int = if old(self).environment.selection < entries@.len() - 1 {
                    old(self).environment.selection as int
                } else {
                    entries@.len() - 1
                };
                match config {
                    Option::Some(cfg) => match cfg.active {
                        Option::Some(a) => if exists|j: int|
                            0 <= j < entries@.len() && (#[trigger] entries@[j].name@) == a@ {
                            &&& 0 <= sel < entries@.len()
                            &&& entries@[sel].name@ == a@
                            &&& forall|j: int| 0 <= j < sel ==> (#[trigger] entries@[j].name@)
                                != a@
                        } else {
                            sel == 0
                        },
                        Option::None => sel == clamped,
                    },
                    Option::None => sel == clamped,
                }
            }),
    {
        let mut selected: usize = 0;
        if entries.len() > 0 {
            let mut has_active = false;
            let mut active_pos: Option<usize> = Option::None;
            match &config {
                Option::Some(cfg) => match &cfg.active {
                    Option::Some(active) => {
                        has_active = true;
                        active_pos = find_env_position(&entries, active);
                    },
                    Option::None => {},
                },
                Option::None => {},
            }
            if has_active {
                selected = match active_pos {
                    Option::Some(p) => p,
                    Option::None => 0,
                };
            } else {
                let limit = entries.len() - 1;
                selected = if self.environment.selection < limit {
                    self.environment.selection
                } else {
                    limit
                };
            }
        }
        self.environment.entries = entries;
        self.environment.selection = selected;
        self.environment.config = config;
        self.environment.error = error;
    }

    /// Stores a loaded environment preview; the scroll resets.
    pub fn set_env_preview(&mut self, preview: Vec<(String, String)>)
        requires
            old(self).wf(),
        ensures
            final(self).wf(),
            final(self).environment.preview@ == preview@,
            final(self).environment.preview_error is None,
            final(self).environment.preview_scroll == 0,
    {
        self.environment.preview = preview;
        self.environment.preview_error = Option::None;
        self.environment.preview_scroll = 0;
    }

    /// Records a preview failure; the scroll resets.
    pub fn set_env_preview_error(&mut self, message: String)
        requires
            old(self).wf(),
        ensures
            final(self).wf(),
            final(self).environment.preview@.len() == 0,
            final(self).environment.preview_error == Option::Some(message),
            final(self).environment.preview_scroll == 0,
    {
        self.environment.preview = Vec::new();
        self.environment.preview_error = Option::Some(message);
        self.environment.preview_scroll = 0;
    }

    /// Hands the pending run out to the caller, leaving none behind.
    pub fn take_result(&mut self) -> (r: Option<(String, Vec<String>)>)
        requires
            old(self).wf(),
        ensures
            final(self).wf(),
            r == old(self).result,
            final(self).result is None,
    {
        let mut taken: Option<(String, Vec<String>)> = Option::None;
        core::mem::swap(&mut taken, &mut self.result);
        taken
    }

    /// Marks the blocking run as started.
    pub fn begin_run(&mut self)
        requires
            old(self).wf(),
        ensures
            final(self).wf(),
            final(self).screen == Screen::Running,
    {
        self.screen = Screen::Running;
    }

    /// Finishes a run: the record is prepended and selected, the form is
    /// cleared, and the result screen is shown.
    pub fn run_finished(&mut self, entry: HistoryEntry)
        requires
            old(self).wf(),
        ensures
            final(self).wf(),
            final(self).history.entries@ == seq![entry] + old(self).history.entries@,
            final(self).history.selection == 0,
            final(self).screen == Screen::RunResult,
            final(self).run_output_scroll == 0,
            final(self).result is None,
    {
        self.add_history_entry(entry);
        self.back_to_script_select();
        self.reset_run_output_scroll();
        self.screen = Screen::RunResult;
    }
}

/// The first position of an environment file with the given name.
fn find_env_position(entries: &Vec<EnvFile>, name: &String) -> (r: Option<usize>)
    ensures
        match r {
            Option::Some(p) => p < entries@.len() && entries@[p as int].name@ == name@ && (forall|
                j: int,
            |
                0 <= j < p ==> #[trigger] entries@[j].name@ != name@),
            Option::None => forall|j: int|
                0 <= j < entries@.len() ==> #[trigger] entries@[j].name@ != name@,
        },
{
    let target = crate::text::str_to_chars(name.as_str());
    let mut i: usize = 0;
    while i < entries.len()
        invariant
            i <= entries@.len(),
            target@ == name@,
            forall|j: int| 0 <= j < i ==> #[trigger] entries@[j].name@ != name@,
        decreases entries@.len() - i,
    {
        let candidate = crate::text::str_to_chars(entries[i].name.as_str());
        if crate::text::eq_chars(&candidate, &target) {
            return Option::Some(i);
        }
        i = i + 1;
    }
    Option::None
}

/// The default text seeded into a field's buffer: the active environment's
/// value for the lower-cased field name, or nothing.
pub open spec fn seed_of(config: Option<EnvironmentConfig>, name: Seq<char>) -> Seq<char> {
    match config {
        Option::Some(cfg) => match assoc_get(
            cfg.defaults.deep_view(),
            crate::text::lower_seq(name),
        ) {
            Option::Some(v) => v,
            Option::None => Seq::empty(),
        },
        Option::None => Seq::empty(),
    }
}

/// The argument flag a field contributes: its declared flag, or `--` and its
/// name.
pub open spec fn flag_of(f: crate::schema::FieldView) -> Seq<char> {
    match f.arg {
        Option::Some(a) => a,
        Option::None => "--"@ + f.name,
    }
}

/// Whether the validator rejects this field and input.
pub open spec fn is_rejected(n: crate::validate::NormalizedSpec) -> bool {
    n is RequiredMissing || n is BadChoice || n is BadNumber || n is BadBoolean
}

/// The first field index at or after `k` whose input the validator rejects.
pub open spec fn first_invalid_from(fields: Seq<Field>, inputs: Seq<Seq<char>>, k: int) -> Option<
    int,
>
    decreases fields.len() - k,
{
    if k < 0 || k >= fields.len() {
        Option::None
    } else if is_rejected(crate::validate::normalize_spec(fields[k]@, inputs[k])) {
        Option::Some(k)
    } else {
        first_invalid_from(fields, inputs, k + 1)
    }
}

/// The flag/value pairs contributed by the fields from `k` on; a rejected
/// field contributes nothing, but a full submission only stands when none is
/// rejected.
pub open spec fn args_from(fields: Seq<Field>, inputs: Seq<Seq<char>>, k: int) -> Seq<Seq<char>>
    decreases fields.len() - k,
{
    if k < 0 || k >= fields.len() {
        Seq::empty()
    } else {
        let rest = args_from(fields, inputs, k + 1);
        match crate::validate::normalize_spec(fields[k]@, inputs[k]) {
            crate::validate::NormalizedSpec::Value(v) => seq![flag_of(fields[k]@), v] + rest,
            _ => rest,
        }
    }
}

/// The message attached to a rejected field.
pub open spec fn rejection_msg(f: crate::schema::FieldView, input: Seq<char>) -> Seq<char> {
    match crate::validate::normalize_spec(f, input) {
        crate::validate::NormalizedSpec::RequiredMissing => "Value required"@,
        crate::validate::NormalizedSpec::BadNumber => "Enter a valid number"@,
        crate::validate::NormalizedSpec::BadBoolean => "Enter true/false (or yes/no)"@,
        crate::validate::NormalizedSpec::BadChoice => "Allowed values: "@ + (match f.choices {
            Option::Some(cs) => crate::validate::join_with(cs, ", "@),
            Option::None => Seq::empty(),
        }),
        _ => Seq::empty(),
    }
}

impl App {
    /// Appends one typed character to the focused field's buffer; any shown
    /// validation error is cleared.
    pub fn append_field_char(&mut self, c: char)
        requires
            old(self).wf(),
        ensures
            final(self).wf(),
            old(self).field_input.fields@.len() > 0 ==> ({
                let deep = old(self).field_input.field_inputs.deep_view();
                let i = old(self).field_input.field_index as int;
                final(self).field_input.field_inputs.deep_view() == deep.update(
                    i,
                    deep[i].push(c),
                ) && final(self).field_input.error is None && final(self).field_input.fields@
                    == old(self).field_input.fields@
            }),
            old(self).field_input.fields@.len() == 0 ==> *final(self) == *old(self),
    {
        let idx = self.field_input.field_index;
        if idx < self.field_input.field_inputs.len() {
            let ghost deep = self.field_input.field_inputs.deep_view();
            let mut buf = self.field_input.field_inputs.remove(idx);
            buf.push(c);
            self.field_input.field_inputs.insert(idx, buf);
            self.field_input.error = Option::None;
            proof {
                assert(self.field_input.field_inputs.deep_view() =~~= deep.update(
                    idx as int,
                    deep[idx as int].push(c),
                ));
            }
        }
    }

    /// Removes the last character of the focused field's buffer.
    pub fn pop_field_char(&mut self)
        requires
            old(self).wf(),
        ensures
            final(self).wf(),
            old(self).field_input.fields@.len() > 0 ==> ({
                let deep = old(self).field_input.field_inputs.deep_view();
                let i = old(self).field_input.field_index as int;
                final(self).field_input.field_inputs.deep_view() == deep.update(
                    i,
                    (if deep[i].len() > 0 {
                        deep[i].drop_last()
                    } else {
                        deep[i]
                    }),
                ) && final(self).field_input.error is None && final(self).field_input.fields@
                    == old(self).field_input.fields@
            }),
            old(self).field_input.fields@.len() == 0 ==> *final(self) == *old(self),
    {
        let idx = self.field_input.field_index;
        if idx < self.field_input.field_inputs.len() {
            let ghost deep = self.field_input.field_inputs.deep_view();
            let mut buf = self.field_input.field_inputs.remove(idx);
            if buf.len() > 0 {
                buf.pop();
            }
            self.field_input.field_inputs.insert(idx, buf);
            self.field_input.error = Option::None;
            proof {
                assert(self.field_input.field_inputs.deep_view() =~~= deep.update(
                    idx as int,
                    (if deep[idx as int].len() > 0 {
                        deep[idx as int].drop_last()
                    } else {
                        deep[idx as int]
                    }),
                ));
            }
        }
    }

    /// Loads a schema into the input form: fields come up in declared
    /// order, each buffer pre-filled from the active environment's defaults
    /// by lower-cased field name. A schema without fields skips the form and
    /// queues the run with no arguments.
    pub fn schema_loaded(&mut self, script: String, schema: Schema)
        requires
            old(self).wf(),
        ensures
            final(self).wf(),
            final(self).field_input.fields@ == crate::schema::sort_by_order_spec(schema.fields@),
            crate::schema::sorted_by_order(final(self).field_input.fields@),
            final(self).field_input.fields@.to_multiset() == schema.fields@.to_multiset(),
            final(self).field_input.args@.len() == 0,
            final(self).field_input.field_inputs@.len()
                == final(self).field_input.fields@.len(),
            forall|i: int|
                0 <= i < final(self).field_input.fields@.len()
                    ==> #[trigger] final(self).field_input.field_inputs@[i]@ == seed_of(
                    old(self).environment.config,
                    final(self).field_input.fields@[i]@.name,
                ),
            final(self).field_input.field_index == 0,
            final(self).field_input.error is None,
            final(self).field_input.selected_script matches Option::Some(sel) && sel@ == script@,
            schema.fields@.len() == 0 ==> (final(self).result matches Option::Some(r) && r.0@
                == script@ && r.1@.len() == 0) && final(self).screen == old(self).screen,
            schema.fields@.len() > 0 ==> final(self).screen == Screen::FieldInput
                && final(self).result == old(self).result,
            final(self).history == old(self).history,
            final(self).environment == old(self).environment,
    {
        broadcast use vstd::seq_lib::group_to_multiset_ensures;

        let Schema { name, description, tags, fields, outputs, queue } = schema;
        let sorted = crate::schema::sort_fields_by_order(fields);
        let mut buffers: Vec<Vec<char>> = Vec::new();
        let mut i: usize = 0;
        while i < sorted.len()
            invariant
                i <= sorted@.len(),
                buffers@.len() == i,
                forall|j: int|
                    0 <= j < i ==> #[trigger] buffers@[j]@ == seed_of(
                        self.environment.config,
                        sorted@[j]@.name,
                    ),
                self.environment == old(self).environment,
            decreases sorted@.len() - i,
        {
            let key = crate::text::to_lower(&crate::text::str_to_chars(sorted[i].name.as_str()));
            let seed: Vec<char> = match &self.environment.config {
                Option::Some(cfg) => match crate::envfile::lookup_default(&cfg.defaults, &key) {
                    Option::Some(v) => crate::text::str_to_chars(v.as_str()),
                    Option::None => Vec::new(),
                },
                Option::None => Vec::new(),
            };
            proof {
                assert(seed@ =~= seed_of(self.environment.config, sorted@[i as int]@.name));
            }
            buffers.push(seed);
            i = i + 1;
        }
        self.field_input.schema_name = Option::Some(name.clone());
        self.field_input.schema_description = crate::schema::clone_opt_string(&description);
        let cached = Schema {
            name,
            description,
            tags,
            fields: crate::schema::clone_fields(&sorted),
            outputs,
            queue,
        };
        self.navigation.schema_cache = Option::Some((script.clone(), cached));
        let empty = sorted.len() == 0;
        self.field_input.fields = sorted;
        self.field_input.field_inputs = buffers;
        self.field_input.field_index = 0;
        self.field_input.args = Vec::new();
        self.field_input.error = Option::None;
        self.field_input.selected_script = Option::Some(script.clone());
        if empty {
            self.result = Option::Some((script, Vec::new()));
        } else {
            self.screen = Screen::FieldInput;
        }
    }

    /// The cached schema for a script, when the one-entry cache holds it.
    pub fn cached_schema(&self, script: &str) -> (r: Option<Schema>)
        ensures
            match r {
                Option::Some(sch) => self.navigation.schema_cache matches Option::Some(c) && c.0@
                    == script@ && sch@ == c.1@,
                Option::None => (self.navigation.schema_cache matches Option::Some(c) ==> c.0@
                    != script@),
            },
    {
        match &self.navigation.schema_cache {
            Option::Some(c) => {
                let key = crate::text::str_to_chars(c.0.as_str());
                let want = crate::text::str_to_chars(script);
                if crate::text::eq_chars(&key, &want) {
                    Option::Some(c.1.clone())
                } else {
                    Option::None
                }
            },
            Option::None => Option::None,
        }
    }

    /// Stores a loaded schema preview for the selected script.
    pub fn set_schema_preview(&mut self, script: String, schema: Schema)
        requires
            old(self).wf(),
        ensures
            final(self).wf(),
            final(self).navigation.schema_preview matches Option::Some(p) && p.fields@
                == crate::schema::sort_by_order_spec(schema.fields@) && crate::schema::sorted_by_order(
                p.fields@,
            ) && p.fields@.to_multiset() == schema.fields@.to_multiset(),
            final(self).navigation.schema_preview_error is None,
            final(self).navigation.preview_script matches Option::Some(ps) && ps@ == script@,
    {
        let Schema { name, description, tags, fields, outputs, queue } = schema;
        let sorted = crate::schema::sort_fields_by_order(fields);
        let stored = Schema { name, description, tags, fields: sorted, outputs, queue };
        self.navigation.schema_preview = Option::Some(stored);
        self.navigation.schema_preview_error = Option::None;
        self.navigation.preview_script = Option::Some(script);
    }

    /// Records that the selected script's schema would not load; the preview
    /// pane shows the message instead.
    pub fn set_schema_preview_error(&mut self, script: String, message: String)
        requires
            old(self).wf(),
        ensures
            final(self).wf(),
            final(self).navigation.schema_preview is None,
            final(self).navigation.schema_preview_error == Option::Some(message),
            final(self).navigation.preview_script matches Option::Some(ps) && ps@ == script@,
    {
        self.navigation.schema_preview = Option::None;
        self.navigation.schema_preview_error = Option::Some(message);
        self.navigation.preview_script = Option::Some(script);
    }

    /// Clears the preview pane, for a selection that is not a script.
    pub fn clear_schema_preview(&mut self)
        requires
            old(self).wf(),
        ensures
            final(self).wf(),
            final(self).navigation.schema_preview is None,
            final(self).navigation.schema_preview_error is None,
            final(self).navigation.preview_script is None,
    {
        self.navigation.schema_preview = Option::None;
        self.navigation.schema_preview_error = Option::None;
        self.navigation.preview_script = Option::None;
    }

    /// Submits the form: fields are validated in display order; the first
    /// failure keeps the form open, focuses that field and attaches its
    /// message; full success queues the run with the built argument vector.
    pub fn submit_form(&mut self)
        requires
            old(self).wf(),
        ensures
            final(self).wf(),
            ({
                let fields = old(self).field_input.fields@;
                let inputs = old(self).field_input.field_inputs.deep_view();
                match first_invalid_from(fields, inputs, 0) {
                    Option::Some(idx) => {
                        &&& final(self).field_input.field_index == idx
                        &&& final(self).field_input.error matches Option::Some(msg) && msg@
                            == fields[idx]@.name + ": "@ + rejection_msg(fields[idx]@, inputs[idx])
                        &&& final(self).result == old(self).result
                        &&& final(self).should_quit == old(self).should_quit
                        &&& final(self).field_input.fields@ == fields
                        &&& final(self).field_input.field_inputs@ == old(
                            self,
                        ).field_input.field_inputs@
                        &&& final(self).field_input.args@ == old(self).field_input.args@
                        &&& final(self).field_input.selected_script == old(
                            self,
                        ).field_input.selected_script
                        &&& final(self).field_input.schema_name == old(
                            self,
                        ).field_input.schema_name
                        &&& final(self).field_input.schema_description == old(
                            self,
                        ).field_input.schema_description
                    },
                    Option::None => {
                        &&& final(self).field_input.error is None
                        &&& final(self).field_input.args.deep_view() == args_from(
                            fields,
                            inputs,
                            0,
                        )
                        &&& match old(self).field_input.selected_script {
                            Option::Some(script) => final(self).result matches Option::Some(r)
                                && r.0@ == script@ && r.1.deep_view() == args_from(
                                fields,
                                inputs,
                                0,
                            ) && final(self).should_quit == old(self).should_quit,
                            Option::None => final(self).should_quit,
                        }
                    },
                }
            }),
            final(self).screen == old(self).screen,
            final(self).navigation == old(self).navigation,
            final(self).environment == old(self).environment,
            final(self).search == old(self).search,
            final(self).history == old(self).history,
            final(self).error_message == old(self).error_message,
            final(self).env_return == old(self).env_return,
            final(self).run_output_scroll == old(self).run_output_scroll,
            final(self).workspace_root == old(self).workspace_root,
    {
        let ghost fields = self.field_input.fields@;
        let ghost inputs = self.field_input.field_inputs.deep_view();
        proof {
            assert(inputs.len() == fields.len());
            assert forall|j: int| 0 <= j < fields.len() implies inputs[j]
                == self.field_input.field_inputs@[j]@ by {
                assert(inputs[j] == self.field_input.field_inputs@[j].deep_view());
            }
        }
        let mut args: Vec<String> = Vec::new();
        let mut idx: usize = 0;
        proof {
            assert(args.deep_view() =~~= Seq::<Seq<char>>::empty());
            assert(args.deep_view() + args_from(fields, inputs, 0) =~= args_from(
                fields,
                inputs,
                0,
            ));
        }
        while idx < self.field_input.fields.len()
            invariant
                old(self).wf(),
                *self == *old(self),
                idx <= fields.len(),
                fields == self.field_input.fields@,
                inputs == self.field_input.field_inputs.deep_view(),
                inputs.len() == fields.len(),
                forall|j: int|
                    0 <= j < fields.len() ==> inputs[j]
                        == #[trigger] self.field_input.field_inputs@[j]@,
                first_invalid_from(fields, inputs, 0) == first_invalid_from(
                    fields,
                    inputs,
                    idx as int,
                ),
                args_from(fields, inputs, 0) == args.deep_view() + args_from(
                    fields,
                    inputs,
                    idx as int,
                ),
            decreases fields.len() - idx,
        {
            let input_s = crate::text::chars_to_string(&self.field_input.field_inputs[idx]);
            let outcome = crate::validate::normalize_input(
                &self.field_input.fields[idx],
                input_s.as_str(),
            );
            match outcome {
                Ok(normalized) => {
                    match normalized {
                        Option::Some(value) => {
                            let ghost old_deep = args.deep_view();
                            let flag: String = match &self.field_input.fields[idx].arg {
                                Option::Some(a) => a.clone(),
                                Option::None => {
                                    let mut fc: Vec<char> = Vec::new();
                                    fc.push('-');
                                    fc.push('-');
                                    let nc = crate::text::str_to_chars(
                                        self.field_input.fields[idx].name.as_str(),
                                    );
                                    crate::text::append_chars(&mut fc, &nc);
                                    proof {
                                        reveal_strlit("--");
                                        assert(fc@ =~= "--"@ + fields[idx as int]@.name);
                                    }
                                    crate::text::chars_to_string(&fc)
                                },
                            };
                            args.push(flag);
                            args.push(value);
                            proof {
                                assert(args.deep_view() =~~= old_deep.push(
                                    flag_of(fields[idx as int]@),
                                ).push(
                                    crate::validate::normalize_spec(
                                        fields[idx as int]@,
                                        inputs[idx as int],
                                    )->Value_0,
                                ));
                                assert(old_deep + (seq![
                                    flag_of(fields[idx as int]@),
                                    crate::validate::normalize_spec(
                                        fields[idx as int]@,
                                        inputs[idx as int],
                                    )->Value_0,
                                ] + args_from(fields, inputs, idx + 1)) =~= args.deep_view()
                                    + args_from(fields, inputs, idx + 1));
                            }
                        },
                        Option::None => {},
                    }
                },
                Err(e) => {
                    let mut msg = crate::text::str_to_chars(
                        self.field_input.fields[idx].name.as_str(),
                    );
                    let sep = crate::text::str_to_chars(": ");
                    crate::text::append_chars(&mut msg, &sep);
                    let detail = e.message();
                    let detail_chars = crate::text::str_to_chars(detail.as_str());
                    crate::text::append_chars(&mut msg, &detail_chars);
                    proof {
                        assert(msg@ =~= fields[idx as int]@.name + ": "@ + rejection_msg(
                            fields[idx as int]@,
                            inputs[idx as int],
                        ));
                    }
                    self.field_input.error = Option::Some(crate::text::chars_to_string(&msg));
                    self.field_input.field_index = idx;
                    return;
                },
            }
            idx = idx + 1;
        }
        proof {
            assert(args_from(fields, inputs, 0) =~= args.deep_view());
        }
        self.field_input.error = Option::None;
        let stored = crate::schema::clone_string_vec(&args);
        self.field_input.args = stored;
        proof {
            assert(self.field_input.args.deep_view() =~~= args.deep_view());
        }
        match &self.field_input.selected_script {
            Option::Some(script) => {
                let script_c = script.clone();
                self.result = Option::Some((script_c, args));
            },
            Option::None => {
                self.should_quit = true;
            },
        }
    }
}

/// What the schema preview pane shows of a field.
#[derive(Debug)]
pub struct SchemaFieldPreview {
    pub name: String,
    pub prompt: Option<String>,
    pub kind: String,
    pub required: bool,
}

/// What the schema preview pane shows of an output.
#[derive(Debug)]
pub struct SchemaOutputPreview {
    pub name: String,
    pub kind: String,
}

/// One axis of a previewed batch matrix.
#[derive(Debug)]
pub struct MatrixPreview {
    pub name: String,
    pub values: Vec<String>,
}

/// One previewed case assignment.
#[derive(Debug)]
pub struct QueueCaseValuePreview {
    pub name: String,
    pub value: String,
}

/// One previewed batch case.
#[derive(Debug)]
pub struct QueueCasePreview {
    pub name: Option<String>,
    pub values: Vec<QueueCaseValuePreview>,
}

/// The previewed batch specification: the matrix wins when both forms are
/// declared.
#[derive(Debug)]
pub enum QueuePreview {
    Matrix { values: Vec<MatrixPreview> },
    Cases { cases: Vec<QueueCasePreview> },
}

/// The render-ready projection of a schema.
#[derive(Debug)]
pub struct SchemaPreview {
    pub name: String,
    pub description: Option<String>,
    pub tags: Vec<String>,
    pub fields: Vec<SchemaFieldPreview>,
    pub outputs: Vec<SchemaOutputPreview>,
    pub queue: Option<QueuePreview>,
}

/// Projects a schema into what the preview pane shows: each field's name,
/// prompt, kind and effective required flag; the declared tags and outputs
/// or none; the matrix form of the queue when present, else its cases.
pub fn schema_to_preview(schema: &Schema) -> (r: SchemaPreview)
    ensures
        r.name@ == schema@.name,
        crate::schema::opt_str_view(r.description) == schema@.description,
        schema@.tags matches Option::Some(ts) ==> r.tags.deep_view() == ts,
        schema@.tags is None ==> r.tags.deep_view().len() == 0,
        r.fields@.len() == schema@.fields.len(),
        forall|i: int|
            0 <= i < schema@.fields.len() ==> {
                &&& (#[trigger] r.fields@[i]).name@ == schema@.fields[i].name
                &&& crate::schema::opt_str_view(r.fields@[i].prompt) == schema@.fields[i].prompt
                &&& r.fields@[i].kind@ == schema@.fields[i].kind
                &&& r.fields@[i].required == (schema@.fields[i].required == Option::Some(true))
            },
        schema@.outputs matches Option::Some(os) ==> r.outputs@.len() == os.len() && (forall|
            i: int,
        |
            0 <= i < os.len() ==> (#[trigger] r.outputs@[i]).name@ == os[i].name
                && r.outputs@[i].kind@ == os[i].kind),
        schema@.outputs is None ==> r.outputs@.len() == 0,
        (r.queue is Some) == (schema@.queue is Some),
        schema@.queue matches Option::Some(qv) ==> (r.queue matches Option::Some(qp)
            && queue_previewed(qp, qv)),
{
    let name = schema.name.clone();
    let description = crate::schema::clone_opt_string(&schema.description);
    let tags: Vec<String> = match &schema.tags {
        Option::Some(ts) => crate::schema::clone_string_vec(ts),
        Option::None => Vec::new(),
    };
    proof {
        if schema.tags is Some {
            assert(tags.deep_view() =~~= schema.tags->Some_0.deep_view());
        } else {
            assert(tags.deep_view() =~~= Seq::<Seq<char>>::empty());
        }
    }
    let mut fields: Vec<SchemaFieldPreview> = Vec::new();
    let mut i: usize = 0;
    while i < schema.fields.len()
        invariant
            i <= schema.fields@.len(),
            fields@.len() == i,
            forall|j: int|
                0 <= j < i ==> {
                    &&& (#[trigger] fields@[j]).name@ == schema@.fields[j].name
                    &&& crate::schema::opt_str_view(fields@[j].prompt) == schema@.fields[j].prompt
                    &&& fields@[j].kind@ == schema@.fields[j].kind
                    &&& fields@[j].required == (schema@.fields[j].required == Option::Some(true))
                },
        decreases schema.fields@.len() - i,
    {
        let f = &schema.fields[i];
        let required = match f.required {
            Option::Some(b) => b,
            Option::None => false,
        };
        fields.push(
            SchemaFieldPreview {
                name: f.name.clone(),
                prompt: crate::schema::clone_opt_string(&f.prompt),
                kind: f.kind.clone(),
                required,
            },
        );
        i = i + 1;
    }
    let mut outputs: Vec<SchemaOutputPreview> = Vec::new();
    match &schema.outputs {
        Option::Some(os) => {
            let mut k: usize = 0;
            while k < os.len()
                invariant
                    outputs_previewed(outputs@, os@, k as int),
                    k <= os@.len(),
                    outputs@.len() == k,
                decreases os@.len() - k,
            {
                let o = &os[k];
                outputs.push(
                    SchemaOutputPreview { name: o.name.clone(), kind: o.kind.clone() },
                );
                k = k + 1;
            }
        },
        Option::None => {},
    }
    let queue: Option<QueuePreview> = match &schema.queue {
        Option::Some(q) => Option::Some(queue_to_preview(q)),
        Option::None => Option::None,
    };
    SchemaPreview { name, description, tags, fields, outputs, queue }
}

/// The first `k` previewed outputs mirror the declared ones.
pub open spec fn outputs_previewed(
    previews: Seq<SchemaOutputPreview>,
    outputs: Seq<OutputField>,
    k: int,
) -> bool {
    forall|i: int|
        0 <= i < k ==> (#[trigger] previews[i]).name@ == outputs[i]@.name && previews[i].kind@
            == outputs[i]@.kind
}

/// The preview of one matrix axis mirrors the declared one.
pub open spec fn matrix_axis_previewed(p: MatrixPreview, m: crate::schema::MatrixValueView) -> bool {
    p.name@ == m.name && p.values.deep_view() == m.values
}

/// The preview of one batch case mirrors the declared one, assignment by
/// assignment.
pub open spec fn case_previewed(p: QueueCasePreview, c: crate::schema::QueueCaseView) -> bool {
    &&& crate::schema::opt_str_view(p.name) == c.name
    &&& p.values@.len() == c.values.len()
    &&& forall|j: int|
        0 <= j < c.values.len() ==> (#[trigger] p.values@[j]).name@ == c.values[j].name
            && p.values@[j].value@ == c.values[j].value
}

/// The previewed batch specification mirrors the declared one: the matrix
/// axes when a matrix is declared, else the cases, else an empty case list.
pub open spec fn queue_previewed(p: QueuePreview, q: crate::schema::QueueSpecView) -> bool {
    match q.matrix {
        Option::Some(m) => p matches QueuePreview::Matrix { values } && values@.len()
            == m.values.len() && (forall|i: int|
            0 <= i < m.values.len() ==> matrix_axis_previewed(#[trigger] values@[i], m.values[i])),
        Option::None => match q.cases {
            Option::Some(cs) => p matches QueuePreview::Cases { cases } && cases@.len()
                == cs.len() && (forall|i: int|
                0 <= i < cs.len() ==> case_previewed(#[trigger] cases@[i], cs[i])),
            Option::None => p matches QueuePreview::Cases { cases } && cases@.len() == 0,
        },
    }
}

/// The matrix wins when a queue declares both forms; a queue with neither
/// previews as an empty case list.
fn queue_to_preview(q: &QueueSpec) -> (r: QueuePreview)
    ensures
        queue_previewed(r, q@),
{
    match &q.matrix {
        Option::Some(m) => {
            let mut values: Vec<MatrixPreview> = Vec::new();
            let mut i: usize = 0;
            while i < m.values.len()
                invariant
                    i <= m.values@.len(),
                    values@.len() == i,
                    forall|j: int|
                        0 <= j < i ==> matrix_axis_previewed(
                            #[trigger] values@[j],
                            m@.values[j],
                        ),
                decreases m.values@.len() - i,
            {
                let v = &m.values[i];
                let copied = crate::schema::clone_string_vec(&v.values);
                proof {
                    assert(copied.deep_view() =~~= v.values.deep_view());
                }
                values.push(MatrixPreview { name: v.name.clone(), values: copied });
                i = i + 1;
            }
            QueuePreview::Matrix { values }
        },
        Option::None => {
            let mut cases: Vec<QueueCasePreview> = Vec::new();
            match &q.cases {
                Option::Some(cs) => {
                    let mut i: usize = 0;
                    while i < cs.len()
                        invariant
                            i <= cs@.len(),
                            cases@.len() == i,
                            forall|j: int|
                                0 <= j < i ==> case_previewed(#[trigger] cases@[j], cs@[j]@),
                        decreases cs@.len() - i,
                    {
                        let c = &cs[i];
                        let mut vals: Vec<QueueCaseValuePreview> = Vec::new();
                        let mut k: usize = 0;
                        while k < c.values.len()
                            invariant
                                k <= c.values@.len(),
                                vals@.len() == k,
                                forall|j: int|
                                    0 <= j < k ==> (#[trigger] vals@[j]).name@
                                        == c.values@[j]@.name && vals@[j].value@
                                        == c.values@[j]@.value,
                            decreases c.values@.len() - k,
                        {
                            let cv = &c.values[k];
                            vals.push(
                                QueueCaseValuePreview {
                                    name: cv.name.clone(),
                                    value: cv.value.clone(),
                                },
                            );
                            k = k + 1;
                        }
                        cases.push(
                            QueueCasePreview {
                                name: crate::schema::clone_opt_string(&c.name),
                                values: vals,
                            },
                        );
                        i = i + 1;
                    }
                },
                Option::None => {},
            }
            QueuePreview::Cases { cases }
        },
    }
}

} // verus!
