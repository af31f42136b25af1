//! The interactive interface's state machine: a key in, the state and the
//! store changed. No terminal or rendering here.

use vstd::prelude::*;

use crate::commands::shown_id;
use crate::error::TodoError;
use crate::model::{
    clean_project_name, cycle_priority, toggle_status, NewTask, Priority, Project, Status, Task,
};
use crate::store::memory::TaskStore;
use crate::tui::grouping::{group_by_project, grouped, law_grouping_is_stable};
use crate::store::{Change, ProjectFilter, StatusFilter, StoreView, TaskQuery};
use crate::text::{append, decimal, i64_text, is_blank, pop_char, push_char, to_owned_string};

verus! {

broadcast use vstd::seq::group_seq_axioms;

/// A key press, as the interface distinguishes them.
#[derive(Debug, Clone, Copy, PartialEq, Eq, Structural)]
pub enum Key {
    Char(char),
    Enter,
    Esc,
    Backspace,
    Tab,
    BackTab,
    Up,
    Down,
    Other,
}

/// Which pane has keyboard focus.
#[derive(Debug, Clone, Copy, PartialEq, Eq, Structural)]
pub enum Focus {
    Projects,
    Tasks,
}

/// Ordering of the task list. Default is by priority (the store's order);
/// `Project` groups tasks of the same project together.
#[derive(Debug, Clone, Copy, PartialEq, Eq, Structural)]
pub enum SortMode {
    Priority,
    Project,
}

/// One line in the grouped overview: a project header or a task under it.
#[derive(Debug, Clone)]
pub enum OverviewRow {
    Header { id: i64, name: String, count: usize },
    Task(Task),
}

/// An edit applied to the selected task while the overview is open.
#[derive(Debug, Clone, Copy, PartialEq, Eq, Structural)]
pub enum OverviewAct {
    Toggle,
    Priority,
    Delete,
}

/// What the interface is currently doing.
#[derive(Debug, Clone, PartialEq, Eq)]
pub enum Mode {
    /// Browsing.
    Normal,
    /// Choosing which project a new task goes to (compact add flow).
    PickingProject,
    /// Typing a new task title; holds the in-progress buffer.
    AddingTask(String),
    /// Typing a new project name.
    AddingProject(String),
}

/// A reversible step recorded on the undo stack. Each variant is the
/// inverse operation needed to undo what the user just did.
#[derive(Debug, Clone)]
pub enum UndoAction {
    /// Undo a status toggle: set the task back to `prev`.
    Status { id: i64, prev: Status },
    /// Undo a priority change: set the task back to `prev`.
    Priority { id: i64, prev: Priority },
    /// Undo an add: remove the task that was created.
    RemoveTask { id: i64 },
    /// Undo a delete: re-insert the removed task verbatim.
    RestoreTask { task: Task },
    /// Undo a project creation: remove the project that was created.
    RemoveProject { id: i64 },
}

impl UndoAction {
    /// Short label for the status line, e.g. "delete".
    pub open spec fn label_spec(&self) -> Seq<char> {
        match self {
            UndoAction::Status { .. } => "toggle"@,
            UndoAction::Priority { .. } => "priority"@,
            UndoAction::RemoveTask { .. } => "add"@,
            UndoAction::RestoreTask { .. } => "delete"@,
            UndoAction::RemoveProject { .. } => "new project"@,
        }
    }

    /// Short label for the status line, e.g. "delete".
    pub fn label(&self) -> (r: &'static str)
        ensures
            r@ == self.label_spec(),
    {
        match self {
            UndoAction::Status { .. } => "toggle",
            UndoAction::Priority { .. } => "priority",
            UndoAction::RemoveTask { .. } => "add",
            UndoAction::RestoreTask { .. } => "delete",
            UndoAction::RemoveProject { .. } => "new project",
        }
    }
}

/// The message of a missing task or project.
pub open spec fn not_found_text(id: i64) -> Seq<char> {
    "task "@ + decimal(id as int) + " not found"@
}

/// What applying an undo step does to the store: the new store, or the
/// message of the error that left it unchanged.
pub open spec fn undo_outcome(v: StoreView, a: UndoAction) -> Result<StoreView, Seq<char>> {
    match a {
        UndoAction::Status { id, prev } => if v.has_task(id) {
            Ok(v.after_update(id, Task { status: prev, ..v.task(id) }, Change::SetStatus { id, status: prev }))
        } else {
            Err(not_found_text(id))
        },
        UndoAction::Priority { id, prev } => if v.has_task(id) {
            Ok(v.after_update(id, Task { priority: prev, ..v.task(id) }, Change::SetPriority { id, priority: prev }))
        } else {
            Err(not_found_text(id))
        },
        UndoAction::RemoveTask { id } => if v.has_task(id) {
            Ok(v.after_remove(id))
        } else {
            Err(not_found_text(id))
        },
        UndoAction::RestoreTask { task } => match task.id {
            None => Err("invalid input: "@ + "cannot restore a task without an id"@),
            Some(id) => if v.has_task(id) {
                Err("storage failure: "@ + crate::store::memory::duplicate_task_id())
            } else if id >= v.next_task_id && id == i64::MAX {
                Err("storage failure: "@ + crate::store::memory::task_ids_exhausted())
            } else {
                Ok(v.restored(task))
            },
        },
        UndoAction::RemoveProject { id } => if id == v.inbox_id() {
            Err("invalid input: "@ + "cannot delete the Inbox project"@)
        } else if !v.has_project(id) {
            Err(not_found_text(id))
        } else {
            Ok(v.after_remove_project(id))
        },
    }
}

/// A cursor kept in range after its list was reloaded: unchanged when it
/// still points at an item, else at the last item (0 for an empty list).
pub open spec fn clamped_cursor(cursor: usize, len: nat) -> usize {
    if cursor >= len {
        if len == 0 {
            0
        } else {
            (len - 1) as usize
        }
    } else {
        cursor
    }
}

/// `index` moved by `delta`, kept within `[0, len - 1]`; 0 for an empty list.
pub open spec fn moved_index(index: int, delta: int, len: int) -> int {
    if len == 0 {
        0
    } else if index + delta < 0 {
        0
    } else if index + delta > len - 1 {
        len - 1
    } else {
        index + delta
    }
}

/// The overview rows for some projects: each project's header (with the
/// number of tasks shown) followed by its tasks.
pub open spec fn overview_rows_for(all: Seq<Task>, status: StatusFilter, projects: Seq<Project>) -> Seq<OverviewRow>
    decreases projects.len(),
{
    if projects.len() == 0 {
        Seq::empty()
    } else {
        let p = projects.last();
        let tasks = crate::store::listing(
            all,
            TaskQuery { status, project: ProjectFilter::Only(shown_id(p.id) as i64) },
        );
        overview_rows_for(all, status, projects.drop_last()) + seq![
            OverviewRow::Header { id: shown_id(p.id) as i64, name: p.name, count: tasks.len() as usize },
        ] + tasks.map_values(|t: Task| OverviewRow::Task(t))
    }
}


/// A task of the store's listing is a stored task, and the stored task
/// under its id.
proof fn lemma_listed_is_stored(v: StoreView, q: TaskQuery, t: Task)
    requires
        v.wf(),
        crate::store::listing(v.tasks, q).contains(t),
    ensures
        t.id is Some,
        v.has_task(t.id->0),
        v.task(t.id->0) == t,
{
    crate::store::lemma_listing_contains(v.tasks, q);
    let j = choose|j: int| 0 <= j < v.tasks.len() && v.tasks[j] == t;
    assert(v.tasks[j].id is Some);
    let id = t.id->0;
    assert(v.has_task(id));
    let k = v.task_pos(id);
    assert(v.tasks[k].id == Some(id));
    assert(k == j);
}

proof fn lemma_overview_rows_stored(all: Seq<Task>, status: StatusFilter, projects: Seq<Project>, t: Task)
    requires
        overview_rows_for(all, status, projects).contains(OverviewRow::Task(t)),
    ensures
        exists|q: TaskQuery| crate::store::listing(all, q).contains(t),
    decreases projects.len(),
{
    let p = projects.last();
    let q = TaskQuery { status, project: ProjectFilter::Only(shown_id(p.id) as i64) };
    let tasks = crate::store::listing(all, q);
    let front = overview_rows_for(all, status, projects.drop_last());
    let rows = overview_rows_for(all, status, projects);
    let i = choose|i: int| 0 <= i < rows.len() && rows[i] == OverviewRow::Task(t);
    if i < front.len() {
        assert(front[i] == rows[i]);
        lemma_overview_rows_stored(all, status, projects.drop_last(), t);
    } else if i == front.len() {
        assert(rows[i] is Header);
    } else {
        let k = i - front.len() - 1;
        assert(rows[i] == OverviewRow::Task(tasks[k]));
        assert(tasks[k] == t);
        assert(tasks.contains(t));
    }
}

/// Every project the store lists has an id, and there is at least one.
proof fn lemma_project_listing_ids(v: StoreView)
    requires
        v.wf(),
    ensures
        v.project_listing().len() == v.projects.len(),
        v.project_listing().len() > 0,
        forall|i: int| 0 <= i < v.project_listing().len() ==> (#[trigger] v.project_listing()[i]).id is Some,
{
    crate::store::order::lemma_sort_projects_contains(v.projects);
    assert forall|i: int| 0 <= i < v.project_listing().len() implies (#[trigger] v.project_listing()[i]).id is Some by {
        let x = v.project_listing()[i];
        assert(v.project_listing().contains(x));
        let j = choose|j: int| 0 <= j < v.projects.len() && v.projects[j] == x;
        assert(v.projects[j].id is Some);
    }
    let k = v.name_pos(crate::model::inbox_name());
    assert(0 <= k < v.projects.len());
}

/// `index` moved by `delta` and kept within `[0, len - 1]` (0 when `len`
/// is 0).
pub fn clamp_index(index: usize, delta: i32, len: usize) -> (r: usize)
    ensures
        r as int == moved_index(index as int, delta as int, len as int),
{
    if len == 0 {
        return 0;
    }
    let target: i128 = index as i128 + delta as i128;
    if target < 0 {
        0
    } else if target > (len - 1) as i128 {
        len - 1
    } else {
        target as usize
    }
}

/// The name shown for a project id: the first sidebar project with that
/// id, or `?`.
pub open spec fn project_label(projects: Seq<Project>, pid: i64) -> Seq<char> {
    if exists|i: int| 0 <= i < projects.len() && projects[i].id == Some(pid) {
        projects[choose|i: int|
            0 <= i < projects.len() && projects[i].id == Some(pid) && forall|j: int|
                0 <= j < i ==> projects[j].id != Some(pid)].name@
    } else {
        "?"@
    }
}

/// The interface state. The store is owned; its journal of changes is
/// handed to the persistence layer through `take_changes`.
pub struct App {
    /// The store the interface reads and edits.
    pub store: TaskStore,
    /// Inverse steps of the edits made, most recent last.
    pub undo_stack: Vec<UndoAction>,
    pub projects: Vec<Project>,
    pub selected_project: usize,
    pub tasks: Vec<Task>,
    pub selected: usize,
    pub focus: Focus,
    pub mode: Mode,
    pub show_done: bool,
    /// Compact view: no sidebar, open tasks across all projects. For the
    /// small Hyprland floating window.
    pub compact: bool,
    /// Overview: a single grouped list of every project and its tasks.
    pub show_overview: bool,
    pub overview_rows: Vec<OverviewRow>,
    pub overview_selected: usize,
    pub sort_mode: SortMode,
    /// Cursor in the project picker (PickingProject mode).
    pub pick_selected: usize,
    /// Project a queued AddingTask should land in; overrides the default.
    pub add_target: Option<i64>,
    pub status: String,
    pub should_quit: bool,
}

impl App {
    /// The store's state.
    pub open spec fn store_view(self) -> StoreView {
        self.store@
    }

    /// The undo stack, oldest first.
    pub open spec fn undo_view(self) -> Seq<UndoAction> {
        self.undo_stack@
    }

    /// The project a queued task addition is aimed at.
    pub open spec fn add_target_view(self) -> Option<i64> {
        self.add_target
    }

    /// The highlighted project's id, if a project is highlighted.
    pub open spec fn current_project_id_spec(self) -> Option<i64> {
        if self.selected_project < self.projects@.len() {
            self.projects@[self.selected_project as int].id
        } else {
            None
        }
    }

    /// The status filter of the task list and the overview.
    pub open spec fn status_filter(self) -> StatusFilter {
        if self.show_done {
            StatusFilter::All
        } else {
            StatusFilter::Only(Status::Open)
        }
    }

    /// Which tasks the task list shows: the highlighted project's (every
    /// project's in compact view), done ones only when shown.
    pub open spec fn task_query(self) -> TaskQuery {
        TaskQuery {
            status: self.status_filter(),
            project: if self.compact {
                ProjectFilter::Any
            } else {
                match self.current_project_id_spec() {
                    Some(id) => ProjectFilter::Only(id),
                    None => ProjectFilter::Any,
                }
            },
        }
    }

    /// The task list as it should read from the store: the store's order,
    /// regrouped by sidebar rank in project sort mode.
    pub open spec fn expected_tasks(self) -> Seq<Task> {
        let l = self.store_view().listing(self.task_query());
        if self.sort_mode == SortMode::Project {
            grouped(self.projects@, l)
        } else {
            l
        }
    }

    /// The overview as it should read from the store.
    pub open spec fn expected_overview(self) -> Seq<OverviewRow> {
        overview_rows_for(self.store_view().tasks, self.status_filter(), self.projects@)
    }

    /// The interface's invariant: the store is well formed, the task list
    /// matches the store, cursors point into their lists, every sidebar
    /// project has an id, and an open overview matches the store.
    pub open spec fn wf(self) -> bool {
        &&& self.store_view().wf()
        &&& self.tasks@ == self.expected_tasks()
        &&& self.selected == clamped_cursor(self.selected, self.tasks@.len())
        &&& self.selected_project == clamped_cursor(self.selected_project, self.projects@.len())
        &&& forall|i: int| 0 <= i < self.projects@.len() ==> (#[trigger] self.projects@[i]).id is Some
        &&& self.show_overview ==> {
            &&& self.overview_rows@ == self.expected_overview()
            &&& self.overview_selected == clamped_cursor(self.overview_selected, self.overview_rows@.len())
        }
    }

    /// `self` is `prev` with its task list reloaded from the store and the
    /// task cursor kept in range.
    pub open spec fn reloaded_from(self, prev: App) -> bool {
        &&& self == (App { tasks: self.tasks, selected: self.selected, ..prev })
        &&& self.tasks@ == self.expected_tasks()
        &&& self.selected == clamped_cursor(prev.selected, self.tasks@.len())
    }

    /// `self` is `prev` with its task list and overview rebuilt from the
    /// store and both cursors kept in range.
    pub open spec fn synced_from(self, prev: App) -> bool {
        &&& self == (App {
            tasks: self.tasks,
            selected: self.selected,
            overview_rows: self.overview_rows,
            overview_selected: self.overview_selected,
            ..prev
        })
        &&& self.tasks@ == self.expected_tasks()
        &&& self.selected == clamped_cursor(prev.selected, self.tasks@.len())
        &&& self.overview_rows@ == self.expected_overview()
        &&& self.overview_selected == clamped_cursor(prev.overview_selected, self.overview_rows@.len())
    }

    /// `self` is `prev` with the project list, the task list and the
    /// overview all reloaded from the store and every cursor kept in range.
    pub open spec fn refreshed_from(self, prev: App) -> bool {
        &&& self == (App {
            projects: self.projects,
            selected_project: self.selected_project,
            tasks: self.tasks,
            selected: self.selected,
            overview_rows: self.overview_rows,
            overview_selected: self.overview_selected,
            ..prev
        })
        &&& self.projects@ == prev.store_view().project_listing()
        &&& self.selected_project == clamped_cursor(prev.selected_project, self.projects@.len())
        &&& self.tasks@ == self.expected_tasks()
        &&& self.selected == clamped_cursor(prev.selected, self.tasks@.len())
        &&& self.overview_rows@ == self.expected_overview()
        &&& self.overview_selected == clamped_cursor(prev.overview_selected, self.overview_rows@.len())
    }

    /// The currently highlighted project, if any.
    pub fn current_project(&self) -> (r: Option<&Project>)
        ensures
            match r {
                Some(p) => self.selected_project < self.projects@.len() && *p
                    == self.projects@[self.selected_project as int],
                None => self.selected_project >= self.projects@.len(),
            },
    {
        if self.selected_project < self.projects.len() {
            Some(&self.projects[self.selected_project])
        } else {
            None
        }
    }

    /// The highlighted project's id.
    fn current_project_id(&self) -> (r: Option<i64>)
        ensures
            r == self.current_project_id_spec(),
    {
        match self.current_project() {
            Some(p) => p.id,
            None => None,
        }
    }

    /// Whether `r` is the name of the first sidebar project with id
    /// `project_id`, or None when no sidebar project has that id.
    pub open spec fn project_name_result(self, project_id: i64, r: Option<Seq<char>>) -> bool {
        match r {
            Some(n) => exists|i: int|
                0 <= i < self.projects@.len() && self.projects@[i].id == Some(project_id)
                    && n == self.projects@[i].name@ && forall|j: int|
                    0 <= j < i ==> self.projects@[j].id != Some(project_id),
            None => forall|i: int|
                0 <= i < self.projects@.len() ==> self.projects@[i].id != Some(project_id),
        }
    }

    /// Name of the project a task belongs to, for the compact all-projects
    /// view: the first sidebar project with that id.
    pub fn project_name(&self, project_id: i64) -> (r: Option<&str>)
        ensures
            self.project_name_result(project_id, crate::commands::opt_view(r)),
    {
        let mut i: usize = 0;
        while i < self.projects.len()
            invariant
                i <= self.projects@.len(),
                forall|j: int| 0 <= j < i ==> self.projects@[j].id != Some(project_id),
            decreases self.projects@.len() - i,
        {
            if self.projects[i].id == Some(project_id) {
                return Some(self.projects[i].name.as_str());
            }
            i = i + 1;
        }
        None
    }

    /// Reload only the task list for the selected project; clamp its cursor.
    fn reload_tasks(&mut self) -> (r: Result<(), TodoError>)
        requires
            old(self).store_view().wf(),
        ensures
            r is Ok,
            final(self).reloaded_from(*old(self)),
    {
        let status = if self.show_done {
            StatusFilter::All
        } else {
            StatusFilter::Only(Status::Open)
        };
        // Compact ignores the selected project and shows every project's work.
        let project = if self.compact {
            ProjectFilter::Any
        } else {
            match self.current_project_id() {
                Some(id) => ProjectFilter::Only(id),
                None => ProjectFilter::Any,
            }
        };
        let listed = self.store.list(TaskQuery { status, project })?;
        self.tasks = listed;
        self.apply_sort();
        if self.selected >= self.tasks.len() {
            self.selected = if self.tasks.len() == 0 {
                0
            } else {
                self.tasks.len() - 1
            };
        }
        Ok(())
    }

    /// Reorder the loaded tasks per the active sort mode. Priority order is
    /// the store's (already applied); Project groups by sidebar position
    /// with a stable sort, so each group keeps the order its tasks had.
    fn apply_sort(&mut self)
        ensures
            *final(self) == (App { tasks: final(self).tasks, ..*old(self) }),
            final(self).tasks@ == if old(self).sort_mode == SortMode::Project {
                grouped(old(self).projects@, old(self).tasks@)
            } else {
                old(self).tasks@
            },
    {
        if self.sort_mode != SortMode::Project {
            return;
        }
        self.tasks = group_by_project(&self.projects, &self.tasks);
    }

    /// Rebuild the grouped overview: each project header followed by its
    /// tasks (honoring show_done); clamp its cursor.
    fn build_overview(&mut self) -> (r: Result<(), TodoError>)
        requires
            old(self).store_view().wf(),
        ensures
            r is Ok,
            *final(self) == (App {
                overview_rows: final(self).overview_rows,
                overview_selected: final(self).overview_selected,
                ..*old(self)
            }),
            final(self).overview_rows@ == old(self).expected_overview(),
            final(self).overview_selected == clamped_cursor(
                old(self).overview_selected,
                final(self).overview_rows@.len(),
            ),
    {
        let status = if self.show_done {
            StatusFilter::All
        } else {
            StatusFilter::Only(Status::Open)
        };
        let mut rows: Vec<OverviewRow> = Vec::new();
        let mut i: usize = 0;
        while i < self.projects.len()
            invariant
                self.store_view().wf(),
                status == self.status_filter(),
                i <= self.projects@.len(),
                rows@ == overview_rows_for(self.store_view().tasks, status, self.projects@.take(i as int)),
            decreases self.projects@.len() - i,
        {
            let project = &self.projects[i];
            let id = project.id.unwrap_or(0);
            let tasks = self.store.list(TaskQuery { status, project: ProjectFilter::Only(id) })?;
            let ghost before = rows@;
            rows.push(OverviewRow::Header { id, name: project.name.clone(), count: tasks.len() });
            let mut j: usize = 0;
            while j < tasks.len()
                invariant
                    j <= tasks@.len(),
                    rows@ == before.push(OverviewRow::Header { id, name: project.name, count: tasks@.len() as usize })
                        + tasks@.take(j as int).map_values(|t: Task| OverviewRow::Task(t)),
                decreases tasks@.len() - j,
            {
                rows.push(OverviewRow::Task(tasks[j].duplicate()));
                assert(tasks@.take(j + 1).map_values(|t: Task| OverviewRow::Task(t)) =~= tasks@.take(
                    j as int,
                ).map_values(|t: Task| OverviewRow::Task(t)).push(OverviewRow::Task(tasks@[j as int])));
                j = j + 1;
            }
            proof {
                assert(tasks@.take(tasks@.len() as int) =~= tasks@);
                let pre = self.projects@.take(i as int);
                let post = self.projects@.take(i + 1);
                assert(post.drop_last() =~= pre);
                assert(post.last() == *project);
                assert(rows@ =~= overview_rows_for(self.store_view().tasks, status, post));
            }
            i = i + 1;
        }
        assert(self.projects@.take(self.projects@.len() as int) =~= self.projects@);
        self.overview_rows = rows;
        if self.overview_selected >= self.overview_rows.len() {
            self.overview_selected = if self.overview_rows.len() == 0 {
                0
            } else {
                self.overview_rows.len() - 1
            };
        }
        Ok(())
    }

    /// Reload projects, the selected project's tasks and the overview;
    /// clamp every cursor.
    pub fn refresh(&mut self) -> (r: Result<(), TodoError>)
        requires
            old(self).store_view().wf(),
        ensures
            r is Ok,
            final(self).refreshed_from(*old(self)),
    {
        self.projects = self.store.list_projects()?;
        if self.selected_project >= self.projects.len() {
            self.selected_project = if self.projects.len() == 0 {
                0
            } else {
                self.projects.len() - 1
            };
        }
        self.reload_tasks()?;
        self.build_overview()
    }

    /// Puts a store freshly read back from storage in place of the held one
    /// and reloads every list from it, cursors kept in range: the interface
    /// does this before each key so that it sees changes made elsewhere.
    pub fn resync(&mut self, store: TaskStore)
        requires
            old(self).wf(),
            store.wf(),
        ensures
            final(self).wf(),
            final(self).refreshed_from((App { store, ..*old(self) })),
    {
        self.store = store;
        let _ = self.refresh();
        proof {
            lemma_project_listing_ids(self.store_view());
        }
    }

    // ---- What each key does -------------------------------------------

    /// `new` is `self` with only `should_quit` set.
    pub open spec fn quit_step(self, new: App) -> bool {
        new == App { should_quit: true, ..self }
    }

    /// Opening the overview builds it from the store with its cursor on the
    /// first row; closing it only resets the cursor.
    pub open spec fn toggle_overview_step(self, new: App) -> bool {
        if self.show_overview {
            new == App { show_overview: false, overview_selected: 0, ..self }
        } else {
            &&& new == App {
                show_overview: true,
                overview_rows: new.overview_rows,
                overview_selected: 0,
                ..self
            }
            &&& new.overview_rows@ == new.expected_overview()
        }
    }

    /// Switching between priority order and project grouping, with a
    /// status message naming the new order, and the list reloaded.
    pub open spec fn toggle_sort_step(self, new: App) -> bool {
        let mode = if self.sort_mode == SortMode::Priority {
            SortMode::Project
        } else {
            SortMode::Priority
        };
        &&& new.reloaded_from(App { sort_mode: mode, status: new.status, ..self })
        &&& new.status@ == "sort: "@ + if mode == SortMode::Priority {
            "priority"@
        } else {
            "project"@
        }
    }

    /// Starting to add a task: compact view first picks a project; the full
    /// view types a title for the highlighted project, but only when the
    /// task pane has focus.
    pub open spec fn begin_add_step(self, new: App) -> bool {
        if self.compact {
            new == App { pick_selected: 0, mode: Mode::PickingProject, ..self }
        } else if self.focus == Focus::Tasks {
            &&& new == App { add_target: self.current_project_id_spec(), mode: new.mode, ..self }
            &&& new.mode matches Mode::AddingTask(b) && b@.len() == 0
        } else {
            new == self
        }
    }

    /// Switching focus between the panes (never in compact view).
    pub open spec fn toggle_focus_step(self, new: App) -> bool {
        if self.compact {
            new == self
        } else {
            new == App {
                focus: if self.focus == Focus::Projects {
                    Focus::Tasks
                } else {
                    Focus::Projects
                },
                ..self
            }
        }
    }

    /// Starting to type a new project's name.
    pub open spec fn begin_project_step(self, new: App) -> bool {
        &&& new == App { mode: new.mode, ..self }
        &&& new.mode matches Mode::AddingProject(b) && b@.len() == 0
    }

    /// `new` holds the undo stack without its last step and the store after
    /// that step was applied (or unchanged if it failed), with the status
    /// line saying which.
    pub open spec fn undone(self, new: App) -> bool {
        let a = self.undo_stack@.last();
        let out = undo_outcome(self.store_view(), a);
        &&& self.undo_stack@.len() > 0
        &&& new.undo_stack@ == self.undo_stack@.drop_last()
        &&& new.store_view() == match out {
            Ok(v) => v,
            Err(_) => self.store_view(),
        }
        &&& new.status@ == match out {
            Ok(_) => "undid "@ + a.label_spec(),
            Err(m) => "undo failed: "@ + m,
        }
    }

    /// Undo from the panes: the last step is reverted and everything is
    /// reloaded; with nothing to undo, only the status line says so.
    pub open spec fn undo_step(self, new: App) -> bool {
        if self.undo_stack@.len() == 0 {
            &&& new == App { status: new.status, ..self }
            &&& new.status@ == "nothing to undo"@
        } else {
            &&& self.undone(new)
            &&& new.refreshed_from(
                App { store: new.store, undo_stack: new.undo_stack, status: new.status, ..self },
            )
        }
    }

    /// Undo from the overview: as from the panes, but the task list and
    /// the overview are reloaded, not the project list.
    pub open spec fn overview_undo_step(self, new: App) -> bool {
        if self.undo_stack@.len() == 0 {
            &&& new == App { status: new.status, ..self }
            &&& new.status@ == "nothing to undo"@
        } else {
            &&& self.undone(new)
            &&& new.synced_from(
                App { store: new.store, undo_stack: new.undo_stack, status: new.status, ..self },
            )
        }
    }

    /// Showing or hiding completed tasks, with the list reloaded.
    pub open spec fn toggle_show_done_step(self, new: App) -> bool {
        new.reloaded_from(App { show_done: !self.show_done, ..self })
    }

    /// Moving by `delta` in the focused pane: the task cursor, or the
    /// project cursor (which resets the task cursor and reloads the list).
    pub open spec fn move_step(self, delta: int, new: App) -> bool {
        if self.focus == Focus::Tasks {
            new == App {
                selected: moved_index(self.selected as int, delta, self.tasks@.len() as int) as usize,
                ..self
            }
        } else {
            new.reloaded_from(
                App {
                    selected_project: moved_index(
                        self.selected_project as int,
                        delta,
                        self.projects@.len() as int,
                    ) as usize,
                    selected: 0,
                    ..self
                },
            )
        }
    }

    /// Editing the task `t` (listed, so stored under its id): the store is
    /// changed to `changed` (with `c` journaled), `u` is pushed on the undo
    /// stack, and the list (and, from the overview, the overview) reloaded.
    pub open spec fn edited(self, new: App, t: Task, changed: Task, c: Change, u: UndoAction, from_overview: bool) -> bool {
        let id = t.id->0;
        let mid = App { store: new.store, undo_stack: new.undo_stack, status: new.status, ..self };
        &&& t.id is Some
        &&& self.store_view().has_task(id)
        &&& self.store_view().task(id) == t
        &&& new.store_view() == self.store_view().after_update(id, changed, c)
        &&& new.undo_stack@ == self.undo_stack@.push(u)
        &&& new.status == self.status
        &&& if from_overview {
            new.synced_from(mid)
        } else {
            new.reloaded_from(mid)
        }
    }

    /// Deleting the task `t`: it leaves the store, a step restoring it is
    /// pushed on the undo stack, the status line offers the undo, and the
    /// list (and, from the overview, the overview) is reloaded.
    pub open spec fn deleted(self, new: App, t: Task, from_overview: bool) -> bool {
        let id = t.id->0;
        let mid = App { store: new.store, undo_stack: new.undo_stack, status: new.status, ..self };
        &&& t.id is Some
        &&& self.store_view().has_task(id)
        &&& self.store_view().task(id) == t
        &&& new.store_view() == self.store_view().after_remove(id)
        &&& new.undo_stack@ == self.undo_stack@.push(UndoAction::RestoreTask { task: t })
        &&& new.status@ == "removed #"@ + decimal(id as int) + " (u to undo)"@
        &&& if from_overview {
            new.synced_from(mid)
        } else {
            new.reloaded_from(mid)
        }
    }

    /// Space or Enter on a task: its status flips.
    pub open spec fn toggle_selected_step(self, new: App) -> bool {
        if self.selected >= self.tasks@.len() {
            new == self
        } else {
            let t = self.tasks@[self.selected as int];
            let next = t.status.toggled();
            self.edited(
                new,
                t,
                Task { status: next, ..t },
                Change::SetStatus { id: t.id->0, status: next },
                UndoAction::Status { id: t.id->0, prev: t.status },
                false,
            )
        }
    }

    /// `d` on a task: it is deleted.
    pub open spec fn delete_selected_step(self, new: App) -> bool {
        if self.selected >= self.tasks@.len() {
            new == self
        } else {
            self.deleted(new, self.tasks@[self.selected as int], false)
        }
    }

    /// `p` on a task: its priority moves one step (high wraps to low).
    pub open spec fn cycle_priority_step(self, new: App) -> bool {
        if self.selected >= self.tasks@.len() {
            new == self
        } else {
            let t = self.tasks@[self.selected as int];
            let next = t.priority.cycled();
            self.edited(
                new,
                t,
                Task { priority: next, ..t },
                Change::SetPriority { id: t.id->0, priority: next },
                UndoAction::Priority { id: t.id->0, prev: t.priority },
                false,
            )
        }
    }

    /// Keys that act on the selected task, only with the task pane focused.
    pub open spec fn action_key_step(self, key: Key, new: App) -> bool {
        if self.focus != Focus::Tasks {
            new == self
        } else {
            match key {
                Key::Char(' ') | Key::Enter => self.toggle_selected_step(new),
                Key::Char('d') => self.delete_selected_step(new),
                Key::Char('p') => self.cycle_priority_step(new),
                _ => new == self,
            }
        }
    }

    /// A key in the panes (normal mode, overview closed).
    pub open spec fn normal_key_step(self, key: Key, new: App) -> bool {
        match key {
            Key::Char('q') | Key::Esc => self.quit_step(new),
            Key::Char('o') => self.toggle_overview_step(new),
            Key::Char('s') => self.toggle_sort_step(new),
            Key::Char('a') => self.begin_add_step(new),
            Key::Tab | Key::BackTab => self.toggle_focus_step(new),
            Key::Char('n') => self.begin_project_step(new),
            Key::Char('u') => self.undo_step(new),
            Key::Char('h') => self.toggle_show_done_step(new),
            Key::Char('j') | Key::Down => self.move_step(1, new),
            Key::Char('k') | Key::Up => self.move_step(-1, new),
            _ => self.action_key_step(key, new),
        }
    }

    /// The task on the overview row under the cursor, if that row is a task.
    pub open spec fn overview_task(self) -> Option<Task> {
        if self.overview_selected < self.overview_rows@.len() {
            match self.overview_rows@[self.overview_selected as int] {
                OverviewRow::Task(t) => Some(t),
                _ => None,
            }
        } else {
            None
        }
    }

    /// The project the overview cursor sits in: a task row's project, or a
    /// header's.
    pub open spec fn overview_cursor_project_spec(self) -> Option<i64> {
        if self.overview_selected < self.overview_rows@.len() {
            match self.overview_rows@[self.overview_selected as int] {
                OverviewRow::Task(t) => Some(t.project_id),
                OverviewRow::Header { id, .. } => Some(id),
            }
        } else {
            None
        }
    }

    /// An edit from the overview on the task under the cursor (nothing on a
    /// header row).
    pub open spec fn overview_act_step(self, act: OverviewAct, new: App) -> bool {
        match self.overview_task() {
            None => new == self,
            Some(t) => match act {
                OverviewAct::Toggle => {
                    let next = t.status.toggled();
                    self.edited(
                        new,
                        t,
                        Task { status: next, ..t },
                        Change::SetStatus { id: t.id->0, status: next },
                        UndoAction::Status { id: t.id->0, prev: t.status },
                        true,
                    )
                },
                OverviewAct::Priority => {
                    let next = t.priority.cycled();
                    self.edited(
                        new,
                        t,
                        Task { priority: next, ..t },
                        Change::SetPriority { id: t.id->0, priority: next },
                        UndoAction::Priority { id: t.id->0, prev: t.priority },
                        true,
                    )
                },
                OverviewAct::Delete => self.deleted(new, t, true),
            },
        }
    }

    /// Starting to add a task from the overview, into the project under the
    /// cursor.
    pub open spec fn begin_overview_add_step(self, new: App) -> bool {
        match self.overview_cursor_project_spec() {
            None => new == self,
            Some(pid) => {
                &&& new == App { add_target: Some(pid), mode: new.mode, ..self }
                &&& new.mode matches Mode::AddingTask(b) && b@.len() == 0
            },
        }
    }

    /// A key while the overview is open.
    pub open spec fn overview_key_step(self, key: Key, new: App) -> bool {
        match key {
            Key::Char('q') => self.quit_step(new),
            Key::Char('o') | Key::Esc => self.toggle_overview_step(new),
            Key::Char('j') | Key::Down => new == App {
                overview_selected: moved_index(
                    self.overview_selected as int,
                    1,
                    self.overview_rows@.len() as int,
                ) as usize,
                ..self
            },
            Key::Char('k') | Key::Up => new == App {
                overview_selected: moved_index(
                    self.overview_selected as int,
                    -1,
                    self.overview_rows@.len() as int,
                ) as usize,
                ..self
            },
            Key::Char(' ') | Key::Enter => self.overview_act_step(OverviewAct::Toggle, new),
            Key::Char('a') => self.begin_overview_add_step(new),
            Key::Char('p') => self.overview_act_step(OverviewAct::Priority, new),
            Key::Char('d') => self.overview_act_step(OverviewAct::Delete, new),
            Key::Char('u') => self.overview_undo_step(new),
            _ => new == self,
        }
    }

    /// A key in the project picker.
    pub open spec fn pick_key_step(self, key: Key, new: App) -> bool {
        match key {
            Key::Esc => new == App { mode: Mode::Normal, ..self },
            Key::Char('j') | Key::Down => new == App {
                pick_selected: moved_index(
                    self.pick_selected as int,
                    1,
                    self.projects@.len() as int,
                ) as usize,
                ..self
            },
            Key::Char('k') | Key::Up => new == App {
                pick_selected: moved_index(
                    self.pick_selected as int,
                    -1,
                    self.projects@.len() as int,
                ) as usize,
                ..self
            },
            Key::Enter => {
                &&& new == App {
                    add_target: if self.pick_selected < self.projects@.len() {
                        self.projects@[self.pick_selected as int].id
                    } else {
                        None
                    },
                    mode: new.mode,
                    ..self
                }
                &&& new.mode matches Mode::AddingTask(b) && b@.len() == 0
            },
            _ => new == self,
        }
    }

    /// The text being typed, in either input mode.
    pub open spec fn input(self) -> Seq<char> {
        match self.mode {
            Mode::AddingTask(b) => b@,
            Mode::AddingProject(b) => b@,
            _ => Seq::empty(),
        }
    }

    /// Typing into the input: Backspace drops the last character, a
    /// character is appended; the mode stays.
    pub open spec fn typed(self, key: Key, new: App) -> bool {
        &&& new == App { mode: new.mode, ..self }
        &&& (self.mode is AddingTask ==> new.mode is AddingTask)
        &&& (self.mode is AddingProject ==> new.mode is AddingProject)
        &&& match key {
            Key::Backspace => new.input() == if self.input().len() > 0 {
                self.input().drop_last()
            } else {
                self.input()
            },
            Key::Char(c) => new.input() == self.input().push(c),
            _ => false,
        }
    }

    /// The project a typed task goes to: the add flow's choice, else the
    /// highlighted project.
    pub open spec fn commit_target(self) -> Option<i64> {
        match self.add_target {
            Some(p) => Some(p),
            None => self.current_project_id_spec(),
        }
    }

    /// Enter while typing a task title. With no target project the input is
    /// dropped; a blank title is refused; otherwise the task is stored
    /// (medium priority), a step removing it is pushed on the undo stack,
    /// and the status line names it. The input ends and the list and the
    /// overview are reloaded. Running out of task ids is the one error.
    pub open spec fn commit_task_step(self, new: App, r: Result<(), TodoError>) -> bool {
        let buf = self.input();
        match self.commit_target() {
            None => {
                &&& r is Ok
                &&& new == App { status: new.status, mode: Mode::Normal, add_target: None, ..self }
                &&& new.status@ == "no project selected"@
            },
            Some(pid) => if is_blank(buf) {
                &&& r is Ok
                &&& new.synced_from(
                    App { status: new.status, mode: Mode::Normal, add_target: None, ..self },
                )
                &&& new.status@ == "empty title — not added"@
            } else if self.store_view().next_task_id == i64::MAX {
                &&& r is Err
                &&& new == App { store: new.store, ..self }
                &&& new.store_view() == self.store_view()
            } else {
                let t = new.store_view().tasks.last();
                &&& r is Ok
                &&& self.store_view().added_task(new.store_view(), t)
                &&& t.title@ == crate::text::trimmed(buf)
                &&& t.status == Status::Open
                &&& t.priority == Priority::Medium
                &&& t.project_id == pid
                &&& new.undo_stack@ == self.undo_stack@.push(UndoAction::RemoveTask { id: t.id->0 })
                &&& new.status@ == "added #"@ + decimal(t.id->0 as int) + " to @"@
                    + project_label(self.projects@, pid)
                &&& new.synced_from(
                    App {
                        store: new.store,
                        undo_stack: new.undo_stack,
                        status: new.status,
                        mode: Mode::Normal,
                        add_target: None,
                        ..self
                    },
                )
            },
        }
    }

    /// Enter while typing a project name. A blank name is refused; a name in
    /// use is refused with the store's message; otherwise the project is
    /// created and a step removing it is pushed on the undo stack. The input
    /// ends and everything is reloaded.
    pub open spec fn commit_project_step(self, new: App) -> bool {
        let buf = self.input();
        let mid = App {
            store: new.store,
            undo_stack: new.undo_stack,
            status: new.status,
            mode: Mode::Normal,
            ..self
        };
        &&& new.refreshed_from(mid)
        &&& if is_blank(buf) {
            &&& new.store_view() == self.store_view()
            &&& new.undo_stack@ == self.undo_stack@
            &&& new.status@ == "empty name — not created"@
        } else {
            let name = crate::text::trimmed(buf);
            let v = self.store_view();
            if v.has_name(name) {
                &&& new.store_view() == v
                &&& new.undo_stack@ == self.undo_stack@
                &&& new.status@ == "invalid input: "@ + crate::store::memory::duplicate_project(name)
            } else if v.next_project_id == i64::MAX {
                &&& new.store_view() == v
                &&& new.undo_stack@ == self.undo_stack@
                &&& new.status@ == "storage failure: "@ + crate::store::memory::project_ids_exhausted()
            } else {
                let p = new.store_view().projects.last();
                &&& v.added_project(new.store_view(), p)
                &&& p.name@ == name
                &&& new.undo_stack@ == self.undo_stack@.push(UndoAction::RemoveProject { id: p.id->0 })
                &&& new.status@ == "created @"@ + name
            }
        }
    }

    /// A key while typing: Esc cancels, Enter commits, Backspace and
    /// characters edit the input; other keys do nothing.
    pub open spec fn input_key_step(self, key: Key, new: App, r: Result<(), TodoError>) -> bool {
        match key {
            Key::Esc => r is Ok && new == App { mode: Mode::Normal, ..self },
            Key::Enter => if self.mode is AddingTask {
                self.commit_task_step(new, r)
            } else {
                r is Ok && self.commit_project_step(new)
            },
            Key::Backspace | Key::Char(_) => r is Ok && self.typed(key, new),
            _ => r is Ok && new == self,
        }
    }

    /// What a key does, by mode.
    pub open spec fn key_step(self, key: Key, new: App, r: Result<(), TodoError>) -> bool {
        match self.mode {
            Mode::Normal => r is Ok && if self.show_overview {
                self.overview_key_step(key, new)
            } else {
                self.normal_key_step(key, new)
            },
            Mode::PickingProject => r is Ok && self.pick_key_step(key, new),
            _ => self.input_key_step(key, new, r),
        }
    }

    /// The store's state (for the persistence layer and for callers that
    /// render from it).
    pub fn store(&self) -> (r: &TaskStore)
        ensures
            r@ == self.store_view(),
    {
        &self.store
    }

    /// Hands the store's journal of changes to the caller and empties it.
    pub fn take_changes(&mut self) -> (r: Vec<Change>)
        requires
            old(self).wf(),
        ensures
            final(self).wf(),
            r@ == old(self).store_view().changes,
            final(self).store_view() == (StoreView { changes: Seq::empty(), ..old(self).store_view() }),
            *final(self) == (App { store: final(self).store, ..*old(self) }),
    {
        self.store.take_changes()
    }
}

} // verus!

verus! {

/// The key hints the status line starts with.
pub open spec fn hint_text(compact: bool) -> Seq<char> {
    if compact {
        "a add · space done · p pri · u undo · o overview · q quit"@
    } else {
        "tab · a add · n proj · space done · p pri · s sort · d del · u undo · o overview · q quit"@
    }
}

impl App {
    /// A listed task is stored under its id.
    proof fn lemma_selected_stored(self, i: int)
        requires
            self.wf(),
            0 <= i < self.tasks@.len(),
        ensures
            self.tasks@[i].id is Some,
            self.store_view().has_task(self.tasks@[i].id->0),
            self.store_view().task(self.tasks@[i].id->0) == self.tasks@[i],
    {
        let t = self.tasks@[i];
        let l = self.store_view().listing(self.task_query());
        assert(self.tasks@.contains(t));
        if self.sort_mode == SortMode::Project {
            law_grouping_is_stable(self.projects@, l);
        }
        assert(l.contains(t));
        lemma_listed_is_stored(self.store_view(), self.task_query(), t);
    }

    /// A task row of the open overview is stored under its id.
    proof fn lemma_overview_task_stored(self)
        requires
            self.wf(),
            self.show_overview,
            self.overview_task() is Some,
        ensures
            self.overview_task()->0.id is Some,
            self.store_view().has_task(self.overview_task()->0.id->0),
            self.store_view().task(self.overview_task()->0.id->0) == self.overview_task()->0,
    {
        let t = self.overview_task()->0;
        assert(self.overview_rows@[self.overview_selected as int] == OverviewRow::Task(t));
        assert(self.overview_rows@.contains(OverviewRow::Task(t)));
        lemma_overview_rows_stored(self.store_view().tasks, self.status_filter(), self.projects@, t);
        let q = choose|q: TaskQuery| crate::store::listing(self.store_view().tasks, q).contains(t);
        lemma_listed_is_stored(self.store_view(), q, t);
    }

    /// The interface over a store: the task pane focused, completed tasks
    /// shown except in compact view, the key hints in the status line, and
    /// every list loaded.
    pub fn new(store: TaskStore, compact: bool) -> (r: Result<App, TodoError>)
        requires
            store.wf(),
        ensures
            match r {
                Ok(app) => {
                    &&& app.wf()
                    &&& app.store_view() == store@
                    &&& app.undo_stack@.len() == 0
                    &&& app.projects@ == store@.project_listing()
                    &&& app.selected_project == 0
                    &&& app.selected == 0
                    &&& app.focus == Focus::Tasks
                    &&& app.mode == Mode::Normal
                    &&& app.show_done == !compact
                    &&& app.compact == compact
                    &&& !app.show_overview
                    &&& app.overview_rows@ == app.expected_overview()
                    &&& app.overview_selected == 0
                    &&& app.sort_mode == SortMode::Priority
                    &&& app.pick_selected == 0
                    &&& app.add_target is None
                    &&& app.status@ == hint_text(compact)
                    &&& !app.should_quit
                },
                Err(_) => false,
            },
    {
        let status = if compact {
            to_owned_string("a add · space done · p pri · u undo · o overview · q quit")
        } else {
            to_owned_string(
                "tab · a add · n proj · space done · p pri · s sort · d del · u undo · o overview · q quit",
            )
        };
        let mut app = App {
            store,
            undo_stack: Vec::new(),
            projects: Vec::new(),
            selected_project: 0,
            tasks: Vec::new(),
            selected: 0,
            focus: Focus::Tasks,
            mode: Mode::Normal,
            // Compact glances at open work only; full view shows everything.
            show_done: !compact,
            compact,
            show_overview: false,
            overview_rows: Vec::new(),
            overview_selected: 0,
            sort_mode: SortMode::Priority,
            pick_selected: 0,
            add_target: None,
            status,
            should_quit: false,
        };
        app.refresh()?;
        proof {
            lemma_project_listing_ids(store@);
        }
        Ok(app)
    }

    /// Keep the task list and the overview consistent with the store.
    fn sync_views(&mut self) -> (r: Result<(), TodoError>)
        requires
            old(self).store_view().wf(),
        ensures
            r is Ok,
            final(self).synced_from(*old(self)),
    {
        self.reload_tasks()?;
        self.build_overview()
    }

    fn toggle_overview(&mut self) -> (r: Result<(), TodoError>)
        requires
            old(self).wf(),
        ensures
            r is Ok,
            final(self).wf(),
            old(self).toggle_overview_step(*final(self)),
    {
        self.show_overview = !self.show_overview;
        self.overview_selected = 0;
        // Rebuild from current store state when opening.
        if self.show_overview {
            self.build_overview()?;
        }
        Ok(())
    }

    fn toggle_sort(&mut self) -> (r: Result<(), TodoError>)
        requires
            old(self).wf(),
            !old(self).show_overview,
        ensures
            r is Ok,
            final(self).wf(),
            old(self).toggle_sort_step(*final(self)),
    {
        self.sort_mode = match self.sort_mode {
            SortMode::Priority => SortMode::Project,
            SortMode::Project => SortMode::Priority,
        };
        let label = match self.sort_mode {
            SortMode::Priority => "priority",
            SortMode::Project => "project",
        };
        let mut st = to_owned_string("sort: ");
        append(&mut st, label);
        self.status = st;
        self.reload_tasks()
    }

    /// Start adding a task from the panes. Compact view has no sidebar, so
    /// it first asks which project; the full view uses the selected project.
    fn begin_add(&mut self)
        requires
            old(self).wf(),
        ensures
            final(self).wf(),
            old(self).begin_add_step(*final(self)),
    {
        if self.compact {
            self.pick_selected = 0;
            self.mode = Mode::PickingProject;
        } else if self.focus == Focus::Tasks {
            self.add_target = self.current_project_id();
            self.mode = Mode::AddingTask(String::new());
        }
    }

    fn toggle_focus(&mut self)
        requires
            old(self).wf(),
        ensures
            final(self).wf(),
            old(self).toggle_focus_step(*final(self)),
    {
        // No sidebar in compact mode — focus stays on tasks.
        if self.compact {
            return;
        }
        self.focus = match self.focus {
            Focus::Projects => Focus::Tasks,
            Focus::Tasks => Focus::Projects,
        };
    }

    fn move_by(&mut self, delta: i32) -> (r: Result<(), TodoError>)
        requires
            old(self).wf(),
            !old(self).show_overview,
        ensures
            r is Ok,
            final(self).wf(),
            old(self).move_step(delta as int, *final(self)),
    {
        match self.focus {
            Focus::Tasks => {
                self.selected = clamp_index(self.selected, delta, self.tasks.len());
            },
            Focus::Projects => {
                self.selected_project = clamp_index(self.selected_project, delta, self.projects.len());
                self.selected = 0;
                self.reload_tasks()?;
            },
        }
        Ok(())
    }

    fn toggle_selected(&mut self) -> (r: Result<(), TodoError>)
        requires
            old(self).wf(),
            !old(self).show_overview,
        ensures
            r is Ok,
            final(self).wf(),
            old(self).toggle_selected_step(*final(self)),
    {
        if self.selected >= self.tasks.len() {
            return Ok(());
        }
        proof {
            self.lemma_selected_stored(self.selected as int);
        }
        let prev = self.tasks[self.selected].status;
        let next = toggle_status(prev);
        let id = match self.tasks[self.selected].id {
            Some(i) => i,
            None => {
                return Ok(());
            },
        };
        self.store.set_status(id, next)?;
        self.undo_stack.push(UndoAction::Status { id, prev });
        self.reload_tasks()
    }

    fn delete_selected(&mut self) -> (r: Result<(), TodoError>)
        requires
            old(self).wf(),
            !old(self).show_overview,
        ensures
            r is Ok,
            final(self).wf(),
            old(self).delete_selected_step(*final(self)),
    {
        if self.selected >= self.tasks.len() {
            return Ok(());
        }
        proof {
            self.lemma_selected_stored(self.selected as int);
        }
        let task = self.tasks[self.selected].duplicate();
        let id = match task.id {
            Some(i) => i,
            None => {
                return Ok(());
            },
        };
        self.store.remove(id)?;
        self.undo_stack.push(UndoAction::RestoreTask { task });
        self.status = removed_text(id);
        self.reload_tasks()
    }

    /// Bump the selected task's priority one step, wrapping High → Low.
    fn cycle_selected_priority(&mut self) -> (r: Result<(), TodoError>)
        requires
            old(self).wf(),
            !old(self).show_overview,
        ensures
            r is Ok,
            final(self).wf(),
            old(self).cycle_priority_step(*final(self)),
    {
        if self.selected >= self.tasks.len() {
            return Ok(());
        }
        proof {
            self.lemma_selected_stored(self.selected as int);
        }
        let prev = self.tasks[self.selected].priority;
        let next = cycle_priority(prev);
        let id = match self.tasks[self.selected].id {
            Some(i) => i,
            None => {
                return Ok(());
            },
        };
        self.store.set_priority(id, next)?;
        self.undo_stack.push(UndoAction::Priority { id, prev });
        self.reload_tasks()
    }

    fn toggle_show_done(&mut self) -> (r: Result<(), TodoError>)
        requires
            old(self).wf(),
            !old(self).show_overview,
        ensures
            r is Ok,
            final(self).wf(),
            old(self).toggle_show_done_step(*final(self)),
    {
        self.show_done = !self.show_done;
        self.reload_tasks()
    }
}

/// The status line after a deletion.
pub open spec fn removed_spec(id: i64) -> Seq<char> {
    "removed #"@ + decimal(id as int) + " (u to undo)"@
}

fn removed_text(id: i64) -> (r: String)
    ensures
        r@ == removed_spec(id),
{
    let mut s = to_owned_string("removed #");
    let n = i64_text(id);
    append(&mut s, n.as_str());
    append(&mut s, " (u to undo)");
    s
}

} // verus!

verus! {

impl App {
    /// Apply an inverse step to the store.
    fn apply_undo(&mut self, action: UndoAction) -> (r: Result<(), TodoError>)
        requires
            old(self).store_view().wf(),
        ensures
            final(self).store_view().wf(),
            *final(self) == (App { store: final(self).store, ..*old(self) }),
            match r {
                Ok(()) => undo_outcome(old(self).store_view(), action) == Ok::<StoreView, Seq<char>>(
                    final(self).store_view(),
                ),
                Err(e) => {
                    &&& final(self).store_view() == old(self).store_view()
                    &&& undo_outcome(old(self).store_view(), action) == Err::<StoreView, Seq<char>>(
                        e.message_spec(),
                    )
                },
            },
    {
        match action {
            UndoAction::Status { id, prev } => {
                self.store.set_status(id, prev)?;
            },
            UndoAction::Priority { id, prev } => {
                self.store.set_priority(id, prev)?;
            },
            UndoAction::RemoveTask { id } => self.store.remove(id)?,
            UndoAction::RestoreTask { task } => self.store.restore_task(&task)?,
            UndoAction::RemoveProject { id } => self.store.remove_project(id)?,
        }
        Ok(())
    }

    /// Pop the most recent step and apply it; report the outcome in the
    /// status line. A failed undo (e.g. the target was deleted meanwhile) is
    /// reported, not fatal.
    fn pop_and_apply_undo(&mut self) -> (r: bool)
        requires
            old(self).wf(),
        ensures
            final(self).store_view().wf(),
            r == (old(self).undo_stack@.len() > 0),
            !r ==> *final(self) == (App { status: final(self).status, ..*old(self) }) && final(self).status@
                == "nothing to undo"@,
            r ==> old(self).undone(*final(self)) && *final(self) == (App {
                store: final(self).store,
                undo_stack: final(self).undo_stack,
                status: final(self).status,
                ..*old(self)
            }),
    {
        if self.undo_stack.len() == 0 {
            self.status = to_owned_string("nothing to undo");
            return false;
        }
        let action = match self.undo_stack.pop() {
            Some(a) => a,
            None => {
                return false;
            },
        };
        let label = action.label();
        match self.apply_undo(action) {
            Ok(()) => {
                let mut st = to_owned_string("undid ");
                append(&mut st, label);
                self.status = st;
            },
            Err(e) => {
                let mut st = to_owned_string("undo failed: ");
                let m = e.message();
                append(&mut st, m.as_str());
                self.status = st;
            },
        }
        true
    }

    fn undo(&mut self) -> (r: Result<(), TodoError>)
        requires
            old(self).wf(),
        ensures
            r is Ok,
            final(self).wf(),
            old(self).undo_step(*final(self)),
    {
        if !self.pop_and_apply_undo() {
            return Ok(());
        }
        let r = self.refresh();
        proof {
            lemma_project_listing_ids(self.store_view());
        }
        r
    }

    fn undo_in_overview(&mut self) -> (r: Result<(), TodoError>)
        requires
            old(self).wf(),
            old(self).show_overview,
        ensures
            r is Ok,
            final(self).wf(),
            old(self).overview_undo_step(*final(self)),
    {
        if !self.pop_and_apply_undo() {
            return Ok(());
        }
        self.sync_views()
    }

    /// The task on the currently selected overview row, if it's not a header.
    fn overview_selected_task(&self) -> (r: Option<Task>)
        ensures
            r == self.overview_task(),
    {
        if self.overview_selected < self.overview_rows.len() {
            match &self.overview_rows[self.overview_selected] {
                OverviewRow::Task(task) => Some(task.duplicate()),
                _ => None,
            }
        } else {
            None
        }
    }

    /// Apply an action to the selected overview task, then rebuild both the
    /// task list and the overview so the view stays current.
    fn act_on_overview(&mut self, act: OverviewAct) -> (r: Result<(), TodoError>)
        requires
            old(self).wf(),
            old(self).show_overview,
        ensures
            r is Ok,
            final(self).wf(),
            old(self).overview_act_step(act, *final(self)),
    {
        let task = match self.overview_selected_task() {
            Some(t) => t,
            None => {
                return Ok(());
            },
        };
        proof {
            self.lemma_overview_task_stored();
        }
        let id = match task.id {
            Some(i) => i,
            None => {
                return Ok(());
            },
        };
        match act {
            OverviewAct::Toggle => {
                let prev = task.status;
                let next = toggle_status(prev);
                self.store.set_status(id, next)?;
                self.undo_stack.push(UndoAction::Status { id, prev });
            },
            OverviewAct::Priority => {
                let prev = task.priority;
                let next = cycle_priority(prev);
                self.store.set_priority(id, next)?;
                self.undo_stack.push(UndoAction::Priority { id, prev });
            },
            OverviewAct::Delete => {
                self.store.remove(id)?;
                self.undo_stack.push(UndoAction::RestoreTask { task });
                self.status = removed_text(id);
            },
        }
        self.sync_views()
    }

    /// Project the overview cursor sits in: a task row's project, or a header.
    pub fn overview_cursor_project(&self) -> (r: Option<i64>)
        ensures
            r == self.overview_cursor_project_spec(),
    {
        if self.overview_selected < self.overview_rows.len() {
            match &self.overview_rows[self.overview_selected] {
                OverviewRow::Task(task) => Some(task.project_id),
                OverviewRow::Header { id, .. } => Some(*id),
            }
        } else {
            None
        }
    }

    /// Start adding a task from the overview: it lands in the project the
    /// cursor is currently inside (the selected task's, or the header's).
    fn begin_overview_add(&mut self)
        requires
            old(self).wf(),
        ensures
            final(self).wf(),
            old(self).begin_overview_add_step(*final(self)),
    {
        let pid = match self.overview_cursor_project() {
            Some(p) => p,
            None => {
                return;
            },
        };
        self.add_target = Some(pid);
        self.mode = Mode::AddingTask(String::new());
    }

    fn on_overview_key(&mut self, key: Key) -> (r: Result<(), TodoError>)
        requires
            old(self).wf(),
            old(self).show_overview,
        ensures
            r is Ok,
            final(self).wf(),
            old(self).overview_key_step(key, *final(self)),
    {
        match key {
            Key::Char('q') => self.should_quit = true,
            Key::Char('o') | Key::Esc => self.toggle_overview()?,
            Key::Char('j') | Key::Down => {
                self.overview_selected = clamp_index(self.overview_selected, 1, self.overview_rows.len());
            },
            Key::Char('k') | Key::Up => {
                self.overview_selected = clamp_index(self.overview_selected, -1, self.overview_rows.len());
            },
            Key::Char(' ') | Key::Enter => self.act_on_overview(OverviewAct::Toggle)?,
            Key::Char('a') => self.begin_overview_add(),
            Key::Char('p') => self.act_on_overview(OverviewAct::Priority)?,
            Key::Char('d') => self.act_on_overview(OverviewAct::Delete)?,
            Key::Char('u') => self.undo_in_overview()?,
            _ => {},
        }
        Ok(())
    }

    /// Keys that act on tasks — only meaningful when the task pane is focused.
    fn on_action_key(&mut self, key: Key) -> (r: Result<(), TodoError>)
        requires
            old(self).wf(),
            !old(self).show_overview,
        ensures
            r is Ok,
            final(self).wf(),
            old(self).action_key_step(key, *final(self)),
    {
        if self.focus != Focus::Tasks {
            return Ok(());
        }
        match key {
            Key::Char(' ') | Key::Enter => self.toggle_selected()?,
            Key::Char('d') => self.delete_selected()?,
            Key::Char('p') => self.cycle_selected_priority()?,
            _ => {},
        }
        Ok(())
    }

    fn on_normal_key(&mut self, key: Key) -> (r: Result<(), TodoError>)
        requires
            old(self).wf(),
        ensures
            r is Ok,
            final(self).wf(),
            if old(self).show_overview {
                old(self).overview_key_step(key, *final(self))
            } else {
                old(self).normal_key_step(key, *final(self))
            },
    {
        // The overview handles its own keys.
        if self.show_overview {
            return self.on_overview_key(key);
        }
        match key {
            Key::Char('q') | Key::Esc => self.should_quit = true,
            Key::Char('o') => self.toggle_overview()?,
            Key::Char('s') => self.toggle_sort()?,
            Key::Char('a') => self.begin_add(),
            Key::Tab | Key::BackTab => self.toggle_focus(),
            Key::Char('n') => self.mode = Mode::AddingProject(String::new()),
            Key::Char('u') => self.undo()?,
            Key::Char('h') => self.toggle_show_done()?,
            Key::Char('j') | Key::Down => self.move_by(1)?,
            Key::Char('k') | Key::Up => self.move_by(-1)?,
            _ => self.on_action_key(key)?,
        }
        Ok(())
    }

    fn on_pick_key(&mut self, key: Key) -> (r: Result<(), TodoError>)
        requires
            old(self).wf(),
        ensures
            r is Ok,
            final(self).wf(),
            old(self).pick_key_step(key, *final(self)),
    {
        match key {
            Key::Esc => self.mode = Mode::Normal,
            Key::Char('j') | Key::Down => {
                self.pick_selected = clamp_index(self.pick_selected, 1, self.projects.len());
            },
            Key::Char('k') | Key::Up => {
                self.pick_selected = clamp_index(self.pick_selected, -1, self.projects.len());
            },
            Key::Enter => {
                self.add_target = if self.pick_selected < self.projects.len() {
                    self.projects[self.pick_selected].id
                } else {
                    None
                };
                self.mode = Mode::AddingTask(String::new());
            },
            _ => {},
        }
        Ok(())
    }

    /// The text being typed, if the interface is in an input mode.
    fn input_buffer(&self) -> (r: String)
        ensures
            r@ == self.input(),
    {
        match &self.mode {
            Mode::AddingTask(b) => b.clone(),
            Mode::AddingProject(b) => b.clone(),
            _ => String::new(),
        }
    }

    /// Put edited text back into the input mode it came from.
    fn set_input(&mut self, buf: String)
        requires
            old(self).mode is AddingTask || old(self).mode is AddingProject,
        ensures
            *final(self) == (App { mode: final(self).mode, ..*old(self) }),
            old(self).mode is AddingTask ==> final(self).mode is AddingTask,
            old(self).mode is AddingProject ==> final(self).mode is AddingProject,
            final(self).input() == buf@,
    {
        if matches!(self.mode, Mode::AddingTask(_)) {
            self.mode = Mode::AddingTask(buf);
        } else {
            self.mode = Mode::AddingProject(buf);
        }
    }

    fn on_input_key(&mut self, key: Key) -> (r: Result<(), TodoError>)
        requires
            old(self).wf(),
            old(self).mode is AddingTask || old(self).mode is AddingProject,
        ensures
            final(self).wf(),
            old(self).input_key_step(key, *final(self), r),
    {
        match key {
            Key::Esc => self.mode = Mode::Normal,
            Key::Enter => {
                if matches!(self.mode, Mode::AddingTask(_)) {
                    return self.commit_task();
                } else {
                    return self.commit_project();
                }
            },
            Key::Backspace => {
                let mut buf = self.input_buffer();
                pop_char(&mut buf);
                self.set_input(buf);
            },
            Key::Char(c) => {
                let mut buf = self.input_buffer();
                push_char(&mut buf, c);
                self.set_input(buf);
            },
            _ => {},
        }
        Ok(())
    }

    fn commit_task(&mut self) -> (r: Result<(), TodoError>)
        requires
            old(self).wf(),
            old(self).mode is AddingTask,
        ensures
            final(self).wf(),
            old(self).commit_task_step(*final(self), r),
    {
        let buf = self.input_buffer();
        // Target is whatever the add flow chose (picker/overview), else the
        // selected project.
        let target = match self.add_target {
            Some(p) => Some(p),
            None => self.current_project_id(),
        };
        let project_id = match target {
            Some(p) => p,
            None => {
                self.status = to_owned_string("no project selected");
                self.mode = Mode::Normal;
                self.add_target = None;
                return Ok(());
            },
        };
        // Blank input just cancels — no error popup needed mid-flow.
        match NewTask::new(buf.as_str(), Priority::Medium, project_id) {
            Ok(new) => {
                let task = self.store.add(new)?;
                let id = task.id.unwrap_or(0);
                self.undo_stack.push(UndoAction::RemoveTask { id });
                let mut st = to_owned_string("added #");
                let n = i64_text(id);
                append(&mut st, n.as_str());
                append(&mut st, " to @");
                let where_to = self.project_label(project_id);
                append(&mut st, where_to.as_str());
                self.status = st;
                assert(self.store_view().tasks.last() == task);
            },
            Err(_) => self.status = to_owned_string("empty title — not added"),
        }
        self.mode = Mode::Normal;
        self.add_target = None;
        self.sync_views()
    }

    /// The name of the first sidebar project with this id, or `?`.
    fn project_label(&self, project_id: i64) -> (r: String)
        ensures
            r@ == project_label(self.projects@, project_id),
    {
        match self.project_name(project_id) {
            Some(n) => {
                proof {
                    let i = choose|i: int|
                        0 <= i < self.projects@.len() && self.projects@[i].id == Some(project_id)
                            && n@ == self.projects@[i].name@ && forall|j: int|
                            0 <= j < i ==> self.projects@[j].id != Some(project_id);
                    let k = choose|k: int|
                        0 <= k < self.projects@.len() && self.projects@[k].id == Some(project_id)
                            && forall|j: int| 0 <= j < k ==> self.projects@[j].id != Some(project_id);
                    assert(k == i);
                }
                to_owned_string(n)
            },
            None => to_owned_string("?"),
        }
    }

    fn commit_project(&mut self) -> (r: Result<(), TodoError>)
        requires
            old(self).wf(),
            old(self).mode is AddingProject,
        ensures
            r is Ok,
            final(self).wf(),
            old(self).commit_project_step(*final(self)),
    {
        let buf = self.input_buffer();
        match clean_project_name(buf.as_str()) {
            Ok(name) => match self.store.add_project(name.as_str()) {
                Ok(p) => {
                    if let Some(id) = p.id {
                        self.undo_stack.push(UndoAction::RemoveProject { id });
                    }
                    let mut st = to_owned_string("created @");
                    append(&mut st, p.name.as_str());
                    self.status = st;
                    assert(self.store_view().projects.last() == p);
                },
                Err(e) => self.status = e.message(),
            },
            Err(_) => self.status = to_owned_string("empty name — not created"),
        }
        self.mode = Mode::Normal;
        let r = self.refresh();
        proof {
            lemma_project_listing_ids(self.store_view());
        }
        r
    }

    /// Route a key to the active mode's handler. The one error is running
    /// out of task ids while adding a task.
    pub fn on_key(&mut self, key: Key) -> (r: Result<(), TodoError>)
        requires
            old(self).wf(),
        ensures
            final(self).wf(),
            old(self).key_step(key, *final(self), r),
    {
        match &self.mode {
            Mode::Normal => self.on_normal_key(key),
            Mode::PickingProject => self.on_pick_key(key),
            Mode::AddingTask(_) => self.on_input_key(key),
            Mode::AddingProject(_) => self.on_input_key(key),
        }
    }
}

} // verus!
