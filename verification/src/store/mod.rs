//! The task store: query types, listing orders, and the in-memory store
//! with its journal of changes for the persistence layer.

pub mod laws;
pub mod memory;
pub mod order;

use vstd::prelude::*;

use crate::model::{inbox_name, Priority, Project, Status, Task};
use crate::store::order::{sort_projects_spec, sort_tasks_spec};

verus! {

/// Which tasks `list` returns by lifecycle state.
#[derive(Debug, Clone, Copy, PartialEq, Eq, Structural)]
pub enum StatusFilter {
    All,
    Only(Status),
}

/// Which tasks `list` returns by project membership.
#[derive(Debug, Clone, Copy, PartialEq, Eq, Structural)]
pub enum ProjectFilter {
    Any,
    Only(i64),
}

/// Which tasks `list` returns. Combines a status and a project filter.
#[derive(Debug, Clone, Copy, PartialEq, Eq, Structural)]
pub struct TaskQuery {
    pub status: StatusFilter,
    pub project: ProjectFilter,
}

impl TaskQuery {
    /// Whether a task passes both filters.
    pub open spec fn matches(self, t: Task) -> bool {
        &&& match self.status {
            StatusFilter::All => true,
            StatusFilter::Only(s) => t.status == s,
        }
        &&& match self.project {
            ProjectFilter::Any => true,
            ProjectFilter::Only(pid) => t.project_id == pid,
        }
    }

    /// All tasks in every project, any status.
    pub fn all() -> (r: Self)
        ensures
            r == (TaskQuery { status: StatusFilter::All, project: ProjectFilter::Any }),
    {
        TaskQuery { status: StatusFilter::All, project: ProjectFilter::Any }
    }

    /// The same query with its status filter replaced.
    pub fn with_status(self, status: StatusFilter) -> (r: Self)
        ensures
            r == (TaskQuery { status, ..self }),
    {
        let mut q = self;
        q.status = status;
        q
    }

    /// The same query restricted to one project.
    pub fn in_project(self, project_id: i64) -> (r: Self)
        ensures
            r == (TaskQuery { project: ProjectFilter::Only(project_id), ..self }),
    {
        let mut q = self;
        q.project = ProjectFilter::Only(project_id);
        q
    }
}

/// The tasks that pass a query, in stored order.
pub open spec fn select(tasks: Seq<Task>, q: TaskQuery) -> Seq<Task>
    decreases tasks.len(),
{
    if tasks.len() == 0 {
        Seq::empty()
    } else {
        let rest = select(tasks.drop_last(), q);
        if q.matches(tasks.last()) {
            rest.push(tasks.last())
        } else {
            rest
        }
    }
}

/// Every selected task comes from the input and passes the query.
pub proof fn lemma_select_contains(tasks: Seq<Task>, q: TaskQuery)
    ensures
        forall|x: Task| #[trigger] select(tasks, q).contains(x) ==> tasks.contains(x) && q.matches(x),
    decreases tasks.len(),
{
    if tasks.len() > 0 {
        lemma_select_contains(tasks.drop_last(), q);
        let rest = select(tasks.drop_last(), q);
        assert forall|x: Task| #[trigger] select(tasks, q).contains(x) implies tasks.contains(x) && q.matches(x) by {
            if rest.contains(x) {
                let j = choose|j: int| 0 <= j < tasks.drop_last().len() && tasks.drop_last()[j] == x;
                assert(tasks[j] == x);
            } else {
                let r = select(tasks, q);
                let i = choose|i: int| 0 <= i < r.len() && r[i] == x;
                if i < rest.len() {
                    assert(rest[i] == x);
                }
                assert(x == tasks.last());
                assert(tasks[tasks.len() - 1] == x);
            }
        }
    }
}

/// Every listed task is a stored task that passes the query.
pub proof fn lemma_listing_contains(tasks: Seq<Task>, q: TaskQuery)
    ensures
        forall|x: Task| #[trigger] listing(tasks, q).contains(x) ==> tasks.contains(x) && q.matches(x),
{
    lemma_select_contains(tasks, q);
    crate::store::order::lemma_sort_tasks_contains(select(tasks, q));
}

/// What `list` returns: the tasks that pass the query, high priority first,
/// then newest, then by descending id.
pub open spec fn listing(tasks: Seq<Task>, q: TaskQuery) -> Seq<Task> {
    sort_tasks_spec(select(tasks, q))
}

/// The query for open tasks in every project.
pub open spec fn open_query() -> TaskQuery {
    TaskQuery { status: StatusFilter::Only(Status::Open), project: ProjectFilter::Any }
}

/// A mutation the store has made, to be replayed by the persistence layer.
#[derive(Debug, Clone)]
pub enum Change {
    /// A task was added or restored with these fields.
    InsertTask(Task),
    /// A task's status changed.
    SetStatus { id: i64, status: Status },
    /// A task's priority changed.
    SetPriority { id: i64, priority: Priority },
    /// A task moved to another project.
    SetProject { id: i64, project_id: i64 },
    /// A task was deleted.
    RemoveTask(i64),
    /// A project was created with these fields.
    InsertProject(Project),
    /// A project was deleted; its tasks moved to the project `inbox_id`.
    RemoveProject { id: i64, inbox_id: i64 },
}

/// The abstract state of a store.
pub struct StoreView {
    /// Every task, in the order the store keeps them.
    pub tasks: Seq<Task>,
    /// Every project, in the order the store keeps them.
    pub projects: Seq<Project>,
    /// The id the next added task gets.
    pub next_task_id: i64,
    /// The id the next created project gets.
    pub next_project_id: i64,
    /// Mutations not yet handed to the persistence layer, oldest first.
    pub changes: Seq<Change>,
    /// The time stamped on what is created now, in microseconds since the
    /// Unix epoch; the program sets it from the system clock.
    pub clock: i64,
}

impl StoreView {
    pub open spec fn has_task(self, id: i64) -> bool {
        exists|i: int| 0 <= i < self.tasks.len() && self.tasks[i].id == Some(id)
    }

    /// The position of task `id`.
    pub open spec fn task_pos(self, id: i64) -> int {
        choose|i: int| 0 <= i < self.tasks.len() && self.tasks[i].id == Some(id)
    }

    /// The task with this id.
    pub open spec fn task(self, id: i64) -> Task {
        self.tasks[self.task_pos(id)]
    }

    pub open spec fn has_project(self, id: i64) -> bool {
        exists|i: int| 0 <= i < self.projects.len() && self.projects[i].id == Some(id)
    }

    /// The position of project `id`.
    pub open spec fn project_pos(self, id: i64) -> int {
        choose|i: int| 0 <= i < self.projects.len() && self.projects[i].id == Some(id)
    }

    pub open spec fn has_name(self, name: Seq<char>) -> bool {
        exists|i: int| 0 <= i < self.projects.len() && self.projects[i].name@ == name
    }

    /// The position of the project with this name.
    pub open spec fn name_pos(self, name: Seq<char>) -> int {
        choose|i: int| 0 <= i < self.projects.len() && self.projects[i].name@ == name
    }

    /// The Inbox project.
    pub open spec fn inbox(self) -> Project {
        self.projects[self.name_pos(inbox_name())]
    }

    /// The Inbox project's id.
    pub open spec fn inbox_id(self) -> i64 {
        self.inbox().id->0
    }

    /// What `list` returns for a query.
    pub open spec fn listing(self, q: TaskQuery) -> Seq<Task> {
        listing(self.tasks, q)
    }

    /// What `list_projects` returns: the Inbox first, then by name.
    pub open spec fn project_listing(self) -> Seq<Project> {
        sort_projects_spec(self.projects)
    }

    /// The number of open tasks across all projects.
    pub open spec fn open_count(self) -> nat {
        select(self.tasks, open_query()).len()
    }

    /// The store after task `id` is replaced by `t`, with `c` journaled.
    pub open spec fn after_update(self, id: i64, t: Task, c: Change) -> StoreView {
        StoreView { tasks: self.tasks.update(self.task_pos(id), t), changes: self.changes.push(c), ..self }
    }

    /// The store after task `id` is deleted.
    pub open spec fn after_remove(self, id: i64) -> StoreView {
        StoreView {
            tasks: self.tasks.remove(self.task_pos(id)),
            changes: self.changes.push(Change::RemoveTask(id)),
            ..self
        }
    }

    /// Whether `next` is this store with task `t` appended under the next
    /// task id and stamped with the clock, journaled.
    pub open spec fn added_task(self, next: StoreView, t: Task) -> bool {
        &&& self.next_task_id < i64::MAX
        &&& t.id == Some(self.next_task_id)
        &&& t.created_at == self.clock
        &&& next == (StoreView {
            tasks: self.tasks.push(t),
            next_task_id: (self.next_task_id + 1) as i64,
            changes: self.changes.push(Change::InsertTask(t)),
            ..self
        })
    }

    /// Whether `next` is this store with project `p` appended under the next
    /// project id and stamped with the clock, journaled.
    pub open spec fn added_project(self, next: StoreView, p: Project) -> bool {
        &&& self.next_project_id < i64::MAX
        &&& p.id == Some(self.next_project_id)
        &&& p.created_at == self.clock
        &&& next == (StoreView {
            projects: self.projects.push(p),
            next_project_id: (self.next_project_id + 1) as i64,
            changes: self.changes.push(Change::InsertProject(p)),
            ..self
        })
    }

    /// The store after project `id` is deleted and its tasks moved to the
    /// Inbox.
    pub open spec fn after_remove_project(self, id: i64) -> StoreView {
        StoreView {
            tasks: reassigned(self.tasks, id, self.inbox_id()),
            projects: self.projects.remove(self.project_pos(id)),
            changes: self.changes.push(Change::RemoveProject { id, inbox_id: self.inbox_id() }),
            ..self
        }
    }

    /// The store after task `t` (with an id) is put back: appended, with the
    /// next id moved past it if needed, journaled.
    pub open spec fn restored(self, t: Task) -> StoreView {
        StoreView {
            tasks: self.tasks.push(t),
            next_task_id: if t.id->0 >= self.next_task_id {
                (t.id->0 + 1) as i64
            } else {
                self.next_task_id
            },
            changes: self.changes.push(Change::InsertTask(t)),
            ..self
        }
    }

    /// The id of the project with this name, if there is one.
    pub open spec fn project_named(self, name: Seq<char>) -> Option<i64> {
        if self.has_name(name) {
            Some(self.projects[self.name_pos(name)].id->0)
        } else {
            None
        }
    }

    /// The store's well-formedness: every task and project has an id below
    /// the next one handed out, ids are unique, project names are unique,
    /// and an Inbox project exists.
    pub open spec fn wf(self) -> bool {
        &&& forall|i: int|
            0 <= i < self.tasks.len() ==> (#[trigger] self.tasks[i]).id is Some
                && self.tasks[i].id->0 < self.next_task_id
        &&& forall|i: int, j: int|
            0 <= i < self.tasks.len() && 0 <= j < self.tasks.len() && i != j
                ==> (#[trigger] self.tasks[i]).id != (#[trigger] self.tasks[j]).id
        &&& forall|i: int|
            0 <= i < self.projects.len() ==> (#[trigger] self.projects[i]).id is Some
                && self.projects[i].id->0 < self.next_project_id
        &&& forall|i: int, j: int|
            0 <= i < self.projects.len() && 0 <= j < self.projects.len() && i != j
                ==> (#[trigger] self.projects[i]).id != (#[trigger] self.projects[j]).id
                && self.projects[i].name@ != self.projects[j].name@
        &&& self.has_name(inbox_name())
    }
}

/// The tasks with project `from` moved to project `to`.
pub open spec fn reassigned(tasks: Seq<Task>, from: i64, to: i64) -> Seq<Task> {
    tasks.map_values(|t: Task| if t.project_id == from { Task { project_id: to, ..t } } else { t })
}

} // verus!

