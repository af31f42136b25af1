//! The in-memory task store. Every read is answered from memory; every
//! mutation is also appended to a journal of `Change`s, which the
//! persistence layer drains and writes to the database.

use vstd::prelude::*;

use crate::error::TodoError;
use crate::model::{inbox_name, inbox_name_string, NewTask, Priority, Project, Status, Task};
use crate::store::order::{sort_projects, sort_tasks};
use crate::store::{
    listing, reassigned, select, Change, ProjectFilter, StatusFilter, StoreView, TaskQuery,
};
use crate::text::{append, debug_quoted, debug_text, to_owned_string};

verus! {

broadcast use vstd::seq::group_seq_axioms;

/// All tasks and projects, plus the journal of changes not yet persisted.
pub struct TaskStore {
    tasks: Vec<Task>,
    projects: Vec<Project>,
    next_task_id: i64,
    next_project_id: i64,
    changes: Vec<Change>,
    clock: i64,
}

/// The message of the error `add` gives once every task id is used.
pub open spec fn task_ids_exhausted() -> Seq<char> {
    "no task ids left"@
}

/// The message of the error `add_project` gives once every project id is used.
pub open spec fn project_ids_exhausted() -> Seq<char> {
    "no project ids left"@
}

/// The message of the error `restore_task` gives for an id already in use.
pub open spec fn duplicate_task_id() -> Seq<char> {
    "UNIQUE constraint failed: tasks.id"@
}

/// The message of the error `load` gives for rows that break the store's
/// invariant.
pub open spec fn inconsistent_rows() -> Seq<char> {
    "stored tasks and projects are inconsistent"@
}

/// The message of the error `add_project` gives for a name in use.
pub open spec fn duplicate_project(name: Seq<char>) -> Seq<char> {
    "project "@ + debug_quoted(name) + " already exists"@
}

/// The message refusing a project name in use, given the name as `{:?}`
/// writes it.
pub fn duplicate_project_message(quoted: &str) -> (r: String)
    ensures
        r@ == "project "@ + quoted@ + " already exists"@,
{
    let mut msg = to_owned_string("project ");
    append(&mut msg, quoted);
    append(&mut msg, " already exists");
    msg
}

/// The largest of `floor` and one more than each task id.
pub open spec fn next_id_after_tasks(tasks: Seq<Task>, floor: int) -> int
    decreases tasks.len(),
{
    if tasks.len() == 0 {
        floor
    } else {
        let r = next_id_after_tasks(tasks.drop_last(), floor);
        let c = crate::store::order::id_key(tasks.last().id) + 1;
        if c > r {
            c
        } else {
            r
        }
    }
}

/// The largest of `floor` and one more than each project id.
pub open spec fn next_id_after_projects(projects: Seq<Project>, floor: int) -> int
    decreases projects.len(),
{
    if projects.len() == 0 {
        floor
    } else {
        let r = next_id_after_projects(projects.drop_last(), floor);
        let c = crate::store::order::id_key(projects.last().id) + 1;
        if c > r {
            c
        } else {
            r
        }
    }
}

/// Whether stored rows can make a store: every id present and below
/// `i64::MAX`, ids unique, project names unique, an Inbox present.
pub open spec fn loadable(tasks: Seq<Task>, projects: Seq<Project>) -> bool {
    &&& forall|i: int|
        0 <= i < tasks.len() ==> (#[trigger] tasks[i]).id is Some && tasks[i].id->0 < i64::MAX
    &&& forall|i: int, j: int|
        0 <= i < tasks.len() && 0 <= j < tasks.len() && i != j ==> (#[trigger] tasks[i]).id
            != (#[trigger] tasks[j]).id
    &&& forall|i: int|
        0 <= i < projects.len() ==> (#[trigger] projects[i]).id is Some && projects[i].id->0
            < i64::MAX
    &&& forall|i: int, j: int|
        0 <= i < projects.len() && 0 <= j < projects.len() && i != j
            ==> (#[trigger] projects[i]).id != (#[trigger] projects[j]).id
            && projects[i].name@ != projects[j].name@
    &&& exists|i: int| 0 <= i < projects.len() && projects[i].name@ == inbox_name()
}


proof fn lemma_next_after_tasks(tasks: Seq<Task>, floor: int)
    ensures
        next_id_after_tasks(tasks, floor) >= floor,
        forall|a: int| 0 <= a < tasks.len() ==> crate::store::order::id_key(
            #[trigger] tasks[a].id,
        ) < next_id_after_tasks(tasks, floor),
    decreases tasks.len(),
{
    if tasks.len() > 0 {
        lemma_next_after_tasks(tasks.drop_last(), floor);
        assert forall|a: int| 0 <= a < tasks.len() implies crate::store::order::id_key(
            #[trigger] tasks[a].id,
        ) < next_id_after_tasks(tasks, floor) by {
            if a < tasks.len() - 1 {
                assert(tasks[a] == tasks.drop_last()[a]);
            }
        }
    }
}

proof fn lemma_next_after_projects(projects: Seq<Project>, floor: int)
    ensures
        next_id_after_projects(projects, floor) >= floor,
        forall|a: int| 0 <= a < projects.len() ==> crate::store::order::id_key(
            #[trigger] projects[a].id,
        ) < next_id_after_projects(projects, floor),
    decreases projects.len(),
{
    if projects.len() > 0 {
        lemma_next_after_projects(projects.drop_last(), floor);
        assert forall|a: int| 0 <= a < projects.len() implies crate::store::order::id_key(
            #[trigger] projects[a].id,
        ) < next_id_after_projects(projects, floor) by {
            if a < projects.len() - 1 {
                assert(projects[a] == projects.drop_last()[a]);
            }
        }
    }
}

fn tasks_loadable(tasks: &Vec<Task>) -> (r: bool)
    ensures
        r == ((forall|i: int|
            0 <= i < tasks@.len() ==> (#[trigger] tasks@[i]).id is Some && tasks@[i].id->0
                < i64::MAX) && (forall|i: int, j: int|
            0 <= i < tasks@.len() && 0 <= j < tasks@.len() && i != j ==> (#[trigger] tasks@[i]).id
                != (#[trigger] tasks@[j]).id)),
{
    let mut i: usize = 0;
    while i < tasks.len()
        invariant
            i <= tasks@.len(),
            forall|a: int| 0 <= a < i ==> (#[trigger] tasks@[a]).id is Some && tasks@[a].id->0
                < i64::MAX,
            forall|a: int, b: int|
                0 <= a < i && 0 <= b < i && a != b ==> (#[trigger] tasks@[a]).id
                    != (#[trigger] tasks@[b]).id,
        decreases tasks@.len() - i,
    {
        match tasks[i].id {
            None => {
                return false;
            },
            Some(x) => {
                if x == i64::MAX {
                    return false;
                }
            },
        }
        let mut j: usize = 0;
        while j < i
            invariant
                i < tasks@.len(),
                j <= i,
                forall|b: int| 0 <= b < j ==> tasks@[b].id != tasks@[i as int].id,
            decreases i - j,
        {
            if tasks[j].id == tasks[i].id {
                assert(tasks@[j as int].id == tasks@[i as int].id);
                return false;
            }
            j = j + 1;
        }
        i = i + 1;
    }
    true
}

fn projects_loadable(projects: &Vec<Project>) -> (r: bool)
    ensures
        r == ((forall|i: int|
            0 <= i < projects@.len() ==> (#[trigger] projects@[i]).id is Some && projects@[i].id->0
                < i64::MAX) && (forall|i: int, j: int|
            0 <= i < projects@.len() && 0 <= j < projects@.len() && i != j
                ==> (#[trigger] projects@[i]).id != (#[trigger] projects@[j]).id
                && projects@[i].name@ != projects@[j].name@) && (exists|i: int|
            0 <= i < projects@.len() && projects@[i].name@ == inbox_name())),
{
    let inbox = inbox_name_string();
    let mut found = false;
    let mut i: usize = 0;
    while i < projects.len()
        invariant
            inbox@ == inbox_name(),
            i <= projects@.len(),
            forall|a: int| 0 <= a < i ==> (#[trigger] projects@[a]).id is Some
                && projects@[a].id->0 < i64::MAX,
            forall|a: int, b: int|
                0 <= a < i && 0 <= b < i && a != b ==> (#[trigger] projects@[a]).id
                    != (#[trigger] projects@[b]).id && projects@[a].name@ != projects@[b].name@,
            found == (exists|a: int| 0 <= a < i && projects@[a].name@ == inbox_name()),
        decreases projects@.len() - i,
    {
        match projects[i].id {
            None => {
                return false;
            },
            Some(x) => {
                if x == i64::MAX {
                    return false;
                }
            },
        }
        let mut j: usize = 0;
        while j < i
            invariant
                i < projects@.len(),
                j <= i,
                forall|b: int|
                    0 <= b < j ==> projects@[b].id != projects@[i as int].id && projects@[b].name@
                        != projects@[i as int].name@,
            decreases i - j,
        {
            if projects[j].id == projects[i].id || projects[j].name == projects[i].name {
                assert(projects@[j as int].id == projects@[i as int].id || projects@[j as int].name@
                    == projects@[i as int].name@);
                return false;
            }
            j = j + 1;
        }
        if projects[i].name == inbox {
            found = true;
        }
        i = i + 1;
    }
    found
}

impl View for TaskStore {
    type V = StoreView;

    closed spec fn view(&self) -> StoreView {
        StoreView {
            tasks: self.tasks@,
            projects: self.projects@,
            next_task_id: self.next_task_id,
            next_project_id: self.next_project_id,
            changes: self.changes@,
            clock: self.clock,
        }
    }
}

impl TaskStore {
    /// The store's invariant (see `StoreView::wf`).
    pub open spec fn wf(&self) -> bool {
        self@.wf()
    }

    /// An empty store seeded with the Inbox project (id 1), its clock at
    /// `now` (microseconds since the Unix epoch).
    pub fn new(now: i64) -> (r: TaskStore)
        ensures
            r.wf(),
            r@.tasks.len() == 0,
            r@.projects.len() == 1,
            r@.projects[0].id == Some(1i64),
            r@.projects[0].name@ == inbox_name(),
            r@.projects[0].created_at == now,
            r@.clock == now,
            r@.next_task_id == 1,
            r@.next_project_id == 2,
            r@.changes.len() == 0,
    {
        let inbox = Project { id: Some(1), name: inbox_name_string(), created_at: now };
        let mut projects = Vec::new();
        projects.push(inbox);
        let s = TaskStore {
            tasks: Vec::new(),
            projects,
            next_task_id: 1,
            next_project_id: 2,
            changes: Vec::new(),
            clock: now,
        };
        assert(s@.projects[0].name@ == inbox_name());
        s
    }

    /// A store over rows read back from the database, its clock at `now`.
    /// Ids handed out next are above every stored id and at least the given
    /// floors. Rows that break the invariant (a missing or duplicate id, a
    /// duplicate project name, no Inbox) are refused.
    pub fn load(tasks: Vec<Task>, projects: Vec<Project>, next_task_floor: i64, next_project_floor: i64, now: i64) -> (r: Result<TaskStore, TodoError>)
        ensures
            match r {
                Ok(s) => {
                    &&& loadable(tasks@, projects@)
                    &&& s.wf()
                    &&& s@.tasks == tasks@
                    &&& s@.projects == projects@
                    &&& s@.next_task_id == next_id_after_tasks(tasks@, next_task_floor as int)
                    &&& s@.next_project_id == next_id_after_projects(projects@, next_project_floor as int)
                    &&& s@.changes.len() == 0
                    &&& s@.clock == now
                },
                Err(e) => !loadable(tasks@, projects@) && (e matches TodoError::Storage(m) && m@ == inconsistent_rows()),
            },
    {
        if !tasks_loadable(&tasks) || !projects_loadable(&projects) {
            return Err(TodoError::Storage(to_owned_string("stored tasks and projects are inconsistent")));
        }
        let mut next_task_id = next_task_floor;
        let mut i: usize = 0;
        while i < tasks.len()
            invariant
                i <= tasks@.len(),
                forall|a: int| 0 <= a < tasks@.len() ==> (#[trigger] tasks@[a]).id is Some
                    && tasks@[a].id->0 < i64::MAX,
                next_task_id == next_id_after_tasks(tasks@.take(i as int), next_task_floor as int),
            decreases tasks@.len() - i,
        {
            proof {
                assert(tasks@.take(i + 1).drop_last() =~= tasks@.take(i as int));
                assert(tasks@.take(i + 1).last() == tasks@[i as int]);
            }
            let c = match tasks[i].id {
                Some(x) => x + 1,
                None => 0,
            };
            if c > next_task_id {
                next_task_id = c;
            }
            i = i + 1;
        }
        assert(tasks@.take(tasks@.len() as int) =~= tasks@);
        let mut next_project_id = next_project_floor;
        let mut i: usize = 0;
        while i < projects.len()
            invariant
                i <= projects@.len(),
                forall|a: int| 0 <= a < projects@.len() ==> (#[trigger] projects@[a]).id is Some
                    && projects@[a].id->0 < i64::MAX,
                next_project_id == next_id_after_projects(projects@.take(i as int), next_project_floor as int),
            decreases projects@.len() - i,
        {
            proof {
                assert(projects@.take(i + 1).drop_last() =~= projects@.take(i as int));
                assert(projects@.take(i + 1).last() == projects@[i as int]);
            }
            let c = match projects[i].id {
                Some(x) => x + 1,
                None => 0,
            };
            if c > next_project_id {
                next_project_id = c;
            }
            i = i + 1;
        }
        assert(projects@.take(projects@.len() as int) =~= projects@);
        proof {
            lemma_next_after_tasks(tasks@, next_task_floor as int);
            lemma_next_after_projects(projects@, next_project_floor as int);
        }
        Ok(TaskStore { tasks, projects, next_task_id, next_project_id, changes: Vec::new(), clock: now })
    }

    /// Hands the journal of changes to the caller and empties it.
    pub fn take_changes(&mut self) -> (r: Vec<Change>)
        ensures
            r@ == old(self)@.changes,
            final(self)@ == (StoreView { changes: Seq::empty(), ..old(self)@ }),
    {
        let mut out = Vec::new();
        std::mem::swap(&mut out, &mut self.changes);
        out
    }

    fn find_task(&self, id: i64) -> (r: Option<usize>)
        requires
            self.wf(),
        ensures
            match r {
                Some(i) => self@.has_task(id) && i == self@.task_pos(id) && i < self@.tasks.len(),
                None => !self@.has_task(id),
            },
    {
        let mut i: usize = 0;
        while i < self.tasks.len()
            invariant
                self.wf(),
                i <= self.tasks@.len(),
                forall|j: int| 0 <= j < i ==> self.tasks@[j].id != Some(id),
            decreases self.tasks@.len() - i,
        {
            if self.tasks[i].id == Some(id) {
                proof {
                    assert(self@.tasks[i as int].id == Some(id));
                    let k = self@.task_pos(id);
                    assert(self@.tasks[k].id == Some(id));
                    assert(k == i);
                }
                return Some(i);
            }
            i = i + 1;
        }
        None
    }

    fn find_project_pos(&self, id: i64) -> (r: Option<usize>)
        requires
            self.wf(),
        ensures
            match r {
                Some(i) => self@.has_project(id) && i == self@.project_pos(id) && i
                    < self@.projects.len(),
                None => !self@.has_project(id),
            },
    {
        let mut i: usize = 0;
        while i < self.projects.len()
            invariant
                self.wf(),
                i <= self.projects@.len(),
                forall|j: int| 0 <= j < i ==> self.projects@[j].id != Some(id),
            decreases self.projects@.len() - i,
        {
            if self.projects[i].id == Some(id) {
                proof {
                    assert(self@.projects[i as int].id == Some(id));
                    let k = self@.project_pos(id);
                    assert(self@.projects[k].id == Some(id));
                    assert(k == i);
                }
                return Some(i);
            }
            i = i + 1;
        }
        None
    }

    fn find_name(&self, name: &str) -> (r: Option<usize>)
        requires
            self.wf(),
        ensures
            match r {
                Some(i) => self@.has_name(name@) && i == self@.name_pos(name@) && i
                    < self@.projects.len(),
                None => !self@.has_name(name@),
            },
    {
        let mut i: usize = 0;
        while i < self.projects.len()
            invariant
                self.wf(),
                i <= self.projects@.len(),
                forall|j: int| 0 <= j < i ==> self.projects@[j].name@ != name@,
            decreases self.projects@.len() - i,
        {
            if crate::text::str_eq(self.projects[i].name.as_str(), name) {
                proof {
                    assert(self@.projects[i as int].name@ == name@);
                    let k = self@.name_pos(name@);
                    assert(self@.projects[k].name@ == name@);
                    assert(k == i);
                }
                return Some(i);
            }
            i = i + 1;
        }
        None
    }

    /// Stores a new open task, stamped with the store's clock, and returns it
    /// with its id.
    pub fn add(&mut self, task: NewTask) -> (r: Result<Task, TodoError>)
        requires
            old(self).wf(),
        ensures
            final(self).wf(),
            match r {
                Ok(t) => {
                    &&& old(self)@.added_task(final(self)@, t)
                    &&& t.title == task.title
                    &&& t.status == Status::Open
                    &&& t.priority == task.priority
                    &&& t.project_id == task.project_id
                },
                Err(e) => {
                    &&& old(self)@.next_task_id == i64::MAX
                    &&& (e matches TodoError::Storage(m) && m@ == task_ids_exhausted())
                    &&& final(self)@ == old(self)@
                },
            },
    {
        if self.next_task_id == i64::MAX {
            return Err(TodoError::Storage(to_owned_string("no task ids left")));
        }
        let id = self.next_task_id;
        let t = Task {
            id: Some(id),
            title: task.title,
            status: Status::Open,
            priority: task.priority,
            project_id: task.project_id,
            created_at: self.clock,
        };
        self.tasks.push(t.duplicate());
        self.next_task_id = id + 1;
        self.changes.push(Change::InsertTask(t.duplicate()));
        proof {
            let v = self@;
            assert forall|i: int, j: int|
                0 <= i < v.tasks.len() && 0 <= j < v.tasks.len() && i != j implies (
                #[trigger] v.tasks[i]).id != (#[trigger] v.tasks[j]).id by {
                if i < v.tasks.len() - 1 && j < v.tasks.len() - 1 {
                    assert(v.tasks[i] == old(self)@.tasks[i]);
                    assert(v.tasks[j] == old(self)@.tasks[j]);
                } else if i < v.tasks.len() - 1 {
                    assert(v.tasks[i] == old(self)@.tasks[i]);
                } else if j < v.tasks.len() - 1 {
                    assert(v.tasks[j] == old(self)@.tasks[j]);
                }
            }
            assert(v.has_name(inbox_name()) == old(self)@.has_name(inbox_name()));
        }
        Ok(t)
    }

    /// The tasks that pass the query, high priority first, then newest.
    pub fn list(&self, query: TaskQuery) -> (r: Result<Vec<Task>, TodoError>)
        requires
            self.wf(),
        ensures
            r matches Ok(v) && v@ == self@.listing(query),
    {
        let mut picked: Vec<Task> = Vec::new();
        let mut i: usize = 0;
        while i < self.tasks.len()
            invariant
                i <= self.tasks@.len(),
                picked@ == select(self.tasks@.take(i as int), query),
            decreases self.tasks@.len() - i,
        {
            let t = &self.tasks[i];
            let keep = match query.status {
                StatusFilter::All => true,
                StatusFilter::Only(s) => t.status == s,
            } && match query.project {
                ProjectFilter::Any => true,
                ProjectFilter::Only(pid) => t.project_id == pid,
            };
            proof {
                assert(self.tasks@.take(i + 1).drop_last() =~= self.tasks@.take(i as int));
                assert(self.tasks@.take(i + 1).last() == *t);
            }
            if keep {
                picked.push(t.duplicate());
            }
            i = i + 1;
        }
        assert(self.tasks@.take(self.tasks@.len() as int) =~= self.tasks@);
        Ok(sort_tasks(&picked))
    }

    /// The task with this id.
    pub fn get(&self, id: i64) -> (r: Result<Task, TodoError>)
        requires
            self.wf(),
        ensures
            match r {
                Ok(t) => self@.has_task(id) && t == self@.task(id),
                Err(e) => !self@.has_task(id) && e == TodoError::NotFound(id),
            },
    {
        match self.find_task(id) {
            Some(i) => Ok(self.tasks[i].duplicate()),
            None => Err(TodoError::NotFound(id)),
        }
    }

    /// Sets a task's status and returns the updated task.
    pub fn set_status(&mut self, id: i64, status: Status) -> (r: Result<Task, TodoError>)
        requires
            old(self).wf(),
        ensures
            final(self).wf(),
            match r {
                Ok(t) => {
                    &&& old(self)@.has_task(id)
                    &&& t == Task { status, ..old(self)@.task(id) }
                    &&& final(self)@ == old(self)@.after_update(id, t, Change::SetStatus { id, status })
                },
                Err(e) => !old(self)@.has_task(id) && e == TodoError::NotFound(id) && final(self)@
                    == old(self)@,
            },
    {
        match self.find_task(id) {
            Some(i) => {
                let mut t = self.tasks[i].duplicate();
                t.status = status;
                self.tasks.set(i, t.duplicate());
                self.changes.push(Change::SetStatus { id, status });
                proof { self.lemma_update_keeps_wf(old(self)@, i as int); }
                Ok(t)
            },
            None => Err(TodoError::NotFound(id)),
        }
    }

    /// Sets a task's priority and returns the updated task.
    pub fn set_priority(&mut self, id: i64, priority: Priority) -> (r: Result<Task, TodoError>)
        requires
            old(self).wf(),
        ensures
            final(self).wf(),
            match r {
                Ok(t) => {
                    &&& old(self)@.has_task(id)
                    &&& t == Task { priority, ..old(self)@.task(id) }
                    &&& final(self)@ == old(self)@.after_update(
                        id,
                        t,
                        Change::SetPriority { id, priority },
                    )
                },
                Err(e) => !old(self)@.has_task(id) && e == TodoError::NotFound(id) && final(self)@
                    == old(self)@,
            },
    {
        match self.find_task(id) {
            Some(i) => {
                let mut t = self.tasks[i].duplicate();
                t.priority = priority;
                self.tasks.set(i, t.duplicate());
                self.changes.push(Change::SetPriority { id, priority });
                proof { self.lemma_update_keeps_wf(old(self)@, i as int); }
                Ok(t)
            },
            None => Err(TodoError::NotFound(id)),
        }
    }

    /// Moves a task to another project. The project is checked first.
    pub fn set_project(&mut self, id: i64, project_id: i64) -> (r: Result<Task, TodoError>)
        requires
            old(self).wf(),
        ensures
            final(self).wf(),
            match r {
                Ok(t) => {
                    &&& old(self)@.has_project(project_id)
                    &&& old(self)@.has_task(id)
                    &&& t == Task { project_id, ..old(self)@.task(id) }
                    &&& final(self)@ == old(self)@.after_update(
                        id,
                        t,
                        Change::SetProject { id, project_id },
                    )
                },
                Err(e) => {
                    &&& final(self)@ == old(self)@
                    &&& if !old(self)@.has_project(project_id) {
                        e == TodoError::NotFound(project_id)
                    } else {
                        !old(self)@.has_task(id) && e == TodoError::NotFound(id)
                    }
                },
            },
    {
        if self.find_project_pos(project_id).is_none() {
            return Err(TodoError::NotFound(project_id));
        }
        match self.find_task(id) {
            Some(i) => {
                let mut t = self.tasks[i].duplicate();
                t.project_id = project_id;
                self.tasks.set(i, t.duplicate());
                self.changes.push(Change::SetProject { id, project_id });
                proof { self.lemma_update_keeps_wf(old(self)@, i as int); }
                Ok(t)
            },
            None => Err(TodoError::NotFound(id)),
        }
    }

    proof fn lemma_update_keeps_wf(&self, prev: StoreView, i: int)
        requires
            prev.wf(),
            0 <= i < prev.tasks.len(),
            self@.tasks.len() == prev.tasks.len(),
            self@.tasks[i].id == prev.tasks[i].id,
            forall|j: int| 0 <= j < prev.tasks.len() && j != i ==> self@.tasks[j] == prev.tasks[j],
            self@.projects == prev.projects,
            self@.next_task_id == prev.next_task_id,
            self@.next_project_id == prev.next_project_id,
        ensures
            self@.wf(),
    {
        let v = self@;
        assert forall|a: int, b: int|
            0 <= a < v.tasks.len() && 0 <= b < v.tasks.len() && a != b implies (
            #[trigger] v.tasks[a]).id != (#[trigger] v.tasks[b]).id by {
            assert(v.tasks[a].id == prev.tasks[a].id);
            assert(v.tasks[b].id == prev.tasks[b].id);
        }
        assert forall|a: int| 0 <= a < v.tasks.len() implies (#[trigger] v.tasks[a]).id is Some
            && v.tasks[a].id->0 < v.next_task_id by {
            assert(v.tasks[a].id == prev.tasks[a].id);
        }
        assert(v.has_name(inbox_name()) == prev.has_name(inbox_name()));
    }

    /// Deletes a task.
    pub fn remove(&mut self, id: i64) -> (r: Result<(), TodoError>)
        requires
            old(self).wf(),
        ensures
            final(self).wf(),
            match r {
                Ok(()) => old(self)@.has_task(id) && final(self)@ == old(self)@.after_remove(id),
                Err(e) => !old(self)@.has_task(id) && e == TodoError::NotFound(id) && final(self)@
                    == old(self)@,
            },
    {
        match self.find_task(id) {
            Some(i) => {
                self.tasks.remove(i);
                self.changes.push(Change::RemoveTask(id));
                proof {
                    let v = self@;
                    let p = old(self)@;
                    assert forall|a: int| 0 <= a < v.tasks.len() implies v.tasks[a] == (if a < i {
                        p.tasks[a]
                    } else {
                        p.tasks[a + 1]
                    }) by {}
                    assert forall|a: int, b: int|
                        0 <= a < v.tasks.len() && 0 <= b < v.tasks.len() && a != b implies (
                        #[trigger] v.tasks[a]).id != (#[trigger] v.tasks[b]).id by {
                        let a2 = if a < i { a } else { a + 1 };
                        let b2 = if b < i { b } else { b + 1 };
                        assert(v.tasks[a] == p.tasks[a2]);
                        assert(v.tasks[b] == p.tasks[b2]);
                    }
                    assert forall|a: int| 0 <= a < v.tasks.len() implies (
                    #[trigger] v.tasks[a]).id is Some && v.tasks[a].id->0 < v.next_task_id by {
                        let a2 = if a < i { a } else { a + 1 };
                        assert(v.tasks[a] == p.tasks[a2]);
                    }
                    assert(v.has_name(inbox_name()) == p.has_name(inbox_name()));
                }
                Ok(())
            },
            None => Err(TodoError::NotFound(id)),
        }
    }

    /// Re-inserts a previously removed task with its id and fields, so that a
    /// deletion can be undone faithfully.
    pub fn restore_task(&mut self, task: &Task) -> (r: Result<(), TodoError>)
        requires
            old(self).wf(),
        ensures
            final(self).wf(),
            match r {
                Ok(()) => {
                    &&& task.id is Some
                    &&& !old(self)@.has_task(task.id->0)
                    &&& (task.id->0 >= old(self)@.next_task_id ==> task.id->0 < i64::MAX)
                    &&& final(self)@ == old(self)@.restored(*task)
                },
                Err(e) => {
                    &&& final(self)@ == old(self)@
                    &&& match task.id {
                        None => (e matches TodoError::Invalid(m) && m@ == "cannot restore a task without an id"@),
                        Some(id) => if old(self)@.has_task(id) {
                            (e matches TodoError::Storage(m) && m@ == duplicate_task_id())
                        } else {
                            id == i64::MAX && (e matches TodoError::Storage(m) && m@ == task_ids_exhausted())
                        },
                    }
                },
            },
    {
        let id = match task.id {
            Some(id) => id,
            None => {
                return Err(
                    TodoError::Invalid(to_owned_string("cannot restore a task without an id")),
                );
            },
        };
        if self.find_task(id).is_some() {
            return Err(TodoError::Storage(to_owned_string("UNIQUE constraint failed: tasks.id")));
        }
        if id == i64::MAX {
            return Err(TodoError::Storage(to_owned_string("no task ids left")));
        }
        if id >= self.next_task_id {
            self.next_task_id = id + 1;
        }
        self.tasks.push(task.duplicate());
        self.changes.push(Change::InsertTask(task.duplicate()));
        proof {
            let v = self@;
            let p = old(self)@;
            assert forall|i: int, j: int|
                0 <= i < v.tasks.len() && 0 <= j < v.tasks.len() && i != j implies (
                #[trigger] v.tasks[i]).id != (#[trigger] v.tasks[j]).id by {
                if i < v.tasks.len() - 1 && j < v.tasks.len() - 1 {
                    assert(v.tasks[i] == p.tasks[i]);
                    assert(v.tasks[j] == p.tasks[j]);
                } else if i < v.tasks.len() - 1 {
                    assert(v.tasks[i] == p.tasks[i]);
                } else if j < v.tasks.len() - 1 {
                    assert(v.tasks[j] == p.tasks[j]);
                }
            }
            assert forall|a: int| 0 <= a < v.tasks.len() implies (#[trigger] v.tasks[a]).id is Some
                && v.tasks[a].id->0 < v.next_task_id by {
                if a < v.tasks.len() - 1 {
                    assert(v.tasks[a] == p.tasks[a]);
                }
            }
            assert(v.has_name(inbox_name()) == p.has_name(inbox_name()));
        }
        Ok(())
    }

    /// The number of open tasks across all projects.
    pub fn open_count(&self) -> (r: Result<usize, TodoError>)
        requires
            self.wf(),
        ensures
            r matches Ok(n) && n == self@.open_count(),
    {
        let mut n: usize = 0;
        let mut i: usize = 0;
        while i < self.tasks.len()
            invariant
                i <= self.tasks@.len(),
                n == select(self.tasks@.take(i as int), crate::store::open_query()).len(),
                n <= i,
            decreases self.tasks@.len() - i,
        {
            proof {
                assert(self.tasks@.take(i + 1).drop_last() =~= self.tasks@.take(i as int));
                assert(self.tasks@.take(i + 1).last() == self.tasks@[i as int]);
            }
            if self.tasks[i].status == Status::Open {
                n = n + 1;
            }
            i = i + 1;
        }
        assert(self.tasks@.take(self.tasks@.len() as int) =~= self.tasks@);
        Ok(n)
    }

    /// Creates a project. A name already in use is refused.
    pub fn add_project(&mut self, name: &str) -> (r: Result<Project, TodoError>)
        requires
            old(self).wf(),
        ensures
            final(self).wf(),
            match r {
                Ok(p) => {
                    &&& !old(self)@.has_name(name@)
                    &&& old(self)@.added_project(final(self)@, p)
                    &&& p.name@ == name@
                },
                Err(e) => {
                    &&& final(self)@ == old(self)@
                    &&& if old(self)@.has_name(name@) {
                        (e matches TodoError::Invalid(m) && m@ == duplicate_project(name@))
                    } else {
                        old(self)@.next_project_id == i64::MAX && (e matches TodoError::Storage(m) && m@ == project_ids_exhausted())
                    }
                },
            },
    {
        if self.find_name(name).is_some() {
            let q = debug_text(name);
            return Err(TodoError::Invalid(duplicate_project_message(q.as_str())));
        }
        if self.next_project_id == i64::MAX {
            return Err(TodoError::Storage(to_owned_string("no project ids left")));
        }
        let id = self.next_project_id;
        let p = Project { id: Some(id), name: to_owned_string(name), created_at: self.clock };
        self.projects.push(p.duplicate());
        self.next_project_id = id + 1;
        self.changes.push(Change::InsertProject(p.duplicate()));
        proof {
            let v = self@;
            let o = old(self)@;
            assert forall|i: int, j: int|
                0 <= i < v.projects.len() && 0 <= j < v.projects.len() && i != j implies (
                #[trigger] v.projects[i]).id != (#[trigger] v.projects[j]).id
                && v.projects[i].name@ != v.projects[j].name@ by {
                if i < v.projects.len() - 1 {
                    assert(v.projects[i] == o.projects[i]);
                }
                if j < v.projects.len() - 1 {
                    assert(v.projects[j] == o.projects[j]);
                }
            }
            assert forall|a: int| 0 <= a < v.projects.len() implies (
            #[trigger] v.projects[a]).id is Some && v.projects[a].id->0 < v.next_project_id by {
                if a < v.projects.len() - 1 {
                    assert(v.projects[a] == o.projects[a]);
                }
            }
            let k = o.name_pos(inbox_name());
            assert(v.projects[k] == o.projects[k]);
        }
        Ok(p)
    }

    /// Every project: the Inbox first, then by name.
    pub fn list_projects(&self) -> (r: Result<Vec<Project>, TodoError>)
        requires
            self.wf(),
        ensures
            r matches Ok(v) && v@ == self@.project_listing(),
    {
        Ok(sort_projects(&self.projects))
    }

    /// The project with this name, if any.
    pub fn find_project(&self, name: &str) -> (r: Result<Option<Project>, TodoError>)
        requires
            self.wf(),
        ensures
            match r {
                Ok(Some(p)) => self@.has_name(name@) && p == self@.projects[self@.name_pos(name@)],
                Ok(None) => !self@.has_name(name@),
                Err(_) => false,
            },
    {
        match self.find_name(name) {
            Some(i) => Ok(Some(self.projects[i].duplicate())),
            None => Ok(None),
        }
    }

    /// The seeded default project, which every store has.
    pub fn inbox(&self) -> (r: Result<Project, TodoError>)
        requires
            self.wf(),
        ensures
            r matches Ok(p) && p == self@.inbox(),
    {
        let inbox = inbox_name_string();
        match self.find_name(inbox.as_str()) {
            Some(i) => Ok(self.projects[i].duplicate()),
            None => Err(TodoError::Storage(to_owned_string("Inbox project missing"))),
        }
    }

    /// Deletes a project; its tasks move to the Inbox. The Inbox itself is
    /// refused.
    pub fn remove_project(&mut self, id: i64) -> (r: Result<(), TodoError>)
        requires
            old(self).wf(),
        ensures
            final(self).wf(),
            match r {
                Ok(()) => {
                    &&& id != old(self)@.inbox_id()
                    &&& old(self)@.has_project(id)
                    &&& final(self)@ == old(self)@.after_remove_project(id)
                },
                Err(e) => {
                    &&& final(self)@ == old(self)@
                    &&& if id == old(self)@.inbox_id() {
                        (e matches TodoError::Invalid(m) && m@ == "cannot delete the Inbox project"@)
                    } else {
                        !old(self)@.has_project(id) && e == TodoError::NotFound(id)
                    }
                },
            },
    {
        let name = inbox_name_string();
        let ipos = match self.find_name(name.as_str()) {
            Some(i) => i,
            None => {
                return Err(TodoError::Storage(to_owned_string("Inbox project missing")));
            },
        };
        let inbox_id = match self.projects[ipos].id {
            Some(x) => x,
            None => {
                return Err(TodoError::Storage(to_owned_string("Inbox project missing")));
            },
        };
        if id == inbox_id {
            return Err(TodoError::Invalid(to_owned_string("cannot delete the Inbox project")));
        }
        let ppos = match self.find_project_pos(id) {
            Some(p) => p,
            None => {
                return Err(TodoError::NotFound(id));
            },
        };
        let ghost o = self@;
        let mut i: usize = 0;
        while i < self.tasks.len()
            invariant
                self.projects@ == o.projects,
                self.next_task_id == o.next_task_id,
                self.next_project_id == o.next_project_id,
                self.changes@ == o.changes,
                self.clock == o.clock,
                self.tasks@.len() == o.tasks.len(),
                i <= o.tasks.len(),
                forall|j: int| 0 <= j < i ==> self.tasks@[j] == reassigned(o.tasks, id, inbox_id)[j],
                forall|j: int| i <= j < o.tasks.len() ==> self.tasks@[j] == o.tasks[j],
            decreases o.tasks.len() - i,
        {
            if self.tasks[i].project_id == id {
                let mut t = self.tasks[i].duplicate();
                t.project_id = inbox_id;
                self.tasks.set(i, t);
            }
            i = i + 1;
        }
        assert(self.tasks@ =~= reassigned(o.tasks, id, inbox_id));
        self.projects.remove(ppos);
        self.changes.push(Change::RemoveProject { id, inbox_id });
        proof {
            let v = self@;
            assert forall|a: int| 0 <= a < v.tasks.len() implies (#[trigger] v.tasks[a]).id
                == o.tasks[a].id by {}
            assert forall|a: int, b: int|
                0 <= a < v.tasks.len() && 0 <= b < v.tasks.len() && a != b implies (
                #[trigger] v.tasks[a]).id != (#[trigger] v.tasks[b]).id by {
                assert(v.tasks[a].id == o.tasks[a].id);
                assert(v.tasks[b].id == o.tasks[b].id);
            }
            assert forall|a: int| 0 <= a < v.tasks.len() implies (#[trigger] v.tasks[a]).id is Some
                && v.tasks[a].id->0 < v.next_task_id by {
                assert(v.tasks[a].id == o.tasks[a].id);
            }
            let pp = ppos as int;
            assert forall|a: int| 0 <= a < v.projects.len() implies v.projects[a] == (if a < pp {
                o.projects[a]
            } else {
                o.projects[a + 1]
            }) by {}
            assert forall|a: int, b: int|
                0 <= a < v.projects.len() && 0 <= b < v.projects.len() && a != b implies (
                #[trigger] v.projects[a]).id != (#[trigger] v.projects[b]).id
                && v.projects[a].name@ != v.projects[b].name@ by {
                let a2 = if a < pp { a } else { a + 1 };
                let b2 = if b < pp { b } else { b + 1 };
                assert(v.projects[a] == o.projects[a2]);
                assert(v.projects[b] == o.projects[b2]);
            }
            assert forall|a: int| 0 <= a < v.projects.len() implies (
            #[trigger] v.projects[a]).id is Some && v.projects[a].id->0 < v.next_project_id by {
                let a2 = if a < pp { a } else { a + 1 };
                assert(v.projects[a] == o.projects[a2]);
            }
            let ip = ipos as int;
            assert(ip != pp);
            let ni = if ip < pp { ip } else { ip - 1 };
            assert(v.projects[ni] == o.projects[ip]);
            assert(v.projects[ni].name@ == inbox_name());
        }
        Ok(())
    }
}

} // verus!
