//! Non-interactive command handlers. Each takes a store and returns the
//! user-facing text to print.

use vstd::prelude::*;

use crate::error::TodoError;
use crate::model::{clean_project_name, NewTask, Priority, Status, Task};
use crate::store::memory::TaskStore;
use crate::store::{listing, select, ProjectFilter, StatusFilter, StoreView, TaskQuery};
use crate::text::{
    append, debug_quoted, debug_text, decimal, i64_text, is_blank, join_strings, join_with,
    pad_right, padded, to_owned_string, trimmed, usize_text, views,
};

verus! {

broadcast use vstd::seq::group_seq_axioms;

/// The id shown for a task; a task without one shows 0.
pub open spec fn shown_id(id: Option<i64>) -> int {
    match id {
        Some(i) => i as int,
        None => 0,
    }
}

/// The done mark of a list row.
pub open spec fn mark_text(s: Status) -> Seq<char> {
    match s {
        Status::Open => " "@,
        Status::Done => "x"@,
    }
}

/// One list row: `#id [x] priority title`, id padded to 4 and priority to 6.
pub open spec fn row_text(t: Task) -> Seq<char> {
    "#"@ + pad_right(decimal(shown_id(t.id)), 4) + " ["@ + mark_text(t.status) + "] "@ + pad_right(
        t.priority.tag(),
        6,
    ) + " "@ + t.title@
}

/// The rows of some tasks.
pub open spec fn rows_text(tasks: Seq<Task>) -> Seq<Seq<char>> {
    tasks.map_values(|t: Task| row_text(t))
}

/// What `list` prints for the tasks it found.
pub open spec fn list_text(tasks: Seq<Task>) -> Seq<char> {
    if tasks.len() == 0 {
        "no tasks"@
    } else {
        join_with(rows_text(tasks), "\n"@)
    }
}

/// The message for a project name that names no project.
pub open spec fn unknown_project(name: Seq<char>) -> Seq<char> {
    "project "@ + debug_quoted(name) + " does not exist"@
}

/// The message for a project name that names no project, given the name as
/// `{:?}` writes it.
pub fn unknown_project_message(quoted: &str) -> (r: String)
    ensures
        r@ == "project "@ + quoted@ + " does not exist"@,
{
    let mut m = to_owned_string("project ");
    append(&mut m, quoted);
    append(&mut m, " does not exist");
    m
}

/// The project a command addresses: the Inbox when none is named.
pub open spec fn target_project(v: StoreView, project: Option<Seq<char>>) -> Option<i64> {
    match project {
        None => Some(v.inbox_id()),
        Some(n) => v.project_named(n),
    }
}

/// The characters of an optional string slice.
pub open spec fn opt_view(s: Option<&str>) -> Option<Seq<char>> {
    match s {
        Some(x) => Some(x@),
        None => None,
    }
}

/// The status filter of `list`: open tasks only, unless done ones are asked for.
pub open spec fn list_status(include_done: bool) -> StatusFilter {
    if include_done {
        StatusFilter::All
    } else {
        StatusFilter::Only(Status::Open)
    }
}

/// One line of the project list: `#id name (n open)`.
pub open spec fn project_line(v: StoreView, p: crate::model::Project) -> Seq<char> {
    "#"@ + pad_right(decimal(shown_id(p.id)), 4) + " "@ + p.name@ + " ("@ + decimal(
        open_in(v, shown_id(p.id) as i64) as int,
    ) + " open)"@
}

/// The number of open tasks in a project.
pub open spec fn open_in(v: StoreView, pid: i64) -> nat {
    select(
        v.tasks,
        TaskQuery { status: StatusFilter::Only(Status::Open), project: ProjectFilter::Only(pid) },
    ).len()
}

/// Whether `t` is an open task of project `pid`.
pub open spec fn open_task_of(pid: i64) -> spec_fn(Task) -> bool {
    |t: Task| t.project_id == pid && t.status == Status::Open
}

proof fn lemma_select_counts(tasks: Seq<Task>, pid: i64)
    ensures
        select(
            tasks,
            TaskQuery { status: StatusFilter::Only(Status::Open), project: ProjectFilter::Only(pid) },
        ).len() == tasks.filter(open_task_of(pid)).len(),
    decreases tasks.len(),
{
    reveal(Seq::filter);
    if tasks.len() > 0 {
        lemma_select_counts(tasks.drop_last(), pid);
    }
}

/// The count on a project's line is the number of stored tasks of that
/// project whose status is open: a done task, or a task of another
/// project, is never counted.
pub proof fn law_project_count_is_its_open_tasks(v: StoreView, pid: i64)
    ensures
        open_in(v, pid) == v.tasks.filter(open_task_of(pid)).len(),
{
    lemma_select_counts(v.tasks, pid);
}

/// What `add` does and returns.
pub open spec fn add_result(old: StoreView, new: StoreView, title: Seq<char>, priority: Priority, project: Option<Seq<char>>, r: Result<String, TodoError>) -> bool {
    match r {
            Ok(out) => {
                let t = new.tasks.last();
                &&& target_project(old, project) == Some(t.project_id)
                &&& !is_blank(title)
                &&& old.added_task(new, t)
                &&& t.title@ == trimmed(title)
                &&& t.status == Status::Open
                &&& t.priority == priority
                &&& out@ == "added #"@ + decimal(shown_id(t.id)) + " "@ + t.title@
            },
            Err(e) => {
                &&& new == old
                &&& if target_project(old, project) is None {
                    project matches Some(n) && e matches TodoError::Invalid(m) && m@
                        == unknown_project(n)
                } else if is_blank(title) {
                    e matches TodoError::Invalid(m) && m@
                        == "task title is empty, expected non-blank text"@
                } else {
                    old.next_task_id == i64::MAX && e matches TodoError::Storage(_)
                }
            },
        }
}

/// What `list` does and returns.
pub open spec fn list_result(v: StoreView, include_done: bool, project: Option<Seq<char>>, r: Result<String, TodoError>) -> bool {
    match r {
            Ok(out) => {
                let pf = match project {
                    None => ProjectFilter::Any,
                    Some(n) => ProjectFilter::Only(v.project_named(n)->0),
                };
                &&& (project matches Some(n) ==> v.has_name(n))
                &&& out@ == list_text(
                    v.listing(TaskQuery { status: list_status(include_done), project: pf }),
                )
            },
            Err(e) => {
                &&& project matches Some(n) && !v.has_name(n)
                &&& e matches TodoError::Invalid(m)
                &&& m@ == unknown_project(project->0)
            },
        }
}

/// What `done` does and returns.
pub open spec fn done_result(old: StoreView, new: StoreView, id: i64, r: Result<String, TodoError>) -> bool {
    match r {
            Ok(out) => {
                let t = Task { status: Status::Done, ..old.task(id) };
                &&& old.has_task(id)
                &&& new == old.after_update(
                    id,
                    t,
                    crate::store::Change::SetStatus { id, status: Status::Done },
                )
                &&& out@ == "done #"@ + decimal(id as int) + " "@ + t.title@
            },
            Err(e) => !old.has_task(id) && e == TodoError::NotFound(id) && new
                == old,
        }
}

/// What `reopen` does and returns.
pub open spec fn reopen_result(old: StoreView, new: StoreView, id: i64, r: Result<String, TodoError>) -> bool {
    match r {
            Ok(out) => {
                let t = Task { status: Status::Open, ..old.task(id) };
                &&& old.has_task(id)
                &&& new == old.after_update(
                    id,
                    t,
                    crate::store::Change::SetStatus { id, status: Status::Open },
                )
                &&& out@ == "reopened #"@ + decimal(id as int) + " "@ + t.title@
            },
            Err(e) => !old.has_task(id) && e == TodoError::NotFound(id) && new
                == old,
        }
}

/// What `set_priority` does and returns.
pub open spec fn set_priority_result(old: StoreView, new: StoreView, id: i64, priority: Priority, r: Result<String, TodoError>) -> bool {
    match r {
            Ok(out) => {
                let t = Task { priority, ..old.task(id) };
                &&& old.has_task(id)
                &&& new == old.after_update(
                    id,
                    t,
                    crate::store::Change::SetPriority { id, priority },
                )
                &&& out@ == "priority #"@ + decimal(id as int) + " "@ + priority.tag()
            },
            Err(e) => !old.has_task(id) && e == TodoError::NotFound(id) && new
                == old,
        }
}

/// What `remove` does and returns.
pub open spec fn remove_result(old: StoreView, new: StoreView, id: i64, r: Result<String, TodoError>) -> bool {
    match r {
            Ok(out) => {
                &&& old.has_task(id)
                &&& new == old.after_remove(id)
                &&& out@ == "removed #"@ + decimal(id as int)
            },
            Err(e) => !old.has_task(id) && e == TodoError::NotFound(id) && new
                == old,
        }
}

/// What `move_task` does and returns.
pub open spec fn move_task_result(old: StoreView, new: StoreView, id: i64, project: Seq<char>, r: Result<String, TodoError>) -> bool {
    match r {
            Ok(out) => {
                let pid = old.project_named(project)->0;
                let t = Task { project_id: pid, ..old.task(id) };
                &&& old.has_name(project)
                &&& old.has_task(id)
                &&& new == old.after_update(
                    id,
                    t,
                    crate::store::Change::SetProject { id, project_id: pid },
                )
                &&& out@ == "moved #"@ + decimal(id as int) + " to @"@ + project
            },
            Err(e) => {
                &&& new == old
                &&& if !old.has_name(project) {
                    e matches TodoError::Invalid(m) && m@ == unknown_project(project)
                } else {
                    !old.has_task(id) && e == TodoError::NotFound(id)
                }
            },
        }
}

/// What `add_project` does and returns.
pub open spec fn add_project_result(old: StoreView, new: StoreView, name: Seq<char>, r: Result<String, TodoError>) -> bool {
    match r {
            Ok(out) => {
                let p = new.projects.last();
                &&& !is_blank(name)
                &&& !old.has_name(trimmed(name))
                &&& old.added_project(new, p)
                &&& p.name@ == trimmed(name)
                &&& out@ == "created project #"@ + decimal(shown_id(p.id)) + " "@ + p.name@
            },
            Err(e) => {
                &&& new == old
                &&& if is_blank(name) {
                    e matches TodoError::Invalid(m) && m@
                        == "project name is empty, expected non-blank text"@
                } else if old.has_name(trimmed(name)) {
                    e matches TodoError::Invalid(m) && m@
                        == crate::store::memory::duplicate_project(trimmed(name))
                } else {
                    old.next_project_id == i64::MAX && e matches TodoError::Storage(_)
                }
            },
        }
}

/// What `list_projects` does and returns.
pub open spec fn list_projects_result(v: StoreView, r: Result<String, TodoError>) -> bool {
    r matches Ok(out) && out@ == projects_text(v)
}

/// What `remove_project` does and returns.
pub open spec fn remove_project_result(old: StoreView, new: StoreView, id: i64, r: Result<String, TodoError>) -> bool {
    match r {
            Ok(out) => {
                &&& id != old.inbox_id()
                &&& old.has_project(id)
                &&& new == old.after_remove_project(id)
                &&& out@ == "removed project #"@ + decimal(id as int)
            },
            Err(e) => {
                &&& new == old
                &&& if id == old.inbox_id() {
                    e matches TodoError::Invalid(m) && m@ == "cannot delete the Inbox project"@
                } else {
                    !old.has_project(id) && e == TodoError::NotFound(id)
                }
            },
        }
}

/// What `overview` does and returns.
pub open spec fn overview_result(v: StoreView, include_done: bool, r: Result<String, TodoError>) -> bool {
    r matches Ok(out) && out@ == join_with(
            overview_lines(v, list_status(include_done), v.project_listing()),
            "\n"@,
        )
}

fn project_id_for(store: &TaskStore, project: Option<&str>) -> (r: Result<i64, TodoError>)
    requires
        store.wf(),
    ensures
        match r {
            Ok(pid) => target_project(store@, opt_view(project)) == Some(pid),
            Err(e) => {
                &&& target_project(store@, opt_view(project)) is None
                &&& project matches Some(n) && e matches TodoError::Invalid(m) && m@
                    == unknown_project(n@)
            },
        },
{
    match project {
        None => {
            let inbox = store.inbox()?;
            match inbox.id {
                Some(id) => Ok(id),
                None => Err(TodoError::Storage(to_owned_string("Inbox project missing"))),
            }
        },
        Some(name) => match store.find_project(name)? {
            Some(p) => match p.id {
                Some(id) => Ok(id),
                None => Err(TodoError::Storage(to_owned_string("project without id"))),
            },
            None => {
                let q = debug_text(name);
                Err(TodoError::Invalid(unknown_project_message(q.as_str())))
            },
        },
    }
}

/// Add a task (to the named project, else the Inbox) and confirm it.
pub fn add(store: &mut TaskStore, title: &str, priority: Priority, project: Option<&str>) -> (r:
    Result<String, TodoError>)
    requires
        old(store).wf(),
    ensures
        final(store).wf(),
        add_result(old(store)@, final(store)@, title@, priority, opt_view(project), r),

{
    let pid = project_id_for(store, project)?;
    let new = match NewTask::new(title, priority, pid) {
        Ok(n) => n,
        Err(m) => {
            return Err(TodoError::Invalid(m));
        },
    };
    let task = store.add(new)?;
    let mut out = to_owned_string("added #");
    let id = i64_text(task.id.unwrap_or(0));
    append(&mut out, id.as_str());
    append(&mut out, " ");
    append(&mut out, task.title.as_str());
    assert(final(store)@.tasks.last() == task);
    Ok(out)
}

/// One list row: `#id [x] priority title`.
fn format_row(task: &Task) -> (r: String)
    ensures
        r@ == row_text(*task),
{
    let mark = match task.status {
        Status::Open => " ",
        Status::Done => "x",
    };
    let mut out = to_owned_string("#");
    let id = i64_text(task.id.unwrap_or(0));
    let id = padded(id.as_str(), 4);
    append(&mut out, id.as_str());
    append(&mut out, " [");
    append(&mut out, mark);
    append(&mut out, "] ");
    let pri = padded(task.priority.as_tag(), 6);
    append(&mut out, pri.as_str());
    append(&mut out, " ");
    append(&mut out, task.title.as_str());
    out
}

fn format_rows(tasks: &Vec<Task>) -> (r: Vec<String>)
    ensures
        views(r@) == rows_text(tasks@),
{
    let mut rows: Vec<String> = Vec::new();
    let mut i: usize = 0;
    while i < tasks.len()
        invariant
            i <= tasks@.len(),
            rows@.len() == i,
            forall|j: int| 0 <= j < i ==> (#[trigger] rows@[j])@ == row_text(tasks@[j]),
        decreases tasks@.len() - i,
    {
        rows.push(format_row(&tasks[i]));
        i = i + 1;
    }
    assert(views(rows@) =~= rows_text(tasks@));
    rows
}

/// Lines joined by newlines, or `no tasks` when there are none.
fn format_list(tasks: &Vec<Task>) -> (r: String)
    ensures
        r@ == list_text(tasks@),
{
    if tasks.len() == 0 {
        return to_owned_string("no tasks");
    }
    let rows = format_rows(tasks);
    join_strings(&rows, "\n")
}

/// List tasks (open ones unless `include_done`; only the named project's
/// when one is named) as aligned plain-text rows.
pub fn list(store: &TaskStore, include_done: bool, project: Option<&str>) -> (r: Result<
    String,
    TodoError,
>)
    requires
        store.wf(),
    ensures
        list_result(store@, include_done, opt_view(project), r),

{
    let status = if include_done {
        StatusFilter::All
    } else {
        StatusFilter::Only(Status::Open)
    };
    let pf = match project {
        None => ProjectFilter::Any,
        Some(_) => ProjectFilter::Only(project_id_for(store, project)?),
    };
    let tasks = store.list(TaskQuery { status, project: pf })?;
    Ok(format_list(&tasks))
}

/// `prefix` then `id title`, the confirmation of a change to a task.
fn confirm(prefix: &str, id: i64, title: &str) -> (r: String)
    ensures
        r@ == prefix@ + decimal(id as int) + " "@ + title@,
{
    let mut out = to_owned_string(prefix);
    let n = i64_text(id);
    append(&mut out, n.as_str());
    append(&mut out, " ");
    append(&mut out, title);
    out
}

/// Mark a task done.
pub fn done(store: &mut TaskStore, id: i64) -> (r: Result<String, TodoError>)
    requires
        old(store).wf(),
    ensures
        final(store).wf(),
        done_result(old(store)@, final(store)@, id, r),

{
    let task = store.set_status(id, Status::Done)?;
    Ok(confirm("done #", id, task.title.as_str()))
}

/// Reopen a completed task.
pub fn reopen(store: &mut TaskStore, id: i64) -> (r: Result<String, TodoError>)
    requires
        old(store).wf(),
    ensures
        final(store).wf(),
        reopen_result(old(store)@, final(store)@, id, r),

{
    let task = store.set_status(id, Status::Open)?;
    Ok(confirm("reopened #", id, task.title.as_str()))
}

/// Change a task's priority.
pub fn set_priority(store: &mut TaskStore, id: i64, priority: Priority) -> (r: Result<
    String,
    TodoError,
>)
    requires
        old(store).wf(),
    ensures
        final(store).wf(),
        set_priority_result(old(store)@, final(store)@, id, priority, r),

{
    store.set_priority(id, priority)?;
    Ok(confirm("priority #", id, priority.as_tag()))
}

/// Delete a task.
pub fn remove(store: &mut TaskStore, id: i64) -> (r: Result<String, TodoError>)
    requires
        old(store).wf(),
    ensures
        final(store).wf(),
        remove_result(old(store)@, final(store)@, id, r),

{
    store.remove(id)?;
    let mut out = to_owned_string("removed #");
    let n = i64_text(id);
    append(&mut out, n.as_str());
    Ok(out)
}

/// Move a task to the named project.
pub fn move_task(store: &mut TaskStore, id: i64, project: &str) -> (r: Result<String, TodoError>)
    requires
        old(store).wf(),
    ensures
        final(store).wf(),
        move_task_result(old(store)@, final(store)@, id, project@, r),

{
    let pid = project_id_for(store, Some(project))?;
    proof {
        let k = old(store)@.name_pos(project@);
        assert(old(store)@.has_project(pid)) by {
            assert(old(store)@.projects[k].id == Some(pid));
        }
    }
    store.set_project(id, pid)?;
    let mut out = to_owned_string("moved #");
    let n = i64_text(id);
    append(&mut out, n.as_str());
    append(&mut out, " to @");
    append(&mut out, project);
    Ok(out)
}

} // verus!

verus! {

/// What `list_projects` prints: one line per project in listing order.
pub open spec fn projects_text(v: StoreView) -> Seq<char> {
    join_with(v.project_listing().map_values(|p: crate::model::Project| project_line(v, p)), "\n"@)
}

fn count_open_in(store: &TaskStore, pid: i64) -> (r: usize)
    requires
        store.wf(),
    ensures
        r == open_in(store@, pid),
{
    let q = TaskQuery { status: StatusFilter::Only(Status::Open), project: ProjectFilter::Only(pid) };
    let tasks = match store.list(q) {
        Ok(t) => t,
        Err(_) => Vec::new(),
    };
    proof {
        crate::store::order::lemma_sort_tasks_len(select(store@.tasks, q));
    }
    tasks.len()
}

/// Create a project with the (trimmed) name and confirm it.
pub fn add_project(store: &mut TaskStore, name: &str) -> (r: Result<String, TodoError>)
    requires
        old(store).wf(),
    ensures
        final(store).wf(),
        add_project_result(old(store)@, final(store)@, name@, r),

{
    let clean = match clean_project_name(name) {
        Ok(n) => n,
        Err(m) => {
            return Err(TodoError::Invalid(m));
        },
    };
    let p = store.add_project(clean.as_str())?;
    let mut out = to_owned_string("created project #");
    let n = i64_text(p.id.unwrap_or(0));
    append(&mut out, n.as_str());
    append(&mut out, " ");
    append(&mut out, p.name.as_str());
    assert(final(store)@.projects.last() == p);
    Ok(out)
}

/// List projects (the Inbox first, then by name) with their open-task counts.
pub fn list_projects(store: &TaskStore) -> (r: Result<String, TodoError>)
    requires
        store.wf(),
    ensures
        list_projects_result(store@, r),

{
    let projects = store.list_projects()?;
    let mut lines: Vec<String> = Vec::new();
    let mut i: usize = 0;
    while i < projects.len()
        invariant
            store.wf(),
            projects@ == store@.project_listing(),
            i <= projects@.len(),
            lines@.len() == i,
            forall|j: int| 0 <= j < i ==> (#[trigger] lines@[j])@ == project_line(store@, projects@[j]),
        decreases projects@.len() - i,
    {
        let p = &projects[i];
        let id = p.id.unwrap_or(0);
        let mut line = to_owned_string("#");
        let n = i64_text(id);
        let n = padded(n.as_str(), 4);
        append(&mut line, n.as_str());
        append(&mut line, " ");
        append(&mut line, p.name.as_str());
        append(&mut line, " (");
        let c = usize_text(count_open_in(store, id));
        append(&mut line, c.as_str());
        append(&mut line, " open)");
        lines.push(line);
        i = i + 1;
    }
    let out = join_strings(&lines, "\n");
    assert(views(lines@) =~= store@.project_listing().map_values(
        |p: crate::model::Project| project_line(store@, p),
    ));
    Ok(out)
}

/// Delete a project; its tasks return to the Inbox.
pub fn remove_project(store: &mut TaskStore, id: i64) -> (r: Result<String, TodoError>)
    requires
        old(store).wf(),
    ensures
        final(store).wf(),
        remove_project_result(old(store)@, final(store)@, id, r),

{
    store.remove_project(id)?;
    let mut out = to_owned_string("removed project #");
    let n = i64_text(id);
    append(&mut out, n.as_str());
    Ok(out)
}

/// The header line of a project in the overview: `@name (count)`.
pub open spec fn header_text(name: Seq<char>, count: nat) -> Seq<char> {
    "@"@ + name + " ("@ + decimal(count as int) + ")"@
}

/// The tasks of one project the overview shows.
pub open spec fn group_tasks(v: StoreView, status: StatusFilter, pid: i64) -> Seq<Task> {
    v.listing(TaskQuery { status, project: ProjectFilter::Only(pid) })
}

/// The overview's lines for some projects: each header followed by its
/// tasks' rows, indented by two spaces.
pub open spec fn overview_lines(v: StoreView, status: StatusFilter, projects: Seq<crate::model::Project>) -> Seq<Seq<char>>
    decreases projects.len(),
{
    if projects.len() == 0 {
        Seq::empty()
    } else {
        let p = projects.last();
        let tasks = group_tasks(v, status, shown_id(p.id) as i64);
        overview_lines(v, status, projects.drop_last()) + seq![header_text(p.name@, tasks.len())]
            + tasks.map_values(|t: Task| "  "@ + row_text(t))
    }
}

/// Show every project with its tasks grouped beneath it (open ones unless
/// `include_done`).
pub fn overview(store: &TaskStore, include_done: bool) -> (r: Result<String, TodoError>)
    requires
        store.wf(),
    ensures
        overview_result(store@, include_done, r),

{
    let status = if include_done {
        StatusFilter::All
    } else {
        StatusFilter::Only(Status::Open)
    };
    let projects = store.list_projects()?;
    let mut lines: Vec<String> = Vec::new();
    let mut i: usize = 0;
    while i < projects.len()
        invariant
            store.wf(),
            projects@ == store@.project_listing(),
            status == list_status(include_done),
            i <= projects@.len(),
            views(lines@) == overview_lines(store@, status, projects@.take(i as int)),
        decreases projects@.len() - i,
    {
        let p = &projects[i];
        let id = p.id.unwrap_or(0);
        let tasks = store.list(TaskQuery { status, project: ProjectFilter::Only(id) })?;
        let ghost before = lines@;
        let mut header = to_owned_string("@");
        append(&mut header, p.name.as_str());
        append(&mut header, " (");
        let c = usize_text(tasks.len());
        append(&mut header, c.as_str());
        append(&mut header, ")");
        lines.push(header);
        let mut j: usize = 0;
        while j < tasks.len()
            invariant
                j <= tasks@.len(),
                lines@.len() == before.len() + 1 + j,
                forall|k: int| 0 <= k < before.len() + 1 ==> #[trigger] lines@[k] == (before.push(header))[k],
                forall|k: int| 0 <= k < j ==> (#[trigger] lines@[before.len() + 1 + k])@ == "  "@ + row_text(tasks@[k]),
            decreases tasks@.len() - j,
        {
            let mut row = to_owned_string("  ");
            let text = format_row(&tasks[j]);
            append(&mut row, text.as_str());
            lines.push(row);
            j = j + 1;
        }
        proof {
            let pre = projects@.take(i as int);
            let post = projects@.take(i + 1);
            assert(post.drop_last() =~= pre);
            assert(post.last() == *p);
            let rows = tasks@.map_values(|t: Task| "  "@ + row_text(t));
            assert(views(lines@) =~= views(before) + seq![header_text(p.name@, tasks@.len())] + rows) by {
                assert forall|k: int| 0 <= k < lines@.len() implies views(lines@)[k] == (views(before) + seq![header_text(p.name@, tasks@.len())] + rows)[k] by {
                    if k < before.len() {
                        assert(lines@[k] == before[k]);
                    } else if k == before.len() {
                        assert(lines@[k] == header);
                    } else {
                        assert(lines@[before.len() + 1 + (k - before.len() - 1)]@ == "  "@ + row_text(tasks@[k - before.len() - 1]));
                    }
                }
            }
        }
        i = i + 1;
    }
    assert(projects@.take(projects@.len() as int) =~= projects@);
    Ok(join_strings(&lines, "\n"))
}

} // verus!
