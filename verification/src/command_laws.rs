//! What each command line edit leaves in the store, read back by id.

use vstd::prelude::*;

use crate::commands::{
    add_result, done_result, target_project, list_status, move_task_result, remove_result, reopen_result, set_priority_result,
};
use crate::error::TodoError;
use crate::model::{Priority, Status, Task};
use crate::store::laws::{law_get_after_remove, law_get_after_update};
use crate::store::{ProjectFilter, StatusFilter, StoreView, TaskQuery};

verus! {

/// `done` on a stored task leaves it done and otherwise as it was; it fails
/// (changing nothing) exactly when no task has the id.
pub proof fn law_done_marks_done(old: StoreView, new: StoreView, id: i64, r: Result<String, TodoError>)
    requires
        old.wf(),
        done_result(old, new, id, r),
    ensures
        r is Ok <==> old.has_task(id),
        r is Ok ==> new.has_task(id) && new.task(id) == (Task { status: Status::Done, ..old.task(id) }),
        r is Err ==> new == old,
{
    if r is Ok {
        law_get_after_update(
            old,
            id,
            Task { status: Status::Done, ..old.task(id) },
            crate::store::Change::SetStatus { id, status: Status::Done },
        );
    }
}

/// `reopen` on a stored task leaves it open and otherwise as it was; it
/// fails (changing nothing) exactly when no task has the id.
pub proof fn law_reopen_marks_open(old: StoreView, new: StoreView, id: i64, r: Result<String, TodoError>)
    requires
        old.wf(),
        reopen_result(old, new, id, r),
    ensures
        r is Ok <==> old.has_task(id),
        r is Ok ==> new.has_task(id) && new.task(id) == (Task { status: Status::Open, ..old.task(id) }),
        r is Err ==> new == old,
{
    if r is Ok {
        law_get_after_update(
            old,
            id,
            Task { status: Status::Open, ..old.task(id) },
            crate::store::Change::SetStatus { id, status: Status::Open },
        );
    }
}

/// `priority` gives a stored task the priority asked for and leaves the
/// rest of it as it was.
pub proof fn law_set_priority_sets_it(old: StoreView, new: StoreView, id: i64, p: Priority, r: Result<String, TodoError>)
    requires
        old.wf(),
        set_priority_result(old, new, id, p, r),
    ensures
        r is Ok <==> old.has_task(id),
        r is Ok ==> new.has_task(id) && new.task(id) == (Task { priority: p, ..old.task(id) }),
        r is Err ==> new == old,
{
    if r is Ok {
        law_get_after_update(
            old,
            id,
            Task { priority: p, ..old.task(id) },
            crate::store::Change::SetPriority { id, priority: p },
        );
    }
}

/// `move` puts a stored task into the named project and leaves the rest of
/// it as it was.
pub proof fn law_move_puts_into_project(old: StoreView, new: StoreView, id: i64, project: Seq<char>, r: Result<String, TodoError>)
    requires
        old.wf(),
        move_task_result(old, new, id, project, r),
    ensures
        r is Ok <==> old.has_name(project) && old.has_task(id),
        r is Ok ==> new.has_task(id) && new.task(id) == (Task {
            project_id: old.project_named(project)->0,
            ..old.task(id)
        }),
        r is Ok ==> (exists|i: int|
            0 <= i < old.projects.len() && old.projects[i].name@ == project && old.projects[i].id
                == Some(new.task(id).project_id)),
        r is Err ==> new == old,
{
    if r is Ok {
        let pid = old.project_named(project)->0;
        law_get_after_update(
            old,
            id,
            Task { project_id: pid, ..old.task(id) },
            crate::store::Change::SetProject { id, project_id: pid },
        );
        let i = old.name_pos(project);
        assert(old.projects[i].id is Some);
    }
}

/// `rm` deletes the stored task: no task has the id afterwards and one task
/// fewer is stored.
pub proof fn law_remove_deletes(old: StoreView, new: StoreView, id: i64, r: Result<String, TodoError>)
    requires
        old.wf(),
        remove_result(old, new, id, r),
    ensures
        r is Ok <==> old.has_task(id),
        r is Ok ==> !new.has_task(id) && new.tasks.len() == old.tasks.len() - 1,
        r is Err ==> new == old,
{
    if r is Ok {
        law_get_after_remove(old, id);
    }
}

/// `list` shows open tasks only, unless done ones are asked for too.
pub proof fn law_list_hides_done_unless_asked(include_done: bool, pf: ProjectFilter, t: Task)
    ensures
        (TaskQuery { status: list_status(include_done), project: pf }).matches(t) <==> ((include_done
            || t.status == Status::Open) && (TaskQuery { status: StatusFilter::All, project: pf }).matches(t)),
{
}

/// `add` stores one new open task with the trimmed title and the priority
/// asked for, in the named project (the Inbox when none is named), and the
/// task reads back under its id.
pub proof fn law_add_stores_what_was_asked(old: StoreView, new: StoreView, title: Seq<char>, p: Priority, project: Option<Seq<char>>, r: Result<String, TodoError>)
    requires
        old.wf(),
        add_result(old, new, title, p, project, r),
        r is Ok,
    ensures
        new.tasks.len() == old.tasks.len() + 1,
        new.tasks.last().status == Status::Open,
        new.tasks.last().priority == p,
        new.tasks.last().title@ == crate::text::trimmed(title),
        Some(new.tasks.last().project_id) == target_project(old, project),
        project is None ==> new.tasks.last().project_id == old.inbox_id(),
        new.has_task(new.tasks.last().id->0),
        new.task(new.tasks.last().id->0) == new.tasks.last(),
{
    crate::store::laws::law_get_after_add(old, new, new.tasks.last());
}

} // verus!
