//! Laws of the keys: what an edit key stores, where a new task goes, and
//! that the undo step is the inverse of the edit it records.

use vstd::prelude::*;

use crate::error::TodoError;
use crate::model::{inbox_name, Priority, Status, Task};
use crate::store::StoreView;
use crate::tui::app::{App, Focus, Key, Mode, OverviewRow, UndoAction};

verus! {

broadcast use vstd::seq::group_seq_axioms;

/// In a well-formed store, the task under an id that was replaced in place
/// is the replacement.
proof fn lemma_update_then_task(v: StoreView, id: i64, t: Task, c: crate::store::Change)
    requires
        v.wf(),
        v.has_task(id),
        t.id == Some(id),
    ensures
        v.after_update(id, t, c).has_task(id),
        v.after_update(id, t, c).task_pos(id) == v.task_pos(id),
        v.after_update(id, t, c).task(id) == t,
        v.after_update(id, t, c).tasks.len() == v.tasks.len(),
{
    let w = v.after_update(id, t, c);
    let p = v.task_pos(id);
    assert(w.tasks[p] == t);
    assert(w.has_task(id));
    let k = w.task_pos(id);
    if k != p {
        assert(w.tasks[k] == v.tasks[k]);
    }
}

/// Space on a task, then `u`: the store's tasks are as before, and so is
/// the undo stack.
pub proof fn law_undo_reverts_toggle(a0: App, a1: App, a2: App, r1: Result<(), TodoError>, r2: Result<(), TodoError>)
    requires
        a0.wf(),
        a0.mode == Mode::Normal,
        !a0.show_overview,
        a0.focus == Focus::Tasks,
        a0.selected < a0.tasks@.len(),
        a0.key_step(Key::Char(' '), a1, r1),
        a1.wf(),
        a1.key_step(Key::Char('u'), a2, r2),
    ensures
        a2.store_view().tasks == a0.store_view().tasks,
        a2.undo_stack@ == a0.undo_stack@,
        a2.status@ == "undid "@ + "toggle"@,
{
    let t = a0.tasks@[a0.selected as int];
    let id = t.id->0;
    let v0 = a0.store_view();
    let changed = Task { status: t.status.toggled(), ..t };
    let c = crate::store::Change::SetStatus { id, status: t.status.toggled() };
    lemma_update_then_task(v0, id, changed, c);
    let v1 = v0.after_update(id, changed, c);
    assert(a1.store_view() == v1);
    assert(a1.undo_stack@.last() == UndoAction::Status { id, prev: t.status });
    let back = Task { status: t.status, ..changed };
    assert(back == t);
    assert(a2.store_view().tasks =~= v1.tasks.update(v0.task_pos(id), t));
    assert(v0.tasks[v0.task_pos(id)] == t);
    assert(a2.store_view().tasks =~= v0.tasks);
    assert(a1.undo_stack@.drop_last() =~= a0.undo_stack@);
}

/// `p` on a task, then `u`: the store's tasks are as before, and so is the
/// undo stack.
pub proof fn law_undo_reverts_priority(a0: App, a1: App, a2: App, r1: Result<(), TodoError>, r2: Result<(), TodoError>)
    requires
        a0.wf(),
        a0.mode == Mode::Normal,
        !a0.show_overview,
        a0.focus == Focus::Tasks,
        a0.selected < a0.tasks@.len(),
        a0.key_step(Key::Char('p'), a1, r1),
        a1.wf(),
        a1.key_step(Key::Char('u'), a2, r2),
    ensures
        a2.store_view().tasks == a0.store_view().tasks,
        a2.undo_stack@ == a0.undo_stack@,
        a2.status@ == "undid "@ + "priority"@,
{
    let t = a0.tasks@[a0.selected as int];
    let id = t.id->0;
    let v0 = a0.store_view();
    let changed = Task { priority: t.priority.cycled(), ..t };
    let c = crate::store::Change::SetPriority { id, priority: t.priority.cycled() };
    lemma_update_then_task(v0, id, changed, c);
    let v1 = v0.after_update(id, changed, c);
    assert(a1.store_view() == v1);
    assert(a1.undo_stack@.last() == UndoAction::Priority { id, prev: t.priority });
    let back = Task { priority: t.priority, ..changed };
    assert(back == t);
    assert(a2.store_view().tasks =~= v1.tasks.update(v0.task_pos(id), t));
    assert(v0.tasks[v0.task_pos(id)] == t);
    assert(a2.store_view().tasks =~= v0.tasks);
    assert(a1.undo_stack@.drop_last() =~= a0.undo_stack@);
}

/// `d` on a task, then `u`: the deleted task is back under its id, the store
/// holds the same tasks as before, and the undo stack is as before.
pub proof fn law_undo_reverts_delete(a0: App, a1: App, a2: App, r1: Result<(), TodoError>, r2: Result<(), TodoError>)
    requires
        a0.wf(),
        a0.mode == Mode::Normal,
        !a0.show_overview,
        a0.focus == Focus::Tasks,
        a0.selected < a0.tasks@.len(),
        a0.key_step(Key::Char('d'), a1, r1),
        a1.wf(),
        a1.key_step(Key::Char('u'), a2, r2),
    ensures
        a2.store_view().tasks.to_multiset() == a0.store_view().tasks.to_multiset(),
        a2.store_view().has_task(a0.tasks@[a0.selected as int].id->0),
        a2.store_view().task(a0.tasks@[a0.selected as int].id->0) == a0.tasks@[a0.selected as int],
        a2.undo_stack@ == a0.undo_stack@,
        a2.status@ == "undid "@ + "delete"@,
{
    let t = a0.tasks@[a0.selected as int];
    let id = t.id->0;
    let v0 = a0.store_view();
    crate::store::laws::law_restore_undoes_remove(v0, id);
    assert(a1.store_view() == v0.after_remove(id));
    assert(a1.undo_stack@.last() == UndoAction::RestoreTask { task: t });
    assert(a2.store_view() == v0.after_remove(id).restored(t));
    assert(a1.undo_stack@.drop_last() =~= a0.undo_stack@);
}

/// Enter on a typed title (from the panes), then `u`: the new task is gone
/// and the store holds exactly the tasks it held before.
#[verifier::spinoff_prover]
#[verifier::rlimit(30)]
pub proof fn law_undo_reverts_add(a0: App, a1: App, a2: App, r1: Result<(), TodoError>, r2: Result<(), TodoError>)
    requires
        a0.wf(),
        a0.mode is AddingTask,
        a0.key_step(Key::Enter, a1, r1),
        r1 is Ok,
        a1.store_view() != a0.store_view(),
        a1.wf(),
        a1.key_step(Key::Char('u'), a2, r2),
    ensures
        a2.store_view().tasks == a0.store_view().tasks,
        a2.undo_stack@ == a0.undo_stack@,
        a2.status@ == "undid "@ + "add"@,
{
    let v0 = a0.store_view();
    let v1 = a1.store_view();
    let t = v1.tasks.last();
    assert(v0.added_task(v1, t));
    let id = t.id->0;
    crate::store::laws::law_get_after_add(v0, v1, t);
    assert(a1.undo_stack@.last() == UndoAction::RemoveTask { id });
    assert(a1.mode == Mode::Normal);
    let n = v1.tasks.len() - 1;
    assert(v1.task_pos(id) == n);
    assert(a2.store_view() == v1.after_remove(id));
    assert(v1.tasks.remove(n) =~= v0.tasks);
    assert(a1.undo_stack@.drop_last() =~= a0.undo_stack@);
}

/// Enter on a typed project name that creates a project, then `u`: the
/// project is gone and the projects are exactly as before; the tasks are too,
/// unless a task already named the id the new project got.
pub proof fn law_undo_reverts_new_project(a0: App, a1: App, a2: App, r1: Result<(), TodoError>, r2: Result<(), TodoError>)
    requires
        a0.wf(),
        a0.mode is AddingProject,
        a0.key_step(Key::Enter, a1, r1),
        a1.store_view().projects.len() > a0.store_view().projects.len(),
        forall|i: int|
            0 <= i < a0.store_view().tasks.len() ==> (#[trigger] a0.store_view().tasks[i]).project_id
                != a0.store_view().next_project_id,
        a1.wf(),
        a1.key_step(Key::Char('u'), a2, r2),
    ensures
        a2.store_view().projects == a0.store_view().projects,
        a2.store_view().tasks == a0.store_view().tasks,
        a2.undo_stack@ == a0.undo_stack@,
        a2.status@ == "undid "@ + "new project"@,
{
    let v0 = a0.store_view();
    let v1 = a1.store_view();
    let p = v1.projects.last();
    let name = crate::text::trimmed(a0.input());
    assert(!crate::text::is_blank(a0.input()));
    assert(!v0.has_name(name));
    assert(v0.added_project(v1, p));
    let id = p.id->0;
    assert(a1.undo_stack@.last() == UndoAction::RemoveProject { id });
    let n = v1.projects.len() - 1;
    // The Inbox is where it was.
    let ip = v0.name_pos(inbox_name());
    assert(v1.projects[ip] == v0.projects[ip]);
    assert(v1.has_name(inbox_name()));
    let k = v1.name_pos(inbox_name());
    if k != ip {
        if k == n {
            assert(p.name@ == inbox_name());
            assert(v0.has_name(name));
        } else {
            assert(v1.projects[k] == v0.projects[k]);
        }
    }
    assert(v1.inbox_id() == v0.inbox_id());
    assert(v0.projects[ip].id->0 < v0.next_project_id);
    assert(id != v1.inbox_id());
    assert(v1.projects[n].id == Some(id));
    assert(v1.has_project(id));
    let q = v1.project_pos(id);
    if q != n {
        assert(v1.projects[q] == v0.projects[q]);
    }
    assert(a2.store_view() == v1.after_remove_project(id));
    assert(v1.projects.remove(n) =~= v0.projects);
    assert(crate::store::reassigned(v1.tasks, id, v1.inbox_id()) =~= v0.tasks);
    assert(a1.undo_stack@.drop_last() =~= a0.undo_stack@);
}

} // verus!

verus! {

/// Tab in the panes switches the focus between projects and tasks, so two
/// Tabs give back the interface as it was; in compact view a Tab changes
/// nothing (the focus stays on the tasks).
pub proof fn law_tab_twice_restores(a0: App, a1: App, a2: App, r1: Result<(), TodoError>, r2: Result<(), TodoError>)
    requires
        a0.mode == Mode::Normal,
        !a0.show_overview,
        a0.key_step(Key::Tab, a1, r1),
        a1.key_step(Key::Tab, a2, r2),
    ensures
        a2 == a0,
        r1 is Ok && r2 is Ok,
        a0.compact ==> a1 == a0,
        !a0.compact ==> a1.focus != a0.focus,
{
}

} // verus!

verus! {

/// Space or Enter on the selected task in the task pane stores the opposite
/// status (an open task becomes done, a done task open) and changes nothing
/// else of that task.
pub proof fn law_space_flips_status_in_pane(a0: App, a1: App, k: Key, r: Result<(), TodoError>)
    requires
        a0.wf(),
        a0.mode == Mode::Normal,
        !a0.show_overview,
        a0.focus == Focus::Tasks,
        a0.selected < a0.tasks@.len(),
        k == Key::Char(' ') || k == Key::Enter,
        a0.key_step(k, a1, r),
    ensures
        a0.tasks@[a0.selected as int].id is Some,
        a1.store_view().has_task(a0.tasks@[a0.selected as int].id->0),
        a0.tasks@[a0.selected as int].status == Status::Open ==> a1.store_view().task(
            a0.tasks@[a0.selected as int].id->0,
        ).status == Status::Done,
        a0.tasks@[a0.selected as int].status == Status::Done ==> a1.store_view().task(
            a0.tasks@[a0.selected as int].id->0,
        ).status == Status::Open,
        a1.store_view().task(a0.tasks@[a0.selected as int].id->0) == (Task {
            status: a1.store_view().task(a0.tasks@[a0.selected as int].id->0).status,
            ..a0.tasks@[a0.selected as int]
        }),
{
    let t = a0.tasks@[a0.selected as int];
    let id = t.id->0;
    let next = if t.status == Status::Open {
        Status::Done
    } else {
        Status::Open
    };
    let changed = Task { status: next, ..t };
    let c = crate::store::Change::SetStatus { id, status: next };
    lemma_update_then_task(a0.store_view(), id, changed, c);
}

/// Space or Enter on a task row of the overview stores the opposite status
/// of that task and changes nothing else of it.
pub proof fn law_space_flips_status_in_overview(a0: App, a1: App, k: Key, t: Task, r: Result<(), TodoError>)
    requires
        a0.wf(),
        a0.mode == Mode::Normal,
        a0.show_overview,
        a0.overview_selected < a0.overview_rows@.len(),
        a0.overview_rows@[a0.overview_selected as int] == OverviewRow::Task(t),
        k == Key::Char(' ') || k == Key::Enter,
        a0.key_step(k, a1, r),
    ensures
        t.id is Some,
        a1.store_view().has_task(t.id->0),
        t.status == Status::Open ==> a1.store_view().task(t.id->0).status == Status::Done,
        t.status == Status::Done ==> a1.store_view().task(t.id->0).status == Status::Open,
        a1.store_view().task(t.id->0) == (Task { status: a1.store_view().task(t.id->0).status, ..t }),
{
    let id = t.id->0;
    let next = if t.status == Status::Open {
        Status::Done
    } else {
        Status::Open
    };
    let changed = Task { status: next, ..t };
    let c = crate::store::Change::SetStatus { id, status: next };
    lemma_update_then_task(a0.store_view(), id, changed, c);
}

/// `a` in the overview starts a new task aimed at the project the cursor is
/// in: the project of the task row under it, or the project of its header.
pub proof fn law_overview_add_aims_at_cursor_project(a0: App, a1: App, r: Result<(), TodoError>)
    requires
        a0.mode == Mode::Normal,
        a0.show_overview,
        a0.overview_selected < a0.overview_rows@.len(),
        a0.key_step(Key::Char('a'), a1, r),
    ensures
        a1.mode is AddingTask,
        a1.input().len() == 0,
        a0.overview_rows@[a0.overview_selected as int] matches OverviewRow::Task(t) ==> a1.add_target
            == Some(t.project_id),
        a0.overview_rows@[a0.overview_selected as int] matches OverviewRow::Header { id, .. }
            ==> a1.add_target == Some(id),
{
}

/// Typing a title keeps the project the new task is aimed at and leaves the
/// store alone.
pub proof fn law_typing_keeps_target(a0: App, a1: App, k: Key, r: Result<(), TodoError>)
    requires
        a0.mode is AddingTask,
        k is Char || k is Backspace,
        a0.key_step(k, a1, r),
    ensures
        a1.mode is AddingTask,
        a1.add_target == a0.add_target,
        a1.store_view() == a0.store_view(),
{
}

/// Enter on a typed title aimed at project `p` stores, if it stores
/// anything, one task in project `p`, open, of medium priority, titled by
/// the trimmed input.
pub proof fn law_enter_adds_into_target(a0: App, a1: App, p: i64, r: Result<(), TodoError>)
    requires
        a0.mode is AddingTask,
        a0.add_target == Some(p),
        a0.key_step(Key::Enter, a1, r),
        a1.store_view() != a0.store_view(),
    ensures
        a1.store_view().tasks.len() == a0.store_view().tasks.len() + 1,
        a1.store_view().tasks.last().project_id == p,
        a1.store_view().tasks.last().status == Status::Open,
        a1.store_view().tasks.last().priority == Priority::Medium,
        a1.store_view().tasks.last().title@ == crate::text::trimmed(a0.input()),
{
}

} // verus!

verus! {

/// `p` on the selected task in the task pane raises its priority one step,
/// high wrapping round to low, and changes nothing else of that task.
pub proof fn law_p_raises_priority_in_pane(a0: App, a1: App, r: Result<(), TodoError>)
    requires
        a0.wf(),
        a0.mode == Mode::Normal,
        !a0.show_overview,
        a0.focus == Focus::Tasks,
        a0.selected < a0.tasks@.len(),
        a0.key_step(Key::Char('p'), a1, r),
    ensures
        a0.tasks@[a0.selected as int].id is Some,
        a1.store_view().has_task(a0.tasks@[a0.selected as int].id->0),
        a1.store_view().task(a0.tasks@[a0.selected as int].id->0).priority == match a0.tasks@[a0.selected as int].priority {
            Priority::Low => Priority::Medium,
            Priority::Medium => Priority::High,
            Priority::High => Priority::Low,
        },
        a1.store_view().task(a0.tasks@[a0.selected as int].id->0) == (Task {
            priority: a1.store_view().task(a0.tasks@[a0.selected as int].id->0).priority,
            ..a0.tasks@[a0.selected as int]
        }),
{
    let t = a0.tasks@[a0.selected as int];
    let id = t.id->0;
    let next = match t.priority {
        Priority::Low => Priority::Medium,
        Priority::Medium => Priority::High,
        Priority::High => Priority::Low,
    };
    crate::store::laws::law_get_after_update(
        a0.store_view(),
        id,
        Task { priority: next, ..t },
        crate::store::Change::SetPriority { id, priority: next },
    );
}

/// `p` on a task row of the overview raises that task's priority one step,
/// high wrapping round to low, and changes nothing else of it.
pub proof fn law_p_raises_priority_in_overview(a0: App, a1: App, t: Task, r: Result<(), TodoError>)
    requires
        a0.wf(),
        a0.mode == Mode::Normal,
        a0.show_overview,
        a0.overview_selected < a0.overview_rows@.len(),
        a0.overview_rows@[a0.overview_selected as int] == OverviewRow::Task(t),
        a0.key_step(Key::Char('p'), a1, r),
    ensures
        t.id is Some,
        a1.store_view().has_task(t.id->0),
        a1.store_view().task(t.id->0).priority == match t.priority {
            Priority::Low => Priority::Medium,
            Priority::Medium => Priority::High,
            Priority::High => Priority::Low,
        },
        a1.store_view().task(t.id->0) == (Task { priority: a1.store_view().task(t.id->0).priority, ..t }),
{
    let id = t.id->0;
    let next = match t.priority {
        Priority::Low => Priority::Medium,
        Priority::Medium => Priority::High,
        Priority::High => Priority::Low,
    };
    crate::store::laws::law_get_after_update(
        a0.store_view(),
        id,
        Task { priority: next, ..t },
        crate::store::Change::SetPriority { id, priority: next },
    );
}

/// `d` on the selected task in the task pane deletes exactly that task.
pub proof fn law_d_deletes_in_pane(a0: App, a1: App, r: Result<(), TodoError>)
    requires
        a0.wf(),
        a0.mode == Mode::Normal,
        !a0.show_overview,
        a0.focus == Focus::Tasks,
        a0.selected < a0.tasks@.len(),
        a0.key_step(Key::Char('d'), a1, r),
    ensures
        a0.tasks@[a0.selected as int].id is Some,
        a0.store_view().has_task(a0.tasks@[a0.selected as int].id->0),
        !a1.store_view().has_task(a0.tasks@[a0.selected as int].id->0),
        a1.store_view().tasks.len() == a0.store_view().tasks.len() - 1,
{
    crate::store::laws::law_get_after_remove(a0.store_view(), a0.tasks@[a0.selected as int].id->0);
}

/// `d` on a task row of the overview deletes exactly that task.
pub proof fn law_d_deletes_in_overview(a0: App, a1: App, t: Task, r: Result<(), TodoError>)
    requires
        a0.wf(),
        a0.mode == Mode::Normal,
        a0.show_overview,
        a0.overview_selected < a0.overview_rows@.len(),
        a0.overview_rows@[a0.overview_selected as int] == OverviewRow::Task(t),
        a0.key_step(Key::Char('d'), a1, r),
    ensures
        t.id is Some,
        a0.store_view().has_task(t.id->0),
        !a1.store_view().has_task(t.id->0),
        a1.store_view().tasks.len() == a0.store_view().tasks.len() - 1,
{
    crate::store::laws::law_get_after_remove(a0.store_view(), t.id->0);
}

} // verus!

verus! {

/// The plain keys of the panes: `h` shows or hides done tasks, `s` switches
/// the sort order, `q` and Esc quit, `o` opens the overview; none of them
/// touches the store.
pub proof fn law_pane_keys(a0: App, a1: App, k: Key, r: Result<(), TodoError>)
    requires
        a0.mode == Mode::Normal,
        !a0.show_overview,
        a0.key_step(k, a1, r),
        k == Key::Char('h') || k == Key::Char('s') || k == Key::Char('q') || k == Key::Esc || k
            == Key::Char('o'),
    ensures
        r is Ok,
        a1.store_view() == a0.store_view(),
        k == Key::Char('h') ==> a1.show_done == !a0.show_done,
        k == Key::Char('s') ==> a1.sort_mode != a0.sort_mode,
        k == Key::Char('q') || k == Key::Esc ==> a1.should_quit,
        k == Key::Char('o') ==> a1.show_overview,
{
}

/// Moving a cursor never leaves the list: on a non-empty list it lands on
/// an item, one step at a time when the step stays inside, else at the
/// nearest end.
pub proof fn law_cursor_stays_in_list(index: int, delta: int, len: int)
    requires
        len > 0,
    ensures
        0 <= crate::tui::app::moved_index(index, delta, len) < len,
        0 <= index + delta < len ==> crate::tui::app::moved_index(index, delta, len) == index + delta,
        index + delta < 0 ==> crate::tui::app::moved_index(index, delta, len) == 0,
        index + delta >= len ==> crate::tui::app::moved_index(index, delta, len) == len - 1,
{
}

} // verus!
