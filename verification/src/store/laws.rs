//! What holds of the store across its operations.

use vstd::prelude::*;

use crate::model::{inbox_name, Project, Task};
use crate::store::order::{
    lemma_sort_projects_contains, lemma_sort_projects_keeps, lemma_sort_projects_sorted,
    lemma_sort_tasks_sorted, project_before, projects_sorted, sort_tasks_spec, tasks_sorted,
};
use crate::store::{listing, select, StoreView, TaskQuery};

verus! {

broadcast use vstd::seq::group_seq_axioms;

proof fn lemma_insert_task_keeps(s: Seq<Task>, t: Task)
    ensures
        insert_task_has(s, t),
    decreases s.len(),
{
    let r = crate::store::order::insert_task(s, t);
    if s.len() == 0 {
        assert(r[0] == t);
    } else if crate::store::order::task_before(t, s[0]) {
        assert(r =~= seq![t] + s);
        assert(r[0] == t);
        assert forall|x: Task| s.contains(x) implies r.contains(x) by {
            let j = choose|j: int| 0 <= j < s.len() && s[j] == x;
            assert(r[j + 1] == x);
        }
    } else {
        let d = s.drop_first();
        lemma_insert_task_keeps(d, t);
        let rest = crate::store::order::insert_task(d, t);
        assert(r =~= seq![s[0]] + rest);
        assert(rest.contains(t));
        let kt = choose|k: int| 0 <= k < rest.len() && rest[k] == t;
        assert(r[kt + 1] == t);
        assert forall|x: Task| s.contains(x) implies r.contains(x) by {
            if x == s[0] {
                assert(r[0] == x);
            } else {
                let j = choose|j: int| 0 <= j < s.len() && s[j] == x;
                assert(j != 0);
                assert(d[j - 1] == x);
                assert(d.contains(x));
                assert(rest.contains(x));
                let k = choose|k: int| 0 <= k < rest.len() && rest[k] == x;
                assert(r[k + 1] == x);
            }
        }
    }
}

spec fn insert_task_has(s: Seq<Task>, t: Task) -> bool {
    let r = crate::store::order::insert_task(s, t);
    &&& r.contains(t)
    &&& forall|x: Task| s.contains(x) ==> r.contains(x)
}

proof fn lemma_sort_keeps(s: Seq<Task>)
    ensures
        forall|x: Task| s.contains(x) ==> #[trigger] sort_tasks_spec(s).contains(x),
    decreases s.len(),
{
    if s.len() > 0 {
        lemma_sort_keeps(s.drop_last());
        let prev = sort_tasks_spec(s.drop_last());
        lemma_insert_task_keeps(prev, s.last());
        assert forall|x: Task| s.contains(x) implies #[trigger] sort_tasks_spec(s).contains(x) by {
            let j = choose|j: int| 0 <= j < s.len() && s[j] == x;
            if j < s.len() - 1 {
                assert(s.drop_last()[j] == x);
                assert(prev.contains(x));
            }
        }
    }
}

proof fn lemma_select_keeps(tasks: Seq<Task>, q: TaskQuery)
    ensures
        forall|x: Task| tasks.contains(x) && q.matches(x) ==> #[trigger] select(tasks, q).contains(x),
    decreases tasks.len(),
{
    if tasks.len() > 0 {
        lemma_select_keeps(tasks.drop_last(), q);
        let rest = select(tasks.drop_last(), q);
        assert forall|x: Task| tasks.contains(x) && q.matches(x) implies #[trigger] select(tasks, q).contains(x) by {
            let j = choose|j: int| 0 <= j < tasks.len() && tasks[j] == x;
            if j < tasks.len() - 1 {
                assert(tasks.drop_last()[j] == x);
                assert(rest.contains(x));
                let k = choose|k: int| 0 <= k < rest.len() && rest[k] == x;
                assert(select(tasks, q)[k] == x);
            } else {
                assert(select(tasks, q).last() == x);
            }
        }
    }
}

/// `list` answers a query with exactly the stored tasks that pass it, high
/// priority first, then newest, then by descending id.
pub proof fn law_listing_is_the_sorted_selection(v: StoreView, q: TaskQuery)
    ensures
        forall|t: Task| #[trigger] v.listing(q).contains(t) <==> v.tasks.contains(t) && q.matches(t),
        tasks_sorted(v.listing(q)),
{
    crate::store::lemma_listing_contains(v.tasks, q);
    lemma_select_keeps(v.tasks, q);
    lemma_sort_keeps(select(v.tasks, q));
    lemma_sort_tasks_sorted(select(v.tasks, q));
    assert forall|t: Task| v.tasks.contains(t) && q.matches(t) implies #[trigger] v.listing(q).contains(t) by {
        assert(select(v.tasks, q).contains(t));
    }
}

/// `list_projects` lists exactly the stored projects, the Inbox first, then
/// by name (then by descending id).
pub proof fn law_project_listing_order(v: StoreView)
    requires
        v.wf(),
    ensures
        forall|p: Project| #[trigger] v.project_listing().contains(p) <==> v.projects.contains(p),
        v.project_listing().len() == v.projects.len(),
        projects_sorted(v.project_listing()),
        v.project_listing()[0].name@ == inbox_name(),
{
    let l = v.project_listing();
    lemma_sort_projects_contains(v.projects);
    lemma_sort_projects_keeps(v.projects);
    lemma_sort_projects_sorted(v.projects);
    let i = choose|i: int| 0 <= i < v.projects.len() && v.projects[i].name@ == inbox_name();
    let x = v.projects[i];
    assert(v.projects.contains(x));
    assert(l.contains(x));
    let k = choose|k: int| 0 <= k < l.len() && l[k] == x;
    if l[0].name@ != inbox_name() {
        assert(k != 0);
        assert(project_before(l[k], l[0])) by {
            reveal(project_before);
        }
        assert(!project_before(l[k], l[0]));
    }
}

/// Whether `t` is open.
pub open spec fn is_open_task() -> spec_fn(Task) -> bool {
    |t: Task| t.status == crate::model::Status::Open
}

proof fn lemma_select_open(tasks: Seq<Task>)
    ensures
        select(tasks, crate::store::open_query()).len() == tasks.filter(is_open_task()).len(),
    decreases tasks.len(),
{
    reveal(Seq::filter);
    if tasks.len() > 0 {
        lemma_select_open(tasks.drop_last());
    }
}

/// The open count (the tmux status line's number) is the number of stored
/// tasks whose status is open, in every project.
pub proof fn law_open_count_counts_open_tasks(v: StoreView)
    ensures
        v.open_count() == v.tasks.filter(is_open_task()).len(),
{
    lemma_select_open(v.tasks);
}

/// A read gives back what an in-place update wrote: task `id` is now `t`,
/// and every other stored task is as it was.
pub proof fn law_get_after_update(v: StoreView, id: i64, t: Task, c: crate::store::Change)
    requires
        v.wf(),
        v.has_task(id),
        t.id == Some(id),
    ensures
        v.after_update(id, t, c).has_task(id),
        v.after_update(id, t, c).task(id) == t,
        v.after_update(id, t, c).tasks.len() == v.tasks.len(),
        forall|other: i64| other != id && v.has_task(other) ==> v.after_update(id, t, c).has_task(other)
            && #[trigger] v.after_update(id, t, c).task(other) == v.task(other),
{
    let w = v.after_update(id, t, c);
    let p = v.task_pos(id);
    assert(w.tasks[p] == t);
    assert(w.has_task(id));
    let k = w.task_pos(id);
    if k != p {
        assert(w.tasks[k] == v.tasks[k]);
    }
    assert forall|other: i64| other != id && v.has_task(other) implies w.has_task(other)
        && #[trigger] w.task(other) == v.task(other) by {
        let q = v.task_pos(other);
        assert(q != p);
        assert(w.tasks[q] == v.tasks[q]);
        assert(w.has_task(other));
        let k2 = w.task_pos(other);
        if k2 != q {
            if k2 == p {
                assert(w.tasks[k2] == t);
            } else {
                assert(w.tasks[k2] == v.tasks[k2]);
            }
        }
    }
}

/// A read gives back what `add` wrote: the added task is stored under its id.
pub proof fn law_get_after_add(old: StoreView, new: StoreView, t: Task)
    requires
        old.wf(),
        old.added_task(new, t),
    ensures
        new.has_task(t.id->0),
        new.task(t.id->0) == t,
        new.wf(),
{
    let id = t.id->0;
    let n = new.tasks.len() - 1;
    assert(new.tasks[n] == t);
    assert(new.has_task(id));
    let k = new.task_pos(id);
    if k != n {
        assert(new.tasks[k] == old.tasks[k]);
    }
    assert forall|i: int, j: int|
        0 <= i < new.tasks.len() && 0 <= j < new.tasks.len() && i != j implies (
        #[trigger] new.tasks[i]).id != (#[trigger] new.tasks[j]).id by {
        if i < n {
            assert(new.tasks[i] == old.tasks[i]);
        }
        if j < n {
            assert(new.tasks[j] == old.tasks[j]);
        }
    }
    assert(new.has_name(inbox_name()) == old.has_name(inbox_name()));
}

/// After `remove`, no task has the removed id.
pub proof fn law_get_after_remove(v: StoreView, id: i64)
    requires
        v.wf(),
        v.has_task(id),
    ensures
        !v.after_remove(id).has_task(id),
        v.after_remove(id).tasks.len() == v.tasks.len() - 1,
{
    let w = v.after_remove(id);
    let p = v.task_pos(id);
    if w.has_task(id) {
        let i = choose|i: int| 0 <= i < w.tasks.len() && w.tasks[i].id == Some(id);
        let i2 = if i < p { i } else { i + 1 };
        assert(w.tasks[i] == v.tasks[i2]);
    }
}

/// Removing a task and restoring it gives the same task back under its id,
/// and the same tasks as before (in another order).
pub proof fn law_restore_undoes_remove(v: StoreView, id: i64)
    requires
        v.wf(),
        v.has_task(id),
    ensures
        ({
            let t = v.task(id);
            let w = v.after_remove(id).restored(t);
            &&& !v.after_remove(id).has_task(id)
            &&& t.id == Some(id)
            &&& id < v.next_task_id
            &&& w.has_task(id)
            &&& w.task(id) == t
            &&& w.tasks.to_multiset() == v.tasks.to_multiset()
            &&& w.next_task_id == v.next_task_id
            &&& w.projects == v.projects
        }),
{
    broadcast use vstd::seq_lib::group_to_multiset_ensures;

    law_get_after_remove(v, id);
    let p = v.task_pos(id);
    let t = v.task(id);
    let r = v.after_remove(id);
    let w = r.restored(t);
    let n = w.tasks.len() - 1;
    assert(w.tasks[n] == t);
    assert(w.has_task(id));
    let k = w.task_pos(id);
    if k != n {
        assert(w.tasks[k] == r.tasks[k]);
        assert(r.has_task(id));
    }
    assert(v.tasks.remove(p).to_multiset() == v.tasks.to_multiset().remove(t));
    assert(v.tasks.to_multiset().count(t) > 0);
}

/// Deleting a project moves its tasks to the Inbox and leaves every other
/// task, and the Inbox, as they were.
pub proof fn law_remove_project_moves_tasks_to_inbox(v: StoreView, id: i64)
    requires
        v.wf(),
        v.has_project(id),
        id != v.inbox_id(),
    ensures
        ({
            let w = v.after_remove_project(id);
            &&& w.tasks.len() == v.tasks.len()
            &&& forall|i: int| 0 <= i < w.tasks.len() ==> (#[trigger] w.tasks[i]).project_id != id
            &&& forall|i: int|
                0 <= i < v.tasks.len() && (#[trigger] v.tasks[i]).project_id == id ==> w.tasks[i]
                    == (Task { project_id: v.inbox_id(), ..v.tasks[i] })
            &&& forall|i: int|
                0 <= i < v.tasks.len() && (#[trigger] v.tasks[i]).project_id != id ==> w.tasks[i]
                    == v.tasks[i]
            &&& !w.has_project(id)
            &&& w.has_name(inbox_name())
        }),
{
    let w = v.after_remove_project(id);
    let p = v.project_pos(id);
    let ip = v.name_pos(inbox_name());
    assert(v.projects[ip].id == Some(v.inbox_id()));
    assert(ip != p);
    let ni = if ip < p { ip } else { ip - 1 };
    assert(w.projects[ni] == v.projects[ip]);
    if w.has_project(id) {
        let i = choose|i: int| 0 <= i < w.projects.len() && w.projects[i].id == Some(id);
        let i2 = if i < p { i } else { i + 1 };
        assert(w.projects[i] == v.projects[i2]);
    }
}

} // verus!
