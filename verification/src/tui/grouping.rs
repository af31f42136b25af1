//! Grouping the task list by project: tasks ordered by the sidebar position
//! of their project, each group keeping the order its tasks had (a stable
//! sort on that position alone).

use vstd::prelude::*;

use crate::model::{Project, Task};

verus! {

broadcast use vstd::seq::group_seq_axioms;

/// The sidebar position of project `pid`: the last project with that id,
/// or `usize::MAX` when no project has it.
pub open spec fn group_rank(projects: Seq<Project>, pid: i64) -> int
    decreases projects.len(),
{
    if projects.len() == 0 {
        usize::MAX as int
    } else if projects.last().id == Some(pid) {
        projects.len() - 1
    } else {
        group_rank(projects.drop_last(), pid)
    }
}

/// The sidebar position that groups task `t`.
pub open spec fn task_rank(projects: Seq<Project>, t: Task) -> int {
    group_rank(projects, t.project_id)
}

/// `t` placed into `s` in front of the first task of a later group.
pub open spec fn group_insert(projects: Seq<Project>, s: Seq<Task>, t: Task) -> Seq<Task>
    decreases s.len(),
{
    if s.len() == 0 {
        seq![t]
    } else if task_rank(projects, t) < task_rank(projects, s[0]) {
        seq![t] + s
    } else {
        seq![s[0]] + group_insert(projects, s.drop_first(), t)
    }
}

/// The tasks grouped by project (a stable insertion sort on the rank).
pub open spec fn grouped(projects: Seq<Project>, s: Seq<Task>) -> Seq<Task>
    decreases s.len(),
{
    if s.len() == 0 {
        s
    } else {
        group_insert(projects, grouped(projects, s.drop_last()), s.last())
    }
}

/// Whether the tasks come in the sidebar order of their projects.
pub open spec fn in_group_order(projects: Seq<Project>, s: Seq<Task>) -> bool {
    forall|i: int, j: int|
        0 <= i < j < s.len() ==> task_rank(projects, #[trigger] s[i]) <= task_rank(projects, #[trigger] s[j])
}

/// Whether a task belongs to the group at sidebar position `r`.
pub open spec fn in_rank(projects: Seq<Project>, r: int) -> spec_fn(Task) -> bool {
    |t: Task| task_rank(projects, t) == r
}

/// The tasks of the group at sidebar position `r`, in their order.
pub open spec fn group_of(projects: Seq<Project>, s: Seq<Task>, r: int) -> Seq<Task> {
    s.filter(in_rank(projects, r))
}

/// The sidebar position of project `pid` (see `group_rank`).
pub fn project_position(projects: &Vec<Project>, pid: i64) -> (r: usize)
    ensures
        r as int == group_rank(projects@, pid),
{
    let mut r: usize = usize::MAX;
    let mut i: usize = 0;
    while i < projects.len()
        invariant
            i <= projects@.len(),
            r as int == group_rank(projects@.take(i as int), pid),
        decreases projects@.len() - i,
    {
        proof {
            assert(projects@.take(i + 1).drop_last() =~= projects@.take(i as int));
            assert(projects@.take(i + 1).last() == projects@[i as int]);
        }
        if projects[i].id == Some(pid) {
            r = i;
        }
        i = i + 1;
    }
    assert(projects@.take(projects@.len() as int) =~= projects@);
    r
}

proof fn lemma_group_insert_at(projects: Seq<Project>, s: Seq<Task>, t: Task, k: int)
    requires
        0 <= k <= s.len(),
        forall|j: int| 0 <= j < k ==> !(task_rank(projects, t) < task_rank(projects, #[trigger] s[j])),
        k < s.len() ==> task_rank(projects, t) < task_rank(projects, s[k]),
    ensures
        group_insert(projects, s, t) == s.insert(k, t),
    decreases s.len(),
{
    if s.len() == 0 {
        assert(s.insert(k, t) =~= seq![t]);
    } else if k == 0 {
        assert(s.insert(0, t) =~= seq![t] + s);
    } else {
        let d = s.drop_first();
        assert forall|j: int| 0 <= j < k - 1 implies !(task_rank(projects, t) < task_rank(
            projects,
            #[trigger] d[j],
        )) by {
            assert(d[j] == s[j + 1]);
        }
        if k - 1 < d.len() {
            assert(d[k - 1] == s[k]);
        }
        assert(!(task_rank(projects, t) < task_rank(projects, s[0])));
        lemma_group_insert_at(projects, d, t, k - 1);
        assert(seq![s[0]] + d.insert(k - 1, t) =~= s.insert(k, t));
    }
}

/// The tasks grouped by project: ordered by the sidebar position of their
/// project, the tasks of one project in the order they came.
pub fn group_by_project(projects: &Vec<Project>, tasks: &Vec<Task>) -> (r: Vec<Task>)
    ensures
        r@ == grouped(projects@, tasks@),
{
    let mut out: Vec<Task> = Vec::new();
    let mut i: usize = 0;
    while i < tasks.len()
        invariant
            i <= tasks@.len(),
            out@ == grouped(projects@, tasks@.take(i as int)),
        decreases tasks@.len() - i,
    {
        let t = tasks[i].duplicate();
        let rt = project_position(projects, t.project_id);
        let mut k: usize = 0;
        while k < out.len() && !(rt < project_position(projects, out[k].project_id))
            invariant
                k <= out@.len(),
                rt as int == task_rank(projects@, t),
                forall|j: int|
                    0 <= j < k ==> !(task_rank(projects@, t) < task_rank(projects@, #[trigger] out@[j])),
            decreases out@.len() - k,
        {
            k = k + 1;
        }
        proof {
            lemma_group_insert_at(projects@, out@, t, k as int);
            assert(tasks@.take(i + 1).drop_last() =~= tasks@.take(i as int));
            assert(tasks@.take(i + 1).last() == t);
        }
        out.insert(k, t);
        i = i + 1;
    }
    assert(tasks@.take(tasks@.len() as int) =~= tasks@);
    out
}

proof fn lemma_filter_none(s: Seq<Task>, p: spec_fn(Task) -> bool)
    requires
        forall|i: int| 0 <= i < s.len() ==> !p(#[trigger] s[i]),
    ensures
        s.filter(p) == Seq::<Task>::empty(),
    decreases s.len(),
{
    reveal(Seq::filter);
    if s.len() > 0 {
        let d = s.drop_last();
        assert forall|i: int| 0 <= i < d.len() implies !p(#[trigger] d[i]) by {
            assert(d[i] == s[i]);
        }
        lemma_filter_none(d, p);
        assert(!p(s[s.len() - 1]));
    }
}

proof fn lemma_filter_single(t: Task, p: spec_fn(Task) -> bool)
    ensures
        seq![t].filter(p) == (if p(t) {
            seq![t]
        } else {
            Seq::<Task>::empty()
        }),
{
    reveal_with_fuel(Seq::filter, 2);
    assert(seq![t].drop_last() =~= Seq::<Task>::empty());
    assert(seq![t].last() == t);
    if p(t) {
        assert(Seq::<Task>::empty().push(t) =~= seq![t]);
    }
}

proof fn lemma_filter_push(s: Seq<Task>, t: Task, p: spec_fn(Task) -> bool)
    ensures
        s.push(t).filter(p) == (if p(t) {
            s.filter(p).push(t)
        } else {
            s.filter(p)
        }),
{
    reveal(Seq::filter);
    assert(s.push(t).drop_last() =~= s);
    assert(s.push(t).last() == t);
}

/// Inserting into a grouped list: still grouped, one longer, made of the
/// old tasks and `t`, and only the group of `t` changes, by `t` at its end.
proof fn lemma_group_insert(projects: Seq<Project>, x: Seq<Task>, t: Task)
    requires
        in_group_order(projects, x),
    ensures
        group_insert(projects, x, t).len() == x.len() + 1,
        in_group_order(projects, group_insert(projects, x, t)),
        forall|y: Task| #[trigger] group_insert(projects, x, t).contains(y) ==> x.contains(y) || y == t,
        forall|r: int|
            #[trigger] group_of(projects, group_insert(projects, x, t), r) == if task_rank(projects, t) == r {
                group_of(projects, x, r).push(t)
            } else {
                group_of(projects, x, r)
            },
    decreases x.len(),
{
    let g = group_insert(projects, x, t);
    let rt = task_rank(projects, t);
    if x.len() == 0 {
        assert forall|r: int| #[trigger] group_of(projects, g, r) == if rt == r {
            group_of(projects, x, r).push(t)
        } else {
            group_of(projects, x, r)
        } by {
            lemma_filter_single(t, in_rank(projects, r));
            lemma_filter_none(x, in_rank(projects, r));
            assert(Seq::<Task>::empty().push(t) =~= seq![t]);
        }
        assert forall|y: Task| #[trigger] g.contains(y) implies x.contains(y) || y == t by {
            assert(g[0] == y);
        }
    } else if rt < task_rank(projects, x[0]) {
        assert(g == seq![t] + x);
        assert forall|r: int| #[trigger] group_of(projects, g, r) == if rt == r {
            group_of(projects, x, r).push(t)
        } else {
            group_of(projects, x, r)
        } by {
            let p = in_rank(projects, r);
            Seq::<Task>::filter_distributes_over_add(seq![t], x, p);
            lemma_filter_single(t, p);
            if rt == r {
                assert forall|i: int| 0 <= i < x.len() implies !p(#[trigger] x[i]) by {
                    if i > 0 {
                        assert(task_rank(projects, x[0]) <= task_rank(projects, x[i]));
                    }
                }
                lemma_filter_none(x, p);
                assert(seq![t] + Seq::<Task>::empty() =~= Seq::<Task>::empty().push(t));
            } else {
                assert(Seq::<Task>::empty() + x.filter(p) =~= x.filter(p));
            }
        }
        assert forall|i: int, j: int| 0 <= i < j < g.len() implies task_rank(projects, #[trigger] g[i])
            <= task_rank(projects, #[trigger] g[j]) by {
            if i == 0 {
                assert(g[j] == x[j - 1]);
                if j - 1 > 0 {
                    assert(task_rank(projects, x[0]) <= task_rank(projects, x[j - 1]));
                }
            } else {
                assert(g[i] == x[i - 1] && g[j] == x[j - 1]);
            }
        }
        assert forall|y: Task| #[trigger] g.contains(y) implies x.contains(y) || y == t by {
            let i = choose|i: int| 0 <= i < g.len() && g[i] == y;
            if i > 0 {
                assert(x[i - 1] == y);
            }
        }
    } else {
        let d = x.drop_first();
        assert forall|i: int, j: int| 0 <= i < j < d.len() implies task_rank(projects, #[trigger] d[i])
            <= task_rank(projects, #[trigger] d[j]) by {
            assert(d[i] == x[i + 1] && d[j] == x[j + 1]);
        }
        lemma_group_insert(projects, d, t);
        let rest = group_insert(projects, d, t);
        assert(g == seq![x[0]] + rest);
        assert(x =~= seq![x[0]] + d);
        assert forall|r: int| #[trigger] group_of(projects, g, r) == if rt == r {
            group_of(projects, x, r).push(t)
        } else {
            group_of(projects, x, r)
        } by {
            let p = in_rank(projects, r);
            Seq::<Task>::filter_distributes_over_add(seq![x[0]], rest, p);
            Seq::<Task>::filter_distributes_over_add(seq![x[0]], d, p);
            assert(group_of(projects, rest, r) == rest.filter(p));
            if rt == r {
                assert(seq![x[0]].filter(p) + d.filter(p).push(t) =~= (seq![x[0]].filter(p) + d.filter(
                    p,
                )).push(t));
            }
        }
        assert forall|i: int, j: int| 0 <= i < j < g.len() implies task_rank(projects, #[trigger] g[i])
            <= task_rank(projects, #[trigger] g[j]) by {
            if i == 0 {
                let y = g[j];
                assert(y == rest[j - 1]);
                assert(rest.contains(y));
                if y != t {
                    assert(d.contains(y));
                    let k = choose|k: int| 0 <= k < d.len() && d[k] == y;
                    assert(x[k + 1] == y);
                }
            } else {
                assert(g[i] == rest[i - 1] && g[j] == rest[j - 1]);
            }
        }
        assert forall|y: Task| #[trigger] g.contains(y) implies x.contains(y) || y == t by {
            let i = choose|i: int| 0 <= i < g.len() && g[i] == y;
            if i > 0 {
                assert(rest[i - 1] == y);
                assert(rest.contains(y));
                if y != t {
                    let k = choose|k: int| 0 <= k < d.len() && d[k] == y;
                    assert(x[k + 1] == y);
                }
            } else {
                assert(x[0] == y);
            }
        }
    }
}

/// Grouping by project is a stable sort on the sidebar position: the
/// result comes in the sidebar order of the tasks' projects, every group
/// holds exactly the tasks it held before in the same order (so nothing is
/// lost, added or reordered inside a project), and only listed tasks occur.
pub proof fn law_grouping_is_stable(projects: Seq<Project>, tasks: Seq<Task>)
    ensures
        in_group_order(projects, grouped(projects, tasks)),
        grouped(projects, tasks).len() == tasks.len(),
        forall|r: int| #[trigger] group_of(projects, grouped(projects, tasks), r) == group_of(projects, tasks, r),
        forall|y: Task| #[trigger] grouped(projects, tasks).contains(y) ==> tasks.contains(y),
    decreases tasks.len(),
{
    if tasks.len() > 0 {
        let prev = tasks.drop_last();
        let t = tasks.last();
        law_grouping_is_stable(projects, prev);
        let g = grouped(projects, prev);
        lemma_group_insert(projects, g, t);
        assert(prev.push(t) =~= tasks);
        assert forall|r: int| #[trigger] group_of(projects, grouped(projects, tasks), r) == group_of(
            projects,
            tasks,
            r,
        ) by {
            lemma_filter_push(prev, t, in_rank(projects, r));
            assert(group_of(projects, g, r) == group_of(projects, prev, r));
        }
        assert forall|y: Task| #[trigger] grouped(projects, tasks).contains(y) implies tasks.contains(y) by {
            if y != t {
                assert(g.contains(y));
                assert(prev.contains(y));
                let k = choose|k: int| 0 <= k < prev.len() && prev[k] == y;
                assert(tasks[k] == y);
            } else {
                assert(tasks[tasks.len() - 1] == y);
            }
        }
    }
}

} // verus!
