//! Listing orders. Tasks list high priority first, then newest, then by
//! descending id. Projects list the Inbox first, then by name.

use vstd::prelude::*;

use crate::model::{inbox_name, Priority, Project, Task};

verus! {

broadcast use vstd::seq::group_seq_axioms;

/// An id as an integer; a missing id sorts below every stored one.
pub open spec fn id_key(id: Option<i64>) -> int {
    match id {
        Some(i) => i as int,
        None => i64::MIN - 1,
    }
}

/// Priority order: higher priority first, then newer, then higher id.
pub open spec fn priority_before(a: Task, b: Task) -> bool {
    ||| a.priority.rank() < b.priority.rank()
    ||| a.priority.rank() == b.priority.rank() && a.created_at > b.created_at
    ||| a.priority.rank() == b.priority.rank() && a.created_at == b.created_at && id_key(a.id)
        > id_key(b.id)
}

/// Whether task `a` is listed before task `b`: higher priority first, then
/// newer, then higher id.
#[verifier::opaque]
pub open spec fn task_before(a: Task, b: Task) -> bool {
    priority_before(a, b)
}

/// `t` placed into `s` in front of the first element it goes before.
pub open spec fn insert_task(s: Seq<Task>, t: Task) -> Seq<
    Task,
>
    decreases s.len(),
{
    if s.len() == 0 {
        seq![t]
    } else if task_before(t, s[0]) {
        seq![t] + s
    } else {
        seq![s[0]] + insert_task(s.drop_first(), t)
    }
}

/// The tasks in listing order (a stable insertion sort).
pub open spec fn sort_tasks_spec(s: Seq<Task>) -> Seq<Task>
    decreases s.len(),
{
    if s.len() == 0 {
        s
    } else {
        insert_task(sort_tasks_spec(s.drop_last()), s.last())
    }
}

/// Whether a sequence of tasks is in listing order.
pub open spec fn tasks_sorted(s: Seq<Task>) -> bool {
    forall|i: int, j: int|
        0 <= i < j < s.len() ==> !task_before(#[trigger] s[j], #[trigger] s[i])
}

/// Lexicographic order of character sequences (code point by code point,
/// a proper prefix first).
pub open spec fn text_less(a: Seq<char>, b: Seq<char>) -> bool
    decreases a.len(),
{
    if a.len() == 0 {
        b.len() > 0
    } else if b.len() == 0 {
        false
    } else if a[0] != b[0] {
        (a[0] as int) < (b[0] as int)
    } else {
        text_less(a.drop_first(), b.drop_first())
    }
}

/// Whether `a` is listed before `b`: the Inbox first, then by name, then by
/// descending id.
#[verifier::opaque]
pub open spec fn project_before(a: Project, b: Project) -> bool {
    let ai = a.name@ == inbox_name();
    let bi = b.name@ == inbox_name();
    ||| ai && !bi
    ||| ai == bi && text_less(a.name@, b.name@)
    ||| ai == bi && a.name@ == b.name@ && id_key(a.id) > id_key(b.id)
}

/// `p` placed into `s` in front of the first element it goes before.
pub open spec fn insert_project(s: Seq<Project>, p: Project) -> Seq<Project>
    decreases s.len(),
{
    if s.len() == 0 {
        seq![p]
    } else if project_before(p, s[0]) {
        seq![p] + s
    } else {
        seq![s[0]] + insert_project(s.drop_first(), p)
    }
}

/// The projects in listing order (a stable insertion sort).
pub open spec fn sort_projects_spec(s: Seq<Project>) -> Seq<Project>
    decreases s.len(),
{
    if s.len() == 0 {
        s
    } else {
        insert_project(sort_projects_spec(s.drop_last()), s.last())
    }
}

/// Whether a sequence of projects is in listing order.
pub open spec fn projects_sorted(s: Seq<Project>) -> bool {
    forall|i: int, j: int| 0 <= i < j < s.len() ==> !project_before(#[trigger] s[j], #[trigger] s[i])
}

proof fn lemma_insert_task_at(s: Seq<Task>, t: Task, k: int)
    requires
        0 <= k <= s.len(),
        forall|j: int| 0 <= j < k ==> !task_before(t, #[trigger] s[j]),
        k < s.len() ==> task_before(t, s[k]),
    ensures
        insert_task(s, t) == s.insert(k, t),
    decreases s.len(),
{
    if s.len() == 0 {
        assert(s.insert(k, t) =~= seq![t]);
    } else if k == 0 {
        assert(s.insert(0, t) =~= seq![t] + s);
    } else {
        let d = s.drop_first();
        assert forall|j: int| 0 <= j < k - 1 implies !task_before(t,
            #[trigger] d[j],
        ) by {
            assert(d[j] == s[j + 1]);
        }
        if k - 1 < d.len() {
            assert(d[k - 1] == s[k]);
        }
        assert(!task_before(t, s[0]));
        lemma_insert_task_at(d, t, k - 1);
        assert(seq![s[0]] + d.insert(k - 1, t) =~= s.insert(k, t));
    }
}

/// Sorting keeps the number of tasks.
pub proof fn lemma_sort_tasks_len(s: Seq<Task>)
    ensures
        sort_tasks_spec(s).len() == s.len(),
    decreases s.len(),
{
    if s.len() > 0 {
        lemma_sort_tasks_len(s.drop_last());
        lemma_insert_task_len(sort_tasks_spec(s.drop_last()), s.last());
    }
}

proof fn lemma_insert_task_len(s: Seq<Task>, t: Task)
    ensures
        insert_task(s, t).len() == s.len() + 1,
    decreases s.len(),
{
    if s.len() > 0 {
        lemma_insert_task_len(s.drop_first(), t);
    }
}

proof fn lemma_insert_task_contains(s: Seq<Task>, t: Task)
    ensures
        forall|x: Task| #[trigger] insert_task(s, t).contains(x) ==> s.contains(x) || x == t,
    decreases s.len(),
{
    if s.len() > 0 && !task_before(t, s[0]) {
        lemma_insert_task_contains(s.drop_first(), t);
        let r = insert_task(s, t);
        let d = insert_task(s.drop_first(), t);
        assert forall|x: Task| r.contains(x) implies s.contains(x) || x == t by {
            let i = choose|i: int| 0 <= i < r.len() && r[i] == x;
            if i > 0 {
                assert(d[i - 1] == x);
                assert(d.contains(x));
                if s.drop_first().contains(x) {
                    let j = choose|j: int| 0 <= j < s.drop_first().len() && s.drop_first()[j] == x;
                    assert(s[j + 1] == x);
                }
            } else {
                assert(s[0] == x);
            }
        }
    } else if s.len() > 0 {
        let r = insert_task(s, t);
        assert forall|x: Task| r.contains(x) implies s.contains(x) || x == t by {
            let i = choose|i: int| 0 <= i < r.len() && r[i] == x;
            if i > 0 {
                assert(s[i - 1] == x);
            }
        }
    }
}

/// Every task of a sorted sequence comes from the unsorted one.
pub proof fn lemma_sort_tasks_contains(s: Seq<Task>)
    ensures
        forall|x: Task| #[trigger] sort_tasks_spec(s).contains(x) ==> s.contains(x),
    decreases s.len(),
{
    if s.len() > 0 {
        lemma_sort_tasks_contains(s.drop_last());
        lemma_insert_task_contains(sort_tasks_spec(s.drop_last()), s.last());
        assert forall|x: Task| #[trigger] sort_tasks_spec(s).contains(x) implies s.contains(x) by {
            if s.drop_last().contains(x) {
                let j = choose|j: int| 0 <= j < s.drop_last().len() && s.drop_last()[j] == x;
                assert(s[j] == x);
            } else {
                assert(s[s.len() - 1] == x);
            }
        }
    }
}

proof fn lemma_insert_project_contains(s: Seq<Project>, t: Project)
    ensures
        forall|x: Project| #[trigger] insert_project(s, t).contains(x) ==> s.contains(x) || x == t,
    decreases s.len(),
{
    if s.len() > 0 && !project_before(t, s[0]) {
        lemma_insert_project_contains(s.drop_first(), t);
        let r = insert_project(s, t);
        let d = insert_project(s.drop_first(), t);
        assert forall|x: Project| r.contains(x) implies s.contains(x) || x == t by {
            let i = choose|i: int| 0 <= i < r.len() && r[i] == x;
            if i > 0 {
                assert(d[i - 1] == x);
                assert(d.contains(x));
                if s.drop_first().contains(x) {
                    let j = choose|j: int| 0 <= j < s.drop_first().len() && s.drop_first()[j] == x;
                    assert(s[j + 1] == x);
                }
            } else {
                assert(s[0] == x);
            }
        }
    } else if s.len() > 0 {
        let r = insert_project(s, t);
        assert forall|x: Project| r.contains(x) implies s.contains(x) || x == t by {
            let i = choose|i: int| 0 <= i < r.len() && r[i] == x;
            if i > 0 {
                assert(s[i - 1] == x);
            }
        }
    }
}

/// Every project of a sorted sequence comes from the unsorted one, and
/// sorting keeps the number of projects.
pub proof fn lemma_sort_projects_contains(s: Seq<Project>)
    ensures
        forall|x: Project| #[trigger] sort_projects_spec(s).contains(x) ==> s.contains(x),
        sort_projects_spec(s).len() == s.len(),
    decreases s.len(),
{
    if s.len() > 0 {
        lemma_sort_projects_contains(s.drop_last());
        lemma_insert_project_contains(sort_projects_spec(s.drop_last()), s.last());
        lemma_insert_project_len(sort_projects_spec(s.drop_last()), s.last());
        assert forall|x: Project| #[trigger] sort_projects_spec(s).contains(x) implies s.contains(x) by {
            if s.drop_last().contains(x) {
                let j = choose|j: int| 0 <= j < s.drop_last().len() && s.drop_last()[j] == x;
                assert(s[j] == x);
            } else {
                assert(s[s.len() - 1] == x);
            }
        }
    }
}

proof fn lemma_insert_project_len(s: Seq<Project>, p: Project)
    ensures
        insert_project(s, p).len() == s.len() + 1,
    decreases s.len(),
{
    if s.len() > 0 {
        lemma_insert_project_len(s.drop_first(), p);
    }
}

proof fn lemma_insert_project_at(s: Seq<Project>, p: Project, k: int)
    requires
        0 <= k <= s.len(),
        forall|j: int| 0 <= j < k ==> !project_before(p, #[trigger] s[j]),
        k < s.len() ==> project_before(p, s[k]),
    ensures
        insert_project(s, p) == s.insert(k, p),
    decreases s.len(),
{
    if s.len() == 0 {
        assert(s.insert(k, p) =~= seq![p]);
    } else if k == 0 {
        assert(s.insert(0, p) =~= seq![p] + s);
    } else {
        let d = s.drop_first();
        assert forall|j: int| 0 <= j < k - 1 implies !project_before(p, #[trigger] d[j]) by {
            assert(d[j] == s[j + 1]);
        }
        if k - 1 < d.len() {
            assert(d[k - 1] == s[k]);
        }
        assert(!project_before(p, s[0]));
        lemma_insert_project_at(d, p, k - 1);
        assert(seq![s[0]] + d.insert(k - 1, p) =~= s.insert(k, p));
    }
}

fn priority_rank(p: Priority) -> (r: u8)
    ensures
        r as int == p.rank(),
{
    match p {
        Priority::High => 0,
        Priority::Medium => 1,
        Priority::Low => 2,
    }
}

fn id_greater(a: Option<i64>, b: Option<i64>) -> (r: bool)
    ensures
        r == (id_key(a) > id_key(b)),
{
    match (a, b) {
        (Some(x), Some(y)) => x > y,
        (Some(_), None) => true,
        (None, _) => false,
    }
}

/// Whether task `a` is listed before task `b`.
pub fn task_goes_before(a: &Task, b: &Task) -> (r: bool)
    ensures
        r == task_before(*a, *b),
{
    reveal(task_before);
    let pa = priority_rank(a.priority);
    let pb = priority_rank(b.priority);
    pa < pb || (pa == pb && a.created_at > b.created_at) || (pa == pb && a.created_at
        == b.created_at && id_greater(a.id, b.id))
}

/// The tasks in listing order; stable, so tasks that compare equal keep
/// their relative order.
pub fn sort_tasks(tasks: &Vec<Task>) -> (r: Vec<Task>)
    ensures
        r@ == sort_tasks_spec(tasks@),
{
    let mut out: Vec<Task> = Vec::new();
    let mut i: usize = 0;
    while i < tasks.len()
        invariant
            i <= tasks@.len(),
            out@ == sort_tasks_spec(tasks@.take(i as int)),
        decreases tasks@.len() - i,
    {
        let t = tasks[i].duplicate();
        let mut k: usize = 0;
        while k < out.len() && !task_goes_before(&t, &out[k])
            invariant
                k <= out@.len(),
                forall|j: int| 0 <= j < k ==> !task_before(t, #[trigger] out@[j]),
            decreases out@.len() - k,
        {
            k = k + 1;
        }
        proof {
            lemma_insert_task_at(out@, t, k as int);
            assert(tasks@.take(i + 1).drop_last() =~= tasks@.take(i as int));
            assert(tasks@.take(i + 1).last() == t);
        }
        out.insert(k, t);
        i = i + 1;
    }
    assert(tasks@.take(tasks@.len() as int) =~= tasks@);
    out
}

/// Whether text `a` sorts before text `b` (code point order).
pub fn text_lt(a: &str, b: &str) -> (r: bool)
    ensures
        r == text_less(a@, b@),
{
    let n = a.unicode_len();
    let m = b.unicode_len();
    let mut i: usize = 0;
    assert(a@.skip(0) =~= a@);
    assert(b@.skip(0) =~= b@);
    while i < n && i < m
        invariant
            n == a@.len(),
            m == b@.len(),
            i <= n,
            i <= m,
            text_less(a@, b@) == text_less(a@.skip(i as int), b@.skip(i as int)),
        decreases n - i,
    {
        let x = a.get_char(i);
        let y = b.get_char(i);
        proof {
            let sa = a@.skip(i as int);
            let sb = b@.skip(i as int);
            assert(sa[0] == x);
            assert(sb[0] == y);
            assert(sa.drop_first() =~= a@.skip(i + 1));
            assert(sb.drop_first() =~= b@.skip(i + 1));
        }
        if x != y {
            return (x as u32) < (y as u32);
        }
        i = i + 1;
    }
    m > n
}

/// Whether project `a` is listed before project `b`.
pub fn project_goes_before(a: &Project, b: &Project) -> (r: bool)
    ensures
        r == project_before(*a, *b),
{
    reveal(project_before);
    let inbox = crate::model::inbox_name_string();
    let ai = a.name == inbox;
    let bi = b.name == inbox;
    (ai && !bi) || (ai == bi && text_lt(a.name.as_str(), b.name.as_str())) || (ai == bi
        && a.name == b.name && id_greater(a.id, b.id))
}

/// The projects in listing order.
pub fn sort_projects(projects: &Vec<Project>) -> (r: Vec<Project>)
    ensures
        r@ == sort_projects_spec(projects@),
{
    let mut out: Vec<Project> = Vec::new();
    let mut i: usize = 0;
    while i < projects.len()
        invariant
            i <= projects@.len(),
            out@ == sort_projects_spec(projects@.take(i as int)),
        decreases projects@.len() - i,
    {
        let p = projects[i].duplicate();
        let mut k: usize = 0;
        while k < out.len() && !project_goes_before(&p, &out[k])
            invariant
                k <= out@.len(),
                forall|j: int| 0 <= j < k ==> !project_before(p, #[trigger] out@[j]),
            decreases out@.len() - k,
        {
            k = k + 1;
        }
        proof {
            lemma_insert_project_at(out@, p, k as int);
            assert(projects@.take(i + 1).drop_last() =~= projects@.take(i as int));
            assert(projects@.take(i + 1).last() == p);
        }
        out.insert(k, p);
        i = i + 1;
    }
    assert(projects@.take(projects@.len() as int) =~= projects@);
    out
}

} // verus!

verus! {

proof fn lemma_task_before_order(a: Task, b: Task, c: Task)
    ensures
        !(task_before(a, b) && task_before(b, a)),
        task_before(a, b) && task_before(b, c) ==> task_before(a,
            c,
        ),
{
    reveal(task_before);
}

proof fn lemma_insert_task_sorted(s: Seq<Task>, t: Task)
    requires
        tasks_sorted(s),
    ensures
        tasks_sorted(insert_task(s, t)),
    decreases s.len(),
{
    let r = insert_task(s, t);
    if s.len() == 0 {
    } else if task_before(t, s[0]) {
        assert forall|i: int, j: int| 0 <= i < j < r.len() implies !task_before(#[trigger] r[j],
            #[trigger] r[i],
        ) by {
            if i == 0 {
                assert(r[j] == s[j - 1]);
                lemma_task_before_order(s[j - 1], t, s[0]);
                if j - 1 > 0 {
                    assert(!task_before(s[j - 1], s[0]));
                }
            } else {
                assert(r[i] == s[i - 1] && r[j] == s[j - 1]);
            }
        }
    } else {
        let d = s.drop_first();
        assert forall|i: int, j: int| 0 <= i < j < d.len() implies !task_before(#[trigger] d[j],
            #[trigger] d[i],
        ) by {
            assert(d[i] == s[i + 1] && d[j] == s[j + 1]);
        }
        lemma_insert_task_sorted(d, t);
        lemma_insert_task_contains(d, t);
        let rest = insert_task(d, t);
        assert(r == seq![s[0]] + rest);
        assert forall|i: int, j: int| 0 <= i < j < r.len() implies !task_before(#[trigger] r[j],
            #[trigger] r[i],
        ) by {
            if i == 0 {
                let x = r[j];
                assert(x == rest[j - 1]);
                assert(rest.contains(x));
                if x != t {
                    assert(d.contains(x));
                    let k = choose|k: int| 0 <= k < d.len() && d[k] == x;
                    assert(s[k + 1] == x);
                }
            } else {
                assert(r[i] == rest[i - 1] && r[j] == rest[j - 1]);
            }
        }
    }
}

/// The listing order is a proper sort: no task is listed after one it goes
/// before.
pub proof fn lemma_sort_tasks_sorted(s: Seq<Task>)
    ensures
        tasks_sorted(sort_tasks_spec(s)),
    decreases s.len(),
{
    if s.len() > 0 {
        lemma_sort_tasks_sorted(s.drop_last());
        lemma_insert_task_sorted(sort_tasks_spec(s.drop_last()),
            s.last(),
        );
    }
}

/// Code point order of texts is a strict order.
proof fn lemma_text_less_order(a: Seq<char>, b: Seq<char>, c: Seq<char>)
    ensures
        !text_less(a, a),
        !(text_less(a, b) && text_less(b, a)),
        text_less(a, b) && text_less(b, c) ==> text_less(a, c),
    decreases a.len(),
{
    if a.len() > 0 && b.len() > 0 && c.len() > 0 {
        lemma_text_less_order(a.drop_first(), b.drop_first(), c.drop_first());
    } else if a.len() > 0 && b.len() > 0 {
        lemma_text_less_order(a.drop_first(), b.drop_first(), b.drop_first());
    } else if a.len() > 0 {
        lemma_text_less_order(a.drop_first(), a.drop_first(), a.drop_first());
    }
}

proof fn lemma_project_before_order(a: Project, b: Project, c: Project)
    ensures
        !(project_before(a, b) && project_before(b, a)),
        project_before(a, b) && project_before(b, c) ==> project_before(a, c),
{
    reveal(project_before);
    lemma_text_less_order(a.name@, b.name@, c.name@);
    lemma_text_less_order(b.name@, a.name@, c.name@);
    lemma_text_less_order(a.name@, c.name@, b.name@);
}

proof fn lemma_insert_project_sorted(s: Seq<Project>, p: Project)
    requires
        projects_sorted(s),
    ensures
        projects_sorted(insert_project(s, p)),
    decreases s.len(),
{
    let r = insert_project(s, p);
    if s.len() == 0 {
    } else if project_before(p, s[0]) {
        assert forall|i: int, j: int| 0 <= i < j < r.len() implies !project_before(
            #[trigger] r[j],
            #[trigger] r[i],
        ) by {
            if i == 0 {
                assert(r[j] == s[j - 1]);
                lemma_project_before_order(s[j - 1], p, s[0]);
                if j - 1 > 0 {
                    assert(!project_before(s[j - 1], s[0]));
                }
            } else {
                assert(r[i] == s[i - 1] && r[j] == s[j - 1]);
            }
        }
    } else {
        let d = s.drop_first();
        assert forall|i: int, j: int| 0 <= i < j < d.len() implies !project_before(
            #[trigger] d[j],
            #[trigger] d[i],
        ) by {
            assert(d[i] == s[i + 1] && d[j] == s[j + 1]);
        }
        lemma_insert_project_sorted(d, p);
        lemma_insert_project_contains(d, p);
        let rest = insert_project(d, p);
        assert(r == seq![s[0]] + rest);
        assert forall|i: int, j: int| 0 <= i < j < r.len() implies !project_before(
            #[trigger] r[j],
            #[trigger] r[i],
        ) by {
            if i == 0 {
                let x = r[j];
                assert(x == rest[j - 1]);
                assert(rest.contains(x));
                if x != p {
                    assert(d.contains(x));
                    let k = choose|k: int| 0 <= k < d.len() && d[k] == x;
                    assert(s[k + 1] == x);
                }
            } else {
                assert(r[i] == rest[i - 1] && r[j] == rest[j - 1]);
            }
        }
    }
}

/// The project listing order is a proper sort: no project is listed after
/// one it goes before.
pub proof fn lemma_sort_projects_sorted(s: Seq<Project>)
    ensures
        projects_sorted(sort_projects_spec(s)),
    decreases s.len(),
{
    if s.len() > 0 {
        lemma_sort_projects_sorted(s.drop_last());
        lemma_insert_project_sorted(sort_projects_spec(s.drop_last()), s.last());
    }
}

proof fn lemma_insert_project_keeps(s: Seq<Project>, p: Project)
    ensures
        insert_project(s, p).contains(p),
        forall|x: Project| s.contains(x) ==> #[trigger] insert_project(s, p).contains(x),
    decreases s.len(),
{
    let r = insert_project(s, p);
    if s.len() == 0 {
        assert(r[0] == p);
    } else if project_before(p, s[0]) {
        assert(r =~= seq![p] + s);
        assert(r[0] == p);
        assert forall|x: Project| s.contains(x) implies #[trigger] r.contains(x) by {
            let j = choose|j: int| 0 <= j < s.len() && s[j] == x;
            assert(r[j + 1] == x);
        }
    } else {
        let d = s.drop_first();
        lemma_insert_project_keeps(d, p);
        let rest = insert_project(d, p);
        assert(r =~= seq![s[0]] + rest);
        let kp = choose|k: int| 0 <= k < rest.len() && rest[k] == p;
        assert(r[kp + 1] == p);
        assert forall|x: Project| s.contains(x) implies #[trigger] r.contains(x) by {
            if x == s[0] {
                assert(r[0] == x);
            } else {
                let j = choose|j: int| 0 <= j < s.len() && s[j] == x;
                assert(d[j - 1] == x);
                assert(rest.contains(x));
                let k = choose|k: int| 0 <= k < rest.len() && rest[k] == x;
                assert(r[k + 1] == x);
            }
        }
    }
}

/// Every project of the unsorted sequence is in the sorted one.
pub proof fn lemma_sort_projects_keeps(s: Seq<Project>)
    ensures
        forall|x: Project| s.contains(x) ==> #[trigger] sort_projects_spec(s).contains(x),
    decreases s.len(),
{
    if s.len() > 0 {
        lemma_sort_projects_keeps(s.drop_last());
        let prev = sort_projects_spec(s.drop_last());
        lemma_insert_project_keeps(prev, s.last());
        assert forall|x: Project| s.contains(x) implies #[trigger] sort_projects_spec(s).contains(x) by {
            let j = choose|j: int| 0 <= j < s.len() && s[j] == x;
            if j < s.len() - 1 {
                assert(s.drop_last()[j] == x);
                assert(prev.contains(x));
            }
        }
    }
}

} // verus!
