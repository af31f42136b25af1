//! Text layout of the interface: word wrapping of titles, the fixed parts of
//! a task row, pane titles and the footer. Drawing happens elsewhere.

use vstd::prelude::*;

use crate::commands::header_text;
use crate::model::{Status, Task};
use crate::text::{
    append, char_count, char_is_whitespace, decimal, is_white_space, pad_right, padded, push_char,
    spaces, to_owned_string, usize_text, views,
};
use crate::tui::app::{App, Mode};

verus! {

broadcast use vstd::seq::group_seq_axioms;

/// Words found so far and the word being read.
pub struct WordScan {
    pub words: Seq<Seq<char>>,
    pub current: Seq<char>,
}

/// One character more of a scan: white space ends the current word.
pub open spec fn word_step(st: WordScan, c: char) -> WordScan {
    if is_white_space(c) {
        if st.current.len() > 0 {
            WordScan { words: st.words.push(st.current), current: Seq::empty() }
        } else {
            st
        }
    } else {
        WordScan { words: st.words, current: st.current.push(c) }
    }
}

/// A scan over the whole text.
pub open spec fn word_scan(s: Seq<char>) -> WordScan
    decreases s.len(),
{
    if s.len() == 0 {
        WordScan { words: Seq::empty(), current: Seq::empty() }
    } else {
        word_step(word_scan(s.drop_last()), s.last())
    }
}

/// The maximal runs of non-white-space characters (`str::split_whitespace`).
pub open spec fn words(s: Seq<char>) -> Seq<Seq<char>> {
    let st = word_scan(s);
    if st.current.len() > 0 {
        st.words.push(st.current)
    } else {
        st.words
    }
}

/// The text cut into pieces of `w` characters (the last may be shorter).
pub open spec fn chunks(s: Seq<char>, w: nat) -> Seq<Seq<char>>
    decreases s.len(),
{
    if w == 0 || s.len() == 0 {
        Seq::empty()
    } else if s.len() <= w {
        seq![s]
    } else {
        seq![s.take(w as int)] + chunks(s.skip(w as int), w)
    }
}

/// Finished lines and the line being filled.
pub struct WrapState {
    pub lines: Seq<Seq<char>>,
    pub line: Seq<char>,
}

/// One word more: a word wider than the line is hard split on lines of its
/// own; a word that does not fit ends the current line; otherwise it joins
/// the line after a space.
pub open spec fn wrap_step(st: WrapState, word: Seq<char>, w: nat) -> WrapState {
    if word.len() > w {
        let lines = if st.line.len() > 0 {
            st.lines.push(st.line)
        } else {
            st.lines
        };
        WrapState { lines: lines + chunks(word, w), line: Seq::empty() }
    } else {
        let extra: nat = if st.line.len() == 0 {
            0
        } else {
            1
        };
        let full = st.line.len() + extra + word.len() > w;
        let lines = if full {
            st.lines.push(st.line)
        } else {
            st.lines
        };
        let line = if full {
            Seq::empty()
        } else {
            st.line
        };
        WrapState { lines, line: if line.len() > 0 { line.push(' ') + word } else { line + word } }
    }
}

/// Greedy wrapping of a sequence of words.
pub open spec fn wrap_fold(ws: Seq<Seq<char>>, w: nat) -> WrapState
    decreases ws.len(),
{
    if ws.len() == 0 {
        WrapState { lines: Seq::empty(), line: Seq::empty() }
    } else {
        wrap_step(wrap_fold(ws.drop_last(), w), ws.last(), w)
    }
}

/// The width actually used: at least one column.
pub open spec fn wrap_width(width: usize) -> nat {
    if width == 0 {
        1
    } else {
        width as nat
    }
}

/// The lines of a greedy word wrap of the title to `width` columns
/// (at least one): at least one line, an empty one for a title without words.
pub open spec fn wrapped(title: Seq<char>, width: usize) -> Seq<Seq<char>> {
    let st = wrap_fold(words(title), wrap_width(width));
    let lines = if st.line.len() > 0 {
        st.lines.push(st.line)
    } else {
        st.lines
    };
    if lines.len() == 0 {
        seq![Seq::empty()]
    } else {
        lines
    }
}

/// The words of a text, split at white space.
pub fn split_words(s: &str) -> (r: Vec<String>)
    ensures
        views(r@) == words(s@),
{
    let n = s.unicode_len();
    let mut out: Vec<String> = Vec::new();
    let mut cur = String::new();
    let mut i: usize = 0;
    while i < n
        invariant
            n == s@.len(),
            i <= n,
            views(out@) == word_scan(s@.take(i as int)).words,
            cur@ == word_scan(s@.take(i as int)).current,
        decreases n - i,
    {
        let c = s.get_char(i);
        proof {
            assert(s@.take(i + 1).drop_last() =~= s@.take(i as int));
            assert(s@.take(i + 1).last() == c);
        }
        if char_is_whitespace(c) {
            if cur.as_str().unicode_len() > 0 {
                let mut word = String::new();
                std::mem::swap(&mut word, &mut cur);
                out.push(word);
                assert(views(out@) =~= word_scan(s@.take(i + 1)).words);
            }
        } else {
            push_char(&mut cur, c);
        }
        i = i + 1;
    }
    assert(s@.take(n as int) =~= s@);
    if cur.as_str().unicode_len() > 0 {
        out.push(cur);
        assert(views(out@) =~= words(s@));
    }
    out
}

proof fn lemma_chunks_step(s: Seq<char>, w: nat, i: int)
    requires
        w > 0,
        0 <= i < s.len(),
    ensures
        chunks(s.skip(i), w) == seq![s.subrange(i, if i + w < s.len() { i + w } else { s.len() as int })]
            + chunks(s.skip(i + w), w) || (i + w >= s.len() && chunks(s.skip(i), w) == seq![
            s.subrange(i, s.len() as int),
        ]),
{
    let t = s.skip(i);
    if t.len() <= w {
        assert(t =~= s.subrange(i, s.len() as int));
    } else {
        assert(t.take(w as int) =~= s.subrange(i, i + w));
        assert(t.skip(w as int) =~= s.skip(i + w));
    }
}

/// Split an over-long word into `width`-sized pieces (by characters).
pub fn hard_split(word: &str, width: usize) -> (r: Vec<String>)
    requires
        width > 0,
    ensures
        views(r@) == chunks(word@, width as nat),
{
    let n = word.unicode_len();
    let mut out: Vec<String> = Vec::new();
    let mut i: usize = 0;
    assert(word@.skip(0) =~= word@);
    while i < n
        invariant
            width > 0,
            n == word@.len(),
            i <= n,
            views(out@) + chunks(word@.skip(i as int), width as nat) == chunks(word@, width as nat),
        decreases n - i,
    {
        let end = if n - i > width {
            i + width
        } else {
            n
        };
        let piece = word.substring_char(i, end);
        proof {
            lemma_chunks_step(word@, width as nat, i as int);
        }
        out.push(piece.to_owned());
        proof {
            if i + width >= n {
                assert(word@.skip(end as int).len() == 0);
                assert(chunks(word@.skip(end as int), width as nat).len() == 0);
            }
            assert(views(out@) =~= views(out@.drop_last()).push(piece@));
        }
        i = end;
    }
    assert(word@.skip(n as int).len() == 0);
    assert(views(out@) + chunks(word@.skip(n as int), width as nat) =~= views(out@));
    out
}

/// Greedy word-wrap to `width` columns. Words longer than `width` are hard
/// split so a single long token can't overflow the pane.
pub fn wrap_title(title: &str, width: usize) -> (r: Vec<String>)
    ensures
        views(r@) == wrapped(title@, width),
{
    let width = if width == 0 {
        1
    } else {
        width
    };
    let ws = split_words(title);
    let mut lines: Vec<String> = Vec::new();
    let mut line = String::new();
    let mut i: usize = 0;
    while i < ws.len()
        invariant
            width > 0,
            i <= ws@.len(),
            views(lines@) == wrap_fold(views(ws@).take(i as int), width as nat).lines,
            line@ == wrap_fold(views(ws@).take(i as int), width as nat).line,
        decreases ws@.len() - i,
    {
        let word = ws[i].as_str();
        let wl = char_count(word);
        let ghost prev = wrap_fold(views(ws@).take(i as int), width as nat);
        proof {
            assert(views(ws@).take(i + 1).drop_last() =~= views(ws@).take(i as int));
            assert(views(ws@).take(i + 1).last() == word@);
        }
        if wl > width {
            if char_count(line.as_str()) > 0 {
                let mut done = String::new();
                std::mem::swap(&mut done, &mut line);
                lines.push(done);
            }
            let pieces = hard_split(word, width);
            let ghost before = views(lines@);
            let mut k: usize = 0;
            while k < pieces.len()
                invariant
                    k <= pieces@.len(),
                    views(lines@) == before + views(pieces@).take(k as int),
                decreases pieces@.len() - k,
            {
                let ghost old_lines = lines@;
                lines.push(pieces[k].clone());
                assert(views(lines@) =~= views(old_lines).push(pieces@[k as int]@));
                assert(views(pieces@).take(k + 1) =~= views(pieces@).take(k as int).push(pieces@[k as int]@));
                assert(views(lines@) =~= before + views(pieces@).take(k + 1));
                k = k + 1;
            }
            assert(views(pieces@).take(pieces@.len() as int) =~= views(pieces@));
            line = String::new();
            assert(views(lines@) =~= wrap_fold(views(ws@).take(i + 1), width as nat).lines);
        } else {
            let ll = char_count(line.as_str());
            let extra: usize = if ll == 0 {
                0
            } else {
                1
            };
            if ll as u128 + extra as u128 + wl as u128 > width as u128 {
                let mut done = String::new();
                std::mem::swap(&mut done, &mut line);
                lines.push(done);
                assert(views(lines@) =~= prev.lines.push(prev.line));
            }
            if char_count(line.as_str()) > 0 {
                push_char(&mut line, ' ');
            }
            append(&mut line, word);
        }
        i = i + 1;
    }
    assert(views(ws@).take(ws@.len() as int) =~= views(ws@));
    if char_count(line.as_str()) > 0 {
        lines.push(line);
        assert(views(lines@) =~= views(lines@).drop_last().push(lines@.last()@));
    }
    if lines.len() == 0 {
        lines.push(String::new());
        assert(views(lines@) =~= seq![Seq::<char>::empty()]);
    }
    lines
}

} // verus!

verus! {

/// Usable text width inside a bordered list of `width` columns: the two
/// borders and a small margin for the selection symbol come off.
pub fn inner_width(width: u16) -> (r: usize)
    ensures
        r == if width >= 4 {
            width - 4
        } else {
            0
        },
{
    if width >= 4 {
        (width - 4) as usize
    } else {
        0
    }
}

/// The checkbox of a task row.
pub open spec fn checkbox(s: Status) -> Seq<char> {
    match s {
        Status::Open => "[ ]"@,
        Status::Done => "[x]"@,
    }
}

/// The fixed leading pieces of a task row: checkbox, priority (padded to
/// six), and the `@project` tag when a project name is given.
pub open spec fn row_prefix_spec(t: Task, project: Option<Seq<char>>) -> Seq<Seq<char>> {
    let base = seq![checkbox(t.status) + " "@, pad_right(t.priority.tag(), 6) + " "@];
    match project {
        Some(n) => base.push("@"@ + n + " "@),
        None => base,
    }
}

/// Total number of characters of some pieces.
pub open spec fn total_len(pieces: Seq<Seq<char>>) -> nat
    decreases pieces.len(),
{
    if pieces.len() == 0 {
        0
    } else {
        total_len(pieces.drop_last()) + pieces.last().len()
    }
}

/// The leading pieces of a task row.
pub fn row_prefix(task: &Task, project: Option<&str>) -> (r: Vec<String>)
    ensures
        views(r@) == row_prefix_spec(*task, crate::commands::opt_view(project)),
{
    let mark = match task.status {
        Status::Open => "[ ]",
        Status::Done => "[x]",
    };
    let mut a = to_owned_string(mark);
    append(&mut a, " ");
    let mut b = padded(task.priority.as_tag(), 6);
    append(&mut b, " ");
    let mut out: Vec<String> = Vec::new();
    out.push(a);
    out.push(b);
    match project {
        Some(name) => {
            let mut c = to_owned_string("@");
            append(&mut c, name);
            append(&mut c, " ");
            out.push(c);
        },
        None => {},
    }
    assert(views(out@) =~= row_prefix_spec(*task, crate::commands::opt_view(project)));
    out
}

/// How a task row is laid out: the leading pieces on its first line, the
/// title's wrapped lines, and the indent of continuation lines (as wide as
/// the leading pieces).
pub struct TaskRowLayout {
    pub prefix: Vec<String>,
    pub indent: String,
    pub chunks: Vec<String>,
}

/// The width left for the title: the pane width less the leading pieces,
/// but never under ten columns.
pub open spec fn title_width(width: usize, prefix_len: nat) -> usize {
    let left = if width >= prefix_len {
        (width - prefix_len) as usize
    } else {
        0usize
    };
    if left < 10 {
        10
    } else {
        left
    }
}

fn title_width_exec(width: usize, prefix_width: usize, Ghost(total): Ghost<nat>) -> (r: usize)
    requires
        prefix_width == if total > usize::MAX { usize::MAX as nat } else { total },
    ensures
        r == title_width(width, total),
{
    let left = width.saturating_sub(prefix_width);
    if left < 10 {
        10
    } else {
        left
    }
}

proof fn lemma_total_len_push(pieces: Seq<Seq<char>>, i: int)
    requires
        0 <= i < pieces.len(),
    ensures
        total_len(pieces.take(i + 1)) == total_len(pieces.take(i)) + pieces[i].len(),
{
    assert(pieces.take(i + 1).drop_last() =~= pieces.take(i));
}

/// Lay out a task row for a pane `width` columns wide. When `project` is
/// given (compact all-projects view), the row shows a `@project` tag.
pub fn task_row(task: &Task, project: Option<&str>, width: usize) -> (r: TaskRowLayout)
    ensures
        views(r.prefix@) == row_prefix_spec(*task, crate::commands::opt_view(project)),
        r.indent@ == spaces(total_len(views(r.prefix@))),
        views(r.chunks@) == wrapped(
            task.title@,
            title_width(width, total_len(views(r.prefix@))),
        ),
{
    let prefix = row_prefix(task, project);
    let mut prefix_width: usize = 0;
    let mut indent = String::new();
    let mut i: usize = 0;
    while i < prefix.len()
        invariant
            i <= prefix@.len(),
            indent@ == spaces(total_len(views(prefix@).take(i as int))),
            prefix_width == if total_len(views(prefix@).take(i as int)) > usize::MAX {
                usize::MAX as nat
            } else {
                total_len(views(prefix@).take(i as int))
            },
        decreases prefix@.len() - i,
    {
        let piece = prefix[i].as_str();
        let n = char_count(piece);
        let ghost before = indent@;
        let mut j: usize = 0;
        while j < n
            invariant
                n == piece@.len(),
                j <= n,
                indent@ == before + spaces(j as nat),
            decreases n - j,
        {
            push_char(&mut indent, ' ');
            j = j + 1;
            assert(indent@ =~= before + spaces(j as nat));
        }
        proof {
            lemma_total_len_push(views(prefix@), i as int);
            assert(views(prefix@)[i as int] == piece@);
            assert(indent@ =~= spaces(total_len(views(prefix@).take(i + 1))));
        }
        prefix_width = prefix_width.saturating_add(n);
        i = i + 1;
    }
    assert(views(prefix@).take(prefix@.len() as int) =~= views(prefix@));
    let avail = title_width_exec(width, prefix_width, Ghost(total_len(views(prefix@))));
    let chunks = wrap_title(task.title.as_str(), avail);
    TaskRowLayout { prefix, indent, chunks }
}

} // verus!

verus! {

/// The footer's title for a mode.
pub open spec fn footer_title(mode: Mode) -> Seq<char> {
    match mode {
        Mode::AddingTask(_) => " new task (enter=save esc=cancel) "@,
        Mode::AddingProject(_) => " new project (enter=save esc=cancel) "@,
        Mode::PickingProject => " pick project "@,
        Mode::Normal => " status "@,
    }
}

/// The footer's text for a mode: the input with a cursor mark while typing,
/// the picker's keys while picking, else the status line.
pub open spec fn footer_body(mode: Mode, status: Seq<char>) -> Seq<char> {
    match mode {
        Mode::AddingTask(b) => b@.push('▏'),
        Mode::AddingProject(b) => b@.push('▏'),
        Mode::PickingProject => "j/k move · enter select · esc cancel"@,
        Mode::Normal => status,
    }
}

/// Footer shows the active input box, otherwise the status hint: its title
/// and its text.
pub fn footer_text(mode: &Mode, status: &str) -> (r: (String, String))
    ensures
        r.0@ == footer_title(*mode),
        r.1@ == footer_body(*mode, status@),
{
    match mode {
        Mode::AddingTask(buf) => {
            let mut body = buf.clone();
            push_char(&mut body, '▏');
            (to_owned_string(" new task (enter=save esc=cancel) "), body)
        },
        Mode::AddingProject(buf) => {
            let mut body = buf.clone();
            push_char(&mut body, '▏');
            (to_owned_string(" new project (enter=save esc=cancel) "), body)
        },
        Mode::PickingProject => (
            to_owned_string(" pick project "),
            to_owned_string("j/k move · enter select · esc cancel"),
        ),
        Mode::Normal => (to_owned_string(" status "), to_owned_string(status)),
    }
}

/// The task pane's title: what it shows and how many tasks.
pub open spec fn tasks_title_text(app: App) -> Seq<char> {
    let scope = if app.compact {
        "to do"@
    } else if app.selected_project < app.projects@.len() {
        app.projects@[app.selected_project as int].name@
    } else {
        "all"@
    };
    " "@ + scope + " · "@ + decimal(app.tasks@.len() as int) + " "@
}

/// The task pane's title, e.g. ` Work · 3 `.
pub fn tasks_title(app: &App) -> (r: String)
    ensures
        r@ == tasks_title_text(*app),
{
    let mut s = to_owned_string(" ");
    if app.compact {
        append(&mut s, "to do");
    } else {
        match app.current_project() {
            Some(p) => append(&mut s, p.name.as_str()),
            None => append(&mut s, "all"),
        }
    }
    append(&mut s, " · ");
    let n = usize_text(app.tasks.len());
    append(&mut s, n.as_str());
    append(&mut s, " ");
    s
}

/// An overview header's text: `@name (count)`.
pub fn header_label(name: &str, count: usize) -> (r: String)
    ensures
        r@ == header_text(name@, count as nat),
{
    let mut s = to_owned_string("@");
    append(&mut s, name);
    append(&mut s, " (");
    let n = usize_text(count);
    append(&mut s, n.as_str());
    append(&mut s, ")");
    s
}

/// What fills the area above the footer.
#[derive(Debug, Clone, Copy, PartialEq, Eq, Structural)]
pub enum Screen {
    /// The full-width list to pick the project of a new task.
    ProjectPicker,
    /// The grouped overview of all projects.
    Overview,
    /// The task list alone (compact view, no sidebar).
    TasksOnly,
    /// The project sidebar beside the task list.
    Panes,
}

/// The screen for a state: the picker while picking, else the overview when
/// open, else the task list alone in compact view, else both panes.
pub open spec fn screen_spec(app: App) -> Screen {
    if app.mode is PickingProject {
        Screen::ProjectPicker
    } else if app.show_overview {
        Screen::Overview
    } else if app.compact {
        Screen::TasksOnly
    } else {
        Screen::Panes
    }
}

/// Which screen to draw.
pub fn screen(app: &App) -> (r: Screen)
    ensures
        r == screen_spec(*app),
{
    if matches!(app.mode, Mode::PickingProject) {
        Screen::ProjectPicker
    } else if app.show_overview {
        Screen::Overview
    } else if app.compact {
        Screen::TasksOnly
    } else {
        Screen::Panes
    }
}

/// The `@project` tag of a task row: shown only in compact view, which
/// spans every project; it names the task's project.
pub fn row_project<'a>(app: &'a App, task: &Task) -> (r: Option<&'a str>)
    ensures
        app.compact ==> app.project_name_result(task.project_id, crate::commands::opt_view(r)),
        !app.compact ==> r is None,
{
    if app.compact {
        app.project_name(task.project_id)
    } else {
        None
    }
}

} // verus!
