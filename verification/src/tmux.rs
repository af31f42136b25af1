//! tmux integration: a compact status-line string and the popup config
//! snippet.

use vstd::prelude::*;

use crate::error::TodoError;
use crate::model::Status;
use crate::store::memory::TaskStore;
use crate::store::{open_query, ProjectFilter, StatusFilter, StoreView, TaskQuery};
use crate::text::{append, decimal, to_owned_string, truncated, usize_text};

verus! {

broadcast use vstd::seq::group_seq_axioms;

/// The status line: `☐ n` with the open count, followed by `  ⚑ title` with
/// the first open task in listing order (its title cut to 24 characters).
pub open spec fn status_text(v: StoreView) -> Seq<char> {
    let n = v.open_count();
    let open = v.listing(open_query());
    if n == 0 {
        "☐ 0"@
    } else if open.len() > 0 {
        "☐ "@ + decimal(n as int) + "  ⚑ "@ + truncated(open[0].title@, 24)
    } else {
        "☐ "@ + decimal(n as int)
    }
}

/// One-line summary for the tmux status bar, e.g. `☐ 3  ⚑ deploy site`.
/// Shows open count and the single highest-priority open task's title.
pub fn status_line(store: &TaskStore) -> (r: Result<String, TodoError>)
    requires
        store.wf(),
    ensures
        r matches Ok(s) && s@ == status_text(store@),
{
    let open = store.open_count()?;
    if open == 0 {
        return Ok(to_owned_string("☐ 0"));
    }
    let next = top_open_title(store)?;
    let mut s = to_owned_string("☐ ");
    let n = usize_text(open);
    append(&mut s, n.as_str());
    match next {
        Some(title) => {
            append(&mut s, "  ⚑ ");
            let t = truncate(title.as_str(), 24);
            append(&mut s, t.as_str());
            Ok(s)
        },
        None => Ok(s),
    }
}

/// Title of the highest-priority, then newest, open task.
fn top_open_title(store: &TaskStore) -> (r: Result<Option<String>, TodoError>)
    requires
        store.wf(),
    ensures
        match r {
            Ok(Some(t)) => store@.listing(open_query()).len() > 0 && t@ == store@.listing(
                open_query(),
            )[0].title@,
            Ok(None) => store@.listing(open_query()).len() == 0,
            Err(_) => false,
        },
{
    let q = TaskQuery { status: StatusFilter::Only(Status::Open), project: ProjectFilter::Any };
    let open = store.list(q)?;
    // list() already orders high-priority first; take the head.
    if open.len() > 0 {
        Ok(Some(open[0].title.clone()))
    } else {
        Ok(None)
    }
}

/// Clip overly long titles so the status bar never wraps. Adds an ellipsis.
pub fn truncate(s: &str, max: usize) -> (r: String)
    ensures
        r@ == truncated(s@, max as nat),
{
    let n = s.unicode_len();
    if n <= max {
        return s.to_owned();
    }
    let keep = if max > 0 {
        max - 1
    } else {
        0
    };
    let kept = s.substring_char(0, keep);
    let mut out = kept.to_owned();
    crate::text::push_char(&mut out, '…');
    assert(s@.subrange(0, keep as int) =~= s@.take(keep as int));
    out
}

/// A clipped title never runs past `max` characters (for `max` of at least
/// one), and a title that fits is kept whole.
pub proof fn law_truncate_fits(s: Seq<char>, max: nat)
    requires
        max >= 1,
    ensures
        truncated(s, max).len() <= max,
        s.len() <= max ==> truncated(s, max) == s,
{
}

/// The tmux snippet: a popup binding and a status-bar segment.
pub open spec fn config_snippet_text(binary: Seq<char>) -> Seq<char> {
    "# todo — tmux integration\n"@ + "# Popup TUI on prefix + T\n"@
        + "bind T display-popup -E -w 80% -h 80% '"@ + binary + " tui'\n"@
        + "# Open-task summary in the status bar (refreshes every 30s)\n"@
        + "set -g status-right '#("@ + binary + " status) | %H:%M'\n"@ + "set -g status-interval 30\n"@
}

/// tmux.conf snippet wiring a popup launcher and a status-bar refresh.
/// Printed by `todo tmux-config` for the user to paste into ~/.tmux.conf.
pub fn config_snippet(binary: &str) -> (r: String)
    ensures
        r@ == config_snippet_text(binary@),
{
    let mut s = to_owned_string("# todo — tmux integration\n");
    append(&mut s, "# Popup TUI on prefix + T\n");
    append(&mut s, "bind T display-popup -E -w 80% -h 80% '");
    append(&mut s, binary);
    append(&mut s, " tui'\n");
    append(&mut s, "# Open-task summary in the status bar (refreshes every 30s)\n");
    append(&mut s, "set -g status-right '#(");
    append(&mut s, binary);
    append(&mut s, " status) | %H:%M'\n");
    append(&mut s, "set -g status-interval 30\n");
    s
}

} // verus!
