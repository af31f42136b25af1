//! Core domain types for tasks and projects.

use vstd::prelude::*;

use crate::text::{
    append, debug_quoted, debug_text, plain_text, is_blank, str_eq, to_owned_string, trim, trimmed,
};

verus! {

/// Name of the project every store seeds and never deletes.
pub const INBOX_NAME: &'static str = "Inbox";

/// The Inbox project's name as characters.
pub open spec fn inbox_name() -> Seq<char> {
    seq!['I', 'n', 'b', 'o', 'x']
}

/// `INBOX_NAME` as an owned string.
pub fn inbox_name_string() -> (r: String)
    ensures
        r@ == inbox_name(),
{
    let mut s = String::new();
    crate::text::push_char(&mut s, 'I');
    crate::text::push_char(&mut s, 'n');
    crate::text::push_char(&mut s, 'b');
    crate::text::push_char(&mut s, 'o');
    crate::text::push_char(&mut s, 'x');
    assert(s@ =~= inbox_name());
    s
}

/// Lifecycle state of a task.
#[derive(Debug, Clone, Copy, PartialEq, Eq, Structural)]
pub enum Status {
    Open,
    Done,
}

impl Status {
    /// The short text tag a status is stored and parsed as.
    pub open spec fn tag(self) -> Seq<char> {
        match self {
            Status::Open => "open"@,
            Status::Done => "done"@,
        }
    }

    /// The other status: open becomes done and done becomes open.
    pub open spec fn toggled(self) -> Status {
        match self {
            Status::Open => Status::Done,
            Status::Done => Status::Open,
        }
    }

    /// The status a text tag stands for, if any.
    pub open spec fn parsed(s: Seq<char>) -> Option<Status> {
        if s == "open"@ {
            Some(Status::Open)
        } else if s == "done"@ {
            Some(Status::Done)
        } else {
            None
        }
    }

    /// The stored text tag of a status.
    pub fn as_tag(self) -> (r: &'static str)
        ensures
            r@ == self.tag(),
    {
        match self {
            Status::Open => "open",
            Status::Done => "done",
        }
    }

    /// Parses a stored tag; anything but `open` or `done` is refused with a
    /// message that quotes the bad value.
    pub fn from_str(s: &str) -> (r: Result<Status, String>)
        ensures
            match Status::parsed(s@) {
                Some(st) => r == Ok::<Status, String>(st),
                None => r matches Err(msg) && msg@ == "invalid status tag "@ + debug_quoted(s@)
                    + ", expected \"open\" or \"done\""@,
            },
            Status::parsed(s@) is None && plain_text(s@) ==> (r matches Err(msg) && msg@
                == "invalid status tag \""@ + s@ + "\", expected \"open\" or \"done\""@),
    {
        if str_eq(s, "open") {
            Ok(Status::Open)
        } else if str_eq(s, "done") {
            Ok(Status::Done)
        } else {
            let quoted = debug_text(s);
            let msg = invalid_status_message(quoted.as_str());
            proof {
                if plain_text(s@) {
                    reveal_strlit("invalid status tag ");
                    reveal_strlit("invalid status tag \"");
                    reveal_strlit(", expected \"open\" or \"done\"");
                    reveal_strlit("\", expected \"open\" or \"done\"");
                    assert(msg@ =~= "invalid status tag \""@ + s@ + "\", expected \"open\" or \"done\""@);
                }
            }
            Err(msg)
        }
    }
}

/// Priority drives ordering and color in the terminal interface.
#[derive(Debug, Clone, Copy, PartialEq, Eq, Structural, PartialOrd, Ord)]
pub enum Priority {
    Low,
    Medium,
    High,
}

impl Priority {
    /// The text tag a priority is stored, shown and parsed as.
    pub open spec fn tag(self) -> Seq<char> {
        match self {
            Priority::Low => "low"@,
            Priority::Medium => "medium"@,
            Priority::High => "high"@,
        }
    }

    /// Listing rank: high first (0), then medium (1), then low (2).
    pub open spec fn rank(self) -> int {
        match self {
            Priority::High => 0,
            Priority::Medium => 1,
            Priority::Low => 2,
        }
    }

    /// One step up, wrapping from high back to low.
    pub open spec fn cycled(self) -> Priority {
        match self {
            Priority::Low => Priority::Medium,
            Priority::Medium => Priority::High,
            Priority::High => Priority::Low,
        }
    }

    /// The priority a text tag stands for, if any (`med` is an alias of
    /// `medium`).
    pub open spec fn parsed(s: Seq<char>) -> Option<Priority> {
        if s == "low"@ {
            Some(Priority::Low)
        } else if s == "medium"@ || s == "med"@ {
            Some(Priority::Medium)
        } else if s == "high"@ {
            Some(Priority::High)
        } else {
            None
        }
    }

    /// The text tag of a priority.
    pub fn as_tag(self) -> (r: &'static str)
        ensures
            r@ == self.tag(),
    {
        match self {
            Priority::Low => "low",
            Priority::Medium => "medium",
            Priority::High => "high",
        }
    }

    /// Parses `low`, `medium` (or its alias `med`) and `high`; anything else
    /// is refused with a message that quotes the bad value.
    pub fn from_str(s: &str) -> (r: Result<Priority, String>)
        ensures
            match Priority::parsed(s@) {
                Some(p) => r == Ok::<Priority, String>(p),
                None => r matches Err(msg) && msg@ == "invalid priority "@ + debug_quoted(s@)
                    + ", expected \"low\", \"medium\", or \"high\""@,
            },
            Priority::parsed(s@) is None && plain_text(s@) ==> (r matches Err(msg) && msg@
                == "invalid priority \""@ + s@ + "\", expected \"low\", \"medium\", or \"high\""@),
    {
        if str_eq(s, "low") {
            Ok(Priority::Low)
        } else if str_eq(s, "medium") || str_eq(s, "med") {
            Ok(Priority::Medium)
        } else if str_eq(s, "high") {
            Ok(Priority::High)
        } else {
            let quoted = debug_text(s);
            let msg = invalid_priority_message(quoted.as_str());
            proof {
                if plain_text(s@) {
                    reveal_strlit("invalid priority ");
                    reveal_strlit("invalid priority \"");
                    reveal_strlit(", expected \"low\", \"medium\", or \"high\"");
                    reveal_strlit("\", expected \"low\", \"medium\", or \"high\"");
                    assert(msg@ =~= "invalid priority \""@ + s@
                        + "\", expected \"low\", \"medium\", or \"high\""@);
                }
            }
            Err(msg)
        }
    }
}

/// The message refusing a status tag, given the tag as `{:?}` writes it.
pub fn invalid_status_message(quoted: &str) -> (r: String)
    ensures
        r@ == "invalid status tag "@ + quoted@ + ", expected \"open\" or \"done\""@,
{
    let mut msg = to_owned_string("invalid status tag ");
    append(&mut msg, quoted);
    append(&mut msg, ", expected \"open\" or \"done\"");
    msg
}

/// The message refusing a priority, given the text as `{:?}` writes it.
pub fn invalid_priority_message(quoted: &str) -> (r: String)
    ensures
        r@ == "invalid priority "@ + quoted@ + ", expected \"low\", \"medium\", or \"high\""@,
{
    let mut msg = to_owned_string("invalid priority ");
    append(&mut msg, quoted);
    append(&mut msg, ", expected \"low\", \"medium\", or \"high\"");
    msg
}

/// Every status tag parses back to its status.
pub proof fn law_status_tag_roundtrip(st: Status)
    ensures
        Status::parsed(st.tag()) == Some(st),
{
    reveal_strlit("open");
    reveal_strlit("done");
    assert("open"@[0] != "done"@[0]);
}

/// Every priority tag parses back to its priority.
pub proof fn law_priority_tag_roundtrip(p: Priority)
    ensures
        Priority::parsed(p.tag()) == Some(p),
{
    reveal_strlit("low");
    reveal_strlit("medium");
    reveal_strlit("med");
    reveal_strlit("high");
    assert("low"@[0] != "medium"@[0]);
    assert("low"@[0] != "high"@[0]);
    assert("medium"@[0] != "high"@[0]);
}

/// Toggling twice gives the status back; cycling the priority three times
/// gives it back.
pub proof fn law_toggle_and_cycle_return(st: Status, p: Priority)
    ensures
        st.toggled().toggled() == st,
        p.cycled().cycled().cycled() == p,
{
}

/// A toggle always changes the status: open becomes done, done becomes
/// open. A priority step goes up one (low to medium, medium to high) and
/// wraps from high to low.
pub proof fn law_toggle_flips_and_cycle_steps_up(st: Status, p: Priority)
    ensures
        st.toggled() != st,
        st == Status::Open ==> st.toggled() == Status::Done,
        p == Priority::Low ==> p.cycled() == Priority::Medium,
        p == Priority::Medium ==> p.cycled() == Priority::High,
        p == Priority::High ==> p.cycled() == Priority::Low,
{
}

/// The next status after a toggle.
pub fn toggle_status(s: Status) -> (r: Status)
    ensures
        r == s.toggled(),
{
    match s {
        Status::Open => Status::Done,
        Status::Done => Status::Open,
    }
}

/// The next priority in the low → medium → high → low cycle.
pub fn cycle_priority(p: Priority) -> (r: Priority)
    ensures
        r == p.cycled(),
{
    match p {
        Priority::Low => Priority::Medium,
        Priority::Medium => Priority::High,
        Priority::High => Priority::Low,
    }
}

/// A single todo item. `id` is None until stored; `created_at` counts
/// microseconds since the Unix epoch (UTC).
#[derive(Debug, Clone, PartialEq, Eq)]
pub struct Task {
    pub id: Option<i64>,
    pub title: String,
    pub status: Status,
    pub priority: Priority,
    pub project_id: i64,
    pub created_at: i64,
}

impl Task {
    /// A field-by-field copy.
    pub fn duplicate(&self) -> (r: Task)
        ensures
            r == *self,
    {
        Task {
            id: self.id,
            title: self.title.clone(),
            status: self.status,
            priority: self.priority,
            project_id: self.project_id,
            created_at: self.created_at,
        }
    }
}

/// A named group of tasks. `created_at` counts microseconds since the Unix
/// epoch (UTC).
#[derive(Debug, Clone, PartialEq, Eq)]
pub struct Project {
    pub id: Option<i64>,
    pub name: String,
    pub created_at: i64,
}

impl Project {
    /// A field-by-field copy.
    pub fn duplicate(&self) -> (r: Project)
        ensures
            r == *self,
    {
        Project { id: self.id, name: self.name.clone(), created_at: self.created_at }
    }
}

/// Fields a caller supplies to create a task; id, status and creation time
/// are owned by the store.
#[derive(Debug, Clone)]
pub struct NewTask {
    pub title: String,
    pub priority: Priority,
    pub project_id: i64,
}

impl NewTask {
    /// Trims the title and refuses a blank one, so the store never sees
    /// empty rows.
    pub fn new(title: &str, priority: Priority, project_id: i64) -> (r: Result<NewTask, String>)
        ensures
            match r {
                Ok(t) => {
                    &&& !is_blank(title@)
                    &&& t.title@ == trimmed(title@)
                    &&& t.title@.len() > 0
                    &&& t.priority == priority
                    &&& t.project_id == project_id
                },
                Err(msg) => is_blank(title@) && msg@ == "task title is empty, expected non-blank text"@,
            },
    {
        let t = trim(title);
        if t.as_str().unicode_len() == 0 {
            return Err(to_owned_string("task title is empty, expected non-blank text"));
        }
        Ok(NewTask { title: t, priority, project_id })
    }
}

/// Trims a project name and refuses a blank one.
pub fn clean_project_name(name: &str) -> (r: Result<String, String>)
    ensures
        match r {
            Ok(n) => !is_blank(name@) && n@ == trimmed(name@) && n@.len() > 0,
            Err(msg) => is_blank(name@) && msg@ == "project name is empty, expected non-blank text"@,
        },
{
    let t = trim(name);
    if t.as_str().unicode_len() == 0 {
        return Err(to_owned_string("project name is empty, expected non-blank text"));
    }
    Ok(t)
}

} // verus!
