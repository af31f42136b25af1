//! The command-line surface as plain data, and the dispatch of a parsed
//! command to its handler.

use vstd::prelude::*;

use crate::commands;
use crate::error::TodoError;
use crate::model::Priority;
use crate::store::memory::TaskStore;
use crate::store::StoreView;
use crate::text::{join_strings, join_with, views};

verus! {

/// A parsed command line: the subcommand, if one was given.
pub struct Cli {
    pub command: Option<Command>,
}

/// The subcommands.
pub enum Command {
    /// Add a new task: its title words, priority and optional project.
    Add { title: Vec<String>, priority: PriorityArg, project: Option<String> },
    /// List tasks (done ones too with `all`), optionally of one project.
    List { all: bool, project: Option<String> },
    /// Show all projects with their tasks grouped beneath each.
    Overview { all: bool },
    /// Mark a task done by id.
    Done { id: i64 },
    /// Move a task to another project.
    Move { id: i64, project: String },
    /// Create, list, or delete projects.
    Project { action: ProjectAction },
    /// Change a task's priority.
    Priority { id: i64, priority: PriorityArg },
    /// Reopen a completed task by id.
    Reopen { id: i64 },
    /// Delete a task by id.
    Rm { id: i64 },
    /// Print a one-line summary for the tmux status bar.
    Status,
    /// Print a tmux.conf snippet (popup keybind + status-bar line).
    TmuxConfig,
    /// Print a Hyprland snippet (floating window + SUPER+Shift+T keybind).
    HyprConfig,
    /// Launch the interactive interface (default when no subcommand given).
    Tui { compact: bool },
}

/// Project management subcommands.
pub enum ProjectAction {
    /// Create a project from its name words.
    Add { name: Vec<String> },
    /// List projects with open-task counts.
    List,
    /// Delete a project by id; its tasks return to Inbox.
    Rm { id: i64 },
}

/// The priority as given on the command line.
#[derive(Debug, Clone, Copy, PartialEq, Eq, Structural)]
pub enum PriorityArg {
    Low,
    Medium,
    High,
}

/// The priority a command-line priority stands for.
pub open spec fn priority_of(p: PriorityArg) -> Priority {
    match p {
        PriorityArg::Low => Priority::Low,
        PriorityArg::Medium => Priority::Medium,
        PriorityArg::High => Priority::High,
    }
}

/// The name the command line takes for a priority.
pub open spec fn arg_name(p: PriorityArg) -> Seq<char> {
    match p {
        PriorityArg::Low => "low"@,
        PriorityArg::Medium => "medium"@,
        PriorityArg::High => "high"@,
    }
}

/// A command-line priority converts to the priority of the same name (so
/// different ones convert to different priorities).
pub proof fn law_priority_arg_keeps_its_name(a: PriorityArg, b: PriorityArg)
    ensures
        priority_of(a).tag() == arg_name(a),
        a != b ==> priority_of(a) != priority_of(b),
{
}

impl From<PriorityArg> for Priority {
    fn from(p: PriorityArg) -> (r: Priority) {
        match p {
            PriorityArg::Low => Priority::Low,
            PriorityArg::Medium => Priority::Medium,
            PriorityArg::High => Priority::High,
        }
    }
}

impl vstd::std_specs::convert::FromSpecImpl<PriorityArg> for Priority {
    open spec fn obeys_from_spec() -> bool {
        true
    }

    open spec fn from_spec(p: PriorityArg) -> Priority {
        priority_of(p)
    }
}

/// What a command asks of the program: text to print, or the interactive
/// interface.
pub enum Outcome {
    Print(String),
    Tui { compact: bool },
}

/// The text a handler's result stands for (an interface launch is never a
/// handler's result).
pub open spec fn printed(r: Result<Outcome, TodoError>) -> Result<String, TodoError> {
    match r {
        Ok(Outcome::Print(s)) => Ok(s),
        Ok(Outcome::Tui { .. }) => Err(TodoError::NoDataDir),
        Err(e) => Err(e),
    }
}

/// The characters of an optional string.
pub open spec fn opt_string_view(s: Option<String>) -> Option<Seq<char>> {
    match s {
        Some(x) => Some(x@),
        None => None,
    }
}

/// Words joined with single spaces.
pub open spec fn words_text(words: Vec<String>) -> Seq<char> {
    join_with(views(words@), " "@)
}

/// What a project subcommand does and returns.
pub open spec fn project_action_result(old: StoreView, new: StoreView, a: ProjectAction, r: Result<String, TodoError>) -> bool {
    match a {
        ProjectAction::Add { name } => commands::add_project_result(old, new, words_text(name), r),
        ProjectAction::List => new == old && commands::list_projects_result(old, r),
        ProjectAction::Rm { id } => commands::remove_project_result(old, new, id, r),
    }
}

/// What a command does and returns.
pub open spec fn dispatch_result(old: StoreView, new: StoreView, c: Command, r: Result<Outcome, TodoError>) -> bool {
    &&& match c {
        Command::Tui { .. } => true,
        _ => !(r matches Ok(Outcome::Tui { .. })),
    }
    &&& match c {
        Command::Tui { compact } => new == old && r == Ok::<Outcome, TodoError>(Outcome::Tui { compact }),
        Command::Status => new == old && printed(r) is Ok && printed(r)->Ok_0@ == crate::tmux::status_text(old),
        Command::TmuxConfig => new == old && printed(r) is Ok && printed(r)->Ok_0@
            == crate::tmux::config_snippet_text("todo"@),
        Command::HyprConfig => new == old && printed(r) is Ok && printed(r)->Ok_0@
            == crate::hypr::config_snippet_text("todo"@, "kitty"@),
        Command::Add { title, priority, project } => commands::add_result(
            old,
            new,
            words_text(title),
            priority_of(priority),
            opt_string_view(project),
            printed(r),
        ),
        Command::List { all, project } => new == old && commands::list_result(
            old,
            all,
            opt_string_view(project),
            printed(r),
        ),
        Command::Overview { all } => new == old && commands::overview_result(old, all, printed(r)),
        Command::Done { id } => commands::done_result(old, new, id, printed(r)),
        Command::Move { id, project } => commands::move_task_result(old, new, id, project@, printed(r)),
        Command::Project { action } => project_action_result(old, new, action, printed(r)),
        Command::Priority { id, priority } => commands::set_priority_result(
            old,
            new,
            id,
            priority_of(priority),
            printed(r),
        ),
        Command::Reopen { id } => commands::reopen_result(old, new, id, printed(r)),
        Command::Rm { id } => commands::remove_result(old, new, id, printed(r)),
    }
}

/// The command to run: the one given, else the interactive interface (like
/// htop's bare invocation).
pub fn command_or_default(cli: Cli) -> (r: Command)
    ensures
        match cli.command {
            Some(c) => r == c,
            None => r == (Command::Tui { compact: false }),
        },
{
    match cli.command {
        Some(c) => c,
        None => Command::Tui { compact: false },
    }
}

fn as_opt_str(s: &Option<String>) -> (r: Option<&str>)
    ensures
        commands::opt_view(r) == opt_string_view(*s),
{
    match s {
        Some(x) => Some(x.as_str()),
        None => None,
    }
}

/// Run one command against the store.
pub fn dispatch(command: Command, store: &mut TaskStore) -> (r: Result<Outcome, TodoError>)
    requires
        old(store).wf(),
    ensures
        final(store).wf(),
        dispatch_result(old(store)@, final(store)@, command, r),
{
    match command {
        Command::Tui { compact } => Ok(Outcome::Tui { compact }),
        Command::Status => Ok(Outcome::Print(crate::tmux::status_line(store)?)),
        Command::TmuxConfig => Ok(Outcome::Print(crate::tmux::config_snippet("todo"))),
        Command::HyprConfig => Ok(Outcome::Print(crate::hypr::config_snippet("todo", "kitty"))),
        other => Ok(Outcome::Print(run_text_command(other, store)?)),
    }
}

/// Handlers that produce a single text blob to print.
fn run_text_command(command: Command, store: &mut TaskStore) -> (r: Result<String, TodoError>)
    requires
        old(store).wf(),
        !(command is Tui || command is Status || command is TmuxConfig || command is HyprConfig),
    ensures
        final(store).wf(),
        dispatch_result(
            old(store)@,
            final(store)@,
            command,
            match r {
                Ok(s) => Ok(Outcome::Print(s)),
                Err(e) => Err(e),
            },
        ),
{
    match command {
        Command::Add { title, priority, project } => {
            let t = join_strings(&title, " ");
            commands::add(store, t.as_str(), priority.into(), as_opt_str(&project))
        },
        Command::List { all, project } => commands::list(store, all, as_opt_str(&project)),
        Command::Overview { all } => commands::overview(store, all),
        Command::Done { id } => commands::done(store, id),
        Command::Move { id, project } => commands::move_task(store, id, project.as_str()),
        Command::Project { action } => run_project_action(action, store),
        Command::Priority { id, priority } => commands::set_priority(store, id, priority.into()),
        Command::Reopen { id } => commands::reopen(store, id),
        Command::Rm { id } => commands::remove(store, id),
        Command::Tui { .. } | Command::Status | Command::TmuxConfig | Command::HyprConfig => {
            Err(TodoError::NoDataDir)
        },
    }
}

fn run_project_action(action: ProjectAction, store: &mut TaskStore) -> (r: Result<String, TodoError>)
    requires
        old(store).wf(),
    ensures
        final(store).wf(),
        project_action_result(old(store)@, final(store)@, action, r),
{
    match action {
        ProjectAction::Add { name } => {
            let n = join_strings(&name, " ");
            commands::add_project(store, n.as_str())
        },
        ProjectAction::List => commands::list_projects(store),
        ProjectAction::Rm { id } => commands::remove_project(store, id),
    }
}

} // verus!
