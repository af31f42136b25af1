use todo::model::{NewTask, Priority, Project, Status, Task};
use todo::tui::grouping::{group_by_project, project_position};
use todo::store::memory::TaskStore;
use todo::tui::app::{clamp_index, App, Focus, Key, Mode, OverviewRow, SortMode};

fn type_str(app: &mut App, s: &str) {
    for c in s.chars() {
        app.on_key(Key::Char(c)).unwrap();
    }
}

fn add_task(app: &mut App, title: &str) {
    app.focus = Focus::Tasks;
    app.on_key(Key::Char('a')).unwrap();
    type_str(app, title);
    app.on_key(Key::Enter).unwrap();
}

#[test]
fn starts_with_inbox_selected() {
    let store = TaskStore::new(0);
    let app = App::new(store, false).unwrap();
    assert_eq!(app.current_project().unwrap().name, "Inbox");
}

#[test]
fn add_flow_creates_task_in_current_project() {
    let store = TaskStore::new(0);
    let mut app = App::new(store, false).unwrap();
    add_task(&mut app, "hello");
    assert_eq!(app.tasks.len(), 1);
    assert_eq!(app.tasks[0].title, "hello");
}

#[test]
fn create_project_flow() {
    let store = TaskStore::new(0);
    let mut app = App::new(store, false).unwrap();
    app.on_key(Key::Char('n')).unwrap();
    type_str(&mut app, "Work");
    app.on_key(Key::Enter).unwrap();
    assert!(app.projects.iter().any(|p| p.name == "Work"));
}

#[test]
fn tab_switches_focus_and_project_nav_filters_tasks() {
    let store = TaskStore::new(0);
    let mut app = App::new(store, false).unwrap();
    // Inbox task.
    add_task(&mut app, "inbox task");
    // New project + a task there.
    app.on_key(Key::Char('n')).unwrap();
    type_str(&mut app, "Work");
    app.on_key(Key::Enter).unwrap();
    // Focus projects, move to Work (index 1), add a task.
    app.on_key(Key::Tab).unwrap();
    assert_eq!(app.focus, Focus::Projects);
    app.on_key(Key::Char('j')).unwrap();
    assert_eq!(app.current_project().unwrap().name, "Work");
    assert!(app.tasks.is_empty(), "Work starts empty");
    app.on_key(Key::Tab).unwrap();
    add_task(&mut app, "work task");
    assert_eq!(app.tasks.len(), 1);
    assert_eq!(app.tasks[0].title, "work task");
}

#[test]
fn space_toggles_status() {
    let store = TaskStore::new(0);
    let mut app = App::new(store, false).unwrap();
    add_task(&mut app, "task");
    app.on_key(Key::Char(' ')).unwrap();
    assert_eq!(app.tasks[0].status, Status::Done);
}

#[test]
fn delete_removes_selected() {
    let store = TaskStore::new(0);
    let mut app = App::new(store, false).unwrap();
    add_task(&mut app, "doomed");
    app.on_key(Key::Char('d')).unwrap();
    assert!(app.tasks.is_empty());
}

#[test]
fn p_cycles_priority() {
    let store = TaskStore::new(0);
    let mut app = App::new(store, false).unwrap();
    add_task(&mut app, "task");
    app.on_key(Key::Char('p')).unwrap();
    assert_eq!(app.tasks[0].priority, Priority::High);
}

#[test]
fn action_keys_ignored_when_projects_focused() {
    let store = TaskStore::new(0);
    let mut app = App::new(store, false).unwrap();
    app.focus = Focus::Projects;
    // 'a' should not enter add-task mode while projects are focused.
    app.on_key(Key::Char('a')).unwrap();
    assert_eq!(app.mode, Mode::Normal);
}

#[test]
fn q_sets_quit() {
    let store = TaskStore::new(0);
    let mut app = App::new(store, false).unwrap();
    app.on_key(Key::Char('q')).unwrap();
    assert!(app.should_quit);
}

#[test]
fn undo_delete_restores_task() {
    let store = TaskStore::new(0);
    let mut app = App::new(store, false).unwrap();
    add_task(&mut app, "precious");
    app.on_key(Key::Char('d')).unwrap();
    assert!(app.tasks.is_empty());
    app.on_key(Key::Char('u')).unwrap();
    assert_eq!(app.tasks.len(), 1);
    assert_eq!(app.tasks[0].title, "precious");
}

#[test]
fn undo_add_removes_task() {
    let store = TaskStore::new(0);
    let mut app = App::new(store, false).unwrap();
    add_task(&mut app, "oops");
    app.on_key(Key::Char('u')).unwrap();
    assert!(app.tasks.is_empty());
}

#[test]
fn undo_toggle_reverts_status() {
    let store = TaskStore::new(0);
    let mut app = App::new(store, false).unwrap();
    add_task(&mut app, "task");
    app.on_key(Key::Char(' ')).unwrap();
    assert_eq!(app.tasks[0].status, Status::Done);
    app.on_key(Key::Char('u')).unwrap();
    assert_eq!(app.tasks[0].status, Status::Open);
}

#[test]
fn undo_priority_reverts() {
    let store = TaskStore::new(0);
    let mut app = App::new(store, false).unwrap();
    add_task(&mut app, "task"); // Medium
    app.on_key(Key::Char('p')).unwrap();
    assert_eq!(app.tasks[0].priority, Priority::High);
    app.on_key(Key::Char('u')).unwrap();
    assert_eq!(app.tasks[0].priority, Priority::Medium);
}

#[test]
fn undo_is_lifo_across_actions() {
    let store = TaskStore::new(0);
    let mut app = App::new(store, false).unwrap();
    add_task(&mut app, "keep");
    app.on_key(Key::Char('p')).unwrap(); // High
    app.on_key(Key::Char('u')).unwrap(); // undo priority -> Medium
    assert_eq!(app.tasks[0].priority, Priority::Medium);
    assert_eq!(app.tasks.len(), 1);
    app.on_key(Key::Char('u')).unwrap(); // undo add -> gone
    assert!(app.tasks.is_empty());
}

#[test]
fn undo_empty_stack_is_noop() {
    let store = TaskStore::new(0);
    let mut app = App::new(store, false).unwrap();
    app.on_key(Key::Char('u')).unwrap();
    assert_eq!(app.status, "nothing to undo");
}

#[test]
fn s_sorts_tasks_by_project() {
    let mut store = TaskStore::new(0);
    let work = store.add_project("Work").unwrap();
    // Two Inbox tasks and one Work task, interleaved priorities.
    store.add(NewTask::new("inbox a", Priority::High, 1).unwrap()).unwrap();
    store.add(NewTask::new("work a", Priority::High, work.id.unwrap()).unwrap()).unwrap();
    store.add(NewTask::new("inbox b", Priority::High, 1).unwrap()).unwrap();
    // Compact spans all projects so sort is observable.
    let mut app = App::new(store, true).unwrap();
    app.on_key(Key::Char('s')).unwrap(); // -> sort by project
    assert_eq!(app.sort_mode, SortMode::Project);
    // Inbox (rank 0) tasks come before Work (rank 1).
    let projects: Vec<i64> = app.tasks.iter().map(|t| t.project_id).collect();
    let first_work = projects.iter().position(|&p| p == work.id.unwrap()).unwrap();
    assert!(projects[..first_work].iter().all(|&p| p == 1));
}

#[test]
fn compact_add_picks_project_then_creates_task_there() {
    let mut store = TaskStore::new(0);
    let work = store.add_project("Work").unwrap();
    let mut app = App::new(store, true).unwrap();
    app.on_key(Key::Char('a')).unwrap();
    assert_eq!(app.mode, Mode::PickingProject);
    app.on_key(Key::Char('j')).unwrap(); // Inbox -> Work
    app.on_key(Key::Enter).unwrap(); // choose Work
    assert!(matches!(app.mode, Mode::AddingTask(_)));
    type_str(&mut app, "compact task");
    app.on_key(Key::Enter).unwrap();
    let added = app.tasks.iter().find(|t| t.title == "compact task").unwrap();
    assert_eq!(added.project_id, work.id.unwrap());
}

#[test]
fn overview_add_uses_project_under_cursor() {
    let mut store = TaskStore::new(0);
    let work = store.add_project("Work").unwrap();
    let mut app = App::new(store, false).unwrap();
    add_task(&mut app, "inbox task");
    app.on_key(Key::Char('o')).unwrap();
    // Rows: [Header Inbox, Task, Header Work]. Land on the Work header.
    while app.overview_cursor_project() != work.id {
        app.on_key(Key::Char('j')).unwrap();
    }
    app.on_key(Key::Char('a')).unwrap();
    type_str(&mut app, "work task");
    app.on_key(Key::Enter).unwrap();
    let in_work = app.overview_rows.iter().any(|r| {
        matches!(r, OverviewRow::Task(t) if t.title == "work task" && t.project_id == work.id.unwrap())
    });
    assert!(in_work, "new task should be in Work");
}

#[test]
fn o_toggles_overview_and_builds_grouped_rows() {
    let mut store = TaskStore::new(0);
    store.add_project("Work").unwrap();
    let mut app = App::new(store, false).unwrap();
    add_task(&mut app, "inbox task"); // goes to Inbox (selected)
    app.on_key(Key::Char('o')).unwrap();
    assert!(app.show_overview);
    // Expect a header for each project plus the one task row.
    let headers = app
        .overview_rows
        .iter()
        .filter(|r| matches!(r, OverviewRow::Header { .. }))
        .count();
    assert_eq!(headers, 2, "Inbox + Work headers");
    let tasks = app.overview_rows.iter().filter(|r| matches!(r, OverviewRow::Task(_))).count();
    assert_eq!(tasks, 1);
    // Toggle off.
    app.on_key(Key::Char('o')).unwrap();
    assert!(!app.show_overview);
}

#[test]
fn overview_space_toggles_selected_task() {
    let store = TaskStore::new(0);
    let mut app = App::new(store, false).unwrap();
    add_task(&mut app, "finish me");
    app.on_key(Key::Char('o')).unwrap();
    // Row 0 is the Inbox header; move down to the task row.
    app.on_key(Key::Char('j')).unwrap();
    app.on_key(Key::Char(' ')).unwrap();
    let done = app
        .overview_rows
        .iter()
        .any(|r| matches!(r, OverviewRow::Task(t) if t.status == Status::Done));
    assert!(done, "selected task should be marked done");
}

#[test]
fn overview_delete_then_undo_restores() {
    let store = TaskStore::new(0);
    let mut app = App::new(store, false).unwrap();
    add_task(&mut app, "doomed");
    app.on_key(Key::Char('o')).unwrap();
    app.on_key(Key::Char('j')).unwrap(); // onto the task
    app.on_key(Key::Char('d')).unwrap();
    assert!(!app.overview_rows.iter().any(|r| matches!(r, OverviewRow::Task(_))));
    app.on_key(Key::Char('u')).unwrap();
    assert!(app.overview_rows.iter().any(|r| matches!(r, OverviewRow::Task(_))));
}

#[test]
fn overview_action_on_header_is_noop() {
    let store = TaskStore::new(0);
    let mut app = App::new(store, false).unwrap();
    add_task(&mut app, "keep");
    app.on_key(Key::Char('o')).unwrap();
    // overview_selected = 0 → Inbox header; delete must do nothing.
    app.on_key(Key::Char('d')).unwrap();
    assert!(app.overview_rows.iter().any(|r| matches!(r, OverviewRow::Task(_))));
}

#[test]
fn compact_shows_open_tasks_across_projects_and_locks_focus() {
    let mut store = TaskStore::new(0);
    let work = store.add_project("Work").unwrap();
    store.add(NewTask::new("inbox open", Priority::Low, 1).unwrap()).unwrap();
    store.add(NewTask::new("work open", Priority::High, work.id.unwrap()).unwrap()).unwrap();
    let mut app = App::new(store, true).unwrap();
    assert_eq!(app.tasks.len(), 2, "both projects' open tasks shown");
    assert!(!app.show_done);
    // Tab is a no-op in compact — focus stays on tasks.
    app.on_key(Key::Tab).unwrap();
    assert_eq!(app.focus, Focus::Tasks);
}

#[test]
fn status_line_messages_follow_actions() {
    let store = TaskStore::new(0);
    let mut app = App::new(store, false).unwrap();
    assert!(app.status.starts_with("tab · a add"));
    add_task(&mut app, "task");
    assert_eq!(app.status, "added #1 to @Inbox");
    app.on_key(Key::Char('d')).unwrap();
    assert_eq!(app.status, "removed #1 (u to undo)");
    app.on_key(Key::Char('u')).unwrap();
    assert_eq!(app.status, "undid delete");
    app.on_key(Key::Char('s')).unwrap();
    assert_eq!(app.status, "sort: project");
    add_task(&mut app, "   ");
    assert_eq!(app.status, "empty title — not added");
    app.on_key(Key::Char('n')).unwrap();
    app.on_key(Key::Enter).unwrap();
    assert_eq!(app.status, "empty name — not created");
    app.on_key(Key::Char('n')).unwrap();
    type_str(&mut app, "Inbox");
    app.on_key(Key::Enter).unwrap();
    assert_eq!(app.status, "invalid input: project \"Inbox\" already exists");
}

#[test]
fn typing_edits_the_buffer_and_esc_cancels() {
    let store = TaskStore::new(0);
    let mut app = App::new(store, false).unwrap();
    app.on_key(Key::Char('a')).unwrap();
    type_str(&mut app, "abc");
    app.on_key(Key::Backspace).unwrap();
    assert_eq!(app.mode, Mode::AddingTask("ab".to_string()));
    app.on_key(Key::Esc).unwrap();
    assert_eq!(app.mode, Mode::Normal);
    assert!(app.tasks.is_empty());
}

#[test]
fn undo_of_project_creation_removes_it_and_undo_failure_is_reported() {
    let store = TaskStore::new(0);
    let mut app = App::new(store, false).unwrap();
    app.on_key(Key::Char('n')).unwrap();
    type_str(&mut app, "Temp");
    app.on_key(Key::Enter).unwrap();
    assert_eq!(app.projects.len(), 2);
    app.on_key(Key::Char('u')).unwrap();
    assert_eq!(app.status, "undid new project");
    assert_eq!(app.projects.len(), 1);
    // A toggle whose task was deleted behind its back cannot be undone.
    add_task(&mut app, "t");
    app.on_key(Key::Char(' ')).unwrap();
    app.undo_stack.insert(0, todo::tui::app::UndoAction::RemoveTask { id: 42 });
    app.on_key(Key::Char('u')).unwrap();
    app.on_key(Key::Char('u')).unwrap();
    app.on_key(Key::Char('u')).unwrap();
    assert_eq!(app.status, "undo failed: task 42 not found");
}

#[test]
fn h_hides_done_and_moves_clamp() {
    let store = TaskStore::new(0);
    let mut app = App::new(store, false).unwrap();
    add_task(&mut app, "one");
    add_task(&mut app, "two");
    app.on_key(Key::Char('j')).unwrap();
    app.on_key(Key::Char('j')).unwrap();
    assert_eq!(app.selected, 1);
    app.on_key(Key::Char(' ')).unwrap();
    app.on_key(Key::Char('h')).unwrap();
    assert_eq!(app.tasks.len(), 1);
    assert_eq!(app.selected, 0);
    app.on_key(Key::Char('k')).unwrap();
    assert_eq!(app.selected, 0);
}

#[test]
fn clamp_index_stays_in_range() {
    assert_eq!(clamp_index(0, -1, 3), 0);
    assert_eq!(clamp_index(2, 1, 3), 2);
    assert_eq!(clamp_index(1, 1, 3), 2);
    assert_eq!(clamp_index(5, 1, 0), 0);
}

#[test]
fn take_changes_hands_over_the_journal() {
    let store = TaskStore::new(0);
    let mut app = App::new(store, false).unwrap();
    add_task(&mut app, "t");
    assert_eq!(app.take_changes().len(), 1);
    assert!(app.take_changes().is_empty());
}

#[test]
fn tab_twice_restores_focus() {
    let store = TaskStore::new(0);
    let mut app = App::new(store, false).unwrap();
    assert_eq!(app.focus, Focus::Tasks);
    app.on_key(Key::Tab).unwrap();
    assert_eq!(app.focus, Focus::Projects);
    app.on_key(Key::BackTab).unwrap();
    assert_eq!(app.focus, Focus::Tasks);
}

#[test]
fn resync_sees_tasks_added_elsewhere_and_continues_ids() {
    let store = TaskStore::new(0);
    let mut app = App::new(store, false).unwrap();
    add_task(&mut app, "first");
    // Another writer adds a task to the same data meanwhile.
    let mut other = TaskStore::new(0);
    other.add(NewTask::new("first", Priority::Medium, 1).unwrap()).unwrap();
    other.add(NewTask::new("from cli", Priority::High, 1).unwrap()).unwrap();
    other.take_changes();
    app.resync(other);
    assert_eq!(app.tasks.len(), 2);
    assert_eq!(app.tasks[0].title, "from cli");
    add_task(&mut app, "third");
    let t = app.tasks.iter().find(|t| t.title == "third").unwrap();
    assert_eq!(t.id, Some(3));
}

#[test]
fn grouping_is_stable_inside_each_project() {
    let p = |id: i64, name: &str| Project { id: Some(id), name: name.to_string(), created_at: 0 };
    let t = |id: i64, pri: Priority, pid: i64| Task {
        id: Some(id),
        title: format!("t{id}"),
        status: Status::Open,
        priority: pri,
        project_id: pid,
        created_at: 0,
    };
    let projects = vec![p(1, "Inbox"), p(2, "Work")];
    // Not in priority order: a low task of the Inbox comes before a high one.
    let tasks = vec![
        t(1, Priority::Low, 1),
        t(2, Priority::High, 2),
        t(3, Priority::High, 1),
        t(4, Priority::Low, 9),
    ];
    let ids: Vec<i64> = group_by_project(&projects, &tasks).iter().map(|x| x.id.unwrap()).collect();
    assert_eq!(ids, vec![1, 3, 2, 4]);
    // A project id listed twice ranks by its last place.
    let dup = vec![p(2, "Work"), p(1, "Inbox"), p(2, "Work again")];
    assert_eq!(project_position(&dup, 2), 2);
    assert_eq!(project_position(&dup, 7), usize::MAX);
}
