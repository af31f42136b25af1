use todo::commands::{
    add, add_project, done, list, list_projects, move_task, overview, remove, remove_project,
    reopen, set_priority, unknown_project_message,
};
use todo::error::TodoError;
use todo::model::Priority;
use todo::store::memory::{duplicate_project_message, TaskStore};

fn seeded() -> TaskStore {
    let mut s = TaskStore::new(0);
    add(&mut s, "buy milk", Priority::High, None).unwrap();
    s
}

#[test]
fn add_rejects_blank_title() {
    let mut s = TaskStore::new(0);
    assert!(matches!(add(&mut s, "   ", Priority::Low, None), Err(TodoError::Invalid(_))));
}

#[test]
fn list_hides_done_by_default() {
    let mut s = seeded();
    done(&mut s, 1).unwrap();
    assert_eq!(list(&s, false, None).unwrap(), "no tasks");
    assert!(list(&s, true, None).unwrap().contains("buy milk"));
}

#[test]
fn done_then_reopen_changes_status() {
    let mut s = seeded();
    assert!(done(&mut s, 1).unwrap().starts_with("done #1"));
    assert!(reopen(&mut s, 1).unwrap().starts_with("reopened #1"));
    assert!(list(&s, false, None).unwrap().contains("buy milk"));
}

#[test]
fn remove_deletes() {
    let mut s = seeded();
    assert_eq!(remove(&mut s, 1).unwrap(), "removed #1");
    assert_eq!(list(&s, true, None).unwrap(), "no tasks");
}

#[test]
fn missing_id_surfaces_not_found() {
    let mut s = TaskStore::new(0);
    assert!(matches!(done(&mut s, 7), Err(TodoError::NotFound(7))));
}

#[test]
fn add_confirms_with_id_and_trimmed_title() {
    let mut s = TaskStore::new(0);
    assert_eq!(add(&mut s, "  write docs ", Priority::Low, None).unwrap(), "added #1 write docs");
}

#[test]
fn list_rows_are_aligned_and_ordered() {
    let mut s = TaskStore::new(0);
    add(&mut s, "low one", Priority::Low, None).unwrap();
    add(&mut s, "high one", Priority::High, None).unwrap();
    done(&mut s, 1).unwrap();
    assert_eq!(
        list(&s, true, None).unwrap(),
        "#2    [ ] high   high one\n#1    [x] low    low one"
    );
}

#[test]
fn add_and_list_by_project() {
    let mut s = TaskStore::new(0);
    assert_eq!(add_project(&mut s, " Work ").unwrap(), "created project #2 Work");
    add(&mut s, "report", Priority::Medium, Some("Work")).unwrap();
    add(&mut s, "milk", Priority::Medium, None).unwrap();
    assert_eq!(list(&s, false, Some("Work")).unwrap(), "#1    [ ] medium report");
    match add(&mut s, "x", Priority::Low, Some("Nope")) {
        Err(TodoError::Invalid(m)) => assert_eq!(m, "project \"Nope\" does not exist"),
        other => panic!("unexpected {other:?}"),
    }
    assert!(matches!(list(&s, false, Some("Nope")), Err(TodoError::Invalid(_))));
}

#[test]
fn move_and_priority_commands() {
    let mut s = seeded();
    add_project(&mut s, "Work").unwrap();
    assert_eq!(move_task(&mut s, 1, "Work").unwrap(), "moved #1 to @Work");
    assert_eq!(set_priority(&mut s, 1, Priority::Low).unwrap(), "priority #1 low");
    assert_eq!(list(&s, false, Some("Work")).unwrap(), "#1    [ ] low    buy milk");
    assert!(matches!(move_task(&mut s, 9, "Work"), Err(TodoError::NotFound(9))));
    assert!(matches!(move_task(&mut s, 1, "Nope"), Err(TodoError::Invalid(_))));
    assert!(matches!(set_priority(&mut s, 9, Priority::Low), Err(TodoError::NotFound(9))));
}

#[test]
fn project_commands() {
    let mut s = seeded();
    add_project(&mut s, "Work").unwrap();
    add(&mut s, "report", Priority::High, Some("Work")).unwrap();
    assert_eq!(list_projects(&s).unwrap(), "#1    Inbox (1 open)\n#2    Work (1 open)");
    assert!(matches!(add_project(&mut s, "Work"), Err(TodoError::Invalid(_))));
    assert!(matches!(add_project(&mut s, "  "), Err(TodoError::Invalid(_))));
    assert!(matches!(remove_project(&mut s, 1), Err(TodoError::Invalid(_))));
    assert!(matches!(remove_project(&mut s, 5), Err(TodoError::NotFound(5))));
    assert_eq!(remove_project(&mut s, 2).unwrap(), "removed project #2");
    assert_eq!(list_projects(&s).unwrap(), "#1    Inbox (2 open)");
}

#[test]
fn overview_groups_tasks_under_projects() {
    let mut s = seeded();
    add_project(&mut s, "Work").unwrap();
    add(&mut s, "report", Priority::Low, Some("Work")).unwrap();
    done(&mut s, 2).unwrap();
    assert_eq!(
        overview(&s, false).unwrap(),
        "@Inbox (1)\n  #1    [ ] high   buy milk\n@Work (0)"
    );
    assert_eq!(
        overview(&s, true).unwrap(),
        "@Inbox (1)\n  #1    [ ] high   buy milk\n@Work (1)\n  #2    [x] low    report"
    );
}

#[test]
fn error_messages() {
    assert_eq!(TodoError::NotFound(7).message(), "task 7 not found");
    assert_eq!(TodoError::Invalid("x".to_string()).message(), "invalid input: x");
    assert_eq!(TodoError::Storage("y".to_string()).message(), "storage failure: y");
    assert_eq!(TodoError::Io("z".to_string()).message(), "terminal/IO failure: z");
    assert_eq!(
        TodoError::NoDataDir.message(),
        "could not locate data directory for this platform"
    );
}

#[test]
fn error_messages_render_ids_in_decimal() {
    assert_eq!(TodoError::NotFound(-12).message(), "task -12 not found");
    assert_eq!(TodoError::NotFound(i64::MIN).message(), "task -9223372036854775808 not found");
    assert_eq!(TodoError::NotFound(i64::MAX).message(), "task 9223372036854775807 not found");
    assert_eq!(TodoError::NotFound(0).message(), "task 0 not found");
}

#[test]
fn project_messages_take_the_quoted_name() {
    assert_eq!(unknown_project_message("\"Nope\""), "project \"Nope\" does not exist");
    assert_eq!(duplicate_project_message("\"Work\""), "project \"Work\" already exists");
}
