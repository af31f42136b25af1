use todo::error::TodoError;
use todo::model::{NewTask, Priority, Project, Status, Task, INBOX_NAME};
use todo::store::memory::TaskStore;
use todo::store::{Change, StatusFilter, TaskQuery};

fn store() -> TaskStore {
    TaskStore::new(0)
}

fn new_task(store: &TaskStore, title: &str, p: Priority) -> NewTask {
    let inbox = store.inbox().unwrap().id.unwrap();
    NewTask::new(title, p, inbox).unwrap()
}

#[test]
fn new_store_stamps_with_its_clock() {
    let mut s = TaskStore::new(1_700_000_000_000_000);
    assert_eq!(s.inbox().unwrap().created_at, 1_700_000_000_000_000);
    let t = s.add(new_task(&s, "x", Priority::Low)).unwrap();
    assert_eq!(t.created_at, 1_700_000_000_000_000);
}

#[test]
fn migrate_seeds_inbox() {
    let s = store();
    let inbox = s.inbox().unwrap();
    assert_eq!(inbox.name, INBOX_NAME);
    assert_eq!(s.list_projects().unwrap().len(), 1);
}

#[test]
fn add_then_get_roundtrips_with_project() {
    let mut s = store();
    let t = new_task(&s, "write tests", Priority::High);
    let added = s.add(t).unwrap();
    let fetched = s.get(added.id.unwrap()).unwrap();
    assert_eq!(fetched.title, "write tests");
    assert_eq!(fetched.project_id, s.inbox().unwrap().id.unwrap());
}

#[test]
fn list_orders_high_priority_first() {
    let mut s = store();
    let low = new_task(&s, "low", Priority::Low);
    let high = new_task(&s, "high", Priority::High);
    s.add(low).unwrap();
    s.add(high).unwrap();
    let all = s.list(TaskQuery::all()).unwrap();
    assert_eq!(all.first().unwrap().title, "high");
}

#[test]
fn list_filters_by_project() {
    let mut s = store();
    let work = s.add_project("Work").unwrap();
    let inbox_task = new_task(&s, "inbox one", Priority::Medium);
    s.add(inbox_task).unwrap();
    let work_task = NewTask::new("work one", Priority::Medium, work.id.unwrap()).unwrap();
    s.add(work_task).unwrap();
    let only_work = s.list(TaskQuery::all().in_project(work.id.unwrap())).unwrap();
    assert_eq!(only_work.len(), 1);
    assert_eq!(only_work[0].title, "work one");
}

#[test]
fn set_project_moves_task() {
    let mut s = store();
    let work = s.add_project("Work").unwrap();
    let nt = new_task(&s, "movable", Priority::Low);
    let t = s.add(nt).unwrap();
    let moved = s.set_project(t.id.unwrap(), work.id.unwrap()).unwrap();
    assert_eq!(moved.project_id, work.id.unwrap());
}

#[test]
fn add_duplicate_project_errors() {
    let mut s = store();
    s.add_project("Work").unwrap();
    assert!(matches!(s.add_project("Work"), Err(TodoError::Invalid(_))));
}

#[test]
fn remove_project_reassigns_tasks_to_inbox() {
    let mut s = store();
    let work = s.add_project("Work").unwrap();
    let t = NewTask::new("orphan me", Priority::Low, work.id.unwrap()).unwrap();
    let task = s.add(t).unwrap();
    s.remove_project(work.id.unwrap()).unwrap();
    let reloaded = s.get(task.id.unwrap()).unwrap();
    assert_eq!(reloaded.project_id, s.inbox().unwrap().id.unwrap());
}

#[test]
fn cannot_remove_inbox() {
    let mut s = store();
    let inbox_id = s.inbox().unwrap().id.unwrap();
    assert!(matches!(s.remove_project(inbox_id), Err(TodoError::Invalid(_))));
}

#[test]
fn set_status_filters_and_counts() {
    let mut s = store();
    let nt = new_task(&s, "close me", Priority::Medium);
    let t = s.add(nt).unwrap();
    s.set_status(t.id.unwrap(), Status::Done).unwrap();
    assert_eq!(s.open_count().unwrap(), 0);
    let done = s.list(TaskQuery::all().with_status(StatusFilter::Only(Status::Done)));
    assert_eq!(done.unwrap().len(), 1);
}

#[test]
fn restore_task_reinserts_with_same_id() {
    let mut s = store();
    let nt = new_task(&s, "bring back", Priority::High);
    let t = s.add(nt).unwrap();
    let id = t.id.unwrap();
    s.remove(id).unwrap();
    assert!(matches!(s.get(id), Err(TodoError::NotFound(_))));
    s.restore_task(&t).unwrap();
    let back = s.get(id).unwrap();
    assert_eq!(back.title, "bring back");
    assert_eq!(back.priority, Priority::High);
}

#[test]
fn missing_id_errors_not_found() {
    let mut s = store();
    assert!(matches!(s.get(999), Err(TodoError::NotFound(999))));
    assert!(matches!(s.remove(999), Err(TodoError::NotFound(999))));
}

fn row(id: i64, title: &str, priority: Priority, created_at: i64) -> Task {
    Task { id: Some(id), title: title.to_string(), status: Status::Open, priority, project_id: 1, created_at }
}

fn inbox_row() -> Project {
    Project { id: Some(1), name: "Inbox".to_string(), created_at: 0 }
}

#[test]
fn list_orders_by_priority_then_newest_then_id() {
    let tasks = vec![
        row(1, "old high", Priority::High, 10),
        row(2, "low", Priority::Low, 50),
        row(3, "new high", Priority::High, 20),
        row(4, "tie high", Priority::High, 20),
        row(5, "medium", Priority::Medium, 5),
    ];
    let s = TaskStore::load(tasks, vec![inbox_row()], 1, 1, 0).unwrap();
    let titles: Vec<String> = s.list(TaskQuery::all()).unwrap().into_iter().map(|t| t.title).collect();
    assert_eq!(titles, vec!["tie high", "new high", "old high", "medium", "low"]);
}

#[test]
fn projects_list_inbox_first_then_by_name() {
    let mut s = store();
    s.add_project("zeta").unwrap();
    s.add_project("Alpha").unwrap();
    s.add_project("Beta").unwrap();
    let names: Vec<String> = s.list_projects().unwrap().into_iter().map(|p| p.name).collect();
    assert_eq!(names, vec!["Inbox", "Alpha", "Beta", "zeta"]);
}

#[test]
fn load_checks_rows_and_sets_next_ids() {
    let tasks = vec![row(4, "a", Priority::Low, 0)];
    let mut s = TaskStore::load(tasks, vec![inbox_row()], 2, 9, 77).unwrap();
    let t = s.add(NewTask::new("b", Priority::Low, 1).unwrap()).unwrap();
    assert_eq!(t.id, Some(5));
    assert_eq!(t.created_at, 77);
    let p = s.add_project("P").unwrap();
    assert_eq!(p.id, Some(9));
    assert_eq!(p.created_at, 77);
    let dup = vec![row(4, "a", Priority::Low, 0), row(4, "b", Priority::Low, 0)];
    assert!(matches!(TaskStore::load(dup, vec![inbox_row()], 1, 1, 0), Err(TodoError::Storage(_))));
    let no_inbox = vec![Project { id: Some(1), name: "Other".to_string(), created_at: 0 }];
    assert!(matches!(TaskStore::load(vec![], no_inbox, 1, 1, 0), Err(TodoError::Storage(_))));
}

#[test]
fn journal_records_every_change_in_order() {
    let mut s = store();
    let t = s.add(NewTask::new("x", Priority::Low, 1).unwrap()).unwrap();
    s.set_status(1, Status::Done).unwrap();
    s.set_priority(1, Priority::High).unwrap();
    let p = s.add_project("W").unwrap();
    s.set_project(1, 2).unwrap();
    s.remove_project(2).unwrap();
    s.remove(1).unwrap();
    let changes = s.take_changes();
    assert_eq!(changes.len(), 7);
    assert!(matches!(&changes[0], Change::InsertTask(c) if *c == t));
    assert!(matches!(changes[1], Change::SetStatus { id: 1, status: Status::Done }));
    assert!(matches!(changes[2], Change::SetPriority { id: 1, priority: Priority::High }));
    assert!(matches!(&changes[3], Change::InsertProject(c) if *c == p));
    assert!(matches!(changes[4], Change::SetProject { id: 1, project_id: 2 }));
    assert!(matches!(changes[5], Change::RemoveProject { id: 2, inbox_id: 1 }));
    assert!(matches!(changes[6], Change::RemoveTask(1)));
    assert!(s.take_changes().is_empty());
}

#[test]
fn restore_refuses_bad_tasks() {
    let mut s = store();
    let t = s.add(NewTask::new("x", Priority::Low, 1).unwrap()).unwrap();
    match s.restore_task(&t) {
        Err(TodoError::Storage(m)) => assert_eq!(m, "UNIQUE constraint failed: tasks.id"),
        other => panic!("unexpected {other:?}"),
    }
    let mut no_id = t.clone();
    no_id.id = None;
    assert!(matches!(s.restore_task(&no_id), Err(TodoError::Invalid(_))));
}

#[test]
fn set_project_checks_project_before_task() {
    let mut s = store();
    assert!(matches!(s.set_project(5, 9), Err(TodoError::NotFound(9))));
    assert!(matches!(s.set_project(5, 1), Err(TodoError::NotFound(5))));
}

#[test]
fn find_project_by_name() {
    let mut s = store();
    s.add_project("Work").unwrap();
    assert_eq!(s.find_project("Work").unwrap().unwrap().id, Some(2));
    assert!(s.find_project("work").unwrap().is_none());
}
