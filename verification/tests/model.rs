use todo::model::{invalid_priority_message, invalid_status_message, NewTask, Priority, Status};

#[test]
fn status_roundtrips_through_tag() {
    for s in [Status::Open, Status::Done] {
        assert_eq!(Status::from_str(s.as_tag()), Ok(s));
    }
}

#[test]
fn priority_parses_med_alias() {
    assert_eq!(Priority::from_str("med"), Ok(Priority::Medium));
}

#[test]
fn priority_rejects_garbage_with_value_in_message() {
    let err = Priority::from_str("urgent").unwrap_err();
    assert!(err.contains("urgent"), "message should quote bad value: {err}");
}

#[test]
fn new_task_trims_and_rejects_blank() {
    assert_eq!(NewTask::new("  hi  ", Priority::Low, 1).unwrap().title, "hi");
    assert!(NewTask::new("   ", Priority::Low, 1).is_err());
}

#[test]
fn priority_roundtrips_through_tag() {
    for p in [Priority::Low, Priority::Medium, Priority::High] {
        assert_eq!(Priority::from_str(p.as_tag()), Ok(p));
    }
}

#[test]
fn status_rejects_unknown_tag_with_exact_message() {
    assert_eq!(
        Status::from_str("closed"),
        Err("invalid status tag \"closed\", expected \"open\" or \"done\"".to_string())
    );
}

#[test]
fn priority_error_message_is_exact() {
    assert_eq!(
        Priority::from_str("urgent"),
        Err("invalid priority \"urgent\", expected \"low\", \"medium\", or \"high\"".to_string())
    );
}

#[test]
fn new_task_keeps_fields_and_message() {
    let t = NewTask::new("\t write  tests \n", Priority::High, 7).unwrap();
    assert_eq!(t.title, "write  tests");
    assert_eq!(t.priority, Priority::High);
    assert_eq!(t.project_id, 7);
    assert_eq!(
        NewTask::new("", Priority::Low, 1).unwrap_err(),
        "task title is empty, expected non-blank text"
    );
}

#[test]
fn clean_project_name_trims_and_rejects_blank() {
    assert_eq!(todo::model::clean_project_name("  Work ").unwrap(), "Work");
    assert!(todo::model::clean_project_name(" \t ").is_err());
}

#[test]
fn toggle_and_cycle_follow_the_cycle() {
    assert_eq!(todo::model::toggle_status(Status::Open), Status::Done);
    assert_eq!(todo::model::toggle_status(Status::Done), Status::Open);
    assert_eq!(todo::model::cycle_priority(Priority::Low), Priority::Medium);
    assert_eq!(todo::model::cycle_priority(Priority::Medium), Priority::High);
    assert_eq!(todo::model::cycle_priority(Priority::High), Priority::Low);
}

#[test]
fn new_task_trims_unicode_white_space() {
    let t = NewTask::new("\u{a0}\thi there\u{3000}\n", Priority::Low, 1).unwrap();
    assert_eq!(t.title, "hi there");
    assert!(NewTask::new("\u{2028}\u{205f} ", Priority::Low, 1).is_err());
}

#[test]
fn refusal_messages_quote_the_value() {
    assert_eq!(
        invalid_priority_message("\"urgent\""),
        "invalid priority \"urgent\", expected \"low\", \"medium\", or \"high\""
    );
    assert_eq!(
        invalid_status_message("\"x\""),
        "invalid status tag \"x\", expected \"open\" or \"done\""
    );
    assert_eq!(
        Status::from_str("a\"b").unwrap_err(),
        "invalid status tag \"a\\\"b\", expected \"open\" or \"done\""
    );
}
