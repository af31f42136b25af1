use todo::model::{NewTask, Priority};
use todo::store::memory::TaskStore;
use todo::tmux::{config_snippet, status_line, truncate};

#[test]
fn empty_store_shows_zero() {
    let s = TaskStore::new(0);
    assert_eq!(status_line(&s).unwrap(), "☐ 0");
}

#[test]
fn shows_count_and_top_title() {
    let mut s = TaskStore::new(0);
    s.add(NewTask::new("ship it", Priority::High, 1).unwrap()).unwrap();
    s.add(NewTask::new("later", Priority::Low, 1).unwrap()).unwrap();
    let line = status_line(&s).unwrap();
    assert!(line.starts_with("☐ 2"), "line was {line}");
    assert!(line.contains("ship it"));
}

#[test]
fn truncates_long_titles() {
    assert_eq!(truncate("abcdef", 4), "abc…");
    assert_eq!(truncate("abc", 4), "abc");
}

#[test]
fn snippet_embeds_binary_name() {
    let snip = config_snippet("todo");
    assert!(snip.contains("todo tui"));
    assert!(snip.contains("todo status"));
}

#[test]
fn status_line_is_exact_and_picks_highest_priority() {
    let mut s = TaskStore::new(0);
    s.add(NewTask::new("later", Priority::Low, 1).unwrap()).unwrap();
    s.add(NewTask::new("deploy the whole site to production now", Priority::High, 1).unwrap())
        .unwrap();
    assert_eq!(status_line(&s).unwrap(), "☐ 2  ⚑ deploy the whole site t…");
}

#[test]
fn status_line_ignores_done_tasks() {
    let mut s = TaskStore::new(0);
    let t = s.add(NewTask::new("gone", Priority::High, 1).unwrap()).unwrap();
    s.add(NewTask::new("open one", Priority::Low, 1).unwrap()).unwrap();
    s.set_status(t.id.unwrap(), todo::model::Status::Done).unwrap();
    assert_eq!(status_line(&s).unwrap(), "☐ 1  ⚑ open one");
}

#[test]
fn truncate_edge_widths() {
    assert_eq!(truncate("abcd", 4), "abcd");
    assert_eq!(truncate("abcde", 1), "…");
    assert_eq!(truncate("abcde", 0), "…");
    assert_eq!(truncate("héllo wörld", 6), "héllo…");
}

#[test]
fn tmux_snippet_is_exact() {
    assert_eq!(
        config_snippet("td"),
        "# todo — tmux integration\n\
         # Popup TUI on prefix + T\n\
         bind T display-popup -E -w 80% -h 80% 'td tui'\n\
         # Open-task summary in the status bar (refreshes every 30s)\n\
         set -g status-right '#(td status) | %H:%M'\n\
         set -g status-interval 30\n"
    );
}
