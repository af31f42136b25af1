use todo::model::{Priority, Status, Task};
use todo::store::memory::TaskStore;
use todo::tui::app::{App, Key, Mode};
use todo::tui::layout::{
    footer_text, hard_split, header_label, inner_width, row_project, screen, task_row, wrap_title,
    Screen,
};

#[test]
fn wrap_keeps_words_whole_within_width() {
    let lines = wrap_title("alpha beta gamma delta", 11);
    assert!(lines.iter().all(|l| l.chars().count() <= 11), "{lines:?}");
    // Nothing is dropped: joining back yields the original words.
    assert_eq!(lines.join(" "), "alpha beta gamma delta");
}

#[test]
fn wrap_hard_splits_overlong_word() {
    let lines = wrap_title("supercalifragilistic", 5);
    assert!(lines.iter().all(|l| l.chars().count() <= 5));
    assert_eq!(lines.concat(), "supercalifragilistic");
}

#[test]
fn wrap_short_title_is_single_line() {
    assert_eq!(wrap_title("hi there", 40), vec!["hi there".to_string()]);
}

#[test]
fn wrap_empty_title_yields_one_empty_line() {
    assert_eq!(wrap_title("", 10), vec![String::new()]);
}

#[test]
fn wrap_exact_lines() {
    assert_eq!(wrap_title("alpha beta gamma delta", 11), vec!["alpha beta", "gamma delta"]);
    assert_eq!(wrap_title("ab cdefgh ij", 3), vec!["ab", "cde", "fgh", "ij"]);
    assert_eq!(wrap_title("  a   b  ", 0), vec!["a", "b"]);
}

#[test]
fn wrap_rejoins_words_and_pieces() {
    let lines = wrap_title("go  supercalifragilistic\tok", 5);
    assert!(lines.iter().all(|l| l.chars().count() <= 5), "{lines:?}");
    assert_eq!(lines.join(" "), "go super calif ragil istic ok");
}

#[test]
fn hard_split_exact_pieces() {
    assert_eq!(hard_split("abcdefg", 3), vec!["abc", "def", "g"]);
    assert!(hard_split("", 3).is_empty());
}

#[test]
fn inner_width_saturates() {
    assert_eq!(inner_width(40), 36);
    assert_eq!(inner_width(3), 0);
}

fn task(title: &str) -> Task {
    Task {
        id: Some(1),
        title: title.to_string(),
        status: Status::Done,
        priority: Priority::High,
        project_id: 1,
        created_at: 0,
    }
}

#[test]
fn task_row_prefix_indent_and_chunks() {
    let row = task_row(&task("one two three"), Some("Work"), 20);
    assert_eq!(row.prefix, vec!["[x] ", "high   ", "@Work "]);
    assert_eq!(row.indent, " ".repeat(17));
    // 20 - 17 leaves 3 columns, so the title gets the minimum of 10.
    assert_eq!(row.chunks, vec!["one two", "three"]);
    let plain = task_row(&task("a b"), None, 40);
    assert_eq!(plain.prefix.len(), 2);
    assert_eq!(plain.chunks, vec!["a b"]);
}

#[test]
fn footer_and_header_text() {
    assert_eq!(
        footer_text(&Mode::AddingTask("ab".to_string()), "x"),
        (" new task (enter=save esc=cancel) ".to_string(), "ab▏".to_string())
    );
    assert_eq!(footer_text(&Mode::Normal, "ok"), (" status ".to_string(), "ok".to_string()));
    assert_eq!(header_label("Work", 3), "@Work (3)");
}

#[test]
fn screen_follows_mode_overview_and_compact() {
    let mut app = App::new(TaskStore::new(0), false).unwrap();
    assert_eq!(screen(&app), Screen::Panes);
    app.on_key(Key::Char('o')).unwrap();
    assert_eq!(screen(&app), Screen::Overview);
    let mut compact = App::new(TaskStore::new(0), true).unwrap();
    assert_eq!(screen(&compact), Screen::TasksOnly);
    compact.on_key(Key::Char('a')).unwrap();
    assert_eq!(screen(&compact), Screen::ProjectPicker);
}

#[test]
fn project_tag_only_in_compact_view() {
    let task = Task {
        id: Some(1),
        title: "x".to_string(),
        status: Status::Open,
        priority: Priority::Low,
        project_id: 1,
        created_at: 0,
    };
    let panes = App::new(TaskStore::new(0), false).unwrap();
    assert_eq!(row_project(&panes, &task), None);
    let compact = App::new(TaskStore::new(0), true).unwrap();
    assert_eq!(row_project(&compact, &task), Some("Inbox"));
}

#[test]
fn wrap_lines_have_no_edge_space() {
    let lines = wrap_title("  lorem   ipsum dolor  sit ", 8);
    assert_eq!(lines, vec!["lorem", "ipsum", "dolor", "sit"]);
    assert!(lines.iter().all(|l| !l.starts_with(' ') && !l.ends_with(' ')));
}

#[test]
fn wrap_keeps_the_tail_piece_of_a_split_word_alone() {
    // "f gh" would fit in five columns, but the last piece of a split word
    // stands on its own line.
    assert_eq!(wrap_title("abcdef gh", 5), vec!["abcde", "f", "gh"]);
}
