use editor_core::commands::Command;
use editor_core::editor::Editor;
use editor_core::finder::Finder;

fn lines_of(lines: &[&str]) -> Vec<Vec<char>> {
    lines.iter().map(|l| l.chars().collect()).collect()
}

#[test]
fn find_hello_world_scenario() {
    let mut f = Finder::new();
    f.query = String::from("o");
    f.find(&lines_of(&["hello world"]), 0);
    assert_eq!(f.search_results, vec![(0, 4), (0, 7)]);
    assert_eq!(f.search_index, 0);
    f.next();
    assert_eq!(f.search_index, 1);
    f.next();
    assert_eq!(f.search_index, 0);
}

#[test]
fn find_ignores_ascii_case_and_does_not_overlap() {
    let mut f = Finder::new();
    f.query = String::from("aA");
    f.find(&lines_of(&["AAAa", "xaay"]), 0);
    assert_eq!(f.search_results, vec![(0, 0), (0, 2), (1, 1)]);
}

#[test]
fn find_starts_at_current_line() {
    let mut f = Finder::new();
    f.query = String::from("x");
    f.find(&lines_of(&["x", "x", "xx"]), 2);
    assert_eq!(f.search_index, 2);
    f.find(&lines_of(&["x", "x", ""]), 2);
    assert_eq!(f.search_index, 0);
}

#[test]
fn find_with_empty_query_finds_nothing() {
    let mut f = Finder::new();
    f.find(&lines_of(&["abc"]), 0);
    assert!(f.search_results.is_empty());
    f.next();
    f.prev();
    assert_eq!(f.search_index, 0);
}

#[test]
fn find_cycles_back_after_k_steps() {
    let mut f = Finder::new();
    f.query = String::from("a");
    f.find(&lines_of(&["a a", "b", "aaa"]), 1);
    let k = f.search_results.len();
    assert_eq!(k, 5);
    let start = f.search_index;
    assert_eq!(start, 2);
    for _ in 0..k {
        f.next();
    }
    assert_eq!(f.search_index, start);
}

#[test]
fn prev_goes_round() {
    let mut f = Finder::new();
    f.query = String::from("b");
    f.find(&lines_of(&["abcb"]), 0);
    f.prev();
    assert_eq!(f.search_index, 1);
    f.prev();
    assert_eq!(f.search_index, 0);
}

#[test]
fn search_moves_primary_cursor() {
    let mut e = Editor::new();
    e.lines = lines_of(&["hello", "world", "low"]);
    e.cursors[0].line = 1;
    e.cursors.push(editor_core::cursor::Cursor::new());
    e.command_mode = true;
    e.command = Command::Find;
    e.search(String::from("LO"));
    assert_eq!(e.cursors.len(), 1);
    assert_eq!(e.command, Command::FindSelection);
    assert_eq!(e.finder.search_results, vec![(0, 3), (2, 0)]);
    assert_eq!((e.cursors[0].line, e.cursors[0].col), (2, 0));
    e.next_result();
    assert_eq!((e.cursors[0].line, e.cursors[0].col), (0, 3));
    e.prev_result();
    assert_eq!((e.cursors[0].line, e.cursors[0].col), (2, 0));
}

#[test]
fn search_reports_empty_and_missing() {
    let mut e = Editor::new();
    e.command_mode = true;
    e.search(String::new());
    assert_eq!(e.notif_text, "Invalid substring!");
    assert!(e.command_mode);
    e.search(String::from("zz"));
    assert_eq!(e.notif_text, "No results found");
    assert!(!e.command_mode);
}
