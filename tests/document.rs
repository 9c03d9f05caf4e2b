use editor_core::editor::Editor;
use editor_core::modal::parse_goto;

fn text(e: &Editor) -> Vec<String> {
    e.lines.iter().map(|l| l.iter().collect()).collect()
}

#[test]
fn load_splits_lines() {
    let mut e = Editor::new();
    e.insert('q');
    e.load_text("a\r\nb\n\nc\n");
    assert_eq!(text(&e), vec!["a", "b", "", "c"]);
    assert_eq!(e.cursors.len(), 1);
    assert_eq!((e.cursors[0].line, e.cursors[0].col), (0, 0));
    assert_eq!(e.history.len(), 0);
    assert_eq!(e.notif_text, "Edit mode");
    assert_eq!(e.text, "a\r\nb\n\nc\n");
}

#[test]
fn load_of_empty_content_gives_one_line() {
    let mut e = Editor::new();
    e.load_text("");
    assert_eq!(text(&e), vec![""]);
    e.load_text("\n");
    assert_eq!(text(&e), vec![""]);
    e.load_text("x\r");
    assert_eq!(text(&e), vec!["x\r"]);
}

#[test]
fn contents_joins_with_line_feeds() {
    let mut e = Editor::new();
    e.load_text("ab\ncd\n");
    assert_eq!(e.contents(), "ab\ncd");
    e.new_line();
    assert_eq!(e.contents(), "\nab\ncd");
}

#[test]
fn goto_parses_line_and_column() {
    assert_eq!(parse_goto("Goto line: 12:5"), Some((12, Some(5))));
    assert_eq!(parse_goto("Goto line: 7"), Some((7, None)));
    assert_eq!(parse_goto("Goto line:\t+7\u{a0}: 2 "), Some((7, Some(2))));
    assert_eq!(parse_goto("Goto line: +"), None);
    assert_eq!(parse_goto("Goto line: x"), None);
    assert_eq!(parse_goto("Goto line"), None);
    assert_eq!(parse_goto("Goto line: 3:"), None);
    assert_eq!(parse_goto("Goto line: 99999999999999999999999"), None);
}

#[test]
fn goto_line_moves_and_clamps() {
    let mut e = Editor::new();
    e.load_text("one\ntwo\nthree");
    e.command_mode = true;
    e.goto_line("Goto line: 2:2");
    assert_eq!((e.cursors[0].line, e.cursors[0].col), (1, 2));
    assert!(!e.command_mode);
    e.goto_line("Goto line: 50:50");
    assert_eq!((e.cursors[0].line, e.cursors[0].col), (2, 5));
    e.goto_line("Goto line: 1");
    assert_eq!((e.cursors[0].line, e.cursors[0].col), (0, 3));
    e.goto_line("Goto line: nope");
    assert_eq!(e.notif_text, "Invalid line number!");
    assert_eq!((e.cursors[0].line, e.cursors[0].col), (0, 3));
}
