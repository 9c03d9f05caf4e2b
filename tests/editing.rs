use editor_core::commands::Command;
use editor_core::cursor::Cursor;
use editor_core::editor::Editor;

fn editor_with(lines: &[&str], line: usize, col: usize) -> Editor {
    let mut e = Editor::new();
    e.lines = lines.iter().map(|l| l.chars().collect()).collect();
    e.cursors[0].line = line;
    e.cursors[0].col = col;
    e
}

fn text(e: &Editor) -> Vec<String> {
    e.lines.iter().map(|l| l.iter().collect()).collect()
}

fn pos(e: &Editor, i: usize) -> (usize, usize) {
    (e.cursors[i].line, e.cursors[i].col)
}

fn assert_in_bounds(e: &Editor) {
    assert!(!e.lines.is_empty());
    assert!(!e.cursors.is_empty());
    for c in &e.cursors {
        assert!(c.line < e.lines.len());
        assert!(c.col <= e.lines[c.line].len());
    }
}

#[test]
fn new_editor_has_one_empty_line() {
    let e = Editor::new();
    assert_eq!(text(&e), vec![String::new()]);
    assert_eq!(pos(&e, 0), (0, 0));
    assert_eq!(e.history.len(), 0);
    assert_eq!(e.command, Command::NULL);
}

#[test]
fn new_line_after_brace_scenario() {
    let mut e = editor_with(&["ab{", "  x"], 0, 3);
    e.new_line();
    assert_eq!(text(&e), vec!["ab{", "    ", "  x"]);
    assert_eq!(pos(&e, 0), (1, 4));
}

#[test]
fn new_line_indent_is_four_more_after_brace() {
    let mut e = editor_with(&["    if x {"], 0, 10);
    e.new_line();
    assert_eq!(text(&e), vec!["    if x {", "        "]);
    assert_eq!(pos(&e, 0), (1, 8));
}

#[test]
fn new_line_mid_line_keeps_indent_before_tail() {
    let mut e = editor_with(&["    foo bar"], 0, 8);
    e.new_line();
    assert_eq!(text(&e), vec!["    foo ", "    bar"]);
    assert_eq!(pos(&e, 0), (1, 4));
}

#[test]
fn new_line_indent_rounds_down_to_levels() {
    let mut e = editor_with(&["  x{"], 0, 4);
    e.new_line();
    assert_eq!(text(&e), vec!["  x{", "    "]);
}

#[test]
fn insert_types_at_cursor() {
    let mut e = editor_with(&["ac"], 0, 1);
    e.insert('b');
    assert_eq!(text(&e), vec!["abc"]);
    assert_eq!(pos(&e, 0), (0, 2));
    assert_eq!(e.history.len(), 1);
}

#[test]
fn insert_at_two_cursors_on_distinct_lines() {
    let mut e = editor_with(&["a", "b"], 0, 1);
    let mut c = Cursor::new();
    c.line = 1;
    e.cursors.push(c);
    e.insert('!');
    assert_eq!(text(&e), vec!["a!", "!b"]);
    assert_eq!(pos(&e, 0), (0, 2));
    assert_eq!(pos(&e, 1), (1, 1));
}

#[test]
fn insert_string_pastes_without_history() {
    let mut e = editor_with(&["hd"], 0, 1);
    e.insert_string(String::from("ello worl"));
    assert_eq!(text(&e), vec!["hello world"]);
    assert_eq!(pos(&e, 0), (0, 10));
    assert_eq!(e.history.len(), 0);
}

#[test]
fn backspace_deletes_previous_char() {
    let mut e = editor_with(&["abc"], 0, 2);
    e.backspace();
    assert_eq!(text(&e), vec!["ac"]);
    assert_eq!(pos(&e, 0), (0, 1));
    assert_eq!(e.history.len(), 1);
}

#[test]
fn backspace_joins_lines() {
    let mut e = editor_with(&["ab", "cd"], 1, 0);
    e.backspace();
    assert_eq!(text(&e), vec!["abcd"]);
    assert_eq!(pos(&e, 0), (0, 2));
}

#[test]
fn backspace_at_origin_records_nothing() {
    let mut e = editor_with(&["abc"], 0, 0);
    e.insert('x');
    e.left();
    let before = e.history.len();
    e.backspace();
    assert_eq!(e.history.len(), before);
    assert_eq!(text(&e), vec!["xabc"]);
}

#[test]
fn backspace_word_removes_word() {
    let mut e = editor_with(&["foo bar"], 0, 7);
    e.backspace_word();
    assert_eq!(text(&e), vec!["foo "]);
    assert_eq!(pos(&e, 0), (0, 4));
    e.backspace_word();
    assert_eq!(text(&e), vec!["foo"]);
    assert_eq!(pos(&e, 0), (0, 3));
    e.backspace_word();
    assert_eq!(text(&e), vec![""]);
    assert_eq!(pos(&e, 0), (0, 0));
}

#[test]
fn backspace_line_clears_line() {
    let mut e = editor_with(&["hello", "x"], 0, 3);
    e.backspace_line();
    assert_eq!(text(&e), vec!["", "x"]);
    assert_eq!(pos(&e, 0), (0, 0));
    let mut f = editor_with(&["hello"], 0, 0);
    f.backspace_line();
    assert_eq!(text(&f), vec!["hello"]);
}

#[test]
fn tab_on_first_lines_inserts_one_level() {
    let mut e = editor_with(&["ab"], 0, 1);
    e.tab();
    assert_eq!(text(&e), vec!["a    b"]);
    assert_eq!(pos(&e, 0), (0, 5));
}

#[test]
fn tab_follows_line_above() {
    let mut e = editor_with(&["x", "        y", ""], 2, 0);
    e.tab();
    assert_eq!(text(&e)[2], "        ");
    let mut f = editor_with(&["x", "    y {", ""], 2, 0);
    f.tab();
    assert_eq!(text(&f)[2], "        ");
    let mut g = editor_with(&["x", "y", ""], 2, 0);
    g.tab();
    assert_eq!(text(&g)[2], "    ");
}

#[test]
fn adjust_cursors_clamps() {
    let mut e = editor_with(&["ab", "c"], 0, 0);
    e.cursors[0].line = 7;
    e.cursors[0].col = 9;
    e.adjust_cursors();
    assert_eq!(pos(&e, 0), (1, 1));
}

#[test]
fn invariant_holds_over_mixed_edits() {
    let mut e = editor_with(&["one", "two", "three"], 2, 5);
    let mut c = Cursor::new();
    c.line = 1;
    c.col = 3;
    e.cursors.push(c);
    e.backspace();
    assert_in_bounds(&e);
    e.new_line();
    assert_in_bounds(&e);
    e.backspace();
    e.backspace();
    e.backspace();
    e.backspace();
    assert_in_bounds(&e);
    e.undo();
    assert_in_bounds(&e);
    e.down_five();
    e.right_word();
    e.left_word();
    assert_in_bounds(&e);
}

#[test]
fn dbg_puts_line_first() {
    let mut e = editor_with(&["abc"], 0, 3);
    e.dbg(String::from("x"));
    assert_eq!(text(&e), vec!["x", "abc"]);
    assert_eq!(pos(&e, 0), (0, 1));
}

#[test]
fn get_line_gives_cursor_line() {
    let mut e = editor_with(&["ab", "cd"], 1, 0);
    let mut c = e.cursors[0].clone();
    e.get_line(&mut c).push('e');
    assert_eq!(text(&e), vec!["ab", "cde"]);
}

#[test]
fn backspace_line_and_word_at_line_start_record_nothing() {
    let mut e = editor_with(&["abc", "de"], 1, 0);
    e.backspace_line();
    assert_eq!(e.history.len(), 0);
    assert_eq!(text(&e), vec!["abc", "de"]);
    e.backspace_word();
    assert_eq!(e.history.len(), 0);
    assert_eq!(text(&e), vec!["abc", "de"]);
    assert_eq!(pos(&e, 0), (1, 0));
}

#[test]
fn left_word_moves_left_over_trailing_spaces() {
    let mut e = editor_with(&["a  "], 0, 3);
    e.left_word();
    assert_eq!(pos(&e, 0), (0, 2));
    e.left_word();
    assert_eq!(pos(&e, 0), (0, 0));
}
