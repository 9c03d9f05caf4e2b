use editor_core::editor::Editor;
use editor_core::modal::Direction;

fn editor_with(lines: &[&str], line: usize, col: usize) -> Editor {
    let mut e = Editor::new();
    e.lines = lines.iter().map(|l| l.chars().collect()).collect();
    e.cursors[0].line = line;
    e.cursors[0].col = col;
    e
}

fn pos(e: &Editor) -> (usize, usize) {
    (e.cursors[0].line, e.cursors[0].col)
}

#[test]
fn right_moves_over_line_end() {
    let mut e = editor_with(&["ab", "c"], 0, 1);
    e.right();
    assert_eq!(pos(&e), (0, 2));
    e.right();
    assert_eq!(pos(&e), (1, 0));
    e.right();
    e.right();
    assert_eq!(pos(&e), (1, 1));
}

#[test]
fn left_moves_over_line_start() {
    let mut e = editor_with(&["ab", "c"], 1, 0);
    e.left();
    assert_eq!(pos(&e), (0, 2));
    e.left();
    e.left();
    e.left();
    assert_eq!(pos(&e), (0, 0));
}

#[test]
fn line_ends() {
    let mut e = editor_with(&["hello"], 0, 2);
    e.right_line();
    assert_eq!(pos(&e), (0, 5));
    e.left_line();
    assert_eq!(pos(&e), (0, 0));
}

#[test]
fn down_and_up_cut_column() {
    let mut e = editor_with(&["hello", "hi", "there"], 0, 4);
    e.down();
    assert_eq!(pos(&e), (1, 2));
    e.down();
    assert_eq!(pos(&e), (2, 2));
    e.down();
    assert_eq!(pos(&e), (2, 5));
    e.up();
    assert_eq!(pos(&e), (1, 2));
    e.up();
    e.up();
    assert_eq!(pos(&e), (0, 2));
}

#[test]
fn five_line_moves() {
    let lines: Vec<String> = (0..8).map(|i| format!("line{}", i)).collect();
    let refs: Vec<&str> = lines.iter().map(|s| s.as_str()).collect();
    let mut e = editor_with(&refs, 1, 2);
    e.down_five();
    assert_eq!(pos(&e), (6, 2));
    e.down_five();
    assert_eq!(pos(&e), (7, 5));
    e.up_five();
    assert_eq!(pos(&e), (2, 5));
    e.up_five();
    assert_eq!(pos(&e), (0, 5));
}

#[test]
fn word_moves() {
    let mut e = editor_with(&["foo bar baz"], 0, 0);
    e.right_word();
    assert_eq!(pos(&e), (0, 3));
    e.right_word();
    assert_eq!(pos(&e), (0, 7));
    e.left_word();
    assert_eq!(pos(&e), (0, 4));
    e.left_word();
    assert_eq!(pos(&e), (0, 0));
}

#[test]
fn right_word_from_line_start_passes_indent() {
    let mut e = editor_with(&["    foo"], 0, 0);
    e.right_word();
    assert_eq!(pos(&e), (0, 4));
}

#[test]
fn selection_extends_from_cursor() {
    let mut e = editor_with(&["abc", "de"], 0, 1);
    e.extend_selections(Direction::Right);
    assert_eq!(e.cursors[0].selection_anchor, Some((0, 1)));
    assert_eq!(e.cursors[0].selection_end, (0, 2));
    e.extend_selections(Direction::Down);
    assert_eq!(e.cursors[0].selection_anchor, Some((0, 1)));
    assert_eq!(e.cursors[0].selection_end, (1, 1));
    assert_eq!(pos(&e), (0, 1));
    e.cursors[0].col = 0;
    let before = e.cursors[0].selection_end;
    e.extend_selections(Direction::Left);
    assert_eq!(e.cursors[0].selection_end, before);
}

#[test]
fn cursor_equality_ignores_scratch() {
    let mut a = editor_core::cursor::Cursor::new();
    let mut b = editor_core::cursor::Cursor::new();
    a.clipboard.push_str("copied");
    b.expand_selection(3, 3);
    assert!(a == b);
    b.col = 1;
    assert!(a != b);
}
