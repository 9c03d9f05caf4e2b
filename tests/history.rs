use editor_core::commands::Command;
use editor_core::editor::Editor;
use editor_core::history::{History, HistoryEntry, HISTORY_LIMIT};

fn editor_with(lines: &[&str], line: usize, col: usize) -> Editor {
    let mut e = Editor::new();
    e.lines = lines.iter().map(|l| l.chars().collect()).collect();
    e.cursors[0].line = line;
    e.cursors[0].col = col;
    e
}

fn text(e: &Editor) -> Vec<String> {
    e.lines.iter().map(|l| l.iter().collect()).collect()
}

#[test]
fn undo_restores_before_backspace() {
    let mut e = editor_with(&["ab", "cd"], 1, 0);
    e.backspace();
    assert_eq!(text(&e), vec!["abcd"]);
    e.undo();
    assert_eq!(text(&e), vec!["ab", "cd"]);
    assert_eq!((e.cursors[0].line, e.cursors[0].col), (1, 0));
    assert_eq!(e.history.len(), 0);
    assert_eq!(e.history.redo_len(), 1);
}

#[test]
fn redo_after_undo_brings_back_the_edit() {
    let mut e = editor_with(&["ab"], 0, 2);
    e.backspace();
    e.undo();
    assert_eq!(text(&e), vec!["ab"]);
    e.redo();
    assert_eq!(text(&e), vec!["a"]);
    assert_eq!((e.cursors[0].line, e.cursors[0].col), (0, 1));
    assert_eq!(e.history.len(), 1);
    assert_eq!(e.history.redo_len(), 0);
    e.undo();
    assert_eq!(text(&e), vec!["ab"]);
}

#[test]
fn redo_of_typed_run_brings_back_the_whole_run() {
    let mut e = Editor::new();
    e.insert(' ');
    e.undo();
    assert_eq!(text(&e), vec![""]);
    e.redo();
    assert_eq!(text(&e), vec![" "]);
    e.insert('a');
    e.insert('b');
    e.undo();
    assert_eq!(text(&e), vec![" "]);
    e.redo();
    assert_eq!(text(&e), vec![" ab"]);
    assert_eq!((e.cursors[0].line, e.cursors[0].col), (0, 3));
}

#[test]
fn undo_of_typed_run_goes_back_before_run() {
    let mut e = editor_with(&["x"], 0, 1);
    e.insert(' ');
    e.insert('a');
    e.insert('b');
    e.insert('c');
    assert_eq!(text(&e), vec!["x abc"]);
    e.undo();
    assert_eq!(text(&e), vec!["x "]);
    assert_eq!((e.cursors[0].line, e.cursors[0].col), (0, 2));
    e.undo();
    assert_eq!(text(&e), vec!["x"]);
}

#[test]
fn undo_with_nothing_says_so() {
    let mut e = Editor::new();
    e.undo();
    assert_eq!(e.notif_text, "No edits to undo");
    e.redo();
    assert_eq!(e.notif_text, "No edits to redo");
}

#[test]
fn new_edit_empties_redo() {
    let mut e = editor_with(&["ab"], 0, 2);
    e.backspace();
    e.undo();
    assert_eq!(e.history.redo_len(), 1);
    e.insert('z');
    assert_eq!(e.history.redo_len(), 0);
}

#[test]
fn history_keeps_at_most_limit() {
    let mut h = History::new();
    for _ in 0..(HISTORY_LIMIT + 5) {
        h.push_history(HistoryEntry::new());
        h.push_redo(HistoryEntry::new());
    }
    assert_eq!(h.len(), HISTORY_LIMIT);
    assert_eq!(h.redo_len(), HISTORY_LIMIT);
    h.clear();
    assert_eq!(h.len(), 0);
    assert_eq!(h.redo_len(), 0);
}

#[test]
fn history_pop_back_takes_last() {
    let mut h = History::new();
    assert!(h.pop_back().is_none());
    h.push_history(HistoryEntry::from(Vec::new(), vec![vec!['a']], Command::Tab));
    h.push_history(HistoryEntry::from(Vec::new(), vec![vec!['b']], Command::Space));
    let e = h.pop_back().unwrap();
    assert_eq!(e.command, Command::Space);
    assert_eq!(e.lines, vec![vec!['b']]);
    assert_eq!(h.len(), 1);
}

#[test]
fn history_undo_chains_plain_characters() {
    let mut h = History::new();
    h.push_history(HistoryEntry::from(Vec::new(), vec![vec!['0']], Command::Backspace));
    h.push_history(HistoryEntry::from(Vec::new(), vec![vec!['1']], Command::AddChar));
    h.push_history(HistoryEntry::from(Vec::new(), vec![vec!['2']], Command::AddChar));
    let e = h.undo(Vec::new(), vec![vec!['3']]).unwrap();
    assert_eq!(e.lines, vec![vec!['1']]);
    assert_eq!(h.len(), 1);
    assert_eq!(h.redo_len(), 2);
    let r = h.redo(Vec::new(), e.lines).unwrap();
    assert_eq!(r.lines, vec![vec!['3']]);
    assert_eq!(h.len(), 3);
    assert_eq!(h.redo_len(), 0);
    let again = h.undo(Vec::new(), r.lines).unwrap();
    assert_eq!(again.lines, vec![vec!['1']]);
}

#[test]
fn history_entry_new_is_empty() {
    let e = HistoryEntry::new();
    assert!(e.cursors.is_empty());
    assert!(e.lines.is_empty());
    assert_eq!(e.command, Command::NULL);
    assert_eq!(Command::new(), Command::NULL);
}
