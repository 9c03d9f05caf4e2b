use editor_core::commands::Command;
use editor_core::editor::Editor;
use editor_core::input::{count_status, handle_command, handle_ctrl, handle_ctrl_shift, Action, Key};

fn editor_with(lines: &[&str], line: usize, col: usize) -> Editor {
    let mut e = Editor::new();
    e.lines = lines.iter().map(|l| l.chars().collect()).collect();
    e.cursors[0].line = line;
    e.cursors[0].col = col;
    e
}

fn text(e: &Editor) -> Vec<String> {
    e.lines.iter().map(|l| l.iter().collect()).collect()
}

fn type_keys(e: &mut Editor, s: &str) {
    for c in s.chars() {
        assert_eq!(handle_command(e, Key::Char(c), false), Action::Nothing);
    }
}

#[test]
fn ctrl_z_undoes_and_reports() {
    let mut e = editor_with(&["ab"], 0, 2);
    assert_eq!(handle_ctrl(&mut e, Key::Char('z')), Action::Nothing);
    assert_eq!(e.notif_text, "No edits to undo");
    e.backspace();
    handle_ctrl(&mut e, Key::Char('z'));
    assert_eq!(e.notif_text, "Undo");
    assert_eq!(text(&e), vec!["ab"]);
}

#[test]
fn ctrl_s_asks_to_save() {
    let mut e = Editor::new();
    assert_eq!(handle_ctrl(&mut e, Key::Char('s')), Action::Save);
    assert_eq!(e.notif_text, "File saved");
}

#[test]
fn ctrl_v_pastes_at_cursor() {
    let mut e = editor_with(&["<>"], 0, 1);
    handle_ctrl(&mut e, Key::Char('v'));
    assert_eq!(text(&e), vec!["<Hello, world!>"]);
    assert_eq!(e.notif_text, "Paste from clipboard");
}

#[test]
fn ctrl_h_clears_line_and_arrows_go_to_ends() {
    let mut e = editor_with(&["abc"], 0, 1);
    handle_ctrl(&mut e, Key::Right);
    assert_eq!(e.cursors[0].col, 3);
    handle_ctrl(&mut e, Key::Left);
    assert_eq!(e.cursors[0].col, 0);
    e.cursors[0].col = 2;
    handle_ctrl(&mut e, Key::Char('h'));
    assert_eq!(text(&e), vec![""]);
    assert_eq!(e.notif_text, "Delete line");
    handle_ctrl(&mut e, Key::Char('q'));
    assert_eq!(e.notif_text, "Invalid command");
}

#[test]
fn goto_prompt_end_to_end() {
    let mut e = editor_with(&["one", "two", "three"], 0, 0);
    handle_ctrl(&mut e, Key::Char('g'));
    assert!(e.command_mode);
    assert_eq!(e.command, Command::GotoLine);
    type_keys(&mut e, "3:9");
    assert_eq!(e.notif_text, "Goto line: 3:9");
    handle_command(&mut e, Key::Backspace, false);
    type_keys(&mut e, "2");
    handle_command(&mut e, Key::Enter, false);
    assert!(!e.command_mode);
    assert_eq!((e.cursors[0].line, e.cursors[0].col), (2, 2));
}

#[test]
fn find_prompt_end_to_end() {
    let mut e = editor_with(&["hello world"], 0, 0);
    handle_ctrl(&mut e, Key::Char('f'));
    assert_eq!(e.command, Command::Find);
    type_keys(&mut e, "o");
    handle_command(&mut e, Key::Enter, false);
    assert_eq!(e.command, Command::FindSelection);
    assert_eq!(e.notif_text, "1 of 2");
    assert_eq!((e.cursors[0].line, e.cursors[0].col), (0, 4));
    handle_command(&mut e, Key::Right, false);
    assert_eq!(e.notif_text, "2 of 2");
    assert_eq!((e.cursors[0].line, e.cursors[0].col), (0, 7));
    handle_command(&mut e, Key::Down, false);
    assert_eq!(e.notif_text, "1 of 2");
    handle_command(&mut e, Key::Up, false);
    assert_eq!(e.notif_text, "2 of 2");
    handle_command(&mut e, Key::Char('x'), false);
    assert_eq!(e.notif_text, "Invalid command. Use arrow keys to navigate search results");
    handle_command(&mut e, Key::Enter, false);
    assert!(!e.command_mode);
    assert_eq!(e.notif_text, "Editor mode");
}

#[test]
fn move_mode_keys() {
    let mut e = editor_with(&["abc", "de"], 0, 1);
    handle_ctrl(&mut e, Key::Char('j'));
    assert_eq!(e.command, Command::MoveCursor);
    handle_command(&mut e, Key::Char('s'), false);
    assert_eq!((e.cursors[0].line, e.cursors[0].col), (1, 1));
    handle_command(&mut e, Key::Char('d'), false);
    assert_eq!((e.cursors[0].line, e.cursors[0].col), (1, 2));
    handle_command(&mut e, Key::Char('a'), true);
    assert_eq!((e.cursors[0].line, e.cursors[0].col), (1, 0));
    handle_command(&mut e, Key::Char('w'), false);
    assert_eq!((e.cursors[0].line, e.cursors[0].col), (0, 0));
    handle_command(&mut e, Key::Esc, false);
    assert!(!e.command_mode);
    assert_eq!(e.notif_text, "Editor mode");
}

#[test]
fn open_prompt_asks_before_dropping_changes() {
    let mut e = Editor::new();
    handle_ctrl(&mut e, Key::Char('o'));
    assert_eq!(handle_command(&mut e, Key::Tab, false), Action::ListDir);
    type_keys(&mut e, "b.txt");
    e.changes_saved = false;
    assert_eq!(handle_command(&mut e, Key::Enter, false), Action::Nothing);
    assert_eq!(e.command, Command::SavePrompt);
    assert_eq!(e.file_to_open, "b.txt");
    assert_eq!(handle_command(&mut e, Key::Char('n'), false), Action::Open);
    assert_eq!(e.filename, "b.txt");
}

#[test]
fn open_prompt_with_saved_changes_switches_file() {
    let mut e = Editor::new();
    handle_ctrl(&mut e, Key::Char('o'));
    type_keys(&mut e, "c.txt");
    assert_eq!(handle_command(&mut e, Key::Enter, false), Action::SaveThenOpen);
    assert_eq!(e.file_to_open, "c.txt");
    assert!(!e.command_mode);
    let mut f = Editor::new();
    handle_ctrl(&mut f, Key::Char('o'));
    assert_eq!(handle_command(&mut f, Key::Enter, false), Action::Nothing);
    assert_eq!(f.notif_text, "Invalid filename!");
}

#[test]
fn ctrl_shift_arrows_extend_selection() {
    let mut e = editor_with(&["abc"], 0, 1);
    handle_ctrl_shift(&mut e, Key::Right);
    assert_eq!(e.cursors[0].selection_anchor, Some((0, 1)));
    assert_eq!(e.cursors[0].selection_end, (0, 2));
    handle_ctrl_shift(&mut e, Key::Up);
    assert_eq!(e.cursors[0].selection_end, (0, 2));
}

#[test]
fn count_status_writes_numbers() {
    assert_eq!(count_status(1, 2), "1 of 2");
    assert_eq!(count_status(10, 305), "10 of 305");
    assert_eq!(count_status(0, 0), "0 of 0");
}

#[test]
fn escape_on_prompt_clears_status() {
    let mut e = Editor::new();
    handle_ctrl(&mut e, Key::Char('g'));
    handle_command(&mut e, Key::Esc, false);
    assert!(!e.command_mode);
    assert_eq!(e.notif_text, "");
}
