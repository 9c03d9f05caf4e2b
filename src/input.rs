use vstd::prelude::*;

use crate::commands::Command;
use crate::cursor::moved;
use crate::editor::{clamp_pos, edit_doc, pushed_snapshot, undone_doc, Editor};
use crate::edits::{backspace_line_step, insert_text_step, recorded_if, some_cursor_past_line_start};
use crate::modal::{searched, select_towards, went_to, Direction};
use crate::motion::{down_pos, left_line_pos, left_pos, move_all, right_line_pos, right_pos, up_pos};
use crate::text::{chars_of, pop_char, push_char};

verus! {

/// A key as the editor reads it.
#[derive(PartialEq, Eq, Structural, Clone, Copy, Debug)]
pub enum Key {
    Char(char),
    Enter,
    Esc,
    Tab,
    Backspace,
    Left,
    Right,
    Up,
    Down,
    Other,
}

/// Work that a key asks of the program around the editor.
#[derive(PartialEq, Eq, Structural, Clone, Copy, Debug)]
pub enum Action {
    Nothing,
    /// Write `contents()` to the file `filename`.
    Save,
    /// Put the names in the working directory before the first line, with `dbg`.
    ListDir,
    /// Read the file `filename` and load it.
    Open,
    /// Write `contents()` to the file `filename`, then take `file_to_open` as
    /// the file name, and read and load that file.
    SaveThenOpen,
}

/// All fields but the status are as in `before`.
pub open spec fn kept_but_status(before: Editor, after: Editor) -> bool {
    &&& after.lines == before.lines
    &&& after.cursors == before.cursors
    &&& after.history == before.history
    &&& after.finder == before.finder
    &&& after.filename == before.filename
    &&& after.file_to_open == before.file_to_open
    &&& after.text == before.text
    &&& after.changes_saved == before.changes_saved
    &&& after.command == before.command
    &&& after.command_mode == before.command_mode
}

/// Only the status changed, to `msg`.
pub open spec fn notified(before: Editor, after: Editor, msg: Seq<char>) -> bool {
    kept_but_status(before, after) && after.notif_text@ == msg
}

/// A prompt `msg` opened for the modal command `cmd`; the document stays.
pub open spec fn prompted(before: Editor, after: Editor, msg: Seq<char>, cmd: Command) -> bool {
    &&& after.lines == before.lines
    &&& after.cursors == before.cursors
    &&& after.history == before.history
    &&& after.filename == before.filename
    &&& after.file_to_open == before.file_to_open
    &&& after.text == before.text
    &&& after.changes_saved == before.changes_saved
    &&& after.command == cmd
    &&& after.command_mode
    &&& after.notif_text@ == msg
}

/// Only the cursors changed, each moved by `f`.
pub open spec fn moved_by(before: Editor, after: Editor, f: spec_fn(Seq<Seq<char>>, int, int) -> (int, int)) -> bool {
    &&& after.cursors@ == move_all(before.text(), before.cursors@, f)
    &&& after.lines == before.lines
    &&& after.history == before.history
    &&& after.same_status(&before)
}

/// The decimal digits of `n`.
pub open spec fn decimal_digits(n: nat) -> Seq<char>
    decreases n,
{
    if n < 10 {
        seq![digit_char(n)]
    } else {
        decimal_digits(n / 10).push(digit_char(n % 10))
    }
}

/// The digit of `d`, below ten.
pub open spec fn digit_char(d: nat) -> char {
    if d == 0 { '0' } else if d == 1 { '1' } else if d == 2 { '2' } else if d == 3 { '3' } else if d == 4 { '4' }
    else if d == 5 { '5' } else if d == 6 { '6' } else if d == 7 { '7' } else if d == 8 { '8' } else { '9' }
}

/// The status that names search result `i` of `n`: `i of n`.
pub open spec fn count_text(i: nat, n: nat) -> Seq<char> {
    decimal_digits(i) + seq![' ', 'o', 'f', ' '] + decimal_digits(n)
}

/// What the user typed after a prompt of `k` characters.
pub open spec fn reply(status: Seq<char>, k: int) -> Seq<char> {
    if status.len() > k { status.subrange(k, status.len() as int) } else { Seq::empty() }
}

/// The status after a step through search results: which result of how many
/// is current, when the current index is a result.
pub open spec fn result_status(before: Editor, after: Editor) -> bool {
    let f = after.finder;
    if f.search_index < f.search_results@.len() {
        after.notif_text@ == count_text((f.search_index + 1) as nat, f.search_results@.len())
    } else {
        after.notif_text == before.notif_text
    }
}

/// The first cursor shows the current search result, when there is one.
pub open spec fn shows_result(before: Editor, after: Editor) -> bool {
    let f = after.finder;
    f.search_index < f.search_results@.len() ==> after.cursors@[0] == moved(before.cursors@[0],
        clamp_pos(before.text(), f.search_results@[f.search_index as int].0 as int, f.search_results@[f.search_index as int].1 as int).0,
        clamp_pos(before.text(), f.search_results@[f.search_index as int].0 as int, f.search_results@[f.search_index as int].1 as int).1)
}

fn push_digit(s: &mut String, d: usize)
    requires
        d < 10,
    ensures
        final(s)@ == old(s)@.push(digit_char(d as nat)),
{
    let c = if d == 0 { '0' } else if d == 1 { '1' } else if d == 2 { '2' } else if d == 3 { '3' } else if d == 4 { '4' }
        else if d == 5 { '5' } else if d == 6 { '6' } else if d == 7 { '7' } else if d == 8 { '8' } else { '9' };
    push_char(s, c);
}

/// Appends the decimal digits of `n`.
pub fn push_decimal(s: &mut String, n: usize)
    ensures
        final(s)@ == old(s)@ + decimal_digits(n as nat),
    decreases n,
{
    if n >= 10 {
        push_decimal(s, n / 10);
        push_digit(s, n % 10);
        assert(final(s)@ =~= old(s)@ + decimal_digits(n as nat)) by {
            assert(decimal_digits(n as nat) == decimal_digits((n / 10) as nat).push(digit_char((n % 10) as nat)));
        }
    } else {
        push_digit(s, n);
        assert(s@ =~= old(s)@ + decimal_digits(n as nat));
    }
}

/// The text `i of n`.
pub fn count_status(i: usize, n: usize) -> (r: String)
    ensures
        r@ == count_text(i as nat, n as nat),
{
    let mut r = String::new();
    push_decimal(&mut r, i);
    push_char(&mut r, ' ');
    push_char(&mut r, 'o');
    push_char(&mut r, 'f');
    push_char(&mut r, ' ');
    push_decimal(&mut r, n);
    assert(r@ =~= count_text(i as nat, n as nat));
    r
}

/// The characters after the first `k` of `s`, as a string.
fn reply_of(s: &String, k: usize) -> (r: String)
    ensures
        r@ == reply(s@, k as int),
{
    let chars = chars_of(s.as_str());
    let mut r = String::new();
    let mut i = k;
    while i < chars.len()
        invariant
            chars@ == s@,
            k <= i || chars@.len() <= k,
            i >= k,
            k < chars@.len() ==> i <= chars@.len() && r@ == chars@.subrange(k as int, i as int),
            k >= chars@.len() ==> r@ == Seq::<char>::empty(),
        decreases chars@.len() - i,
    {
        push_char(&mut r, chars[i]);
        i = i + 1;
        assert(r@ =~= chars@.subrange(k as int, i as int));
    }
    proof {
        if k < chars@.len() {
            assert(i == chars@.len());
        }
    }
    assert(r@ =~= reply(s@, k as int));
    r
}

impl Editor {
    /// Sets the status to `i of n` for the current search result, when the
    /// current index is a result.
    fn show_result_status(&mut self)
        ensures
            result_status(*old(self), *final(self)),
            kept_but_status(*old(self), *final(self)),
    {
        let i = self.finder.search_index;
        let n = self.finder.search_results.len();
        if i < n {
            self.notif_text = count_status(i + 1, n);
        }
    }
}

/// Handles a key pressed with Control.
pub fn handle_ctrl(editor: &mut Editor, key: Key) -> (r: Action)
    requires
        old(editor).wf(),
    ensures
        final(editor).wf(),
        r == (if key == Key::Char('s') { Action::Save } else { Action::Nothing }),
        match key {
            Key::Char('z') => undone_doc(*old(editor), *final(editor)) && final(editor).notif_text@ == (if old(
                editor,
            ).history.undos().len() > 0 {
                "Undo"@
            } else {
                "No edits to undo"@
            }),
            Key::Char('c') => notified(*old(editor), *final(editor), "Copy from clipboard"@),
            Key::Char('v') => (final(editor).text(), final(editor).cursors@) == edit_doc(old(editor).text(), old(editor).cursors@,
                insert_text_step("Hello, world!"@)) && final(editor).history == old(editor).history
                && final(editor).same_settings(old(editor))
                && final(editor).notif_text@ == "Paste from clipboard"@,
            Key::Char('s') => notified(*old(editor), *final(editor), "File saved"@),
            Key::Char(':') => notified(*old(editor), *final(editor), "Command mode"@),
            Key::Char('p') => notified(*old(editor), *final(editor), "Open File"@),
            Key::Char('g') => prompted(*old(editor), *final(editor), "Goto line: "@, Command::GotoLine)
                && final(editor).finder == old(editor).finder,
            Key::Char('j') => prompted(*old(editor), *final(editor), "Move cursor with WASD"@, Command::MoveCursor)
                && final(editor).finder == old(editor).finder,
            Key::Char('l') => notified(*old(editor), *final(editor), "Select line"@),
            Key::Char('d') => notified(*old(editor), *final(editor), "Select word / duplicates"@),
            Key::Char('f') => prompted(*old(editor), *final(editor), "Find substring: "@, Command::Find)
                && final(editor).finder.query@.len() == 0 && final(editor).finder.search_results@.len() == 0
                && final(editor).finder.search_index == 0,
            Key::Char('h') => (final(editor).text(), final(editor).cursors@) == edit_doc(old(editor).text(), old(editor).cursors@,
                backspace_line_step()) && recorded_if(*old(editor), *final(editor),
                some_cursor_past_line_start(old(editor).cursors@), Command::Backspace)
                && final(editor).same_settings(old(editor)) && final(editor).notif_text@ == "Delete line"@,
            Key::Char('o') => prompted(*old(editor), *final(editor), "Open file: "@, Command::OpenFile)
                && final(editor).finder == old(editor).finder,
            Key::Right => moved_by(*old(editor), *final(editor), right_line_pos()),
            Key::Left => moved_by(*old(editor), *final(editor), left_line_pos()),
            _ => notified(*old(editor), *final(editor), "Invalid command"@),
        },
{
    match key {
        Key::Char('z') => {
            let had = editor.history.len() > 0;
            proof {
                crate::history::lemma_chain_len_bound(editor.history.undos());
            }
            editor.undo();
            if had {
                editor.notif_text = String::from_str("Undo");
            }
            Action::Nothing
        },
        Key::Char('c') => {
            editor.notif_text = String::from_str("Copy from clipboard");
            Action::Nothing
        },
        Key::Char('v') => {
            editor.notif_text = String::from_str("Paste from clipboard");
            editor.insert_string(String::from_str("Hello, world!"));
            Action::Nothing
        },
        Key::Char('s') => {
            editor.notif_text = String::from_str("File saved");
            Action::Save
        },
        Key::Char(':') => {
            editor.notif_text = String::from_str("Command mode");
            Action::Nothing
        },
        Key::Char('p') => {
            editor.notif_text = String::from_str("Open File");
            Action::Nothing
        },
        Key::Char('g') => {
            editor.notif_text = String::from_str("Goto line: ");
            editor.command_mode = true;
            editor.command = Command::GotoLine;
            Action::Nothing
        },
        Key::Char('j') => {
            editor.notif_text = String::from_str("Move cursor with WASD");
            editor.command_mode = true;
            editor.command = Command::MoveCursor;
            Action::Nothing
        },
        Key::Char('l') => {
            editor.notif_text = String::from_str("Select line");
            Action::Nothing
        },
        Key::Char('d') => {
            editor.notif_text = String::from_str("Select word / duplicates");
            Action::Nothing
        },
        Key::Char('f') => {
            editor.finder = crate::finder::Finder::new();
            editor.notif_text = String::from_str("Find substring: ");
            editor.command_mode = true;
            editor.command = Command::Find;
            Action::Nothing
        },
        Key::Char('h') => {
            editor.notif_text = String::from_str("Delete line");
            editor.backspace_line();
            Action::Nothing
        },
        Key::Char('o') => {
            editor.notif_text = String::from_str("Open file: ");
            editor.command_mode = true;
            editor.command = Command::OpenFile;
            Action::Nothing
        },
        Key::Right => {
            editor.right_line();
            Action::Nothing
        },
        Key::Left => {
            editor.left_line();
            Action::Nothing
        },
        _ => {
            editor.notif_text = String::from_str("Invalid command");
            Action::Nothing
        },
    }
}

/// Handles a key pressed with Control and Shift: the arrows extend the
/// selection of every cursor, other keys do nothing.
pub fn handle_ctrl_shift(editor: &mut Editor, key: Key)
    requires
        old(editor).wf(),
    ensures
        final(editor).wf(),
        final(editor).lines == old(editor).lines,
        final(editor).history == old(editor).history,
        final(editor).same_status(old(editor)),
        final(editor).cursors@ == match key {
            Key::Left => Seq::new(old(editor).cursors@.len(), |i: int| select_towards(old(editor).text(), old(editor).cursors@[i], Direction::Left)),
            Key::Right => Seq::new(old(editor).cursors@.len(), |i: int| select_towards(old(editor).text(), old(editor).cursors@[i], Direction::Right)),
            Key::Up => Seq::new(old(editor).cursors@.len(), |i: int| select_towards(old(editor).text(), old(editor).cursors@[i], Direction::Up)),
            Key::Down => Seq::new(old(editor).cursors@.len(), |i: int| select_towards(old(editor).text(), old(editor).cursors@[i], Direction::Down)),
            _ => old(editor).cursors@,
        },
{
    match key {
        Key::Left => editor.extend_selections(Direction::Left),
        Key::Right => editor.extend_selections(Direction::Right),
        Key::Up => editor.extend_selections(Direction::Up),
        Key::Down => editor.extend_selections(Direction::Down),
        _ => {},
    }
}

/// The mode ended: the status reads `Editor mode` and nothing else changed.
pub open spec fn left_mode(before: Editor, after: Editor) -> bool {
    &&& after.lines == before.lines
    &&& after.cursors == before.cursors
    &&& after.history == before.history
    &&& after.finder == before.finder
    &&& after.filename == before.filename
    &&& after.file_to_open == before.file_to_open
    &&& after.text == before.text
    &&& after.changes_saved == before.changes_saved
    &&& after.command == before.command
    &&& !after.command_mode
    &&& after.notif_text@ == "Editor mode"@
}

/// A step through the search results: the index moves as `step` says, the
/// first cursor shows the new result and the status names it.
pub open spec fn stepped_result(before: Editor, after: Editor, step: spec_fn(int, int) -> int) -> bool {
    &&& after.lines == before.lines
    &&& after.history == before.history
    &&& after.finder.search_results == before.finder.search_results
    &&& after.finder.query == before.finder.query
    &&& before.finder.search_results@.len() > 0 ==> after.finder.search_index == step(
        before.finder.search_index as int, before.finder.search_results@.len() as int)
    &&& before.finder.search_results@.len() == 0 ==> after.finder.search_index == before.finder.search_index
    &&& shows_result(before, after)
    &&& result_status(before, after)
    &&& after.cursors@.len() == before.cursors@.len()
    &&& after.filename == before.filename
    &&& after.file_to_open == before.file_to_open
    &&& after.text == before.text
    &&& after.changes_saved == before.changes_saved
    &&& after.command == before.command
    &&& after.command_mode == before.command_mode
}

/// What a key does in cursor-moving mode.
pub open spec fn move_mode_done(before: Editor, after: Editor, key: Key, ctrl: bool) -> bool {
    match key {
        Key::Char('w') | Key::Char('i') | Key::Up => moved_by(before, after, up_pos()),
        Key::Char('s') | Key::Char('k') | Key::Down => moved_by(before, after, down_pos()),
        Key::Char('a') | Key::Char('j') | Key::Left => if ctrl {
            moved_by(before, after, left_line_pos())
        } else {
            moved_by(before, after, left_pos())
        },
        Key::Char('d') | Key::Char('l') | Key::Right => if ctrl {
            moved_by(before, after, right_line_pos())
        } else {
            moved_by(before, after, right_pos())
        },
        Key::Enter | Key::Esc => left_mode(before, after),
        _ => after == before,
    }
}

/// What a key does while stepping through search results.
pub open spec fn result_mode_done(before: Editor, after: Editor, key: Key) -> bool {
    match key {
        Key::Right | Key::Down => stepped_result(before, after, |i: int, k: int| crate::finder::next_index(i, k)),
        Key::Left | Key::Up => stepped_result(before, after, |i: int, k: int| crate::finder::prev_index(i, k)),
        Key::Enter => shows_result(before, after) && after.cursors@.len() == before.cursors@.len()
            && !after.command_mode && after.notif_text@ == "Editor mode"@
            && after.lines == before.lines && after.history == before.history
            && after.finder == before.finder && after.command == before.command,
        Key::Esc => left_mode(before, after),
        _ => notified(before, after, "Invalid command. Use arrow keys to navigate search results"@),
    }
}

/// What a key does on a prompt, with `r` the work it asks for.
pub open spec fn prompt_done(before: Editor, after: Editor, key: Key, r: Action) -> bool {
    match key {
        Key::Char(c) => if before.command == Command::SavePrompt {
            if c == 'y' {
                r == Action::SaveThenOpen && after == before
            } else if c == 'n' {
                r == Action::Open && after.filename == before.file_to_open
                    && before == Editor { filename: before.filename, ..after }
            } else {
                r == Action::Nothing && after == before
            }
        } else {
            r == Action::Nothing && kept_but_status(before, after)
                && after.notif_text@ == before.notif_text@.push(c)
        },
        Key::Backspace => r == Action::Nothing && kept_but_status(before, after)
            && after.notif_text@ == (if before.notif_text@.len() > 0 {
                before.notif_text@.drop_last()
            } else {
                before.notif_text@
            }),
        Key::Esc => r == Action::Nothing && !after.command_mode
            && after.notif_text@ == Seq::<char>::empty()
            && kept_but_status(before, Editor { command_mode: before.command_mode, ..after }),
        Key::Enter => match before.command {
            Command::GotoLine => r == Action::Nothing && went_to(before, after, before.notif_text@),
            Command::Find => r == Action::Nothing && searched(before, after, reply(before.notif_text@, 16)),
            Command::OpenFile => open_entered(before, after, r),
            _ => r == Action::Nothing && after == before,
        },
        _ => r == Action::Nothing && after == before,
    }
}

/// A key in cursor-moving mode: the letters `w a s d`, `i j k l` and the
/// arrows move the cursors (with Control, left and right go to the line
/// ends), Enter and Esc end the mode.
pub fn move_mode_key(editor: &mut Editor, key: Key, ctrl: bool)
    requires
        old(editor).wf(),
    ensures
        final(editor).wf(),
        move_mode_done(*old(editor), *final(editor), key, ctrl),
{
    match key {
        Key::Char('w') | Key::Char('i') | Key::Up => editor.up(),
        Key::Char('s') | Key::Char('k') | Key::Down => editor.down(),
        Key::Char('a') | Key::Char('j') | Key::Left => {
            if ctrl {
                editor.left_line();
            } else {
                editor.left();
            }
        },
        Key::Char('d') | Key::Char('l') | Key::Right => {
            if ctrl {
                editor.right_line();
            } else {
                editor.right();
            }
        },
        Key::Enter | Key::Esc => {
            editor.command_mode = false;
            editor.notif_text = String::from_str("Editor mode");
        },
        _ => {},
    }
}

/// A key while stepping through search results: right and down go to the
/// next result, left and up to the previous one, Enter keeps the current one
/// and ends the mode, Esc ends it; other keys only say how to go on.
pub fn result_mode_key(editor: &mut Editor, key: Key)
    requires
        old(editor).wf(),
    ensures
        final(editor).wf(),
        result_mode_done(*old(editor), *final(editor), key),
{
    match key {
        Key::Right | Key::Down => {
            editor.next_result();
            editor.show_result_status();
        },
        Key::Left | Key::Up => {
            editor.prev_result();
            editor.show_result_status();
        },
        Key::Enter => {
            editor.show_result();
            editor.command_mode = false;
            editor.notif_text = String::from_str("Editor mode");
        },
        Key::Esc => {
            editor.command_mode = false;
            editor.notif_text = String::from_str("Editor mode");
        },
        _ => {
            editor.notif_text = String::from_str("Invalid command. Use arrow keys to navigate search results");
        },
    }
}

/// Enter on the open-file prompt: the mode ends and, with more than one
/// cursor, one is kept and sent to the start. The name typed after the prompt
/// is checked: an empty one is refused; with unsaved changes the user is asked
/// first; otherwise the current file is to be saved and the named one opened.
pub open spec fn open_entered(before: Editor, after: Editor, r: Action) -> bool {
    let name = reply(before.notif_text@, 11);
    &&& after.text == before.text
    &&& after.lines == before.lines
    &&& after.history == before.history
    &&& after.finder == before.finder
    &&& after.filename == before.filename
    &&& after.changes_saved == before.changes_saved
    &&& before.cursors@.len() > 1 ==> after.cursors@ == seq![moved(before.cursors@[0], 0, 0)]
    &&& before.cursors@.len() <= 1 ==> after.cursors == before.cursors
    &&& name.len() == 0 ==> r == Action::Nothing && !after.command_mode && after.command == before.command
        && after.notif_text@ == "Invalid filename!"@ && after.file_to_open == before.file_to_open
    &&& name.len() > 0 && !before.changes_saved ==> r == Action::Nothing && after.command_mode
        && after.command == Command::SavePrompt && after.file_to_open@ == name
        && after.notif_text@ == "Save changes before opening a new file? (y/n)"@
    &&& name.len() > 0 && before.changes_saved ==> r == Action::SaveThenOpen && !after.command_mode
        && after.command == before.command && after.file_to_open@ == name && after.notif_text == before.notif_text
}

/// A key on a prompt: characters are typed after the prompt (on the save
/// question, `y` and `n` answer it), Backspace takes the last one back, Esc
/// ends the mode, and Enter carries out the command of the prompt.
pub fn prompt_key(editor: &mut Editor, key: Key) -> (r: Action)
    requires
        old(editor).wf(),
    ensures
        final(editor).wf(),
        prompt_done(*old(editor), *final(editor), key, r),
{
    match key {
        Key::Char(c) => {
            if editor.command == Command::SavePrompt {
                if c == 'y' {
                    Action::SaveThenOpen
                } else if c == 'n' {
                    editor.filename = editor.file_to_open.clone();
                    Action::Open
                } else {
                    Action::Nothing
                }
            } else {
                push_char(&mut editor.notif_text, c);
                Action::Nothing
            }
        },
        Key::Backspace => {
            pop_char(&mut editor.notif_text);
            Action::Nothing
        },
        Key::Esc => {
            editor.command_mode = false;
            editor.notif_text = String::new();
            Action::Nothing
        },
        Key::Enter => {
            if editor.command == Command::GotoLine {
                let entry = editor.notif_text.clone();
                editor.goto_line(entry.as_str());
                Action::Nothing
            } else if editor.command == Command::Find {
                let query = reply_of(&editor.notif_text, 16);
                editor.search(query);
                Action::Nothing
            } else if editor.command == Command::OpenFile {
                editor.command_mode = false;
                if editor.cursors.len() > 1 {
                    editor.collapse_cursors();
                    editor.cursors[0].line = 0;
                    editor.cursors[0].col = 0;
                    assert(editor.cursors@ =~= seq![moved(old(editor).cursors@[0], 0, 0)]);
                }
                let name = reply_of(&editor.notif_text, 11);
                if name.as_str().unicode_len() == 0 {
                    editor.notif_text = String::from_str("Invalid filename!");
                    return Action::Nothing;
                }
                if !editor.changes_saved {
                    editor.notif_text = String::from_str("Save changes before opening a new file? (y/n)");
                    editor.command_mode = true;
                    editor.command = Command::SavePrompt;
                    editor.file_to_open = name;
                    return Action::Nothing;
                }
                editor.file_to_open = name;
                Action::SaveThenOpen
            } else {
                Action::Nothing
            }
        },
        _ => Action::Nothing,
    }
}

/// Handles a key in a modal command: cursor moving, stepping through search
/// results, Tab on the open-file prompt (which asks for the names in the
/// working directory), and the prompts.
pub fn handle_command(editor: &mut Editor, key: Key, ctrl: bool) -> (r: Action)
    requires
        old(editor).wf(),
    ensures
        final(editor).wf(),
        if old(editor).command == Command::MoveCursor {
            r == Action::Nothing && move_mode_done(*old(editor), *final(editor), key, ctrl)
        } else if old(editor).command == Command::FindSelection {
            r == Action::Nothing && result_mode_done(*old(editor), *final(editor), key)
        } else if old(editor).command == Command::OpenFile && key == Key::Tab {
            r == Action::ListDir && *final(editor) == *old(editor)
        } else {
            prompt_done(*old(editor), *final(editor), key, r)
        },
{
    if editor.command == Command::MoveCursor {
        move_mode_key(editor, key, ctrl);
        return Action::Nothing;
    }
    if editor.command == Command::FindSelection {
        result_mode_key(editor, key);
        return Action::Nothing;
    }
    if editor.command == Command::OpenFile && key == Key::Tab {
        return Action::ListDir;
    }
    prompt_key(editor, key)
}

} // verus!
