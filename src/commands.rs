use vstd::prelude::*;

verus! {

/// The label attached to each history entry and to the modal state of the editor.
#[derive(PartialEq, Eq, Structural, Clone, Copy, Debug)]
pub enum Command {
    NULL,
    GotoLine,
    MoveCursor,
    Find,
    Tab,
    FindSelection,
    OpenFile,
    Backspace,
    Space,
    SavePrompt,
    AddChar,
    AddNewLine,
    Undo,
}

impl Command {
    /// The neutral label.
    pub fn new() -> (r: Self)
        ensures
            r == Command::NULL,
    {
        Command::NULL
    }
}

} // verus!
