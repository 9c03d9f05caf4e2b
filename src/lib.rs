//! The editing core of a terminal text editor: a buffer of lines edited at
//! one or more cursors, with auto-indent, an undo and redo history that takes
//! a run of typed characters as one step, and a case-insensitive search.

pub mod commands;
pub mod cursor;
pub mod history;
pub mod text;
pub mod finder;
pub mod editor;
pub mod edits;
pub mod motion;
pub mod laws;
pub mod document;
pub mod modal;
pub mod input;
