use vstd::prelude::*;

verus! {

/// A position in the document, with an optional selection and a scratch string.
///
/// `line` indexes the line buffer and `col` counts characters into that line.
/// Two cursors are equal when they stand at the same place: the scratch string
/// and the selection take no part in it.
#[derive(Debug)]
pub struct Cursor {
    pub clipboard: String,
    pub line: usize,
    pub col: usize,
    /// Where the selection started, if one was begun.
    pub selection_anchor: Option<(usize, usize)>,
    /// The far edge of the selection.
    pub selection_end: (usize, usize),
}

/// The cursor `c` moved to `(line, col)`, all else kept.
pub open spec fn moved(c: Cursor, line: int, col: int) -> Cursor {
    Cursor { line: line as usize, col: col as usize, ..c }
}

impl Cursor {
    /// A cursor at the start of the document, with nothing selected.
    pub fn new() -> (r: Self)
        ensures
            r.line == 0,
            r.col == 0,
            r.clipboard@ == Seq::<char>::empty(),
            r.selection_anchor is None,
            r.selection_end == (0usize, 0usize),
    {
        Cursor {
            clipboard: String::new(),
            line: 0,
            col: 0,
            selection_anchor: None,
            selection_end: (0, 0),
        }
    }

    /// Extends the selection to `(line, col)`. The first extension anchors the
    /// selection at the cursor's own position; later ones move the far edge only.
    pub fn expand_selection(&mut self, line: usize, col: usize)
        ensures
            final(self).selection_anchor == (match old(self).selection_anchor {
                Some(a) => Some(a),
                None => Some((old(self).line, old(self).col)),
            }),
            final(self).selection_end == (line, col),
            final(self).line == old(self).line,
            final(self).col == old(self).col,
            final(self).clipboard == old(self).clipboard,
    {
        if self.selection_anchor.is_none() {
            self.selection_anchor = Some((self.line, self.col));
        }
        self.selection_end = (line, col);
    }
}

impl Clone for Cursor {
    fn clone(&self) -> (r: Self)
        ensures
            r == *self,
    {
        Cursor {
            clipboard: self.clipboard.clone(),
            line: self.line,
            col: self.col,
            selection_anchor: self.selection_anchor,
            selection_end: self.selection_end,
        }
    }
}

impl PartialEq for Cursor {
    fn eq(&self, other: &Cursor) -> (r: bool)
        ensures
            r == (self.line == other.line && self.col == other.col),
    {
        self.line == other.line && self.col == other.col
    }
}

impl vstd::std_specs::cmp::PartialEqSpecImpl for Cursor {
    open spec fn obeys_eq_spec() -> bool {
        true
    }

    open spec fn eq_spec(&self, other: &Cursor) -> bool {
        self.line == other.line && self.col == other.col
    }
}

} // verus!
