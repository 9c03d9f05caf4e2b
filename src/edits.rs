use vstd::prelude::*;

use crate::commands::Command;
use crate::cursor::{moved, Cursor};
use crate::editor::{clamp_all, clamp_pos, doc_wf, edit_all, edit_doc, in_bounds, pushed_snapshot, Editor};
use crate::history::view_lines;
use crate::text::{chars_of, copy_chars, find_word_start, indent, line_break_tabs, new_line_tabs, spaces, tab_count, tab_levels, word_start};

verus! {

broadcast use vstd::std_specs::vec::group_vec_axioms;

/// Typing `c` at `(l, col)`: the character goes in and the cursor passes it.
pub open spec fn insert_step(c: char) -> spec_fn(Seq<Seq<char>>, int, int) -> (Seq<Seq<char>>, int, int) {
    |lines: Seq<Seq<char>>, l: int, col: int| (lines.update(l, lines[l].insert(col, c)), l, col + 1)
}

/// Pasting `t` at `(l, col)`: the text goes in and the cursor passes it.
pub open spec fn insert_text_step(t: Seq<char>) -> spec_fn(Seq<Seq<char>>, int, int) -> (Seq<Seq<char>>, int, int) {
    |lines: Seq<Seq<char>>, l: int, col: int|
        (lines.update(l, lines[l].subrange(0, col) + t + lines[l].subrange(col, lines[l].len() as int)), l, col + t.len())
}

/// Backspace at `(l, col)`: the character before the cursor goes; at the start
/// of a line other than the first, the line joins the one above.
pub open spec fn backspace_step() -> spec_fn(Seq<Seq<char>>, int, int) -> (Seq<Seq<char>>, int, int) {
    |lines: Seq<Seq<char>>, l: int, col: int|
        if col > 0 {
            (lines.update(l, lines[l].remove(col - 1)), l, col - 1)
        } else if l == 0 {
            (lines, l, col)
        } else {
            (lines.update(l - 1, lines[l - 1] + lines[l]).remove(l), l - 1, lines[l - 1].len() as int)
        }
}

/// Word backspace at `(l, col)`: a space just before the cursor goes alone,
/// else the characters back to the nearest space or the start of the line.
pub open spec fn backspace_word_step() -> spec_fn(Seq<Seq<char>>, int, int) -> (Seq<Seq<char>>, int, int) {
    |lines: Seq<Seq<char>>, l: int, col: int|
        if col <= 0 {
            (lines, l, col)
        } else if lines[l][col - 1] == ' ' {
            (lines.update(l, lines[l].remove(col - 1)), l, col - 1)
        } else {
            let w = word_start(lines[l], col);
            (lines.update(l, lines[l].subrange(0, w) + lines[l].subrange(col, lines[l].len() as int)), l, w)
        }
}

/// Line backspace at `(l, col)`: away from the start of the line, the whole line is emptied.
pub open spec fn backspace_line_step() -> spec_fn(Seq<Seq<char>>, int, int) -> (Seq<Seq<char>>, int, int) {
    |lines: Seq<Seq<char>>, l: int, col: int|
        if col > 0 {
            (lines.update(l, Seq::<char>::empty()), l, 0)
        } else {
            (lines, l, col)
        }
}

/// A tab at `(l, col)`: `tab_count` levels of four spaces go in and the cursor passes them.
pub open spec fn tab_step() -> spec_fn(Seq<Seq<char>>, int, int) -> (Seq<Seq<char>>, int, int) {
    |lines: Seq<Seq<char>>, l: int, col: int|
        (lines.update(l, lines[l].subrange(0, col) + spaces(4 * tab_count(lines, l)) + lines[l].subrange(col, lines[l].len() as int)),
            l, col + 4 * tab_count(lines, l))
}

/// A line break at `(l, col)`: the line is cut at the cursor, the rest goes to
/// a new line after it behind the indent of `new_line_tabs`, and the cursor
/// moves to the end of that indent.
pub open spec fn new_line_step() -> spec_fn(Seq<Seq<char>>, int, int) -> (Seq<Seq<char>>, int, int) {
    |lines: Seq<Seq<char>>, l: int, col: int|
        (lines.update(l, lines[l].subrange(0, col)).insert(l + 1,
            spaces(4 * new_line_tabs(lines[l])) + lines[l].subrange(col, lines[l].len() as int)),
            l + 1, 4 * new_line_tabs(lines[l]))
}

/// Some cursor stands away from the very start of the document, so that a
/// backspace there changes something.
pub open spec fn some_cursor_off_origin(cursors: Seq<Cursor>) -> bool {
    exists|k: int| 0 <= k < cursors.len() && !((#[trigger] cursors[k]).line == 0 && cursors[k].col == 0)
}

/// Some cursor stands away from the start of its line, so that a word or
/// line backspace there changes something.
pub open spec fn some_cursor_past_line_start(cursors: Seq<Cursor>) -> bool {
    exists|k: int| 0 <= k < cursors.len() && (#[trigger] cursors[k]).col > 0
}

/// How an edit records itself: a snapshot of the document before it, labelled
/// `command`, when it `changes` something; when it changes nothing, nothing is
/// recorded and the document stays as it was.
pub open spec fn recorded_if(before: Editor, after: Editor, changes: bool, command: Command) -> bool {
    &&& changes ==> pushed_snapshot(before.history, after.history, before.text(), before.cursors@, command)
    &&& !changes ==> after.history == before.history && after.text() == before.text()
        && after.cursors@ == before.cursors@
}

/// How `backspace` records itself: a snapshot labelled as a backspace when it
/// changes something, nothing at all when every cursor stands at the very start.
pub open spec fn backspace_recorded(before: Editor, after: Editor) -> bool {
    recorded_if(before, after, some_cursor_off_origin(before.cursors@), Command::Backspace)
}

/// `step` leaves the document and the place alone at the place of every cursor.
pub open spec fn still_at_cursors(
    lines: Seq<Seq<char>>,
    cursors: Seq<Cursor>,
    step: spec_fn(Seq<Seq<char>>, int, int) -> (Seq<Seq<char>>, int, int),
) -> bool {
    forall|j: int| 0 <= j < cursors.len() ==> step(lines, (#[trigger] cursors[j]).line as int, cursors[j].col as int)
        == (lines, cursors[j].line as int, cursors[j].col as int)
}

/// An edit that does nothing at the place of any cursor changes nothing.
pub proof fn lemma_edit_doc_still(
    lines: Seq<Seq<char>>,
    cursors: Seq<Cursor>,
    step: spec_fn(Seq<Seq<char>>, int, int) -> (Seq<Seq<char>>, int, int),
)
    requires
        doc_wf(lines, cursors),
        still_at_cursors(lines, cursors, step),
    ensures
        edit_doc(lines, cursors, step) == (lines, cursors),
{
    lemma_edit_all_still(lines, cursors, cursors.len(), step);
    assert(clamp_all(lines, cursors) =~= cursors) by {
        assert forall|i: int| 0 <= i < cursors.len() implies clamp_all(lines, cursors)[i] == cursors[i] by {
            assert(in_bounds(lines, cursors[i]));
        }
    }
}

proof fn lemma_edit_all_still(
    lines: Seq<Seq<char>>,
    cursors: Seq<Cursor>,
    k: nat,
    step: spec_fn(Seq<Seq<char>>, int, int) -> (Seq<Seq<char>>, int, int),
)
    requires
        doc_wf(lines, cursors),
        still_at_cursors(lines, cursors, step),
        k <= cursors.len(),
    ensures
        edit_all(lines, cursors, k, step) == (lines, cursors),
    decreases k,
{
    if k > 0 {
        lemma_edit_all_still(lines, cursors, (k - 1) as nat, step);
        let c = cursors[k - 1];
        assert(in_bounds(lines, c));
        assert(step(lines, c.line as int, c.col as int) == (lines, c.line as int, c.col as int));
        assert(moved(c, c.line as int, c.col as int) == c);
        assert(cursors.update(k - 1, c) =~= cursors);
    }
}

impl Editor {
    /// Whether some cursor stands away from the very start of the document.
    pub fn any_cursor_off_origin(&self) -> (r: bool)
        ensures
            r == some_cursor_off_origin(self.cursors@),
    {
        let ghost cs = self.cursors@;
        let mut k: usize = 0;
        while k < self.cursors.len()
            invariant
                k <= cs.len(),
                self.cursors@ == cs,
                forall|j: int| 0 <= j < k ==> (#[trigger] cs[j]).line == 0 && cs[j].col == 0,
            decreases cs.len() - k,
        {
            if self.cursors[k].line != 0 || self.cursors[k].col != 0 {
                assert(!(cs[k as int].line == 0 && cs[k as int].col == 0));
                return true;
            }
            k = k + 1;
        }
        false
    }

    /// Whether some cursor stands away from the start of its line.
    pub fn any_cursor_past_line_start(&self) -> (r: bool)
        ensures
            r == some_cursor_past_line_start(self.cursors@),
    {
        let ghost cs = self.cursors@;
        let mut k: usize = 0;
        while k < self.cursors.len()
            invariant
                k <= cs.len(),
                self.cursors@ == cs,
                forall|j: int| 0 <= j < k ==> (#[trigger] cs[j]).col == 0,
            decreases cs.len() - k,
        {
            if self.cursors[k].col != 0 {
                assert(cs[k as int].col > 0);
                return true;
            }
            k = k + 1;
        }
        false
    }

    /// Brings cursor `i` to the nearest place inside the document.
    fn clamp_cursor(&mut self, i: usize)
        requires
            i < old(self).cursors@.len(),
            old(self).text().len() >= 1,
        ensures
            final(self).cursors@ == old(self).cursors@.update(
                i as int,
                moved(
                    old(self).cursors@[i as int],
                    clamp_pos(old(self).text(), old(self).cursors@[i as int].line as int, old(self).cursors@[i as int].col as int).0,
                    clamp_pos(old(self).text(), old(self).cursors@[i as int].line as int, old(self).cursors@[i as int].col as int).1,
                ),
            ),
            in_bounds(old(self).text(), final(self).cursors@[i as int]),
            final(self).lines == old(self).lines,
            final(self).history == old(self).history,
            final(self).same_status(old(self)),
    {
        let n = self.lines.len();
        if self.cursors[i].line >= n {
            self.cursors[i].line = n - 1;
        }
        let len = self.lines[self.cursors[i].line].len();
        if self.cursors[i].col > len {
            self.cursors[i].col = len;
        }
    }

    /// Brings every cursor to the nearest place inside the document: its line
    /// to the last one at most, its column to that line's end at most.
    pub fn adjust_cursors(&mut self)
        requires
            old(self).text().len() >= 1,
        ensures
            final(self).cursors@ == clamp_all(old(self).text(), old(self).cursors@),
            forall|i: int| 0 <= i < final(self).cursors@.len() ==> in_bounds(final(self).text(), #[trigger] final(self).cursors@[i]),
            final(self).lines == old(self).lines,
            final(self).history == old(self).history,
            final(self).same_status(old(self)),
    {
        let ghost c0 = self.cursors@;
        let mut i: usize = 0;
        while i < self.cursors.len()
            invariant
                i <= c0.len(),
                self.cursors@.len() == c0.len(),
                self.text().len() >= 1,
                self.lines == old(self).lines,
                self.history == old(self).history,
                self.same_status(old(self)),
                forall|j: int| 0 <= j < i ==> self.cursors@[j] == #[trigger] clamp_all(self.text(), c0)[j],
                forall|j: int| 0 <= j < i ==> in_bounds(self.text(), #[trigger] self.cursors@[j]),
                forall|j: int| i <= j < c0.len() ==> self.cursors@[j] == #[trigger] c0[j],
            decreases c0.len() - i,
        {
            self.clamp_cursor(i);
            i = i + 1;
        }
        assert(self.cursors@ =~= clamp_all(self.text(), c0));
    }

    /// Types `c` at every cursor, in the order of the cursors, after recording
    /// the document with the label of a space or of a plain character.
    pub fn insert(&mut self, c: char)
        requires
            old(self).wf(),
        ensures
            final(self).wf(),
            (final(self).text(), final(self).cursors@) == edit_doc(old(self).text(), old(self).cursors@, insert_step(c)),
            pushed_snapshot(old(self).history, final(self).history, old(self).text(), old(self).cursors@,
                if c == ' ' { Command::Space } else { Command::AddChar }),
            final(self).same_status(old(self)),
    {
        let comm = if c == ' ' { Command::Space } else { Command::AddChar };
        self.push_history(comm);
        let ghost t0 = self.text();
        let ghost c0 = self.cursors@;
        let ghost h = self.history;
        let ghost e0 = *self;
        let mut i: usize = 0;
        while i < self.cursors.len()
            invariant
                i <= c0.len(),
                self.cursors@.len() == c0.len(),
                self.text().len() >= 1,
                (self.text(), self.cursors@) == edit_all(t0, c0, i as nat, insert_step(c)),
                self.history == h,
                self.same_status(&e0),
            decreases c0.len() - i,
        {
            let ghost prev = self.text();
            self.clamp_cursor(i);
            let l = self.cursors[i].line;
            let col = self.cursors[i].col;
            self.lines[l].insert(col, c);
            assert(self.lines@[l as int]@.len() == self.lines@[l as int].len());
            self.cursors[i].col = col + 1;
            proof {
                assert(self.text() =~= prev.update(l as int, prev[l as int].insert(col as int, c)));
            }
            i = i + 1;
        }
        self.adjust_cursors();
    }

    /// Pastes `s` at every cursor, in the order of the cursors. Records no history.
    pub fn insert_string(&mut self, s: String)
        requires
            old(self).wf(),
        ensures
            final(self).wf(),
            (final(self).text(), final(self).cursors@) == edit_doc(old(self).text(), old(self).cursors@, insert_text_step(s@)),
            final(self).history == old(self).history,
            final(self).same_status(old(self)),
    {
        let t = chars_of(s.as_str());
        let ghost t0 = self.text();
        let ghost c0 = self.cursors@;
        let ghost e0 = *self;
        let mut i: usize = 0;
        while i < self.cursors.len()
            invariant
                i <= c0.len(),
                self.cursors@.len() == c0.len(),
                self.text().len() >= 1,
                (self.text(), self.cursors@) == edit_all(t0, c0, i as nat, insert_text_step(s@)),
                t@ == s@,
                self.history == e0.history,
                self.same_status(&e0),
            decreases c0.len() - i,
        {
            let ghost prev = self.text();
            self.clamp_cursor(i);
            let l = self.cursors[i].line;
            let col = self.cursors[i].col;
            let mut tail = self.lines[l].split_off(col);
            let mut mid = copy_chars(&t);
            self.lines[l].append(&mut mid);
            self.lines[l].append(&mut tail);
            assert(self.lines@[l as int]@.len() == self.lines@[l as int].len());
            self.cursors[i].col = col + t.len();
            proof {
                assert(self.text() =~= prev.update(l as int,
                    prev[l as int].subrange(0, col as int) + s@ + prev[l as int].subrange(col as int, prev[l as int].len() as int)));
            }
            i = i + 1;
        }
        self.adjust_cursors();
    }

    /// Deletes backwards at every cursor, in the order of the cursors: the
    /// character before the cursor, or at the start of a line the line break
    /// before it. When every cursor stands at the very start of the document
    /// nothing changes and nothing is recorded; otherwise the document is
    /// recorded first, labelled as a backspace.
    pub fn backspace(&mut self)
        requires
            old(self).wf(),
        ensures
            final(self).wf(),
            (final(self).text(), final(self).cursors@) == edit_doc(old(self).text(), old(self).cursors@, backspace_step()),
            backspace_recorded(*old(self), *final(self)),
            final(self).same_status(old(self)),
    {
        let edits = self.any_cursor_off_origin();
        if edits {
            self.push_history(Command::Backspace);
        }
        let ghost t0 = self.text();
        let ghost c0 = self.cursors@;
        let ghost e0 = *self;
        let mut i: usize = 0;
        while i < self.cursors.len()
            invariant
                i <= c0.len(),
                self.cursors@.len() == c0.len(),
                self.text().len() >= 1,
                (self.text(), self.cursors@) == edit_all(t0, c0, i as nat, backspace_step()),
                self.history == e0.history,
                self.same_status(&e0),
            decreases c0.len() - i,
        {
            let ghost prev = self.text();
            self.clamp_cursor(i);
            let l = self.cursors[i].line;
            let col = self.cursors[i].col;
            if col > 0 {
                self.lines[l].remove(col - 1);
                self.cursors[i].col = col - 1;
                proof {
                    assert(self.text() =~= prev.update(l as int, prev[l as int].remove(col - 1)));
                }
            } else if l > 0 {
                let mut cur = self.lines.remove(l);
                let prev_len = self.lines[l - 1].len();
                self.lines[l - 1].append(&mut cur);
                self.cursors[i].line = l - 1;
                self.cursors[i].col = prev_len;
                proof {
                    assert(self.text() =~= prev.update(l - 1, prev[l - 1] + prev[l as int]).remove(l as int));
                }
            }
            i = i + 1;
        }
        self.adjust_cursors();
        proof {
            if !some_cursor_off_origin(old(self).cursors@) {
                lemma_edit_doc_still(old(self).text(), old(self).cursors@, backspace_step());
            }
        }
    }

    /// Deletes a word backwards at every cursor, in the order of the cursors:
    /// a space just before the cursor goes alone, else everything back to the
    /// nearest space or the start of the line. A cursor at the start of its
    /// line deletes nothing. When some cursor stands away from the start of its
    /// line, the document is recorded first, labelled as a backspace; otherwise
    /// nothing changes and nothing is recorded.
    pub fn backspace_word(&mut self)
        requires
            old(self).wf(),
        ensures
            final(self).wf(),
            (final(self).text(), final(self).cursors@) == edit_doc(old(self).text(), old(self).cursors@, backspace_word_step()),
            recorded_if(*old(self), *final(self), some_cursor_past_line_start(old(self).cursors@), Command::Backspace),
            final(self).same_status(old(self)),
    {
        let edits = self.any_cursor_past_line_start();
        if edits {
            self.push_history(Command::Backspace);
        }
        let ghost t0 = self.text();
        let ghost c0 = self.cursors@;
        let ghost e0 = *self;
        let mut i: usize = 0;
        while i < self.cursors.len()
            invariant
                i <= c0.len(),
                self.cursors@.len() == c0.len(),
                self.text().len() >= 1,
                (self.text(), self.cursors@) == edit_all(t0, c0, i as nat, backspace_word_step()),
                self.history == e0.history,
                self.same_status(&e0),
            decreases c0.len() - i,
        {
            let ghost prev = self.text();
            self.clamp_cursor(i);
            let l = self.cursors[i].line;
            let col = self.cursors[i].col;
            if col > 0 {
                if self.lines[l][col - 1] == ' ' {
                    self.lines[l].remove(col - 1);
                    self.cursors[i].col = col - 1;
                    proof {
                        assert(self.text() =~= prev.update(l as int, prev[l as int].remove(col - 1)));
                    }
                } else {
                    let w = find_word_start(&self.lines[l], col);
                    let mut tail = self.lines[l].split_off(col);
                    assert(tail@ == prev[l as int].subrange(col as int, prev[l as int].len() as int));
                    self.lines[l].truncate(w);
                    assert(self.lines@[l as int]@ =~= prev[l as int].subrange(0, w as int));
                    self.lines[l].append(&mut tail);
                    self.cursors[i].col = w;
                    proof {
                        assert(self.text() =~= prev.update(l as int,
                            prev[l as int].subrange(0, w as int) + prev[l as int].subrange(col as int, prev[l as int].len() as int)));
                    }
                }
            }
            i = i + 1;
        }
        self.adjust_cursors();
        proof {
            if !some_cursor_past_line_start(old(self).cursors@) {
                lemma_edit_doc_still(old(self).text(), old(self).cursors@, backspace_word_step());
            }
        }
    }

    /// Empties the line of every cursor that stands away from the start of
    /// its line, and moves that cursor to the start. When there is such a cursor,
    /// the document is recorded first, labelled as a backspace; otherwise
    /// nothing changes and nothing is recorded.
    pub fn backspace_line(&mut self)
        requires
            old(self).wf(),
        ensures
            final(self).wf(),
            (final(self).text(), final(self).cursors@) == edit_doc(old(self).text(), old(self).cursors@, backspace_line_step()),
            recorded_if(*old(self), *final(self), some_cursor_past_line_start(old(self).cursors@), Command::Backspace),
            final(self).same_status(old(self)),
    {
        let edits = self.any_cursor_past_line_start();
        if edits {
            self.push_history(Command::Backspace);
        }
        let ghost t0 = self.text();
        let ghost c0 = self.cursors@;
        let ghost e0 = *self;
        let mut i: usize = 0;
        while i < self.cursors.len()
            invariant
                i <= c0.len(),
                self.cursors@.len() == c0.len(),
                self.text().len() >= 1,
                (self.text(), self.cursors@) == edit_all(t0, c0, i as nat, backspace_line_step()),
                self.history == e0.history,
                self.same_status(&e0),
            decreases c0.len() - i,
        {
            let ghost prev = self.text();
            self.clamp_cursor(i);
            let l = self.cursors[i].line;
            let col = self.cursors[i].col;
            if col > 0 {
                self.lines[l].clear();
                self.cursors[i].col = 0;
                proof {
                    assert(self.text() =~= prev.update(l as int, Seq::<char>::empty()));
                }
            }
            i = i + 1;
        }
        self.adjust_cursors();
        proof {
            if !some_cursor_past_line_start(old(self).cursors@) {
                lemma_edit_doc_still(old(self).text(), old(self).cursors@, backspace_line_step());
            }
        }
    }

    /// Indents at every cursor, in the order of the cursors, by the levels of
    /// `tab_count`. The document is recorded first, labelled as a tab.
    pub fn tab(&mut self)
        requires
            old(self).wf(),
        ensures
            final(self).wf(),
            (final(self).text(), final(self).cursors@) == edit_doc(old(self).text(), old(self).cursors@, tab_step()),
            pushed_snapshot(old(self).history, final(self).history, old(self).text(), old(self).cursors@, Command::Tab),
            final(self).same_status(old(self)),
    {
        self.push_history(Command::Tab);
        let ghost t0 = self.text();
        let ghost c0 = self.cursors@;
        let ghost e0 = *self;
        let mut i: usize = 0;
        while i < self.cursors.len()
            invariant
                i <= c0.len(),
                self.cursors@.len() == c0.len(),
                self.text().len() >= 1,
                (self.text(), self.cursors@) == edit_all(t0, c0, i as nat, tab_step()),
                self.history == e0.history,
                self.same_status(&e0),
            decreases c0.len() - i,
        {
            let ghost prev = self.text();
            self.clamp_cursor(i);
            let l = self.cursors[i].line;
            let col = self.cursors[i].col;
            let t = tab_levels(&self.lines, l);
            let mut pad = indent(t);
            let width = pad.len();
            let mut tail = self.lines[l].split_off(col);
            self.lines[l].append(&mut pad);
            self.lines[l].append(&mut tail);
            assert(self.lines@[l as int]@.len() == self.lines@[l as int].len());
            self.cursors[i].col = col + width;
            proof {
                assert(self.text() =~= prev.update(l as int,
                    prev[l as int].subrange(0, col as int) + spaces(4 * tab_count(prev, l as int))
                        + prev[l as int].subrange(col as int, prev[l as int].len() as int)));
            }
            i = i + 1;
        }
        self.adjust_cursors();
    }

    /// Breaks the line at every cursor, in the order of the cursors, with the
    /// indent of `new_line_tabs` on the new line. The document is recorded
    /// first, labelled as a line break.
    pub fn new_line(&mut self)
        requires
            old(self).wf(),
        ensures
            final(self).wf(),
            (final(self).text(), final(self).cursors@) == edit_doc(old(self).text(), old(self).cursors@, new_line_step()),
            pushed_snapshot(old(self).history, final(self).history, old(self).text(), old(self).cursors@, Command::AddNewLine),
            final(self).same_status(old(self)),
    {
        self.push_history(Command::AddNewLine);
        let ghost t0 = self.text();
        let ghost c0 = self.cursors@;
        let ghost e0 = *self;
        let mut i: usize = 0;
        while i < self.cursors.len()
            invariant
                i <= c0.len(),
                self.cursors@.len() == c0.len(),
                self.text().len() >= 1,
                (self.text(), self.cursors@) == edit_all(t0, c0, i as nat, new_line_step()),
                self.history == e0.history,
                self.same_status(&e0),
            decreases c0.len() - i,
        {
            let ghost prev = self.text();
            self.clamp_cursor(i);
            let l = self.cursors[i].line;
            let col = self.cursors[i].col;
            let t = line_break_tabs(&self.lines[l]);
            let mut pad = indent(t);
            let width = pad.len();
            let mut tail = self.lines[l].split_off(col);
            pad.append(&mut tail);
            let count = self.lines.len();
            assert(l < count);
            self.lines.insert(l + 1, pad);
            self.cursors[i].line = l + 1;
            self.cursors[i].col = width;
            proof {
                assert(self.text() =~= prev.update(l as int, prev[l as int].subrange(0, col as int)).insert(l + 1,
                    spaces(4 * new_line_tabs(prev[l as int])) + prev[l as int].subrange(col as int, prev[l as int].len() as int)));
            }
            i = i + 1;
        }
        self.adjust_cursors();
    }
}

} // verus!
