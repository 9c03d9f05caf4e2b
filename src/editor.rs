use vstd::prelude::*;

use crate::commands::Command;
use crate::cursor::{moved, Cursor};
use crate::finder::Finder;
use crate::history::{carried, chain_len, copy_cursors, copy_lines, keep_recent, keep_recent_all, view_lines, History, HistoryEntry};

verus! {

broadcast use vstd::std_specs::vec::group_vec_axioms;

/// The cursor stands inside the document: on one of its lines, at most at its end.
pub open spec fn in_bounds(lines: Seq<Seq<char>>, c: Cursor) -> bool {
    &&& c.line < lines.len()
    &&& c.col <= lines[c.line as int].len()
}

/// A document that the editor can work on: at least one line, at least one
/// cursor, and every cursor inside.
pub open spec fn doc_wf(lines: Seq<Seq<char>>, cursors: Seq<Cursor>) -> bool {
    &&& lines.len() >= 1
    &&& cursors.len() >= 1
    &&& forall|i: int| 0 <= i < cursors.len() ==> in_bounds(lines, #[trigger] cursors[i])
}

/// The snapshot in a history entry is a document that the editor can work on.
pub open spec fn entry_wf(e: HistoryEntry) -> bool {
    doc_wf(view_lines(e.lines@), e.cursors@)
}

/// Every entry of a stack holds a workable snapshot.
pub open spec fn all_entries_wf(s: Seq<HistoryEntry>) -> bool {
    forall|i: int| 0 <= i < s.len() ==> entry_wf(#[trigger] s[i])
}

/// The nearest place inside the document to `(line, col)`.
pub open spec fn clamp_pos(lines: Seq<Seq<char>>, line: int, col: int) -> (int, int) {
    let l = if line < lines.len() { line } else { lines.len() - 1 };
    let c = if col <= lines[l].len() { col } else { lines[l].len() as int };
    (l, c)
}

/// Every cursor brought to the nearest place inside the document.
pub open spec fn clamp_all(lines: Seq<Seq<char>>, cursors: Seq<Cursor>) -> Seq<Cursor> {
    Seq::new(
        cursors.len(),
        |i: int|
            moved(
                cursors[i],
                clamp_pos(lines, cursors[i].line as int, cursors[i].col as int).0,
                clamp_pos(lines, cursors[i].line as int, cursors[i].col as int).1,
            ),
    )
}

/// Applies `step` at the place of each of the first `n` cursors in turn, each
/// cursor first brought inside the document as the edits before it left it.
/// `step` maps the lines and a place to the new lines and the cursor's new place.
pub open spec fn edit_all(
    lines: Seq<Seq<char>>,
    cursors: Seq<Cursor>,
    n: nat,
    step: spec_fn(Seq<Seq<char>>, int, int) -> (Seq<Seq<char>>, int, int),
) -> (Seq<Seq<char>>, Seq<Cursor>)
    decreases n,
{
    if n == 0 {
        (lines, cursors)
    } else {
        let prev = edit_all(lines, cursors, (n - 1) as nat, step);
        let k = n - 1;
        let p = clamp_pos(prev.0, prev.1[k].line as int, prev.1[k].col as int);
        let r = step(prev.0, p.0, p.1);
        (r.0, prev.1.update(k, moved(prev.1[k], r.1, r.2)))
    }
}

/// The document after `step` at every cursor and a final clamp of all cursors.
pub open spec fn edit_doc(
    lines: Seq<Seq<char>>,
    cursors: Seq<Cursor>,
    step: spec_fn(Seq<Seq<char>>, int, int) -> (Seq<Seq<char>>, int, int),
) -> (Seq<Seq<char>>, Seq<Cursor>) {
    let r = edit_all(lines, cursors, cursors.len(), step);
    (r.0, clamp_all(r.0, r.1))
}

/// The undo stack gained a snapshot of `lines` and `cursors` labelled `command`,
/// and the redo stack was emptied.
pub open spec fn pushed_snapshot(
    before: History,
    after: History,
    lines: Seq<Seq<char>>,
    cursors: Seq<Cursor>,
    command: Command,
) -> bool {
    let e = after.undos().last();
    &&& after.undos().len() > 0
    &&& after.undos() == keep_recent(before.undos(), e)
    &&& view_lines(e.lines@) == lines
    &&& e.cursors@ == cursors
    &&& e.command == command
    &&& after.redos().len() == 0
}

/// What `undo` does to the document and the history: `History::undo` takes
/// its chain off the undo stack, the redo stack gains the documents after each
/// undone edit, the current one first, and the deepest snapshot taken becomes
/// the document; with nothing to undo, the document stays. All fields but the
/// status stay.
pub open spec fn undone_doc(before: Editor, after: Editor) -> bool {
    let s = before.history.undos();
    let n = chain_len(s);
    &&& after.history.undos() == s.subrange(0, s.len() - n)
    &&& after.history.redos() == keep_recent_all(before.history.redos(), carried(before.cursors, before.lines, s, n))
    &&& n > 0 ==> after.lines == s[s.len() - n].lines && after.cursors == s[s.len() - n].cursors
    &&& n == 0 ==> after.lines == before.lines && after.cursors == before.cursors
    &&& after.filename == before.filename
    &&& after.file_to_open == before.file_to_open
    &&& after.text == before.text
    &&& after.command_mode == before.command_mode
    &&& after.command == before.command
    &&& after.changes_saved == before.changes_saved
    &&& after.finder == before.finder
}

/// What `undo` does: `undone_doc`, and with nothing to undo the status says so.
pub open spec fn undone(before: Editor, after: Editor) -> bool {
    let n = chain_len(before.history.undos());
    &&& undone_doc(before, after)
    &&& n > 0 ==> after.notif_text == before.notif_text
    &&& n == 0 ==> after.notif_text@ == "No edits to undo"@
}

/// What `redo` does: `History::redo` takes its chain off the redo stack, the
/// undo stack gains the documents from before each redone edit, the current
/// one first, and the deepest document taken becomes the document; with
/// nothing to redo, the document stays and the status says so. The other fields stay.
pub open spec fn redone(before: Editor, after: Editor) -> bool {
    let s = before.history.redos();
    let n = chain_len(s);
    &&& after.history.redos() == s.subrange(0, s.len() - n)
    &&& after.history.undos() == keep_recent_all(before.history.undos(), carried(before.cursors, before.lines, s, n))
    &&& n > 0 ==> after.lines == s[s.len() - n].lines && after.cursors == s[s.len() - n].cursors
        && after.notif_text == before.notif_text
    &&& n == 0 ==> after.lines == before.lines && after.cursors == before.cursors
        && after.notif_text@ == "No edits to redo"@
    &&& after.filename == before.filename
    &&& after.file_to_open == before.file_to_open
    &&& after.text == before.text
    &&& after.command_mode == before.command_mode
    &&& after.command == before.command
    &&& after.changes_saved == before.changes_saved
    &&& after.finder == before.finder
}

/// The editing state: lines, cursors, history, search and the status shown to the user.
pub struct Editor {
    /// The content of the file last loaded, as read.
    pub text: String,
    pub lines: Vec<Vec<char>>,
    pub cursors: Vec<Cursor>,
    pub filename: String,
    pub file_to_open: String,
    pub history: History,
    pub notif_text: String,
    pub command_mode: bool,
    pub command: Command,
    pub changes_saved: bool,
    pub finder: Finder,
}

/// Pushing a workable snapshot keeps every entry of a stack workable.
pub proof fn lemma_keep_recent_wf(s: Seq<HistoryEntry>, e: HistoryEntry)
    requires
        all_entries_wf(s),
        entry_wf(e),
    ensures
        all_entries_wf(keep_recent(s, e)),
{
    let t = s.push(e);
    assert(all_entries_wf(t)) by {
        assert forall|i: int| 0 <= i < t.len() implies entry_wf(#[trigger] t[i]) by {
            if i < s.len() {
                assert(t[i] == s[i]);
            }
        }
    }
    if t.len() > crate::history::HISTORY_LIMIT {
        let u = t.subrange(t.len() - crate::history::HISTORY_LIMIT, t.len() as int);
        assert forall|i: int| 0 <= i < u.len() implies entry_wf(#[trigger] u[i]) by {
            assert(u[i] == t[i + t.len() - crate::history::HISTORY_LIMIT]);
        }
    }
}

/// Pushing workable snapshots one by one keeps every entry of a stack workable.
pub proof fn lemma_keep_recent_all_wf(s: Seq<HistoryEntry>, es: Seq<HistoryEntry>)
    requires
        all_entries_wf(s),
        all_entries_wf(es),
    ensures
        all_entries_wf(crate::history::keep_recent_all(s, es)),
    decreases es.len(),
{
    if es.len() > 0 {
        let d = es.drop_last();
        assert forall|i: int| 0 <= i < d.len() implies entry_wf(#[trigger] d[i]) by {
            assert(d[i] == es[i]);
        }
        lemma_keep_recent_all_wf(s, d);
        lemma_keep_recent_wf(crate::history::keep_recent_all(s, d), es.last());
    }
}

/// The entries below the top `n` of a stack hold workable snapshots when the
/// whole stack does, and so does the deepest of the top `n`.
pub proof fn lemma_stack_parts_wf(s: Seq<HistoryEntry>, n: nat)
    requires
        all_entries_wf(s),
        n <= s.len(),
    ensures
        all_entries_wf(s.subrange(0, s.len() - n)),
        n > 0 ==> entry_wf(s[s.len() - n]),
{
    let b = s.subrange(0, s.len() - n);
    assert forall|i: int| 0 <= i < b.len() implies entry_wf(#[trigger] b[i]) by {
        assert(b[i] == s[i]);
    }
}

/// What a chain taken off a stack of workable snapshots carries over to the
/// other stack is workable when the current document is.
pub proof fn lemma_carried_wf(cursors: Vec<Cursor>, lines: Vec<Vec<char>>, s: Seq<HistoryEntry>, n: nat)
    requires
        all_entries_wf(s),
        n <= s.len(),
        doc_wf(view_lines(lines@), cursors@),
    ensures
        all_entries_wf(carried(cursors, lines, s, n)),
{
    let t = carried(cursors, lines, s, n);
    assert forall|k: int| 0 <= k < t.len() implies entry_wf(#[trigger] t[k]) by {
        if k > 0 {
            assert(entry_wf(s[s.len() - k]));
        }
    }
}

impl Editor {
    /// The lines as sequences of characters.
    pub open spec fn text(&self) -> Seq<Seq<char>> {
        view_lines(self.lines@)
    }

    /// The document is workable and so is every snapshot in the history.
    pub open spec fn wf(&self) -> bool {
        &&& doc_wf(self.text(), self.cursors@)
        &&& all_entries_wf(self.history.undos())
        &&& all_entries_wf(self.history.redos())
    }

    /// The fields that edits and moves leave alone, the status aside, are as in `other`.
    pub open spec fn same_settings(&self, other: &Editor) -> bool {
        &&& self.text == other.text
        &&& self.filename == other.filename
        &&& self.file_to_open == other.file_to_open
        &&& self.command_mode == other.command_mode
        &&& self.command == other.command
        &&& self.changes_saved == other.changes_saved
        &&& self.finder == other.finder
    }

    /// The fields that edits and moves leave alone are as in `other`.
    pub open spec fn same_status(&self, other: &Editor) -> bool {
        &&& self.same_settings(other)
        &&& self.notif_text == other.notif_text
    }

    /// An empty document: one empty line, one cursor at its start, no history.
    pub fn new() -> (r: Self)
        ensures
            r.wf(),
            r.text() == seq![Seq::<char>::empty()],
            r.cursors@.len() == 1,
            r.cursors@[0].line == 0,
            r.cursors@[0].col == 0,
            r.history.undos().len() == 0,
            r.history.redos().len() == 0,
            r.command == Command::NULL,
            !r.command_mode,
            r.changes_saved,
    {
        let mut lines: Vec<Vec<char>> = Vec::new();
        lines.push(Vec::new());
        let mut cursors: Vec<Cursor> = Vec::new();
        cursors.push(Cursor::new());
        let r = Editor {
            text: String::new(),
            lines,
            cursors,
            filename: String::new(),
            file_to_open: String::new(),
            history: History::new(),
            notif_text: String::from_str("Editor mode"),
            command_mode: false,
            command: Command::new(),
            changes_saved: true,
            finder: Finder::new(),
        };
        assert(r.text() =~= seq![Seq::<char>::empty()]);
        r
    }

    /// Records a snapshot of the document, labelled `comm`, as a new edit: it
    /// goes on the undo stack and the redo stack is emptied.
    pub fn push_history(&mut self, comm: Command)
        requires
            old(self).wf(),
        ensures
            final(self).wf(),
            pushed_snapshot(old(self).history, final(self).history, old(self).text(), old(self).cursors@, comm),
            final(self).lines == old(self).lines,
            final(self).cursors == old(self).cursors,
            final(self).same_status(old(self)),
    {
        let entry = HistoryEntry::from(copy_cursors(&self.cursors), copy_lines(&self.lines), comm);
        proof {
            lemma_keep_recent_wf(self.history.undos(), entry);
        }
        self.history.push_history(entry);
        self.history.clear_redo();
        proof {
            crate::history::lemma_keep_recent_top(old(self).history.undos(), entry);
        }
    }

    /// Restores the snapshot that `History::undo` hands back, or says that
    /// there is nothing to undo.
    pub fn undo(&mut self)
        requires
            old(self).wf(),
        ensures
            final(self).wf(),
            undone(*old(self), *final(self)),
    {
        let ghost s = self.history.undos();
        let ghost other = self.history.redos();
        proof {
            crate::history::lemma_chain_len_bound(s);
            lemma_stack_parts_wf(s, chain_len(s));
            lemma_carried_wf(self.cursors, self.lines, s, chain_len(s));
        }
        if self.history.len() == 0 {
            self.notif_text = String::from_str("No edits to undo");
            proof {
                assert(carried(self.cursors, self.lines, s, 0) =~= Seq::<HistoryEntry>::empty());
                assert(s.subrange(0, s.len() as int) =~= s);
            }
            return;
        }
        let mut cursors: Vec<Cursor> = Vec::new();
        std::mem::swap(&mut cursors, &mut self.cursors);
        let mut lines: Vec<Vec<char>> = Vec::new();
        std::mem::swap(&mut lines, &mut self.lines);
        match self.history.undo(cursors, lines) {
            Some(entry) => {
                self.cursors = entry.cursors;
                self.lines = entry.lines;
            },
            None => {
                proof {
                    assert(false);
                }
            },
        }
        proof {
            lemma_keep_recent_all_wf(other, carried(old(self).cursors, old(self).lines, s, chain_len(s)));
        }
    }

    /// Restores the snapshot that `History::redo` hands back, or says that
    /// there is nothing to redo.
    pub fn redo(&mut self)
        requires
            old(self).wf(),
        ensures
            final(self).wf(),
            redone(*old(self), *final(self)),
    {
        let ghost s = self.history.redos();
        let ghost other = self.history.undos();
        proof {
            crate::history::lemma_chain_len_bound(s);
            lemma_stack_parts_wf(s, chain_len(s));
            lemma_carried_wf(self.cursors, self.lines, s, chain_len(s));
        }
        if self.history.redo_len() == 0 {
            self.notif_text = String::from_str("No edits to redo");
            proof {
                assert(carried(self.cursors, self.lines, s, 0) =~= Seq::<HistoryEntry>::empty());
                assert(s.subrange(0, s.len() as int) =~= s);
            }
            return;
        }
        let mut cursors: Vec<Cursor> = Vec::new();
        std::mem::swap(&mut cursors, &mut self.cursors);
        let mut lines: Vec<Vec<char>> = Vec::new();
        std::mem::swap(&mut lines, &mut self.lines);
        match self.history.redo(cursors, lines) {
            Some(entry) => {
                self.cursors = entry.cursors;
                self.lines = entry.lines;
            },
            None => {
                proof {
                    assert(false);
                }
            },
        }
        proof {
            lemma_keep_recent_all_wf(other, carried(old(self).cursors, old(self).lines, s, chain_len(s)));
        }
    }
}

} // verus!
