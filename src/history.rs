use vstd::prelude::*;
use std::collections::VecDeque;

use crate::commands::Command;
use crate::cursor::Cursor;
use crate::text::copy_chars;

verus! {

broadcast use vstd::std_specs::vecdeque::group_vec_dequeue_axioms;

/// How many entries each of the two stacks keeps.
pub const HISTORY_LIMIT: usize = 100;

/// A full snapshot of the document taken before an edit, with the label of that edit.
#[derive(Debug)]
pub struct HistoryEntry {
    pub cursors: Vec<Cursor>,
    pub lines: Vec<Vec<char>>,
    pub command: Command,
}

/// The lines of a buffer as sequences of characters.
pub open spec fn view_lines(lines: Seq<Vec<char>>) -> Seq<Seq<char>> {
    lines.map_values(|l: Vec<char>| l@)
}

/// A copy of every line.
pub fn copy_lines(lines: &Vec<Vec<char>>) -> (r: Vec<Vec<char>>)
    ensures
        view_lines(r@) == view_lines(lines@),
{
    let mut r: Vec<Vec<char>> = Vec::new();
    let mut i: usize = 0;
    while i < lines.len()
        invariant
            i <= lines.len(),
            r@.len() == i,
            forall|j: int| 0 <= j < i ==> #[trigger] r@[j]@ == lines@[j]@,
        decreases lines.len() - i,
    {
        let l = copy_chars(&lines[i]);
        r.push(l);
        i = i + 1;
    }
    assert(view_lines(r@) =~= view_lines(lines@));
    r
}

/// A copy of every cursor.
pub fn copy_cursors(cursors: &Vec<Cursor>) -> (r: Vec<Cursor>)
    ensures
        r@ == cursors@,
{
    let mut r: Vec<Cursor> = Vec::new();
    let mut i: usize = 0;
    while i < cursors.len()
        invariant
            i <= cursors.len(),
            r@ == cursors@.subrange(0, i as int),
        decreases cursors.len() - i,
    {
        r.push(cursors[i].clone());
        i = i + 1;
        assert(r@ =~= cursors@.subrange(0, i as int));
    }
    assert(r@ =~= cursors@);
    r
}

impl HistoryEntry {
    /// An entry with no lines, no cursors and the neutral label.
    pub fn new() -> (r: HistoryEntry)
        ensures
            r.cursors@.len() == 0,
            r.lines@.len() == 0,
            r.command == Command::NULL,
    {
        HistoryEntry { cursors: Vec::new(), lines: Vec::new(), command: Command::NULL }
    }

    /// An entry made of the given snapshot and label.
    pub fn from(cursors: Vec<Cursor>, lines: Vec<Vec<char>>, command: Command) -> (r: HistoryEntry)
        ensures
            r.cursors == cursors,
            r.lines == lines,
            r.command == command,
    {
        HistoryEntry { cursors, lines, command }
    }
}

/// `s` with `e` pushed on top, the oldest entries dropped beyond the limit.
pub open spec fn keep_recent(s: Seq<HistoryEntry>, e: HistoryEntry) -> Seq<HistoryEntry> {
    let t = s.push(e);
    if t.len() > HISTORY_LIMIT {
        t.subrange(t.len() - HISTORY_LIMIT, t.len() as int)
    } else {
        t
    }
}

/// `s` with each of `es` pushed in turn, first to last.
pub open spec fn keep_recent_all(s: Seq<HistoryEntry>, es: Seq<HistoryEntry>) -> Seq<HistoryEntry>
    decreases es.len(),
{
    if es.len() == 0 {
        s
    } else {
        keep_recent(keep_recent_all(s, es.drop_last()), es.last())
    }
}

/// How many entries on top of `s` carry the plain-character label, in a row.
pub open spec fn char_run(s: Seq<HistoryEntry>) -> nat
    decreases s.len(),
{
    if s.len() > 0 && s.last().command == Command::AddChar {
        1 + char_run(s.drop_last())
    } else {
        0
    }
}

/// How many entries one undo or redo takes off the top of `s`: the whole run of
/// plain-character entries when the top one is such, else the top entry alone.
pub open spec fn chain_len(s: Seq<HistoryEntry>) -> nat {
    if s.len() == 0 {
        0
    } else if s.last().command == Command::AddChar {
        char_run(s)
    } else {
        1
    }
}

/// A run or chain never holds more entries than the stack.
pub proof fn lemma_chain_len_bound(s: Seq<HistoryEntry>)
    ensures
        char_run(s) <= s.len(),
        chain_len(s) <= s.len(),
        s.len() > 0 ==> chain_len(s) >= 1,
    decreases s.len(),
{
    if s.len() > 0 {
        lemma_chain_len_bound(s.drop_last());
    }
}

/// Splitting the top `k` plain-character entries off the run count.
pub proof fn lemma_char_run_split(s: Seq<HistoryEntry>, k: nat)
    requires
        k <= s.len(),
        forall|i: int| s.len() - k <= i < s.len() ==> #[trigger] s[i].command == Command::AddChar,
    ensures
        char_run(s) == k + char_run(s.subrange(0, s.len() - k)),
    decreases k,
{
    if k == 0 {
        assert(s.subrange(0, s.len() as int) =~= s);
    } else {
        let t = s.drop_last();
        assert forall|i: int| t.len() - (k - 1) <= i < t.len() implies #[trigger] t[i].command
            == Command::AddChar by {
            assert(t[i] == s[i]);
        }
        lemma_char_run_split(t, (k - 1) as nat);
        assert(t.subrange(0, t.len() - (k - 1)) =~= s.subrange(0, s.len() - k));
    }
}

/// The entry pushed last stands on top.
pub proof fn lemma_keep_recent_top(s: Seq<HistoryEntry>, e: HistoryEntry)
    ensures
        keep_recent(s, e).len() > 0,
        keep_recent(s, e).last() == e,
        keep_recent(s, e).len() <= HISTORY_LIMIT || keep_recent(s, e).len() == s.len() + 1,
{
}

/// The entries that taking a chain of `n` off the stack `s` puts on the other
/// stack, in the order they go there. Each holds a document with the label of
/// the edit that lies between it and the document below: first the current
/// document (`cursors`, `lines`) with the label of the top entry, then the
/// snapshot of each entry taken but the deepest, with the label of the entry
/// below it.
pub open spec fn carried(cursors: Vec<Cursor>, lines: Vec<Vec<char>>, s: Seq<HistoryEntry>, n: nat) -> Seq<HistoryEntry> {
    Seq::new(
        n,
        |k: int|
            HistoryEntry {
                cursors: if k == 0 { cursors } else { s[s.len() - k].cursors },
                lines: if k == 0 { lines } else { s[s.len() - k].lines },
                command: s[s.len() - 1 - k].command,
            },
    )
}

/// Pushes `entry` on `q`, dropping the oldest entries beyond the limit.
fn push_bounded(q: &mut VecDeque<HistoryEntry>, entry: HistoryEntry)
    ensures
        final(q)@ == keep_recent(old(q)@, entry),
{
    while q.len() >= HISTORY_LIMIT
        invariant
            old(q)@.len() >= q@.len(),
            q@ == old(q)@.subrange(old(q)@.len() - q@.len(), old(q)@.len() as int),
            old(q)@.len() >= HISTORY_LIMIT ==> q@.len() >= HISTORY_LIMIT - 1,
            old(q)@.len() < HISTORY_LIMIT ==> q@ == old(q)@,
        decreases q@.len(),
    {
        q.pop_front();
    }
    q.push_back(entry);
    assert(q@ =~= keep_recent(old(q)@, entry));
}

/// Takes the chain that `chain_len` measures off `from` and puts on `to` what
/// `carried` says, with `cursors` and `lines` as the current document; returns
/// the deepest entry taken.
fn shift_chain(
    from: &mut VecDeque<HistoryEntry>,
    to: &mut VecDeque<HistoryEntry>,
    cursors: Vec<Cursor>,
    lines: Vec<Vec<char>>,
) -> (r: Option<HistoryEntry>)
    ensures
        ({
            let s = old(from)@;
            let n = chain_len(s);
            &&& final(from)@ == s.subrange(0, s.len() - n)
            &&& final(to)@ == keep_recent_all(old(to)@, carried(cursors, lines, s, n))
            &&& n == 0 ==> r is None
            &&& n > 0 ==> r == Some(s[s.len() - n])
        }),
{
    let ghost s = from@;
    let ghost t0 = to@;
    let ghost c0 = cursors;
    let ghost l0 = lines;
    match from.pop_back() {
        None => None,
        Some(e) => {
            let chain = e.command == Command::AddChar;
            let HistoryEntry { cursors: mut carry_c, lines: mut carry_l, command: mut last } = e;
            proof {
                assert(carried(c0, l0, s, 0) =~= Seq::<HistoryEntry>::empty());
                assert(carried(c0, l0, s, 1).drop_last() =~= carried(c0, l0, s, 0));
                assert(carried(c0, l0, s, 1).last() == HistoryEntry { cursors: c0, lines: l0, command: s[s.len() - 1].command });
                assert(keep_recent_all(t0, carried(c0, l0, s, 0)) == t0);
            }
            push_bounded(to, HistoryEntry { cursors, lines, command: last });
            let ghost mut k: nat = 1;
            proof {
                assert(to@ == keep_recent_all(t0, carried(c0, l0, s, 1)));
                assert(from@ =~= s.subrange(0, s.len() - 1));
            }
            if chain {
                while from.len() > 0 && from[from.len() - 1].command == Command::AddChar
                    invariant
                        1 <= k <= s.len(),
                        from@ == s.subrange(0, s.len() - k),
                        to@ == keep_recent_all(t0, carried(c0, l0, s, k)),
                        carry_c == s[s.len() - k].cursors,
                        carry_l == s[s.len() - k].lines,
                        last == s[s.len() - k].command,
                        forall|i: int| s.len() - k <= i < s.len() ==> #[trigger] s[i].command == Command::AddChar,
                    decreases from@.len(),
                {
                    match from.pop_back() {
                        Some(e) => {
                            let HistoryEntry { cursors: ec, lines: el, command: ecmd } = e;
                            proof {
                                assert(carried(c0, l0, s, k + 1).drop_last() =~= carried(c0, l0, s, k));
                            }
                            push_bounded(to, HistoryEntry { cursors: carry_c, lines: carry_l, command: ecmd });
                            carry_c = ec;
                            carry_l = el;
                            last = ecmd;
                            proof {
                                k = k + 1;
                                assert(from@ =~= s.subrange(0, s.len() - k));
                            }
                        },
                        None => {},
                    }
                }
                proof {
                    lemma_char_run_split(s, k);
                    assert(s.subrange(0, s.len() - k).len() == 0 || s.subrange(0, s.len() - k).last() == s[s.len() - k - 1]);
                }
            }
            Some(HistoryEntry { cursors: carry_c, lines: carry_l, command: last })
        },
    }
}

/// Two bounded stacks of snapshots: one to undo edits, one to redo them.
///
/// An entry on the undo stack holds the document from before an edit, with
/// that edit's label; an entry on the redo stack holds the document from after
/// an undone edit, with that edit's label.
pub struct History {
    undo_stack: VecDeque<HistoryEntry>,
    redo_stack: VecDeque<HistoryEntry>,
}

impl History {
    /// The undo stack, oldest first.
    pub closed spec fn undos(&self) -> Seq<HistoryEntry> {
        self.undo_stack@
    }

    /// The redo stack, oldest first.
    pub closed spec fn redos(&self) -> Seq<HistoryEntry> {
        self.redo_stack@
    }

    /// Two empty stacks.
    pub fn new() -> (r: History)
        ensures
            r.undos().len() == 0,
            r.redos().len() == 0,
    {
        History { undo_stack: VecDeque::new(), redo_stack: VecDeque::new() }
    }

    /// Empties both stacks.
    pub fn clear(&mut self)
        ensures
            final(self).undos().len() == 0,
            final(self).redos().len() == 0,
    {
        self.undo_stack.clear();
        self.redo_stack.clear();
    }

    /// Empties the redo stack.
    pub fn clear_redo(&mut self)
        ensures
            final(self).undos() == old(self).undos(),
            final(self).redos().len() == 0,
    {
        self.redo_stack.clear();
    }

    /// The number of entries that can be undone.
    pub fn len(&self) -> (r: usize)
        ensures
            r == self.undos().len(),
    {
        self.undo_stack.len()
    }

    /// The number of entries that can be redone.
    pub fn redo_len(&self) -> (r: usize)
        ensures
            r == self.redos().len(),
    {
        self.redo_stack.len()
    }

    /// Pushes an entry on the undo stack, dropping the oldest beyond the limit.
    pub fn push_history(&mut self, entry: HistoryEntry)
        ensures
            final(self).undos() == keep_recent(old(self).undos(), entry),
            final(self).redos() == old(self).redos(),
    {
        push_bounded(&mut self.undo_stack, entry);
    }

    /// Pushes an entry on the redo stack, dropping the oldest beyond the limit.
    pub fn push_redo(&mut self, entry: HistoryEntry)
        ensures
            final(self).redos() == keep_recent(old(self).redos(), entry),
            final(self).undos() == old(self).undos(),
    {
        push_bounded(&mut self.redo_stack, entry);
    }

    /// Takes the most recent entry off the undo stack without applying it.
    pub fn pop_back(&mut self) -> (r: Option<HistoryEntry>)
        ensures
            old(self).undos().len() == 0 ==> r is None && final(self).undos() == old(self).undos(),
            old(self).undos().len() > 0 ==> r == Some(old(self).undos().last())
                && final(self).undos() == old(self).undos().drop_last(),
            final(self).redos() == old(self).redos(),
    {
        let r = self.undo_stack.pop_back();
        proof {
            if old(self).undo_stack@.len() > 0 {
                assert(self.undo_stack@ =~= old(self).undo_stack@.drop_last());
            }
        }
        r
    }

    /// Undoes the most recent edit, or the whole run of typed characters on
    /// top, where `cursors` and `lines` are the document now. The entries
    /// taken leave the undo stack, the redo stack gains the documents after
    /// each of the undone edits (`carried`), and the deepest entry taken,
    /// which holds the document from before them all, is returned. `None`
    /// when there is nothing to undo.
    pub fn undo(&mut self, cursors: Vec<Cursor>, lines: Vec<Vec<char>>) -> (r: Option<HistoryEntry>)
        ensures
            ({
                let s = old(self).undos();
                let n = chain_len(s);
                &&& final(self).undos() == s.subrange(0, s.len() - n)
                &&& final(self).redos() == keep_recent_all(old(self).redos(), carried(cursors, lines, s, n))
                &&& n == 0 ==> r is None
                &&& n > 0 ==> r == Some(s[s.len() - n])
            }),
    {
        shift_chain(&mut self.undo_stack, &mut self.redo_stack, cursors, lines)
    }

    /// Redoes the most recently undone edit, or the whole run of typed
    /// characters on top of the redo stack, where `cursors` and `lines` are
    /// the document now. The entries taken leave the redo stack, the undo
    /// stack gains the documents from before each of the redone edits
    /// (`carried`), and the deepest entry taken, which holds the document
    /// after them all, is returned. `None` when there is nothing to redo.
    pub fn redo(&mut self, cursors: Vec<Cursor>, lines: Vec<Vec<char>>) -> (r: Option<HistoryEntry>)
        ensures
            ({
                let s = old(self).redos();
                let n = chain_len(s);
                &&& final(self).redos() == s.subrange(0, s.len() - n)
                &&& final(self).undos() == keep_recent_all(old(self).undos(), carried(cursors, lines, s, n))
                &&& n == 0 ==> r is None
                &&& n > 0 ==> r == Some(s[s.len() - n])
            }),
    {
        shift_chain(&mut self.redo_stack, &mut self.undo_stack, cursors, lines)
    }
}

} // verus!
