use vstd::prelude::*;

use crate::commands::Command;
use crate::cursor::Cursor;
use crate::editor::{doc_wf, edit_doc, pushed_snapshot, redone, undone, Editor};
use crate::edits::{backspace_recorded, new_line_step};
use crate::finder::{all_hits, next_index, start_index};
use crate::history::{carried, char_run, chain_len, keep_recent, keep_recent_all, lemma_char_run_split, view_lines, HistoryEntry, HISTORY_LIMIT};
use crate::text::{ends_with_brace, leading_spaces, spaces, spaces_from};

verus! {

/// Undoing an edit that was recorded under any label but that of a plain
/// character brings back exactly the lines and cursors from before the edit.
pub proof fn lemma_undo_restores_edit(before: Editor, edited: Editor, restored: Editor, comm: Command)
    requires
        comm != Command::AddChar,
        pushed_snapshot(before.history, edited.history, before.text(), before.cursors@, comm),
        undone(edited, restored),
    ensures
        restored.text() == before.text(),
        restored.cursors@ == before.cursors@,
{
    let s = edited.history.undos();
    assert(chain_len(s) == 1);
}

/// Redoing right after undoing an edit that was recorded under any label but
/// that of a plain character brings back exactly the lines and cursors from
/// right after the edit, and the undo stack as it was then; the redo stack is
/// empty again.
pub proof fn lemma_redo_after_undo(before: Editor, edited: Editor, restored: Editor, again: Editor, comm: Command)
    requires
        comm != Command::AddChar,
        pushed_snapshot(before.history, edited.history, before.text(), before.cursors@, comm),
        undone(edited, restored),
        redone(restored, again),
    ensures
        again.lines == edited.lines,
        again.cursors == edited.cursors,
        again.history.undos() == edited.history.undos(),
        again.history.redos().len() == 0,
{
    let s = edited.history.undos();
    let e = s.last();
    assert(chain_len(s) == 1);
    let c = carried(edited.cursors, edited.lines, s, 1);
    let x = c[0];
    assert(x == HistoryEntry { cursors: edited.cursors, lines: edited.lines, command: comm });
    assert(c.drop_last() =~= Seq::<HistoryEntry>::empty());
    assert(edited.history.redos() =~= Seq::<HistoryEntry>::empty());
    assert(keep_recent_all(edited.history.redos(), c) == keep_recent(keep_recent_all(edited.history.redos(), c.drop_last()), x));
    assert(keep_recent(Seq::<HistoryEntry>::empty(), x) =~= seq![x]);
    let r = restored.history.redos();
    assert(r == seq![x]);
    assert(chain_len(r) == 1);
    let d = carried(restored.cursors, restored.lines, r, 1);
    assert(d[0] == e);
    assert(d.drop_last() =~= Seq::<HistoryEntry>::empty());
    let u = restored.history.undos();
    assert(u == s.subrange(0, s.len() - 1));
    assert(keep_recent_all(u, d) == keep_recent(keep_recent_all(u, d.drop_last()), e));
    assert(s.len() <= HISTORY_LIMIT);
    assert(u.push(e) =~= s);
    assert(r.subrange(0, 0) =~= Seq::<HistoryEntry>::empty());
}

/// The top `k` entries of `u` are the snapshots of the first `k` editors of `es`,
/// labelled as plain characters, and below them lies nothing or an entry of
/// another label.
pub open spec fn typed_run_on_top(u: Seq<HistoryEntry>, es: Seq<Editor>, k: int) -> bool {
    &&& u.len() >= k
    &&& forall|j: int| 0 <= j < k ==> {
        let e = #[trigger] u[u.len() - k + j];
        &&& view_lines(e.lines@) == es[j].text()
        &&& e.cursors@ == es[j].cursors@
        &&& e.command == Command::AddChar
    }
    &&& u.len() == k || u[u.len() - k - 1].command != Command::AddChar
}

proof fn lemma_typed_run_grows(es: Seq<Editor>, k: int)
    requires
        0 <= k < es.len() - 1,
        k + 1 <= HISTORY_LIMIT,
        typed_run_on_top(es[k].history.undos(), es, k),
        pushed_snapshot(es[k].history, es[k + 1].history, es[k].text(), es[k].cursors@, Command::AddChar),
    ensures
        typed_run_on_top(es[k + 1].history.undos(), es, k + 1),
{
    let u = es[k].history.undos();
    let w = es[k + 1].history.undos();
    let x = w.last();
    let t = u.push(x);
    assert(w == crate::history::keep_recent(u, x));
    if t.len() > HISTORY_LIMIT {
        assert(w == t.subrange(t.len() - HISTORY_LIMIT, t.len() as int));
        assert forall|j: int| 0 <= j < k + 1 implies {
            let e = #[trigger] w[w.len() - (k + 1) + j];
            &&& view_lines(e.lines@) == es[j].text()
            &&& e.cursors@ == es[j].cursors@
            &&& e.command == Command::AddChar
        } by {
            assert(w[w.len() - (k + 1) + j] == t[u.len() - k + j]);
            if j < k {
                assert(t[u.len() - k + j] == u[u.len() - k + j]);
            }
        }
        if w.len() != k + 1 {
            assert(w[w.len() - (k + 1) - 1] == t[u.len() - k - 1]);
        }
    } else {
        assert(w == t);
        assert forall|j: int| 0 <= j < k + 1 implies {
            let e = #[trigger] w[w.len() - (k + 1) + j];
            &&& view_lines(e.lines@) == es[j].text()
            &&& e.cursors@ == es[j].cursors@
            &&& e.command == Command::AddChar
        } by {
            if j < k {
                assert(t[u.len() - k + j] == u[u.len() - k + j]);
            }
        }
        if w.len() != k + 1 {
            assert(w[w.len() - (k + 1) - 1] == u[u.len() - k - 1]);
        }
    }
}

proof fn lemma_typed_run_upto(es: Seq<Editor>, k: int)
    requires
        0 <= k < es.len(),
        es.len() - 1 <= HISTORY_LIMIT,
        es[0].history.undos().len() == 0 || es[0].history.undos().last().command != Command::AddChar,
        forall|k: int| 0 <= k < es.len() - 1 ==> pushed_snapshot(#[trigger] es[k].history, es[k + 1].history,
            es[k].text(), es[k].cursors@, Command::AddChar),
    ensures
        typed_run_on_top(es[k].history.undos(), es, k),
    decreases k,
{
    if k == 0 {
        let u = es[0].history.undos();
        if u.len() > 0 {
            assert(u.last() == u[u.len() - 0 - 1]);
        }
    } else {
        lemma_typed_run_upto(es, k - 1);
        lemma_typed_run_grows(es, k - 1);
    }
}

/// Typing a run of `n` plain characters, one snapshot recorded before each,
/// and undoing once brings back the lines and cursors from before the whole
/// run, as long as the run fits in the history and does not continue a run
/// typed before it.
pub proof fn lemma_undo_typed_run(es: Seq<Editor>, restored: Editor)
    requires
        es.len() >= 2,
        es.len() - 1 <= HISTORY_LIMIT,
        es[0].history.undos().len() == 0 || es[0].history.undos().last().command != Command::AddChar,
        forall|k: int| 0 <= k < es.len() - 1 ==> pushed_snapshot(#[trigger] es[k].history, es[k + 1].history,
            es[k].text(), es[k].cursors@, Command::AddChar),
        undone(es.last(), restored),
    ensures
        restored.text() == es[0].text(),
        restored.cursors@ == es[0].cursors@,
{
    let n = es.len() - 1;
    lemma_typed_run_upto(es, n);
    let u = es[n].history.undos();
    assert(es.last() == es[n]);
    assert forall|i: int| u.len() - n <= i < u.len() implies #[trigger] u[i].command == Command::AddChar by {
        assert(u[u.len() - n + (i - (u.len() - n))] == u[i]);
    }
    lemma_char_run_split(u, n as nat);
    let below = u.subrange(0, u.len() - n);
    if below.len() > 0 {
        assert(below.last() == u[u.len() - n - 1]);
    }
    assert(char_run(below) == 0);
    assert(u.last() == u[u.len() - n + (n - 1)]);
    assert(chain_len(u) == n);
    assert(u[u.len() - n] == u[u.len() - n + 0]);
}

/// A backspace with every cursor at the very start of the document leaves the
/// undo stack as long as it was.
pub proof fn lemma_backspace_at_origin_keeps_history(before: Editor, after: Editor)
    requires
        forall|i: int| 0 <= i < before.cursors@.len() ==> (#[trigger] before.cursors@[i]).line == 0
            && before.cursors@[i].col == 0,
        backspace_recorded(before, after),
    ensures
        after.history.undos().len() == before.history.undos().len(),
{
}

proof fn lemma_leading_spaces_prefix(a: Seq<char>, b: Seq<char>, i: int)
    requires
        0 <= i <= a.len(),
        forall|j: int| 0 <= j < a.len() ==> a[j] == ' ',
        b.len() == 0,
    ensures
        spaces_from(a + b, i) == a.len(),
    decreases a.len() - i,
{
    if i < a.len() {
        assert((a + b)[i] == ' ');
        lemma_leading_spaces_prefix(a, b, i + 1);
    }
}

/// A line break with a single cursor at the end of a line that ends with an
/// opening brace, and whose indent is a whole number of levels, opens a new
/// line indented by four spaces more.
pub proof fn lemma_indent_after_brace(lines: Seq<Seq<char>>, cursors: Seq<Cursor>)
    requires
        doc_wf(lines, cursors),
        cursors.len() == 1,
        cursors[0].col == lines[cursors[0].line as int].len(),
        ends_with_brace(lines[cursors[0].line as int]),
        leading_spaces(lines[cursors[0].line as int]) % 4 == 0,
    ensures
        ({
            let after = edit_doc(lines, cursors, new_line_step()).0;
            let l = cursors[0].line as int;
            &&& after.len() == lines.len() + 1
            &&& after[l] == lines[l]
            &&& leading_spaces(after[l + 1]) == leading_spaces(lines[l]) + 4
        }),
{
    let l = cursors[0].line as int;
    let s = lines[l];
    let lead = leading_spaces(s);
    assert(crate::editor::edit_all(lines, cursors, 0, new_line_step()) == (lines, cursors));
    lemma_spaces_from_nonneg(s, 0);
    let m = 4 * (lead / 4 + 1);
    assert(m == lead + 4) by (nonlinear_arith)
        requires
            lead % 4 == 0,
            lead >= 0,
            m == 4 * (lead / 4 + 1),
    ;
    let after = edit_doc(lines, cursors, new_line_step()).0;
    assert(s.subrange(0, s.len() as int) =~= s);
    let tail = s.subrange(s.len() as int, s.len() as int);
    assert(after[l + 1] == spaces(m) + tail);
    lemma_leading_spaces_prefix(spaces(m), tail, 0);
}

proof fn lemma_spaces_from_nonneg(s: Seq<char>, i: int)
    requires
        0 <= i,
    ensures
        spaces_from(s, i) >= i,
    decreases s.len() - i,
{
    if 0 <= i < s.len() && s[i] == ' ' {
        lemma_spaces_from_nonneg(s, i + 1);
    }
}

/// The index reached from `i` by `n` moves to the next of `k` results.
pub open spec fn next_times(i: int, k: int, n: nat) -> int
    decreases n,
{
    if n == 0 {
        i
    } else {
        next_index(next_times(i, k, (n - 1) as nat), k)
    }
}

proof fn lemma_next_times_add(i: int, k: int, a: nat, b: nat)
    ensures
        next_times(i, k, a + b) == next_times(next_times(i, k, a), k, b),
    decreases b,
{
    if b > 0 {
        lemma_next_times_add(i, k, a, (b - 1) as nat);
        assert((a + b - 1) as nat == a + (b - 1) as nat);
    }
}

proof fn lemma_next_times_climbs(i: int, k: int, n: nat)
    requires
        0 <= i,
        i + n < k,
    ensures
        next_times(i, k, n) == i + n,
    decreases n,
{
    if n > 0 {
        lemma_next_times_climbs(i, k, (n - 1) as nat);
    }
}

/// After a search with `k > 0` results, `k` moves to the next result come back
/// to the result that the search started at.
pub proof fn lemma_find_cycles(lines: Seq<Seq<char>>, q: Seq<char>, current: int)
    requires
        all_hits(lines, q, lines.len() as int).len() > 0,
    ensures
        ({
            let k = all_hits(lines, q, lines.len() as int).len() as int;
            let i = start_index(lines, q, current);
            &&& 0 <= i < k
            &&& next_times(i, k, k as nat) == i
        }),
{
    let k = all_hits(lines, q, lines.len() as int).len() as int;
    let i = start_index(lines, q, current);
    lemma_next_times_add(i, k, (k - i) as nat, i as nat);
    assert((k - i) as nat + i as nat == k as nat);
    lemma_next_times_climbs(i, k, (k - i - 1) as nat);
    assert(next_times(i, k, (k - i) as nat) == 0);
    if i > 0 {
        lemma_next_times_climbs(0, k, i as nat);
    }
}

} // verus!
