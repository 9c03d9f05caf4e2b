use vstd::prelude::*;

use crate::cursor::{moved, Cursor};
use crate::editor::{doc_wf, in_bounds, Editor};
use crate::text::{find_word_end, find_word_start, skip_spaces, spaces_from, word_end, word_start};

verus! {

broadcast use vstd::std_specs::vec::group_vec_axioms;

/// Every cursor moved by `f`, which maps the lines and a place to the new place.
pub open spec fn move_all(
    lines: Seq<Seq<char>>,
    cursors: Seq<Cursor>,
    f: spec_fn(Seq<Seq<char>>, int, int) -> (int, int),
) -> Seq<Cursor> {
    Seq::new(
        cursors.len(),
        |i: int|
            moved(
                cursors[i],
                f(lines, cursors[i].line as int, cursors[i].col as int).0,
                f(lines, cursors[i].line as int, cursors[i].col as int).1,
            ),
    )
}

/// One character right, over line ends, not past the end of the document.
pub open spec fn right_pos() -> spec_fn(Seq<Seq<char>>, int, int) -> (int, int) {
    |lines: Seq<Seq<char>>, l: int, c: int|
        if c < lines[l].len() {
            (l, c + 1)
        } else if l + 1 >= lines.len() {
            (l, c)
        } else {
            (l + 1, 0)
        }
}

/// The end of the line.
pub open spec fn right_line_pos() -> spec_fn(Seq<Seq<char>>, int, int) -> (int, int) {
    |lines: Seq<Seq<char>>, l: int, c: int| (l, lines[l].len() as int)
}

/// The column that a word move right reaches from column `c` of `s`.
pub open spec fn right_word_target(s: Seq<char>, c: int) -> int {
    if c >= s.len() {
        c
    } else {
        let from = if s[c] == ' ' && c != 0 { c + 1 } else { c };
        let end = word_end(s, from);
        if end == 0 {
            spaces_from(s, 0)
        } else {
            end
        }
    }
}

/// The column that a word move left reaches from column `c` of `s`: back over
/// one space just before `c`, then back to the nearest space or the start of
/// the line; landing at the start of the line, it passes the leading spaces.
pub open spec fn left_word_target(s: Seq<char>, c: int) -> int {
    if c <= 0 {
        c
    } else {
        let from = if s[c - 1] == ' ' { c - 1 } else { c };
        let start = word_start(s, from);
        if start == 0 {
            spaces_from(s, 0)
        } else {
            start
        }
    }
}

/// Where `word_start` stops: at or before `i`, at the start of the line or
/// just after a space, with no space between there and `i`.
pub proof fn lemma_word_start(s: Seq<char>, i: int)
    requires
        0 <= i <= s.len(),
    ensures
        0 <= word_start(s, i) <= i,
        word_start(s, i) == 0 || s[word_start(s, i) - 1] == ' ',
        forall|j: int| word_start(s, i) <= j < i ==> s[j] != ' ',
    decreases i,
{
    if i > 0 && s[i - 1] != ' ' {
        lemma_word_start(s, i - 1);
    }
}

/// A word move left from column `k` of `s`, where the scan has a word to
/// cross, lands strictly left of `k`, at the start of the line or just after
/// a space, with no space between the landing column and the scan's start.
pub proof fn lemma_left_word_lands(s: Seq<char>, k: int)
    requires
        0 < k <= s.len(),
        k - (if s[k - 1] == ' ' { 1int } else { 0int }) > 0,
    ensures
        ({
            let c = left_word_target(s, k);
            let from = k - (if s[k - 1] == ' ' { 1int } else { 0int });
            &&& 0 <= c < k
            &&& c == 0 || s[c - 1] == ' '
            &&& forall|j: int| c <= j < from ==> s[j] != ' '
        }),
{
    let from = k - (if s[k - 1] == ' ' { 1int } else { 0int });
    lemma_word_start(s, from);
    if s[k - 1] != ' ' {
        lemma_word_start(s, k - 1);
        assert(word_start(s, k) == word_start(s, k - 1));
    }
    if word_start(s, from) == 0 {
        assert(s[0] != ' ');
    }
}

/// A word right, on the same line.
pub open spec fn right_word_pos() -> spec_fn(Seq<Seq<char>>, int, int) -> (int, int) {
    |lines: Seq<Seq<char>>, l: int, c: int| (l, right_word_target(lines[l], c))
}

/// A word left, on the same line.
pub open spec fn left_word_pos() -> spec_fn(Seq<Seq<char>>, int, int) -> (int, int) {
    |lines: Seq<Seq<char>>, l: int, c: int| (l, left_word_target(lines[l], c))
}

/// The start of the line.
pub open spec fn left_line_pos() -> spec_fn(Seq<Seq<char>>, int, int) -> (int, int) {
    |lines: Seq<Seq<char>>, l: int, c: int| (l, 0)
}

/// One character left, over line starts, not before the start of the document.
pub open spec fn left_pos() -> spec_fn(Seq<Seq<char>>, int, int) -> (int, int) {
    |lines: Seq<Seq<char>>, l: int, c: int|
        if c > 0 {
            (l, c - 1)
        } else if l == 0 {
            (l, c)
        } else {
            (l - 1, lines[l - 1].len() as int)
        }
}

/// One line down with the column cut to the line; the end of the last line from there.
pub open spec fn down_pos() -> spec_fn(Seq<Seq<char>>, int, int) -> (int, int) {
    |lines: Seq<Seq<char>>, l: int, c: int|
        if l + 1 >= lines.len() {
            (lines.len() - 1, lines[lines.len() - 1].len() as int)
        } else {
            (l + 1, if c > lines[l + 1].len() { lines[l + 1].len() as int } else { c })
        }
}

/// One line up with the column cut to the line; unchanged on the first line.
pub open spec fn up_pos() -> spec_fn(Seq<Seq<char>>, int, int) -> (int, int) {
    |lines: Seq<Seq<char>>, l: int, c: int|
        if l > 0 {
            (l - 1, if c > lines[l - 1].len() { lines[l - 1].len() as int } else { c })
        } else {
            (l, c)
        }
}

/// Every cursor moved by `f`, `n` times over.
pub open spec fn move_all_times(
    lines: Seq<Seq<char>>,
    cursors: Seq<Cursor>,
    f: spec_fn(Seq<Seq<char>>, int, int) -> (int, int),
    n: nat,
) -> Seq<Cursor>
    decreases n,
{
    if n == 0 {
        cursors
    } else {
        move_all(lines, move_all_times(lines, cursors, f, (n - 1) as nat), f)
    }
}

/// `right_word_target`, computed.
pub fn right_word_col(s: &Vec<char>, c: usize) -> (r: usize)
    requires
        c <= s@.len(),
    ensures
        r == right_word_target(s@, c as int),
        r <= s@.len(),
{
    let n = s.len();
    if c >= n {
        return c;
    }
    let from = if s[c] == ' ' && c != 0 { c + 1 } else { c };
    let end = find_word_end(s, from);
    if end == 0 {
        skip_spaces(s, 0)
    } else {
        end
    }
}

/// `left_word_target`, computed.
pub fn left_word_col(s: &Vec<char>, c: usize) -> (r: usize)
    requires
        c <= s@.len(),
    ensures
        r == left_word_target(s@, c as int),
        r <= s@.len(),
{
    if c == 0 {
        return c;
    }
    let from = if s[c - 1] == ' ' { c - 1 } else { c };
    let start = find_word_start(s, from);
    if start == 0 {
        skip_spaces(s, 0)
    } else {
        start
    }
}

impl Editor {
    /// Moves every cursor one character right; from the end of a line to the start of the next, and not past the end of the last line.
    pub fn right(&mut self)
        requires
            old(self).wf(),
        ensures
            final(self).wf(),
            final(self).cursors@ == move_all(old(self).text(), old(self).cursors@, right_pos()),
            final(self).lines == old(self).lines,
            final(self).history == old(self).history,
            final(self).same_status(old(self)),
    {
        let ghost c0 = self.cursors@;
        let ghost t = self.text();
        let mut i: usize = 0;
        while i < self.cursors.len()
            invariant
                i <= c0.len(),
                self.cursors@.len() == c0.len(),
                t == self.text(),
                self.lines == old(self).lines,
                self.history == old(self).history,
                self.same_status(old(self)),
                doc_wf(t, c0),
                forall|j: int| 0 <= j < i ==> self.cursors@[j] == #[trigger] move_all(t, c0, right_pos())[j],
                forall|j: int| 0 <= j < i ==> in_bounds(t, #[trigger] self.cursors@[j]),
                forall|j: int| i <= j < c0.len() ==> self.cursors@[j] == #[trigger] c0[j],
            decreases c0.len() - i,
        {
            let l = self.cursors[i].line;
            let c = self.cursors[i].col;
            assert(in_bounds(t, c0[i as int]));
            let len = self.lines[l].len();
            let n = self.lines.len();
            let (nl, nc) = if c < len {
                (l, c + 1)
            } else if l + 1 >= n {
                (l, c)
            } else {
                (l + 1, 0)
            };
            self.cursors[i].line = nl;
            self.cursors[i].col = nc;
            i = i + 1;
        }
        assert(self.cursors@ =~= move_all(t, c0, right_pos()));
    }

    /// Moves every cursor to the end of its line.
    pub fn right_line(&mut self)
        requires
            old(self).wf(),
        ensures
            final(self).wf(),
            final(self).cursors@ == move_all(old(self).text(), old(self).cursors@, right_line_pos()),
            final(self).lines == old(self).lines,
            final(self).history == old(self).history,
            final(self).same_status(old(self)),
    {
        let ghost c0 = self.cursors@;
        let ghost t = self.text();
        let mut i: usize = 0;
        while i < self.cursors.len()
            invariant
                i <= c0.len(),
                self.cursors@.len() == c0.len(),
                t == self.text(),
                self.lines == old(self).lines,
                self.history == old(self).history,
                self.same_status(old(self)),
                doc_wf(t, c0),
                forall|j: int| 0 <= j < i ==> self.cursors@[j] == #[trigger] move_all(t, c0, right_line_pos())[j],
                forall|j: int| 0 <= j < i ==> in_bounds(t, #[trigger] self.cursors@[j]),
                forall|j: int| i <= j < c0.len() ==> self.cursors@[j] == #[trigger] c0[j],
            decreases c0.len() - i,
        {
            let l = self.cursors[i].line;
            assert(in_bounds(t, c0[i as int]));
            let (nl, nc) = (l, self.lines[l].len());
            self.cursors[i].line = nl;
            self.cursors[i].col = nc;
            i = i + 1;
        }
        assert(self.cursors@ =~= move_all(t, c0, right_line_pos()));
    }

    /// Moves every cursor right to the end of the word: past one space it stands on (but at the start of the line), then up to the next space or the end of the line; a cursor that ends at the start of the line passes its indent instead.
    pub fn right_word(&mut self)
        requires
            old(self).wf(),
        ensures
            final(self).wf(),
            final(self).cursors@ == move_all(old(self).text(), old(self).cursors@, right_word_pos()),
            final(self).lines == old(self).lines,
            final(self).history == old(self).history,
            final(self).same_status(old(self)),
    {
        let ghost c0 = self.cursors@;
        let ghost t = self.text();
        let mut i: usize = 0;
        while i < self.cursors.len()
            invariant
                i <= c0.len(),
                self.cursors@.len() == c0.len(),
                t == self.text(),
                self.lines == old(self).lines,
                self.history == old(self).history,
                self.same_status(old(self)),
                doc_wf(t, c0),
                forall|j: int| 0 <= j < i ==> self.cursors@[j] == #[trigger] move_all(t, c0, right_word_pos())[j],
                forall|j: int| 0 <= j < i ==> in_bounds(t, #[trigger] self.cursors@[j]),
                forall|j: int| i <= j < c0.len() ==> self.cursors@[j] == #[trigger] c0[j],
            decreases c0.len() - i,
        {
            let l = self.cursors[i].line;
            let c = self.cursors[i].col;
            assert(in_bounds(t, c0[i as int]));
            let (nl, nc) = (l, right_word_col(&self.lines[l], c));
            self.cursors[i].line = nl;
            self.cursors[i].col = nc;
            i = i + 1;
        }
        assert(self.cursors@ =~= move_all(t, c0, right_word_pos()));
    }

    /// Moves every cursor left to the start of the word, as `left_word_target` says.
    pub fn left_word(&mut self)
        requires
            old(self).wf(),
        ensures
            final(self).wf(),
            final(self).cursors@ == move_all(old(self).text(), old(self).cursors@, left_word_pos()),
            final(self).lines == old(self).lines,
            final(self).history == old(self).history,
            final(self).same_status(old(self)),
    {
        let ghost c0 = self.cursors@;
        let ghost t = self.text();
        let mut i: usize = 0;
        while i < self.cursors.len()
            invariant
                i <= c0.len(),
                self.cursors@.len() == c0.len(),
                t == self.text(),
                self.lines == old(self).lines,
                self.history == old(self).history,
                self.same_status(old(self)),
                doc_wf(t, c0),
                forall|j: int| 0 <= j < i ==> self.cursors@[j] == #[trigger] move_all(t, c0, left_word_pos())[j],
                forall|j: int| 0 <= j < i ==> in_bounds(t, #[trigger] self.cursors@[j]),
                forall|j: int| i <= j < c0.len() ==> self.cursors@[j] == #[trigger] c0[j],
            decreases c0.len() - i,
        {
            let l = self.cursors[i].line;
            let c = self.cursors[i].col;
            assert(in_bounds(t, c0[i as int]));
            let (nl, nc) = (l, left_word_col(&self.lines[l], c));
            self.cursors[i].line = nl;
            self.cursors[i].col = nc;
            i = i + 1;
        }
        assert(self.cursors@ =~= move_all(t, c0, left_word_pos()));
    }

    /// Moves every cursor to the start of its line.
    pub fn left_line(&mut self)
        requires
            old(self).wf(),
        ensures
            final(self).wf(),
            final(self).cursors@ == move_all(old(self).text(), old(self).cursors@, left_line_pos()),
            final(self).lines == old(self).lines,
            final(self).history == old(self).history,
            final(self).same_status(old(self)),
    {
        let ghost c0 = self.cursors@;
        let ghost t = self.text();
        let mut i: usize = 0;
        while i < self.cursors.len()
            invariant
                i <= c0.len(),
                self.cursors@.len() == c0.len(),
                t == self.text(),
                self.lines == old(self).lines,
                self.history == old(self).history,
                self.same_status(old(self)),
                doc_wf(t, c0),
                forall|j: int| 0 <= j < i ==> self.cursors@[j] == #[trigger] move_all(t, c0, left_line_pos())[j],
                forall|j: int| 0 <= j < i ==> in_bounds(t, #[trigger] self.cursors@[j]),
                forall|j: int| i <= j < c0.len() ==> self.cursors@[j] == #[trigger] c0[j],
            decreases c0.len() - i,
        {
            let l = self.cursors[i].line;
            assert(in_bounds(t, c0[i as int]));
            let (nl, nc) = (l, 0);
            self.cursors[i].line = nl;
            self.cursors[i].col = nc;
            i = i + 1;
        }
        assert(self.cursors@ =~= move_all(t, c0, left_line_pos()));
    }

    /// Moves every cursor one character left; from the start of a line to the end of the one before, and not before the start of the document.
    pub fn left(&mut self)
        requires
            old(self).wf(),
        ensures
            final(self).wf(),
            final(self).cursors@ == move_all(old(self).text(), old(self).cursors@, left_pos()),
            final(self).lines == old(self).lines,
            final(self).history == old(self).history,
            final(self).same_status(old(self)),
    {
        let ghost c0 = self.cursors@;
        let ghost t = self.text();
        let mut i: usize = 0;
        while i < self.cursors.len()
            invariant
                i <= c0.len(),
                self.cursors@.len() == c0.len(),
                t == self.text(),
                self.lines == old(self).lines,
                self.history == old(self).history,
                self.same_status(old(self)),
                doc_wf(t, c0),
                forall|j: int| 0 <= j < i ==> self.cursors@[j] == #[trigger] move_all(t, c0, left_pos())[j],
                forall|j: int| 0 <= j < i ==> in_bounds(t, #[trigger] self.cursors@[j]),
                forall|j: int| i <= j < c0.len() ==> self.cursors@[j] == #[trigger] c0[j],
            decreases c0.len() - i,
        {
            let l = self.cursors[i].line;
            let c = self.cursors[i].col;
            assert(in_bounds(t, c0[i as int]));
            let (nl, nc) = if c > 0 {
                (l, c - 1)
            } else if l == 0 {
                (l, c)
            } else {
                (l - 1, self.lines[l - 1].len())
            };
            self.cursors[i].line = nl;
            self.cursors[i].col = nc;
            i = i + 1;
        }
        assert(self.cursors@ =~= move_all(t, c0, left_pos()));
    }

    /// Moves every cursor one line down, its column cut to the new line's length; on the last line, to its end.
    pub fn down(&mut self)
        requires
            old(self).wf(),
        ensures
            final(self).wf(),
            final(self).cursors@ == move_all(old(self).text(), old(self).cursors@, down_pos()),
            final(self).lines == old(self).lines,
            final(self).history == old(self).history,
            final(self).same_status(old(self)),
    {
        let ghost c0 = self.cursors@;
        let ghost t = self.text();
        let mut i: usize = 0;
        while i < self.cursors.len()
            invariant
                i <= c0.len(),
                self.cursors@.len() == c0.len(),
                t == self.text(),
                self.lines == old(self).lines,
                self.history == old(self).history,
                self.same_status(old(self)),
                doc_wf(t, c0),
                forall|j: int| 0 <= j < i ==> self.cursors@[j] == #[trigger] move_all(t, c0, down_pos())[j],
                forall|j: int| 0 <= j < i ==> in_bounds(t, #[trigger] self.cursors@[j]),
                forall|j: int| i <= j < c0.len() ==> self.cursors@[j] == #[trigger] c0[j],
            decreases c0.len() - i,
        {
            let l = self.cursors[i].line;
            let c = self.cursors[i].col;
            assert(in_bounds(t, c0[i as int]));
            let n = self.lines.len();
            let (nl, nc) = if l + 1 >= n {
                (n - 1, self.lines[n - 1].len())
            } else {
                let len = self.lines[l + 1].len();
                (l + 1, if c > len { len } else { c })
            };
            self.cursors[i].line = nl;
            self.cursors[i].col = nc;
            i = i + 1;
        }
        assert(self.cursors@ =~= move_all(t, c0, down_pos()));
    }

    /// Moves every cursor one line up, its column cut to the new line's length; on the first line it stays.
    pub fn up(&mut self)
        requires
            old(self).wf(),
        ensures
            final(self).wf(),
            final(self).cursors@ == move_all(old(self).text(), old(self).cursors@, up_pos()),
            final(self).lines == old(self).lines,
            final(self).history == old(self).history,
            final(self).same_status(old(self)),
    {
        let ghost c0 = self.cursors@;
        let ghost t = self.text();
        let mut i: usize = 0;
        while i < self.cursors.len()
            invariant
                i <= c0.len(),
                self.cursors@.len() == c0.len(),
                t == self.text(),
                self.lines == old(self).lines,
                self.history == old(self).history,
                self.same_status(old(self)),
                doc_wf(t, c0),
                forall|j: int| 0 <= j < i ==> self.cursors@[j] == #[trigger] move_all(t, c0, up_pos())[j],
                forall|j: int| 0 <= j < i ==> in_bounds(t, #[trigger] self.cursors@[j]),
                forall|j: int| i <= j < c0.len() ==> self.cursors@[j] == #[trigger] c0[j],
            decreases c0.len() - i,
        {
            let l = self.cursors[i].line;
            let c = self.cursors[i].col;
            assert(in_bounds(t, c0[i as int]));
            let (nl, nc) = if l > 0 {
                let len = self.lines[l - 1].len();
                (l - 1, if c > len { len } else { c })
            } else {
                (l, c)
            };
            self.cursors[i].line = nl;
            self.cursors[i].col = nc;
            i = i + 1;
        }
        assert(self.cursors@ =~= move_all(t, c0, up_pos()));
    }

    /// Moves every cursor five lines down, as five calls of `down`.
    pub fn down_five(&mut self)
        requires
            old(self).wf(),
        ensures
            final(self).wf(),
            final(self).cursors@ == move_all_times(old(self).text(), old(self).cursors@, down_pos(), 5),
            final(self).lines == old(self).lines,
            final(self).history == old(self).history,
            final(self).same_status(old(self)),
    {
        let ghost c0 = self.cursors@;
        let ghost t = self.text();
        let mut k: usize = 0;
        while k < 5
            invariant
                k <= 5,
                self.wf(),
                t == self.text(),
                self.cursors@ == move_all_times(t, c0, down_pos(), k as nat),
                self.lines == old(self).lines,
                self.history == old(self).history,
                self.same_status(old(self)),
            decreases 5 - k,
        {
            self.down();
            k = k + 1;
        }
    }

    /// Moves every cursor five lines up, as five calls of `up`.
    pub fn up_five(&mut self)
        requires
            old(self).wf(),
        ensures
            final(self).wf(),
            final(self).cursors@ == move_all_times(old(self).text(), old(self).cursors@, up_pos(), 5),
            final(self).lines == old(self).lines,
            final(self).history == old(self).history,
            final(self).same_status(old(self)),
    {
        let ghost c0 = self.cursors@;
        let ghost t = self.text();
        let mut k: usize = 0;
        while k < 5
            invariant
                k <= 5,
                self.wf(),
                t == self.text(),
                self.cursors@ == move_all_times(t, c0, up_pos(), k as nat),
                self.lines == old(self).lines,
                self.history == old(self).history,
                self.same_status(old(self)),
            decreases 5 - k,
        {
            self.up();
            k = k + 1;
        }
    }
}

} // verus!
