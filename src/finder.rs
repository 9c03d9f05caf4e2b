use vstd::prelude::*;

use crate::history::view_lines;
use crate::text::{chars_of, fold_case, folded};

verus! {

broadcast use vstd::std_specs::vec::group_vec_axioms;

/// `q` occurs in `line` at column `j`, ASCII case aside.
pub open spec fn matches_at(line: Seq<char>, q: Seq<char>, j: int) -> bool {
    &&& 0 <= j
    &&& j + q.len() <= line.len()
    &&& forall|k: int| 0 <= k < q.len() ==> fold_case(#[trigger] line[j + k]) == fold_case(q[k])
}

/// The places of `q` in line `i` from column `from` on, scanned left to right,
/// each one starting after the end of the one before.
pub open spec fn line_hits(line: Seq<char>, q: Seq<char>, i: int, from: int) -> Seq<(usize, usize)>
    decreases line.len() - from,
{
    if q.len() == 0 || from < 0 || from + q.len() > line.len() {
        Seq::empty()
    } else if matches_at(line, q, from) {
        seq![(i as usize, from as usize)] + line_hits(line, q, i, from + q.len())
    } else {
        line_hits(line, q, i, from + 1)
    }
}

/// The places of `q` in the first `n` lines, in document order.
pub open spec fn all_hits(lines: Seq<Seq<char>>, q: Seq<char>, n: int) -> Seq<(usize, usize)>
    decreases n,
{
    if n <= 0 {
        Seq::empty()
    } else {
        all_hits(lines, q, n - 1) + line_hits(lines[n - 1], q, n - 1, 0)
    }
}

/// Where a new search starts: the first place at or after line `current`, or
/// the first place of all when none follows it.
pub open spec fn start_index(lines: Seq<Seq<char>>, q: Seq<char>, current: int) -> int {
    let before = all_hits(lines, q, if current < lines.len() { current } else { lines.len() as int }).len();
    if before < all_hits(lines, q, lines.len() as int).len() {
        before as int
    } else {
        0
    }
}

/// The index after `i` among `k` results, back to the first past the last.
pub open spec fn next_index(i: int, k: int) -> int {
    if i + 1 >= k {
        0
    } else {
        i + 1
    }
}

/// The index before `i` among `k` results, round to the last before the first.
pub open spec fn prev_index(i: int, k: int) -> int {
    if i == 0 {
        k - 1
    } else {
        i - 1
    }
}

/// A search: its query, its results as `(line, column)` places, and the current one.
pub struct Finder {
    pub query: String,
    pub search_index: usize,
    pub search_results: Vec<(usize, usize)>,
}

/// Whether `q` occurs in `line` at column `j`.
fn matches_here(line: &Vec<char>, q: &Vec<char>, j: usize) -> (r: bool)
    requires
        j + q@.len() <= line@.len(),
    ensures
        r == matches_at(line@, q@, j as int),
{
    let n = line.len();
    let mut k: usize = 0;
    while k < q.len()
        invariant
            n == line@.len(),
            j + q@.len() <= line@.len(),
            k <= q@.len(),
            forall|m: int| 0 <= m < k ==> fold_case(#[trigger] line@[j + m]) == fold_case(q@[m]),
        decreases q@.len() - k,
    {
        if folded(line[j + k]) != folded(q[k]) {
            return false;
        }
        k = k + 1;
    }
    true
}

impl Finder {
    /// An empty search.
    pub fn new() -> (r: Self)
        ensures
            r.query@ == Seq::<char>::empty(),
            r.search_index == 0,
            r.search_results@ == Seq::<(usize, usize)>::empty(),
    {
        Finder { query: String::new(), search_index: 0, search_results: Vec::new() }
    }

    /// Finds every place of the query in `lines`, ASCII case aside, and points
    /// the current result at the first place at or after `current_line`.
    pub fn find(&mut self, lines: &Vec<Vec<char>>, current_line: usize)
        ensures
            final(self).query == old(self).query,
            final(self).search_results@ == all_hits(view_lines(lines@), old(self).query@, lines@.len() as int),
            final(self).search_index == start_index(view_lines(lines@), old(self).query@, current_line as int),
    {
        let ghost text = view_lines(lines@);
        let q = chars_of(self.query.as_str());
        let mut results: Vec<(usize, usize)> = Vec::new();
        let mut before: usize = 0;
        let mut i: usize = 0;
        while i < lines.len()
            invariant
                i <= lines@.len(),
                text == view_lines(lines@),
                q@ == self.query@,
                results@ == all_hits(text, q@, i as int),
                current_line < i ==> before == all_hits(text, q@, current_line as int).len(),
            decreases lines@.len() - i,
        {
            if i == current_line {
                before = results.len();
            }
            let line = &lines[i];
            assert(line@ == text[i as int]);
            if q.len() > 0 && q.len() <= line.len() {
                let mut j: usize = 0;
                while j <= line.len() - q.len()
                    invariant
                        0 < q@.len() <= line@.len(),
                        j <= line@.len(),
                        all_hits(text, q@, i as int) + line_hits(line@, q@, i as int, 0)
                            == results@ + line_hits(line@, q@, i as int, j as int),
                    decreases line@.len() - j,
                {
                    let ghost prior = results@;
                    if matches_here(line, &q, j) {
                        results.push((i, j));
                        assert(results@ + line_hits(line@, q@, i as int, (j + q.len()) as int)
                            =~= prior + line_hits(line@, q@, i as int, j as int));
                        j = j + q.len();
                    } else {
                        j = j + 1;
                    }
                }
                assert(line_hits(line@, q@, i as int, j as int) =~= Seq::<(usize, usize)>::empty());
            } else {
                assert(line_hits(line@, q@, i as int, 0) =~= Seq::<(usize, usize)>::empty());
            }
            assert(results@ =~= all_hits(text, q@, i as int + 1));
            i = i + 1;
        }
        if current_line >= lines.len() {
            before = results.len();
        }
        self.search_index = if before < results.len() { before } else { 0 };
        self.search_results = results;
    }

    /// Moves to the next result, round to the first after the last.
    pub fn next(&mut self)
        ensures
            final(self).query == old(self).query,
            final(self).search_results == old(self).search_results,
            old(self).search_results@.len() == 0 ==> final(self).search_index == old(self).search_index,
            old(self).search_results@.len() > 0 ==> final(self).search_index == next_index(
                old(self).search_index as int, old(self).search_results@.len() as int),
    {
        if self.search_results.len() == 0 {
            return;
        }
        if self.search_index >= self.search_results.len() - 1 {
            self.search_index = 0;
        } else {
            self.search_index = self.search_index + 1;
        }
    }

    /// Moves to the previous result, round to the last before the first.
    pub fn prev(&mut self)
        ensures
            final(self).query == old(self).query,
            final(self).search_results == old(self).search_results,
            old(self).search_results@.len() == 0 ==> final(self).search_index == old(self).search_index,
            old(self).search_results@.len() > 0 ==> final(self).search_index == prev_index(
                old(self).search_index as int, old(self).search_results@.len() as int),
    {
        if self.search_results.len() == 0 {
            return;
        }
        if self.search_index == 0 {
            self.search_index = self.search_results.len() - 1;
        } else {
            self.search_index = self.search_index - 1;
        }
    }
}

} // verus!
