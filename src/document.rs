use vstd::prelude::*;

use crate::cursor::{moved, Cursor};
use crate::editor::{clamp_all, Editor};
use crate::history::view_lines;
use crate::text::{chars_of, push_char};

verus! {

broadcast use vstd::std_specs::vec::group_vec_axioms;

/// The pieces of `s` between the characters `sep`: one more than there are `sep`.
pub open spec fn pieces(s: Seq<char>, sep: char) -> Seq<Seq<char>>
    decreases s.len(),
{
    if s.len() == 0 {
        seq![Seq::<char>::empty()]
    } else {
        let p = pieces(s.drop_last(), sep);
        if s.last() == sep {
            p.push(Seq::<char>::empty())
        } else {
            p.update(p.len() - 1, p.last().push(s.last()))
        }
    }
}

/// `l` without a carriage return at its end.
pub open spec fn strip_cr(l: Seq<char>) -> Seq<char> {
    if l.len() > 0 && l.last() == '\r' {
        l.drop_last()
    } else {
        l
    }
}

/// The lines of a file's content: it is cut at each line feed, a carriage
/// return before a line feed goes with it, and a final line feed opens no line.
/// Empty content gives one empty line.
pub open spec fn text_lines(s: Seq<char>) -> Seq<Seq<char>> {
    let p = pieces(s, '\n');
    let q = if p.len() > 1 && p.last().len() == 0 { p.drop_last() } else { p };
    Seq::new(q.len(), |i: int| if i < p.len() - 1 { strip_cr(q[i]) } else { q[i] })
}

/// The lines joined with one line feed between each two, none at the end.
pub open spec fn joined(lines: Seq<Seq<char>>) -> Seq<char>
    decreases lines.len(),
{
    if lines.len() == 0 {
        Seq::empty()
    } else if lines.len() == 1 {
        lines[0]
    } else {
        joined(lines.drop_last()) + seq!['\n'] + lines.last()
    }
}

proof fn lemma_pieces_nonempty(s: Seq<char>, sep: char)
    ensures
        pieces(s, sep).len() >= 1,
    decreases s.len(),
{
    if s.len() > 0 {
        lemma_pieces_nonempty(s.drop_last(), sep);
    }
}

/// The pieces of `chars` between the characters `sep`.
pub fn split_on(chars: &Vec<char>, sep: char) -> (r: Vec<Vec<char>>)
    ensures
        view_lines(r@) == pieces(chars@, sep),
{
    let mut done: Vec<Vec<char>> = Vec::new();
    let mut cur: Vec<char> = Vec::new();
    let mut i: usize = 0;
    while i < chars.len()
        invariant
            i <= chars@.len(),
            view_lines(done@).push(cur@) == pieces(chars@.subrange(0, i as int), sep),
        decreases chars@.len() - i,
    {
        let ghost pre = chars@.subrange(0, i as int);
        assert(chars@.subrange(0, i + 1).drop_last() == pre);
        let c = chars[i];
        if c == sep {
            let mut full: Vec<char> = Vec::new();
            std::mem::swap(&mut full, &mut cur);
            done.push(full);
        } else {
            cur.push(c);
        }
        i = i + 1;
        assert(view_lines(done@).push(cur@) =~= pieces(chars@.subrange(0, i as int), sep));
    }
    assert(chars@.subrange(0, chars@.len() as int) =~= chars@);
    done.push(cur);
    assert(view_lines(done@) =~= pieces(chars@, sep));
    done
}

/// The lines of `text`, as `text_lines` cuts them.
pub fn split_lines(text: &str) -> (r: Vec<Vec<char>>)
    ensures
        view_lines(r@) == text_lines(text@),
        r@.len() >= 1,
{
    let chars = chars_of(text);
    let mut done = split_on(&chars, '\n');
    proof {
        lemma_pieces_nonempty(text@, '\n');
    }
    let cur = done.pop().unwrap();
    let ghost p = pieces(text@, '\n');
    let mut lines: Vec<Vec<char>> = Vec::new();
    let count = done.len();
    let last_empty = cur.len() == 0;
    let mut k: usize = 0;
    while k < count
        invariant
            k <= count,
            count == done@.len(),
            p == view_lines(done@).push(cur@),
            view_lines(lines@) == Seq::new(k as nat, |j: int| strip_cr(p[j])),
        decreases count - k,
    {
        let mut l = crate::text::copy_chars(&done[k]);
        assert(p[k as int] == done@[k as int]@);
        let n = l.len();
        if n > 0 && l[n - 1] == '\r' {
            l.pop();
            assert(l@ =~= strip_cr(p[k as int]));
        }
        assert(l@ == strip_cr(p[k as int]));
        let ghost prev = view_lines(lines@);
        lines.push(l);
        assert(view_lines(lines@) =~= prev.push(strip_cr(p[k as int])));
        k = k + 1;
        assert(view_lines(lines@) =~= Seq::new(k as nat, |j: int| strip_cr(p[j])));
    }
    proof {
        assert(p.last() == cur@);
    }
    if !(count > 0 && last_empty) {
        let ghost prev = view_lines(lines@);
        lines.push(cur);
        assert(view_lines(lines@) =~= prev.push(p.last()));
        assert(text_lines(text@) =~= Seq::new(p.len(), |i: int| if i < p.len() - 1 { strip_cr(p[i]) } else { p[i] }));
        assert(view_lines(lines@) =~= text_lines(text@));
    } else {
        let ghost q = p.drop_last();
        assert(text_lines(text@) =~= Seq::new(q.len(), |i: int| strip_cr(q[i])));
        assert forall|i: int| 0 <= i < q.len() implies q[i] == p[i] by {}
        assert(view_lines(lines@) =~= text_lines(text@));
    }
    lines
}

impl Editor {
    /// The line that `cursor` stands on, to be changed in place.
    pub fn get_line(&mut self, cursor: &mut Cursor) -> (r: &mut Vec<char>)
        requires
            old(cursor).line < old(self).lines@.len(),
        ensures
            *final(cursor) == *old(cursor),
            *r == old(self).lines@[old(cursor).line as int],
            final(self).lines@ == old(self).lines@.update(old(cursor).line as int, *final(r)),
            final(self).cursors == old(self).cursors,
            final(self).history == old(self).history,
            final(self).same_status(old(self)),
    {
        &mut self.lines[cursor.line]
    }

    /// Puts `line` before the first line, for messages shown in the buffer,
    /// and brings the cursors back inside the document.
    pub fn dbg(&mut self, line: String)
        requires
            old(self).wf(),
        ensures
            final(self).wf(),
            final(self).text() == seq![line@] + old(self).text(),
            final(self).cursors@ == clamp_all(final(self).text(), old(self).cursors@),
            final(self).history == old(self).history,
            final(self).same_status(old(self)),
    {
        let chars = chars_of(line.as_str());
        self.lines.insert(0, chars);
        assert(self.text() =~= seq![line@] + old(self).text());
        self.adjust_cursors();
    }

    /// Keeps the first cursor only.
    pub fn collapse_cursors(&mut self)
        requires
            old(self).wf(),
        ensures
            final(self).wf(),
            final(self).cursors@ == seq![old(self).cursors@[0]],
            final(self).lines == old(self).lines,
            final(self).history == old(self).history,
            final(self).same_status(old(self)),
    {
        self.cursors.truncate(1);
        assert(self.cursors@ =~= seq![old(self).cursors@[0]]);
    }

    /// Replaces the document with the lines of `text`, as `text_lines` cuts
    /// them: one cursor at the start, the first one kept but moved there, an
    /// empty history, an empty search, and the status of editing.
    pub fn load_text(&mut self, text: &str)
        requires
            old(self).wf(),
        ensures
            final(self).wf(),
            final(self).text() == text_lines(text@),
            final(self).text@ == text@,
            final(self).cursors@ == seq![moved(old(self).cursors@[0], 0, 0)],
            final(self).history.undos().len() == 0,
            final(self).history.redos().len() == 0,
            final(self).finder.query@ == Seq::<char>::empty(),
            final(self).finder.search_results@.len() == 0,
            final(self).finder.search_index == 0,
            final(self).notif_text@ == "Edit mode"@,
            !final(self).command_mode,
            final(self).command == old(self).command,
            final(self).filename == old(self).filename,
            final(self).file_to_open == old(self).file_to_open,
            final(self).changes_saved == old(self).changes_saved,
    {
        self.text = String::from_str(text);
        self.lines = split_lines(text);
        self.history.clear();
        self.finder = crate::finder::Finder::new();
        self.cursors.truncate(1);
        self.cursors[0].line = 0;
        self.cursors[0].col = 0;
        self.notif_text = String::from_str("Edit mode");
        self.command_mode = false;
        assert(self.cursors@ =~= seq![moved(old(self).cursors@[0], 0, 0)]);
    }

    /// The document as one string: the lines joined with a line feed between
    /// each two and none at the end.
    pub fn contents(&self) -> (r: String)
        ensures
            r@ == joined(self.text()),
    {
        let mut r = String::new();
        let mut i: usize = 0;
        while i < self.lines.len()
            invariant
                i <= self.lines@.len(),
                r@ == joined(self.text().subrange(0, i as int)),
            decreases self.lines@.len() - i,
        {
            let ghost before = r@;
            if i > 0 {
                push_char(&mut r, '\n');
            }
            let line = &self.lines[i];
            let mut k: usize = 0;
            while k < line.len()
                invariant
                    k <= line@.len(),
                    r@ == if i > 0 { before + seq!['\n'] + line@.subrange(0, k as int) } else { line@.subrange(0, k as int) },
                decreases line@.len() - k,
            {
                push_char(&mut r, line[k]);
                k = k + 1;
                assert(line@.subrange(0, k as int) == line@.subrange(0, k - 1).push(line@[k - 1]));
            }
            assert(line@.subrange(0, line@.len() as int) =~= line@);
            let ghost t = self.text().subrange(0, i + 1);
            assert(t.drop_last() =~= self.text().subrange(0, i as int));
            assert(self.text()[i as int] == line@);
            i = i + 1;
        }
        assert(self.text().subrange(0, self.lines@.len() as int) =~= self.text());
        r
    }
}

} // verus!
