use vstd::prelude::*;

use crate::commands::Command;
use crate::cursor::{moved, Cursor};
use crate::document::{pieces, split_on};
use crate::editor::{clamp_pos, doc_wf, in_bounds, Editor};
use crate::finder::{all_hits, start_index};
use crate::history::view_lines;
use crate::text::chars_of;

verus! {

broadcast use vstd::std_specs::vec::group_vec_axioms;

/// A white-space character in the sense of Unicode: the ASCII ones (tab, line
/// feed, vertical tab, form feed, carriage return, space) and the others of
/// the `White_Space` property.
pub open spec fn is_blank(c: char) -> bool {
    ('\t' <= c && c <= '\r') || c == ' ' || c == '\u{85}' || c == '\u{A0}' || c == '\u{1680}'
        || ('\u{2000}' <= c && c <= '\u{200A}') || c == '\u{2028}' || c == '\u{2029}' || c == '\u{202F}'
        || c == '\u{205F}' || c == '\u{3000}'
}

/// `is_blank`, computed.
pub fn blank(c: char) -> (r: bool)
    ensures
        r == is_blank(c),
{
    ('\t' <= c && c <= '\r') || c == ' ' || c == '\u{85}' || c == '\u{A0}' || c == '\u{1680}'
        || ('\u{2000}' <= c && c <= '\u{200A}') || c == '\u{2028}' || c == '\u{2029}' || c == '\u{202F}'
        || c == '\u{205F}' || c == '\u{3000}'
}

/// `s` without the blanks at its end.
pub open spec fn trim_end(s: Seq<char>) -> Seq<char>
    decreases s.len(),
{
    if s.len() > 0 && is_blank(s.last()) {
        trim_end(s.drop_last())
    } else {
        s
    }
}

/// `s` without the blanks at its start.
pub open spec fn trim_start(s: Seq<char>) -> Seq<char>
    decreases s.len(),
{
    if s.len() > 0 && is_blank(s[0]) {
        trim_start(s.drop_first())
    } else {
        s
    }
}

/// `s` without the blanks at either end.
pub open spec fn trimmed(s: Seq<char>) -> Seq<char> {
    trim_end(trim_start(s))
}

/// A decimal digit.
pub open spec fn is_digit(c: char) -> bool {
    '0' <= c && c <= '9'
}

/// The number that the digits of `s` write.
pub open spec fn digits_value(s: Seq<char>) -> int
    decreases s.len(),
{
    if s.len() == 0 {
        0
    } else {
        digits_value(s.drop_last()) * 10 + (s.last() as u32 - '0' as u32)
    }
}

/// The number that `s` writes in decimal, when `s` is one or more digits,
/// after an optional `+`, and the number fits in a `usize`.
pub open spec fn decimal(s: Seq<char>) -> Option<usize> {
    if s.len() > 0 && s[0] == '+' {
        digits_number(s.drop_first())
    } else {
        digits_number(s)
    }
}

/// The number that `s` writes, when `s` is one or more digits and the number
/// fits in a `usize`.
pub open spec fn digits_number(s: Seq<char>) -> Option<usize> {
    if s.len() > 0 && (forall|i: int| 0 <= i < s.len() ==> is_digit(#[trigger] s[i])) && digits_value(s) <= usize::MAX {
        Some(digits_value(s) as usize)
    } else {
        None
    }
}

/// What a go-to entry such as `Goto line: 12:5` asks for: cut at the colons,
/// the second piece is the line number and the third, if there is one, the
/// column, each a decimal number between blanks. `None` when a number is
/// missing or malformed.
pub open spec fn goto_target(entry: Seq<char>) -> Option<(usize, Option<usize>)> {
    let parts = pieces(entry, ':');
    if parts.len() < 2 {
        None
    } else {
        match decimal(trimmed(parts[1])) {
            None => None,
            Some(line) => if parts.len() > 2 {
                match decimal(trimmed(parts[2])) {
                    None => None,
                    Some(col) => Some((line, Some(col))),
                }
            } else {
                Some((line, None))
            },
        }
    }
}

/// Where a go-to lands from the cursor `c`: the line numbered from one, cut to
/// the document, and the column given or kept, cut to that line.
pub open spec fn goto_place(lines: Seq<Seq<char>>, c: Cursor, line: int, col: Option<usize>) -> (int, int) {
    let n = if line > lines.len() { lines.len() as int } else { line };
    let l = if n == 0 { 0 } else { n - 1 };
    let want = match col {
        Some(k) => k as int,
        None => c.col as int,
    };
    (l, if want > lines[l].len() { lines[l].len() as int } else { want })
}

/// A direction of the arrow keys.
#[derive(PartialEq, Eq, Structural, Clone, Copy, Debug)]
pub enum Direction {
    Left,
    Right,
    Up,
    Down,
}

/// Where extending the selection of cursor `c` one step towards `d` puts its
/// far edge; `None` where it cannot go (left of the first column, above the
/// first line). Right stops at the end of the line, down at the last line.
pub open spec fn selection_step(lines: Seq<Seq<char>>, c: Cursor, d: Direction) -> Option<(usize, usize)> {
    match d {
        Direction::Right => Some((c.line, if c.col + 1 > lines[c.line as int].len() { lines[c.line as int].len() as usize } else { (c.col + 1) as usize })),
        Direction::Left => if c.col == 0 { None } else { Some((c.line, (c.col - 1) as usize)) },
        Direction::Up => if c.line == 0 { None } else { Some(((c.line - 1) as usize, c.col)) },
        Direction::Down => Some((if c.line + 1 >= lines.len() { (lines.len() - 1) as usize } else { (c.line + 1) as usize }, c.col)),
    }
}

/// `c` with its selection extended to `to`, as `Cursor::expand_selection` does it.
pub open spec fn extended(c: Cursor, to: (usize, usize)) -> Cursor {
    Cursor {
        selection_anchor: match c.selection_anchor {
            Some(a) => Some(a),
            None => Some((c.line, c.col)),
        },
        selection_end: to,
        ..c
    }
}

/// The cursor `c` after a selection step towards `d`.
pub open spec fn select_towards(lines: Seq<Seq<char>>, c: Cursor, d: Direction) -> Cursor {
    match selection_step(lines, c, d) {
        None => c,
        Some(to) => extended(c, to),
    }
}

/// What ending go-to mode on `entry` does: the mode ends and one cursor is
/// kept, which lands where `goto_place` says; a malformed entry moves nothing
/// and sets the status to say so.
pub open spec fn went_to(before: Editor, after: Editor, entry: Seq<char>) -> bool {
    &&& !after.command_mode
    &&& after.lines == before.lines
    &&& after.history == before.history
    &&& after.finder == before.finder
    &&& after.command == before.command
    &&& after.filename == before.filename
    &&& after.file_to_open == before.file_to_open
    &&& after.text == before.text
    &&& after.changes_saved == before.changes_saved
    &&& after.cursors@.len() == 1
    &&& match goto_target(entry) {
        None => after.cursors@[0] == before.cursors@[0] && after.notif_text@ == "Invalid line number!"@,
        Some((line, col)) => after.cursors@[0] == moved(before.cursors@[0],
            goto_place(before.text(), before.cursors@[0], line as int, col).0,
            goto_place(before.text(), before.cursors@[0], line as int, col).1)
            && after.notif_text == before.notif_text,
    }
}

/// What ending search mode on `query` does: one cursor is kept; an empty query
/// only sets the status to say so; else every place of the query is found from
/// the first cursor's line on, and with none found the status says so and the
/// mode ends, while with some the mode turns to stepping through them, the
/// first cursor goes to the first one at or after its line and the status
/// says which of how many it is.
pub open spec fn searched(before: Editor, after: Editor, query: Seq<char>) -> bool {
    &&& after.lines == before.lines
    &&& after.history == before.history
    &&& after.cursors@.len() == 1
    &&& after.filename == before.filename
    &&& after.file_to_open == before.file_to_open
    &&& after.text == before.text
    &&& after.changes_saved == before.changes_saved
    &&& query.len() == 0 ==> after.notif_text@ == "Invalid substring!"@
        && after.cursors@[0] == before.cursors@[0]
        && after.finder == before.finder
        && after.command_mode == before.command_mode
        && after.command == before.command
    &&& query.len() > 0 ==> ({
        let hits = all_hits(before.text(), query, before.text().len() as int);
        let start = start_index(before.text(), query, before.cursors@[0].line as int);
        &&& after.finder.query@ == query
        &&& after.finder.search_results@ == hits
        &&& after.finder.search_index == start
        &&& hits.len() == 0 ==> after.notif_text@ == "No results found"@
            && !after.command_mode
            && after.command == before.command
            && after.cursors@[0] == before.cursors@[0]
        &&& hits.len() > 0 ==> after.command == Command::FindSelection
            && after.command_mode == before.command_mode
            && after.notif_text@ == crate::input::count_text((start + 1) as nat, hits.len())
            && after.cursors@[0] == moved(before.cursors@[0],
                clamp_pos(before.text(), hits[start].0 as int, hits[start].1 as int).0,
                clamp_pos(before.text(), hits[start].0 as int, hits[start].1 as int).1)
    })
}

proof fn lemma_digits_value_grows(s: Seq<char>)
    requires
        s.len() > 0,
        forall|i: int| 0 <= i < s.len() ==> is_digit(#[trigger] s[i]),
    ensures
        digits_value(s) >= digits_value(s.drop_last()),
        digits_value(s.drop_last()) >= 0,
    decreases s.len(),
{
    if s.len() > 1 {
        let t = s.drop_last();
        assert forall|i: int| 0 <= i < t.len() implies is_digit(#[trigger] t[i]) by {
            assert(t[i] == s[i]);
        }
        lemma_digits_value_grows(t);
    }
}

proof fn lemma_digits_value_prefix(s: Seq<char>, k: int)
    requires
        0 <= k <= s.len(),
        forall|i: int| 0 <= i < s.len() ==> is_digit(#[trigger] s[i]),
    ensures
        digits_value(s) >= digits_value(s.subrange(0, k)),
    decreases s.len() - k,
{
    if k < s.len() {
        let t = s.drop_last();
        assert forall|i: int| 0 <= i < t.len() implies is_digit(#[trigger] t[i]) by {
            assert(t[i] == s[i]);
        }
        lemma_digits_value_prefix(t, k);
        assert(t.subrange(0, k) =~= s.subrange(0, k));
        lemma_digits_value_grows(s);
    } else {
        assert(s.subrange(0, k) =~= s);
    }
}

/// `trimmed`, computed.
pub fn trim_blanks(s: &Vec<char>) -> (r: Vec<char>)
    ensures
        r@ == trimmed(s@),
{
    let n = s.len();
    let mut a: usize = 0;
    assert(s@.subrange(0, n as int) =~= s@);
    while a < n && blank(s[a])
        invariant
            n == s@.len(),
            a <= n,
            trim_start(s@.subrange(a as int, n as int)) == trim_start(s@),
        decreases n - a,
    {
        assert(s@.subrange(a as int, n as int).drop_first() =~= s@.subrange(a + 1, n as int));
        a = a + 1;
    }
    assert(trim_start(s@) == s@.subrange(a as int, n as int)) by {
        assert(s@.subrange(0, n as int) =~= s@);
    }
    let mut b: usize = n;
    while b > a && blank(s[b - 1])
        invariant
            n == s@.len(),
            a <= b <= n,
            trim_end(s@.subrange(a as int, b as int)) == trimmed(s@),
        decreases b - a,
    {
        assert(s@.subrange(a as int, b as int).drop_last() =~= s@.subrange(a as int, b - 1));
        b = b - 1;
    }
    let mut r: Vec<char> = Vec::new();
    let mut k: usize = a;
    while k < b
        invariant
            a <= k <= b <= n,
            n == s@.len(),
            r@ == s@.subrange(a as int, k as int),
        decreases b - k,
    {
        r.push(s[k]);
        k = k + 1;
        assert(r@ =~= s@.subrange(a as int, k as int));
    }
    r
}

/// `decimal`, computed.
pub fn parse_decimal(s: &Vec<char>) -> (r: Option<usize>)
    ensures
        r == decimal(s@),
{
    let n = s.len();
    if n > 0 && s[0] == '+' {
        let mut rest: Vec<char> = Vec::new();
        let mut k: usize = 1;
        while k < n
            invariant
                n == s@.len(),
                1 <= k <= n,
                rest@ == s@.subrange(1, k as int),
            decreases n - k,
        {
            rest.push(s[k]);
            k = k + 1;
            assert(rest@ =~= s@.subrange(1, k as int));
        }
        assert(rest@ =~= s@.drop_first());
        parse_digits(&rest)
    } else {
        parse_digits(s)
    }
}

/// `digits_number`, computed.
fn parse_digits(s: &Vec<char>) -> (r: Option<usize>)
    ensures
        r == digits_number(s@),
{
    let n = s.len();
    if n == 0 {
        return None;
    }
    let mut v: usize = 0;
    let mut k: usize = 0;
    while k < n
        invariant
            n == s@.len(),
            k <= n,
            forall|i: int| 0 <= i < k ==> is_digit(#[trigger] s@[i]),
            v == digits_value(s@.subrange(0, k as int)),
        decreases n - k,
    {
        let c = s[k];
        if !('0' <= c && c <= '9') {
            assert(!is_digit(s@[k as int]));
            return None;
        }
        let d = (c as u32 - '0' as u32) as usize;
        assert(s@.subrange(0, k + 1).drop_last() =~= s@.subrange(0, k as int));
        match v.checked_mul(10) {
            None => {
                proof {
                    lemma_prefix_overflow(s@, k + 1);
                }
                return None;
            },
            Some(t) => match t.checked_add(d) {
                None => {
                    proof {
                        lemma_prefix_overflow(s@, k + 1);
                    }
                    return None;
                },
                Some(u) => {
                    v = u;
                },
            },
        }
        k = k + 1;
    }
    assert(s@.subrange(0, n as int) =~= s@);
    Some(v)
}

proof fn lemma_prefix_overflow(s: Seq<char>, k: int)
    requires
        0 < k <= s.len(),
        forall|i: int| 0 <= i < k ==> is_digit(#[trigger] s[i]),
        digits_value(s.subrange(0, k)) > usize::MAX,
    ensures
        digits_number(s) is None,
{
    if forall|i: int| 0 <= i < s.len() ==> is_digit(#[trigger] s[i]) {
        lemma_digits_value_prefix(s, k);
    }
}

/// `goto_target`, computed.
pub fn parse_goto(entry: &str) -> (r: Option<(usize, Option<usize>)>)
    ensures
        r == goto_target(entry@),
{
    let chars = chars_of(entry);
    let parts = split_on(&chars, ':');
    proof {
        assert(view_lines(parts@).len() == parts@.len());
    }
    if parts.len() < 2 {
        return None;
    }
    assert(view_lines(parts@)[1] == parts@[1]@);
    let line = parse_decimal(&trim_blanks(&parts[1]));
    match line {
        None => None,
        Some(line) => {
            if parts.len() > 2 {
                assert(view_lines(parts@)[2] == parts@[2]@);
                match parse_decimal(&trim_blanks(&parts[2])) {
                    None => None,
                    Some(col) => Some((line, Some(col))),
                }
            } else {
                Some((line, None))
            }
        },
    }
}

impl Editor {
    /// Ends go-to mode on `entry`: one cursor is kept, and it lands where
    /// `goto_place` says; a malformed entry moves nothing and sets the status
    /// to say so.
    pub fn goto_line(&mut self, entry: &str)
        requires
            old(self).wf(),
        ensures
            final(self).wf(),
            went_to(*old(self), *final(self), entry@),
    {
        self.command_mode = false;
        self.collapse_cursors();
        match parse_goto(entry) {
            None => {
                self.notif_text = String::from_str("Invalid line number!");
            },
            Some((line, col)) => {
                let n = self.lines.len();
                let capped = if line > n { n } else { line };
                let l = if capped == 0 { 0 } else { capped - 1 };
                let want = match col {
                    Some(k) => k,
                    None => self.cursors[0].col,
                };
                let len = self.lines[l].len();
                self.cursors[0].line = l;
                self.cursors[0].col = if want > len { len } else { want };
            },
        }
    }

    /// Puts the first cursor on the current search result, brought inside the
    /// document; with no current result it stays.
    pub fn show_result(&mut self)
        requires
            old(self).wf(),
        ensures
            final(self).wf(),
            final(self).lines == old(self).lines,
            final(self).history == old(self).history,
            final(self).same_status(old(self)),
            ({
                let f = old(self).finder;
                if f.search_index < f.search_results@.len() {
                    let (l, c) = f.search_results@[f.search_index as int];
                    final(self).cursors@ == old(self).cursors@.update(0, moved(old(self).cursors@[0],
                        clamp_pos(old(self).text(), l as int, c as int).0,
                        clamp_pos(old(self).text(), l as int, c as int).1))
                } else {
                    final(self).cursors == old(self).cursors
                }
            }),
    {
        let i = self.finder.search_index;
        if i < self.finder.search_results.len() {
            let (l, c) = self.finder.search_results[i];
            let n = self.lines.len();
            let line = if l < n { l } else { n - 1 };
            let len = self.lines[line].len();
            self.cursors[0].line = line;
            self.cursors[0].col = if c <= len { c } else { len };
        }
    }

    /// Ends search mode on `query`: one cursor is kept; an empty query only
    /// sets the status to say so; else every place of the query is found from
    /// the first cursor's line on, and with none found the status says so and
    /// the mode ends, while with some the mode turns to stepping through them
    /// and the first cursor goes to the first one at or after its line.
    pub fn search(&mut self, query: String)
        requires
            old(self).wf(),
        ensures
            final(self).wf(),
            searched(*old(self), *final(self), query@),
            final(self).finder.query == query || query@.len() == 0,
    {
        self.collapse_cursors();
        if query.as_str().unicode_len() == 0 {
            self.notif_text = String::from_str("Invalid substring!");
            return;
        }
        self.finder.query = query;
        let line = self.cursors[0].line;
        self.finder.find(&self.lines, line);
        if self.finder.search_results.len() == 0 {
            self.notif_text = String::from_str("No results found");
            self.command_mode = false;
            return;
        }
        self.command = Command::FindSelection;
        self.show_result();
        let i = self.finder.search_index;
        let n = self.finder.search_results.len();
        if i < n {
            self.notif_text = crate::input::count_status(i + 1, n);
        }
    }

    /// Steps to the next search result, round to the first, and shows it.
    pub fn next_result(&mut self)
        requires
            old(self).wf(),
        ensures
            final(self).wf(),
            final(self).lines == old(self).lines,
            final(self).history == old(self).history,
            final(self).finder.search_results == old(self).finder.search_results,
            old(self).finder.search_results@.len() > 0 ==> final(self).finder.search_index
                == crate::finder::next_index(old(self).finder.search_index as int, old(self).finder.search_results@.len() as int),
            ({
                let f = final(self).finder;
                f.search_index < f.search_results@.len() ==> final(self).cursors@[0] == moved(old(self).cursors@[0],
                    clamp_pos(old(self).text(), f.search_results@[f.search_index as int].0 as int, f.search_results@[f.search_index as int].1 as int).0,
                    clamp_pos(old(self).text(), f.search_results@[f.search_index as int].0 as int, f.search_results@[f.search_index as int].1 as int).1)
            }),
            final(self).cursors@.len() == old(self).cursors@.len(),
            final(self).finder.query == old(self).finder.query,
            old(self).finder.search_results@.len() == 0 ==> final(self).finder.search_index == old(self).finder.search_index,
            final(self).filename == old(self).filename,
            final(self).file_to_open == old(self).file_to_open,
            final(self).text == old(self).text,
            final(self).notif_text == old(self).notif_text,
            final(self).command_mode == old(self).command_mode,
            final(self).command == old(self).command,
            final(self).changes_saved == old(self).changes_saved,
    {
        self.finder.next();
        self.show_result();
    }

    /// Steps to the previous search result, round to the last, and shows it.
    pub fn prev_result(&mut self)
        requires
            old(self).wf(),
        ensures
            final(self).wf(),
            final(self).lines == old(self).lines,
            final(self).history == old(self).history,
            final(self).finder.search_results == old(self).finder.search_results,
            old(self).finder.search_results@.len() > 0 ==> final(self).finder.search_index
                == crate::finder::prev_index(old(self).finder.search_index as int, old(self).finder.search_results@.len() as int),
            ({
                let f = final(self).finder;
                f.search_index < f.search_results@.len() ==> final(self).cursors@[0] == moved(old(self).cursors@[0],
                    clamp_pos(old(self).text(), f.search_results@[f.search_index as int].0 as int, f.search_results@[f.search_index as int].1 as int).0,
                    clamp_pos(old(self).text(), f.search_results@[f.search_index as int].0 as int, f.search_results@[f.search_index as int].1 as int).1)
            }),
            final(self).cursors@.len() == old(self).cursors@.len(),
            final(self).finder.query == old(self).finder.query,
            old(self).finder.search_results@.len() == 0 ==> final(self).finder.search_index == old(self).finder.search_index,
            final(self).filename == old(self).filename,
            final(self).file_to_open == old(self).file_to_open,
            final(self).text == old(self).text,
            final(self).notif_text == old(self).notif_text,
            final(self).command_mode == old(self).command_mode,
            final(self).command == old(self).command,
            final(self).changes_saved == old(self).changes_saved,
    {
        self.finder.prev();
        self.show_result();
    }

    /// Extends the selection of every cursor one step towards `d`, as
    /// `select_towards` says; the cursors themselves stay.
    pub fn extend_selections(&mut self, d: Direction)
        requires
            old(self).wf(),
        ensures
            final(self).wf(),
            final(self).cursors@ == Seq::new(old(self).cursors@.len(), |i: int| select_towards(old(self).text(), old(self).cursors@[i], d)),
            final(self).lines == old(self).lines,
            final(self).history == old(self).history,
            final(self).same_status(old(self)),
    {
        let ghost c0 = self.cursors@;
        let ghost t = self.text();
        let mut i: usize = 0;
        while i < self.cursors.len()
            invariant
                i <= c0.len(),
                self.cursors@.len() == c0.len(),
                t == self.text(),
                doc_wf(t, c0),
                self.lines == old(self).lines,
                self.history == old(self).history,
                self.same_status(old(self)),
                forall|j: int| 0 <= j < i ==> self.cursors@[j] == select_towards(t, #[trigger] c0[j], d),
                forall|j: int| i <= j < c0.len() ==> self.cursors@[j] == #[trigger] c0[j],
            decreases c0.len() - i,
        {
            let l = self.cursors[i].line;
            let c = self.cursors[i].col;
            assert(in_bounds(t, c0[i as int]));
            match d {
                Direction::Right => {
                    let len = self.lines[l].len();
                    let to = if c >= len { len } else { c + 1 };
                    self.cursors[i].expand_selection(l, to);
                },
                Direction::Left => {
                    if c > 0 {
                        self.cursors[i].expand_selection(l, c - 1);
                    }
                },
                Direction::Up => {
                    if l > 0 {
                        self.cursors[i].expand_selection(l - 1, c);
                    }
                },
                Direction::Down => {
                    let n = self.lines.len();
                    let to = if l + 1 >= n { n - 1 } else { l + 1 };
                    self.cursors[i].expand_selection(to, c);
                },
            }
            i = i + 1;
        }
        assert(self.cursors@ =~= Seq::new(c0.len(), |i: int| select_towards(t, c0[i], d)));
    }
}

} // verus!
