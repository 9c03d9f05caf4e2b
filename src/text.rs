use vstd::prelude::*;

verus! {

broadcast use vstd::string::group_string_axioms;

/// Relies on `String::push`: the character is appended at the end.
#[verifier::external_body]
pub(crate) fn push_char(s: &mut String, c: char)
    ensures
        final(s)@ == old(s)@.push(c),
{
    s.push(c)
}

/// Relies on `String::pop`: the last character is removed and returned, and
/// an empty string gives `None`.
#[verifier::external_body]
pub(crate) fn pop_char(s: &mut String) -> (r: Option<char>)
    ensures
        old(s)@.len() == 0 ==> r is None && final(s)@ == old(s)@,
        old(s)@.len() > 0 ==> r == Some(old(s)@.last()) && final(s)@ == old(s)@.drop_last(),
{
    s.pop()
}

/// The characters of `s`, in order.
pub fn chars_of(s: &str) -> (r: Vec<char>)
    ensures
        r@ == s@,
{
    let mut r: Vec<char> = Vec::new();
    for c in it: s.chars()
        invariant
            r@ == it.seq().subrange(0, it.index() as int),
    {
        r.push(c);
    }
    r
}

/// A character with ASCII capitals folded to small letters, as a code point.
pub open spec fn fold_case(c: char) -> u32 {
    if 'A' <= c && c <= 'Z' {
        (c as u32 + 32) as u32
    } else {
        c as u32
    }
}

/// `fold_case`, computed.
pub fn folded(c: char) -> (r: u32)
    ensures
        r == fold_case(c),
{
    if 'A' <= c && c <= 'Z' {
        c as u32 + 32
    } else {
        c as u32
    }
}

/// `n` spaces.
pub open spec fn spaces(n: int) -> Seq<char> {
    Seq::new(n as nat, |i: int| ' ')
}

/// The end of the run of spaces that starts at column `i` of `s`.
pub open spec fn spaces_from(s: Seq<char>, i: int) -> int
    decreases s.len() - i,
{
    if 0 <= i < s.len() && s[i] == ' ' {
        spaces_from(s, i + 1)
    } else {
        i
    }
}

/// How many spaces open the line.
pub open spec fn leading_spaces(s: Seq<char>) -> int {
    spaces_from(s, 0)
}

/// The last character of the line is an opening brace.
pub open spec fn ends_with_brace(s: Seq<char>) -> bool {
    s.len() > 0 && s.last() == '{'
}

/// Where the word that ends at column `i` starts: the column after the nearest
/// space on its left, or 0.
pub open spec fn word_start(s: Seq<char>, i: int) -> int
    decreases i,
{
    if i <= 0 || i > s.len() || s[i - 1] == ' ' {
        i
    } else {
        word_start(s, i - 1)
    }
}

/// Where the word that goes on at column `i` ends: the nearest space at or
/// after `i`, or the end of the line.
pub open spec fn word_end(s: Seq<char>, i: int) -> int
    decreases s.len() - i,
{
    if i < 0 || i >= s.len() || s[i] == ' ' {
        i
    } else {
        word_end(s, i + 1)
    }
}

/// `spaces_from`, computed.
pub fn skip_spaces(s: &Vec<char>, i: usize) -> (r: usize)
    requires
        i <= s@.len(),
    ensures
        r == spaces_from(s@, i as int),
        i <= r <= s@.len(),
{
    let n = s.len();
    let mut j = i;
    while j < n && s[j] == ' '
        invariant
            n == s@.len(),
            i <= j <= n,
            spaces_from(s@, j as int) == spaces_from(s@, i as int),
        decreases n - j,
    {
        j = j + 1;
    }
    j
}

/// `word_start`, computed.
pub fn find_word_start(s: &Vec<char>, i: usize) -> (r: usize)
    requires
        i <= s@.len(),
    ensures
        r == word_start(s@, i as int),
        r <= i,
{
    let mut j = i;
    while j > 0 && s[j - 1] != ' '
        invariant
            j <= i <= s@.len(),
            word_start(s@, j as int) == word_start(s@, i as int),
        decreases j,
    {
        j = j - 1;
    }
    j
}

/// `word_end`, computed.
pub fn find_word_end(s: &Vec<char>, i: usize) -> (r: usize)
    requires
        i <= s@.len(),
    ensures
        r == word_end(s@, i as int),
        i <= r <= s@.len(),
{
    let n = s.len();
    let mut j = i;
    while j < n && s[j] != ' '
        invariant
            n == s@.len(),
            i <= j <= n,
            word_end(s@, j as int) == word_end(s@, i as int),
        decreases n - j,
    {
        j = j + 1;
    }
    j
}

/// A copy of the characters.
pub fn copy_chars(v: &Vec<char>) -> (r: Vec<char>)
    ensures
        r@ == v@,
{
    let mut r: Vec<char> = Vec::new();
    let mut k: usize = 0;
    while k < v.len()
        invariant
            k <= v@.len(),
            r@ == v@.subrange(0, k as int),
        decreases v@.len() - k,
    {
        r.push(v[k]);
        k = k + 1;
        assert(r@ =~= v@.subrange(0, k as int));
    }
    assert(r@ =~= v@);
    r
}

/// The indent, in levels of four spaces, of a line that a line break opens
/// after line `s`: the levels of `s`, one more when `s` ends with a brace.
pub open spec fn new_line_tabs(s: Seq<char>) -> int {
    leading_spaces(s) / 4 + if ends_with_brace(s) { 1int } else { 0int }
}

/// The levels of four spaces that a tab inserts on line `l`: one, or from the
/// third line on the levels of the line above, with one more when that line
/// is empty or ends with a brace, and never less than one.
pub open spec fn tab_count(lines: Seq<Seq<char>>, l: int) -> int {
    if l > 1 {
        let p = lines[l - 1];
        let t = leading_spaces(p) / 4 + if p.len() == 0 || p.last() == '{' { 1int } else { 0int };
        if t >= 1 {
            t
        } else {
            1
        }
    } else {
        1
    }
}

/// `t` levels of indent: four spaces each.
pub fn indent(t: usize) -> (r: Vec<char>)
    ensures
        r@ == spaces(4 * t),
{
    let mut r: Vec<char> = Vec::new();
    let mut j: usize = 0;
    while j < t
        invariant
            j <= t,
            r@ == spaces(4 * j),
        decreases t - j,
    {
        r.push(' ');
        r.push(' ');
        r.push(' ');
        r.push(' ');
        j = j + 1;
        assert(r@ =~= spaces(4 * j));
    }
    r
}

/// `new_line_tabs`, computed.
pub fn line_break_tabs(s: &Vec<char>) -> (r: usize)
    ensures
        r == new_line_tabs(s@),
{
    let lead = skip_spaces(s, 0);
    let n = s.len();
    if n > 0 && s[n - 1] == '{' {
        lead / 4 + 1
    } else {
        lead / 4
    }
}

/// `tab_count`, computed.
pub fn tab_levels(lines: &Vec<Vec<char>>, l: usize) -> (r: usize)
    requires
        l < lines@.len(),
    ensures
        r == tab_count(lines@.map_values(|v: Vec<char>| v@), l as int),
        r >= 1,
{
    if l > 1 {
        let p = &lines[l - 1];
        assert(lines@.map_values(|v: Vec<char>| v@)[l - 1] == p@);
        let lead = skip_spaces(p, 0);
        let n = p.len();
        let t = if n == 0 || p[n - 1] == '{' { lead / 4 + 1 } else { lead / 4 };
        if t >= 1 {
            t
        } else {
            1
        }
    } else {
        1
    }
}

} // verus!
