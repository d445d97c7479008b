//! The markup minifier: six rewriting steps, applied in a fixed order.
//!
//! Every step is specified as a function on character sequences and
//! implemented on `Vec<char>`; [`minify_svg`] composes them on strings.

use crate::text::{
    append_range, is_space, is_whitespace, lemma_push_then_append, to_chars, to_string, trim,
    trim_bounds, trim_chars,
};
use vstd::prelude::*;

verus! {

/// The first index at or after `i` that holds no white space; the length of
/// `s` if only white space follows.
pub open spec fn run_end(s: Seq<char>, i: int) -> int
    decreases s.len() - i,
{
    if 0 <= i < s.len() && is_space(s[i]) {
        run_end(s, i + 1)
    } else {
        i
    }
}

/// The index of the first line feed at or after `i`; the length of `s` if
/// none follows.
pub open spec fn line_end(s: Seq<char>, i: int) -> int
    decreases s.len() - i,
{
    if 0 <= i < s.len() && s[i] != '\n' {
        line_end(s, i + 1)
    } else {
        i
    }
}

/// What [`run_end`] returns lies between `i` and the end, everything before
/// it is white space, and the character at it is not.
pub proof fn lemma_run_end(s: Seq<char>, i: int)
    requires
        0 <= i <= s.len(),
    ensures
        i <= run_end(s, i) <= s.len(),
        forall|k: int| i <= k < run_end(s, i) ==> is_space(#[trigger] s[k]),
        run_end(s, i) < s.len() ==> !is_space(s[run_end(s, i)]),
    decreases s.len() - i,
{
    if i < s.len() && is_space(s[i]) {
        lemma_run_end(s, i + 1);
    }
}

/// What [`line_end`] returns lies between `i` and the end, no line feed
/// stands before it, and one stands at it unless it is the end.
pub proof fn lemma_line_end(s: Seq<char>, i: int)
    requires
        0 <= i <= s.len(),
    ensures
        i <= line_end(s, i) <= s.len(),
        forall|k: int| i <= k < line_end(s, i) ==> #[trigger] s[k] != '\n',
        line_end(s, i) < s.len() ==> s[line_end(s, i)] == '\n',
    decreases s.len() - i,
{
    if i < s.len() && s[i] != '\n' {
        lemma_line_end(s, i + 1);
    }
}

/// Finds where the white space that starts at `i` ends.
pub fn scan_run(v: &Vec<char>, i: usize) -> (e: usize)
    requires
        i <= v.len(),
    ensures
        e == run_end(v@, i as int),
        i <= e <= v.len(),
{
    let mut e: usize = i;
    while e < v.len() && is_whitespace(v[e])
        invariant
            i <= e <= v.len(),
            run_end(v@, e as int) == run_end(v@, i as int),
        decreases v.len() - e,
    {
        e += 1;
    }
    e
}

/// Finds where the line that holds index `i` ends.
pub fn scan_line(v: &Vec<char>, i: usize) -> (e: usize)
    requires
        i <= v.len(),
    ensures
        e == line_end(v@, i as int),
        i <= e <= v.len(),
{
    let mut e: usize = i;
    while e < v.len() && v[e] != '\n'
        invariant
            i <= e <= v.len(),
            line_end(v@, e as int) == line_end(v@, i as int),
        decreases v.len() - e,
    {
        e += 1;
    }
    e
}

/// First step, from index `i` on: every line of `s` without the white space
/// at its two ends. Lines are what line feeds separate, and the line feeds
/// stay.
pub open spec fn stripped_lines_from(s: Seq<char>, i: int) -> Seq<char>
    decreases s.len() - i,
{
    if i < 0 || i > s.len() {
        Seq::empty()
    } else {
        let e = line_end(s, i);
        let line = trim(s.subrange(i, e));
        if e < s.len() {
            proof {
                lemma_line_end(s, i);
            }
            line + seq!['\n'] + stripped_lines_from(s, e + 1)
        } else {
            line
        }
    }
}

/// First step: every line of `s` without the white space at its two ends.
pub open spec fn stripped_lines(s: Seq<char>) -> Seq<char> {
    stripped_lines_from(s, 0)
}

/// Second step, from index `i` on: each line break, a line feed with or
/// without a carriage return before it, replaced by one space.
pub open spec fn joined_lines_from(s: Seq<char>, i: int) -> Seq<char>
    decreases s.len() - i,
{
    if i < 0 || i >= s.len() {
        Seq::empty()
    } else if s[i] == '\n' {
        seq![' '] + joined_lines_from(s, i + 1)
    } else if s[i] == '\r' && i + 1 < s.len() && s[i + 1] == '\n' {
        seq![' '] + joined_lines_from(s, i + 2)
    } else {
        seq![s[i]] + joined_lines_from(s, i + 1)
    }
}

/// Second step: each line break of `s` replaced by one space.
pub open spec fn joined_lines(s: Seq<char>) -> Seq<char> {
    joined_lines_from(s, 0)
}

/// Whether the four characters that open a comment start at index `i`.
pub open spec fn opens_comment(s: Seq<char>, i: int) -> bool {
    &&& 0 <= i
    &&& i + 4 <= s.len()
    &&& s[i] == '<'
    &&& s[i + 1] == '!'
    &&& s[i + 2] == '-'
    &&& s[i + 3] == '-'
}

/// Whether the three characters that close a comment start at index `i`.
pub open spec fn ends_comment(s: Seq<char>, i: int) -> bool {
    &&& 0 <= i
    &&& i + 3 <= s.len()
    &&& s[i] == '-'
    &&& s[i + 1] == '-'
    &&& s[i + 2] == '>'
}

/// The first index at or after `i` where a comment's closing characters
/// start; the length of `s` if there is none.
pub open spec fn comment_end(s: Seq<char>, i: int) -> int
    decreases s.len() - i,
{
    if i < 0 || i >= s.len() {
        s.len() as int
    } else if ends_comment(s, i) {
        i
    } else {
        comment_end(s, i + 1)
    }
}

/// Third step, from index `i` on. A comment runs from its four opening
/// characters to the nearest closing characters that begin after them; the
/// search for the next comment starts behind the last one. An opening that
/// is never closed stays as it is.
pub open spec fn without_comments_from(s: Seq<char>, i: int) -> Seq<char>
    decreases s.len() - i,
{
    if i < 0 || i >= s.len() {
        Seq::empty()
    } else if opens_comment(s, i) {
        let e = comment_end(s, i + 4);
        if e < s.len() {
            proof {
                lemma_comment_end(s, i + 4);
            }
            without_comments_from(s, e + 3)
        } else {
            s.skip(i)
        }
    } else {
        seq![s[i]] + without_comments_from(s, i + 1)
    }
}

/// Third step: `s` without its comments.
pub open spec fn without_comments(s: Seq<char>) -> Seq<char> {
    without_comments_from(s, 0)
}

/// What [`comment_end`] returns is the end of `s` or the first place at or
/// after `i` where a comment's closing characters start.
pub proof fn lemma_comment_end(s: Seq<char>, i: int)
    requires
        0 <= i,
    ensures
        i <= comment_end(s, i) || comment_end(s, i) == s.len(),
        comment_end(s, i) <= s.len(),
        comment_end(s, i) < s.len() ==> ends_comment(s, comment_end(s, i)),
        forall|k: int| i <= k < comment_end(s, i) ==> !ends_comment(s, k),
    decreases s.len() - i,
{
    if i < s.len() && !ends_comment(s, i) {
        lemma_comment_end(s, i + 1);
    }
}

/// Whether a gap between two tags starts behind index `i`: a `>` at `i`,
/// then white space, then a `<`.
pub open spec fn gap_after(s: Seq<char>, i: int) -> bool {
    let e = run_end(s, i + 1);
    &&& 0 <= i < s.len()
    &&& s[i] == '>'
    &&& i + 1 < e < s.len()
    &&& s[e] == '<'
}

/// Fourth step, from index `i` on: the white space of every gap between two
/// tags removed.
pub open spec fn without_gaps_from(s: Seq<char>, i: int) -> Seq<char>
    decreases s.len() - i,
{
    if i < 0 || i >= s.len() {
        Seq::empty()
    } else if gap_after(s, i) {
        seq![s[i]] + without_gaps_from(s, run_end(s, i + 1))
    } else {
        seq![s[i]] + without_gaps_from(s, i + 1)
    }
}

/// Fourth step: `s` without the white space that only separates two tags.
pub open spec fn without_gaps(s: Seq<char>) -> Seq<char> {
    without_gaps_from(s, 0)
}

/// Whether a tag's closing delimiter, `>` or `/>`, starts at index `i`.
pub open spec fn closes_tag(s: Seq<char>, i: int) -> bool {
    &&& 0 <= i < s.len()
    &&& (s[i] == '>' || (s[i] == '/' && i + 1 < s.len() && s[i + 1] == '>'))
}

/// Whether index `i` holds white space that reaches up to a tag's closing
/// delimiter.
pub open spec fn before_closer(s: Seq<char>, i: int) -> bool {
    &&& 0 <= i < s.len()
    &&& is_space(s[i])
    &&& closes_tag(s, run_end(s, i))
}

/// Fifth step, from index `i` on: the white space in front of every closing
/// delimiter removed.
pub open spec fn tightened_from(s: Seq<char>, i: int) -> Seq<char>
    decreases s.len() - i,
{
    if i < 0 || i >= s.len() {
        Seq::empty()
    } else if before_closer(s, i) {
        tightened_from(s, i + 1)
    } else {
        seq![s[i]] + tightened_from(s, i + 1)
    }
}

/// Fifth step: `s` without the white space in front of closing delimiters.
pub open spec fn tightened(s: Seq<char>) -> Seq<char> {
    tightened_from(s, 0)
}

/// The minified form of `s`: the six steps, one after the other.
pub open spec fn minified(s: Seq<char>) -> Seq<char> {
    trim(tightened(without_gaps(without_comments(joined_lines(stripped_lines(s))))))
}

/// Over a run of white space the fifth step either drops the whole run, where
/// a closing delimiter follows it, or keeps the whole run.
pub proof fn lemma_tightened_run(s: Seq<char>, i: int)
    requires
        0 <= i <= s.len(),
    ensures
        tightened_from(s, i) == if closes_tag(s, run_end(s, i)) {
            tightened_from(s, run_end(s, i))
        } else {
            s.subrange(i, run_end(s, i)) + tightened_from(s, run_end(s, i))
        },
    decreases s.len() - i,
{
    let e = run_end(s, i);
    if i < s.len() && is_space(s[i]) {
        lemma_tightened_run(s, i + 1);
        lemma_run_end(s, i + 1);
        if !closes_tag(s, e) {
            assert(seq![s[i]] + (s.subrange(i + 1, e) + tightened_from(s, e)) =~= s.subrange(i, e)
                + tightened_from(s, e));
        }
    } else {
        assert(s.subrange(i, e) + tightened_from(s, e) =~= tightened_from(s, e));
    }
}

/// First step: strips the white space at the two ends of every line.
pub fn strip_lines(v: &Vec<char>) -> (r: Vec<char>)
    ensures
        r@ == stripped_lines(v@),
{
    let mut r: Vec<char> = Vec::new();
    let mut i: usize = 0;
    assert(r@ + stripped_lines_from(v@, 0) =~= stripped_lines(v@));
    loop
        invariant_except_break
            r@ + stripped_lines_from(v@, i as int) == stripped_lines(v@),
        invariant
            i <= v.len(),
        ensures
            r@ == stripped_lines(v@),
        decreases v.len() - i,
    {
        let e = scan_line(v, i);
        let (a, b) = trim_bounds(v, i, e);
        let ghost before = r@;
        let ghost line = v@.subrange(a as int, b as int);
        append_range(&mut r, v, a, b);
        if e < v.len() {
            r.push('\n');
            proof {
                let rest = stripped_lines_from(v@, e + 1);
                assert((before + line).push('\n') + rest =~= before + (line + seq!['\n'] + rest));
            }
            i = e + 1;
        } else {
            break ;
        }
    }
    r
}

/// Second step: replaces every line break by one space.
pub fn join_lines(v: &Vec<char>) -> (r: Vec<char>)
    ensures
        r@ == joined_lines(v@),
{
    let mut r: Vec<char> = Vec::new();
    let mut i: usize = 0;
    assert(r@ + joined_lines_from(v@, 0) =~= joined_lines(v@));
    while i < v.len()
        invariant
            i <= v.len(),
            r@ + joined_lines_from(v@, i as int) == joined_lines(v@),
        decreases v.len() - i,
    {
        let c = v[i];
        if c == '\n' {
            proof {
                lemma_push_then_append(r@, ' ', joined_lines_from(v@, i + 1));
            }
            r.push(' ');
            i += 1;
        } else if c == '\r' && i + 1 < v.len() && v[i + 1] == '\n' {
            proof {
                lemma_push_then_append(r@, ' ', joined_lines_from(v@, i + 2));
            }
            r.push(' ');
            i += 2;
        } else {
            proof {
                lemma_push_then_append(r@, c, joined_lines_from(v@, i + 1));
            }
            r.push(c);
            i += 1;
        }
    }
    assert(r@ + joined_lines_from(v@, i as int) =~= r@);
    r
}

/// Tells whether a comment's opening characters start at index `i`.
pub fn is_comment_start(v: &Vec<char>, i: usize) -> (r: bool)
    requires
        i <= v.len(),
    ensures
        r == opens_comment(v@, i as int),
{
    v.len() - i >= 4 && v[i] == '<' && v[i + 1] == '!' && v[i + 2] == '-' && v[i + 3] == '-'
}

/// Tells whether a comment's closing characters start at index `i`.
pub fn is_comment_end(v: &Vec<char>, i: usize) -> (r: bool)
    requires
        i <= v.len(),
    ensures
        r == ends_comment(v@, i as int),
{
    v.len() - i >= 3 && v[i] == '-' && v[i + 1] == '-' && v[i + 2] == '>'
}

/// Finds the first place at or after `i` where a comment's closing
/// characters start; returns the length of `v` if there is none.
pub fn scan_comment(v: &Vec<char>, i: usize) -> (e: usize)
    requires
        i <= v.len(),
    ensures
        e == comment_end(v@, i as int),
        e <= v.len(),
{
    let mut e: usize = i;
    while e < v.len() && !is_comment_end(v, e)
        invariant
            i <= e <= v.len(),
            comment_end(v@, e as int) == comment_end(v@, i as int),
        decreases v.len() - e,
    {
        e += 1;
    }
    e
}

/// Third step: removes the comments.
pub fn strip_comments(v: &Vec<char>) -> (r: Vec<char>)
    ensures
        r@ == without_comments(v@),
{
    let mut r: Vec<char> = Vec::new();
    let mut i: usize = 0;
    assert(r@ + without_comments_from(v@, 0) =~= without_comments(v@));
    while i < v.len()
        invariant
            i <= v.len(),
            r@ + without_comments_from(v@, i as int) == without_comments(v@),
        decreases v.len() - i,
    {
        if is_comment_start(v, i) {
            let e = scan_comment(v, i + 4);
            proof {
                lemma_comment_end(v@, i + 4);
            }
            if e < v.len() {
                i = e + 3;
            } else {
                assert(v@.skip(i as int) =~= v@.subrange(i as int, v.len() as int));
                append_range(&mut r, v, i, v.len());
                i = v.len();
                assert(r@ + without_comments_from(v@, i as int) =~= r@);
            }
        } else {
            proof {
                lemma_push_then_append(r@, v@[i as int], without_comments_from(v@, i + 1));
            }
            r.push(v[i]);
            i += 1;
        }
    }
    assert(r@ + without_comments_from(v@, i as int) =~= r@);
    r
}

/// Fourth step: removes the white space of every gap between two tags.
pub fn close_gaps(v: &Vec<char>) -> (r: Vec<char>)
    ensures
        r@ == without_gaps(v@),
{
    let mut r: Vec<char> = Vec::new();
    let mut i: usize = 0;
    assert(r@ + without_gaps_from(v@, 0) =~= without_gaps(v@));
    while i < v.len()
        invariant
            i <= v.len(),
            r@ + without_gaps_from(v@, i as int) == without_gaps(v@),
        decreases v.len() - i,
    {
        let c = v[i];
        let mut next: usize = i + 1;
        if c == '>' {
            let e = scan_run(v, i + 1);
            if e > i + 1 && e < v.len() && v[e] == '<' {
                next = e;
            }
        }
        proof {
            lemma_push_then_append(r@, c, without_gaps_from(v@, next as int));
        }
        r.push(c);
        i = next;
    }
    assert(r@ + without_gaps_from(v@, i as int) =~= r@);
    r
}

/// Tells whether a tag's closing delimiter starts at index `i`.
pub fn is_closer(v: &Vec<char>, i: usize) -> (r: bool)
    requires
        i <= v.len(),
    ensures
        r == closes_tag(v@, i as int),
{
    i < v.len() && (v[i] == '>' || (v[i] == '/' && v.len() - i >= 2 && v[i + 1] == '>'))
}

/// Fifth step: removes the white space in front of every closing delimiter.
pub fn tighten_closers(v: &Vec<char>) -> (r: Vec<char>)
    ensures
        r@ == tightened(v@),
{
    let mut r: Vec<char> = Vec::new();
    let mut i: usize = 0;
    assert(r@ + tightened_from(v@, 0) =~= tightened(v@));
    while i < v.len()
        invariant
            i <= v.len(),
            r@ + tightened_from(v@, i as int) == tightened(v@),
        decreases v.len() - i,
    {
        let c = v[i];
        if is_whitespace(c) {
            let e = scan_run(v, i);
            proof {
                lemma_tightened_run(v@, i as int);
                lemma_run_end(v@, i + 1);
            }
            if !is_closer(v, e) {
                let ghost before = r@;
                append_range(&mut r, v, i, e);
                assert(r@ + tightened_from(v@, e as int) =~= before + (v@.subrange(
                    i as int,
                    e as int,
                ) + tightened_from(v@, e as int)));
            }
            i = e;
        } else {
            proof {
                lemma_push_then_append(r@, c, tightened_from(v@, i + 1));
            }
            r.push(c);
            i += 1;
        }
    }
    assert(r@ + tightened_from(v@, i as int) =~= r@);
    r
}

/// Minifies markup held as characters: the six steps, one after the other.
pub fn minify_chars(v: &Vec<char>) -> (r: Vec<char>)
    ensures
        r@ == minified(v@),
{
    let lines = strip_lines(v);
    let joined = join_lines(&lines);
    let bare = strip_comments(&joined);
    let packed = close_gaps(&bare);
    let tight = tighten_closers(&packed);
    trim_chars(&tight)
}

/// Minifies markup: strips every line, joins the lines with single spaces,
/// removes comments, removes the white space between tags and in front of
/// closing delimiters, and trims the result. Every input is accepted; the
/// empty string gives the empty string.
///
/// Each step runs once. Minifying the result again changes it only where
/// the steps themselves put together a comment or a closing delimiter with
/// white space in front of it, as in `a / >`, which becomes `a />`.
pub fn minify_svg(input: &str) -> (r: String)
    ensures
        r@ == minified(input@),
{
    let v = to_chars(input);
    let m = minify_chars(&v);
    to_string(&m)
}

} // verus!
