//! What holds of minified markup: its shape, and when minifying it again
//! changes nothing.

use crate::minify::{
    before_closer, closes_tag, comment_end, ends_comment, gap_after, joined_lines,
    joined_lines_from, lemma_comment_end, lemma_line_end, lemma_run_end, lemma_tightened_run,
    minified, opens_comment, run_end, stripped_lines, tightened, tightened_from,
    without_comments, without_comments_from, without_gaps, without_gaps_from,
};
use crate::text::{is_space, is_trimmed, trim, trim_end, trim_start};
use vstd::prelude::*;

verus! {

/// Whether `s` holds no line feed.
pub open spec fn line_feed_free(s: Seq<char>) -> bool {
    forall|i: int| 0 <= i < s.len() ==> s[i] != '\n'
}

/// Whether a comment runs from index `p` to the closing characters at `q`.
pub open spec fn comment_spans(s: Seq<char>, p: int, q: int) -> bool {
    opens_comment(s, p) && ends_comment(s, q) && p + 4 <= q
}

/// Whether `s` holds a comment: opening characters with closing characters
/// somewhere behind them.
pub open spec fn has_comment(s: Seq<char>) -> bool {
    exists|p: int, q: int| comment_spans(s, p, q)
}

/// Whether `s` holds a gap between two tags: a `>`, white space, a `<`.
pub open spec fn has_gap(s: Seq<char>) -> bool {
    exists|i: int| gap_after(s, i)
}

/// Whether index `i` holds white space and a closing delimiter starts right
/// behind it.
pub open spec fn loose_closer_at(s: Seq<char>, i: int) -> bool {
    0 <= i < s.len() && is_space(s[i]) && closes_tag(s, i + 1)
}

/// Whether `s` holds white space directly in front of a closing delimiter.
pub open spec fn has_loose_closer(s: Seq<char>) -> bool {
    exists|i: int| loose_closer_at(s, i)
}

/// Whether index `i` holds white space and a `>` stands right behind it.
pub open spec fn space_before_bracket_at(s: Seq<char>, i: int) -> bool {
    0 <= i && i + 1 < s.len() && is_space(s[i]) && s[i + 1] == '>'
}

/// Whether `s` holds white space directly in front of a `>`.
pub open spec fn has_space_before_bracket(s: Seq<char>) -> bool {
    exists|i: int| space_before_bracket_at(s, i)
}

/// Whether the third and the fifth step find nothing to remove in `s`. In
/// minified markup the white space that the fifth step could still find
/// stands in front of a `/>`.
pub open spec fn is_settled(s: Seq<char>) -> bool {
    !has_comment(s) && !has_loose_closer(s)
}

/// A run of white space that starts at `i` ends at `e` if white space fills
/// the indices between them and none stands at `e`.
pub proof fn lemma_run_end_is(s: Seq<char>, i: int, e: int)
    requires
        0 <= i <= e <= s.len(),
        forall|k: int| i <= k < e ==> is_space(#[trigger] s[k]),
        e < s.len() ==> !is_space(s[e]),
    ensures
        run_end(s, i) == e,
    decreases e - i,
{
    if i < e {
        lemma_run_end_is(s, i + 1, e);
    }
}

/// Run ends in a part of `s` are the run ends in `s`, as far as the part
/// reaches.
pub proof fn lemma_run_end_in_part(s: Seq<char>, a: int, b: int, k: int)
    requires
        0 <= a <= b <= s.len(),
        0 <= k <= b - a,
    ensures
        run_end(s.subrange(a, b), k) == if run_end(s, a + k) <= b {
            run_end(s, a + k) - a
        } else {
            b - a
        },
    decreases b - a - k,
{
    let t = s.subrange(a, b);
    if k < b - a && is_space(t[k]) {
        lemma_run_end_in_part(s, a, b, k + 1);
    } else if k == b - a {
        lemma_run_end(s, a + k);
    }
}

proof fn lemma_trim_start_shape(s: Seq<char>) -> (a: int)
    ensures
        0 <= a <= s.len(),
        trim_start(s) == s.skip(a),
        a < s.len() ==> !is_space(s[a]),
    decreases s.len(),
{
    if s.len() > 0 && is_space(s[0]) {
        let a1 = lemma_trim_start_shape(s.skip(1));
        assert(s.skip(1).skip(a1) =~= s.skip(a1 + 1));
        a1 + 1
    } else {
        assert(s.skip(0) =~= s);
        0
    }
}

proof fn lemma_trim_end_shape(s: Seq<char>) -> (b: int)
    ensures
        0 <= b <= s.len(),
        trim_end(s) == s.take(b),
        b > 0 ==> !is_space(s[b - 1]),
    decreases s.len(),
{
    if s.len() > 0 && is_space(s.last()) {
        let b1 = lemma_trim_end_shape(s.drop_last());
        assert(s.drop_last().take(b1) =~= s.take(b1));
        b1
    } else {
        assert(s.take(s.len() as int) =~= s);
        s.len() as int
    }
}

/// Trimming keeps one connected part of the text, and that part neither
/// starts nor ends with white space.
pub proof fn lemma_trim_shape(s: Seq<char>) -> (r: (int, int))
    ensures
        0 <= r.0 <= r.1 <= s.len(),
        trim(s) == s.subrange(r.0, r.1),
        is_trimmed(trim(s)),
{
    let a = lemma_trim_start_shape(s);
    let t = s.skip(a);
    let b = lemma_trim_end_shape(t);
    assert(t.take(b) =~= s.subrange(a, a + b));
    (a, a + b)
}

/// Trimming changes nothing in a text that has no white space at its ends.
pub proof fn lemma_trim_of_trimmed(s: Seq<char>)
    requires
        is_trimmed(s),
    ensures
        trim(s) == s,
{
}

/// The first step only trims a text that is a single line.
pub proof fn lemma_stripped_single_line(s: Seq<char>)
    requires
        line_feed_free(s),
    ensures
        stripped_lines(s) == trim(s),
{
    lemma_line_end(s, 0);
    assert(s.subrange(0, s.len() as int) =~= s);
}

proof fn lemma_joined_from_single_line(s: Seq<char>, i: int)
    requires
        line_feed_free(s),
        0 <= i <= s.len(),
    ensures
        joined_lines_from(s, i) == s.skip(i),
    decreases s.len() - i,
{
    if i < s.len() {
        lemma_joined_from_single_line(s, i + 1);
        assert(seq![s[i]] + s.skip(i + 1) =~= s.skip(i));
    } else {
        assert(s.skip(i) =~= Seq::<char>::empty());
    }
}

/// The second step changes nothing in a text that is a single line.
pub proof fn lemma_joined_single_line(s: Seq<char>)
    requires
        line_feed_free(s),
    ensures
        joined_lines(s) == s,
{
    lemma_joined_from_single_line(s, 0);
    assert(s.skip(0) =~= s);
}

proof fn lemma_without_comments_from_none(s: Seq<char>, i: int)
    requires
        !has_comment(s),
        0 <= i <= s.len(),
    ensures
        without_comments_from(s, i) == s.skip(i),
    decreases s.len() - i,
{
    if i >= s.len() {
        assert(s.skip(i) =~= Seq::<char>::empty());
    } else if opens_comment(s, i) {
        let e = comment_end(s, i + 4);
        lemma_comment_end(s, i + 4);
        if e < s.len() {
            assert(comment_spans(s, i, e));
        }
    } else {
        lemma_without_comments_from_none(s, i + 1);
        assert(seq![s[i]] + s.skip(i + 1) =~= s.skip(i));
    }
}

/// The third step changes nothing in a text without comments.
pub proof fn lemma_without_comments_of_none(s: Seq<char>)
    requires
        !has_comment(s),
    ensures
        without_comments(s) == s,
{
    lemma_without_comments_from_none(s, 0);
    assert(s.skip(0) =~= s);
}

proof fn lemma_without_gaps_from_none(s: Seq<char>, i: int)
    requires
        !has_gap(s),
        0 <= i <= s.len(),
    ensures
        without_gaps_from(s, i) == s.skip(i),
    decreases s.len() - i,
{
    if i >= s.len() {
        assert(s.skip(i) =~= Seq::<char>::empty());
    } else {
        assert(!gap_after(s, i));
        lemma_without_gaps_from_none(s, i + 1);
        assert(seq![s[i]] + s.skip(i + 1) =~= s.skip(i));
    }
}

/// The fourth step changes nothing in a text without gaps between tags.
pub proof fn lemma_without_gaps_of_none(s: Seq<char>)
    requires
        !has_gap(s),
    ensures
        without_gaps(s) == s,
{
    lemma_without_gaps_from_none(s, 0);
    assert(s.skip(0) =~= s);
}

proof fn lemma_tightened_from_none(s: Seq<char>, i: int)
    requires
        !has_loose_closer(s),
        0 <= i <= s.len(),
    ensures
        tightened_from(s, i) == s.skip(i),
    decreases s.len() - i,
{
    if i >= s.len() {
        assert(s.skip(i) =~= Seq::<char>::empty());
    } else {
        if before_closer(s, i) {
            let e = run_end(s, i);
            lemma_run_end(s, i);
            assert(is_space(s[e - 1]));
            assert(loose_closer_at(s, e - 1));
        }
        lemma_tightened_from_none(s, i + 1);
        assert(seq![s[i]] + s.skip(i + 1) =~= s.skip(i));
    }
}

/// The fifth step changes nothing in a text without white space in front of
/// a closing delimiter.
pub proof fn lemma_tightened_of_none(s: Seq<char>)
    requires
        !has_loose_closer(s),
    ensures
        tightened(s) == s,
{
    lemma_tightened_from_none(s, 0);
    assert(s.skip(0) =~= s);
}

proof fn lemma_line_feed_free_cons(c: char, t: Seq<char>)
    requires
        c != '\n',
        line_feed_free(t),
    ensures
        line_feed_free(seq![c] + t),
{
    let u = seq![c] + t;
    assert forall|i: int| 0 <= i < u.len() implies u[i] != '\n' by {
        if i > 0 {
            assert(u[i] == t[i - 1]);
        }
    }
}

proof fn lemma_joined_from_line_feed_free(s: Seq<char>, i: int)
    requires
        0 <= i <= s.len(),
    ensures
        line_feed_free(joined_lines_from(s, i)),
    decreases s.len() - i,
{
    if i < s.len() {
        if s[i] == '\n' {
            lemma_joined_from_line_feed_free(s, i + 1);
            lemma_line_feed_free_cons(' ', joined_lines_from(s, i + 1));
        } else if s[i] == '\r' && i + 1 < s.len() && s[i + 1] == '\n' {
            lemma_joined_from_line_feed_free(s, i + 2);
            lemma_line_feed_free_cons(' ', joined_lines_from(s, i + 2));
        } else {
            lemma_joined_from_line_feed_free(s, i + 1);
            lemma_line_feed_free_cons(s[i], joined_lines_from(s, i + 1));
        }
    }
}

proof fn lemma_without_comments_from_line_feed_free(s: Seq<char>, i: int)
    requires
        line_feed_free(s),
        0 <= i <= s.len(),
    ensures
        line_feed_free(without_comments_from(s, i)),
    decreases s.len() - i,
{
    if i < s.len() {
        if opens_comment(s, i) {
            let e = comment_end(s, i + 4);
            lemma_comment_end(s, i + 4);
            if e < s.len() {
                lemma_without_comments_from_line_feed_free(s, e + 3);
            }
        } else {
            lemma_without_comments_from_line_feed_free(s, i + 1);
            lemma_line_feed_free_cons(s[i], without_comments_from(s, i + 1));
        }
    }
}

proof fn lemma_without_gaps_from_line_feed_free(s: Seq<char>, i: int)
    requires
        line_feed_free(s),
        0 <= i <= s.len(),
    ensures
        line_feed_free(without_gaps_from(s, i)),
    decreases s.len() - i,
{
    if i < s.len() {
        if gap_after(s, i) {
            lemma_without_gaps_from_line_feed_free(s, run_end(s, i + 1));
            lemma_line_feed_free_cons(s[i], without_gaps_from(s, run_end(s, i + 1)));
        } else {
            lemma_without_gaps_from_line_feed_free(s, i + 1);
            lemma_line_feed_free_cons(s[i], without_gaps_from(s, i + 1));
        }
    }
}

proof fn lemma_tightened_from_line_feed_free(s: Seq<char>, i: int)
    requires
        line_feed_free(s),
        0 <= i <= s.len(),
    ensures
        line_feed_free(tightened_from(s, i)),
    decreases s.len() - i,
{
    if i < s.len() {
        lemma_tightened_from_line_feed_free(s, i + 1);
        if !before_closer(s, i) {
            lemma_line_feed_free_cons(s[i], tightened_from(s, i + 1));
        }
    }
}

/// A gap in a part of `s` is a gap in `s`.
proof fn lemma_gap_in_part(s: Seq<char>, a: int, b: int, j: int)
    requires
        0 <= a <= b <= s.len(),
        gap_after(s.subrange(a, b), j),
    ensures
        gap_after(s, a + j),
{
    lemma_run_end_in_part(s, a, b, j + 1);
}

/// A gap behind the first character of a text is a gap of the text without
/// that character, one index further left.
proof fn lemma_gap_after_cons(c: char, t: Seq<char>, j: int)
    requires
        0 <= j,
    ensures
        gap_after(seq![c] + t, j + 1) == gap_after(t, j),
{
    let u = seq![c] + t;
    assert(u.subrange(1, u.len() as int) =~= t);
    if j < t.len() {
        lemma_run_end_in_part(u, 1, u.len() as int, j + 1);
        lemma_run_end(u, j + 2);
    }
}

/// Where a character is followed by white space `w` and then by `r`, which
/// does not start with white space, a gap starts behind that character
/// exactly if it is a `>`, `w` is not empty and `r` starts with a `<`.
proof fn lemma_gap_at_front(c: char, w: Seq<char>, r: Seq<char>)
    requires
        forall|k: int| 0 <= k < w.len() ==> is_space(#[trigger] w[k]),
        r.len() > 0 ==> !is_space(r[0]),
    ensures
        gap_after(seq![c] + w + r, 0) == (c == '>' && w.len() > 0 && r.len() > 0 && r[0] == '<'),
{
    let t = seq![c] + w + r;
    let n = w.len() as int;
    assert forall|k: int| 1 <= k < 1 + n implies is_space(#[trigger] t[k]) by {
        assert(t[k] == w[k - 1]);
    }
    if r.len() > 0 {
        assert(t[1 + n] == r[0]);
    }
    lemma_run_end_is(t, 1, 1 + n);
}

/// The fourth step copies a run of white space as it stands.
proof fn lemma_without_gaps_run(s: Seq<char>, i: int)
    requires
        0 <= i <= s.len(),
    ensures
        without_gaps_from(s, i) == s.subrange(i, run_end(s, i)) + without_gaps_from(
            s,
            run_end(s, i),
        ),
    decreases s.len() - i,
{
    let e = run_end(s, i);
    if i < s.len() && is_space(s[i]) {
        lemma_without_gaps_run(s, i + 1);
        lemma_run_end(s, i + 1);
        assert(seq![s[i]] + (s.subrange(i + 1, e) + without_gaps_from(s, e)) =~= s.subrange(i, e)
            + without_gaps_from(s, e));
    } else {
        assert(s.subrange(i, e) + without_gaps_from(s, e) =~= without_gaps_from(s, e));
    }
}

proof fn lemma_without_gaps_from_gap_free(s: Seq<char>, i: int)
    requires
        0 <= i <= s.len(),
    ensures
        !has_gap(without_gaps_from(s, i)),
    decreases s.len() - i,
{
    let t = without_gaps_from(s, i);
    if i < s.len() {
        let e = run_end(s, i + 1);
        lemma_run_end(s, i + 1);
        let next = if gap_after(s, i) {
            e
        } else {
            i + 1
        };
        let rest = without_gaps_from(s, next);
        lemma_without_gaps_from_gap_free(s, next);
        assert(t == seq![s[i]] + rest);
        let w = if gap_after(s, i) {
            Seq::<char>::empty()
        } else {
            s.subrange(i + 1, e)
        };
        let r = without_gaps_from(s, e);
        if !gap_after(s, i) {
            lemma_without_gaps_run(s, i + 1);
        }
        assert(t =~= seq![s[i]] + w + r);
        lemma_gap_at_front(s[i], w, r);
        assert forall|j: int| !gap_after(t, j) by {
            if j > 0 {
                lemma_gap_after_cons(s[i], rest, j - 1);
                assert(!gap_after(rest, j - 1));
            }
        }
    }
}

/// After the fourth step no gap between two tags is left.
pub proof fn lemma_without_gaps_gap_free(s: Seq<char>)
    ensures
        !has_gap(without_gaps(s)),
{
    lemma_without_gaps_from_gap_free(s, 0);
}

proof fn lemma_tightened_from_gap_free(s: Seq<char>, i: int)
    requires
        !has_gap(s),
        0 <= i <= s.len(),
    ensures
        !has_gap(tightened_from(s, i)),
    decreases s.len() - i,
{
    let t = tightened_from(s, i);
    if i < s.len() {
        lemma_tightened_from_gap_free(s, i + 1);
        if !before_closer(s, i) {
            let e = run_end(s, i + 1);
            lemma_run_end(s, i + 1);
            let rest = tightened_from(s, i + 1);
            lemma_tightened_run(s, i + 1);
            let w = if closes_tag(s, e) {
                Seq::<char>::empty()
            } else {
                s.subrange(i + 1, e)
            };
            let r = tightened_from(s, e);
            assert(t =~= seq![s[i]] + w + r);
            lemma_gap_at_front(s[i], w, r);
            assert(!gap_after(s, i));
            assert forall|j: int| !gap_after(t, j) by {
                if j > 0 {
                    lemma_gap_after_cons(s[i], rest, j - 1);
                    assert(!gap_after(rest, j - 1));
                }
            }
        }
    }
}

/// The fifth step opens no gap between two tags.
pub proof fn lemma_tightened_gap_free(s: Seq<char>)
    requires
        !has_gap(s),
    ensures
        !has_gap(tightened(s)),
{
    lemma_tightened_from_gap_free(s, 0);
}

proof fn lemma_tightened_from_bracket_tight(s: Seq<char>, i: int)
    requires
        0 <= i <= s.len(),
    ensures
        !has_space_before_bracket(tightened_from(s, i)),
    decreases s.len() - i,
{
    let t = tightened_from(s, i);
    if i < s.len() {
        lemma_tightened_from_bracket_tight(s, i + 1);
        if !before_closer(s, i) {
            let rest = tightened_from(s, i + 1);
            let e = run_end(s, i + 1);
            lemma_run_end(s, i + 1);
            lemma_tightened_run(s, i + 1);
            assert forall|j: int| !space_before_bracket_at(t, j) by {
                if j > 0 {
                    assert(!space_before_bracket_at(rest, j - 1));
                } else if space_before_bracket_at(t, 0) {
                    assert(e == run_end(s, i));
                    if e > i + 1 {
                        assert(rest[0] == s.subrange(i + 1, e)[0]);
                    }
                }
            }
        }
    }
}

/// After the fifth step no white space stands directly in front of a `>`.
pub proof fn lemma_tightened_bracket_tight(s: Seq<char>)
    ensures
        !has_space_before_bracket(tightened(s)),
{
    lemma_tightened_from_bracket_tight(s, 0);
}

/// Minified markup is a single line, has no white space at its ends, none
/// between a `>` and the `<` that follows it, and none directly in front of
/// a `>`.
pub proof fn lemma_minified_shape(x: Seq<char>)
    ensures
        line_feed_free(minified(x)),
        is_trimmed(minified(x)),
        !has_gap(minified(x)),
        !has_space_before_bracket(minified(x)),
{
    lemma_minified_bracket_tight(x);
    let s1 = stripped_lines(x);
    let s2 = joined_lines(s1);
    let s3 = without_comments(s2);
    let s4 = without_gaps(s3);
    let s5 = tightened(s4);
    lemma_joined_from_line_feed_free(s1, 0);
    lemma_without_comments_from_line_feed_free(s2, 0);
    lemma_without_gaps_from_line_feed_free(s3, 0);
    lemma_tightened_from_line_feed_free(s4, 0);
    lemma_without_gaps_gap_free(s3);
    lemma_tightened_gap_free(s4);
    let (a, b) = lemma_trim_shape(s5);
    let m = s5.subrange(a, b);
    assert forall|j: int| !gap_after(m, j) by {
        if gap_after(m, j) {
            lemma_gap_in_part(s5, a, b, j);
        }
    }
}

proof fn lemma_minified_bracket_tight(x: Seq<char>)
    ensures
        !has_space_before_bracket(minified(x)),
{
    let s4 = without_gaps(without_comments(joined_lines(stripped_lines(x))));
    let s5 = tightened(s4);
    lemma_tightened_bracket_tight(s4);
    let (a, b) = lemma_trim_shape(s5);
    let m = s5.subrange(a, b);
    assert forall|j: int| !space_before_bracket_at(m, j) by {
        if space_before_bracket_at(m, j) {
            assert(space_before_bracket_at(s5, a + j));
        }
    }
}

proof fn lemma_without_comments_from_len(s: Seq<char>, i: int)
    requires
        0 <= i <= s.len(),
    ensures
        without_comments_from(s, i).len() <= s.len() - i,
    decreases s.len() - i,
{
    if i < s.len() {
        if opens_comment(s, i) {
            let e = comment_end(s, i + 4);
            lemma_comment_end(s, i + 4);
            if e < s.len() {
                lemma_without_comments_from_len(s, e + 3);
            }
        } else {
            lemma_without_comments_from_len(s, i + 1);
        }
    }
}

/// The third step shortens the text behind index `i` if a comment starts at
/// or after `i`.
proof fn lemma_without_comments_from_shorter(s: Seq<char>, i: int, p: int, q: int)
    requires
        comment_spans(s, p, q),
        0 <= i <= p,
    ensures
        without_comments_from(s, i).len() < s.len() - i,
    decreases s.len() - i,
{
    if opens_comment(s, i) {
        let e = comment_end(s, i + 4);
        lemma_comment_end(s, i + 4);
        assert(e <= q);
        lemma_without_comments_from_len(s, e + 3);
    } else {
        lemma_without_comments_from_shorter(s, i + 1, p, q);
    }
}

proof fn lemma_without_gaps_from_len(s: Seq<char>, i: int)
    requires
        0 <= i <= s.len(),
    ensures
        without_gaps_from(s, i).len() <= s.len() - i,
    decreases s.len() - i,
{
    if i < s.len() {
        if gap_after(s, i) {
            lemma_without_gaps_from_len(s, run_end(s, i + 1));
        } else {
            lemma_without_gaps_from_len(s, i + 1);
        }
    }
}

proof fn lemma_tightened_from_len(s: Seq<char>, i: int)
    requires
        0 <= i <= s.len(),
    ensures
        tightened_from(s, i).len() <= s.len() - i,
    decreases s.len() - i,
{
    if i < s.len() {
        lemma_tightened_from_len(s, i + 1);
    }
}

/// The fifth step shortens the text behind index `i` if white space in front
/// of a closing delimiter stands at or after `i`.
proof fn lemma_tightened_from_shorter(s: Seq<char>, i: int, j: int)
    requires
        0 <= i <= j,
        before_closer(s, j),
    ensures
        tightened_from(s, i).len() < s.len() - i,
    decreases j - i,
{
    if i == j {
        lemma_tightened_from_len(s, i + 1);
    } else {
        lemma_tightened_from_shorter(s, i + 1, j);
    }
}

/// Minifying markup a second time does change it where the first pass left
/// a comment or white space in front of a closing delimiter: the second
/// pass removes that.
pub proof fn lemma_minify_changes_unsettled(x: Seq<char>)
    requires
        !is_settled(minified(x)),
    ensures
        minified(minified(x)) != minified(x),
{
    let y = minified(x);
    lemma_minified_shape(x);
    lemma_stripped_single_line(y);
    lemma_trim_of_trimmed(y);
    lemma_joined_single_line(y);
    let s3 = without_comments(y);
    if has_comment(y) {
        let (p, q) = choose|p: int, q: int| comment_spans(y, p, q);
        lemma_without_comments_from_shorter(y, 0, p, q);
    } else {
        lemma_without_comments_of_none(y);
    }
    lemma_without_gaps_from_len(s3, 0);
    let s4 = without_gaps(s3);
    if !has_comment(y) {
        lemma_without_gaps_of_none(y);
        let j = choose|j: int| loose_closer_at(y, j);
        lemma_run_end_is(y, j, j + 1);
        lemma_tightened_from_shorter(y, 0, j);
    } else {
        lemma_tightened_from_len(s4, 0);
    }
    let s5 = tightened(s4);
    lemma_trim_shape(s5);
}

/// Minifying markup a second time changes nothing, provided the first pass
/// left neither a comment nor white space in front of a closing delimiter.
pub proof fn lemma_minify_idempotent(x: Seq<char>)
    requires
        is_settled(minified(x)),
    ensures
        minified(minified(x)) == minified(x),
{
    let y = minified(x);
    lemma_minified_shape(x);
    lemma_stripped_single_line(y);
    lemma_trim_of_trimmed(y);
    lemma_joined_single_line(y);
    lemma_without_comments_of_none(y);
    lemma_without_gaps_of_none(y);
    lemma_tightened_of_none(y);
}

} // verus!
