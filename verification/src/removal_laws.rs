//! What the third and the fourth step take away: a comment goes whole,
//! whatever it holds, and the white space between two tags goes whole.

use crate::minify::{
    comment_end, ends_comment, gap_after, lemma_comment_end, lemma_run_end, opens_comment,
    run_end, without_comments, without_comments_from, without_gaps, without_gaps_from,
};
use crate::minify_laws::{lemma_run_end_in_part, lemma_run_end_is};
use crate::text::is_space;
use vstd::prelude::*;

verus! {

/// The four characters that open a comment.
pub open spec fn comment_open() -> Seq<char> {
    seq!['<', '!', '-', '-']
}

/// The three characters that close a comment.
pub open spec fn comment_close() -> Seq<char> {
    seq!['-', '-', '>']
}

proof fn lemma_comment_end_is(s: Seq<char>, i: int, e: int)
    requires
        0 <= i <= e,
        ends_comment(s, e),
        forall|k: int| i <= k < e ==> !ends_comment(s, k),
    ensures
        comment_end(s, i) == e,
    decreases e - i,
{
    if i < e {
        lemma_comment_end_is(s, i + 1, e);
    }
}

proof fn lemma_comment_end_in_suffix(s: Seq<char>, d: int, k: int)
    requires
        0 <= d <= s.len(),
        0 <= k,
    ensures
        comment_end(s.skip(d), k) == comment_end(s, d + k) - d,
    decreases s.len() - d - k,
{
    let t = s.skip(d);
    if k < t.len() {
        assert(ends_comment(t, k) == ends_comment(s, d + k));
        if !ends_comment(t, k) {
            lemma_comment_end_in_suffix(s, d, k + 1);
        }
    }
}

/// The third step does to the end of a text what it does to that end taken
/// alone.
proof fn lemma_without_comments_in_suffix(s: Seq<char>, d: int, k: int)
    requires
        0 <= d <= s.len(),
        0 <= k <= s.len() - d,
    ensures
        without_comments_from(s.skip(d), k) == without_comments_from(s, d + k),
    decreases s.len() - d - k,
{
    let t = s.skip(d);
    if k < t.len() {
        assert(opens_comment(t, k) == opens_comment(s, d + k));
        if opens_comment(t, k) {
            lemma_comment_end_in_suffix(s, d, k + 4);
            lemma_comment_end(s, d + k + 4);
            let e = comment_end(s, d + k + 4);
            if e < s.len() {
                lemma_without_comments_in_suffix(s, d, e + 3 - d);
            } else {
                assert(t.skip(k) =~= s.skip(d + k));
            }
        } else {
            lemma_without_comments_in_suffix(s, d, k + 1);
        }
    }
}

proof fn lemma_comment_free_part_copied(s: Seq<char>, i: int, n: int)
    requires
        0 <= i <= n <= s.len(),
        forall|j: int| i <= j < n ==> !opens_comment(s, j),
    ensures
        without_comments_from(s, i) == s.subrange(i, n) + without_comments_from(s, n),
    decreases n - i,
{
    if i < n {
        lemma_comment_free_part_copied(s, i + 1, n);
        assert(seq![s[i]] + (s.subrange(i + 1, n) + without_comments_from(s, n)) =~= s.subrange(
            i,
            n,
        ) + without_comments_from(s, n));
    } else {
        assert(s.subrange(i, n) + without_comments_from(s, n) =~= without_comments_from(s, n));
    }
}

/// A comment is removed whole, whatever stands in it, line breaks too, and
/// what follows it is searched for comments as if it stood alone. Here `a`
/// is text in which no comment opens and `c` text in which none closes.
pub proof fn lemma_comment_is_removed(a: Seq<char>, c: Seq<char>, b: Seq<char>)
    requires
        forall|i: int| !opens_comment(a, i),
        forall|k: int| 0 <= k < c.len() ==> !ends_comment(c + comment_close(), k),
    ensures
        without_comments(a + comment_open() + c + comment_close() + b) == a + without_comments(b),
{
    let s = a + comment_open() + c + comment_close() + b;
    let u = c + comment_close();
    let n = a.len() as int;
    let e = n + 4 + c.len();
    assert(s.subrange(0, n) =~= a);
    assert(s.subrange(n, n + 4) =~= comment_open());
    assert(s.subrange(n + 4, e + 3) =~= u);
    assert(s.skip(e + 3) =~= b);
    assert(opens_comment(s, n)) by {
        assert(s[n] == comment_open()[0]);
        assert(s[n + 1] == comment_open()[1]);
        assert(s[n + 2] == comment_open()[2]);
        assert(s[n + 3] == comment_open()[3]);
    }
    assert forall|k: int| n + 4 <= k <= e implies ends_comment(s, k) == ends_comment(
        u,
        k - n - 4,
    ) by {
        let v = s.subrange(n + 4, e + 3);
        assert(s[k] == v[k - n - 4]);
        assert(s[k + 1] == v[k - n - 3]);
        assert(s[k + 2] == v[k - n - 2]);
    }
    let m = c.len() as int;
    assert(ends_comment(u, m)) by {
        assert(u[m] == comment_close()[0]);
        assert(u[m + 1] == comment_close()[1]);
        assert(u[m + 2] == comment_close()[2]);
    }
    lemma_comment_end_is(s, n + 4, e);
    lemma_without_comments_in_suffix(s, e + 3, 0);
    assert(without_comments_from(s, n) == without_comments(b));
    assert forall|j: int| 0 <= j < n implies !opens_comment(s, j) by {
        if j + 4 <= n {
            let v = s.subrange(0, n);
            assert(s[j] == v[j] && s[j + 1] == v[j + 1] && s[j + 2] == v[j + 2] && s[j + 3] == v[j
                + 3]);
            assert(!opens_comment(a, j));
        } else {
            assert(s[n] == '<');
        }
    }
    lemma_comment_free_part_copied(s, 0, n);
}

/// The fourth step does to the end of a text what it does to that end taken
/// alone.
proof fn lemma_without_gaps_in_suffix(s: Seq<char>, d: int, k: int)
    requires
        0 <= d <= s.len(),
        0 <= k <= s.len() - d,
    ensures
        without_gaps_from(s.skip(d), k) == without_gaps_from(s, d + k),
    decreases s.len() - d - k,
{
    let t = s.skip(d);
    assert(t =~= s.subrange(d, s.len() as int));
    if k < t.len() {
        lemma_run_end_in_part(s, d, s.len() as int, k + 1);
        lemma_run_end(s, d + k + 1);
        assert(gap_after(t, k) == gap_after(s, d + k));
        if gap_after(t, k) {
            lemma_without_gaps_in_suffix(s, d, run_end(t, k + 1));
        } else {
            lemma_without_gaps_in_suffix(s, d, k + 1);
        }
    }
}

/// The fourth step does to a text that ends in a `>` what it does to that
/// text where more follows, up to the `>`.
proof fn lemma_without_gaps_in_prefix(s: Seq<char>, n: int, i: int)
    requires
        0 <= i <= n < s.len(),
        s[n] == '>',
    ensures
        without_gaps_from(s, i) == without_gaps_from(s.take(n + 1), i).drop_last()
            + without_gaps_from(s, n),
        without_gaps_from(s.take(n + 1), i).len() > 0,
        without_gaps_from(s.take(n + 1), i).last() == '>',
    decreases n - i,
{
    let t = s.take(n + 1);
    assert(t =~= s.subrange(0, n + 1));
    let rest = without_gaps_from(s, n);
    if i == n {
        lemma_run_end(t, n + 1);
        assert(!gap_after(t, n));
        assert(without_gaps_from(t, n + 1) =~= Seq::<char>::empty());
        assert(without_gaps_from(t, n) =~= seq!['>']);
        assert(seq!['>'].drop_last() + rest =~= rest);
    } else {
        lemma_run_end_in_part(s, 0, n + 1, i + 1);
        lemma_run_end(s, i + 1);
        let e = run_end(s, i + 1);
        assert(e <= n) by {
            if e > n {
                assert(is_space(s[n]));
            }
        }
        assert(gap_after(t, i) == gap_after(s, i));
        let next = if gap_after(s, i) {
            e
        } else {
            i + 1
        };
        lemma_without_gaps_in_prefix(s, n, next);
        let tail = without_gaps_from(t, next);
        assert((seq![s[i]] + tail).drop_last() + rest =~= seq![s[i]] + (tail.drop_last() + rest));
    }
}

/// White space that only separates two tags is removed whole: the text up
/// to the `>` and the text from the `<` on come out as if each stood alone,
/// and nothing stands between them.
pub proof fn lemma_gap_is_closed(a: Seq<char>, w: Seq<char>, b: Seq<char>)
    requires
        forall|k: int| 0 <= k < w.len() ==> is_space(#[trigger] w[k]),
    ensures
        without_gaps(a + seq!['>'] + w + seq!['<'] + b) == without_gaps(a + seq!['>'])
            + without_gaps(seq!['<'] + b),
{
    let s = a + seq!['>'] + w + seq!['<'] + b;
    let n = a.len() as int;
    let e = n + 1 + w.len();
    assert(s.take(n + 1) =~= a + seq!['>']);
    assert(s.skip(e) =~= seq!['<'] + b);
    assert(s[n] == '>');
    assert(s[e] == '<');
    assert forall|k: int| n + 1 <= k < e implies is_space(#[trigger] s[k]) by {
        assert(s[k] == w[k - n - 1]);
    }
    lemma_run_end_is(s, n + 1, e);
    lemma_without_gaps_in_suffix(s, e, 0);
    let rest = without_gaps(seq!['<'] + b);
    if w.len() > 0 {
        assert(gap_after(s, n));
        assert(without_gaps_from(s, n) == seq!['>'] + rest);
    } else {
        assert(!gap_after(s, n));
        assert(without_gaps_from(s, n) == seq!['>'] + rest);
    }
    lemma_without_gaps_in_prefix(s, n, 0);
    let head = without_gaps(a + seq!['>']);
    assert(head.drop_last() + (seq!['>'] + rest) =~= head + rest);
}

} // verus!
