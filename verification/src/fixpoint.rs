//! Why a stripped text is left as it is when it is stripped again.

use vstd::prelude::*;
use crate::comments::blank_lines_cleared;
use crate::comments::closes_at;
use crate::comments::has_comment;
use crate::comments::in_blank_line;
use crate::comments::lemma_next_close;
use crate::comments::lemma_nothing_to_remove;
use crate::comments::lemma_retain_all;
use crate::comments::newlines_collapsed;
use crate::comments::next_close;
use crate::comments::opens_at;
use crate::comments::outside_blank_lines;
use crate::comments::retain;
use crate::comments::same_line;
use crate::comments::stripped;
use crate::comments::third_newline;
use crate::comments::within_two_newlines;
use crate::comments::without_comments;
use crate::text::first_visible;
use crate::text::is_trimmed;
use crate::text::last_visible_end;
use crate::text::lemma_trim_bounds;
use crate::text::lemma_trim_fixed;
use crate::text::trim;
use crate::text::white_space;

verus! {

/// Keeping more places only appends to what was kept.
pub proof fn lemma_retain_grows(s: Seq<char>, keep: Seq<bool>, a: int, b: int)
    requires
        0 <= a <= b,
    ensures
        retain(s, keep, a).len() <= retain(s, keep, b).len() <= retain(s, keep, a).len() + (b - a),
        forall|k: int|
            0 <= k < retain(s, keep, a).len() ==> #[trigger] retain(s, keep, b)[k] == retain(
                s,
                keep,
                a,
            )[k],
    decreases b - a,
{
    if a < b {
        lemma_retain_grows(s, keep, a, b - 1);
    }
}

/// A kept character stands in the kept text after those kept before it.
pub proof fn lemma_kept_lands(s: Seq<char>, keep: Seq<bool>, p: int, n: int)
    requires
        0 <= p < n,
        keep[p],
    ensures
        retain(s, keep, p).len() < retain(s, keep, n).len(),
        retain(s, keep, n)[retain(s, keep, p).len() as int] == s[p],
{
    lemma_retain_grows(s, keep, p + 1, n);
}

/// Between two kept places that land side by side, nothing is kept.
pub proof fn lemma_between(s: Seq<char>, keep: Seq<bool>, p: int, m: int, q: int)
    requires
        0 <= p < m < q,
        keep[p],
        keep[m],
    ensures
        retain(s, keep, q).len() >= retain(s, keep, p).len() + 2,
{
    lemma_retain_grows(s, keep, p + 1, m);
    lemma_retain_grows(s, keep, m + 1, q);
}

/// The place that the character at `k` of the kept text comes from.
pub open spec fn origin(s: Seq<char>, keep: Seq<bool>, n: int, k: int) -> int
    decreases n,
{
    if n <= 0 {
        0
    } else if keep[n - 1] && retain(s, keep, n - 1).len() == k {
        n - 1
    } else {
        origin(s, keep, n - 1, k)
    }
}

/// Every character of the kept text comes from a kept place, and lands after
/// those kept before it.
pub proof fn lemma_origin(s: Seq<char>, keep: Seq<bool>, n: int, k: int)
    requires
        0 <= k < retain(s, keep, n).len(),
    ensures
        0 <= origin(s, keep, n, k) < n,
        keep[origin(s, keep, n, k)],
        retain(s, keep, origin(s, keep, n, k)).len() == k,
        retain(s, keep, n)[k] == s[origin(s, keep, n, k)],
    decreases n,
{
    if n > 0 && !(keep[n - 1] && retain(s, keep, n - 1).len() == k) {
        lemma_origin(s, keep, n - 1, k);
    }
}

/// Two characters side by side in the kept text, the first not whitespace,
/// stood side by side before, provided that wherever a dropped place follows
/// a kept one, the kept one holds whitespace.
pub proof fn lemma_neighbours(s: Seq<char>, keep: Seq<bool>, k: int)
    requires
        keep.len() == s.len(),
        forall|i: int|
            0 <= i && i + 1 < s.len() && #[trigger] keep[i] && !keep[i + 1] ==> white_space(s[i]),
        0 <= k,
        k + 1 < retain(s, keep, s.len() as int).len(),
        !white_space(retain(s, keep, s.len() as int)[k]),
    ensures
        origin(s, keep, s.len() as int, k + 1) == origin(s, keep, s.len() as int, k) + 1,
{
    let n = s.len() as int;
    lemma_origin(s, keep, n, k);
    lemma_origin(s, keep, n, k + 1);
    let p = origin(s, keep, n, k);
    let q = origin(s, keep, n, k + 1);
    if q <= p {
        lemma_retain_grows(s, keep, q, p);
    }
    if q > p + 1 {
        if keep[p + 1] {
            lemma_between(s, keep, p, p + 1, q);
        }
    }
}

/// Dropping places makes no comment, provided that wherever a dropped place
/// follows a kept one, the kept one holds whitespace.
pub proof fn lemma_no_new_comment(s: Seq<char>, keep: Seq<bool>)
    requires
        keep.len() == s.len(),
        forall|i: int|
            0 <= i && i + 1 < s.len() && #[trigger] keep[i] && !keep[i + 1] ==> white_space(s[i]),
        !has_comment(s),
    ensures
        !has_comment(retain(s, keep, s.len() as int)),
{
    let n = s.len() as int;
    let y = retain(s, keep, n);
    if has_comment(y) {
        let (i, j) = choose|i: int, j: int| opens_at(y, i) && closes_at(y, j) && i + 4 <= j;
        lemma_neighbours(s, keep, i);
        lemma_neighbours(s, keep, i + 1);
        lemma_neighbours(s, keep, i + 2);
        lemma_neighbours(s, keep, j);
        lemma_neighbours(s, keep, j + 1);
        lemma_origin(s, keep, n, i);
        lemma_origin(s, keep, n, i + 1);
        lemma_origin(s, keep, n, i + 2);
        lemma_origin(s, keep, n, i + 3);
        lemma_origin(s, keep, n, j);
        lemma_origin(s, keep, n, j + 1);
        lemma_origin(s, keep, n, j + 2);
        let p = origin(s, keep, n, i);
        let q = origin(s, keep, n, j);
        assert(opens_at(s, p));
        assert(closes_at(s, q));
        if q <= p + 3 {
            lemma_retain_grows(s, keep, q, p + 3);
        }
        assert(opens_at(s, p) && closes_at(s, q) && p + 4 <= q);
    }
}

/// Whether no place of `s` is in a line that holds whitespace only.
pub open spec fn no_blank_place(s: Seq<char>) -> bool {
    forall|i: int| 0 <= i < s.len() ==> !#[trigger] in_blank_line(s, i)
}

/// Whether no newline of `s` directly follows two newlines.
pub open spec fn no_third_newline(s: Seq<char>) -> bool {
    forall|i: int| 0 <= i < s.len() ==> !#[trigger] third_newline(s, i)
}

/// A stretch that is kept whole stands in the kept text as it stood before.
pub proof fn lemma_stretch_kept(s: Seq<char>, keep: Seq<bool>, lo: int, hi: int, m: int)
    requires
        keep.len() == s.len(),
        0 <= lo <= m < hi <= s.len(),
        forall|x: int| lo <= x < hi ==> #[trigger] keep[x],
    ensures
        retain(s, keep, m).len() == retain(s, keep, lo).len() + (m - lo),
        retain(s, keep, m).len() < retain(s, keep, s.len() as int).len(),
        retain(s, keep, s.len() as int)[retain(s, keep, m).len() as int] == s[m],
{
    lemma_retain_all(s, keep, lo, m);
    lemma_kept_lands(s, keep, m, s.len() as int);
}

/// A place keeps a visible character in its line where the stretch from the
/// one to the other is kept whole.
pub proof fn lemma_line_survives(s: Seq<char>, keep: Seq<bool>, p: int, v: int)
    requires
        keep.len() == s.len(),
        0 <= p < s.len(),
        0 <= v < s.len(),
        same_line(s, p, v),
        !white_space(s[v]),
        forall|x: int| (p <= x <= v || v <= x <= p) ==> #[trigger] keep[x],
    ensures
        retain(s, keep, p).len() < retain(s, keep, s.len() as int).len(),
        !in_blank_line(retain(s, keep, s.len() as int), retain(s, keep, p).len() as int),
{
    let n = s.len() as int;
    let y = retain(s, keep, n);
    let lo = if p <= v { p } else { v };
    let hi = if p <= v { v + 1 } else { p + 1 };
    let base = retain(s, keep, lo).len() as int;
    let k = retain(s, keep, p).len() as int;
    let w = retain(s, keep, v).len() as int;
    lemma_stretch_kept(s, keep, lo, hi, p);
    lemma_stretch_kept(s, keep, lo, hi, v);
    assert forall|t: int| base <= t < base + (hi - lo) implies #[trigger] y[t] != '\n' by {
        let m = lo + (t - base);
        lemma_stretch_kept(s, keep, lo, hi, m);
        assert(s[m] != '\n');
    }
    assert(same_line(y, k, w));
    assert(!white_space(y[w]));
}

/// Once the whitespace-only lines are cleared, no place is in such a line.
pub proof fn lemma_cleared_has_no_blank_place(s: Seq<char>)
    ensures
        no_blank_place(blank_lines_cleared(s)),
{
    let n = s.len() as int;
    let keep = outside_blank_lines(s);
    let z = blank_lines_cleared(s);
    assert forall|k: int| 0 <= k < z.len() implies !#[trigger] in_blank_line(z, k) by {
        lemma_origin(s, keep, n, k);
        let p = origin(s, keep, n, k);
        if z[k] != '\n' {
            assert(!in_blank_line(s, p));
            let v = choose|v: int| 0 <= v < n && same_line(s, p, v) && !white_space(s[v]);
            assert forall|x: int| (p <= x <= v || v <= x <= p) implies #[trigger] keep[x] by {
                assert(same_line(s, x, v));
            }
            lemma_line_survives(s, keep, p, v);
        }
    }
}

/// Cutting runs of newlines puts no place into a whitespace-only line.
pub proof fn lemma_collapsed_has_no_blank_place(s: Seq<char>)
    requires
        no_blank_place(s),
    ensures
        no_blank_place(newlines_collapsed(s)),
{
    let n = s.len() as int;
    let keep = within_two_newlines(s);
    let z = newlines_collapsed(s);
    assert forall|k: int| 0 <= k < z.len() implies !#[trigger] in_blank_line(z, k) by {
        lemma_origin(s, keep, n, k);
        let p = origin(s, keep, n, k);
        if z[k] != '\n' {
            assert(!in_blank_line(s, p));
            let v = choose|v: int| 0 <= v < n && same_line(s, p, v) && !white_space(s[v]);
            assert forall|x: int| (p <= x <= v || v <= x <= p) implies #[trigger] keep[x] by {
                assert(s[x] != '\n');
            }
            lemma_line_survives(s, keep, p, v);
        }
    }
}

/// Trimming puts no place into a whitespace-only line.
pub proof fn lemma_trimmed_has_no_blank_place(s: Seq<char>)
    requires
        no_blank_place(s),
    ensures
        no_blank_place(trim(s)),
{
    lemma_trim_bounds(s);
    let y = trim(s);
    if y.len() > 0 {
        let a = first_visible(s, 0);
        let b = last_visible_end(s, s.len() as int);
        assert forall|k: int| 0 <= k < y.len() implies !#[trigger] in_blank_line(y, k) by {
            let p = a + k;
            if y[k] != '\n' {
                assert(!in_blank_line(s, p));
                let v = choose|v: int| 0 <= v < s.len() && same_line(s, p, v) && !white_space(s[v]);
                let w = if v < a {
                    0
                } else if v >= b {
                    b - 1 - a
                } else {
                    v - a
                };
                assert forall|t: int| (k <= t <= w || w <= t <= k) implies #[trigger] y[t]
                    != '\n' by {
                    assert(y[t] == s[a + t]);
                }
                assert(same_line(y, k, w));
                assert(!white_space(y[w]));
            }
        }
    }
}

/// Once runs of newlines are cut, no newline directly follows two newlines.
pub proof fn lemma_collapsed_has_no_third_newline(s: Seq<char>)
    ensures
        no_third_newline(newlines_collapsed(s)),
{
    let n = s.len() as int;
    let keep = within_two_newlines(s);
    let z = newlines_collapsed(s);
    assert forall|k: int| 0 <= k < z.len() implies !#[trigger] third_newline(z, k) by {
        if third_newline(z, k) {
            lemma_origin(s, keep, n, k - 2);
            lemma_origin(s, keep, n, k - 1);
            lemma_origin(s, keep, n, k);
            let first = origin(s, keep, n, k - 2);
            let second = origin(s, keep, n, k - 1);
            let third = origin(s, keep, n, k);
            if second <= first {
                lemma_retain_grows(s, keep, second, first);
            }
            if third <= second {
                lemma_retain_grows(s, keep, third, second);
            }
            assert forall|m: int| first <= m <= third implies s[m] == '\n' by {
                if first < m < second {
                    if keep[m] {
                        lemma_between(s, keep, first, m, second);
                    }
                } else if second < m < third {
                    if keep[m] {
                        lemma_between(s, keep, second, m, third);
                    }
                }
            }
            assert(s[third - 1] == '\n');
            assert(s[third - 2] == '\n');
            assert(third_newline(s, third));
        }
    }
}

/// Trimming puts no newline directly after two newlines.
pub proof fn lemma_trimmed_has_no_third_newline(s: Seq<char>)
    requires
        no_third_newline(s),
    ensures
        no_third_newline(trim(s)),
{
    lemma_trim_bounds(s);
    let y = trim(s);
    if y.len() > 0 {
        let a = first_visible(s, 0);
        assert forall|k: int| 0 <= k < y.len() implies !#[trigger] third_newline(y, k) by {
            if third_newline(y, k) {
                assert(third_newline(s, a + k));
            }
        }
    }
}

/// Clearing whitespace-only lines makes no comment.
pub proof fn lemma_cleared_has_no_comment(s: Seq<char>)
    requires
        !has_comment(s),
    ensures
        !has_comment(blank_lines_cleared(s)),
{
    let keep = outside_blank_lines(s);
    assert forall|i: int|
        0 <= i && i + 1 < s.len() && #[trigger] keep[i] && !keep[i + 1] implies white_space(
        s[i],
    ) by {
        if s[i] != '\n' {
            assert(same_line(s, i + 1, i));
        }
    }
    lemma_no_new_comment(s, keep);
}

/// Cutting runs of newlines makes no comment.
pub proof fn lemma_collapsed_has_no_comment(s: Seq<char>)
    requires
        !has_comment(s),
    ensures
        !has_comment(newlines_collapsed(s)),
{
    let keep = within_two_newlines(s);
    lemma_no_new_comment(s, keep);
}

/// Trimming makes no comment.
pub proof fn lemma_trimmed_has_no_comment(s: Seq<char>)
    requires
        !has_comment(s),
    ensures
        !has_comment(trim(s)),
{
    lemma_trim_bounds(s);
    let y = trim(s);
    if has_comment(y) {
        let a = first_visible(s, 0);
        let (i, j) = choose|i: int, j: int| opens_at(y, i) && closes_at(y, j) && i + 4 <= j;
        assert(opens_at(s, a + i) && closes_at(s, a + j) && (a + i) + 4 <= a + j);
    }
}

/// A text without a comment is what is left of it without its comments.
pub proof fn lemma_without_comments_fixed(s: Seq<char>)
    requires
        !has_comment(s),
    ensures
        without_comments(s) == s,
{
    assert forall|i: int| 0 <= i && opens_at(s, i) implies next_close(s, i + 4) >= s.len() by {
        lemma_next_close(s, i + 4);
        if next_close(s, i + 4) < s.len() {
            assert(opens_at(s, i) && closes_at(s, next_close(s, i + 4)) && i + 4 <= next_close(
                s,
                i + 4,
            ));
        }
    }
    lemma_nothing_to_remove(s, 0);
    assert(s.subrange(0, s.len() as int) =~= s);
}

/// A text without whitespace-only lines is left as it is when they are
/// cleared.
pub proof fn lemma_cleared_fixed(s: Seq<char>)
    requires
        no_blank_place(s),
    ensures
        blank_lines_cleared(s) == s,
{
    lemma_retain_all(s, outside_blank_lines(s), 0, s.len() as int);
    assert(s.subrange(0, s.len() as int) =~= s);
    assert(Seq::<char>::empty() + s =~= s);
}

/// A text without a third newline in a row is left as it is when runs of
/// newlines are cut.
pub proof fn lemma_collapsed_fixed(s: Seq<char>)
    requires
        no_third_newline(s),
    ensures
        newlines_collapsed(s) == s,
{
    lemma_retain_all(s, within_two_newlines(s), 0, s.len() as int);
    assert(s.subrange(0, s.len() as int) =~= s);
    assert(Seq::<char>::empty() + s =~= s);
}

/// What stripping leaves is tidy: no whitespace-only line that is not empty,
/// no more than two newlines in a row, and no whitespace at either end.
pub proof fn lemma_stripped_is_tidy(s: Seq<char>)
    ensures
        no_blank_place(stripped(s)),
        no_third_newline(stripped(s)),
        is_trimmed(stripped(s)),
{
    let cleared = blank_lines_cleared(without_comments(s));
    let collapsed = newlines_collapsed(cleared);
    lemma_cleared_has_no_blank_place(without_comments(s));
    lemma_collapsed_has_no_blank_place(cleared);
    lemma_trimmed_has_no_blank_place(collapsed);
    lemma_collapsed_has_no_third_newline(cleared);
    lemma_trimmed_has_no_third_newline(collapsed);
    lemma_trim_bounds(collapsed);
}

/// Tidying makes no comment: where taking the comments out of `s` leaves
/// none behind, the stripped text holds none.
pub proof fn lemma_stripped_has_no_comment(s: Seq<char>)
    requires
        !has_comment(without_comments(s)),
    ensures
        !has_comment(stripped(s)),
{
    let cleared = blank_lines_cleared(without_comments(s));
    let collapsed = newlines_collapsed(cleared);
    lemma_cleared_has_no_comment(without_comments(s));
    lemma_collapsed_has_no_comment(cleared);
    lemma_trimmed_has_no_comment(collapsed);
}

/// A text that is tidy and holds no comment is left as it is by stripping.
pub proof fn lemma_tidy_is_fixed(s: Seq<char>)
    requires
        !has_comment(s),
        no_blank_place(s),
        no_third_newline(s),
        is_trimmed(s),
    ensures
        stripped(s) == s,
{
    lemma_without_comments_fixed(s);
    lemma_cleared_fixed(s);
    lemma_collapsed_fixed(s);
    lemma_trim_fixed(s);
}

/// Stripping twice gives what stripping once gives, for every text in which
/// taking the comments out leaves no comment behind.
pub proof fn lemma_strip_idempotent(s: Seq<char>)
    requires
        !has_comment(without_comments(s)),
    ensures
        stripped(stripped(s)) == stripped(s),
{
    lemma_stripped_is_tidy(s);
    lemma_stripped_has_no_comment(s);
    lemma_tidy_is_fixed(stripped(s));
}

} // verus!
