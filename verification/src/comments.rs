//! The comment stripper: three passes over the characters of a text, then a
//! trim.

use vstd::prelude::*;
use crate::text::is_whitespace;
use crate::text::trim;
use crate::text::trim_chars;
use crate::text::white_space;

verus! {

/// Whether a comment opens at `i`: the four characters `<!--` start there.
pub open spec fn opens_at(s: Seq<char>, i: int) -> bool {
    &&& 0 <= i
    &&& i + 4 <= s.len()
    &&& s[i] == '<'
    &&& s[i + 1] == '!'
    &&& s[i + 2] == '-'
    &&& s[i + 3] == '-'
}

/// Whether a comment closes at `j`: the three characters `-->` start there.
pub open spec fn closes_at(s: Seq<char>, j: int) -> bool {
    &&& 0 <= j
    &&& j + 3 <= s.len()
    &&& s[j] == '-'
    &&& s[j + 1] == '-'
    &&& s[j + 2] == '>'
}

/// The first index at or after `from` where a comment closes; the length of
/// `s` if there is none.
pub open spec fn next_close(s: Seq<char>, from: int) -> int
    decreases s.len() - from,
{
    if from >= s.len() {
        s.len() as int
    } else if closes_at(s, from) {
        from
    } else {
        next_close(s, from + 1)
    }
}

/// What is left of `s` from `i` on once every comment is taken out. A comment
/// runs from an opening `<!--` to the nearest `-->` after it; an opening that
/// is never closed is ordinary text.
pub open spec fn without_comments_from(s: Seq<char>, i: int) -> Seq<char>
    decreases s.len() - i,
    via without_comments_from_ends
{
    if i < 0 || i >= s.len() {
        Seq::empty()
    } else if opens_at(s, i) && next_close(s, i + 4) < s.len() {
        without_comments_from(s, next_close(s, i + 4) + 3)
    } else {
        seq![s[i]] + without_comments_from(s, i + 1)
    }
}

#[via_fn]
proof fn without_comments_from_ends(s: Seq<char>, i: int) {
    if 0 <= i {
        lemma_next_close(s, i + 4);
    }
}

/// `s` with every comment taken out.
pub open spec fn without_comments(s: Seq<char>) -> Seq<char> {
    without_comments_from(s, 0)
}

/// Whether `s` holds a comment: an opening and, after it, a closing.
pub open spec fn has_comment(s: Seq<char>) -> bool {
    exists|i: int, j: int| opens_at(s, i) && closes_at(s, j) && i + 4 <= j
}

/// The characters of `s` below `n` whose place is marked in `keep`, in order.
pub open spec fn retain(s: Seq<char>, keep: Seq<bool>, n: int) -> Seq<char>
    decreases n,
{
    if n <= 0 {
        Seq::empty()
    } else if keep[n - 1] {
        retain(s, keep, n - 1).push(s[n - 1])
    } else {
        retain(s, keep, n - 1)
    }
}

/// Whether no newline stands in `s` from `a` up to, not including, `b`.
pub open spec fn no_newline(s: Seq<char>, a: int, b: int) -> bool {
    forall|m: int| a <= m < b ==> #[trigger] s[m] != '\n'
}

/// Whether `i` and `k` are places of one line of `s`.
pub open spec fn same_line(s: Seq<char>, i: int, k: int) -> bool {
    if i <= k {
        no_newline(s, i, k + 1)
    } else {
        no_newline(s, k, i + 1)
    }
}

/// Whether `i` is a place in a line of `s` that holds whitespace only. The
/// newline that ends a line is not a place in it.
pub open spec fn in_blank_line(s: Seq<char>, i: int) -> bool {
    &&& s[i] != '\n'
    &&& forall|k: int| 0 <= k < s.len() && #[trigger] same_line(s, i, k) ==> white_space(s[k])
}

/// For each place of `s`, whether it is outside the whitespace-only lines.
pub open spec fn outside_blank_lines(s: Seq<char>) -> Seq<bool> {
    Seq::new(s.len(), |i: int| !in_blank_line(s, i))
}

/// `s` with every line that holds whitespace only made empty.
pub open spec fn blank_lines_cleared(s: Seq<char>) -> Seq<char> {
    retain(s, outside_blank_lines(s), s.len() as int)
}

/// Whether `i` holds a newline that directly follows two newlines.
pub open spec fn third_newline(s: Seq<char>, i: int) -> bool {
    &&& 2 <= i < s.len()
    &&& s[i] == '\n'
    &&& s[i - 1] == '\n'
    &&& s[i - 2] == '\n'
}

/// For each place of `s`, whether it is not a newline after two newlines.
pub open spec fn within_two_newlines(s: Seq<char>) -> Seq<bool> {
    Seq::new(s.len(), |i: int| !third_newline(s, i))
}

/// `s` with every run of three or more newlines cut down to two.
pub open spec fn newlines_collapsed(s: Seq<char>) -> Seq<char> {
    retain(s, within_two_newlines(s), s.len() as int)
}

/// `s` with its comments taken out, its whitespace-only lines emptied, its
/// runs of newlines cut to two, and its ends trimmed.
pub open spec fn stripped(s: Seq<char>) -> Seq<char> {
    trim(newlines_collapsed(blank_lines_cleared(without_comments(s))))
}

/// Where no comment closes at or after `from`, none closes further on.
pub proof fn lemma_no_close_later(s: Seq<char>, from: int, later: int)
    requires
        0 <= from <= later,
        next_close(s, from) >= s.len(),
    ensures
        next_close(s, later) >= s.len(),
        forall|j: int| from <= j ==> !closes_at(s, j),
{
    lemma_next_close(s, from);
    lemma_next_close(s, later);
}

/// `next_close` names the first closing at or after `from`.
pub proof fn lemma_next_close(s: Seq<char>, from: int)
    requires
        0 <= from,
    ensures
        from <= next_close(s, from) || next_close(s, from) == s.len(),
        next_close(s, from) <= s.len(),
        next_close(s, from) < s.len() ==> closes_at(s, next_close(s, from)),
        forall|j: int| from <= j < next_close(s, from) ==> !closes_at(s, j),
        next_close(s, from) >= s.len() ==> forall|j: int| from <= j ==> !closes_at(s, j),
    decreases s.len() - from,
{
    if from < s.len() && !closes_at(s, from) {
        lemma_next_close(s, from + 1);
    }
}

/// From a place on after which no opening has a closing, nothing is taken out.
pub proof fn lemma_nothing_to_remove(s: Seq<char>, from: int)
    requires
        0 <= from <= s.len(),
        forall|i: int| from <= i && opens_at(s, i) ==> next_close(s, i + 4) >= s.len(),
    ensures
        without_comments_from(s, from) == s.subrange(from, s.len() as int),
    decreases s.len() - from,
{
    if from < s.len() {
        lemma_nothing_to_remove(s, from + 1);
        assert(s.subrange(from, s.len() as int) =~= seq![s[from]] + s.subrange(
            from + 1,
            s.len() as int,
        ));
    } else {
        assert(s.subrange(from, s.len() as int) =~= Seq::<char>::empty());
    }
}

/// Keeping a stretch whose every place is marked appends the stretch.
pub proof fn lemma_retain_all(s: Seq<char>, keep: Seq<bool>, a: int, b: int)
    requires
        0 <= a <= b <= s.len(),
        forall|k: int| a <= k < b ==> #[trigger] keep[k],
    ensures
        retain(s, keep, b) == retain(s, keep, a) + s.subrange(a, b),
    decreases b - a,
{
    if a < b {
        lemma_retain_all(s, keep, a, b - 1);
        assert(s.subrange(a, b) =~= s.subrange(a, b - 1).push(s[b - 1]));
        assert(retain(s, keep, a) + s.subrange(a, b - 1).push(s[b - 1]) =~= (retain(s, keep, a)
            + s.subrange(a, b - 1)).push(s[b - 1]));
    } else {
        assert(retain(s, keep, a) + s.subrange(a, b) =~= retain(s, keep, a));
    }
}

/// Keeping a stretch none of whose places is marked appends nothing.
pub proof fn lemma_retain_none(s: Seq<char>, keep: Seq<bool>, a: int, b: int)
    requires
        0 <= a <= b <= s.len(),
        forall|k: int| a <= k < b ==> !#[trigger] keep[k],
    ensures
        retain(s, keep, b) == retain(s, keep, a),
    decreases b - a,
{
    if a < b {
        lemma_retain_none(s, keep, a, b - 1);
    }
}

/// The places of a line are blank together: all of them or none.
pub proof fn lemma_line_blank(s: Seq<char>, a: int, b: int, i: int)
    requires
        0 <= a <= i < b <= s.len(),
        a == 0 || s[a - 1] == '\n',
        b == s.len() || s[b] == '\n',
        no_newline(s, a, b),
    ensures
        in_blank_line(s, i) <==> forall|k: int| a <= k < b ==> white_space(#[trigger] s[k]),
{
    if in_blank_line(s, i) {
        assert forall|k: int| a <= k < b implies white_space(#[trigger] s[k]) by {
            assert(same_line(s, i, k));
        }
    }
    if forall|k: int| a <= k < b ==> white_space(#[trigger] s[k]) {
        assert forall|k: int| 0 <= k < s.len() && #[trigger] same_line(s, i, k) implies white_space(
            s[k],
        ) by {
            if k < a {
                assert(s[a - 1] == '\n');
            } else if k >= b {
                assert(s[b] == '\n');
            }
        }
    }
}

fn opens(v: &Vec<char>, i: usize) -> (b: bool)
    requires
        i <= v.len(),
    ensures
        b == opens_at(v@, i as int),
{
    v.len() - i >= 4 && v[i] == '<' && v[i + 1] == '!' && v[i + 2] == '-' && v[i + 3] == '-'
}

fn closes(v: &Vec<char>, j: usize) -> (b: bool)
    requires
        j <= v.len(),
    ensures
        b == closes_at(v@, j as int),
{
    v.len() - j >= 3 && v[j] == '-' && v[j + 1] == '-' && v[j + 2] == '>'
}

fn find_close(v: &Vec<char>, from: usize) -> (j: usize)
    requires
        from <= v.len(),
    ensures
        j == next_close(v@, from as int),
        from <= j <= v.len(),
{
    let mut j: usize = from;
    while j < v.len() && !closes(v, j)
        invariant
            from <= j <= v.len(),
            next_close(v@, from as int) == next_close(v@, j as int),
        decreases v.len() - j,
    {
        j += 1;
    }
    j
}

/// Takes every comment out of `v`.
pub fn remove_comments(v: &Vec<char>) -> (r: Vec<char>)
    ensures
        r@ == without_comments(v@),
{
    let n = v.len();
    let mut r: Vec<char> = Vec::new();
    let mut i: usize = 0;
    // Once an opening finds no closing after it, no later opening can find
    // one either, and the search is not made again.
    let mut unclosed = false;
    let ghost mut bound: int = 0;
    while i < n
        invariant
            i <= n == v.len(),
            without_comments(v@) == r@ + without_comments_from(v@, i as int),
            unclosed ==> 0 <= bound <= i + 4 && next_close(v@, bound) >= n,
        decreases n - i,
    {
        let mut end: usize = n;
        if !unclosed && opens(v, i) {
            end = find_close(v, i + 4);
            unclosed = end >= n;
            proof {
                bound = i + 4;
            }
        }
        proof {
            lemma_next_close(v@, i + 4);
            if unclosed {
                lemma_no_close_later(v@, bound, i + 4);
            }
        }
        if end < n {
            i = end + 3;
        } else {
            r.push(v[i]);
            proof {
                assert(r@ + without_comments_from(v@, i + 1) =~= r@.drop_last() + (seq![v@[i as int]]
                    + without_comments_from(v@, i + 1)));
            }
            i += 1;
        }
    }
    assert(r@ + Seq::<char>::empty() =~= r@);
    r
}

/// Empties every line of `v` that holds whitespace only.
pub fn clear_blank_lines(v: &Vec<char>) -> (r: Vec<char>)
    ensures
        r@ == blank_lines_cleared(v@),
{
    let n = v.len();
    let ghost keep = outside_blank_lines(v@);
    let mut r: Vec<char> = Vec::new();
    let mut a: usize = 0;
    while a < n
        invariant
            a <= n == v.len(),
            keep == outside_blank_lines(v@),
            a < n ==> a == 0 || v@[a - 1] == '\n',
            r@ == retain(v@, keep, a as int),
        decreases n - a,
    {
        let mut b: usize = a;
        let mut blank = true;
        while b < n && v[b] != '\n'
            invariant
                a <= b <= n == v.len(),
                no_newline(v@, a as int, b as int),
                blank <==> forall|k: int| a <= k < b ==> white_space(#[trigger] v@[k]),
            decreases n - b,
        {
            if !is_whitespace(v[b]) {
                blank = false;
            }
            b += 1;
        }
        proof {
            assert forall|k: int| a <= k < b implies keep[k] == !blank by {
                lemma_line_blank(v@, a as int, b as int, k);
            }
            if blank {
                lemma_retain_none(v@, keep, a as int, b as int);
            } else {
                lemma_retain_all(v@, keep, a as int, b as int);
            }
        }
        if !blank {
            let ghost before = r@;
            let mut k: usize = a;
            while k < b
                invariant
                    a <= k <= b <= n == v.len(),
                    r@ == before + v@.subrange(a as int, k as int),
                decreases b - k,
            {
                r.push(v[k]);
                k += 1;
                assert(before + v@.subrange(a as int, k as int) =~= (before + v@.subrange(
                    a as int,
                    k - 1,
                )).push(v@[k - 1]));
            }
            assert(before + v@.subrange(a as int, a as int) =~= before);
        }
        if b < n {
            r.push('\n');
            a = b + 1;
        } else {
            a = n;
        }
    }
    r
}

/// Cuts every run of three or more newlines in `v` down to two.
pub fn collapse_newlines(v: &Vec<char>) -> (r: Vec<char>)
    ensures
        r@ == newlines_collapsed(v@),
{
    let n = v.len();
    let ghost keep = within_two_newlines(v@);
    let mut r: Vec<char> = Vec::new();
    let mut i: usize = 0;
    while i < n
        invariant
            i <= n == v.len(),
            keep == within_two_newlines(v@),
            r@ == retain(v@, keep, i as int),
        decreases n - i,
    {
        if !(i >= 2 && v[i] == '\n' && v[i - 1] == '\n' && v[i - 2] == '\n') {
            r.push(v[i]);
        }
        i += 1;
    }
    r
}

/// Strips the comments from `v` and tidies what is left.
pub fn strip_chars(v: &Vec<char>) -> (r: Vec<char>)
    ensures
        r@ == stripped(v@),
{
    let bare = remove_comments(v);
    let cleared = clear_blank_lines(&bare);
    let collapsed = collapse_newlines(&cleared);
    trim_chars(&collapsed)
}

} // verus!
