//! Characters and whitespace: the vocabulary shared by the identity resolver
//! and the comment stripper.

use vstd::prelude::*;

verus! {

/// Whether `c` has the Unicode `White_Space` property.
pub open spec fn white_space(c: char) -> bool {
    let u = c as u32;
    ||| 0x09 <= u <= 0x0D
    ||| u == 0x20
    ||| u == 0x85
    ||| u == 0xA0
    ||| u == 0x1680
    ||| 0x2000 <= u <= 0x200A
    ||| u == 0x2028
    ||| u == 0x2029
    ||| u == 0x202F
    ||| u == 0x205F
    ||| u == 0x3000
}

/// The first index at or after `from` that holds a character other than
/// whitespace; the length of `s` if there is none.
pub open spec fn first_visible(s: Seq<char>, from: int) -> int
    decreases s.len() - from,
{
    if from >= s.len() {
        s.len() as int
    } else if !white_space(s[from]) {
        from
    } else {
        first_visible(s, from + 1)
    }
}

/// One past the last index below `upto` that holds a character other than
/// whitespace; 0 if there is none.
pub open spec fn last_visible_end(s: Seq<char>, upto: int) -> int
    decreases upto,
{
    if upto <= 0 {
        0
    } else if !white_space(s[upto - 1]) {
        upto
    } else {
        last_visible_end(s, upto - 1)
    }
}

/// `s` without its leading and trailing whitespace.
pub open spec fn trim(s: Seq<char>) -> Seq<char> {
    let a = first_visible(s, 0);
    let b = last_visible_end(s, s.len() as int);
    if a < b {
        s.subrange(a, b)
    } else {
        Seq::empty()
    }
}

/// Whether `s` neither starts nor ends with whitespace.
pub open spec fn is_trimmed(s: Seq<char>) -> bool {
    s.len() > 0 ==> !white_space(s[0]) && !white_space(s[s.len() - 1])
}

/// `first_visible` names the first visible character at or after `from`.
pub proof fn lemma_first_visible(s: Seq<char>, from: int)
    requires
        0 <= from <= s.len(),
    ensures
        from <= first_visible(s, from) <= s.len(),
        forall|k: int| from <= k < first_visible(s, from) ==> white_space(#[trigger] s[k]),
        first_visible(s, from) < s.len() ==> !white_space(s[first_visible(s, from)]),
    decreases s.len() - from,
{
    if from < s.len() && white_space(s[from]) {
        lemma_first_visible(s, from + 1);
    }
}

/// `last_visible_end` names the end of the last visible character below `upto`.
pub proof fn lemma_last_visible_end(s: Seq<char>, upto: int)
    requires
        0 <= upto <= s.len(),
    ensures
        0 <= last_visible_end(s, upto) <= upto,
        forall|k: int| last_visible_end(s, upto) <= k < upto ==> white_space(#[trigger] s[k]),
        last_visible_end(s, upto) > 0 ==> !white_space(s[last_visible_end(s, upto) - 1]),
    decreases upto,
{
    if upto > 0 && white_space(s[upto - 1]) {
        lemma_last_visible_end(s, upto - 1);
    }
}

/// What trimming leaves is a stretch of the text, bounded by visible
/// characters; it leaves nothing only of a text that is all whitespace.
pub proof fn lemma_trim_bounds(s: Seq<char>)
    ensures
        is_trimmed(trim(s)),
        trim(s).len() > 0 ==> {
            let a = first_visible(s, 0);
            let b = last_visible_end(s, s.len() as int);
            &&& 0 <= a < b <= s.len()
            &&& trim(s) == s.subrange(a, b)
            &&& !white_space(s[a])
            &&& !white_space(s[b - 1])
        },
        trim(s).len() == 0 ==> forall|k: int| 0 <= k < s.len() ==> white_space(#[trigger] s[k]),
{
    lemma_first_visible(s, 0);
    lemma_last_visible_end(s, s.len() as int);
}

/// Trimming a text that is already trimmed changes nothing.
pub proof fn lemma_trim_fixed(s: Seq<char>)
    requires
        is_trimmed(s),
    ensures
        trim(s) == s,
{
    if s.len() > 0 {
        assert(s.subrange(0, s.len() as int) =~= s);
    } else {
        assert(trim(s) =~= s);
    }
}

/// Whether `c` is whitespace.
pub fn is_whitespace(c: char) -> (b: bool)
    ensures
        b == white_space(c),
{
    let u: u32 = c as u32;
    (0x09 <= u && u <= 0x0D) || u == 0x20 || u == 0x85 || u == 0xA0 || u == 0x1680 || (0x2000 <= u
        && u <= 0x200A) || u == 0x2028 || u == 0x2029 || u == 0x202F || u == 0x205F || u == 0x3000
}

/// The characters of `s`.
pub fn chars_of(s: &str) -> (v: Vec<char>)
    ensures
        v@ == s@,
{
    let mut v: Vec<char> = Vec::new();
    for c in it: s.chars()
        invariant
            it.seq() == s@,
            v@ == it.seq().take(it.index() as int),
    {
        v.push(c);
    }
    v
}

/// Appends one character with `String::push`, which puts `c` at the end of
/// `s` and leaves what was there in place.
#[verifier::external_body]
fn push_char(s: &mut String, c: char)
    ensures
        final(s)@ == old(s)@.push(c),
{
    s.push(c)
}

/// The string made of the characters of `v`.
pub fn string_of(v: &Vec<char>) -> (s: String)
    ensures
        s@ == v@,
{
    let mut s = String::new();
    let mut i: usize = 0;
    while i < v.len()
        invariant
            i <= v.len(),
            s@ == v@.take(i as int),
        decreases v.len() - i,
    {
        push_char(&mut s, v[i]);
        i += 1;
        assert(v@.take(i as int) =~= v@.take(i - 1).push(v@[i - 1]));
    }
    assert(v@.take(v.len() as int) =~= v@);
    s
}

/// `v` without its leading and trailing whitespace.
pub fn trim_chars(v: &Vec<char>) -> (r: Vec<char>)
    ensures
        r@ == trim(v@),
{
    let n = v.len();
    let mut a: usize = 0;
    while a < n && is_whitespace(v[a])
        invariant
            a <= n == v.len(),
            first_visible(v@, 0) == first_visible(v@, a as int),
        decreases n - a,
    {
        a += 1;
    }
    let mut b: usize = n;
    while b > 0 && is_whitespace(v[b - 1])
        invariant
            b <= n == v.len(),
            last_visible_end(v@, n as int) == last_visible_end(v@, b as int),
        decreases b,
    {
        b -= 1;
    }
    let mut r: Vec<char> = Vec::new();
    let mut i: usize = a;
    while i < b
        invariant
            a <= i,
            b <= n == v.len(),
            a < b ==> i <= b,
            a < b ==> r@ == v@.subrange(a as int, i as int),
            a >= b ==> r@ == Seq::<char>::empty(),
        decreases b - i,
    {
        r.push(v[i]);
        i += 1;
        assert(v@.subrange(a as int, i as int) =~= v@.subrange(a as int, i - 1).push(v@[i - 1]));
    }
    assert(a < b ==> v@.subrange(a as int, a as int) =~= Seq::<char>::empty());
    r
}

} // verus!
