//! Character-level helpers on strings: white space, trimming, searching and
//! comparison. A string is modelled by its sequence of characters.

use std::string::FromUtf8Error;
use vstd::prelude::*;
use vstd::utf8::*;

verus! {

#[verifier::external_type_specification]
#[verifier::external_body]
pub struct ExFromUtf8Error(FromUtf8Error);

/// `String::from_utf8` succeeds exactly on well-formed UTF-8, and the string
/// it returns holds the characters that the bytes encode. The bytes that
/// the error hands back are not described.
pub assume_specification[ String::from_utf8 ](vec: Vec<u8>) -> (res: Result<String, FromUtf8Error>)
    ensures
        res is Ok <==> valid_utf8(vec@),
        res matches Ok(s) ==> s@ == decode_utf8(vec@),
;

/// White space in the sense of the Unicode property `White_Space`.
pub open spec fn is_white_space(c: char) -> bool {
    let u = c as u32;
    ||| 0x09 <= u <= 0x0d
    ||| u == 0x20
    ||| u == 0x85
    ||| u == 0xa0
    ||| u == 0x1680
    ||| 0x2000 <= u <= 0x200a
    ||| u == 0x2028
    ||| u == 0x2029
    ||| u == 0x202f
    ||| u == 0x205f
    ||| u == 0x3000
}

/// The first index at or after `i` that holds no white space, or the length.
pub open spec fn skip_white(s: Seq<char>, i: int) -> int
    decreases s.len() - i,
{
    if 0 <= i < s.len() && is_white_space(s[i]) {
        skip_white(s, i + 1)
    } else {
        i
    }
}

/// The smallest end `k <= j` such that `s[k..j]` is all white space.
pub open spec fn drop_white(s: Seq<char>, j: int) -> int
    decreases j,
{
    if 0 < j <= s.len() && is_white_space(s[j - 1]) {
        drop_white(s, j - 1)
    } else {
        j
    }
}

/// `s` without its leading and trailing white space.
pub open spec fn trimmed(s: Seq<char>) -> Seq<char> {
    let start = skip_white(s, 0);
    let end = drop_white(s, s.len() as int);
    if start <= end {
        s.subrange(start, end)
    } else {
        Seq::empty()
    }
}

/// The first index at or after `i` at which `s` holds `c`, or the length of
/// `s` where there is none.
pub open spec fn find_from(s: Seq<char>, c: char, i: int) -> int
    decreases s.len() - i,
{
    if 0 <= i < s.len() && s[i] != c {
        find_from(s, c, i + 1)
    } else {
        i
    }
}

/// What [`find_from`] returns is the first occurrence.
pub proof fn lemma_find_from(s: Seq<char>, c: char, i: int)
    requires
        0 <= i <= s.len(),
    ensures
        i <= find_from(s, c, i) <= s.len(),
        find_from(s, c, i) < s.len() ==> s[find_from(s, c, i)] == c,
        forall|j: int| i <= j < find_from(s, c, i) ==> s[j] != c,
    decreases s.len() - i,
{
    if i < s.len() && s[i] != c {
        lemma_find_from(s, c, i + 1);
    }
}

/// The first occurrence at or after `i` is what [`find_from`] returns.
pub proof fn lemma_find_unique(s: Seq<char>, c: char, i: int, k: int)
    requires
        0 <= i <= k <= s.len(),
        forall|j: int| i <= j < k ==> s[j] != c,
        k < s.len() ==> s[k] == c,
    ensures
        find_from(s, c, i) == k,
    decreases k - i,
{
    if i < k {
        lemma_find_unique(s, c, i + 1, k);
    }
}

/// What [`skip_white`] and [`drop_white`] return bounds the white space on
/// either side.
pub proof fn lemma_trim_bounds(s: Seq<char>, i: int, j: int)
    requires
        0 <= i <= s.len(),
        0 <= j <= s.len(),
    ensures
        i <= skip_white(s, i) <= s.len(),
        0 <= drop_white(s, j) <= j,
        forall|k: int| i <= k < skip_white(s, i) ==> is_white_space(s[k]),
        forall|k: int| drop_white(s, j) <= k < j ==> is_white_space(s[k]),
        skip_white(s, i) < s.len() ==> !is_white_space(s[skip_white(s, i)]),
        drop_white(s, j) > 0 ==> !is_white_space(s[drop_white(s, j) - 1]),
    decreases s.len() - i + j,
{
    if i < s.len() && is_white_space(s[i]) {
        lemma_trim_bounds(s, i + 1, j);
    } else if 0 < j && is_white_space(s[j - 1]) {
        lemma_trim_bounds(s, i, j - 1);
    }
}

/// Whether `s` holds white space only.
pub open spec fn all_white(s: Seq<char>) -> bool {
    forall|i: int| 0 <= i < s.len() ==> is_white_space(#[trigger] s[i])
}

proof fn lemma_skip_white_unique(s: Seq<char>, i: int, k: int)
    requires
        0 <= i <= k <= s.len(),
        forall|j: int| i <= j < k ==> is_white_space(#[trigger] s[j]),
        k < s.len() ==> !is_white_space(s[k]),
    ensures
        skip_white(s, i) == k,
    decreases k - i,
{
    if i < k {
        lemma_skip_white_unique(s, i + 1, k);
    }
}

proof fn lemma_drop_white_unique(s: Seq<char>, j: int, k: int)
    requires
        0 <= k <= j <= s.len(),
        forall|i: int| k <= i < j ==> is_white_space(#[trigger] s[i]),
        k > 0 ==> !is_white_space(s[k - 1]),
    ensures
        drop_white(s, j) == k,
    decreases j - k,
{
    if k < j {
        lemma_drop_white_unique(s, j - 1, k);
    }
}

/// White space before and after a string does not change what is left of
/// it when it is trimmed.
pub proof fn lemma_trimmed_ignores_margin(before: Seq<char>, s: Seq<char>, after: Seq<char>)
    requires
        all_white(before),
        all_white(after),
    ensures
        trimmed(before + s + after) == trimmed(s),
{
    let t = before + s + after;
    let shift = before.len() as int;
    let n = s.len() as int;
    let start = skip_white(s, 0);
    let end = drop_white(s, n);
    lemma_trim_bounds(s, 0, n);
    // Outside of what is left of `s`, all of `t` is white space.
    assert forall|j: int| 0 <= j < t.len() && !(shift + start <= j < shift + end) implies is_white_space(
        #[trigger] t[j],
    ) by {}
    if start < n {
        lemma_skip_white_unique(t, 0, shift + start);
        lemma_drop_white_unique(t, t.len() as int, shift + end);
    } else {
        lemma_skip_white_unique(t, 0, t.len() as int);
        lemma_drop_white_unique(t, t.len() as int, 0);
    }
}

/// Whether `c` is white space.
pub fn is_whitespace(c: char) -> (r: bool)
    ensures
        r == is_white_space(c),
{
    let u: u32 = c as u32;
    (0x09 <= u && u <= 0x0d) || u == 0x20 || u == 0x85 || u == 0xa0 || u == 0x1680 || (0x2000 <= u
        && u <= 0x200a) || u == 0x2028 || u == 0x2029 || u == 0x202f || u == 0x205f || u == 0x3000
}

/// The characters of a string, in order.
pub fn chars_of(s: &str) -> (v: Vec<char>)
    ensures
        v@ == s@,
{
    let mut v: Vec<char> = Vec::new();
    for c in it: s.chars()
        invariant
            it.seq() == s@,
            v@ == s@.take(it.index() as int),
    {
        v.push(c);
    }
    v
}

/// The index of the first `c` in `v[from..to]`, or `to` where there is none.
pub fn find_char(v: &Vec<char>, c: char, from: usize, to: usize) -> (k: usize)
    requires
        from <= to <= v@.len(),
    ensures
        from <= k <= to,
        k < to ==> v@[k as int] == c,
        forall|j: int| from <= j < k ==> v@[j] != c,
{
    let mut k: usize = from;
    while k < to && v[k] != c
        invariant
            from <= k <= to <= v@.len(),
            forall|j: int| from <= j < k ==> v@[j] != c,
        decreases to - k,
    {
        k = k + 1;
    }
    k
}

/// `s` without its leading and trailing white space.
pub fn trim(s: &str) -> (t: &str)
    ensures
        t@ == trimmed(s@),
{
    let v = chars_of(s);
    let n: usize = v.len();
    let mut start: usize = 0;
    while start < n && is_whitespace(v[start])
        invariant
            start <= n,
            n == v@.len(),
            skip_white(v@, 0) == skip_white(v@, start as int),
        decreases n - start,
    {
        start = start + 1;
    }
    let mut end: usize = n;
    while end > 0 && is_whitespace(v[end - 1])
        invariant
            end <= n,
            n == v@.len(),
            drop_white(v@, n as int) == drop_white(v@, end as int),
        decreases end,
    {
        end = end - 1;
    }
    if start <= end {
        s.substring_char(start, end)
    } else {
        s.substring_char(0, 0)
    }
}

/// Whether two strings hold the same characters.
pub fn str_eq(a: &str, b: &str) -> (r: bool)
    ensures
        r == (a@ == b@),
{
    broadcast use encode_utf8_decode_utf8;

    let x = a.as_bytes();
    let y = b.as_bytes();
    let n: usize = x.len();
    if n != y.len() {
        return false;
    }
    let mut i: usize = 0;
    while i < n
        invariant
            i <= n,
            n == x@.len(),
            n == y@.len(),
            x@ == encode_utf8(a@),
            y@ == encode_utf8(b@),
            forall|j: int| 0 <= j < i ==> x@[j] == y@[j],
        decreases n - i,
    {
        if x[i] != y[i] {
            return false;
        }
        i = i + 1;
    }
    assert(x@ =~= y@);
    assert(a@ == decode_utf8(x@) && b@ == decode_utf8(y@));
    true
}

} // verus!
