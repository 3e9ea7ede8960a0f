//! Character-level primitives on strings, stated over `Seq<char>` views.

use vstd::prelude::*;

verus! {

/// Whether `c` has the Unicode `White_Space` property: the controls U+0009 to
/// U+000D, the space, U+0085, the no-break space U+00A0, U+1680, the spaces
/// U+2000 to U+200A, the line and paragraph separators U+2028 and U+2029,
/// U+202F, U+205F and the ideographic space U+3000.
pub open spec fn char_is_whitespace(c: char) -> bool {
    ||| ('\u{9}' <= c && c <= '\u{d}')
    ||| c == ' '
    ||| c == '\u{85}'
    ||| c == '\u{a0}'
    ||| c == '\u{1680}'
    ||| ('\u{2000}' <= c && c <= '\u{200a}')
    ||| c == '\u{2028}'
    ||| c == '\u{2029}'
    ||| c == '\u{202f}'
    ||| c == '\u{205f}'
    ||| c == '\u{3000}'
}

/// What `char::is_alphanumeric` answers for `c`: whether `c` is alphabetic or
/// numeric in the Unicode sense.
pub uninterp spec fn char_is_alphanumeric(c: char) -> bool;

/// Calls `char::is_whitespace`. Its documentation defines the answer as the
/// Unicode `White_Space` property, whose code points `char_is_whitespace` lists.
#[verifier::external_body]
pub fn is_whitespace(c: char) -> (r: bool)
    ensures
        r == char_is_whitespace(c),
{
    c.is_whitespace()
}

/// Calls `char::is_alphanumeric`, which answers whether `c` is alphabetic or
/// numeric. The contract names that answer and states the ASCII cases that the
/// documentation plainly gives: ASCII letters and digits are alphanumeric, and
/// the ASCII punctuation `-`, `_`, `/` and the space are not.
#[verifier::external_body]
pub fn is_alphanumeric(c: char) -> (r: bool)
    ensures
        r == char_is_alphanumeric(c),
        is_ascii_alphanumeric(c) ==> r,
        (c == '-' || c == '_' || c == '/' || c == ' ') ==> !r,
{
    c.is_alphanumeric()
}

/// Calls `String::push`, which appends `c` at the end of `s`.
#[verifier::external_body]
pub fn string_push(s: &mut String, c: char)
    ensures
        final(s)@ == old(s)@.push(c),
{
    s.push(c)
}

/// Calls `String::pop`, which removes and returns the last character of `s`,
/// or returns `None` and leaves `s` as it is when `s` is empty.
#[verifier::external_body]
pub fn string_pop(s: &mut String) -> (r: Option<char>)
    ensures
        old(s)@.len() == 0 ==> r is None && final(s)@ == old(s)@,
        old(s)@.len() > 0 ==> r == Some(old(s)@.last()) && final(s)@ == old(s)@.drop_last(),
{
    s.pop()
}

/// An ASCII decimal digit `0`..=`9`.
pub open spec fn is_ascii_digit(c: char) -> bool {
    '0' <= c && c <= '9'
}

/// An ASCII letter or decimal digit.
pub open spec fn is_ascii_alphanumeric(c: char) -> bool {
    ||| ('a' <= c && c <= 'z')
    ||| ('A' <= c && c <= 'Z')
    ||| is_ascii_digit(c)
}

/// `p` occurs in `s` as a contiguous run of characters.
pub open spec fn has_infix(s: Seq<char>, p: Seq<char>) -> bool {
    exists|k: int| 0 <= k && k + p.len() <= s.len() && #[trigger] s.subrange(k, k + p.len()) == p
}

/// `s` without its leading white space.
pub open spec fn trim_start_seq(s: Seq<char>) -> Seq<char>
    decreases s.len(),
{
    if s.len() > 0 && char_is_whitespace(s[0]) {
        trim_start_seq(s.drop_first())
    } else {
        s
    }
}

/// `s` without its trailing white space.
pub open spec fn trim_end_seq(s: Seq<char>) -> Seq<char>
    decreases s.len(),
{
    if s.len() > 0 && char_is_whitespace(s.last()) {
        trim_end_seq(s.drop_last())
    } else {
        s
    }
}

/// `s` without leading and trailing white space.
pub open spec fn trim_seq(s: Seq<char>) -> Seq<char> {
    trim_end_seq(trim_start_seq(s))
}

/// `trim_start_seq` is empty exactly when every character is white space.
pub proof fn lemma_trim_start_empty(s: Seq<char>)
    ensures
        (trim_start_seq(s).len() == 0) <==> (forall|j: int| 0 <= j < s.len() ==> #[trigger] char_is_whitespace(s[j])),
    decreases s.len(),
{
    if s.len() > 0 && char_is_whitespace(s[0]) {
        lemma_trim_start_empty(s.drop_first());
        if trim_start_seq(s).len() == 0 {
            assert forall|j: int| 0 <= j < s.len() implies #[trigger] char_is_whitespace(s[j]) by {
                if j > 0 {
                    assert(s[j] == s.drop_first()[j - 1]);
                }
            }
        } else {
            let t = s.drop_first();
            if forall|j: int| 0 <= j < s.len() ==> #[trigger] char_is_whitespace(s[j]) {
                assert forall|j: int| 0 <= j < t.len() implies #[trigger] char_is_whitespace(t[j]) by {
                    assert(t[j] == s[j + 1]);
                }
            }
        }
    } else if s.len() > 0 {
        assert(!char_is_whitespace(s[0]));
    }
}

/// Trimming removes white space from the two ends only: the result is the
/// part of `s` from `b` to `e`, everything before `b` and from `e` on is white
/// space, and a non-empty result starts and ends with a character that is not.
pub proof fn lemma_trim_keeps_the_middle(s: Seq<char>)
    ensures
        exists|b: int, e: int|
            0 <= b <= e <= s.len() && trim_seq(s) == s.subrange(b, e) && (forall|j: int|
                0 <= j < b ==> char_is_whitespace(#[trigger] s[j])) && (forall|j: int|
                e <= j < s.len() ==> char_is_whitespace(#[trigger] s[j])) && (b < e ==> (
            !char_is_whitespace(s[b]) && !char_is_whitespace(s[e - 1]))),
{
    let b = lemma_trim_start_index(s);
    let t = s.skip(b);
    let k = lemma_trim_end_index(t);
    let e = b + k;
    assert(trim_seq(s) =~= s.subrange(b, e));
    assert forall|j: int| e <= j < s.len() implies char_is_whitespace(#[trigger] s[j]) by {
        assert(s[j] == t[j - b]);
    }
    if b < e {
        assert(s[b] == t[0]);
        assert(s[e - 1] == t[k - 1]);
    }
    assert(0 <= b <= e <= s.len() && trim_seq(s) == s.subrange(b, e) && (forall|j: int|
        0 <= j < b ==> char_is_whitespace(#[trigger] s[j])) && (forall|j: int|
        e <= j < s.len() ==> char_is_whitespace(#[trigger] s[j])) && (b < e ==> (
    !char_is_whitespace(s[b]) && !char_is_whitespace(s[e - 1]))));
}

proof fn lemma_trim_start_index(s: Seq<char>) -> (b: int)
    ensures
        0 <= b <= s.len(),
        trim_start_seq(s) == s.skip(b),
        forall|j: int| 0 <= j < b ==> char_is_whitespace(#[trigger] s[j]),
        b < s.len() ==> !char_is_whitespace(s[b]),
    decreases s.len(),
{
    if s.len() > 0 && char_is_whitespace(s[0]) {
        let t = s.drop_first();
        let b1 = lemma_trim_start_index(t);
        assert(t.skip(b1) =~= s.skip(b1 + 1));
        assert forall|j: int| 0 <= j < b1 + 1 implies char_is_whitespace(#[trigger] s[j]) by {
            if j > 0 {
                assert(s[j] == t[j - 1]);
            }
        }
        if b1 + 1 < s.len() {
            assert(s[b1 + 1] == t[b1]);
        }
        b1 + 1
    } else {
        assert(s.skip(0) =~= s);
        0
    }
}

proof fn lemma_trim_end_index(s: Seq<char>) -> (e: int)
    ensures
        0 <= e <= s.len(),
        trim_end_seq(s) == s.take(e),
        forall|j: int| e <= j < s.len() ==> char_is_whitespace(#[trigger] s[j]),
        e > 0 ==> !char_is_whitespace(s[e - 1]),
    decreases s.len(),
{
    if s.len() > 0 && char_is_whitespace(s.last()) {
        let t = s.drop_last();
        let e1 = lemma_trim_end_index(t);
        assert(t.take(e1) =~= s.take(e1));
        assert forall|j: int| e1 <= j < s.len() implies char_is_whitespace(#[trigger] s[j]) by {
            if j < s.len() - 1 {
                assert(s[j] == t[j]);
            }
        }
        if e1 > 0 {
            assert(s[e1 - 1] == t[e1 - 1]);
        }
        e1
    } else {
        assert(s.take(s.len() as int) =~= s);
        s.len() as int
    }
}

/// Copies the characters of `s` into a vector, in order.
pub fn chars_of(s: &str) -> (v: Vec<char>)
    ensures
        v@ == s@,
{
    let mut v: Vec<char> = Vec::new();
    for c in it: s.chars()
        invariant
            it.seq() == s@,
            v@ == s@.take(it.index() as int),
    {
        v.push(c);
    }
    v
}

/// Whether `s` holds the character `c`.
pub fn str_contains_char(s: &str, c: char) -> (r: bool)
    ensures
        r == s@.contains(c),
{
    let v = chars_of(s);
    let n = v.len();
    let mut i: usize = 0;
    while i < n
        invariant
            n == v@.len(),
            v@ == s@,
            i <= n,
            forall|j: int| 0 <= j < i ==> v@[j] != c,
        decreases n - i,
    {
        if v[i] == c {
            return true;
        }
        i += 1;
    }
    false
}

/// Whether the run `p` occurs at position `k` of `s`.
fn matches_at(s: &Vec<char>, p: &Vec<char>, k: usize) -> (r: bool)
    requires
        k + p@.len() <= s@.len(),
    ensures
        r == (s@.subrange(k as int, k + p@.len()) == p@),
{
    let m = p.len();
    let mut j: usize = 0;
    while j < m
        invariant
            m == p@.len(),
            k + m <= s@.len(),
            k + m <= s.len(),
            j <= m,
            forall|t: int| 0 <= t < j ==> s@[k + t] == p@[t],
        decreases m - j,
    {
        if s[k + j] != p[j] {
            assert(s@.subrange(k as int, k + p@.len())[j as int] != p@[j as int]);
            return false;
        }
        j += 1;
    }
    assert(s@.subrange(k as int, k + p@.len()) =~= p@);
    true
}

/// Whether the text `p` occurs in `s`.
pub fn str_contains(s: &str, p: &str) -> (r: bool)
    ensures
        r == has_infix(s@, p@),
{
    let sv = chars_of(s);
    let pv = chars_of(p);
    let n = sv.len();
    let m = pv.len();
    if m == 0 {
        assert(p@.len() == 0);
        assert(s@.subrange(0int, 0int + p@.len()) =~= p@);
        return true;
    }
    if m > n {
        return false;
    }
    let mut k: usize = 0;
    while k <= n - m
        invariant
            n == sv@.len(),
            m == pv@.len(),
            1 <= m <= n,
            sv@ == s@,
            pv@ == p@,
            k <= n - m + 1,
            forall|t: int| 0 <= t < k ==> #[trigger] s@.subrange(t, t + p@.len()) != p@,
        decreases n - k,
    {
        if matches_at(&sv, &pv, k) {
            return true;
        }
        k += 1;
    }
    false
}

/// The index one past the last character of `v[from..]` that is not white
/// space, at least `from`.
fn trimmed_end(v: &Vec<char>, from: usize) -> (e: usize)
    requires
        from <= v@.len(),
    ensures
        from <= e <= v@.len(),
        trim_end_seq(v@.subrange(from as int, v@.len() as int)) == v@.subrange(from as int, e as int),
{
    let mut e = v.len();
    while e > from
        invariant
            from <= e <= v@.len(),
            trim_end_seq(v@.subrange(from as int, v@.len() as int)) == trim_end_seq(
                v@.subrange(from as int, e as int),
            ),
        decreases e,
    {
        if !is_whitespace(v[e - 1]) {
            return e;
        }
        assert(v@.subrange(from as int, e as int).drop_last() =~= v@.subrange(
            from as int,
            e - 1,
        ));
        e -= 1;
    }
    e
}

/// The index of the first character of `v` that is not white space, or its length.
fn trimmed_start(v: &Vec<char>) -> (b: usize)
    ensures
        b <= v@.len(),
        trim_start_seq(v@) == v@.skip(b as int),
{
    let n = v.len();
    let mut b: usize = 0;
    assert(v@.skip(0) =~= v@);
    while b < n
        invariant
            n == v@.len(),
            b <= n,
            trim_start_seq(v@) == trim_start_seq(v@.skip(b as int)),
        decreases n - b,
    {
        if !is_whitespace(v[b]) {
            return b;
        }
        assert(v@.skip(b as int).drop_first() =~= v@.skip(b + 1));
        b += 1;
    }
    b
}

/// `s` without leading and trailing white space.
pub fn trim(s: &str) -> (r: &str)
    ensures
        r@ == trim_seq(s@),
{
    let v = chars_of(s);
    let b = trimmed_start(&v);
    let e = trimmed_end(&v, b);
    assert(v@.skip(b as int) =~= v@.subrange(b as int, v@.len() as int));
    s.substring_char(b, e)
}

/// Whether `v[from..]` holds a character that is not white space, that is,
/// whether it is non-empty once its leading white space is removed.
pub fn has_non_whitespace_from(v: &Vec<char>, from: usize) -> (r: bool)
    requires
        from <= v@.len(),
    ensures
        r == (trim_start_seq(v@.skip(from as int)).len() > 0),
{
    let n = v.len();
    let mut j = from;
    while j < n
        invariant
            n == v@.len(),
            from <= j <= n,
            forall|t: int| from <= t < j ==> char_is_whitespace(v@[t]),
        decreases n - j,
    {
        if !is_whitespace(v[j]) {
            let ghost t = v@.skip(from as int);
            assert(t[j - from] == v@[j as int]);
            assert(!char_is_whitespace(t[j - from]));
            proof {
                lemma_trim_start_empty(t);
            }
            return true;
        }
        j += 1;
    }
    assert forall|t: int| 0 <= t < v@.skip(from as int).len() implies #[trigger] char_is_whitespace(
        v@.skip(from as int)[t],
    ) by {
        assert(v@.skip(from as int)[t] == v@[from + t]);
    }
    proof {
        lemma_trim_start_empty(v@.skip(from as int));
    }
    false
}

} // verus!
