//! Removal of terminal escape sequences (CSI, OSC and two-character escapes).

use vstd::prelude::*;
use crate::text::string_push;
use crate::text::chars_of;

verus! {

/// The escape character that opens every sequence.
pub open spec fn esc() -> char {
    '\x1b'
}

/// What remains of `t` after the body of a CSI sequence: everything up to and
/// including the first character whose low byte is at least `0x40` (the final
/// byte) is consumed; without one, everything is.
pub open spec fn skip_csi(t: Seq<char>) -> Seq<char>
    decreases t.len(),
{
    if t.len() == 0 {
        t
    } else if t[0] as u8 >= 0x40 {
        t.drop_first()
    } else {
        skip_csi(t.drop_first())
    }
}

/// What remains of `t` after the body of an OSC sequence: it ends after a BEL,
/// after the string terminator `ESC \`, or at the end of the text. An escape
/// followed by any other character consumes that character too.
pub open spec fn skip_osc(t: Seq<char>) -> Seq<char>
    decreases t.len(),
{
    if t.len() == 0 {
        t
    } else if t[0] == '\x07' {
        t.drop_first()
    } else if t[0] == esc() {
        if t.len() == 1 {
            t.drop_first()
        } else if t[1] == '\\' {
            t.skip(2)
        } else {
            skip_osc(t.skip(2))
        }
    } else {
        skip_osc(t.drop_first())
    }
}

pub proof fn lemma_skip_csi_len(t: Seq<char>)
    ensures
        skip_csi(t).len() <= t.len(),
    decreases t.len(),
{
    if t.len() > 0 && !(t[0] as u8 >= 0x40) {
        lemma_skip_csi_len(t.drop_first());
    }
}

pub proof fn lemma_skip_osc_len(t: Seq<char>)
    ensures
        skip_osc(t).len() <= t.len(),
    decreases t.len(),
{
    if t.len() == 0 {
    } else if t[0] == '\x07' {
    } else if t[0] == esc() {
        if t.len() >= 2 && t[1] != '\\' {
            lemma_skip_osc_len(t.skip(2));
        }
    } else {
        lemma_skip_osc_len(t.drop_first());
    }
}

/// `s` with its escape sequences removed: an escape followed by `[` starts a
/// CSI sequence, by `]` an OSC sequence, by any other character a two-character
/// sequence; a trailing lone escape is dropped. Every other character is kept.
pub open spec fn strip_ansi(s: Seq<char>) -> Seq<char>
    decreases s.len(),
{
    if s.len() == 0 {
        s
    } else if s[0] == esc() {
        if s.len() == 1 {
            Seq::empty()
        } else if s[1] == '[' {
            proof {
                lemma_skip_csi_len(s.skip(2));
            }
            strip_ansi(skip_csi(s.skip(2)))
        } else if s[1] == ']' {
            proof {
                lemma_skip_osc_len(s.skip(2));
            }
            strip_ansi(skip_osc(s.skip(2)))
        } else {
            strip_ansi(s.skip(2))
        }
    } else {
        seq![s[0]] + strip_ansi(s.drop_first())
    }
}

/// Stripping leaves no escape character behind.
pub proof fn lemma_strip_ansi_has_no_escape(s: Seq<char>)
    ensures
        !strip_ansi(s).contains(esc()),
    decreases s.len(),
{
    if s.len() == 0 {
    } else if s[0] == esc() {
        if s.len() == 1 {
        } else if s[1] == '[' {
            lemma_skip_csi_len(s.skip(2));
            lemma_strip_ansi_has_no_escape(skip_csi(s.skip(2)));
        } else if s[1] == ']' {
            lemma_skip_osc_len(s.skip(2));
            lemma_strip_ansi_has_no_escape(skip_osc(s.skip(2)));
        } else {
            lemma_strip_ansi_has_no_escape(s.skip(2));
        }
    } else {
        lemma_strip_ansi_has_no_escape(s.drop_first());
        let r = strip_ansi(s.drop_first());
        assert forall|k: int| 0 <= k < (seq![s[0]] + r).len() implies (seq![s[0]] + r)[k] != esc() by {
            if k > 0 {
                assert((seq![s[0]] + r)[k] == r[k - 1]);
            }
        }
    }
}

/// Text without an escape character is left exactly as it is.
pub proof fn lemma_strip_ansi_plain_text(s: Seq<char>)
    requires
        !s.contains(esc()),
    ensures
        strip_ansi(s) == s,
    decreases s.len(),
{
    if s.len() > 0 {
        assert(s[0] != esc());
        let t = s.drop_first();
        assert forall|k: int| 0 <= k < t.len() implies t[k] != esc() by {
            assert(t[k] == s[k + 1]);
        }
        lemma_strip_ansi_plain_text(t);
        assert(seq![s[0]] + t =~= s);
    }
}

/// Stripping twice gives what stripping once gives.
pub proof fn lemma_strip_ansi_idempotent(s: Seq<char>)
    ensures
        strip_ansi(strip_ansi(s)) == strip_ansi(s),
{
    lemma_strip_ansi_has_no_escape(s);
    lemma_strip_ansi_plain_text(strip_ansi(s));
}

/// A CSI sequence (escape, `[`, characters whose low byte is below `0x40`, then
/// a final character whose low byte is at least `0x40`) disappears whole, and
/// what follows it is stripped on its own.
pub proof fn lemma_strip_csi(params: Seq<char>, fin: char, rest: Seq<char>)
    requires
        forall|j: int| 0 <= j < params.len() ==> ((#[trigger] params[j]) as u8) < 0x40,
        (fin as u8) >= 0x40,
    ensures
        strip_ansi(seq![esc(), '['] + params + seq![fin] + rest) == strip_ansi(rest),
{
    let s = seq![esc(), '['] + params + seq![fin] + rest;
    assert(s.skip(2) =~= params + (seq![fin] + rest));
    lemma_skip_csi_params(params, seq![fin] + rest);
    assert((seq![fin] + rest).drop_first() =~= rest);
}

proof fn lemma_skip_csi_params(params: Seq<char>, t: Seq<char>)
    requires
        forall|j: int| 0 <= j < params.len() ==> ((#[trigger] params[j]) as u8) < 0x40,
    ensures
        skip_csi(params + t) == skip_csi(t),
    decreases params.len(),
{
    if params.len() == 0 {
        assert(params + t =~= t);
    } else {
        let p1 = params.drop_first();
        assert forall|j: int| 0 <= j < p1.len() implies ((#[trigger] p1[j]) as u8) < 0x40 by {
            assert(p1[j] == params[j + 1]);
        }
        assert((params + t).drop_first() =~= p1 + t);
        assert((params + t)[0] == params[0]);
        lemma_skip_csi_params(p1, t);
    }
}

/// An OSC sequence (escape, `]`, a body without BEL or escape, then BEL or the
/// terminator escape-backslash) disappears whole, and what follows it is
/// stripped on its own.
pub proof fn lemma_strip_osc(body: Seq<char>, bel: bool, rest: Seq<char>)
    requires
        forall|j: int| 0 <= j < body.len() ==> #[trigger] body[j] != '\x07' && body[j] != esc(),
    ensures
        strip_ansi(seq![esc(), ']'] + body + (if bel {
            seq!['\x07']
        } else {
            seq![esc(), '\\']
        }) + rest) == strip_ansi(rest),
{
    let term: Seq<char> = if bel {
        seq!['\x07']
    } else {
        seq![esc(), '\\']
    };
    let s = seq![esc(), ']'] + body + term + rest;
    assert(s.skip(2) =~= body + (term + rest));
    lemma_skip_osc_body(body, term + rest);
    if bel {
        assert((term + rest).drop_first() =~= rest);
    } else {
        assert((term + rest).skip(2) =~= rest);
    }
}

proof fn lemma_skip_osc_body(body: Seq<char>, t: Seq<char>)
    requires
        forall|j: int| 0 <= j < body.len() ==> #[trigger] body[j] != '\x07' && body[j] != esc(),
    ensures
        skip_osc(body + t) == skip_osc(t),
    decreases body.len(),
{
    if body.len() == 0 {
        assert(body + t =~= t);
    } else {
        let b1 = body.drop_first();
        assert forall|j: int| 0 <= j < b1.len() implies #[trigger] b1[j] != '\x07' && b1[j]
            != esc() by {
            assert(b1[j] == body[j + 1]);
        }
        assert((body + t).drop_first() =~= b1 + t);
        assert((body + t)[0] == body[0]);
        lemma_skip_osc_body(b1, t);
    }
}

/// An escape followed by any character other than `[` and `]` is dropped
/// together with that character; a character other than escape is kept.
pub proof fn lemma_strip_short_escape_and_plain(x: char, rest: Seq<char>)
    ensures
        x != '[' && x != ']' ==> strip_ansi(seq![esc(), x] + rest) == strip_ansi(rest),
        x != esc() ==> strip_ansi(seq![x] + rest) == seq![x] + strip_ansi(rest),
{
    assert((seq![esc(), x] + rest).skip(2) =~= rest);
    assert((seq![x] + rest).drop_first() =~= rest);
}

/// Consumes the body of a CSI sequence that starts at `i`; returns the index
/// where scanning resumes.
fn scan_csi(v: &Vec<char>, i: usize) -> (j: usize)
    requires
        i <= v@.len(),
    ensures
        i <= j <= v@.len(),
        skip_csi(v@.skip(i as int)) == v@.skip(j as int),
{
    let n = v.len();
    let mut j = i;
    while j < n
        invariant
            n == v@.len(),
            i <= j <= n,
            skip_csi(v@.skip(i as int)) == skip_csi(v@.skip(j as int)),
        decreases n - j,
    {
        let c = v[j];
        assert(v@.skip(j as int).drop_first() =~= v@.skip(j + 1));
        if c as u8 >= 0x40 {
            return j + 1;
        }
        j += 1;
    }
    assert(v@.skip(j as int) =~= Seq::<char>::empty());
    j
}

/// Consumes the body of an OSC sequence that starts at `i`; returns the index
/// where scanning resumes.
fn scan_osc(v: &Vec<char>, i: usize) -> (j: usize)
    requires
        i <= v@.len(),
    ensures
        i <= j <= v@.len(),
        skip_osc(v@.skip(i as int)) == v@.skip(j as int),
{
    let n = v.len();
    let mut j = i;
    while j < n
        invariant
            n == v@.len(),
            i <= j <= n,
            skip_osc(v@.skip(i as int)) == skip_osc(v@.skip(j as int)),
        decreases n - j,
    {
        let c = v[j];
        assert(v@.skip(j as int).drop_first() =~= v@.skip(j + 1));
        if c == '\x07' {
            return j + 1;
        } else if c == '\x1b' {
            if j + 1 < n {
                assert(v@.skip(j as int).skip(2) =~= v@.skip(j + 2));
                if v[j + 1] == '\\' {
                    return j + 2;
                }
                j += 2;
            } else {
                return j + 1;
            }
        } else {
            j += 1;
        }
    }
    assert(v@.skip(j as int) =~= Seq::<char>::empty());
    j
}

/// The characters of `s` with escape sequences removed.
pub fn strip_ansi_chars(s: &Vec<char>) -> (r: Vec<char>)
    ensures
        r@ == strip_ansi(s@),
{
    let n = s.len();
    let mut out: Vec<char> = Vec::new();
    let mut i: usize = 0;
    assert(s@.skip(0) =~= s@);
    while i < n
        invariant
            n == s@.len(),
            i <= n,
            strip_ansi(s@) == out@ + strip_ansi(s@.skip(i as int)),
        decreases n - i,
    {
        let ch = s[i];
        let ghost rest = s@.skip(i as int);
        if ch == '\x1b' {
            if i + 1 < n {
                let next = s[i + 1];
                assert(rest.skip(2) =~= s@.skip(i + 2));
                if next == '[' {
                    i = scan_csi(s, i + 2);
                } else if next == ']' {
                    i = scan_osc(s, i + 2);
                } else {
                    i = i + 2;
                }
            } else {
                assert(strip_ansi(rest) =~= Seq::<char>::empty());
                i = i + 1;
                assert(s@.skip(i as int) =~= Seq::<char>::empty());
                assert(out@ + strip_ansi(s@.skip(i as int)) =~= out@);
            }
        } else {
            assert(rest.drop_first() =~= s@.skip(i + 1));
            out.push(ch);
            assert(out@ + strip_ansi(s@.skip(i + 1)) =~= out@.drop_last() + (seq![ch] + strip_ansi(
                s@.skip(i + 1),
            )));
            i = i + 1;
        }
    }
    assert(s@.skip(n as int) =~= Seq::<char>::empty());
    assert(out@ + strip_ansi(s@.skip(n as int)) =~= out@);
    out
}

/// `s` with its terminal escape sequences removed.
pub fn strip_ansi_codes(s: &str) -> (r: String)
    ensures
        r@ == strip_ansi(s@),
{
    let v = chars_of(s);
    let stripped = strip_ansi_chars(&v);
    let mut result = String::new();
    let n = stripped.len();
    let mut i: usize = 0;
    while i < n
        invariant
            n == stripped@.len(),
            i <= n,
            result@ == stripped@.take(i as int),
        decreases n - i,
    {
        string_push(&mut result, stripped[i]);
        assert(stripped@.take(i + 1) =~= stripped@.take(i as int).push(stripped@[i as int]));
        i += 1;
    }
    assert(stripped@.take(n as int) =~= stripped@);
    result
}

} // verus!
