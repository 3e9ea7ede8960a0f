//! Detection of what a terminal agent session is doing, from the text of its
//! screen: working (an interrupt hint near the prompt), waiting for input (a
//! numbered choice or a `[y/n]` question), idle at its prompt, or unknown.

use vstd::prelude::*;
use crate::ansi::strip_ansi;
use crate::ansi::strip_ansi_codes;
use crate::text::chars_of;
use crate::text::char_is_whitespace;
use crate::text::has_infix;
use crate::text::trim_seq;
use crate::text::trim_start_seq;
use crate::text::is_ascii_digit;
use crate::text::trim;
use crate::text::str_contains;
use crate::text::str_contains_char;
use crate::text::has_non_whitespace_from;

verus! {

/// What a session is doing, as read from its screen.
#[derive(Debug, Clone, Copy, PartialEq, Eq, Structural)]
pub enum ClaudeCodeStatus {
    /// Busy: an interrupt hint stands near the prompt.
    Working,
    /// Waiting for an answer: a numbered choice or a `[y/n]` question.
    WaitingInput,
    /// At its prompt, with nothing pending.
    Idle,
    /// None of the above could be recognised.
    Unknown,
}

/// The prompt marker `❯`.
pub open spec fn prompt_char() -> char {
    '\u{276f}'
}

/// The box-drawing character `─` of the border drawn above the prompt.
pub open spec fn border_char() -> char {
    '\u{2500}'
}

// ---------------------------------------------------------------------------
// Lines

/// The number of characters of `s` before its first line feed (its length when
/// it has none).
pub open spec fn line_end(s: Seq<char>) -> nat
    decreases s.len(),
{
    if s.len() == 0 || s[0] == '\n' {
        0
    } else {
        1 + line_end(s.drop_first())
    }
}

/// A line that ended in `\r\n` loses its carriage return.
pub open spec fn strip_cr(l: Seq<char>) -> Seq<char> {
    if l.len() > 0 && l.last() == '\r' {
        l.drop_last()
    } else {
        l
    }
}

/// The lines of `s`: split at each `\n` (with a `\r` just before it removed);
/// a final line feed does not start an empty last line.
pub open spec fn lines_seq(s: Seq<char>) -> Seq<Seq<char>>
    decreases s.len(),
{
    if s.len() == 0 {
        Seq::empty()
    } else {
        let k = line_end(s) as int;
        if k >= s.len() {
            seq![s]
        } else {
            seq![strip_cr(s.take(k))] + lines_seq(s.skip(k + 1))
        }
    }
}

/// The character sequences of a list of string slices.
pub open spec fn line_views(ls: Seq<&str>) -> Seq<Seq<char>> {
    ls.map_values(|l: &str| l@)
}

proof fn lemma_line_end(t: Seq<char>, k: int)
    requires
        0 <= k <= t.len(),
        forall|j: int| 0 <= j < k ==> t[j] != '\n',
        k == t.len() || t[k] == '\n',
    ensures
        line_end(t) == k,
    decreases k,
{
    if k > 0 {
        let u = t.drop_first();
        assert forall|j: int| 0 <= j < k - 1 implies u[j] != '\n' by {
            assert(u[j] == t[j + 1]);
        }
        if k < t.len() {
            assert(u[k - 1] == t[k]);
        }
        lemma_line_end(u, k - 1);
    }
}

/// The lines of `content`, as `str::lines` splits them.
pub fn lines_of(content: &str) -> (ls: Vec<&str>)
    ensures
        line_views(ls@) == lines_seq(content@),
{
    let v = chars_of(content);
    let n = v.len();
    let mut out: Vec<&str> = Vec::new();
    let mut start: usize = 0;
    let mut i: usize = 0;
    assert(content@.skip(0) =~= content@);
    while i < n
        invariant
            n == v@.len(),
            v@ == content@,
            start <= i <= n,
            forall|j: int| start <= j < i ==> v@[j] != '\n',
            lines_seq(content@) == line_views(out@) + lines_seq(content@.skip(start as int)),
        decreases n - i,
    {
        if v[i] == '\n' {
            let ghost t = content@.skip(start as int);
            let ghost k = i - start;
            proof {
                assert forall|j: int| 0 <= j < k implies t[j] != '\n' by {
                    assert(t[j] == v@[start + j]);
                }
                assert(t[k] == v@[i as int]);
                lemma_line_end(t, k);
                assert(t.skip(k + 1) =~= content@.skip(i + 1));
            }
            let end = if i > start && v[i - 1] == '\r' {
                i - 1
            } else {
                i
            };
            proof {
                if i > start && v@[i - 1] == '\r' {
                    assert(t.take(k).last() == v@[i - 1]);
                    assert(t.take(k).drop_last() =~= content@.subrange(start as int, end as int));
                } else {
                    if k > 0 {
                        assert(t.take(k).last() == v@[i - 1]);
                    }
                    assert(t.take(k) =~= content@.subrange(start as int, end as int));
                }
            }
            let line = content.substring_char(start, end);
            let ghost before = out@;
            out.push(line);
            proof {
                assert(line_views(out@) =~= line_views(before).push(line@));
                assert(lines_seq(t) == seq![strip_cr(t.take(k))] + lines_seq(t.skip(k + 1)));
                assert(line_views(out@) + lines_seq(content@.skip(i + 1)) =~= line_views(before)
                    + lines_seq(t));
            }
            start = i + 1;
        }
        i += 1;
    }
    if start < n {
        let ghost t = content@.skip(start as int);
        proof {
            assert forall|j: int| 0 <= j < t.len() implies t[j] != '\n' by {
                assert(t[j] == v@[start + j]);
            }
            lemma_line_end(t, t.len() as int);
            assert(t =~= content@.subrange(start as int, n as int));
        }
        let line = content.substring_char(start, n);
        let ghost before = out@;
        out.push(line);
        assert(line_views(out@) =~= line_views(before).push(line@));
        assert(line_views(out@) =~= line_views(before) + lines_seq(t));
    } else {
        assert(content@.skip(start as int) =~= Seq::<char>::empty());
        assert(line_views(out@) + lines_seq(content@.skip(start as int)) =~= line_views(out@));
    }
    out
}

// ---------------------------------------------------------------------------
// The input field

/// Line `i` holds the prompt marker and the line just above it holds the
/// border: together they are the input field.
pub open spec fn is_input_field_at(ls: Seq<Seq<char>>, i: int) -> bool {
    &&& 0 < i < ls.len()
    &&& ls[i].contains(prompt_char())
    &&& ls[i - 1].contains(border_char())
}

/// The last input field among the first `n` lines, if any.
pub open spec fn last_input_field(ls: Seq<Seq<char>>, n: int) -> Option<int>
    decreases n,
{
    if n <= 0 {
        None
    } else if is_input_field_at(ls, n - 1) {
        Some(n - 1)
    } else {
        last_input_field(ls, n - 1)
    }
}

/// The last of the first `n` lines that holds the prompt marker, if any.
pub open spec fn last_prompt(ls: Seq<Seq<char>>, n: int) -> Option<int>
    decreases n,
{
    if n <= 0 {
        None
    } else if ls[n - 1].contains(prompt_char()) {
        Some(n - 1)
    } else {
        last_prompt(ls, n - 1)
    }
}

/// An index as an optional mathematical integer.
pub open spec fn opt_index(r: Option<usize>) -> Option<int> {
    match r {
        Some(i) => Some(i as int),
        None => None,
    }
}

/// The search from the bottom finds the most recent input field: the result is
/// an input field and no later line is one; `None` means there is none at all.
pub proof fn lemma_last_input_field(ls: Seq<Seq<char>>, n: int)
    requires
        0 <= n <= ls.len(),
    ensures
        last_input_field(ls, n) matches Some(i) ==> {
            &&& 0 < i < n
            &&& is_input_field_at(ls, i)
            &&& forall|j: int| i < j < n ==> !is_input_field_at(ls, j)
        },
        last_input_field(ls, n) is None ==> forall|j: int| 0 <= j < n ==> !is_input_field_at(ls, j),
    decreases n,
{
    if n > 0 && !is_input_field_at(ls, n - 1) {
        lemma_last_input_field(ls, n - 1);
    }
}

/// The last of the first `n` lines that holds the prompt marker: no later line
/// holds it; `None` means none does.
pub proof fn lemma_last_prompt(ls: Seq<Seq<char>>, n: int)
    requires
        0 <= n <= ls.len(),
    ensures
        last_prompt(ls, n) matches Some(i) ==> {
            &&& 0 <= i < n
            &&& ls[i].contains(prompt_char())
            &&& forall|j: int| i < j < n ==> !ls[j].contains(prompt_char())
        },
        last_prompt(ls, n) is None ==> forall|j: int| 0 <= j < n ==> !ls[j].contains(prompt_char()),
    decreases n,
{
    if n > 0 && !ls[n - 1].contains(prompt_char()) {
        lemma_last_prompt(ls, n - 1);
    }
}

/// The index of the current input field: the last line that holds the prompt
/// marker with a border line directly above it.
pub fn find_input_field_line(lines: &[&str]) -> (r: Option<usize>)
    ensures
        opt_index(r) == last_input_field(line_views(lines@), lines@.len() as int),
{
    let ghost ls = line_views(lines@);
    let mut i = lines.len();
    while i > 0
        invariant
            i <= lines@.len(),
            ls == line_views(lines@),
            last_input_field(ls, lines@.len() as int) == last_input_field(ls, i as int),
        decreases i,
    {
        let k = i - 1;
        assert(ls[k as int] == lines@[k as int]@);
        if str_contains_char(lines[k], '\u{276f}') {
            if k > 0 {
                assert(ls[k - 1] == lines@[k - 1]@);
                if str_contains_char(lines[k - 1], '\u{2500}') {
                    return Some(k);
                }
            }
        }
        i = k;
    }
    None
}

/// The index of the last line holding the prompt marker.
fn find_last_prompt(lines: &[&str]) -> (r: Option<usize>)
    ensures
        opt_index(r) == last_prompt(line_views(lines@), lines@.len() as int),
{
    let ghost ls = line_views(lines@);
    let mut i = lines.len();
    while i > 0
        invariant
            i <= lines@.len(),
            ls == line_views(lines@),
            last_prompt(ls, lines@.len() as int) == last_prompt(ls, i as int),
        decreases i,
    {
        let k = i - 1;
        assert(ls[k as int] == lines@[k as int]@);
        if str_contains_char(lines[k], '\u{276f}') {
            return Some(k);
        }
        i = k;
    }
    None
}

// ---------------------------------------------------------------------------
// Numbered options

/// The number of ASCII digits at the start of `u`.
pub open spec fn leading_digits(u: Seq<char>) -> nat
    decreases u.len(),
{
    if u.len() > 0 && is_ascii_digit(u[0]) {
        1 + leading_digits(u.drop_first())
    } else {
        0
    }
}

/// `u` reads as a numbered option such as `1. Yes` or `2) No`: one or more
/// digits, then `.` or `)`, then some text that is not white space.
pub open spec fn is_option_line(u: Seq<char>) -> bool {
    let k = leading_digits(u) as int;
    &&& 0 < k < u.len()
    &&& (u[k] == '.' || u[k] == ')')
    &&& trim_start_seq(u.skip(k + 1)).len() > 0
}

/// A screen line is a numbered option once trimmed and freed of escape sequences.
pub open spec fn line_has_numbered_option(line: Seq<char>) -> bool {
    is_option_line(strip_ansi(trim_seq(line)))
}

/// Some line from `start` to `end` (both included) is a numbered option.
pub open spec fn numbered_in(ls: Seq<Seq<char>>, start: int, end: int) -> bool {
    exists|i: int| start <= i <= end && #[trigger] line_has_numbered_option(ls[i])
}

/// Whether the characters `u` read as a numbered option.
pub fn is_numbered_option(u: &Vec<char>) -> (r: bool)
    ensures
        r == is_option_line(u@),
{
    let n = u.len();
    let mut i: usize = 0;
    let mut has_digit = false;
    assert(u@.skip(0) =~= u@);
    while i < n
        invariant
            n == u@.len(),
            i <= n,
            has_digit == (i > 0),
            leading_digits(u@) == i + leading_digits(u@.skip(i as int)),
        decreases n - i,
    {
        let c = u[i];
        assert(u@.skip(i as int)[0] == c);
        assert(u@.skip(i as int).drop_first() =~= u@.skip(i + 1));
        if '0' <= c && c <= '9' {
            has_digit = true;
        } else if (c == '.' || c == ')') && has_digit {
            return has_non_whitespace_from(u, i + 1);
        } else {
            return false;
        }
        i += 1;
    }
    false
}

/// Whether some line from `start` to `end` (both included) is a numbered option,
/// the sign of a choice waiting for an answer.
pub fn has_numbered_options(lines: &[&str], start: usize, end: usize) -> (r: bool)
    requires
        start <= end + 1,
        end < lines@.len(),
    ensures
        r == numbered_in(line_views(lines@), start as int, end as int),
{
    let ghost ls = line_views(lines@);
    let mut idx = start;
    while idx <= end
        invariant
            start <= idx <= end + 1,
            end < lines@.len(),
            ls == line_views(lines@),
            forall|j: int| start <= j < idx ==> !#[trigger] line_has_numbered_option(ls[j]),
        decreases end + 1 - idx,
    {
        let line = lines[idx];
        assert(ls[idx as int] == line@);
        let trimmed = trim(line);
        if !trimmed.is_empty() {
            let no_ansi = strip_ansi_codes(trimmed);
            if !no_ansi.as_str().is_empty() {
                let u = chars_of(no_ansi.as_str());
                if is_numbered_option(&u) {
                    assert(line_has_numbered_option(ls[idx as int]));
                    return true;
                }
            }
        } else {
            assert(strip_ansi(trim_seq(line@)) =~= Seq::<char>::empty());
        }
        idx += 1;
    }
    false
}

// ---------------------------------------------------------------------------
// Status

/// The first line of the window around line `i`: two lines above it.
pub open spec fn window_start(i: int) -> int {
    if i >= 2 {
        i - 2
    } else {
        0
    }
}

/// The last line of the window around line `i` among `len` lines: twenty lines
/// below it, or the last line.
pub open spec fn window_end(i: int, len: int) -> int {
    if i + 20 <= len - 1 {
        i + 20
    } else {
        len - 1
    }
}

/// A line shows the interrupt hint: the word `interrupt`, or `esc t` as left of
/// `esc to interrupt` in a narrow window.
pub open spec fn mentions_interrupt(line: Seq<char>) -> bool {
    has_infix(line, "interrupt"@) || has_infix(line, "esc t"@)
}

/// Some line from `start` to `end` (both included) shows the interrupt hint.
pub open spec fn interrupt_in(ls: Seq<Seq<char>>, start: int, end: int) -> bool {
    exists|i: int| start <= i <= end && #[trigger] mentions_interrupt(ls[i])
}

/// The status that a screen's text shows.
///
/// - With an input field (the last prompt line with a border directly above
///   it): `Working` when a line from two above to twenty below the prompt
///   shows the interrupt hint, else `WaitingInput` when one of those lines is a
///   numbered option, else `Idle`.
/// - Without one: `WaitingInput` when a line from two above to twenty below the
///   last prompt line is a numbered option, or when the text holds `[y/n]` or
///   `[Y/n]`; else `Unknown`.
pub open spec fn status_of(content: Seq<char>) -> ClaudeCodeStatus {
    let ls = lines_seq(content);
    let len = ls.len() as int;
    match last_input_field(ls, len) {
        Some(i) => {
            let (start, end) = (window_start(i), window_end(i, len));
            if interrupt_in(ls, start, end) {
                ClaudeCodeStatus::Working
            } else if numbered_in(ls, start, end) {
                ClaudeCodeStatus::WaitingInput
            } else {
                ClaudeCodeStatus::Idle
            }
        },
        None => {
            let numbered_near_prompt = match last_prompt(ls, len) {
                Some(i) => numbered_in(ls, window_start(i), window_end(i, len)),
                None => false,
            };
            if numbered_near_prompt {
                ClaudeCodeStatus::WaitingInput
            } else if has_infix(content, "[y/n]"@) || has_infix(content, "[Y/n]"@) {
                ClaudeCodeStatus::WaitingInput
            } else {
                ClaudeCodeStatus::Unknown
            }
        },
    }
}

/// The exec form of `window_start` and `window_end` for line `i` of `len`.
fn window(i: usize, len: usize) -> (r: (usize, usize))
    requires
        i < len,
    ensures
        r.0 == window_start(i as int),
        r.1 == window_end(i as int, len as int),
        r.0 <= i <= r.1 < len,
{
    let start = if i >= 2 {
        i - 2
    } else {
        0
    };
    let end = if len >= 21 && i <= len - 21 {
        i + 20
    } else {
        len - 1
    };
    (start, end)
}

/// Whether some line from `start` to `end` (both included) shows the interrupt hint.
fn window_has_interrupt(lines: &[&str], start: usize, end: usize) -> (r: bool)
    requires
        start <= end < lines@.len(),
    ensures
        r == interrupt_in(line_views(lines@), start as int, end as int),
{
    let ghost ls = line_views(lines@);
    let mut idx = start;
    while idx <= end
        invariant
            start <= idx <= end + 1,
            end < lines@.len(),
            ls == line_views(lines@),
            forall|j: int| start <= j < idx ==> !#[trigger] mentions_interrupt(ls[j]),
        decreases end + 1 - idx,
    {
        let line = lines[idx];
        assert(ls[idx as int] == line@);
        if str_contains(line, "interrupt") || str_contains(line, "esc t") {
            assert(mentions_interrupt(ls[idx as int]));
            return true;
        }
        idx += 1;
    }
    false
}

/// Reads what a session is doing from the text of its screen.
pub fn detect_status(content: &str) -> (r: ClaudeCodeStatus)
    ensures
        r == status_of(content@),
{
    let lines = lines_of(content);
    let ghost ls = line_views(lines@);
    let len = lines.len();
    let found = find_input_field_line(lines.as_slice());
    proof {
        lemma_last_input_field(ls, len as int);
    }
    if let Some(i) = found {
        let (start, end) = window(i, len);
        let has_interrupt = window_has_interrupt(lines.as_slice(), start, end);
        if has_interrupt {
            return ClaudeCodeStatus::Working;
        }
        if has_numbered_options(lines.as_slice(), start, end) {
            return ClaudeCodeStatus::WaitingInput;
        }
        return ClaudeCodeStatus::Idle;
    }
    let last = find_last_prompt(lines.as_slice());
    proof {
        lemma_last_prompt(ls, len as int);
    }
    if let Some(i) = last {
        let (start, end) = window(i, len);
        if has_numbered_options(lines.as_slice(), start, end) {
            return ClaudeCodeStatus::WaitingInput;
        }
    }
    if str_contains(content, "[y/n]") || str_contains(content, "[Y/n]") {
        return ClaudeCodeStatus::WaitingInput;
    }
    ClaudeCodeStatus::Unknown
}

// ---------------------------------------------------------------------------
// Laws

proof fn lemma_line_end_bound(s: Seq<char>)
    ensures
        line_end(s) <= s.len(),
    decreases s.len(),
{
    if s.len() > 0 && s[0] != '\n' {
        lemma_line_end_bound(s.drop_first());
    }
}

/// Every character of every line comes from the text that was split.
pub proof fn lemma_lines_hold_text_chars(s: Seq<char>)
    ensures
        forall|i: int, j: int|
            0 <= i < lines_seq(s).len() && 0 <= j < lines_seq(s)[i].len() ==> s.contains(
                #[trigger] lines_seq(s)[i][j],
            ),
    decreases s.len(),
{
    if s.len() > 0 {
        lemma_line_end_bound(s);
        let k = line_end(s) as int;
        if k < s.len() {
            let rest = s.skip(k + 1);
            lemma_lines_hold_text_chars(rest);
            let ls = lines_seq(s);
            let first = strip_cr(s.take(k));
            assert(ls == seq![first] + lines_seq(rest));
            assert forall|i: int, j: int|
                0 <= i < ls.len() && 0 <= j < ls[i].len() implies s.contains(
                #[trigger] ls[i][j],
            ) by {
                if i == 0 {
                    assert(ls[0][j] == s[j]);
                } else {
                    assert(ls[i] == lines_seq(rest)[i - 1]);
                    assert(rest.contains(ls[i][j]));
                    let t = choose|t: int| 0 <= t < rest.len() && rest[t] == ls[i][j];
                    assert(s[k + 1 + t] == ls[i][j]);
                }
            }
        } else {
            let ls = lines_seq(s);
            assert forall|i: int, j: int|
                0 <= i < ls.len() && 0 <= j < ls[i].len() implies s.contains(
                #[trigger] ls[i][j],
            ) by {
                assert(ls[i][j] == s[j]);
            }
        }
    }
}

proof fn lemma_no_prompt_lines(ls: Seq<Seq<char>>, n: int)
    requires
        0 <= n <= ls.len(),
        forall|j: int| 0 <= j < ls.len() ==> !#[trigger] ls[j].contains(prompt_char()),
    ensures
        last_input_field(ls, n) is None,
        last_prompt(ls, n) is None,
    decreases n,
{
    if n > 0 {
        assert(!ls[n - 1].contains(prompt_char()));
        lemma_no_prompt_lines(ls, n - 1);
    }
}

/// Without a prompt marker anywhere on the screen, only a `[y/n]` or `[Y/n]`
/// question shows that input is awaited; otherwise the status is unknown.
pub proof fn lemma_status_without_prompt(content: Seq<char>)
    requires
        !content.contains(prompt_char()),
    ensures
        status_of(content) == (if has_infix(content, "[y/n]"@) || has_infix(content, "[Y/n]"@) {
            ClaudeCodeStatus::WaitingInput
        } else {
            ClaudeCodeStatus::Unknown
        }),
{
    let ls = lines_seq(content);
    lemma_lines_hold_text_chars(content);
    assert forall|j: int| 0 <= j < ls.len() implies !#[trigger] ls[j].contains(prompt_char()) by {
        if ls[j].contains(prompt_char()) {
            let t = choose|t: int| 0 <= t < ls[j].len() && ls[j][t] == prompt_char();
            assert(content.contains(ls[j][t]));
        }
    }
    lemma_no_prompt_lines(ls, ls.len() as int);
}

/// `line_end` stops at the first line feed.
proof fn lemma_line_end_spec(s: Seq<char>)
    ensures
        line_end(s) <= s.len(),
        forall|j: int| 0 <= j < line_end(s) ==> s[j] != '\n',
        line_end(s) < s.len() ==> s[line_end(s) as int] == '\n',
    decreases s.len(),
{
    if s.len() > 0 && s[0] != '\n' {
        let t = s.drop_first();
        lemma_line_end_spec(t);
        assert forall|j: int| 0 <= j < line_end(s) implies s[j] != '\n' by {
            if j > 0 {
                assert(s[j] == t[j - 1]);
            }
        }
        if line_end(s) < s.len() {
            assert(s[line_end(s) as int] == t[line_end(t) as int]);
        }
    }
}

/// Text that ends with a line feed splits apart from what follows it.
pub proof fn lemma_lines_append(a: Seq<char>, b: Seq<char>)
    requires
        a.len() == 0 || a.last() == '\n',
    ensures
        lines_seq(a + b) == lines_seq(a) + lines_seq(b),
    decreases a.len(),
{
    if a.len() == 0 {
        assert(a + b =~= b);
        assert(lines_seq(a) + lines_seq(b) =~= lines_seq(b));
    } else {
        lemma_line_end_spec(a);
        let k = line_end(a) as int;
        if k == a.len() {
            assert(a[a.len() - 1] != '\n');
        }
        assert(k < a.len());
        let ab = a + b;
        assert forall|j: int| 0 <= j < k implies ab[j] != '\n' by {
            assert(ab[j] == a[j]);
        }
        assert(ab[k] == a[k]);
        lemma_line_end(ab, k);
        let rest = a.skip(k + 1);
        assert(ab.take(k) =~= a.take(k));
        assert(ab.skip(k + 1) =~= rest + b);
        if rest.len() > 0 {
            assert(rest.last() == a.last());
        }
        lemma_lines_append(rest, b);
        assert(lines_seq(ab) == seq![strip_cr(a.take(k))] + lines_seq(rest + b));
        assert(lines_seq(a) == seq![strip_cr(a.take(k))] + lines_seq(rest));
        assert(lines_seq(ab) =~= lines_seq(a) + lines_seq(b));
    }
}

/// An input field with none after it, up to `n`, is the last one.
proof fn lemma_last_input_field_is(ls: Seq<Seq<char>>, n: int, i: int)
    requires
        0 < i < n <= ls.len(),
        is_input_field_at(ls, i),
        forall|j: int| i < j < n ==> !is_input_field_at(ls, j),
    ensures
        last_input_field(ls, n) == Some(i),
    decreases n,
{
    if n - 1 > i {
        lemma_last_input_field_is(ls, n - 1, i);
    }
}

/// Scrollback added above the screen never changes the status once the current
/// bordered prompt has at least two lines above it: only lines from two above
/// the prompt downwards are ever read.
pub proof fn lemma_scrollback_does_not_matter(p: Seq<char>, c: Seq<char>)
    requires
        last_input_field(lines_seq(c), lines_seq(c).len() as int) matches Some(i) && i >= 2,
    ensures
        status_of(p + seq!['\n'] + c) == status_of(c),
{
    let a = p + seq!['\n'];
    let content = p + seq!['\n'] + c;
    assert(content =~= a + c);
    lemma_lines_append(a, c);
    let pl = lines_seq(a);
    let l = lines_seq(c);
    let ls = lines_seq(content);
    assert(ls == pl + l);
    let m = pl.len() as int;
    let n = l.len() as int;
    lemma_last_input_field(l, n);
    let i = last_input_field(l, n)->0;
    assert(ls[m + i] == l[i]);
    assert(ls[m + i - 1] == l[i - 1]);
    assert(is_input_field_at(ls, m + i));
    assert forall|j: int| m + i < j < m + n implies !is_input_field_at(ls, j) by {
        assert(ls[j] == l[j - m]);
        assert(ls[j - 1] == l[j - 1 - m]);
        assert(!is_input_field_at(l, j - m));
    }
    lemma_last_input_field_is(ls, m + n, m + i);
    let s = window_start(i);
    let e = window_end(i, n);
    assert(window_start(m + i) == m + s);
    assert(window_end(m + i, m + n) == m + e);
    if interrupt_in(l, s, e) {
        let w = choose|w: int| s <= w <= e && #[trigger] mentions_interrupt(l[w]);
        assert(ls[m + w] == l[w]);
        assert(mentions_interrupt(ls[m + w]));
    }
    if interrupt_in(ls, m + s, m + e) {
        let w = choose|w: int| m + s <= w <= m + e && #[trigger] mentions_interrupt(ls[w]);
        assert(ls[w] == l[w - m]);
        assert(mentions_interrupt(l[w - m]));
    }
    if numbered_in(l, s, e) {
        let w = choose|w: int| s <= w <= e && #[trigger] line_has_numbered_option(l[w]);
        assert(ls[m + w] == l[w]);
        assert(line_has_numbered_option(ls[m + w]));
    }
    if numbered_in(ls, m + s, m + e) {
        let w = choose|w: int| m + s <= w <= m + e && #[trigger] line_has_numbered_option(ls[w]);
        assert(ls[w] == l[w - m]);
        assert(line_has_numbered_option(l[w - m]));
    }
}

/// A busy session reads as working: when the screen has a bordered prompt (a
/// line holding `❯` right under a line holding `─`, with no such pair below it)
/// and some line from two above to twenty below that prompt shows `interrupt`
/// or `esc t`, the status is `Working`, whatever numbered options the same
/// lines hold.
pub proof fn lemma_interrupt_hint_means_working(c: Seq<char>, i: int, w: int)
    requires
        0 < i < lines_seq(c).len(),
        lines_seq(c)[i].contains('\u{276f}'),
        lines_seq(c)[i - 1].contains('\u{2500}'),
        forall|j: int|
            i < j < lines_seq(c).len() ==> !(#[trigger] lines_seq(c)[j].contains('\u{276f}')
                && lines_seq(c)[j - 1].contains('\u{2500}')),
        i - 2 <= w <= i + 20,
        0 <= w < lines_seq(c).len(),
        has_infix(lines_seq(c)[w], "interrupt"@) || has_infix(lines_seq(c)[w], "esc t"@),
    ensures
        status_of(c) == ClaudeCodeStatus::Working,
{
    let ls = lines_seq(c);
    let n = ls.len() as int;
    assert forall|j: int| i < j < n implies !is_input_field_at(ls, j) by {
        assert(!(ls[j].contains(prompt_char()) && ls[j - 1].contains(border_char())));
    }
    lemma_last_input_field_is(ls, n, i);
    assert(mentions_interrupt(ls[w]));
    assert(window_start(i) <= w <= window_end(i, n));
    assert(interrupt_in(ls, window_start(i), window_end(i, n)));
}

/// A bordered prompt (a line holding `❯` right under a line holding `─`, with
/// no such pair below it) at line `i` of `c`.
pub open spec fn current_prompt_at(c: Seq<char>, i: int) -> bool {
    let ls = lines_seq(c);
    &&& 0 < i < ls.len()
    &&& ls[i].contains('\u{276f}')
    &&& ls[i - 1].contains('\u{2500}')
    &&& forall|j: int|
        i < j < ls.len() ==> !(#[trigger] ls[j].contains('\u{276f}') && ls[j - 1].contains(
            '\u{2500}',
        ))
}

/// Line `w` lies within two lines above and twenty lines below line `i`.
pub open spec fn near(c: Seq<char>, i: int, w: int) -> bool {
    i - 2 <= w <= i + 20 && 0 <= w < lines_seq(c).len()
}

/// At a bordered prompt with no interrupt hint near it: a numbered option near
/// it means the session waits for input, and without one it is idle.
pub proof fn lemma_prompt_without_hint(c: Seq<char>, i: int)
    requires
        current_prompt_at(c, i),
        forall|w: int|
            near(c, i, w) ==> !has_infix(#[trigger] lines_seq(c)[w], "interrupt"@) && !has_infix(
                lines_seq(c)[w],
                "esc t"@,
            ),
    ensures
        status_of(c) == (if exists|w: int|
            near(c, i, w) && #[trigger] is_option_line(strip_ansi(trim_seq(lines_seq(c)[w]))) {
            ClaudeCodeStatus::WaitingInput
        } else {
            ClaudeCodeStatus::Idle
        }),
{
    let ls = lines_seq(c);
    let n = ls.len() as int;
    assert forall|j: int| i < j < n implies !is_input_field_at(ls, j) by {
        assert(!(ls[j].contains(prompt_char()) && ls[j - 1].contains(border_char())));
    }
    lemma_last_input_field_is(ls, n, i);
    let s = window_start(i);
    let e = window_end(i, n);
    if interrupt_in(ls, s, e) {
        let w = choose|w: int| s <= w <= e && #[trigger] mentions_interrupt(ls[w]);
        assert(near(c, i, w));
        assert(false);
    }
    if numbered_in(ls, s, e) {
        let w = choose|w: int| s <= w <= e && #[trigger] line_has_numbered_option(ls[w]);
        assert(near(c, i, w) && is_option_line(strip_ansi(trim_seq(ls[w]))));
    }
    if exists|w: int| near(c, i, w) && #[trigger] is_option_line(strip_ansi(trim_seq(ls[w]))) {
        let w = choose|w: int| near(c, i, w) && #[trigger] is_option_line(
            strip_ansi(trim_seq(ls[w])),
        );
        assert(line_has_numbered_option(ls[w]));
        assert(s <= w <= e);
    }
}

/// A run of ASCII digits, then `.` or `)`, then some text that is not white
/// space, reads as a numbered option; a text that does not start with a digit
/// never does.
pub proof fn lemma_option_lines(d: Seq<char>, sep: char, rest: Seq<char>, u: Seq<char>)
    requires
        d.len() > 0,
        forall|j: int| 0 <= j < d.len() ==> is_ascii_digit(#[trigger] d[j]),
        sep == '.' || sep == ')',
        exists|j: int| 0 <= j < rest.len() && !char_is_whitespace(#[trigger] rest[j]),
    ensures
        is_option_line(d + seq![sep] + rest),
        u.len() == 0 || !is_ascii_digit(u[0]) ==> !is_option_line(u),
{
    let v = d + seq![sep] + rest;
    lemma_leading_digits(d, seq![sep] + rest);
    assert(v =~= d + (seq![sep] + rest));
    assert(v[d.len() as int] == sep);
    assert(v.skip(d.len() as int + 1) =~= rest);
    crate::text::lemma_trim_start_empty(rest);
}

proof fn lemma_leading_digits(d: Seq<char>, t: Seq<char>)
    requires
        forall|j: int| 0 <= j < d.len() ==> is_ascii_digit(#[trigger] d[j]),
        t.len() > 0,
        !is_ascii_digit(t[0]),
    ensures
        leading_digits(d + t) == d.len(),
    decreases d.len(),
{
    if d.len() == 0 {
        assert(d + t =~= t);
    } else {
        let d1 = d.drop_first();
        assert forall|j: int| 0 <= j < d1.len() implies is_ascii_digit(#[trigger] d1[j]) by {
            assert(d1[j] == d[j + 1]);
        }
        lemma_leading_digits(d1, t);
        assert((d + t).drop_first() =~= d1 + t);
        assert(is_ascii_digit(d[0]));
    }
}

/// No line holds a line feed.
pub proof fn lemma_lines_have_no_line_feed(s: Seq<char>)
    ensures
        forall|i: int| 0 <= i < lines_seq(s).len() ==> !(#[trigger] lines_seq(s)[i]).contains('\n'),
    decreases s.len(),
{
    if s.len() > 0 {
        lemma_line_end_spec(s);
        let k = line_end(s) as int;
        let ls = lines_seq(s);
        if k < s.len() {
            let rest = s.skip(k + 1);
            lemma_lines_have_no_line_feed(rest);
            assert forall|i: int| 0 <= i < ls.len() implies !(#[trigger] ls[i]).contains('\n') by {
                if i == 0 {
                    let l = strip_cr(s.take(k));
                    if l.contains('\n') {
                        let t = choose|t: int| 0 <= t < l.len() && l[t] == '\n';
                        assert(l[t] == s[t]);
                    }
                } else {
                    assert(ls[i] == lines_seq(rest)[i - 1]);
                }
            }
        } else {
            assert forall|i: int| 0 <= i < ls.len() implies !(#[trigger] ls[i]).contains('\n') by {
                if s.contains('\n') {
                    let t = choose|t: int| 0 <= t < s.len() && s[t] == '\n';
                    assert(t < k);
                }
            }
        }
    }
}

/// A line ended by `\n` or by `\r\n` comes out as the line itself, without its
/// ending, followed by the lines of the rest; the last line needs no ending.
pub proof fn lemma_line_endings(l: Seq<char>, rest: Seq<char>)
    requires
        !l.contains('\n'),
    ensures
        (l.len() == 0 || l.last() != '\r') ==> lines_seq(l + seq!['\n'] + rest) == seq![l]
            + lines_seq(rest),
        !l.contains('\r') ==> lines_seq(l + seq!['\r', '\n'] + rest) == seq![l] + lines_seq(
            rest,
        ),
        l.len() > 0 ==> lines_seq(l) == seq![l],
{
    lemma_line_end(l, l.len() as int);
    let a = l + seq!['\n'];
    assert forall|j: int| 0 <= j < l.len() implies a[j] != '\n' by {
        assert(a[j] == l[j]);
    }
    lemma_line_end(a, l.len() as int);
    assert(a.take(l.len() as int) =~= l);
    assert(a.skip(l.len() as int + 1) =~= Seq::<char>::empty());
    assert(l + seq!['\n'] + rest =~= a + rest);
    lemma_lines_append(a, rest);
    assert(lines_seq(Seq::<char>::empty()) == Seq::<Seq<char>>::empty());
    assert(lines_seq(a) == seq![strip_cr(l)] + lines_seq(Seq::<char>::empty()));
    if l.len() == 0 || l.last() != '\r' {
        assert(lines_seq(a) =~= seq![l]);
    }
    let lr = l.push('\r');
    let b = lr + seq!['\n'];
    if !l.contains('\r') {
        assert forall|j: int| 0 <= j < lr.len() implies b[j] != '\n' by {
            assert(b[j] == lr[j]);
            if j < l.len() {
                assert(lr[j] == l[j]);
            }
        }
        lemma_line_end(b, lr.len() as int);
        assert(b.take(lr.len() as int) =~= lr);
        assert(lr.drop_last() =~= l);
        assert(b.skip(lr.len() as int + 1) =~= Seq::<char>::empty());
        assert(l + seq!['\r', '\n'] + rest =~= b + rest);
        lemma_lines_append(b, rest);
        assert(lines_seq(b) == seq![strip_cr(lr)] + lines_seq(Seq::<char>::empty()));
        assert(lines_seq(b) =~= seq![l]);
    }
}

/// Without a bordered prompt, a prompt line still shows a choice: when the last
/// line holding `❯` is `i` and a numbered option stands from two above to
/// twenty below it, the session waits for input; when none does and the text
/// holds no `[y/n]` or `[Y/n]`, the status is unknown.
pub proof fn lemma_prompt_without_border(c: Seq<char>, i: int)
    requires
        forall|j: int|
            0 < j < lines_seq(c).len() ==> !(#[trigger] lines_seq(c)[j].contains('\u{276f}')
                && lines_seq(c)[j - 1].contains('\u{2500}')),
        0 <= i < lines_seq(c).len(),
        lines_seq(c)[i].contains('\u{276f}'),
        forall|j: int| i < j < lines_seq(c).len() ==> !#[trigger] lines_seq(c)[j].contains('\u{276f}'),
    ensures
        (exists|w: int|
            near(c, i, w) && #[trigger] is_option_line(strip_ansi(trim_seq(lines_seq(c)[w]))))
            ==> status_of(c) == ClaudeCodeStatus::WaitingInput,
        (forall|w: int|
            near(c, i, w) ==> !#[trigger] is_option_line(strip_ansi(trim_seq(lines_seq(c)[w]))))
            && !has_infix(c, "[y/n]"@) && !has_infix(c, "[Y/n]"@) ==> status_of(c)
            == ClaudeCodeStatus::Unknown,
{
    let ls = lines_seq(c);
    let n = ls.len() as int;
    assert forall|j: int| 0 <= j < n implies !is_input_field_at(ls, j) by {
        if 0 < j {
            assert(!(ls[j].contains(prompt_char()) && ls[j - 1].contains(border_char())));
        }
    }
    lemma_no_input_field(ls, n);
    lemma_last_prompt_is(ls, n, i);
    let s = window_start(i);
    let e = window_end(i, n);
    if exists|w: int| near(c, i, w) && #[trigger] is_option_line(strip_ansi(trim_seq(ls[w]))) {
        let w = choose|w: int| near(c, i, w) && #[trigger] is_option_line(
            strip_ansi(trim_seq(ls[w])),
        );
        assert(line_has_numbered_option(ls[w]));
        assert(s <= w <= e);
    }
    if numbered_in(ls, s, e) {
        let w = choose|w: int| s <= w <= e && #[trigger] line_has_numbered_option(ls[w]);
        assert(near(c, i, w) && is_option_line(strip_ansi(trim_seq(ls[w]))));
    }
}

proof fn lemma_no_input_field(ls: Seq<Seq<char>>, n: int)
    requires
        0 <= n <= ls.len(),
        forall|j: int| 0 <= j < ls.len() ==> !#[trigger] is_input_field_at(ls, j),
    ensures
        last_input_field(ls, n) is None,
    decreases n,
{
    if n > 0 {
        assert(!is_input_field_at(ls, n - 1));
        lemma_no_input_field(ls, n - 1);
    }
}

proof fn lemma_last_prompt_is(ls: Seq<Seq<char>>, n: int, i: int)
    requires
        0 <= i < n <= ls.len(),
        ls[i].contains(prompt_char()),
        forall|j: int| i < j < n ==> !#[trigger] ls[j].contains(prompt_char()),
    ensures
        last_prompt(ls, n) == Some(i),
    decreases n,
{
    if n - 1 > i {
        lemma_last_prompt_is(ls, n - 1, i);
    }
}

} // verus!
