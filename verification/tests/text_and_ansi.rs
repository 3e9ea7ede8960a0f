use claude_sessions::ansi::strip_ansi_codes;
use claude_sessions::text::chars_of;
use claude_sessions::text::has_non_whitespace_from;
use claude_sessions::text::is_alphanumeric;
use claude_sessions::text::is_whitespace;
use claude_sessions::text::str_contains;
use claude_sessions::text::str_contains_char;
use claude_sessions::text::string_pop;
use claude_sessions::text::string_push;
use claude_sessions::text::trim;

#[test]
fn trim_removes_both_ends() {
    assert_eq!(trim("  \t hello world \r\n"), "hello world");
    assert_eq!(trim("\u{a0}x\u{3000}"), "x");
    assert_eq!(trim("   "), "");
    assert_eq!(trim(""), "");
    assert_eq!(trim("a"), "a");
}

#[test]
fn contains_finds_infixes() {
    assert!(str_contains("esc to interrupt", "interrupt"));
    assert!(str_contains("esc to…", "esc t"));
    assert!(!str_contains("esc", "esc t"));
    assert!(str_contains("anything", ""));
    assert!(!str_contains("", "a"));
    assert!(str_contains("aab", "ab"));
    assert!(str_contains_char("─────", '─'));
    assert!(!str_contains_char("-----", '─'));
}

#[test]
fn chars_and_whitespace_scan() {
    let v = chars_of("1.  x");
    assert_eq!(v, vec!['1', '.', ' ', ' ', 'x']);
    assert!(has_non_whitespace_from(&v, 2));
    assert!(!has_non_whitespace_from(&v, 5));
    let w = chars_of("1. \t ");
    assert!(!has_non_whitespace_from(&w, 2));
}

#[test]
fn char_classes_from_std() {
    assert!(is_whitespace(' '));
    assert!(is_whitespace('\u{2003}'));
    assert!(!is_whitespace('x'));
    assert!(is_alphanumeric('a'));
    assert!(is_alphanumeric('é'));
    assert!(is_alphanumeric('٣'));
    assert!(!is_alphanumeric('-'));
    assert!(!is_alphanumeric('_'));
}

#[test]
fn string_push_and_pop() {
    let mut s = String::from("ab");
    string_push(&mut s, 'ç');
    assert_eq!(s, "abç");
    assert_eq!(string_pop(&mut s), Some('ç'));
    assert_eq!(s, "ab");
    let mut e = String::new();
    assert_eq!(string_pop(&mut e), None);
    assert_eq!(e, "");
}

#[test]
fn strip_csi_sequences() {
    assert_eq!(strip_ansi_codes("\x1b[32m1.\x1b[0m Yes"), "1. Yes");
    assert_eq!(strip_ansi_codes("\x1b[1;32mgreen"), "green");
    // an unterminated CSI sequence swallows the rest
    assert_eq!(strip_ansi_codes("ab\x1b[12;3"), "ab");
}

#[test]
fn strip_csi_final_byte_is_the_low_byte() {
    // U+0140 has low byte 0x40, so it ends the sequence as a final byte would.
    assert_eq!(strip_ansi_codes("\x1b[1\u{140}rest"), "rest");
    // U+0130 has low byte 0x30 and does not end it.
    assert_eq!(strip_ansi_codes("\x1b[1\u{130}mrest"), "rest");
}

#[test]
fn strip_osc_sequences() {
    assert_eq!(strip_ansi_codes("\x1b]0;title\x07after"), "after");
    assert_eq!(strip_ansi_codes("\x1b]8;;http://x\x1b\\link"), "link");
    // an escape followed by another character inside OSC consumes that character
    assert_eq!(strip_ansi_codes("\x1b]0;a\x1bxb\x07c"), "c");
    // OSC running to the end of the text
    assert_eq!(strip_ansi_codes("x\x1b]0;never closed"), "x");
    assert_eq!(strip_ansi_codes("x\x1b]0;\x1b"), "x");
}

#[test]
fn strip_two_char_and_lone_escapes() {
    assert_eq!(strip_ansi_codes("a\x1bMb"), "ab");
    assert_eq!(strip_ansi_codes("abc\x1b"), "abc");
    assert_eq!(strip_ansi_codes("plain text"), "plain text");
    assert_eq!(strip_ansi_codes(""), "");
}

#[test]
fn strip_is_idempotent_and_leaves_no_escape() {
    let s = "\x1b[31mred\x1b[0m \x1b]0;t\x07ok\x1bZ!";
    let once = strip_ansi_codes(s);
    assert_eq!(once, "red ok!");
    assert!(!once.contains('\x1b'));
    assert_eq!(strip_ansi_codes(&once), once);
}

#[test]
fn white_space_set() {
    for c in ['\t', '\n', '\u{b}', '\u{c}', '\r', ' ', '\u{85}', '\u{a0}', '\u{1680}', '\u{2000}', '\u{200a}', '\u{2028}', '\u{2029}', '\u{202f}', '\u{205f}', '\u{3000}'] {
        assert!(is_whitespace(c), "{:?}", c);
    }
    for c in ['\x1b', '\u{276f}', '\u{200b}', '\u{feff}', '\u{180e}', 'a', '\0'] {
        assert!(!is_whitespace(c), "{:?}", c);
    }
}
