use claude_sessions::detection::detect_status;
use claude_sessions::detection::find_input_field_line;
use claude_sessions::detection::has_numbered_options;
use claude_sessions::detection::is_numbered_option;
use claude_sessions::detection::lines_of;
use claude_sessions::detection::ClaudeCodeStatus;
use claude_sessions::text::chars_of;

#[test]
fn lines_split_like_str_lines() {
    for s in ["", "a", "a\n", "a\nb", "a\r\nb\r\n", "\n", "\n\n", "a\rb", "x\r", "\r\n", "a\n\nb\n"] {
        let expected: Vec<&str> = s.lines().collect();
        assert_eq!(lines_of(s), expected, "for {:?}", s);
    }
}

#[test]
fn input_field_is_the_last_prompt_under_a_border() {
    let lines = vec!["─────", "❯ old", "text", "─────", "❯ new", "after"];
    assert_eq!(find_input_field_line(&lines), Some(4));
    let lines = vec!["❯ first line", "─────"];
    assert_eq!(find_input_field_line(&lines), None);
    let lines = vec!["─────", "text", "❯ x"];
    assert_eq!(find_input_field_line(&lines), None);
    let lines: Vec<&str> = vec![];
    assert_eq!(find_input_field_line(&lines), None);
}

#[test]
fn numbered_option_lines() {
    assert!(is_numbered_option(&chars_of("1. Yes")));
    assert!(is_numbered_option(&chars_of("12) No")));
    assert!(!is_numbered_option(&chars_of("1.")));
    assert!(!is_numbered_option(&chars_of("1.   ")));
    assert!(!is_numbered_option(&chars_of(". x")));
    assert!(!is_numbered_option(&chars_of("a1. x")));
    assert!(!is_numbered_option(&chars_of("1 . x")));
    assert!(is_numbered_option(&chars_of("3.x")));
}

#[test]
fn numbered_options_in_a_range() {
    let lines = vec!["title", "  1. Yes  ", "\x1b[1m2.\x1b[0m No", "other"];
    assert!(has_numbered_options(&lines, 1, 1));
    assert!(has_numbered_options(&lines, 2, 3));
    assert!(!has_numbered_options(&lines, 0, 0));
    assert!(!has_numbered_options(&lines, 3, 3));
    // an escape code before the digit hides it
    let lines = vec!["\x1b[1m 1. x"];
    assert!(!has_numbered_options(&lines, 0, 0));
}

#[test]
fn capitalised_yes_no_question() {
    assert_eq!(detect_status("Proceed? [Y/n]"), ClaudeCodeStatus::WaitingInput);
    assert_eq!(detect_status("Proceed? [y/N]"), ClaudeCodeStatus::Unknown);
    assert_eq!(detect_status(""), ClaudeCodeStatus::Unknown);
}

#[test]
fn interrupt_window_reaches_twenty_lines_below() {
    let mut lines = vec!["─────".to_string(), "❯ ".to_string()];
    for _ in 0..19 {
        lines.push("x".to_string());
    }
    lines.push("esc to interrupt".to_string()); // line 21 = prompt + 20
    assert_eq!(detect_status(&lines.join("\n")), ClaudeCodeStatus::Working);
    lines.insert(2, "y".to_string()); // now at prompt + 21
    assert_eq!(detect_status(&lines.join("\n")), ClaudeCodeStatus::Idle);
}

#[test]
fn interrupt_window_reaches_two_lines_above() {
    let content = "interrupt\nx\n─────\n❯ a";
    assert_eq!(detect_status(content), ClaudeCodeStatus::Idle);
    let content = "x\ninterrupt\n─────\n❯ a";
    assert_eq!(detect_status(content), ClaudeCodeStatus::Working);
}

#[test]
fn the_latest_input_field_decides() {
    let content = "─────\n1. old\n─────\n❯ ready";
    assert_eq!(detect_status(content), ClaudeCodeStatus::WaitingInput);
    let mut s = String::from("─────\n1. old\n");
    for _ in 0..25 {
        s.push_str("filler\n");
    }
    s.push_str("─────\n❯ ready");
    assert_eq!(detect_status(&s), ClaudeCodeStatus::Idle);
}

#[test]
fn crlf_screens_read_like_lf_screens() {
    let content = "* (esc to interrupt)\r\n─────\r\n❯ hello\r\n";
    assert_eq!(detect_status(content), ClaudeCodeStatus::Working);
}

#[test]
fn fallback_falls_through_to_yes_no() {
    // a prompt without border and without options, but a [y/n] question
    let content = "Overwrite? [y/n]\n❯ ";
    assert_eq!(detect_status(content), ClaudeCodeStatus::WaitingInput);
}

#[test]
fn scrollback_above_the_prompt_does_not_matter() {
    let screens = [
        "a\nb\n─────\n❯ 1. Yes\n2. No",
        "x\ny\n─────\n❯ hello",
        "x\ny\n─────\n❯ \n─────\nesc to interrupt",
    ];
    for c in screens {
        for p in ["", "old interrupt", "1. old option\n[y/n]", "\x1b[31mred\r"] {
            let joined = format!("{}\n{}", p, c);
            assert_eq!(detect_status(&joined), detect_status(c), "{:?} above {:?}", p, c);
        }
    }
}

#[test]
fn coloured_options_and_prompt_marker() {
    let lines = vec!["❯ 1. Yes", "1.", "1.   ", "a1. x", ". x", "12 items", "", "\x1b[1m"];
    assert!(!has_numbered_options(&lines, 0, 7));
    let lines = vec!["  3) go  "];
    assert!(has_numbered_options(&lines, 0, 0));
    let lines = vec!["1. Yes", "hello"];
    assert!(!has_numbered_options(&lines, 1, 1));
}
