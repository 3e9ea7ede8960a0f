use claude_sessions::detection::detect_status;
use claude_sessions::detection::ClaudeCodeStatus;


#[test]
fn test_working() {
    // Border directly above prompt
    let content = "* (ctrl+c to interrupt)\n─────\n❯ hello";
    assert_eq!(detect_status(content), ClaudeCodeStatus::Working);
}

#[test]
fn test_working_with_esc() {
    // New format: esc to interrupt
    let content = "* (esc to interrupt)\n─────\n❯ hello";
    assert_eq!(detect_status(content), ClaudeCodeStatus::Working);
}

#[test]
fn test_working_with_escape_uppercase() {
    let content = "Ctrl+C to interrupt\n─────\n❯ hello";
    assert_eq!(detect_status(content), ClaudeCodeStatus::Working);
}

#[test]
fn test_working_esc_on_prompt_line() {
    // Interrupt message on same line as prompt
    let content = "─────\n❯ esc to interrupt";
    assert_eq!(detect_status(content), ClaudeCodeStatus::Working);
}

#[test]
fn test_working_esc_above_border() {
    // Simple "esc to interrupt" without wrapper chars
    let content = "esc to interrupt\n─────\n❯ hello";
    assert_eq!(detect_status(content), ClaudeCodeStatus::Working);
}

#[test]
fn test_idle() {
    // Border directly above prompt
    let content = "● Done\n─────\n❯ hello";
    assert_eq!(detect_status(content), ClaudeCodeStatus::Idle);
}

#[test]
fn test_false_positive_from_scrollback() {
    // Old output contains "interrupt", but current prompt does NOT show interrupt message.
    // Should be Idle, not Working - verifies we only search near prompt
    let content = "Some old output mentioning interrupt\n\n─────\n❯ ready";
    assert_eq!(detect_status(content), ClaudeCodeStatus::Idle);
}

#[test]
fn test_no_border_above_prompt() {
    // Border exists but not directly above prompt - should be unknown
    let content = "─────\nsome text\n❯ hello";
    assert_eq!(detect_status(content), ClaudeCodeStatus::Unknown);
}

#[test]
fn test_waiting_input() {
    let content = "Delete files? [y/n]";
    assert_eq!(detect_status(content), ClaudeCodeStatus::WaitingInput);
}

#[test]
fn test_unknown() {
    let content = "random stuff";
    assert_eq!(detect_status(content), ClaudeCodeStatus::Unknown);
}

#[test]
fn test_interrupt_below_prompt() {
    // Interrupt message appears below the prompt/separator (real-world layout)
    let content = "────────────────────\n❯ \n────────────────────\n  ⏵⏵ bypass permissions on (shift+tab to cycle) · esc to interrupt";
    assert_eq!(detect_status(content), ClaudeCodeStatus::Working);
}

#[test]
fn test_truncated_interrupt() {
    // Truncated message due to narrow window: "esc to…"
    let content = "────────────────────\n❯ \n────────────────────\n  ⏵⏵ bypass permissions on (shift+tab to cycle) · esc to…";
    assert_eq!(detect_status(content), ClaudeCodeStatus::Working);
}

#[test]
fn test_waiting_input_numbered_choices() {
    // Multiple choice prompt with numbered options
    let content = "\nDo you want to proceed?\n─────\n❯ 1. Yes\n  2. Yes, and don't ask again for: env\n  3. No\n\nEsc to cancel · Tab to amend · ctrl+e to explain";
    assert_eq!(detect_status(content), ClaudeCodeStatus::WaitingInput);
}

#[test]
fn test_waiting_input_numbered_choices_below_prompt() {
    // Options appear below the prompt line
    let content = "─────\n❯ Select action:\n1. Continue\n2. Cancel\n3. Help";
    assert_eq!(detect_status(content), ClaudeCodeStatus::WaitingInput);
}

#[test]
fn test_waiting_input_parenthesis_numbers() {
    // Test with closing parenthesis instead of period
    let content = "─────\n❯ Choose:\n1) Accept\n2) Decline";
    assert_eq!(detect_status(content), ClaudeCodeStatus::WaitingInput);
}

#[test]
fn test_waiting_input_numbered_choices_no_border() {
    // Prompt with numbered choices but no border line - should still be detected via fallback
    let content = "Do you want to proceed?\n❯ 1. Yes\n2. No\n3. Maybe";
    assert_eq!(detect_status(content), ClaudeCodeStatus::WaitingInput);
}

#[test]
fn test_no_border_no_numbered_options() {
    // Prompt line without border and without numbered choices - should remain Unknown
    let content = "❯ ready";
    assert_eq!(detect_status(content), ClaudeCodeStatus::Unknown);
}

#[test]
fn test_waiting_input_with_ansi_codes() {
    // Simulate colored numbered options with ANSI escape codes
    let content = "Do you want to proceed?\n\x1b[32m❯\x1b[0m \x1b[1;32m1.\x1b[0m Yes\n\x1b[1;32m2.\x1b[0m No\n\x1b[1;32m3.\x1b[0m Maybe";
    assert_eq!(detect_status(content), ClaudeCodeStatus::WaitingInput);
}
