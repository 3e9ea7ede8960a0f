use claude_sessions::scroll_state::ScrollState;


#[test]
fn test_no_scroll_when_at_top() {
    // With 10 visible rows, middle is at index 5
    // Selection at 0-5 should have offset 0
    assert_eq!(ScrollState::compute_centered_offset(0, 20, 10), 0);
    assert_eq!(ScrollState::compute_centered_offset(3, 20, 10), 0);
    assert_eq!(ScrollState::compute_centered_offset(5, 20, 10), 0);
}

#[test]
fn test_scroll_to_center_selection() {
    // Selection at 7 with 10 visible rows (middle = 5)
    // Should scroll by 2 to put selection at middle
    assert_eq!(ScrollState::compute_centered_offset(7, 20, 10), 2);
    assert_eq!(ScrollState::compute_centered_offset(10, 20, 10), 5);
}

#[test]
fn test_max_scroll_at_bottom() {
    // With 20 items and 10 visible, max offset is 10
    // Selection at 18 would ideally want offset 13, but capped at 10
    assert_eq!(ScrollState::compute_centered_offset(18, 20, 10), 10);
    assert_eq!(ScrollState::compute_centered_offset(19, 20, 10), 10);
}

#[test]
fn test_edge_cases() {
    // Empty list
    assert_eq!(ScrollState::compute_centered_offset(0, 0, 10), 0);
    // Zero height
    assert_eq!(ScrollState::compute_centered_offset(5, 20, 0), 0);
    // List smaller than visible area
    assert_eq!(ScrollState::compute_centered_offset(3, 5, 10), 0);
}
