use claude_sessions::scroll_state::ScrollState;

#[test]
fn new_state_is_at_top() {
    let s = ScrollState::new();
    assert_eq!(s.offset(), 0);
    let d = ScrollState::default();
    assert_eq!(d.offset(), 0);
}

#[test]
fn update_selects_and_centers() {
    let mut s = ScrollState::new();
    let st = s.update(7, 20, 10);
    assert_eq!(st.selected(), Some(7));
    assert_eq!(st.offset(), 2);
    assert_eq!(s.offset(), 2);
    let st = s.update(19, 20, 10);
    assert_eq!(st.selected(), Some(19));
    assert_eq!(s.offset(), 10);
    let _ = s.update(1, 20, 10);
    assert_eq!(s.offset(), 0);
}

#[test]
fn rendering_changes_are_seen_through_the_returned_state() {
    let mut s = ScrollState::new();
    let st = s.update(12, 40, 10);
    *st.offset_mut() = 9;
    assert_eq!(s.offset(), 9);
}

#[test]
fn odd_heights_and_short_lists() {
    // middle of 7 rows is 3
    assert_eq!(ScrollState::compute_centered_offset(4, 30, 7), 1);
    assert_eq!(ScrollState::compute_centered_offset(3, 30, 7), 0);
    // fewer items than rows: never scroll
    assert_eq!(ScrollState::compute_centered_offset(9, 10, 12), 0);
    // height 1: the selection is the only visible row
    assert_eq!(ScrollState::compute_centered_offset(5, 10, 1), 5);
}

#[test]
fn selection_stays_visible_and_offsets_grow() {
    for total in 1..30usize {
        for height in 1..12usize {
            let mut prev = 0;
            for sel in 0..total {
                let off = ScrollState::compute_centered_offset(sel, total, height);
                assert!(off <= sel && sel < off + height);
                assert!(off >= prev);
                prev = off;
            }
        }
    }
}
