//! Scroll state with center-locked selection.
//!
//! As the selection moves down, it stays in the middle of the visible area
//! until the last items come into view; from then on the view stops and the
//! selection moves into its lower part.

use vstd::prelude::*;
use ratatui::widgets::ListState;

verus! {

#[verifier::external_type_specification]
#[verifier::external_body]
pub struct ExListState(ratatui::widgets::ListState);

/// The index of the first visible item that a `ListState` holds.
pub uninterp spec fn list_offset(s: ListState) -> usize;

/// The selected index that a `ListState` holds.
pub uninterp spec fn list_selected(s: ListState) -> Option<usize>;

/// Calls `ListState::default()`. The struct derives `Default`, so both of its
/// fields take their default: offset `0`, nothing selected.
#[verifier::external_body]
fn list_state_default() -> (s: ListState)
    ensures
        list_offset(s) == 0,
        list_selected(s) is None,
{
    ListState::default()
}

/// Calls `ListState::offset`, which returns the offset field.
#[verifier::external_body]
fn list_state_offset(s: &ListState) -> (r: usize)
    ensures
        r == list_offset(*s),
{
    s.offset()
}

/// Calls `ListState::select`, which stores `index` as the selection and, when
/// `index` is `None`, resets the offset to `0`; otherwise the offset is kept.
#[verifier::external_body]
fn list_state_select(s: &mut ListState, index: Option<usize>)
    ensures
        list_selected(*final(s)) == index,
        list_offset(*final(s)) == (if index is None {
            0
        } else {
            list_offset(*old(s))
        }),
{
    s.select(index)
}

/// Writes `offset` through `ListState::offset_mut`, which hands out the offset
/// field; the selection is untouched.
#[verifier::external_body]
fn list_state_set_offset(s: &mut ListState, offset: usize)
    ensures
        list_offset(*final(s)) == offset,
        list_selected(*final(s)) == list_selected(*old(s)),
{
    *s.offset_mut() = offset;
}

/// The scroll offset that keeps `selected` centered in a view of `height` rows
/// over `total` items: `0` while the selection is in the top half (no negative
/// scroll), else the selection minus half the height, but never past the point
/// where the last items fill the view.
pub open spec fn centered_offset(selected: int, total: int, height: int) -> int {
    if height == 0 || total == 0 {
        0
    } else {
        let middle = height / 2;
        if selected <= middle {
            0
        } else {
            let ideal = selected - middle;
            let max_offset = if total >= height {
                total - height
            } else {
                0
            };
            if ideal <= max_offset {
                ideal
            } else {
                max_offset
            }
        }
    }
}

/// The view never scrolls above the top nor past the selection, and never past
/// the point where the last items fill it.
pub proof fn lemma_centered_offset_bounds(selected: int, total: int, height: int)
    requires
        0 <= selected,
        0 <= total,
        0 <= height,
    ensures
        0 <= centered_offset(selected, total, height) <= selected,
        centered_offset(selected, total, height) <= (if total >= height {
            total - height
        } else {
            0
        }),
{
}

/// A selected item of the list is always visible: it lies between the offset
/// and the offset plus the height.
pub proof fn lemma_selection_visible(selected: int, total: int, height: int)
    requires
        0 <= selected < total,
        0 < height,
    ensures
        centered_offset(selected, total, height) <= selected < centered_offset(
            selected,
            total,
            height,
        ) + height,
{
}

/// Away from the top and from the end, the selection sits exactly in the
/// middle row of the view.
pub proof fn lemma_selection_centered(selected: int, total: int, height: int)
    requires
        0 < height,
        0 < total,
        height / 2 < selected,
        selected - height / 2 <= total - height,
    ensures
        selected - centered_offset(selected, total, height) == height / 2,
{
}

/// Moving the selection down never scrolls the view up.
pub proof fn lemma_centered_offset_monotone(s1: int, s2: int, total: int, height: int)
    requires
        0 <= s1 <= s2,
        0 <= total,
        0 <= height,
    ensures
        centered_offset(s1, total, height) <= centered_offset(s2, total, height),
{
}

/// Manages scroll state for a list with center-locked scrolling.
pub struct ScrollState {
    list_state: ListState,
}

impl ScrollState {
    /// The list state that rendering uses.
    pub closed spec fn list_state_view(&self) -> ListState {
        self.list_state
    }

    /// The index of the first visible item.
    pub open spec fn offset_view(&self) -> usize {
        list_offset(self.list_state_view())
    }

    /// The selected index.
    pub open spec fn selected_view(&self) -> Option<usize> {
        list_selected(self.list_state_view())
    }

    /// A scroll state at the top, with nothing selected.
    pub fn new() -> (s: Self)
        ensures
            s.offset_view() == 0,
            s.selected_view() is None,
    {
        ScrollState { list_state: list_state_default() }
    }

    /// The current scroll offset (the index of the first visible item).
    pub fn offset(&self) -> (r: usize)
        ensures
            r == self.offset_view(),
    {
        list_state_offset(&self.list_state)
    }

    /// Selects `selected` and scrolls so that it stays centered; returns the
    /// list state for rendering.
    pub fn update(&mut self, selected: usize, total_items: usize, visible_height: usize) -> (r:
        &mut ListState)
        ensures
            list_selected(*r) == Some(selected),
            list_offset(*r) == centered_offset(
                selected as int,
                total_items as int,
                visible_height as int,
            ),
            final(self).list_state_view() == *final(r),
    {
        list_state_select(&mut self.list_state, Some(selected));
        let offset = Self::compute_centered_offset(selected, total_items, visible_height);
        list_state_set_offset(&mut self.list_state, offset);
        &mut self.list_state
    }

    /// The scroll offset that keeps the selection centered (see `centered_offset`).
    pub fn compute_centered_offset(selected: usize, total_items: usize, visible_height: usize) -> (r:
        usize)
        ensures
            r == centered_offset(selected as int, total_items as int, visible_height as int),
    {
        if visible_height == 0 || total_items == 0 {
            return 0;
        }
        let middle = visible_height / 2;
        if selected <= middle {
            return 0;
        }
        let ideal_offset = selected - middle;
        let max_offset = if total_items >= visible_height {
            total_items - visible_height
        } else {
            0
        };
        if ideal_offset <= max_offset {
            ideal_offset
        } else {
            max_offset
        }
    }
}

impl Default for ScrollState {
    fn default() -> (s: Self)
        ensures
            s.offset_view() == 0,
            s.selected_view() is None,
    {
        Self::new()
    }
}

} // verus!
