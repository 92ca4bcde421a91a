use vstd::prelude::*;

use crate::hmi::base::WidgetStates;
use crate::hmi::button::{apply_hover_transition, hover_transition, left_button, reset_bits, RectHits};
use crate::hmi::flags::{group_bit_flags, BitFlags};
use crate::hmi::input::{Input, MouseButtonId};

verus! {

broadcast use group_bit_flags;

/// The value of a progress bar follows the mouse: the left button is down
/// and last went down over the bar's cursor.
pub open spec fn progress_dragged(i: Input, cursor: RectHits) -> bool {
    left_button(i).down && cursor.clicked_in
}

/// The state of a modifiable progress bar with input: reset, hovered when
/// the cursor is over the bar, active as well while dragged; then entered
/// or left.
pub open spec fn progress_state_bits(bits: u32, i: Input, r: RectHits, cursor: RectHits) -> u32 {
    let s1 = if r.hovering {
        0x12u32
    } else {
        reset_bits(bits)
    };
    let s2 = if progress_dragged(i, cursor) {
        s1 | 0x22u32
    } else {
        s1
    };
    hover_transition(s2, r)
}

/// Updates a progress bar's state from the input, and tells whether its
/// value follows the mouse this frame (the caller then sets the value from
/// the mouse position). A bar that cannot be modified, or that has no
/// input, only has its state reset.
pub fn progress_behaviour(
    state: BitFlags<WidgetStates>,
    input: Option<&Input>,
    r: RectHits,
    cursor: RectHits,
    modifiable: bool,
) -> (res: (BitFlags<WidgetStates>, bool))
    ensures
        match input {
            Some(inp) if modifiable => res.0.view_bits() == progress_state_bits(state.view_bits(), *inp, r, cursor)
                && res.1 == progress_dragged(*inp, cursor),
            _ => res.0.view_bits() == reset_bits(state.view_bits()) && !res.1,
        },
{
    let mut state = WidgetStates::reset(state);
    if !modifiable {
        return (state, false);
    }
    match input {
        None => (state, false),
        Some(inp) => {
            if r.hovering {
                state = WidgetStates::hovered();
            }
            let dragged = inp.has_mouse_down(MouseButtonId::ButtonLeft) && cursor.clicked_in;
            if dragged {
                state.insert(WidgetStates::active());
            }
            apply_hover_transition(&mut state, r);
            (state, dragged)
        },
    }
}

/// The value of a modifiable progress bar follows the mouse exactly when the
/// left button is down and went down over the cursor, whether or not the
/// mouse is over the cursor now.
pub proof fn lemma_progress_follows_press_on_cursor(i: Input, cursor: RectHits)
    ensures
        progress_dragged(i, cursor) == (left_button(i).down && cursor.clicked_in),
        progress_dragged(i, cursor) == progress_dragged(i, RectHits { hovering: !cursor.hovering, ..cursor }),
{
}

/// A bar whose value follows the mouse is active; one that is not hovered
/// and not dragged keeps only its modified option from the reset state.
pub proof fn lemma_progress_state(bits: u32, i: Input, r: RectHits, cursor: RectHits)
    ensures
        progress_dragged(i, cursor) ==> progress_state_bits(bits, i, r, cursor) & 0x22 == 0x22,
        r.hovering ==> progress_state_bits(bits, i, r, cursor) & 0x12 == 0x12,
        !r.hovering && !progress_dragged(i, cursor) ==> progress_state_bits(bits, i, r, cursor) & 0x30
            == 0,
{
    let s1 = if r.hovering {
        0x12u32
    } else {
        reset_bits(bits)
    };
    let s2 = if progress_dragged(i, cursor) {
        s1 | 0x22u32
    } else {
        s1
    };
    lemma_state_masks(s2);
    lemma_state_masks(s1);
}

/// The entered and left bits leave the hover and active bits as they are.
proof fn lemma_state_masks(x: u32)
    by (bit_vector)
    ensures
        (x | 0x08u32) & 0x22 == x & 0x22,
        (x | 0x40u32) & 0x22 == x & 0x22,
        (x | 0x08u32) & 0x12 == x & 0x12,
        (x | 0x40u32) & 0x12 == x & 0x12,
        (x | 0x08u32) & 0x30 == x & 0x30,
        (x | 0x40u32) & 0x30 == x & 0x30,
        (x | 0x22u32) & 0x22 == 0x22,
        (0x12u32 | 0x22u32) & 0x12 == 0x12,
        0x12u32 & 0x12 == 0x12,
        0x06u32 & 0x30 == 0,
        0x04u32 & 0x30 == 0,
{
}

} // verus!
