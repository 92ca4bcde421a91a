use vstd::prelude::*;

use crate::hmi::base::{ButtonBehaviour, WidgetStates};
use crate::hmi::flags::{group_bit_flags, BitFlags};
use crate::hmi::input::{Input, MouseButton, MouseButtonId};

verus! {

broadcast use group_bit_flags;

/// Where the mouse is with respect to a widget's rectangle. The rectangle is
/// laid out in floating point, so the caller makes these tests.
#[derive(Copy, Clone, Debug, PartialEq, Eq)]
pub struct RectHits {
    /// The cursor is over the rectangle.
    pub hovering: bool,
    /// The cursor was over the rectangle at the start of the frame.
    pub prev_hovering: bool,
    /// The left button last went down or up over the rectangle.
    pub clicked_in: bool,
}

impl RectHits {
    pub fn new(hovering: bool, prev_hovering: bool, clicked_in: bool) -> (h: RectHits)
        ensures
            h == (RectHits { hovering, prev_hovering, clicked_in }),
    {
        RectHits { hovering, prev_hovering, clicked_in }
    }
}

/// The state of the left mouse button.
pub open spec fn left_button(i: Input) -> MouseButton {
    i.mouse.buttons@[0]
}

/// The bits of a widget state at the start of a frame: `Inactive`, with
/// `Modified` kept when it was set.
pub open spec fn reset_bits(bits: u32) -> u32 {
    if bits & 0x02 == 0x02 {
        0x06
    } else {
        0x04
    }
}

/// A hovered widget the cursor was not over before is `Entered`; one the
/// cursor was over before is `Left`.
pub open spec fn hover_transition(bits: u32, hits: RectHits) -> u32 {
    if bits & 0x10 != 0 && !hits.prev_hovering {
        bits | 0x08
    } else if hits.prev_hovering {
        bits | 0x40
    } else {
        bits
    }
}

/// The state of a button: hovered, or active while the left button is
/// down over it, otherwise reset; then entered or left.
pub open spec fn button_state_bits(bits: u32, i: Input, hits: RectHits) -> u32 {
    let s = if hits.hovering {
        if left_button(i).down {
            0x22u32
        } else {
            0x10u32
        }
    } else {
        reset_bits(bits)
    };
    hover_transition(s, hits)
}

/// The button fires: the cursor is over it, the left button last changed
/// over it, and the button is down (a repeater) or was pressed this frame
/// (a default button).
pub open spec fn button_fires(i: Input, hits: RectHits, behavior: ButtonBehaviour) -> bool {
    &&& hits.hovering
    &&& hits.clicked_in
    &&& match behavior {
        ButtonBehaviour::ButtonDefault => left_button(i).down && left_button(i).clicked != 0,
        ButtonBehaviour::ButtonRepeater => left_button(i).down,
    }
}

/// Sets a widget's entered or left state from the hover tests of its
/// rectangle.
pub(crate) fn apply_hover_transition(state: &mut BitFlags<WidgetStates>, hits: RectHits)
    ensures
        final(state).view_bits() == hover_transition(old(state).view_bits(), hits),
{
    if state.intersects(BitFlags::from_flag(WidgetStates::Hover)) && !hits.prev_hovering {
        state.insert(BitFlags::from_flag(WidgetStates::Entered));
    } else if hits.prev_hovering {
        state.insert(BitFlags::from_flag(WidgetStates::Left));
    }
}

/// Updates a button's state from the input and tells whether the button
/// fires. Without input the state is reset and the button does not fire.
pub fn button_behaviour(
    state: &mut BitFlags<WidgetStates>,
    hits: RectHits,
    i: Option<&Input>,
    behavior: ButtonBehaviour,
) -> (fired: bool)
    ensures
        match i {
            None => final(state).view_bits() == reset_bits(old(state).view_bits()) && !fired,
            Some(inp) => final(state).view_bits() == button_state_bits(old(state).view_bits(), *inp, hits)
                && fired == button_fires(*inp, hits, behavior),
        },
{
    *state = WidgetStates::reset(*state);
    match i {
        None => false,
        Some(inp) => {
            let left = MouseButtonId::ButtonLeft;
            let result = if hits.hovering {
                *state = BitFlags::from_flag(WidgetStates::Hover);
                if inp.is_mouse_down(left) {
                    *state = WidgetStates::active();
                }
                if hits.clicked_in {
                    match behavior {
                        ButtonBehaviour::ButtonDefault => inp.is_mouse_pressed(left),
                        ButtonBehaviour::ButtonRepeater => inp.is_mouse_down(left),
                    }
                } else {
                    false
                }
            } else {
                false
            };
            apply_hover_transition(state, hits);
            result
        },
    }
}

/// A button fires only while the cursor is over it, the left button last
/// changed over it and is down, whatever the button's behaviour.
pub proof fn lemma_button_fires_only_over_it(i: Input, hits: RectHits, behavior: ButtonBehaviour)
    ensures
        button_fires(i, hits, behavior) ==> hits.hovering && hits.clicked_in && left_button(i).down,
{
}

/// With the cursor over the button and the left button down after last
/// changing over it, a repeater fires, and a default button fires exactly
/// when the left button changed this frame.
pub proof fn lemma_button_fires_when_pressed_over_it(i: Input, hits: RectHits)
    requires
        hits.hovering,
        hits.clicked_in,
        left_button(i).down,
    ensures
        button_fires(i, hits, ButtonBehaviour::ButtonRepeater),
        button_fires(i, hits, ButtonBehaviour::ButtonDefault) == (left_button(i).clicked != 0),
{
}

/// A default button does not fire in a frame in which the left button did
/// not change.
pub proof fn lemma_default_button_fires_on_change(i: Input, hits: RectHits)
    ensures
        button_fires(i, hits, ButtonBehaviour::ButtonDefault) ==> left_button(i).clicked != 0,
{
}

/// A widget the cursor has come onto is entered; one the cursor was over at
/// the start of the frame is left; no other state changes.
pub proof fn lemma_hover_transition(bits: u32, hits: RectHits)
    ensures
        bits & 0x10 != 0 && !hits.prev_hovering ==> hover_transition(bits, hits) & 0x08 != 0,
        hits.prev_hovering ==> hover_transition(bits, hits) & 0x40 != 0,
        !hits.prev_hovering && bits & 0x10 == 0 ==> hover_transition(bits, hits) == bits,
        hover_transition(bits, hits) & !0x48u32 == bits & !0x48u32,
{
    lemma_transition_masks(bits);
}

/// A button under the cursor is hovered, and active while the left button is
/// down; a button the cursor is not over is neither hovered nor active.
pub proof fn lemma_button_state(bits: u32, i: Input, hits: RectHits)
    ensures
        hits.hovering && left_button(i).down ==> button_state_bits(bits, i, hits) & 0x22 == 0x22,
        hits.hovering && !left_button(i).down ==> button_state_bits(bits, i, hits) & 0x30 == 0x10,
        !hits.hovering ==> button_state_bits(bits, i, hits) & 0x30 == 0,
{
    lemma_transition_masks(0x22);
    lemma_transition_masks(0x10);
    lemma_transition_masks(reset_bits(bits));
    lemma_reset_masks();
}

proof fn lemma_transition_masks(x: u32)
    by (bit_vector)
    ensures
        (x | 0x08u32) & 0x08 != 0,
        (x | 0x40u32) & 0x40 != 0,
        (x | 0x08u32) & !0x48u32 == x & !0x48u32,
        (x | 0x40u32) & !0x48u32 == x & !0x48u32,
        (x | 0x08u32) & 0x22 == x & 0x22,
        (x | 0x40u32) & 0x22 == x & 0x22,
        (x | 0x08u32) & 0x30 == x & 0x30,
        (x | 0x40u32) & 0x30 == x & 0x30,
{
}

proof fn lemma_reset_masks()
    by (bit_vector)
    ensures
        0x22u32 & 0x22 == 0x22,
        0x10u32 & 0x30 == 0x10,
        0x06u32 & 0x30 == 0,
        0x04u32 & 0x30 == 0,
{
}

} // verus!
