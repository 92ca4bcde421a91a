use vstd::prelude::*;

use crate::hmi::base::{ButtonBehaviour, WidgetStates};
use crate::hmi::button::{apply_hover_transition, button_behaviour, button_fires, hover_transition, left_button, RectHits};
use crate::hmi::flags::{group_bit_flags, BitFlags};
use crate::hmi::input::{spec_key_pressed, Input, KeyId, MouseButtonId};

verus! {

broadcast use group_bit_flags;

/// The direction a scrollbar scrolls in.
#[derive(Copy, Clone, Debug, PartialEq, Eq, Structural)]
pub enum Orientation {
    Vertical,
    Horizontal,
}

/// How a scrollbar's offset changes this frame; the caller computes the new
/// offset, which is floating point.
#[derive(Copy, Clone, Debug, PartialEq, Eq, Structural)]
pub enum ScrollAction {
    /// There is no input: the offset becomes zero.
    Reset,
    /// The cursor is dragged: the offset follows the mouse's motion.
    Drag,
    /// One page back, down to zero.
    PageBack,
    /// One page forward, up to the end.
    PageForward,
    /// The mouse wheel moves the offset, within its range.
    Wheel,
    /// The offset goes to the start.
    ToStart,
    /// The offset goes to the end.
    ToEnd,
    /// The offset stays.
    Keep,
}

/// The key is pressed this frame.
pub open spec fn key_pressed(i: Input, k: KeyId) -> bool {
    spec_key_pressed(i.keyboard.keys@[k.spec_index() as int])
}

/// What a scrollbar does with input: dragging its cursor while the left
/// button is down over it; otherwise a page back or forward for the scroll
/// keys (vertical bars that scroll) or a click on the empty space before or
/// after the cursor; otherwise, for a bar that scrolls, the wheel, then the
/// start and end keys (vertical bars only).
pub open spec fn scroll_action(
    i: Input,
    has_scrolling: bool,
    o: Orientation,
    cursor: RectHits,
    empty0: RectHits,
    empty1: RectHits,
    wheel_moved: bool,
) -> ScrollAction {
    let vertical = o == Orientation::Vertical;
    if left_button(i).down && cursor.clicked_in {
        ScrollAction::Drag
    } else if (key_pressed(i, KeyId::KeyScrollUp) && vertical && has_scrolling) || button_fires(
        i,
        empty0,
        ButtonBehaviour::ButtonDefault,
    ) {
        ScrollAction::PageBack
    } else if (key_pressed(i, KeyId::KeyScrollDown) && vertical && has_scrolling) || button_fires(
        i,
        empty1,
        ButtonBehaviour::ButtonDefault,
    ) {
        ScrollAction::PageForward
    } else if has_scrolling {
        if wheel_moved {
            ScrollAction::Wheel
        } else if key_pressed(i, KeyId::KeyScrollStart) {
            if vertical {
                ScrollAction::ToStart
            } else {
                ScrollAction::Keep
            }
        } else if key_pressed(i, KeyId::KeyScrollEnd) {
            if vertical {
                ScrollAction::ToEnd
            } else {
                ScrollAction::Keep
            }
        } else {
            ScrollAction::Keep
        }
    } else {
        ScrollAction::Keep
    }
}

/// The state of a scrollbar with input: hovered when the cursor is over
/// the bar, active while its cursor is dragged; then entered or left.
pub open spec fn scroll_state_bits(i: Input, scroll: RectHits, cursor: RectHits) -> u32 {
    let s = if left_button(i).down && cursor.clicked_in {
        0x22u32
    } else if scroll.hovering {
        0x10u32
    } else {
        0u32
    };
    hover_transition(s, scroll)
}

/// Decides a scrollbar's state and how its offset changes this frame, from
/// the input and the tests of its rectangles: the bar (`scroll`), its
/// cursor and the empty spaces before (`empty0`) and after (`empty1`) the
/// cursor. `wheel_moved` tells whether the mouse wheel moved along the bar.
pub fn scrollbar_behavior(
    inp: Option<&Input>,
    has_scrolling: bool,
    scroll: RectHits,
    cursor: RectHits,
    empty0: RectHits,
    empty1: RectHits,
    wheel_moved: bool,
    o: Orientation,
) -> (res: (BitFlags<WidgetStates>, ScrollAction))
    ensures
        match inp {
            None => res.0.view_bits() == 0 && res.1 == ScrollAction::Reset,
            Some(i) => res.0.view_bits() == scroll_state_bits(*i, scroll, cursor) && res.1 == scroll_action(
                *i,
                has_scrolling,
                o,
                cursor,
                empty0,
                empty1,
                wheel_moved,
            ),
        },
{
    match inp {
        None => (BitFlags::empty(), ScrollAction::Reset),
        Some(input) => scroll_with_input(input, has_scrolling, scroll, cursor, empty0, empty1, wheel_moved, o),
    }
}

fn scroll_with_input(
    input: &Input,
    has_scrolling: bool,
    scroll: RectHits,
    cursor: RectHits,
    empty0: RectHits,
    empty1: RectHits,
    wheel_moved: bool,
    o: Orientation,
) -> (res: (BitFlags<WidgetStates>, ScrollAction))
    ensures
        res.0.view_bits() == scroll_state_bits(*input, scroll, cursor),
        res.1 == scroll_action(*input, has_scrolling, o, cursor, empty0, empty1, wheel_moved),
{
    let left = MouseButtonId::ButtonLeft;
    let vertical = o == Orientation::Vertical;
    let left_mouse_down = input.has_mouse_down(left);
    let left_mouse_clicked = input.has_mouse_click(left);
    let left_mouse_click_in_cursor = cursor.clicked_in && input.has_mouse_down(left);

    let mut state = BitFlags::empty();
    if scroll.hovering {
        state.insert(BitFlags::from_flag(WidgetStates::Hover));
        assert(0u32 | 0x10u32 == 0x10u32) by (bit_vector);
    }
    let action = if left_mouse_down && left_mouse_click_in_cursor && !left_mouse_clicked {
        state = WidgetStates::active();
        ScrollAction::Drag
    } else {
        let mut back_state = BitFlags::empty();
        let mut forward_state = BitFlags::empty();
        if (input.is_key_pressed(KeyId::KeyScrollUp) && vertical && has_scrolling) || button_behaviour(
            &mut back_state,
            empty0,
            Some(input),
            ButtonBehaviour::ButtonDefault,
        ) {
            ScrollAction::PageBack
        } else if (input.is_key_pressed(KeyId::KeyScrollDown) && vertical && has_scrolling)
            || button_behaviour(&mut forward_state, empty1, Some(input), ButtonBehaviour::ButtonDefault) {
            ScrollAction::PageForward
        } else if has_scrolling {
            if wheel_moved {
                ScrollAction::Wheel
            } else if input.is_key_pressed(KeyId::KeyScrollStart) {
                if vertical {
                    ScrollAction::ToStart
                } else {
                    ScrollAction::Keep
                }
            } else if input.is_key_pressed(KeyId::KeyScrollEnd) {
                if vertical {
                    ScrollAction::ToEnd
                } else {
                    ScrollAction::Keep
                }
            } else {
                ScrollAction::Keep
            }
        } else {
            ScrollAction::Keep
        }
    };
    apply_hover_transition(&mut state, scroll);
    (state, action)
}

/// The cursor is dragged: the left button is down and went down over it.
pub open spec fn cursor_dragged(i: Input, cursor: RectHits) -> bool {
    left_button(i).down && cursor.clicked_in
}

/// Dragging the cursor wins over every other input, and only a drag moves
/// the offset with the mouse.
pub proof fn lemma_scroll_drag(
    i: Input,
    has_scrolling: bool,
    o: Orientation,
    cursor: RectHits,
    empty0: RectHits,
    empty1: RectHits,
    wheel_moved: bool,
)
    ensures
        (scroll_action(i, has_scrolling, o, cursor, empty0, empty1, wheel_moved) == ScrollAction::Drag)
            == cursor_dragged(i, cursor),
{
}

/// Without a drag, a page goes back on the scroll up key of a vertical bar
/// that scrolls, or on a click on the space before the cursor.
pub proof fn lemma_scroll_page_back(
    i: Input,
    has_scrolling: bool,
    o: Orientation,
    cursor: RectHits,
    empty0: RectHits,
    empty1: RectHits,
    wheel_moved: bool,
)
    requires
        !cursor_dragged(i, cursor),
        (key_pressed(i, KeyId::KeyScrollUp) && o == Orientation::Vertical && has_scrolling)
            || button_fires(i, empty0, ButtonBehaviour::ButtonDefault),
    ensures
        scroll_action(i, has_scrolling, o, cursor, empty0, empty1, wheel_moved) == ScrollAction::PageBack,
{
}

/// Without a drag or a page back, a page goes forward on the scroll down key
/// of a vertical bar that scrolls, or on a click on the space after the
/// cursor.
pub proof fn lemma_scroll_page_forward(
    i: Input,
    has_scrolling: bool,
    o: Orientation,
    cursor: RectHits,
    empty0: RectHits,
    empty1: RectHits,
    wheel_moved: bool,
)
    requires
        !cursor_dragged(i, cursor),
        !(key_pressed(i, KeyId::KeyScrollUp) && o == Orientation::Vertical && has_scrolling),
        !button_fires(i, empty0, ButtonBehaviour::ButtonDefault),
        (key_pressed(i, KeyId::KeyScrollDown) && o == Orientation::Vertical && has_scrolling)
            || button_fires(i, empty1, ButtonBehaviour::ButtonDefault),
    ensures
        scroll_action(i, has_scrolling, o, cursor, empty0, empty1, wheel_moved) == ScrollAction::PageForward,
{
}

/// With no drag and no page trigger, a bar that scrolls follows the wheel,
/// then goes to the start or the end on those keys when it is vertical; a
/// bar that does not scroll keeps its offset.
pub proof fn lemma_scroll_wheel_and_keys(
    i: Input,
    has_scrolling: bool,
    o: Orientation,
    cursor: RectHits,
    empty0: RectHits,
    empty1: RectHits,
    wheel_moved: bool,
)
    requires
        !cursor_dragged(i, cursor),
        !(key_pressed(i, KeyId::KeyScrollUp) && o == Orientation::Vertical && has_scrolling),
        !button_fires(i, empty0, ButtonBehaviour::ButtonDefault),
        !(key_pressed(i, KeyId::KeyScrollDown) && o == Orientation::Vertical && has_scrolling),
        !button_fires(i, empty1, ButtonBehaviour::ButtonDefault),
    ensures
        ({
            let a = scroll_action(i, has_scrolling, o, cursor, empty0, empty1, wheel_moved);
            &&& !has_scrolling ==> a == ScrollAction::Keep
            &&& has_scrolling && wheel_moved ==> a == ScrollAction::Wheel
            &&& has_scrolling && !wheel_moved && key_pressed(i, KeyId::KeyScrollStart) ==> a == (if o
                == Orientation::Vertical {
                ScrollAction::ToStart
            } else {
                ScrollAction::Keep
            })
            &&& has_scrolling && !wheel_moved && !key_pressed(i, KeyId::KeyScrollStart) && key_pressed(
                i,
                KeyId::KeyScrollEnd,
            ) ==> a == (if o == Orientation::Vertical {
                ScrollAction::ToEnd
            } else {
                ScrollAction::Keep
            })
            &&& has_scrolling && !wheel_moved && !key_pressed(i, KeyId::KeyScrollStart) && !key_pressed(
                i,
                KeyId::KeyScrollEnd,
            ) ==> a == ScrollAction::Keep
        }),
{
}

/// A horizontal bar ignores the scroll keys: only clicks on its empty
/// spaces page it.
pub proof fn lemma_scroll_horizontal_ignores_keys(
    i: Input,
    has_scrolling: bool,
    cursor: RectHits,
    empty0: RectHits,
    empty1: RectHits,
    wheel_moved: bool,
)
    ensures
        ({
            let a = scroll_action(i, has_scrolling, Orientation::Horizontal, cursor, empty0, empty1, wheel_moved);
            &&& a != ScrollAction::ToStart
            &&& a != ScrollAction::ToEnd
            &&& a == ScrollAction::PageBack ==> button_fires(i, empty0, ButtonBehaviour::ButtonDefault)
            &&& a == ScrollAction::PageForward ==> button_fires(i, empty1, ButtonBehaviour::ButtonDefault)
        }),
{
}

/// The bar is active while its cursor is dragged, and hovered while the
/// mouse is over it and the cursor is not dragged.
pub proof fn lemma_scroll_state(i: Input, scroll: RectHits, cursor: RectHits)
    ensures
        cursor_dragged(i, cursor) ==> scroll_state_bits(i, scroll, cursor) & 0x22 == 0x22,
        !cursor_dragged(i, cursor) ==> scroll_state_bits(i, scroll, cursor) & 0x22 == 0,
        !cursor_dragged(i, cursor) ==> (scroll_state_bits(i, scroll, cursor) & 0x10 != 0) == scroll.hovering,
{
    lemma_scroll_state_masks();
}

proof fn lemma_scroll_state_masks()
    by (bit_vector)
    ensures
        (0x22u32 | 0x08u32) & 0x22 == 0x22,
        (0x22u32 | 0x40u32) & 0x22 == 0x22,
        0x22u32 & 0x22 == 0x22,
        (0x10u32 | 0x08u32) & 0x22 == 0,
        (0x10u32 | 0x40u32) & 0x22 == 0,
        0x10u32 & 0x22 == 0,
        (0u32 | 0x40u32) & 0x22 == 0,
        0u32 & 0x22 == 0,
        (0x10u32 | 0x08u32) & 0x10 != 0,
        (0x10u32 | 0x40u32) & 0x10 != 0,
        0x10u32 & 0x10 != 0,
        (0u32 | 0x40u32) & 0x10 == 0,
        0u32 & 0x10 == 0,
        0u32 & 0x10 == 0,
{
}

} // verus!
