use gui_core::hmi::base::{ButtonBehaviour, WidgetStates};
use gui_core::hmi::button::{button_behaviour, RectHits};
use gui_core::hmi::flags::BitFlags;
use gui_core::hmi::input::{Input, KeyId, MouseButtonId};
use gui_core::hmi::progress::progress_behaviour;
use gui_core::hmi::scrollbar::{scrollbar_behavior, Orientation, ScrollAction};

fn pressed_input() -> Input {
    let mut input = Input::new();
    input.begin();
    input.motion(5, 5);
    input.button(MouseButtonId::ButtonLeft, 5, 5, true);
    input
}

const OVER: RectHits = RectHits { hovering: true, prev_hovering: false, clicked_in: true };
const AWAY: RectHits = RectHits { hovering: false, prev_hovering: false, clicked_in: false };

#[test]
fn button_fires_when_pressed_over_it() {
    let input = pressed_input();
    let mut state = BitFlags::empty();
    assert!(button_behaviour(&mut state, OVER, Some(&input), ButtonBehaviour::ButtonDefault));
    assert_eq!(state.bits(), 0x22);
}

#[test]
fn hovered_button_is_entered() {
    let mut input = Input::new();
    input.begin();
    let mut state = BitFlags::empty();
    let fired = button_behaviour(&mut state, OVER, Some(&input), ButtonBehaviour::ButtonDefault);
    assert!(!fired);
    // hovered and entered
    assert_eq!(state.bits(), 0x18);
    let still = RectHits::new(true, true, false);
    button_behaviour(&mut state, still, Some(&input), ButtonBehaviour::ButtonDefault);
    // hovered, and the cursor was over it already
    assert_eq!(state.bits(), 0x50);
}

#[test]
fn repeater_fires_while_held() {
    let mut input = pressed_input();
    input.end();
    input.begin();
    let mut state = BitFlags::empty();
    assert!(!button_behaviour(&mut state, OVER, Some(&input), ButtonBehaviour::ButtonDefault));
    assert!(button_behaviour(&mut state, OVER, Some(&input), ButtonBehaviour::ButtonRepeater));
}

#[test]
fn button_without_input_is_reset() {
    let mut state = WidgetStates::active();
    assert!(!button_behaviour(&mut state, OVER, None, ButtonBehaviour::ButtonDefault));
    assert_eq!(state.bits(), 0x06);
    let input = Input::new();
    let left = RectHits::new(false, true, false);
    let mut state = BitFlags::empty();
    button_behaviour(&mut state, left, Some(&input), ButtonBehaviour::ButtonDefault);
    assert_eq!(state.bits(), 0x44);
}

#[test]
fn progress_bar_follows_a_drag() {
    let input = pressed_input();
    let (state, dragged) = progress_behaviour(BitFlags::empty(), Some(&input), OVER, OVER, true);
    assert!(dragged);
    assert_eq!(state.bits(), 0x3A);
    let (state, dragged) = progress_behaviour(BitFlags::empty(), Some(&input), OVER, AWAY, true);
    assert!(!dragged);
    assert_eq!(state.bits(), 0x1A);
    let (state, dragged) = progress_behaviour(WidgetStates::active(), Some(&input), OVER, OVER, false);
    assert!(!dragged);
    assert_eq!(state.bits(), 0x06);
    let (state, dragged) = progress_behaviour(BitFlags::empty(), None, OVER, OVER, true);
    assert!(!dragged);
    assert_eq!(state.bits(), 0x04);
}

#[test]
fn scrollbar_actions() {
    let v = Orientation::Vertical;
    let h = Orientation::Horizontal;
    let (state, action) = scrollbar_behavior(None, true, OVER, OVER, AWAY, AWAY, false, v);
    assert!(state.is_empty());
    assert_eq!(action, ScrollAction::Reset);

    // dragging the cursor
    let input = pressed_input();
    let (state, action) = scrollbar_behavior(Some(&input), true, OVER, OVER, AWAY, AWAY, false, v);
    assert_eq!(action, ScrollAction::Drag);
    assert_eq!(state.bits(), 0x22);

    // a click on the empty space after the cursor
    let (state, action) = scrollbar_behavior(Some(&input), true, OVER, AWAY, AWAY, OVER, false, v);
    assert_eq!(action, ScrollAction::PageForward);
    assert_eq!(state.bits(), 0x18);

    // keys and wheel
    let mut keys = Input::new();
    keys.begin();
    keys.key(KeyId::KeyScrollUp, true);
    let (_, action) = scrollbar_behavior(Some(&keys), true, AWAY, AWAY, AWAY, AWAY, false, v);
    assert_eq!(action, ScrollAction::PageBack);
    let (_, action) = scrollbar_behavior(Some(&keys), false, AWAY, AWAY, AWAY, AWAY, false, v);
    assert_eq!(action, ScrollAction::Keep);
    let (_, action) = scrollbar_behavior(Some(&keys), true, AWAY, AWAY, AWAY, AWAY, true, h);
    assert_eq!(action, ScrollAction::Wheel);

    let mut start = Input::new();
    start.begin();
    start.key(KeyId::KeyScrollStart, true);
    let (_, action) = scrollbar_behavior(Some(&start), true, AWAY, AWAY, AWAY, AWAY, false, v);
    assert_eq!(action, ScrollAction::ToStart);
    let (_, action) = scrollbar_behavior(Some(&start), true, AWAY, AWAY, AWAY, AWAY, false, h);
    assert_eq!(action, ScrollAction::Keep);

    let mut end = Input::new();
    end.begin();
    end.key(KeyId::KeyScrollEnd, true);
    let (_, action) = scrollbar_behavior(Some(&end), true, AWAY, AWAY, AWAY, AWAY, false, v);
    assert_eq!(action, ScrollAction::ToEnd);
}
