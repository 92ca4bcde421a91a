use vstd::prelude::*;

use crate::math::vec2::{TVec2, Vec2I32};

verus! {

/// The keys and shortcuts that widgets react to.
#[derive(Copy, Clone, Debug, PartialEq, Eq)]
pub enum KeyId {
    KeyNone,
    KeyShift,
    KeyCtrl,
    KeyDel,
    KeyEnter,
    KeyTab,
    KeyBackspace,
    KeyCopy,
    KeyCut,
    KeyPaste,
    KeyUp,
    KeyDown,
    KeyLeft,
    KeyRight,
    KeyTextInsertMode,
    KeyTextReplaceMode,
    KeyTextResetMode,
    KeyTextLineStart,
    KeyTextLineEnd,
    KeyTextStart,
    KeyTextEnd,
    KeyTextUndo,
    KeyTextRedo,
    KeyTextSelectAll,
    KeyTextWordLeft,
    KeyTextWordRight,
    KeyScrollStart,
    KeyScrollEnd,
    KeyScrollDown,
    KeyScrollUp,
    KeyMax,
}

impl KeyId {
    /// The position of the variant in the declaration.
    pub open spec fn spec_index(self) -> nat {
        match self {
            KeyId::KeyNone => 0,
            KeyId::KeyShift => 1,
            KeyId::KeyCtrl => 2,
            KeyId::KeyDel => 3,
            KeyId::KeyEnter => 4,
            KeyId::KeyTab => 5,
            KeyId::KeyBackspace => 6,
            KeyId::KeyCopy => 7,
            KeyId::KeyCut => 8,
            KeyId::KeyPaste => 9,
            KeyId::KeyUp => 10,
            KeyId::KeyDown => 11,
            KeyId::KeyLeft => 12,
            KeyId::KeyRight => 13,
            KeyId::KeyTextInsertMode => 14,
            KeyId::KeyTextReplaceMode => 15,
            KeyId::KeyTextResetMode => 16,
            KeyId::KeyTextLineStart => 17,
            KeyId::KeyTextLineEnd => 18,
            KeyId::KeyTextStart => 19,
            KeyId::KeyTextEnd => 20,
            KeyId::KeyTextUndo => 21,
            KeyId::KeyTextRedo => 22,
            KeyId::KeyTextSelectAll => 23,
            KeyId::KeyTextWordLeft => 24,
            KeyId::KeyTextWordRight => 25,
            KeyId::KeyScrollStart => 26,
            KeyId::KeyScrollEnd => 27,
            KeyId::KeyScrollDown => 28,
            KeyId::KeyScrollUp => 29,
            KeyId::KeyMax => 30,
        }
    }

    pub fn index(self) -> (i: usize)
        ensures
            i == self.spec_index(),
    {
        match self {
            KeyId::KeyNone => 0,
            KeyId::KeyShift => 1,
            KeyId::KeyCtrl => 2,
            KeyId::KeyDel => 3,
            KeyId::KeyEnter => 4,
            KeyId::KeyTab => 5,
            KeyId::KeyBackspace => 6,
            KeyId::KeyCopy => 7,
            KeyId::KeyCut => 8,
            KeyId::KeyPaste => 9,
            KeyId::KeyUp => 10,
            KeyId::KeyDown => 11,
            KeyId::KeyLeft => 12,
            KeyId::KeyRight => 13,
            KeyId::KeyTextInsertMode => 14,
            KeyId::KeyTextReplaceMode => 15,
            KeyId::KeyTextResetMode => 16,
            KeyId::KeyTextLineStart => 17,
            KeyId::KeyTextLineEnd => 18,
            KeyId::KeyTextStart => 19,
            KeyId::KeyTextEnd => 20,
            KeyId::KeyTextUndo => 21,
            KeyId::KeyTextRedo => 22,
            KeyId::KeyTextSelectAll => 23,
            KeyId::KeyTextWordLeft => 24,
            KeyId::KeyTextWordRight => 25,
            KeyId::KeyScrollStart => 26,
            KeyId::KeyScrollEnd => 27,
            KeyId::KeyScrollDown => 28,
            KeyId::KeyScrollUp => 29,
            KeyId::KeyMax => 30,
        }
    }
}

#[derive(Copy, Clone, Debug, PartialEq, Eq)]
pub enum MouseButtonId {
    ButtonLeft,
    ButtonMiddle,
    ButtonRight,
    ButtonDouble,
    ButtonMax,
}

impl MouseButtonId {
    /// The position of the variant in the declaration.
    pub open spec fn spec_index(self) -> nat {
        match self {
            MouseButtonId::ButtonLeft => 0,
            MouseButtonId::ButtonMiddle => 1,
            MouseButtonId::ButtonRight => 2,
            MouseButtonId::ButtonDouble => 3,
            MouseButtonId::ButtonMax => 4,
        }
    }

    pub fn index(self) -> (i: usize)
        ensures
            i == self.spec_index(),
    {
        match self {
            MouseButtonId::ButtonLeft => 0,
            MouseButtonId::ButtonMiddle => 1,
            MouseButtonId::ButtonRight => 2,
            MouseButtonId::ButtonDouble => 3,
            MouseButtonId::ButtonMax => 4,
        }
    }
}

/// The number of keys tracked: every `KeyId` before `KeyMax`.
pub const KEY_COUNT: usize = 30;

/// The number of mouse buttons tracked: every `MouseButtonId` before
/// `ButtonMax`.
pub const MOUSE_BUTTON_COUNT: usize = 4;

/// The state of one mouse button. The position of the last change is kept in
/// the integer window coordinates it was reported in.
#[derive(Copy, Clone, Debug)]
pub struct MouseButton {
    pub down: bool,
    pub clicked: u32,
    pub clicked_pos: Vec2I32,
}

impl MouseButton {
    pub open spec fn spec_new() -> MouseButton {
        MouseButton { down: false, clicked: 0, clicked_pos: TVec2 { x: 0, y: 0 } }
    }

    pub fn new() -> (b: MouseButton)
        ensures
            !b.down,
            b.clicked == 0,
            b.clicked_pos == (TVec2 { x: 0i32, y: 0i32 }),
    {
        MouseButton { down: false, clicked: 0, clicked_pos: TVec2::same(0) }
    }
}

/// The state of the mouse: its buttons, the cursor position now and at the
/// start of the frame, in integer window coordinates, and the grab state.
#[derive(Copy, Clone, Debug)]
pub struct MouseState {
    pub buttons: [MouseButton; 4],
    pub pos: Vec2I32,
    pub prev: Vec2I32,
    pub grab: bool,
    pub grabbed: bool,
    pub ungrab: bool,
}

impl MouseState {
    /// No button down or clicked, the cursor at the origin, no grab.
    pub open spec fn spec_new() -> MouseState {
        MouseState {
            buttons: [MouseButton::spec_new(), MouseButton::spec_new(), MouseButton::spec_new(), MouseButton::spec_new()],
            pos: TVec2 { x: 0, y: 0 },
            prev: TVec2 { x: 0, y: 0 },
            grab: false,
            grabbed: false,
            ungrab: false,
        }
    }

    pub fn new() -> (m: Self)
        ensures
            m == Self::spec_new(),
    {
        MouseState {
            buttons: [MouseButton::new(), MouseButton::new(), MouseButton::new(), MouseButton::new()],
            pos: TVec2::same(0),
            prev: TVec2::same(0),
            grab: false,
            grabbed: false,
            ungrab: false,
        }
    }
}

#[derive(Copy, Clone, Debug)]
pub struct KeyState {
    pub down: bool,
    pub clicked: u32,
}

impl KeyState {
    pub fn new() -> (k: Self)
        ensures
            !k.down,
            k.clicked == 0,
    {
        KeyState { down: false, clicked: 0 }
    }
}

/// The state of the keyboard: its keys and the text typed this frame.
#[derive(Copy, Clone, Debug)]
pub struct KeyboardState {
    pub keys: [KeyState; 30],
    pub text: [char; 16],
    pub text_len: i32,
}

impl KeyboardState {
    /// The most characters of text kept per frame.
    pub const INPUT_MAX: u32 = 16;

    /// No key down or clicked, no text.
    pub open spec fn spec_new() -> KeyboardState {
        KeyboardState {
            keys: [
                KeyState { down: false, clicked: 0 },
                KeyState { down: false, clicked: 0 },
                KeyState { down: false, clicked: 0 },
                KeyState { down: false, clicked: 0 },
                KeyState { down: false, clicked: 0 },
                KeyState { down: false, clicked: 0 },
                KeyState { down: false, clicked: 0 },
                KeyState { down: false, clicked: 0 },
                KeyState { down: false, clicked: 0 },
                KeyState { down: false, clicked: 0 },
                KeyState { down: false, clicked: 0 },
                KeyState { down: false, clicked: 0 },
                KeyState { down: false, clicked: 0 },
                KeyState { down: false, clicked: 0 },
                KeyState { down: false, clicked: 0 },
                KeyState { down: false, clicked: 0 },
                KeyState { down: false, clicked: 0 },
                KeyState { down: false, clicked: 0 },
                KeyState { down: false, clicked: 0 },
                KeyState { down: false, clicked: 0 },
                KeyState { down: false, clicked: 0 },
                KeyState { down: false, clicked: 0 },
                KeyState { down: false, clicked: 0 },
                KeyState { down: false, clicked: 0 },
                KeyState { down: false, clicked: 0 },
                KeyState { down: false, clicked: 0 },
                KeyState { down: false, clicked: 0 },
                KeyState { down: false, clicked: 0 },
                KeyState { down: false, clicked: 0 },
                KeyState { down: false, clicked: 0 },
            ],
            text: [
                '\0',
                '\0',
                '\0',
                '\0',
                '\0',
                '\0',
                '\0',
                '\0',
                '\0',
                '\0',
                '\0',
                '\0',
                '\0',
                '\0',
                '\0',
                '\0',
            ],
            text_len: 0,
        }
    }

    pub fn new() -> (k: Self)
        ensures
            k == Self::spec_new(),
    {
        let ks = KeyState::new();
        KeyboardState {
            keys: [
                ks, ks, ks, ks, ks, ks, ks, ks, ks, ks, ks, ks, ks, ks, ks, ks, ks, ks, ks, ks, ks, ks,
                ks, ks, ks, ks, ks, ks, ks, ks,
            ],
            text: [
                '\0', '\0', '\0', '\0', '\0', '\0', '\0', '\0', '\0', '\0', '\0', '\0', '\0', '\0', '\0', '\0',
            ],
            text_len: 0,
        }
    }
}


/// Everything the widgets read of the user's input.
#[derive(Copy, Clone, Debug)]
pub struct Input {
    pub keyboard: KeyboardState,
    pub mouse: MouseState,
}

/// The button has been clicked this frame and is up again.
pub open spec fn spec_has_mouse_click(b: MouseButton) -> bool {
    b.clicked != 0 && !b.down
}

/// The key went down this frame, possibly after going up again.
pub open spec fn spec_key_pressed(k: KeyState) -> bool {
    (k.down && k.clicked != 0) || (!k.down && k.clicked >= 2)
}

/// The key went up this frame, possibly after going down again.
pub open spec fn spec_key_released(k: KeyState) -> bool {
    (!k.down && k.clicked != 0) || (k.down && k.clicked >= 2)
}

impl Input {
    /// The input's invariant: the typed text fits in its array.
    pub open spec fn wf(&self) -> bool {
        0 <= self.keyboard.text_len <= 16
    }

    pub fn new() -> (i: Input)
        ensures
            i.wf(),
            i.keyboard == KeyboardState::spec_new(),
            i.mouse == MouseState::spec_new(),
    {
        Input { keyboard: KeyboardState::new(), mouse: MouseState::new() }
    }

    /// Starts a frame: forgets this frame's clicks and text, and remembers
    /// where the cursor was.
    pub fn begin(&mut self)
        ensures
            final(self).wf(),
            forall|i: int|
                0 <= i < 4 ==> (#[trigger] final(self).mouse.buttons@[i]) == (MouseButton {
                    clicked: 0,
                    ..old(self).mouse.buttons@[i]
                }),
            forall|i: int|
                0 <= i < 30 ==> (#[trigger] final(self).keyboard.keys@[i]) == (KeyState {
                    clicked: 0,
                    ..old(self).keyboard.keys@[i]
                }),
            final(self).keyboard.text_len == 0,
            final(self).keyboard.text == old(self).keyboard.text,
            final(self).mouse.prev == old(self).mouse.pos,
            final(self).mouse.pos == old(self).mouse.pos,
            final(self).mouse.grab == old(self).mouse.grab,
            final(self).mouse.grabbed == old(self).mouse.grabbed,
            final(self).mouse.ungrab == old(self).mouse.ungrab,
    {
        let mut i: usize = 0;
        while i < 4
            invariant
                i <= 4,
                self.keyboard == old(self).keyboard,
                self.mouse.pos == old(self).mouse.pos,
                self.mouse.prev == old(self).mouse.prev,
                self.mouse.grab == old(self).mouse.grab,
                self.mouse.grabbed == old(self).mouse.grabbed,
                self.mouse.ungrab == old(self).mouse.ungrab,
                forall|j: int|
                    0 <= j < i ==> (#[trigger] self.mouse.buttons@[j]) == (MouseButton {
                        clicked: 0,
                        ..old(self).mouse.buttons@[j]
                    }),
                forall|j: int| i <= j < 4 ==> (#[trigger] self.mouse.buttons@[j]) == old(self).mouse.buttons@[j],
            decreases 4 - i,
        {
            let mut b = self.mouse.buttons[i];
            b.clicked = 0;
            self.mouse.buttons[i] = b;
            i = i + 1;
        }
        self.keyboard.text_len = 0;
        self.mouse.prev = self.mouse.pos;
        let mut k: usize = 0;
        while k < 30
            invariant
                k <= 30,
                self.keyboard.text_len == 0,
                self.keyboard.text == old(self).keyboard.text,
                self.mouse.prev == old(self).mouse.pos,
                self.mouse.pos == old(self).mouse.pos,
                self.mouse.grab == old(self).mouse.grab,
                self.mouse.grabbed == old(self).mouse.grabbed,
                self.mouse.ungrab == old(self).mouse.ungrab,
                forall|j: int|
                    0 <= j < 4 ==> (#[trigger] self.mouse.buttons@[j]) == (MouseButton {
                        clicked: 0,
                        ..old(self).mouse.buttons@[j]
                    }),
                forall|j: int|
                    0 <= j < k ==> (#[trigger] self.keyboard.keys@[j]) == (KeyState {
                        clicked: 0,
                        ..old(self).keyboard.keys@[j]
                    }),
                forall|j: int| k <= j < 30 ==> (#[trigger] self.keyboard.keys@[j]) == old(self).keyboard.keys@[j],
            decreases 30 - k,
        {
            let mut ks = self.keyboard.keys[k];
            ks.clicked = 0;
            self.keyboard.keys[k] = ks;
            k = k + 1;
        }
    }

    /// Ends a frame: a grab lasts one frame, and an ungrab releases it.
    pub fn end(&mut self)
        ensures
            final(self).keyboard == old(self).keyboard,
            final(self).mouse == (MouseState {
                grab: false,
                grabbed: if old(self).mouse.ungrab { false } else { old(self).mouse.grabbed },
                ungrab: false,
                ..old(self).mouse
            }),
    {
        if self.mouse.grab {
            self.mouse.grab = false;
        }
        if self.mouse.ungrab {
            self.mouse.grabbed = false;
            self.mouse.ungrab = false;
            self.mouse.grab = false;
        }
    }

    /// The cursor moved to `(x, y)`.
    pub fn motion(&mut self, x: i32, y: i32)
        ensures
            *final(self) == (Input { mouse: MouseState { pos: TVec2 { x, y }, ..old(self).mouse }, ..*old(self) }),
    {
        self.mouse.pos = TVec2::new(x, y);
    }

    /// The key went down or up.
    pub fn key(&mut self, key: KeyId, down: bool)
        requires
            key != KeyId::KeyMax,
            old(self).keyboard.keys@[key.spec_index() as int].clicked < u32::MAX,
        ensures
            final(self).mouse == old(self).mouse,
            final(self).keyboard.text == old(self).keyboard.text,
            final(self).keyboard.text_len == old(self).keyboard.text_len,
            final(self).keyboard.keys@ == old(self).keyboard.keys@.update(
                key.spec_index() as int,
                KeyState { down, clicked: (old(self).keyboard.keys@[key.spec_index() as int].clicked + 1) as u32 },
            ),
    {
        let i = key.index();
        let mut ks = self.keyboard.keys[i];
        ks.clicked = ks.clicked + 1;
        ks.down = down;
        self.keyboard.keys[i] = ks;
    }

    /// The mouse button went down or up at `(x, y)`; nothing changes when
    /// it already was in that state.
    pub fn button(&mut self, id: MouseButtonId, x: i32, y: i32, down: bool)
        requires
            id != MouseButtonId::ButtonMax,
            old(self).mouse.buttons@[id.spec_index() as int].down == down
                || old(self).mouse.buttons@[id.spec_index() as int].clicked < u32::MAX,
        ensures
            final(self).keyboard == old(self).keyboard,
            old(self).mouse.buttons@[id.spec_index() as int].down == down ==> *final(self) == *old(self),
            old(self).mouse.buttons@[id.spec_index() as int].down != down ==> final(self).mouse == (
            MouseState {
                buttons: final(self).mouse.buttons,
                ..old(self).mouse
            }) && final(self).mouse.buttons@ == old(self).mouse.buttons@.update(
                id.spec_index() as int,
                MouseButton {
                    down,
                    clicked: (old(self).mouse.buttons@[id.spec_index() as int].clicked + 1) as u32,
                    clicked_pos: TVec2 { x, y },
                },
            ),
    {
        let i = id.index();
        let mut btn = self.mouse.buttons[i];
        if btn.down == down {
            return;
        }
        btn.clicked_pos = TVec2::new(x, y);
        btn.down = down;
        btn.clicked = btn.clicked + 1;
        self.mouse.buttons[i] = btn;
    }

    /// A character was typed; it is dropped when the frame's text is full.
    /// A negative text length indexes out of the text, so it is excluded.
    pub fn glyph(&mut self, glyph: char)
        requires
            0 <= old(self).keyboard.text_len,
        ensures
            old(self).wf() ==> final(self).wf(),
            final(self).mouse == old(self).mouse,
            final(self).keyboard.keys == old(self).keyboard.keys,
            old(self).keyboard.text_len < 16 ==> final(self).keyboard.text_len == old(self).keyboard.text_len + 1
                && final(self).keyboard.text@ == old(self).keyboard.text@.update(
                old(self).keyboard.text_len as int,
                glyph,
            ),
            old(self).keyboard.text_len >= 16 ==> final(self).keyboard == old(self).keyboard,
    {
        if self.keyboard.text_len < KeyboardState::INPUT_MAX as i32 {
            let n = self.keyboard.text_len as usize;
            self.keyboard.text[n] = glyph;
            self.keyboard.text_len = self.keyboard.text_len + 1;
        }
    }

    /// An ASCII character was typed.
    pub fn glyph_ascii(&mut self, glyph: u8)
        requires
            0 <= old(self).keyboard.text_len,
        ensures
            old(self).wf() ==> final(self).wf(),
            final(self).mouse == old(self).mouse,
            final(self).keyboard.keys == old(self).keyboard.keys,
            old(self).keyboard.text_len < 16 ==> final(self).keyboard.text_len == old(self).keyboard.text_len + 1
                && final(self).keyboard.text@ == old(self).keyboard.text@.update(
                old(self).keyboard.text_len as int,
                glyph as char,
            ),
            old(self).keyboard.text_len >= 16 ==> final(self).keyboard == old(self).keyboard,
    {
        self.glyph(glyph as char);
    }

    /// The button was clicked this frame and is up again.
    pub fn has_mouse_click(&self, id: MouseButtonId) -> (b: bool)
        requires
            id != MouseButtonId::ButtonMax,
        ensures
            b == spec_has_mouse_click(self.mouse.buttons@[id.spec_index() as int]),
    {
        let btn = self.mouse.buttons[id.index()];
        btn.clicked != 0 && btn.down == false
    }

    /// The button is down.
    pub fn has_mouse_down(&self, id: MouseButtonId) -> (b: bool)
        requires
            id != MouseButtonId::ButtonMax,
        ensures
            b == self.mouse.buttons@[id.spec_index() as int].down,
    {
        self.mouse.buttons[id.index()].down
    }

    /// The button changed this frame.
    pub fn has_mouse_button_pressed(&self, id: MouseButtonId) -> (b: bool)
        requires
            id != MouseButtonId::ButtonMax,
        ensures
            b == (self.mouse.buttons@[id.spec_index() as int].clicked != 0),
    {
        self.mouse.buttons[id.index()].clicked != 0
    }

    /// The button is down.
    pub fn is_mouse_down(&self, id: MouseButtonId) -> (b: bool)
        requires
            id != MouseButtonId::ButtonMax,
        ensures
            b == self.mouse.buttons@[id.spec_index() as int].down,
    {
        self.mouse.buttons[id.index()].down
    }

    /// The button went down this frame.
    pub fn is_mouse_pressed(&self, id: MouseButtonId) -> (b: bool)
        requires
            id != MouseButtonId::ButtonMax,
        ensures
            b == (self.mouse.buttons@[id.spec_index() as int].down && self.mouse.buttons@[id.spec_index() as int].clicked != 0),
    {
        let btn = self.mouse.buttons[id.index()];
        btn.down && btn.clicked != 0
    }

    /// Answers as `is_mouse_pressed` does: the button is down and changed
    /// this frame.
    pub fn is_mouse_released(&self, id: MouseButtonId) -> (b: bool)
        requires
            id != MouseButtonId::ButtonMax,
        ensures
            b == (self.mouse.buttons@[id.spec_index() as int].down && self.mouse.buttons@[id.spec_index() as int].clicked != 0),
    {
        let btn = self.mouse.buttons[id.index()];
        btn.down && btn.clicked != 0
    }

    /// The key went down this frame.
    pub fn is_key_pressed(&self, key: KeyId) -> (b: bool)
        requires
            key != KeyId::KeyMax,
        ensures
            b == spec_key_pressed(self.keyboard.keys@[key.spec_index() as int]),
    {
        let k = self.keyboard.keys[key.index()];
        (k.down && k.clicked != 0) || (!k.down && k.clicked >= 2)
    }

    /// The key went up this frame.
    pub fn is_key_released(&self, key: KeyId) -> (b: bool)
        requires
            key != KeyId::KeyMax,
        ensures
            b == spec_key_released(self.keyboard.keys@[key.spec_index() as int]),
    {
        let k = self.keyboard.keys[key.index()];
        (!k.down && k.clicked != 0) || (k.down && k.clicked >= 2)
    }

    /// The key is down.
    pub fn is_key_down(&self, key: KeyId) -> (b: bool)
        requires
            key != KeyId::KeyMax,
        ensures
            b == self.keyboard.keys@[key.spec_index() as int].down,
    {
        self.keyboard.keys[key.index()].down
    }
}

/// After a frame starts no key is pressed or released and no button has a
/// click.
pub proof fn lemma_begin_clears_events(old_input: Input, new_input: Input, key: KeyId, id: MouseButtonId)
    requires
        key != KeyId::KeyMax,
        id != MouseButtonId::ButtonMax,
        forall|i: int|
            0 <= i < 4 ==> (#[trigger] new_input.mouse.buttons@[i]) == (MouseButton {
                clicked: 0,
                ..old_input.mouse.buttons@[i]
            }),
        forall|i: int|
            0 <= i < 30 ==> (#[trigger] new_input.keyboard.keys@[i]) == (KeyState {
                clicked: 0,
                ..old_input.keyboard.keys@[i]
            }),
    ensures
        !spec_key_pressed(new_input.keyboard.keys@[key.spec_index() as int]),
        !spec_key_released(new_input.keyboard.keys@[key.spec_index() as int]),
        !spec_has_mouse_click(new_input.mouse.buttons@[id.spec_index() as int]),
{
    assert(new_input.keyboard.keys@[key.spec_index() as int].clicked == 0);
    assert(new_input.mouse.buttons@[id.spec_index() as int].clicked == 0);
}

/// A key that goes down in a fresh frame is pressed, down and not released;
/// going up again in the same frame makes it both pressed and released.
pub proof fn lemma_key_press_release(k: KeyState)
    requires
        k.clicked == 0,
    ensures
        spec_key_pressed(KeyState { down: true, clicked: 1 }),
        !spec_key_released(KeyState { down: true, clicked: 1 }),
        spec_key_pressed(KeyState { down: false, clicked: 2 }),
        spec_key_released(KeyState { down: false, clicked: 2 }),
{
}

} // verus!
