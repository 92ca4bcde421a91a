use vstd::prelude::*;

use crate::hmi::base::HashType;
use crate::hmi::flags::BitFlags;
use crate::hmi::panel::{PanelFlags, PopupBuffer};
use crate::math::vec2::{TVec2, Vec2U32};

verus! {

/// The state of a text edit widget.
#[derive(Copy, Clone, Debug)]
pub struct EditState {
    pub name: u32,
    pub seq: u32,
    pub old: u32,
    pub active: i32,
    pub prev: i32,
    pub cursor: i32,
    pub sel_start: i32,
    pub sel_end: i32,
    pub scrollbar: Vec2U32,
    pub mode: u8,
    pub single_line: u8,
}

impl Default for EditState {
    /// Every field zero.
    fn default() -> (e: Self)
        ensures
            e == (EditState {
                name: 0,
                seq: 0,
                old: 0,
                active: 0,
                prev: 0,
                cursor: 0,
                sel_start: 0,
                sel_end: 0,
                scrollbar: TVec2 { x: 0u32, y: 0u32 },
                mode: 0,
                single_line: 0,
            }),
    {
        EditState {
            name: 0,
            seq: 0,
            old: 0,
            active: 0,
            prev: 0,
            cursor: 0,
            sel_start: 0,
            sel_end: 0,
            scrollbar: Vec2U32::same(0),
            mode: 0,
            single_line: 0,
        }
    }
}

/// The state of a property widget.
#[derive(Clone, Debug)]
pub struct PropertyState {
    pub active: i32,
    pub prev: i32,
    pub buffer: String,
    pub length: i32,
    pub cursor: i32,
    pub select_start: i32,
    pub select_end: i32,
    pub name: u32,
    pub seq: u32,
    pub old: u32,
    pub state: i32,
}

impl Default for PropertyState {
    /// Every number zero and an empty buffer.
    fn default() -> (p: Self)
        ensures
            p.active == 0 && p.prev == 0 && p.length == 0 && p.cursor == 0,
            p.select_start == 0 && p.select_end == 0,
            p.name == 0 && p.seq == 0 && p.old == 0 && p.state == 0,
            p.buffer@ == Seq::<char>::empty(),
    {
        PropertyState {
            active: 0,
            prev: 0,
            buffer: String::new(),
            length: 0,
            cursor: 0,
            select_start: 0,
            select_end: 0,
            name: 0,
            seq: 0,
            old: 0,
            state: 0,
        }
    }
}

/// What identifies a window: a handle unique in its context, and its name
/// with the name's hash.
#[derive(Clone, Debug, PartialEq, Eq)]
pub struct WindowId {
    pub handle: usize,
    pub name: HashType,
    pub name_str: String,
}

impl Default for WindowId {
    fn default() -> (w: WindowId)
        ensures
            w.handle == 0,
            w.name == 0,
            w.name_str@ == Seq::<char>::empty(),
    {
        WindowId { handle: 0, name: 0, name_str: String::new() }
    }
}

/// What the window logic reads of a window: its id, the frame it was last
/// used in, its options and its popup's place in its command buffer.
#[derive(Debug)]
pub struct Window {
    pub id: WindowId,
    pub seq: u32,
    pub flags: BitFlags<PanelFlags>,
    pub popup: PopupBuffer,
    pub killed: bool,
}

impl Window {
    pub fn new(handle: usize, name: HashType, name_str: &str, flags: BitFlags<PanelFlags>) -> (w: Window)
        ensures
            w.id.handle == handle,
            w.id.name == name,
            w.id.name_str@ == name_str@,
            w.seq == 0,
            w.flags == flags,
            w.popup == PopupBuffer::spec_default(),
            !w.killed,
    {
        Window {
            id: WindowId { handle, name, name_str: name_str.to_owned() },
            seq: 0,
            flags,
            popup: PopupBuffer::default(),
            killed: false,
        }
    }

    /// Starts a popup at `buffer_len`, the current fill of the window's
    /// command buffer.
    pub fn start_popup(&mut self, buffer_len: usize)
        ensures
            final(self).popup == (PopupBuffer {
                begin: buffer_len,
                parent: buffer_len,
                last: buffer_len,
                end: buffer_len,
                active: true,
            }),
            final(self).id == old(self).id,
            final(self).seq == old(self).seq,
            final(self).flags == old(self).flags,
            final(self).killed == old(self).killed,
    {
        self.popup.start(buffer_len);
    }

    /// Ends a popup at `buffer_len`, the current fill of the window's
    /// command buffer.
    pub fn finish_popup(&mut self, buffer_len: usize)
        ensures
            final(self).popup == (PopupBuffer { last: buffer_len, end: buffer_len, ..old(self).popup }),
            final(self).id == old(self).id,
            final(self).seq == old(self).seq,
            final(self).flags == old(self).flags,
            final(self).killed == old(self).killed,
    {
        self.popup.finish(buffer_len);
    }
}

} // verus!
