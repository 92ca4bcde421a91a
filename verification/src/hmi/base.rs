use vstd::prelude::*;

use crate::hmi::flags::{BitFlags, Flag};

verus! {

/// How text is placed in its box.
#[derive(Copy, Clone, Debug, PartialEq, Eq)]
pub enum TextAlign {
    AlignLeft,
    AlignCentered,
    AlignRight,
    AlignTop,
    AlignMiddle,
    AlignBottom,
}

impl Flag for TextAlign {
    open spec fn spec_bits(self) -> u32 {
        match self {
            TextAlign::AlignLeft => 0x01,
            TextAlign::AlignCentered => 0x02,
            TextAlign::AlignRight => 0x04,
            TextAlign::AlignTop => 0x08,
            TextAlign::AlignMiddle => 0x10,
            TextAlign::AlignBottom => 0x20,
        }
    }

    fn bits(self) -> (b: u32) {
        match self {
            TextAlign::AlignLeft => 0x01,
            TextAlign::AlignCentered => 0x02,
            TextAlign::AlignRight => 0x04,
            TextAlign::AlignTop => 0x08,
            TextAlign::AlignMiddle => 0x10,
            TextAlign::AlignBottom => 0x20,
        }
    }
}

impl TextAlign {
    /// Centered horizontally and vertically.
    pub fn centered() -> (s: BitFlags<TextAlign>)
        ensures
            s.view_bits() == 0x12,
    {
        proof {
            lemma_flag_constants();
        }
        BitFlags::from_flag(TextAlign::AlignMiddle).with(TextAlign::AlignCentered)
    }

    /// Left aligned, centered vertically.
    pub fn left() -> (s: BitFlags<TextAlign>)
        ensures
            s.view_bits() == 0x11,
    {
        proof {
            lemma_flag_constants();
        }
        BitFlags::from_flag(TextAlign::AlignMiddle).with(TextAlign::AlignLeft)
    }

    /// Right aligned, centered vertically.
    pub fn right() -> (s: BitFlags<TextAlign>)
        ensures
            s.view_bits() == 0x14,
    {
        proof {
            lemma_flag_constants();
        }
        BitFlags::from_flag(TextAlign::AlignMiddle).with(TextAlign::AlignRight)
    }
}

#[derive(Copy, Clone, Debug, PartialEq, Eq)]
pub enum Heading {
    Right,
    Left,
    Up,
    Down,
}

pub type HashType = u64;

/// A handle to an image or texture: an address or an id.
#[derive(Copy, Clone, Debug, PartialEq, Eq)]
pub enum GenericHandle {
    Ptr(usize),
    Id(u32),
}

#[derive(Copy, Clone, Debug, PartialEq, Eq)]
pub enum ButtonBehaviour {
    ButtonDefault,
    ButtonRepeater,
}

impl Default for ButtonBehaviour {
    fn default() -> (b: Self)
        ensures
            b == ButtonBehaviour::ButtonDefault,
    {
        ButtonBehaviour::ButtonDefault
    }
}

#[derive(Copy, Clone, Debug)]
pub struct UserFont {}

#[derive(Copy, Clone, Debug)]
pub struct PlaceholderType {}

#[derive(Copy, Clone, Debug, PartialEq, Eq)]
pub enum AntialiasingType {
    Off,
    On,
}

#[derive(Copy, Clone, Debug, PartialEq, Eq)]
pub enum DrawVertexLayoutAttribute {
    Position,
    Color,
    Texcoord,
}

#[allow(non_camel_case_types)]
#[derive(Copy, Clone, Debug, PartialEq, Eq, PartialOrd)]
pub enum DrawVertexLayoutFormat {
    Schar,
    Sshort,
    Sint,
    Uchar,
    Ushort,
    Uint,
    Float,
    Double,
    FormatColorBegin,
    R8G8B8,
    R16G15B16,
    R32G32B32,
    R8G8B8A8,
    B8G8R8A8,
    R16G15B16A16,
    R32G32B32A32,
    R32G32B32A32_Float,
    R32G32B32A32_Double,
    RGB32,
    RGBA32,
    FormatColorEnd,
    FormatCount,
}

#[derive(Copy, Clone, Debug)]
pub struct DrawVertexLayoutElement {
    pub attribute: DrawVertexLayoutAttribute,
    pub format: DrawVertexLayoutFormat,
    pub offset: usize,
}

/// Constants shared by the widgets.
pub struct Consts {}

impl Consts {
    /// The number of entries of a value page.
    pub const VALUE_PAGE_CAPACITY: usize = 48;
}

#[derive(Copy, Clone, Debug, PartialEq, Eq)]
pub enum WidgetLayoutStates {
    Invalid,
    Valid,
    Rom,
}

/// The interaction state of a widget.
#[derive(Copy, Clone, Debug, PartialEq, Eq)]
pub enum WidgetStates {
    Modified,
    Inactive,
    Entered,
    Hover,
    Activated,
    Left,
}

impl Flag for WidgetStates {
    open spec fn spec_bits(self) -> u32 {
        match self {
            WidgetStates::Modified => 0x02,
            WidgetStates::Inactive => 0x04,
            WidgetStates::Entered => 0x08,
            WidgetStates::Hover => 0x10,
            WidgetStates::Activated => 0x20,
            WidgetStates::Left => 0x40,
        }
    }

    fn bits(self) -> (b: u32) {
        match self {
            WidgetStates::Modified => 0x02,
            WidgetStates::Inactive => 0x04,
            WidgetStates::Entered => 0x08,
            WidgetStates::Hover => 0x10,
            WidgetStates::Activated => 0x20,
            WidgetStates::Left => 0x40,
        }
    }
}

/// The bits of the hovered state: `Hover` and `Modified`.
pub open spec fn hovered_bits() -> u32 {
    0x12
}

/// The bits of the active state: `Activated` and `Modified`.
pub open spec fn active_bits() -> u32 {
    0x22
}

impl WidgetStates {
    /// The state is hovered: both `Hover` and `Modified` are set.
    pub fn is_hovered(s: BitFlags<WidgetStates>) -> (b: bool)
        ensures
            b == (s.view_bits() & hovered_bits() == hovered_bits()),
    {
        s.contains(Self::hovered())
    }

    /// The hovered state: `Hover` and `Modified`.
    pub fn hovered() -> (s: BitFlags<WidgetStates>)
        ensures
            s.view_bits() == hovered_bits(),
    {
        proof {
            lemma_flag_constants();
        }
        let s = BitFlags::from_flag(WidgetStates::Hover).with(WidgetStates::Modified);
        s
    }

    /// The state is active: both `Activated` and `Modified` are set.
    pub fn is_active(s: BitFlags<WidgetStates>) -> (b: bool)
        ensures
            b == (s.view_bits() & active_bits() == active_bits()),
    {
        s.contains(Self::active())
    }

    /// The active state: `Activated` and `Modified`.
    pub fn active() -> (s: BitFlags<WidgetStates>)
        ensures
            s.view_bits() == active_bits(),
    {
        proof {
            lemma_flag_constants();
        }
        let s = BitFlags::from_flag(WidgetStates::Activated).with(WidgetStates::Modified);
        s
    }

    /// The state at the start of a frame: `Inactive`, with `Modified` kept
    /// when it was set.
    pub fn reset(s: BitFlags<WidgetStates>) -> (r: BitFlags<WidgetStates>)
        ensures
            r.view_bits() == if s.view_bits() & 0x02 == 0x02 { 0x06u32 } else { 0x04u32 },
    {
        proof {
            lemma_flag_constants();
        }
        if s.contains(BitFlags::from_flag(WidgetStates::Modified)) {
            let r = BitFlags::from_flag(WidgetStates::Inactive).with(WidgetStates::Modified);
            r
        } else {
            let r = BitFlags::from_flag(WidgetStates::Inactive).with(WidgetStates::Inactive);
            r
        }
    }
}

/// Values of the flag masks used by the widgets.
proof fn lemma_flag_constants()
    by (bit_vector)
    ensures
        0x10u32 | 0x01u32 == 0x11u32,
        0x10u32 | 0x02u32 == 0x12u32,
        0x10u32 | 0x04u32 == 0x14u32,
        0x20u32 | 0x02u32 == 0x22u32,
        0x04u32 | 0x02u32 == 0x06u32,
        0x04u32 | 0x04u32 == 0x04u32,
        0x12u32 & 0x12u32 == 0x12u32,
        0x22u32 & 0x22u32 == 0x22u32,
        0x12u32 & 0x22u32 != 0x22u32,
        0x06u32 & 0x02u32 == 0x02u32,
        0x04u32 & 0x02u32 != 0x02u32,
        0x06u32 & 0x04u32 == 0x04u32,
        0x04u32 & 0x04u32 == 0x04u32,
        0x06u32 & 0x12u32 != 0x12u32,
        0x04u32 & 0x12u32 != 0x12u32,
        0x06u32 & 0x22u32 != 0x22u32,
        0x04u32 & 0x22u32 != 0x22u32,
{
}

/// The hovered state is hovered and the active state is active.
pub proof fn lemma_hovered_is_hovered()
    ensures
        hovered_bits() & hovered_bits() == hovered_bits(),
        active_bits() & active_bits() == active_bits(),
        hovered_bits() & active_bits() != active_bits(),
{
    lemma_flag_constants();
}

/// Resetting keeps exactly the `Modified` flag of the state, sets
/// `Inactive`, and leaves the state neither hovered nor active.
pub proof fn lemma_reset_keeps_modified(s: u32)
    ensures
        ({
            let r = if s & 0x02 == 0x02 { 0x06u32 } else { 0x04u32 };
            &&& (r & 0x02 == 0x02) == (s & 0x02 == 0x02)
            &&& r & 0x04 == 0x04
            &&& r & hovered_bits() != hovered_bits()
            &&& r & active_bits() != active_bits()
        }),
{
    lemma_flag_constants();
}

} // verus!
