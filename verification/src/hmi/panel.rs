use vstd::prelude::*;

use crate::hmi::flags::{BitFlags, Flag};

verus! {

#[derive(Copy, Clone, Debug, PartialEq, Eq)]
pub enum LayoutFormat {
    Dynamic,
    Static,
}

pub const MAX_LAYOUT_ROW_TEMPLATE_COLUMNS: usize = 16;

pub const MAX_CHART_SLOT: usize = 4;

/// The kind of a panel.
#[derive(Copy, Clone, Debug, PartialEq, Eq)]
pub enum PanelType {
    Window,
    Group,
    Popup,
    Contextual,
    Combo,
    Menu,
    Tooltip,
}

impl Flag for PanelType {
    open spec fn spec_bits(self) -> u32 {
        match self {
            PanelType::Window => 0x1,
            PanelType::Group => 0x2,
            PanelType::Popup => 0x4,
            PanelType::Contextual => 0x10,
            PanelType::Combo => 0x20,
            PanelType::Menu => 0x40,
            PanelType::Tooltip => 0x80,
        }
    }

    fn bits(self) -> (b: u32) {
        match self {
            PanelType::Window => 0x1,
            PanelType::Group => 0x2,
            PanelType::Popup => 0x4,
            PanelType::Contextual => 0x10,
            PanelType::Combo => 0x20,
            PanelType::Menu => 0x40,
            PanelType::Tooltip => 0x80,
        }
    }
}

/// The panel kinds that do not block the windows behind them.
pub open spec fn non_block_bits() -> u32 {
    0xF0
}

/// The panel kinds that are popups.
pub open spec fn popup_bits() -> u32 {
    0xF4
}

/// The panel kinds that live inside another panel.
pub open spec fn sub_bits() -> u32 {
    0xF6
}

proof fn lemma_panel_type_masks()
    by (bit_vector)
    ensures
        0x10u32 | 0x20u32 | 0x40u32 | 0x80u32 == 0xF0u32,
        0xF0u32 | 0x04u32 == 0xF4u32,
        0xF4u32 | 0x02u32 == 0xF6u32,
        0x08u32 | 0x10u32 == 0x18u32,
        0x2000u32 | 0x4000u32 == 0x6000u32,
{
}

impl PanelType {
    /// Contextual menus, combo boxes, menus and tooltips.
    pub fn non_block() -> (s: BitFlags<PanelType>)
        ensures
            s.view_bits() == non_block_bits(),
    {
        proof {
            lemma_panel_type_masks();
        }
        BitFlags::from_flag(PanelType::Contextual).with(PanelType::Combo).with(PanelType::Menu).with(
            PanelType::Tooltip,
        )
    }

    /// The non blocking kinds and popups.
    pub fn popup() -> (s: BitFlags<PanelType>)
        ensures
            s.view_bits() == popup_bits(),
    {
        proof {
            lemma_panel_type_masks();
        }
        Self::non_block().with(PanelType::Popup)
    }

    /// The popup kinds and groups.
    pub fn sub() -> (s: BitFlags<PanelType>)
        ensures
            s.view_bits() == sub_bits(),
    {
        proof {
            lemma_panel_type_masks();
        }
        Self::popup().with(PanelType::Group)
    }
}

/// The options of a window's panel.
#[derive(Copy, Clone, Debug, PartialEq, Eq)]
pub enum PanelFlags {
    WindowBorder,
    WindowMovable,
    WindowScalable,
    WindowClosable,
    WindowMinimizable,
    WindowNoScrollbar,
    WindowTitle,
    WindowScrollAutoHide,
    WindowBackground,
    WindowScaleLeft,
    WindowNoInput,
    WindowDynamic,
    WindowRom,
    WindowHidden,
    WindowClosed,
    WindowMinimized,
    WindowRemoveRom,
}

impl Flag for PanelFlags {
    open spec fn spec_bits(self) -> u32 {
        match self {
            PanelFlags::WindowBorder => 0x1,
            PanelFlags::WindowMovable => 0x2,
            PanelFlags::WindowScalable => 0x4,
            PanelFlags::WindowClosable => 0x8,
            PanelFlags::WindowMinimizable => 0x10,
            PanelFlags::WindowNoScrollbar => 0x20,
            PanelFlags::WindowTitle => 0x40,
            PanelFlags::WindowScrollAutoHide => 0x80,
            PanelFlags::WindowBackground => 0x100,
            PanelFlags::WindowScaleLeft => 0x200,
            PanelFlags::WindowNoInput => 0x400,
            PanelFlags::WindowDynamic => 0x800,
            PanelFlags::WindowRom => 0x1000,
            PanelFlags::WindowHidden => 0x2000,
            PanelFlags::WindowClosed => 0x4000,
            PanelFlags::WindowMinimized => 0x8000,
            PanelFlags::WindowRemoveRom => 0x10000,
        }
    }

    fn bits(self) -> (b: u32) {
        match self {
            PanelFlags::WindowBorder => 0x1,
            PanelFlags::WindowMovable => 0x2,
            PanelFlags::WindowScalable => 0x4,
            PanelFlags::WindowClosable => 0x8,
            PanelFlags::WindowMinimizable => 0x10,
            PanelFlags::WindowNoScrollbar => 0x20,
            PanelFlags::WindowTitle => 0x40,
            PanelFlags::WindowScrollAutoHide => 0x80,
            PanelFlags::WindowBackground => 0x100,
            PanelFlags::WindowScaleLeft => 0x200,
            PanelFlags::WindowNoInput => 0x400,
            PanelFlags::WindowDynamic => 0x800,
            PanelFlags::WindowRom => 0x1000,
            PanelFlags::WindowHidden => 0x2000,
            PanelFlags::WindowClosed => 0x4000,
            PanelFlags::WindowMinimized => 0x8000,
            PanelFlags::WindowRemoveRom => 0x10000,
        }
    }
}

#[derive(Copy, Clone, Debug, PartialEq, Eq)]
pub enum PanelRowLayoutType {
    DynamicFixed,
    DynamicRow,
    DynamicFree,
    Dynamic,
    StaticFixed,
    StaticRow,
    StaticFree,
    Static,
    Template,
    Count,
}

impl Default for PanelRowLayoutType {
    fn default() -> (t: Self)
        ensures
            t == PanelRowLayoutType::Count,
    {
        PanelRowLayoutType::Count
    }
}

/// Where the commands of a popup lie in its window's command buffer.
#[derive(Copy, Clone, Debug, PartialEq, Eq)]
pub struct PopupBuffer {
    pub begin: usize,
    pub parent: usize,
    pub last: usize,
    pub end: usize,
    pub active: bool,
}

impl PopupBuffer {
    /// Nothing recorded, not active.
    pub open spec fn spec_default() -> PopupBuffer {
        PopupBuffer { begin: 0, parent: 0, last: 0, end: 0, active: false }
    }
}

impl Default for PopupBuffer {
    fn default() -> (b: Self)
        ensures
            b == PopupBuffer::spec_default(),
    {
        PopupBuffer { begin: 0, parent: 0, last: 0, end: 0, active: false }
    }
}

impl PopupBuffer {
    /// Starts a popup at `len`, the current fill of the command buffer.
    pub fn start(&mut self, len: usize)
        ensures
            *final(self) == (PopupBuffer { begin: len, parent: len, last: len, end: len, active: true }),
    {
        self.begin = len;
        self.end = len;
        self.parent = len;
        self.last = len;
        self.active = true;
    }

    /// Ends a popup at `len`, the current fill of the command buffer.
    pub fn finish(&mut self, len: usize)
        ensures
            *final(self) == (PopupBuffer { last: len, end: len, ..*old(self) }),
    {
        self.last = len;
        self.end = len;
    }
}

#[derive(Copy, Clone, Debug)]
pub struct Chart {}

/// What the layout logic reads of a panel: its kind, its options and
/// whether it scrolls.
#[derive(Copy, Clone, Debug)]
pub struct Panel {
    pub typ: BitFlags<PanelType>,
    pub flags: BitFlags<PanelFlags>,
    pub has_scrolling: bool,
}


impl Panel {
    /// A panel of the given kind with no option set.
    pub fn new(typ: BitFlags<PanelType>) -> (p: Panel)
        ensures
            p.typ == typ,
            p.flags.view_bits() == 0,
            !p.has_scrolling,
    {
        Panel { typ, flags: BitFlags::empty(), has_scrolling: false }
    }

    /// A panel has a header when it is closable, minimizable or titled, is
    /// not hidden, and a title is given.
    pub open spec fn spec_has_header(bits: u32, titled: bool) -> bool {
        (bits & 0x18 != 0 || bits & 0x40 != 0) && bits & 0x2000 == 0 && titled
    }

    pub fn has_header(flags: BitFlags<PanelFlags>, title: Option<&str>) -> (b: bool)
        ensures
            b == Panel::spec_has_header(flags.view_bits(), title is Some),
    {
        proof {
            lemma_panel_type_masks();
        }
        let active = flags.intersects(
            BitFlags::from_flag(PanelFlags::WindowClosable).with(PanelFlags::WindowMinimizable),
        );
        let active = active || flags.intersects(BitFlags::from_flag(PanelFlags::WindowTitle));
        let active = active && !flags.intersects(BitFlags::from_flag(PanelFlags::WindowHidden))
            && title.is_some();
        active
    }

    pub fn is_nonblock(&self) -> (b: bool)
        ensures
            b == (self.typ.view_bits() & non_block_bits() != 0),
    {
        self.typ.intersects(PanelType::non_block())
    }

    pub fn is_popup(&self) -> (b: bool)
        ensures
            b == (self.typ.view_bits() & popup_bits() != 0),
    {
        self.typ.intersects(PanelType::popup())
    }

    pub fn is_sub(&self) -> (b: bool)
        ensures
            b == (self.typ.view_bits() & sub_bits() != 0),
    {
        self.typ.intersects(PanelType::sub())
    }
}

/// A window's options after the buttons of its header: the close button of
/// a closable window hides it and takes its minimized option away; then the
/// minimize button of a minimizable window that is not read only toggles
/// the minimized option. A window without a header keeps its options.
pub open spec fn spec_header_flags(bits: u32, has_header: bool, close_fired: bool, minimize_fired: bool) -> u32 {
    if !has_header {
        bits
    } else {
        let closed = if bits & 0x08 != 0 && close_fired {
            (bits | 0x2000) & !0x8000u32
        } else {
            bits
        };
        if bits & 0x10 != 0 && minimize_fired && bits & 0x1000 == 0 {
            if closed & 0x8000 != 0 {
                closed & !0x8000u32
            } else {
                closed | 0x8000
            }
        } else {
            closed
        }
    }
}

impl Panel {
    /// The options a window's panel takes from the window's options `flags`
    /// and the header buttons: `close_fired` and `minimize_fired` tell
    /// whether the close and minimize buttons fired this frame (their
    /// rectangles are laid out in floating point by the caller).
    pub fn header_flags(
        flags: BitFlags<PanelFlags>,
        title: Option<&str>,
        close_fired: bool,
        minimize_fired: bool,
    ) -> (r: BitFlags<PanelFlags>)
        ensures
            r.view_bits() == spec_header_flags(
                flags.view_bits(),
                Panel::spec_has_header(flags.view_bits(), title is Some),
                close_fired,
                minimize_fired,
            ),
    {
        let mut layout = flags;
        if Panel::has_header(flags, title) {
            if flags.intersects(BitFlags::from_flag(PanelFlags::WindowClosable)) && close_fired {
                layout.insert(BitFlags::from_flag(PanelFlags::WindowHidden));
                layout.remove(BitFlags::from_flag(PanelFlags::WindowMinimized));
            }
            if flags.intersects(BitFlags::from_flag(PanelFlags::WindowMinimizable)) && minimize_fired
                && !flags.intersects(BitFlags::from_flag(PanelFlags::WindowRom)) {
                if layout.intersects(BitFlags::from_flag(PanelFlags::WindowMinimized)) {
                    layout.remove(BitFlags::from_flag(PanelFlags::WindowMinimized));
                } else {
                    layout.insert(BitFlags::from_flag(PanelFlags::WindowMinimized));
                }
            }
        }
        layout
    }
}

/// The option `f` is among the options `bits`.
pub open spec fn panel_has(bits: u32, f: PanelFlags) -> bool {
    bits & f.spec_bits() != 0
}

/// A window has a header exactly when it can be closed, minimized or has the
/// title option, is not hidden, and a title is given.
pub proof fn lemma_has_header_options(bits: u32, titled: bool)
    ensures
        Panel::spec_has_header(bits, titled) == ((panel_has(bits, PanelFlags::WindowClosable)
            || panel_has(bits, PanelFlags::WindowMinimizable) || panel_has(
            bits,
            PanelFlags::WindowTitle,
        )) && !panel_has(bits, PanelFlags::WindowHidden) && titled),
{
    lemma_header_bits(bits);
}

/// A window without a header keeps its options. In one with a header, the
/// fired close button of a closable window hides it and takes its minimized
/// option away; the fired minimize button of a minimizable window that is
/// not read only, its close button not firing, toggles the minimized option.
pub proof fn lemma_header_buttons(bits: u32, titled: bool, close_fired: bool, minimize_fired: bool)
    ensures
        !Panel::spec_has_header(bits, titled) ==> spec_header_flags(
            bits,
            Panel::spec_has_header(bits, titled),
            close_fired,
            minimize_fired,
        ) == bits,
        Panel::spec_has_header(bits, titled) && panel_has(bits, PanelFlags::WindowClosable)
            && close_fired && !(panel_has(bits, PanelFlags::WindowMinimizable) && minimize_fired
            && !panel_has(bits, PanelFlags::WindowRom)) ==> ({
            let r = spec_header_flags(bits, true, close_fired, minimize_fired);
            panel_has(r, PanelFlags::WindowHidden) && !panel_has(r, PanelFlags::WindowMinimized)
        }),
        Panel::spec_has_header(bits, titled) && panel_has(bits, PanelFlags::WindowMinimizable)
            && minimize_fired && !close_fired && !panel_has(bits, PanelFlags::WindowRom) ==> ({
            let r = spec_header_flags(bits, true, close_fired, minimize_fired);
            &&& panel_has(r, PanelFlags::WindowMinimized) == !panel_has(bits, PanelFlags::WindowMinimized)
            &&& r & !0x8000u32 == bits & !0x8000u32
        }),
        !minimize_fired && !close_fired ==> spec_header_flags(
            bits,
            Panel::spec_has_header(bits, titled),
            close_fired,
            minimize_fired,
        ) == bits,
{
    lemma_header_bits(bits);
}

proof fn lemma_header_bits(bits: u32)
    by (bit_vector)
    ensures
        (bits & 0x18 != 0) == (bits & 0x08 != 0 || bits & 0x10 != 0),
        ((bits | 0x2000) & !0x8000u32) & 0x2000 != 0,
        ((bits | 0x2000) & !0x8000u32) & 0x8000 == 0,
        (bits & !0x8000u32) & 0x8000 == 0,
        (bits | 0x8000) & 0x8000 != 0,
        (bits & !0x8000u32) & !0x8000u32 == bits & !0x8000u32,
        (bits | 0x8000) & !0x8000u32 == bits & !0x8000u32,
{
}

} // verus!
