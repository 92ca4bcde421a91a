use vstd::prelude::*;

verus! {

#[derive(Copy, Clone, Debug, PartialEq, Eq)]
pub enum SymbolType {
    X,
    None_,
    Underscore,
    CircleSolid,
    CircleOutline,
    RectSolid,
    RectOutline,
    TriangleUp,
    TriangleDown,
    TriangleLeft,
    TriangleRight,
    Plus,
    Minus,
    Max,
}

#[derive(Copy, Clone, Debug, PartialEq, Eq)]
pub enum StyleHeaderAlign {
    Left,
    Right,
}

/// The entries of a colour table for a style.
#[derive(Copy, Clone, Debug, PartialEq, Eq)]
pub enum StyleColors {
    ColorText,
    ColorWindow,
    ColorHeader,
    ColorBorder,
    ColorButton,
    ColorButtonHover,
    ColorButtonActive,
    ColorToggle,
    ColorToggleHover,
    ColorToggleCursor,
    ColorSelect,
    ColorSelectActive,
    ColorSlider,
    ColorSliderCursor,
    ColorSliderCursorHover,
    ColorSliderCursorActive,
    ColorProperty,
    ColorEdit,
    ColorEditCursor,
    ColorCombo,
    ColorChart,
    ColorChartColor,
    ColorChartColorHighlight,
    ColorScrollbar,
    ColorScrollbarCursor,
    ColorScrollbarCursorHover,
    ColorScrollbarCursorActive,
    ColorTabHeader,
    ColorCount,
}

#[derive(Copy, Clone, Debug, PartialEq, Eq)]
pub enum StyleCursor {
    CursorArrow,
    CursorText,
    CursorMove,
    CursorResizeVertical,
    CursorResizeHorizontal,
    CursorResizeTopLeftDownRight,
    CursorResizeTopRightDownLeft,
    CursorCount,
}

} // verus!
