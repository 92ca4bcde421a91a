use vstd::prelude::*;

use crate::hmi::image::Image;
use crate::math::rgb::RGBAColor;
use crate::math::vec2::Vec2I16;

verus! {

#[derive(Copy, Clone, Debug)]
pub struct CmdScissor {
    pub x: i16,
    pub y: i16,
    pub w: u16,
    pub h: u16,
}

#[derive(Copy, Clone, Debug)]
pub struct CmdLine {
    pub line_thickness: u16,
    pub begin: Vec2I16,
    pub end: Vec2I16,
    pub color: RGBAColor,
}

#[derive(Copy, Clone, Debug)]
pub struct CmdCurve {
    pub line_thickness: u16,
    pub begin: Vec2I16,
    pub end: Vec2I16,
    pub ctrl: [Vec2I16; 2],
    pub color: RGBAColor,
}

#[derive(Copy, Clone, Debug)]
pub struct CmdRect {
    pub rounding: u16,
    pub line_thickness: u16,
    pub x: i16,
    pub y: i16,
    pub w: u16,
    pub h: u16,
    pub color: RGBAColor,
}

#[derive(Copy, Clone, Debug)]
pub struct CmdRectFilled {
    pub rounding: u16,
    pub x: i16,
    pub y: i16,
    pub w: u16,
    pub h: u16,
    pub color: RGBAColor,
}

#[derive(Copy, Clone, Debug)]
pub struct CmdRectMulticolor {
    pub x: i16,
    pub y: i16,
    pub w: u16,
    pub h: u16,
    pub left: RGBAColor,
    pub top: RGBAColor,
    pub bottom: RGBAColor,
    pub right: RGBAColor,
}

#[derive(Copy, Clone, Debug)]
pub struct CmdTriangle {
    pub line_thickness: u16,
    pub a: Vec2I16,
    pub b: Vec2I16,
    pub c: Vec2I16,
    pub color: RGBAColor,
}

#[derive(Copy, Clone, Debug)]
pub struct CmdTriangleFilled {
    pub a: Vec2I16,
    pub b: Vec2I16,
    pub c: Vec2I16,
    pub color: RGBAColor,
}

#[derive(Copy, Clone, Debug)]
pub struct CmdCircle {
    pub x: i16,
    pub y: i16,
    pub line_thickness: u16,
    pub w: u16,
    pub h: u16,
    pub color: RGBAColor,
}

#[derive(Copy, Clone, Debug)]
pub struct CmdCircleFilled {
    pub x: i16,
    pub y: i16,
    pub w: u16,
    pub h: u16,
    pub color: RGBAColor,
}

#[derive(Copy, Clone, Debug)]
pub struct CmdImage {
    pub x: i16,
    pub y: i16,
    pub w: u16,
    pub h: u16,
    pub img: Image,
    pub color: RGBAColor,
}

#[derive(Clone, Debug)]
pub struct CmdPolygon {
    pub color: RGBAColor,
    pub line_thickness: u16,
    pub points: Vec<Vec2I16>,
}

#[derive(Clone, Debug)]
pub struct CmdPolygonFilled {
    pub color: RGBAColor,
    pub points: Vec<Vec2I16>,
}

#[derive(Clone, Debug)]
pub struct CmdPolyline {
    pub color: RGBAColor,
    pub line_thickness: u16,
    pub points: Vec<Vec2I16>,
}

} // verus!
