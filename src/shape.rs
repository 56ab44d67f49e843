use vstd::prelude::*;
use vstd::string::StringExecFns;
use crate::color::{Color, resolve_color, color_from_channels};
use crate::color::css_rgba_of;

verus! {

/// Whether a shape is drawn as an outline or as a filled region.
#[derive(Clone, Copy, Debug, PartialEq, Eq, Structural)]
pub enum PaintStyle {
    Stroke,
    Fill,
}

/// A drawable primitive with integer geometry and a resolved color.
#[derive(Debug, PartialEq, Eq)]
pub enum Shape {
    Rect { x: u32, y: u32, width: u32, height: u32, color: Color, style: PaintStyle },
    Circle { cx: u32, cy: u32, r: u32, color: Color, style: PaintStyle },
    RoundRect { x: u32, y: u32, width: u32, height: u32, r: u32, color: Color, style: PaintStyle },
    Line { p1: [u32; 2], p2: [u32; 2], color: Color, stroke_width: u32 },
    Points { points: Vec<[u32; 2]>, color: Color, stroke_width: u32, style: PaintStyle },
}

/// Rectangle attributes as they arrive from the host.
pub struct WASMRectAttr {
    pub width: u32,
    pub height: u32,
    pub x: u32,
    pub y: u32,
    pub color: String,
    pub style: String,
}

/// Circle attributes as they arrive from the host.
pub struct WASMCircleAttr {
    pub cx: u32,
    pub cy: u32,
    pub r: u32,
    pub color: String,
    pub style: String,
}

/// Rounded-rectangle attributes as they arrive from the host.
pub struct WASMRoundRectAttr {
    pub width: u32,
    pub height: u32,
    pub r: u32,
    pub x: u32,
    pub y: u32,
    pub color: String,
    pub style: String,
}

/// Line attributes as they arrive from the host; a line has no style.
pub struct WASMLineAttr {
    pub p1: [u32; 2],
    pub p2: [u32; 2],
    pub color: String,
    pub stroke_width: u32,
}

/// Point-sequence attributes as they arrive from the host.
pub struct WASMPointsAttr {
    pub points: Vec<[u32; 2]>,
    pub color: String,
    pub stroke_width: u32,
    pub style: String,
}

/// The tagged shape payload of a set-shape message.
pub enum WASMShapesAttr {
    R(WASMRectAttr),
    C(WASMCircleAttr),
    RR(WASMRoundRectAttr),
    L(WASMLineAttr),
    P(WASMPointsAttr),
}

/// A set-shape message.
pub struct WASMShape {
    pub attr: WASMShapesAttr,
}

/// `"fill"` gives Fill; `"stroke"` and every other text give Stroke.
pub open spec fn style_of(text: Seq<char>) -> PaintStyle {
    if text == "fill"@ {
        PaintStyle::Fill
    } else {
        PaintStyle::Stroke
    }
}

pub fn parse_style(text: &String) -> (style: PaintStyle)
    ensures
        style == style_of(text@),
{
    let fill = String::from_str("fill");
    if *text == fill {
        PaintStyle::Fill
    } else {
        PaintStyle::Stroke
    }
}

/// The color text of a payload.
pub open spec fn color_text_of(attr: WASMShapesAttr) -> Seq<char> {
    match attr {
        WASMShapesAttr::R(a) => a.color@,
        WASMShapesAttr::C(a) => a.color@,
        WASMShapesAttr::RR(a) => a.color@,
        WASMShapesAttr::L(a) => a.color@,
        WASMShapesAttr::P(a) => a.color@,
    }
}

/// The shape a payload describes once its color text resolved to `color`.
pub open spec fn shape_with_color(attr: WASMShapesAttr, color: Color) -> Shape {
    match attr {
        WASMShapesAttr::R(a) => Shape::Rect {
            x: a.x, y: a.y, width: a.width, height: a.height, color, style: style_of(a.style@),
        },
        WASMShapesAttr::C(a) => Shape::Circle { cx: a.cx, cy: a.cy, r: a.r, color, style: style_of(a.style@) },
        WASMShapesAttr::RR(a) => Shape::RoundRect {
            x: a.x, y: a.y, width: a.width, height: a.height, r: a.r, color, style: style_of(a.style@),
        },
        WASMShapesAttr::L(a) => Shape::Line { p1: a.p1, p2: a.p2, color, stroke_width: a.stroke_width },
        WASMShapesAttr::P(a) => Shape::Points {
            points: a.points, color, stroke_width: a.stroke_width, style: style_of(a.style@),
        },
    }
}

/// The shape a payload describes, given what its color text resolved to:
/// none when it did not resolve.
pub open spec fn shape_of(attr: WASMShapesAttr, rgba: Option<(u8, u8, u8, u8)>) -> Option<Shape> {
    match rgba {
        Some(c) => Some(shape_with_color(attr, color_from_channels(c))),
        None => None,
    }
}

/// Builds the shape of a payload whose color text resolved to `rgba`
/// (red, green, blue, alpha); `None` when it did not resolve.
pub fn build_shape(attr: WASMShapesAttr, rgba: Option<(u8, u8, u8, u8)>) -> (r: Option<Shape>)
    ensures
        r == shape_of(attr, rgba),
{
    let color = match rgba {
        Some((red, green, blue, alpha)) => Color::from_rgba(red, green, blue, alpha),
        None => {
            return None;
        },
    };
    match attr {
        WASMShapesAttr::R(a) => {
            let style = parse_style(&a.style);
            Some(Shape::Rect { x: a.x, y: a.y, width: a.width, height: a.height, color, style })
        },
        WASMShapesAttr::C(a) => {
            let style = parse_style(&a.style);
            Some(Shape::Circle { cx: a.cx, cy: a.cy, r: a.r, color, style })
        },
        WASMShapesAttr::RR(a) => {
            let style = parse_style(&a.style);
            Some(Shape::RoundRect { x: a.x, y: a.y, width: a.width, height: a.height, r: a.r, color, style })
        },
        WASMShapesAttr::L(a) => Some(Shape::Line { p1: a.p1, p2: a.p2, color, stroke_width: a.stroke_width }),
        WASMShapesAttr::P(a) => {
            let style = parse_style(&a.style);
            Some(Shape::Points { points: a.points, color, stroke_width: a.stroke_width, style })
        },
    }
}

/// The color text of a payload.
pub fn color_text(attr: &WASMShapesAttr) -> (t: &String)
    ensures
        t@ == color_text_of(*attr),
{
    match attr {
        WASMShapesAttr::R(a) => &a.color,
        WASMShapesAttr::C(a) => &a.color,
        WASMShapesAttr::RR(a) => &a.color,
        WASMShapesAttr::L(a) => &a.color,
        WASMShapesAttr::P(a) => &a.color,
    }
}

/// Turns a payload into a shape: its color text is resolved as a CSS
/// color, and a text that is no RGBA color gives `None`.
pub fn shape_from_attr(attr: WASMShapesAttr) -> (r: Option<Shape>)
    ensures
        r == shape_of(attr, css_rgba_of(color_text_of(attr))),
{
    let rgba = resolve_color(color_text(&attr).as_str());
    build_shape(attr, rgba)
}

} // verus!
