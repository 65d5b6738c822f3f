//! The panel's pages, laid out as lists of paint operations. A painter runs
//! them in order and stops at the first that fails.
use vstd::prelude::*;

pub mod keys;
pub mod keys_menu;

verus! {

/// A point on the panel.
#[derive(Clone, Copy, PartialEq, Eq, Structural, Debug)]
pub struct Point {
    pub x: i32,
    pub y: i32,
}

/// A rectangle on the panel.
#[derive(Clone, Copy, PartialEq, Eq, Structural, Debug)]
pub struct Rect {
    pub x: u16,
    pub y: u16,
    pub w: u16,
    pub h: u16,
}

/// The theme's colours, by what they stand for.
#[derive(Clone, Copy, PartialEq, Eq, Structural, Debug)]
pub enum Ink {
    /// Plain text.
    Fg,
    /// Hints and indicators.
    Muted,
    /// Secondary text.
    Grey,
    Success,
    Accent,
    Warn,
    Danger,
}

/// A colour to paint with: a theme colour as it is, or lit over the background
/// at a 4-bit coverage.
#[derive(Clone, Copy, PartialEq, Eq, Structural, Debug)]
pub enum Paint {
    Solid(Ink),
    Lit { ink: Ink, coverage: u8 },
}

/// The text faces.
#[derive(Clone, Copy, PartialEq, Eq, Structural, Debug)]
pub enum Role {
    Ready,
    Heading,
    Body,
    BodyStrong,
    Mono,
}

/// The icons.
#[derive(Clone, Copy, PartialEq, Eq, Structural, Debug)]
pub enum Glyph {
    CheckCircle,
    Rotate,
    Shield,
    Usb,
    Check,
    Warn,
}

/// How a line of text sits at its point, which is always its vertical middle.
#[derive(Clone, Copy, PartialEq, Eq, Structural, Debug)]
pub enum Placing {
    /// Starts at the point, over the background.
    Left,
    /// Ends at the point, over the background.
    Right,
    /// Centred on the point, over the background.
    Centered,
    /// A plain line centred on the point.
    Line,
    /// Starts at the point and loses its tail where it outgrows `clip`; `cut`
    /// forces the mark of a loss.
    KeepHead { clip: Rect, cut: bool },
    /// Fits `clip` by losing its head; `cut` forces the mark of a loss.
    KeepTail { clip: Rect, cut: bool },
}

/// One paint operation.
#[derive(Debug)]
pub enum Op {
    /// Fill an area with the background.
    Fill { area: Rect },
    /// Paint an icon centred in its slot, over the background.
    Icon { glyph: Glyph, slot: Rect, size: u16, paint: Paint },
    /// Paint a line of text.
    Text { text: String, at: Point, role: Role, paint: Paint, placing: Placing },
}

/// What a paint operation does.
pub enum OpModel {
    Fill { area: Rect },
    Icon { glyph: Glyph, slot: Rect, size: u16, paint: Paint },
    Text { text: Seq<char>, at: Point, role: Role, paint: Paint, placing: Placing },
}

impl View for Op {
    type V = OpModel;

    open spec fn view(&self) -> OpModel {
        match *self {
            Op::Fill { area } => OpModel::Fill { area },
            Op::Icon { glyph, slot, size, paint } => OpModel::Icon { glyph, slot, size, paint },
            Op::Text { text, at, role, paint, placing } => OpModel::Text {
                text: text@,
                at,
                role,
                paint,
                placing,
            },
        }
    }
}

/// A page's operations, one by one.
pub open spec fn ops_of(ops: Seq<Op>) -> Seq<OpModel> {
    ops.map_values(|op: Op| op@)
}

} // verus!
