//! Drawing primitives. A [`Painter`] records the shapes it is asked to
//! draw, in order; whoever owns the screen replays them.

use vstd::prelude::*;

verus! {

/// Fixed-point units to the pixel.
pub const PX: i64 = 64;

/// Coordinates handed to the drawing functions lie within this distance of
/// zero, so that the offsets added to them cannot overflow.
pub const COORD_LIMIT: i64 = 0x100_0000_0000_0000;

pub open spec fn coord_ok(v: i64) -> bool {
    -COORD_LIMIT <= v <= COORD_LIMIT
}

#[derive(Clone, Copy, Debug, PartialEq, Eq, Structural)]
pub struct Color {
    pub r: u8,
    pub g: u8,
    pub b: u8,
}

impl Color {
    pub open spec fn rgb(r: u8, g: u8, b: u8) -> Color {
        Color { r, g, b }
    }

    pub open spec fn black() -> Color {
        Color { r: 0, g: 0, b: 0 }
    }

    pub fn from_rgb(r: u8, g: u8, b: u8) -> (c: Color)
        ensures
            c == Color::rgb(r, g, b),
    {
        Color { r, g, b }
    }
}

#[derive(Clone, Copy, Debug, PartialEq, Eq, Structural)]
pub struct Pos2 {
    pub x: i64,
    pub y: i64,
}

impl Pos2 {
    pub open spec fn at(x: int, y: int) -> Pos2 {
        Pos2 { x: x as i64, y: y as i64 }
    }

    pub fn new(x: i64, y: i64) -> (p: Pos2)
        ensures
            p == (Pos2 { x, y }),
    {
        Pos2 { x, y }
    }
}

#[derive(Clone, Copy, Debug, PartialEq, Eq, Structural)]
pub struct Stroke {
    pub width: i64,
    pub color: Color,
}

impl Stroke {
    pub fn new(width: i64, color: Color) -> (s: Stroke)
        ensures
            s == (Stroke { width, color }),
    {
        Stroke { width, color }
    }
}

/// An axis-aligned rectangle, given by its top-left and bottom-right
/// corners.
#[derive(Clone, Copy, Debug, PartialEq, Eq, Structural)]
pub struct Rect {
    pub min: Pos2,
    pub max: Pos2,
}

impl Rect {
    pub open spec fn spec_width(self) -> int {
        self.max.x - self.min.x
    }

    pub fn width(&self) -> (w: i64)
        requires
            coord_ok(self.min.x),
            coord_ok(self.max.x),
        ensures
            w == self.spec_width(),
    {
        self.max.x - self.min.x
    }
}

/// One recorded drawing instruction.
#[derive(Clone, Copy, Debug, PartialEq, Eq, Structural)]
pub enum Shape {
    LineSegment { from: Pos2, to: Pos2, stroke: Stroke },
    /// The outline of a circle.
    CircleStroke { center: Pos2, radius: i64, stroke: Stroke },
    /// A filled disc.
    CircleFilled { center: Pos2, radius: i64, fill: Color },
    /// One glyph, centred on `pos`.
    Text { pos: Pos2, glyph: char, size: i64, color: Color },
}

pub struct Painter {
    pub shapes: Vec<Shape>,
}

impl View for Painter {
    type V = Seq<Shape>;

    open spec fn view(&self) -> Seq<Shape> {
        self.shapes@
    }
}

impl Painter {
    pub fn new() -> (p: Painter)
        ensures
            p@ == Seq::<Shape>::empty(),
    {
        Painter { shapes: Vec::new() }
    }

    pub fn line_segment(&mut self, from: Pos2, to: Pos2, stroke: Stroke)
        ensures
            final(self)@ == old(self)@.push(Shape::LineSegment { from, to, stroke }),
    {
        self.shapes.push(Shape::LineSegment { from, to, stroke });
    }

    pub fn circle_stroke(&mut self, center: Pos2, radius: i64, stroke: Stroke)
        ensures
            final(self)@ == old(self)@.push(Shape::CircleStroke { center, radius, stroke }),
    {
        self.shapes.push(Shape::CircleStroke { center, radius, stroke });
    }

    pub fn circle_filled(&mut self, center: Pos2, radius: i64, fill: Color)
        ensures
            final(self)@ == old(self)@.push(Shape::CircleFilled { center, radius, fill }),
    {
        self.shapes.push(Shape::CircleFilled { center, radius, fill });
    }

    pub fn text(&mut self, pos: Pos2, glyph: char, size: i64, color: Color)
        ensures
            final(self)@ == old(self)@.push(Shape::Text { pos, glyph, size, color }),
    {
        self.shapes.push(Shape::Text { pos, glyph, size, color });
    }
}

} // verus!
