//! Pens and drawings: a drawing is one stroke, an ordered point list plus
//! the pen it is drawn with.

use vstd::prelude::*;

use crate::geom::Pos;

verus! {

/// An RGBA color, eight bits per channel.
#[derive(Clone, Copy, PartialEq, Eq, Structural, Debug)]
pub struct Color {
    pub r: u8,
    pub g: u8,
    pub b: u8,
    pub a: u8,
}

/// A stroke style: color plus line width in integer device units.  The
/// width is unsigned, so it is non-negative by construction.
#[derive(Clone, Copy, PartialEq, Eq, Structural, Debug)]
pub struct Pen {
    pub color: Color,
    pub width: u32,
}

impl Color {
    /// Opaque white.
    pub fn white() -> (c: Color)
        ensures
            c == (Color { r: 255, g: 255, b: 255, a: 255 }),
    {
        Color { r: 255, g: 255, b: 255, a: 255 }
    }

    /// Fully transparent black.
    pub fn transparent() -> (c: Color)
        ensures
            c == (Color { r: 0, g: 0, b: 0, a: 0 }),
    {
        Color { r: 0, g: 0, b: 0, a: 0 }
    }
}

impl Default for Pen {
    /// A zero-width, fully transparent pen: the style a freshly cleared
    /// in-progress slot carries before its owner draws with it.
    fn default() -> (p: Pen)
        ensures
            p == spec_default_pen(),
    {
        Pen { color: Color { r: 0, g: 0, b: 0, a: 0 }, width: 0 }
    }
}

/// The pen of a freshly created or freshly cleared drawing.
pub open spec fn spec_default_pen() -> Pen {
    Pen { color: Color { r: 0, g: 0, b: 0, a: 0 }, width: 0 }
}

/// One stroke: the points visited, in drawing order, and the pen style.
#[derive(Clone, Debug)]
pub struct Drawing {
    pub points: Vec<Pos>,
    pub pen: Pen,
}

/// The mathematical value of a [`Drawing`].
pub struct DrawingView {
    pub points: Seq<Pos>,
    pub pen: Pen,
}

impl View for Drawing {
    type V = DrawingView;

    open spec fn view(&self) -> DrawingView {
        DrawingView { points: self.points@, pen: self.pen }
    }
}

/// The value of a drawing with no points and the default pen.
pub open spec fn spec_empty_drawing() -> DrawingView {
    DrawingView { points: Seq::empty(), pen: spec_default_pen() }
}

impl Drawing {
    /// A drawing with no points yet: what a participant's in-progress slot
    /// holds between strokes.
    pub fn empty() -> (d: Drawing)
        ensures
            d@ == spec_empty_drawing(),
    {
        Drawing { points: Vec::new(), pen: Pen { color: Color { r: 0, g: 0, b: 0, a: 0 }, width: 0 } }
    }

    /// An identical copy of this drawing, e.g. to emit it as a primitive
    /// while the original stays in the shared state.
    pub fn duplicate(&self) -> (d: Drawing)
        ensures
            d@ == self@,
    {
        let mut pts: Vec<Pos> = Vec::new();
        let mut i: usize = 0;
        while i < self.points.len()
            invariant
                i <= self.points@.len(),
                pts@ == self.points@.take(i as int),
            decreases self.points@.len() - i,
        {
            proof {
                assert(self.points@.take(i as int + 1) =~= self.points@.take(i as int).push(
                    self.points@[i as int],
                ));
            }
            pts.push(self.points[i]);
            i = i + 1;
        }
        proof {
            assert(self.points@.take(self.points@.len() as int) =~= self.points@);
        }
        Drawing { points: pts, pen: self.pen }
    }
}

} // verus!
