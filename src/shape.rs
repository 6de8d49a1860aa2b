//! Tags that describe shapes, and the ordered stack of drawables.
use vstd::prelude::*;

verus! {

/// A corner of a rectangle.
#[derive(Copy, Clone, Debug, PartialEq, Eq, Structural)]
pub enum RectCorner {
    /// The (left, top) coordinate pair
    TopLeft,
    /// The (right, top) coordinate pair
    TopRight,
    /// The (left, bottom) coordinate pair
    BottomLeft,
    /// The (right, bottom) coordinate pair
    BottomRight,
}

/// The direction in which an elliptical arc is drawn.
#[derive(Copy, Clone, Debug, PartialEq, Eq, Structural)]
pub enum SweepDirection {
    /// Arcs are drawn in a counterclockwise (negative-angle) direction.
    CounterClockwise,
    /// Arcs are drawn in a clockwise (positive-angle) direction.
    Clockwise,
}

impl Default for SweepDirection {
    fn default() -> (r: Self)
        ensures
            r == SweepDirection::CounterClockwise,
    {
        SweepDirection::CounterClockwise
    }
}

/// Whether an arc sweeps more than half a turn.
#[derive(Copy, Clone, Debug, PartialEq, Eq, Structural)]
pub enum ArcSize {
    /// An arc's sweep should be 180 degrees or less.
    Small,
    /// An arc's sweep should be 180 degrees or greater.
    Large,
}

impl Default for ArcSize {
    fn default() -> (r: Self)
        ensures
            r == ArcSize::Small,
    {
        ArcSize::Small
    }
}

/// Drawables drawn in order, each over the ones before it.
pub struct Stack<T> {
    pub body: Vec<T>,
}

impl<T> Stack<T> {
    pub fn from(body: Vec<T>) -> (r: Stack<T>)
        ensures
            r.body@ == body@,
    {
        Stack { body }
    }
}

} // verus!
