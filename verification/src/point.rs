//! Points tagged with the coordinate space they live in.

use core::marker::PhantomData;
use vstd::prelude::*;

use crate::rational::{rat_wf, Rat, Rational};

verus! {

/// Marker trait for a named 2-D coordinate system.  The tag takes part in
/// type checking only: a `Point` of one space cannot be passed where a
/// `Point` of another is expected, so screen pixels and fractal-plane
/// coordinates can never be mixed without an explicit transform.
pub trait CoordinateSpace {

}

/// Ghost model of a point: a pair of fractions.
pub ghost struct RatPoint {
    pub x: Rat,
    pub y: Rat,
}

/// Both coordinates are representable fractions.
pub open spec fn point_wf(p: RatPoint) -> bool {
    rat_wf(p.x) && rat_wf(p.y)
}

/// An (x, y) pair of exact coordinates, labeled with its coordinate space.
#[derive(Debug, PartialEq)]
pub struct Point<T: CoordinateSpace> {
    pub x: Rational,
    pub y: Rational,
    pub marker: PhantomData<T>,
}

impl<T: CoordinateSpace> Clone for Point<T> {
    /// An exact copy.
    fn clone(&self) -> (r: Self)
        ensures
            r == *self,
    {
        Point { x: self.x, y: self.y, marker: PhantomData }
    }
}

impl<T: CoordinateSpace> Copy for Point<T> {

}

impl<T: CoordinateSpace> View for Point<T> {
    type V = RatPoint;

    open spec fn view(&self) -> RatPoint {
        RatPoint { x: self.x@, y: self.y@ }
    }
}

impl<T: CoordinateSpace> Point<T> {
    /// The representation invariant: see `point_wf`.
    pub open spec fn wf(&self) -> bool {
        point_wf(self@)
    }

    /// Builds the point (x, y).
    pub fn new(x: Rational, y: Rational) -> (r: Point<T>)
        ensures
            r@ == (RatPoint { x: x@, y: y@ }),
    {
        Point { x, y, marker: PhantomData }
    }
}

} // verus!
