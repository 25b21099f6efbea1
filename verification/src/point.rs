//! Frame-tagged integer coordinates.
//!
//! A position and a displacement are different types. One becomes the other only through
//! the conversions named here.

use std::marker::PhantomData;
use vstd::prelude::*;

verus! {

/// Frame tag of a displacement between two positions.
#[derive(Debug, PartialEq, Eq, Clone, Copy)]
pub struct Relative;

/// Frame tag of a position on the page.
#[derive(Debug, PartialEq, Eq, Clone, Copy)]
pub struct Absolute;

/// An `(x, y)` pair of signed integers in the frame `T`.
#[derive(Debug, PartialEq, Eq)]
pub struct Coordinate<T> {
    pub x: i32,
    pub y: i32,
    pub frame: PhantomData<T>,
}

impl<T> Clone for Coordinate<T> {
    fn clone(&self) -> (c: Self)
        ensures
            c == *self,
    {
        Self { x: self.x, y: self.y, frame: PhantomData }
    }
}

impl<T> Copy for Coordinate<T> {

}

impl<T> Coordinate<T> {
    /// The pair as mathematical integers.
    pub open spec fn view(&self) -> (int, int) {
        (self.x as int, self.y as int)
    }

    /// The coordinate `(x, y)`.
    pub open spec fn at(x: i32, y: i32) -> Self {
        Coordinate { x, y, frame: PhantomData }
    }

    /// The coordinate `(x, y)`.
    pub fn new(x: i32, y: i32) -> (c: Self)
        ensures
            c == Self::at(x, y),
    {
        Self { x, y, frame: PhantomData }
    }
}

impl Coordinate<Absolute> {
    /// The displacement from `self` to `to` fits the coordinate type.
    pub open spec fn reaches(&self, to: Coordinate<Absolute>) -> bool {
        &&& i32::MIN <= to.x - self.x <= i32::MAX
        &&& i32::MIN <= to.y - self.y <= i32::MAX
    }

    /// The displacement that leads from this position to `to`.
    pub fn displacement_to(&self, to: &Coordinate<Absolute>) -> (delta: Coordinate<Relative>)
        requires
            self.reaches(*to),
        ensures
            delta@ == (to.x - self.x, to.y - self.y),
    {
        Coordinate::new(to.x - self.x, to.y - self.y)
    }

    /// The displacement that leads from the origin to this position.
    pub fn from_origin(&self) -> (delta: Coordinate<Relative>)
        ensures
            delta@ == self@,
    {
        Coordinate::new(self.x, self.y)
    }
}

} // verus!
