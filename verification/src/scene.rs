//! Small scene-building types shared by the drawing front ends: a square
//! tile, a sized container of scene items, and a framed window. Drawing
//! itself belongs to the front ends; these types only carry the geometry.

use vstd::prelude::*;

verus! {

/// A square tile placed on a scene.
#[derive(Clone)]
pub struct Tile {
    pub x: i32,
    pub y: i32,
    pub width: u32,
    pub height: u32,
}

impl Tile {
    /// A fresh tile at the origin, thirty units a side.
    pub fn new() -> (r: Tile)
        ensures
            r.x == 0,
            r.y == 0,
            r.width == 30,
            r.height == 30,
    {
        Tile { x: 0, y: 0, width: 30, height: 30 }
    }

    /// Moves the tile to the given column, leaving everything else as it
    /// was.
    pub fn set_x(&mut self, x: i32) -> (r: &Self)
        ensures
            final(self).x == x,
            final(self).y == old(self).y,
            final(self).width == old(self).width,
            final(self).height == old(self).height,
            *r == *final(self),
    {
        self.x = x;
        self
    }

    /// The tile's column.
    pub fn get_x(&self) -> (r: i32)
        ensures
            r == self.x,
    {
        self.x
    }

    /// The tile's row.
    pub fn get_y(&self) -> (r: i32)
        ensures
            r == self.y,
    {
        self.y
    }
}

/// A sized container holding the items of a scene in insertion order.
pub struct Container<T> {
    pub width: u32,
    pub height: u32,
    pub contents: Vec<T>,
}

impl<T> Container<T> {
    /// An empty container of the given size.
    pub fn new(width: u32, height: u32) -> (r: Container<T>)
        ensures
            r.width == width,
            r.height == height,
            r.contents@ =~= Seq::<T>::empty(),
    {
        Container { width, height, contents: Vec::new() }
    }

    /// Adds one item at the end, leaving the size as it was.
    pub fn push(&mut self, item: T) -> (r: &Self)
        ensures
            final(self).width == old(self).width,
            final(self).height == old(self).height,
            final(self).contents@ == old(self).contents@.push(item),
            *r == *final(self),
    {
        self.contents.push(item);
        self
    }
}

/// A window drawn with a frame inset by a fixed margin.
pub struct MyWindow {
    pub width: u32,
    pub height: u32,
    pub margin: u32,
}

impl MyWindow {
    /// A window of the given size with the default margin of ten units.
    pub fn new(width: u32, height: u32) -> (r: MyWindow)
        ensures
            r.width == width,
            r.height == height,
            r.margin == 10,
    {
        MyWindow { width, height, margin: 10 }
    }
}

} // verus!
