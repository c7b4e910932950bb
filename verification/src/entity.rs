//! Drawable entities: the player and the obstacles share one shape.

use crate::units::{in_range, COORD_LIMIT};
use vstd::prelude::*;

verus! {

/// An opaque colour with eight bits per channel.
#[derive(Clone, Copy, Debug, PartialEq, Eq, Structural)]
pub struct Color {
    pub red: u8,
    pub green: u8,
    pub blue: u8,
}

impl Color {
    /// Full white.
    pub fn white() -> (c: Color)
        ensures
            c == (Color { red: 255, green: 255, blue: 255 }),
    {
        Color { red: 255, green: 255, blue: 255 }
    }

    /// Full green.
    pub fn green() -> (c: Color)
        ensures
            c == (Color { red: 0, green: 255, blue: 0 }),
    {
        Color { red: 0, green: 255, blue: 0 }
    }

    /// Black.
    pub fn black() -> (c: Color)
        ensures
            c == (Color { red: 0, green: 0, blue: 0 }),
    {
        Color { red: 0, green: 0, blue: 0 }
    }
}

/// A ready-to-draw bitmap, known by a handle and its size in whole pixels.
#[derive(Clone, Copy, Debug, PartialEq, Eq, Structural)]
pub struct Sprite {
    pub handle: u32,
    pub width: u32,
    pub height: u32,
}

impl Sprite {
    /// Whether the bitmap is a square of `target` pixels.
    pub open spec fn is_square_of(&self, target: u32) -> bool {
        self.width == target && self.height == target
    }

    /// Tells whether the bitmap can be used as it is where a square of `target`
    /// pixels is asked for; if not, it has to be rescaled first.
    pub fn fits(&self, target: u32) -> (ok: bool)
        ensures
            ok == self.is_square_of(target),
    {
        self.height == target && self.width == target
    }

    /// The record of this bitmap once it has been rescaled to a square of `target`
    /// pixels.
    pub fn rescaled(&self, target: u32) -> (s: Sprite)
        ensures
            s == (Sprite { handle: self.handle, width: target, height: target }),
            s.is_square_of(target),
    {
        Sprite { handle: self.handle, width: target, height: target }
    }
}

/// One entity of the scene. `x` and `y` are in position units, `y` measured upward
/// from the ground line; `width` and `height` are in position units too.
#[derive(Clone, Copy, Debug, PartialEq, Eq)]
pub struct Drawable {
    pub x: i64,
    pub y: i64,
    pub width: i64,
    pub height: i64,
    pub color: Color,
    pub surface: Option<Sprite>,
    pub needs_redraw: bool,
}

impl Drawable {
    /// Every coordinate lies in the coordinate range and the size is not negative.
    pub open spec fn wf(&self) -> bool {
        &&& in_range(self.x as int)
        &&& in_range(self.y as int)
        &&& 0 <= self.width <= COORD_LIMIT
        &&& 0 <= self.height <= COORD_LIMIT
    }

    /// A new entity that is due for drawing.
    pub fn new(
        x: i64,
        y: i64,
        width: i64,
        height: i64,
        color: Color,
        surface: Option<Sprite>,
    ) -> (d: Drawable)
        ensures
            d == (Drawable { x, y, width, height, color, surface, needs_redraw: true }),
    {
        Drawable { x, y, width, height, color, surface, needs_redraw: true }
    }

    /// Tells whether the entity is well formed.
    pub fn is_valid(&self) -> (ok: bool)
        ensures
            ok == self.wf(),
    {
        -COORD_LIMIT <= self.x && self.x <= COORD_LIMIT && -COORD_LIMIT <= self.y && self.y
            <= COORD_LIMIT && 0 <= self.width && self.width <= COORD_LIMIT && 0 <= self.height
            && self.height <= COORD_LIMIT
    }
}

} // verus!
