use vstd::prelude::*;

verus! {

/// Axis-aligned rectangle with integer coordinates: `(x, y)` is its top-left
/// corner, `w` and `h` its size in pixels.
#[derive(Clone, Copy, Debug, PartialEq, Eq, Structural)]
pub struct Rect {
    pub x: u32,
    pub y: u32,
    pub w: u32,
    pub h: u32,
}

impl Rect {
    /// One past the last column the rectangle covers.
    pub open spec fn end_x(self) -> int {
        self.x + self.w
    }

    /// One past the last row the rectangle covers.
    pub open spec fn end_y(self) -> int {
        self.y + self.h
    }

    /// `other` lies fully within `self`, edges included.
    pub open spec fn spec_contains(self, other: Rect) -> bool {
        &&& self.x <= other.x
        &&& other.end_x() <= self.end_x()
        &&& self.y <= other.y
        &&& other.end_y() <= self.end_y()
    }

    pub fn new(x: u32, y: u32, w: u32, h: u32) -> (r: Rect)
        ensures
            r == (Rect { x, y, w, h }),
    {
        Rect { x, y, w, h }
    }

    pub fn top(&self) -> (r: u32)
        ensures
            r == self.y,
    {
        self.y
    }

    /// Last row covered by the rectangle.
    pub fn bottom(&self) -> (r: u32)
        requires
            self.h > 0,
            self.end_y() <= u32::MAX + 1,
        ensures
            r == self.end_y() - 1,
    {
        self.y + (self.h - 1)
    }

    pub fn left(&self) -> (r: u32)
        ensures
            r == self.x,
    {
        self.x
    }

    /// Last column covered by the rectangle.
    pub fn right(&self) -> (r: u32)
        requires
            self.w > 0,
            self.end_x() <= u32::MAX + 1,
        ensures
            r == self.end_x() - 1,
    {
        self.x + (self.w - 1)
    }

    /// Whether `other` lies fully within `self`, edges included.
    pub fn contains(&self, other: &Rect) -> (r: bool)
        ensures
            r == self.spec_contains(*other),
    {
        let self_end_x = self.x as u64 + self.w as u64;
        let self_end_y = self.y as u64 + self.h as u64;
        let other_end_x = other.x as u64 + other.w as u64;
        let other_end_y = other.y as u64 + other.h as u64;
        self.x <= other.x && other_end_x <= self_end_x && self.y <= other.y && other_end_y
            <= self_end_y
    }
}

} // verus!
