use vstd::prelude::*;
use crate::rect::Rect;

verus! {

/// Boundaries and properties of a packed texture.
#[derive(Clone, Debug)]
pub struct Frame<K> {
    /// Key used to uniquely identify this frame.
    pub key: K,
    /// Rectangle describing the texture coordinates and size.
    pub frame: Rect,
    /// True if the texture was rotated during packing.
    /// If it was rotated, it was rotated 90 degrees clockwise.
    pub rotated: bool,
    /// True if the texture was trimmed during packing.
    pub trimmed: bool,
    /// Source texture size before any trimming: `(x, y)` is the position of the
    /// trimmed content within the original image, `(w, h)` the original image
    /// size.
    pub source: Rect,
}

/// Horizontal offset from the trimmed frame's center to the untrimmed image's
/// center, for a trimmed frame.
pub open spec fn center_offset_x(frame: Rect, source: Rect) -> int {
    source.w / 2 - (source.x + frame.w / 2)
}

/// Vertical offset from the trimmed frame's center to the untrimmed image's
/// center, for a trimmed frame.
pub open spec fn center_offset_y(frame: Rect, source: Rect) -> int {
    source.h / 2 - (source.y + frame.h / 2)
}

impl<K> Frame<K> {
    /// Offset in pixels from the trimmed frame's center (taken as the origin)
    /// to the center of the frame before trimming.
    ///
    /// Adding it to the position at which a trimmed frame is drawn centered
    /// moves the frame to where its untrimmed image would have been: useful
    /// when animation images of equal size are trimmed differently.
    ///
    /// A frame that was not trimmed gives `(0, 0)`.
    pub fn trimmed_center_to_non_trimmed_center_offset(&self) -> (r: (i32, i32))
        requires
            self.trimmed ==> i32::MIN <= center_offset_x(self.frame, self.source) <= i32::MAX,
            self.trimmed ==> i32::MIN <= center_offset_y(self.frame, self.source) <= i32::MAX,
        ensures
            !self.trimmed ==> r == (0i32, 0i32),
            self.trimmed ==> r.0 == center_offset_x(self.frame, self.source),
            self.trimmed ==> r.1 == center_offset_y(self.frame, self.source),
    {
        if !self.trimmed {
            return (0, 0);
        }
        let trimmed_center_x = self.source.x as i64 + (self.frame.w / 2) as i64;
        let trimmed_center_y = self.source.y as i64 + (self.frame.h / 2) as i64;
        let original_center_x = (self.source.w / 2) as i64;
        let original_center_y = (self.source.h / 2) as i64;
        ((original_center_x - trimmed_center_x) as i32, (original_center_y - trimmed_center_y)
            as i32)
    }
}

} // verus!
