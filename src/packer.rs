use vstd::prelude::*;
use crate::frame::Frame;
use crate::rect::Rect;

verus! {

/// The center of an untrimmed `frame` fits the coordinate type.
pub open spec fn center_fits<K>(frame: Frame<K>) -> bool {
    &&& frame.frame.x + frame.frame.w / 2 <= u32::MAX
    &&& frame.frame.y + frame.frame.h / 2 <= u32::MAX
}

/// A strategy that packs textures one at a time into a bin.
pub trait Packer<K> {
    /// The packer's state is consistent.
    spec fn ready(&self) -> bool;

    /// The packer can be asked to place a texture of the size of
    /// `texture_rect`.
    spec fn admits(&self, texture_rect: Rect) -> bool;

    /// Places a texture and returns its untrimmed frame under `key`, or
    /// `None` when it fits nowhere.
    fn pack(&mut self, key: K, texture_rect: &Rect) -> (r: Option<Frame<K>>)
        requires
            old(self).ready(),
            old(self).admits(*texture_rect),
        ensures
            final(self).ready(),
            forall|t: Rect| old(self).admits(t) == final(self).admits(t),
            r is Some ==> (r->0).key == key && !(r->0).trimmed,
            r is Some ==> (r->0).source == (Rect {
                x: 0,
                y: 0,
                w: texture_rect.w,
                h: texture_rect.h,
            }),
    ;

    /// Whether `pack` would place the texture, without placing it.
    fn can_pack(&self, texture_rect: &Rect) -> bool
        requires
            self.ready(),
            self.admits(*texture_rect),
    ;

    /// Center of the untrimmed image of `frame` in the bin.
    fn frame_center_before_trimming(&self, frame: Frame<K>) -> (u32, u32)
        requires
            !frame.trimmed ==> center_fits(frame),
    ;
}

} // verus!
