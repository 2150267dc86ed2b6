use vstd::prelude::*;
use crate::rect::Rect;

verus! {

/// Why a pixel could not be written.
#[derive(Clone, Copy, Debug, PartialEq, Eq, Structural)]
pub enum TextureError {
    /// The texture is a view that borrows its pixels and may only read them.
    ReadOnly,
    /// The place lies beyond the largest coordinate a texture can have.
    OutOfBounds,
}

/// A surface of pixels addressed by column and row.
pub trait Texture {
    type Pixel;

    fn width(&self) -> u32;

    fn height(&self) -> u32;

    fn get(&self, x: u32, y: u32) -> Option<Self::Pixel>;

    fn set(&mut self, x: u32, y: u32, val: Self::Pixel) -> Result<(), TextureError>;
}

enum Parent<'a, T> {
    Owned(T),
    Borrowed(&'a T),
}

/// Texture that is a subset of another texture.
pub struct SubTexture<'a, T: 'a> {
    texture: Parent<'a, T>,
    source: Rect,
}

impl<'a, T: Texture> SubTexture<'a, T> {
    /// The part of the parent texture that this one shows.
    pub closed spec fn source(&self) -> Rect {
        self.source
    }

    /// The sub-texture holds its parent itself, and may write to it.
    pub closed spec fn owns_parent(&self) -> bool {
        self.texture is Owned
    }

    /// Get a `SubTexture` owning the parent texture.
    pub fn new(texture: T, source: Rect) -> (r: SubTexture<'a, T>)
        ensures
            r.source() == source,
            r.owns_parent(),
    {
        SubTexture { texture: Parent::Owned(texture), source: source }
    }

    /// Get a `SubTexture` referencing the parent texture.
    pub fn from_ref(texture: &'a T, source: Rect) -> (r: SubTexture<'a, T>)
        ensures
            r.source() == source,
            !r.owns_parent(),
    {
        SubTexture { texture: Parent::Borrowed(texture), source: source }
    }
}

impl<'a, T: Texture> Texture for SubTexture<'a, T> {
    type Pixel = T::Pixel;

    fn width(&self) -> (r: u32)
        ensures
            r == self.source().w,
    {
        self.source.w
    }

    fn height(&self) -> (r: u32)
        ensures
            r == self.source().h,
    {
        self.source.h
    }

    /// The pixel at `(x, y)` of this view, read from the parent at the same
    /// place shifted by the view's origin.
    fn get(&self, x: u32, y: u32) -> (r: Option<T::Pixel>)
        ensures
            self.source().x + x > u32::MAX || self.source().y + y > u32::MAX ==> r is None,
    {
        let x = self.source.x.checked_add(x);
        let y = self.source.y.checked_add(y);
        match (x, y) {
            (Some(x), Some(y)) => match &self.texture {
                Parent::Owned(t) => t.get(x, y),
                Parent::Borrowed(t) => t.get(x, y),
            },
            _ => None,
        }
    }

    /// Writes the pixel at `(x, y)` of this view into the parent; a view that
    /// borrows its parent refuses.
    fn set(&mut self, x: u32, y: u32, val: T::Pixel) -> (r: Result<(), TextureError>)
        ensures
            final(self).source() == old(self).source(),
            final(self).owns_parent() == old(self).owns_parent(),
            !old(self).owns_parent() ==> r == Err::<(), TextureError>(TextureError::ReadOnly),
            old(self).owns_parent() && (old(self).source().x + x > u32::MAX || old(self).source().y
                + y > u32::MAX) ==> r == Err::<(), TextureError>(TextureError::OutOfBounds),
    {
        match &mut self.texture {
            Parent::Owned(t) => {
                let x = self.source.x.checked_add(x);
                let y = self.source.y.checked_add(y);
                match (x, y) {
                    (Some(x), Some(y)) => t.set(x, y, val),
                    _ => Err(TextureError::OutOfBounds),
                }
            },
            Parent::Borrowed(_) => Err(TextureError::ReadOnly),
        }
    }
}

} // verus!
