use vstd::prelude::*;

verus! {

/// Settings of one packing session: the bin's size and how textures are laid
/// into it. They stay fixed for the lifetime of a packer.
#[derive(Clone, Copy, Debug, PartialEq, Eq, Structural)]
pub struct TexturePackerConfig {
    /// Width of the bin in pixels.
    pub max_width: u32,
    /// Height of the bin in pixels.
    pub max_height: u32,
    /// Whether a texture may be turned by 90 degrees to fit.
    pub allow_rotation: bool,
    /// Spacing in pixels added after each texture, horizontally and vertically.
    pub texture_padding: u32,
    /// Border in pixels duplicated on each side of a texture.
    pub texture_extrusion: u32,
}

impl TexturePackerConfig {
    /// Pixels that padding and extrusion add to each dimension of a texture.
    pub open spec fn spec_extra(self) -> int {
        self.texture_padding + 2 * self.texture_extrusion
    }
}

} // verus!
