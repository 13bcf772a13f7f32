//! The size of a drawing surface, the rule for changing it, and the choice
//! of its texture format.

use vstd::prelude::*;

verus! {

/// The width and height of a drawing surface, in pixels.
#[derive(Clone, Copy, Debug, PartialEq, Eq, Structural)]
pub struct SurfaceExtent {
    pub width: u32,
    pub height: u32,
}

impl SurfaceExtent {
    /// Whether a surface of `width` by `height` pixels can be drawn to: it
    /// can unless one of the two is zero, as while a window is minimised.
    pub open spec fn drawable(width: u32, height: u32) -> bool {
        width != 0 && height != 0
    }

    /// The extent of `width` by `height` pixels.
    pub fn new(width: u32, height: u32) -> (extent: Self)
        ensures
            extent.width == width,
            extent.height == height,
    {
        SurfaceExtent { width, height }
    }

    /// Takes on a new size, unless that size cannot be drawn to: then the
    /// extent stays as it is. Returns whether the new size was taken on, so
    /// that the caller knows whether to configure the surface again.
    pub fn resize(&mut self, new_width: u32, new_height: u32) -> (resized: bool)
        ensures
            resized == Self::drawable(new_width, new_height),
            resized ==> *final(self) == (SurfaceExtent { width: new_width, height: new_height }),
            !resized ==> *final(self) == *old(self),
    {
        if new_width == 0 || new_height == 0 {
            return false;
        }
        self.width = new_width;
        self.height = new_height;
        true
    }
}

/// The texture formats of wgpu, as they are reported for a surface.
#[verifier::external_type_specification]
#[verifier::external_body]
pub struct ExTextureFormat(wgpu::TextureFormat);

/// Whether `format` is one of wgpu's sRGB formats.
pub uninterp spec fn format_is_srgb(format: wgpu::TextureFormat) -> bool;

/// `TextureFormat::is_srgb` of wgpu: whether the format is an sRGB format,
/// which depends on the format alone.
#[verifier::external_body]
fn is_srgb(format: &wgpu::TextureFormat) -> (srgb: bool)
    ensures
        srgb == format_is_srgb(*format),
{
    format.is_srgb()
}

/// Whether `formats` has an sRGB format at `place` and none before it.
pub open spec fn is_first_srgb(formats: Seq<wgpu::TextureFormat>, place: int) -> bool {
    &&& 0 <= place < formats.len()
    &&& format_is_srgb(formats[place])
    &&& forall|before: int| 0 <= before < place ==> !format_is_srgb(#[trigger] formats[before])
}

/// Whether there is an sRGB format among `formats`.
pub open spec fn has_srgb(formats: Seq<wgpu::TextureFormat>) -> bool {
    exists|place: int| 0 <= place < formats.len() && format_is_srgb(#[trigger] formats[place])
}

/// The format to configure a surface with, out of those that it supports:
/// the first sRGB format, or, where there is none, the first format.
pub fn preferred_format(formats: &Vec<wgpu::TextureFormat>) -> (format: wgpu::TextureFormat)
    requires
        formats.len() > 0,
    ensures
        has_srgb(formats@) ==> exists|place: int|
            is_first_srgb(formats@, place) && format == formats@[place],
        !has_srgb(formats@) ==> format == formats@[0],
{
    let mut i: usize = 0;
    while i < formats.len()
        invariant
            i <= formats.len(),
            forall|before: int| 0 <= before < i ==> !format_is_srgb(#[trigger] formats@[before]),
        decreases formats.len() - i,
    {
        if is_srgb(&formats[i]) {
            assert(is_first_srgb(formats@, i as int));
            return formats[i];
        }
        i += 1;
    }
    formats[0]
}

} // verus!
