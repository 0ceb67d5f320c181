//! Textures and the description of their uploads.
//!
//! Nothing here talks to the graphics driver. A texture is the name that the
//! driver gave it; copying pixels into it is described by an `Upload`, which
//! the caller hands to the driver.

use vstd::prelude::*;
use core::marker::PhantomData;

verus! {

/// Reads the constant `gl::RGB`. Taken on trust: that it is `0x1907`, the
/// value of `GL_RGB` in the OpenGL registry from which the `gl` crate
/// generates its bindings.
#[verifier::external_body]
fn gl_rgb() -> (r: u32)
    ensures
        r == 0x1907,
{
    gl::RGB
}

/// Reads the constant `gl::RGBA`. Taken on trust: that it is `0x1908`, the
/// value of `GL_RGBA` in the OpenGL registry from which the `gl` crate
/// generates its bindings.
#[verifier::external_body]
fn gl_rgba() -> (r: u32)
    ensures
        r == 0x1908,
{
    gl::RGBA
}

/// A pixel format that a texture can be filled from.
pub trait ColorForTexture {
    /// The format in which the pixels are handed to the driver.
    spec fn source_format() -> u32;

    /// The format in which the driver stores the texture.
    spec fn destination_format() -> u32;

    /// Bytes per pixel.
    spec fn pixel_bytes() -> i32;

    fn src_format() -> (r: u32)
        ensures
            r == Self::source_format(),
    ;

    fn dst_format() -> (r: u32)
        ensures
            r == Self::destination_format(),
    ;

    fn byte_size() -> (r: i32)
        ensures
            r == Self::pixel_bytes(),
    ;
}

/// Three bytes per pixel: red, green, blue.
pub struct Rgb888;

/// Four bytes per pixel: red, green, blue, alpha.
pub struct Rgba8888;

impl ColorForTexture for Rgb888 {
    open spec fn source_format() -> u32 {
        0x1908
    }

    open spec fn destination_format() -> u32 {
        0x1907
    }

    open spec fn pixel_bytes() -> i32 {
        3
    }

    fn src_format() -> (r: u32) {
        gl_rgba()
    }

    fn dst_format() -> (r: u32) {
        gl_rgb()
    }

    fn byte_size() -> (r: i32) {
        3
    }
}

impl ColorForTexture for Rgba8888 {
    open spec fn source_format() -> u32 {
        0x1908
    }

    open spec fn destination_format() -> u32 {
        0x1908
    }

    open spec fn pixel_bytes() -> i32 {
        4
    }

    fn src_format() -> (r: u32) {
        gl_rgba()
    }

    fn dst_format() -> (r: u32) {
        gl_rgba()
    }

    fn byte_size() -> (r: i32) {
        4
    }
}

/// A read-only frame of pixels in the format `CF`, little-endian.
pub struct GfxBufferLE<'a, CF> {
    pub mem: &'a [u8],
    pub width: usize,
    pub height: usize,
    /// Bytes from one line to the next.
    pub pitch: usize,
    pub format: PhantomData<CF>,
}

impl<'a, CF> GfxBufferLE<'a, CF> {
    pub fn new(mem: &'a [u8], width: usize, height: usize, pitch: usize) -> (b: Self)
        ensures
            b.mem@ == mem@,
            b.width == width,
            b.height == height,
            b.pitch == pitch,
    {
        GfxBufferLE { mem, width, height, pitch, format: PhantomData }
    }

    /// The bytes of the frame and its pitch.
    pub fn raw(&self) -> (r: (&'a [u8], usize))
        ensures
            r.0@ == self.mem@,
            r.1 == self.pitch,
    {
        (self.mem, self.pitch)
    }

    pub fn width(&self) -> (r: usize)
        ensures
            r == self.width,
    {
        self.width
    }

    pub fn height(&self) -> (r: usize)
        ensures
            r == self.height,
    {
        self.height
    }
}

/// A writable frame of pixels in the format `CF`, little-endian.
pub struct GfxBufferMutLE<'a, CF> {
    pub mem: &'a mut [u8],
    pub width: usize,
    pub height: usize,
    /// Bytes from one line to the next.
    pub pitch: usize,
    pub format: PhantomData<CF>,
}

impl<'a, CF> GfxBufferMutLE<'a, CF> {
    pub fn new(mem: &'a mut [u8], width: usize, height: usize, pitch: usize) -> (b: Self)
        ensures
            b.mem@ == old(mem)@,
            final(b.mem)@ == final(mem)@,
            b.width == width,
            b.height == height,
            b.pitch == pitch,
    {
        GfxBufferMutLE { mem, width, height, pitch, format: PhantomData }
    }

    pub fn width(&self) -> (r: usize)
        ensures
            r == self.width,
    {
        self.width
    }

    pub fn height(&self) -> (r: usize)
        ensures
            r == self.height,
    {
        self.height
    }
}

/// What the driver is asked to copy into a texture.
pub struct Upload<'a> {
    /// The driver's name of the texture.
    pub texture: u32,
    /// The format in which the driver stores the texture.
    pub internal_format: i32,
    pub width: i32,
    pub height: i32,
    /// The format of `pixels`.
    pub format: u32,
    pub pixels: &'a [u8],
}

/// A texture, known by the name that the driver gave it.
pub struct Texture {
    id: u32,
}

impl Texture {
    pub closed spec fn name(&self) -> u32 {
        self.id
    }

    /// The texture that the driver named `id`.
    pub fn new(id: u32) -> (t: Self)
        ensures
            t.name() == id,
    {
        Texture { id }
    }

    /// The driver's name of the texture.
    pub fn id(&self) -> (r: usize)
        ensures
            r == self.name(),
    {
        self.id as usize
    }

    /// Describes the upload of `width` by `height` pixels of format `CF`.
    /// The driver takes sizes as 32-bit signed integers: a size is handed on
    /// as its low 32 bits.
    pub fn copy_from<'a, CF: ColorForTexture>(
        &self,
        pixels: &'a [u8],
        width: usize,
        height: usize,
    ) -> (u: Upload<'a>)
        ensures
            u.texture == self.name(),
            u.internal_format == CF::destination_format() as i32,
            u.width == width as i32,
            u.height == height as i32,
            u.format == CF::source_format(),
            u.pixels@ == pixels@,
    {
        Upload {
            texture: self.id,
            internal_format: #[verifier::truncate]
            (CF::dst_format() as i32),
            width: #[verifier::truncate]
            (width as i32),
            height: #[verifier::truncate]
            (height as i32),
            format: CF::src_format(),
            pixels,
        }
    }

    /// Describes the upload of a whole frame.
    pub fn copy_from_buffer<'a, CF: ColorForTexture>(&self, buffer: &GfxBufferLE<'a, CF>) -> (u:
        Upload<'a>)
        ensures
            u.texture == self.name(),
            u.internal_format == CF::destination_format() as i32,
            u.width == buffer.width as i32,
            u.height == buffer.height as i32,
            u.format == CF::source_format(),
            u.pixels@ == buffer.mem@,
    {
        let (pixels, _pitch) = buffer.raw();
        self.copy_from::<CF>(pixels, buffer.width(), buffer.height())
    }

    /// Describes the upload of a whole frame that is open for writing. The
    /// frame is read, not changed.
    pub fn copy_from_buffer_mut<'a, 'b, CF: ColorForTexture>(
        &self,
        buffer: &'b mut GfxBufferMutLE<'a, CF>,
    ) -> (u: Upload<'b>)
        ensures
            u.texture == self.name(),
            u.internal_format == CF::destination_format() as i32,
            u.width == old(buffer).width as i32,
            u.height == old(buffer).height as i32,
            u.format == CF::source_format(),
            u.pixels@ == old(buffer).mem@,
            *final(buffer) == *old(buffer),
    {
        let (width, height) = (buffer.width(), buffer.height());
        let pixels: &'b [u8] = &*buffer.mem;
        self.copy_from::<CF>(pixels, width, height)
    }
}

} // verus!
