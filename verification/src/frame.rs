//! Frames: the captured images, held as `image::RgbaImage`.
//!
//! A [`Frame`] is opaque to the verifier. What it holds is named by [`frame_rows`] and
//! [`frame_width`]; the functions at the end of this file make the calls into the `image` crate
//! and say over these two names what each call does.

use vstd::prelude::*;

verus! {

/// One pixel: red, green, blue and alpha.
pub type Rgba8 = (u8, u8, u8, u8);

/// An 8-bit RGBA image, stored by the `image` crate.
#[verifier::external_body]
pub struct Frame {
    img: image::RgbaImage,
}

/// The pixels of a frame: its rows from top to bottom, each from left to right.
pub uninterp spec fn frame_rows(f: Frame) -> Seq<Seq<Rgba8>>;

/// The width of a frame in pixels, which a frame without rows has too.
pub uninterp spec fn frame_width(f: Frame) -> nat;

/// The transparent black pixel of a fresh image.
pub open spec fn blank_pixel() -> Rgba8 {
    (0u8, 0u8, 0u8, 0u8)
}

/// A row of `w` blank pixels.
pub open spec fn blank_row(w: nat) -> Seq<Rgba8> {
    Seq::new(w, |x: int| blank_pixel())
}

impl Frame {
    /// A transparent black frame.
    pub fn new(width: u32, height: u32) -> (r: Frame)
        requires
            width * 4 <= usize::MAX,
            width * height * 4 <= isize::MAX,
        ensures
            frame_width(r) == width,
            frame_rows(r) == Seq::new(height as nat, |y: int| blank_row(width as nat)),
    {
        image_new(width, height)
    }

    /// The width in pixels.
    pub fn width(&self) -> (r: u32)
        ensures
            r == frame_width(*self),
            r * 4 <= usize::MAX,
    {
        image_width(self)
    }

    /// The height in pixels. Every row is as long as the frame is wide.
    pub fn height(&self) -> (r: u32)
        ensures
            r == frame_rows(*self).len(),
            forall|y: int| 0 <= y < r ==> (#[trigger] frame_rows(*self)[y]).len() == frame_width(*self),
    {
        image_height(self)
    }

    /// The pixel in column `x` of row `y`.
    pub fn get_pixel(&self, x: u32, y: u32) -> (r: Rgba8)
        requires
            x < frame_width(*self),
            y < frame_rows(*self).len(),
        ensures
            r == frame_rows(*self)[y as int][x as int],
    {
        image_get_pixel(self, x, y)
    }

    /// Replaces the pixel in column `x` of row `y`.
    pub fn put_pixel(&mut self, x: u32, y: u32, pixel: Rgba8)
        requires
            x < frame_width(*old(self)),
            y < frame_rows(*old(self)).len(),
        ensures
            frame_width(*final(self)) == frame_width(*old(self)),
            frame_rows(*final(self)) == frame_rows(*old(self)).update(
                y as int,
                frame_rows(*old(self))[y as int].update(x as int, pixel),
            ),
    {
        image_put_pixel(self, x, y, pixel);
    }
}

/// Calls `image::RgbaImage::new`, which allocates four zero bytes for each pixel. It panics where
/// the bytes of a row or of the image exceed what can be counted, or those of the image exceed
/// what a vector can hold.
#[verifier::external_body]
fn image_new(width: u32, height: u32) -> (r: Frame)
    requires
        width * 4 <= usize::MAX,
        width * height * 4 <= isize::MAX,
    ensures
        frame_width(r) == width,
        frame_rows(r) == Seq::new(height as nat, |y: int| blank_row(width as nat)),
{
    Frame { img: image::RgbaImage::new(width, height) }
}

/// Calls `image::RgbaImage::width`, which returns the width the image was made with. No image is
/// made where the bytes of a row cannot be counted.
#[verifier::external_body]
fn image_width(f: &Frame) -> (r: u32)
    ensures
        r == frame_width(*f),
        r * 4 <= usize::MAX,
{
    f.img.width()
}

/// Calls `image::RgbaImage::height`, which returns the number of rows. An image is a full
/// rectangle, so each of these rows has as many pixels as the image is wide.
#[verifier::external_body]
fn image_height(f: &Frame) -> (r: u32)
    ensures
        r == frame_rows(*f).len(),
        forall|y: int| 0 <= y < r ==> (#[trigger] frame_rows(*f)[y]).len() == frame_width(*f),
{
    f.img.height()
}

/// Calls `image::RgbaImage::get_pixel`, which panics outside the image and reads one pixel inside.
#[verifier::external_body]
fn image_get_pixel(f: &Frame, x: u32, y: u32) -> (r: Rgba8)
    requires
        x < frame_width(*f),
        y < frame_rows(*f).len(),
    ensures
        r == frame_rows(*f)[y as int][x as int],
{
    let p = f.img.get_pixel(x, y);
    (p[0], p[1], p[2], p[3])
}

/// Calls `image::RgbaImage::put_pixel`, which panics outside the image, and inside replaces one
/// pixel and nothing else.
#[verifier::external_body]
fn image_put_pixel(f: &mut Frame, x: u32, y: u32, pixel: Rgba8)
    requires
        x < frame_width(*old(f)),
        y < frame_rows(*old(f)).len(),
    ensures
        frame_width(*final(f)) == frame_width(*old(f)),
        frame_rows(*final(f)) == frame_rows(*old(f)).update(
            y as int,
            frame_rows(*old(f))[y as int].update(x as int, pixel),
        ),
{
    f.img.put_pixel(x, y, image::Rgba([pixel.0, pixel.1, pixel.2, pixel.3]));
}

} // verus!
