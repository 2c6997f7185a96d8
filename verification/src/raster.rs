//! The rules around painting a glyph: what is asked of the rasterization
//! engine before it paints, and what is done with the canvas afterwards.
//!
//! The engine itself works in floating point and is driven from outside this
//! library. It is told the options chosen here, paints, and hands the canvas
//! back to be compared with what was asked for and finished.

use crate::font::FontError;
use crate::font::FontId;
use crate::font::GlyphId;
use crate::geometry::Bounds;
use crate::geometry::DevicePixels;
use crate::geometry::Pixels;
use crate::geometry::Point;
use crate::geometry::Size;
use vstd::prelude::*;

verus! {

/// A device scale factor in 64ths: `ScaleFactor(64)` paints one device pixel
/// for each scaled pixel.
#[derive(Clone, Copy, Debug, PartialEq, Eq, Structural)]
pub struct ScaleFactor(pub u32);

/// What is to be painted: a glyph of a face at a size and a device scale.
#[derive(Clone, Copy, Debug, PartialEq, Eq)]
pub struct RenderGlyphParams {
    pub font_id: FontId,
    pub glyph_id: GlyphId,
    pub font_size: Pixels,
    pub scale_factor: ScaleFactor,
    /// Whether the glyph is a color glyph.
    pub is_emoji: bool,
}

/// How strongly outlines are fitted to the pixel grid.
#[derive(Clone, Copy, Debug, PartialEq, Eq, Structural)]
pub enum Hinting {
    Unhinted,
    Full,
}

/// How edges are smoothed.
#[derive(Clone, Copy, Debug, PartialEq, Eq, Structural)]
pub enum Antialiasing {
    Grayscale,
    Subpixel,
}

/// The options handed to the rasterization engine.
#[derive(Clone, Copy, Debug, PartialEq, Eq, Structural)]
pub struct RasterOptions {
    pub hinting: Hinting,
    pub antialiasing: Antialiasing,
}

/// The number of bytes that each pixel of a painted glyph takes: one of
/// coverage, or four for a color glyph.
pub open spec fn bytes_per_pixel_spec(is_color: bool) -> int {
    if is_color {
        4
    } else {
        1
    }
}

/// Whether a box has no area.
pub open spec fn bounds_are_empty(bounds: Bounds<DevicePixels>) -> bool {
    bounds.size.width.0 == 0 || bounds.size.height.0 == 0
}

/// The options with which a glyph is painted: full hinting, and smoothing
/// by the kind of glyph.
pub open spec fn paint_options(is_color: bool) -> RasterOptions {
    RasterOptions {
        hinting: Hinting::Full,
        antialiasing: if is_color {
            Antialiasing::Subpixel
        } else {
            Antialiasing::Grayscale
        },
    }
}

/// Where byte `i` of a buffer of `len` bytes comes from when the first and
/// third byte of every whole pixel of four change places.
pub open spec fn swapped_channel_index(len: int, i: int) -> int {
    if i >= len - len % 4 {
        i
    } else if i % 4 == 0 {
        i + 2
    } else if i % 4 == 2 {
        i - 2
    } else {
        i
    }
}

/// The buffer with red and blue exchanged in every whole pixel.
pub open spec fn red_blue_swapped(pixels: Seq<u8>) -> Seq<u8> {
    Seq::new(pixels.len(), |i: int| pixels[swapped_channel_index(pixels.len() as int, i)])
}

/// The buffer that is handed to the consumer: channel order converted for a
/// color glyph, coverage left as it is.
pub open spec fn finished_pixels(is_color: bool, pixels: Seq<u8>) -> Seq<u8> {
    if is_color {
        red_blue_swapped(pixels)
    } else {
        pixels
    }
}

/// A canvas agrees with the box it was painted for when it has the box's
/// size and holds the bytes of exactly that many pixels.
pub open spec fn canvas_agrees(
    is_color: bool,
    glyph_bounds: Bounds<DevicePixels>,
    canvas_size: Size<DevicePixels>,
    byte_count: int,
) -> bool {
    &&& canvas_size.width.0 == glyph_bounds.size.width.0
    &&& canvas_size.height.0 == glyph_bounds.size.height.0
    &&& canvas_size.width.0 >= 0
    &&& canvas_size.height.0 >= 0
    &&& byte_count == canvas_size.width.0 as int * canvas_size.height.0 as int
        * bytes_per_pixel_spec(is_color)
}

/// The options with which the tight box of a glyph is asked for: no hinting
/// and grayscale smoothing, whatever the glyph.
pub fn raster_bounds_options() -> (options: RasterOptions)
    ensures
        options.hinting == Hinting::Unhinted,
        options.antialiasing == Antialiasing::Grayscale,
{
    RasterOptions { hinting: Hinting::Unhinted, antialiasing: Antialiasing::Grayscale }
}

/// The number of bytes per pixel of a painted glyph.
pub fn bytes_per_pixel(is_color: bool) -> (bytes: usize)
    ensures
        bytes as int == bytes_per_pixel_spec(is_color),
{
    if is_color {
        4
    } else {
        1
    }
}

/// Decides whether a glyph is painted, and with which options.
///
/// A box without area is refused before anything is painted. Otherwise full
/// hinting is asked for, with subpixel smoothing for a color glyph and
/// grayscale smoothing for any other.
pub fn rasterize_glyph_options(params: &RenderGlyphParams, glyph_bounds: Bounds<DevicePixels>) -> (options:
    Result<RasterOptions, FontError>)
    ensures
        bounds_are_empty(glyph_bounds) ==> options == Err::<RasterOptions, FontError>(
            FontError::EmptyBounds,
        ),
        !bounds_are_empty(glyph_bounds) ==> options == Ok::<RasterOptions, FontError>(
            paint_options(params.is_emoji),
        ),
{
    if glyph_bounds.size.width.0 == 0 || glyph_bounds.size.height.0 == 0 {
        return Err(FontError::EmptyBounds);
    }
    let antialiasing = if params.is_emoji {
        Antialiasing::Subpixel
    } else {
        Antialiasing::Grayscale
    };
    Ok(RasterOptions { hinting: Hinting::Full, antialiasing })
}

/// The offset by which a glyph is moved before scaling when it is painted:
/// it brings the origin of the glyph's ink box to the origin of the canvas.
pub fn paint_offset(raster_bounds: Bounds<DevicePixels>) -> (offset: Point<i64>)
    ensures
        offset.x == -(raster_bounds.origin.x.0 as int),
        offset.y == -(raster_bounds.origin.y.0 as int),
{
    Point { x: -(raster_bounds.origin.x.0 as i64), y: -(raster_bounds.origin.y.0 as i64) }
}

/// Whether a painted canvas agrees with the box it was painted for.
pub fn canvas_is_consistent(
    params: &RenderGlyphParams,
    glyph_bounds: Bounds<DevicePixels>,
    canvas_size: Size<DevicePixels>,
    byte_count: usize,
) -> (consistent: bool)
    ensures
        consistent == canvas_agrees(params.is_emoji, glyph_bounds, canvas_size, byte_count as int),
{
    if canvas_size.width.0 != glyph_bounds.size.width.0 || canvas_size.height.0
        != glyph_bounds.size.height.0 {
        return false;
    }
    if canvas_size.width.0 < 0 || canvas_size.height.0 < 0 {
        return false;
    }
    let width: u128 = canvas_size.width.0 as u128;
    let height: u128 = canvas_size.height.0 as u128;
    assert(width * height <= 0x4000_0000_0000_0000) by (nonlinear_arith)
        requires
            width <= 0x8000_0000,
            height <= 0x8000_0000,
    ;
    let pixel_count: u128 = width * height;
    let expected: u128 = if params.is_emoji {
        pixel_count * 4
    } else {
        pixel_count
    };
    byte_count as u128 == expected
}

/// Exchanges red and blue in every whole pixel of four bytes.
pub fn swap_red_blue(pixels: &mut Vec<u8>)
    ensures
        final(pixels)@ == red_blue_swapped(old(pixels)@),
{
    let ghost before = pixels@;
    let len = pixels.len();
    let whole: usize = len - len % 4;
    let mut at: usize = 0;
    while at < whole
        invariant
            at <= whole,
            at % 4 == 0,
            whole == len - len % 4,
            pixels@.len() == len,
            before.len() == len,
            forall|i: int| 0 <= i < at ==> pixels@[i] == before[swapped_channel_index(len as int, i)],
            forall|i: int| at <= i < len ==> pixels@[i] == before[i],
        decreases whole - at,
    {
        let red = pixels[at];
        let blue = pixels[at + 2];
        pixels.set(at, blue);
        pixels.set(at + 2, red);
        at = at + 4;
    }
    assert(pixels@ =~= red_blue_swapped(before));
}

/// Finishes a painted glyph: converts the channel order of a color glyph to
/// the consumer's, and hands out the canvas's size with its bytes.
///
/// The canvas must agree with the box it was painted for. A canvas that does
/// not is a defect of the engine, not an input of this function:
/// `canvas_is_consistent` tells the two apart.
pub fn finish_rasterized_glyph(
    params: &RenderGlyphParams,
    glyph_bounds: Bounds<DevicePixels>,
    canvas_size: Size<DevicePixels>,
    pixels: Vec<u8>,
) -> (result: (Size<DevicePixels>, Vec<u8>))
    requires
        canvas_agrees(params.is_emoji, glyph_bounds, canvas_size, pixels@.len() as int),
    ensures
        result.0 == glyph_bounds.size,
        result.1@ == finished_pixels(params.is_emoji, pixels@),
        result.1@.len() == result.0.width.0 as int * result.0.height.0 as int * bytes_per_pixel_spec(
            params.is_emoji,
        ),
{
    let mut pixels = pixels;
    if params.is_emoji {
        swap_red_blue(&mut pixels);
    }
    (canvas_size, pixels)
}

} // verus!
