use vstd::prelude::*;

verus! {

/// A pixel's place in the source image: column `x`, row `y`.
#[derive(Clone, Copy, Debug, PartialEq, Eq, Structural)]
pub struct Position {
    pub x: u16,
    pub y: u32,
}

/// The three 8-bit channels of a pixel.
#[derive(Clone, Copy, Debug, PartialEq, Eq, Structural)]
pub struct Color {
    pub r: u8,
    pub g: u8,
    pub b: u8,
}

/// One pixel of the source image.
#[derive(Clone, Copy, Debug, PartialEq, Eq, Structural)]
pub struct Pixel {
    pub pos: Position,
    pub color: Color,
}

/// A decoded image: `width` by `height` pixels, three bytes (red, green, blue)
/// per pixel, row by row from the top.
pub struct PngRasterData {
    pub width: u16,
    pub height: u32,
    pub buffer: Vec<u8>,
}

/// Why an image could not be turned into a pixel grid.
#[derive(Clone, Copy, Debug, PartialEq, Eq, Structural)]
pub enum RasterError {
    /// The bytes are not a supported PNG image: the decoder fails on them, or
    /// the image is interlaced, wider than a position can address, or not
    /// three 8-bit samples (red, green, blue) per pixel.
    Decode,
    /// The pixel buffer handed to the grid builder does not hold exactly
    /// three bytes per pixel.
    MalformedBuffer,
}

/// The description of each error, naming the stage that failed.
pub open spec fn message_of(e: RasterError) -> Seq<char> {
    match e {
        RasterError::Decode => "reading: not a non-interlaced 8-bit RGB PNG image of at most 65535 columns"@,
        RasterError::MalformedBuffer => "transforming: pixel buffer does not match the image size"@,
    }
}

impl RasterError {
    /// A short description of the error, naming the stage that failed.
    pub fn message(&self) -> (r: String)
        ensures
            r@ == message_of(*self),
    {
        match self {
            RasterError::Decode => String::from_str("reading: not a non-interlaced 8-bit RGB PNG image of at most 65535 columns"),
            RasterError::MalformedBuffer => String::from_str("transforming: pixel buffer does not match the image size"),
        }
    }
}

/// The number of bytes a `width` by `height` RGB raster takes.
pub open spec fn expected_len(width: int, height: int) -> int {
    width * height * 3
}

/// The pixel that a well-sized buffer holds at column `x`, row `y`.
pub open spec fn pixel_at(buffer: Seq<u8>, width: int, x: int, y: int) -> Pixel {
    let i = 3 * (y * width + x);
    Pixel {
        pos: Position { x: x as u16, y: y as u32 },
        color: Color { r: buffer[i], g: buffer[i + 1], b: buffer[i + 2] },
    }
}

/// Row `y` of the grid that a buffer describes.
pub open spec fn row_of(buffer: Seq<u8>, width: int, y: int) -> Seq<Pixel> {
    Seq::new(width as nat, |x: int| pixel_at(buffer, width, x, y))
}

/// The grid, row by row, that a buffer describes.
pub open spec fn grid_of(buffer: Seq<u8>, width: int, height: int) -> Seq<Seq<Pixel>> {
    Seq::new(height as nat, |y: int| row_of(buffer, width, y))
}

} // verus!
