use vstd::prelude::*;

use crate::raster::{PngRasterData, RasterError, expected_len};

verus! {

#[verifier::external_type_specification]
#[verifier::external_body]
pub struct ExDecodingError(png::DecodingError);

/// The first frame of a PNG image as the decoder hands it out: its size,
/// whether the file is interlaced, and the decoded samples row by row.
pub struct PngFrame {
    pub width: u32,
    pub height: u32,
    pub interlaced: bool,
    pub data: Vec<u8>,
}

/// What png's decoder makes of a file's bytes: `None` where it fails,
/// else the first frame's width, height, interlacing and samples.
pub uninterp spec fn png_frame_of(bytes: Seq<u8>) -> Option<(u32, u32, bool, Seq<u8>)>;

/// Relies on png's `Decoder::read_info` and `Reader::next_frame`: decodes the
/// header and the first frame of an in-memory PNG, with no transformation;
/// the frame is the first `OutputInfo::buffer_size` bytes written.
#[verifier::external_body]
fn decode_first_frame(bytes: &[u8]) -> (r: Result<PngFrame, png::DecodingError>)
    ensures
        match r {
            Ok(f) => png_frame_of(bytes@) == Some((f.width, f.height, f.interlaced, f.data@)),
            Err(_) => png_frame_of(bytes@) is None,
        },
{
    let mut reader = png::Decoder::new(bytes).read_info()?;
    let mut data = vec![0u8; reader.output_buffer_size()];
    let info = reader.next_frame(&mut data)?;
    data.truncate(info.buffer_size());
    Ok(PngFrame { width: info.width, height: info.height, interlaced: reader.info().interlaced, data })
}

/// The widest image whose columns a position can address.
pub open spec fn max_width() -> int {
    0xffff
}

/// What `raster_from_frame` makes of a decoded frame: a decode error where
/// it is interlaced, too wide, or not three samples per pixel; otherwise its
/// samples are the raster's buffer.
pub open spec fn frame_result(width: u32, height: u32, interlaced: bool, data: Seq<u8>) -> Result<(u16, u32, Seq<u8>), RasterError> {
    if interlaced || width > max_width() || data.len() != expected_len(width as int, height as int) {
        Err(RasterError::Decode)
    } else {
        Ok((width as u16, height, data))
    }
}

pub open spec fn raster_matches(r: Result<PngRasterData, RasterError>, expected: Result<(u16, u32, Seq<u8>), RasterError>) -> bool {
    match (r, expected) {
        (Ok(d), Ok((w, h, b))) => d.width == w && d.height == h && d.buffer@ == b,
        (Err(e), Err(f)) => e == f,
        _ => false,
    }
}

/// Turns a decoded frame into a raster. Interlaced images, images wider than
/// a position can address, and frames that do not hold exactly three samples
/// (red, green, blue) per pixel are refused with a decode error.
pub fn raster_from_frame(frame: PngFrame) -> (r: Result<PngRasterData, RasterError>)
    ensures
        raster_matches(r, frame_result(frame.width, frame.height, frame.interlaced, frame.data@)),
        r is Ok ==> r->Ok_0.buffer@.len() == expected_len(r->Ok_0.width as int, r->Ok_0.height as int),
{
    if frame.interlaced || frame.width > 0xffff {
        return Err(RasterError::Decode);
    }
    assert(frame.width as u64 * frame.height as u64 * 3 <= 0xffff * 0xffff_ffff * 3) by (nonlinear_arith)
        requires frame.width <= 0xffff, frame.height <= 0xffff_ffff;
    let total: u64 = frame.width as u64 * frame.height as u64 * 3;
    if frame.data.len() as u64 != total {
        Err(RasterError::Decode)
    } else {
        Ok(PngRasterData { width: frame.width as u16, height: frame.height, buffer: frame.data })
    }
}

/// Decodes a PNG file's bytes into a raster: a decoder failure is a decode
/// error, and what follows is `raster_from_frame`'s. Either the result is a
/// decode error or its buffer holds exactly three bytes per pixel.
pub fn read_png(bytes: &Vec<u8>) -> (r: Result<PngRasterData, RasterError>)
    ensures
        match png_frame_of(bytes@) {
            None => r == Err::<PngRasterData, RasterError>(RasterError::Decode),
            Some((w, h, i, d)) => raster_matches(r, frame_result(w, h, i, d)),
        },
        r is Err ==> r == Err::<PngRasterData, RasterError>(RasterError::Decode),
        r is Ok ==> r->Ok_0.buffer@.len() == expected_len(r->Ok_0.width as int, r->Ok_0.height as int),
{
    match decode_first_frame(bytes.as_slice()) {
        Ok(frame) => raster_from_frame(frame),
        Err(_) => Err(RasterError::Decode),
    }
}

} // verus!
