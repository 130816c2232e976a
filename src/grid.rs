use vstd::prelude::*;

use crate::raster::{Color, Pixel, PngRasterData, Position, RasterError, expected_len, grid_of, pixel_at, row_of};

verus! {

/// The image as a dense grid of pixels, indexed `[y][x]`.
pub struct ExcelRasterData {
    pub buffer: Vec<Vec<Pixel>>,
}

impl View for ExcelRasterData {
    type V = Seq<Seq<Pixel>>;

    open spec fn view(&self) -> Seq<Seq<Pixel>> {
        self.buffer@.map_values(|row: Vec<Pixel>| row@)
    }
}

/// Every row has `width` pixels, there are `height` rows, and each pixel
/// sits at the position it claims.
pub open spec fn grid_wf(rows: Seq<Seq<Pixel>>, width: int, height: int) -> bool {
    &&& rows.len() == height
    &&& forall|y: int| 0 <= y < height ==> #[trigger] rows[y].len() == width
    &&& forall|y: int, x: int|
        0 <= y < height && 0 <= x < width ==> #[trigger] rows[y][x].pos == (Position {
            x: x as u16,
            y: y as u32,
        })
}

proof fn lemma_index_in_bounds(width: int, height: int, x: int, y: int)
    requires
        0 <= x < width,
        0 <= y < height,
    ensures
        3 * (y * width + x) + 2 < expected_len(width, height),
{
    assert(y * width + x < width * height) by (nonlinear_arith)
        requires 0 <= x < width, 0 <= y < height;
    assert(3 * (y * width + x) + 2 < width * height * 3) by (nonlinear_arith)
        requires y * width + x < width * height, 0 <= y * width + x;
}

/// Builds the pixel grid of a raster. The buffer must hold exactly three
/// bytes per pixel; otherwise the raster is rejected as malformed.
pub fn transform_png_to_excel(png_raster_data: PngRasterData) -> (r: Result<ExcelRasterData, RasterError>)
    ensures
        png_raster_data.buffer@.len() != expected_len(png_raster_data.width as int, png_raster_data.height as int)
            ==> r == Err::<ExcelRasterData, RasterError>(RasterError::MalformedBuffer),
        png_raster_data.buffer@.len() == expected_len(png_raster_data.width as int, png_raster_data.height as int)
            ==> r is Ok
            && r->Ok_0@ == grid_of(png_raster_data.buffer@, png_raster_data.width as int, png_raster_data.height as int)
            && grid_wf(r->Ok_0@, png_raster_data.width as int, png_raster_data.height as int),
{
    let width = png_raster_data.width;
    let height = png_raster_data.height;
    let buf = &png_raster_data.buffer;
    assert(width as u64 * height as u64 * 3 <= 0xffff * 0xffff_ffff * 3) by (nonlinear_arith)
        requires width <= 0xffff, height <= 0xffff_ffff;
    let total: u64 = width as u64 * height as u64 * 3;
    let n: usize = buf.len();
    if n as u64 != total {
        return Err(RasterError::MalformedBuffer);
    }
    let ghost w = width as int;
    let ghost h = height as int;
    let mut pixel_buffer: Vec<Vec<Pixel>> = Vec::new();
    let mut i: usize = 0;
    let mut y: u32 = 0;
    while y < height
        invariant
            buf@.len() == expected_len(w, h),
            n == buf@.len(),
            w == width, h == height,
            0 <= y <= height,
            i == 3 * (y * w),
            pixel_buffer@.len() == y,
            forall|yy: int| 0 <= yy < y ==> #[trigger] pixel_buffer@[yy]@ == row_of(buf@, w, yy),
        decreases height - y,
    {
        let mut row: Vec<Pixel> = Vec::new();
        let mut x: u16 = 0;
        while x < width
            invariant
                buf@.len() == expected_len(w, h),
                n == buf@.len(),
                w == width, h == height,
                0 <= y < height,
                0 <= x <= width,
                i == 3 * (y * w + x),
                row@.len() == x,
                forall|xx: int| 0 <= xx < x ==> #[trigger] row@[xx] == pixel_at(buf@, w, xx, y as int),
            decreases width - x,
        {
            proof {
                lemma_index_in_bounds(w, h, x as int, y as int);
                assert(i + 2 < buf@.len());
            }
            let red = buf[i];
            let green = buf[i + 1];
            let blue = buf[i + 2];
            row.push(Pixel { pos: Position { x: x, y: y }, color: Color { r: red, g: green, b: blue } });
            i = i + 3;
            x = x + 1;
        }
        assert(row@ =~= row_of(buf@, w, y as int));
        pixel_buffer.push(row);
        assert(3 * ((y + 1) * w) == 3 * (y * w + w)) by (nonlinear_arith);
        y = y + 1;
    }
    let r = ExcelRasterData { buffer: pixel_buffer };
    assert(r@ =~= grid_of(buf@, w, h));
    assert(grid_wf(r@, w, h));
    Ok(r)
}

} // verus!
