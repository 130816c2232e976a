use png2xl::args::output_filename;
use png2xl::decode::{raster_from_frame, read_png, PngFrame};
use png2xl::grid::transform_png_to_excel;
use png2xl::raster::RasterError;

fn encode_png(width: u32, height: u32, color: png::ColorType, data: &[u8]) -> Vec<u8> {
    let mut out: Vec<u8> = Vec::new();
    {
        let mut encoder = png::Encoder::new(&mut out, width, height);
        encoder.set_color(color);
        encoder.set_depth(png::BitDepth::Eight);
        let mut writer = encoder.write_header().unwrap();
        writer.write_image_data(data).unwrap();
        writer.finish().unwrap();
    }
    out
}

fn strings(items: &[&str]) -> Vec<String> {
    items.iter().map(|s| s.to_string()).collect()
}

#[test]
fn rgb_png_decodes_to_its_samples() {
    let samples = vec![10u8, 20, 30, 200, 100, 50];
    let bytes = encode_png(2, 1, png::ColorType::Rgb, &samples);
    let raster = read_png(&bytes).expect("a valid png");
    assert_eq!(raster.width, 2);
    assert_eq!(raster.height, 1);
    assert_eq!(raster.buffer, samples);
}

#[test]
fn rgba_png_is_a_decode_error() {
    let bytes = encode_png(1, 1, png::ColorType::Rgba, &[1, 2, 3, 4]);
    assert!(matches!(read_png(&bytes), Err(RasterError::Decode)));
}

#[test]
fn grayscale_png_is_a_decode_error() {
    let bytes = encode_png(3, 1, png::ColorType::Grayscale, &[1, 2, 3]);
    assert!(matches!(read_png(&bytes), Err(RasterError::Decode)));
}

#[test]
fn decoded_rgb_raster_builds_a_grid() {
    let bytes = encode_png(2, 2, png::ColorType::Rgb, &[0u8; 12]);
    let raster = read_png(&bytes).expect("a valid png");
    assert!(transform_png_to_excel(raster).is_ok());
}

#[test]
fn frame_without_three_samples_per_pixel_is_a_decode_error() {
    let frame = PngFrame { width: 1, height: 1, interlaced: false, data: vec![1, 2, 3, 4] };
    assert!(matches!(raster_from_frame(frame), Err(RasterError::Decode)));
}

#[test]
fn garbage_is_a_decode_error() {
    assert!(matches!(read_png(&vec![1u8, 2, 3]), Err(RasterError::Decode)));
    assert!(matches!(read_png(&vec![]), Err(RasterError::Decode)));
}

#[test]
fn interlaced_frame_is_a_decode_error() {
    let frame = PngFrame { width: 1, height: 1, interlaced: true, data: vec![1, 2, 3] };
    assert!(matches!(raster_from_frame(frame), Err(RasterError::Decode)));
}

#[test]
fn too_wide_frame_is_a_decode_error() {
    let frame = PngFrame { width: 65536, height: 0, interlaced: false, data: vec![] };
    assert!(matches!(raster_from_frame(frame), Err(RasterError::Decode)));
}

#[test]
fn plain_frame_is_passed_on() {
    let frame = PngFrame { width: 2, height: 1, interlaced: false, data: vec![9, 8, 7, 6, 5, 4] };
    let raster = raster_from_frame(frame).unwrap();
    assert_eq!((raster.width, raster.height, raster.buffer), (2, 1, vec![9, 8, 7, 6, 5, 4]));
}

#[test]
fn widest_frame_is_accepted() {
    let frame = PngFrame { width: 65535, height: 0, interlaced: false, data: vec![] };
    let raster = raster_from_frame(frame).unwrap();
    assert_eq!((raster.width, raster.height), (65535, 0));
}

#[test]
fn explicit_output_path_is_kept() {
    let args = strings(&["png2xl", "in/cat.png", "out/sheet.xlsx"]);
    assert_eq!(output_filename(&args), "out/sheet.xlsx");
}

#[test]
fn default_output_path_replaces_extension() {
    assert_eq!(output_filename(&strings(&["png2xl", "images/cat.png"])), "images/cat.xlsx");
    assert_eq!(output_filename(&strings(&["png2xl", "picture"])), "picture.xlsx");
}
