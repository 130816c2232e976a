use png2xl::encode::{encode_grid, encode_pixel, CellAddress, StyledCell};
use png2xl::grid::{transform_png_to_excel, ExcelRasterData};
use png2xl::layout::{plan_layout, SheetLayout, COLUMN_WIDTH, ROW_HEIGHT};
use png2xl::raster::{Color, Pixel, PngRasterData, Position, RasterError};

fn raster(width: u16, height: u32, buffer: Vec<u8>) -> PngRasterData {
    PngRasterData { width, height, buffer }
}

fn build(width: u16, height: u32, buffer: Vec<u8>) -> ExcelRasterData {
    transform_png_to_excel(raster(width, height, buffer)).expect("well-sized buffer")
}

fn addr(column: u64, row: u64) -> CellAddress {
    CellAddress { column, row }
}

#[test]
fn grid_has_height_rows_of_width_pixels() {
    let buffer: Vec<u8> = (0..18u8).collect();
    let grid = build(3, 2, buffer);
    assert_eq!(grid.buffer.len(), 2);
    for (y, row) in grid.buffer.iter().enumerate() {
        assert_eq!(row.len(), 3);
        for (x, p) in row.iter().enumerate() {
            let i = (3 * (y * 3 + x)) as u8;
            assert_eq!(p.pos, Position { x: x as u16, y: y as u32 });
            assert_eq!(p.color, Color { r: i, g: i + 1, b: i + 2 });
        }
    }
}

#[test]
fn short_buffer_is_malformed() {
    let r = transform_png_to_excel(raster(2, 2, vec![0u8; 11]));
    assert!(matches!(r, Err(RasterError::MalformedBuffer)));
}

#[test]
fn long_buffer_is_malformed() {
    let r = transform_png_to_excel(raster(1, 1, vec![1u8, 2, 3, 4]));
    assert!(matches!(r, Err(RasterError::MalformedBuffer)));
}

#[test]
fn nonempty_buffer_for_empty_image_is_malformed() {
    let r = transform_png_to_excel(raster(0, 5, vec![1u8, 2, 3]));
    assert!(matches!(r, Err(RasterError::MalformedBuffer)));
}

#[test]
fn four_cells_per_pixel_at_doubled_address() {
    let p = Pixel { pos: Position { x: 7, y: 3 }, color: Color { r: 1, g: 2, b: 3 } };
    let cells = encode_pixel(&p);
    let addresses: Vec<CellAddress> = cells.iter().map(|c| c.address).collect();
    assert_eq!(addresses, vec![addr(14, 6), addr(15, 6), addr(14, 7), addr(15, 7)]);
}

#[test]
fn blocks_of_a_grid_never_overlap() {
    let buffer: Vec<u8> = (0..36u8).collect();
    let cells = encode_grid(&build(4, 3, buffer));
    assert_eq!(cells.len(), 48);
    for i in 0..cells.len() {
        for j in (i + 1)..cells.len() {
            assert_ne!(cells[i].address, cells[j].address);
        }
    }
    for c in 0..8u64 {
        for r in 0..6u64 {
            assert!(cells.iter().any(|cell| cell.address == addr(c, r)));
        }
    }
}

#[test]
fn cell_values_carry_the_channels() {
    let p = Pixel { pos: Position { x: 0, y: 0 }, color: Color { r: 9, g: 128, b: 255 } };
    let cells = encode_pixel(&p);
    assert_eq!(cells[0].value, Some(9));
    assert_eq!(cells[1].value, Some(128));
    assert_eq!(cells[2].value, Some(128));
    assert_eq!(cells[3].value, Some(255));
}

#[test]
fn swatches_are_single_channel_colors() {
    let p = Pixel { pos: Position { x: 0, y: 0 }, color: Color { r: 0xab, g: 0xcd, b: 0xef } };
    let cells = encode_pixel(&p);
    assert_eq!(cells[0].background, Some(0xab0000));
    assert_eq!(cells[1].background, Some(0x00cd00));
    assert_eq!(cells[2].background, Some(0x00cd00));
    assert_eq!(cells[3].background, Some(0x0000ef));
}

#[test]
fn sizing_twice_matches_sizing_once() {
    let mut once = SheetLayout::new();
    once.columns.insert(40, 7);
    once.rows.insert(1, 3);
    once.size_for_image(3, 2);
    let mut twice = SheetLayout::new();
    twice.columns.insert(40, 7);
    twice.rows.insert(1, 3);
    twice.size_for_image(3, 2);
    twice.size_for_image(3, 2);
    assert_eq!(once.columns, twice.columns);
    assert_eq!(once.rows, twice.rows);
    assert_eq!(once.columns.get(&40), Some(&7));
    assert_eq!(once.rows.get(&1), Some(&ROW_HEIGHT));
}

#[test]
fn layout_sizes_every_covered_column_and_row() {
    let layout = plan_layout(2, 1);
    let columns: Vec<(u64, u32)> = layout.columns.into_iter().collect();
    let rows: Vec<(u64, u32)> = layout.rows.into_iter().collect();
    assert_eq!(columns, vec![(0, 1), (1, 1), (2, 1), (3, 1)]);
    assert_eq!(rows, vec![(0, 10), (1, 10)]);
    assert_eq!(COLUMN_WIDTH, 1);
}

#[test]
fn two_by_one_image_end_to_end() {
    let grid = build(2, 1, vec![10, 20, 30, 200, 100, 50]);
    assert_eq!(grid.buffer.len(), 1);
    assert_eq!(
        grid.buffer[0],
        vec![
            Pixel { pos: Position { x: 0, y: 0 }, color: Color { r: 10, g: 20, b: 30 } },
            Pixel { pos: Position { x: 1, y: 0 }, color: Color { r: 200, g: 100, b: 50 } },
        ]
    );
    let cells = encode_grid(&grid);
    let cell = |c: u64, r: u64, bg: u32, v: u32| StyledCell { address: addr(c, r), background: Some(bg), value: Some(v) };
    assert_eq!(
        cells,
        vec![
            cell(0, 0, 10 << 16, 10),
            cell(1, 0, 20 << 8, 20),
            cell(0, 1, 20 << 8, 20),
            cell(1, 1, 30, 30),
            cell(2, 0, 200 << 16, 200),
            cell(3, 0, 100 << 8, 100),
            cell(2, 1, 100 << 8, 100),
            cell(3, 1, 50, 50),
        ]
    );
}

#[test]
fn zero_dimension_images_are_empty() {
    for (w, h) in [(0u16, 0u32), (3, 0), (0, 4)] {
        let grid = build(w, h, vec![]);
        assert!(grid.buffer.iter().all(|row| row.is_empty()));
        assert_eq!(grid.buffer.len(), h as usize);
        assert!(encode_grid(&grid).is_empty());
    }
    assert!(build(0, 0, vec![]).buffer.is_empty());
}

#[test]
fn error_messages_name_the_stage() {
    assert!(RasterError::Decode.message().starts_with("reading"));
    assert!(RasterError::MalformedBuffer.message().starts_with("transforming"));
}
