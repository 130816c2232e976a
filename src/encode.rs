use vstd::prelude::*;

use crate::grid::ExcelRasterData;
use crate::grid::grid_wf;
use crate::raster::{Pixel, Position};

verus! {

/// A cell of the output sheet: `column` and `row`, counted from zero.
#[derive(Clone, Copy, Debug, PartialEq, Eq, Structural)]
pub struct CellAddress {
    pub column: u64,
    pub row: u64,
}

/// A cell with its background colour (packed `0xRRGGBB`) and the number it shows.
#[derive(Clone, Copy, Debug, PartialEq, Eq, Structural)]
pub struct StyledCell {
    pub address: CellAddress,
    pub background: Option<u32>,
    pub value: Option<u32>,
}

/// A pure red of the given intensity.
pub open spec fn red_swatch(v: u8) -> u32 {
    (v as u32) << 16u32
}

/// A pure green of the given intensity.
pub open spec fn green_swatch(v: u8) -> u32 {
    (v as u32) << 8u32
}

/// A pure blue of the given intensity.
pub open spec fn blue_swatch(v: u8) -> u32 {
    v as u32
}

/// The address of the cell at `column`, `row`.
pub open spec fn address_at(column: int, row: int) -> CellAddress {
    CellAddress { column: column as u64, row: row as u64 }
}

/// A cell at `column`, `row` with the given background, showing `value`.
pub open spec fn swatch_cell(column: int, row: int, background: u32, value: u8) -> StyledCell {
    StyledCell {
        address: address_at(column, row),
        background: Some(background),
        value: Some(value as u32),
    }
}

/// The 2x2 block that stands for pixel `p`: top-left red, top-right and
/// bottom-left green, bottom-right blue, each showing its channel's value.
pub open spec fn block_of(p: Pixel) -> Seq<StyledCell> {
    let c = 2 * p.pos.x;
    let r = 2 * p.pos.y;
    seq![
        swatch_cell(c, r, red_swatch(p.color.r), p.color.r),
        swatch_cell(c + 1, r, green_swatch(p.color.g), p.color.g),
        swatch_cell(c, r + 1, green_swatch(p.color.g), p.color.g),
        swatch_cell(c + 1, r + 1, blue_swatch(p.color.b), p.color.b),
    ]
}

/// The cells of a row of pixels, block after block.
pub open spec fn row_cells(row: Seq<Pixel>) -> Seq<StyledCell>
    decreases row.len(),
{
    if row.len() == 0 {
        Seq::empty()
    } else {
        row_cells(row.drop_last()) + block_of(row.last())
    }
}

/// The cells of a grid, row after row.
pub open spec fn grid_cells(rows: Seq<Seq<Pixel>>) -> Seq<StyledCell>
    decreases rows.len(),
{
    if rows.len() == 0 {
        Seq::empty()
    } else {
        grid_cells(rows.drop_last()) + row_cells(rows.last())
    }
}

/// Blocks never overlap: the four cells of a block have distinct addresses,
/// and two pixels at different positions share no cell address.
pub proof fn lemma_blocks_disjoint(p: Pixel, q: Pixel)
    ensures
        block_of(p).len() == 4,
        forall|i: int, j: int|
            0 <= i < 4 && 0 <= j < 4 && i != j ==> block_of(p)[i].address != block_of(p)[j].address,
        p.pos != q.pos ==> forall|i: int, j: int|
            0 <= i < 4 && 0 <= j < 4 ==> block_of(p)[i].address != block_of(q)[j].address,
{
    assert forall|i: int, j: int| 0 <= i < 4 && 0 <= j < 4 && p.pos != q.pos implies
        block_of(p)[i].address != block_of(q)[j].address by {
        if p.pos.x != q.pos.x {
            assert(block_of(p)[i].address.column / 2 == p.pos.x);
            assert(block_of(q)[j].address.column / 2 == q.pos.x);
        } else {
            assert(block_of(p)[i].address.row / 2 == p.pos.y);
            assert(block_of(q)[j].address.row / 2 == q.pos.y);
        }
    }
}

/// The `k`-th pixel of `row` sits at column `k` of image row `y`.
pub open spec fn row_at(row: Seq<Pixel>, y: int) -> bool {
    forall|k: int| 0 <= k < row.len() ==> #[trigger] row[k].pos == (Position { x: k as u16, y: y as u32 })
}

proof fn lemma_row_cells_tile(row: Seq<Pixel>, y: int)
    requires
        0 <= y <= u32::MAX,
        row.len() <= 0x10000,
        row_at(row, y),
    ensures
        row_cells(row).len() == 4 * row.len(),
        forall|i: int| 0 <= i < row_cells(row).len() ==> {
            &&& (#[trigger] row_cells(row)[i]).address.column < 2 * row.len()
            &&& 2 * y <= row_cells(row)[i].address.row <= 2 * y + 1
        },
        forall|i: int, j: int| 0 <= i < j < row_cells(row).len() ==>
            (#[trigger] row_cells(row)[i]).address != (#[trigger] row_cells(row)[j]).address,
        forall|c: int, r: int| 0 <= c < 2 * row.len() && 2 * y <= r <= 2 * y + 1 ==>
            exists|i: int| 0 <= i < row_cells(row).len() && (#[trigger] row_cells(row)[i]).address == #[trigger] address_at(c, r),
    decreases row.len(),
{
    let cells = row_cells(row);
    if row.len() > 0 {
        let n = row.len() - 1;
        let rest = row.drop_last();
        assert forall|k: int| 0 <= k < rest.len() implies #[trigger] rest[k].pos == (Position { x: k as u16, y: y as u32 }) by {
            assert(rest[k] == row[k]);
        }
        lemma_row_cells_tile(rest, y);
        let p = row[n];
        assert(p == row.last());
        assert(p.pos == (Position { x: n as u16, y: y as u32 }));
        let b = block_of(p);
        lemma_blocks_disjoint(p, p);
        let m = row_cells(rest).len();
        assert(cells == row_cells(rest) + b);
        assert forall|i: int| 0 <= i < cells.len() implies {
            &&& (#[trigger] cells[i]).address.column < 2 * row.len()
            &&& 2 * y <= cells[i].address.row <= 2 * y + 1
        } by {
            if i < m {
                assert(cells[i] == row_cells(rest)[i]);
            } else {
                assert(cells[i] == b[i - m]);
            }
        }
        assert forall|i: int, j: int| 0 <= i < j < cells.len() implies
            (#[trigger] cells[i]).address != (#[trigger] cells[j]).address by {
            if j < m {
                assert(cells[i] == row_cells(rest)[i]);
                assert(cells[j] == row_cells(rest)[j]);
            } else if i < m {
                assert(cells[i] == row_cells(rest)[i]);
                assert(cells[j] == b[j - m]);
            } else {
                assert(cells[i] == b[i - m]);
                assert(cells[j] == b[j - m]);
            }
        }
        assert forall|c: int, r: int| 0 <= c < 2 * row.len() && 2 * y <= r <= 2 * y + 1 implies
            exists|i: int| 0 <= i < cells.len() && (#[trigger] cells[i]).address == #[trigger] address_at(c, r) by {
            if c < 2 * n {
                let i = choose|i: int| 0 <= i < row_cells(rest).len() && (#[trigger] row_cells(rest)[i]).address == address_at(c, r);
                assert(cells[i] == row_cells(rest)[i]);
            } else {
                let j = (r - 2 * y) * 2 + (c - 2 * n);
                assert(cells[m + j] == b[j]);
                assert(cells[m + j].address == address_at(c, r));
            }
        }
    }
}

/// The rows of `rows` have `width` pixels each, and the `k`-th pixel of row
/// `y` sits at column `k`, row `y`.
pub open spec fn rows_at(rows: Seq<Seq<Pixel>>, width: int) -> bool {
    forall|y: int| 0 <= y < rows.len() ==> (#[trigger] rows[y]).len() == width && row_at(rows[y], y)
}

proof fn lemma_grid_cells_tile_rows(rows: Seq<Seq<Pixel>>, width: int)
    requires
        0 <= width <= 0xffff,
        rows.len() <= u32::MAX + 1,
        rows_at(rows, width),
    ensures
        grid_cells(rows).len() == 4 * width * rows.len(),
        forall|i: int| 0 <= i < grid_cells(rows).len() ==> {
            &&& (#[trigger] grid_cells(rows)[i]).address.column < 2 * width
            &&& grid_cells(rows)[i].address.row < 2 * rows.len()
        },
        forall|i: int, j: int| 0 <= i < j < grid_cells(rows).len() ==>
            (#[trigger] grid_cells(rows)[i]).address != (#[trigger] grid_cells(rows)[j]).address,
        forall|c: int, r: int| 0 <= c < 2 * width && 0 <= r < 2 * rows.len() ==>
            exists|i: int| 0 <= i < grid_cells(rows).len() && (#[trigger] grid_cells(rows)[i]).address == #[trigger] address_at(c, r),
    decreases rows.len(),
{
    let cells = grid_cells(rows);
    if rows.len() > 0 {
        let h = rows.len() - 1;
        let rest = rows.drop_last();
        assert forall|y: int| 0 <= y < rest.len() implies (#[trigger] rest[y]).len() == width && row_at(rest[y], y) by {
            assert(rest[y] == rows[y]);
        }
        lemma_grid_cells_tile_rows(rest, width);
        let last = rows[h];
        assert(last == rows.last());
        lemma_row_cells_tile(last, h);
        let rc = row_cells(last);
        let m = grid_cells(rest).len();
        assert(cells == grid_cells(rest) + rc);
        assert(cells.len() == 4 * width * rows.len()) by (nonlinear_arith)
            requires cells.len() == m + rc.len(), m == 4 * width * h, rc.len() == 4 * width, rows.len() == h + 1;
        assert forall|i: int| 0 <= i < cells.len() implies {
            &&& (#[trigger] cells[i]).address.column < 2 * width
            &&& cells[i].address.row < 2 * rows.len()
        } by {
            if i < m {
                assert(cells[i] == grid_cells(rest)[i]);
            } else {
                assert(cells[i] == rc[i - m]);
            }
        }
        assert forall|i: int, j: int| 0 <= i < j < cells.len() implies
            (#[trigger] cells[i]).address != (#[trigger] cells[j]).address by {
            if j < m {
                assert(cells[i] == grid_cells(rest)[i]);
                assert(cells[j] == grid_cells(rest)[j]);
            } else if i < m {
                assert(cells[i] == grid_cells(rest)[i]);
                assert(cells[j] == rc[j - m]);
            } else {
                assert(cells[i] == rc[i - m]);
                assert(cells[j] == rc[j - m]);
            }
        }
        assert forall|c: int, r: int| 0 <= c < 2 * width && 0 <= r < 2 * rows.len() implies
            exists|i: int| 0 <= i < cells.len() && (#[trigger] cells[i]).address == #[trigger] address_at(c, r) by {
            if r < 2 * h {
                let i = choose|i: int| 0 <= i < grid_cells(rest).len() && (#[trigger] grid_cells(rest)[i]).address == address_at(c, r);
                assert(cells[i] == grid_cells(rest)[i]);
            } else {
                let i = choose|i: int| 0 <= i < rc.len() && (#[trigger] rc[i]).address == address_at(c, r);
                assert(cells[m + i] == rc[i]);
            }
        }
    }
}

/// Encoding a well-formed `width` by `height` grid gives `4 * width * height`
/// cells whose addresses are pairwise distinct and are exactly the cells of
/// columns `[0, 2 * width)` and rows `[0, 2 * height)`.
pub proof fn lemma_grid_cells_tile(rows: Seq<Seq<Pixel>>, width: u16, height: u32)
    requires
        grid_wf(rows, width as int, height as int),
    ensures
        grid_cells(rows).len() == 4 * width * height,
        forall|i: int| 0 <= i < grid_cells(rows).len() ==> {
            &&& (#[trigger] grid_cells(rows)[i]).address.column < 2 * width
            &&& grid_cells(rows)[i].address.row < 2 * height
        },
        forall|i: int, j: int| 0 <= i < j < grid_cells(rows).len() ==>
            (#[trigger] grid_cells(rows)[i]).address != (#[trigger] grid_cells(rows)[j]).address,
        forall|c: int, r: int| 0 <= c < 2 * width && 0 <= r < 2 * height ==>
            exists|i: int| 0 <= i < grid_cells(rows).len() && (#[trigger] grid_cells(rows)[i]).address == #[trigger] address_at(c, r),
{
    assert forall|y: int| 0 <= y < rows.len() implies (#[trigger] rows[y]).len() == width && row_at(rows[y], y) by {
        assert forall|k: int| 0 <= k < rows[y].len() implies #[trigger] rows[y][k].pos == (Position { x: k as u16, y: y as u32 }) by {
        }
    }
    lemma_grid_cells_tile_rows(rows, width as int);
}

/// Encodes one pixel as its block of four cells.
pub fn encode_pixel(pixel: &Pixel) -> (r: [StyledCell; 4])
    ensures
        r@ == block_of(*pixel),
        r[0].address == address_at(2 * pixel.pos.x, 2 * pixel.pos.y),
        r[1].address == address_at(2 * pixel.pos.x + 1, 2 * pixel.pos.y),
        r[2].address == address_at(2 * pixel.pos.x, 2 * pixel.pos.y + 1),
        r[3].address == address_at(2 * pixel.pos.x + 1, 2 * pixel.pos.y + 1),
        r[0].value == Some(pixel.color.r as u32),
        r[1].value == Some(pixel.color.g as u32),
        r[2].value == Some(pixel.color.g as u32),
        r[3].value == Some(pixel.color.b as u32),
{
    let column: u64 = 2 * pixel.pos.x as u64;
    let row: u64 = 2 * pixel.pos.y as u64;
    let red = pixel.color.r;
    let green = pixel.color.g;
    let blue = pixel.color.b;
    let red_bg: u32 = (red as u32) << 16u32;
    let green_bg: u32 = (green as u32) << 8u32;
    let blue_bg: u32 = blue as u32;
    let r = [
        StyledCell {
            address: CellAddress { column: column, row: row },
            background: Some(red_bg),
            value: Some(red as u32),
        },
        StyledCell {
            address: CellAddress { column: column + 1, row: row },
            background: Some(green_bg),
            value: Some(green as u32),
        },
        StyledCell {
            address: CellAddress { column: column, row: row + 1 },
            background: Some(green_bg),
            value: Some(green as u32),
        },
        StyledCell {
            address: CellAddress { column: column + 1, row: row + 1 },
            background: Some(blue_bg),
            value: Some(blue as u32),
        },
    ];
    assert(r@ =~= block_of(*pixel));
    r
}

/// Encodes every pixel of a grid, row by row, four cells per pixel.
pub fn encode_grid(grid: &ExcelRasterData) -> (r: Vec<StyledCell>)
    ensures
        r@ == grid_cells(grid@),
{
    let mut out: Vec<StyledCell> = Vec::new();
    let mut y: usize = 0;
    while y < grid.buffer.len()
        invariant
            0 <= y <= grid.buffer@.len(),
            out@ == grid_cells(grid@.take(y as int)),
        decreases grid.buffer@.len() - y,
    {
        let row = &grid.buffer[y];
        let mut x: usize = 0;
        while x < row.len()
            invariant
                0 <= y < grid.buffer@.len(),
                *row == grid.buffer@[y as int],
                0 <= x <= row@.len(),
                out@ == grid_cells(grid@.take(y as int)) + row_cells(row@.take(x as int)),
            decreases row@.len() - x,
        {
            let block = encode_pixel(&row[x]);
            let mut k: usize = 0;
            let ghost before = out@;
            while k < 4
                invariant
                    0 <= k <= 4,
                    block@ == block_of(row@[x as int]),
                    out@ == before + block@.take(k as int),
                decreases 4 - k,
            {
                out.push(block[k]);
                assert(block@.take(k as int + 1) =~= block@.take(k as int).push(block@[k as int]));
                k = k + 1;
            }
            assert(block@.take(4) =~= block@);
            assert(row@.take(x as int + 1).drop_last() =~= row@.take(x as int));
            assert(out@ =~= grid_cells(grid@.take(y as int)) + row_cells(row@.take(x as int + 1)));
            x = x + 1;
        }
        assert(row@.take(row@.len() as int) =~= row@);
        assert(grid@.take(y as int + 1).drop_last() =~= grid@.take(y as int));
        assert(grid@[y as int] == row@);
        y = y + 1;
    }
    assert(grid@.take(grid@.len() as int) =~= grid@);
    out
}

} // verus!
