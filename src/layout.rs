use vstd::prelude::*;

use std::collections::BTreeMap;

use crate::encode::{block_of, grid_cells, row_cells};
use crate::grid::grid_wf;
use crate::raster::Pixel;

verus! {

/// The width given to every column of the mosaic.
pub const COLUMN_WIDTH: u32 = 1;

/// The height given to every row of the mosaic, so that a 2x2 block looks square.
pub const ROW_HEIGHT: u32 = 10;

/// Explicit sizes of output columns and rows, by index. An index that is not
/// in a map keeps the viewer's default size.
pub struct SheetLayout {
    pub columns: BTreeMap<u64, u32>,
    pub rows: BTreeMap<u64, u32>,
}

impl View for SheetLayout {
    type V = (Map<u64, u32>, Map<u64, u32>);

    open spec fn view(&self) -> (Map<u64, u32>, Map<u64, u32>) {
        (self.columns@, self.rows@)
    }
}

/// Every index below `n` mapped to `size`.
pub open spec fn uniform(n: int, size: u32) -> Map<u64, u32> {
    Map::new(|i: u64| i < n, |i: u64| size)
}

/// A layout after the columns and rows that a `width` by `height` image
/// covers have been sized; other entries are kept.
pub open spec fn sized(layout: (Map<u64, u32>, Map<u64, u32>), width: int, height: int) -> (Map<u64, u32>, Map<u64, u32>) {
    (
        layout.0.union_prefer_right(uniform(2 * width, COLUMN_WIDTH)),
        layout.1.union_prefer_right(uniform(2 * height, ROW_HEIGHT)),
    )
}

/// Sizing the same columns and rows a second time changes nothing.
pub proof fn lemma_sizing_idempotent(layout: (Map<u64, u32>, Map<u64, u32>), width: int, height: int)
    ensures
        sized(sized(layout, width, height), width, height) == sized(layout, width, height),
{
    assert(sized(sized(layout, width, height), width, height).0 =~= sized(layout, width, height).0);
    assert(sized(sized(layout, width, height), width, height).1 =~= sized(layout, width, height).1);
}

/// Every pixel of `rows` lies within a `width` by `height` image.
pub open spec fn pixels_within(rows: Seq<Seq<Pixel>>, width: int, height: int) -> bool {
    forall|y: int, x: int|
        0 <= y < rows.len() && 0 <= x < rows[y].len() ==> #[trigger] rows[y][x].pos.x < width
            && rows[y][x].pos.y < height
}

proof fn lemma_row_cells_within(row: Seq<Pixel>, width: int, height: int)
    requires
        forall|x: int| 0 <= x < row.len() ==> #[trigger] row[x].pos.x < width && row[x].pos.y < height,
    ensures
        forall|i: int| 0 <= i < row_cells(row).len() ==> #[trigger] row_cells(row)[i].address.column < 2 * width
            && row_cells(row)[i].address.row < 2 * height,
    decreases row.len(),
{
    if row.len() > 0 {
        let rest = row.drop_last();
        assert forall|x: int| 0 <= x < rest.len() implies #[trigger] rest[x].pos.x < width && rest[x].pos.y < height by {
            assert(rest[x] == row[x]);
        }
        lemma_row_cells_within(rest, width, height);
        let b = block_of(row.last());
        assert(row.last() == row[row.len() - 1]);
        assert(forall|j: int| 0 <= j < 4 ==> #[trigger] b[j].address.column < 2 * width && b[j].address.row < 2 * height);
        let cells = row_cells(row);
        assert forall|i: int| 0 <= i < cells.len() implies #[trigger] cells[i].address.column < 2 * width
            && cells[i].address.row < 2 * height by {
            let n = row_cells(rest).len() as int;
            if i >= n {
                assert(cells[i] == b[i - n]);
            } else {
                assert(cells[i] == row_cells(rest)[i]);
            }
        }
    }
}

proof fn lemma_grid_cells_within(rows: Seq<Seq<Pixel>>, width: int, height: int)
    requires
        pixels_within(rows, width, height),
    ensures
        forall|i: int| 0 <= i < grid_cells(rows).len() ==> #[trigger] grid_cells(rows)[i].address.column < 2 * width
            && grid_cells(rows)[i].address.row < 2 * height,
    decreases rows.len(),
{
    if rows.len() > 0 {
        let rest = rows.drop_last();
        assert forall|y: int, x: int| 0 <= y < rest.len() && 0 <= x < rest[y].len() implies
            #[trigger] rest[y][x].pos.x < width && rest[y][x].pos.y < height by {
            assert(rest[y] == rows[y]);
        }
        lemma_grid_cells_within(rest, width, height);
        let last = rows.last();
        assert forall|x: int| 0 <= x < last.len() implies #[trigger] last[x].pos.x < width && last[x].pos.y < height by {
            assert(rows[rows.len() - 1][x] == last[x]);
        }
        lemma_row_cells_within(last, width, height);
        let cells = grid_cells(rows);
        assert forall|i: int| 0 <= i < cells.len() implies #[trigger] cells[i].address.column < 2 * width
            && cells[i].address.row < 2 * height by {
            let n = grid_cells(rest).len() as int;
            if i >= n {
                assert(cells[i] == row_cells(last)[i - n]);
            } else {
                assert(cells[i] == grid_cells(rest)[i]);
            }
        }
    }
}

/// The layout planned for a `width` by `height` image sizes the column and
/// the row of every cell that encoding its pixel grid produces.
pub proof fn lemma_layout_covers_cells(rows: Seq<Seq<Pixel>>, width: u16, height: u32)
    requires
        grid_wf(rows, width as int, height as int),
    ensures
        forall|i: int| 0 <= i < grid_cells(rows).len() ==> {
            &&& uniform(2 * width as int, COLUMN_WIDTH).contains_key(#[trigger] grid_cells(rows)[i].address.column)
            &&& uniform(2 * height as int, ROW_HEIGHT).contains_key(grid_cells(rows)[i].address.row)
        },
{
    assert forall|y: int, x: int| 0 <= y < rows.len() && 0 <= x < rows[y].len() implies
        #[trigger] rows[y][x].pos.x < width && rows[y][x].pos.y < height by {
        assert(rows[y][x].pos == (crate::raster::Position { x: x as u16, y: y as u32 }));
    }
    lemma_grid_cells_within(rows, width as int, height as int);
}

fn size_indices(sizes: &mut BTreeMap<u64, u32>, n: u64, size: u32)
    ensures
        final(sizes)@ == old(sizes)@.union_prefer_right(uniform(n as int, size)),
{
    let mut i: u64 = 0;
    while i < n
        invariant
            0 <= i <= n,
            sizes@ == old(sizes)@.union_prefer_right(uniform(i as int, size)),
        decreases n - i,
    {
        sizes.insert(i, size);
        assert(sizes@ =~= old(sizes)@.union_prefer_right(uniform(i as int + 1, size)));
        i = i + 1;
    }
}

impl SheetLayout {
    /// A layout with no explicit sizes.
    pub fn new() -> (r: SheetLayout)
        ensures
            r@.0 == Map::<u64, u32>::empty(),
            r@.1 == Map::<u64, u32>::empty(),
    {
        SheetLayout { columns: BTreeMap::new(), rows: BTreeMap::new() }
    }

    /// Gives each of the `2 * width` columns and `2 * height` rows that a
    /// `width` by `height` image covers its fixed size, once per index.
    pub fn size_for_image(&mut self, width: u16, height: u32)
        ensures
            final(self)@ == sized(old(self)@, width as int, height as int),
    {
        size_indices(&mut self.columns, 2 * width as u64, COLUMN_WIDTH);
        size_indices(&mut self.rows, 2 * height as u64, ROW_HEIGHT);
    }
}

/// The layout of the mosaic of a `width` by `height` image: every covered
/// column `COLUMN_WIDTH` wide, every covered row `ROW_HEIGHT` high.
pub fn plan_layout(width: u16, height: u32) -> (r: SheetLayout)
    ensures
        r@.0 == uniform(2 * width as int, COLUMN_WIDTH),
        r@.1 == uniform(2 * height as int, ROW_HEIGHT),
{
    let mut layout = SheetLayout::new();
    layout.size_for_image(width, height);
    assert(layout@.0 =~= uniform(2 * width as int, COLUMN_WIDTH));
    assert(layout@.1 =~= uniform(2 * height as int, ROW_HEIGHT));
    layout
}

} // verus!
