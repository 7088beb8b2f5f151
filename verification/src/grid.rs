use vstd::prelude::*;
use vstd::arithmetic::div_mod::lemma_fundamental_div_mod_converse;
use crate::error::Error;
use crate::sprite::Sprite;
use crate::sprite::within;
use crate::vector::Vector2;

verus! {

/// How a uniform grid is laid over a sprite: by the size of one cell, or by the number
/// of cells along each axis.
#[derive(Debug, Copy, Clone, PartialEq, Eq, Hash)]
pub enum GridMode {
    CellSize(Vector2<u32>),
    CellCount(Vector2<usize>),
}

impl GridMode {
    /// A grid needs a divisor that is not zero on both axes.
    pub open spec fn well_formed(self) -> bool {
        match self {
            GridMode::CellSize(size) => size.x > 0 && size.y > 0,
            GridMode::CellCount(count) => count.x > 0 && count.y > 0,
        }
    }

    /// The number of cells in one row of the grid over a source of extent `source`.
    pub open spec fn columns(self, source: Vector2<u32>) -> int {
        match self {
            GridMode::CellSize(size) => source.x as int / size.x as int,
            GridMode::CellCount(count) => count.x as int,
        }
    }

    /// The number of rows of the grid over a source of extent `source`.
    pub open spec fn rows(self, source: Vector2<u32>) -> int {
        match self {
            GridMode::CellSize(size) => source.y as int / size.y as int,
            GridMode::CellCount(count) => count.y as int,
        }
    }

    /// The width of one cell of the grid over a source of extent `source`.
    pub open spec fn cell_width(self, source: Vector2<u32>) -> int {
        match self {
            GridMode::CellSize(size) => size.x as int,
            GridMode::CellCount(count) => source.x as int / count.x as int,
        }
    }

    /// The height of one cell of the grid over a source of extent `source`.
    pub open spec fn cell_height(self, source: Vector2<u32>) -> int {
        match self {
            GridMode::CellSize(size) => size.y as int,
            GridMode::CellCount(count) => source.y as int / count.y as int,
        }
    }
}

/// Whether `cell` is the cell at column `column` and row `row` of a grid over `source`
/// whose cells are `width` by `height` texels.
pub open spec fn is_grid_cell(
    cell: Sprite,
    source: Sprite,
    width: int,
    height: int,
    column: int,
    row: int,
) -> bool {
    &&& cell.texture() == source.texture()
    &&& cell.size().x == width
    &&& cell.size().y == height
    &&& cell.offset().x == source.offset().x + column * width
    &&& cell.offset().y == source.offset().y + row * height
}

/// The sum of the first `n` entries of `lengths`.
pub open spec fn prefix_sum(lengths: Seq<u32>, n: int) -> int
    decreases n,
{
    if n <= 0 {
        0
    } else {
        prefix_sum(lengths, n - 1) + lengths[n - 1]
    }
}

/// Whether a grid with the given row heights and column widths, laid out from the
/// corner of `source`, stays within the texture behind `source`. A grid without rows
/// or without columns has no cells and fits anywhere.
pub open spec fn grid_fits(source: Sprite, rows: Seq<u32>, cols: Seq<u32>) -> bool {
    rows.len() == 0 || cols.len() == 0 || {
        &&& source.offset().x + prefix_sum(cols, cols.len() as int) <= source.texture().size.x
        &&& source.offset().y + prefix_sum(rows, rows.len() as int) <= source.texture().size.y
    }
}

pub proof fn lemma_prefix_sum_monotonic(lengths: Seq<u32>, i: int, j: int)
    requires
        0 <= i <= j <= lengths.len(),
    ensures
        0 <= prefix_sum(lengths, i) <= prefix_sum(lengths, j),
    decreases j,
{
    if j > 0 {
        if i < j {
            lemma_prefix_sum_monotonic(lengths, i, j - 1);
        } else {
            lemma_prefix_sum_monotonic(lengths, i - 1, j - 1);
        }
    }
}

proof fn lemma_quotient_times_divisor(n: int, d: int)
    requires
        0 <= n,
        0 < d,
    ensures
        0 <= (n / d) * d <= n,
        0 <= n / d <= n,
{
    vstd::arithmetic::div_mod::lemma_fundamental_div_mod(n, d);
    vstd::arithmetic::div_mod::lemma_div_pos_is_pos(n, d);
    vstd::arithmetic::div_mod::lemma_mod_bound(n, d);
    assert((n / d) * d == d * (n / d)) by (nonlinear_arith);
    assert(n / d <= n) by (nonlinear_arith)
        requires
            0 <= n,
            0 < d,
            0 <= n / d,
            d * (n / d) <= n,
    ;
}

proof fn lemma_step_within(i: int, n: int, step: int)
    requires
        0 <= i < n,
        0 <= step,
    ensures
        0 <= i * step,
        i * step + step == (i + 1) * step,
        (i + 1) * step <= n * step,
{
    assert(0 <= i * step) by (nonlinear_arith)
        requires
            0 <= i,
            0 <= step,
    ;
    assert(i * step + step == (i + 1) * step) by (nonlinear_arith);
    assert((i + 1) * step <= n * step) by (nonlinear_arith)
        requires
            i + 1 <= n,
            0 <= step,
    ;
}

impl Sprite {
    /// Cuts the sprite into a grid of equal cells, row by row from the sprite's corner.
    /// With a cell size, as many whole cells as fit are cut and what is left over at
    /// the right and bottom edges belongs to no cell; with a cell count, the cell size
    /// is the sprite's size divided by the count, rounded down.
    pub fn uniform_grid(&self, grid_mode: GridMode) -> (cells: Vec<Sprite>)
        requires
            grid_mode.well_formed(),
        ensures
            cells@.len() == grid_mode.columns(self.size()) * grid_mode.rows(self.size()),
            forall|k: int|
                0 <= k < cells@.len() ==> is_grid_cell(
                    #[trigger] cells@[k],
                    *self,
                    grid_mode.cell_width(self.size()),
                    grid_mode.cell_height(self.size()),
                    k % grid_mode.columns(self.size()),
                    k / grid_mode.columns(self.size()),
                ),
    {
        let size = self.get_size();
        let origin = self.get_offset();
        let (cols, rows, cell): (usize, usize, Vector2<u32>) = match grid_mode {
            GridMode::CellSize(cell) => (
                (size.x / cell.x) as usize,
                (size.y / cell.y) as usize,
                cell,
            ),
            GridMode::CellCount(count) => {
                let width: u32 = if count.x > size.x as usize {
                    0
                } else {
                    size.x / (count.x as u32)
                };
                let height: u32 = if count.y > size.y as usize {
                    0
                } else {
                    size.y / (count.y as u32)
                };
                (count.x, count.y, Vector2 { x: width, y: height })
            },
        };
        proof {
            use_type_invariant(self);
            self.lemma_within();
            match grid_mode {
                GridMode::CellSize(c) => {
                    lemma_quotient_times_divisor(size.x as int, c.x as int);
                    lemma_quotient_times_divisor(size.y as int, c.y as int);
                },
                GridMode::CellCount(c) => {
                    lemma_quotient_times_divisor(size.x as int, c.x as int);
                    lemma_quotient_times_divisor(size.y as int, c.y as int);
                    if c.x > size.x {
                        vstd::arithmetic::div_mod::lemma_basic_div(size.x as int, c.x as int);
                    }
                    if c.y > size.y {
                        vstd::arithmetic::div_mod::lemma_basic_div(size.y as int, c.y as int);
                    }
                    assert(c.x * (size.x as int / c.x as int) == (size.x as int / c.x as int)
                        * c.x) by (nonlinear_arith);
                    assert(c.y * (size.y as int / c.y as int) == (size.y as int / c.y as int)
                        * c.y) by (nonlinear_arith);
                },
            }
        }
        let mut cells: Vec<Sprite> = Vec::new();
        let mut y: usize = 0;
        let mut offset_y: u32 = 0;
        while y < rows
            invariant
                y <= rows,
                offset_y == y * cell.y,
                cols * cell.x <= size.x,
                rows * cell.y <= size.y,
                size == self.size(),
                origin == self.offset(),
                within(self.texture().size, size, origin),
                cells@.len() == y * cols,
                forall|k: int|
                    0 <= k < cells@.len() ==> is_grid_cell(
                        #[trigger] cells@[k],
                        *self,
                        cell.x as int,
                        cell.y as int,
                        k % (cols as int),
                        k / (cols as int),
                    ),
            decreases rows - y,
        {
            proof {
                lemma_step_within(y as int, rows as int, cell.y as int);
            }
            let mut x: usize = 0;
            let mut offset_x: u32 = 0;
            while x < cols
                invariant
                    x <= cols,
                    y < rows,
                    offset_x == x * cell.x,
                    offset_y == y * cell.y,
                    offset_y + cell.y <= size.y,
                    cols * cell.x <= size.x,
                    size == self.size(),
                    origin == self.offset(),
                    within(self.texture().size, size, origin),
                    cells@.len() == y * cols + x,
                    forall|k: int|
                        0 <= k < cells@.len() ==> is_grid_cell(
                            #[trigger] cells@[k],
                            *self,
                            cell.x as int,
                            cell.y as int,
                            k % (cols as int),
                            k / (cols as int),
                        ),
                decreases cols - x,
            {
                proof {
                    lemma_step_within(x as int, cols as int, cell.x as int);
                    lemma_fundamental_div_mod_converse(
                        y * cols + x,
                        cols as int,
                        y as int,
                        x as int,
                    );
                }
                let offset = Vector2 { x: origin.x + offset_x, y: origin.y + offset_y };
                let slice = self.slice(cell, offset).unwrap();
                cells.push(slice);
                offset_x = offset_x + cell.x;
                x = x + 1;
            }
            proof {
                assert(y * cols + cols == (y + 1) * cols) by (nonlinear_arith);
            }
            offset_y = offset_y + cell.y;
            y = y + 1;
        }
        proof {
            assert(rows * cols == cols * rows) by (nonlinear_arith);
        }
        cells
    }

    /// Cuts a grid with the given row heights and column widths out of the texture,
    /// row by row from the sprite's corner: the cell in row `r` and column `c` is
    /// `cols[c]` by `rows[r]` texels and lies at the sum of the widths of the columns
    /// before it and the sum of the heights of the rows above it. Fails if a cell would
    /// reach beyond the texture.
    pub fn non_uniform_grid(&self, rows: &[u32], cols: &[u32]) -> (r: Result<Vec<Sprite>, Error>)
        ensures
            grid_fits(*self, rows@, cols@) <==> r is Ok,
            r matches Err(e) ==> e == Error::OutOfBounds,
            r matches Ok(cells) ==> {
                &&& cells@.len() == rows@.len() * cols@.len()
                &&& forall|k: int|
                    0 <= k < cells@.len() ==> {
                        let column = k % (cols@.len() as int);
                        let row = k / (cols@.len() as int);
                        &&& (#[trigger] cells@[k]).texture() == self.texture()
                        &&& cells@[k].size().x == cols@[column]
                        &&& cells@[k].size().y == rows@[row]
                        &&& cells@[k].offset().x == self.offset().x + prefix_sum(cols@, column)
                        &&& cells@[k].offset().y == self.offset().y + prefix_sum(rows@, row)
                    }
            },
    {
        let origin = self.get_offset();
        let extent = self.get_texture().size;
        let mut cells: Vec<Sprite> = Vec::new();
        if rows.len() == 0 || cols.len() == 0 {
            proof {
                assert(rows@.len() * cols@.len() == 0) by (nonlinear_arith)
                    requires
                        rows@.len() == 0 || cols@.len() == 0,
                ;
            }
            return Ok(cells);
        }
        proof {
            use_type_invariant(self);
            self.lemma_within();
        }
        let mut y: usize = 0;
        let mut offset_y: u32 = origin.y;
        while y < rows.len()
            invariant
                y <= rows@.len(),
                cols@.len() > 0,
                origin == self.offset(),
                extent == self.texture().size,
                offset_y == origin.y + prefix_sum(rows@, y as int),
                offset_y <= extent.y,
                origin.x <= extent.x,
                y > 0 ==> origin.x + prefix_sum(cols@, cols@.len() as int) <= extent.x,
                cells@.len() == y * cols@.len(),
                forall|k: int|
                    0 <= k < cells@.len() ==> {
                        let column = k % (cols@.len() as int);
                        let row = k / (cols@.len() as int);
                        &&& (#[trigger] cells@[k]).texture() == self.texture()
                        &&& cells@[k].size().x == cols@[column]
                        &&& cells@[k].size().y == rows@[row]
                        &&& cells@[k].offset().x == self.offset().x + prefix_sum(cols@, column)
                        &&& cells@[k].offset().y == self.offset().y + prefix_sum(rows@, row)
                    },
            decreases rows@.len() - y,
        {
            let row_size = rows[y];
            if row_size > extent.y - offset_y {
                proof {
                    lemma_prefix_sum_monotonic(rows@, y + 1, rows@.len() as int);
                }
                return Err(Error::OutOfBounds);
            }
            let mut x: usize = 0;
            let mut offset_x: u32 = origin.x;
            while x < cols.len()
                invariant
                    x <= cols@.len(),
                    y < rows@.len(),
                    cols@.len() > 0,
                    row_size == rows@[y as int],
                    origin == self.offset(),
                    extent == self.texture().size,
                    origin.x <= extent.x,
                    offset_x == origin.x + prefix_sum(cols@, x as int),
                    offset_x <= extent.x,
                    offset_y == origin.y + prefix_sum(rows@, y as int),
                    offset_y + row_size <= extent.y,
                    cells@.len() == y * cols@.len() + x,
                    forall|k: int|
                        0 <= k < cells@.len() ==> {
                            let column = k % (cols@.len() as int);
                            let row = k / (cols@.len() as int);
                            &&& (#[trigger] cells@[k]).texture() == self.texture()
                            &&& cells@[k].size().x == cols@[column]
                            &&& cells@[k].size().y == rows@[row]
                            &&& cells@[k].offset().x == self.offset().x + prefix_sum(
                                cols@,
                                column,
                            )
                            &&& cells@[k].offset().y == self.offset().y + prefix_sum(rows@, row)
                        },
                decreases cols@.len() - x,
            {
                let col_size = cols[x];
                if col_size > extent.x - offset_x {
                    proof {
                        lemma_prefix_sum_monotonic(cols@, x + 1, cols@.len() as int);
                    }
                    return Err(Error::OutOfBounds);
                }
                proof {
                    lemma_fundamental_div_mod_converse(
                        y * cols@.len() + x,
                        cols@.len() as int,
                        y as int,
                        x as int,
                    );
                }
                let cell_size = Vector2 { x: col_size, y: row_size };
                let offset = Vector2 { x: offset_x, y: offset_y };
                let slice = self.slice(cell_size, offset).unwrap();
                cells.push(slice);
                offset_x = offset_x + col_size;
                x = x + 1;
            }
            proof {
                assert(y * cols@.len() + cols@.len() == (y + 1) * cols@.len())
                    by (nonlinear_arith);
            }
            offset_y = offset_y + row_size;
            y = y + 1;
        }
        Ok(cells)
    }
}

} // verus!
