use vstd::prelude::*;
use crate::error::LabelError;

verus! {

/// Largest number of columns, and of rows, that a grid may have.
pub const MAX_GRID_DIM: usize = 10;

/// A grid is usable when both dimensions lie between one and the maximum.
pub open spec fn grid_valid(columns: int, rows: int) -> bool {
    1 <= columns <= MAX_GRID_DIM && 1 <= rows <= MAX_GRID_DIM
}

/// The number of pages that `records` labels fill at `cells` labels a page:
/// the quotient rounded up.
pub open spec fn pages_needed(records: int, cells: int) -> int
    recommends
        records >= 0,
        cells > 0,
{
    (records + cells - 1) / cells
}

/// Where one record lands: its page, and its row and column on that page.
/// Row 0 is the top visual row.
#[derive(Clone, Copy, Debug, PartialEq, Eq, Structural)]
pub struct CellAssignment {
    pub page: usize,
    pub row: usize,
    pub col: usize,
}

/// The cell of record `idx` in a grid of `columns` by `rows`.
pub open spec fn assignment_of(idx: int, columns: int, rows: int) -> (int, int, int)
    recommends
        idx >= 0,
        columns > 0,
        rows > 0,
{
    let cells = columns * rows;
    (idx / cells, (idx % cells) / columns, (idx % cells) % columns)
}

/// The plan for one batch: grid, page capacity and page count.
#[derive(Clone, Copy, Debug, PartialEq, Eq, Structural)]
pub struct LayoutPlan {
    pub record_count: usize,
    pub columns: usize,
    pub rows: usize,
    pub cells_per_page: usize,
    pub total_pages: usize,
}

impl LayoutPlan {
    /// The plan describes a non-empty batch on a usable grid, and its derived
    /// fields agree with the grid.
    pub open spec fn wf(self) -> bool {
        &&& grid_valid(self.columns as int, self.rows as int)
        &&& self.record_count >= 1
        &&& self.cells_per_page == self.columns * self.rows
        &&& self.total_pages == pages_needed(self.record_count as int, self.cells_per_page as int)
    }

    /// A planned page holds between one and a hundred cells.
    pub proof fn lemma_cells_bounds(self)
        requires
            self.wf(),
        ensures
            1 <= self.cells_per_page <= MAX_GRID_DIM * MAX_GRID_DIM,
    {
        assert(1 <= self.columns * self.rows <= 100) by (nonlinear_arith)
            requires
                1 <= self.columns <= 10,
                1 <= self.rows <= 10,
        ;
    }

    /// Page, row and column of the record at `idx`.
    pub fn assignment(&self, idx: usize) -> (cell: CellAssignment)
        requires
            self.wf(),
        ensures
            (cell.page as int, cell.row as int, cell.col as int) == assignment_of(
                idx as int,
                self.columns as int,
                self.rows as int,
            ),
    {
        proof {
            self.lemma_cells_bounds();
        }
        let within: usize = idx % self.cells_per_page;
        CellAssignment {
            page: idx / self.cells_per_page,
            row: within / self.columns,
            col: within % self.columns,
        }
    }

    /// Index of the first record on `page`.
    pub open spec fn spec_page_start(self, page: int) -> int {
        page * self.cells_per_page
    }

    /// Index one past the last record on `page`.
    pub open spec fn spec_page_end(self, page: int) -> int {
        if (page + 1) * self.cells_per_page <= self.record_count {
            (page + 1) * self.cells_per_page
        } else {
            self.record_count as int
        }
    }

    /// Each page starts where the one before it ends, and the last page ends
    /// with the last record.
    pub proof fn lemma_page_ranges_chain(self, page: int)
        requires
            self.wf(),
            0 <= page < self.total_pages,
        ensures
            self.spec_page_start(0) == 0,
            self.spec_page_start(page) < self.spec_page_end(page),
            page + 1 < self.total_pages ==> self.spec_page_end(page) == self.spec_page_start(
                page + 1,
            ),
            page + 1 == self.total_pages ==> self.spec_page_end(page) == self.record_count,
    {
        self.lemma_cells_bounds();
        let c = self.cells_per_page as int;
        lemma_pages_needed_is_ceiling(self.record_count as int, c);
        lemma_mul_le(page, self.total_pages as int - 1, c);
        assert((page + 1) * c == page * c + c) by (nonlinear_arith);
        if page + 1 < self.total_pages {
            lemma_mul_le(page + 1, self.total_pages as int - 1, c);
        }
    }

    /// The half-open range of record indexes that `page` shows.
    pub fn page_range(&self, page: usize) -> (range: (usize, usize))
        requires
            self.wf(),
            page < self.total_pages,
        ensures
            range.0 == self.spec_page_start(page as int),
            range.1 == self.spec_page_end(page as int),
            range.0 < range.1 <= self.record_count,
            range.1 - range.0 <= self.cells_per_page,
    {
        proof {
            self.lemma_cells_bounds();
            lemma_pages_needed_is_ceiling(self.record_count as int, self.cells_per_page as int);
            lemma_mul_le(page as int, self.total_pages as int - 1, self.cells_per_page as int);
            assert((page + 1) * self.cells_per_page == page * self.cells_per_page
                + self.cells_per_page) by (nonlinear_arith);
        }
        let start: usize = page * self.cells_per_page;
        let remaining: usize = self.record_count - start;
        let end: usize = if remaining >= self.cells_per_page {
            start + self.cells_per_page
        } else {
            self.record_count
        };
        (start, end)
    }
}

/// Accepts a grid whose dimensions both lie between one and the maximum.
pub fn check_grid(columns: i32, rows: i32) -> (outcome: Result<(), LabelError>)
    ensures
        outcome == if grid_valid(columns as int, rows as int) {
            Ok::<(), LabelError>(())
        } else {
            Err::<(), LabelError>(LabelError::InvalidGrid)
        },
{
    if columns < 1 || rows < 1 || columns > 10 || rows > 10 {
        Err(LabelError::InvalidGrid)
    } else {
        Ok(())
    }
}

/// Plans a batch of `record_count` labels on a grid of `columns` by `rows`.
///
/// A grid dimension outside `1..=MAX_GRID_DIM` is refused first; an empty
/// batch on a usable grid is refused next. Otherwise the plan holds the page
/// capacity and the page count, the record count divided by the capacity and
/// rounded up.
pub fn plan(record_count: usize, columns: i32, rows: i32) -> (outcome: Result<LayoutPlan, LabelError>)
    ensures
        !grid_valid(columns as int, rows as int) ==> outcome == Err::<LayoutPlan, LabelError>(
            LabelError::InvalidGrid,
        ),
        grid_valid(columns as int, rows as int) && record_count == 0 ==> outcome == Err::<
            LayoutPlan,
            LabelError,
        >(LabelError::EmptyBatch),
        grid_valid(columns as int, rows as int) && record_count >= 1 ==> outcome == Ok::<
            LayoutPlan,
            LabelError,
        >(
            (LayoutPlan {
                record_count,
                columns: columns as usize,
                rows: rows as usize,
                cells_per_page: (columns * rows) as usize,
                total_pages: pages_needed(record_count as int, columns * rows) as usize,
            }),
        ),
        outcome is Ok ==> outcome->Ok_0.wf(),
{
    match check_grid(columns, rows) {
        Ok(()) => {},
        Err(e) => {
            return Err(e);
        },
    }
    if record_count == 0 {
        return Err(LabelError::EmptyBatch);
    }
    let c: usize = columns as usize;
    let r: usize = rows as usize;
    assert(1 <= c * r <= 100) by (nonlinear_arith)
        requires
            1 <= c <= 10,
            1 <= r <= 10,
    ;
    let cells: usize = c * r;
    // Rounded-up quotient without the overflow of `record_count + cells - 1`.
    let total: usize = (record_count - 1) / cells + 1;
    proof {
        lemma_ceiling_forms(record_count as int, cells as int);
    }
    Ok(LayoutPlan { record_count, columns: c, rows: r, cells_per_page: cells, total_pages: total })
}

/// The two usual ways to write the rounded-up quotient agree.
pub proof fn lemma_ceiling_forms(records: int, cells: int)
    requires
        records >= 1,
        cells >= 1,
    ensures
        pages_needed(records, cells) == (records - 1) / cells + 1,
{
    let c = cells;
    let m = records - 1;
    assert((m + c) / c == m / c + 1) by {
        vstd::arithmetic::div_mod::lemma_div_plus_one(m, c);
    }
}

/// The page count is the least number of pages that holds every record.
pub proof fn lemma_pages_needed_is_ceiling(records: int, cells: int)
    requires
        records >= 1,
        cells >= 1,
    ensures
        pages_needed(records, cells) >= 1,
        (pages_needed(records, cells) - 1) * cells < records,
        records <= pages_needed(records, cells) * cells,
{
    lemma_ceiling_forms(records, cells);
    let c = cells;
    let m = records - 1;
    vstd::arithmetic::div_mod::lemma_fundamental_div_mod(m, c);
    vstd::arithmetic::div_mod::lemma_mod_bound(m, c);
    vstd::arithmetic::div_mod::lemma_div_pos_is_pos(m, c);
    let q = m / c;
    assert(m == c * q + m % c);
    assert(q * c == c * q) by (nonlinear_arith);
    assert((q + 1) * c == q * c + c) by (nonlinear_arith);
}

proof fn lemma_mul_le(a: int, b: int, c: int)
    requires
        a <= b,
        c >= 0,
    ensures
        a * c <= b * c,
{
    assert(a * c <= b * c) by (nonlinear_arith)
        requires
            a <= b,
            c >= 0,
    ;
}

/// For every batch of at least one record and every grid of at least one
/// column and one row: the page count is the record count divided by the
/// cells of a page, rounded up; and every record lands on one of those pages,
/// in a row and a column of the grid, in the cell that its index counts to.
pub proof fn lemma_assignment_in_grid(record_count: int, columns: int, rows: int, idx: int)
    requires
        record_count >= 1,
        columns >= 1,
        rows >= 1,
        0 <= idx < record_count,
    ensures
        ({
            let cells = columns * rows;
            let total = pages_needed(record_count, cells);
            let (page, row, col) = assignment_of(idx, columns, rows);
            &&& (total - 1) * cells < record_count <= total * cells
            &&& 0 <= page < total
            &&& 0 <= row < rows
            &&& 0 <= col < columns
            &&& idx == page * cells + row * columns + col
        }),
{
    let cells = columns * rows;
    assert(cells >= 1) by (nonlinear_arith)
        requires
            columns >= 1,
            rows >= 1,
            cells == columns * rows,
    ;
    let page = idx / cells;
    let within = idx % cells;
    vstd::arithmetic::div_mod::lemma_fundamental_div_mod(idx, cells);
    vstd::arithmetic::div_mod::lemma_mod_bound(idx, cells);
    vstd::arithmetic::div_mod::lemma_div_pos_is_pos(idx, cells);
    vstd::arithmetic::div_mod::lemma_fundamental_div_mod(within, columns);
    vstd::arithmetic::div_mod::lemma_mod_bound(within, columns);
    vstd::arithmetic::div_mod::lemma_div_pos_is_pos(within, columns);
    let row = within / columns;
    let col = within % columns;
    assert(cells * page == page * cells) by (nonlinear_arith);
    assert(columns * row == row * columns) by (nonlinear_arith);
    assert(row < rows) by (nonlinear_arith)
        requires
            within == columns * row + col,
            within < columns * rows,
            col >= 0,
            columns >= 1,
    ;
    lemma_pages_needed_is_ceiling(record_count, cells);
    let total = pages_needed(record_count, cells);
    assert(page < total) by (nonlinear_arith)
        requires
            idx == cells * page + within,
            within >= 0,
            idx < record_count,
            record_count <= total * cells,
            cells >= 1,
    ;
}

/// A record is shown on the page that it is assigned to, in the slot that its
/// row and column count to.
pub proof fn lemma_record_on_its_page(p: LayoutPlan, idx: int)
    requires
        p.wf(),
        0 <= idx < p.record_count,
    ensures
        ({
            let (page, row, col) = assignment_of(idx, p.columns as int, p.rows as int);
            &&& 0 <= page < p.total_pages
            &&& p.spec_page_start(page) <= idx < p.spec_page_end(page)
            &&& idx - p.spec_page_start(page) == row * p.columns + col
        }),
{
    lemma_assignment_in_grid(p.record_count as int, p.columns as int, p.rows as int, idx);
    let (page, row, col) = assignment_of(idx, p.columns as int, p.rows as int);
    let cells = p.cells_per_page as int;
    assert((page + 1) * cells == page * cells + cells) by (nonlinear_arith);
    assert(row * p.columns + col < cells) by (nonlinear_arith)
        requires
            0 <= row < p.rows,
            0 <= col < p.columns,
            cells == p.columns * p.rows,
    ;
}

/// Two records of one grid that share page, row and column are one record.
pub proof fn lemma_assignment_injective(i: int, j: int, columns: int, rows: int)
    requires
        i >= 0,
        j >= 0,
        columns >= 1,
        rows >= 1,
        assignment_of(i, columns, rows) == assignment_of(j, columns, rows),
    ensures
        i == j,
{
    let c = columns;
    let cells = columns * rows;
    assert(cells >= 1) by (nonlinear_arith)
        requires
            c >= 1,
            rows >= 1,
            cells == c * rows,
    ;
    vstd::arithmetic::div_mod::lemma_fundamental_div_mod(i, cells);
    vstd::arithmetic::div_mod::lemma_fundamental_div_mod(j, cells);
    vstd::arithmetic::div_mod::lemma_fundamental_div_mod(i % cells, c);
    vstd::arithmetic::div_mod::lemma_fundamental_div_mod(j % cells, c);
}

} // verus!
