use vstd::prelude::*;
use crate::error::LabelError;
use crate::layout::{grid_valid, plan, LayoutPlan};
use crate::qr::{symbol_rendered, QrBitmap, QrMatrix};
use crate::record::LabelRecord;

verus! {

/// Largest page side that a grid accepts, in tenths of a millimetre.
pub const MAX_PAGE_TENTHS: u32 = 100_000;

/// Side of the bitmap that a symbol is rendered into for a document, in
/// pixels.
pub const QR_BITMAP_PX: usize = 200;

/// A physical page and the grid of label cells on it. Page sides are in
/// tenths of a millimetre.
#[derive(Clone, Copy, Debug, PartialEq, Eq, Structural)]
pub struct GridSpec {
    pub page_width: u32,
    pub page_height: u32,
    pub columns: u32,
    pub rows: u32,
}

/// The sides of a named paper size in tenths of a millimetre; a name that is
/// not known stands for A4.
pub open spec fn paper_sides(name: Seq<char>) -> (u32, u32) {
    if name == "Letter"@ {
        (2159u32, 2794u32)
    } else if name == "A5"@ {
        (1480u32, 2100u32)
    } else {
        (2100u32, 2970u32)
    }
}

/// The sides of a named paper size in tenths of a millimetre.
pub fn paper_size(name: &str) -> (sides: (u32, u32))
    ensures
        sides == paper_sides(name@),
{
    let wanted = String::from_str(name);
    if wanted == String::from_str("Letter") {
        (2159, 2794)
    } else if wanted == String::from_str("A5") {
        (1480, 2100)
    } else {
        (2100, 2970)
    }
}

/// Which line of a label a text is.
#[derive(Clone, Copy, Debug, PartialEq, Eq, Structural)]
pub enum LineKind {
    Name,
    Specification,
    Quantity,
    Location,
}

/// One drawing operation of a document page. Lengths are in grid units (see
/// `GridSpec::units_per_mm`); `x` grows to the right and `y` upward from the
/// page's bottom-left corner. `record` is the index of the record that a text
/// or a symbol belongs to.
#[derive(Clone, Copy, Debug, PartialEq, Eq, Structural)]
pub enum DrawOp {
    /// The outline of a cell: its bottom-left corner, its size and the
    /// thickness of the stroke.
    Border { x: i64, y: i64, width: i64, height: i64, thickness: i64 },
    /// One line of text, set at `size_pt` points from `(x, y)`.
    Text { record: usize, line: LineKind, size_pt: u32, bold: bool, x: i64, y: i64 },
    /// A record's symbol, scaled into the square of `size` at `(x, y)`.
    Symbol { record: usize, x: i64, y: i64, size: i64 },
}

impl GridSpec {
    /// The grid is usable and the page has a positive, bounded size, so that
    /// every cell has a positive width and height.
    pub open spec fn wf(self) -> bool {
        &&& grid_valid(self.columns as int, self.rows as int)
        &&& 1 <= self.page_width <= MAX_PAGE_TENTHS
        &&& 1 <= self.page_height <= MAX_PAGE_TENTHS
    }

    /// Number of cells on a page.
    pub open spec fn cells(self) -> int {
        self.columns * self.rows
    }

    /// Grid units per millimetre. The unit is chosen so that a cell's width
    /// and height, the page's sides divided by the columns and rows, are
    /// whole numbers of it.
    pub open spec fn units_per_mm(self) -> int {
        10 * self.cells()
    }

    /// A length of `t` tenths of a millimetre, in grid units.
    pub open spec fn tenths(self, t: int) -> int {
        t * self.cells()
    }

    /// Width of a cell: the page's width divided by the columns.
    pub open spec fn cell_width(self) -> int {
        self.page_width * self.rows
    }

    /// Height of a cell: the page's height divided by the rows.
    pub open spec fn cell_height(self) -> int {
        self.page_height * self.columns
    }

    /// Space kept free inside a cell's edge: five millimetres.
    pub open spec fn padding(self) -> int {
        self.tenths(50)
    }

    /// Left edge of the cells of column `col`.
    pub open spec fn cell_x(self, col: int) -> int {
        self.cell_width() * col
    }

    /// Bottom edge of the cells of row `row`. Row 0 is the top row, and `y`
    /// grows upward.
    pub open spec fn cell_y(self, row: int) -> int {
        self.cell_height() * (self.rows - row - 1)
    }

    /// Side of the square kept for the symbol: the cell's height less the
    /// padding above and below.
    pub open spec fn qr_size(self) -> int {
        self.cell_height() - 2 * self.padding()
    }

    /// The border of cell number `cell`, cells counted row by row.
    pub open spec fn border_op(self, cell: int) -> DrawOp {
        DrawOp::Border {
            x: self.cell_x(cell % (self.columns as int)) as i64,
            y: self.cell_y(cell / (self.columns as int)) as i64,
            width: self.cell_width() as i64,
            height: self.cell_height() as i64,
            thickness: self.tenths(3) as i64,
        }
    }

    /// The borders of the first `k` cells.
    pub open spec fn border_ops(self, k: nat) -> Seq<DrawOp>
        decreases k,
    {
        if k == 0 {
            Seq::empty()
        } else {
            self.border_ops((k - 1) as nat).push(self.border_op(k - 1))
        }
    }

    /// The content of the cell in slot `slot` of a page, top to bottom: the
    /// name, the specification where there is one, the quantity, the location
    /// where there is one, each line a fixed pitch below the one before; then
    /// the symbol, on the right of the cell.
    pub open spec fn record_ops(self, rec: LabelRecord, slot: int, index: int) -> Seq<DrawOp> {
        let col = slot % (self.columns as int);
        let row = slot / (self.columns as int);
        let left = self.cell_x(col) + self.padding();
        let top = self.cell_y(row) + self.cell_height() - self.padding();
        let second = top - self.tenths(60);
        let third = if rec.specifications is Some {
            second - self.tenths(50)
        } else {
            second
        };
        let fourth = third - self.tenths(50);
        seq![
            DrawOp::Text {
                record: index as usize,
                line: LineKind::Name,
                size_pt: 14,
                bold: true,
                x: left as i64,
                y: top as i64,
            },
        ] + (if rec.specifications is Some {
            seq![
                DrawOp::Text {
                    record: index as usize,
                    line: LineKind::Specification,
                    size_pt: 10,
                    bold: false,
                    x: left as i64,
                    y: second as i64,
                },
            ]
        } else {
            Seq::empty()
        }) + seq![
            DrawOp::Text {
                record: index as usize,
                line: LineKind::Quantity,
                size_pt: 11,
                bold: true,
                x: left as i64,
                y: third as i64,
            },
        ] + (if rec.location is Some {
            seq![
                DrawOp::Text {
                    record: index as usize,
                    line: LineKind::Location,
                    size_pt: 10,
                    bold: false,
                    x: left as i64,
                    y: fourth as i64,
                },
            ]
        } else {
            Seq::empty()
        }) + seq![
            DrawOp::Symbol {
                record: index as usize,
                x: (self.cell_x(col) + self.cell_width() - self.qr_size() - self.padding()) as i64,
                y: (self.cell_y(row) + self.padding()) as i64,
                size: self.qr_size() as i64,
            },
        ]
    }

    /// The content of the first `k` records of the page that starts at record
    /// `start`.
    pub open spec fn content_ops(self, records: Seq<LabelRecord>, start: int, k: nat) -> Seq<DrawOp>
        decreases k,
    {
        if k == 0 {
            Seq::empty()
        } else {
            self.content_ops(records, start, (k - 1) as nat) + self.record_ops(
                records[start + k - 1],
                k - 1,
                start + k - 1,
            )
        }
    }

    /// Every operation of the page that shows records `start..end`: the
    /// border of every cell of the grid, then the content of each record.
    pub open spec fn page_ops(self, records: Seq<LabelRecord>, start: int, end: int) -> Seq<DrawOp> {
        self.border_ops(self.cells() as nat) + self.content_ops(
            records,
            start,
            (end - start) as nat,
        )
    }

    /// A grid of `columns` by `rows` cells on a page of the given sides.
    /// Refuses a grid dimension outside the supported range, and a page side
    /// that is zero or beyond the supported maximum.
    pub fn new(page_width: u32, page_height: u32, columns: i32, rows: i32) -> (outcome: Result<
        GridSpec,
        LabelError,
    >)
        ensures
            outcome == if grid_valid(columns as int, rows as int) && 1 <= page_width
                <= MAX_PAGE_TENTHS && 1 <= page_height <= MAX_PAGE_TENTHS {
                Ok::<GridSpec, LabelError>(
                    (GridSpec { page_width, page_height, columns: columns as u32, rows: rows as u32 }),
                )
            } else {
                Err::<GridSpec, LabelError>(LabelError::InvalidGrid)
            },
            outcome is Ok ==> outcome->Ok_0.wf(),
    {
        if columns < 1 || rows < 1 || columns > 10 || rows > 10 {
            return Err(LabelError::InvalidGrid);
        }
        if page_width < 1 || page_width > MAX_PAGE_TENTHS || page_height < 1 || page_height
            > MAX_PAGE_TENTHS {
            return Err(LabelError::InvalidGrid);
        }
        Ok(GridSpec { page_width, page_height, columns: columns as u32, rows: rows as u32 })
    }

    /// Grid units per millimetre.
    pub fn scale(&self) -> (units: u32)
        requires
            self.wf(),
        ensures
            units == self.units_per_mm(),
            10 <= units <= 1000,
    {
        assert(1 <= self.columns * self.rows <= 100) by (nonlinear_arith)
            requires
                1 <= self.columns <= 10,
                1 <= self.rows <= 10,
        ;
        10 * (self.columns * self.rows)
    }

    /// The lengths that every cell shares.
    fn measures(&self) -> (m: Measures)
        requires
            self.wf(),
        ensures
            m.cells == self.cells(),
            m.cell_width == self.cell_width(),
            m.cell_height == self.cell_height(),
            m.padding == self.padding(),
            m.border == self.tenths(3),
            m.name_pitch == self.tenths(60),
            m.line_pitch == self.tenths(50),
            m.qr_size == self.qr_size(),
            1 <= m.cells <= 100,
            1 <= m.cell_width <= 1_000_000,
            1 <= m.cell_height <= 1_000_000,
            -10_000 <= m.qr_size <= 1_000_000,
    {
        assert(1 <= self.columns * self.rows <= 100) by (nonlinear_arith)
            requires
                1 <= self.columns <= 10,
                1 <= self.rows <= 10,
        ;
        let cells: i64 = (self.columns as i64) * (self.rows as i64);
        assert(1 <= self.page_width * self.rows <= 1_000_000) by (nonlinear_arith)
            requires
                1 <= self.page_width <= 100_000,
                1 <= self.rows <= 10,
        ;
        assert(1 <= self.page_height * self.columns <= 1_000_000) by (nonlinear_arith)
            requires
                1 <= self.page_height <= 100_000,
                1 <= self.columns <= 10,
        ;
        let cell_width: i64 = (self.page_width as i64) * (self.rows as i64);
        let cell_height: i64 = (self.page_height as i64) * (self.columns as i64);
        Measures {
            cells,
            cell_width,
            cell_height,
            padding: 50 * cells,
            border: 3 * cells,
            name_pitch: 60 * cells,
            line_pitch: 50 * cells,
            qr_size: cell_height - 2 * (50 * cells),
        }
    }
}

/// On a document page the symbol's square fills the height of its cell's
/// content area and ends one padding short of the cell's right edge.
pub proof fn lemma_symbol_square_in_cell(grid: GridSpec, row: int, col: int)
    requires
        grid.wf(),
        0 <= row < grid.rows,
        0 <= col < grid.columns,
    ensures
        (grid.cell_x(col) + grid.cell_width() - grid.qr_size() - grid.padding()) + grid.qr_size()
            == grid.cell_x(col) + grid.cell_width() - grid.padding(),
        (grid.cell_y(row) + grid.padding()) + grid.qr_size() == grid.cell_y(row)
            + grid.cell_height() - grid.padding(),
        0 <= grid.cell_x(col) && grid.cell_x(col) + grid.cell_width() <= grid.page_width
            * grid.cells(),
        0 <= grid.cell_y(row) && grid.cell_y(row) + grid.cell_height() <= grid.page_height
            * grid.cells(),
{
    let w = grid.page_width as int;
    let h = grid.page_height as int;
    let c = grid.columns as int;
    let r = grid.rows as int;
    assert(0 <= (w * r) * col && (w * r) * col + w * r <= w * (c * r)) by (nonlinear_arith)
        requires
            w >= 1,
            r >= 1,
            0 <= col < c,
    ;
    assert(0 <= (h * c) * (r - row - 1) && (h * c) * (r - row - 1) + h * c <= h * (c * r))
        by (nonlinear_arith)
        requires
            h >= 1,
            c >= 1,
            0 <= row < r,
    ;
}

/// Row 0 is the top row of a document page although `y` grows upward: its
/// cells end at the page's top edge, each further row lies directly below
/// the one before it, and the last row stands on the page's bottom edge.
pub proof fn lemma_rows_run_downward(grid: GridSpec, row: int)
    requires
        grid.wf(),
        0 <= row < grid.rows,
    ensures
        grid.cell_y(0) + grid.cell_height() == grid.page_height * grid.cells(),
        grid.cell_y(grid.rows - 1) == 0,
        row + 1 < grid.rows ==> grid.cell_y(row + 1) + grid.cell_height() == grid.cell_y(row),
{
    let h = grid.page_height as int;
    let c = grid.columns as int;
    let r = grid.rows as int;
    assert((h * c) * (r - 0 - 1) + h * c == h * (c * r)) by (nonlinear_arith);
    assert((h * c) * (r - (r - 1) - 1) == 0) by (nonlinear_arith);
    assert((h * c) * (r - (row + 1) - 1) + h * c == (h * c) * (r - row - 1))
        by (nonlinear_arith);
}

struct Measures {
    cells: i64,
    cell_width: i64,
    cell_height: i64,
    padding: i64,
    border: i64,
    name_pitch: i64,
    line_pitch: i64,
    qr_size: i64,
}

/// One page of a document: its drawing operations, and the bitmap of the
/// symbol of each record it shows, in the records' order.
#[derive(Debug)]
pub struct VectorPage {
    pub ops: Vec<DrawOp>,
    pub symbols: Vec<QrBitmap>,
}

impl VectorPage {
    /// Whether this page shows records `start..end` on `grid`.
    pub open spec fn shows(&self, grid: GridSpec, records: Seq<LabelRecord>, start: int, end: int) -> bool {
        &&& self.ops@ == grid.page_ops(records, start, end)
        &&& self.symbols@.len() == end - start
        &&& forall|k: int|
            0 <= k < end - start ==> symbol_rendered(
                (#[trigger] records[start + k]).symbol()->Some_0,
                QR_BITMAP_PX as int,
                &self.symbols@[k],
            )
    }
}

/// Whether every record of `start..end` has a symbol.
pub open spec fn all_encodable(records: Seq<LabelRecord>, start: int, end: int) -> bool {
    forall|i: int| start <= i < end ==> (#[trigger] records[i]).encodable()
}

/// Composes the document page that shows records `start..end`: a border for
/// every cell of the grid, occupied or not, then each record's text lines and
/// symbol. One record whose symbol cannot be built fails the whole page with
/// `QrEncoding`.
pub fn compose_vector_page(
    grid: &GridSpec,
    records: &Vec<LabelRecord>,
    start: usize,
    end: usize,
) -> (outcome: Result<VectorPage, LabelError>)
    requires
        grid.wf(),
        start <= end <= records@.len(),
        end - start <= grid.cells(),
    ensures
        all_encodable(records@, start as int, end as int) ==> outcome is Ok && outcome->Ok_0.shows(
            *grid,
            records@,
            start as int,
            end as int,
        ),
        !all_encodable(records@, start as int, end as int) ==> outcome == Err::<
            VectorPage,
            LabelError,
        >(LabelError::QrEncoding),
{
    let m = grid.measures();
    let columns: i64 = grid.columns as i64;
    let rows: i64 = grid.rows as i64;
    let mut ops: Vec<DrawOp> = Vec::new();
    let mut symbols: Vec<QrBitmap> = Vec::new();
    let mut c: i64 = 0;
    while c < m.cells
        invariant
            grid.wf(),
            columns == grid.columns,
            rows == grid.rows,
            m.cells == grid.cells(),
            m.cell_width == grid.cell_width(),
            m.cell_height == grid.cell_height(),
            m.border == grid.tenths(3),
            1 <= m.cells <= 100,
            1 <= m.cell_width <= 1_000_000,
            1 <= m.cell_height <= 1_000_000,
            0 <= c <= m.cells,
            ops@ == grid.border_ops(c as nat),
        decreases m.cells - c,
    {
        proof {
            crate::qr::lemma_flat_index_split(c as int, columns as int, rows as int);
        }
        let col: i64 = c % columns;
        let row: i64 = c / columns;
        let x: i64 = times(m.cell_width, col);
        let y: i64 = times(m.cell_height, rows - row - 1);
        ops.push(
            DrawOp::Border {
                x,
                y,
                width: m.cell_width,
                height: m.cell_height,
                thickness: m.border,
            },
        );
        c = c + 1;
    }
    let ghost borders = ops@;
    let count: usize = end - start;
    let mut k: usize = 0;
    while k < count
        invariant
            grid.wf(),
            columns == grid.columns,
            rows == grid.rows,
            m.cells == grid.cells(),
            m.cell_width == grid.cell_width(),
            m.cell_height == grid.cell_height(),
            m.padding == grid.padding(),
            m.name_pitch == grid.tenths(60),
            m.line_pitch == grid.tenths(50),
            m.qr_size == grid.qr_size(),
            1 <= m.cells <= 100,
            1 <= m.cell_width <= 1_000_000,
            1 <= m.cell_height <= 1_000_000,
            -10_000 <= m.qr_size <= 1_000_000,
            start <= end <= records@.len(),
            count == end - start,
            count <= m.cells,
            k <= count,
            borders == grid.border_ops(grid.cells() as nat),
            ops@ == borders + grid.content_ops(records@, start as int, k as nat),
            all_encodable(records@, start as int, start + k),
            symbols@.len() == k,
            forall|j: int|
                0 <= j < k ==> symbol_rendered(
                    (#[trigger] records@[start + j]).symbol()->Some_0,
                    QR_BITMAP_PX as int,
                    &symbols@[j],
                ),
        decreases count - k,
    {
        let index: usize = start + k;
        let record = &records[index];
        proof {
            crate::qr::lemma_flat_index_split(k as int, columns as int, rows as int);
        }
        let slot: i64 = k as i64;
        let col: i64 = slot % columns;
        let row: i64 = slot / columns;
        let cell_x: i64 = times(m.cell_width, col);
        let cell_y: i64 = times(m.cell_height, rows - row - 1);
        let left: i64 = cell_x + m.padding;
        let top: i64 = cell_y + m.cell_height - m.padding;
        let second: i64 = top - m.name_pitch;
        let third: i64 = if record.specifications.is_some() {
            second - m.line_pitch
        } else {
            second
        };
        let fourth: i64 = third - m.line_pitch;
        let ghost before = ops@;
        ops.push(
            DrawOp::Text { record: index, line: LineKind::Name, size_pt: 14, bold: true, x: left, y: top },
        );
        if record.specifications.is_some() {
            ops.push(
                DrawOp::Text {
                    record: index,
                    line: LineKind::Specification,
                    size_pt: 10,
                    bold: false,
                    x: left,
                    y: second,
                },
            );
        }
        ops.push(
            DrawOp::Text {
                record: index,
                line: LineKind::Quantity,
                size_pt: 11,
                bold: true,
                x: left,
                y: third,
            },
        );
        if record.location.is_some() {
            ops.push(
                DrawOp::Text {
                    record: index,
                    line: LineKind::Location,
                    size_pt: 10,
                    bold: false,
                    x: left,
                    y: fourth,
                },
            );
        }
        ops.push(
            DrawOp::Symbol {
                record: index,
                x: cell_x + m.cell_width - m.qr_size - m.padding,
                y: cell_y + m.padding,
                size: m.qr_size,
            },
        );
        proof {
            assert(ops@ =~= before + grid.record_ops(records@[index as int], k as int, index as int));
            assert(ops@ =~= borders + grid.content_ops(records@, start as int, (k + 1) as nat));
        }
        let payload = crate::qr::qr_payload(record.id, &record.qr_id);
        let matrix = match QrMatrix::encode(payload.as_str()) {
            Ok(mx) => mx,
            Err(_) => {
                assert(!records@[index as int].encodable());
                return Err(LabelError::QrEncoding);
            },
        };
        let bitmap = matrix.render(QR_BITMAP_PX);
        symbols.push(bitmap);
        k = k + 1;
    }
    Ok(VectorPage { ops, symbols })
}

fn times(a: i64, b: i64) -> (p: i64)
    requires
        0 <= a <= 1_000_000,
        0 <= b <= 100,
    ensures
        p == a * b,
        0 <= p <= 100_000_000,
{
    assert(0 <= a * b <= 100_000_000) by (nonlinear_arith)
        requires
            0 <= a <= 1_000_000,
            0 <= b <= 100,
    ;
    a * b
}

/// The pages of a document: one per planned page, each showing its range of
/// the records.
pub open spec fn pages_show(
    pages: Seq<VectorPage>,
    grid: GridSpec,
    layout: LayoutPlan,
    records: Seq<LabelRecord>,
) -> bool {
    &&& pages.len() == layout.total_pages
    &&& forall|p: int|
        0 <= p < pages.len() ==> (#[trigger] pages[p]).shows(
            grid,
            records,
            layout.spec_page_start(p),
            layout.spec_page_end(p),
        )
}

/// The pages of a document, with the grid they are laid out on.
#[derive(Debug)]
pub struct VectorDocument {
    pub grid: GridSpec,
    pub layout: LayoutPlan,
    pub pages: Vec<VectorPage>,
}

/// Whether `outcome` is what composing a document gives for a batch.
///
/// A bad grid is refused first, then an empty batch; a record whose symbol
/// cannot be built fails the whole document. Otherwise there is one page for
/// each `cells_per_page` records, the last one possibly partly filled.
pub open spec fn document_outcome(
    records: Seq<LabelRecord>,
    paper: Seq<char>,
    columns: int,
    rows: int,
    outcome: Result<VectorDocument, LabelError>,
) -> bool {
    if !grid_valid(columns, rows) {
        outcome == Err::<VectorDocument, LabelError>(LabelError::InvalidGrid)
    } else if records.len() == 0 {
        outcome == Err::<VectorDocument, LabelError>(LabelError::EmptyBatch)
    } else if !all_encodable(records, 0, records.len() as int) {
        outcome == Err::<VectorDocument, LabelError>(LabelError::QrEncoding)
    } else {
        &&& outcome is Ok
        &&& outcome->Ok_0.grid == (GridSpec {
            page_width: paper_sides(paper).0,
            page_height: paper_sides(paper).1,
            columns: columns as u32,
            rows: rows as u32,
        })
        &&& outcome->Ok_0.layout.wf()
        &&& outcome->Ok_0.layout.record_count == records.len()
        &&& outcome->Ok_0.layout.columns == columns
        &&& outcome->Ok_0.layout.rows == rows
        &&& pages_show(outcome->Ok_0.pages@, outcome->Ok_0.grid, outcome->Ok_0.layout, records)
    }
}

/// Composes every page of the document for a batch on the named paper.
pub fn compose_document(records: &Vec<LabelRecord>, paper: &str, columns: i32, rows: i32) -> (outcome:
    Result<VectorDocument, LabelError>)
    ensures
        document_outcome(records@, paper@, columns as int, rows as int, outcome),
{
    let layout = match plan(records.len(), columns, rows) {
        Ok(p) => p,
        Err(e) => {
            return Err(e);
        },
    };
    let sides = paper_size(paper);
    let grid = match GridSpec::new(sides.0, sides.1, columns, rows) {
        Ok(g) => g,
        Err(e) => {
            return Err(e);
        },
    };
    proof {
        layout.lemma_cells_bounds();
        crate::layout::lemma_pages_needed_is_ceiling(
            layout.record_count as int,
            layout.cells_per_page as int,
        );
    }
    let mut pages: Vec<VectorPage> = Vec::new();
    let mut p: usize = 0;
    while p < layout.total_pages
        invariant
            layout.wf(),
            grid.wf(),
            grid_valid(columns as int, rows as int),
            grid == (GridSpec {
                page_width: paper_sides(paper@).0,
                page_height: paper_sides(paper@).1,
                columns: columns as u32,
                rows: rows as u32,
            }),
            layout.columns == columns,
            layout.rows == rows,
            grid.cells() == layout.cells_per_page,
            layout.record_count == records@.len(),
            p <= layout.total_pages,
            pages@.len() == p,
            forall|q: int|
                0 <= q < p ==> (#[trigger] pages@[q]).shows(
                    grid,
                    records@,
                    layout.spec_page_start(q),
                    layout.spec_page_end(q),
                ),
            all_encodable(
                records@,
                0,
                if p < layout.total_pages {
                    layout.spec_page_start(p as int)
                } else {
                    records@.len() as int
                },
            ),
        decreases layout.total_pages - p,
    {
        let range = layout.page_range(p);
        proof {
            layout.lemma_page_ranges_chain(p as int);
        }
        let page = match compose_vector_page(&grid, records, range.0, range.1) {
            Ok(pg) => pg,
            Err(e) => {
                proof {
                    let i = choose|i: int|
                        range.0 <= i < range.1 && !(#[trigger] records@[i]).encodable();
                    assert(!records@[i].encodable());
                }
                return Err(e);
            },
        };
        pages.push(page);
        p = p + 1;
    }
    Ok(VectorDocument { grid, layout, pages })
}

} // verus!
