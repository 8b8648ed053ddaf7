use vstd::prelude::*;
use crate::canvas::{Canvas, InkSpot, Raster};
use crate::encode::{data_uri, data_uri_outcome, MediaType};
use crate::error::LabelError;
use crate::layout::{grid_valid, plan};
use crate::models::QRCodeResult;
use crate::qr::QrMatrix;
use crate::record::LabelRecord;

verus! {

/// Width of one label cell on the raster page, in pixels.
pub const CELL_WIDTH_PX: u32 = 1600;

/// Height of one label cell on the raster page, in pixels.
pub const CELL_HEIGHT_PX: u32 = 1200;

/// Space kept free between a cell's edge and its content, in pixels.
pub const CELL_PADDING_PX: u32 = 80;

/// Side of the square kept for a label's symbol, in pixels.
pub const QR_SIZE_PX: u32 = 720;

/// Thickness of a cell's border, in pixels.
pub const BORDER_PX: u32 = 3;

/// Distance from the top of a cell's content to the top of its name, in
/// pixels.
pub const NAME_DROP_PX: u32 = 80;

/// Nominal size of the name's type, in pixels.
pub const NAME_SIZE_PX: u32 = 96;

/// Left edge of the cells of column `col`.
pub open spec fn cell_left(col: int) -> int {
    col * CELL_WIDTH_PX
}

/// Top edge of the cells of row `row`; row 0 is at the top of the image.
pub open spec fn cell_top(row: int) -> int {
    row * CELL_HEIGHT_PX
}

/// Left edge of the symbol in a cell of column `col`: the symbol ends one
/// padding short of the cell's right edge.
pub open spec fn qr_left(col: int) -> int {
    cell_left(col) + CELL_WIDTH_PX - QR_SIZE_PX - CELL_PADDING_PX
}

/// Top edge of the symbol in a cell of row `row`: the symbol is centred
/// vertically.
pub open spec fn qr_top(row: int) -> int {
    cell_top(row) + (CELL_HEIGHT_PX - QR_SIZE_PX) / 2
}

/// The page with the borders of its first `k` cells drawn, cells counted row
/// by row.
pub open spec fn bordered(page: Raster, columns: int, k: nat) -> Raster
    decreases k,
{
    if k == 0 {
        page
    } else {
        let c = k - 1;
        bordered(page, columns, c as nat).with_border(
            cell_left(c % columns),
            cell_top(c / columns),
            CELL_WIDTH_PX as int,
            CELL_HEIGHT_PX as int,
            BORDER_PX as int,
            0u8,
        )
    }
}

/// The ink of record `i`, or none where the caller supplied none for it.
pub open spec fn ink_for(ink: Seq<Vec<InkSpot>>, i: int) -> Seq<InkSpot> {
    if 0 <= i < ink.len() {
        ink[i]@
    } else {
        Seq::empty()
    }
}

/// The page with the content of its first `k` records drawn: for each, its ink
/// and then its symbol.
pub open spec fn labelled(
    page: Raster,
    records: Seq<LabelRecord>,
    ink: Seq<Vec<InkSpot>>,
    columns: int,
    k: nat,
) -> Raster
    decreases k,
{
    if k == 0 {
        page
    } else {
        let i = k - 1;
        let symbol = records[i].symbol()->Some_0;
        labelled(page, records, ink, columns, i as nat).with_ink(ink_for(ink, i)).with_symbol(
            symbol.1,
            symbol.0 as int,
            qr_left(i % columns),
            qr_top(i / columns),
            QR_SIZE_PX as int,
        )
    }
}

/// Number of records that the single raster page shows.
pub open spec fn shown_count(records: int, columns: int, rows: int) -> int {
    if records <= columns * rows {
        records
    } else {
        columns * rows
    }
}

/// The raster page for a batch, or the reason why there is none.
///
/// A bad grid is refused first, then an empty batch; a record on the page
/// whose symbol cannot be built fails the whole page. Otherwise the page is
/// white, every cell of the grid is bordered, and each record shown has its
/// ink and its symbol in its cell.
pub open spec fn image_page(
    records: Seq<LabelRecord>,
    columns: int,
    rows: int,
    ink: Seq<Vec<InkSpot>>,
) -> Result<Raster, LabelError> {
    if !grid_valid(columns, rows) {
        Err(LabelError::InvalidGrid)
    } else if records.len() == 0 {
        Err(LabelError::EmptyBatch)
    } else if exists|i: int|
        0 <= i < shown_count(records.len() as int, columns, rows) && !(#[trigger] records[i]).encodable() {
        Err(LabelError::QrEncoding)
    } else {
        Ok(
            labelled(
                bordered(
                    Raster::uniform(
                        (columns * CELL_WIDTH_PX) as nat,
                        (rows * CELL_HEIGHT_PX) as nat,
                        255u8,
                    ),
                    columns,
                    (columns * rows) as nat,
                ),
                records,
                ink,
                columns,
                shown_count(records.len() as int, columns, rows) as nat,
            ),
        )
    }
}

/// Whether `outcome` is the canvas of `page`, or its error.
pub open spec fn shows(page: Result<Raster, LabelError>, outcome: Result<Canvas, LabelError>) -> bool {
    match page {
        Ok(r) => outcome is Ok && outcome->Ok_0@ == r,
        Err(e) => outcome == Err::<Canvas, LabelError>(e),
    }
}

/// Where the name of the record in column `col` of row `row` starts: the
/// top-left corner that its rasterized run is placed at.
pub fn name_origin(row: u32, col: u32) -> (origin: (u32, u32))
    requires
        row < 10,
        col < 10,
    ensures
        origin.0 == cell_left(col as int) + CELL_PADDING_PX,
        origin.1 == cell_top(row as int) + CELL_PADDING_PX + NAME_DROP_PX,
{
    (col * CELL_WIDTH_PX + CELL_PADDING_PX, row * CELL_HEIGHT_PX + CELL_PADDING_PX + NAME_DROP_PX)
}

/// Composes the single raster page of a batch: a white image of `columns` by
/// `rows` cells, a border round every cell, and for each record shown its ink
/// (the rasterized name, one run per record) and its symbol.
pub fn compose_image_page(
    records: &Vec<LabelRecord>,
    columns: i32,
    rows: i32,
    ink: &Vec<Vec<InkSpot>>,
) -> (outcome: Result<Canvas, LabelError>)
    ensures
        shows(image_page(records@, columns as int, rows as int, ink@), outcome),
{
    let layout = match plan(records.len(), columns, rows) {
        Ok(p) => p,
        Err(e) => {
            return Err(e);
        },
    };
    let cols: u32 = columns as u32;
    let rws: u32 = rows as u32;
    proof {
        layout.lemma_cells_bounds();
        assert(3 * (cols * CELL_WIDTH_PX) * (rws * CELL_HEIGHT_PX) <= 576_000_000)
            by (nonlinear_arith)
            requires
                1 <= cols <= 10,
                1 <= rws <= 10,
        ;
    }
    let cells: u32 = layout.cells_per_page as u32;
    let mut canvas = Canvas::white(cols * CELL_WIDTH_PX, rws * CELL_HEIGHT_PX);
    let ghost blank = canvas@;
    let mut c: u32 = 0;
    while c < cells
        invariant
            1 <= cols <= 10,
            1 <= rws <= 10,
            cells == cols * rws,
            cells <= 100,
            c <= cells,
            blank.wf(),
            canvas@.wf(),
            canvas@ == bordered(blank, cols as int, c as nat),
        decreases cells - c,
    {
        proof {
            crate::qr::lemma_flat_index_split(c as int, cols as int, rws as int);
        }
        let col: u32 = c % cols;
        let row: u32 = c / cols;
        canvas.draw_rect(
            col * CELL_WIDTH_PX,
            row * CELL_HEIGHT_PX,
            CELL_WIDTH_PX,
            CELL_HEIGHT_PX,
            0,
            BORDER_PX,
        );
        c = c + 1;
    }
    let ghost framed = canvas@;
    let shown: usize = if records.len() <= cells as usize {
        records.len()
    } else {
        cells as usize
    };
    let mut i: usize = 0;
    while i < shown
        invariant
            1 <= cols <= 10,
            1 <= rws <= 10,
            cells == cols * rws,
            cells <= 100,
            columns == cols,
            rows == rws,
            shown == shown_count(records@.len() as int, cols as int, rws as int),
            shown <= records@.len(),
            i <= shown,
            framed.wf(),
            canvas@.wf(),
            canvas@ == labelled(framed, records@, ink@, cols as int, i as nat),
            forall|j: int| 0 <= j < i ==> (#[trigger] records@[j]).encodable(),
        decreases shown - i,
    {
        proof {
            crate::qr::lemma_flat_index_split(i as int, cols as int, rws as int);
        }
        let col: u32 = (i as u32) % cols;
        let row: u32 = (i as u32) / cols;
        let record = &records[i];
        if i < ink.len() {
            canvas.paint_ink(&ink[i]);
        } else {
            assert(canvas@.with_ink(Seq::empty()) == canvas@);
        }
        let payload = crate::qr::qr_payload(record.id, &record.qr_id);
        let matrix = match QrMatrix::encode(payload.as_str()) {
            Ok(m) => m,
            Err(_) => {
                assert(!records@[i as int].encodable());
                return Err(LabelError::QrEncoding);
            },
        };
        canvas.draw_qr_code(
            &matrix,
            col * CELL_WIDTH_PX + CELL_WIDTH_PX - QR_SIZE_PX - CELL_PADDING_PX,
            row * CELL_HEIGHT_PX + (CELL_HEIGHT_PX - QR_SIZE_PX) / 2,
            QR_SIZE_PX,
        );
        i = i + 1;
    }
    Ok(canvas)
}

/// What rendering a page and wrapping it for transport returns.
pub open spec fn image_labels_outcome(
    page: Result<Raster, LabelError>,
    outcome: Result<String, LabelError>,
) -> bool {
    match page {
        Ok(r) => match crate::canvas::png_encoding(r.width, r.height, r.pixels) {
            Some(bytes) => data_uri_outcome(MediaType::Png, bytes, outcome),
            None => outcome == Err::<String, LabelError>(LabelError::Encoding),
        },
        Err(e) => outcome == Err::<String, LabelError>(e),
    }
}

/// Renders a batch as one raster page and wraps its PNG stream as a data URI.
pub fn generate_image_labels(
    records: &Vec<LabelRecord>,
    columns: i32,
    rows: i32,
    ink: &Vec<Vec<InkSpot>>,
) -> (outcome: Result<String, LabelError>)
    ensures
        image_labels_outcome(image_page(records@, columns as int, rows as int, ink@), outcome),
{
    let canvas = match compose_image_page(records, columns, rows, ink) {
        Ok(c) => c,
        Err(e) => {
            return Err(e);
        },
    };
    match canvas.png() {
        Ok(bytes) => data_uri(MediaType::Png, &bytes),
        Err(e) => Err(e),
    }
}

/// The image of a symbol alone, one pixel per module.
pub open spec fn symbol_image(symbol: (nat, Seq<bool>)) -> Raster {
    Raster::uniform(symbol.0, symbol.0, 255u8).with_symbol(
        symbol.1,
        symbol.0 as int,
        0,
        0,
        symbol.0 as int,
    )
}

/// Draws a matrix alone, one pixel per module.
pub fn qr_image(matrix: &QrMatrix) -> (canvas: Canvas)
    requires
        matrix.wf(),
    ensures
        canvas@ == symbol_image((matrix.side as nat, matrix.modules@)),
{
    let side: u32 = matrix.side as u32;
    assert(3 * side * side <= 3 * 177 * 177) by (nonlinear_arith)
        requires
            1 <= side <= 177,
    ;
    let mut canvas = Canvas::white(side, side);
    canvas.draw_qr_code(matrix, 0, 0, side);
    canvas
}

/// The error that rendering the symbol of a payload as a PNG data URI ends
/// in, or `None` where it succeeds: the payload has no symbol of a supported
/// shape, the encoder fails, or the stream is too long to wrap.
pub open spec fn qr_uri_error(payload: Seq<char>) -> Option<LabelError> {
    let symbol = crate::qr::qr_symbol(payload);
    if !(symbol is Some && crate::qr::symbol_shape(symbol->Some_0.0, symbol->Some_0.1)) {
        Some(LabelError::QrEncoding)
    } else {
        let image = symbol_image(symbol->Some_0);
        match crate::canvas::png_encoding(image.width, image.height, image.pixels) {
            Some(bytes) => if bytes.len() <= crate::encode::MAX_ENCODABLE_LEN {
                None
            } else {
                Some(LabelError::Encoding)
            },
            None => Some(LabelError::Encoding),
        }
    }
}

/// The PNG data URI of the symbol of a payload, where rendering succeeds.
pub open spec fn qr_uri_text(payload: Seq<char>) -> Seq<char> {
    let image = symbol_image(crate::qr::qr_symbol(payload)->Some_0);
    crate::encode::data_uri_text(
        MediaType::Png,
        crate::canvas::png_encoding(image.width, image.height, image.pixels)->Some_0,
    )
}

/// What the symbol of a payload, as a PNG data URI, has to be.
pub open spec fn qr_uri_outcome(payload: Seq<char>, outcome: Result<String, LabelError>) -> bool {
    match qr_uri_error(payload) {
        Some(e) => outcome == Err::<String, LabelError>(e),
        None => outcome is Ok && outcome->Ok_0@ == qr_uri_text(payload),
    }
}

/// Renders the symbol of a location's code as a PNG data URI.
pub fn generate_location_qr(qr_code_id: &str) -> (outcome: Result<String, LabelError>)
    ensures
        qr_uri_outcome(qr_code_id@, outcome),
{
    let matrix = match QrMatrix::encode(qr_code_id) {
        Ok(m) => m,
        Err(e) => {
            return Err(e);
        },
    };
    let canvas = qr_image(&matrix);
    match canvas.png() {
        Ok(bytes) => data_uri(MediaType::Png, &bytes),
        Err(e) => Err(e),
    }
}

/// A location as a batch of symbols needs it.
#[derive(Debug)]
pub struct LocationCode {
    pub id: i32,
    pub name: String,
    pub qr_code_id: String,
}

/// Whether `results` holds, in order, the symbols of the first `k` locations,
/// none of which failed.
pub open spec fn batch_rendered(
    locations: Seq<LocationCode>,
    results: Seq<QRCodeResult>,
    k: int,
) -> bool {
    &&& results.len() == k
    &&& forall|i: int|
        0 <= i < k ==> {
            &&& qr_uri_error((#[trigger] locations[i]).qr_code_id@) is None
            &&& results[i].id == locations[i].id
            &&& results[i].name@ == locations[i].name@
            &&& results[i].qr_data@ == qr_uri_text(locations[i].qr_code_id@)
        }
}

/// Whether location `i` is the first whose symbol fails, and fails with `e`.
pub open spec fn first_failure(locations: Seq<LocationCode>, i: int, e: LabelError) -> bool {
    &&& 0 <= i < locations.len()
    &&& qr_uri_error(locations[i].qr_code_id@) == Some(e)
    &&& forall|j: int| 0 <= j < i ==> qr_uri_error((#[trigger] locations[j]).qr_code_id@) is None
}

/// Renders the symbol of every location of a batch, in order. The first
/// location whose symbol cannot be produced fails the batch with its error.
pub fn generate_batch_qr(locations: &Vec<LocationCode>) -> (outcome: Result<
    Vec<QRCodeResult>,
    LabelError,
>)
    ensures
        outcome is Ok ==> batch_rendered(locations@, outcome->Ok_0@, locations@.len() as int),
        outcome is Err ==> exists|i: int| #[trigger] first_failure(locations@, i, outcome->Err_0),
{
    let mut results: Vec<QRCodeResult> = Vec::new();
    let mut i: usize = 0;
    while i < locations.len()
        invariant
            i <= locations@.len(),
            batch_rendered(locations@, results@, i as int),
        decreases locations@.len() - i,
    {
        let location = &locations[i];
        let qr_data = match generate_location_qr(location.qr_code_id.as_str()) {
            Ok(uri) => uri,
            Err(e) => {
                let failed: Result<Vec<QRCodeResult>, LabelError> = Err(e);
                assert(first_failure(locations@, i as int, failed->Err_0));
                return failed;
            },
        };
        results.push(QRCodeResult { id: location.id, qr_data, name: location.name.clone() });
        i = i + 1;
    }
    Ok(results)
}

/// Row 0 is the top row of the raster page, where `y` grows downward: its
/// cells start at the image's top edge, and each further row lies directly
/// below the one before it.
pub proof fn lemma_rows_run_downward(row: int)
    requires
        0 <= row,
    ensures
        cell_top(0) == 0,
        cell_top(row + 1) == cell_top(row) + CELL_HEIGHT_PX,
{
}

/// On the raster page the symbol's square lies inside its cell's content
/// area, in the right-hand column reserved for it, flush with the column's
/// right edge and centred between top and bottom; and what is drawn of a
/// symbol of `side` modules stays inside that square.
pub proof fn lemma_symbol_square_placed(row: int, col: int, side: int)
    requires
        0 <= row,
        0 <= col,
        side >= 1,
    ensures
        qr_left(col) >= cell_left(col) + CELL_WIDTH_PX - CELL_PADDING_PX - (CELL_HEIGHT_PX - 2
            * CELL_PADDING_PX),
        qr_left(col) >= cell_left(col) + CELL_PADDING_PX,
        qr_left(col) + QR_SIZE_PX == cell_left(col) + CELL_WIDTH_PX - CELL_PADDING_PX,
        qr_top(row) - (cell_top(row) + CELL_PADDING_PX) == (cell_top(row) + CELL_HEIGHT_PX
            - CELL_PADDING_PX) - (qr_top(row) + QR_SIZE_PX),
        qr_top(row) >= cell_top(row) + CELL_PADDING_PX,
        0 <= crate::qr::block_size(QR_SIZE_PX as int, side) * side <= QR_SIZE_PX,
{
    crate::qr::lemma_block_fits(QR_SIZE_PX as int, side);
    let b = crate::qr::block_size(QR_SIZE_PX as int, side);
    assert(0 <= b * side) by (nonlinear_arith)
        requires
            b >= 0,
            side >= 1,
    ;
}

} // verus!
