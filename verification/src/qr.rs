use vstd::prelude::*;
use crate::error::LabelError;

verus! {

/// Side of the largest symbol, in modules.
pub const MAX_QR_SIDE: usize = 177;

#[verifier::external_type_specification]
#[verifier::external_body]
pub struct ExQrError(qrcode::types::QrError);

/// The symbol that `qrcode::QrCode::new` builds for a payload: the number of
/// modules per side and the modules row by row, `true` for dark; `None` where
/// it reports an error.
pub uninterp spec fn qr_symbol(payload: Seq<char>) -> Option<(nat, Seq<bool>)>;

/// Calls `qrcode::QrCode::new` on the payload's bytes, at the crate's default
/// error-correction level. On success hands out the symbol's width and its
/// modules in the crate's own order (row by row), each colour turned into a
/// `bool`. The contract only names that result.
#[verifier::external_body]
fn symbol_for(payload: &str) -> (out: Result<(usize, Vec<bool>), qrcode::types::QrError>)
    ensures
        out is Ok <==> qr_symbol(payload@) is Some,
        out is Ok ==> qr_symbol(payload@) == Some((out->Ok_0.0 as nat, out->Ok_0.1@)),
{
    match qrcode::QrCode::new(payload) {
        Ok(code) => {
            let side = code.width();
            let modules = code.into_colors().into_iter().map(|c| match c {
                qrcode::Color::Dark => true,
                qrcode::Color::Light => false,
            }).collect();
            Ok((side, modules))
        },
        Err(e) => Err(e),
    }
}

/// A square grid of dark and light modules, stored row by row.
#[derive(Debug)]
pub struct QrMatrix {
    pub side: usize,
    pub modules: Vec<bool>,
}

/// A square of `side` by `side` modules of a supported size.
pub open spec fn symbol_shape(side: nat, modules: Seq<bool>) -> bool {
    1 <= side <= MAX_QR_SIDE && modules.len() == side * side
}

/// The grey level that a module is painted with: black for dark, white for
/// light.
pub open spec fn shade_of(dark: bool) -> u8 {
    if dark {
        0u8
    } else {
        255u8
    }
}

/// Side of the block that one module becomes when a symbol of `side` modules
/// is fitted into `target` units: the quotient rounded down.
pub open spec fn block_size(target: int, side: int) -> int
    recommends
        side > 0,
{
    target / side
}

/// `bitmap` shows the symbol fitted into `target` pixels: every module a
/// square block of `block_size` pixels, nothing interpolated and nothing cut,
/// the remainder of the target left out.
pub open spec fn symbol_rendered(symbol: (nat, Seq<bool>), target: int, bitmap: &QrBitmap) -> bool {
    let side = symbol.0 as int;
    let scale = block_size(target, side);
    &&& bitmap.extent == scale * side
    &&& bitmap.pixels@.len() == bitmap.extent * bitmap.extent
    &&& forall|x: int, y: int|
        0 <= x < bitmap.extent && 0 <= y < bitmap.extent ==> #[trigger] bitmap.pixel_at(x, y)
            == shade_of(symbol.1[(y / scale) * side + x / scale])
}

/// What a matrix must be to count as built from `symbol`.
pub open spec fn matrix_from(symbol: Option<(nat, Seq<bool>)>, outcome: Result<QrMatrix, LabelError>) -> bool {
    match symbol {
        Some((side, modules)) => if symbol_shape(side, modules) {
            &&& outcome is Ok
            &&& outcome->Ok_0.side == side
            &&& outcome->Ok_0.modules@ == modules
        } else {
            outcome == Err::<QrMatrix, LabelError>(LabelError::QrEncoding)
        },
        None => outcome == Err::<QrMatrix, LabelError>(LabelError::QrEncoding),
    }
}

/// A symbol rendered as grey levels: a square of `extent` pixels a side,
/// stored row by row.
#[derive(Debug)]
pub struct QrBitmap {
    pub extent: usize,
    pub pixels: Vec<u8>,
}

impl QrBitmap {
    /// The grey level at column `x` of row `y`.
    pub open spec fn pixel_at(&self, x: int, y: int) -> u8 {
        self.pixels@[y * self.extent + x]
    }
}

impl QrMatrix {
    /// The grid is square, of a supported size, and fully populated.
    pub open spec fn wf(&self) -> bool {
        symbol_shape(self.side as nat, self.modules@)
    }

    /// Whether the module at column `x` of row `y` is dark.
    pub open spec fn dark_at(&self, x: int, y: int) -> bool {
        self.modules@[y * self.side + x]
    }

    /// `bitmap` shows this matrix fitted into `target` pixels.
    pub open spec fn rendered_as(&self, target: int, bitmap: &QrBitmap) -> bool {
        symbol_rendered((self.side as nat, self.modules@), target, bitmap)
    }

    /// Builds a matrix from a side length and row-major modules, refusing a
    /// grid that is empty, too large or not square.
    pub fn from_modules(side: usize, modules: Vec<bool>) -> (outcome: Result<QrMatrix, LabelError>)
        ensures
            matrix_from(Some((side as nat, modules@)), outcome),
            outcome is Ok ==> outcome->Ok_0.wf(),
    {
        if side < 1 || side > MAX_QR_SIDE {
            return Err(LabelError::QrEncoding);
        }
        assert(side * side <= 177 * 177) by (nonlinear_arith)
            requires
                1 <= side <= 177,
        ;
        if modules.len() != side * side {
            return Err(LabelError::QrEncoding);
        }
        Ok(QrMatrix { side, modules })
    }

    /// Encodes `payload` as a symbol. Fails with `QrEncoding` exactly when the
    /// generator reports an error or hands out a grid of an unsupported shape.
    pub fn encode(payload: &str) -> (outcome: Result<QrMatrix, LabelError>)
        ensures
            matrix_from(qr_symbol(payload@), outcome),
            outcome is Ok ==> outcome->Ok_0.wf(),
    {
        match symbol_for(payload) {
            Ok((side, modules)) => QrMatrix::from_modules(side, modules),
            Err(_) => Err(LabelError::QrEncoding),
        }
    }

    /// Number of modules per side.
    pub fn side(&self) -> (side: usize)
        ensures
            side == self.side,
    {
        self.side
    }

    /// Whether the module at column `x` of row `y` is dark.
    pub fn is_dark(&self, x: usize, y: usize) -> (dark: bool)
        requires
            self.wf(),
            x < self.side,
            y < self.side,
        ensures
            dark == self.dark_at(x as int, y as int),
    {
        proof {
            lemma_row_major_index(x as int, y as int, self.side as int, self.side as int);
            assert(0 <= y * self.side <= y * self.side + x);
            assert(self.side * self.side <= 177 * 177) by (nonlinear_arith)
                requires
                    1 <= self.side <= 177,
            ;
        }
        self.modules[y * self.side + x]
    }

    /// Side of the block that one module becomes in a square of `target`
    /// pixels. The blocks together never reach past the target, and less than
    /// one module's worth of it is left over.
    pub fn scale_for(&self, target: usize) -> (scale: usize)
        requires
            self.wf(),
        ensures
            scale == block_size(target as int, self.side as int),
            scale * self.side <= target,
            target - scale * self.side < self.side,
    {
        proof {
            lemma_block_fits(target as int, self.side as int);
        }
        target / self.side
    }

    /// Renders the matrix into a square of at most `target` pixels a side by
    /// repeating each module over a block of `scale_for(target)` pixels.
    pub fn render(&self, target: usize) -> (bitmap: QrBitmap)
        requires
            self.wf(),
            target * target <= usize::MAX,
        ensures
            self.rendered_as(target as int, &bitmap),
            bitmap.extent <= target,
    {
        let side: usize = self.side;
        let scale: usize = self.scale_for(target);
        let extent: usize = scale * side;
        proof {
            assert(extent * extent <= target * target) by (nonlinear_arith)
                requires
                    0 <= extent <= target,
            ;
        }
        let total: usize = extent * extent;
        let mut pixels: Vec<u8> = Vec::new();
        let mut k: usize = 0;
        while k < total
            invariant
                self.wf(),
                side == self.side,
                scale == block_size(target as int, side as int),
                extent == scale * side,
                total == extent * extent,
                k <= total,
                pixels@.len() == k,
                forall|i: int|
                    0 <= i < k ==> #[trigger] pixels@[i] == shade_of(
                        self.dark_at((i % (extent as int)) / (scale as int), (i / (extent as int)) / (
                        scale as int)),
                    ),
            decreases total - k,
        {
            proof {
                lemma_flat_index_split(k as int, extent as int, extent as int);
                lemma_pixel_module(
                    (k % extent) as int,
                    scale as int,
                    side as int,
                );
                lemma_pixel_module(
                    (k / extent) as int,
                    scale as int,
                    side as int,
                );
            }
            let x: usize = k % extent;
            let y: usize = k / extent;
            let dark: bool = self.is_dark(x / scale, y / scale);
            pixels.push(if dark { 0u8 } else { 255u8 });
            k = k + 1;
        }
        let bitmap = QrBitmap { extent, pixels };
        proof {
            assert forall|x: int, y: int|
                0 <= x < bitmap.extent && 0 <= y < bitmap.extent implies #[trigger] bitmap.pixel_at(
                x,
                y,
            ) == shade_of(self.dark_at(x / (scale as int), y / (scale as int))) by {
                lemma_row_major_index(x, y, extent as int, extent as int);
                lemma_flat_index_join(x, y, extent as int);
            }
        }
        bitmap
    }
}

/// The payload of a record's symbol: its own code where it has one, else its
/// numeric identifier in decimal.
pub open spec fn payload_text(id: int, qr_id: Option<Seq<char>>) -> Seq<char> {
    match qr_id {
        Some(code) => code,
        None => crate::text::decimal_text(id),
    }
}

/// The payload of a record's symbol: its own code where it has one, else its
/// numeric identifier in decimal.
pub fn qr_payload(id: i32, qr_id: &Option<String>) -> (payload: String)
    ensures
        payload@ == payload_text(id as int, crate::text::opt_text(*qr_id)),
{
    match qr_id {
        Some(code) => code.clone(),
        None => crate::text::decimal_string(id),
    }
}

/// A cell of a `width` by `height` grid has a row-major index inside it.
pub proof fn lemma_row_major_index(x: int, y: int, width: int, height: int)
    requires
        0 <= x < width,
        0 <= y < height,
    ensures
        0 <= y * width + x < width * height,
{
    assert(y * width + x < width * height) by (nonlinear_arith)
        requires
            0 <= x < width,
            0 <= y < height,
    ;
    assert(0 <= y * width) by (nonlinear_arith)
        requires
            0 <= y,
            0 <= width,
    ;
}

/// A row-major index splits into a column and a row of the grid.
pub proof fn lemma_flat_index_split(k: int, width: int, height: int)
    requires
        width >= 0,
        height >= 0,
        0 <= k < width * height,
    ensures
        width > 0,
        0 <= k % width < width,
        0 <= k / width < height,
        k == (k / width) * width + k % width,
{
    assert(width > 0) by (nonlinear_arith)
        requires
            width >= 0,
            0 <= k < width * height,
    ;
    vstd::arithmetic::div_mod::lemma_fundamental_div_mod(k, width);
    vstd::arithmetic::div_mod::lemma_mod_bound(k, width);
    vstd::arithmetic::div_mod::lemma_div_pos_is_pos(k, width);
    let q = k / width;
    let r = k % width;
    assert(width * q == q * width) by (nonlinear_arith);
    assert(q < height) by (nonlinear_arith)
        requires
            k == q * width + r,
            r >= 0,
            k < width * height,
            width > 0,
    ;
}

/// Column and row are recovered from the row-major index they make.
pub proof fn lemma_flat_index_join(x: int, y: int, width: int)
    requires
        0 <= x < width,
        0 <= y,
    ensures
        (y * width + x) / width == y,
        (y * width + x) % width == x,
{
    vstd::arithmetic::div_mod::lemma_fundamental_div_mod_converse(y * width + x, width, y, x);
}

/// The blocks of a fitted symbol stay inside the target, and what is left of
/// the target is narrower than one more module per block.
pub proof fn lemma_block_fits(target: int, side: int)
    requires
        target >= 0,
        side >= 1,
    ensures
        block_size(target, side) >= 0,
        block_size(target, side) * side <= target,
        target - block_size(target, side) * side < side,
{
    vstd::arithmetic::div_mod::lemma_fundamental_div_mod(target, side);
    vstd::arithmetic::div_mod::lemma_mod_bound(target, side);
    vstd::arithmetic::div_mod::lemma_div_pos_is_pos(target, side);
    assert(side * (target / side) == (target / side) * side) by (nonlinear_arith);
}

/// A pixel of a fitted symbol lies in the block of one of its modules.
pub proof fn lemma_pixel_module(p: int, scale: int, side: int)
    requires
        0 <= p < scale * side,
        side >= 1,
    ensures
        scale >= 1,
        0 <= p / scale < side,
{
    assert(scale >= 1) by (nonlinear_arith)
        requires
            0 <= p < scale * side,
            side >= 1,
    ;
    vstd::arithmetic::div_mod::lemma_fundamental_div_mod(p, scale);
    vstd::arithmetic::div_mod::lemma_mod_bound(p, scale);
    vstd::arithmetic::div_mod::lemma_div_pos_is_pos(p, scale);
    let q = p / scale;
    let r = p % scale;
    assert(q < side) by (nonlinear_arith)
        requires
            p == scale * q + r,
            r >= 0,
            p < scale * side,
            scale >= 1,
    ;
}

/// Encoding one payload twice gives one outcome: the same grid, or the same
/// failure.
pub proof fn lemma_encode_deterministic(
    payload: Seq<char>,
    first: Result<QrMatrix, LabelError>,
    second: Result<QrMatrix, LabelError>,
)
    requires
        matrix_from(qr_symbol(payload), first),
        matrix_from(qr_symbol(payload), second),
    ensures
        first is Ok <==> second is Ok,
        first is Ok ==> first->Ok_0.side == second->Ok_0.side && first->Ok_0.modules@
            == second->Ok_0.modules@,
        first is Err ==> first->Err_0 == second->Err_0,
{
}

/// Rendering one matrix twice at one target gives identical pixel grids.
pub proof fn lemma_render_deterministic(m: QrMatrix, target: int, first: QrBitmap, second: QrBitmap)
    requires
        m.wf(),
        target >= 0,
        m.rendered_as(target, &first),
        m.rendered_as(target, &second),
    ensures
        first.extent == second.extent,
        first.pixels@ == second.pixels@,
{
    let extent = first.extent as int;
    assert forall|k: int| 0 <= k < first.pixels@.len() implies first.pixels@[k]
        == second.pixels@[k] by {
        lemma_flat_index_split(k, extent, extent);
        let x = k % extent;
        let y = k / extent;
        assert(first.pixel_at(x, y) == second.pixel_at(x, y));
    }
    assert(first.pixels@ =~= second.pixels@);
}

} // verus!
