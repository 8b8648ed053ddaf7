use vstd::prelude::*;
use crate::error::LabelError;
use crate::qr::{block_size, lemma_block_fits, lemma_pixel_module, shade_of, QrMatrix};

verus! {

/// A raster page: the pixel buffer of the `image` crate, kept behind the
/// functions of this module. Every pixel has its three channels equal, so a
/// pixel is described by one grey level.
#[verifier::external_body]
pub struct Canvas {
    img: image::RgbImage,
}

#[verifier::external_type_specification]
#[verifier::external_body]
pub struct ExImageError(image::ImageError);

/// Number of pixel columns of the buffer.
pub uninterp spec fn canvas_width(c: Canvas) -> nat;

/// Number of pixel rows of the buffer.
pub uninterp spec fn canvas_height(c: Canvas) -> nat;

/// The grey level of each pixel of the buffer, keyed by column and row, rows
/// counted from the top.
pub uninterp spec fn canvas_pixels(c: Canvas) -> Map<(int, int), u8>;

/// The PNG stream that the `image` crate writes for an RGB image of the given
/// size and grey levels; `None` where its encoder reports an error.
pub uninterp spec fn png_encoding(width: nat, height: nat, pixels: Map<(int, int), u8>) -> Option<
    Seq<u8>,
>;

/// One spot of ink left by a rasterized glyph: a pixel position and how much
/// of the pixel the glyph covers, from 0 (none) to 255 (all).
#[derive(Clone, Copy, Debug, PartialEq, Eq, Structural)]
pub struct InkSpot {
    pub x: i32,
    pub y: i32,
    pub coverage: u8,
}

/// The mathematical content of a canvas.
pub struct Raster {
    pub width: nat,
    pub height: nat,
    pub pixels: Map<(int, int), u8>,
}

/// Whether pixel `(i, j)` lies in the rectangle at `(x, y)` of `w` by `h`.
pub open spec fn rect_covers(i: int, j: int, x: int, y: int, w: int, h: int) -> bool {
    x <= i < x + w && y <= j < y + h
}

impl Raster {
    /// The pixel positions of a raster of this size.
    pub open spec fn frame(self) -> Set<(int, int)> {
        Set::new(|p: (int, int)| 0 <= p.0 < self.width && 0 <= p.1 < self.height)
    }

    /// Exactly the positions of the frame hold a pixel.
    pub open spec fn wf(self) -> bool {
        self.pixels.dom() == self.frame()
    }

    /// A raster of one grey level.
    pub open spec fn uniform(width: nat, height: nat, shade: u8) -> Raster {
        Raster {
            width,
            height,
            pixels: Map::new(
                |p: (int, int)| 0 <= p.0 < width && 0 <= p.1 < height,
                |p: (int, int)| shade,
            ),
        }
    }

    /// This raster with pixel `(x, y)` set to `shade`.
    pub open spec fn with_pixel(self, x: int, y: int, shade: u8) -> Raster {
        Raster { pixels: self.pixels.insert((x, y), shade), ..self }
    }

    /// This raster with the rectangle at `(x, y)` of `w` by `h` filled, as far
    /// as it lies inside the frame.
    pub open spec fn with_rect(self, x: int, y: int, w: int, h: int, shade: u8) -> Raster {
        Raster {
            pixels: Map::new(
                |p: (int, int)| self.pixels.dom().contains(p),
                |p: (int, int)|
                    if rect_covers(p.0, p.1, x, y, w, h) {
                        shade
                    } else {
                        self.pixels[p]
                    },
            ),
            ..self
        }
    }

    /// This raster with the outline of the rectangle at `(x, y)` of `w` by `h`
    /// drawn `t` pixels thick: a strip along the top and the left edge, and a
    /// strip that ends on the row below and the column right of the rectangle.
    pub open spec fn with_border(self, x: int, y: int, w: int, h: int, t: int, shade: u8) -> Raster {
        self.with_rect(x, y, w, t, shade).with_rect(x, y + h - t + 1, w, t, shade).with_rect(
            x,
            y,
            t,
            h,
            shade,
        ).with_rect(x + w - t + 1, y, t, h, shade)
    }

    /// This raster with a symbol of `side` modules a side fitted into the
    /// square of `size` pixels at `(x, y)`: each module a block of
    /// `block_size(size, side)` pixels, clipped at the frame.
    pub open spec fn with_symbol(
        self,
        modules: Seq<bool>,
        side: int,
        x: int,
        y: int,
        size: int,
    ) -> Raster {
        let scale = block_size(size, side);
        Raster {
            pixels: Map::new(
                |p: (int, int)| self.pixels.dom().contains(p),
                |p: (int, int)|
                    if rect_covers(p.0, p.1, x, y, scale * side, scale * side) {
                        shade_of(modules[((p.1 - y) / scale) * side + (p.0 - x) / scale])
                    } else {
                        self.pixels[p]
                    },
            ),
            ..self
        }
    }

    /// This raster with one spot of ink, black text on white: the pixel
    /// becomes `255 - coverage`. A spot outside the frame leaves no mark.
    pub open spec fn with_spot(self, spot: InkSpot) -> Raster {
        if 0 <= spot.x < self.width && 0 <= spot.y < self.height {
            self.with_pixel(spot.x as int, spot.y as int, (255 - spot.coverage) as u8)
        } else {
            self
        }
    }

    /// This raster with the spots of a run applied in order.
    pub open spec fn with_ink(self, spots: Seq<InkSpot>) -> Raster
        decreases spots.len(),
    {
        if spots.len() == 0 {
            self
        } else {
            self.with_ink(spots.drop_last()).with_spot(spots.last())
        }
    }
}

impl View for Canvas {
    type V = Raster;

    open spec fn view(&self) -> Raster {
        Raster {
            width: canvas_width(*self),
            height: canvas_height(*self),
            pixels: canvas_pixels(*self),
        }
    }
}

/// Calls `image::ImageBuffer::new`, which allocates a buffer of the given
/// size with every channel zero. Sizes whose byte count the crate cannot
/// index are left out.
#[verifier::external_body]
fn image_new(width: u32, height: u32) -> (c: Canvas)
    requires
        3 * width * height <= isize::MAX,
    ensures
        canvas_width(c) == width,
        canvas_height(c) == height,
        canvas_pixels(c) == Raster::uniform(width as nat, height as nat, 0u8).pixels,
{
    Canvas { img: image::ImageBuffer::new(width, height) }
}

/// Calls `image::ImageBuffer::width`.
#[verifier::external_body]
fn image_width(c: &Canvas) -> (w: u32)
    ensures
        w == canvas_width(*c),
{
    c.img.width()
}

/// Calls `image::ImageBuffer::height`.
#[verifier::external_body]
fn image_height(c: &Canvas) -> (h: u32)
    ensures
        h == canvas_height(*c),
{
    c.img.height()
}

/// Calls `image::ImageBuffer::put_pixel` with a grey pixel. The call changes
/// that one pixel and nothing else; positions outside the image, on which it
/// panics, are left out.
#[verifier::external_body]
fn image_put(c: &mut Canvas, x: u32, y: u32, shade: u8)
    requires
        x < canvas_width(*old(c)),
        y < canvas_height(*old(c)),
    ensures
        canvas_width(*final(c)) == canvas_width(*old(c)),
        canvas_height(*final(c)) == canvas_height(*old(c)),
        canvas_pixels(*final(c)) == canvas_pixels(*old(c)).insert((x as int, y as int), shade),
{
    c.img.put_pixel(x, y, image::Rgb([shade, shade, shade]))
}

/// Calls `image::ImageBuffer::get_pixel` and hands out the pixel's first
/// channel. Positions outside the image, on which it panics, are left out.
#[verifier::external_body]
fn image_get(c: &Canvas, x: u32, y: u32) -> (shade: u8)
    requires
        x < canvas_width(*c),
        y < canvas_height(*c),
    ensures
        shade == canvas_pixels(*c)[(x as int, y as int)],
{
    c.img.get_pixel(x, y).0[0]
}

/// Calls `image::ImageBuffer::write_to` with the PNG format on an in-memory
/// cursor and hands out the bytes written. The contract only names them.
#[verifier::external_body]
fn image_png(c: &Canvas) -> (out: Result<Vec<u8>, image::ImageError>)
    ensures
        out is Ok <==> png_encoding(canvas_width(*c), canvas_height(*c), canvas_pixels(*c))
            is Some,
        out is Ok ==> png_encoding(canvas_width(*c), canvas_height(*c), canvas_pixels(*c))
            == Some(out->Ok_0@),
{
    let mut bytes: Vec<u8> = Vec::new();
    match c.img.write_to(&mut std::io::Cursor::new(&mut bytes), image::ImageFormat::Png) {
        Ok(()) => Ok(bytes),
        Err(e) => Err(e),
    }
}

/// What `png` returns for a raster.
pub open spec fn png_outcome(r: Raster, outcome: Result<Vec<u8>, LabelError>) -> bool {
    match png_encoding(r.width, r.height, r.pixels) {
        Some(bytes) => outcome is Ok && outcome->Ok_0@ == bytes,
        None => outcome == Err::<Vec<u8>, LabelError>(LabelError::Encoding),
    }
}

impl Canvas {
    /// A canvas of the given size, every pixel white.
    pub fn white(width: u32, height: u32) -> (c: Canvas)
        requires
            3 * width * height <= isize::MAX,
        ensures
            c@ == Raster::uniform(width as nat, height as nat, 255u8),
            c@.wf(),
    {
        let mut c = image_new(width, height);
        assert(c@.wf()) by {
            assert(c@.pixels.dom() =~= c@.frame());
        }
        c.fill_rect(0, 0, width, height, 255);
        assert(c@.pixels =~= Raster::uniform(width as nat, height as nat, 255u8).pixels);
        c
    }

    /// Number of pixel columns.
    pub fn width(&self) -> (w: u32)
        ensures
            w == self@.width,
    {
        image_width(self)
    }

    /// Number of pixel rows.
    pub fn height(&self) -> (h: u32)
        ensures
            h == self@.height,
    {
        image_height(self)
    }

    /// The grey level at column `x` of row `y`, or `None` outside the frame.
    pub fn shade_at(&self, x: u32, y: u32) -> (shade: Option<u8>)
        ensures
            shade == if x < self@.width && y < self@.height {
                Some(self@.pixels[(x as int, y as int)])
            } else {
                None
            },
    {
        if x < image_width(self) && y < image_height(self) {
            Some(image_get(self, x, y))
        } else {
            None
        }
    }

    /// Sets the pixel at column `x` of row `y`.
    pub fn set(&mut self, x: u32, y: u32, shade: u8)
        requires
            old(self)@.wf(),
            x < old(self)@.width,
            y < old(self)@.height,
        ensures
            final(self)@ == old(self)@.with_pixel(x as int, y as int, shade),
            final(self)@.wf(),
    {
        image_put(self, x, y, shade);
        assert(final(self)@.pixels.dom() =~= final(self)@.frame());
    }

    /// Fills the rectangle at `(x, y)` of `w` by `h` pixels with `shade`,
    /// clipped at the frame.
    pub fn fill_rect(&mut self, x: u32, y: u32, w: u32, h: u32, shade: u8)
        requires
            old(self)@.wf(),
        ensures
            final(self)@ == old(self)@.with_rect(x as int, y as int, w as int, h as int, shade),
            final(self)@.wf(),
    {
        let ghost before = self@;
        let cw: u32 = image_width(self);
        let ch: u32 = image_height(self);
        let x0: u32 = if x < cw { x } else { cw };
        let y0: u32 = if y < ch { y } else { ch };
        let x1: u32 = if w >= cw - x0 { cw } else { x0 + w };
        let y1: u32 = if h >= ch - y0 { ch } else { y0 + h };
        let mut py: u32 = y0;
        while py < y1
            invariant
                y0 <= py <= y1 <= ch,
                x0 <= x1 <= cw,
                self@.wf(),
                before.wf(),
                self@.width == before.width == cw,
                self@.height == before.height == ch,
                forall|p: (int, int)| #[trigger]
                    before.frame().contains(p) ==> self@.pixels[p] == if x0 <= p.0 < x1 && y0
                        <= p.1 < py {
                        shade
                    } else {
                        before.pixels[p]
                    },
            decreases y1 - py,
        {
            let mut px: u32 = x0;
            while px < x1
                invariant
                    y0 <= py < y1 <= ch,
                    x0 <= px <= x1 <= cw,
                    self@.wf(),
                    before.wf(),
                    self@.width == before.width == cw,
                    self@.height == before.height == ch,
                    forall|p: (int, int)| #[trigger]
                        before.frame().contains(p) ==> self@.pixels[p] == if x0 <= p.0 < x1 && (y0
                            <= p.1 < py || (p.1 == py && p.0 < px)) {
                            shade
                        } else {
                            before.pixels[p]
                        },
                decreases x1 - px,
            {
                self.set(px, py, shade);
                px = px + 1;
            }
            py = py + 1;
        }
        proof {
            let goal = before.with_rect(x as int, y as int, w as int, h as int, shade);
            assert forall|p: (int, int)| before.frame().contains(p) implies self@.pixels[p]
                == goal.pixels[p] by {
                assert(rect_covers(p.0, p.1, x as int, y as int, w as int, h as int) <==> (x0
                    <= p.0 < x1 && y0 <= p.1 < y1));
            }
            assert(self@.pixels =~= goal.pixels);
        }
    }

    /// Draws the outline of the rectangle at `(x, y)` of `w` by `h` pixels,
    /// `t` pixels thick, clipped at the frame.
    pub fn draw_rect(&mut self, x: u32, y: u32, w: u32, h: u32, shade: u8, t: u32)
        requires
            old(self)@.wf(),
            x + w <= u32::MAX,
            y + h <= u32::MAX,
        ensures
            final(self)@ == old(self)@.with_border(
                x as int,
                y as int,
                w as int,
                h as int,
                t as int,
                shade,
            ),
            final(self)@.wf(),
    {
        let cw: u32 = image_width(self);
        let ch: u32 = image_height(self);
        self.fill_rect(x, y, w, t, shade);
        let ghost top = self@;
        // The strip that ends on row `y + h`, cut off where it would start
        // above the frame.
        let low: u32 = if 1 <= t && t <= y + h {
            y + h - t + 1
        } else {
            0
        };
        let low_rows: u32 = if t <= y + h {
            t
        } else if y + h < u32::MAX {
            y + h + 1
        } else {
            u32::MAX
        };
        self.fill_rect(x, low, w, low_rows, shade);
        proof {
            let goal = top.with_rect(x as int, y + h - t + 1, w as int, t as int, shade);
            assert forall|p: (int, int)| top.frame().contains(p) implies (rect_covers(
                p.0,
                p.1,
                x as int,
                low as int,
                w as int,
                low_rows as int,
            ) <==> rect_covers(p.0, p.1, x as int, y + h - t + 1, w as int, t as int)) by {
                assert(0 <= p.1 < ch);
            }
            assert(self@.pixels =~= goal.pixels);
        }
        self.fill_rect(x, y, t, h, shade);
        // The strip that ends on column `x + w`, cut off in the same way.
        let right: u32 = if 1 <= t && t <= x + w {
            x + w - t + 1
        } else {
            0
        };
        let right_columns: u32 = if t <= x + w {
            t
        } else if x + w < u32::MAX {
            x + w + 1
        } else {
            u32::MAX
        };
        let ghost left = self@;
        self.fill_rect(right, y, right_columns, h, shade);
        proof {
            let goal = left.with_rect(x + w - t + 1, y as int, t as int, h as int, shade);
            assert forall|p: (int, int)| left.frame().contains(p) implies (rect_covers(
                p.0,
                p.1,
                right as int,
                y as int,
                right_columns as int,
                h as int,
            ) <==> rect_covers(p.0, p.1, x + w - t + 1, y as int, t as int, h as int)) by {
                assert(0 <= p.0 < cw);
            }
            assert(self@.pixels =~= goal.pixels);
        }
    }

    /// Draws `matrix` into the square of `size` pixels at `(x, y)`, each
    /// module as a block of `size / side` pixels, clipped at the frame.
    pub fn draw_qr_code(&mut self, matrix: &QrMatrix, x: u32, y: u32, size: u32)
        requires
            old(self)@.wf(),
            matrix.wf(),
        ensures
            final(self)@ == old(self)@.with_symbol(
                matrix.modules@,
                matrix.side as int,
                x as int,
                y as int,
                size as int,
            ),
            final(self)@.wf(),
    {
        let ghost before = self@;
        let side: u32 = matrix.side as u32;
        let scale: u32 = size / side;
        proof {
            lemma_block_fits(size as int, side as int);
        }
        let extent: u32 = scale * side;
        let cw: u32 = image_width(self);
        let ch: u32 = image_height(self);
        let x0: u32 = if x < cw { x } else { cw };
        let y0: u32 = if y < ch { y } else { ch };
        let x1: u32 = if extent >= cw - x0 { cw } else { x0 + extent };
        let y1: u32 = if extent >= ch - y0 { ch } else { y0 + extent };
        let mut py: u32 = y0;
        while py < y1
            invariant
                y0 <= py <= y1 <= ch,
                x0 <= x1 <= cw,
                x0 < x1 ==> x0 == x,
                y0 < y1 ==> y0 == y,
                x1 <= x + extent,
                y1 <= y + extent,
                matrix.wf(),
                side == matrix.side,
                scale == block_size(size as int, side as int),
                extent == scale * side,
                self@.wf(),
                before.wf(),
                self@.width == before.width == cw,
                self@.height == before.height == ch,
                forall|p: (int, int)| #[trigger]
                    before.frame().contains(p) ==> self@.pixels[p] == if x0 <= p.0 < x1 && y0
                        <= p.1 < py {
                        shade_of(
                            matrix.modules@[((p.1 - y) / (scale as int)) * side + (p.0 - x) / (
                            scale as int)],
                        )
                    } else {
                        before.pixels[p]
                    },
            decreases y1 - py,
        {
            let mut px: u32 = x0;
            while px < x1
                invariant
                    y0 <= py < y1 <= ch,
                    x0 <= px <= x1 <= cw,
                    x0 < x1 ==> x0 == x,
                    y0 < y1 ==> y0 == y,
                    x1 <= x + extent,
                    y1 <= y + extent,
                    matrix.wf(),
                    side == matrix.side,
                    scale == block_size(size as int, side as int),
                    extent == scale * side,
                    self@.wf(),
                    before.wf(),
                    self@.width == before.width == cw,
                    self@.height == before.height == ch,
                    forall|p: (int, int)| #[trigger]
                        before.frame().contains(p) ==> self@.pixels[p] == if x0 <= p.0 < x1 && (y0
                            <= p.1 < py || (p.1 == py && p.0 < px)) {
                            shade_of(
                                matrix.modules@[((p.1 - y) / (scale as int)) * side + (p.0 - x) / (
                                scale as int)],
                            )
                        } else {
                            before.pixels[p]
                        },
                decreases x1 - px,
            {
                proof {
                    lemma_pixel_module((px - x) as int, scale as int, side as int);
                    lemma_pixel_module((py - y) as int, scale as int, side as int);
                }
                let mx: u32 = (px - x) / scale;
                let my: u32 = (py - y) / scale;
                let dark: bool = matrix.is_dark(mx as usize, my as usize);
                self.set(px, py, if dark { 0u8 } else { 255u8 });
                px = px + 1;
            }
            py = py + 1;
        }
        proof {
            let goal = before.with_symbol(
                matrix.modules@,
                matrix.side as int,
                x as int,
                y as int,
                size as int,
            );
            assert forall|p: (int, int)| before.frame().contains(p) implies self@.pixels[p]
                == goal.pixels[p] by {
                assert(rect_covers(p.0, p.1, x as int, y as int, extent as int, extent as int)
                    <==> (x0 <= p.0 < x1 && y0 <= p.1 < y1));
            }
            assert(self@.pixels =~= goal.pixels);
        }
    }

    /// Paints the spots of a rasterized run in order, black text on white:
    /// each spot inside the frame sets its pixel to `255 - coverage`.
    pub fn paint_ink(&mut self, spots: &Vec<InkSpot>)
        requires
            old(self)@.wf(),
        ensures
            final(self)@ == old(self)@.with_ink(spots@),
            final(self)@.wf(),
    {
        let ghost before = self@;
        let cw: u32 = image_width(self);
        let ch: u32 = image_height(self);
        let mut k: usize = 0;
        while k < spots.len()
            invariant
                k <= spots.len(),
                self@.wf(),
                self@.width == cw,
                self@.height == ch,
                self@ == before.with_ink(spots@.take(k as int)),
            decreases spots.len() - k,
        {
            let spot: InkSpot = spots[k];
            proof {
                assert(spots@.take(k + 1).drop_last() =~= spots@.take(k as int));
                assert(spots@.take(k + 1).last() == spot);
            }
            if spot.x >= 0 && spot.y >= 0 && (spot.x as u32) < cw && (spot.y as u32) < ch {
                self.set(spot.x as u32, spot.y as u32, 255 - spot.coverage);
            }
            k = k + 1;
        }
        assert(spots@.take(spots.len() as int) =~= spots@);
    }

    /// The canvas as a PNG stream. Fails with `Encoding` exactly when the
    /// encoder reports an error.
    pub fn png(&self) -> (outcome: Result<Vec<u8>, LabelError>)
        ensures
            png_outcome(self@, outcome),
    {
        match image_png(self) {
            Ok(bytes) => Ok(bytes),
            Err(_) => Err(LabelError::Encoding),
        }
    }
}

/// Drawing a symbol into a square changes no pixel outside that square,
/// whatever the symbol's size.
pub proof fn lemma_symbol_stays_in_square(
    page: Raster,
    modules: Seq<bool>,
    side: int,
    x: int,
    y: int,
    size: int,
    p: (int, int),
)
    requires
        side >= 1,
        size >= 0,
        page.pixels.dom().contains(p),
        !rect_covers(p.0, p.1, x, y, size, size),
    ensures
        page.with_symbol(modules, side, x, y, size).pixels[p] == page.pixels[p],
        page.with_symbol(modules, side, x, y, size).pixels.dom() == page.pixels.dom(),
{
    lemma_block_fits(size, side);
    assert(page.with_symbol(modules, side, x, y, size).pixels.dom() =~= page.pixels.dom());
}

} // verus!
