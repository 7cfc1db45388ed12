//! Glyph extraction: scans a two-color glyph-sheet image against a layout
//! map and produces one packed glyph per character named in the layout,
//! assembled into a font table in character-set order.
//!
//! Extraction is fatal-only: an unexpected pixel color, a sample outside the
//! image, or a layout character outside the character set aborts the whole
//! pass, rather than guessing at a glyph.

use crate::charset::index;
use crate::charset::index_spec;
use crate::charset::lemma_index_in_set;
use crate::charset::LENGTH;
use crate::font::Font;
use crate::glyph::lemma_one_shl;
use crate::glyph::lemma_or_bits;
use crate::glyph::lemma_packed_bits_unique;
use crate::glyph::lemma_set_bit;
use crate::glyph::lemma_shr_zero;
use crate::glyph::packed_bit;
use crate::glyph::BitmapChar;
use vstd::prelude::*;

verus! {

/// The layout character that marks a grid cell holding no glyph.
pub const NO_CHAR: char = 'X';

/// Pixels per glyph cell along each axis: a 4-pixel glyph plus a 1-pixel
/// separator.
pub const CELL_STRIDE: usize = 5;

/// Why an extraction pass aborted.
#[derive(Debug, Clone, Copy, PartialEq, Eq, Structural)]
pub enum ExtractError {
    /// A sampled pixel matched neither reference color: the source image is
    /// corrupted or mis-aligned.
    ColorMismatch,
    /// A sample coordinate fell outside the image: the layout map and the
    /// image size are inconsistent.
    OutOfBounds,
    /// A layout cell names a character outside the character set.
    UnsupportedChar,
}

/// A single-channel (greyscale) raster image: one byte per pixel, row-major.
pub struct GlyphSheet {
    width: usize,
    height: usize,
    pixels: Vec<u8>,
}

impl GlyphSheet {
    #[verifier::type_invariant]
    spec fn wf(self) -> bool {
        self.pixels@.len() == self.width * self.height
    }

    /// The image width in pixels.
    pub closed spec fn spec_width(self) -> int {
        self.width as int
    }

    /// The image height in pixels.
    pub closed spec fn spec_height(self) -> int {
        self.height as int
    }

    /// The pixel value at column `x`, row `y`.
    pub closed spec fn pixel(self, x: int, y: int) -> u8 {
        self.pixels@[y * self.width + x]
    }

    /// Builds an image from its dimensions and its row-major pixel bytes.
    /// Returns `None` when the buffer length does not match the dimensions.
    pub fn new(width: usize, height: usize, pixels: Vec<u8>) -> (r: Option<GlyphSheet>)
        ensures
            r is Some <==> pixels@.len() == width * height,
            r matches Some(s) ==> {
                &&& s.spec_width() == width
                &&& s.spec_height() == height
                &&& forall|x: int, y: int|
                    0 <= x < width && 0 <= y < height ==> s.pixel(x, y) == pixels@[y * width + x]
            },
    {
        let n = pixels.len();
        match width.checked_mul(height) {
            Some(m) if m == n => Some(GlyphSheet { width, height, pixels }),
            _ => None,
        }
    }

    /// The image width in pixels.
    pub fn width(&self) -> (r: usize)
        ensures
            r == self.spec_width(),
    {
        self.width
    }

    /// The image height in pixels.
    pub fn height(&self) -> (r: usize)
        ensures
            r == self.spec_height(),
    {
        self.height
    }

    /// The pixel at column `x`, row `y`, or `None` when the coordinate lies
    /// outside the image.
    pub fn get(&self, x: usize, y: usize) -> (r: Option<u8>)
        ensures
            r is Some <==> (x < self.spec_width() && y < self.spec_height()),
            r matches Some(p) ==> p == self.pixel(x as int, y as int),
    {
        proof {
            use_type_invariant(&*self);
        }
        if x < self.width && y < self.height {
            let n = self.pixels.len();
            proof {
                assert(y * self.width + x < self.width * self.height) by (nonlinear_arith)
                    requires
                        x < self.width && y < self.height,
                ;
                assert(y * self.width + x < n);
            }
            Some(self.pixels[y * self.width + x])
        } else {
            None
        }
    }
}

/// The image column sampled for bit `k` of the glyph cell at layout column
/// `x`, with horizontal origin `h`.
pub open spec fn sample_x(h: int, x: int, k: int) -> int {
    h + CELL_STRIDE * x + k % 4
}

/// The image row sampled for bit `k` of the glyph cell at layout row `y`,
/// with vertical origin `v`.
pub open spec fn sample_y(v: int, y: int, k: int) -> int {
    v + CELL_STRIDE * y + k / 4
}

/// Sample `k` of the glyph cell at layout position (`x`, `y`) lies inside
/// the image.
pub open spec fn sample_in_bounds(img: GlyphSheet, h: int, v: int, x: int, y: int, k: int) -> bool {
    sample_x(h, x, k) < img.spec_width() && sample_y(v, y, k) < img.spec_height()
}

/// Sample `k` of the glyph cell at (`x`, `y`) lies inside the image and
/// matches one of the two reference colors.
pub open spec fn sample_ok(
    img: GlyphSheet,
    on: u8,
    off: u8,
    h: int,
    v: int,
    x: int,
    y: int,
    k: int,
) -> bool {
    &&& sample_in_bounds(img, h, v, x, y, k)
    &&& {
        let p = img.pixel(sample_x(h, x, k), sample_y(v, y, k));
        p == on || p == off
    }
}

/// The bit sampled at position `k` of the glyph cell at (`x`, `y`): true
/// exactly when the pixel matches the "on" reference color.
pub open spec fn sample_bit(img: GlyphSheet, on: u8, h: int, v: int, x: int, y: int, k: int) -> bool {
    img.pixel(sample_x(h, x, k), sample_y(v, y, k)) == on
}

/// All 16 samples of the glyph cell at (`x`, `y`) are inside the image and
/// two-colored.
pub open spec fn cell_ok(img: GlyphSheet, on: u8, off: u8, h: int, v: int, x: int, y: int) -> bool {
    forall|k: int| 0 <= k < 16 ==> sample_ok(img, on, off, h, v, x, y, k)
}

/// The error reported for the first failing sample at position `k` or
/// later: a sample outside the image reports `OutOfBounds`, one with an
/// unexpected color reports `ColorMismatch`. Meaningful only when some
/// sample at position `k` or later fails.
pub open spec fn cell_err_from(
    img: GlyphSheet,
    on: u8,
    off: u8,
    h: int,
    v: int,
    x: int,
    y: int,
    k: int,
) -> ExtractError
    decreases 16 - k,
{
    if k < 0 || k >= 16 {
        ExtractError::ColorMismatch
    } else if !sample_in_bounds(img, h, v, x, y, k) {
        ExtractError::OutOfBounds
    } else if img.pixel(sample_x(h, x, k), sample_y(v, y, k)) != on && img.pixel(
        sample_x(h, x, k),
        sample_y(v, y, k),
    ) != off {
        ExtractError::ColorMismatch
    } else {
        cell_err_from(img, on, off, h, v, x, y, k + 1)
    }
}

/// The error reported for a glyph cell whose samples are not all good: the
/// error of the first failing sample, in sample order.
pub open spec fn cell_first_err(
    img: GlyphSheet,
    on: u8,
    off: u8,
    h: int,
    v: int,
    x: int,
    y: int,
) -> ExtractError {
    cell_err_from(img, on, off, h, v, x, y, 0)
}

/// The bits of the glyph cell at (`x`, `y`) sampled at position `k` and
/// later, packed most significant bit first.
pub open spec fn cell_bits_from(
    img: GlyphSheet,
    on: u8,
    h: int,
    v: int,
    x: int,
    y: int,
    k: int,
) -> u16
    decreases 16 - k,
{
    if k < 0 || k >= 16 {
        0u16
    } else {
        (if sample_bit(img, on, h, v, x, y, k) {
            1u16 << ((15 - k) as u16)
        } else {
            0u16
        }) | cell_bits_from(img, on, h, v, x, y, k + 1)
    }
}

/// The packed glyph sampled from the glyph cell at layout position
/// (`x`, `y`).
pub open spec fn cell_glyph(img: GlyphSheet, on: u8, h: int, v: int, x: int, y: int) -> u16 {
    cell_bits_from(img, on, h, v, x, y, 0)
}

/// Bit `j` of the value packed from samples `k` and later is the sample bit
/// at `j` when `k <= j`, and clear otherwise.
proof fn lemma_cell_bits_from(
    img: GlyphSheet,
    on: u8,
    h: int,
    v: int,
    x: int,
    y: int,
    k: int,
    j: int,
)
    requires
        0 <= k <= 16,
        0 <= j < 16,
    ensures
        packed_bit(cell_bits_from(img, on, h, v, x, y, k), j) == (k <= j && sample_bit(
            img,
            on,
            h,
            v,
            x,
            y,
            j,
        )),
    decreases 16 - k,
{
    lemma_shr_zero();
    let t = (15 - j) as u16;
    if k >= 16 {
        assert(cell_bits_from(img, on, h, v, x, y, k) == 0u16);
        assert((0u16 >> t) & 1 == 0);
    } else {
        lemma_cell_bits_from(img, on, h, v, x, y, k + 1, j);
        lemma_or_bits();
        lemma_one_shl();
        let rest = cell_bits_from(img, on, h, v, x, y, k + 1);
        let s = (15 - k) as u16;
        if sample_bit(img, on, h, v, x, y, k) {
            let one = 1u16 << s;
            assert(cell_bits_from(img, on, h, v, x, y, k) == one | rest);
            assert(((one | rest) >> t) & 1 == 1 <==> ((one >> t) & 1 == 1 || (rest >> t) & 1 == 1));
            assert((one >> t) & 1 == 1 <==> s == t);
        } else {
            assert(cell_bits_from(img, on, h, v, x, y, k) == 0u16 | rest);
            assert(((0u16 | rest) >> t) & 1 == 1 <==> ((0u16 >> t) & 1 == 1 || (rest >> t) & 1
                == 1));
        }
    }
}

/// Skipping good samples does not change which error a cell reports.
proof fn lemma_cell_err_prefix(
    img: GlyphSheet,
    on: u8,
    off: u8,
    h: int,
    v: int,
    x: int,
    y: int,
    k: int,
)
    requires
        0 <= k < 16,
        forall|j: int| 0 <= j < k ==> sample_ok(img, on, off, h, v, x, y, j),
    ensures
        cell_first_err(img, on, off, h, v, x, y) == cell_err_from(img, on, off, h, v, x, y, k),
    decreases k,
{
    if k > 0 {
        lemma_cell_err_prefix(img, on, off, h, v, x, y, k - 1);
        assert(sample_ok(img, on, off, h, v, x, y, k - 1));
        assert(cell_err_from(img, on, off, h, v, x, y, k - 1) == cell_err_from(
            img,
            on,
            off,
            h,
            v,
            x,
            y,
            k,
        ));
    }
}

/// Samples one glyph cell: reads its 16 pixels and packs them into a `u16`,
/// most significant bit first. Fails with the first failing sample's error,
/// in sample order.
fn extract_cell(img: &GlyphSheet, on: u8, off: u8, h: usize, v: usize, x: usize, y: usize) -> (r:
    Result<u16, ExtractError>)
    ensures
        r matches Ok(g) ==> cell_ok(*img, on, off, h as int, v as int, x as int, y as int) && g
            == cell_glyph(*img, on, h as int, v as int, x as int, y as int),
        r matches Err(e) ==> !cell_ok(*img, on, off, h as int, v as int, x as int, y as int) && e
            == cell_first_err(*img, on, off, h as int, v as int, x as int, y as int),
{
    let ghost hi = h as int;
    let ghost vi = v as int;
    let ghost xi = x as int;
    let ghost yi = y as int;
    let mut raw: u16 = 0;
    proof {
        lemma_shr_zero();
    }
    let mut k: usize = 0;
    while k < 16
        invariant
            k <= 16,
            hi == h as int && vi == v as int && xi == x as int && yi == y as int,
            forall|j: int| 0 <= j < k ==> sample_ok(*img, on, off, hi, vi, xi, yi, j),
            forall|j: int| 0 <= j < k ==> packed_bit(raw, j) == sample_bit(*img, on, hi, vi, xi, yi, j),
            forall|j: int| k <= j < 16 ==> !packed_bit(raw, j),
        decreases 16 - k,
    {
        let dx = k % 4;
        let dy = k / 4;
        let sx = match x.checked_mul(CELL_STRIDE) {
            Some(xs) => match h.checked_add(xs) {
                Some(hx) => hx.checked_add(dx),
                None => None,
            },
            None => None,
        };
        let sy = match y.checked_mul(CELL_STRIDE) {
            Some(ys) => match v.checked_add(ys) {
                Some(vy) => vy.checked_add(dy),
                None => None,
            },
            None => None,
        };
        proof {
            assert(sx matches Some(c) ==> c == sample_x(hi, xi, k as int));
            assert(sy matches Some(c) ==> c == sample_y(vi, yi, k as int));
            assert(sx is None ==> sample_x(hi, xi, k as int) > usize::MAX);
            assert(sy is None ==> sample_y(vi, yi, k as int) > usize::MAX);
        }
        let px_opt = match (sx, sy) {
            (Some(cx), Some(cy)) => img.get(cx, cy),
            _ => None,
        };
        match px_opt {
            None => {
                proof {
                    assert(!sample_in_bounds(*img, hi, vi, xi, yi, k as int));
                    assert(!sample_ok(*img, on, off, hi, vi, xi, yi, k as int));
                    lemma_cell_err_prefix(*img, on, off, hi, vi, xi, yi, k as int);
                    assert(cell_err_from(*img, on, off, hi, vi, xi, yi, k as int)
                        == ExtractError::OutOfBounds);
                }
                return Err(ExtractError::OutOfBounds);
            },
            Some(p) => {
                if p == on {
                    let s = (15 - k) as u16;
                    let prev = raw;
                    raw = raw | (1u16 << s);
                    proof {
                        lemma_set_bit(prev, s);
                        assert(raw == prev | (1u16 << s));
                        assert forall|j: int| 0 <= j <= k implies packed_bit(raw, j) == sample_bit(
                            *img,
                            on,
                            hi,
                            vi,
                            xi,
                            yi,
                            j,
                        ) by {
                            let t = (15 - j) as u16;
                            assert(t < 16);
                            assert((raw >> t) & 1 == (if t == s {
                                1u16
                            } else {
                                (prev >> t) & 1
                            }));
                            if j == k {
                                assert(t == s);
                                assert(packed_bit(raw, j));
                                assert(sample_bit(*img, on, hi, vi, xi, yi, j));
                            } else {
                                assert(t != s);
                                assert(packed_bit(raw, j) == packed_bit(prev, j));
                            }
                        }
                        assert forall|j: int| k < j < 16 implies !packed_bit(raw, j) by {
                            let t = (15 - j) as u16;
                            assert(t < 16);
                            assert((raw >> t) & 1 == (if t == s {
                                1u16
                            } else {
                                (prev >> t) & 1
                            }));
                            assert(t != s);
                            assert(packed_bit(raw, j) == packed_bit(prev, j));
                        }
                    }
                } else if p == off {
                    proof {
                        assert(!sample_bit(*img, on, hi, vi, xi, yi, k as int));
                        assert(!packed_bit(raw, k as int));
                    }
                } else {
                    proof {
                        assert(!sample_ok(*img, on, off, hi, vi, xi, yi, k as int));
                        lemma_cell_err_prefix(*img, on, off, hi, vi, xi, yi, k as int);
                        assert(cell_err_from(*img, on, off, hi, vi, xi, yi, k as int)
                            == ExtractError::ColorMismatch);
                    }
                    return Err(ExtractError::ColorMismatch);
                }
            },
        }
        k += 1;
    }
    proof {
        assert(cell_ok(*img, on, off, hi, vi, xi, yi));
        let g = cell_glyph(*img, on, hi, vi, xi, yi);
        assert forall|j: int| 0 <= j < 16 implies packed_bit(g, j) == packed_bit(raw, j) by {
            lemma_cell_bits_from(*img, on, hi, vi, xi, yi, 0, j);
        }
        lemma_packed_bits_unique(g, raw);
    }
    Ok(raw)
}

/// The empty font table: one empty slot per character-set member.
pub open spec fn blank_table() -> Seq<Option<BitmapChar>> {
    Seq::new(LENGTH as nat, |i: int| None::<BitmapChar>)
}

/// The glyph cell at column `x` of layout row `row` (which sits at layout
/// row `y`) can be extracted: it is either empty, or names a character-set
/// member whose 16 samples are all inside the image and two-colored.
pub open spec fn row_cell_fine(
    img: GlyphSheet,
    on: u8,
    off: u8,
    h: int,
    v: int,
    row: Seq<char>,
    y: int,
    x: int,
) -> bool {
    ||| row[x] == NO_CHAR
    ||| (index_spec(row[x]) is Some && cell_ok(img, on, off, h, v, x, y))
}

/// Every glyph cell of the layout can be extracted. Exactly the inputs on
/// which an extraction pass succeeds.
pub open spec fn layout_ok(
    img: GlyphSheet,
    on: u8,
    off: u8,
    h: int,
    v: int,
    rows: Seq<Seq<char>>,
) -> bool {
    forall|y: int, x: int|
        0 <= y < rows.len() && 0 <= x < rows[y].len() ==> #[trigger] row_cell_fine(
            img,
            on,
            off,
            h,
            v,
            rows[y],
            y,
            x,
        )
}

/// One extraction step over a layout row, from column `x` on: fills the
/// table slot of each named character with the glyph sampled from its cell,
/// left to right, and stops at the first failing cell with its error.
pub open spec fn scan_row(
    img: GlyphSheet,
    on: u8,
    off: u8,
    h: int,
    v: int,
    row: Seq<char>,
    y: int,
    x: int,
    acc: Seq<Option<BitmapChar>>,
) -> Result<Seq<Option<BitmapChar>>, ExtractError>
    decreases row.len() - x,
{
    if x < 0 || x >= row.len() {
        Ok(acc)
    } else {
        let c = row[x];
        if c == NO_CHAR {
            scan_row(img, on, off, h, v, row, y, x + 1, acc)
        } else {
            match index_spec(c) {
                None => Err(ExtractError::UnsupportedChar),
                Some(i) => if cell_ok(img, on, off, h, v, x, y) {
                    scan_row(
                        img,
                        on,
                        off,
                        h,
                        v,
                        row,
                        y,
                        x + 1,
                        acc.update(i as int, Some(BitmapChar(cell_glyph(img, on, h, v, x, y)))),
                    )
                } else {
                    Err(cell_first_err(img, on, off, h, v, x, y))
                },
            }
        }
    }
}

/// Extraction over the layout rows from row `y` on: scans each row in
/// order, top to bottom, and stops at the first failing cell with its
/// error.
pub open spec fn scan_rows(
    img: GlyphSheet,
    on: u8,
    off: u8,
    h: int,
    v: int,
    rows: Seq<Seq<char>>,
    y: int,
    acc: Seq<Option<BitmapChar>>,
) -> Result<Seq<Option<BitmapChar>>, ExtractError>
    decreases rows.len() - y,
{
    if y < 0 || y >= rows.len() {
        Ok(acc)
    } else {
        match scan_row(img, on, off, h, v, rows[y], y, 0, acc) {
            Ok(t) => scan_rows(img, on, off, h, v, rows, y + 1, t),
            Err(e) => Err(e),
        }
    }
}

/// What a whole extraction pass produces: the font table filled from a
/// blank table by scanning every layout cell in row-major order, or the
/// error of the first failing cell.
pub open spec fn extract_spec(
    img: GlyphSheet,
    on: u8,
    off: u8,
    h: int,
    v: int,
    rows: Seq<Seq<char>>,
) -> Result<Seq<Option<BitmapChar>>, ExtractError> {
    scan_rows(img, on, off, h, v, rows, 0, blank_table())
}

/// A row scan succeeds exactly when every remaining cell of the row can be
/// extracted, whatever the table so far holds.
proof fn lemma_scan_row_ok(
    img: GlyphSheet,
    on: u8,
    off: u8,
    h: int,
    v: int,
    row: Seq<char>,
    y: int,
    x: int,
    acc: Seq<Option<BitmapChar>>,
)
    requires
        0 <= x,
    ensures
        (scan_row(img, on, off, h, v, row, y, x, acc) is Ok) <==> (forall|x2: int|
            x <= x2 < row.len() ==> #[trigger] row_cell_fine(img, on, off, h, v, row, y, x2)),
    decreases row.len() - x,
{
    if x < row.len() {
        let c = row[x];
        if c == NO_CHAR {
            lemma_scan_row_ok(img, on, off, h, v, row, y, x + 1, acc);
            assert(row_cell_fine(img, on, off, h, v, row, y, x));
        } else {
            match index_spec(c) {
                None => {
                    assert(!row_cell_fine(img, on, off, h, v, row, y, x));
                },
                Some(i) => {
                    if cell_ok(img, on, off, h, v, x, y) {
                        lemma_scan_row_ok(
                            img,
                            on,
                            off,
                            h,
                            v,
                            row,
                            y,
                            x + 1,
                            acc.update(i as int, Some(BitmapChar(cell_glyph(img, on, h, v, x, y)))),
                        );
                        assert(row_cell_fine(img, on, off, h, v, row, y, x));
                    } else {
                        assert(!row_cell_fine(img, on, off, h, v, row, y, x));
                    }
                },
            }
        }
    }
}

/// A scan over the rows from `y` on succeeds exactly when every cell of
/// every remaining row can be extracted, whatever the table so far holds.
proof fn lemma_scan_rows_ok(
    img: GlyphSheet,
    on: u8,
    off: u8,
    h: int,
    v: int,
    rows: Seq<Seq<char>>,
    y: int,
    acc: Seq<Option<BitmapChar>>,
)
    requires
        0 <= y,
    ensures
        (scan_rows(img, on, off, h, v, rows, y, acc) is Ok) <==> (forall|y2: int, x2: int|
            y <= y2 < rows.len() && 0 <= x2 < rows[y2].len() ==> #[trigger] row_cell_fine(
                img,
                on,
                off,
                h,
                v,
                rows[y2],
                y2,
                x2,
            )),
    decreases rows.len() - y,
{
    if y < rows.len() {
        lemma_scan_row_ok(img, on, off, h, v, rows[y], y, 0, acc);
        match scan_row(img, on, off, h, v, rows[y], y, 0, acc) {
            Ok(t) => {
                lemma_scan_rows_ok(img, on, off, h, v, rows, y + 1, t);
            },
            Err(e) => {},
        }
    }
}

/// Runs one extraction pass: scans the glyph cell of every character named
/// in `layout` out of `img`, sampling each of its 16 pixels against the two
/// reference colors, and assembles the font table in character-set order.
/// Slots of characters the layout does not name stay empty; a character
/// named twice keeps the glyph of its last cell in row-major order.
///
/// The pass succeeds exactly when every layout cell is empty or names a
/// character-set member whose 16 samples are all inside the image and match
/// one of the two reference colors; otherwise it aborts with the error of
/// the first failing cell in row-major order (`OutOfBounds` before
/// `ColorMismatch` within one sample, samples in row-major order within one
/// cell).
pub fn extract_font(
    img: &GlyphSheet,
    h_offset: usize,
    v_offset: usize,
    on: u8,
    off: u8,
    layout: &Vec<Vec<char>>,
) -> (r: Result<Font, ExtractError>)
    ensures
        r is Ok <==> layout_ok(
            *img,
            on,
            off,
            h_offset as int,
            v_offset as int,
            layout.deep_view(),
        ),
        r matches Ok(f) ==> Ok::<_, ExtractError>(f@) == extract_spec(
            *img,
            on,
            off,
            h_offset as int,
            v_offset as int,
            layout.deep_view(),
        ) && f@.len() == LENGTH,
        r matches Err(e) ==> Err::<Seq<Option<BitmapChar>>, _>(e) == extract_spec(
            *img,
            on,
            off,
            h_offset as int,
            v_offset as int,
            layout.deep_view(),
        ),
{
    let ghost rows = layout.deep_view();
    let ghost hi = h_offset as int;
    let ghost vi = v_offset as int;
    let mut table: [Option<BitmapChar>; LENGTH] = [None;LENGTH];
    proof {
        assert(table@ =~= blank_table());
        lemma_scan_rows_ok(*img, on, off, hi, vi, rows, 0, blank_table());
    }
    let mut y: usize = 0;
    while y < layout.len()
        invariant
            y <= layout.len(),
            rows == layout.deep_view(),
            hi == h_offset as int,
            vi == v_offset as int,
            scan_rows(*img, on, off, hi, vi, rows, y as int, table@) == extract_spec(
                *img,
                on,
                off,
                hi,
                vi,
                rows,
            ),
        decreases layout.len() - y,
    {
        let row = &layout[y];
        proof {
            assert(rows[y as int] =~= row@);
        }
        let mut x: usize = 0;
        while x < row.len()
            invariant
                y < layout.len(),
                x <= row.len(),
                rows == layout.deep_view(),
                rows[y as int] == row@,
                hi == h_offset as int,
                vi == v_offset as int,
                (match scan_row(*img, on, off, hi, vi, row@, y as int, x as int, table@) {
                    Ok(t) => scan_rows(*img, on, off, hi, vi, rows, y as int + 1, t),
                    Err(e) => Err(e),
                }) == extract_spec(*img, on, off, hi, vi, rows),
            decreases row.len() - x,
        {
            let c = row[x];
            if c != NO_CHAR {
                let i = match index(c) {
                    Some(i) => i,
                    None => {
                        proof {
                            assert(scan_row(*img, on, off, hi, vi, row@, y as int, x as int, table@)
                                == Err::<Seq<Option<BitmapChar>>, _>(ExtractError::UnsupportedChar));
                            lemma_scan_rows_ok(*img, on, off, hi, vi, rows, 0, blank_table());
                            assert(!row_cell_fine(*img, on, off, hi, vi, rows[y as int], y as int, x as int));
                        }
                        return Err(ExtractError::UnsupportedChar);
                    },
                };
                proof {
                    lemma_index_in_set(c);
                }
                match extract_cell(img, on, off, h_offset, v_offset, x, y) {
                    Ok(g) => {
                        let ghost prev_table = table@;
                        table[i] = Some(BitmapChar(g));
                        proof {
                            assert(table@ == prev_table.update(i as int, Some(BitmapChar(g))));
                            assert(scan_row(*img, on, off, hi, vi, row@, y as int, x as int, prev_table)
                                == scan_row(*img, on, off, hi, vi, row@, y as int, x as int + 1, table@));
                        }
                    },
                    Err(e) => {
                        proof {
                            assert(scan_row(*img, on, off, hi, vi, row@, y as int, x as int, table@)
                                == Err::<Seq<Option<BitmapChar>>, _>(e));
                            lemma_scan_rows_ok(*img, on, off, hi, vi, rows, 0, blank_table());
                            assert(!row_cell_fine(*img, on, off, hi, vi, rows[y as int], y as int, x as int));
                        }
                        return Err(e);
                    },
                }
            }
            x += 1;
        }
        proof {
            assert(scan_row(*img, on, off, hi, vi, row@, y as int, x as int, table@) == Ok::<
                _,
                ExtractError,
            >(table@));
        }
        y += 1;
    }
    proof {
        assert(scan_rows(*img, on, off, hi, vi, rows, y as int, table@) == Ok::<_, ExtractError>(
            table@,
        ));
        lemma_scan_rows_ok(*img, on, off, hi, vi, rows, 0, blank_table());
    }
    Ok(Font::new(table))
}

} // verus!
