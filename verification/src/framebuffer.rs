//! The framebuffer surface: a rectangle of pixels, row by row, and the
//! draws that the compositor makes on it.

use vstd::prelude::*;
use vstd::arithmetic::div_mod::{lemma_fundamental_div_mod, lemma_fundamental_div_mod_converse};
use crate::fb::Pixel;

verus! {

/// What the framebuffer device tells about itself.
#[derive(Debug, Clone, Copy, PartialEq, Eq, Structural)]
pub struct FramebufferDevInfo {
    pub width: usize,
    pub height: usize,
    /// Bits per pixel; the only layout in use has 32.
    pub bpp: usize,
    /// Whether a pixel is stored blue first; the only layout in use is not.
    pub bgr: bool,
}

impl FramebufferDevInfo {
    /// Whether the device has the one layout that the surface draws in: 32
    /// bits per pixel, not blue first.
    pub fn is_supported(&self) -> (supported: bool)
        ensures
            supported == (self.bpp == 32 && !self.bgr),
    {
        self.bpp == 32 && !self.bgr
    }
}

/// The command that asks the framebuffer device about itself.
pub const CMD_RECEIVE_FB_INFO: u16 = 1;

/// The command that asks the framebuffer device to present a rectangle.
pub const CMD_SYNC_PIXELS: u16 = 2;

/// The size of a page of memory, in bytes.
pub const PAGE_SIZE: usize = 4096;

/// The number of pages that hold `width * height` pixels of four bytes:
/// the bytes divided by the size of a page, rounded up. `None` when the
/// number of bytes is beyond the range of the machine's word.
pub fn pages_required(width: usize, height: usize) -> (pages: Option<usize>)
    ensures
        pages == if width * height * 4 <= usize::MAX {
            Some(((width * height * 4 + 4095) / 4096) as usize)
        } else {
            None
        },
{
    assert(0 <= width * height) by (nonlinear_arith)
        requires
            0 <= width,
            0 <= height,
    ;
    let pixels = match width.checked_mul(height) {
        Some(pixels) => pixels,
        None => {
            return None;
        },
    };
    let bytes = match pixels.checked_mul(4) {
        Some(bytes) => bytes,
        None => {
            return None;
        },
    };
    if bytes % PAGE_SIZE == 0 {
        Some(bytes / PAGE_SIZE)
    } else {
        Some(bytes / PAGE_SIZE + 1)
    }
}

/// The colour under all windows.
pub open spec fn spec_bg_pixel() -> Pixel {
    Pixel { blue: 0x28, green: 0x28, red: 0x28, alpha: 0xFF }
}

/// The colour under all windows: opaque 0x282828.
pub fn bg_pixel() -> (pixel: Pixel)
    ensures
        pixel == spec_bg_pixel(),
{
    Pixel::from_rgba(0x28, 0x28, 0x28, 0xFF)
}

/// Whether the pixel at index `i` of a surface with rows of `stride` pixels
/// lies in row `row` of the fill that starts at (`off_x`, `off_y`) with rows
/// of `width` pixels. A row is the run of `width` pixels from the index of
/// its first pixel; it is not cut at the right edge of the surface.
pub open spec fn in_fill_row(i: int, stride: int, off_x: int, off_y: int, width: int, row: int) -> bool {
    off_x + (off_y + row) * stride <= i < off_x + (off_y + row) * stride + width
}

/// Whether the pixel at index `i` lies in one of the first `height` rows of
/// the fill.
pub open spec fn in_fill(i: int, stride: int, off_x: int, off_y: int, width: int, height: int) -> bool {
    exists|row: int| 0 <= row < height && #[trigger] in_fill_row(i, stride, off_x, off_y, width, row)
}

/// The surface after a fill: the pixels in the rows of the fill are `pixel`,
/// all others are as before. Rows or parts of rows beyond the end of the
/// surface are dropped.
pub open spec fn spec_filled(
    before: Seq<Pixel>,
    stride: int,
    off_x: int,
    off_y: int,
    width: int,
    height: int,
    pixel: Pixel,
) -> Seq<Pixel> {
    Seq::new(
        before.len(),
        |i: int|
            if in_fill(i, stride, off_x, off_y, width, height) {
                pixel
            } else {
                before[i]
            },
    )
}

/// The extent `want` cut to what is left of `have` from `at` on.
pub open spec fn spec_clip(want: int, have: int, at: int) -> int {
    if have <= at {
        0
    } else if want <= have - at {
        want
    } else {
        have - at
    }
}

/// Whether the pixel at index `i` of a surface with rows of `stride` pixels
/// lies in the rectangle of `w` by `h` pixels at (`off_x`, `off_y`).
pub open spec fn in_rect(i: int, stride: int, off_x: int, off_y: int, w: int, h: int) -> bool {
    stride > 0 && off_x <= i % stride < off_x + w && off_y <= i / stride < off_y + h
}

/// The source pixel that is drawn at index `i` of the surface: the one at
/// the same place of the rectangle, counted from (`rel_x`, `rel_y`) of the
/// source.
pub open spec fn source_index(
    i: int,
    stride: int,
    off_x: int,
    off_y: int,
    src_stride: int,
    rel_x: int,
    rel_y: int,
) -> int {
    rel_x + (i % stride - off_x) + (rel_y + (i / stride - off_y)) * src_stride
}

/// The surface after a blend of a rectangle of source pixels onto it.
///
/// The rectangle of `width` by `height` pixels is cut so that it lies inside
/// the source from (`rel_x`, `rel_y`) on and inside the surface from
/// (`off_x`, `off_y`) on. Every pixel of the surface in the cut rectangle is
/// the source pixel at the same place of the rectangle blended over what was
/// there; all others are as before.
pub open spec fn spec_blended(
    before: Seq<Pixel>,
    stride: int,
    rows: int,
    off_x: int,
    off_y: int,
    width: int,
    height: int,
    src: Seq<Pixel>,
    src_stride: int,
    src_rows: int,
    rel_x: int,
    rel_y: int,
) -> Seq<Pixel> {
    let w = spec_clip(spec_clip(width, src_stride, rel_x), stride, off_x);
    let h = spec_clip(spec_clip(height, src_rows, rel_y), rows, off_y);
    Seq::new(
        before.len(),
        |i: int|
            if in_rect(i, stride, off_x, off_y, w, h) {
                src[source_index(i, stride, off_x, off_y, src_stride, rel_x, rel_y)].spec_blend(
                    before[i],
                )
            } else {
                before[i]
            },
    )
}

/// A surface of pixels, row by row from the top.
pub struct Framebuffer {
    width: usize,
    height: usize,
    pixels: Vec<Pixel>,
}

impl Framebuffer {
    /// The number of pixels in a row.
    pub closed spec fn spec_width(&self) -> usize {
        self.width
    }

    /// The number of rows.
    pub closed spec fn spec_height(&self) -> usize {
        self.height
    }

    /// The pixels, row by row.
    pub closed spec fn view(&self) -> Seq<Pixel> {
        self.pixels@
    }

    /// There are `width * height` pixels.
    pub closed spec fn wf(&self) -> bool {
        self.pixels@.len() == self.width * self.height
    }

    /// What well-formedness says in terms of the public accessors.
    pub proof fn lemma_wf(&self)
        ensures
            self.wf() <==> self@.len() == self.spec_width() * self.spec_height(),
    {
    }

    /// A surface of `width` by `height` pixels, all of them `pixel`.
    pub fn new(width: usize, height: usize, pixel: Pixel) -> (fb: Self)
        requires
            width * height <= usize::MAX,
        ensures
            fb.wf(),
            fb.spec_width() == width,
            fb.spec_height() == height,
            fb@ == Seq::new((width * height) as nat, |i: int| pixel),
    {
        let count: usize = width * height;
        let mut pixels: Vec<Pixel> = Vec::new();
        let mut i: usize = 0;
        while i < count
            invariant
                i <= count,
                pixels@ == Seq::new(i as nat, |j: int| pixel),
            decreases count - i,
        {
            pixels.push(pixel);
            i += 1;
            assert(pixels@ =~= Seq::new(i as nat, |j: int| pixel));
        }
        Self { width, height, pixels }
    }

    /// The number of pixels in a row.
    pub fn width(&self) -> (w: usize)
        ensures
            w == self.spec_width(),
    {
        self.width
    }

    /// The number of rows.
    pub fn height(&self) -> (h: usize)
        ensures
            h == self.spec_height(),
    {
        self.height
    }

    /// The pixels, row by row.
    pub fn pixels(&self) -> (pixels: &Vec<Pixel>)
        ensures
            pixels@ == self@,
    {
        &self.pixels
    }

    /// Overwrites `height` rows of `width` pixels with `pixel`, the first
    /// row starting at (`off_x`, `off_y`). Nothing is blended. A row that
    /// would start at or past the end of the surface ends the draw, and a
    /// row is cut where the surface ends.
    pub fn draw_rect_filled_with(
        &mut self,
        off_x: usize,
        off_y: usize,
        width: usize,
        height: usize,
        pixel: Pixel,
    )
        requires
            old(self).wf(),
        ensures
            final(self).wf(),
            final(self).spec_width() == old(self).spec_width(),
            final(self).spec_height() == old(self).spec_height(),
            final(self)@ == spec_filled(
                old(self)@,
                old(self).spec_width() as int,
                off_x as int,
                off_y as int,
                width as int,
                height as int,
                pixel,
            ),
    {
        let len = self.pixels.len();
        let stride = self.width;
        let ghost before = self.pixels@;
        let mut row: usize = 0;
        while row < height
            invariant
                row <= height,
                stride == self.width,
                self.width == old(self).width,
                self.height == old(self).height,
                before == old(self).pixels@,
                len == before.len(),
                self.pixels@.len() == len,
                forall|i: int|
                    0 <= i < len ==> self.pixels@[i] == if in_fill(
                        i,
                        stride as int,
                        off_x as int,
                        off_y as int,
                        width as int,
                        row as int,
                    ) {
                        pixel
                    } else {
                        before[i]
                    },
            ensures
                self.width == old(self).width,
                self.height == old(self).height,
                self.pixels@.len() == len,
                forall|i: int|
                    0 <= i < len ==> self.pixels@[i] == if in_fill(
                        i,
                        stride as int,
                        off_x as int,
                        off_y as int,
                        width as int,
                        height as int,
                    ) {
                        pixel
                    } else {
                        before[i]
                    },
            decreases height - row,
        {
            let start = row_start(off_x, off_y, row, stride);
            let start = match start {
                Some(start) => if start < len {
                    start
                } else {
                    len
                },
                None => len,
            };
            if start >= len {
                proof {
                    assert forall|i: int| 0 <= i < len implies in_fill(
                        i,
                        stride as int,
                        off_x as int,
                        off_y as int,
                        width as int,
                        height as int,
                    ) == in_fill(
                        i,
                        stride as int,
                        off_x as int,
                        off_y as int,
                        width as int,
                        row as int,
                    ) by {
                        lemma_fill_ends(
                            i,
                            stride as int,
                            off_x as int,
                            off_y as int,
                            width as int,
                            row as int,
                            height as int,
                        );
                    }
                }
                break ;
            }
            let end = if width <= len - start { start + width } else { len };
            let ghost rows_before = self.pixels@;
            let mut at: usize = start;
            while at < end
                invariant
                    start <= at <= end,
                    end <= len,
                    self.width == old(self).width,
                    self.height == old(self).height,
                    self.pixels@.len() == len,
                    forall|i: int|
                        0 <= i < len ==> self.pixels@[i] == if start <= i < at {
                            pixel
                        } else {
                            rows_before[i]
                        },
                decreases end - at,
            {
                self.pixels[at] = pixel;
                at += 1;
            }
            proof {
                assert forall|i: int| 0 <= i < len implies self.pixels@[i] == if in_fill(
                    i,
                    stride as int,
                    off_x as int,
                    off_y as int,
                    width as int,
                    row + 1,
                ) {
                    pixel
                } else {
                    before[i]
                } by {
                    lemma_fill_next_row(
                        i,
                        stride as int,
                        off_x as int,
                        off_y as int,
                        width as int,
                        row as int,
                    );
                }
            }
            row += 1;
        }
        assert(self.pixels@ =~= spec_filled(
            before,
            stride as int,
            off_x as int,
            off_y as int,
            width as int,
            height as int,
            pixel,
        ));
    }

    /// Blends the rectangle of `width` by `height` pixels at
    /// (`pixel_rel_x`, `pixel_rel_y`) of the source `pixels`, which has rows
    /// of `pixels_width` pixels, onto the surface at (`off_x`, `off_y`). The
    /// rectangle is cut to what lies inside the source and inside the
    /// surface.
    pub fn draw_rect_within(
        &mut self,
        off_x: usize,
        off_y: usize,
        width: usize,
        height: usize,
        pixels: &[Pixel],
        pixels_width: usize,
        pixels_height: usize,
        pixel_rel_x: usize,
        pixel_rel_y: usize,
    )
        requires
            old(self).wf(),
            pixels@.len() >= pixels_width * pixels_height,
        ensures
            final(self).wf(),
            final(self).spec_width() == old(self).spec_width(),
            final(self).spec_height() == old(self).spec_height(),
            final(self)@ == spec_blended(
                old(self)@,
                old(self).spec_width() as int,
                old(self).spec_height() as int,
                off_x as int,
                off_y as int,
                width as int,
                height as int,
                pixels@,
                pixels_width as int,
                pixels_height as int,
                pixel_rel_x as int,
                pixel_rel_y as int,
            ),
    {
        let stride = self.width;
        let rows = self.height;
        let len = self.pixels.len();
        let ghost old_width = width;
        let ghost old_height = height;
        let width = clip(clip(width, pixels_width, pixel_rel_x), stride, off_x);
        let height = clip(clip(height, pixels_height, pixel_rel_y), rows, off_y);
        let ghost before = self.pixels@;
        let ghost src = pixels@;
        let src_len = pixels.len();
        let mut row: usize = 0;
        while row < height
            invariant
                row <= height,
                stride == self.width,
                rows == self.height,
                self.width == old(self).width,
                self.height == old(self).height,
                before == old(self).pixels@,
                src == pixels@,
                len == before.len(),
                len == stride * rows,
                self.pixels@.len() == len,
                src.len() >= pixels_width * pixels_height,
                src.len() == src_len,
                width == 0 || (off_x + width <= stride && pixel_rel_x + width <= pixels_width),
                height == 0 || (off_y + height <= rows && pixel_rel_y + height <= pixels_height),
                forall|i: int|
                    0 <= i < len ==> self.pixels@[i] == if in_rect(
                        i,
                        stride as int,
                        off_x as int,
                        off_y as int,
                        width as int,
                        row as int,
                    ) {
                        src[source_index(
                            i,
                            stride as int,
                            off_x as int,
                            off_y as int,
                            pixels_width as int,
                            pixel_rel_x as int,
                            pixel_rel_y as int,
                        )].spec_blend(before[i])
                    } else {
                        before[i]
                    },
            decreases height - row,
        {
            let mut col: usize = 0;
            while col < width
                invariant
                    row < height,
                    col <= width,
                    stride == self.width,
                    rows == self.height,
                    self.width == old(self).width,
                    self.height == old(self).height,
                    before == old(self).pixels@,
                    src == pixels@,
                    len == before.len(),
                    len == stride * rows,
                    self.pixels@.len() == len,
                    src.len() >= pixels_width * pixels_height,
                    src.len() == src_len,
                src.len() == src_len,
                    width == 0 || (off_x + width <= stride && pixel_rel_x + width <= pixels_width),
                    off_y + height <= rows,
                    pixel_rel_y + height <= pixels_height,
                    forall|i: int|
                        0 <= i < len ==> self.pixels@[i] == if in_rect(
                            i,
                            stride as int,
                            off_x as int,
                            off_y as int,
                            width as int,
                            row as int,
                        ) || in_rect(
                            i,
                            stride as int,
                            off_x as int,
                            off_y + row,
                            col as int,
                            1,
                        ) {
                            src[source_index(
                                i,
                                stride as int,
                                off_x as int,
                                off_y as int,
                                pixels_width as int,
                                pixel_rel_x as int,
                                pixel_rel_y as int,
                            )].spec_blend(before[i])
                        } else {
                            before[i]
                        },
                decreases width - col,
            {
                proof {
                    lemma_index_in_range(
                        off_x + col,
                        off_y + row,
                        stride as int,
                        rows as int,
                    );
                    lemma_index_in_range(
                        pixel_rel_x + col,
                        pixel_rel_y + row,
                        pixels_width as int,
                        pixels_height as int,
                    );
                }
                assert(0 <= (pixel_rel_y + row) * pixels_width) by (nonlinear_arith)
                    requires
                        0 <= pixel_rel_y + row,
                        0 <= pixels_width,
                ;
                assert(0 <= (off_y + row) * stride) by (nonlinear_arith)
                    requires
                        0 <= off_y + row,
                        0 <= stride,
                ;
                let target: usize = off_x + col + (off_y + row) * stride;
                let source: usize = pixel_rel_x + col + (pixel_rel_y + row) * pixels_width;
                let ghost drawn = self.pixels@;
                let blended = pixels[source].blend(&self.pixels[target]);
                self.pixels[target] = blended;
                proof {
                    assert forall|i: int| 0 <= i < len implies self.pixels@[i] == if in_rect(
                        i,
                        stride as int,
                        off_x as int,
                        off_y as int,
                        width as int,
                        row as int,
                    ) || in_rect(i, stride as int, off_x as int, off_y + row, col + 1, 1) {
                        src[source_index(
                            i,
                            stride as int,
                            off_x as int,
                            off_y as int,
                            pixels_width as int,
                            pixel_rel_x as int,
                            pixel_rel_y as int,
                        )].spec_blend(before[i])
                    } else {
                        before[i]
                    } by {
                        lemma_fundamental_div_mod(i, stride as int);
                        lemma_fundamental_div_mod(target as int, stride as int);
                        assert(stride * (i / (stride as int)) == (i / (stride as int)) * stride)
                            by (nonlinear_arith);
                        assert(stride * (target / stride) as int == (target / stride) * stride)
                            by (nonlinear_arith);
                    }
                }
                col += 1;
            }
            proof {
                assert forall|i: int| 0 <= i < len implies (in_rect(
                    i,
                    stride as int,
                    off_x as int,
                    off_y as int,
                    width as int,
                    row as int,
                ) || in_rect(i, stride as int, off_x as int, off_y + row, width as int, 1))
                    == in_rect(
                    i,
                    stride as int,
                    off_x as int,
                    off_y as int,
                    width as int,
                    row + 1,
                ) by {}
            }
            row += 1;
        }
        assert(self.pixels@ =~= spec_blended(
            before,
            stride as int,
            rows as int,
            off_x as int,
            off_y as int,
            old_width as int,
            old_height as int,
            src,
            pixels_width as int,
            pixels_height as int,
            pixel_rel_x as int,
            pixel_rel_y as int,
        ));
    }

    /// Blends the rectangle of `width` by `height` source pixels onto the
    /// surface at (`off_x`, `off_y`), cut to what lies inside the surface.
    pub fn draw_rect(&mut self, off_x: usize, off_y: usize, width: usize, height: usize, pixels: &[Pixel])
        requires
            old(self).wf(),
            pixels@.len() >= width * height,
        ensures
            final(self).wf(),
            final(self).spec_width() == old(self).spec_width(),
            final(self).spec_height() == old(self).spec_height(),
            final(self)@ == spec_blended(
                old(self)@,
                old(self).spec_width() as int,
                old(self).spec_height() as int,
                off_x as int,
                off_y as int,
                width as int,
                height as int,
                pixels@,
                width as int,
                height as int,
                0,
                0,
            ),
    {
        self.draw_rect_within(off_x, off_y, width, height, pixels, width, height, 0, 0);
    }
}

/// The extent `want` cut to what is left of `have` from `at` on.
fn clip(want: usize, have: usize, at: usize) -> (cut: usize)
    ensures
        cut == spec_clip(want as int, have as int, at as int),
{
    if have <= at {
        0
    } else if want <= have - at {
        want
    } else {
        have - at
    }
}

/// The pixel at column `x` of row `y` has an index on a surface of `rows`
/// rows of `stride` pixels, and the index gives the column and the row back.
proof fn lemma_index_in_range(x: int, y: int, stride: int, rows: int)
    requires
        0 <= x < stride,
        0 <= y < rows,
    ensures
        0 <= x + y * stride < stride * rows,
        (x + y * stride) % stride == x,
        (x + y * stride) / stride == y,
{
    assert(y * stride + stride <= rows * stride) by (nonlinear_arith)
        requires
            y + 1 <= rows,
            stride >= 0,
    ;
    assert(rows * stride == stride * rows) by (nonlinear_arith);
    assert(0 <= y * stride) by (nonlinear_arith)
        requires
            0 <= y,
            0 <= stride,
    ;
    assert(x + y * stride == y * stride + x);
    assert(y * stride == stride * y) by (nonlinear_arith);
    lemma_fundamental_div_mod_converse(x + y * stride, stride, y, x);
}

/// The index at which row `row` of a draw at (`off_x`, `off_y`) starts on a
/// surface with rows of `stride` pixels; `None` when the index is beyond the
/// range of the machine's word.
fn row_start(off_x: usize, off_y: usize, row: usize, stride: usize) -> (start: Option<usize>)
    ensures
        match start {
            Some(start) => start == off_x + (off_y + row) * stride,
            None => off_x + (off_y + row) * stride > usize::MAX,
        },
{
    let line = match off_y.checked_add(row) {
        Some(line) => line,
        None => {
            return if stride == 0 {
                Some(off_x)
            } else {
                proof {
                    assert((off_y + row) * stride >= (off_y + row)) by (nonlinear_arith)
                        requires
                            stride >= 1,
                            off_y + row >= 0,
                    ;
                }
                None
            };
        },
    };
    let skipped = match line.checked_mul(stride) {
        Some(skipped) => skipped,
        None => {
            return None;
        },
    };
    off_x.checked_add(skipped)
}

/// A pixel lies in the first `row + 1` rows of a fill exactly when it lies
/// in the first `row` rows or in row `row`.
proof fn lemma_fill_next_row(i: int, stride: int, off_x: int, off_y: int, width: int, row: int)
    requires
        0 <= row,
    ensures
        in_fill(i, stride, off_x, off_y, width, row + 1) <==> (in_fill(
            i,
            stride,
            off_x,
            off_y,
            width,
            row,
        ) || in_fill_row(i, stride, off_x, off_y, width, row)),
{
    if in_fill(i, stride, off_x, off_y, width, row + 1) {
        let r = choose|r: int|
            0 <= r < row + 1 && #[trigger] in_fill_row(i, stride, off_x, off_y, width, r);
        if r < row {
            assert(in_fill(i, stride, off_x, off_y, width, row));
        }
    }
    if in_fill(i, stride, off_x, off_y, width, row) {
        let r = choose|r: int| 0 <= r < row && #[trigger] in_fill_row(i, stride, off_x, off_y, width, r);
        assert(0 <= r < row + 1 && in_fill_row(i, stride, off_x, off_y, width, r));
    }
    if in_fill_row(i, stride, off_x, off_y, width, row) {
        assert(0 <= row < row + 1 && in_fill_row(i, stride, off_x, off_y, width, row));
    }
}

/// Once a row starts past a pixel, so does every later row: the rows from
/// `row` on do not reach the pixel.
proof fn lemma_fill_ends(
    i: int,
    stride: int,
    off_x: int,
    off_y: int,
    width: int,
    row: int,
    height: int,
)
    requires
        0 <= stride,
        0 <= off_y,
        0 <= row <= height,
        i < off_x + (off_y + row) * stride,
    ensures
        in_fill(i, stride, off_x, off_y, width, height) == in_fill(
            i,
            stride,
            off_x,
            off_y,
            width,
            row,
        ),
{
    if in_fill(i, stride, off_x, off_y, width, height) {
        let r = choose|r: int| 0 <= r < height && #[trigger] in_fill_row(i, stride, off_x, off_y, width, r);
        if r >= row {
            assert((off_y + r) * stride >= (off_y + row) * stride) by (nonlinear_arith)
                requires
                    r >= row,
                    stride >= 0,
            ;
        }
        assert(r < row);
        assert(in_fill(i, stride, off_x, off_y, width, row));
    }
    if in_fill(i, stride, off_x, off_y, width, row) {
        let r = choose|r: int| 0 <= r < row && #[trigger] in_fill_row(i, stride, off_x, off_y, width, r);
        assert(0 <= r < height && in_fill_row(i, stride, off_x, off_y, width, r));
    }
}

/// Clears the surface: fills all of it with the background colour.
pub fn clear(fb: &mut Framebuffer)
    requires
        old(fb).wf(),
    ensures
        final(fb).wf(),
        final(fb).spec_width() == old(fb).spec_width(),
        final(fb).spec_height() == old(fb).spec_height(),
        final(fb)@ == Seq::new(old(fb)@.len(), |i: int| spec_bg_pixel()),
{
    let width = fb.width();
    let height = fb.height();
    fb.draw_rect_filled_with(0, 0, width, height, bg_pixel());
    proof {
        old(fb).lemma_wf();
        assert forall|i: int| 0 <= i < old(fb)@.len() implies in_fill(
            i,
            width as int,
            0,
            0,
            width as int,
            height as int,
        ) by {
            if width == 0 {
                assert(width * height == 0) by (nonlinear_arith)
                    requires
                        width == 0,
                ;
            } else {
                let row = i / (width as int);
                lemma_fundamental_div_mod(i, width as int);
                assert(width * row == row * width) by (nonlinear_arith);
                if row >= height {
                    assert(row * width >= height * width) by (nonlinear_arith)
                        requires
                            row >= height,
                            width >= 0,
                    ;
                    assert(height * width == width * height) by (nonlinear_arith);
                }
                assert(in_fill_row(i, width as int, 0, 0, width as int, row));
            }
        }
        assert(fb@ =~= Seq::new(old(fb)@.len(), |i: int| spec_bg_pixel()));
    }
}

} // verus!
