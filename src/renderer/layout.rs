//! The output buffer: row-major, three bytes per pixel, no row padding; and
//! the partition of an image's columns among workers.

use vstd::arithmetic::div_mod::{lemma_fundamental_div_mod, lemma_mod_pos_bound};
use vstd::prelude::*;

use crate::renderer::image_len;

verus! {

/// The red, green and blue bytes of one pixel.
pub type Rgb = (u8, u8, u8);

/// The index of the first byte of pixel `(x, y)` in a buffer whose rows are
/// `width` pixels long.
pub open spec fn pixel_offset(x: int, y: int, width: int) -> int {
    (y * width + x) * 3
}

/// The three bytes of pixel `(x, y)`.
pub open spec fn pixel_at(buf: Seq<u8>, x: int, y: int, width: int) -> Rgb {
    let o = pixel_offset(x, y, width);
    (buf[o], buf[o + 1], buf[o + 2])
}

/// `buf` is a `width` by `height` image whose every pixel holds a value that
/// `op` may return for its coordinates.
pub open spec fn filled_by<F: Fn(usize, usize) -> Rgb>(
    op: F,
    buf: Seq<u8>,
    width: int,
    height: int,
) -> bool {
    &&& buf.len() == image_len(width, height)
    &&& forall|x: int, y: int|
        #![trigger pixel_at(buf, x, y, width)]
        0 <= x < width && 0 <= y < height ==> op.ensures(
            (x as usize, y as usize),
            pixel_at(buf, x, y, width),
        )
}

/// `op` returns one value for each pair of coordinates.
pub open spec fn deterministic<F: Fn(usize, usize) -> Rgb>(op: F) -> bool {
    forall|x: usize, y: usize, a: Rgb, b: Rgb|
        #![trigger op.ensures((x, y), a), op.ensures((x, y), b)]
        op.ensures((x, y), a) && op.ensures((x, y), b) ==> a == b
}

/// The bytes of row `y`.
pub open spec fn row_band(buf: Seq<u8>, y: int, width: int) -> Seq<u8> {
    buf.subrange(y * width * 3, (y + 1) * width * 3)
}

/// `row` is row `y` of an image `width` pixels wide, each pixel holding a
/// value that `op` may return for it.
pub open spec fn row_filled<F: Fn(usize, usize) -> Rgb>(
    op: F,
    row: Seq<u8>,
    y: int,
    width: int,
) -> bool {
    &&& row.len() == width * 3
    &&& forall|x: int|
        #![trigger pixel_at(row, x, 0, width)]
        0 <= x < width ==> op.ensures((x as usize, y as usize), pixel_at(row, x, 0, width))
}

/// The three bytes of a pixel lie inside the image.
pub proof fn lemma_pixel_in_image(x: int, y: int, width: int, height: int)
    requires
        0 <= x < width,
        0 <= y < height,
    ensures
        0 <= pixel_offset(x, y, width),
        pixel_offset(x, y, width) + 3 <= image_len(width, height),
{
    assert(0 <= y * width + x) by (nonlinear_arith)
        requires
            0 <= x < width,
            0 <= y,
    ;
    assert(y * width + x + 1 <= width * height) by (nonlinear_arith)
        requires
            0 <= x < width,
            0 <= y < height,
    ;
}

/// Two different pixels share no byte.
pub proof fn lemma_pixels_apart(x1: int, y1: int, x2: int, y2: int, width: int)
    requires
        0 <= x1 < width,
        0 <= x2 < width,
        0 <= y1,
        0 <= y2,
        x1 != x2 || y1 != y2,
    ensures
        pixel_offset(x1, y1, width) + 3 <= pixel_offset(x2, y2, width) || pixel_offset(
            x2,
            y2,
            width,
        ) + 3 <= pixel_offset(x1, y1, width),
{
    if y1 < y2 {
        assert(y1 * width + x1 < y2 * width + x2) by (nonlinear_arith)
            requires
                0 <= x1 < width,
                0 <= x2,
                y1 < y2,
        ;
    } else if y2 < y1 {
        assert(y2 * width + x2 < y1 * width + x1) by (nonlinear_arith)
            requires
                0 <= x2 < width,
                0 <= x1,
                y2 < y1,
        ;
    }
}

/// Writing the three bytes of pixel `(x, y)` sets that pixel and keeps every
/// other one.
pub proof fn lemma_write_pixel(old: Seq<u8>, new: Seq<u8>, x: int, y: int, width: int, rgb: Rgb)
    requires
        0 <= x < width,
        0 <= y,
        pixel_offset(x, y, width) + 3 <= old.len(),
        new == old.update(pixel_offset(x, y, width), rgb.0).update(
            pixel_offset(x, y, width) + 1,
            rgb.1,
        ).update(pixel_offset(x, y, width) + 2, rgb.2),
    ensures
        new.len() == old.len(),
        pixel_at(new, x, y, width) == rgb,
        forall|x2: int, y2: int|
            #![trigger pixel_at(new, x2, y2, width)]
            0 <= x2 < width && 0 <= y2 && (x2 != x || y2 != y) && pixel_offset(x2, y2, width) + 3
                <= old.len() ==> pixel_at(new, x2, y2, width) == pixel_at(old, x2, y2, width),
{
    assert(0 <= y * width + x) by (nonlinear_arith)
        requires
            0 <= x < width,
            0 <= y,
    ;
    assert forall|x2: int, y2: int|
        #![trigger pixel_at(new, x2, y2, width)]
        0 <= x2 < width && 0 <= y2 && (x2 != x || y2 != y) && pixel_offset(x2, y2, width) + 3
            <= old.len() implies pixel_at(new, x2, y2, width) == pixel_at(old, x2, y2, width) by {
        lemma_pixels_apart(x, y, x2, y2, width);
        assert(0 <= y2 * width + x2) by (nonlinear_arith)
            requires
                0 <= x2 < width,
                0 <= y2,
        ;
    }
}

/// Two buffers that one deterministic pixel operator filled, by whatever
/// strategy each was filled, are identical byte for byte.
pub proof fn lemma_fills_agree<F: Fn(usize, usize) -> Rgb>(
    op: F,
    a: Seq<u8>,
    b: Seq<u8>,
    width: int,
    height: int,
)
    requires
        0 <= width,
        0 <= height,
        width <= usize::MAX,
        height <= usize::MAX,
        deterministic(op),
        filled_by(op, a, width, height),
        filled_by(op, b, width, height),
    ensures
        a == b,
{
    assert forall|i: int| 0 <= i < a.len() implies a[i] == b[i] by {
        let k = i / 3;
        lemma_fundamental_div_mod(i, 3);
        lemma_mod_pos_bound(i, 3);
        assert(k * 3 <= i);
        assert(0 <= k < width * height);
        assert(width > 0) by (nonlinear_arith)
            requires
                0 <= k < width * height,
                0 <= height,
        ;
        let x = k % width;
        let y = k / width;
        lemma_fundamental_div_mod(k, width);
        lemma_mod_pos_bound(k, width);
        assert(0 <= y < height) by (nonlinear_arith)
            requires
                k == width * y + x,
                0 <= x < width,
                0 <= k < width * height,
        ;
        assert(pixel_offset(x, y, width) == 3 * k) by (nonlinear_arith)
            requires
                k == width * y + x,
        ;
        assert(op.ensures((x as usize, y as usize), pixel_at(a, x, y, width)));
        assert(op.ensures((x as usize, y as usize), pixel_at(b, x, y, width)));
    }
    assert(a =~= b);
}

/// A buffer whose every row a row task filled is filled as a whole.
pub proof fn lemma_rows_fill_image<F: Fn(usize, usize) -> Rgb>(
    op: F,
    buf: Seq<u8>,
    width: int,
    height: int,
)
    requires
        0 <= width,
        0 <= height,
        buf.len() == image_len(width, height),
        forall|y: int|
            0 <= y < height ==> row_filled(op, #[trigger] row_band(buf, y, width), y, width),
    ensures
        filled_by(op, buf, width, height),
{
    assert forall|x: int, y: int| 0 <= x < width && 0 <= y < height implies op.ensures(
        (x as usize, y as usize),
        #[trigger] pixel_at(buf, x, y, width),
    ) by {
        assert((y + 1) * width * 3 <= width * height * 3) by (nonlinear_arith)
            requires
                0 <= y < height,
                0 <= width,
        ;
        assert(0 <= y * width * 3) by (nonlinear_arith)
            requires
                0 <= y,
                0 <= width,
        ;
        assert((y + 1) * width * 3 == y * width * 3 + width * 3) by (nonlinear_arith);
        assert(pixel_offset(x, y, width) == y * width * 3 + x * 3) by (nonlinear_arith);
        let row = row_band(buf, y, width);
        assert(row_filled(op, row, y, width));
        assert(pixel_at(row, x, 0, width) == pixel_at(buf, x, y, width));
    }
}

/// The number of workers among which the columns of an image are split:
/// never more than there are columns, so that no worker is left without one.
pub open spec fn band_count(workers: int, width: int) -> int {
    if workers < width {
        workers
    } else {
        width
    }
}

/// The columns `[start, end)` of band `n` out of `count` bands over `width`
/// columns: each band is `width / count` columns wide, and the last one also
/// takes what the division leaves over.
pub open spec fn column_band(n: int, count: int, width: int) -> (int, int) {
    let len = width / count;
    (n * len, if n == count - 1 {
        width
    } else {
        (n + 1) * len
    })
}

/// Column `x` lies in `band`.
pub open spec fn in_band(band: (int, int), x: int) -> bool {
    band.0 <= x < band.1
}

/// Splits the `width` columns of an image into contiguous bands, one for
/// each of `min(workers, width)` workers.
pub fn column_bands(width: u32, workers: u32) -> (r: Vec<(u32, u32)>)
    requires
        0 < width,
        0 < workers,
    ensures
        r.len() == band_count(workers as int, width as int),
        forall|n: int|
            #![trigger r[n]]
            0 <= n < r.len() ==> (r[n].0 as int, r[n].1 as int) == column_band(
                n,
                r.len() as int,
                width as int,
            ),
{
    let threads = if workers < width {
        workers
    } else {
        width
    };
    let lenx = width / threads;
    proof {
        lemma_fundamental_div_mod(width as int, threads as int);
        lemma_mod_pos_bound(width as int, threads as int);
        assert(threads * lenx <= width) by (nonlinear_arith)
            requires
                width == threads * lenx + width % threads,
                0 <= width % threads,
        ;
    }
    let mut bands: Vec<(u32, u32)> = Vec::new();
    let mut n: u32 = 0;
    while n < threads
        invariant
            0 < threads <= width,
            threads as int == band_count(workers as int, width as int),
            lenx == width / threads,
            threads * lenx <= width,
            n <= threads,
            bands.len() == n,
            forall|k: int|
                #![trigger bands[k]]
                0 <= k < n ==> (bands[k].0 as int, bands[k].1 as int) == column_band(
                    k,
                    threads as int,
                    width as int,
                ),
        decreases threads - n,
    {
        assert(n * lenx <= (n + 1) * lenx <= threads * lenx) by (nonlinear_arith)
            requires
                n < threads,
                0 <= lenx,
        ;
        let start_x = n * lenx;
        let end_x = if n == threads - 1 {
            width
        } else {
            (n + 1) * lenx
        };
        bands.push((start_x, end_x));
        n += 1;
    }
    bands
}

/// Every column of an image lies in exactly one of the bands that
/// `column_bands` hands to the workers: none is skipped, none is computed
/// twice, whether or not the worker count divides the width.
pub proof fn lemma_bands_partition_columns(width: int, workers: int, x: int)
    requires
        0 < width,
        0 < workers,
        0 <= x < width,
    ensures
        exists|n: int|
            0 <= n < band_count(workers, width) && in_band(
                #[trigger] column_band(n, band_count(workers, width), width),
                x,
            ),
        forall|n1: int, n2: int|
            0 <= n1 < band_count(workers, width) && 0 <= n2 < band_count(workers, width)
                && in_band(#[trigger] column_band(n1, band_count(workers, width), width), x)
                && in_band(#[trigger] column_band(n2, band_count(workers, width), width), x)
                ==> n1 == n2,
{
    let c = band_count(workers, width);
    let len = width / c;
    lemma_fundamental_div_mod(width, c);
    lemma_mod_pos_bound(width, c);
    assert(len >= 1) by (nonlinear_arith)
        requires
            width == c * len + width % c,
            width % c < c,
            0 < c <= width,
    ;
    let q = x / len;
    lemma_fundamental_div_mod(x, len);
    lemma_mod_pos_bound(x, len);
    let n = if q < c - 1 {
        q
    } else {
        c - 1
    };
    assert(0 <= q) by (nonlinear_arith)
        requires
            x == len * q + x % len,
            0 <= x % len < len,
            0 <= x,
    ;
    assert(n * len <= x) by (nonlinear_arith)
        requires
            x == len * q + x % len,
            0 <= x % len,
            n <= q,
            0 < len,
    ;
    if q < c - 1 {
        assert(x < (q + 1) * len) by (nonlinear_arith)
            requires
                x == len * q + x % len,
                x % len < len,
        ;
    }
    assert(in_band(column_band(n, c, width), x));
    assert forall|n1: int, n2: int|
        0 <= n1 < c && 0 <= n2 < c && in_band(#[trigger] column_band(n1, c, width), x) && in_band(
            #[trigger] column_band(n2, c, width),
            x,
        ) implies n1 == n2 by {
        if n1 < n2 {
            assert((n1 + 1) * len <= n2 * len) by (nonlinear_arith)
                requires
                    n1 < n2,
                    0 < len,
            ;
        } else if n2 < n1 {
            assert((n2 + 1) * len <= n1 * len) by (nonlinear_arith)
                requires
                    n2 < n1,
                    0 < len,
            ;
        }
    }
}

} // verus!
