//! The CPU strategies' pixel work: the single-threaded walk over a tile, the
//! task that fills one row band, the worker that computes one column band,
//! and the collector's write of one computed pixel.
//!
//! Each takes the pixel operator as a closure from coordinates to the
//! pixel's bytes; the caller binds the scene and the render context into it.

use vstd::prelude::*;

use crate::renderer::context::RenderContext;
use crate::renderer::image_len;
use crate::renderer::layout::{
    band_count, column_band, filled_by, in_band, lemma_bands_partition_columns,
    lemma_pixel_in_image, lemma_write_pixel, pixel_at, pixel_offset, row_filled, Rgb,
};

verus! {

/// What a column worker hands to the collector: a pixel's column, its row,
/// and its bytes.
pub type PixelMessage = (u32, u32, Rgb);

/// Sets the three bytes that start at `offset`.
fn write_rgb(pixels: &mut [u8], offset: usize, rgb: Rgb)
    requires
        offset + 3 <= old(pixels)@.len(),
    ensures
        final(pixels)@ == old(pixels)@.update(offset as int, rgb.0).update(offset + 1, rgb.1).update(
            offset + 2,
            rgb.2,
        ),
{
    pixels[offset] = rgb.0;
    pixels[offset + 1] = rgb.1;
    pixels[offset + 2] = rgb.2;
}

/// Computes every pixel of the context's tile, row after row, and writes it
/// into the `bounds.0` by `bounds.1` buffer; the pixels outside the tile
/// keep their bytes.
pub fn render_naive<C, F: Fn(usize, usize) -> Rgb>(
    context: &RenderContext<C>,
    pixels: &mut [u8],
    bounds: (u32, u32),
    render_op: F,
)
    requires
        context.start_x <= context.end_x <= bounds.0,
        context.start_y <= context.end_y <= bounds.1,
        old(pixels)@.len() == image_len(bounds.0 as int, bounds.1 as int),
        forall|x: usize, y: usize|
            context.in_tile(x as int, y as int) ==> #[trigger] render_op.requires((x, y)),
    ensures
        final(pixels)@.len() == old(pixels)@.len(),
        forall|x: int, y: int|
            #![trigger pixel_at(final(pixels)@, x, y, bounds.0 as int)]
            0 <= x < bounds.0 && 0 <= y < bounds.1 ==> if context.in_tile(x, y) {
                render_op.ensures(
                    (x as usize, y as usize),
                    pixel_at(final(pixels)@, x, y, bounds.0 as int),
                )
            } else {
                pixel_at(final(pixels)@, x, y, bounds.0 as int) == pixel_at(
                    old(pixels)@,
                    x,
                    y,
                    bounds.0 as int,
                )
            },
        context.covers(bounds) ==> filled_by(
            render_op,
            final(pixels)@,
            bounds.0 as int,
            bounds.1 as int,
        ),
{
    let w = bounds.0 as usize;
    let ghost h = bounds.1 as int;
    let ghost start = pixels@;
    let mut y = context.start_y;
    while y < context.end_y
        invariant
            context.start_x <= context.end_x <= bounds.0,
            context.start_y <= y <= context.end_y <= bounds.1,
            w == bounds.0,
            h == bounds.1,
            start.len() == image_len(w as int, h),
            pixels@.len() == start.len(),
            forall|x: usize, y: usize|
                context.in_tile(x as int, y as int) ==> #[trigger] render_op.requires((x, y)),
            forall|x2: int, y2: int|
                #![trigger pixel_at(pixels@, x2, y2, w as int)]
                0 <= x2 < w && 0 <= y2 < h ==> if context.in_tile(x2, y2) && y2 < y {
                    render_op.ensures((x2 as usize, y2 as usize), pixel_at(pixels@, x2, y2, w as int))
                } else {
                    pixel_at(pixels@, x2, y2, w as int) == pixel_at(start, x2, y2, w as int)
                },
        decreases context.end_y - y,
    {
        let mut x = context.start_x;
        while x < context.end_x
            invariant
                context.start_x <= x <= context.end_x <= bounds.0,
                context.start_y <= y < context.end_y <= bounds.1,
                w == bounds.0,
                h == bounds.1,
                start.len() == image_len(w as int, h),
                pixels@.len() == start.len(),
                forall|x: usize, y: usize|
                    context.in_tile(x as int, y as int) ==> #[trigger] render_op.requires((x, y)),
                forall|x2: int, y2: int|
                    #![trigger pixel_at(pixels@, x2, y2, w as int)]
                    0 <= x2 < w && 0 <= y2 < h ==> if context.in_tile(x2, y2) && (y2 < y || (y2
                        == y && x2 < x)) {
                        render_op.ensures(
                            (x2 as usize, y2 as usize),
                            pixel_at(pixels@, x2, y2, w as int),
                        )
                    } else {
                        pixel_at(pixels@, x2, y2, w as int) == pixel_at(start, x2, y2, w as int)
                    },
            decreases context.end_x - x,
        {
            let rgb = render_op(x as usize, y as usize);
            proof {
                assert(pixels@.len() == pixels.len());
                lemma_pixel_in_image(x as int, y as int, w as int, h);
                assert(y * w <= (y * w + x) * 3) by (nonlinear_arith);
            }
            let offset = (y as usize * w + x as usize) * 3;
            let ghost before = pixels@;
            write_rgb(pixels, offset, rgb);
            proof {
                lemma_write_pixel(before, pixels@, x as int, y as int, w as int, rgb);
                assert forall|x2: int, y2: int| 0 <= x2 < w && 0 <= y2 < h implies
                    #[trigger] pixel_offset(x2, y2, w as int) + 3 <= before.len() by {
                    lemma_pixel_in_image(x2, y2, w as int, h);
                }
            }
            x += 1;
        }
        y += 1;
    }
    proof {
        if context.covers(bounds) {
            assert forall|x2: int, y2: int| 0 <= x2 < w && 0 <= y2 < h implies render_op.ensures(
                (x2 as usize, y2 as usize),
                #[trigger] pixel_at(pixels@, x2, y2, w as int),
            ) by {
                assert(context.in_tile(x2, y2));
            }
        }
    }
}

/// Fills one row band: the `width` pixels of row `y`, three bytes each.
pub fn render_row<F: Fn(usize, usize) -> Rgb>(
    band: &mut [u8],
    y: usize,
    width: usize,
    render_op: F,
)
    requires
        old(band)@.len() == width * 3,
        forall|x: usize| x < width ==> #[trigger] render_op.requires((x, y)),
    ensures
        row_filled(render_op, final(band)@, y as int, width as int),
{
    let mut x: usize = 0;
    while x < width
        invariant
            x <= width,
            band@.len() == width * 3,
            forall|x: usize| x < width ==> #[trigger] render_op.requires((x, y)),
            forall|x2: int|
                #![trigger pixel_at(band@, x2, 0, width as int)]
                0 <= x2 < x ==> render_op.ensures(
                    (x2 as usize, y),
                    pixel_at(band@, x2, 0, width as int),
                ),
        decreases width - x,
    {
        let rgb = render_op(x, y);
        assert(band@.len() == band.len());
        let ghost before = band@;
        write_rgb(band, x * 3, rgb);
        proof {
            lemma_write_pixel(before, band@, x as int, 0, width as int, rgb);
            assert forall|x2: int| 0 <= x2 < x implies #[trigger] pixel_offset(x2, 0, width as int)
                + 3 <= before.len() by {}
        }
        x += 1;
    }
}

/// `out` is what a column worker computes for the columns
/// `[band.0, band.1)` of an image `height` rows high: the band's pixels
/// column by column, each column top down, each with a value that `op` may
/// return for it.
pub open spec fn band_output<F: Fn(usize, usize) -> Rgb>(
    op: F,
    out: Seq<PixelMessage>,
    band: (int, int),
    height: int,
) -> bool {
    &&& out.len() == (band.1 - band.0) * height
    &&& forall|i: int|
        #![trigger out[i]]
        0 <= i < out.len() ==> {
            &&& band.0 <= out[i].0 < band.1
            &&& out[i].1 < height
            &&& i == (out[i].0 - band.0) * height + out[i].1
            &&& op.ensures((out[i].0 as usize, out[i].1 as usize), out[i].2)
        }
}

/// Computes the pixels of the columns `[start_x, end_x)`, every row of each,
/// as the messages that a column worker sends to the collector.
pub fn render_column_band<F: Fn(usize, usize) -> Rgb>(
    start_x: u32,
    end_x: u32,
    height: u32,
    render_op: F,
) -> (r: Vec<PixelMessage>)
    requires
        start_x <= end_x,
        forall|x: usize, y: usize|
            start_x <= x < end_x && y < height ==> #[trigger] render_op.requires((x, y)),
    ensures
        band_output(render_op, r@, (start_x as int, end_x as int), height as int),
{
    let mut messages: Vec<PixelMessage> = Vec::new();
    let mut x = start_x;
    while x < end_x
        invariant
            start_x <= x <= end_x,
            messages.len() == (x - start_x) * height,
            forall|x: usize, y: usize|
                start_x <= x < end_x && y < height ==> #[trigger] render_op.requires((x, y)),
            forall|i: int|
                0 <= i < messages.len() ==> (start_x <= #[trigger] messages[i].0 < end_x && messages[i].1 < height && i == (
                    messages[i].0 - start_x) * height + messages[i].1) && render_op.ensures(
                    (messages[i].0 as usize, messages[i].1 as usize),
                    messages[i].2,
                ),
        decreases end_x - x,
    {
        let mut y: u32 = 0;
        while y < height
            invariant
                start_x <= x < end_x,
                y <= height,
                messages.len() == (x - start_x) * height + y,
                forall|x: usize, y: usize|
                    start_x <= x < end_x && y < height ==> #[trigger] render_op.requires((x, y)),
                forall|i: int|
                    0 <= i < messages.len() ==> (start_x <= #[trigger] messages[i].0 < end_x && messages[i].1 < height && i == (
                        messages[i].0 - start_x) * height + messages[i].1) && render_op.ensures(
                        (messages[i].0 as usize, messages[i].1 as usize),
                        messages[i].2,
                    ),
            decreases height - y,
        {
            let rgb = render_op(x as usize, y as usize);
            messages.push((x, y, rgb));
            y += 1;
        }
        assert((x - start_x) * height + height == (x + 1 - start_x) * height) by (nonlinear_arith);
        x += 1;
    }
    messages
}

/// `buf` after the bytes of the pixel in `message` were written into it.
pub open spec fn pixel_written(buf: Seq<u8>, width: int, message: PixelMessage) -> Seq<u8> {
    let o = pixel_offset(message.0 as int, message.1 as int, width);
    buf.update(o, message.2.0).update(o + 1, message.2.1).update(o + 2, message.2.2)
}

/// `buf` after the collector stored `messages`, in their order.
pub open spec fn stored(buf: Seq<u8>, width: int, messages: Seq<PixelMessage>) -> Seq<u8>
    decreases messages.len(),
{
    if messages.len() == 0 {
        buf
    } else {
        pixel_written(stored(buf, width, messages.drop_last()), width, messages.last())
    }
}

/// The collector's step: writes the bytes of one computed pixel into the
/// buffer of an image `width` pixels wide.
pub fn store_pixel(pixels: &mut [u8], width: u32, message: PixelMessage)
    requires
        message.0 < width,
        pixel_offset(message.0 as int, message.1 as int, width as int) + 3 <= old(pixels)@.len(),
    ensures
        final(pixels)@ == pixel_written(old(pixels)@, width as int, message),
        pixel_at(final(pixels)@, message.0 as int, message.1 as int, width as int) == message.2,
{
    let (x, y, rgb) = message;
    assert(pixels@.len() == pixels.len());
    assert(y * width <= (y * width + x) * 3) by (nonlinear_arith);
    let offset = (y as usize * width as usize + x as usize) * 3;
    let ghost before = pixels@;
    write_rgb(pixels, offset, rgb);
    proof {
        lemma_write_pixel(before, pixels@, x as int, y as int, width as int, rgb);
    }
}

/// Storing messages, each a value that `op` may return for its pixel of the
/// image, leaves every pixel that one of them names holding such a value.
proof fn lemma_stored_pixels<F: Fn(usize, usize) -> Rgb>(
    op: F,
    buf: Seq<u8>,
    width: int,
    height: int,
    messages: Seq<PixelMessage>,
)
    requires
        0 < width,
        0 <= height,
        buf.len() == image_len(width, height),
        forall|i: int|
            0 <= i < messages.len() ==> {
                &&& #[trigger] messages[i].0 < width
                &&& messages[i].1 < height
                &&& op.ensures((messages[i].0 as usize, messages[i].1 as usize), messages[i].2)
            },
    ensures
        stored(buf, width, messages).len() == buf.len(),
        forall|x: int, y: int, i: int|
            #![trigger pixel_at(stored(buf, width, messages), x, y, width), messages[i]]
            0 <= i < messages.len() && messages[i].0 == x && messages[i].1 == y ==> op.ensures(
                (x as usize, y as usize),
                pixel_at(stored(buf, width, messages), x, y, width),
            ),
    decreases messages.len(),
{
    if messages.len() > 0 {
        let prefix = messages.drop_last();
        assert forall|i: int| 0 <= i < prefix.len() implies {
            &&& #[trigger] prefix[i].0 < width
            &&& prefix[i].1 < height
            &&& op.ensures((prefix[i].0 as usize, prefix[i].1 as usize), prefix[i].2)
        } by {
            assert(prefix[i] == messages[i]);
        }
        lemma_stored_pixels(op, buf, width, height, prefix);
        let m = messages.last();
        let prev = stored(buf, width, prefix);
        let next = stored(buf, width, messages);
        lemma_pixel_in_image(m.0 as int, m.1 as int, width, height);
        lemma_write_pixel(prev, next, m.0 as int, m.1 as int, width, m.2);
        assert forall|x: int, y: int, i: int|
            #![trigger pixel_at(next, x, y, width), messages[i]]
            0 <= i < messages.len() && messages[i].0 == x && messages[i].1 == y implies op.ensures(
                (x as usize, y as usize),
                pixel_at(next, x, y, width),
            ) by {
            if x != m.0 || y != m.1 {
                lemma_pixel_in_image(x, y, width, height);
                assert(prefix[i] == messages[i]);
                assert(pixel_at(prev, x, y, width) == pixel_at(next, x, y, width));
            }
        }
    }
}

/// Two places of a row-major walk with rows `height` long are one place
/// when their indices are.
proof fn lemma_walk_index(a: int, b: int, c: int, d: int, height: int)
    requires
        0 <= a,
        0 <= c,
        0 <= b < height,
        0 <= d < height,
        a * height + b == c * height + d,
    ensures
        a == c,
        b == d,
{
    if a < c {
        assert(a * height + b < c * height + d) by (nonlinear_arith)
            requires
                a < c,
                0 <= b < height,
                0 <= d,
        ;
    } else if c < a {
        assert(c * height + d < a * height + b) by (nonlinear_arith)
            requires
                c < a,
                0 <= d < height,
                0 <= b,
        ;
    }
}

/// Each column band lies inside the image.
proof fn lemma_band_in_image(n: int, count: int, width: int)
    requires
        0 <= n < count,
        0 < count <= width,
    ensures
        0 <= column_band(n, count, width).0 <= column_band(n, count, width).1 <= width,
{
    let len = width / count;
    vstd::arithmetic::div_mod::lemma_fundamental_div_mod(width, count);
    vstd::arithmetic::div_mod::lemma_mod_pos_bound(width, count);
    assert(0 <= n * len <= (n + 1) * len <= count * len <= width) by (nonlinear_arith)
        requires
            width == count * len + width % count,
            0 <= width % count,
            0 <= n < count,
            0 <= len,
    ;
    assert(0 <= len) by (nonlinear_arith)
        requires
            width == count * len + width % count,
            width % count < count,
            0 < count <= width,
    ;
    assert(n * len <= (count - 1) * len) by (nonlinear_arith)
        requires
            n < count,
            0 <= len,
    ;
}

/// Every message of every worker is among `messages`.
#[verifier::opaque]
pub open spec fn all_delivered(outputs: Seq<Seq<PixelMessage>>, messages: Seq<PixelMessage>) -> bool {
    forall|n: int, i: int|
        0 <= n < outputs.len() && 0 <= i < outputs[n].len() ==> exists|j: int|
            0 <= j < messages.len() && messages[j] == #[trigger] outputs[n][i]
}

/// Every one of `messages` is a message of some worker.
#[verifier::opaque]
pub open spec fn only_delivered(outputs: Seq<Seq<PixelMessage>>, messages: Seq<PixelMessage>) -> bool {
    forall|j: int|
        0 <= j < messages.len() ==> exists|n: int, i: int|
            0 <= n < outputs.len() && 0 <= i < outputs[n].len() && #[trigger] messages[j]
                == outputs[n][i]
}

/// Each message that the collector receives names a pixel of the image and
/// holds a value that `op` may return for it.
proof fn lemma_messages_in_image<F: Fn(usize, usize) -> Rgb>(
    op: F,
    width: int,
    height: int,
    outputs: Seq<Seq<PixelMessage>>,
    messages: Seq<PixelMessage>,
)
    requires
        0 < outputs.len() <= width,
        forall|n: int|
            0 <= n < outputs.len() ==> band_output(
                op,
                #[trigger] outputs[n],
                column_band(n, outputs.len() as int, width),
                height,
            ),
        only_delivered(outputs, messages),
    ensures
        forall|j: int|
            0 <= j < messages.len() ==> {
                &&& #[trigger] messages[j].0 < width
                &&& messages[j].1 < height
                &&& op.ensures((messages[j].0 as usize, messages[j].1 as usize), messages[j].2)
            },
{
    reveal(only_delivered);
    let c = outputs.len() as int;
    assert forall|j: int| 0 <= j < messages.len() implies {
        &&& #[trigger] messages[j].0 < width
        &&& messages[j].1 < height
        &&& op.ensures((messages[j].0 as usize, messages[j].1 as usize), messages[j].2)
    } by {
        let (n, i) = choose|n: int, i: int|
            0 <= n < outputs.len() && 0 <= i < outputs[n].len() && #[trigger] messages[j]
                == outputs[n][i];
        lemma_band_in_image(n, c, width);
        assert(band_output(op, outputs[n], column_band(n, c, width), height));
        assert(outputs[n][i] == messages[j]);
    }
}

/// Some message names pixel `(x, y)`: the band that holds column `x` was
/// computed whole, and each of its messages reached the collector.
proof fn lemma_pixel_has_message<F: Fn(usize, usize) -> Rgb>(
    op: F,
    width: int,
    height: int,
    workers: int,
    outputs: Seq<Seq<PixelMessage>>,
    messages: Seq<PixelMessage>,
    x: int,
    y: int,
)
    requires
        0 < width,
        0 < height,
        0 < workers,
        0 <= x < width,
        0 <= y < height,
        outputs.len() == band_count(workers, width),
        forall|n: int|
            0 <= n < outputs.len() ==> band_output(
                op,
                #[trigger] outputs[n],
                column_band(n, outputs.len() as int, width),
                height,
            ),
        all_delivered(outputs, messages),
    ensures
        exists|j: int| 0 <= j < messages.len() && #[trigger] messages[j].0 == x && messages[j].1 == y,
{
    reveal(all_delivered);
    let c = outputs.len() as int;
    lemma_bands_partition_columns(width, workers, x);
    let n = choose|n: int|
        0 <= n < band_count(workers, width) && in_band(
            #[trigger] column_band(n, band_count(workers, width), width),
            x,
        );
    let band = column_band(n, c, width);
    let o = outputs[n];
    assert(band_output(op, o, band, height));
    let i = (x - band.0) * height + y;
    assert(0 <= i < (band.1 - band.0) * height) by (nonlinear_arith)
        requires
            i == (x - band.0) * height + y,
            band.0 <= x < band.1,
            0 <= y < height,
    ;
    let m = o[i];
    lemma_walk_index(x - band.0, y, m.0 - band.0, m.1 as int, height);
    let j = choose|j: int| 0 <= j < messages.len() && messages[j] == #[trigger] outputs[n][i];
    assert(messages[j].0 == x && messages[j].1 == y);
}

/// The column strategy fills the whole image, whatever order the channel
/// delivers the workers' messages in: the collector stores `messages`, which
/// hold exactly the messages of the workers, and each worker computed the
/// band that `column_bands` gave it.
pub proof fn lemma_collector_fills_image<F: Fn(usize, usize) -> Rgb>(
    op: F,
    buf: Seq<u8>,
    width: int,
    height: int,
    workers: int,
    outputs: Seq<Seq<PixelMessage>>,
    messages: Seq<PixelMessage>,
)
    requires
        0 < width,
        0 < height,
        0 < workers,
        buf.len() == image_len(width, height),
        outputs.len() == band_count(workers, width),
        forall|n: int|
            0 <= n < outputs.len() ==> band_output(
                op,
                #[trigger] outputs[n],
                column_band(n, outputs.len() as int, width),
                height,
            ),
        all_delivered(outputs, messages),
        only_delivered(outputs, messages),
    ensures
        filled_by(op, stored(buf, width, messages), width, height),
{
    assert(0 < outputs.len() <= width);
    lemma_messages_in_image(op, width, height, outputs, messages);
    lemma_stored_pixels(op, buf, width, height, messages);
    let out = stored(buf, width, messages);
    assert forall|x: int, y: int| 0 <= x < width && 0 <= y < height implies op.ensures(
        (x as usize, y as usize),
        #[trigger] pixel_at(out, x, y, width),
    ) by {
        lemma_pixel_has_message(op, width, height, workers, outputs, messages, x, y);
        let j = choose|j: int|
            0 <= j < messages.len() && #[trigger] messages[j].0 == x && messages[j].1 == y;
        assert(messages[j].0 == x);
    }
}

} // verus!
