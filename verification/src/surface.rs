//! Pixel buffers. The buffer itself is tiny-skia's `Pixmap`: premultiplied RGBA, row by row,
//! without padding.

use crate::geometry::Color;
use vstd::prelude::*;

verus! {

/// tiny-skia's pixel buffer.
#[verifier::external_type_specification]
#[verifier::external_body]
pub struct ExPixmap(tiny_skia::Pixmap);

/// The bytes of a pixel buffer.
pub uninterp spec fn pixmap_bytes(p: tiny_skia::Pixmap) -> Seq<u8>;

/// The width that a pixel buffer was made with.
pub uninterp spec fn pixmap_width(p: tiny_skia::Pixmap) -> u32;

/// The height that a pixel buffer was made with.
pub uninterp spec fn pixmap_height(p: tiny_skia::Pixmap) -> u32;

/// The four bytes that `Pixmap::fill` writes for `Color::from_rgba8` of these components.
pub uninterp spec fn filled_pixel(r: u8, g: u8, b: u8, a: u8) -> Seq<u8>;

/// A buffer of this size fits in memory's address range.
pub open spec fn addressable(w: int, h: int) -> bool {
    w * h * 4 <= isize::MAX
}

/// `Pixmap::new`: makes a transparent black buffer; fails on a zero size, and where a row takes
/// more bytes than an `i32` holds.
#[verifier::external_body]
pub(crate) fn new_pixmap(w: u32, h: u32) -> (r: Option<tiny_skia::Pixmap>)
    requires
        addressable(w as int, h as int),
    ensures
        (r is Some) == (0 < w && 0 < h && w * 4 <= i32::MAX),
        r matches Some(p) ==> pixmap_width(p) == w && pixmap_height(p) == h && pixmap_bytes(p)
            == Seq::new((w * h * 4) as nat, |i: int| 0u8),
{
    tiny_skia::Pixmap::new(w, h)
}

/// `Pixmap::width`: positive, and a row takes no more bytes than an `i32` holds.
#[verifier::external_body]
pub(crate) fn width_of(p: &tiny_skia::Pixmap) -> (r: u32)
    ensures
        r == pixmap_width(*p),
        0 < r,
        r * 4 <= i32::MAX,
{
    p.width()
}

/// `Pixmap::height`.
#[verifier::external_body]
pub(crate) fn height_of(p: &tiny_skia::Pixmap) -> (r: u32)
    ensures
        r == pixmap_height(*p),
{
    p.height()
}

/// The bytes of a buffer are pixels to the last one.
pub open spec fn whole_pixels(p: tiny_skia::Pixmap) -> bool {
    pixmap_bytes(p).len() % 4 == 0
}

/// `n` bytes of pixels of one colour, as a buffer holds them: the colour as it is where it is
/// opaque, and else premultiplied.
pub open spec fn one_colour(n: nat, c: Color) -> Seq<u8> {
    Seq::new(
        n,
        |i: int|
            if c.a == 255 {
                seq![c.r, c.g, c.b, c.a][i % 4]
            } else {
                filled_pixel(c.r, c.g, c.b, c.a)[i % 4]
            },
    )
}

/// `Pixmap::data`: the bytes, four for each pixel, row by row. A buffer that was copied from
/// longer data has more bytes behind them.
#[verifier::external_body]
pub(crate) fn bytes_of(p: &tiny_skia::Pixmap) -> (r: &[u8])
    ensures
        r@ == pixmap_bytes(*p),
        r@.len() >= pixmap_width(*p) * pixmap_height(*p) * 4,
{
    p.data()
}

/// `Pixmap::data_mut`: the bytes, open to change; the buffer keeps its size, and its bytes are
/// afterwards what was written there.
#[verifier::external_body]
pub(crate) fn bytes_mut(p: &mut tiny_skia::Pixmap) -> (r: &mut [u8])
    ensures
        r@ == pixmap_bytes(*old(p)),
        r@.len() >= pixmap_width(*old(p)) * pixmap_height(*old(p)) * 4,
        pixmap_bytes(*final(p)) == final(r)@,
        pixmap_width(*final(p)) == pixmap_width(*old(p)),
        pixmap_height(*final(p)) == pixmap_height(*old(p)),
{
    p.data_mut()
}

/// `Pixmap::fill` with `Color::from_rgba8`: every pixel becomes the premultiplied colour. An
/// opaque colour is written as it is. It panics where the bytes are not pixels to the last one.
#[verifier::external_body]
pub(crate) fn fill_with(p: &mut tiny_skia::Pixmap, r: u8, g: u8, b: u8, a: u8)
    requires
        whole_pixels(*old(p)),
    ensures
        pixmap_width(*final(p)) == pixmap_width(*old(p)),
        pixmap_height(*final(p)) == pixmap_height(*old(p)),
        pixmap_bytes(*final(p)) == Seq::new(
            pixmap_bytes(*old(p)).len(),
            |i: int| filled_pixel(r, g, b, a)[i % 4],
        ),
        a == 255 ==> pixmap_bytes(*final(p)) == Seq::new(
            pixmap_bytes(*old(p)).len(),
            |i: int| seq![r, g, b, a][i % 4],
        ),
{
    p.fill(tiny_skia::Color::from_rgba8(r, g, b, a))
}

/// Makes every pixel this colour.
pub fn clear(p: &mut tiny_skia::Pixmap, c: Color)
    requires
        whole_pixels(*old(p)),
    ensures
        pixmap_width(*final(p)) == pixmap_width(*old(p)),
        pixmap_height(*final(p)) == pixmap_height(*old(p)),
        pixmap_bytes(*final(p)) == one_colour(pixmap_bytes(*old(p)).len(), c),
{
    fill_with(p, c.r, c.g, c.b, c.a);
    assert(pixmap_bytes(*p) =~= one_colour(pixmap_bytes(*old(p)).len(), c));
}

/// A pixel in another byte order.
#[derive(Clone, Copy, Debug, PartialEq, Eq, Structural)]
pub enum ByteOrder {
    /// Blue, green, red, alpha: a little-endian server, and the Windows blitter.
    Bgra,
    /// Alpha, red, green, blue: a big-endian server.
    Argb,
}

/// The four bytes of a pixel in another order.
pub open spec fn reordered(px: Seq<u8>, order: ByteOrder) -> Seq<u8> {
    match order {
        ByteOrder::Bgra => seq![px[2], px[1], px[0], px[3]],
        ByteOrder::Argb => seq![px[3], px[0], px[1], px[2]],
    }
}

/// `n` pixels from byte `start` on, each reordered.
pub open spec fn pixel_run(data: Seq<u8>, start: int, n: int, order: ByteOrder) -> Seq<u8>
    decreases n,
{
    if n <= 0 {
        Seq::empty()
    } else {
        pixel_run(data, start, n - 1, order) + reordered(
            data.subrange(start + (n - 1) * 4, start + n * 4),
            order,
        )
    }
}

/// The first byte of pixel `(x, y)` in a buffer `stride` pixels wide.
pub open spec fn offset(stride: int, x: int, y: int) -> int {
    (y * stride + x) * 4
}

/// The pixels of `n` rows of the columns `[x, x + w)` from row `y` on, each reordered.
pub open spec fn pixel_rows(
    data: Seq<u8>,
    stride: int,
    x: int,
    w: int,
    y: int,
    n: int,
    order: ByteOrder,
) -> Seq<u8>
    decreases n,
{
    if n <= 0 {
        Seq::empty()
    } else {
        pixel_rows(data, stride, x, w, y, n - 1, order) + pixel_run(
            data,
            offset(stride, x, y + n - 1),
            w,
            order,
        )
    }
}

/// A run of pixels takes four bytes each.
pub proof fn pixel_run_len(data: Seq<u8>, start: int, n: int, order: ByteOrder)
    requires
        n >= 0,
    ensures
        pixel_run(data, start, n, order).len() == n * 4,
    decreases n,
{
    if n > 0 {
        pixel_run_len(data, start, n - 1, order);
    }
}

/// Rows of pixels take four bytes for each pixel.
pub proof fn pixel_rows_len(
    data: Seq<u8>,
    stride: int,
    x: int,
    w: int,
    y: int,
    n: int,
    order: ByteOrder,
)
    requires
        w >= 0,
        n >= 0,
    ensures
        pixel_rows(data, stride, x, w, y, n, order).len() == n * w * 4,
    decreases n,
{
    if n > 0 {
        pixel_rows_len(data, stride, x, w, y, n - 1, order);
        pixel_run_len(data, offset(stride, x, y + n - 1), w, order);
        assert((n - 1) * w * 4 + w * 4 == n * w * 4) by (nonlinear_arith);
    } else {
        assert(0 * w * 4 == 0) by (nonlinear_arith);
    }
}

/// Pixel `i` of a run is pixel `i` of the source, reordered.
pub proof fn pixel_run_at(data: Seq<u8>, start: int, n: int, order: ByteOrder, i: int)
    requires
        0 <= i < n,
    ensures
        pixel_run(data, start, n, order).subrange(i * 4, i * 4 + 4) == reordered(
            data.subrange(start + i * 4, start + i * 4 + 4),
            order,
        ),
    decreases n,
{
    pixel_run_len(data, start, n - 1, order);
    let before = pixel_run(data, start, n - 1, order);
    let all = pixel_run(data, start, n, order);
    if i == n - 1 {
        assert(all.subrange(i * 4, i * 4 + 4) =~= reordered(
            data.subrange(start + (n - 1) * 4, start + n * 4),
            order,
        ));
    } else {
        pixel_run_at(data, start, n - 1, order, i);
        assert(all.subrange(i * 4, i * 4 + 4) =~= before.subrange(i * 4, i * 4 + 4));
    }
}

/// Pixel `(col, row)` of converted rows is pixel `(x + col, y + row)` of the source, reordered.
pub proof fn pixel_rows_at(
    data: Seq<u8>,
    stride: int,
    x: int,
    w: int,
    y: int,
    n: int,
    order: ByteOrder,
    col: int,
    row: int,
)
    requires
        0 <= col < w,
        0 <= row < n,
    ensures
        ({
            let to = (row * w + col) * 4;
            let from = offset(stride, x + col, y + row);
            pixel_rows(data, stride, x, w, y, n, order).subrange(to, to + 4) == reordered(
                data.subrange(from, from + 4),
                order,
            )
        }),
    decreases n,
{
    let to = (row * w + col) * 4;
    let from = offset(stride, x + col, y + row);
    let before = pixel_rows(data, stride, x, w, y, n - 1, order);
    let last = pixel_run(data, offset(stride, x, y + n - 1), w, order);
    let all = pixel_rows(data, stride, x, w, y, n, order);
    pixel_rows_len(data, stride, x, w, y, n - 1, order);
    pixel_run_len(data, offset(stride, x, y + n - 1), w, order);
    assert(0 <= row * w) by (nonlinear_arith)
        requires
            0 <= row,
            0 <= w,
    ;
    if row == n - 1 {
        pixel_run_at(data, offset(stride, x, y + n - 1), w, order, col);
        assert((n - 1) * w * 4 == row * w * 4);
        assert(to == (n - 1) * w * 4 + col * 4);
        assert(from == offset(stride, x, y + n - 1) + col * 4);
        assert(all.subrange(to, to + 4) =~= last.subrange(col * 4, col * 4 + 4));
    } else {
        pixel_rows_at(data, stride, x, w, y, n - 1, order, col, row);
        assert(row * w + w <= (n - 1) * w) by (nonlinear_arith)
            requires
                0 <= w,
                row + 1 <= n - 1,
        ;
        assert(all.subrange(to, to + 4) =~= before.subrange(to, to + 4));
    }
}

/// The four bytes of pixel `(x, y)` in a buffer `stride` pixels wide.
pub open spec fn pixel(data: Seq<u8>, stride: int, x: int, y: int) -> Seq<u8> {
    data.subrange(offset(stride, x, y), offset(stride, x, y) + 4)
}

/// A buffer with red and blue swapped in `n` pixels from byte `start` on.
pub open spec fn swap_run(data: Seq<u8>, start: int, n: int) -> Seq<u8> {
    data.take(start) + pixel_run(data, start, n, ByteOrder::Bgra) + data.skip(start + n * 4)
}

/// A buffer with red and blue swapped in the columns `[x, x + w)` of `n` rows from row `y` on.
pub open spec fn swap_rows(data: Seq<u8>, stride: int, x: int, w: int, y: int, n: int) -> Seq<u8>
    decreases n,
{
    if n <= 0 {
        data
    } else {
        swap_run(swap_rows(data, stride, x, w, y, n - 1), offset(stride, x, y + n - 1), w)
    }
}

/// Swapping keeps a buffer's length.
pub proof fn swap_run_len(data: Seq<u8>, start: int, n: int)
    requires
        0 <= start,
        0 <= n,
        start + n * 4 <= data.len(),
    ensures
        swap_run(data, start, n).len() == data.len(),
{
    pixel_run_len(data, start, n, ByteOrder::Bgra);
}

/// One more pixel of a swapped run.
proof fn swap_run_step(data: Seq<u8>, start: int, n: int)
    requires
        0 <= start,
        0 <= n,
        start + (n + 1) * 4 <= data.len(),
    ensures
        ({
            let at = start + n * 4;
            let now = swap_run(data, start, n);
            &&& now.len() == data.len()
            &&& now[at] == data[at] && now[at + 2] == data[at + 2]
            &&& swap_run(data, start, n + 1) == now.update(at, data[at + 2]).update(
                at + 2,
                data[at],
            )
        }),
{
    let at = start + n * 4;
    let now = swap_run(data, start, n);
    pixel_run_len(data, start, n, ByteOrder::Bgra);
    pixel_run_len(data, start, n + 1, ByteOrder::Bgra);
    let px = data.subrange(at, at + 4);
    let run = pixel_run(data, start, n, ByteOrder::Bgra);
    assert(pixel_run(data, start, n + 1, ByteOrder::Bgra) =~= run + reordered(
        px,
        ByteOrder::Bgra,
    ));
    assert(swap_run(data, start, n + 1) =~= now.update(at, data[at + 2]).update(at + 2, data[at]));
}

/// What a swapped run holds at any byte.
proof fn swap_run_pixel(data: Seq<u8>, start: int, n: int, at: int)
    requires
        0 <= start,
        0 <= n,
        start + n * 4 <= data.len(),
        0 <= at <= data.len() - 4,
    ensures
        at + 4 <= start || start + n * 4 <= at ==> swap_run(data, start, n).subrange(at, at + 4)
            == data.subrange(at, at + 4),
        start <= at && at + 4 <= start + n * 4 && (at - start) % 4 == 0 ==> swap_run(
            data,
            start,
            n,
        ).subrange(at, at + 4) == reordered(data.subrange(at, at + 4), ByteOrder::Bgra),
{
    pixel_run_len(data, start, n, ByteOrder::Bgra);
    let all = swap_run(data, start, n);
    if at + 4 <= start || start + n * 4 <= at {
        assert(all.subrange(at, at + 4) =~= data.subrange(at, at + 4));
    } else if start <= at && at + 4 <= start + n * 4 && (at - start) % 4 == 0 {
        let i = (at - start) / 4;
        pixel_run_at(data, start, n, ByteOrder::Bgra, i);
        let run = pixel_run(data, start, n, ByteOrder::Bgra);
        assert(at == start + i * 4);
        assert(all.subrange(at, at + 4) =~= run.subrange(i * 4, i * 4 + 4));
    }
}

/// Swapping twice changes nothing.
pub proof fn swap_is_its_own_inverse(data: Seq<u8>, start: int, n: int)
    requires
        0 <= start,
        0 <= n,
        start + n * 4 <= data.len(),
    ensures
        swap_run(swap_run(data, start, n), start, n) == data,
{
    let once = swap_run(data, start, n);
    let twice = swap_run(once, start, n);
    swap_run_len(data, start, n);
    swap_run_len(once, start, n);
    pixel_run_len(once, start, n, ByteOrder::Bgra);
    assert forall|i: int| 0 <= i < data.len() implies twice[i] == data[i] by {
        if start <= i < start + n * 4 {
            let k = (i - start) / 4;
            let at = start + k * 4;
            swap_run_pixel(data, start, n, at);
            swap_run_pixel(once, start, n, at);
            let c = i - at;
            let p0 = data.subrange(at, at + 4);
            let p2 = twice.subrange(at, at + 4);
            assert(p2 =~= p0);
            assert(twice[i] == p2[c] && data[i] == p0[c]);
        }
    }
    assert(twice =~= data);
}

/// Two different rows do not overlap: a pixel of one lies before or behind every pixel of the
/// other.
proof fn rows_apart(stride: int, x: int, y: int, rx: int, w: int, ry: int)
    requires
        0 <= x < stride,
        0 <= rx,
        0 <= w,
        rx + w <= stride,
        0 <= y,
        0 <= ry,
    ensures
        y < ry ==> offset(stride, x, y) + 4 <= offset(stride, rx, ry),
        y > ry ==> offset(stride, rx, ry) + w * 4 <= offset(stride, x, y),
        0 <= offset(stride, x, y),
        0 <= offset(stride, rx, ry),
{
    assert(0 <= y * stride && 0 <= ry * stride) by (nonlinear_arith)
        requires
            0 <= y,
            0 <= ry,
            0 < stride,
    ;
    if y < ry {
        assert((y + 1) * stride <= ry * stride) by (nonlinear_arith)
            requires
                y + 1 <= ry,
                0 < stride,
        ;
        assert((y + 1) * stride == y * stride + stride) by (nonlinear_arith);
    }
    if y > ry {
        assert((ry + 1) * stride <= y * stride) by (nonlinear_arith)
            requires
                ry + 1 <= y,
                0 < stride,
        ;
        assert((ry + 1) * stride == ry * stride + stride) by (nonlinear_arith);
    }
}

/// A row lies within a buffer of enough rows.
pub proof fn row_within(stride: int, x: int, w: int, y: int, rows: int, len: int)
    requires
        0 <= x,
        0 <= w,
        x + w <= stride,
        0 <= y < rows,
        rows * stride * 4 <= len,
    ensures
        0 <= offset(stride, x, y),
        offset(stride, x, y) + w * 4 <= len,
{
    assert(0 <= y * stride && (y + 1) * stride <= rows * stride) by (nonlinear_arith)
        requires
            0 <= y,
            y + 1 <= rows,
            0 <= stride,
    ;
    assert((y + 1) * stride == y * stride + stride) by (nonlinear_arith);
}

/// Swapping a rectangle swaps each pixel in it and leaves every other pixel as it is.
pub proof fn swap_touches_only_the_rectangle(
    data: Seq<u8>,
    stride: int,
    rows: int,
    x: int,
    w: int,
    y: int,
    n: int,
    px: int,
    py: int,
)
    requires
        0 <= x,
        0 <= w,
        x + w <= stride,
        0 <= y,
        0 <= n,
        y + n <= rows,
        data.len() == rows * stride * 4,
        0 <= px < stride,
        0 <= py < rows,
    ensures
        swap_rows(data, stride, x, w, y, n).len() == data.len(),
        pixel(swap_rows(data, stride, x, w, y, n), stride, px, py) == (if x <= px < x + w && y <= py
            < y + n {
            reordered(pixel(data, stride, px, py), ByteOrder::Bgra)
        } else {
            pixel(data, stride, px, py)
        }),
    decreases n,
{
    if n > 0 {
        let before = swap_rows(data, stride, x, w, y, n - 1);
        let ry = y + n - 1;
        swap_touches_only_the_rectangle(data, stride, rows, x, w, y, n - 1, px, py);
        row_within(stride, x, w, ry, rows, data.len() as int);
        row_within(stride, px, 1, py, rows, data.len() as int);
        let start = offset(stride, x, ry);
        let at = offset(stride, px, py);
        swap_run_len(before, start, w);
        swap_run_pixel(before, start, w, at);
        rows_apart(stride, px, py, x, w, ry);
        if py == ry {
            assert(at - start == (px - x) * 4);
        }
    }
}

/// Where only a rectangle was drawn afresh, in the drawing order, and everything else is still in
/// the display's order, swapping just that rectangle leaves the whole picture in the display's
/// order.
pub proof fn partial_frames_keep_the_order(
    picture: Seq<u8>,
    drawn: Seq<u8>,
    stride: int,
    rows: int,
    x: int,
    w: int,
    y: int,
    n: int,
)
    requires
        0 <= x,
        0 <= w,
        x + w <= stride,
        0 <= y,
        0 <= n,
        y + n <= rows,
        drawn.len() == rows * stride * 4,
        forall|px: int, py: int|
            0 <= px < stride && 0 <= py < rows ==> #[trigger] pixel(drawn, stride, px, py) == (if x
                <= px < x + w && y <= py < y + n {
                pixel(picture, stride, px, py)
            } else {
                reordered(pixel(picture, stride, px, py), ByteOrder::Bgra)
            }),
    ensures
        forall|px: int, py: int|
            0 <= px < stride && 0 <= py < rows ==> #[trigger] pixel(
                swap_rows(drawn, stride, x, w, y, n),
                stride,
                px,
                py,
            ) == reordered(pixel(picture, stride, px, py), ByteOrder::Bgra),
{
    assert forall|px: int, py: int| 0 <= px < stride && 0 <= py < rows implies #[trigger] pixel(
        swap_rows(drawn, stride, x, w, y, n),
        stride,
        px,
        py,
    ) == reordered(pixel(picture, stride, px, py), ByteOrder::Bgra) by {
        swap_touches_only_the_rectangle(drawn, stride, rows, x, w, y, n, px, py);
        assert(pixel(drawn, stride, px, py) == pixel(drawn, stride, px, py));
    }
}

/// Swaps red and blue in `n` pixels from byte `start` on.
pub fn swap_range(data: &mut [u8], start: usize, n: usize)
    requires
        start + n * 4 <= old(data)@.len(),
    ensures
        final(data)@ == swap_run(old(data)@, start as int, n as int),
        final(data)@.len() == old(data)@.len(),
{
    let ghost before = data@;
    let len: usize = data.len();
    assert(data@ =~= swap_run(before, start as int, 0));
    let mut i: usize = 0;
    while i < n
        invariant
            i <= n,
            len == before.len(),
            len == data@.len(),
            start + n * 4 <= len,
            data@ == swap_run(before, start as int, i as int),
        decreases n - i,
    {
        proof {
            swap_run_step(before, start as int, i as int);
        }
        let at: usize = start + i * 4;
        let r: u8 = data[at];
        let b: u8 = data[at + 2];
        data[at] = b;
        data[at + 2] = r;
        i += 1;
    }
}

/// Swaps red and blue in a whole buffer.
pub fn swap_rb_inplace(data: &mut [u8])
    ensures
        final(data)@ == swap_run(old(data)@, 0, old(data)@.len() as int / 4),
        final(data)@.len() == old(data)@.len(),
{
    let n: usize = data.len() / 4;
    swap_range(data, 0, n);
}

/// Copies a rectangle's rows out of a buffer, each pixel reordered.
pub fn copy_rows(
    data: &[u8],
    stride: usize,
    x: usize,
    w: usize,
    y: usize,
    n: usize,
    order: ByteOrder,
) -> (r: Vec<u8>)
    requires
        x + w <= stride,
        data@.len() >= (y + n) * stride * 4,
    ensures
        r@ == pixel_rows(data@, stride as int, x as int, w as int, y as int, n as int, order),
{
    let mut out: Vec<u8> = Vec::new();
    let len: usize = data.len();
    let mut row: usize = 0;
    while row < n
        invariant
            row <= n,
            x + w <= stride,
            len == data@.len(),
            len >= (y + n) * stride * 4,
            out@ == pixel_rows(
                data@,
                stride as int,
                x as int,
                w as int,
                y as int,
                row as int,
                order,
            ),
        decreases n - row,
    {
        let ghost start = offset(stride as int, x as int, y + row);
        assert((y + row + 1) * stride * 4 <= (y + n) * stride * 4 && (y + row) * stride * 4 + (x
            + w) * 4 <= (y + row + 1) * stride * 4 && 0 <= (y + row) * stride) by (nonlinear_arith)
            requires
                row < n,
                x + w <= stride,
        ;
        assert(start == (y + row) * stride * 4 + x * 4);
        if w > 0 {
            assert(y + row <= (y + row) * stride) by (nonlinear_arith)
                requires
                    stride >= 1,
                    0 <= y + row,
            ;
        }
        let ghost before = out@;
        let mut col: usize = 0;
        while col < w
            invariant
                col <= w,
                row < n,
                len == data@.len(),
                start == (y + row) * stride * 4 + x * 4,
                0 <= (y + row) * stride,
                w > 0 ==> y + row <= (y + row) * stride,
                start + w * 4 <= len,
                out@ == before + pixel_run(data@, start, col as int, order),
            decreases w - col,
        {
            assert(y + row <= usize::MAX);
            let at: usize = ((y + row) * stride + x + col) * 4;
            assert(at == start + col * 4);
            let ghost mid = out@;
            match order {
                ByteOrder::Bgra => {
                    out.push(data[at + 2]);
                    out.push(data[at + 1]);
                    out.push(data[at]);
                    out.push(data[at + 3]);
                },
                ByteOrder::Argb => {
                    out.push(data[at + 3]);
                    out.push(data[at]);
                    out.push(data[at + 1]);
                    out.push(data[at + 2]);
                },
            }
            proof {
                let px = data@.subrange(start + col * 4, start + (col + 1) * 4);
                assert(px[0] == data@[at as int] && px[1] == data@[at + 1] && px[2] == data@[at + 2]
                    && px[3] == data@[at + 3]);
                assert(out@ =~= mid + reordered(px, order));
                assert(out@ =~= before + pixel_run(data@, start, col + 1, order));
            }
            col += 1;
        }
        row += 1;
        assert(out@ =~= pixel_rows(
            data@,
            stride as int,
            x as int,
            w as int,
            y as int,
            row as int,
            order,
        ));
    }
    out
}

/// In either order a pixel of a buffer is the same number, alpha in its highest byte, then red,
/// green and blue: read with the lowest byte first in the one, and with the highest first in the
/// other.
pub proof fn both_orders_are_one_number(px: Seq<u8>)
    requires
        px.len() == 4,
    ensures
        ({
            let word = px[3] * 0x100_0000 + px[0] * 0x1_0000 + px[1] * 0x100 + px[2];
            let lo = reordered(px, ByteOrder::Bgra);
            let hi = reordered(px, ByteOrder::Argb);
            &&& lo.len() == 4 && hi.len() == 4
            &&& lo[0] + lo[1] * 0x100 + lo[2] * 0x1_0000 + lo[3] * 0x100_0000 == word
            &&& hi[3] + hi[2] * 0x100 + hi[1] * 0x1_0000 + hi[0] * 0x100_0000 == word
        }),
{
}

/// A buffer is laid out row by row, four bytes to a pixel: the pixel to the right comes four bytes
/// later, and the one below as many as a row takes.
pub proof fn pixels_are_laid_out_in_rows(stride: int, x: int, y: int)
    ensures
        offset(stride, 0, 0) == 0,
        offset(stride, x + 1, y) == offset(stride, x, y) + 4,
        offset(stride, x, y + 1) == offset(stride, x, y) + 4 * stride,
        offset(stride, x + stride, y) == offset(stride, x, y + 1),
{
    assert((y + 1) * stride == y * stride + stride) by (nonlinear_arith);
}

/// The colours of copied rows, channel by channel: each comes from the pixel at the same place in
/// the rectangle, and red, green, blue and alpha stand where the order wants them.
pub proof fn copied_pixels_keep_their_place(
    data: Seq<u8>,
    stride: int,
    x: int,
    w: int,
    y: int,
    n: int,
    order: ByteOrder,
    col: int,
    row: int,
)
    requires
        0 <= col < w,
        0 <= row < n,
        0 <= x,
        0 <= y,
        x + w <= stride,
        (y + n) * stride * 4 <= data.len(),
    ensures
        ({
            let out = pixel_rows(data, stride, x, w, y, n, order);
            let to = 4 * (row * w + col);
            let from = 4 * ((y + row) * stride + (x + col));
            &&& out.len() == n * w * 4
            &&& 0 <= to <= out.len() - 4
            &&& order == ByteOrder::Bgra ==> out[to + 2] == data[from] && out[to + 1] == data[from + 1]
                && out[to] == data[from + 2] && out[to + 3] == data[from + 3]
            &&& order == ByteOrder::Argb ==> out[to + 1] == data[from] && out[to + 2] == data[from + 1]
                && out[to + 3] == data[from + 2] && out[to] == data[from + 3]
        }),
{
    let out = pixel_rows(data, stride, x, w, y, n, order);
    let to = (row * w + col) * 4;
    let from = offset(stride, x + col, y + row);
    pixel_rows_len(data, stride, x, w, y, n, order);
    pixel_rows_at(data, stride, x, w, y, n, order, col, row);
    row_within(stride, x + col, 1, y + row, y + n, data.len() as int);
    assert(0 <= row * w && row * w + w <= n * w) by (nonlinear_arith)
        requires
            0 <= row,
            0 <= w,
            row + 1 <= n,
    ;
    let px = out.subrange(to, to + 4);
    let src = data.subrange(from, from + 4);
    assert(px == reordered(src, order));
    assert(out[to] == px[0] && out[to + 1] == px[1] && out[to + 2] == px[2] && out[to + 3] == px[3]);
    assert(src[0] == data[from] && src[1] == data[from + 1] && src[2] == data[from + 2] && src[3]
        == data[from + 3]);
}

/// A cleared buffer holds red, green, blue and alpha, over and over, where the colour is opaque;
/// all its pixels are alike in any case.
pub proof fn cleared_pixels_are_alike(n: nat, c: Color, i: int, k: int)
    requires
        0 <= i,
        0 <= k,
        4 * i + 3 < n,
        4 * k + 3 < n,
    ensures
        ({
            let s = one_colour(n, c);
            &&& s.len() == n
            &&& c.a == 255 ==> s[4 * i] == c.r && s[4 * i + 1] == c.g && s[4 * i + 2] == c.b && s[4
                * i + 3] == c.a
            &&& s[4 * i] == s[4 * k] && s[4 * i + 1] == s[4 * k + 1] && s[4 * i + 2] == s[4 * k + 2]
                && s[4 * i + 3] == s[4 * k + 3]
        }),
{
    assert((4 * i) % 4 == 0 && (4 * i + 1) % 4 == 1 && (4 * i + 2) % 4 == 2 && (4 * i + 3) % 4 == 3);
    assert((4 * k) % 4 == 0 && (4 * k + 1) % 4 == 1 && (4 * k + 2) % 4 == 2 && (4 * k + 3) % 4 == 3);
}

/// Swapping a run swaps the first and the third byte of each pixel in it; every other byte stays.
pub proof fn swapping_exchanges_red_and_blue(data: Seq<u8>, start: int, n: int, i: int)
    requires
        0 <= start,
        0 <= n,
        start + n * 4 <= data.len(),
        0 <= i < data.len(),
    ensures
        ({
            let s = swap_run(data, start, n);
            let c = (i - start) % 4;
            &&& s.len() == data.len()
            &&& start <= i < start + n * 4 && c == 0 ==> s[i] == data[i + 2]
            &&& start <= i < start + n * 4 && c == 2 ==> s[i] == data[i - 2]
            &&& !(start <= i < start + n * 4) || c == 1 || c == 3 ==> s[i] == data[i]
        }),
{
    pixel_run_len(data, start, n, ByteOrder::Bgra);
    let s = swap_run(data, start, n);
    if start <= i < start + n * 4 {
        let at = start + (i - start) / 4 * 4;
        swap_run_pixel(data, start, n, at);
        let px = s.subrange(at, at + 4);
        let src = data.subrange(at, at + 4);
        assert(px == reordered(src, ByteOrder::Bgra));
        let c = i - at;
        assert(s[i] == px[c]);
        assert(src[0] == data[at] && src[1] == data[at + 1] && src[2] == data[at + 2] && src[3]
            == data[at + 3]);
    }
}

} // verus!
