//! Drawing a window and sending what changed.

use super::window::{PaintState, Win};
use crate::geometry::{Color, Rect};
use crate::surface::{self, ByteOrder};
use vstd::prelude::*;

verus! {

/// The conversion buffer stays below this many bytes, unless one row takes more.
pub const UPLOAD_CHUNK: usize = 262144;

/// How the server wants pixels.
#[derive(Clone, Copy, Debug, PartialEq, Eq, Structural)]
pub struct PixelFormat {
    pub depth: u8,
    pub order: ByteOrder,
}

/// The pixel format of a screen: only true colour with eight bits a channel will do. A depth
/// of 30 takes 32 bits a pixel too, and its colours would come out wrong.
pub fn pixel_format(depth: u8, bits_per_pixel: u8, lsb_first: bool) -> (r: Option<PixelFormat>)
    ensures
        r == (if bits_per_pixel == 32 && (depth == 24 || depth == 32) {
            Some(
                PixelFormat {
                    depth,
                    order: if lsb_first { ByteOrder::Bgra } else { ByteOrder::Argb },
                },
            )
        } else {
            None
        }),
{
    if bits_per_pixel != 32 || !(depth == 24 || depth == 32) {
        return None;
    }
    let order = if lsb_first { ByteOrder::Bgra } else { ByteOrder::Argb };
    Some(PixelFormat { depth, order })
}

/// What a window needs now.
#[derive(Clone, Copy, Debug, PartialEq, Eq, Structural)]
pub enum PaintStep {
    Nothing,
    /// Draw a frame.
    Draw,
    /// Send what is drawn already.
    Resend,
}

/// What a window needs now: nothing while it is unmapped; a frame when one is due or none was
/// ever drawn; else what the server lost.
pub fn paint_step(w: &Win) -> (r: PaintStep)
    ensures
        r == (if !w.shown.mapped {
            PaintStep::Nothing
        } else if w.paint.needs_paint || w.pixmap is None {
            PaintStep::Draw
        } else if w.paint.exposed is Some {
            PaintStep::Resend
        } else {
            PaintStep::Nothing
        }),
{
    if !w.shown.mapped {
        PaintStep::Nothing
    } else if w.paint.needs_paint || w.pixmap.is_none() {
        PaintStep::Draw
    } else if w.paint.exposed.is_some() {
        PaintStep::Resend
    } else {
        PaintStep::Nothing
    }
}

/// The buffer has the window's size.
pub open spec fn fits(w: Win) -> bool {
    w.pixmap matches Some(p) && surface::pixmap_width(p) == w.w && surface::pixmap_height(p) == w.h
}

/// Prepares a frame: makes the buffer anew when the size changed, in which case the frame is a
/// full one, and clears the buffer of a full frame to the background. Says whether there is
/// something to draw on; the host then asks the content for a whole frame if the buffer is
/// fresh, and draws.
pub fn begin_frame(w: &mut Win, bg: Color) -> (r: bool)
    requires
        surface::addressable(old(w).w as int, old(w).h as int),
        old(w).paint.fresh && fits(*old(w)) ==> surface::whole_pixels(old(w).pixmap.unwrap()),
    ensures
        r == (0 < old(w).w && 0 < old(w).h && (fits(*old(w)) || old(w).w * 4 <= i32::MAX)),
        !final(w).paint.needs_paint,
        final(w).paint.exposed == old(w).paint.exposed,
        final(w).paint.fresh == (old(w).paint.fresh || (0 < old(w).w && 0 < old(w).h && !fits(
            *old(w),
        ))),
        r ==> fits(*final(w)),
        r && !final(w).paint.fresh ==> final(w).pixmap == old(w).pixmap,
        r && final(w).paint.fresh ==> {
            let bytes = surface::pixmap_bytes(final(w).pixmap.unwrap());
            bytes == surface::one_colour(bytes.len(), bg)
        },
        !(0 < old(w).w && 0 < old(w).h) ==> final(w).pixmap == old(w).pixmap,
        !r && 0 < old(w).w && 0 < old(w).h ==> final(w).pixmap is None,
        *final(w) == (Win { paint: final(w).paint, pixmap: final(w).pixmap, ..*old(w) }),
{
    w.paint.needs_paint = false;
    if w.w <= 0 || w.h <= 0 {
        return false;
    }
    let rebuilt = match &w.pixmap {
        Some(p) => surface::width_of(p) != w.w as u32 || surface::height_of(p) != w.h as u32,
        None => true,
    };
    if rebuilt {
        w.pixmap = surface::new_pixmap(w.w as u32, w.h as u32);
        w.paint.fresh = true;
    }
    let fresh = w.paint.fresh;
    match &mut w.pixmap {
        None => false,
        Some(p) => {
            if fresh {
                surface::clear(p, bg);
            }
            true
        },
    }
}

/// The area of a window.
pub open spec fn whole(w: Win) -> Rect {
    Rect { x: 0, y: 0, w: w.w, h: w.h }
}

/// What was drawn: the reported damage, or everything in a full frame or without a report.
pub open spec fn drawn(w: Win, damage: Option<Rect>) -> Rect {
    match damage {
        Some(d) => if w.paint.fresh { whole(w) } else { d.meet(whole(w)) },
        None => whole(w),
    }
}

/// Closes a frame: the area to send is what was drawn together with what the server lost, and
/// both are settled.
pub fn end_frame(w: &mut Win, damage: Option<Rect>) -> (r: Rect)
    requires
        old(w).w >= 0,
        old(w).h >= 0,
        damage matches Some(d) ==> d.in_range(),
        old(w).paint.exposed matches Some(e) ==> super::window::exposure_bounds(e),
    ensures
        r == (match old(w).paint.exposed {
            Some(e) => drawn(*old(w), damage).join(e.meet(whole(*old(w)))),
            None => drawn(*old(w), damage),
        }),
        final(w).paint == (PaintState { fresh: false, exposed: None, ..old(w).paint }),
        *final(w) == (Win { paint: final(w).paint, ..*old(w) }),
        forall|px: int, py: int|
            0 <= px < old(w).w && 0 <= py < old(w).h && ((old(w).paint.exposed matches Some(e)
                && e.has(px, py)) || old(w).paint.fresh || damage is None || (damage matches Some(d)
                && d.has(px, py))) ==> #[trigger] r.has(px, py),
        forall|px: int, py: int|
            #[trigger] r.has(px, py) ==> 0 <= px < old(w).w && 0 <= py < old(w).h,
{
    let full = Rect::new(0, 0, w.w, w.h);
    let area = match damage {
        Some(d) => if w.paint.fresh {
            full
        } else {
            d.intersect(&full)
        },
        None => full,
    };
    w.paint.fresh = false;
    let exposed = w.paint.exposed;
    w.paint.exposed = None;
    match exposed {
        Some(e) => {
            let lost = e.intersect(&full);
            area.union(&lost)
        },
        None => area,
    }
}

/// What to send again of what is drawn already, within the window; it is settled.
pub fn take_exposed(w: &mut Win) -> (r: Option<Rect>)
    requires
        old(w).w >= 0,
        old(w).h >= 0,
        old(w).paint.exposed matches Some(e) ==> super::window::exposure_bounds(e),
    ensures
        r == (match old(w).paint.exposed {
            Some(e) => Some(e.meet(whole(*old(w)))),
            None => None,
        }),
        *final(w) == (Win {
            paint: (PaintState { exposed: None, ..old(w).paint }),
            ..*old(w)
        }),
{
    let exposed = w.paint.exposed;
    w.paint.exposed = None;
    match exposed {
        Some(e) => Some(e.intersect(&Rect::new(0, 0, w.w, w.h))),
        None => None,
    }
}

/// One image request: where it goes, and its bytes in the server's order.
pub struct Chunk {
    pub x: i32,
    pub y: i32,
    pub w: i32,
    pub h: i32,
    pub bytes: Vec<u8>,
}

/// An image request with its bytes.
pub struct ChunkView {
    pub x: int,
    pub y: int,
    pub w: int,
    pub h: int,
    pub bytes: Seq<u8>,
}

impl View for Chunk {
    type V = ChunkView;

    open spec fn view(&self) -> ChunkView {
        ChunkView {
            x: self.x as int,
            y: self.y as int,
            w: self.w as int,
            h: self.h as int,
            bytes: self.bytes@,
        }
    }
}

/// The views of a sequence of requests.
pub open spec fn chunk_views(s: Seq<Chunk>) -> Seq<ChunkView> {
    Seq::new(s.len(), |i: int| s[i]@)
}

/// How many rows one request takes: as many as fit in the server's limit, less its header, and
/// in the conversion buffer; at least one.
pub open spec fn rows_per_request(max_request: int, row_bytes: int) -> int {
    let room = if max_request > 64 { max_request - 64 } else { 0 };
    let limit = if room < UPLOAD_CHUNK { room } else { UPLOAD_CHUNK as int };
    let limit = if limit < row_bytes { row_bytes } else { limit };
    let rows = limit / row_bytes;
    if rows < 1 { 1 } else { rows }
}

/// The requests that send the rows of `r` from row `y` on, `rows` at a time.
pub open spec fn requests_from(
    data: Seq<u8>,
    stride: int,
    r: Rect,
    y: int,
    rows: int,
    order: ByteOrder,
) -> Seq<ChunkView>
    decreases r.y + r.h - y,
{
    if y >= r.y + r.h || rows < 1 {
        Seq::empty()
    } else {
        let n = if rows < r.y + r.h - y { rows } else { r.y + r.h - y };
        seq![
            ChunkView {
                x: r.x as int,
                y,
                w: r.w as int,
                h: n,
                bytes: surface::pixel_rows(data, stride, r.x as int, r.w as int, y, n, order),
            },
        ] + requests_from(data, stride, r, y + n, rows, order)
    }
}

/// The requests that send an area of a buffer: the part that lies on the buffer, in rows from
/// the top, each request within the limits.
pub open spec fn requests_for(
    p: tiny_skia::Pixmap,
    area: Rect,
    order: ByteOrder,
    max_request: int,
) -> Seq<ChunkView> {
    let size = Rect {
        x: 0,
        y: 0,
        w: surface::pixmap_width(p) as i32,
        h: surface::pixmap_height(p) as i32,
    };
    let r = area.meet(size);
    if r.empty() {
        Seq::empty()
    } else {
        requests_from(
            surface::pixmap_bytes(p),
            surface::pixmap_width(p) as int,
            r,
            r.y as int,
            rows_per_request(max_request, r.w * 4),
            order,
        )
    }
}

/// Converts an area of a buffer into image requests.
pub fn upload(p: &tiny_skia::Pixmap, area: Rect, order: ByteOrder, max_request: usize) -> (r: Vec<
    Chunk,
>)
    requires
        area.in_range(),
        surface::pixmap_height(*p) <= i32::MAX,
    ensures
        chunk_views(r@) == requests_for(*p, area, order, max_request as int),
{
    let pw: u32 = surface::width_of(p);
    let ph: u32 = surface::height_of(p);
    let r = area.intersect(&Rect::new(0, 0, pw as i32, ph as i32));
    let mut out: Vec<Chunk> = Vec::new();
    if r.is_empty() {
        assert(chunk_views(out@) =~= Seq::empty());
        return out;
    }
    let stride: usize = pw as usize;
    let data = surface::bytes_of(p);
    let row_bytes: usize = r.w as usize * 4;
    let room: usize = if max_request > 64 { max_request - 64 } else { 0 };
    let limit: usize = if room < UPLOAD_CHUNK { room } else { UPLOAD_CHUNK };
    let limit: usize = if limit < row_bytes { row_bytes } else { limit };
    let rows: usize = if limit / row_bytes < 1 { 1 } else { limit / row_bytes };
    assert(rows == rows_per_request(max_request as int, r.w * 4));
    let bottom: i32 = r.bottom();
    let mut y: i32 = r.y;
    let ghost goal = requests_for(*p, area, order, max_request as int);
    assert(chunk_views(out@) =~= Seq::empty());
    assert(chunk_views(out@) + requests_from(
        data@,
        stride as int,
        r,
        y as int,
        rows as int,
        order,
    ) =~= goal);
    while y < bottom
        invariant
            0 <= r.y <= y <= bottom,
            bottom == r.y + r.h,
            bottom <= ph,
            0 <= r.x,
            0 < r.w,
            r.x + r.w <= stride,
            stride == pw,
            rows >= 1,
            ph <= i32::MAX,
            data@.len() >= pw * ph * 4,
            data@ == surface::pixmap_bytes(*p),
            chunk_views(out@) + requests_from(
                data@,
                stride as int,
                r,
                y as int,
                rows as int,
                order,
            ) == goal,
        decreases bottom - y,
    {
        let left: usize = (bottom - y) as usize;
        let n: usize = if rows < left { rows } else { left };
        assert((y + n) * stride * 4 <= pw * ph * 4) by (nonlinear_arith)
            requires
                0 <= y + n <= ph,
                stride == pw,
        ;
        let bytes = surface::copy_rows(
            data,
            stride,
            r.x as usize,
            r.w as usize,
            y as usize,
            n,
            order,
        );
        let ghost before = out@;
        let chunk = Chunk { x: r.x, y, w: r.w, h: n as i32, bytes };
        out.push(chunk);
        assert(chunk_views(out@) =~= chunk_views(before).push(chunk@));
        assert(chunk_views(out@) + requests_from(
            data@,
            stride as int,
            r,
            y + n,
            rows as int,
            order,
        ) =~= chunk_views(before) + requests_from(
            data@,
            stride as int,
            r,
            y as int,
            rows as int,
            order,
        ));
        y = y + n as i32;
    }
    assert(chunk_views(out@) =~= goal);
    out
}

/// The requests cover the rows of the area from row `y` to its bottom, each row once and in
/// order: each request begins where the one before it ended.
pub proof fn requests_cover_the_area(
    data: Seq<u8>,
    stride: int,
    r: Rect,
    y: int,
    rows: int,
    order: ByteOrder,
)
    requires
        rows >= 1,
        r.y <= y <= r.y + r.h,
    ensures
        ({
            let s = requests_from(data, stride, r, y, rows, order);
            &&& y < r.y + r.h ==> s.len() > 0 && s[0].y == y && s.last().y + s.last().h == r.y + r.h
            &&& y == r.y + r.h ==> s.len() == 0
            &&& forall|i: int|
                0 <= i < s.len() ==> (#[trigger] s[i]).x == r.x && s[i].w == r.w && 1 <= s[i].h
                    <= rows
            &&& forall|i: int|
                0 <= i < s.len() - 1 ==> s[i + 1].y == (#[trigger] s[i]).y + s[i].h
        }),
    decreases r.y + r.h - y,
{
    if y < r.y + r.h {
        let n = if rows < r.y + r.h - y { rows } else { r.y + r.h - y };
        requests_cover_the_area(data, stride, r, y + n, rows, order);
        let rest = requests_from(data, stride, r, y + n, rows, order);
        let s = requests_from(data, stride, r, y, rows, order);
        assert forall|i: int| 0 <= i < s.len() implies (#[trigger] s[i]).x == r.x && s[i].w == r.w
            && 1 <= s[i].h <= rows by {
            if i > 0 {
                assert(s[i] == rest[i - 1]);
            }
        }
        assert forall|i: int| 0 <= i < s.len() - 1 implies s[i + 1].y == (#[trigger] s[i]).y
            + s[i].h by {
            assert(s[i + 1] == rest[i]);
            if i > 0 {
                assert(s[i] == rest[i - 1]);
            }
        }
        if rest.len() > 0 {
            assert(s.last() == rest.last());
        }
    }
}

/// A request holds at most the conversion buffer's size, and at most what the server accepts,
/// as long as a single row does.
pub proof fn requests_stay_within_limits(max_request: int, row_bytes: int, n: int)
    requires
        0 < row_bytes,
        1 <= n <= rows_per_request(max_request, row_bytes),
    ensures
        row_bytes <= UPLOAD_CHUNK ==> n * row_bytes <= UPLOAD_CHUNK,
        row_bytes <= UPLOAD_CHUNK && row_bytes + 64 <= max_request ==> n * row_bytes + 64
            <= max_request,
{
    let room = if max_request > 64 { max_request - 64 } else { 0 };
    let limit = if room < UPLOAD_CHUNK { room } else { UPLOAD_CHUNK as int };
    let limit = if limit < row_bytes { row_bytes } else { limit };
    assert(limit / row_bytes >= 1 && n * row_bytes <= limit) by (nonlinear_arith)
        requires
            0 < row_bytes <= limit,
            1 <= n,
            n <= limit / row_bytes || n <= 1,
    ;
}

/// As many rows go into a request as fit: one more would be too many for the server or for the
/// buffer.
pub proof fn requests_are_as_large_as_they_may_be(max_request: int, row_bytes: int)
    requires
        0 < row_bytes,
    ensures
        ({
            let rows = rows_per_request(max_request, row_bytes);
            &&& rows >= 1
            &&& (rows + 1) * row_bytes > max_request - 64 || (rows + 1) * row_bytes > 262144
            &&& rows > 1 ==> rows * row_bytes + 64 <= max_request && rows * row_bytes <= 262144
        }),
{
    let room = if max_request > 64 { max_request - 64 } else { 0 };
    let limit = if room < UPLOAD_CHUNK { room } else { UPLOAD_CHUNK as int };
    let most = if limit < row_bytes { row_bytes } else { limit };
    let rows = rows_per_request(max_request, row_bytes);
    assert(most / row_bytes >= 1 && (most / row_bytes) * row_bytes <= most && (most / row_bytes + 1)
        * row_bytes > most) by (nonlinear_arith)
        requires
            0 < row_bytes <= most,
    ;
    if rows > 1 {
        assert(limit >= row_bytes) by {
            if limit < row_bytes {
                assert(most / row_bytes == 1) by (nonlinear_arith)
                    requires
                        most == row_bytes,
                        0 < row_bytes,
                ;
            }
        }
    }
}

/// Every pixel of the area that lies on the buffer is in one request, at its own place in the
/// window, with its colours in the server's order.
pub proof fn every_pixel_is_sent(
    data: Seq<u8>,
    stride: int,
    r: Rect,
    y: int,
    rows: int,
    order: ByteOrder,
    px: int,
    py: int,
)
    requires
        rows >= 1,
        0 <= r.x,
        0 <= r.y <= y <= py,
        r.has(px, py),
        r.x + r.w <= stride,
        (r.y + r.h) * stride * 4 <= data.len(),
    ensures
        exists|i: int|
            0 <= i < requests_from(data, stride, r, y, rows, order).len() && holds_pixel(
                #[trigger] requests_from(data, stride, r, y, rows, order)[i],
                data,
                stride,
                order,
                px,
                py,
            ),
    decreases r.y + r.h - y,
{
    let n = if rows < r.y + r.h - y { rows } else { r.y + r.h - y };
    let all = requests_from(data, stride, r, y, rows, order);
    let rest = requests_from(data, stride, r, y + n, rows, order);
    if py < y + n {
        assert((y + n) * stride * 4 <= data.len()) by (nonlinear_arith)
            requires
                y + n <= r.y + r.h,
                0 <= stride,
                (r.y + r.h) * stride * 4 <= data.len(),
        ;
        surface::copied_pixels_keep_their_place(
            data,
            stride,
            r.x as int,
            r.w as int,
            y,
            n,
            order,
            px - r.x,
            py - y,
        );
        assert(holds_pixel(all[0], data, stride, order, px, py));
    } else {
        every_pixel_is_sent(data, stride, r, y + n, rows, order, px, py);
        let i = choose|i: int|
            0 <= i < rest.len() && holds_pixel(#[trigger] rest[i], data, stride, order, px, py);
        assert(all[i + 1] == rest[i]);
    }
}

/// A request shows pixel `(px, py)` of a buffer at that place.
pub open spec fn holds_pixel(
    c: ChunkView,
    data: Seq<u8>,
    stride: int,
    order: ByteOrder,
    px: int,
    py: int,
) -> bool {
    let to = 4 * ((py - c.y) * c.w + (px - c.x));
    let from = 4 * (py * stride + px);
    &&& c.x <= px < c.x + c.w && c.y <= py < c.y + c.h
    &&& c.bytes.len() == c.h * c.w * 4
    &&& order == ByteOrder::Bgra ==> c.bytes[to + 2] == data[from] && c.bytes[to + 1] == data[from + 1]
        && c.bytes[to] == data[from + 2] && c.bytes[to + 3] == data[from + 3]
    &&& order == ByteOrder::Argb ==> c.bytes[to + 1] == data[from] && c.bytes[to + 2] == data[from + 1]
        && c.bytes[to + 3] == data[from + 2] && c.bytes[to] == data[from + 3]
}

/// What is drawn is what was reported, as far as it lies in the window; in a full frame, or
/// without a report, it is the whole window.
pub proof fn damage_is_drawn(w: Win, damage: Option<Rect>, px: int, py: int)
    requires
        w.w >= 0,
        w.h >= 0,
        damage matches Some(d) ==> d.in_range(),
    ensures
        drawn(w, damage).has(px, py) <==> 0 <= px < w.w && 0 <= py < w.h && (w.paint.fresh || (
        damage matches Some(d) ==> d.has(px, py))),
{
    if let Some(d) = damage {
        crate::geometry::meet_is_the_common_part(d, whole(w), px, py);
    }
}

/// Sending an area sends every pixel of it that lies on the buffer, and no request is larger than
/// the server accepts, unless it is a single row.
pub proof fn areas_are_sent(
    p: tiny_skia::Pixmap,
    area: Rect,
    order: ByteOrder,
    max_request: int,
    px: int,
    py: int,
    k: int,
)
    requires
        area.in_range(),
        0 < surface::pixmap_width(p) <= i32::MAX,
        0 < surface::pixmap_height(p) <= i32::MAX,
        surface::pixmap_bytes(p).len() >= surface::pixmap_width(p) * surface::pixmap_height(p) * 4,
    ensures
        ({
            let s = requests_for(p, area, order, max_request);
            let w = surface::pixmap_width(p) as int;
            let h = surface::pixmap_height(p) as int;
            &&& area.has(px, py) && 0 <= px < w && 0 <= py < h ==> exists|i: int|
                0 <= i < s.len() && holds_pixel(
                    #[trigger] s[i],
                    surface::pixmap_bytes(p),
                    w,
                    order,
                    px,
                    py,
                )
            &&& 0 <= k < s.len() ==> {
                &&& s[k].h >= 1
                &&& s[k].h > 1 ==> s[k].h * (s[k].w * 4) + 64 <= max_request && s[k].h * (s[k].w * 4)
                    <= 262144
                &&& 0 <= s[k].x && s[k].x + s[k].w <= w
                &&& area.x <= s[k].x && s[k].x + s[k].w <= area.x + area.w
                &&& 0 <= s[k].y
            }
        }),
{
    let w = surface::pixmap_width(p) as int;
    let h = surface::pixmap_height(p) as int;
    let size = Rect { x: 0, y: 0, w: w as i32, h: h as i32 };
    let r = area.meet(size);
    let data = surface::pixmap_bytes(p);
    crate::geometry::meet_is_the_common_part(area, size, px, py);
    if !r.empty() {
        let row_bytes = r.w * 4;
        let rows = rows_per_request(max_request, row_bytes);
        requests_are_as_large_as_they_may_be(max_request, row_bytes);
        requests_cover_the_area(data, w, r, r.y as int, rows, order);
        assert((r.y + r.h) * w * 4 <= w * h * 4) by (nonlinear_arith)
            requires
                r.y + r.h <= h,
                0 < w,
        ;
        if area.has(px, py) && 0 <= px < w && 0 <= py < h {
            every_pixel_is_sent(data, w, r, r.y as int, rows, order, px, py);
        }
        let s = requests_for(p, area, order, max_request);
        if 0 <= k < s.len() {
            assert(s[k].x == r.x && s[k].w == r.w && 1 <= s[k].h <= rows);
            rows_go_down(data, w, r, r.y as int, rows, order, k);
            if s[k].h > 1 {
                assert(s[k].h * row_bytes <= rows * row_bytes) by (nonlinear_arith)
                    requires
                        s[k].h <= rows,
                        0 < row_bytes,
                ;
            }
        }
    }
}

proof fn rows_go_down(
    data: Seq<u8>,
    stride: int,
    r: Rect,
    y: int,
    rows: int,
    order: ByteOrder,
    k: int,
)
    requires
        0 <= k < requests_from(data, stride, r, y, rows, order).len(),
    ensures
        requests_from(data, stride, r, y, rows, order)[k].y >= y,
    decreases r.y + r.h - y,
{
    let n = if rows < r.y + r.h - y { rows } else { r.y + r.h - y };
    let all = requests_from(data, stride, r, y, rows, order);
    if k > 0 {
        let rest = requests_from(data, stride, r, y + n, rows, order);
        assert(all[k] == rest[k - 1]);
        rows_go_down(data, stride, r, y + n, rows, order, k - 1);
    }
}

} // verus!
