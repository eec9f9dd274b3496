//! The mouse cursor, drawn over BGRA frames.
use vstd::arithmetic::div_mod::*;
use vstd::arithmetic::mul::*;
use vstd::prelude::*;

verus! {

/// The cursor bitmap of the last frame, kept as long as the cursor stays the same.
#[derive(Debug)]
pub struct CursorState {
    /// Which cursor the bitmap belongs to; zero before the first one.
    pub handle: usize,
    /// Column of the hot spot within the bitmap.
    pub hotspot_x: i32,
    /// Row of the hot spot within the bitmap.
    pub hotspot_y: i32,
    /// The bitmap, four bytes a pixel; empty where there is none to draw.
    pub pixels: Vec<u8>,
    /// Width of the bitmap.
    pub cursor_w: u32,
    /// Height of the bitmap.
    pub cursor_h: u32,
}

/// A cursor bitmap as the system handed it out.
#[derive(Debug)]
pub struct CursorShape {
    /// Column of the hot spot.
    pub hotspot_x: u32,
    /// Row of the hot spot.
    pub hotspot_y: u32,
    /// The bitmap with its width and height, where its pixels could be read.
    pub bitmap: Option<(Vec<u8>, u32, u32)>,
}

/// What the system says about the cursor for one frame.
#[derive(Debug)]
pub enum CursorSighting {
    /// The cursor is hidden, or nothing could be learned of it.
    Absent,
    /// The cursor is shown with its hot spot at (`x`, `y`) of the virtual screen. `shape` is what
    /// could be learned of its bitmap; it is looked at only for a cursor that the state does not
    /// hold.
    Shown { handle: usize, x: i32, y: i32, shape: Option<CursorShape> },
}

/// The number of bytes of a bitmap, four a pixel.
pub open spec fn bitmap_len(w: u32, h: u32) -> int {
    w * h * 4
}

/// Gives the number of bytes of a bitmap.
pub fn bitmap_bytes(w: u32, h: u32) -> (n: usize)
    requires
        bitmap_len(w, h) <= u32::MAX,
    ensures
        n == bitmap_len(w, h),
{
    assert(w * h >= 0) by (nonlinear_arith);
    (w * h * 4) as usize
}

impl CursorShape {
    /// A bitmap has as many bytes as its size asks for.
    pub open spec fn wf(self) -> bool {
        self.bitmap matches Some((pixels, w, h)) ==> pixels@.len() == bitmap_len(w, h)
    }
}

impl CursorSighting {
    /// The shape of a cursor that is shown is well formed.
    pub open spec fn wf(self) -> bool {
        self matches CursorSighting::Shown { shape: Some(shape), .. } ==> shape.wf()
    }
}

impl CursorState {
    /// There is no bitmap, or it has as many bytes as its size asks for.
    pub open spec fn wf(self) -> bool {
        self.pixels@.len() == 0 || self.pixels@.len() == bitmap_len(self.cursor_w, self.cursor_h)
    }

    /// A state that holds no cursor.
    pub fn new() -> (state: CursorState)
        ensures
            state.wf(),
            state.handle == 0,
            state.hotspot_x == 0,
            state.hotspot_y == 0,
            state.pixels@ == Seq::<u8>::empty(),
            state.cursor_w == 0,
            state.cursor_h == 0,
    {
        CursorState {
            handle: 0,
            hotspot_x: 0,
            hotspot_y: 0,
            pixels: Vec::new(),
            cursor_w: 0,
            cursor_h: 0,
        }
    }

    /// Whether the bitmap of the cursor `handle` has to be fetched.
    pub fn needs_shape(&self, handle: usize) -> (needed: bool)
        ensures
            needed == (handle != self.handle),
    {
        handle != self.handle
    }

    /// What stays of the state when the cursor `handle` is seen: everything where it is the one
    /// held, or where nothing could be learned of a new one; otherwise the new hot spot, and the
    /// new bitmap or, where its pixels could not be read, none.
    pub open spec fn holds(
        self,
        before: CursorState,
        handle: usize,
        shape: Option<CursorShape>,
    ) -> bool {
        if handle == before.handle || shape is None {
            self == before
        } else {
            let new = shape->Some_0;
            &&& self.handle == handle
            &&& self.hotspot_x == new.hotspot_x as i32
            &&& self.hotspot_y == new.hotspot_y as i32
            &&& match new.bitmap {
                Some(b) => self.pixels == b.0 && self.cursor_w == b.1 && self.cursor_h == b.2,
                None => self.pixels@ == Seq::<u8>::empty() && self.cursor_w == before.cursor_w
                    && self.cursor_h == before.cursor_h,
            }
        }
    }

    fn take_shape(&mut self, handle: usize, shape: Option<CursorShape>)
        ensures
            final(self).holds(*old(self), handle, shape),
    {
        if handle == self.handle {
            return;
        }
        match shape {
            None => {},
            Some(new) => {
                self.handle = handle;
                self.hotspot_x = new.hotspot_x as i32;
                self.hotspot_y = new.hotspot_y as i32;
                match new.bitmap {
                    Some((pixels, w, h)) => {
                        self.pixels = pixels;
                        self.cursor_w = w;
                        self.cursor_h = h;
                    },
                    None => {
                        self.pixels = Vec::new();
                    },
                }
            },
        }
    }
}

/// Width and height of the colour part of a cursor bitmap. A cursor without a colour bitmap has
/// a mask of twice its height.
pub fn bitmap_size(bitmap_w: i32, bitmap_h: i32, mask_only: bool) -> (size: (u32, u32))
    ensures
        size.0 == bitmap_w as u32,
        size.1 == (if mask_only {
            bitmap_h as u32 / 2
        } else {
            bitmap_h as u32
        }),
{
    (
        bitmap_w as u32,
        if mask_only {
            bitmap_h as u32 / 2
        } else {
            bitmap_h as u32
        },
    )
}

/// A channel of the cursor laid over a channel of the frame with the opacity `a`.
pub open spec fn blend(s: u8, d: u8, a: u8) -> u8 {
    ((s * a + d * (255 - a)) / 255) as u8
}

/// A cursor bitmap at its place on a frame.
pub ghost struct Overlay {
    /// Width of the frame.
    pub frame_w: int,
    /// Height of the frame.
    pub frame_h: int,
    /// Column of the frame where the bitmap begins; may lie outside.
    pub cx: int,
    /// Row of the frame where the bitmap begins; may lie outside.
    pub cy: int,
    /// Width of the bitmap.
    pub cw: int,
    /// Height of the bitmap.
    pub ch: int,
    /// The bitmap.
    pub pixels: Seq<u8>,
}

impl Overlay {
    /// Column of the bitmap over pixel `i` of the frame.
    pub open spec fn px(self, i: int) -> int {
        i % self.frame_w - self.cx
    }

    /// Row of the bitmap over pixel `i` of the frame.
    pub open spec fn py(self, i: int) -> int {
        i / self.frame_w - self.cy
    }

    /// The pixel of the bitmap over pixel `i` of the frame.
    pub open spec fn source(self, i: int) -> int {
        self.py(i) * self.cw + self.px(i)
    }

    /// Whether the bitmap has a pixel over pixel `i` of a frame of `len` bytes.
    pub open spec fn covers(self, len: int, i: int) -> bool {
        &&& 0 < self.frame_w
        &&& 0 <= i < len / 4
        &&& i / self.frame_w < self.frame_h
        &&& 0 <= self.px(i) < self.cw
        &&& 0 <= self.py(i) < self.ch
        &&& self.source(i) < self.pixels.len() / 4
    }

    /// Byte `k` of the frame with the cursor on it: where the bitmap covers the pixel, its colour
    /// channels are blended in; the fourth channel and every other pixel stay.
    pub open spec fn byte(self, frame: Seq<u8>, k: int) -> u8 {
        let i = k / 4;
        if k % 4 < 3 && self.covers(frame.len() as int, i) {
            let at = self.source(i) * 4;
            blend(self.pixels[at + k % 4], frame[k], self.pixels[at + 3])
        } else {
            frame[k]
        }
    }

    /// The frame with the cursor on it.
    pub open spec fn over(self, frame: Seq<u8>) -> Seq<u8> {
        Seq::new(frame.len(), |k: int| self.byte(frame, k))
    }

    /// Whether pixel `i` lies in a bitmap row above `row`, or in it and left of `col`.
    spec fn before(self, i: int, row: int, col: int) -> bool {
        self.py(i) < row || (self.py(i) == row && self.px(i) < col)
    }

    /// `now` is `frame` with the cursor drawn up to row `row` and column `col` of the bitmap.
    spec fn drawn(self, frame: Seq<u8>, now: Seq<u8>, row: int, col: int) -> bool {
        &&& now.len() == frame.len()
        &&& forall|k: int|
            0 <= k < frame.len() ==> #[trigger] now[k] == (if self.covers(
                frame.len() as int,
                k / 4,
            ) && self.before(k / 4, row, col) {
                self.byte(frame, k)
            } else {
                frame[k]
            })
    }
}

fn blend_channel(s: u8, d: u8, a: u8) -> (out: u8)
    ensures
        out == blend(s, d, a),
{
    proof {
        assert(0 <= s * a + d * (255 - a) <= 255 * 255) by (nonlinear_arith)
            requires
                0 <= s <= 255,
                0 <= d <= 255,
                0 <= a <= 255,
        ;
        assert(0 <= s * a <= 255 * 255) by (nonlinear_arith)
            requires
                0 <= s <= 255,
                0 <= a <= 255,
        ;
    }
    if a == 0 {
        assert(s * 0 == 0);
        assert(d * (255 - a) == d * 255);
        return d;
    }
    if a == 255 {
        assert(255 - a == 0);
        assert(d * 0 == 0);
        return s;
    }
    let sum: u32 = s as u32 * a as u32 + d as u32 * (255 - a as u32);
    (sum / 255) as u8
}

/// Lays the colour channels of pixel `src` of the bitmap over pixel `dst` of the frame.
fn blend_pixel(frame: &mut [u8], dst: usize, pixels: &Vec<u8>, src: usize)
    requires
        dst < old(frame)@.len() / 4,
        src < pixels@.len() / 4,
    ensures
        final(frame)@.len() == old(frame)@.len(),
        forall|k: int|
            0 <= k < old(frame)@.len() ==> #[trigger] final(frame)@[k] == (if k / 4 == dst && k % 4
                < 3 {
                blend(pixels@[src * 4 + k % 4], old(frame)@[k], pixels@[src * 4 + 3])
            } else {
                old(frame)@[k]
            }),
{
    let n: usize = frame.len();
    let m: usize = pixels.len();
    let to: usize = dst * 4;
    let from: usize = src * 4;
    let a: u8 = pixels[from + 3];
    let b0: u8 = blend_channel(pixels[from], frame[to], a);
    let b1: u8 = blend_channel(pixels[from + 1], frame[to + 1], a);
    let b2: u8 = blend_channel(pixels[from + 2], frame[to + 2], a);
    frame[to] = b0;
    frame[to + 1] = b1;
    frame[to + 2] = b2;
    proof {
        assert forall|k: int| 0 <= k < n implies #[trigger] frame@[k] == (if k / 4 == dst && k % 4
            < 3 {
            blend(pixels@[src * 4 + k % 4], old(frame)@[k], pixels@[src * 4 + 3])
        } else {
            old(frame)@[k]
        }) by {
            if k / 4 == dst {
                assert(k == to + k % 4);
            }
        }
    }
}

/// The column and row of pixel `fy * w + fx` are `fx` and `fy`.
proof fn lemma_pixel_position(w: int, fx: int, fy: int)
    requires
        0 <= fx < w,
        0 <= fy,
    ensures
        (fy * w + fx) / w == fy,
        (fy * w + fx) % w == fx,
        0 <= fy * w,
{
    lemma_mul_nonnegative(fy, w);
    lemma_fundamental_div_mod_converse(fy * w + fx, w, fy, fx);
}

/// Each pixel of the bitmap lies over one pixel of the frame.
proof fn lemma_pixel_unique(w: int, i: int, fx: int, fy: int)
    requires
        0 < w,
        i / w == fy,
        i % w == fx,
    ensures
        i == fy * w + fx,
{
    lemma_fundamental_div_mod(i, w);
    lemma_mul_is_commutative(w, fy);
}

/// Draws the bitmap of `state` over the frame, with its upper left corner at (`cx`, `cy`).
fn draw_bitmap(
    frame: &mut [u8],
    frame_w: u32,
    frame_h: u32,
    state: &CursorState,
    cx: i64,
    cy: i64,
    Ghost(o): Ghost<Overlay>,
)
    requires
        -0x2_0000_0000 <= cx <= 0x2_0000_0000,
        -0x2_0000_0000 <= cy <= 0x2_0000_0000,
        o == (Overlay {
            frame_w: frame_w as int,
            frame_h: frame_h as int,
            cx: cx as int,
            cy: cy as int,
            cw: state.cursor_w as int,
            ch: state.cursor_h as int,
            pixels: state.pixels@,
        }),
    ensures
        final(frame)@ == o.over(old(frame)@),
{
    let ghost start = frame@;
    let len: usize = frame.len();
    let pixels_len: usize = state.pixels.len();
    let frame_pixels: u64 = (len / 4) as u64;
    let cursor_pixels: u64 = (pixels_len / 4) as u64;
    let cw: i64 = state.cursor_w as i64;
    let ch: i64 = state.cursor_h as i64;
    let fw: i64 = frame_w as i64;
    let fh: i64 = frame_h as i64;
    // Clipping to the frame beforehand keeps bounds checks on the position out of the loops.
    let py_start: i64 = if -cy > 0 {
        -cy
    } else {
        0
    };
    let py_end: i64 = if fh - cy < ch {
        fh - cy
    } else {
        ch
    };
    let px_start: i64 = if -cx > 0 {
        -cx
    } else {
        0
    };
    let px_end: i64 = if fw - cx < cw {
        fw - cx
    } else {
        cw
    };
    proof {
        assert forall|i: int| o.covers(len as int, i) implies py_start <= o.py(i) < py_end
            && px_start <= o.px(i) < px_end by {
            lemma_mod_bound(i, fw as int);
            lemma_div_pos_is_pos(i, fw as int);
        }
    }
    if py_start >= py_end || px_start >= px_end {
        assert(frame@ =~= o.over(start));
        return;
    }
    let mut py: i64 = py_start;
    while py < py_end
        invariant
            0 <= py_start <= py <= py_end,
            -0x2_0000_0000 <= cx <= 0x2_0000_0000,
            -0x2_0000_0000 <= cy <= 0x2_0000_0000,
            py_start >= -cy,
            py_end <= fh - cy,
            py_end <= ch,
            0 <= px_start < px_end,
            px_start >= -cx,
            px_end <= fw - cx,
            px_end <= cw,
            0 <= cw <= u32::MAX,
            0 <= ch <= u32::MAX,
            0 <= fw <= u32::MAX,
            0 <= fh <= u32::MAX,
            o == (Overlay {
                frame_w: fw as int,
                frame_h: fh as int,
                cx: cx as int,
                cy: cy as int,
                cw: cw as int,
                ch: ch as int,
                pixels: state.pixels@,
            }),
            frame_pixels == len / 4,
            cursor_pixels == pixels_len / 4,
            pixels_len == state.pixels@.len(),
            len == start.len(),
            len == frame@.len(),
            forall|i: int|
                #[trigger] o.covers(len as int, i) ==> py_start <= o.py(i) < py_end && px_start
                    <= o.px(i) < px_end,
            o.drawn(start, frame@, py as int, px_start as int),
        decreases py_end - py,
    {
        let fy: i64 = cy + py;
        proof {
            assert(0 <= py * cw + cw <= 0xffff_ffff * 0x1_0000_0000) by (nonlinear_arith)
                requires
                    0 <= py < 0xffff_ffff,
                    0 <= cw <= 0xffff_ffff,
            ;
            assert(0 <= py * cw) by (nonlinear_arith)
                requires
                    0 <= py,
                    0 <= cw,
            ;
            assert(0 <= fy * fw + fw <= 0xffff_ffff * 0x1_0000_0000) by (nonlinear_arith)
                requires
                    0 <= fy < 0xffff_ffff,
                    0 <= fw <= 0xffff_ffff,
            ;
            assert(0 <= fy * fw) by (nonlinear_arith)
                requires
                    0 <= fy,
                    0 <= fw,
            ;
        }
        let src_row: u64 = py as u64 * cw as u64;
        let dst_row: u64 = fy as u64 * fw as u64;
        let mut px: i64 = px_start;
        while px < px_end
            invariant
                0 <= px_start <= px <= px_end,
                py_start <= py < py_end,
                fy == cy + py,
                0 <= fy < fh,
                0 <= py < ch,
                px_start >= -cx,
                px_end <= fw - cx,
                px_end <= cw,
                -0x2_0000_0000 <= cx <= 0x2_0000_0000,
                0 <= cw <= u32::MAX,
                0 <= fw <= u32::MAX,
                src_row == py * cw,
                dst_row == fy * fw,
                src_row + cw <= u64::MAX,
                dst_row + fw <= u64::MAX,
                o == (Overlay {
                    frame_w: fw as int,
                    frame_h: fh as int,
                    cx: cx as int,
                    cy: cy as int,
                    cw: cw as int,
                    ch: ch as int,
                    pixels: state.pixels@,
                }),
                frame_pixels == len / 4,
                cursor_pixels == pixels_len / 4,
                pixels_len == state.pixels@.len(),
                len == start.len(),
                len == frame@.len(),
                o.drawn(start, frame@, py as int, px as int),
            decreases px_end - px,
        {
            let src: u64 = src_row + px as u64;
            let dst: u64 = dst_row + (cx + px) as u64;
            let ghost before = frame@;
            proof {
                lemma_pixel_position(fw as int, cx + px, fy as int);
            }
            if dst < frame_pixels && src < cursor_pixels {
                blend_pixel(frame, dst as usize, &state.pixels, src as usize);
            }
            proof {
                assert forall|k: int| 0 <= k < start.len() implies #[trigger] frame@[k] == (
                if o.covers(start.len() as int, k / 4) && o.before(
                    k / 4,
                    py as int,
                    px as int + 1,
                ) {
                    o.byte(start, k)
                } else {
                    start[k]
                }) by {
                    let i = k / 4;
                    assert(before[k] == (if o.covers(start.len() as int, i) && o.before(
                        i,
                        py as int,
                        px as int,
                    ) {
                        o.byte(start, k)
                    } else {
                        start[k]
                    }));
                    if o.py(i) == py && o.px(i) == px {
                        lemma_pixel_unique(fw as int, i, cx + px, fy as int);
                        assert(i == dst);
                        assert(o.source(i) == src);
                    } else {
                        assert(i != dst);
                    }
                }
                assert(o.drawn(start, frame@, py as int, px as int + 1));
            }
            px += 1;
        }
        proof {
            assert forall|k: int| 0 <= k < start.len() implies #[trigger] frame@[k] == (
            if o.covers(start.len() as int, k / 4) && o.before(
                k / 4,
                py as int + 1,
                px_start as int,
            ) {
                o.byte(start, k)
            } else {
                start[k]
            }) by {
                if o.covers(len as int, k / 4) {
                    assert(o.before(k / 4, py as int, px_end as int) == o.before(
                        k / 4,
                        py as int + 1,
                        px_start as int,
                    ));
                }
            }
            assert(o.drawn(start, frame@, py as int + 1, px_start as int));
        }
        py += 1;
    }
    proof {
        assert forall|k: int| 0 <= k < len implies frame@[k] == #[trigger] o.over(start)[k] by {
            if o.covers(len as int, k / 4) {
                assert(o.before(k / 4, py_end as int, px_start as int));
            }
        }
    }
    assert(frame@ =~= o.over(start));
}

/// Where the cursor of `state` goes on a frame whose upper left corner is at (`disp_left`,
/// `disp_top`) of the virtual screen, when its hot spot is at (`x`, `y`).
pub open spec fn overlay(
    state: CursorState,
    frame_w: u32,
    frame_h: u32,
    disp_left: i32,
    disp_top: i32,
    x: i32,
    y: i32,
) -> Overlay {
    Overlay {
        frame_w: frame_w as int,
        frame_h: frame_h as int,
        cx: x - disp_left - state.hotspot_x,
        cy: y - disp_top - state.hotspot_y,
        cw: state.cursor_w as int,
        ch: state.cursor_h as int,
        pixels: state.pixels@,
    }
}

/// Whether `after` is the frame `before` with the cursor on it, and `state` what is then known of
/// the cursor, where `known` was known before: a cursor of which nothing is known is not drawn.
pub open spec fn cursor_drawn(
    before: Seq<u8>,
    after: Seq<u8>,
    frame_w: u32,
    frame_h: u32,
    disp_left: i32,
    disp_top: i32,
    known: CursorState,
    state: CursorState,
    sighting: CursorSighting,
) -> bool {
    match sighting {
        CursorSighting::Absent => after == before && state == known,
        CursorSighting::Shown { handle, x, y, shape } => {
            &&& state.holds(known, handle, shape)
            &&& after == (if state.handle == handle {
                overlay(state, frame_w, frame_h, disp_left, disp_top, x, y).over(before)
            } else {
                before
            })
        },
    }
}

/// Draws the cursor over a frame, and keeps its bitmap for the next one.
///
/// Positions are computed in 64 bits, so no placement of the displays overflows.
pub fn draw_cursor_bgra(
    bgra: &mut [u8],
    frame_w: u32,
    frame_h: u32,
    disp_left: i32,
    disp_top: i32,
    state: &mut CursorState,
    sighting: CursorSighting,
)
    requires
        old(state).wf(),
        sighting.wf(),
    ensures
        cursor_drawn(
            old(bgra)@,
            final(bgra)@,
            frame_w,
            frame_h,
            disp_left,
            disp_top,
            *old(state),
            *final(state),
            sighting,
        ),
        final(state).wf(),
{
    match sighting {
        CursorSighting::Absent => {},
        CursorSighting::Shown { handle, x, y, shape } => {
            state.take_shape(handle, shape);
            if state.handle == handle {
                let cx: i64 = x as i64 - disp_left as i64 - state.hotspot_x as i64;
                let cy: i64 = y as i64 - disp_top as i64 - state.hotspot_y as i64;
                let ghost o = overlay(*state, frame_w, frame_h, disp_left, disp_top, x, y);
                draw_bitmap(bgra, frame_w, frame_h, state, cx, cy, Ghost(o));
            }
        },
    }
}

/// Full opacity replaces a channel of the frame, full transparency leaves it alone.
pub proof fn law_blend_extremes(s: u8, d: u8)
    ensures
        blend(s, d, 255) == s,
        blend(s, d, 0) == d,
{
    assert(s * 255 + d * (255 - 255) == s * 255);
    assert(s * 0 + d * (255 - 0) == d * 255);
}

/// A cursor whose pixels are all fully transparent changes nothing.
pub proof fn law_transparent_cursor(o: Overlay, frame: Seq<u8>)
    requires
        forall|j: int| 0 <= j < o.pixels.len() / 4 ==> #[trigger] o.pixels[j * 4 + 3] == 0,
    ensures
        o.over(frame) == frame,
{
    assert forall|k: int| 0 <= k < frame.len() implies #[trigger] o.over(frame)[k] == frame[k] by {
        let i = k / 4;
        if k % 4 < 3 && o.covers(frame.len() as int, i) {
            lemma_mul_nonnegative(o.py(i), o.cw);
            let at = o.source(i) * 4;
            law_blend_extremes(o.pixels[at + k % 4], frame[k]);
        }
    }
    assert(o.over(frame) =~= frame);
}

/// Drawing the cursor changes neither the size of the frame, nor its fourth channel, nor any pixel
/// that the cursor does not cover.
pub proof fn law_cursor_leaves_the_rest(o: Overlay, frame: Seq<u8>, k: int)
    requires
        0 <= k < frame.len(),
        k % 4 == 3 || !o.covers(frame.len() as int, k / 4),
    ensures
        o.over(frame).len() == frame.len(),
        o.over(frame)[k] == frame[k],
{
}

pub(crate) proof fn lemma_bitmap_pixel(w: int, h: int, px: int, py: int)
    requires
        0 <= px < w,
        0 <= py < h,
    ensures
        0 <= py * w + px < w * h,
{
    lemma_mul_nonnegative(py, w);
    lemma_mul_inequality(py + 1, h, w);
    lemma_mul_is_distributive_add_other_way(w, py, 1);
    lemma_mul_is_commutative(h, w);
}

pub(crate) proof fn lemma_pixel_of_the_cursor(
    before: Seq<u8>,
    after: Seq<u8>,
    frame_w: u32,
    frame_h: u32,
    disp_left: i32,
    disp_top: i32,
    known: CursorState,
    state: CursorState,
    sighting: CursorSighting,
    px: int,
    py: int,
)
    requires
        cursor_drawn(
            before,
            after,
            frame_w,
            frame_h,
            disp_left,
            disp_top,
            known,
            state,
            sighting,
        ),
        sighting is Shown,
        state.handle == sighting->handle,
        state.pixels@.len() == state.cursor_w * state.cursor_h * 4,
        0 <= px < state.cursor_w,
        0 <= py < state.cursor_h,
        0 <= sighting->x - disp_left - state.hotspot_x + px < frame_w,
        0 <= sighting->y - disp_top - state.hotspot_y + py < frame_h,
        4 * ((sighting->y - disp_top - state.hotspot_y + py) * frame_w + (sighting->x - disp_left
            - state.hotspot_x + px)) + 4 <= before.len(),
    ensures
        ({
            let fx = sighting->x - disp_left - state.hotspot_x + px;
            let fy = sighting->y - disp_top - state.hotspot_y + py;
            let to = 4 * (fy * frame_w + fx);
            let from = 4 * (py * state.cursor_w + px);
            let a = state.pixels@[from + 3];
            &&& after.len() == before.len()
            &&& 0 <= to && to + 4 <= before.len()
            &&& forall|c: int|
                0 <= c < 3 ==> {
                    let s = state.pixels@[from + c];
                    let d = before[to + c];
                    let out = #[trigger] after[to + c];
                    &&& a == 255 ==> out == s
                    &&& a == 0 ==> out == d
                    &&& 255 * out <= s * a + d * (255 - a) < 255 * out + 255
                }
            &&& after[to + 3] == before[to + 3]
        }),
{
    let fx = sighting->x - disp_left - state.hotspot_x + px;
    let fy = sighting->y - disp_top - state.hotspot_y + py;
    let fw = frame_w as int;
    let (cw, ch) = (state.cursor_w as int, state.cursor_h as int);
    let i = fy * fw + fx;
    let (to, from) = (4 * i, 4 * (py * cw + px));
    let o = overlay(state, frame_w, frame_h, disp_left, disp_top, sighting->x, sighting->y);
    let a = state.pixels@[from + 3];
    lemma_pixel_position(fw, fx, fy);
    lemma_bitmap_pixel(cw, ch, px, py);
    assert(after == o.over(before));
    assert(o.source(i) == py * cw + px);
    assert(o.covers(before.len() as int, i));
    assert forall|c: int| 0 <= c < 3 implies {
        let s = state.pixels@[from + c];
        let d = before[to + c];
        let out = #[trigger] after[to + c];
        &&& a == 255 ==> out == s
        &&& a == 0 ==> out == d
        &&& 255 * out <= s * a + d * (255 - a) < 255 * out + 255
    } by {
        let s = state.pixels@[from + c];
        let d = before[to + c];
        assert((to + c) / 4 == i && (to + c) % 4 == c);
        assert(after[to + c] == o.byte(before, to + c));
        assert(after[to + c] == blend(s, d, a));
        law_blend_extremes(s, d);
        assert(0 <= s * a + d * (255 - a) <= 255 * 255) by (nonlinear_arith)
            requires
                0 <= s <= 255,
                0 <= d <= 255,
                0 <= a <= 255,
        ;
    }
    assert((to + 3) / 4 == i && (to + 3) % 4 == 3);
    assert(after[to + 3] == o.byte(before, to + 3));
}

/// The hot spot lies under the pointer: the bitmap, of whatever size, is placed so that its pixel
/// (`px`, `py`) comes to lie at the position of the pointer on the frame, less the hot spot, plus
/// (`px`, `py`). There an opaque pixel of the bitmap replaces the pixel of the frame, a transparent
/// one leaves it, and any other is mixed in by its opacity. The fourth channel stays.
pub proof fn law_hot_spot_lies_under_the_pointer(
    bgra: &mut [u8],
    frame_w: u32,
    frame_h: u32,
    disp_left: i32,
    disp_top: i32,
    state: &mut CursorState,
    sighting: CursorSighting,
    px: int,
    py: int,
)
    requires
        call_ensures(
            draw_cursor_bgra,
            (bgra, frame_w, frame_h, disp_left, disp_top, state, sighting),
            (),
        ),
        sighting is Shown,
        final(state).handle == sighting->handle,
        final(state).pixels@.len() == final(state).cursor_w * final(state).cursor_h * 4,
        0 <= px < final(state).cursor_w,
        0 <= py < final(state).cursor_h,
        0 <= sighting->x - disp_left - final(state).hotspot_x + px < frame_w,
        0 <= sighting->y - disp_top - final(state).hotspot_y + py < frame_h,
        4 * ((sighting->y - disp_top - final(state).hotspot_y + py) * frame_w + (sighting->x
            - disp_left - final(state).hotspot_x + px)) + 4 <= old(bgra)@.len(),
    ensures
        ({
            let fx = sighting->x - disp_left - final(state).hotspot_x + px;
            let fy = sighting->y - disp_top - final(state).hotspot_y + py;
            let to = 4 * (fy * frame_w + fx);
            let from = 4 * (py * final(state).cursor_w + px);
            let a = final(state).pixels@[from + 3];
            &&& forall|c: int|
                0 <= c < 3 ==> {
                    let s = final(state).pixels@[from + c];
                    let d = old(bgra)@[to + c];
                    let out = #[trigger] final(bgra)@[to + c];
                    &&& a == 255 ==> out == s
                    &&& a == 0 ==> out == d
                    &&& 255 * out <= s * a + d * (255 - a) < 255 * out + 255
                }
            &&& final(bgra)@[to + 3] == old(bgra)@[to + 3]
        }),
{
    lemma_pixel_of_the_cursor(
        old(bgra)@,
        final(bgra)@,
        frame_w,
        frame_h,
        disp_left,
        disp_top,
        *old(state),
        *final(state),
        sighting,
        px,
        py,
    );
}

/// Pixels of the frame that lie beside the bitmap, or above or below it, stay as they are.
pub proof fn law_pixels_beside_the_cursor_stay(
    bgra: &mut [u8],
    frame_w: u32,
    frame_h: u32,
    disp_left: i32,
    disp_top: i32,
    state: &mut CursorState,
    sighting: CursorSighting,
    fx: int,
    fy: int,
    c: int,
)
    requires
        call_ensures(
            draw_cursor_bgra,
            (bgra, frame_w, frame_h, disp_left, disp_top, state, sighting),
            (),
        ),
        sighting is Shown,
        0 <= fx < frame_w,
        0 <= fy,
        0 <= c < 4,
        4 * (fy * frame_w + fx) + c < old(bgra)@.len(),
        ({
            let px = fx - (sighting->x - disp_left - final(state).hotspot_x);
            let py = fy - (sighting->y - disp_top - final(state).hotspot_y);
            px < 0 || px >= final(state).cursor_w || py < 0 || py >= final(state).cursor_h
                || fy >= frame_h || c == 3
        }),
    ensures
        final(bgra)@[4 * (fy * frame_w + fx) + c] == old(bgra)@[4 * (fy * frame_w + fx) + c],
{
    let i = fy * frame_w + fx;
    lemma_pixel_position(frame_w as int, fx, fy);
    assert((4 * i + c) / 4 == i && (4 * i + c) % 4 == c);
    let o = overlay(
        *final(state),
        frame_w,
        frame_h,
        disp_left,
        disp_top,
        sighting->x,
        sighting->y,
    );
    assert(o.over(old(bgra)@)[4 * i + c] == o.byte(old(bgra)@, 4 * i + c));
}

/// A cursor that is not shown, one of which nothing is known and one without a bitmap leave the
/// frame as it is; no cursor changes the size of the frame.
pub proof fn law_nothing_known_nothing_drawn(
    bgra: &mut [u8],
    frame_w: u32,
    frame_h: u32,
    disp_left: i32,
    disp_top: i32,
    state: &mut CursorState,
    sighting: CursorSighting,
)
    requires
        call_ensures(
            draw_cursor_bgra,
            (bgra, frame_w, frame_h, disp_left, disp_top, state, sighting),
            (),
        ),
    ensures
        final(bgra)@.len() == old(bgra)@.len(),
        sighting is Absent ==> final(bgra)@ == old(bgra)@ && *final(state) == *old(state),
        sighting matches CursorSighting::Shown { handle, shape, .. } && handle != old(state).handle
            && shape is None ==> final(bgra)@ == old(bgra)@ && *final(state) == *old(state),
        sighting is Shown && final(state).pixels@.len() == 0 ==> final(bgra)@ == old(bgra)@,
{
    if let CursorSighting::Shown { handle, x, y, shape } = sighting {
        let o = overlay(*final(state), frame_w, frame_h, disp_left, disp_top, x, y);
        if final(state).handle == handle && final(state).pixels@.len() == 0 {
            law_transparent_cursor(o, old(bgra)@);
        }
    }
}

proof fn lemma_sign_of_a_hot_spot(x: u32)
    ensures
        x as i32 == (if x > i32::MAX {
            x - 0x1_0000_0000
        } else {
            x as int
        }),
{
    assert(x > 0x7fff_ffff ==> (x as i32) as i64 == (x as i64 - 0x1_0000_0000i64) as i64)
        by (bit_vector);
    assert(x <= 0x7fff_ffff ==> (x as i32) as i64 == x as i64) by (bit_vector);
}

pub(crate) proof fn lemma_size_without_a_sign(x: i32)
    ensures
        x as u32 == (if x < 0 {
            x + 0x1_0000_0000
        } else {
            x as int
        }),
{
    assert(x < 0 ==> (x as u32) as i64 == (x as i64 + 0x1_0000_0000i64) as i64) by (bit_vector);
    assert(x >= 0 ==> (x as u32) as i64 == x as i64) by (bit_vector);
}

/// The state follows the cursor: the one that is held stays as it is, whatever shape comes with it,
/// and a new one brings its own hot spot, its own bitmap and the size of it. A new one without a
/// readable bitmap leaves none to draw.
pub proof fn law_state_follows_the_cursor(
    bgra: &mut [u8],
    frame_w: u32,
    frame_h: u32,
    disp_left: i32,
    disp_top: i32,
    state: &mut CursorState,
    sighting: CursorSighting,
)
    requires
        call_ensures(
            draw_cursor_bgra,
            (bgra, frame_w, frame_h, disp_left, disp_top, state, sighting),
            (),
        ),
    ensures
        sighting matches CursorSighting::Shown { handle, shape, .. } ==> {
            &&& handle == old(state).handle ==> *final(state) == *old(state)
            &&& handle != old(state).handle ==> (shape matches Some(new) ==> {
                &&& final(state).handle == handle
                &&& new.hotspot_x <= i32::MAX ==> final(state).hotspot_x == new.hotspot_x
                &&& new.hotspot_y <= i32::MAX ==> final(state).hotspot_y == new.hotspot_y
                &&& new.hotspot_x > i32::MAX ==> final(state).hotspot_x == new.hotspot_x
                    - 0x1_0000_0000
                &&& new.hotspot_y > i32::MAX ==> final(state).hotspot_y == new.hotspot_y
                    - 0x1_0000_0000
                &&& new.bitmap matches Some((pixels, w, h)) ==> final(state).pixels@ == pixels@
                    && final(state).cursor_w == w && final(state).cursor_h == h
                &&& new.bitmap is None ==> final(state).pixels@.len() == 0
                    && final(state).cursor_w == old(state).cursor_w && final(state).cursor_h == old(
                    state,
                ).cursor_h
            })
        },
{
    if let CursorSighting::Shown { handle, shape: Some(new), .. } = sighting {
        lemma_sign_of_a_hot_spot(new.hotspot_x);
        lemma_sign_of_a_hot_spot(new.hotspot_y);
    }
}

/// The shape of a cursor is asked for exactly when it is not the one that the state holds, so that
/// a cursor which was drawn is not asked for again.
pub proof fn law_shape_is_fetched_once(
    bgra: &mut [u8],
    frame_w: u32,
    frame_h: u32,
    disp_left: i32,
    disp_top: i32,
    state: &mut CursorState,
    sighting: CursorSighting,
    handle: usize,
    before: bool,
    after: bool,
)
    requires
        sighting matches CursorSighting::Shown { handle: seen, shape, .. } && seen == handle
            && shape is Some,
        call_ensures(CursorState::needs_shape, (&*old(state), handle), before),
        call_ensures(
            draw_cursor_bgra,
            (bgra, frame_w, frame_h, disp_left, disp_top, state, sighting),
            (),
        ),
        call_ensures(CursorState::needs_shape, (&*final(state), handle), after),
    ensures
        before <==> handle != old(state).handle,
        !after,
{
}

/// A bitmap takes four bytes a pixel, and a mask that stands for a cursor without colours has the
/// width of the cursor and twice its height. Sizes are taken without a sign.
pub proof fn law_bitmap_measures(
    bitmap_w: i32,
    bitmap_h: i32,
    mask_only: bool,
    size: (u32, u32),
    w: u32,
    h: u32,
    bytes: usize,
)
    requires
        call_ensures(bitmap_size, (bitmap_w, bitmap_h, mask_only), size),
        w * h * 4 <= u32::MAX,
        call_ensures(bitmap_bytes, (w, h), bytes),
    ensures
        size.0 - bitmap_w == (if bitmap_w < 0 {
            0x1_0000_0000int
        } else {
            0
        }),
        ({
            let unsigned = if bitmap_h < 0 {
                bitmap_h + 0x1_0000_0000
            } else {
                bitmap_h as int
            };
            &&& mask_only ==> 2 * size.1 <= unsigned <= 2 * size.1 + 1
            &&& !mask_only ==> size.1 == unsigned
        }),
        bytes == 4 * (w * h),
{
    lemma_size_without_a_sign(bitmap_w);
    lemma_size_without_a_sign(bitmap_h);
}

/// A new state holds no cursor, and asks for the shape of every cursor that has a handle.
pub proof fn law_state_starts_without_a_cursor(state: CursorState, handle: usize, needed: bool)
    requires
        call_ensures(CursorState::new, (), state),
        call_ensures(CursorState::needs_shape, (&state, handle), needed),
    ensures
        needed <==> handle != 0,
        state.pixels@.len() == 0,
        state.hotspot_x == 0 && state.hotspot_y == 0,
        state.cursor_w == 0 && state.cursor_h == 0,
{
}

/// A shape is in order exactly where its bitmap, of whatever size, has four bytes for each pixel;
/// so is a state, which may also hold no bitmap.
pub proof fn law_every_size_is_in_order(shape: CursorShape, state: CursorState)
    ensures
        shape.wf() <==> (shape.bitmap matches Some((pixels, w, h)) ==> pixels@.len() == 4 * (w * h)),
        state.wf() <==> (state.pixels@.len() == 0 || state.pixels@.len() == 4 * (state.cursor_w
            * state.cursor_h)),
{
}

} // verus!
