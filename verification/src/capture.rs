//! Capture geometry: which part of a captured window frame is encoded, at
//! what size, and how its pixels are repacked for the encoder.

use vstd::prelude::*;

verus! {

/// How a capture frame maps onto encoder input.
#[derive(Debug, Clone, Copy, PartialEq, Eq, Structural)]
pub struct Layout {
    /// Region of the capture frame that gets encoded.
    pub src_x: u32,
    pub src_y: u32,
    /// Source region size: either the encoded size, or twice it when halving.
    pub src_width: u32,
    pub src_height: u32,
    /// Encoded frame size. Always even, as H.264 requires.
    pub out_width: u32,
    pub out_height: u32,
}

/// `x` rounded down to an even number.
pub open spec fn even_floor(x: int) -> int {
    x - x % 2
}

/// Whether a region of `width` x `height` exceeds the largest size that is
/// recorded at native resolution.
pub open spec fn oversized(width: int, height: int, max_native_size: Option<(u32, u32)>) -> bool {
    match max_native_size {
        Some((max_w, max_h)) => width > max_w || height > max_h,
        None => false,
    }
}

/// The region of the frame that is encoded: the client area when borders
/// are excluded and it could be measured, otherwise the whole frame.
pub open spec fn source_region(
    frame_width: u32,
    frame_height: u32,
    client: Option<(u32, u32, u32, u32)>,
    exclude_window_border: bool,
) -> (u32, u32, u32, u32) {
    if exclude_window_border && client is Some {
        client.unwrap()
    } else {
        (0, 0, frame_width, frame_height)
    }
}

/// The layout for a region: oversized regions are halved, and every encoded
/// dimension is rounded down to an even number; the source size is exactly
/// the encoded size, or twice it when halving.
pub open spec fn planned(region: (u32, u32, u32, u32), max_native_size: Option<(u32, u32)>) -> Layout {
    let (x, y, width, height) = region;
    if oversized(width as int, height as int, max_native_size) {
        let ow = even_floor((width / 2) as int);
        let oh = even_floor((height / 2) as int);
        Layout {
            src_x: x,
            src_y: y,
            src_width: (2 * ow) as u32,
            src_height: (2 * oh) as u32,
            out_width: ow as u32,
            out_height: oh as u32,
        }
    } else {
        let ow = even_floor(width as int);
        let oh = even_floor(height as int);
        Layout {
            src_x: x,
            src_y: y,
            src_width: ow as u32,
            src_height: oh as u32,
            out_width: ow as u32,
            out_height: oh as u32,
        }
    }
}

impl Layout {
    /// Whether 2x2 source blocks are averaged down to one output pixel.
    pub open spec fn is_halving(&self) -> bool {
        self.out_width != self.src_width
    }

    /// Whether 2x2 source blocks are averaged down to one output pixel.
    pub fn halves(&self) -> (r: bool)
        ensures
            r == self.is_halving(),
    {
        self.out_width != self.src_width
    }
}

fn clear_low_bit(x: u32) -> (r: u32)
    ensures
        r == even_floor(x as int),
{
    assert(x & !1u32 == x - x % 2) by (bit_vector);
    x & !1u32
}

/// Decides the source region and encoded size for a capture frame.
///
/// `client` is the measured client area of the window inside the frame, as
/// `(x, y, width, height)`; it is used only when `exclude_window_border` is
/// set.
pub fn plan_layout(
    frame_width: u32,
    frame_height: u32,
    client: Option<(u32, u32, u32, u32)>,
    exclude_window_border: bool,
    max_native_size: Option<(u32, u32)>,
) -> (layout: Layout)
    ensures
        layout == planned(
            source_region(frame_width, frame_height, client, exclude_window_border),
            max_native_size,
        ),
{
    let (src_x, src_y, width, height) = match client {
        Some(region) => if exclude_window_border {
            region
        } else {
            (0, 0, frame_width, frame_height)
        },
        None => (0, 0, frame_width, frame_height),
    };
    let halve = match max_native_size {
        Some((max_w, max_h)) => width > max_w || height > max_h,
        None => false,
    };
    if halve {
        let out_width = clear_low_bit(width / 2);
        let out_height = clear_low_bit(height / 2);
        Layout {
            src_x,
            src_y,
            src_width: out_width * 2,
            src_height: out_height * 2,
            out_width,
            out_height,
        }
    } else {
        let out_width = clear_low_bit(width);
        let out_height = clear_low_bit(height);
        Layout { src_x, src_y, src_width: out_width, src_height: out_height, out_width, out_height }
    }
}

/// Every planned layout encodes even dimensions that fit in its region, and
/// reads either exactly the encoded size or exactly twice it, which also
/// fits in the region.
pub proof fn lemma_layout_bounds(region: (u32, u32, u32, u32), max_native_size: Option<(u32, u32)>)
    ensures
        ({
            let l = planned(region, max_native_size);
            &&& l.out_width % 2 == 0
            &&& l.out_height % 2 == 0
            &&& l.src_width <= region.2
            &&& l.src_height <= region.3
            &&& l.out_width <= region.2
            &&& l.out_height <= region.3
            &&& (l.src_width == l.out_width && l.src_height == l.out_height) || (l.src_width == 2
                * l.out_width && l.src_height == 2 * l.out_height)
            &&& l.src_x == region.0
            &&& l.src_y == region.1
        }),
{
}

/// The size limit decides halving and nothing else: a region no wider than
/// `max_w` and no taller than `max_h` is encoded at its native size, rounded
/// down to even numbers, reading exactly that much of the frame; a region
/// wider or taller than the limit is encoded at half its size, rounded down
/// to even numbers, reading twice that. With no limit every region is
/// encoded at native size. The region is the client area when borders are
/// excluded and one was measured, else the whole frame.
pub proof fn lemma_halving_follows_the_limit(
    frame_width: u32,
    frame_height: u32,
    client: Option<(u32, u32, u32, u32)>,
    exclude_window_border: bool,
    max_native_size: Option<(u32, u32)>,
)
    ensures
        ({
            let (x, y, w, h) = if exclude_window_border && client is Some {
                client.unwrap()
            } else {
                (0u32, 0u32, frame_width, frame_height)
            };
            let l = planned(
                source_region(frame_width, frame_height, client, exclude_window_border),
                max_native_size,
            );
            let fits = match max_native_size {
                Some((max_w, max_h)) => w <= max_w && h <= max_h,
                None => true,
            };
            &&& l.src_x == x
            &&& l.src_y == y
            &&& fits ==> {
                &&& l.out_width == w - w % 2
                &&& l.out_height == h - h % 2
                &&& l.src_width == l.out_width
                &&& l.src_height == l.out_height
            }
            &&& !fits ==> {
                &&& l.out_width == w / 2 - (w / 2) % 2
                &&& l.out_height == h / 2 - (h / 2) % 2
                &&& l.src_width == 2 * l.out_width
                &&& l.src_height == 2 * l.out_height
            }
        }),
{
}

/// Where the client area sits inside the captured frame, as
/// `(x, y, width, height)`, from the window's extended frame bounds
/// `(left, top, right, bottom)`, its client rectangle's right and bottom
/// edges, and the screen position of the client origin.
///
/// `None` when the bounds do not match the frame size (the offsets would be
/// in the wrong coordinate space) or the area is empty.
pub open spec fn client_area(
    bounds: (i32, i32, i32, i32),
    client_right: i32,
    client_bottom: i32,
    origin: (i32, i32),
    frame_width: u32,
    frame_height: u32,
) -> Option<(u32, u32, u32, u32)> {
    let (left, top, right, bottom) = bounds;
    if right - left != frame_width as i32 || bottom - top != frame_height as i32 {
        None
    } else {
        let x = if origin.0 - left > 0 { origin.0 - left } else { 0 };
        let y = if origin.1 - top > 0 { origin.1 - top } else { 0 };
        let avail_w = if frame_width >= x { frame_width - x } else { 0 };
        let avail_h = if frame_height >= y { frame_height - y } else { 0 };
        let cw = if client_right > 0 { client_right as int } else { 0 };
        let ch = if client_bottom > 0 { client_bottom as int } else { 0 };
        let width = if cw < avail_w { cw } else { avail_w };
        let height = if ch < avail_h { ch } else { avail_h };
        if width == 0 || height == 0 {
            None
        } else {
            Some((x as u32, y as u32, width as u32, height as u32))
        }
    }
}

/// Locates the client area inside the frame captured for a window, from the
/// geometry Windows reports for it; see [`client_area`].
pub fn client_region(
    bounds: (i32, i32, i32, i32),
    client_right: i32,
    client_bottom: i32,
    origin: (i32, i32),
    frame_width: u32,
    frame_height: u32,
) -> (region: Option<(u32, u32, u32, u32)>)
    requires
        i32::MIN <= bounds.2 - bounds.0 <= i32::MAX,
        i32::MIN <= bounds.3 - bounds.1 <= i32::MAX,
        i32::MIN <= origin.0 - bounds.0 <= i32::MAX,
        i32::MIN <= origin.1 - bounds.1 <= i32::MAX,
    ensures
        region == client_area(bounds, client_right, client_bottom, origin, frame_width, frame_height),
{
    let (left, top, right, bottom) = bounds;
    if right - left != frame_width as i32 || bottom - top != frame_height as i32 {
        return None;
    }
    let dx = origin.0 - left;
    let dy = origin.1 - top;
    let x: u32 = if dx > 0 { dx as u32 } else { 0 };
    let y: u32 = if dy > 0 { dy as u32 } else { 0 };
    let cw: u32 = if client_right > 0 { client_right as u32 } else { 0 };
    let ch: u32 = if client_bottom > 0 { client_bottom as u32 } else { 0 };
    let avail_w = frame_width.saturating_sub(x);
    let avail_h = frame_height.saturating_sub(y);
    let width = if cw < avail_w { cw } else { avail_w };
    let height = if ch < avail_h { ch } else { avail_h };
    if width == 0 || height == 0 {
        None
    } else {
        Some((x, y, width, height))
    }
}

/// Whether `src`, with rows `pitch` bytes apart, holds every byte that
/// repacking reads for `layout`: the first `src_height` rows, each at least
/// as long as the encoded row reads.
pub open spec fn covers_source(src_len: int, pitch: int, layout: Layout) -> bool {
    let ow = layout.out_width as int;
    let oh = layout.out_height as int;
    oh == 0 || if layout.is_halving() {
        (2 * oh - 1) * pitch + 8 * ow <= src_len
    } else {
        (oh - 1) * pitch + 4 * ow <= src_len
    }
}

/// Byte `i` of the repacked frame: output rows are written bottom row first,
/// so output row `r` comes from source row `out_height - 1 - r`; when
/// halving, each channel of an output pixel is the rounded average of the
/// same channel in the 2x2 source block below it.
pub open spec fn repacked_byte(src: Seq<u8>, pitch: int, layout: Layout, i: int) -> u8 {
    let row_bytes = 4 * layout.out_width;
    let r = i / row_bytes;
    let col = i % row_bytes;
    let s = layout.out_height - 1 - r;
    if layout.is_halving() {
        let x = col / 4;
        let c = col % 4;
        let t = 2 * s * pitch + 8 * x + c;
        let b = (2 * s + 1) * pitch + 8 * x + c;
        ((src[t] + src[t + 4] + src[b] + src[b + 4] + 2) / 4) as u8
    } else {
        src[s * pitch + col]
    }
}

proof fn lemma_row_index(r: int, col: int, row_bytes: int)
    requires
        0 <= col < row_bytes,
        0 <= r,
    ensures
        (r * row_bytes + col) / row_bytes == r,
        (r * row_bytes + col) % row_bytes == col,
{
    vstd::arithmetic::div_mod::lemma_fundamental_div_mod_converse(
        r * row_bytes + col,
        row_bytes,
        r,
        col,
    );
}

/// Repacks the cropped source region into `dst` as the encoder wants it:
/// optionally halved, bottom row first. `src` starts at the region's top
/// left corner and its rows are `pitch` bytes apart.
pub fn repack(src: &[u8], pitch: usize, layout: Layout, dst: &mut Vec<u8>)
    requires
        layout.out_width > 0,
        covers_source(src@.len() as int, pitch as int, layout),
        4 * layout.out_width <= usize::MAX,
        4 * layout.out_width * layout.out_height <= usize::MAX,
    ensures
        final(dst)@.len() == 4 * layout.out_width * layout.out_height,
        forall|i: int|
            0 <= i < final(dst)@.len() ==> #[trigger] final(dst)@[i] == repacked_byte(
                src@,
                pitch as int,
                layout,
                i,
            ),
{
    let ow = layout.out_width as usize;
    let oh = layout.out_height as usize;
    let row_bytes = ow * 4;
    assert(row_bytes * oh == 4 * layout.out_width * layout.out_height) by (nonlinear_arith)
        requires
            row_bytes == ow * 4,
            ow == layout.out_width,
            oh == layout.out_height,
    ;
    let total = row_bytes * oh;
    dst.resize(total, 0u8);
    let halves = layout.halves();
    let src_len = src.len();
    let mut r: usize = 0;
    while r < oh
        invariant
            r <= oh,
            ow == layout.out_width,
            oh == layout.out_height,
            row_bytes == 4 * ow,
            total == row_bytes * oh,
            dst@.len() == total,
            halves == layout.is_halving(),
            src_len == src@.len(),
            layout.out_width > 0,
            covers_source(src@.len() as int, pitch as int, layout),
            forall|i: int|
                0 <= i < r * row_bytes ==> #[trigger] dst@[i] == repacked_byte(
                    src@,
                    pitch as int,
                    layout,
                    i,
                ),
        decreases oh - r,
    {
        let s = oh - 1 - r;
        assert(r * row_bytes + row_bytes <= total) by (nonlinear_arith)
            requires
                r < oh,
                total == row_bytes * oh,
        ;
        let base = r * row_bytes;
        let mut col: usize = 0;
        while col < row_bytes
            invariant
                col <= row_bytes,
                r < oh,
                s == oh - 1 - r,
                base == r * row_bytes,
                base + row_bytes <= total,
                ow == layout.out_width,
                oh == layout.out_height,
                row_bytes == 4 * ow,
                total == row_bytes * oh,
                dst@.len() == total,
                halves == layout.is_halving(),
                src_len == src@.len(),
                covers_source(src@.len() as int, pitch as int, layout),
                forall|i: int|
                    0 <= i < base + col ==> #[trigger] dst@[i] == repacked_byte(
                        src@,
                        pitch as int,
                        layout,
                        i,
                    ),
            decreases row_bytes - col,
        {
            proof {
                lemma_row_index(r as int, col as int, row_bytes as int);
            }
            let value: u8 = if halves {
                let x = col / 4;
                let c = col % 4;
                assert(s * pitch <= src@.len() && 2 * (s * pitch) + 8 * x + c + 4 + pitch < src@.len()
                    && 8 * x < src@.len()) by (nonlinear_arith)
                    requires
                        s < oh,
                        x < ow,
                        c < 4,
                        (2 * oh - 1) * pitch + 8 * ow <= src@.len(),
                ;
                let sp = s * pitch;
                let t = sp * 2 + x * 8 + c;
                let b = t + pitch;
                assert(t == 2 * s * pitch + 8 * x + c && b == (2 * s + 1) * pitch + 8 * x + c) by (nonlinear_arith)
                    requires
                        sp == s * pitch,
                        t == sp * 2 + x * 8 + c,
                        b == t + pitch,
                ;
                let sum = src[t] as u32 + src[t + 4] as u32 + src[b] as u32 + src[b + 4] as u32 + 2;
                (sum / 4) as u8
            } else {
                assert(s * pitch + col < src@.len() && s * pitch <= src@.len()) by (nonlinear_arith)
                    requires
                        s < oh,
                        col < 4 * ow,
                        (oh - 1) * pitch + 4 * ow <= src@.len(),
                ;
                src[s * pitch + col]
            };
            assert(value == repacked_byte(src@, pitch as int, layout, (base + col) as int));
            dst.set(base + col, value);
            col = col + 1;
        }
        assert((r + 1) * row_bytes == base + row_bytes) by (nonlinear_arith)
            requires
                base == r * row_bytes,
        ;
        r = r + 1;
    }
    assert(oh * row_bytes == total) by (nonlinear_arith)
        requires
            total == row_bytes * oh,
    ;
}


/// What to do with a frame that has just arrived.
#[derive(Debug, Clone, Copy, PartialEq, Eq, Structural)]
pub enum FrameAction {
    /// The file is already closed out: stop the capture and drop the frame.
    Stop,
    /// The pipeline is still settling: drop the frame.
    Skip,
    /// Hand the frame to the encoder.
    Encode {
        /// This is the first kept frame: start keeping audio from here, so
        /// both streams share a zero point.
        arm_audio: bool,
        /// The frame still covers the planned source region and is repacked;
        /// otherwise it goes to the encoder as it is, to be padded.
        repack: bool,
        /// The duration cap has been reached: close the file out and stop
        /// the capture after this frame.
        finish: bool,
    },
}

/// Per-session bookkeeping of the capture thread. Times are nanoseconds on
/// one monotonic clock.
#[derive(Debug, Clone, Copy, PartialEq, Eq, Structural)]
pub struct FrameKeeper {
    /// The encoder is still open.
    pub open: bool,
    /// Frames arriving before this are dropped; set from the first arrival.
    pub keep_from: Option<u64>,
    /// Arrival of the first kept frame: the clock the duration cap runs on.
    pub first_frame: Option<u64>,
}

/// Whether a frame of `frame_width` x `frame_height` still contains the
/// source region of `layout`.
pub open spec fn fits(layout: Layout, frame_width: int, frame_height: int) -> bool {
    layout.src_x + layout.src_width <= frame_width && layout.src_y + layout.src_height <= frame_height
}

/// The bookkeeping after a frame arrives at `now`, and what to do with the
/// frame.
pub open spec fn frame_step(
    keeper: FrameKeeper,
    now: u64,
    warmup: u64,
    max_duration: Option<u64>,
    layout: Layout,
    frame_width: u32,
    frame_height: u32,
) -> (FrameKeeper, FrameAction) {
    if !keeper.open {
        (keeper, FrameAction::Stop)
    } else {
        let keep_from = match keeper.keep_from {
            Some(t) => t,
            None => (now + warmup) as u64,
        };
        if now < keep_from {
            (FrameKeeper { keep_from: Some(keep_from), ..keeper }, FrameAction::Skip)
        } else {
            let start = match keeper.first_frame {
                Some(t) => t,
                None => now,
            };
            let elapsed = if now >= start { now - start } else { 0 };
            let finish = match max_duration {
                Some(max) => elapsed >= max,
                None => false,
            };
            (
                FrameKeeper { open: !finish, keep_from: Some(keep_from), first_frame: Some(start) },
                FrameAction::Encode {
                    arm_audio: keeper.first_frame is None,
                    repack: fits(layout, frame_width as int, frame_height as int),
                    finish,
                },
            )
        }
    }
}

impl FrameKeeper {
    /// A fresh session: the encoder is open and nothing has arrived yet.
    pub fn new() -> (keeper: FrameKeeper)
        ensures
            keeper == (FrameKeeper { open: true, keep_from: None, first_frame: None }),
    {
        FrameKeeper { open: true, keep_from: None, first_frame: None }
    }

    /// Records the arrival of a frame at `now` and says what to do with it.
    pub fn on_frame(
        &mut self,
        now: u64,
        warmup: u64,
        max_duration: Option<u64>,
        layout: Layout,
        frame_width: u32,
        frame_height: u32,
    ) -> (action: FrameAction)
        requires
            now + warmup <= u64::MAX,
        ensures
            (*final(self), action) == frame_step(*old(self), now, warmup, max_duration, layout, frame_width, frame_height),
    {
        if !self.open {
            return FrameAction::Stop;
        }
        let keep_from = match self.keep_from {
            Some(t) => t,
            None => now + warmup,
        };
        self.keep_from = Some(keep_from);
        if now < keep_from {
            return FrameAction::Skip;
        }
        let arm_audio = self.first_frame.is_none();
        let start = match self.first_frame {
            Some(t) => t,
            None => now,
        };
        self.first_frame = Some(start);
        let elapsed = if now >= start { now - start } else { 0 };
        let finish = match max_duration {
            Some(max) => elapsed >= max,
            None => false,
        };
        if finish {
            self.open = false;
        }
        let repack = layout.src_x as u64 + layout.src_width as u64 <= frame_width as u64
            && layout.src_y as u64 + layout.src_height as u64 <= frame_height as u64;
        FrameAction::Encode { arm_audio, repack, finish }
    }

    /// The target went away or the file was closed out some other way.
    pub fn close(&mut self)
        ensures
            *final(self) == (FrameKeeper { open: false, ..*old(self) }),
    {
        self.open = false;
    }
}

/// Once the file is closed out, every later frame stops the capture and
/// leaves the bookkeeping as it is.
pub proof fn lemma_closed_keeper_stops(
    keeper: FrameKeeper,
    now: u64,
    warmup: u64,
    max_duration: Option<u64>,
    layout: Layout,
    frame_width: u32,
    frame_height: u32,
)
    requires
        !keeper.open,
    ensures
        frame_step(keeper, now, warmup, max_duration, layout, frame_width, frame_height) == (keeper, FrameAction::Stop),
{
}

/// A frame is encoded only once the warm-up that started at the first
/// arrival has passed, and the first encoded frame is the one that arms the
/// audio.
pub proof fn lemma_encode_after_warmup(
    keeper: FrameKeeper,
    now: u64,
    warmup: u64,
    max_duration: Option<u64>,
    layout: Layout,
    frame_width: u32,
    frame_height: u32,
)
    requires
        now + warmup <= u64::MAX,
        keeper.keep_from is None ==> keeper.first_frame is None,
    ensures
        ({
            let (next, action) = frame_step(keeper, now, warmup, max_duration, layout, frame_width, frame_height);
            &&& action is Encode ==> keeper.open && keeper.keep_from is Some && now >= keeper.keep_from->0
                || keeper.keep_from is None && warmup == 0
            &&& action matches FrameAction::Encode { arm_audio, .. } ==> (arm_audio <==> keeper.first_frame is None)
            &&& next.keep_from is None ==> next.first_frame is None
        }),
{
}

/// With a duration cap, the frame that reaches it closes the file, and no
/// frame is encoded after that.
pub proof fn lemma_cap_closes(
    keeper: FrameKeeper,
    now: u64,
    warmup: u64,
    max: u64,
    layout: Layout,
    frame_width: u32,
    frame_height: u32,
)
    requires
        keeper.open,
        keeper.first_frame matches Some(start) && start <= now && now - start >= max,
        keeper.keep_from matches Some(k) && k <= now,
    ensures
        ({
            let (next, action) = frame_step(keeper, now, warmup, Some(max), layout, frame_width, frame_height);
            action matches FrameAction::Encode { finish, .. } && finish && !next.open
        }),
{
}


/// A measured client area never leaves the frame, and is never empty.
pub proof fn lemma_client_area_inside(
    bounds: (i32, i32, i32, i32),
    client_right: i32,
    client_bottom: i32,
    origin: (i32, i32),
    frame_width: u32,
    frame_height: u32,
)
    ensures
        match client_area(bounds, client_right, client_bottom, origin, frame_width, frame_height) {
            Some((x, y, w, h)) => x + w <= frame_width && y + h <= frame_height && w > 0 && h > 0,
            None => true,
        },
{
}

/// The layout planned for a frame always fits that frame: a frame of the
/// size the encoder was built for is repacked, never passed through.
pub proof fn lemma_layout_fits_frame(
    frame_width: u32,
    frame_height: u32,
    bounds: (i32, i32, i32, i32),
    client_right: i32,
    client_bottom: i32,
    origin: (i32, i32),
    exclude_window_border: bool,
    max_native_size: Option<(u32, u32)>,
)
    ensures
        ({
            let client = client_area(bounds, client_right, client_bottom, origin, frame_width, frame_height);
            let region = source_region(frame_width, frame_height, client, exclude_window_border);
            fits(planned(region, max_native_size), frame_width as int, frame_height as int)
        }),
{
    let client = client_area(bounds, client_right, client_bottom, origin, frame_width, frame_height);
    lemma_client_area_inside(bounds, client_right, client_bottom, origin, frame_width, frame_height);
    let region = source_region(frame_width, frame_height, client, exclude_window_border);
    lemma_layout_bounds(region, max_native_size);
}

} // verus!
