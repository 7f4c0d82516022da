//! Tile-diff motion detector: the capture loop drops to its idle frame rate only when
//! the screen has really been static for a while.
//!
//! The screen is cut into 32-pixel tiles, each sampled at four points; a tile has
//! changed when one of its samples' luma moved by more than the tolerance since the
//! previous frame. Hysteresis keeps one still frame from throttling a live stream.
use vstd::prelude::*;
use vstd::arithmetic::div_mod::lemma_fundamental_div_mod_converse;
use vstd::arithmetic::mul::{lemma_mul_inequality, lemma_mul_nonnegative};
use crate::host::scale::lemma_row_index_bound;

verus! {

/// Edge of a square tile, in pixels.
pub const TILE: u32 = 32;
/// Per-sample luma delta that counts as a change (dither and compression noise stay
/// below it).
pub const LUMA_TOLERANCE: u8 = 10;
/// The screen is active while at least one tile in this many changed.
pub const ACTIVE_TILE_DIVISOR: usize = 250;
/// Consecutive idle frames before the detector reports idle.
pub const IDLE_STREAK_REQUIRED: u32 = 6;

/// Tiles along a dimension of `n` pixels: `n / 32`, at least one.
pub open spec fn tiles_along(n: int) -> int {
    if n / 32 > 1 {
        n / 32
    } else {
        1
    }
}

/// Tiles on a `w` x `h` screen.
pub open spec fn tile_count(w: int, h: int) -> int {
    tiles_along(w) * tiles_along(h)
}

/// Offset of sample `s` inside a tile, in quarters of the tile: (1,1), (3,1), (1,3), (3,3).
pub open spec fn sample_quarters(s: int) -> (int, int) {
    if s == 0 {
        (1, 1)
    } else if s == 1 {
        (3, 1)
    } else if s == 2 {
        (1, 3)
    } else {
        (3, 3)
    }
}

/// Column of sample `s` of tile `t` (tiles numbered row by row), kept on screen.
pub open spec fn sample_x(w: int, t: int, s: int) -> int {
    let x = (t % tiles_along(w)) * 32 + 8 * sample_quarters(s).0;
    if x < w - 1 {
        x
    } else {
        w - 1
    }
}

/// Row of sample `s` of tile `t`, kept on screen.
pub open spec fn sample_y(w: int, h: int, t: int, s: int) -> int {
    let y = (t / tiles_along(w)) * 32 + 8 * sample_quarters(s).1;
    if y < h - 1 {
        y
    } else {
        h - 1
    }
}

/// Rough BT.601 luma of the BGRA pixel at byte `i`, zero past the end.
pub open spec fn luma_at(bgra: Seq<u8>, i: int) -> u8 {
    if 0 <= i && i + 3 <= bgra.len() {
        ((bgra[i + 2] * 77 + bgra[i + 1] * 150 + bgra[i] * 29) / 256) as u8
    } else {
        0u8
    }
}

/// Luma of sample `s` of tile `t` of a `w` x `h` frame.
pub open spec fn sample_luma(bgra: Seq<u8>, w: int, h: int, t: int, s: int) -> u8 {
    luma_at(bgra, sample_y(w, h, t, s) * (w * 4) + sample_x(w, t, s) * 4)
}

/// Every sample of a frame, tile by tile, four per tile.
pub open spec fn sampled(bgra: Seq<u8>, w: int, h: int) -> Seq<u8> {
    Seq::new((tile_count(w, h) * 4) as nat, |k: int| sample_luma(bgra, w, h, k / 4, k % 4))
}

/// Sample `s` of tile `t` moved by more than the tolerance from `prev`.
pub open spec fn sample_moved(prev: Seq<u8>, bgra: Seq<u8>, w: int, h: int, t: int, s: int) -> bool {
    let a = sample_luma(bgra, w, h, t, s) as int;
    let b = prev[t * 4 + s] as int;
    a - b > 10 || b - a > 10
}

/// One of the first `n` samples of tile `t` moved.
pub open spec fn moved_before(prev: Seq<u8>, bgra: Seq<u8>, w: int, h: int, t: int, n: nat) -> bool
    decreases n,
{
    if n == 0 {
        false
    } else {
        moved_before(prev, bgra, w, h, t, (n - 1) as nat) || sample_moved(prev, bgra, w, h, t, n - 1)
    }
}

/// Tiles among the first `n` that changed against `prev`.
pub open spec fn count_changed(prev: Seq<u8>, bgra: Seq<u8>, w: int, h: int, n: nat) -> nat
    decreases n,
{
    if n == 0 {
        0
    } else {
        count_changed(prev, bgra, w, h, (n - 1) as nat) + if moved_before(prev, bgra, w, h, n - 1, 4) {
            1nat
        } else {
            0nat
        }
    }
}

/// One frame through the detector: the samples it keeps, and the changed fraction
/// as numerator and denominator. A frame too short for the screen counts as all
/// changed; the first frame after `new` or a resize only seeds the samples and
/// reports nothing changed, so it is no false motion signal.
pub open spec fn motion_step(prev: Seq<u8>, bgra: Seq<u8>, w: int, h: int) -> (Seq<u8>, nat, nat) {
    if bgra.len() < w * 4 * h {
        (prev, 1, 1)
    } else if prev.len() != tile_count(w, h) * 4 {
        (sampled(bgra, w, h), 0, 1)
    } else {
        (sampled(bgra, w, h), count_changed(prev, bgra, w, h, tile_count(w, h) as nat), tile_count(w, h) as nat)
    }
}

/// A frame that changed at least one tile in `ACTIVE_TILE_DIVISOR` is active.
pub open spec fn is_active(changed: nat, total: nat) -> bool {
    changed * 250 >= total
}

/// The idle streak after a frame with `c` of `t` tiles changed: an active frame
/// resets it, an inactive one extends it (saturating).
pub open spec fn next_streak(streak: u32, c: nat, t: nat) -> u32 {
    if is_active(c, t) {
        0
    } else if streak == u32::MAX {
        u32::MAX
    } else {
        (streak + 1) as u32
    }
}

/// The kept samples and the idle streak after the same frame `bgra` was fed `k`
/// times, starting from `samples` and `streak`.
pub open spec fn feed_same(samples: Seq<u8>, streak: u32, bgra: Seq<u8>, w: int, h: int, k: nat) -> (Seq<u8>, u32)
    decreases k,
{
    if k == 0 {
        (samples, streak)
    } else {
        let prev = feed_same(samples, streak, bgra, w, h, (k - 1) as nat);
        let step = motion_step(prev.0, bgra, w, h);
        (step.0, next_streak(prev.1, step.1, step.2))
    }
}

pub struct MotionDetector {
    prev: Vec<u8>,
    width: u32,
    height: u32,
    idle_streak: u32,
}

impl MotionDetector {
    /// The samples kept from the last frame.
    pub closed spec fn samples(&self) -> Seq<u8> {
        self.prev@
    }

    pub closed spec fn spec_width(&self) -> u32 {
        self.width
    }

    pub closed spec fn spec_height(&self) -> u32 {
        self.height
    }

    /// Idle frames seen in a row.
    pub closed spec fn streak(&self) -> u32 {
        self.idle_streak
    }

    pub fn new(width: u32, height: u32) -> (m: Self)
        ensures
            m.samples() == Seq::<u8>::empty(),
            m.spec_width() == width,
            m.spec_height() == height,
            m.streak() == 0,
    {
        MotionDetector { prev: Vec::new(), width, height, idle_streak: 0 }
    }

    /// A new screen size: the samples and the idle streak start over.
    pub fn resize(&mut self, width: u32, height: u32)
        ensures
            final(self).samples() == Seq::<u8>::empty(),
            final(self).spec_width() == width,
            final(self).spec_height() == height,
            final(self).streak() == 0,
    {
        self.width = width;
        self.height = height;
        self.prev = Vec::new();
        self.idle_streak = 0;
    }

    /// Samples `bgra` and compares it with the previous frame: the changed tiles and
    /// all tiles, as the numerator and denominator of the changed fraction.
    pub fn changed_tiles(&mut self, bgra: &[u8]) -> (r: (usize, usize))
        requires
            old(self).spec_width() > 0,
            old(self).spec_height() > 0,
            old(self).spec_width() * 4 * old(self).spec_height() <= usize::MAX,
        ensures
            ({
                let (p, c, t) = motion_step(
                    old(self).samples(),
                    bgra@,
                    old(self).spec_width() as int,
                    old(self).spec_height() as int,
                );
                final(self).samples() == p && r.0 == c && r.1 == t
            }),
            final(self).spec_width() == old(self).spec_width(),
            final(self).spec_height() == old(self).spec_height(),
            final(self).streak() == old(self).streak(),
    {
        let w = self.width as usize;
        let h = self.height as usize;
        proof {
            assert(w * 4 <= w * 4 * h) by (nonlinear_arith)
                requires
                    h >= 1,
                    w >= 0,
            ;
        }
        let stride: usize = w * 4;
        if bgra.len() < stride * h {
            return (1, 1);
        }
        let tiles_x: usize = if w / 32 > 1 { w / 32 } else { 1 };
        let tiles_y: usize = if h / 32 > 1 { h / 32 } else { 1 };
        proof {
            lemma_mul_inequality(tiles_x as int, w as int, tiles_y as int);
            lemma_mul_inequality(tiles_y as int, h as int, w as int);
            lemma_mul_nonnegative(w as int, h as int);
            assert(w * 4 * h == (w * h) * 4) by (nonlinear_arith);
            assert(tiles_y * w == w * tiles_y) by (nonlinear_arith);
            assert(h * w == w * h) by (nonlinear_arith);
        }
        let tiles: usize = tiles_x * tiles_y;
        let compare = self.prev.len() == tiles * 4;
        let (fresh, changed) = sample_frame(&self.prev, bgra, w, h, tiles_x, tiles_y, compare);
        self.prev = fresh;
        if compare {
            (changed, tiles)
        } else {
            (0, 1)
        }
    }

    /// Feeds one frame: idle once the screen has stayed inactive for
    /// `IDLE_STREAK_REQUIRED` frames in a row; any active frame resets the streak.
    pub fn is_idle(&mut self, bgra: &[u8]) -> (r: bool)
        requires
            old(self).spec_width() > 0,
            old(self).spec_height() > 0,
            old(self).spec_width() * 4 * old(self).spec_height() <= usize::MAX,
        ensures
            ({
                let (p, c, t) = motion_step(
                    old(self).samples(),
                    bgra@,
                    old(self).spec_width() as int,
                    old(self).spec_height() as int,
                );
                &&& final(self).samples() == p
                &&& is_active(c, t) ==> final(self).streak() == 0 && !r
                &&& !is_active(c, t) ==> final(self).streak() == (if old(self).streak() == u32::MAX {
                    u32::MAX
                } else {
                    (old(self).streak() + 1) as u32
                }) && r == (final(self).streak() >= IDLE_STREAK_REQUIRED)
                &&& final(self).streak() == next_streak(old(self).streak(), c, t)
            }),
            final(self).spec_width() == old(self).spec_width(),
            final(self).spec_height() == old(self).spec_height(),
    {
        let (changed, total) = self.changed_tiles(bgra);
        if changed as u128 * 250 >= total as u128 {
            self.idle_streak = 0;
            return false;
        }
        self.idle_streak = self.idle_streak.saturating_add(1);
        self.idle_streak >= IDLE_STREAK_REQUIRED
    }
}

fn sample_quarters_exec(s: usize) -> (r: (usize, usize))
    ensures
        r.0 == sample_quarters(s as int).0,
        r.1 == sample_quarters(s as int).1,
{
    if s == 0 {
        (1, 1)
    } else if s == 1 {
        (3, 1)
    } else if s == 2 {
        (1, 3)
    } else {
        (3, 3)
    }
}

/// Luma of sample `s` of tile `t = ty * tiles_x + tx`.
fn sample_at(bgra: &[u8], w: usize, h: usize, tiles_x: usize, tx: usize, ty: usize, t: usize, s: usize) -> (l: u8)
    requires
        w > 0,
        h > 0,
        bgra@.len() >= w * 4 * h,
        w * 4 * h <= usize::MAX,
        tiles_x == tiles_along(w as int),
        ty < tiles_along(h as int),
        tx < tiles_x,
        s < 4,
        (t as int) / (tiles_x as int) == ty,
        (t as int) % (tiles_x as int) == tx,
    ensures
        l == sample_luma(bgra@, w as int, h as int, t as int, s as int),
{
    let (fx, fy) = sample_quarters_exec(s);
    proof {
        if w / 32 > 1 {
            assert(tx * 32 + 24 < w) by (nonlinear_arith)
                requires
                    tx < w / 32,
                    w / 32 > 1,
            ;
        }
        if h / 32 > 1 {
            assert(ty * 32 + 24 < h) by (nonlinear_arith)
                requires
                    ty < h / 32,
                    h / 32 > 1,
            ;
        }
    }
    let cx: usize = tx * 32 + 8 * fx;
    let x: usize = if cx < w - 1 { cx } else { w - 1 };
    let cy: usize = ty * 32 + 8 * fy;
    let y: usize = if cy < h - 1 { cy } else { h - 1 };
    proof {
        lemma_row_index_bound(y as int, x as int, w as int, h as int);
        assert(y * (w * 4) + x * 4 == (y * w + x) * 4) by (nonlinear_arith);
        assert(w * h * 4 == w * 4 * h) by (nonlinear_arith);
        assert(w * 4 <= w * 4 * h) by (nonlinear_arith)
            requires
                h >= 1,
                w >= 0,
        ;
    }
    let i: usize = y * (w * 4) + x * 4;
    ((bgra[i + 2] as u32 * 77 + bgra[i + 1] as u32 * 150 + bgra[i] as u32 * 29) / 256) as u8
}

/// Samples every tile of `bgra` and, when `compare`, counts the tiles that moved
/// against `prev`.
fn sample_frame(
    prev: &Vec<u8>,
    bgra: &[u8],
    w: usize,
    h: usize,
    tiles_x: usize,
    tiles_y: usize,
    compare: bool,
) -> (r: (Vec<u8>, usize))
    requires
        w > 0,
        h > 0,
        w * 4 * h <= usize::MAX,
        bgra@.len() >= w * 4 * h,
        tiles_x == tiles_along(w as int),
        tiles_y == tiles_along(h as int),
        tiles_x * tiles_y <= w * h,
        compare ==> prev@.len() == tiles_x * tiles_y * 4,
    ensures
        r.0@ == sampled(bgra@, w as int, h as int),
        compare ==> r.1 == count_changed(prev@, bgra@, w as int, h as int, (tiles_x * tiles_y) as nat),
{
    let ghost tiles: int = tiles_x * tiles_y;
    proof {
        lemma_mul_nonnegative(w as int, h as int);
        assert(w * 4 * h == (w * h) * 4) by (nonlinear_arith);
    }
    let mut out: Vec<u8> = Vec::new();
    let mut changed: usize = 0;
    let mut ty: usize = 0;
    while ty < tiles_y
        invariant
            w > 0,
            h > 0,
            w * 4 * h <= usize::MAX,
            bgra@.len() >= w * 4 * h,
            tiles_x == tiles_along(w as int),
            tiles_y == tiles_along(h as int),
            tiles == tiles_x * tiles_y,
            tiles <= w * h,
            w * h * 4 <= usize::MAX,
            compare ==> prev@.len() == tiles * 4,
            ty <= tiles_y,
            out@.len() == ty * tiles_x * 4,
            forall|j: int| 0 <= j < out@.len() ==> #[trigger] out@[j] == sample_luma(bgra@, w as int, h as int, j / 4, j % 4),
            changed <= ty * tiles_x,
            compare ==> changed == count_changed(prev@, bgra@, w as int, h as int, (ty * tiles_x) as nat),
        decreases tiles_y - ty,
    {
        proof {
            lemma_mul_inequality(ty as int, (tiles_y - 1) as int, tiles_x as int);
            assert((tiles_y - 1) * tiles_x + tiles_x == tiles_x * tiles_y) by (nonlinear_arith);
        }
        let mut tx: usize = 0;
        while tx < tiles_x
            invariant
                w > 0,
                h > 0,
                bgra@.len() >= w * 4 * h,
                tiles_x == tiles_along(w as int),
                tiles_y == tiles_along(h as int),
                tiles == tiles_x * tiles_y,
                tiles <= w * h,
                w * h * 4 <= usize::MAX,
                w * 4 * h <= usize::MAX,
                compare ==> prev@.len() == tiles * 4,
                ty < tiles_y,
                tx <= tiles_x,
                ty * tiles_x + tiles_x <= tiles,
                out@.len() == (ty * tiles_x + tx) * 4,
                forall|j: int| 0 <= j < out@.len() ==> #[trigger] out@[j] == sample_luma(bgra@, w as int, h as int, j / 4, j % 4),
                changed <= ty * tiles_x + tx,
                compare ==> changed == count_changed(prev@, bgra@, w as int, h as int, (ty * tiles_x + tx) as nat),
            decreases tiles_x - tx,
        {
            let t: usize = ty * tiles_x + tx;
            proof {
                lemma_fundamental_div_mod_converse(t as int, tiles_x as int, ty as int, tx as int);
            }
            let mut moved = false;
            let mut s: usize = 0;
            while s < 4
                invariant
                    w > 0,
                    h > 0,
                    bgra@.len() >= w * 4 * h,
                    w * 4 * h <= usize::MAX,
                    w * h * 4 <= usize::MAX,
                    tiles_x == tiles_along(w as int),
                    tiles_y == tiles_along(h as int),
                    ty < tiles_y,
                    tx < tiles_x,
                    t == ty * tiles_x + tx,
                    t < tiles,
                    tiles <= w * h,
                    tiles == tiles_x * tiles_y,
                    (t as int) / (tiles_x as int) == ty,
                    (t as int) % (tiles_x as int) == tx,
                    compare ==> prev@.len() == tiles * 4,
                    s <= 4,
                    out@.len() == t * 4 + s,
                    forall|j: int| 0 <= j < out@.len() ==> #[trigger] out@[j] == sample_luma(bgra@, w as int, h as int, j / 4, j % 4),
                    compare ==> moved == moved_before(prev@, bgra@, w as int, h as int, t as int, s as nat),
                decreases 4 - s,
            {
                let luma = sample_at(bgra, w, h, tiles_x, tx, ty, t, s);
                proof {
                    lemma_fundamental_div_mod_converse((t * 4 + s) as int, 4, t as int, s as int);
                }
                if compare {
                    proof {
                        assert(t * 4 + s < tiles * 4);
                    }
                    let p = prev[t * 4 + s];
                    let diff: u8 = if luma > p { luma - p } else { p - luma };
                    if diff > LUMA_TOLERANCE {
                        moved = true;
                    }
                }
                out.push(luma);
                s += 1;
            }
            if compare && moved {
                changed = changed + 1;
            }
            assert((ty * tiles_x + tx + 1) * 4 == (ty * tiles_x + tx) * 4 + 4) by (nonlinear_arith);
            tx += 1;
        }
        assert((ty + 1) * tiles_x * 4 == (ty * tiles_x + tiles_x) * 4) by (nonlinear_arith);
        ty += 1;
    }
    assert(tiles_y * tiles_x * 4 == tiles * 4) by (nonlinear_arith)
        requires
            tiles == tiles_x * tiles_y,
    ;
    assert(out@ =~= sampled(bgra@, w as int, h as int));
    (out, changed)
}

/// Feeding the frame that produced the kept samples again changes no tile.
pub proof fn lemma_same_frame_changes_nothing(bgra: Seq<u8>, w: int, h: int, n: nat)
    requires
        n <= tile_count(w, h),
        tile_count(w, h) >= 0,
    ensures
        count_changed(sampled(bgra, w, h), bgra, w, h, n) == 0,
    decreases n,
{
    if n > 0 {
        lemma_same_frame_changes_nothing(bgra, w, h, (n - 1) as nat);
        let t = n - 1;
        let prev = sampled(bgra, w, h);
        assert forall|s: int| 0 <= s < 4 implies !sample_moved(prev, bgra, w, h, t, s) by {
            lemma_fundamental_div_mod_converse(t * 4 + s, 4, t, s);
        }
        assert(!moved_before(prev, bgra, w, h, t, 4)) by {
            reveal_with_fuel(moved_before, 5);
        }
    }
}

/// A static screen goes idle only after the hysteresis: fed the same full frame `k`
/// times from a fresh detector, the idle streak is `k` (the seeding frame counts as
/// still), so the `k`-th call reports idle exactly when `k >= IDLE_STREAK_REQUIRED`.
pub proof fn lemma_static_screen_goes_idle(bgra: Seq<u8>, w: int, h: int, k: nat)
    requires
        w > 0,
        h > 0,
        bgra.len() >= w * 4 * h,
        1 <= k <= u32::MAX,
    ensures
        feed_same(Seq::empty(), 0, bgra, w, h, k) == (sampled(bgra, w, h), k as u32),
        (feed_same(Seq::empty(), 0, bgra, w, h, k).1 >= IDLE_STREAK_REQUIRED) == (k >= IDLE_STREAK_REQUIRED),
    decreases k,
{
    assert(tile_count(w, h) >= 1) by (nonlinear_arith)
        requires
            tiles_along(w) >= 1,
            tiles_along(h) >= 1,
            tile_count(w, h) == tiles_along(w) * tiles_along(h),
    ;
    if k == 1 {
        assert(feed_same(Seq::empty(), 0, bgra, w, h, 0) == (Seq::<u8>::empty(), 0u32));
    } else {
        lemma_static_screen_goes_idle(bgra, w, h, (k - 1) as nat);
        lemma_same_frame_changes_nothing(bgra, w, h, tile_count(w, h) as nat);
    }
}

/// Sample `s` of tile `t` has a luma more than [`LUMA_TOLERANCE`] apart in frames `a`
/// and `b`, whichever is brighter.
pub open spec fn luma_apart(a: Seq<u8>, b: Seq<u8>, w: int, h: int, t: int, s: int) -> bool {
    let x = sample_luma(a, w, h, t, s) as int;
    let y = sample_luma(b, w, h, t, s) as int;
    x - y > LUMA_TOLERANCE || y - x > LUMA_TOLERANCE
}

/// The kept sample `s` of tile `t` is that sample's luma in the frame it was kept from.
proof fn lemma_sampled_at(a: Seq<u8>, w: int, h: int, t: int, s: int)
    requires
        0 <= t < tile_count(w, h),
        0 <= s < 4,
    ensures
        sampled(a, w, h)[t * 4 + s] == sample_luma(a, w, h, t, s),
{
    lemma_fundamental_div_mod_converse(t * 4 + s, 4, t, s);
}

proof fn lemma_moved_before_symmetric(a: Seq<u8>, b: Seq<u8>, w: int, h: int, t: int, n: nat)
    requires
        0 <= t < tile_count(w, h),
        n <= 4,
    ensures
        moved_before(sampled(a, w, h), b, w, h, t, n) == moved_before(sampled(b, w, h), a, w, h, t, n),
        moved_before(sampled(a, w, h), b, w, h, t, n) <==> exists|s: int| 0 <= s < n && #[trigger] luma_apart(a, b, w, h, t, s),
    decreases n,
{
    if n > 0 {
        lemma_moved_before_symmetric(a, b, w, h, t, (n - 1) as nat);
        lemma_sampled_at(a, w, h, t, n - 1);
        lemma_sampled_at(b, w, h, t, n - 1);
        if exists|s: int| 0 <= s < n - 1 && #[trigger] luma_apart(a, b, w, h, t, s) {
            let s0 = choose|s: int| 0 <= s < n - 1 && #[trigger] luma_apart(a, b, w, h, t, s);
            assert(0 <= s0 < n && luma_apart(a, b, w, h, t, s0));
        }
        if luma_apart(a, b, w, h, t, n - 1) {
            assert(0 <= n - 1 < n);
        }
    }
}

/// Tile `t` counts as changed between two frames exactly when one of its four samples'
/// luma moved by more than [`LUMA_TOLERANCE`] in either direction, so a darkening
/// (a fade or cut to black) is seen as surely as a brightening.
pub proof fn lemma_tile_changed_either_way(a: Seq<u8>, b: Seq<u8>, w: int, h: int, t: int)
    requires
        0 <= t < tile_count(w, h),
    ensures
        moved_before(sampled(a, w, h), b, w, h, t, 4) <==> exists|s: int| 0 <= s < 4 && #[trigger] luma_apart(a, b, w, h, t, s),
{
    lemma_moved_before_symmetric(a, b, w, h, t, 4);
}

/// The changed-tile count does not depend on which frame came first: going from `a`
/// to `b` changes as many tiles as going from `b` to `a`.
pub proof fn lemma_changed_count_symmetric(a: Seq<u8>, b: Seq<u8>, w: int, h: int, n: nat)
    requires
        n <= tile_count(w, h),
    ensures
        count_changed(sampled(a, w, h), b, w, h, n) == count_changed(sampled(b, w, h), a, w, h, n),
    decreases n,
{
    if n > 0 {
        lemma_changed_count_symmetric(a, b, w, h, (n - 1) as nat);
        lemma_moved_before_symmetric(a, b, w, h, n - 1, 4);
    }
}

} // verus!
