//! Drawing the pointer sprite into a captured frame.
use vstd::prelude::*;
use vstd::arithmetic::div_mod::{lemma_fundamental_div_mod, lemma_fundamental_div_mod_converse};
use crate::host::scale::lemma_row_index_bound;

verus! {

/// Alpha of a premultiplied ARGB sprite pixel.
pub open spec fn sprite_alpha(px: u32) -> int {
    px as int / 0x100_0000
}

/// Channel `c` of a sprite pixel in BGRA order: 0 blue, 1 green, 2 red.
pub open spec fn sprite_channel(px: u32, c: int) -> int {
    if c == 0 {
        px as int % 256
    } else if c == 1 {
        (px as int / 256) % 256
    } else {
        (px as int / 0x1_0000) % 256
    }
}

/// Premultiplied "over": the sprite's channel plus what shows through, kept to a byte.
pub open spec fn over(src: int, dst: int, alpha: int) -> u8 {
    ((src + dst * (255 - alpha) / 255) % 256) as u8
}

/// Index of the sprite pixel drawn over byte `k` of a `fw` x `fh` BGRA frame when the
/// `cw` x `ch` sprite sits at (`ox`, `oy`), or -1 where none is.
pub open spec fn sprite_index(fw: int, fh: int, cw: int, ch: int, ox: int, oy: int, k: int) -> int {
    if fw <= 0 || k < 0 || k >= fw * fh * 4 {
        -1
    } else {
        let p = k / 4;
        let row = p / fw - oy;
        let col = p % fw - ox;
        if 0 <= row < ch && 0 <= col < cw {
            row * cw + col
        } else {
            -1
        }
    }
}

/// Byte `k` of the frame once the first `n` sprite pixels are drawn.
pub open spec fn blended_upto(
    frame: Seq<u8>,
    fw: int,
    fh: int,
    cursor: Seq<u32>,
    cw: int,
    ch: int,
    ox: int,
    oy: int,
    n: int,
    k: int,
) -> u8 {
    let j = sprite_index(fw, fh, cw, ch, ox, oy, k);
    if 0 <= j < n && sprite_alpha(cursor[j]) != 0 {
        if k % 4 == 3 {
            255u8
        } else {
            over(sprite_channel(cursor[j], k % 4), frame[k] as int, sprite_alpha(cursor[j]))
        }
    } else {
        frame[k]
    }
}

/// The frame with the whole sprite drawn; a sprite with no pixels, or fewer than
/// its size promises, leaves the frame as it was.
pub open spec fn spec_blend(
    frame: Seq<u8>,
    fw: int,
    fh: int,
    cursor: Seq<u32>,
    cw: int,
    ch: int,
    ox: int,
    oy: int,
) -> Seq<u8> {
    if cw == 0 || ch == 0 || cursor.len() < cw * ch {
        frame
    } else {
        Seq::new(frame.len(), |k: int| blended_upto(frame, fw, fh, cursor, cw, ch, ox, oy, cw * ch, k))
    }
}

/// Byte `(fy * fw + fx) * 4 + c` lies under sprite pixel `(fy - oy) * cw + (fx - ox)`
/// when the sprite covers (`fx`, `fy`).
proof fn lemma_index_of_pixel(fw: int, fh: int, cw: int, ch: int, ox: int, oy: int, fx: int, fy: int, c: int)
    requires
        0 <= fx < fw,
        0 <= fy < fh,
        0 <= c < 4,
    ensures
        ({
            let k = (fy * fw + fx) * 4 + c;
            &&& 0 <= k < fw * fh * 4
            &&& k / 4 == fy * fw + fx
            &&& k % 4 == c
            &&& sprite_index(fw, fh, cw, ch, ox, oy, k) == (if 0 <= fy - oy < ch && 0 <= fx - ox < cw {
                (fy - oy) * cw + (fx - ox)
            } else {
                -1
            })
        }),
{
    let p = fy * fw + fx;
    lemma_row_index_bound(fy, fx, fw, fh);
    lemma_fundamental_div_mod_converse(p * 4 + c, 4, p, c);
    lemma_fundamental_div_mod_converse(p, fw, fy, fx);
}

/// A byte under sprite pixel `row * cw + col` is one of the four bytes of frame pixel
/// (`ox + col`, `oy + row`).
proof fn lemma_pixel_of_index(fw: int, fh: int, cw: int, ch: int, ox: int, oy: int, row: int, col: int, k: int)
    requires
        0 <= row < ch,
        0 <= col < cw,
        sprite_index(fw, fh, cw, ch, ox, oy, k) == row * cw + col,
    ensures
        0 <= oy + row < fh,
        0 <= ox + col < fw,
        k / 4 == (oy + row) * fw + (ox + col),
        (oy + row) * fw * 4 + (ox + col) * 4 <= k < (oy + row) * fw * 4 + (ox + col) * 4 + 4,
{
    let p = k / 4;
    let r2 = p / fw - oy;
    let c2 = p % fw - ox;
    lemma_fundamental_div_mod_converse(row * cw + col, cw, r2, c2);
    lemma_fundamental_div_mod_converse(row * cw + col, cw, row, col);
    lemma_fundamental_div_mod(p, fw);
    lemma_fundamental_div_mod(k, 4);
    assert(p < fw * fh) by (nonlinear_arith)
        requires
            p == k / 4,
            0 <= k < fw * fh * 4,
    ;
    assert(p / fw < fh) by (nonlinear_arith)
        requires
            0 <= p < fw * fh,
            fw > 0,
    ;
    assert(p >= 0);
    assert(p / fw >= 0) by (nonlinear_arith)
        requires
            p >= 0,
            fw > 0,
    ;
    assert((oy + row) * fw * 4 + (ox + col) * 4 == ((oy + row) * fw + (ox + col)) * 4) by (nonlinear_arith);
    assert(fw * (p / fw) == (p / fw) * fw) by (nonlinear_arith);
}

/// Draws the premultiplied ARGB sprite `cursor` (`cw` x `ch`, row by row) over the
/// `frame_w` x `frame_h` BGRA frame with its top-left corner at (`origin_x`,
/// `origin_y`), clipped to the frame; transparent sprite pixels leave the frame alone.
pub fn blend_premultiplied_argb(
    bgra: &mut [u8],
    frame_w: usize,
    frame_h: usize,
    cursor: &[u32],
    cw: usize,
    ch: usize,
    origin_x: i32,
    origin_y: i32,
)
    requires
        old(bgra)@.len() >= frame_w * frame_h * 4,
        frame_w <= i32::MAX,
        frame_h <= i32::MAX,
        cw <= i32::MAX,
        ch <= i32::MAX,
        cw * ch <= usize::MAX,
        cw > 0 && ch > 0 && cursor@.len() >= cw * ch ==> origin_x + cw - 1 <= i32::MAX && origin_y + ch
            - 1 <= i32::MAX,
    ensures
        final(bgra)@ == spec_blend(
            old(bgra)@,
            frame_w as int,
            frame_h as int,
            cursor@,
            cw as int,
            ch as int,
            origin_x as int,
            origin_y as int,
        ),
{
    if cw == 0 || ch == 0 || cursor.len() < cw * ch {
        return;
    }
    let len: usize = bgra.len();
    let ghost frame0 = bgra@;
    let ghost fw = frame_w as int;
    let ghost fh = frame_h as int;
    let ghost ox = origin_x as int;
    let ghost oy = origin_y as int;
    let mut row: usize = 0;
    while row < ch
        invariant
            row <= ch,
            cw <= i32::MAX,
            ch <= i32::MAX,
            len == bgra@.len(),
            cw > 0,
            ch > 0,
            cw * ch <= usize::MAX,
            cursor@.len() >= cw * ch,
            fw == frame_w,
            fh == frame_h,
            ox == origin_x,
            oy == origin_y,
            frame_w <= i32::MAX,
            frame_h <= i32::MAX,
            frame0.len() >= frame_w * frame_h * 4,
            bgra@.len() == frame0.len(),
            forall|k: int| 0 <= k < bgra@.len() ==> #[trigger] bgra@[k]
                == blended_upto(frame0, fw, fh, cursor@, cw as int, ch as int, ox, oy, row * cw, k),
        decreases ch - row,
    {
        let fy: i64 = origin_y as i64 + row as i64;
        let mut col: usize = 0;
        while col < cw
            invariant
                row < ch,
                col <= cw,
                cw <= i32::MAX,
                ch <= i32::MAX,
                len == bgra@.len(),
                cw > 0,
                ch > 0,
                cw * ch <= usize::MAX,
                cursor@.len() >= cw * ch,
                fw == frame_w,
                fh == frame_h,
                ox == origin_x,
                oy == origin_y,
                fy == oy + row,
                frame_w <= i32::MAX,
                frame_h <= i32::MAX,
                frame0.len() >= frame_w * frame_h * 4,
                bgra@.len() == frame0.len(),
                forall|k: int| 0 <= k < bgra@.len() ==> #[trigger] bgra@[k]
                    == blended_upto(frame0, fw, fh, cursor@, cw as int, ch as int, ox, oy, row * cw + col, k),
            decreases cw - col,
        {
            proof {
                assert(row * cw + col < cw * ch) by (nonlinear_arith)
                    requires
                        row < ch,
                        col < cw,
                ;
            }
            let n: usize = row * cw + col;
            let fx: i64 = origin_x as i64 + col as i64;
            let ghost before = bgra@;
            if 0 <= fy && fy < frame_h as i64 && 0 <= fx && fx < frame_w as i64 {
                let px = cursor[n];
                let a: u32 = (px >> 24) & 0xff;
                let sr: u32 = (px >> 16) & 0xff;
                let sg: u32 = (px >> 8) & 0xff;
                let sb: u32 = px & 0xff;
                proof {
                    assert((px >> 24) & 0xff == px / 0x100_0000) by (bit_vector);
                    assert((px >> 16) & 0xff == (px / 0x1_0000) % 256) by (bit_vector);
                    assert((px >> 8) & 0xff == (px / 256) % 256) by (bit_vector);
                    assert(px & 0xff == px % 256) by (bit_vector);
                    assert((px >> 24) & 0xff <= 255) by (bit_vector);
                }
                if a != 0 {
                    let ux: usize = fx as usize;
                    let uy: usize = fy as usize;
                    proof {
                        lemma_row_index_bound(uy as int, ux as int, fw, fh);
                    }
                    let idx: usize = (uy * frame_w + ux) * 4;
                    let b0: u32 = bgra[idx] as u32;
                    let b1: u32 = bgra[idx + 1] as u32;
                    let b2: u32 = bgra[idx + 2] as u32;
                    proof {
                        assert(b0 * (255 - a) <= 65025 && b1 * (255 - a) <= 65025 && b2 * (255 - a) <= 65025)
                            by (nonlinear_arith)
                            requires
                                b0 <= 255,
                                b1 <= 255,
                                b2 <= 255,
                                a <= 255,
                        ;
                    }
                    bgra[idx] = ((sb + b0 * (255 - a) / 255) % 256) as u8;
                    bgra[idx + 1] = ((sg + b1 * (255 - a) / 255) % 256) as u8;
                    bgra[idx + 2] = ((sr + b2 * (255 - a) / 255) % 256) as u8;
                    bgra[idx + 3] = 255;
                    proof {
                        assert forall|k: int| 0 <= k < bgra@.len() implies #[trigger] bgra@[k]
                            == blended_upto(frame0, fw, fh, cursor@, cw as int, ch as int, ox, oy, n + 1, k) by {
                            let j = sprite_index(fw, fh, cw as int, ch as int, ox, oy, k);
                            if idx <= k < idx + 4 {
                                lemma_index_of_pixel(fw, fh, cw as int, ch as int, ox, oy, ux as int, uy as int, k - idx);
                                assert(j == n);
                                assert(before[k] == blended_upto(frame0, fw, fh, cursor@, cw as int, ch as int, ox, oy, n as int, k));
                                assert(before[k] == frame0[k]);
                                if k == idx {
                                    assert(b0 == frame0[k]);
                                } else if k == idx + 1 {
                                    assert(b1 == frame0[k]);
                                } else if k == idx + 2 {
                                    assert(b2 == frame0[k]);
                                }
                            } else if j == n {
                                lemma_pixel_of_index(fw, fh, cw as int, ch as int, ox, oy, row as int, col as int, k);
                                assert(false);
                            } else {
                                assert(before[k] == blended_upto(frame0, fw, fh, cursor@, cw as int, ch as int, ox, oy, n as int, k));
                            }
                        }
                    }
                } else {
                    proof {
                        assert forall|k: int| 0 <= k < bgra@.len() implies #[trigger] bgra@[k]
                            == blended_upto(frame0, fw, fh, cursor@, cw as int, ch as int, ox, oy, n + 1, k) by {
                            assert(before[k] == blended_upto(frame0, fw, fh, cursor@, cw as int, ch as int, ox, oy, n as int, k));
                        }
                    }
                }
            } else {
                proof {
                    assert forall|k: int| 0 <= k < bgra@.len() implies #[trigger] bgra@[k]
                        == blended_upto(frame0, fw, fh, cursor@, cw as int, ch as int, ox, oy, n + 1, k) by {
                        let j = sprite_index(fw, fh, cw as int, ch as int, ox, oy, k);
                        if j == n {
                            lemma_pixel_of_index(fw, fh, cw as int, ch as int, ox, oy, row as int, col as int, k);
                        }
                        assert(before[k] == blended_upto(frame0, fw, fh, cursor@, cw as int, ch as int, ox, oy, n as int, k));
                    }
                }
            }
            col += 1;
        }
        assert((row + 1) * cw == row * cw + cw) by (nonlinear_arith);
        row += 1;
    }
    assert(ch * cw == cw * ch) by (nonlinear_arith);
    assert(bgra@ =~= spec_blend(frame0, fw, fh, cursor@, cw as int, ch as int, ox, oy));
}

/// One RandR monitor: its origin on the root window, its size, and whether it is
/// the primary one.
#[derive(Debug, Clone, Copy, PartialEq, Eq, Structural)]
pub struct MonitorGeom {
    pub x: i16,
    pub y: i16,
    pub width: u16,
    pub height: u16,
    pub primary: bool,
}

/// Origin of the captured area among `monitors[..n]`: the primary monitor of the
/// capture's size if one is met, else the last monitor of that size, else (0, 0).
pub open spec fn origin_scan(monitors: Seq<MonitorGeom>, w: int, h: int, n: int) -> (int, int)
    decreases n,
{
    if n <= 0 {
        (0, 0)
    } else {
        let prev = origin_scan(monitors, w, h, n - 1);
        let m = monitors[n - 1];
        if primary_found(monitors, w, h, n - 1) {
            prev
        } else if m.width == w && m.height == h {
            (m.x as int, m.y as int)
        } else {
            prev
        }
    }
}

/// A primary monitor of size `w` x `h` is among `monitors[..n]`.
pub open spec fn primary_found(monitors: Seq<MonitorGeom>, w: int, h: int, n: int) -> bool
    decreases n,
{
    if n <= 0 {
        false
    } else {
        primary_found(monitors, w, h, n - 1) || (monitors[n - 1].primary && monitors[n - 1].width == w
            && monitors[n - 1].height == h)
    }
}

/// Where the captured `capture_w` x `capture_h` area starts on the X root window,
/// given the root's size (`None` when the screen is missing) and the RandR monitors
/// (`None` when the query failed): (0, 0) when the capture is the whole screen or
/// nothing matches; else the matching primary monitor, or the last matching one.
pub fn primary_origin_from(
    screen: Option<(u16, u16)>,
    capture_w: usize,
    capture_h: usize,
    monitors: Option<Vec<MonitorGeom>>,
) -> (r: (i32, i32))
    ensures
        screen is None ==> r == (0i32, 0i32),
        screen is Some && (screen->0).0 == capture_w && (screen->0).1 == capture_h ==> r == (0i32, 0i32),
        monitors is None ==> r == (0i32, 0i32),
        screen is Some && !((screen->0).0 == capture_w && (screen->0).1 == capture_h) && monitors is Some ==> {
            let ms = monitors->0@;
            &&& r.0 == origin_scan(ms, capture_w as int, capture_h as int, ms.len() as int).0
            &&& r.1 == origin_scan(ms, capture_w as int, capture_h as int, ms.len() as int).1
        },
{
    if screen.is_none() || monitors.is_none() {
        return (0, 0);
    }
    let (sw, sh) = screen.unwrap();
    if sw as usize == capture_w && sh as usize == capture_h {
        return (0, 0);
    }
    let ms = monitors.unwrap();
    let mut fallback: (i32, i32) = (0, 0);
    let mut i: usize = 0;
    while i < ms.len()
        invariant
            i <= ms@.len(),
            screen is Some,
            !((screen->0).0 == capture_w && (screen->0).1 == capture_h),
            monitors is Some,
            monitors->0@ == ms@,
            !primary_found(ms@, capture_w as int, capture_h as int, i as int),
            fallback.0 == origin_scan(ms@, capture_w as int, capture_h as int, i as int).0,
            fallback.1 == origin_scan(ms@, capture_w as int, capture_h as int, i as int).1,
        decreases ms.len() - i,
    {
        let m = ms[i];
        if m.width as usize == capture_w && m.height as usize == capture_h {
            fallback = (m.x as i32, m.y as i32);
            if m.primary {
                proof {
                    assert(ms@[i as int] == m);
                    assert(primary_found(ms@, capture_w as int, capture_h as int, i + 1));
                    assert(origin_scan(ms@, capture_w as int, capture_h as int, i + 1) == (m.x as int, m.y as int));
                    lemma_origin_settles(ms@, capture_w as int, capture_h as int, i + 1);
                    assert(fallback.0 == origin_scan(ms@, capture_w as int, capture_h as int, ms@.len() as int).0);
                }
                return fallback;
            }
        }
        i += 1;
    }
    fallback
}

/// Once a primary monitor of the capture's size is met, later monitors change nothing.
proof fn lemma_origin_settles(monitors: Seq<MonitorGeom>, w: int, h: int, n: int)
    requires
        0 <= n <= monitors.len(),
        primary_found(monitors, w, h, n),
    ensures
        origin_scan(monitors, w, h, monitors.len() as int) == origin_scan(monitors, w, h, n),
    decreases monitors.len() - n,
{
    if n < monitors.len() {
        lemma_origin_settles(monitors, w, h, n + 1);
    }
}

proof fn lemma_argb_bytes(px: u32)
    by (bit_vector)
    ensures
        (px & 0xff) == px % 256,
        ((px >> 8u32) & 0xff) == (px / 256) % 256,
        ((px >> 16u32) & 0xff) == (px / 0x1_0000) % 256,
        (px >> 24u32) == px / 0x100_0000,
{
}

/// An opaque sprite pixel `0xFFRRGGBB` replaces the frame pixel it covers with
/// exactly `[BB, GG, RR, 0xFF]` in BGRA order: blue from bits 0..8, green from bits
/// 8..16, red from bits 16..24, whatever the frame held there.
pub proof fn lemma_opaque_sprite_pixel_drawn(
    frame: Seq<u8>,
    fw: int,
    fh: int,
    cursor: Seq<u32>,
    cw: int,
    ch: int,
    ox: int,
    oy: int,
    fx: int,
    fy: int,
)
    requires
        frame.len() >= fw * fh * 4,
        cw > 0,
        ch > 0,
        cursor.len() >= cw * ch,
        0 <= fx < fw,
        0 <= fy < fh,
        0 <= fx - ox < cw,
        0 <= fy - oy < ch,
        cursor[(fy - oy) * cw + (fx - ox)] >> 24u32 == 0xff,
    ensures
        ({
            let px = cursor[(fy - oy) * cw + (fx - ox)];
            let out = spec_blend(frame, fw, fh, cursor, cw, ch, ox, oy);
            let k = (fy * fw + fx) * 4;
            &&& out[k] == (px & 0xff) as u8
            &&& out[k + 1] == ((px >> 8u32) & 0xff) as u8
            &&& out[k + 2] == ((px >> 16u32) & 0xff) as u8
            &&& out[k + 3] == 0xff
        }),
{
    let j = (fy - oy) * cw + (fx - ox);
    let px = cursor[j];
    lemma_argb_bytes(px);
    assert(0 <= j < cw * ch) by (nonlinear_arith)
        requires
            0 <= fx - ox < cw,
            0 <= fy - oy < ch,
            j == (fy - oy) * cw + (fx - ox),
    ;
    lemma_index_of_pixel(fw, fh, cw, ch, ox, oy, fx, fy, 0);
    lemma_index_of_pixel(fw, fh, cw, ch, ox, oy, fx, fy, 1);
    lemma_index_of_pixel(fw, fh, cw, ch, ox, oy, fx, fy, 2);
    lemma_index_of_pixel(fw, fh, cw, ch, ox, oy, fx, fy, 3);
    assert(sprite_alpha(px) == 255);
    let k = (fy * fw + fx) * 4;
    assert(k + 3 < frame.len());
}

/// Frame pixels the sprite does not cover, or covers with a fully transparent pixel,
/// keep all four bytes.
pub proof fn lemma_uncovered_pixel_kept(
    frame: Seq<u8>,
    fw: int,
    fh: int,
    cursor: Seq<u32>,
    cw: int,
    ch: int,
    ox: int,
    oy: int,
    fx: int,
    fy: int,
    c: int,
)
    requires
        frame.len() >= fw * fh * 4,
        0 <= fx < fw,
        0 <= fy < fh,
        0 <= c < 4,
        !(0 <= fx - ox < cw && 0 <= fy - oy < ch) || cursor[(fy - oy) * cw + (fx - ox)] >> 24u32 == 0,
    ensures
        spec_blend(frame, fw, fh, cursor, cw, ch, ox, oy)[(fy * fw + fx) * 4 + c] == frame[(fy * fw + fx) * 4 + c],
{
    lemma_index_of_pixel(fw, fh, cw, ch, ox, oy, fx, fy, c);
    if 0 <= fx - ox < cw && 0 <= fy - oy < ch {
        lemma_argb_bytes(cursor[(fy - oy) * cw + (fx - ox)]);
    }
}

} // verus!
