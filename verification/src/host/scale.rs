//! Nearest-neighbour BGRA scaling toward the stream preset's resolution.
use vstd::prelude::*;
use vstd::arithmetic::div_mod::{lemma_div_is_ordered, lemma_fundamental_div_mod_converse};
use vstd::arithmetic::mul::{lemma_mul_inequality, lemma_mul_nonnegative};

verus! {

/// Byte of the source that byte `k` of the scaled image copies: destination pixel
/// `(x, y)` takes source pixel `(x * sw / dw, y * sh / dh)`, channel by channel.
pub open spec fn scale_src_index(sw: int, sh: int, dw: int, dh: int, k: int) -> int {
    let p = k / 4;
    let y = p / dw;
    let x = p % dw;
    ((y * sh / dh) * sw + x * sw / dw) * 4 + k % 4
}

/// The scaled image: `dw * dh` BGRA pixels, all zero when either size is empty.
pub open spec fn spec_scale_bgra(src: Seq<u8>, sw: int, sh: int, dw: int, dh: int) -> Seq<u8> {
    if sw == 0 || sh == 0 || dw == 0 || dh == 0 {
        Seq::new((dw * dh * 4) as nat, |k: int| 0u8)
    } else {
        Seq::new((dw * dh * 4) as nat, |k: int| src[scale_src_index(sw, sh, dw, dh, k)])
    }
}

/// Scales the `sw` x `sh` BGRA image `src` to `dw` x `dh` by nearest neighbour.
pub fn scale_bgra(src: &[u8], sw: usize, sh: usize, dw: usize, dh: usize) -> (out: Vec<u8>)
    requires
        dw * dh * 4 <= usize::MAX,
        sw > 0 && sh > 0 && dw > 0 && dh > 0 ==> {
            &&& (dh - 1) * sh <= usize::MAX
            &&& (dw - 1) * sw <= usize::MAX
            &&& src@.len() >= (((dh - 1) * sh / dh as int) * sw + (dw - 1) * sw / dw as int + 1) * 4
        },
    ensures
        out@ == spec_scale_bgra(src@, sw as int, sh as int, dw as int, dh as int),
        sw > 0 && sh > 0 && dw > 0 && dh > 0 ==> forall|y: int, x: int, c: int|
            0 <= y < dh && 0 <= x < dw && 0 <= c < 4 ==> #[trigger] out@[(y * dw + x) * 4 + c]
                == src@[((y * sh / dh as int) * sw + x * sw / dw as int) * 4 + c],
{
    let total: usize = dw * dh * 4;
    let src_len: usize = src.len();
    let mut out: Vec<u8> = Vec::new();
    if sw == 0 || sh == 0 || dw == 0 || dh == 0 {
        let mut k: usize = 0;
        while k < total
            invariant
                k <= total,
                total == dw * dh * 4,
                out@.len() == k,
                forall|j: int| 0 <= j < k ==> out@[j] == 0u8,
            decreases total - k,
        {
            out.push(0);
            k += 1;
        }
        assert(out@ =~= spec_scale_bgra(src@, sw as int, sh as int, dw as int, dh as int));
        return out;
    }
    let ghost max_sy: int = (dh - 1) * sh / dh as int;
    let ghost max_sx: int = (dw - 1) * sw / dw as int;
    let mut y: usize = 0;
    while y < dh
        invariant
            sw > 0 && sh > 0 && dw > 0 && dh > 0,
            y <= dh,
            total == dw * dh * 4,
            (dh - 1) * sh <= usize::MAX,
            (dw - 1) * sw <= usize::MAX,
            max_sy == (dh - 1) * sh / dh as int,
            max_sx == (dw - 1) * sw / dw as int,
            src@.len() >= (max_sy * sw + max_sx + 1) * 4,
            src_len == src@.len(),
            out@.len() == y * dw * 4,
            forall|j: int| 0 <= j < out@.len() ==> #[trigger] out@[j]
                == src@[scale_src_index(sw as int, sh as int, dw as int, dh as int, j)],
        decreases dh - y,
    {
        proof {
            lemma_mul_inequality(y as int, (dh - 1) as int, sh as int);
        }
        let sy: usize = y * sh / dh;
        proof {
            lemma_div_is_ordered((y * sh) as int, ((dh - 1) * sh) as int, dh as int);
            lemma_mul_inequality(sy as int, max_sy, sw as int);
        }
        let mut x: usize = 0;
        while x < dw
            invariant
                sw > 0 && sh > 0 && dw > 0 && dh > 0,
                y < dh,
                x <= dw,
                total == dw * dh * 4,
                (dw - 1) * sw <= usize::MAX,
                max_sy == (dh - 1) * sh / dh as int,
                max_sx == (dw - 1) * sw / dw as int,
                sy == y * sh / dh as int,
                sy * sw <= max_sy * sw,
                src@.len() >= (max_sy * sw + max_sx + 1) * 4,
                src_len == src@.len(),
                out@.len() == (y * dw + x) * 4,
                forall|j: int| 0 <= j < out@.len() ==> #[trigger] out@[j]
                    == src@[scale_src_index(sw as int, sh as int, dw as int, dh as int, j)],
            decreases dw - x,
        {
            proof {
                lemma_mul_inequality(x as int, (dw - 1) as int, sw as int);
            }
            let sx: usize = x * sw / dw;
            proof {
                lemma_div_is_ordered((x * sw) as int, ((dw - 1) * sw) as int, dw as int);
                assert(sx <= max_sx);
            }
            let si: usize = (sy * sw + sx) * 4;
            let ghost base: int = (y * dw + x) as int;
            let mut c: usize = 0;
            while c < 4
                invariant
                    sw > 0 && sh > 0 && dw > 0 && dh > 0,
                    c <= 4,
                    y < dh,
                    x < dw,
                    base == y * dw + x,
                    sy == y * sh / dh as int,
                    sx == x * sw / dw as int,
                    si == (sy * sw + sx) * 4,
                    si + 4 <= src@.len(),
                    out@.len() == base * 4 + c,
                    forall|j: int| 0 <= j < out@.len() ==> #[trigger] out@[j]
                        == src@[scale_src_index(sw as int, sh as int, dw as int, dh as int, j)],
                decreases 4 - c,
            {
                proof {
                    let k = base * 4 + c;
                    lemma_fundamental_div_mod_converse(k, 4, base, c as int);
                    lemma_fundamental_div_mod_converse(base, dw as int, y as int, x as int);
                }
                out.push(src[si + c]);
                c += 1;
            }
            assert((y * dw + x + 1) * 4 == (y * dw + x) * 4 + 4) by (nonlinear_arith);
            x += 1;
        }
        assert((y + 1) * dw * 4 == (y * dw + dw) * 4) by (nonlinear_arith);
        y += 1;
    }
    assert(dh * dw * 4 == dw * dh * 4) by (nonlinear_arith);
    assert(out@ =~= spec_scale_bgra(src@, sw as int, sh as int, dw as int, dh as int));
    proof {
        assert forall|yy: int, xx: int, c: int|
            0 <= yy < dh && 0 <= xx < dw && 0 <= c < 4 implies #[trigger] out@[(yy * dw + xx) * 4 + c]
                == src@[((yy * sh / dh as int) * sw + xx * sw / dw as int) * 4 + c] by {
            let p = yy * dw + xx;
            lemma_fundamental_div_mod_converse(p * 4 + c, 4, p, c);
            lemma_fundamental_div_mod_converse(p, dw as int, yy, xx);
            lemma_row_index_bound(yy, xx, dw as int, dh as int);
        }
    }
    out
}

/// Pixel `(x, y)` of a `w`-wide raster with `h` rows lies inside it.
pub proof fn lemma_row_index_bound(y: int, x: int, w: int, h: int)
    requires
        0 <= y < h,
        0 <= x < w,
    ensures
        0 <= y * w + x < w * h,
        0 <= (y * w + x) * 4 + 3 < w * h * 4,
{
    lemma_mul_nonnegative(y, w);
    lemma_mul_inequality(y, h - 1, w);
    assert((h - 1) * w + w == w * h) by (nonlinear_arith);
    assert(w * h * 4 == (w * h) * 4) by (nonlinear_arith);
}

} // verus!
