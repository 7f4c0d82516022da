//! BGRA to I420 (BT.601 studio swing), the colour conversion in front of the
//! H.264 encoder.
use vstd::prelude::*;
use vstd::arithmetic::div_mod::lemma_fundamental_div_mod_converse;
use vstd::arithmetic::mul::{lemma_mul_inequality, lemma_mul_nonnegative};

verus! {

/// `v` limited to a byte.
pub open spec fn clamp_byte(v: int) -> u8 {
    if v < 0 {
        0u8
    } else if v > 255 {
        255u8
    } else {
        v as u8
    }
}

/// BT.601 luma of one pixel (the integer form with `>> 8` as a floor division).
pub open spec fn luma_of(b: int, g: int, r: int) -> u8 {
    clamp_byte((66 * r + 129 * g + 25 * b + 128) / 256 + 16)
}

/// BT.601 blue-difference chroma of one pixel.
pub open spec fn chroma_u_of(b: int, g: int, r: int) -> u8 {
    clamp_byte((-38 * r - 74 * g + 112 * b + 128) / 256 + 128)
}

/// BT.601 red-difference chroma of one pixel.
pub open spec fn chroma_v_of(b: int, g: int, r: int) -> u8 {
    clamp_byte((112 * r - 94 * g - 18 * b + 128) / 256 + 128)
}

/// Row `y` of the source (`width` pixels starting at `y * stride`) lies inside it.
pub open spec fn row_present(len: int, width: int, stride: int, y: int) -> bool {
    y * stride + width * 4 <= len
}

/// Half a dimension, rounded up: the chroma planes' size.
pub open spec fn half_up(n: int) -> int {
    (n + 1) / 2
}

/// The luma plane: one byte per pixel, zero on rows the source does not hold.
pub open spec fn luma_plane(bgra: Seq<u8>, width: int, height: int, stride: int) -> Seq<u8> {
    Seq::new(
        (width * height) as nat,
        |k: int|
            {
                let y = k / width;
                let i = y * stride + (k % width) * 4;
                if row_present(bgra.len() as int, width, stride, y) {
                    luma_of(bgra[i] as int, bgra[i + 1] as int, bgra[i + 2] as int)
                } else {
                    0u8
                }
            },
    )
}

/// A chroma plane: one sample per 2x2 block, taken from the block's top-left pixel,
/// zero where that pixel's row is missing from the source.
pub open spec fn chroma_plane(bgra: Seq<u8>, width: int, height: int, stride: int, u: bool) -> Seq<u8> {
    let cw = half_up(width);
    Seq::new(
        (cw * half_up(height)) as nat,
        |k: int|
            {
                let y = 2 * (k / cw);
                let i = y * stride + (k % cw) * 8;
                if row_present(bgra.len() as int, width, stride, y) {
                    if u {
                        chroma_u_of(bgra[i] as int, bgra[i + 1] as int, bgra[i + 2] as int)
                    } else {
                        chroma_v_of(bgra[i] as int, bgra[i + 1] as int, bgra[i + 2] as int)
                    }
                } else {
                    0u8
                }
            },
    )
}

/// The whole I420 picture: luma plane, then U, then V.
pub open spec fn spec_i420(bgra: Seq<u8>, width: int, height: int, stride: int) -> Seq<u8> {
    luma_plane(bgra, width, height, stride) + chroma_plane(bgra, width, height, stride, true)
        + chroma_plane(bgra, width, height, stride, false)
}

/// Where row `y` starts in the source, if the whole row lies inside it.
fn row_start(len: usize, width: usize, stride: usize, y: usize) -> (r: Option<usize>)
    ensures
        r is Some <==> row_present(len as int, width as int, stride as int, y as int),
        r is Some ==> r->0 == y * stride,
{
    match y.checked_mul(stride) {
        None => None,
        Some(start) => match width.checked_mul(4) {
            None => None,
            Some(row_bytes) => match start.checked_add(row_bytes) {
                None => None,
                Some(end) => if end <= len {
                    Some(start)
                } else {
                    None
                },
            },
        },
    }
}

fn luma_byte(b: u8, g: u8, r: u8) -> (v: u8)
    ensures
        v == luma_of(b as int, g as int, r as int),
{
    let s: u32 = 66 * r as u32 + 129 * g as u32 + 25 * b as u32 + 128;
    (s / 256 + 16) as u8
}

fn chroma_u_byte(b: u8, g: u8, r: u8) -> (v: u8)
    ensures
        v == chroma_u_of(b as int, g as int, r as int),
{
    let s: u32 = 112 * b as u32 + 32896 - 38 * r as u32 - 74 * g as u32;
    proof {
        let t = -38 * r - 74 * g + 112 * b + 128;
        assert(s == t + 32768);
        assert((t + 32768) / 256 == t / 256 + 128);
    }
    (s / 256) as u8
}

fn chroma_v_byte(b: u8, g: u8, r: u8) -> (v: u8)
    ensures
        v == chroma_v_of(b as int, g as int, r as int),
{
    let s: u32 = 112 * r as u32 + 32896 - 94 * g as u32 - 18 * b as u32;
    proof {
        let t = 112 * r - 94 * g - 18 * b + 128;
        assert(s == t + 32768);
        assert((t + 32768) / 256 == t / 256 + 128);
    }
    (s / 256) as u8
}

fn build_luma(bgra: &[u8], width: usize, height: usize, stride: usize) -> (p: Vec<u8>)
    requires
        width * height <= usize::MAX,
    ensures
        p@ == luma_plane(bgra@, width as int, height as int, stride as int),
{
    let len = bgra.len();
    let mut p: Vec<u8> = Vec::new();
    let mut y: usize = 0;
    while y < height
        invariant
            y <= height,
            len == bgra@.len(),
            width * height <= usize::MAX,
            p@.len() == y * width,
            forall|j: int| 0 <= j < p@.len() ==> #[trigger] p@[j]
                == luma_plane(bgra@, width as int, height as int, stride as int)[j],
        decreases height - y,
    {
        let row = row_start(len, width, stride, y);
        proof {
            lemma_mul_inequality(y as int, (height - 1) as int, width as int);
            assert((height - 1) * width + width == width * height) by (nonlinear_arith);
        }
        let mut x: usize = 0;
        while x < width
            invariant
                y < height,
                x <= width,
                len == bgra@.len(),
                width * height <= usize::MAX,
                y * width + width <= width * height,
                row is Some <==> row_present(len as int, width as int, stride as int, y as int),
                row is Some ==> row->0 == y * stride,
                p@.len() == y * width + x,
                forall|j: int| 0 <= j < p@.len() ==> #[trigger] p@[j]
                    == luma_plane(bgra@, width as int, height as int, stride as int)[j],
            decreases width - x,
        {
            proof {
                lemma_fundamental_div_mod_converse((y * width + x) as int, width as int, y as int, x as int);
            }
            match row {
                Some(start) => {
                    let i = start + x * 4;
                    p.push(luma_byte(bgra[i], bgra[i + 1], bgra[i + 2]));
                },
                None => {
                    p.push(0);
                },
            }
            x += 1;
        }
        assert((y + 1) * width == y * width + width) by (nonlinear_arith);
        y += 1;
    }
    assert(height * width == width * height) by (nonlinear_arith);
    assert(p@ =~= luma_plane(bgra@, width as int, height as int, stride as int));
    p
}

fn build_chroma(bgra: &[u8], width: usize, height: usize, stride: usize, u: bool) -> (p: Vec<u8>)
    requires
        width * height + 2 * half_up(width as int) * half_up(height as int) <= usize::MAX,
    ensures
        p@ == chroma_plane(bgra@, width as int, height as int, stride as int, u),
{
    let len = bgra.len();
    let cw: usize = width / 2 + width % 2;
    let ch: usize = height / 2 + height % 2;
    assert(cw == half_up(width as int) && ch == half_up(height as int));
    proof {
        lemma_mul_nonnegative(width as int, height as int);
        lemma_mul_nonnegative(cw as int, ch as int);
        assert(2 * cw * ch == cw * ch + cw * ch) by (nonlinear_arith);
    }
    let mut p: Vec<u8> = Vec::new();
    let mut cy: usize = 0;
    while cy < ch
        invariant
            cy <= ch,
            cw == half_up(width as int),
            ch == half_up(height as int),
            len == bgra@.len(),
            cw * ch <= usize::MAX,
            p@.len() == cy * cw,
            forall|j: int| 0 <= j < p@.len() ==> #[trigger] p@[j]
                == chroma_plane(bgra@, width as int, height as int, stride as int, u)[j],
        decreases ch - cy,
    {
        let row = row_start(len, width, stride, 2 * cy);
        proof {
            lemma_mul_inequality(cy as int, (ch - 1) as int, cw as int);
            assert((ch - 1) * cw + cw == cw * ch) by (nonlinear_arith);
        }
        let mut cx: usize = 0;
        while cx < cw
            invariant
                cy < ch,
                cx <= cw,
                cw == half_up(width as int),
                ch == half_up(height as int),
                len == bgra@.len(),
                cy * cw + cw <= cw * ch,
                cw * ch <= usize::MAX,
                row is Some <==> row_present(len as int, width as int, stride as int, 2 * cy),
                row is Some ==> row->0 == 2 * cy * stride,
                p@.len() == cy * cw + cx,
                forall|j: int| 0 <= j < p@.len() ==> #[trigger] p@[j]
                    == chroma_plane(bgra@, width as int, height as int, stride as int, u)[j],
            decreases cw - cx,
        {
            proof {
                lemma_fundamental_div_mod_converse((cy * cw + cx) as int, cw as int, cy as int, cx as int);
            }
            match row {
                Some(start) => {
                    let i = start + cx * 8;
                    if u {
                        p.push(chroma_u_byte(bgra[i], bgra[i + 1], bgra[i + 2]));
                    } else {
                        p.push(chroma_v_byte(bgra[i], bgra[i + 1], bgra[i + 2]));
                    }
                },
                None => {
                    p.push(0);
                },
            }
            cx += 1;
        }
        assert((cy + 1) * cw == cy * cw + cw) by (nonlinear_arith);
        cy += 1;
    }
    assert(ch * cw == cw * ch) by (nonlinear_arith);
    assert(p@ =~= chroma_plane(bgra@, width as int, height as int, stride as int, u));
    p
}

/// Converts a `width` x `height` BGRA picture whose rows start every `stride` bytes
/// to planar I420: the luma plane, then the U and V planes at half resolution
/// (rounded up), each chroma sample taken from the top-left pixel of its 2x2 block.
/// Rows the source is too short to hold come out as zeros.
pub fn bgra_to_i420(bgra: &[u8], width: usize, height: usize, stride: usize) -> (out: Vec<u8>)
    requires
        width * height + 2 * half_up(width as int) * half_up(height as int) <= usize::MAX,
    ensures
        out@ == spec_i420(bgra@, width as int, height as int, stride as int),
        out@.len() == width * height + 2 * half_up(width as int) * half_up(height as int),
{
    proof {
        lemma_mul_nonnegative(half_up(width as int), half_up(height as int));
        assert(2 * half_up(width as int) * half_up(height as int) == half_up(width as int) * half_up(height as int) + half_up(width as int) * half_up(height as int)) by (nonlinear_arith);
    }
    let mut out = build_luma(bgra, width, height, stride);
    let mut u_plane = build_chroma(bgra, width, height, stride, true);
    let mut v_plane = build_chroma(bgra, width, height, stride, false);
    out.append(&mut u_plane);
    out.append(&mut v_plane);
    out
}

/// The NAL unit already starts with an Annex-B start code (`00 00 00 01` or
/// `00 00 01`).
pub open spec fn has_start_code(nal: Seq<u8>) -> bool {
    (nal.len() >= 4 && nal[0] == 0 && nal[1] == 0 && nal[2] == 0 && nal[3] == 1) || (nal.len() >= 3
        && nal[0] == 0 && nal[1] == 0 && nal[2] == 1)
}

/// The Annex-B stream of a picture's NAL units, in order: each unit behind a
/// four-byte start code unless it already carries one.
pub open spec fn spec_annex_b(nals: Seq<Seq<u8>>) -> Seq<u8>
    decreases nals.len(),
{
    if nals.len() == 0 {
        seq![]
    } else {
        let last = nals.last();
        spec_annex_b(nals.drop_last()) + (if has_start_code(last) {
            seq![]
        } else {
            seq![0u8, 0u8, 0u8, 1u8]
        }) + last
    }
}

/// The views of a list of NAL units.
pub open spec fn nal_views(v: Seq<Vec<u8>>) -> Seq<Seq<u8>> {
    v.map_values(|n: Vec<u8>| n@)
}

/// Joins the NAL units the encoder produced for one picture into an Annex-B stream.
pub fn annex_b_from_nals(nals: &Vec<Vec<u8>>) -> (out: Vec<u8>)
    ensures
        out@ == spec_annex_b(nal_views(nals@)),
{
    let mut out: Vec<u8> = Vec::new();
    let mut i: usize = 0;
    while i < nals.len()
        invariant
            i <= nals@.len(),
            out@ == spec_annex_b(nal_views(nals@).take(i as int)),
        decreases nals.len() - i,
    {
        let nal = &nals[i];
        let starts = (nal.len() >= 4 && nal[0] == 0 && nal[1] == 0 && nal[2] == 0 && nal[3] == 1) || (nal.len()
            >= 3 && nal[0] == 0 && nal[1] == 0 && nal[2] == 1);
        let ghost before = out@;
        if !starts {
            out.push(0);
            out.push(0);
            out.push(0);
            out.push(1);
        }
        let mut k: usize = 0;
        while k < nal.len()
            invariant
                k <= nal@.len(),
                out@ == before + (if starts {
                    seq![]
                } else {
                    seq![0u8, 0u8, 0u8, 1u8]
                }) + nal@.take(k as int),
            decreases nal.len() - k,
        {
            out.push(nal[k]);
            k += 1;
            assert(out@ =~= before + (if starts {
                seq![]
            } else {
                seq![0u8, 0u8, 0u8, 1u8]
            }) + nal@.take(k as int));
        }
        assert(nal@.take(nal@.len() as int) =~= nal@);
        let ghost taken = nal_views(nals@).take(i + 1);
        assert(taken.drop_last() =~= nal_views(nals@).take(i as int));
        assert(taken.last() == nal@);
        i += 1;
        assert(out@ =~= spec_annex_b(nal_views(nals@).take(i as int)));
    }
    assert(nal_views(nals@).take(nals@.len() as int) =~= nal_views(nals@));
    out
}

/// The encoder's target bitrate for a commanded `bitrate_kbps`: in bits per second,
/// never below 1 Mbps (saturating at `u32::MAX`).
pub fn encoder_bitrate_bps(bitrate_kbps: u32) -> (bps: u32)
    ensures
        bps == (if bitrate_kbps * 1000 > u32::MAX {
            u32::MAX as int
        } else if bitrate_kbps * 1000 < 1_000_000 {
            1_000_000
        } else {
            bitrate_kbps * 1000
        }),
{
    let b: u64 = bitrate_kbps as u64 * 1000;
    let sat: u32 = if b > u32::MAX as u64 { u32::MAX } else { b as u32 };
    if sat < 1_000_000 {
        1_000_000
    } else {
        sat
    }
}

/// A frame the encoder can take: at least `width * 4 * height` bytes of BGRA.
pub fn frame_fits(len: usize, width: u32, height: u32) -> (r: bool)
    ensures
        r == (len >= width * 4 * height),
{
    assert((width as int) * 4 * (height as int) <= u128::MAX) by (nonlinear_arith)
        requires
            width <= u32::MAX,
            height <= u32::MAX,
    ;
    (len as u128) >= (width as u128) * 4 * (height as u128)
}

} // verus!
