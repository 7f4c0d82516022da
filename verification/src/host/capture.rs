//! Capture-side decisions: which IPC carries frames from the Windows capturer, what a
//! respawned capturer should capture, where to listen, and the pixel helpers run on
//! raw BGRA captures.
use vstd::prelude::*;
use crate::pad::vhid_client::dotted_le;
use crate::proto::text::{
    ascii_lower, ascii_lower_range, chars_of, chars_to_string, eq_lit, has_prefix, lit_at, parse_hex,
    push_decimal, push_lit, push_range, spec_parse_hex, str_lines_from, str_lines_of, trim, trim_bounds,
    views, words_from, words_of,
};

verus! {

/// What the Windows capture side delivered: raw pixels, or an encoded picture that
/// leaves the host no pixel work.
pub enum Captured {
    Bgra(Vec<u8>),
    H264 { nal: Vec<u8>, keyframe: bool },
}

/// How frames travel from the Windows capturer to the host.
#[derive(Debug, Clone, Copy, PartialEq, Eq, Structural)]
pub enum CaptureIpc {
    HyperV,
    Tcp,
    Shm,
}

/// Rust's `Debug` rendering of a string (quoted, with escapes).
pub uninterp spec fn debug_str(s: Seq<char>) -> Seq<char>;

/// `format!("{:?}", s)`: the `Debug` rendering of `s`, named by [`debug_str`].
#[verifier::external_body]
fn debug_quoted(s: &str) -> (r: String)
    ensures
        r@ == debug_str(s@),
{
    format!("{:?}", s)
}

/// The IPC a name selects, case-insensitively and ignoring surrounding white space;
/// anything else is an error naming the choices.
pub open spec fn spec_parse_capture_ipc(s: Seq<char>) -> Result<CaptureIpc, Seq<char>> {
    let n = ascii_lower(trim(s));
    if n == "shm"@ {
        Ok(CaptureIpc::Shm)
    } else if n == "hyperv"@ {
        Ok(CaptureIpc::HyperV)
    } else if n == "tcp"@ {
        Ok(CaptureIpc::Tcp)
    } else {
        Err("unknown capture ipc "@ + debug_str(n) + " \u{2014} expected shm|hyperv|tcp"@)
    }
}

/// Parse `COUCHLINK_CAPTURE_IPC` or an explicit IPC name.
pub fn parse_capture_ipc(s: &str) -> (r: Result<CaptureIpc, String>)
    ensures
        match r {
            Ok(c) => spec_parse_capture_ipc(s@) == Ok::<CaptureIpc, Seq<char>>(c),
            Err(e) => spec_parse_capture_ipc(s@) == Err::<CaptureIpc, Seq<char>>(e@),
        },
{
    let v = chars_of(s);
    let (a, b) = trim_bounds(&v);
    let n = ascii_lower_range(&v, a, b);
    if eq_lit(&n, "shm") {
        Ok(CaptureIpc::Shm)
    } else if eq_lit(&n, "hyperv") {
        Ok(CaptureIpc::HyperV)
    } else if eq_lit(&n, "tcp") {
        Ok(CaptureIpc::Tcp)
    } else {
        let name = chars_to_string(&n);
        let quoted = debug_quoted(name.as_str());
        let qv = chars_of(quoted.as_str());
        let mut out: Vec<char> = Vec::new();
        push_lit(&mut out, "unknown capture ipc ");
        push_range(&mut out, &qv, 0, qv.len());
        assert(qv@.subrange(0, qv@.len() as int) =~= qv@);
        push_lit(&mut out, " \u{2014} expected shm|hyperv|tcp");
        Err(chars_to_string(&out))
    }
}

/// Shared memory is not built yet: asking for it falls back to Hyper-V.
pub fn resolve_capture_ipc(requested: CaptureIpc) -> (r: CaptureIpc)
    ensures
        r == (if requested == CaptureIpc::Shm { CaptureIpc::HyperV } else { requested }),
{
    match requested {
        CaptureIpc::Shm => CaptureIpc::HyperV,
        other => other,
    }
}

pub open spec fn spec_capture_ipc_label(ipc: CaptureIpc) -> Seq<char> {
    match ipc {
        CaptureIpc::HyperV => "hyperv"@,
        CaptureIpc::Tcp => "tcp"@,
        CaptureIpc::Shm => "shm"@,
    }
}

/// Log-friendly name.
pub fn capture_ipc_label(ipc: CaptureIpc) -> (r: &'static str)
    ensures
        r@ == spec_capture_ipc_label(ipc),
{
    match ipc {
        CaptureIpc::HyperV => "hyperv",
        CaptureIpc::Tcp => "tcp",
        CaptureIpc::Shm => "shm",
    }
}

/// The source a respawned capturer uses: an explicitly configured non-empty source
/// as it is; otherwise `window` when a window title is pinned, else the `picker`.
pub fn respawn_capture_source_inner(configured: Option<String>, pinned_window: bool) -> (r: String)
    ensures
        r@ == (match configured {
            Some(s) => if s@.len() > 0 {
                s@
            } else if pinned_window {
                "window"@
            } else {
                "picker"@
            },
            None => if pinned_window {
                "window"@
            } else {
                "picker"@
            },
        }),
{
    match configured {
        Some(s) => {
            if s.as_str().unicode_len() > 0 {
                return s;
            }
        },
        None => {},
    }
    if pinned_window {
        String::from_str("window")
    } else {
        String::from_str("picker")
    }
}

/// `auto` (any case) listens on all interfaces at port 9876; anything else as given.
pub fn resolve_listen_addr(spec: &str) -> (r: String)
    ensures
        r@ == (if ascii_lower(spec@) == "auto"@ { "0.0.0.0:9876"@ } else { spec@ }),
{
    let v = chars_of(spec);
    let l = ascii_lower_range(&v, 0, v.len());
    assert(v@.subrange(0, v@.len() as int) =~= v@);
    if eq_lit(&l, "auto") {
        String::from_str("0.0.0.0:9876")
    } else {
        String::from_str(spec)
    }
}

/// Mean of `(b + g + r) / 3` over the first `k` pixels of `bgra`.
pub open spec fn luma_sum(bgra: Seq<u8>, k: int) -> int
    decreases k,
{
    if k <= 0 {
        0
    } else {
        luma_sum(bgra, k - 1) + (bgra[4 * (k - 1)] + bgra[4 * (k - 1) + 1] + bgra[4 * (k - 1) + 2]) / 3
    }
}

/// Average of `(b + g + r) / 3` over the first `max_pixels` whole pixels (0 when none).
pub fn sample_avg_luma_bgra(bgra: &[u8], max_pixels: usize) -> (r: u64)
    requires
        (if max_pixels < bgra@.len() / 4 { max_pixels as int } else { (bgra@.len() / 4) as int }) * 255 <= u64::MAX,
    ensures
        ({
            let n = if max_pixels < bgra@.len() / 4 { max_pixels as int } else { (bgra@.len() / 4) as int };
            r == (if n == 0 { 0 } else { luma_sum(bgra@, n) / n })
        }),
{
    let n: usize = if max_pixels < bgra.len() / 4 { max_pixels } else { bgra.len() / 4 };
    let mut sum: u64 = 0;
    let mut k: usize = 0;
    assert(4 * n <= bgra.len());
    while k < n
        invariant
            k <= n,
            4 * n <= bgra.len(),
            n * 255 <= u64::MAX,
            sum == luma_sum(bgra@, k as int),
            sum <= 255 * k,
        decreases n - k,
    {
        let i = 4 * k;
        sum = sum + (bgra[i] as u64 + bgra[i + 1] as u64 + bgra[i + 2] as u64) / 3;
        k += 1;
    }
    if n == 0 {
        0
    } else {
        sum / (n as u64)
    }
}

/// Row `y` of a frame with `stride`-byte rows, cut to `rb` bytes; zeros when the
/// row does not fit in the buffer.
pub open spec fn tight_row(frame: Seq<u8>, rb: int, stride: int, y: int) -> Seq<u8> {
    if y * stride + rb <= frame.len() {
        frame.subrange(y * stride, y * stride + rb)
    } else {
        Seq::new(rb as nat, |_k: int| 0u8)
    }
}

/// The first `n` rows, tight.
pub open spec fn tight_rows(frame: Seq<u8>, rb: int, stride: int, n: int) -> Seq<u8>
    decreases n,
{
    if n <= 0 {
        seq![]
    } else {
        tight_rows(frame, rb, stride, n - 1) + tight_row(frame, rb, stride, n - 1)
    }
}

/// The BGRA frame with rows packed tight (`width * 4` bytes each): the row stride is
/// the buffer length over the height; a frame already tight is returned as it is.
pub open spec fn spec_pack_tight(frame: Seq<u8>, width: int, height: int) -> Seq<u8> {
    let rb = width * 4;
    let stride = if height > 0 { frame.len() as int / height } else { rb };
    if stride == rb {
        frame
    } else {
        tight_rows(frame, rb, stride, height)
    }
}

/// Pack a possibly padded BGRA frame into tight rows.
pub fn pack_tight_bgra(frame: &[u8], width: usize, height: usize) -> (r: Vec<u8>)
    requires
        width * 4 <= usize::MAX,
    ensures
        r@ == spec_pack_tight(frame@, width as int, height as int),
{
    let row_bytes = width * 4;
    let stride = if height > 0 { frame.len() / height } else { row_bytes };
    if stride == row_bytes {
        return vstd::slice::slice_to_vec(frame);
    }
    let mut tight: Vec<u8> = Vec::new();
    let mut y: usize = 0;
    while y < height
        invariant
            y <= height,
            height > 0,
            row_bytes == width * 4,
            stride == frame@.len() as int / (height as int),
            tight@ == tight_rows(frame@, row_bytes as int, stride as int, y as int),
        decreases height - y,
    {
        proof {
            let l = frame.len() as int;
            let h = height as int;
            assert(stride * h <= l) by (nonlinear_arith)
                requires
                    stride == l / h,
                    h > 0,
                    l >= 0,
            ;
            assert(y * stride <= stride * h) by (nonlinear_arith)
                requires
                    0 <= y < h,
                    stride >= 0,
            ;
        }
        let src = y * stride;
        let ghost before = tight@;
        if frame.len() - src >= row_bytes {
            let mut x: usize = 0;
            while x < row_bytes
                invariant
                    x <= row_bytes,
                    src + row_bytes <= frame.len(),
                    tight@ == before + frame@.subrange(src as int, src + x),
                decreases row_bytes - x,
            {
                tight.push(frame[src + x]);
                x += 1;
                assert(tight@ =~= before + frame@.subrange(src as int, src + x));
            }
        } else {
            let mut x: usize = 0;
            while x < row_bytes
                invariant
                    x <= row_bytes,
                    tight@ == before + Seq::new(x as nat, |_k: int| 0u8),
                decreases row_bytes - x,
            {
                tight.push(0);
                x += 1;
                assert(tight@ =~= before + Seq::new(x as nat, |_k: int| 0u8));
            }
        }
        y += 1;
        assert(tight@ =~= tight_rows(frame@, row_bytes as int, stride as int, y as int));
    }
    tight
}

/// The first default route with a parsable non-zero gateway among `lines[i..]`, as
/// dotted IPv4; lines that are not such a route are skipped.
pub open spec fn scan_gateway(lines: Seq<Seq<char>>, i: int) -> Option<Seq<char>>
    decreases lines.len() - i,
{
    if i < 0 || i >= lines.len() {
        None
    } else {
        let cols = words_from(lines[i], 0);
        if cols.len() >= 3 && cols[1] == "00000000"@ && spec_parse_hex(cols[2], 0xFFFF_FFFF) is Some
            && spec_parse_hex(cols[2], 0xFFFF_FFFF)->0 != 0 {
            Some(dotted_le(spec_parse_hex(cols[2], 0xFFFF_FFFF)->0 as u32))
        } else {
            scan_gateway(lines, i + 1)
        }
    }
}

/// The first `nameserver` among `lines[i..]` (trimmed) that is not empty and not the
/// WSL mirrored stub resolver `10.255.255.254`.
pub open spec fn scan_nameserver(lines: Seq<Seq<char>>, i: int) -> Option<Seq<char>>
    decreases lines.len() - i,
{
    if i < 0 || i >= lines.len() {
        None
    } else {
        let t = trim(lines[i]);
        if has_prefix(t, "nameserver "@) {
            let ip = trim(t.subrange(11, t.len() as int));
            if ip == "10.255.255.254"@ || ip.len() == 0 {
                scan_nameserver(lines, i + 1)
            } else {
                Some(ip)
            }
        } else {
            scan_nameserver(lines, i + 1)
        }
    }
}

/// The Windows host as WSL2 sees it: the default route's gateway in the text of
/// `/proc/net/route` (header skipped) when one is there, else the first usable
/// `nameserver` of `/etc/resolv.conf`.
pub open spec fn spec_windows_host_ip(route: Option<Seq<char>>, resolv: Seq<char>) -> Option<Seq<char>> {
    let gw = match route {
        Some(r) => scan_gateway(str_lines_from(r, 0), 1),
        None => None,
    };
    match gw {
        Some(g) => Some(g),
        None => scan_nameserver(str_lines_from(resolv, 0), 0),
    }
}

fn gateway_from_routes(routes: &str) -> (r: Option<String>)
    ensures
        match r {
            Some(g) => scan_gateway(str_lines_from(routes@, 0), 1) == Some(g@),
            None => scan_gateway(str_lines_from(routes@, 0), 1) is None,
        },
{
    let v = chars_of(routes);
    let lines = str_lines_of(&v);
    let ghost ls = views(lines@);
    let mut i: usize = 1;
    while i < lines.len()
        invariant
            1 <= i,
            ls == views(lines@),
            ls == str_lines_from(routes@, 0),
            scan_gateway(ls, i as int) == scan_gateway(ls, 1),
        decreases lines.len() - i,
    {
        let cols = words_of(&lines[i]);
        assert(views(cols@) == words_from(ls[i as int], 0));
        if cols.len() >= 3 {
            assert(views(cols@)[1] == cols@[1]@);
            assert(views(cols@)[2] == cols@[2]@);
            if eq_lit(&cols[1], "00000000") {
                let raw = parse_hex(&cols[2], 0, cols[2].len(), 0xFFFF_FFFF);
                assert(cols@[2]@.subrange(0, cols@[2]@.len() as int) =~= cols@[2]@);
                if let Some(x) = raw {
                    if x != 0 {
                        let mut out: Vec<char> = Vec::new();
                        push_decimal(&mut out, (x % 256) as u64);
                        push_lit(&mut out, ".");
                        push_decimal(&mut out, ((x / 256) % 256) as u64);
                        push_lit(&mut out, ".");
                        push_decimal(&mut out, ((x / 65536) % 256) as u64);
                        push_lit(&mut out, ".");
                        push_decimal(&mut out, (x / 16777216) as u64);
                        return Some(chars_to_string(&out));
                    }
                }
            }
        }
        i += 1;
    }
    None
}

fn nameserver_from_resolv(resolv: &str) -> (r: Option<String>)
    ensures
        match r {
            Some(g) => scan_nameserver(str_lines_from(resolv@, 0), 0) == Some(g@),
            None => scan_nameserver(str_lines_from(resolv@, 0), 0) is None,
        },
{
    let v = chars_of(resolv);
    let lines = str_lines_of(&v);
    let ghost ls = views(lines@);
    let mut i: usize = 0;
    while i < lines.len()
        invariant
            ls == views(lines@),
            ls == str_lines_from(resolv@, 0),
            scan_nameserver(ls, i as int) == scan_nameserver(ls, 0),
        decreases lines.len() - i,
    {
        let line = &lines[i];
        assert(ls[i as int] == line@);
        let (a, b) = trim_bounds(line);
        let mut t: Vec<char> = Vec::new();
        push_range(&mut t, line, a, b);
        assert(t@ =~= trim(line@));
        if lit_at(&t, 0, "nameserver ") {
            proof {
                reveal_strlit("nameserver ");
            }
            let (c, d) = trim_bounds_from(&t, 11);
            let mut ip: Vec<char> = Vec::new();
            push_range(&mut ip, &t, c, d);
            assert(ip@ =~= trim(t@.subrange(11, t@.len() as int)));
            if !(eq_lit(&ip, "10.255.255.254") || ip.len() == 0) {
                return Some(chars_to_string(&ip));
            }
        }
        i += 1;
    }
    None
}

/// Bounds of `trim(v[from..])` inside `v`.
fn trim_bounds_from(v: &Vec<char>, from: usize) -> (r: (usize, usize))
    requires
        from <= v@.len(),
    ensures
        from <= r.0 <= r.1 <= v@.len(),
        v@.subrange(r.0 as int, r.1 as int) == trim(v@.subrange(from as int, v@.len() as int)),
{
    let mut tail: Vec<char> = Vec::new();
    push_range(&mut tail, v, from, v.len());
    let (a, b) = trim_bounds(&tail);
    assert(v@.subrange(from + a, from + b) =~= tail@.subrange(a as int, b as int));
    (from + a, from + b)
}

/// The Windows host's address from WSL2, from the texts of `/proc/net/route` (when
/// readable) and `/etc/resolv.conf` (see [`spec_windows_host_ip`]).
pub fn windows_host_ip_from(route: Option<&str>, resolv: &str) -> (r: Option<String>)
    ensures
        (match r {
            Some(s) => Some(s@),
            None => None,
        }) == spec_windows_host_ip(
            match route {
                Some(x) => Some(x@),
                None => None,
            },
            resolv@,
        ),
{
    if let Some(routes) = route {
        if let Some(g) = gateway_from_routes(routes) {
            return Some(g);
        }
    }
    nameserver_from_resolv(resolv)
}

/// Every IPC's label parses back to it, in any letter case.
pub proof fn lemma_capture_ipc_label_parses(ipc: CaptureIpc)
    ensures
        spec_parse_capture_ipc(spec_capture_ipc_label(ipc)) == Ok::<CaptureIpc, Seq<char>>(ipc),
        spec_parse_capture_ipc("TCP"@) == Ok::<CaptureIpc, Seq<char>>(CaptureIpc::Tcp),
{
    reveal_strlit("hyperv");
    reveal_strlit("tcp");
    reveal_strlit("shm");
    reveal_strlit("TCP");
    let l = spec_capture_ipc_label(ipc);
    assert(trim(l) =~= l);
    assert(ascii_lower(l) =~= l);
    assert(trim("TCP"@) =~= "TCP"@);
    let u = ascii_lower("TCP"@);
    assert(('T' as u32) + 32 == 't' as u32 && ('C' as u32) + 32 == 'c' as u32 && ('P' as u32) + 32 == 'p' as u32);
    assert(u[0] == 't' && u[1] == 'c' && u[2] == 'p');
    assert(u =~= "tcp"@);
}

} // verus!
