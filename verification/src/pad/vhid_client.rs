//! What the VHID companion client reads from the system: the default IPv4 gateway
//! in `/proc/net/route` (the Windows host, seen from WSL2).
use vstd::prelude::*;
use crate::pad::vhid_proto::{spec_take_output, take_output_frame};
use crate::proto::text::{
    ascii_lower, ascii_lower_range, contains_lit, contains_sub, trim, trim_bounds, push_range,
    chars_of, chars_to_string, decimal, eq_lit, parse_hex, push_decimal, push_lit, spec_parse_hex,
    str_lines_from, str_lines_of, views, words_from, words_of,
};

verus! {

/// `a.b.c.d` for the little-endian bytes of `raw`.
pub open spec fn dotted_le(raw: u32) -> Seq<char> {
    decimal((raw % 256) as nat) + "."@ + decimal(((raw / 256) % 256) as nat) + "."@ + decimal(
        ((raw / 65536) % 256) as nat,
    ) + "."@ + decimal((raw / 16777216) as nat)
}

/// Scan route lines from `i`: the first default route (destination `00000000`) with a
/// non-zero gateway, as dotted IPv4; a line with fewer than three columns, or a
/// default route whose gateway is not 32-bit hex, ends the scan with `None`.
pub open spec fn scan_routes(lines: Seq<Seq<char>>, i: int) -> Option<Seq<char>>
    decreases lines.len() - i,
{
    if i < 0 || i >= lines.len() {
        None
    } else {
        let cols = words_from(lines[i], 0);
        if cols.len() < 3 {
            None
        } else if cols[1] != "00000000"@ {
            scan_routes(lines, i + 1)
        } else {
            match spec_parse_hex(cols[2], 0xFFFF_FFFF) {
                None => None,
                Some(raw) => if raw == 0 {
                    scan_routes(lines, i + 1)
                } else {
                    Some(dotted_le(raw as u32))
                },
            }
        }
    }
}

/// The default IPv4 gateway of a `/proc/net/route` text (header line skipped).
pub open spec fn spec_parse_default_gateway(routes: Seq<char>) -> Option<Seq<char>> {
    scan_routes(str_lines_from(routes, 0), 1)
}

/// Default IPv4 gateway from the text of `/proc/net/route`.
pub fn parse_default_gateway(routes: &str) -> (r: Option<String>)
    ensures
        match r {
            Some(g) => spec_parse_default_gateway(routes@) == Some(g@),
            None => spec_parse_default_gateway(routes@) is None,
        },
{
    let v = chars_of(routes);
    let lines = str_lines_of(&v);
    let ghost ls = views(lines@);
    let mut i: usize = 1;
    while i < lines.len()
        invariant
            1 <= i,
            ls == views(lines@),
            ls == str_lines_from(routes@, 0),
            scan_routes(ls, i as int) == scan_routes(ls, 1),
        decreases lines.len() - i,
    {
        let cols = words_of(&lines[i]);
        assert(views(cols@) == words_from(ls[i as int], 0));
        if cols.len() < 3 {
            return None;
        }
        assert(views(cols@)[1] == cols@[1]@);
        assert(views(cols@)[2] == cols@[2]@);
        if !eq_lit(&cols[1], "00000000") {
            i += 1;
            continue;
        }
        let raw = parse_hex(&cols[2], 0, cols[2].len(), 0xFFFF_FFFF);
        assert(cols@[2]@.subrange(0, cols@[2]@.len() as int) =~= cols@[2]@);
        match raw {
            None => {
                return None;
            },
            Some(x) => {
                if x == 0 {
                    i += 1;
                    continue;
                }
                let mut out: Vec<char> = Vec::new();
                push_decimal(&mut out, (x % 256) as u64);
                push_lit(&mut out, ".");
                push_decimal(&mut out, ((x / 256) % 256) as u64);
                push_lit(&mut out, ".");
                push_decimal(&mut out, ((x / 65536) % 256) as u64);
                push_lit(&mut out, ".");
                push_decimal(&mut out, (x / 16777216) as u64);
                return Some(chars_to_string(&out));
            },
        }
    }
    None
}

/// The companion hosts to try, in order: a non-blank override (trimmed), then
/// loopback, then the default gateway unless it is already listed.
pub open spec fn spec_vhid_tcp_hosts(env_host: Option<Seq<char>>, gateway: Option<Seq<char>>) -> Seq<Seq<char>> {
    let first: Seq<Seq<char>> = match env_host {
        Some(h) => if trim(h).len() > 0 {
            seq![trim(h)]
        } else {
            seq![]
        },
        None => seq![],
    };
    let with_local = first.push("127.0.0.1"@);
    match gateway {
        Some(g) => if with_local.contains(g) {
            with_local
        } else {
            with_local.push(g)
        },
        None => with_local,
    }
}

/// Candidate hosts for the companion given the `COUCHLINK_DS_VHID_HOST` override
/// and the default gateway (the Windows host, seen from WSL2).
pub fn vhid_tcp_hosts(env_host: Option<&str>, gateway: Option<String>) -> (r: Vec<String>)
    ensures
        views_str(r@) == spec_vhid_tcp_hosts(
            match env_host {
                Some(h) => Some(h@),
                None => None,
            },
            match gateway {
                Some(g) => Some(g@),
                None => None,
            },
        ),
{
    let mut hosts: Vec<String> = Vec::new();
    let ghost env_view: Option<Seq<char>> = match env_host {
        Some(h) => Some(h@),
        None => None,
    };
    if let Some(h) = env_host {
        let v = chars_of(h);
        let (a, b) = trim_bounds(&v);
        if a < b {
            let mut t: Vec<char> = Vec::new();
            push_range(&mut t, &v, a, b);
            hosts.push(chars_to_string(&t));
        }
    }
    hosts.push("127.0.0.1".to_string());
    let ghost with_local = views_str(hosts@);
    assert(with_local =~= (match env_view {
        Some(hv) => if trim(hv).len() > 0 {
            seq![trim(hv)]
        } else {
            seq![]
        },
        None => seq![],
    }).push("127.0.0.1"@));
    if let Some(g) = gateway {
        let mut present = false;
        let mut i: usize = 0;
        while i < hosts.len()
            invariant
                i <= hosts@.len(),
                present == (exists|j: int| 0 <= j < i && #[trigger] hosts@[j]@ == g@),
            decreases hosts.len() - i,
        {
            let same = hosts[i] == g;
            if same {
                present = true;
            }
            i += 1;
        }
        proof {
            if present {
                let j = choose|j: int| 0 <= j < hosts@.len() && #[trigger] hosts@[j]@ == g@;
                assert(views_str(hosts@)[j] == g@);
                assert(views_str(hosts@).contains(g@));
            } else {
                assert forall|j: int| 0 <= j < views_str(hosts@).len() implies views_str(hosts@)[j] != g@ by {
                    assert(views_str(hosts@)[j] == hosts@[j]@);
                }
            }
        }
        if !present {
            let ghost before = hosts@;
            hosts.push(g);
            assert(views_str(hosts@) =~= views_str(before).push(g@));
        }
    }
    hosts
}

/// The views of a list of strings.
pub open spec fn views_str(v: Seq<String>) -> Seq<Seq<char>> {
    v.map_values(|s: String| s@)
}

/// WSL's `/proc/version` mentions Microsoft (any case).
pub fn likely_wsl_from(proc_version: &str) -> (r: bool)
    ensures
        r == contains_sub(ascii_lower(proc_version@), "microsoft"@),
{
    let v = chars_of(proc_version);
    let lower = ascii_lower_range(&v, 0, v.len());
    assert(v@.subrange(0, v@.len() as int) =~= v@);
    contains_lit(&lower, "microsoft")
}

/// The companion's output-frame stream after one read: takes whole frames from
/// the front of `rx` until none is complete (or a bad header byte is dropped).
pub open spec fn spec_drain(rx: Seq<u8>) -> (Seq<Seq<u8>>, Seq<u8>)
    decreases rx.len(),
{
    let (f, rest) = spec_take_output(rx);
    match f {
        Some(frame) => if rest.len() < rx.len() {
            let (more, left) = spec_drain(rest);
            (seq![frame] + more, left)
        } else {
            (seq![frame], rest)
        },
        None => (seq![], rest),
    }
}

/// Takes every complete output frame from the front of `rx`, in order.
pub fn drain_output_frames(rx: &mut Vec<u8>) -> (r: Vec<Vec<u8>>)
    ensures
        (r@.map_values(|v: Vec<u8>| v@), final(rx)@) == spec_drain(old(rx)@),
{
    let mut out: Vec<Vec<u8>> = Vec::new();
    loop
        invariant
            ({
                let (all, left) = spec_drain(old(rx)@);
                let (more, l2) = spec_drain(rx@);
                all == out@.map_values(|v: Vec<u8>| v@) + more && left == l2
            }),
        decreases rx@.len(),
    {
        let ghost before = rx@;
        match take_output_frame(rx) {
            Some(frame) => {
                assert(rx@.len() < before.len());
                let ghost prev = out@;
                out.push(frame);
                assert(out@.map_values(|v: Vec<u8>| v@) =~= prev.map_values(|v: Vec<u8>| v@).push(frame@));
            },
            None => {
                assert(out@.map_values(|v: Vec<u8>| v@) + seq![] =~= out@.map_values(|v: Vec<u8>| v@));
                return out;
            },
        }
    }
}

} // verus!
