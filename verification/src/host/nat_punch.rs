//! The WireGuard invite's `Endpoint` line: reading the port it names and putting a
//! freshly discovered public endpoint in its place.
//!
//! Only the `[Peer]` section's `Endpoint` line counts; a line that merely mentions the
//! word elsewhere (or in a comment) is left alone.
use vstd::prelude::*;
use crate::proto::text::{
    ascii_lower, ascii_lower_range, chars_of, chars_to_string, eq_lit, find_from, first_from, has_prefix,
    lemma_first_from_range, lit_at,
    parse_unsigned, push_lit, push_range, spec_parse_unsigned, str_lines_from, str_lines_of,
    trim, trim_bounds, views,
};

verus! {

/// Index of the last `c` in `s[..i]`, or -1.
pub open spec fn last_before(s: Seq<char>, c: char, i: int) -> int
    decreases i,
{
    if i <= 0 || i > s.len() {
        -1
    } else if s[i - 1] == c {
        i - 1
    } else {
        last_before(s, c, i - 1)
    }
}

/// The line opens the `[Peer]` section (any ASCII case).
pub open spec fn is_peer_header(t: Seq<char>) -> bool {
    ascii_lower(t) == "[peer]"@
}

/// Whether the scan is inside `[Peer]` after a line whose trimmed text is `t`.
pub open spec fn peer_after(t: Seq<char>, in_peer: bool) -> bool {
    if is_peer_header(t) {
        true
    } else if t.len() > 0 && t[0] == '[' {
        false
    } else {
        in_peer
    }
}

/// The port of a trimmed `Endpoint` line: what follows the last `:` of the value
/// after the first `=`, as a `u16`.
pub open spec fn endpoint_line_port(t: Seq<char>) -> Option<int> {
    let eq = first_from(t, '=', 0);
    if eq < 0 {
        None
    } else {
        let rest = trim(t.subrange(eq + 1, t.len() as int));
        let colon = last_before(rest, ':', rest.len() as int);
        spec_parse_unsigned(rest.subrange(colon + 1, rest.len() as int), 65535)
    }
}

/// The port named by the first `Endpoint` line under `[Peer]` among `lines[i..]`.
pub open spec fn port_from_lines(lines: Seq<Seq<char>>, i: int, in_peer: bool) -> Option<int>
    decreases lines.len() - i,
{
    if i < 0 || i >= lines.len() {
        None
    } else {
        let t = trim(lines[i]);
        let inp = peer_after(t, in_peer);
        if inp && has_prefix(t, "Endpoint"@) {
            endpoint_line_port(t)
        } else {
            port_from_lines(lines, i + 1, inp)
        }
    }
}

/// The config with every `Endpoint = ...` line under `[Peer]` among `lines[i..]`
/// replaced by `literal`, each line ended by a newline; and whether one was.
pub open spec fn rewrite_lines(lines: Seq<Seq<char>>, i: int, in_peer: bool, literal: Seq<char>) -> (Seq<char>, bool)
    decreases lines.len() - i,
{
    if i < 0 || i >= lines.len() {
        (seq![], false)
    } else {
        let t = trim(lines[i]);
        let inp = peer_after(t, in_peer);
        let rest = rewrite_lines(lines, i + 1, inp, literal);
        if inp && has_prefix(t, "Endpoint"@) && first_from(t, '=', 0) >= 0 {
            (literal + seq!['\n'] + rest.0, true)
        } else {
            (lines[i] + seq!['\n'] + rest.0, rest.1)
        }
    }
}

/// The rewritten config, or the config unchanged when it has no such line.
pub open spec fn spec_rewrite_wg_endpoint(conf: Seq<char>, endpoint: Seq<char>) -> Seq<char> {
    let r = rewrite_lines(str_lines_from(conf, 0), 0, false, "Endpoint = "@ + endpoint);
    if r.1 {
        r.0
    } else {
        conf
    }
}

fn find_last(v: &Vec<char>, from: usize, to: usize, c: char) -> (r: Option<usize>)
    requires
        from <= to <= v@.len(),
    ensures
        match r {
            Some(i) => from <= i < to && i - from == last_before(
                v@.subrange(from as int, to as int),
                c,
                (to - from) as int,
            ),
            None => last_before(v@.subrange(from as int, to as int), c, (to - from) as int) == -1,
        },
{
    let ghost s = v@.subrange(from as int, to as int);
    let mut i: usize = to;
    while i > from
        invariant
            from <= i <= to,
            to <= v@.len(),
            s == v@.subrange(from as int, to as int),
            last_before(s, c, (to - from) as int) == last_before(s, c, (i - from) as int),
        decreases i,
    {
        if v[i - 1] == c {
            return Some(i - 1);
        }
        i -= 1;
    }
    None
}

proof fn lemma_last_before_range(s: Seq<char>, c: char, i: int)
    requires
        0 <= i <= s.len(),
    ensures
        -1 <= last_before(s, c, i) < i,
    decreases i,
{
    if i > 0 && s[i - 1] != c {
        lemma_last_before_range(s, c, i - 1);
    }
}

/// The trimmed form of `line`.
fn trimmed(line: &Vec<char>) -> (t: Vec<char>)
    ensures
        t@ == trim(line@),
{
    let (a, b) = trim_bounds(line);
    let mut t: Vec<char> = Vec::new();
    push_range(&mut t, line, a, b);
    assert(t@ =~= trim(line@));
    t
}

fn peer_after_exec(t: &Vec<char>, in_peer: bool) -> (r: bool)
    ensures
        r == peer_after(t@, in_peer),
{
    let lower = ascii_lower_range(t, 0, t.len());
    assert(t@.subrange(0, t@.len() as int) =~= t@);
    if eq_lit(&lower, "[peer]") {
        true
    } else if t.len() > 0 && t[0] == '[' {
        false
    } else {
        in_peer
    }
}

fn endpoint_line_port_exec(t: &Vec<char>) -> (r: Option<u16>)
    ensures
        match r {
            Some(p) => endpoint_line_port(t@) == Some(p as int),
            None => endpoint_line_port(t@) is None,
        },
{
    let n = t.len();
    let eq = match find_from(t, 0, '=') {
        None => {
            return None;
        },
        Some(i) => i,
    };
    proof {
        lemma_first_from_range(t@, '=', 0);
        assert(eq < n);
    }
    let mut after: Vec<char> = Vec::new();
    push_range(&mut after, t, eq + 1, n);
    let rest = trimmed(&after);
    let colon = find_last(&rest, 0, rest.len(), ':');
    assert(rest@.subrange(0, rest@.len() as int) =~= rest@);
    let start: usize = match colon {
        Some(i) => i + 1,
        None => 0,
    };
    proof {
        lemma_last_before_range(rest@, ':', rest@.len() as int);
    }
    match parse_unsigned(&rest, start, rest.len(), 65535) {
        Some(p) => Some(p as u16),
        None => None,
    }
}

/// The port of the `Endpoint = host:port` line in the `[Peer]` section (`host` may be
/// a bracketed IPv6 address), or `None` when that line is missing or its port does
/// not parse.
pub fn endpoint_port_from_conf(conf: &str) -> (r: Option<u16>)
    ensures
        match r {
            Some(p) => port_from_lines(str_lines_from(conf@, 0), 0, false) == Some(p as int),
            None => port_from_lines(str_lines_from(conf@, 0), 0, false) is None,
        },
{
    let v = chars_of(conf);
    let lines = str_lines_of(&v);
    let ghost ls = views(lines@);
    let mut in_peer = false;
    let mut i: usize = 0;
    while i < lines.len()
        invariant
            i <= lines@.len(),
            ls == views(lines@),
            ls == str_lines_from(conf@, 0),
            port_from_lines(ls, 0, false) == port_from_lines(ls, i as int, in_peer),
        decreases lines.len() - i,
    {
        let t = trimmed(&lines[i]);
        assert(ls[i as int] == lines@[i as int]@);
        in_peer = peer_after_exec(&t, in_peer);
        if in_peer && lit_at(&t, 0, "Endpoint") {
            assert(t@.subrange(0, "Endpoint"@.len() as int) == "Endpoint"@ ==> has_prefix(t@, "Endpoint"@));
            return endpoint_line_port_exec(&t);
        }
        i += 1;
    }
    None
}

/// The config with the `[Peer]` section's `Endpoint` line replaced by
/// `Endpoint = <endpoint>` (`endpoint` written as `host:port`, an IPv6 host in
/// brackets). Every line of the result ends with a newline; a config without such a
/// line comes back unchanged.
pub fn rewrite_wg_endpoint(conf: &str, endpoint: &str) -> (r: String)
    ensures
        r@ == spec_rewrite_wg_endpoint(conf@, endpoint@),
{
    let mut literal: Vec<char> = Vec::new();
    push_lit(&mut literal, "Endpoint = ");
    push_lit(&mut literal, endpoint);
    let v = chars_of(conf);
    let lines = str_lines_of(&v);
    let ghost ls = views(lines@);
    let ghost lit = literal@;
    let mut in_peer = false;
    let mut replaced = false;
    let mut out: Vec<char> = Vec::new();
    let mut i: usize = 0;
    while i < lines.len()
        invariant
            i <= lines@.len(),
            ls == views(lines@),
            ls == str_lines_from(conf@, 0),
            lit == literal@,
            lit == "Endpoint = "@ + endpoint@,
            ({
                let whole = rewrite_lines(ls, 0, false, lit);
                let rest = rewrite_lines(ls, i as int, in_peer, lit);
                whole.0 == out@ + rest.0 && whole.1 == (replaced || rest.1)
            }),
        decreases lines.len() - i,
    {
        let t = trimmed(&lines[i]);
        assert(ls[i as int] == lines@[i as int]@);
        in_peer = peer_after_exec(&t, in_peer);
        let has_eq = match find_from(&t, 0, '=') {
            Some(_) => true,
            None => false,
        };
        proof {
            lemma_first_from_range(t@, '=', 0);
        }
        let ghost prev = out@;
        if in_peer && lit_at(&t, 0, "Endpoint") && has_eq {
            push_range(&mut out, &literal, 0, literal.len());
            assert(literal@.subrange(0, literal@.len() as int) =~= literal@);
            out.push('\n');
            replaced = true;
            assert(out@ =~= prev + (lit + seq!['\n']));
        } else {
            let line = &lines[i];
            push_range(&mut out, line, 0, line.len());
            assert(line@.subrange(0, line@.len() as int) =~= line@);
            out.push('\n');
            assert(out@ =~= prev + (ls[i as int] + seq!['\n']));
        }
        i += 1;
    }
    assert(out@ + seq![] =~= out@);
    if !replaced {
        return conf.to_string();
    }
    chars_to_string(&out)
}

/// Splices a discovered public endpoint into `conf`; with no discovery result, no
/// config (the caller keeps the one it has).
pub fn discover_and_rewrite(conf: &str, discovered: Option<&str>) -> (r: Option<String>)
    ensures
        match discovered {
            Some(e) => r is Some && r->0@ == spec_rewrite_wg_endpoint(conf@, e@),
            None => r is None,
        },
{
    match discovered {
        Some(e) => Some(rewrite_wg_endpoint(conf, e)),
        None => None,
    }
}

} // verus!
