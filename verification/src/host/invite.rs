//! The join invite a friend opens: the player page's URL carrying the session, the
//! signaling address and whatever network credentials the friend needs.
use vstd::prelude::*;
use crate::proto::text::trim;

verus! {

/// A TURN relay the player may use.
#[derive(Clone, Copy)]
pub struct TurnInfo<'a> {
    pub url: &'a str,
    pub user: &'a str,
    pub pass: &'a str,
}

/// A Headscale control server and the pre-auth key that joins it.
#[derive(Clone, Copy)]
pub struct HeadscaleInvite<'a> {
    pub server_url: &'a str,
    pub auth_key: &'a str,
}

/// What the `url` crate makes of `base` with `pairs` appended to its query as
/// `application/x-www-form-urlencoded` pairs, serialised; `None` when `base` is not
/// an absolute URL.
pub uninterp spec fn url_with_query_pairs(base: Seq<char>, pairs: Seq<(Seq<char>, Seq<char>)>) -> Option<Seq<char>>;

/// The views of a list of string pairs.
pub open spec fn pair_views(p: Seq<(String, String)>) -> Seq<(Seq<char>, Seq<char>)> {
    p.map_values(|kv: (String, String)| (kv.0@, kv.1@))
}

/// Parses `base` with `url::Url::parse`, appends `pairs` with
/// `form_urlencoded::Serializer::extend_pairs` on its query, and serialises the
/// URL. The contract names that result, and states the one fact callers rely on:
/// the fallback address `http://127.0.0.1:8443/` parses.
#[verifier::external_body]
fn url_with_query(base: &str, pairs: &Vec<(String, String)>) -> (r: Option<String>)
    ensures
        (match r {
            Some(s) => Some(s@),
            None => None,
        }) == url_with_query_pairs(base@, pair_views(pairs@)),
        base@ == "http://127.0.0.1:8443/"@ ==> r is Some,
{
    let mut u = url::Url::parse(base).ok()?;
    u.query_pairs_mut().extend_pairs(pairs.iter().map(|(k, v)| (k.as_str(), v.as_str())));
    Some(u.to_string())
}

/// `s` without its trailing `/` characters.
pub open spec fn strip_trailing_slashes(s: Seq<char>) -> Seq<char>
    decreases s.len(),
{
    if s.len() > 0 && s.last() == '/' {
        strip_trailing_slashes(s.drop_last())
    } else {
        s
    }
}

/// The query pairs of an invite, in order: session, PIN, auto-join, signaling
/// address; the mesh kind when given and not empty; the Headscale server (without
/// trailing slashes) and key when not empty; the WireGuard config when it is not
/// blank; and the TURN relay.
pub open spec fn invite_pairs(
    session_id: Seq<char>,
    pin: Seq<char>,
    signaling_ws: Seq<char>,
    turn: Option<(Seq<char>, Seq<char>, Seq<char>)>,
    mesh: Option<Seq<char>>,
    headscale: Option<(Seq<char>, Seq<char>)>,
    wireguard_conf: Option<Seq<char>>,
) -> Seq<(Seq<char>, Seq<char>)> {
    let p0 = seq![("s"@, session_id), ("p"@, pin), ("auto"@, "1"@), ("ws"@, signaling_ws)];
    let p1 = match mesh {
        Some(m) => if m.len() > 0 {
            p0.push(("mesh"@, m))
        } else {
            p0
        },
        None => p0,
    };
    let p2 = match headscale {
        Some((url, key)) => {
            let a = if url.len() > 0 {
                p1.push(("hs"@, strip_trailing_slashes(url)))
            } else {
                p1
            };
            if key.len() > 0 {
                a.push(("tskey"@, key))
            } else {
                a
            }
        },
        None => p1,
    };
    let p3 = match wireguard_conf {
        Some(c) => if trim(c).len() > 0 {
            p2.push(("wg"@, c))
        } else {
            p2
        },
        None => p2,
    };
    match turn {
        Some((u, user, pass)) => p3 + seq![("turn"@, u), ("turnu"@, user), ("turnp"@, pass)],
        None => p3,
    }
}

/// The address the invite starts from: `public_base` without trailing slashes, the
/// local default when that leaves nothing, and a closing `/`.
pub open spec fn invite_base(public_base: Seq<char>) -> Seq<char> {
    let b = strip_trailing_slashes(public_base);
    (if b.len() == 0 {
        "http://127.0.0.1:8443"@
    } else {
        b
    }) + "/"@
}

fn push_pair(out: &mut Vec<(String, String)>, k: &str, v: &str)
    ensures
        pair_views(final(out)@) == pair_views(old(out)@).push((k@, v@)),
{
    let ghost before = out@;
    out.push((k.to_string(), v.to_string()));
    assert(pair_views(out@) =~= pair_views(before).push((k@, v@)));
}

fn strip_slashes(s: &str) -> (r: String)
    ensures
        r@ == strip_trailing_slashes(s@),
{
    let v = crate::proto::text::chars_of(s);
    let mut n: usize = v.len();
    assert(v@.subrange(0, v@.len() as int) =~= v@);
    while n > 0 && v[n - 1] == '/'
        invariant
            n <= v@.len(),
            strip_trailing_slashes(v@) == strip_trailing_slashes(v@.subrange(0, n as int)),
        decreases n,
    {
        assert(v@.subrange(0, n as int).drop_last() =~= v@.subrange(0, n - 1));
        n -= 1;
    }
    let mut out: Vec<char> = Vec::new();
    crate::proto::text::push_range(&mut out, &v, 0, n);
    assert(v@.subrange(0, 0) =~= Seq::<char>::empty());
    crate::proto::text::chars_to_string(&out)
}

fn is_blank(s: &str) -> (r: bool)
    ensures
        r == (trim(s@).len() == 0),
{
    let v = crate::proto::text::chars_of(s);
    let (a, b) = crate::proto::text::trim_bounds(&v);
    a == b
}

/// The link a friend opens to join: the player page at `public_base` with the
/// invite's query pairs (see [`invite_pairs`]); when `public_base` does not parse as
/// a URL, the local default address carries them instead.
pub fn player_invite_url(
    public_base: &str,
    session_id: &str,
    pin: &str,
    signaling_ws: &str,
    turn: Option<TurnInfo>,
    mesh: Option<&str>,
    headscale: Option<HeadscaleInvite<'_>>,
    wireguard_conf: Option<&str>,
) -> (r: String)
    ensures
        ({
            let pairs = invite_pairs(
                session_id@,
                pin@,
                signaling_ws@,
                match turn {
                    Some(t) => Some((t.url@, t.user@, t.pass@)),
                    None => None,
                },
                match mesh {
                    Some(m) => Some(m@),
                    None => None,
                },
                match headscale {
                    Some(h) => Some((h.server_url@, h.auth_key@)),
                    None => None,
                },
                match wireguard_conf {
                    Some(c) => Some(c@),
                    None => None,
                },
            );
            match url_with_query_pairs(invite_base(public_base@), pairs) {
                Some(u) => r@ == u,
                None => Some(r@) == url_with_query_pairs("http://127.0.0.1:8443/"@, pairs),
            }
        }),
{
    let stripped = strip_slashes(public_base);
    let mut base: Vec<char> = crate::proto::text::chars_of(stripped.as_str());
    if base.len() == 0 {
        crate::proto::text::push_lit(&mut base, "http://127.0.0.1:8443");
    }
    crate::proto::text::push_lit(&mut base, "/");
    let base_s = crate::proto::text::chars_to_string(&base);
    proof {
        reveal_strlit("http://127.0.0.1:8443");
        reveal_strlit("/");
        assert(base_s@ =~= invite_base(public_base@));
    }
    let ghost turn_v = match turn {
        Some(t) => Some((t.url@, t.user@, t.pass@)),
        None => None,
    };
    let ghost mesh_v = match mesh {
        Some(m) => Some(m@),
        None => None,
    };
    let ghost hs_v = match headscale {
        Some(h) => Some((h.server_url@, h.auth_key@)),
        None => None,
    };
    let ghost wg_v = match wireguard_conf {
        Some(c) => Some(c@),
        None => None,
    };
    let ghost p0 = seq![("s"@, session_id@), ("p"@, pin@), ("auto"@, "1"@), ("ws"@, signaling_ws@)];
    let mut pairs: Vec<(String, String)> = Vec::new();
    assert(pair_views(pairs@) =~= Seq::<(Seq<char>, Seq<char>)>::empty());
    push_pair(&mut pairs, "s", session_id);
    push_pair(&mut pairs, "p", pin);
    push_pair(&mut pairs, "auto", "1");
    push_pair(&mut pairs, "ws", signaling_ws);
    assert(pair_views(pairs@) =~= p0);
    let ghost p1 = match mesh_v {
        Some(m) => if m.len() > 0 {
            p0.push(("mesh"@, m))
        } else {
            p0
        },
        None => p0,
    };
    if let Some(m) = mesh {
        if m.unicode_len() > 0 {
            push_pair(&mut pairs, "mesh", m);
        }
    }
    assert(pair_views(pairs@) == p1);
    let ghost p2 = match hs_v {
        Some((url, key)) => {
            let a = if url.len() > 0 {
                p1.push(("hs"@, strip_trailing_slashes(url)))
            } else {
                p1
            };
            if key.len() > 0 {
                a.push(("tskey"@, key))
            } else {
                a
            }
        },
        None => p1,
    };
    if let Some(hs) = headscale {
        if hs.server_url.unicode_len() > 0 {
            let url = strip_slashes(hs.server_url);
            push_pair(&mut pairs, "hs", url.as_str());
        }
        if hs.auth_key.unicode_len() > 0 {
            push_pair(&mut pairs, "tskey", hs.auth_key);
        }
    }
    assert(pair_views(pairs@) == p2);
    let ghost p3 = match wg_v {
        Some(c) => if trim(c).len() > 0 {
            p2.push(("wg"@, c))
        } else {
            p2
        },
        None => p2,
    };
    if let Some(conf) = wireguard_conf {
        if !is_blank(conf) {
            push_pair(&mut pairs, "wg", conf);
        }
    }
    assert(pair_views(pairs@) == p3);
    if let Some(t) = turn {
        push_pair(&mut pairs, "turn", t.url);
        push_pair(&mut pairs, "turnu", t.user);
        push_pair(&mut pairs, "turnp", t.pass);
        assert(pair_views(pairs@) =~= p3 + seq![("turn"@, t.url@), ("turnu"@, t.user@), ("turnp"@, t.pass@)]);
    }
    assert(pair_views(pairs@) == invite_pairs(session_id@, pin@, signaling_ws@, turn_v, mesh_v, hs_v, wg_v));
    match url_with_query(base_s.as_str(), &pairs) {
        Some(u) => u,
        None => {
            let fallback = url_with_query("http://127.0.0.1:8443/", &pairs);
            match fallback {
                Some(u) => u,
                None => String::new(),
            }
        },
    }
}

} // verus!
