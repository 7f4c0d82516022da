//! Decisions of the host's session loop: which pipeline stage dominates a window,
//! how a burst of rejoins is coalesced, and whether the Windows capture bridge is on.
use vstd::prelude::*;
use crate::proto::text::str_eq;

verus! {

/// The label of a pipeline stage name for the debug panel.
pub open spec fn stage_label(name: Seq<char>) -> Seq<char> {
    if name == "capture"@ {
        "capture (Windows→WSL handoff)"@
    } else if name == "scale"@ {
        "scale (BGRA resize)"@
    } else if name == "encode"@ {
        "encode (H.264)"@
    } else if name == "push"@ {
        "push (network send)"@
    } else {
        "unknown"@
    }
}

/// Index of the stage with the longest time among `stages[..n]`, the last one on a
/// tie.
pub open spec fn argmax_last(stages: Seq<(&str, u128)>, n: int) -> int
    decreases n,
{
    if n <= 1 {
        0
    } else {
        let best = argmax_last(stages, n - 1);
        if stages[n - 1].1 >= stages[best].1 {
            n - 1
        } else {
            best
        }
    }
}

fn stage_label_exec(name: &str) -> (r: &'static str)
    ensures
        r@ == stage_label(name@),
{
    if str_eq(name, "capture") {
        "capture (Windows→WSL handoff)"
    } else if str_eq(name, "scale") {
        "scale (BGRA resize)"
    } else if str_eq(name, "encode") {
        "encode (H.264)"
    } else if str_eq(name, "push") {
        "push (network send)"
    } else {
        "unknown"
    }
}

/// The label of the stage that took longest in a window (per-frame times in
/// nanoseconds; the last of equal maxima wins), or `none` for no stages.
pub fn dominant_stage(stages: &[(&str, u128)]) -> (r: &'static str)
    ensures
        stages@.len() == 0 ==> r@ == "none"@,
        stages@.len() > 0 ==> r@ == stage_label(stages@[argmax_last(stages@, stages@.len() as int)].0@),
{
    if stages.len() == 0 {
        return "none";
    }
    let mut best: usize = 0;
    let mut i: usize = 1;
    while i < stages.len()
        invariant
            1 <= i <= stages@.len(),
            best == argmax_last(stages@, i as int),
            best < i,
        decreases stages.len() - i,
    {
        if stages[i].1 >= stages[best].1 {
            best = i;
        }
        i += 1;
    }
    stage_label_exec(stages[best].0)
}

/// A message taken off the signaling queue while coalescing a rejoin burst.
pub enum QueuedMsg<T> {
    PeerJoined { slot: u8, epoch: u64 },
    Other(T),
}

/// Whether `slot` joins among the first `n` queued messages (or is the first join).
pub open spec fn slot_joins<T>(first: (u8, u64), queue: Seq<QueuedMsg<T>>, slot: u8, n: int) -> bool
    decreases n,
{
    if n <= 0 {
        first.0 == slot
    } else {
        slot_joins(first, queue, slot, n - 1) || (queue[n - 1] matches QueuedMsg::PeerJoined { slot: s, .. }
            && s == slot)
    }
}

/// The newest epoch `slot` joined with among the first `n` queued messages: a later
/// join replaces the kept one only with a strictly newer epoch.
pub open spec fn newest_epoch<T>(first: (u8, u64), queue: Seq<QueuedMsg<T>>, slot: u8, n: int) -> u64
    decreases n,
{
    if n <= 0 {
        if first.0 == slot {
            first.1
        } else {
            0
        }
    } else {
        let prev = newest_epoch(first, queue, slot, n - 1);
        match queue[n - 1] {
            QueuedMsg::PeerJoined { slot: s, epoch: e } => if s == slot && (!slot_joins(
                first,
                queue,
                slot,
                n - 1,
            ) || e > prev) {
                e
            } else {
                prev
            },
            QueuedMsg::Other(_) => prev,
        }
    }
}

/// The messages that are not joins among the first `n`, in order.
pub open spec fn deferred_of<T>(queue: Seq<QueuedMsg<T>>, n: int) -> Seq<T>
    decreases n,
{
    if n <= 0 {
        seq![]
    } else {
        match queue[n - 1] {
            QueuedMsg::PeerJoined { .. } => deferred_of(queue, n - 1),
            QueuedMsg::Other(m) => deferred_of(queue, n - 1).push(m),
        }
    }
}

/// The coalesced joins: one `(slot, epoch)` per slot that joined, with its newest
/// epoch, slots `0..bound` in ascending order.
pub open spec fn coalesced_joins<T>(first: (u8, u64), queue: Seq<QueuedMsg<T>>, bound: int) -> Seq<(u8, u64)>
    decreases bound,
{
    if bound <= 0 {
        seq![]
    } else {
        let before = coalesced_joins(first, queue, bound - 1);
        let s = (bound - 1) as u8;
        if slot_joins(first, queue, s, queue.len() as int) {
            before.push((s, newest_epoch(first, queue, s, queue.len() as int)))
        } else {
            before
        }
    }
}

/// Coalesces a rejoin burst: the join that started it (`slot`, `epoch`) and every
/// message queued behind it. Each slot is rebuilt once, for its newest epoch, in
/// ascending slot order; every other message is kept, in order, for a replay after
/// the rebuilds.
pub fn take_queued_joins<T>(queue: Vec<QueuedMsg<T>>, slot: u8, epoch: u64) -> (r: (Vec<(u8, u64)>, Vec<T>))
    ensures
        r.0@ == coalesced_joins((slot, epoch), queue@, 256),
        r.1@ == deferred_of(queue@, queue@.len() as int),
{
    let ghost q = queue@;
    let total: usize = queue.len();
    let mut joined: Vec<bool> = Vec::new();
    let mut newest: Vec<u64> = Vec::new();
    let mut s: usize = 0;
    while s < 256
        invariant
            s <= 256,
            joined@.len() == s,
            newest@.len() == s,
            forall|k: int| 0 <= k < s ==> #[trigger] joined@[k] == slot_joins((slot, epoch), q, k as u8, 0),
            forall|k: int| 0 <= k < s ==> #[trigger] newest@[k] == newest_epoch((slot, epoch), q, k as u8, 0),
        decreases 256 - s,
    {
        joined.push(s == slot as usize);
        newest.push(if s == slot as usize { epoch } else { 0 });
        s += 1;
    }
    let mut deferred: Vec<T> = Vec::new();
    let mut i: usize = 0;
    let mut rest = queue;
    while rest.len() > 0
        invariant
            i + rest@.len() == q.len(),
            total == q.len(),
            rest@ == q.subrange(i as int, q.len() as int),
            joined@.len() == 256,
            newest@.len() == 256,
            forall|k: int| 0 <= k < 256 ==> #[trigger] joined@[k] == slot_joins((slot, epoch), q, k as u8, i as int),
            forall|k: int| 0 <= k < 256 ==> #[trigger] newest@[k] == newest_epoch((slot, epoch), q, k as u8, i as int),
            deferred@ == deferred_of(q, i as int),
        decreases rest@.len(),
    {
        let m = rest.remove(0);
        assert(m == q[i as int]);
        assert(rest@ =~= q.subrange(i + 1, q.len() as int));
        match m {
            QueuedMsg::PeerJoined { slot: js, epoch: je } => {
                let k = js as usize;
                if !joined[k] || je > newest[k] {
                    newest.set(k, je);
                }
                joined.set(k, true);
                proof {
                    assert forall|x: int| 0 <= x < 256 implies #[trigger] joined@[x] == slot_joins(
                        (slot, epoch),
                        q,
                        x as u8,
                        i + 1,
                    ) by {
                        assert((x as u8) as int == x);
                    }
                    assert forall|x: int| 0 <= x < 256 implies #[trigger] newest@[x] == newest_epoch(
                        (slot, epoch),
                        q,
                        x as u8,
                        i + 1,
                    ) by {
                        assert((x as u8) as int == x);
                    }
                }
            },
            QueuedMsg::Other(o) => {
                deferred.push(o);
            },
        }
        i += 1;
    }
    let mut joins: Vec<(u8, u64)> = Vec::new();
    let mut s: usize = 0;
    while s < 256
        invariant
            s <= 256,
            i == q.len(),
            joined@.len() == 256,
            newest@.len() == 256,
            forall|k: int| 0 <= k < 256 ==> #[trigger] joined@[k] == slot_joins((slot, epoch), q, k as u8, i as int),
            forall|k: int| 0 <= k < 256 ==> #[trigger] newest@[k] == newest_epoch((slot, epoch), q, k as u8, i as int),
            joins@ == coalesced_joins((slot, epoch), q, s as int),
        decreases 256 - s,
    {
        if joined[s] {
            joins.push((s as u8, newest[s]));
        }
        s += 1;
    }
    (joins, deferred)
}

/// Whether the host reads frames from the Windows capture bridge, and with what
/// address: an explicit setting other than empty, `0` or `false` as given; unset,
/// `auto` under WSL; otherwise off.
pub fn effective_windows_capture(configured: Option<String>, is_wsl: bool) -> (r: Option<String>)
    ensures
        match configured {
            Some(s) => if s@.len() == 0 || s@ == "0"@ || s@ == "false"@ {
                r is None
            } else {
                r is Some && r->0@ == s@
            },
            None => if is_wsl {
                r is Some && r->0@ == "auto"@
            } else {
                r is None
            },
        },
{
    match configured {
        Some(s) => {
            if s.as_str().unicode_len() == 0 || str_eq(s.as_str(), "0") || str_eq(s.as_str(), "false") {
                None
            } else {
                Some(s)
            }
        },
        None => {
            if is_wsl {
                Some(String::from_str("auto"))
            } else {
                None
            }
        },
    }
}

/// Whether a `PeerJoined` for a slot rebuilds its peer: always when the slot is
/// empty, and otherwise only for a player epoch newer than the one already seated.
pub open spec fn spec_join_rebuilds(attached_epoch: Option<u64>, epoch: u64) -> bool {
    match attached_epoch {
        Some(a) => epoch > a,
        None => true,
    }
}

/// Decides a `PeerJoined`: a stale or replayed join leaves the seated player
/// streaming untouched.
pub fn join_rebuilds(attached_epoch: Option<u64>, epoch: u64) -> (r: bool)
    ensures
        r == spec_join_rebuilds(attached_epoch, epoch),
{
    match attached_epoch {
        Some(a) => epoch > a,
        None => true,
    }
}

/// A join that rebuilt a slot, delivered again, is ignored: once the slot holds
/// the epoch it rebuilt with, neither that join nor any older one rebuilds it.
pub proof fn lemma_replayed_join_is_ignored(attached_epoch: Option<u64>, epoch: u64, older: u64)
    requires
        spec_join_rebuilds(attached_epoch, epoch),
        older <= epoch,
    ensures
        !spec_join_rebuilds(Some(epoch), older),
{
}

} // verus!
