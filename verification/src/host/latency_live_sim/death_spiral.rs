//! Two-peer fan-out fate arithmetic: counting a trickle skip as a shed pinned the
//! governor's drop share at 50% with one slow peer.
use vstd::prelude::*;
use crate::host::webrtc_peer::{count_shed, governor_shed_counts, PushFate};

verus! {

/// Number of fates in `f` that are not deliveries.
pub open spec fn count_undelivered(f: Seq<PushFate>) -> nat
    decreases f.len(),
{
    if f.len() == 0 {
        0
    } else {
        count_undelivered(f.drop_last()) + if f.last() != PushFate::Delivered { 1nat } else { 0nat }
    }
}

/// The old count: every non-delivery, trickle skips included, was a shed.
pub fn legacy_shed_count(fates: &[PushFate]) -> (r: u64)
    ensures
        r == count_undelivered(fates@),
{
    let mut n: u64 = 0;
    let mut i: usize = 0;
    while i < fates.len()
        invariant
            i <= fates@.len(),
            n == count_undelivered(fates@.take(i as int)),
            n <= i,
        decreases fates.len() - i,
    {
        assert(fates@.take(i + 1).drop_last() =~= fates@.take(i as int));
        if fates[i] != PushFate::Delivered {
            n = n + 1;
        }
        i += 1;
    }
    assert(fates@.take(fates@.len() as int) =~= fates@);
    n
}

/// The current count: only real congestion sheds.
pub fn current_shed_count(fates: &[PushFate]) -> (r: u64)
    ensures
        r == count_shed(fates@),
{
    governor_shed_counts(fates).1
}

/// One cadence tick with two peers, one healthy and one trickling: the drop share
/// the governor sees under the old count (50) and the current one (0).
pub fn simulate_two_peer_shed_counting(count_trickle_as_shed: bool) -> (r: u32)
    ensures
        r == (if count_trickle_as_shed { 50u32 } else { 0u32 }),
{
    let mut fates: Vec<PushFate> = Vec::new();
    fates.push(PushFate::Delivered);
    fates.push(PushFate::TrickleSkip);
    proof {
        assert(fates@.drop_last() =~= seq![PushFate::Delivered]);
        assert(fates@.drop_last().drop_last() =~= Seq::<PushFate>::empty());
        let one = seq![PushFate::Delivered];
        assert(one.drop_last() =~= Seq::<PushFate>::empty());
        assert(one.len() == 1 && one.last() == PushFate::Delivered);
        assert(count_undelivered(Seq::<PushFate>::empty()) == 0);
        assert(count_shed(Seq::<PushFate>::empty()) == 0);
        assert(count_undelivered(one) == count_undelivered(one.drop_last()));
        assert(count_shed(one) == count_shed(one.drop_last()));
        assert(count_undelivered(seq![PushFate::Delivered]) == 0);
        assert(count_shed(seq![PushFate::Delivered]) == 0);
        assert(count_undelivered(fates@) == 1);
        assert(count_shed(fates@) == 0);
    }
    let shed = if count_trickle_as_shed {
        legacy_shed_count(fates.as_slice())
    } else {
        current_shed_count(fates.as_slice())
    };
    (shed as u32) * 100 / 2
}

/// Governor drop share (whole percent) of a window of per-peer fates.
pub fn simulate_governor_drop_pct(fates: &[PushFate]) -> (r: u32)
    requires
        fates@.len() <= u32::MAX / 100,
    ensures
        r == (if fates@.len() == 0 { 0 } else { (count_shed(fates@) * 100) as int / (fates@.len() as int) }),
{
    let (_, shed) = governor_shed_counts(fates);
    proof {
        lemma_count_shed_le(fates@);
    }
    let sent = fates.len() as u32;
    if sent == 0 {
        return 0;
    }
    (shed as u32) * 100 / sent
}

proof fn lemma_count_shed_le(f: Seq<PushFate>)
    ensures
        count_shed(f) <= f.len(),
    decreases f.len(),
{
    if f.len() > 0 {
        lemma_count_shed_le(f.drop_last());
    }
}

} // verus!
