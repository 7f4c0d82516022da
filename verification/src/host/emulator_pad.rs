//! Which helper scripts bind a player's virtual pad into the emulator, and with which
//! backend: the companion first (it presents every slot's pad), then the emulator
//! binding for the player's port. Every controller family uses the XInput backend,
//! the one both PCSX2 and RPCS3 auto-link.
use vstd::prelude::*;

verus! {

/// Pad family used the moment a player sits down, before the browser announces one.
pub const JOIN_PAD_KIND: &'static str = "generic";
/// Remote player slots the host can seat.
pub const MAX_REMOTE_SLOTS: u8 = 3;
/// Script that starts the virtual-pad companion.
pub const ENSURE_COMPANION_SCRIPT: &'static str = "scripts/ensure-ds-vhid.sh";
/// Script that binds a virtual pad into the emulator.
pub const LINK_EMULATOR_SCRIPT: &'static str = "scripts/link-emulator-pad.sh";

/// One helper-script run: the script (relative to the repo root), the virtual-pad
/// backend, and the emulator player it binds (none for the companion).
#[derive(Debug, Clone, Copy, PartialEq, Eq)]
pub struct ScriptRun {
    pub script: &'static str,
    pub backend: &'static str,
    pub emulator_player: Option<u8>,
}

/// Virtual-pad backend and emulator handler for a reported controller family:
/// XInput (`xbox360`) whatever the family.
pub fn backend_for(kind: &str) -> (r: &'static str)
    ensures
        r@ == "xbox360"@,
{
    "xbox360"
}

/// The companion run, then the binding of emulator player `player`.
pub open spec fn runs_view(r: Seq<ScriptRun>) -> Seq<(Seq<char>, Seq<char>, Option<u8>)> {
    r.map_values(|s: ScriptRun| (s.script@, s.backend@, s.emulator_player))
}

/// Reconcile the virtual pad and the emulator binding for remote `slot` (1-based):
/// the companion, then emulator player `slot + 1` (the host's own pad is player 1).
pub fn apply(kind: &str, id: &str, slot: u8) -> (r: Vec<ScriptRun>)
    requires
        slot < 255,
    ensures
        runs_view(r@) == seq![
            (ENSURE_COMPANION_SCRIPT@, "xbox360"@, None::<u8>),
            (LINK_EMULATOR_SCRIPT@, "xbox360"@, Some((slot + 1) as u8)),
        ],
{
    let backend = backend_for(kind);
    let mut runs: Vec<ScriptRun> = Vec::new();
    runs.push(ScriptRun { script: ENSURE_COMPANION_SCRIPT, backend, emulator_player: None });
    runs.push(ScriptRun { script: LINK_EMULATOR_SCRIPT, backend, emulator_player: Some(slot + 1) });
    assert(runs_view(runs@) =~= seq![
        (ENSURE_COMPANION_SCRIPT@, "xbox360"@, None::<u8>),
        (LINK_EMULATOR_SCRIPT@, "xbox360"@, Some((slot + 1) as u8)),
    ]);
    runs
}

/// Bind a slot as soon as its player joins, with the join-time pad family.
pub fn apply_on_join(slot: u8) -> (r: Vec<ScriptRun>)
    requires
        slot < 255,
    ensures
        runs_view(r@) == seq![
            (ENSURE_COMPANION_SCRIPT@, "xbox360"@, None::<u8>),
            (LINK_EMULATOR_SCRIPT@, "xbox360"@, Some((slot + 1) as u8)),
        ],
{
    apply(JOIN_PAD_KIND, "join", slot)
}

/// Every remote slot's binding written once, before anyone connects: the companion,
/// then emulator players 2 to `MAX_REMOTE_SLOTS + 1`.
pub fn prebind_all() -> (r: Vec<ScriptRun>)
    ensures
        r@.len() == 1 + MAX_REMOTE_SLOTS,
        runs_view(r@)[0] == (ENSURE_COMPANION_SCRIPT@, "xbox360"@, None::<u8>),
        forall|k: int|
            1 <= k <= MAX_REMOTE_SLOTS ==> #[trigger] runs_view(r@)[k] == (
                LINK_EMULATOR_SCRIPT@,
                "xbox360"@,
                Some((k + 1) as u8),
            ),
{
    let backend = backend_for(JOIN_PAD_KIND);
    let mut runs: Vec<ScriptRun> = Vec::new();
    runs.push(ScriptRun { script: ENSURE_COMPANION_SCRIPT, backend, emulator_player: None });
    let mut slot: u8 = 1;
    while slot <= MAX_REMOTE_SLOTS
        invariant
            1 <= slot <= MAX_REMOTE_SLOTS + 1,
            backend@ == "xbox360"@,
            runs@.len() == slot,
            runs_view(runs@)[0] == (ENSURE_COMPANION_SCRIPT@, "xbox360"@, None::<u8>),
            forall|k: int|
                1 <= k < slot ==> #[trigger] runs_view(runs@)[k] == (
                    LINK_EMULATOR_SCRIPT@,
                    "xbox360"@,
                    Some((k + 1) as u8),
                ),
        decreases MAX_REMOTE_SLOTS + 1 - slot,
    {
        let ghost before = runs@;
        runs.push(ScriptRun { script: LINK_EMULATOR_SCRIPT, backend, emulator_player: Some(slot + 1) });
        assert(runs_view(runs@) =~= runs_view(before).push((LINK_EMULATOR_SCRIPT@, backend@, Some((slot + 1) as u8))));
        slot += 1;
    }
    runs
}

} // verus!
