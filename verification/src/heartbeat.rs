//! Decisions of the heartbeat loop, which posts to `/heartbeat` every
//! minute while paired. A failed heartbeat is retried at the next interval;
//! one whose error says the server returned 401 means the token was revoked,
//! so the token is forgotten and the next launch asks for pairing again.

use vstd::prelude::*;
use crate::api::{status_error_spec, truncate_allowed, BODY_SNIPPET_BYTES};
use crate::config::{
    law_store_round_trip, read_config, apply_writes, revoked_view, store_writes, store_writes_spec,
    PairingConfig, PairingConfigView, StoreWrite,
};
use crate::text::{occurs_at, seq_contains, str_contains};

verus! {

/// Seconds between two heartbeats.
pub const HEARTBEAT_INTERVAL_SECS: u64 = 60;

/// Text of a heartbeat error that means the token was revoked.
pub const REVOKED_MARKER: &'static str = "returned 401";

/// The error message of a failed heartbeat says the token was revoked.
pub fn is_revocation_error(message: &str) -> (r: bool)
    ensures
        r == seq_contains(message@, REVOKED_MARKER@),
{
    str_contains(message, REVOKED_MARKER)
}

/// Handle a failed heartbeat: on a revocation error the token is forgotten
/// (device id and label stay) and the store writes that persist the revoked
/// configuration are returned, so that the next launch starts unpaired; any
/// other failure leaves the configuration alone until the next attempt.
pub fn handle_heartbeat_failure(cfg: &mut PairingConfig, message: &str) -> (writes: Option<
    Vec<StoreWrite>,
>)
    ensures
        seq_contains(message@, REVOKED_MARKER@) ==> final(cfg)@ == revoked_view(old(cfg)@),
        seq_contains(message@, REVOKED_MARKER@) ==> (writes matches Some(w) && w@.map_values(
            |x: StoreWrite| x@,
        ) == store_writes_spec(final(cfg)@)),
        !seq_contains(message@, REVOKED_MARKER@) ==> final(cfg)@ == old(cfg)@ && writes is None,
{
    if is_revocation_error(message) {
        cfg.revoke_token();
        Some(store_writes(cfg))
    } else {
        None
    }
}

/// An iteration outcome (`None` for success, else the error message) that
/// revokes the token.
pub open spec fn is_revocation(outcome: Option<Seq<char>>) -> bool {
    match outcome {
        Some(m) => seq_contains(m, REVOKED_MARKER@),
        None => false,
    }
}

/// The view of an optional message.
pub open spec fn outcome_view(outcome: Option<&str>) -> Option<Seq<char>> {
    match outcome {
        Some(m) => Some(m@),
        None => None,
    }
}

/// The configuration after one iteration of the heartbeat loop: unpaired,
/// nothing is sent and nothing changes; paired, one heartbeat is sent, and
/// its outcome (`None` for success, else the error message) revokes the
/// token only when the message says so.
pub open spec fn heartbeat_iteration(c: PairingConfigView, outcome: Option<Seq<char>>) -> PairingConfigView {
    if c.token is None {
        c
    } else {
        if is_revocation(outcome) {
            revoked_view(c)
        } else {
            c
        }
    }
}

/// Whether an iteration starting from `c` sends a heartbeat.
pub open spec fn sends_heartbeat(c: PairingConfigView) -> bool {
    c.token is Some
}

/// The configuration after a run of iterations with the given outcomes.
pub open spec fn after_iterations(c: PairingConfigView, outcomes: Seq<Option<Seq<char>>>) -> PairingConfigView
    decreases outcomes.len(),
{
    if outcomes.len() == 0 {
        c
    } else {
        heartbeat_iteration(after_iterations(c, outcomes.drop_last()), outcomes.last())
    }
}

/// The tokens of the heartbeats sent over a run of iterations with the
/// given outcomes, one per iteration that starts paired, in order.
pub open spec fn requests_sent(c: PairingConfigView, outcomes: Seq<Option<Seq<char>>>) -> Seq<Seq<char>>
    decreases outcomes.len(),
{
    if outcomes.len() == 0 {
        Seq::empty()
    } else {
        let before = requests_sent(c, outcomes.drop_last());
        match after_iterations(c, outcomes.drop_last()).token {
            Some(t) => before.push(t),
            None => before,
        }
    }
}

/// One iteration of the heartbeat loop once the request (if any) is done:
/// `outcome` is `None` after a success and the error message after a
/// failure. Returns the store writes to persist when the token was revoked.
pub fn heartbeat_step(cfg: &mut PairingConfig, outcome: Option<&str>) -> (writes: Option<
    Vec<StoreWrite>,
>)
    ensures
        final(cfg)@ == heartbeat_iteration(old(cfg)@, outcome_view(outcome)),
        writes matches Some(w) ==> w@.map_values(|x: StoreWrite| x@) == store_writes_spec(
            final(cfg)@,
        ) && final(cfg)@.token is None,
        (writes is Some) <==> (old(cfg)@.token is Some && is_revocation(outcome_view(outcome))),
        outcome matches Some(m) && !seq_contains(m@, "returned 401"@) ==> (final(cfg)@ == old(cfg)@
            && writes is None),
        outcome matches Some(m) && seq_contains(m@, "returned 401"@) && old(cfg)@.token is Some
            ==> (final(cfg)@ == revoked_view(old(cfg)@) && writes is Some),
        outcome is None ==> (final(cfg)@ == old(cfg)@ && writes is None),
{
    if cfg.token.is_none() {
        return None;
    }
    match outcome {
        Some(m) => handle_heartbeat_failure(cfg, m),
        None => None,
    }
}

/// The persisted revocation: a store that receives the writes of a revoked
/// configuration reads back no token, so the next launch starts unpaired,
/// with the device id and label kept.
pub proof fn law_revocation_persists(store: Map<Seq<char>, Seq<char>>, c: PairingConfigView)
    ensures
        read_config(apply_writes(store, store_writes_spec(revoked_view(c)))) == revoked_view(c),
        read_config(apply_writes(store, store_writes_spec(revoked_view(c)))).token is None,
{
    law_store_round_trip(store, revoked_view(c));
}

/// Heartbeat failures that do not say "returned 401" never change the
/// configuration, however many there are: the loop just retries.
pub proof fn law_other_failures_retry(c: PairingConfigView, outcomes: Seq<Option<Seq<char>>>)
    requires
        forall|k: int| 0 <= k < outcomes.len() ==> !is_revocation(#[trigger] outcomes[k]),
    ensures
        after_iterations(c, outcomes) == c,
    decreases outcomes.len(),
{
    if outcomes.len() > 0 {
        assert forall|k: int| 0 <= k < outcomes.drop_last().len() implies !is_revocation(
            #[trigger] outcomes.drop_last()[k],
        ) by {
            assert(outcomes.drop_last()[k] == outcomes[k]);
        }
        law_other_failures_retry(c, outcomes.drop_last());
        assert(outcomes.last() == outcomes[outcomes.len() - 1]);
    }
}

/// Once the token is gone no heartbeat is sent again, whatever happens next;
/// in particular a revocation is final for the running app.
pub proof fn law_unpaired_stays_silent(c: PairingConfigView, outcomes: Seq<Option<Seq<char>>>)
    requires
        c.token is None,
    ensures
        after_iterations(c, outcomes) == c,
        !sends_heartbeat(after_iterations(c, outcomes)),
        requests_sent(c, outcomes).len() == 0,
    decreases outcomes.len(),
{
    if outcomes.len() > 0 {
        law_unpaired_stays_silent(c, outcomes.drop_last());
    }
}

/// While paired, the loop sends exactly one heartbeat per iteration, each
/// with the stored token, for as long as no failure says "returned 401"; the
/// configuration is then unchanged.
pub proof fn law_one_heartbeat_per_interval(c: PairingConfigView, outcomes: Seq<Option<Seq<char>>>)
    requires
        c.token is Some,
        forall|k: int| 0 <= k < outcomes.len() ==> !is_revocation(#[trigger] outcomes[k]),
    ensures
        after_iterations(c, outcomes) == c,
        requests_sent(c, outcomes) == Seq::new(outcomes.len(), |k: int| c.token->Some_0),
    decreases outcomes.len(),
{
    law_other_failures_retry(c, outcomes);
    if outcomes.len() > 0 {
        let pre = outcomes.drop_last();
        assert forall|k: int| 0 <= k < pre.len() implies !is_revocation(#[trigger] pre[k]) by {
            assert(pre[k] == outcomes[k]);
        }
        law_one_heartbeat_per_interval(c, pre);
        law_other_failures_retry(c, pre);
        assert(requests_sent(c, outcomes) =~= Seq::new(outcomes.len(), |k: int| c.token->Some_0));
    }
}

/// A failure that says "returned 401" ends the heartbeats: a run that starts
/// paired and meets its first revocation at iteration `k` sends exactly
/// `k + 1` heartbeats, and ends with the token forgotten and the rest of
/// the configuration kept.
pub proof fn law_revocation_ends_heartbeats(c: PairingConfigView, outcomes: Seq<Option<Seq<char>>>, k: int)
    requires
        c.token is Some,
        0 <= k < outcomes.len(),
        is_revocation(outcomes[k]),
        forall|j: int| 0 <= j < k ==> !is_revocation(#[trigger] outcomes[j]),
    ensures
        after_iterations(c, outcomes) == revoked_view(c),
        requests_sent(c, outcomes).len() == k + 1,
    decreases outcomes.len(),
{
    if outcomes.len() == k + 1 {
        let pre = outcomes.drop_last();
        assert forall|j: int| 0 <= j < pre.len() implies !is_revocation(#[trigger] pre[j]) by {
            assert(pre[j] == outcomes[j]);
        }
        law_one_heartbeat_per_interval(c, pre);
        assert(outcomes.last() == outcomes[k]);
    } else {
        let pre = outcomes.drop_last();
        assert forall|j: int| 0 <= j < k implies !is_revocation(#[trigger] pre[j]) by {
            assert(pre[j] == outcomes[j]);
        }
        assert(pre[k] == outcomes[k]);
        law_revocation_ends_heartbeats(c, pre, k);
    }
}

/// A heartbeat answered with a status whose text starts with `401` yields an
/// error message that revokes the token.
pub proof fn law_status_401_revokes(status: Seq<char>, body: Seq<char>)
    requires
        status.len() >= 3,
        status[0] == '4',
        status[1] == '0',
        status[2] == '1',
    ensures
        seq_contains(status_error_spec("heartbeat"@, status, body), REVOKED_MARKER@),
{
    reveal_strlit("heartbeat");
    reveal_strlit("/");
    reveal_strlit(" returned ");
    reveal_strlit(": ");
    reveal_strlit("returned 401");
    let msg = status_error_spec("heartbeat"@, status, body);
    let head = "/"@ + "heartbeat"@ + " returned "@ + status;
    assert(msg == head + ": "@ + crate::api::truncate_spec(body, BODY_SNIPPET_BYTES as int));
    assert(head.len() >= 23);
    assert(msg.subrange(11, 23) =~= head.subrange(11, 23));
    assert(head.subrange(11, 23) =~= REVOKED_MARKER@);
    assert(occurs_at(msg, REVOKED_MARKER@, 11));
}

/// Only a failure whose message says "returned 401" forgets the token: any
/// other message (a 429, a 5xx, a network error) leaves a paired
/// configuration as it was, to be retried at the next interval, and a
/// message that says it forgets the token and keeps the device id and label.
pub proof fn law_only_401_revokes(c: PairingConfigView, m: Seq<char>)
    requires
        c.token is Some,
    ensures
        !seq_contains(m, "returned 401"@) ==> heartbeat_iteration(c, Some(m)) == c,
        seq_contains(m, "returned 401"@) ==> heartbeat_iteration(c, Some(m)) == (PairingConfigView {
            token: None,
            ..c
        }),
        heartbeat_iteration(c, None) == c,
{
}

} // verus!
