//! Watching the fleet: eviction of idle warm models and retry of failed
//! ones after an exponential backoff.
use vstd::prelude::*;

use crate::external::{sat_sub, saturating_diff};
use crate::fleet::state::{
    begin_deploy_allowed, begin_deploy_post, deploy_done_allowed, deploy_failed_post, evict_allowed,
    one_more_failure, reset_error_allowed, reset_error_post, FleetState, ModelState,
};
use crate::fleet::{display_names, FleetConfig};
use crate::gateway::router::{last_named, ModelRouter};

verus! {

/// Seconds between two looks at the fleet.
pub const AUTOSCALE_INTERVAL_SECS: u64 = 30;

/// What the autoscaler does to one model.
#[derive(Debug)]
pub enum AutoscaleAction {
    /// Delete the idle model's endpoint and make it cold.
    Evict { model: String, endpoint_id: String },
    /// Make a failed model cold, so that the next request deploys it again.
    ResetError { model: String },
}

/// `2^n`.
pub open spec fn pow2(n: nat) -> nat
    decreases n,
{
    if n == 0 {
        1
    } else {
        2 * pow2((n - 1) as nat)
    }
}

/// How long a failed model waits before it is retried, in seconds:
/// 30 seconds, doubled for every earlier retry.
pub open spec fn backoff_secs(retry_count: nat) -> nat {
    30 * pow2(retry_count)
}

/// What the autoscaler decides for a model in state `s`, `elapsed_ns`
/// nanoseconds after its last request (warm) or attempt (failed): a warm
/// model idle for longer than its eviction timeout is evicted; a failed
/// model is reset once its backoff has passed; nothing else is done.
pub open spec fn decided(
    r: Option<AutoscaleAction>,
    name: Seq<char>,
    s: ModelState,
    eviction_timeout_secs: nat,
    elapsed_ns: nat,
) -> bool {
    match s {
        ModelState::Warm { endpoint, .. } => if elapsed_ns > eviction_timeout_secs * 1_000_000_000 {
            r matches Some(AutoscaleAction::Evict { model, endpoint_id }) && model@ == name
                && endpoint_id@ == endpoint.id@
        } else {
            r is None
        },
        ModelState::Error { retry_count, .. } => if elapsed_ns > backoff_secs(retry_count as nat)
            * 1_000_000_000 {
            r matches Some(AutoscaleAction::ResetError { model }) && model@ == name
        } else {
            r is None
        },
        _ => r is None,
    }
}

proof fn lemma_pow2_grows(a: nat, b: nat)
    requires
        a <= b,
    ensures
        pow2(a) <= pow2(b),
    decreases b - a,
{
    if a < b {
        lemma_pow2_grows(a, (b - 1) as nat);
        assert(pow2(b) == 2 * pow2((b - 1) as nat));
    }
}

/// The decision for one model (see `decided`). Where a failed model's
/// backoff is longer than any elapsed time a `u128` can hold, it is not
/// reset.
pub fn decide(model_name: &str, state: &ModelState, eviction_timeout_secs: u64, elapsed_ns: u128) -> (r:
    Option<AutoscaleAction>)
    ensures
        decided(r, model_name@, *state, eviction_timeout_secs as nat, elapsed_ns as nat),
{
    match state {
        ModelState::Warm { endpoint, .. } => {
            let limit = (eviction_timeout_secs as u128) * 1_000_000_000;
            if elapsed_ns > limit {
                Some(
                    AutoscaleAction::Evict {
                        model: crate::text::owned(model_name),
                        endpoint_id: endpoint.id.clone(),
                    },
                )
            } else {
                None
            }
        },
        ModelState::Error { retry_count, .. } => {
            let ghost rc = *retry_count as nat;
            let mut limit: u128 = 30_000_000_000;
            let mut k: u32 = 0;
            while k < *retry_count
                invariant
                    k <= *retry_count,
                    rc == *retry_count as nat,
                    *state is Error && state->Error_retry_count == *retry_count,
                    limit == 30_000_000_000 * pow2(k as nat),
                decreases *retry_count - k,
            {
                proof {
                    assert(pow2((k + 1) as nat) == 2 * pow2(k as nat));
                }
                if limit > u128::MAX / 2 {
                    proof {
                        lemma_pow2_grows((k + 1) as nat, rc);
                        assert(backoff_secs(rc) * 1_000_000_000 == 30_000_000_000 * pow2(rc));
                        assert(elapsed_ns <= backoff_secs(rc) * 1_000_000_000);
                    }
                    return None;
                }
                limit = limit * 2;
                k = k + 1;
            }
            proof {
                assert(backoff_secs(rc) * 1_000_000_000 == 30_000_000_000 * pow2(rc));
            }
            if elapsed_ns > limit {
                Some(AutoscaleAction::ResetError { model: crate::text::owned(model_name) })
            } else {
                None
            }
        },
        _ => None,
    }
}

/// The eviction timeout, in seconds, of the model served under `name`
/// (the last one, where two share it).
pub open spec fn eviction_timeout_of(config: FleetConfig, name: Seq<char>) -> nat {
    let names = display_names(config.models@);
    config.models@[choose|i: int| last_named(names, name, i)].scaling.eviction_timeout as nat
}

/// The model an action is for.
pub open spec fn action_model(a: AutoscaleAction) -> Seq<char> {
    match a {
        AutoscaleAction::Evict { model, .. } => model@,
        AutoscaleAction::ResetError { model } => model@,
    }
}

/// `a` is the decision, at some elapsed time, for a model of the fleet
/// that the configuration serves.
pub open spec fn action_ok(a: AutoscaleAction, fleet: Map<Seq<char>, ModelState>, config: FleetConfig) -> bool {
    let name = action_model(a);
    &&& fleet.contains_key(name)
    &&& exists|j: int| last_named(display_names(config.models@), name, j)
    &&& exists|e: nat| decided(Some(a), name, fleet[name], eviction_timeout_of(config, name), e)
}

/// The configuration serves a model under `name`.
pub open spec fn served(config: FleetConfig, name: Seq<char>) -> bool {
    exists|j: int| last_named(display_names(config.models@), name, j)
}

/// `r` is what one look at `entries` decides, in their order, when the
/// `i`-th entry's last request (warm) or attempt (failed) lies `elapsed[i]`
/// nanoseconds back: for each model that the configuration serves, its
/// decision (see `decided`) where there is one; nothing for the others.
pub open spec fn planned(
    r: Seq<AutoscaleAction>,
    config: FleetConfig,
    entries: Seq<(String, ModelState)>,
    elapsed: Seq<u128>,
) -> bool
    decreases entries.len(),
{
    if entries.len() == 0 {
        r.len() == 0
    } else {
        let n = entries.len() - 1;
        let name = entries[n].0@;
        let t = eviction_timeout_of(config, name);
        if !served(config, name) {
            planned(r, config, entries.drop_last(), elapsed.drop_last())
        } else if decided(None, name, entries[n].1, t, elapsed[n] as nat) {
            planned(r, config, entries.drop_last(), elapsed.drop_last())
        } else {
            &&& r.len() > 0
            &&& decided(Some(r.last()), name, entries[n].1, t, elapsed[n] as nat)
            &&& planned(r.drop_last(), config, entries.drop_last(), elapsed.drop_last())
        }
    }
}

/// `a` is the decision, at some elapsed time, for one of `entries` that the
/// configuration serves.
pub open spec fn entry_action_ok(
    a: AutoscaleAction,
    config: FleetConfig,
    entries: Seq<(String, ModelState)>,
) -> bool {
    let name = action_model(a);
    &&& served(config, name)
    &&& exists|q: int|
        0 <= q < entries.len() && #[trigger] entries[q].0@ == name && exists|e: nat|
            decided(Some(a), name, entries[q].1, eviction_timeout_of(config, name), e)
}

/// Decides what to do with each of `entries`, in their order, where the
/// `i`-th entry's last request (warm) or attempt (failed) lies `elapsed[i]`
/// nanoseconds back (see `planned`).
pub fn actions_at(config: &FleetConfig, entries: &Vec<(String, ModelState)>, elapsed: &Vec<u128>) -> (r:
    Vec<AutoscaleAction>)
    requires
        elapsed@.len() == entries@.len(),
    ensures
        planned(r@, *config, entries@, elapsed@),
        forall|k: int| 0 <= k < r@.len() ==> entry_action_ok(#[trigger] r@[k], *config, entries@),
{
    let router = ModelRouter::new(config);
    let mut actions: Vec<AutoscaleAction> = Vec::new();
    let mut i: usize = 0;
    while i < entries.len()
        invariant
            i <= entries@.len(),
            elapsed@.len() == entries@.len(),
            router.wf(),
            router.names() == display_names(config.models@),
            planned(actions@, *config, entries@.take(i as int), elapsed@.take(i as int)),
            forall|k: int| 0 <= k < actions@.len() ==> entry_action_ok(#[trigger] actions@[k], *config, entries@),
        decreases entries@.len() - i,
    {
        let name = &entries[i].0;
        let state = &entries[i].1;
        let ghost prev = actions@;
        let ghost ents = entries@.take(i + 1);
        let ghost els = elapsed@.take(i + 1);
        assert(ents.drop_last() =~= entries@.take(i as int));
        assert(els.drop_last() =~= elapsed@.take(i as int));
        assert(ents[i as int] == entries@[i as int]);
        assert(els[i as int] == elapsed@[i as int]);
        match router.resolve_model(name.as_str()) {
            None => {
                proof {
                    let names = display_names(config.models@);
                    if served(*config, name@) {
                        let c = choose|c: int| last_named(names, name@, c);
                        assert(names[c] == name@);
                    }
                    assert(!served(*config, name@));
                }
            },
            Some(idx) => {
                let timeout = config.models[idx].scaling.eviction_timeout;
                proof {
                    let names = display_names(config.models@);
                    assert(last_named(names, name@, idx as int));
                    assert(served(*config, name@));
                    let c = choose|c: int| last_named(names, name@, c);
                    assert(c == idx) by {
                        if c < idx {
                            assert(names[idx as int] != name@);
                        } else if c > idx {
                            assert(names[c] != name@);
                        }
                    }
                    assert(eviction_timeout_of(*config, name@) == timeout);
                }
                match decide(name.as_str(), state, timeout, elapsed[i]) {
                    Some(a) => {
                        let ghost ag = a;
                        proof {
                            assert(action_model(a) == name@);
                            assert(decided(Some(a), name@, entries@[i as int].1, timeout as nat, elapsed@[i as int] as nat));
                            assert(!decided(None, name@, entries@[i as int].1, timeout as nat, elapsed@[i as int] as nat));
                            assert(entry_action_ok(a, *config, entries@));
                        }
                        actions.push(a);
                        proof {
                            assert(actions@.drop_last() =~= prev);
                            assert(actions@.last() == ag);
                            assert forall|k: int| 0 <= k < actions@.len() implies entry_action_ok(
                                #[trigger] actions@[k],
                                *config,
                                entries@,
                            ) by {
                                if k < prev.len() {
                                    assert(actions@[k] == prev[k]);
                                } else {
                                    assert(actions@[k] == ag);
                                }
                            }
                        }
                    },
                    None => {},
                }
            },
        }
        i = i + 1;
    }
    assert(entries@.take(entries@.len() as int) =~= entries@);
    assert(elapsed@.take(elapsed@.len() as int) =~= elapsed@);
    actions
}

/// The time, at the reading `now`, since a warm model's last request or a
/// failed model's last attempt (none when `now` is not later); 0 for any
/// other state, whose decision takes no time into account.
pub open spec fn elapsed_of(s: ModelState, now: u128) -> u128 {
    match s {
        ModelState::Warm { last_request, .. } => sat_sub(now, last_request),
        ModelState::Error { last_attempt, .. } => sat_sub(now, last_attempt),
        _ => 0,
    }
}

/// The elapsed times of `entries` at the readings `nows`, one each.
pub open spec fn elapsed_seq(entries: Seq<(String, ModelState)>, nows: Seq<u128>) -> Seq<u128> {
    Seq::new(entries.len(), |i: int| elapsed_of(entries[i].1, nows[i]))
}

/// Decides, at one look, what to do with each model of the fleet that the
/// configuration serves, reading the fleet's clock for the time since each
/// warm model's last request and each failed model's last attempt: the
/// actions are those of `actions_at` for the elapsed times at some
/// readings, one per model, and every one is the decision for its model.
pub fn tick_actions(config: &FleetConfig, fleet: &FleetState) -> (r: Vec<AutoscaleAction>)
    requires
        fleet.wf(),
    ensures
        exists|nows: Seq<u128>|
            nows.len() == fleet.entries().len() && planned(
                r@,
                *config,
                fleet.entries(),
                #[trigger] elapsed_seq(fleet.entries(), nows),
            ),
        forall|i: int| 0 <= i < r@.len() ==> action_ok(#[trigger] r@[i], fleet@, *config),
{
    let entries = fleet.all();
    let mut elapsed: Vec<u128> = Vec::new();
    let ghost mut nows: Seq<u128> = Seq::empty();
    let mut i: usize = 0;
    while i < entries.len()
        invariant
            i <= entries@.len(),
            elapsed@.len() == i,
            nows.len() == i,
            forall|q: int| 0 <= q < i ==> #[trigger] elapsed@[q] == elapsed_of(entries@[q].1, nows[q]),
        decreases entries@.len() - i,
    {
        let (e, now): (u128, u128) = match &entries[i].1 {
            ModelState::Warm { last_request, .. } => {
                let now = fleet.now_ns();
                (saturating_diff(now, *last_request), now)
            },
            ModelState::Error { last_attempt, .. } => {
                let now = fleet.now_ns();
                (saturating_diff(now, *last_attempt), now)
            },
            _ => (0, 0),
        };
        elapsed.push(e);
        proof {
            nows = nows.push(now);
        }
        i = i + 1;
    }
    assert(elapsed@ =~= elapsed_seq(entries@, nows));
    let r = actions_at(config, entries, &elapsed);
    assert forall|k: int| 0 <= k < r@.len() implies action_ok(#[trigger] r@[k], fleet@, *config) by {
        assert(entry_action_ok(r@[k], *config, entries@));
        let name = action_model(r@[k]);
        let q = choose|q: int|
            0 <= q < entries@.len() && #[trigger] entries@[q].0@ == name && exists|e: nat|
                decided(Some(r@[k]), name, entries@[q].1, eviction_timeout_of(*config, name), e);
        assert(fleet@.contains_key(entries@[q].0@));
        assert(fleet@[name] == entries@[q].1);
    }
    r
}

/// Carries out one action on the fleet state: an eviction makes a warm (or
/// already cold) model cold; a reset makes a failed model cold. Where the
/// model's state no longer allows it, nothing changes.
pub fn apply_action(fleet: &mut FleetState, action: &AutoscaleAction)
    requires
        old(fleet).wf(),
    ensures
        final(fleet).wf(),
        match action {
            AutoscaleAction::Evict { model, .. } => if evict_allowed(old(fleet)@, model@) {
                final(fleet)@ == old(fleet)@.insert(model@, ModelState::Cold)
            } else {
                final(fleet)@ == old(fleet)@
            },
            AutoscaleAction::ResetError { model } => if reset_error_allowed(old(fleet)@, model@) {
                final(fleet)@ == old(fleet)@.insert(model@, ModelState::Cold)
            } else {
                final(fleet)@ == old(fleet)@
            },
        },        final(fleet).failed_deploys() == old(fleet).failed_deploys(),
{
    match action {
        AutoscaleAction::Evict { model, .. } => {
            let _ = fleet.evict(model.as_str());
        },
        AutoscaleAction::ResetError { model } => {
            let _ = fleet.reset_error(model.as_str());
        },
    }
}


/// Each retry of a failed model doubles the wait before the next one.
pub proof fn law_backoff_doubles(retry_count: nat)
    ensures
        backoff_secs(retry_count + 1) == 2 * backoff_secs(retry_count),
{
    assert(pow2(retry_count + 1) == 2 * pow2(retry_count));
}

/// Consecutive failed deploys double the wait: a model that fails, is
/// reset, is deployed again and fails again waits twice as long before its
/// next retry as after the first failure. The count of failed deploys is
/// kept through the reset and the new deploy.
pub proof fn law_consecutive_failures_double_the_wait(
    s1: Map<Seq<char>, ModelState>,
    s2: Map<Seq<char>, ModelState>,
    s3: Map<Seq<char>, ModelState>,
    s4: Map<Seq<char>, ModelState>,
    s5: Map<Seq<char>, ModelState>,
    c1: Map<Seq<char>, u32>,
    c2: Map<Seq<char>, u32>,
    c4: Map<Seq<char>, u32>,
    name: Seq<char>,
    first: String,
    second: String,
)
    requires
        deploy_done_allowed(s1, name),
        c1.contains_key(name),
        c1[name] < u32::MAX,
        deploy_failed_post(s1, s2, name, first, c1[name]),
        c2 == c1.insert(name, one_more_failure(c1[name])),
        reset_error_post(s2, s3, name),
        begin_deploy_post(s3, s4, name),
        c4 == c2,
        deploy_failed_post(s4, s5, name, second, c4[name]),
    ensures
        reset_error_allowed(s2, name),
        begin_deploy_allowed(s3, name),
        deploy_done_allowed(s4, name),
        s5[name]->Error_retry_count == s2[name]->Error_retry_count + 1,
        backoff_secs(s5[name]->Error_retry_count as nat) == 2 * backoff_secs(
            s2[name]->Error_retry_count as nat,
        ),
{
    let k = s2[name]->Error_retry_count as nat;
    assert(pow2(k + 1) == 2 * pow2(k));
}

/// The autoscaler never acts on a hot, cold or deploying model: hot models
/// are never evicted.
pub proof fn law_only_idle_or_failed_models_change(
    r: Option<AutoscaleAction>,
    name: Seq<char>,
    s: ModelState,
    eviction_timeout_secs: nat,
    elapsed_ns: nat,
)
    requires
        decided(r, name, s, eviction_timeout_secs, elapsed_ns),
        !(s is Warm),
        !(s is Error),
    ensures
        r is None,
{
}

/// A warm model is evicted exactly when it has been idle for longer than
/// its eviction timeout; the eviction hands back its endpoint.
pub proof fn law_idle_warm_model_evicted(
    r: Option<AutoscaleAction>,
    name: Seq<char>,
    s: ModelState,
    eviction_timeout_secs: nat,
    elapsed_ns: nat,
)
    requires
        decided(r, name, s, eviction_timeout_secs, elapsed_ns),
        s is Warm,
    ensures
        r is Some <==> elapsed_ns > eviction_timeout_secs * 1_000_000_000,
        r matches Some(AutoscaleAction::Evict { endpoint_id, .. }) ==> endpoint_id@
            == s->Warm_endpoint.id@,
{
}

} // verus!
