//! API keys of the gateway: which keys are accepted, how many requests per
//! minute each may make (a token bucket), what each may spend, and which
//! models each may use.

use vstd::prelude::*;

use crate::external::{sat_sub, saturating_diff, MonoClock};
use crate::fleet::ApiKeyEntry;
use crate::text::{dollars_2dp, dollars_text, str_eq};

verus! {

/// One request in the units of a token bucket. A bucket of `rpm` requests
/// per minute gains `rpm` units per elapsed nanosecond, so it refills from
/// empty to full, `rpm` requests, in one minute.
pub const TOKEN_UNIT: u128 = 60_000_000_000;

/// Requests per minute of a key without a configured limit.
pub const DEFAULT_RPM: u32 = 600;

/// The rate limit of a key, in requests per minute.
pub open spec fn rpm_of(e: ApiKeyEntry) -> nat {
    match e.rate_limit_rpm {
        Some(r) => r as nat,
        None => DEFAULT_RPM as nat,
    }
}

/// The size of a full bucket, `rpm` requests.
pub open spec fn capacity(rpm: nat) -> nat {
    rpm * (TOKEN_UNIT as nat)
}

/// The tokens of a bucket after `elapsed_ns` nanoseconds of refill,
/// capped at a full bucket.
pub open spec fn refilled(tokens: nat, rpm: nat, elapsed_ns: nat) -> nat {
    if tokens + rpm * elapsed_ns < capacity(rpm) {
        tokens + rpm * elapsed_ns
    } else {
        capacity(rpm)
    }
}

/// A request is admitted when the refilled bucket holds a whole request.
pub open spec fn admits(tokens: nat, rpm: nat, elapsed_ns: nat) -> bool {
    refilled(tokens, rpm, elapsed_ns) >= TOKEN_UNIT
}

/// The tokens left after a request: the refilled bucket, less one request
/// when it is admitted.
pub open spec fn tokens_after(tokens: nat, rpm: nat, elapsed_ns: nat) -> nat {
    if admits(tokens, rpm, elapsed_ns) {
        (refilled(tokens, rpm, elapsed_ns) - TOKEN_UNIT) as nat
    } else {
        refilled(tokens, rpm, elapsed_ns)
    }
}

/// The request budget of one key.
#[derive(Debug)]
pub struct TokenBucket {
    pub tokens: u128,
    pub rpm: u64,
    /// When the bucket was last refilled, as a reading of the clock of
    /// its layer.
    pub last_refill: u128,
}

impl TokenBucket {
    /// The bucket holds at most `rpm` requests, and `rpm` fits in 32 bits.
    pub open spec fn wf(&self) -> bool {
        &&& self.rpm <= u32::MAX
        &&& self.tokens <= capacity(self.rpm as nat)
    }

    /// A full bucket of `rpm` requests per minute, last refilled at `now`.
    pub fn full(rpm: u32, now: u128) -> (r: TokenBucket)
        ensures
            r.wf(),
            r.rpm == rpm,
            r.tokens == capacity(rpm as nat),
            r.last_refill == now,
    {
        assert((rpm as u128) * TOKEN_UNIT <= 4294967295u128 * 60_000_000_000u128) by (nonlinear_arith)
            requires
                rpm <= 4294967295u32,
        ;
        TokenBucket { tokens: (rpm as u128) * TOKEN_UNIT, rpm: rpm as u64, last_refill: now }
    }

    /// At the reading `now`, refills the bucket for the time since its
    /// last refill (none when `now` is not later), then takes one request
    /// from it if it holds one; true when it did. `now` becomes the time of
    /// the last refill.
    pub fn refill_and_take(&mut self, now: u128) -> (r: bool)
        requires
            old(self).wf(),
        ensures
            final(self).wf(),
            final(self).rpm == old(self).rpm,
            final(self).last_refill == now,
            r == admits(
                old(self).tokens as nat,
                old(self).rpm as nat,
                sat_sub(now, old(self).last_refill) as nat,
            ),
            final(self).tokens == tokens_after(
                old(self).tokens as nat,
                old(self).rpm as nat,
                sat_sub(now, old(self).last_refill) as nat,
            ),
    {
        let elapsed_ns = saturating_diff(now, self.last_refill);
        let rpm = self.rpm as u128;
        let cap = rpm * TOKEN_UNIT;
        assert(cap <= 4294967295u128 * 60_000_000_000u128) by (nonlinear_arith)
            requires
                rpm <= 4294967295u128,
                cap == rpm * TOKEN_UNIT,
        ;
        let t: u128 = if elapsed_ns >= TOKEN_UNIT {
            assert(rpm * elapsed_ns >= rpm * TOKEN_UNIT) by (nonlinear_arith)
                requires
                    elapsed_ns >= TOKEN_UNIT,
            ;
            cap
        } else {
            assert(rpm * elapsed_ns <= rpm * TOKEN_UNIT) by (nonlinear_arith)
                requires
                    elapsed_ns < TOKEN_UNIT,
            ;
            let add = rpm * elapsed_ns;
            if self.tokens + add < cap {
                self.tokens + add
            } else {
                cap
            }
        };
        assert(t == refilled(self.tokens as nat, rpm as nat, elapsed_ns as nat));
        self.last_refill = now;
        if t < TOKEN_UNIT {
            self.tokens = t;
            false
        } else {
            self.tokens = t - TOKEN_UNIT;
            true
        }
    }
}

/// A refill never makes a bucket hold more than `rpm` requests, and a
/// request never takes more than it holds.
pub proof fn law_bucket_stays_bounded(tokens: nat, rpm: nat, elapsed_ns: nat)
    requires
        tokens <= capacity(rpm),
    ensures
        tokens_after(tokens, rpm, elapsed_ns) <= capacity(rpm),
        refilled(tokens, rpm, elapsed_ns) >= tokens,
{
    assert(rpm * elapsed_ns >= 0) by (nonlinear_arith);
}

/// A key whose bucket is full admits exactly `rpm` requests made at the
/// same instant: after `k < rpm` of them the next is admitted and leaves
/// `rpm - k - 1` requests; after `rpm` of them the next is refused.
pub proof fn law_burst_of_rpm_requests(rpm: nat, k: nat)
    requires
        k <= rpm,
    ensures
        admits((capacity(rpm) - k * TOKEN_UNIT) as nat, rpm, 0) == (k < rpm),
        k < rpm ==> tokens_after((capacity(rpm) - k * TOKEN_UNIT) as nat, rpm, 0) == capacity(rpm)
            - (k + 1) * TOKEN_UNIT,
{
    assert(capacity(rpm) - k * TOKEN_UNIT == (rpm - k) * TOKEN_UNIT) by (nonlinear_arith)
        requires
            k <= rpm,
    ;
    assert(rpm * 0 == 0);
    assert((rpm - k) * TOKEN_UNIT >= 0) by (nonlinear_arith)
        requires
            k <= rpm,
    ;
    if k < rpm {
        assert((rpm - k) * TOKEN_UNIT >= TOKEN_UNIT) by (nonlinear_arith)
            requires
                k < rpm,
        ;
        assert((rpm - k) * TOKEN_UNIT - TOKEN_UNIT == capacity(rpm) - (k + 1) * TOKEN_UNIT)
            by (nonlinear_arith)
            requires
                k < rpm,
        ;
    }
}

/// The time a run of calls spans: the sum of the gaps.
pub open spec fn elapsed_total(gaps: Seq<nat>) -> nat
    decreases gaps.len(),
{
    if gaps.len() == 0 {
        0
    } else {
        elapsed_total(gaps.drop_last()) + gaps.last()
    }
}

/// The tokens of a bucket after a run of calls, the `i`-th made `gaps[i]`
/// nanoseconds after the one before it (the first, after `tokens` were
/// counted).
pub open spec fn tokens_after_run(tokens: nat, rpm: nat, gaps: Seq<nat>) -> nat
    decreases gaps.len(),
{
    if gaps.len() == 0 {
        tokens
    } else {
        tokens_after(tokens_after_run(tokens, rpm, gaps.drop_last()), rpm, gaps.last())
    }
}

proof fn lemma_run_bounds(rpm: nat, gaps: Seq<nat>, j: nat)
    requires
        j <= rpm,
        j <= gaps.len(),
    ensures
        tokens_after_run(capacity(rpm), rpm, gaps.take(j as int)) <= capacity(rpm),
        tokens_after_run(capacity(rpm), rpm, gaps.take(j as int)) + j * TOKEN_UNIT >= capacity(rpm),
        tokens_after_run(capacity(rpm), rpm, gaps.take(j as int)) + j * TOKEN_UNIT <= capacity(rpm)
            + rpm * elapsed_total(gaps.take(j as int)),
    decreases j,
{
    if j == 0 {
        assert(gaps.take(0) =~= Seq::<nat>::empty());
        assert(rpm * elapsed_total(gaps.take(0)) >= 0) by (nonlinear_arith);
    } else {
        let p = (j - 1) as nat;
        lemma_run_bounds(rpm, gaps, p);
        let pre = gaps.take(p as int);
        let cur = gaps.take(j as int);
        assert(cur.drop_last() =~= pre);
        assert(cur.last() == gaps[p as int]);
        let t = tokens_after_run(capacity(rpm), rpm, pre);
        let e = gaps[p as int];
        let s = elapsed_total(pre);
        assert(elapsed_total(cur) == s + e);
        assert(tokens_after_run(capacity(rpm), rpm, cur) == tokens_after(t, rpm, e));
        assert(capacity(rpm) == rpm * TOKEN_UNIT);
        assert(t >= TOKEN_UNIT) by (nonlinear_arith)
            requires
                t + p * TOKEN_UNIT >= rpm * TOKEN_UNIT,
                p < rpm,
        ;
        assert(rpm * e >= 0) by (nonlinear_arith);
        assert(rpm * (s + e) == rpm * s + rpm * e) by (nonlinear_arith);
        assert(j * TOKEN_UNIT == p * TOKEN_UNIT + TOKEN_UNIT) by (nonlinear_arith)
            requires
                j == p + 1,
        ;
        let r = refilled(t, rpm, e);
        assert(r >= t);
        assert(r <= t + rpm * e);
        assert(admits(t, rpm, e));
    }
}

/// A key whose bucket is full admits exactly `rpm` requests in any run of
/// `rpm + 1` calls that all come less than a refill step (60/`rpm`
/// seconds) after the bucket was full: the first `rpm` are admitted and
/// the last is refused. `gaps[j]` is the time before call `j` (from 0).
pub proof fn law_burst_within_a_refill_step(rpm: nat, gaps: Seq<nat>, j: int)
    requires
        gaps.len() == rpm + 1,
        rpm * elapsed_total(gaps) < TOKEN_UNIT,
        0 <= j <= rpm,
    ensures
        admits(tokens_after_run(capacity(rpm), rpm, gaps.take(j)), rpm, gaps[j]) == (j < rpm),
{
    lemma_run_bounds(rpm, gaps, j as nat);
    let t = tokens_after_run(capacity(rpm), rpm, gaps.take(j));
    let e = gaps[j];
    assert(capacity(rpm) == rpm * TOKEN_UNIT);
    assert(rpm * e >= 0) by (nonlinear_arith);
    if j < rpm {
        assert(t >= TOKEN_UNIT) by (nonlinear_arith)
            requires
                t + j * TOKEN_UNIT >= rpm * TOKEN_UNIT,
                j < rpm,
        ;
        assert(refilled(t, rpm, e) >= t);
    } else {
        let pre = gaps.take(j);
        assert(gaps.take(j + 1) =~= gaps);
        assert(gaps.take(j + 1).drop_last() =~= pre);
        let s = elapsed_total(pre);
        assert(elapsed_total(gaps) == s + e);
        assert(rpm * (s + e) == rpm * s + rpm * e) by (nonlinear_arith);
        assert(j * TOKEN_UNIT == rpm * TOKEN_UNIT);
        assert(refilled(t, rpm, e) <= t + rpm * e);
    }
}

/// After a minute without requests a bucket is full again.
pub proof fn law_full_after_a_minute(tokens: nat, rpm: nat, elapsed_ns: nat)
    requires
        elapsed_ns >= TOKEN_UNIT,
    ensures
        refilled(tokens, rpm, elapsed_ns) == capacity(rpm),
{
    assert(rpm * elapsed_ns >= rpm * TOKEN_UNIT) by (nonlinear_arith)
        requires
            elapsed_ns >= TOKEN_UNIT,
    ;
}

/// A refused request takes nothing: the bucket keeps what the refill gave
/// it.
pub proof fn law_refusal_takes_nothing(tokens: nat, rpm: nat, elapsed_ns: nat)
    requires
        !admits(tokens, rpm, elapsed_ns),
    ensures
        tokens_after(tokens, rpm, elapsed_ns) == refilled(tokens, rpm, elapsed_ns),
{
}

/// An accepted key with its request budget.
#[derive(Debug)]
pub struct KeyState {
    pub entry: ApiKeyEntry,
    pub bucket: TokenBucket,
}

/// Two key entries hold the same key, name, budget, rate limit and model
/// list.
pub open spec fn same_entry(a: ApiKeyEntry, b: ApiKeyEntry) -> bool {
    &&& a.key@ == b.key@
    &&& a.name@ == b.name@
    &&& a.budget_pico == b.budget_pico
    &&& a.rate_limit_rpm == b.rate_limit_rpm
    &&& match (a.allowed_models, b.allowed_models) {
        (None, None) => true,
        (Some(x), Some(y)) => x@ == y@,
        _ => false,
    }
}

/// A copy of a key entry.
pub fn copy_entry(e: &ApiKeyEntry) -> (r: ApiKeyEntry)
    ensures
        same_entry(r, *e),
{
    let allowed_models = match &e.allowed_models {
        Some(v) => {
            let c = v.clone();
            assert(c@ =~= v@);
            Some(c)
        },
        None => None,
    };
    ApiKeyEntry {
        key: e.key.clone(),
        name: e.name.clone(),
        budget_pico: e.budget_pico,
        rate_limit_rpm: e.rate_limit_rpm,
        allowed_models,
    }
}

/// `states` holds a state for the key `k`.
pub open spec fn has_key(states: Seq<KeyState>, k: Seq<char>) -> bool {
    exists|i: int| 0 <= i < states.len() && #[trigger] states[i].entry.key@ == k
}

/// The position of the state of key `k` (meaningful where there is one).
pub open spec fn key_pos(states: Seq<KeyState>, k: Seq<char>) -> int {
    choose|i: int| 0 <= i < states.len() && #[trigger] states[i].entry.key@ == k
}

/// No key has two states, and every bucket is sized by its key's limit.
pub open spec fn states_wf(states: Seq<KeyState>) -> bool {
    &&& forall|i: int, j: int|
        0 <= i < j < states.len() ==> #[trigger] states[i].entry.key@ != #[trigger] states[j].entry.key@
    &&& forall|i: int|
        0 <= i < states.len() ==> {
            &&& #[trigger] states[i].bucket.wf()
            &&& states[i].bucket.rpm == rpm_of(states[i].entry)
        }
}

/// `j` is the last entry of `keys[..upto]` that holds the key `k`.
pub open spec fn last_with_key(keys: Seq<ApiKeyEntry>, upto: int, j: int, k: Seq<char>) -> bool {
    &&& 0 <= j < upto
    &&& keys[j].key@ == k
    &&& forall|q: int| j < q < upto ==> #[trigger] keys[q].key@ != k
}

/// The keys a gateway accepts.
pub struct AuthLayer {
    keys: Vec<KeyState>,
    clock: MonoClock,
}

/// Why a request was refused. The amounts are in picodollars.
#[derive(Debug, Clone, Copy, PartialEq, Eq, Structural)]
pub enum AuthError {
    InvalidKey,
    RateLimited,
    BudgetExceeded { spent: u64, budget: u64 },
}

impl AuthError {
    pub open spec fn spec_message(&self) -> Seq<char> {
        match self {
            AuthError::InvalidKey => "invalid API key"@,
            AuthError::RateLimited => "rate limit exceeded"@,
            AuthError::BudgetExceeded { spent, budget } => "budget exceeded: $"@ + dollars_text(
                *spent as nat,
            ) + " of $"@ + dollars_text(*budget as nat),
        }
    }

    /// The message of the error; amounts in dollars with two decimals.
    pub fn to_string(&self) -> (r: String)
        ensures
            r@ == self.spec_message(),
    {
        match self {
            AuthError::InvalidKey => String::from_str("invalid API key"),
            AuthError::RateLimited => String::from_str("rate limit exceeded"),
            AuthError::BudgetExceeded { spent, budget } => {
                let mut r = String::from_str("budget exceeded: $");
                let s = dollars_2dp(*spent);
                r.append(s.as_str());
                r.append(" of $");
                let b = dollars_2dp(*budget);
                r.append(b.as_str());
                r
            },
        }
    }
}

/// What checking `key` at the reading `now` does to the key states `pre`,
/// giving `post` and `r`: an unknown key is refused as invalid and nothing
/// changes; a known key's bucket is refilled for the time from its last
/// refill to `now` (none when `now` is not later) and takes a request when
/// it then holds one, giving the key's name, or else the key is refused as
/// rate limited; `now` becomes its last refill; nothing else changes.
pub open spec fn validated(
    pre: Seq<KeyState>,
    post: Seq<KeyState>,
    key: Seq<char>,
    now: u128,
    r: Result<String, AuthError>,
) -> bool {
    if !has_key(pre, key) {
        r == Err::<String, AuthError>(AuthError::InvalidKey) && post == pre
    } else {
        let p = key_pos(pre, key);
        let st = pre[p];
        let e = sat_sub(now, st.bucket.last_refill) as nat;
        &&& post.len() == pre.len()
        &&& has_key(post, key)
        &&& key_pos(post, key) == p
        &&& forall|q: int| 0 <= q < pre.len() && q != p ==> #[trigger] post[q] == pre[q]
        &&& post[p].entry == st.entry
        &&& post[p].bucket.rpm == st.bucket.rpm
        &&& post[p].bucket.last_refill == now
        &&& post[p].bucket.tokens == tokens_after(st.bucket.tokens as nat, st.bucket.rpm as nat, e)
        &&& match r {
            Ok(name) => admits(st.bucket.tokens as nat, st.bucket.rpm as nat, e) && name@ == st.entry.name@,
            Err(err) => !admits(st.bucket.tokens as nat, st.bucket.rpm as nat, e) && err
                == AuthError::RateLimited,
        }
    }
}

impl AuthLayer {
    /// The state of every accepted key.
    pub closed spec fn states(&self) -> Seq<KeyState> {
        self.keys@
    }

    pub closed spec fn wf(&self) -> bool {
        states_wf(self.keys@)
    }

    /// The accepted keys: one per distinct key of `api_keys`, described by
    /// the last entry that holds it, each with a full bucket.
    pub fn new(api_keys: &[ApiKeyEntry]) -> (r: AuthLayer)
        ensures
            r.wf(),
            states_wf(r.states()),
            forall|k: Seq<char>|
                #[trigger] has_key(r.states(), k) <==> exists|j: int|
                    0 <= j < api_keys@.len() && #[trigger] api_keys@[j].key@ == k,
            forall|k: Seq<char>|
                #![trigger has_key(r.states(), k)]
                has_key(r.states(), k) ==> {
                    let st = r.states()[key_pos(r.states(), k)];
                    &&& exists|j: int|
                        last_with_key(api_keys@, api_keys@.len() as int, j, k) && same_entry(
                            st.entry,
                            #[trigger] api_keys@[j],
                        )
                    &&& st.bucket.tokens == capacity(rpm_of(st.entry))
                },
            forall|p: int, q: int|
                0 <= p < r.states().len() && 0 <= q < r.states().len() ==> #[trigger] r.states()[p].bucket.last_refill
                    == #[trigger] r.states()[q].bucket.last_refill,
    {
        let clock = MonoClock::start();
        let now = clock.now_ns();
        let mut keys: Vec<KeyState> = Vec::new();
        let mut i: usize = 0;
        while i < api_keys.len()
            invariant
                i <= api_keys@.len(),
                states_wf(keys@),
                forall|p: int|
                    0 <= p < keys@.len() ==> exists|j: int|
                        last_with_key(api_keys@, i as int, j, keys@[p].entry.key@) && same_entry(
                            #[trigger] keys@[p].entry,
                            api_keys@[j],
                        ),
                forall|p: int|
                    0 <= p < keys@.len() ==> #[trigger] keys@[p].bucket.tokens == capacity(
                        rpm_of(keys@[p].entry),
                    ),
                forall|p: int| 0 <= p < keys@.len() ==> #[trigger] keys@[p].bucket.last_refill == now,
                forall|k: Seq<char>|
                    #[trigger] has_key(keys@, k) <==> exists|j: int|
                        0 <= j < i && #[trigger] api_keys@[j].key@ == k,
            decreases api_keys@.len() - i,
        {
            let e = copy_entry(&api_keys[i]);
            let rpm = match e.rate_limit_rpm {
                Some(r) => r,
                None => DEFAULT_RPM,
            };
            let st = KeyState { entry: e, bucket: TokenBucket::full(rpm, now) };
            let ghost k = api_keys@[i as int].key@;
            let ghost prev = keys@;
            match find_key(&keys, api_keys[i].key.as_str()) {
                Some(p) => {
                    keys.set(p, st);
                    assert(keys@ == prev.update(p as int, st));
                    assert(st.entry.key@ == k);
                    assert forall|a: int, b: int|
                        0 <= a < b < keys@.len() implies #[trigger] keys@[a].entry.key@
                        != #[trigger] keys@[b].entry.key@ by {
                        assert(prev[a].entry.key@ != prev[b].entry.key@);
                    }
                    assert forall|a: int| 0 <= a < keys@.len() implies {
                        &&& #[trigger] keys@[a].bucket.wf()
                        &&& keys@[a].bucket.rpm == rpm_of(keys@[a].entry)
                    } by {
                        if a != p {
                            assert(keys@[a] == prev[a]);
                        }
                    }
                    assert forall|q: int|
                        0 <= q < keys@.len() implies exists|j: int|
                        last_with_key(api_keys@, i + 1, j, keys@[q].entry.key@) && same_entry(
                            #[trigger] keys@[q].entry,
                            api_keys@[j],
                        ) by {
                        if q == p {
                            assert(last_with_key(api_keys@, i + 1, i as int, k));
                        } else {
                            let j = choose|j: int|
                                last_with_key(api_keys@, i as int, j, prev[q].entry.key@)
                                    && same_entry(prev[q].entry, api_keys@[j]);
                            assert(prev[q].entry.key@ != k);
                            assert(last_with_key(api_keys@, i + 1, j, keys@[q].entry.key@));
                        }
                    }
                    assert forall|kk: Seq<char>|
                        #[trigger] has_key(keys@, kk) <==> exists|j: int|
                            0 <= j < i + 1 && #[trigger] api_keys@[j].key@ == kk by {
                        if has_key(prev, kk) {
                            let w = choose|w: int| 0 <= w < prev.len() && #[trigger] prev[w].entry.key@ == kk;
                            assert(keys@[w].entry.key@ == kk);
                        }
                        if has_key(keys@, kk) {
                            let w = choose|w: int| 0 <= w < keys@.len() && #[trigger] keys@[w].entry.key@ == kk;
                            if w != p {
                                assert(prev[w].entry.key@ == kk);
                            } else {
                                assert(api_keys@[i as int].key@ == kk);
                            }
                        }
                        if kk == k {
                            assert(keys@[p as int].entry.key@ == kk);
                        }
                    }
                },
                None => {
                    keys.push(st);
                    assert(keys@ == prev.push(st));
                    assert(st.entry.key@ == k);
                    assert forall|a: int, b: int|
                        0 <= a < b < keys@.len() implies #[trigger] keys@[a].entry.key@
                        != #[trigger] keys@[b].entry.key@ by {
                        if b < prev.len() {
                            assert(prev[a].entry.key@ != prev[b].entry.key@);
                        } else {
                            assert(prev[a].entry.key@ != k);
                        }
                    }
                    assert forall|a: int| 0 <= a < keys@.len() implies {
                        &&& #[trigger] keys@[a].bucket.wf()
                        &&& keys@[a].bucket.rpm == rpm_of(keys@[a].entry)
                    } by {
                        if a < prev.len() {
                            assert(keys@[a] == prev[a]);
                        }
                    }
                    assert forall|q: int|
                        0 <= q < keys@.len() implies exists|j: int|
                        last_with_key(api_keys@, i + 1, j, keys@[q].entry.key@) && same_entry(
                            #[trigger] keys@[q].entry,
                            api_keys@[j],
                        ) by {
                        if q == prev.len() {
                            assert(last_with_key(api_keys@, i + 1, i as int, k));
                        } else {
                            let j = choose|j: int|
                                last_with_key(api_keys@, i as int, j, prev[q].entry.key@)
                                    && same_entry(prev[q].entry, api_keys@[j]);
                            assert(prev[q].entry.key@ != k);
                            assert(last_with_key(api_keys@, i + 1, j, keys@[q].entry.key@));
                        }
                    }
                    assert forall|kk: Seq<char>|
                        #[trigger] has_key(keys@, kk) <==> exists|j: int|
                            0 <= j < i + 1 && #[trigger] api_keys@[j].key@ == kk by {
                        if has_key(prev, kk) {
                            let w = choose|w: int| 0 <= w < prev.len() && #[trigger] prev[w].entry.key@ == kk;
                            assert(keys@[w].entry.key@ == kk);
                        }
                        if has_key(keys@, kk) {
                            let w = choose|w: int| 0 <= w < keys@.len() && #[trigger] keys@[w].entry.key@ == kk;
                            if w < prev.len() {
                                assert(prev[w].entry.key@ == kk);
                            }
                        }
                        if kk == k {
                            assert(keys@[prev.len() as int].entry.key@ == kk);
                        }
                    }
                },
            }
            i = i + 1;
        }
        let r = AuthLayer { keys, clock };
        assert forall|k: Seq<char>|
            #![trigger has_key(r.states(), k)]
            has_key(r.states(), k) implies {
                let st = r.states()[key_pos(r.states(), k)];
                &&& exists|j: int|
                    last_with_key(api_keys@, api_keys@.len() as int, j, k) && same_entry(
                        st.entry,
                        #[trigger] api_keys@[j],
                    )
                &&& st.bucket.tokens == capacity(rpm_of(st.entry))
            } by {
            let p = key_pos(r.states(), k);
            assert(r.states()[p].entry.key@ == k);
        }
        r
    }

    /// Position of the state of `key`.
    fn position(&self, key: &str) -> (r: Option<usize>)
        requires
            self.wf(),
        ensures
            match r {
                Some(p) => {
                    &&& p < self.states().len()
                    &&& has_key(self.states(), key@)
                    &&& p == key_pos(self.states(), key@)
                    &&& self.states()[p as int].entry.key@ == key@
                },
                None => !has_key(self.states(), key@),
            },
    {
        let r = find_key(&self.keys, key);
        proof {
            if let Some(p) = r {
                lemma_key_pos(self.keys@, p as int);
            }
        }
        r
    }

    /// The clock the buckets' refill times are readings of.
    pub closed spec fn clock(&self) -> MonoClock {
        self.clock
    }

    /// Checks a key at the reading `now` of the layer's clock and takes one
    /// request from its budget; the key's name on success. An unknown key
    /// is refused as invalid and changes nothing; a known one is refilled
    /// for the time since its last refill and refused as rate limited when
    /// it then holds no whole request (see `validated`).
    pub fn validate_at(&mut self, key: &str, now: u128) -> (r: Result<String, AuthError>)
        requires
            old(self).wf(),
        ensures
            final(self).wf(),
            final(self).clock() == old(self).clock(),
            validated(old(self).states(), final(self).states(), key@, now, r),
    {
        let p = match self.position(key) {
            Some(p) => p,
            None => return Err(AuthError::InvalidKey),
        };
        let ghost pre = self.keys@;
        let admitted = self.keys[p].bucket.refill_and_take(now);
        proof {
            assert forall|q: int| 0 <= q < pre.len() && q != p implies #[trigger] self.keys@[q] == pre[q] by {}
            assert(self.keys@[p as int].entry == pre[p as int].entry);
            assert forall|i: int, j: int|
                0 <= i < j < self.keys@.len() implies #[trigger] self.keys@[i].entry.key@
                != #[trigger] self.keys@[j].entry.key@ by {
                assert(pre[i].entry.key@ != pre[j].entry.key@);
            }
            assert forall|a: int| 0 <= a < self.keys@.len() implies {
                &&& #[trigger] self.keys@[a].bucket.wf()
                &&& self.keys@[a].bucket.rpm == rpm_of(self.keys@[a].entry)
            } by {
                if a != p {
                    assert(self.keys@[a] == pre[a]);
                } else {
                    assert(pre[a].bucket.wf());
                    assert(pre[a].bucket.rpm == rpm_of(pre[a].entry));
                }
            }
            assert(states_wf(self.keys@));
            assert(self.keys@[p as int].entry.key@ == key@);
            lemma_key_pos(self.keys@, p as int);
        }
        if admitted {
            Ok(self.keys[p].entry.name.clone())
        } else {
            Err(AuthError::RateLimited)
        }
    }

    /// Checks a key and takes one request from its budget, at a fresh
    /// reading of the layer's clock: `validate_at` at some reading.
    pub fn validate(&mut self, key: &str) -> (r: Result<String, AuthError>)
        requires
            old(self).wf(),
        ensures
            final(self).wf(),
            final(self).clock() == old(self).clock(),
            exists|now: u128| validated(old(self).states(), final(self).states(), key@, now, r),
    {
        let now = self.clock.now_ns();
        self.validate_at(key, now)
    }

    /// Checks the spending of a key against its budget: refused when the
    /// key is unknown, or when it has a budget and `current_spend_pico` has
    /// reached it.
    pub fn check_budget(&self, key: &str, current_spend_pico: u64) -> (r: Result<(), AuthError>)
        requires
            self.wf(),
        ensures
            !has_key(self.states(), key@) ==> r == Err::<(), AuthError>(AuthError::InvalidKey),
            has_key(self.states(), key@) ==> match self.states()[key_pos(
                self.states(),
                key@,
            )].entry.budget_pico {
                Some(b) => if current_spend_pico >= b {
                    r == Err::<(), AuthError>(
                        AuthError::BudgetExceeded { spent: current_spend_pico, budget: b },
                    )
                } else {
                    r is Ok
                },
                None => r is Ok,
            },
    {
        let p = match self.position(key) {
            Some(p) => p,
            None => return Err(AuthError::InvalidKey),
        };
        match self.keys[p].entry.budget_pico {
            Some(b) => {
                if current_spend_pico >= b {
                    Err(AuthError::BudgetExceeded { spent: current_spend_pico, budget: b })
                } else {
                    Ok(())
                }
            },
            None => Ok(()),
        }
    }

    /// A key may use a model when it is known and either has no model list
    /// or lists the model.
    pub fn is_model_allowed(&self, key: &str, model_alias: &str) -> (r: bool)
        requires
            self.wf(),
        ensures
            r == (has_key(self.states(), key@) && match self.states()[key_pos(
                self.states(),
                key@,
            )].entry.allowed_models {
                None => true,
                Some(v) => exists|i: int| 0 <= i < v@.len() && #[trigger] v@[i]@ == model_alias@,
            }),
    {
        let p = match self.position(key) {
            Some(p) => p,
            None => return false,
        };
        match &self.keys[p].entry.allowed_models {
            None => true,
            Some(allowed) => {
                let mut i: usize = 0;
                while i < allowed.len()
                    invariant
                        i <= allowed@.len(),
                        self.states()[p as int].entry.allowed_models == Some(*allowed),
                        p == key_pos(self.states(), key@),
                        has_key(self.states(), key@),
                        forall|j: int| 0 <= j < i ==> #[trigger] allowed@[j]@ != model_alias@,
                    decreases allowed@.len() - i,
                {
                    if str_eq(allowed[i].as_str(), model_alias) {
                        proof {
                            let v = self.states()[key_pos(self.states(), key@)].entry.allowed_models->0;
                            assert(v == *allowed);
                            assert(v@[i as int]@ == model_alias@);
                        }
                        return true;
                    }
                    i = i + 1;
                }
                false
            },
        }
    }

    /// The name of a key.
    pub fn key_name(&self, key: &str) -> (r: Option<&str>)
        requires
            self.wf(),
        ensures
            match r {
                Some(n) => has_key(self.states(), key@) && n@ == self.states()[key_pos(
                    self.states(),
                    key@,
                )].entry.name@,
                None => !has_key(self.states(), key@),
            },
    {
        match self.position(key) {
            Some(p) => Some(self.keys[p].entry.name.as_str()),
            None => None,
        }
    }

    /// No key is configured: the gateway is open to everyone.
    pub fn is_open(&self) -> (r: bool)
        ensures
            r == (self.states().len() == 0),
    {
        self.keys.len() == 0
    }
}

proof fn lemma_key_pos(states: Seq<KeyState>, p: int)
    requires
        states_wf(states),
        0 <= p < states.len(),
    ensures
        key_pos(states, states[p].entry.key@) == p,
{
    let k = states[p].entry.key@;
    assert(states[p].entry.key@ == k);
    let w = key_pos(states, k);
    if w != p {
        if w < p {
            assert(states[w].entry.key@ != states[p].entry.key@);
        } else {
            assert(states[p].entry.key@ != states[w].entry.key@);
        }
    }
}

/// Position of the state holding `key`.
fn find_key(keys: &Vec<KeyState>, key: &str) -> (r: Option<usize>)
    ensures
        match r {
            Some(p) => p < keys@.len() && keys@[p as int].entry.key@ == key@,
            None => !has_key(keys@, key@),
        },
{
    let mut i: usize = 0;
    while i < keys.len()
        invariant
            i <= keys@.len(),
            forall|j: int| 0 <= j < i ==> #[trigger] keys@[j].entry.key@ != key@,
        decreases keys@.len() - i,
    {
        if str_eq(keys[i].entry.key.as_str(), key) {
            return Some(i);
        }
        i = i + 1;
    }
    None
}

} // verus!
