//! Runtime state of every model in a fleet, and the transitions of its
//! lifecycle: Cold → Deploying → Warm/Hot, Deploying → Error → Cold, and
//! Warm → Cold on eviction.
use vstd::prelude::*;

use super::ModelTier;
use crate::external::MonoClock;
use crate::provider::types::Endpoint;

verus! {

/// Runtime state for a single model in the fleet. Times are readings of
/// the fleet's clock: nanoseconds since it was started.
#[derive(Debug, Clone)]
pub enum ModelState {
    Cold,
    Deploying { started_at: u128 },
    Warm { endpoint: Endpoint, last_request: u128 },
    Hot { endpoint: Endpoint, last_request: u128 },
    Error { message: String, last_attempt: u128, retry_count: u32 },
}

impl ModelState {
    /// The lowercase name of the state.
    pub open spec fn spec_status(&self) -> Seq<char> {
        match self {
            ModelState::Cold => "cold"@,
            ModelState::Deploying { .. } => "deploying"@,
            ModelState::Warm { .. } => "warm"@,
            ModelState::Hot { .. } => "hot"@,
            ModelState::Error { .. } => "error"@,
        }
    }

    /// The endpoint of a ready (warm or hot) model.
    pub open spec fn spec_endpoint(&self) -> Option<Endpoint> {
        match self {
            ModelState::Warm { endpoint, .. } => Some(*endpoint),
            ModelState::Hot { endpoint, .. } => Some(*endpoint),
            _ => None,
        }
    }

    pub fn is_cold(&self) -> (r: bool)
        ensures
            r == (self is Cold),
    {
        matches!(self, ModelState::Cold)
    }

    pub fn is_deploying(&self) -> (r: bool)
        ensures
            r == (self is Deploying),
    {
        matches!(self, ModelState::Deploying { .. })
    }

    /// Warm and hot models have an endpoint and take requests.
    pub fn is_ready(&self) -> (r: bool)
        ensures
            r == (self is Warm || self is Hot),
    {
        matches!(self, ModelState::Warm { .. } | ModelState::Hot { .. })
    }

    pub fn is_error(&self) -> (r: bool)
        ensures
            r == (self is Error),
    {
        matches!(self, ModelState::Error { .. })
    }

    /// The endpoint of a warm or hot model; `None` in every other state.
    pub fn endpoint(&self) -> (r: Option<&Endpoint>)
        ensures
            match self.spec_endpoint() {
                Some(e) => r is Some && *r->0 == e,
                None => r is None,
            },
    {
        match self {
            ModelState::Warm { endpoint, .. } => Some(endpoint),
            ModelState::Hot { endpoint, .. } => Some(endpoint),
            _ => None,
        }
    }

    /// "cold", "deploying", "warm", "hot" or "error".
    pub fn status_str(&self) -> (r: &'static str)
        ensures
            r@ == self.spec_status(),
    {
        match self {
            ModelState::Cold => "cold",
            ModelState::Deploying { .. } => "deploying",
            ModelState::Warm { .. } => "warm",
            ModelState::Hot { .. } => "hot",
            ModelState::Error { .. } => "error",
        }
    }

    /// Records a request made at `now`: a warm or hot model gets `now` as
    /// its last request; its state and endpoint stay. Other states are left
    /// as they are.
    pub fn touch(&mut self, now: u128)
        ensures
            *final(self) == stamped(*old(self), now),
    {
        match self {
            ModelState::Warm { last_request, .. } => {
                *last_request = now;
            },
            ModelState::Hot { last_request, .. } => {
                *last_request = now;
            },
            _ => {},
        }
    }
}

/// `s` with, for a warm or hot model, `now` as its last request.
pub open spec fn stamped(s: ModelState, now: u128) -> ModelState {
    match s {
        ModelState::Warm { endpoint, .. } => ModelState::Warm { endpoint, last_request: now },
        ModelState::Hot { endpoint, .. } => ModelState::Hot { endpoint, last_request: now },
        _ => s,
    }
}

/// Why a lifecycle transition was refused.
#[derive(Debug)]
pub enum StateError {
    UnknownModel(String),
    InvalidTransition { model: String, from: &'static str, to: &'static str },
}

impl StateError {
    pub open spec fn spec_message(&self) -> Seq<char> {
        match self {
            StateError::UnknownModel(m) => "unknown model: "@ + m@,
            StateError::InvalidTransition { model, from, to } => "invalid transition for '"@
                + model@ + "': "@ + from@ + " → "@ + to@,
        }
    }

    /// The error message.
    pub fn to_string(&self) -> (r: String)
        ensures
            r@ == self.spec_message(),
    {
        match self {
            StateError::UnknownModel(m) => crate::text::concat2("unknown model: ", m.as_str()),
            StateError::InvalidTransition { model, from, to } => {
                let mut r = crate::text::concat3("invalid transition for '", model.as_str(), "': ");
                r.append(from);
                r.append(" → ");
                r.append(to);
                r
            },
        }
    }
}

/// The error a transition of `name` towards `to` gives when `fleet` does
/// not allow it: the model is unknown, or its current state is not one the
/// transition starts from.
pub open spec fn refusal(
    fleet: Map<Seq<char>, ModelState>,
    name: Seq<char>,
    to: Seq<char>,
    e: StateError,
) -> bool {
    if !fleet.contains_key(name) {
        e is UnknownModel && e->UnknownModel_0@ == name
    } else {
        &&& e is InvalidTransition
        &&& e->model@ == name
        &&& e->from@ == fleet[name].spec_status()
        &&& e->to@ == to
    }
}

/// `post` is `pre` with only the state of `name` replaced.
pub open spec fn only_changes(
    pre: Map<Seq<char>, ModelState>,
    post: Map<Seq<char>, ModelState>,
    name: Seq<char>,
) -> bool {
    pre.contains_key(name) && post == pre.insert(name, post[name])
}

/// Cold → Deploying.
pub open spec fn begin_deploy_allowed(fleet: Map<Seq<char>, ModelState>, name: Seq<char>) -> bool {
    fleet.contains_key(name) && fleet[name] is Cold
}

pub open spec fn begin_deploy_post(
    pre: Map<Seq<char>, ModelState>,
    post: Map<Seq<char>, ModelState>,
    name: Seq<char>,
) -> bool {
    only_changes(pre, post, name) && post[name] is Deploying
}

/// Deploying → Warm or Hot.
pub open spec fn deploy_done_allowed(fleet: Map<Seq<char>, ModelState>, name: Seq<char>) -> bool {
    fleet.contains_key(name) && fleet[name] is Deploying
}

/// The state a successful deploy leaves: hot for a hot-tier model, warm
/// otherwise, with the new endpoint.
pub open spec fn ready_with(s: ModelState, endpoint: Endpoint, tier: ModelTier) -> bool {
    if tier == ModelTier::Hot {
        s is Hot && s->Hot_endpoint == endpoint
    } else {
        s is Warm && s->Warm_endpoint == endpoint
    }
}

pub open spec fn deploy_succeeded_post(
    pre: Map<Seq<char>, ModelState>,
    post: Map<Seq<char>, ModelState>,
    name: Seq<char>,
    endpoint: Endpoint,
    tier: ModelTier,
) -> bool {
    only_changes(pre, post, name) && ready_with(post[name], endpoint, tier)
}

/// Deploying → Error, with the message and, as retry count, the number of
/// deploys of the model that had failed before this one since it last ran.
pub open spec fn deploy_failed_post(
    pre: Map<Seq<char>, ModelState>,
    post: Map<Seq<char>, ModelState>,
    name: Seq<char>,
    message: String,
    earlier_failures: u32,
) -> bool {
    &&& only_changes(pre, post, name)
    &&& post[name] is Error
    &&& post[name]->message == message
    &&& post[name]->retry_count == earlier_failures
}

/// The count of failed deploys after one more failure (it stops at the
/// largest `u32`).
pub open spec fn one_more_failure(n: u32) -> u32 {
    if n < u32::MAX {
        (n + 1) as u32
    } else {
        n
    }
}

/// Eviction is allowed from Warm (the endpoint is handed back) and from
/// Cold (nothing happens).
pub open spec fn evict_allowed(fleet: Map<Seq<char>, ModelState>, name: Seq<char>) -> bool {
    fleet.contains_key(name) && (fleet[name] is Warm || fleet[name] is Cold)
}

pub open spec fn evict_post(
    pre: Map<Seq<char>, ModelState>,
    post: Map<Seq<char>, ModelState>,
    name: Seq<char>,
    evicted: Option<Endpoint>,
) -> bool {
    &&& post == pre.insert(name, ModelState::Cold)
    &&& evicted == pre[name].spec_endpoint()
}

/// Error → Cold.
pub open spec fn reset_error_allowed(fleet: Map<Seq<char>, ModelState>, name: Seq<char>) -> bool {
    fleet.contains_key(name) && fleet[name] is Error
}

pub open spec fn reset_error_post(
    pre: Map<Seq<char>, ModelState>,
    post: Map<Seq<char>, ModelState>,
    name: Seq<char>,
) -> bool {
    post == pre.insert(name, ModelState::Cold)
}

/// The complete runtime state of the fleet: one state per model name.
#[derive(Debug)]
pub struct FleetState {
    models: Vec<(String, ModelState)>,
    failures: Vec<(String, u32)>,
    clock: MonoClock,
}

pub open spec fn names_unique<V>(s: Seq<(String, V)>) -> bool {
    forall|i: int, j: int| 0 <= i < j < s.len() ==> #[trigger] s[i].0@ != #[trigger] s[j].0@
}

pub open spec fn has_name<V>(s: Seq<(String, V)>, k: Seq<char>) -> bool {
    exists|i: int| 0 <= i < s.len() && #[trigger] s[i].0@ == k
}

pub open spec fn entries_map<V>(s: Seq<(String, V)>) -> Map<Seq<char>, V> {
    Map::new(
        |k: Seq<char>| has_name(s, k),
        |k: Seq<char>| s[choose|i: int| 0 <= i < s.len() && #[trigger] s[i].0@ == k].1,
    )
}

pub proof fn lemma_entry<V>(s: Seq<(String, V)>, i: int)
    requires
        names_unique(s),
        0 <= i < s.len(),
    ensures
        entries_map(s).contains_key(s[i].0@),
        entries_map(s)[s[i].0@] == s[i].1,
{
    assert(has_name(s, s[i].0@));
    let j = choose|j: int| 0 <= j < s.len() && #[trigger] s[j].0@ == s[i].0@;
    assert(s[j].0@ == s[i].0@);
    if j != i {
        if j < i {
            assert(s[j].0@ != s[i].0@);
        } else {
            assert(s[i].0@ != s[j].0@);
        }
    }
}

pub proof fn lemma_update<V>(s: Seq<(String, V)>, i: int, st: V)
    requires
        names_unique(s),
        0 <= i < s.len(),
    ensures
        names_unique(s.update(i, (s[i].0, st))),
        entries_map(s.update(i, (s[i].0, st))) == entries_map(s).insert(s[i].0@, st),
{
    let t = s.update(i, (s[i].0, st));
    assert forall|a: int, b: int| 0 <= a < b < t.len() implies #[trigger] t[a].0@ != #[trigger] t[b].0@ by {
        assert(t[a].0 == s[a].0);
        assert(t[b].0 == s[b].0);
        assert(s[a].0@ != s[b].0@);
    }
    let m1 = entries_map(t);
    let m2 = entries_map(s).insert(s[i].0@, st);
    assert forall|k: Seq<char>| m1.contains_key(k) <==> m2.contains_key(k) by {
        if has_name(t, k) {
            let j = choose|j: int| 0 <= j < t.len() && #[trigger] t[j].0@ == k;
            assert(s[j].0@ == k);
        }
        if has_name(s, k) {
            let j = choose|j: int| 0 <= j < s.len() && #[trigger] s[j].0@ == k;
            assert(t[j].0@ == k);
        }
        if k == s[i].0@ {
            assert(t[i].0@ == k);
        }
    }
    assert forall|k: Seq<char>| #[trigger] m1.contains_key(k) implies m1[k] == m2[k] by {
        let j = choose|j: int| 0 <= j < t.len() && #[trigger] t[j].0@ == k;
        lemma_entry(t, j);
        if j == i {
            assert(m1[k] == st);
        } else {
            assert(s[j].0@ == k);
            lemma_entry(s, j);
            assert(k != s[i].0@) by {
                if j < i {
                    assert(s[j].0@ != s[i].0@);
                } else {
                    assert(s[i].0@ != s[j].0@);
                }
            }
        }
    }
    assert(m1 =~= m2);
}

pub proof fn lemma_push<V>(s: Seq<(String, V)>, name: String, st: V)
    requires
        names_unique(s),
        !has_name(s, name@),
    ensures
        names_unique(s.push((name, st))),
        entries_map(s.push((name, st))) == entries_map(s).insert(name@, st),
{
    let t = s.push((name, st));
    assert forall|a: int, b: int| 0 <= a < b < t.len() implies #[trigger] t[a].0@ != #[trigger] t[b].0@ by {
        if b == s.len() {
            assert(t[a].0@ == s[a].0@);
            if s[a].0@ == name@ {
                assert(has_name(s, name@));
            }
        } else {
            assert(t[a] == s[a]);
            assert(t[b] == s[b]);
        }
    }
    let m1 = entries_map(t);
    let m2 = entries_map(s).insert(name@, st);
    assert forall|k: Seq<char>| m1.contains_key(k) <==> m2.contains_key(k) by {
        if has_name(t, k) {
            let j = choose|j: int| 0 <= j < t.len() && #[trigger] t[j].0@ == k;
            if j < s.len() {
                assert(s[j].0@ == k);
            }
        }
        if has_name(s, k) {
            let j = choose|j: int| 0 <= j < s.len() && #[trigger] s[j].0@ == k;
            assert(t[j].0@ == k);
        }
        if k == name@ {
            assert(t[s.len() as int].0@ == k);
        }
    }
    assert forall|k: Seq<char>| #[trigger] m1.contains_key(k) implies m1[k] == m2[k] by {
        let j = choose|j: int| 0 <= j < t.len() && #[trigger] t[j].0@ == k;
        lemma_entry(t, j);
        if j < s.len() {
            assert(t[j] == s[j]);
            lemma_entry(s, j);
        }
    }
    assert(m1 =~= m2);
}

/// Two entry lists with the same names, in the same order, hold the same
/// names.
pub proof fn lemma_same_names<V, W>(a: Seq<(String, V)>, b: Seq<(String, W)>)
    requires
        names_unique(a),
        a.len() == b.len(),
        forall|i: int| 0 <= i < a.len() ==> #[trigger] b[i].0@ == a[i].0@,
    ensures
        names_unique(b),
        forall|k: Seq<char>| has_name(a, k) <==> has_name(b, k),
        entries_map(a).dom() == entries_map(b).dom(),
{
    assert forall|x: int, y: int| 0 <= x < y < b.len() implies #[trigger] b[x].0@ != #[trigger] b[y].0@ by {
        assert(b[x].0@ == a[x].0@);
        assert(b[y].0@ == a[y].0@);
        assert(a[x].0@ != a[y].0@);
    }
    assert forall|k: Seq<char>| has_name(a, k) <==> has_name(b, k) by {
        if has_name(b, k) {
            let j = choose|j: int| 0 <= j < b.len() && #[trigger] b[j].0@ == k;
            assert(a[j].0@ == b[j].0@);
        }
        if has_name(a, k) {
            let j = choose|j: int| 0 <= j < a.len() && #[trigger] a[j].0@ == k;
            assert(a[j].0@ == b[j].0@);
        }
    }
    assert(entries_map(a).dom() =~= entries_map(b).dom());
}

impl View for FleetState {
    type V = Map<Seq<char>, ModelState>;

    closed spec fn view(&self) -> Map<Seq<char>, ModelState> {
        entries_map(self.models@)
    }
}

impl FleetState {
    /// Model names are unique, and every model has its count of failed
    /// deploys.
    pub closed spec fn wf(&self) -> bool {
        &&& names_unique(self.models@)
        &&& self.failures@.len() == self.models@.len()
        &&& forall|i: int| 0 <= i < self.models@.len() ==> #[trigger] self.failures@[i].0@ == self.models@[i].0@
    }

    spec fn fail_pairs(&self) -> Seq<(String, u32)> {
        self.failures@
    }

    /// For every model, the number of its deploys that have failed since
    /// it last ran (since it was added, or since its last successful
    /// deploy).
    pub closed spec fn failed_deploys(&self) -> Map<Seq<char>, u32> {
        entries_map(self.fail_pairs())
    }

    /// Every model, and no other name, has a count of failed deploys.
    pub proof fn lemma_failures_cover(&self)
        requires
            self.wf(),
        ensures
            self.failed_deploys().dom() == self@.dom(),
    {
        lemma_same_names(self.models@, self.fail_pairs());
    }

    /// The count of model `i` is the `i`-th.
    proof fn lemma_failure_entry(&self, i: int)
        requires
            self.wf(),
            0 <= i < self.models@.len(),
        ensures
            self.failed_deploys().contains_key(self.models@[i].0@),
            self.failed_deploys()[self.models@[i].0@] == self.failures@[i].1,
    {
        lemma_same_names(self.models@, self.fail_pairs());
        lemma_entry(self.fail_pairs(), i);
        assert(self.failures@[i].0@ == self.models@[i].0@);
    }

    /// Sets the count of failed deploys of model `i`.
    fn put_failures(&mut self, i: usize, n: u32)
        requires
            old(self).wf(),
            i < old(self).models@.len(),
        ensures
            final(self).wf(),
            final(self).models@ == old(self).models@,
            final(self)@ == old(self)@,
            final(self).failed_deploys() == old(self).failed_deploys().insert(
                old(self).models@[i as int].0@,
                n,
            ),
    {
        let ghost pre = old(self).fail_pairs();
        proof {
            lemma_same_names(self.models@, pre);
            lemma_update(pre, i as int, n);
        }
        self.failures[i].1 = n;
        assert(self.fail_pairs() =~= pre.update(i as int, (pre[i as int].0, n)));
    }

    /// A reading of the fleet's clock: the nanoseconds since the fleet was
    /// made, the scale of every time its states hold. Nothing is promised
    /// of the value: it depends on when the call is made.
    pub fn now_ns(&self) -> (r: u128) {
        self.clock.now_ns()
    }

    /// The number of deploys of a model that have failed since it last
    /// ran; 0 for an unknown model.
    pub fn failures_of(&self, model_name: &str) -> (r: u32)
        requires
            self.wf(),
        ensures
            self.failed_deploys().contains_key(model_name@) ==> r == self.failed_deploys()[model_name@],
            !self@.contains_key(model_name@) ==> r == 0,
    {
        proof {
            self.lemma_failures_cover();
        }
        match self.find(model_name) {
            Some(i) => {
                proof {
                    self.lemma_failure_entry(i as int);
                }
                self.failures[i].1
            },
            None => 0,
        }
    }

    /// The models and their states, in the order `all` gives them.
    pub closed spec fn entries(&self) -> Seq<(String, ModelState)> {
        self.models@
    }

    /// Index of the entry for `name`.
    fn find(&self, name: &str) -> (r: Option<usize>)
        requires
            self.wf(),
        ensures
            match r {
                Some(i) => i < self.models@.len() && self.models@[i as int].0@ == name@,
                None => !self@.contains_key(name@),
            },
            r is Some <==> self@.contains_key(name@),
    {
        let mut i: usize = 0;
        while i < self.models.len()
            invariant
                i <= self.models@.len(),
                forall|j: int| 0 <= j < i ==> #[trigger] self.models@[j].0@ != name@,
            decreases self.models@.len() - i,
        {
            if crate::text::str_eq(self.models[i].0.as_str(), name) {
                proof {
                    assert(has_name(self.models@, name@));
                }
                return Some(i);
            }
            i = i + 1;
        }
        proof {
            if has_name(self.models@, name@) {
                let j = choose|j: int| 0 <= j < self.models@.len() && #[trigger] self.models@[j].0@ == name@;
                assert(self.models@[j].0@ != name@);
            }
        }
        None
    }

    /// Replaces the state at index `i`.
    fn put(&mut self, i: usize, st: ModelState)
        requires
            old(self).wf(),
            i < old(self).models@.len(),
        ensures
            final(self).wf(),
            final(self)@ == old(self)@.insert(old(self).models@[i as int].0@, st),
            final(self).models@.len() == old(self).models@.len(),
            forall|j: int| 0 <= j < final(self).models@.len() ==> #[trigger] final(self).models@[j].0 == old(self).models@[j].0,
            final(self).failed_deploys() == old(self).failed_deploys(),
    {
        proof {
            lemma_update(self.models@, i as int, st);
        }
        let ghost pre = self.models@;
        self.models[i].1 = st;
        assert(self.models@ =~= pre.update(i as int, (pre[i as int].0, st)));
    }

    /// An empty fleet.
    pub fn new() -> (r: FleetState)
        ensures
            r.wf(),
            r@ == Map::<Seq<char>, ModelState>::empty(),
            r.failed_deploys() == Map::<Seq<char>, u32>::empty(),
    {
        let r = FleetState { models: Vec::new(), failures: Vec::new(), clock: MonoClock::start() };
        assert(r@ =~= Map::<Seq<char>, ModelState>::empty());
        assert(r.failed_deploys() =~= Map::<Seq<char>, u32>::empty());
        r
    }

    /// Adds a model that is not in the fleet yet, with no failed deploys.
    fn push_model(&mut self, name: String, st: ModelState)
        requires
            old(self).wf(),
            !old(self)@.contains_key(name@),
        ensures
            final(self).wf(),
            final(self)@ == old(self)@.insert(name@, st),
            final(self).failed_deploys() == old(self).failed_deploys().insert(name@, 0),
    {
        let ghost pairs = self.fail_pairs();
        let counted = name.clone();
        proof {
            lemma_same_names(self.models@, pairs);
            lemma_push(self.models@, name, st);
            lemma_push(pairs, counted, 0u32);
        }
        self.models.push((name, st));
        self.failures.push((counted, 0));
        assert(self.fail_pairs() =~= pairs.push((counted, 0u32)));
    }

    /// A fleet with one cold model for every name given; a name given twice
    /// is one model.
    pub fn init_from_config(model_names: &[String]) -> (r: FleetState)
        ensures
            r.wf(),
            forall|k: Seq<char>|
                #[trigger] r@.contains_key(k) <==> exists|i: int|
                    0 <= i < model_names@.len() && #[trigger] model_names@[i]@ == k,
            forall|k: Seq<char>| #[trigger] r@.contains_key(k) ==> r@[k] is Cold,
            forall|k: Seq<char>| #[trigger] r@.contains_key(k) ==> r.failed_deploys().contains_key(k)
                && r.failed_deploys()[k] == 0,
    {
        let mut r = FleetState::new();
        let mut i: usize = 0;
        while i < model_names.len()
            invariant
                i <= model_names@.len(),
                r.wf(),
                forall|k: Seq<char>|
                    #[trigger] r@.contains_key(k) <==> exists|j: int|
                        0 <= j < i && #[trigger] model_names@[j]@ == k,
                forall|k: Seq<char>| #[trigger] r@.contains_key(k) ==> r@[k] is Cold,
                forall|k: Seq<char>| #[trigger] r@.contains_key(k) ==> r.failed_deploys().contains_key(k)
                    && r.failed_deploys()[k] == 0,
            decreases model_names@.len() - i,
        {
            let name = &model_names[i];
            match r.find(name.as_str()) {
                Some(_) => {},
                None => {
                    let n = name.clone();
                    r.push_model(n, ModelState::Cold);
                },
            }
            assert forall|k: Seq<char>|
                #[trigger] r@.contains_key(k) <==> exists|j: int|
                    0 <= j < i + 1 && #[trigger] model_names@[j]@ == k by {
                if k == model_names@[i as int]@ {
                    assert(model_names@[i as int]@ == k);
                }
            }
            i = i + 1;
        }
        r
    }

    /// The state of a model.
    pub fn get(&self, model_name: &str) -> (r: Option<&ModelState>)
        requires
            self.wf(),
        ensures
            r is Some <==> self@.contains_key(model_name@),
            r matches Some(s) ==> *s == self@[model_name@],
    {
        match self.find(model_name) {
            Some(i) => {
                proof {
                    lemma_entry(self.models@, i as int);
                }
                Some(&self.models[i].1)
            },
            None => None,
        }
    }

    /// The state of a model, for changing in place. Whatever is written
    /// through the reference becomes the model's state; the other models
    /// stay as they are.
    pub fn get_mut(&mut self, model_name: &str) -> (r: Option<&mut ModelState>)
        requires
            old(self).wf(),
        ensures
            r is Some <==> old(self)@.contains_key(model_name@),
            r is None ==> *final(self) == *old(self),
            r matches Some(m) ==> *m == old(self)@[model_name@] && final(self).wf() && final(self)@
                == old(self)@.insert(model_name@, *final(m)),
            final(self).failed_deploys() == old(self).failed_deploys(),
    {
        match self.find(model_name) {
            Some(i) => {
                proof {
                    lemma_entry(self.models@, i as int);
                }
                let ghost pre = self.models@;
                let r = &mut self.models[i].1;
                proof {
                    lemma_update(pre, i as int, *final(r));
                }
                Some(r)
            },
            None => None,
        }
    }

    /// Sets the state of a model, adding the model if it is new.
    pub fn set(&mut self, model_name: &str, state: ModelState)
        requires
            old(self).wf(),
        ensures
            final(self).wf(),
            final(self)@ == old(self)@.insert(model_name@, state),
            final(self).failed_deploys() == if old(self)@.contains_key(model_name@) {
                old(self).failed_deploys()
            } else {
                old(self).failed_deploys().insert(model_name@, 0)
            },
    {
        match self.find(model_name) {
            Some(i) => {
                self.put(i, state);
            },
            None => {
                let name = crate::text::owned(model_name);
                self.push_model(name, state);
            },
        }
    }

    /// Every model and its state, each name once.
    pub fn all(&self) -> (r: &Vec<(String, ModelState)>)
        requires
            self.wf(),
        ensures
            r@ == self.entries(),
            names_unique(r@),
            forall|i: int| 0 <= i < r@.len() ==> #[trigger] self@.contains_key(r@[i].0@)
                && self@[r@[i].0@] == r@[i].1,
            forall|k: Seq<char>| #[trigger] self@.contains_key(k) ==> has_name(r@, k),
    {
        proof {
            assert forall|i: int| 0 <= i < self.models@.len() implies #[trigger] self@.contains_key(
                self.models@[i].0@,
            ) && self@[self.models@[i].0@] == self.models@[i].1 by {
                lemma_entry(self.models@, i);
            }
        }
        &self.models
    }

    /// Cold → Deploying. Any other state, or an unknown model, is refused
    /// and nothing changes.
    pub fn begin_deploy(&mut self, model_name: &str) -> (r: Result<(), StateError>)
        requires
            old(self).wf(),
        ensures
            final(self).wf(),
            r is Ok <==> begin_deploy_allowed(old(self)@, model_name@),
            r is Ok ==> begin_deploy_post(old(self)@, final(self)@, model_name@),
            r matches Err(e) ==> final(self)@ == old(self)@ && refusal(
                old(self)@,
                model_name@,
                "deploying"@,
                e,
            ),
            final(self).failed_deploys() == old(self).failed_deploys(),
    {
        let i = match self.find(model_name) {
            Some(i) => i,
            None => {
                return Err(StateError::UnknownModel(crate::text::owned(model_name)));
            },
        };
        proof {
            lemma_entry(self.models@, i as int);
        }
        if self.models[i].1.is_cold() {
            let st = ModelState::Deploying { started_at: self.clock.now_ns() };
            self.put(i, st);
            Ok(())
        } else {
            Err(
                StateError::InvalidTransition {
                    model: crate::text::owned(model_name),
                    from: self.models[i].1.status_str(),
                    to: "deploying",
                },
            )
        }
    }

    /// Deploying → Hot (hot tier) or Warm (any other tier), with the new
    /// endpoint. Any other state, or an unknown model, is refused and
    /// nothing changes.
    pub fn deploy_succeeded(&mut self, model_name: &str, endpoint: Endpoint, tier: ModelTier) -> (r:
        Result<(), StateError>)
        requires
            old(self).wf(),
        ensures
            final(self).wf(),
            r is Ok <==> deploy_done_allowed(old(self)@, model_name@),
            r is Ok ==> deploy_succeeded_post(old(self)@, final(self)@, model_name@, endpoint, tier),
            r matches Err(e) ==> final(self)@ == old(self)@ && refusal(
                old(self)@,
                model_name@,
                "warm/hot"@,
                e,
            ),
            r is Ok ==> final(self).failed_deploys() == old(self).failed_deploys().insert(model_name@, 0),
            r is Err ==> final(self).failed_deploys() == old(self).failed_deploys(),
    {
        let i = match self.find(model_name) {
            Some(i) => i,
            None => {
                return Err(StateError::UnknownModel(crate::text::owned(model_name)));
            },
        };
        proof {
            lemma_entry(self.models@, i as int);
        }
        if !self.models[i].1.is_deploying() {
            return Err(
                StateError::InvalidTransition {
                    model: crate::text::owned(model_name),
                    from: self.models[i].1.status_str(),
                    to: "warm/hot",
                },
            );
        }
        let now = self.clock.now_ns();
        let st = match tier {
            ModelTier::Hot => ModelState::Hot { endpoint, last_request: now },
            _ => ModelState::Warm { endpoint, last_request: now },
        };
        self.put(i, st);
        self.put_failures(i, 0);
        Ok(())
    }

    /// Deploying → Error, with the message and, as retry count, the number
    /// of earlier deploys of the model that failed since it last ran; that
    /// number grows by one. Any other state, or an unknown model, is
    /// refused and nothing changes.
    pub fn deploy_failed(&mut self, model_name: &str, message: String) -> (r: Result<(), StateError>)
        requires
            old(self).wf(),
        ensures
            final(self).wf(),
            r is Ok <==> deploy_done_allowed(old(self)@, model_name@),
            r is Ok ==> deploy_failed_post(
                old(self)@,
                final(self)@,
                model_name@,
                message,
                old(self).failed_deploys()[model_name@],
            ),
            r is Ok ==> final(self).failed_deploys() == old(self).failed_deploys().insert(
                model_name@,
                one_more_failure(old(self).failed_deploys()[model_name@]),
            ),
            r matches Err(e) ==> final(self)@ == old(self)@ && refusal(
                old(self)@,
                model_name@,
                "error"@,
                e,
            ),
            r is Err ==> final(self).failed_deploys() == old(self).failed_deploys(),
    {
        let i = match self.find(model_name) {
            Some(i) => i,
            None => {
                return Err(StateError::UnknownModel(crate::text::owned(model_name)));
            },
        };
        proof {
            lemma_entry(self.models@, i as int);
        }
        if !self.models[i].1.is_deploying() {
            return Err(
                StateError::InvalidTransition {
                    model: crate::text::owned(model_name),
                    from: self.models[i].1.status_str(),
                    to: "error",
                },
            );
        }
        proof {
            self.lemma_failure_entry(i as int);
        }
        let earlier = self.failures[i].1;
        let st = ModelState::Error { message, last_attempt: self.clock.now_ns(), retry_count: earlier };
        self.put(i, st);
        let next = if earlier < u32::MAX {
            earlier + 1
        } else {
            earlier
        };
        self.put_failures(i, next);
        Ok(())
    }

    /// Warm → Cold, handing back the endpoint to delete; Cold stays Cold
    /// with nothing handed back. Hot, Deploying and Error are refused and
    /// nothing changes, as is an unknown model.
    pub fn evict(&mut self, model_name: &str) -> (r: Result<Option<Endpoint>, StateError>)
        requires
            old(self).wf(),
        ensures
            final(self).wf(),
            r is Ok <==> evict_allowed(old(self)@, model_name@),
            r matches Ok(ep) ==> evict_post(old(self)@, final(self)@, model_name@, ep),
            r matches Err(e) ==> final(self)@ == old(self)@ && refusal(
                old(self)@,
                model_name@,
                "cold"@,
                e,
            ),
            final(self).failed_deploys() == old(self).failed_deploys(),
    {
        let i = match self.find(model_name) {
            Some(i) => i,
            None => {
                return Err(StateError::UnknownModel(crate::text::owned(model_name)));
            },
        };
        proof {
            lemma_entry(self.models@, i as int);
        }
        let ep = match &self.models[i].1 {
            ModelState::Warm { endpoint, .. } => endpoint.duplicate(),
            ModelState::Cold => {
                proof {
                    assert(old(self)@.insert(model_name@, ModelState::Cold) =~= old(self)@);
                }
                return Ok(None);
            },
            _ => {
                return Err(
                    StateError::InvalidTransition {
                        model: crate::text::owned(model_name),
                        from: self.models[i].1.status_str(),
                        to: "cold",
                    },
                );
            },
        };
        self.put(i, ModelState::Cold);
        Ok(Some(ep))
    }

    /// Error → Cold, ready for another deploy. Any other state, or an
    /// unknown model, is refused and nothing changes.
    pub fn reset_error(&mut self, model_name: &str) -> (r: Result<(), StateError>)
        requires
            old(self).wf(),
        ensures
            final(self).wf(),
            r is Ok <==> reset_error_allowed(old(self)@, model_name@),
            r is Ok ==> reset_error_post(old(self)@, final(self)@, model_name@),
            r matches Err(e) ==> final(self)@ == old(self)@ && refusal(
                old(self)@,
                model_name@,
                "cold"@,
                e,
            ),
            final(self).failed_deploys() == old(self).failed_deploys(),
    {
        let i = match self.find(model_name) {
            Some(i) => i,
            None => {
                return Err(StateError::UnknownModel(crate::text::owned(model_name)));
            },
        };
        proof {
            lemma_entry(self.models@, i as int);
        }
        if !self.models[i].1.is_error() {
            return Err(
                StateError::InvalidTransition {
                    model: crate::text::owned(model_name),
                    from: self.models[i].1.status_str(),
                    to: "cold",
                },
            );
        }
        self.put(i, ModelState::Cold);
        Ok(())
    }
}

/// The record of one model that a persisted fleet state holds.
pub open spec fn persisted_as(st: ModelState, p: PersistedModelState) -> bool {
    &&& p.state@ == st.spec_status()
    &&& match st {
        ModelState::Warm { endpoint, .. } => {
            &&& p.endpoint_id == Some(endpoint.id)
            &&& p.last_request is Some
            &&& p.error_message is None
            &&& p.retry_count is None
        },
        ModelState::Hot { endpoint, .. } => {
            &&& p.endpoint_id == Some(endpoint.id)
            &&& p.last_request is Some
            &&& p.error_message is None
            &&& p.retry_count is None
        },
        ModelState::Error { message, retry_count, .. } => {
            &&& p.endpoint_id is None
            &&& p.last_request is None
            &&& p.error_message == Some(message)
            &&& p.retry_count == Some(retry_count)
        },
        _ => {
            &&& p.endpoint_id is None
            &&& p.last_request is None
            &&& p.error_message is None
            &&& p.retry_count is None
        },
    }
}

/// Snapshot of one model's state for persistence. `last_request` is the
/// time of the snapshot, as RFC 3339 text, for a ready model.
#[derive(Debug, Clone)]
pub struct PersistedModelState {
    pub endpoint_id: Option<String>,
    pub state: String,
    pub last_request: Option<String>,
    pub error_message: Option<String>,
    pub retry_count: Option<u32>,
}

/// Snapshot of the fleet state for persistence: one record per model.
#[derive(Debug, Clone)]
pub struct PersistedFleetState {
    pub models: Vec<(String, PersistedModelState)>,
}

impl PersistedFleetState {
    /// A snapshot with no models.
    pub fn default() -> (r: PersistedFleetState)
        ensures
            r.models@.len() == 0,
    {
        PersistedFleetState { models: Vec::new() }
    }

    /// The record of a model; the first one when a name occurs twice.
    pub fn get(&self, model_name: &str) -> (r: Option<&PersistedModelState>)
        ensures
            r is Some <==> has_name(self.models@, model_name@),
            names_unique(self.models@) ==> (r matches Some(p) ==> *p == entries_map(
                self.models@,
            )[model_name@]),
    {
        let mut i: usize = 0;
        while i < self.models.len()
            invariant
                i <= self.models@.len(),
                forall|j: int| 0 <= j < i ==> #[trigger] self.models@[j].0@ != model_name@,
            decreases self.models@.len() - i,
        {
            if crate::text::str_eq(self.models[i].0.as_str(), model_name) {
                proof {
                    assert(has_name(self.models@, model_name@));
                    if names_unique(self.models@) {
                        lemma_entry(self.models@, i as int);
                    }
                }
                return Some(&self.models[i].1);
            }
            i = i + 1;
        }
        proof {
            if has_name(self.models@, model_name@) {
                let j = choose|j: int| 0 <= j < self.models@.len() && #[trigger] self.models@[j].0@ == model_name@;
                assert(self.models@[j].0@ != model_name@);
            }
        }
        None
    }
}

impl ModelState {
    /// The persisted record of this state.
    pub fn to_persisted_model(&self) -> (r: PersistedModelState)
        ensures
            persisted_as(*self, r),
    {
        match self {
            ModelState::Cold => PersistedModelState {
                endpoint_id: None,
                state: String::from_str("cold"),
                last_request: None,
                error_message: None,
                retry_count: None,
            },
            ModelState::Deploying { .. } => PersistedModelState {
                endpoint_id: None,
                state: String::from_str("deploying"),
                last_request: None,
                error_message: None,
                retry_count: None,
            },
            ModelState::Warm { endpoint, .. } => PersistedModelState {
                endpoint_id: Some(endpoint.id.clone()),
                state: String::from_str("warm"),
                last_request: Some(crate::external::utc_now_rfc3339()),
                error_message: None,
                retry_count: None,
            },
            ModelState::Hot { endpoint, .. } => PersistedModelState {
                endpoint_id: Some(endpoint.id.clone()),
                state: String::from_str("hot"),
                last_request: Some(crate::external::utc_now_rfc3339()),
                error_message: None,
                retry_count: None,
            },
            ModelState::Error { message, retry_count, .. } => PersistedModelState {
                endpoint_id: None,
                state: String::from_str("error"),
                last_request: None,
                error_message: Some(message.clone()),
                retry_count: Some(*retry_count),
            },
        }
    }
}

impl FleetState {
    /// Snapshot of the runtime state for persistence: every model, with
    /// its state name, its endpoint id when ready, and its error message
    /// and retry count when failed.
    pub fn to_persisted(&self) -> (r: PersistedFleetState)
        requires
            self.wf(),
        ensures
            names_unique(r.models@),
            entries_map(r.models@).dom() == self@.dom(),
            forall|k: Seq<char>| #[trigger] self@.contains_key(k) ==> persisted_as(
                self@[k],
                entries_map(r.models@)[k],
            ),
    {
        let mut out: Vec<(String, PersistedModelState)> = Vec::new();
        let mut i: usize = 0;
        while i < self.models.len()
            invariant
                i <= self.models@.len(),
                out@.len() == i,
                forall|j: int| 0 <= j < i ==> #[trigger] out@[j].0 == self.models@[j].0,
                forall|j: int| 0 <= j < i ==> persisted_as(self.models@[j].1, #[trigger] out@[j].1),
            decreases self.models@.len() - i,
        {
            let p = self.models[i].1.to_persisted_model();
            out.push((self.models[i].0.clone(), p));
            i = i + 1;
        }
        let r = PersistedFleetState { models: out };
        proof {
            let a = self.models@;
            let b = r.models@;
            assert forall|x: int, y: int| 0 <= x < y < b.len() implies #[trigger] b[x].0@ != #[trigger] b[y].0@ by {
                assert(b[x].0 == a[x].0);
                assert(b[y].0 == a[y].0);
                assert(a[x].0@ != a[y].0@);
            }
            assert forall|k: Seq<char>| has_name(b, k) <==> has_name(a, k) by {
                if has_name(b, k) {
                    let j = choose|j: int| 0 <= j < b.len() && #[trigger] b[j].0@ == k;
                    assert(a[j].0 == b[j].0);
                }
                if has_name(a, k) {
                    let j = choose|j: int| 0 <= j < a.len() && #[trigger] a[j].0@ == k;
                    assert(a[j].0 == b[j].0);
                }
            }
            assert(entries_map(b).dom() =~= self@.dom());
            assert forall|k: Seq<char>| #[trigger] self@.contains_key(k) implies persisted_as(
                self@[k],
                entries_map(b)[k],
            ) by {
                let j = choose|j: int| 0 <= j < a.len() && #[trigger] a[j].0@ == k;
                lemma_entry(a, j);
                assert(a[j].0 == b[j].0);
                lemma_entry(b, j);
            }
        }
        r
    }
}

/// Deploying a cold model and then evicting it once it is warm hands back
/// the endpoint it was deployed with, and leaves the fleet exactly as it
/// was before the deploy.
pub proof fn law_deploy_then_evict_restores(
    s0: Map<Seq<char>, ModelState>,
    s1: Map<Seq<char>, ModelState>,
    s2: Map<Seq<char>, ModelState>,
    s3: Map<Seq<char>, ModelState>,
    name: Seq<char>,
    endpoint: Endpoint,
    tier: ModelTier,
    evicted: Option<Endpoint>,
)
    requires
        begin_deploy_allowed(s0, name),
        begin_deploy_post(s0, s1, name),
        deploy_succeeded_post(s1, s2, name, endpoint, tier),
        tier != ModelTier::Hot,
        evict_post(s2, s3, name, evicted),
    ensures
        deploy_done_allowed(s1, name),
        evict_allowed(s2, name),
        evicted == Some(endpoint),
        s3 == s0,
{
    assert(s3 =~= s0);
}

/// A model deployed on the hot tier cannot be evicted.
pub proof fn law_hot_not_evictable(
    s1: Map<Seq<char>, ModelState>,
    s2: Map<Seq<char>, ModelState>,
    name: Seq<char>,
    endpoint: Endpoint,
)
    requires
        deploy_succeeded_post(s1, s2, name, endpoint, ModelTier::Hot),
    ensures
        !evict_allowed(s2, name),
{
}

/// A failed deploy, once its error is reset, leaves the fleet as it was
/// before the deploy began, so the model can be deployed again.
pub proof fn law_failed_deploy_reset_restores(
    s0: Map<Seq<char>, ModelState>,
    s1: Map<Seq<char>, ModelState>,
    s2: Map<Seq<char>, ModelState>,
    s3: Map<Seq<char>, ModelState>,
    name: Seq<char>,
    message: String,
    earlier_failures: u32,
)
    requires
        begin_deploy_allowed(s0, name),
        begin_deploy_post(s0, s1, name),
        deploy_failed_post(s1, s2, name, message, earlier_failures),
        reset_error_post(s2, s3, name),
    ensures
        !begin_deploy_allowed(s2, name),
        reset_error_allowed(s2, name),
        s3 == s0,
        begin_deploy_allowed(s3, name),
{
    assert(s3 =~= s0);
}

/// A deploy that has begun cannot begin again until it ends.
pub proof fn law_no_double_deploy(
    s0: Map<Seq<char>, ModelState>,
    s1: Map<Seq<char>, ModelState>,
    name: Seq<char>,
)
    requires
        begin_deploy_post(s0, s1, name),
    ensures
        !begin_deploy_allowed(s1, name),
        deploy_done_allowed(s1, name),
{
}

/// No transition adds or removes a model: the set of model names stays.
pub proof fn law_transitions_keep_models(
    pre: Map<Seq<char>, ModelState>,
    post: Map<Seq<char>, ModelState>,
    name: Seq<char>,
)
    requires
        pre.contains_key(name),
        only_changes(pre, post, name) || post == pre.insert(name, ModelState::Cold),
    ensures
        post.dom() == pre.dom(),
{
    assert(post.dom() =~= pre.dom());
}

impl Default for FleetState {
    fn default() -> (r: FleetState)
        ensures
            r.wf(),
            r@ == Map::<Seq<char>, ModelState>::empty(),
            r.failed_deploys() == Map::<Seq<char>, u32>::empty(),
    {
        FleetState::new()
    }
}

} // verus!
