//! Start-up of a fleet: which provider it runs on, and how the state of its
//! models is restored from a previous run and from the endpoints the
//! provider already has.
pub mod autoscaler;
pub mod model_manager;

use vstd::prelude::*;

use crate::fleet::state::{
    begin_deploy_post, deploy_succeeded_post, ready_with, FleetState, ModelState,
};
use crate::fleet::{display_names, spec_display_name, FleetConfig, ModelEntry, ModelTier};
use crate::provider::types::Endpoint;
use crate::provider::ProviderKind;
use crate::text::{contains_str, has_substring, replace_slashes, slashes_to_dashes, spec_to_lowercase, str_eq, to_lowercase};

verus! {

/// Why the orchestrator could not start or stopped.
#[derive(Debug)]
pub enum OrchestratorError {
    Config(String),
    Gateway(String),
}

impl OrchestratorError {
    pub open spec fn spec_message(&self) -> Seq<char> {
        match self {
            OrchestratorError::Config(m) => "config error: "@ + m@,
            OrchestratorError::Gateway(m) => "gateway error: "@ + m@,
        }
    }

    pub fn to_string(&self) -> (r: String)
        ensures
            r@ == self.spec_message(),
    {
        match self {
            OrchestratorError::Config(m) => crate::text::concat2("config error: ", m.as_str()),
            OrchestratorError::Gateway(m) => crate::text::concat2("gateway error: ", m.as_str()),
        }
    }
}

/// The provider a fleet configuration names; only "runpod" is supported.
pub fn fleet_provider_kind(name: &str) -> (r: Result<ProviderKind, OrchestratorError>)
    ensures
        name@ == "runpod"@ ==> r == Ok::<ProviderKind, OrchestratorError>(ProviderKind::RunPod),
        name@ != "runpod"@ ==> (r matches Err(OrchestratorError::Config(m)) && m@
            == "unsupported provider: "@ + name@),
{
    if str_eq(name, "runpod") {
        Ok(ProviderKind::RunPod)
    } else {
        Err(OrchestratorError::Config(crate::text::concat2("unsupported provider: ", name)))
    }
}

/// The error when no API key is known for the provider.
pub fn missing_key_error(kind: ProviderKind) -> (r: OrchestratorError)
    ensures
        r matches OrchestratorError::Config(m) && m@ == "no API key for "@ + kind.spec_name()
            + ". Run `rpx login` first."@,
{
    let n = kind.to_string();
    OrchestratorError::Config(crate::text::concat3("no API key for ", n.as_str(), ". Run `rpx login` first."))
}

/// A model's state without its times: what restoring decides on.
#[derive(Debug)]
pub enum ModelShape {
    Cold,
    Deploying,
    Warm(Endpoint),
    Hot(Endpoint),
    Error(String, u32),
}

pub open spec fn shape(s: ModelState) -> ModelShape {
    match s {
        ModelState::Cold => ModelShape::Cold,
        ModelState::Deploying { .. } => ModelShape::Deploying,
        ModelState::Warm { endpoint, .. } => ModelShape::Warm(endpoint),
        ModelState::Hot { endpoint, .. } => ModelShape::Hot(endpoint),
        ModelState::Error { message, retry_count, .. } => ModelShape::Error(message, retry_count),
    }
}

/// The shapes of every model of a fleet.
pub open spec fn shapes(m: Map<Seq<char>, ModelState>) -> Map<Seq<char>, ModelShape> {
    m.map_values(|s: ModelState| shape(s))
}

/// A cold model takes the endpoint: hot for a hot-tier model, warm
/// otherwise. Any other model is left as it is.
pub open spec fn adopt(
    m: Map<Seq<char>, ModelShape>,
    name: Seq<char>,
    e: Endpoint,
    tier: ModelTier,
) -> Map<Seq<char>, ModelShape> {
    if m.contains_key(name) && m[name] is Cold {
        m.insert(
            name,
            if tier == ModelTier::Hot {
                ModelShape::Hot(e)
            } else {
                ModelShape::Warm(e)
            },
        )
    } else {
        m
    }
}

/// The tier of the first model served under `name`; warm when there is
/// none.
pub open spec fn tier_for(models: Seq<ModelEntry>, name: Seq<char>) -> ModelTier
    decreases models.len(),
{
    if models.len() == 0 {
        ModelTier::Warm
    } else if spec_display_name(models[0]) == name {
        models[0].tier
    } else {
        tier_for(models.drop_first(), name)
    }
}

/// The shapes after restoring the endpoints found again for the models of
/// a previous run, in order, and how many models were restored.
pub open spec fn restored(
    m: Map<Seq<char>, ModelShape>,
    found: Seq<(Seq<char>, Option<Endpoint>)>,
    models: Seq<ModelEntry>,
) -> (Map<Seq<char>, ModelShape>, nat)
    decreases found.len(),
{
    if found.len() == 0 {
        (m, 0)
    } else {
        let (m1, c1) = restored(m, found.drop_last(), models);
        let (name, ep) = found.last();
        match ep {
            Some(e) => if m1.contains_key(name) && m1[name] is Cold {
                (adopt(m1, name, e, tier_for(models, name)), c1 + 1)
            } else {
                (m1, c1)
            },
            None => (m1, c1),
        }
    }
}

proof fn lemma_shapes_insert(m: Map<Seq<char>, ModelState>, k: Seq<char>, s: ModelState)
    ensures
        shapes(m.insert(k, s)) == shapes(m).insert(k, shape(s)),
{
    assert(shapes(m.insert(k, s)) =~= shapes(m).insert(k, shape(s)));
}

/// Makes a cold model ready with `endpoint`, as a finished deploy does;
/// true when it was cold, and nothing changes when it was not.
pub fn adopt_endpoint(fleet: &mut FleetState, name: &str, endpoint: Endpoint, tier: ModelTier) -> (r: bool)
    requires
        old(fleet).wf(),
    ensures
        final(fleet).wf(),
        r == (old(fleet)@.contains_key(name@) && old(fleet)@[name@] is Cold),
        shapes(final(fleet)@) == adopt(shapes(old(fleet)@), name@, endpoint, tier),
{
    let cold = match fleet.get(name) {
        Some(s) => s.is_cold(),
        None => false,
    };
    if !cold {
        return false;
    }
    let ghost pre = fleet@;
    let _ = fleet.begin_deploy(name);
    let ghost mid = fleet@;
    let ghost ep = endpoint;
    let _ = fleet.deploy_succeeded(name, endpoint, tier);
    proof {
        assert(begin_deploy_post(pre, mid, name@));
        assert(deploy_succeeded_post(mid, fleet@, name@, ep, tier));
        lemma_shapes_insert(pre, name@, mid[name@]);
        lemma_shapes_insert(mid, name@, fleet@[name@]);
        assert(mid == pre.insert(name@, mid[name@]));
        assert(fleet@ == mid.insert(name@, fleet@[name@]));
        assert(pre.insert(name@, mid[name@]).insert(name@, fleet@[name@]) =~= pre.insert(
            name@,
            fleet@[name@],
        ));
        assert(shapes(fleet@) =~= shapes(pre).insert(name@, shape(fleet@[name@])));
    }
    true
}

/// The tier of the first model served under `name` (warm when none is).
pub fn tier_of(config: &FleetConfig, name: &str) -> (r: ModelTier)
    ensures
        r == tier_for(config.models@, name@),
{
    let mut i: usize = 0;
    assert(config.models@.skip(0) =~= config.models@);
    while i < config.models.len()
        invariant
            i <= config.models@.len(),
            tier_for(config.models@, name@) == tier_for(config.models@.skip(i as int), name@),
        decreases config.models@.len() - i,
    {
        let ghost rest = config.models@.skip(i as int);
        assert(rest.drop_first() =~= config.models@.skip(i + 1));
        assert(rest[0] == config.models@[i as int]);
        let n = config.models[i].display_name();
        if str_eq(n.as_str(), name) {
            return config.models[i].tier;
        }
        i = i + 1;
    }
    ModelTier::Warm
}

/// Restores the endpoints of a previous run: `found` holds, in order, each
/// persisted model with the endpoint the provider still has for it (`None`
/// where it has none any more, and the model stays cold). A cold model
/// takes the first endpoint found for it. Returns how many models were
/// restored.
pub fn restore_persisted(
    fleet: &mut FleetState,
    config: &FleetConfig,
    found: Vec<(String, Option<Endpoint>)>,
) -> (r: usize)
    requires
        old(fleet).wf(),
        found@.len() < usize::MAX,
    ensures
        final(fleet).wf(),
        ({
            let (m, c) = restored(
                shapes(old(fleet)@),
                found@.map_values(|f: (String, Option<Endpoint>)| (f.0@, f.1)),
                config.models@,
            );
            shapes(final(fleet)@) == m && r == c
        }),
{
    let ghost fs = found@.map_values(|f: (String, Option<Endpoint>)| (f.0@, f.1));
    let ghost start = shapes(fleet@);
    let mut found = found;
    let n = found.len();
    let mut i: usize = 0;
    let mut count: usize = 0;
    let ghost orig = found@;
    while i < n
        invariant
            n == orig.len(),
            n < usize::MAX,
            i <= n,
            fleet.wf(),
            found@.len() == n,
            found@ == orig,
            fs == orig.map_values(|f: (String, Option<Endpoint>)| (f.0@, f.1)),
            count <= i,
            ({
                let (m, c) = restored(start, fs.take(i as int), config.models@);
                shapes(fleet@) == m && count == c
            }),
        decreases n - i,
    {
        assert(fs.take(i + 1).drop_last() =~= fs.take(i as int));
        assert(fs.take(i + 1).last() == fs[i as int]);
        let name = found[i].0.clone();
        match &found[i].1 {
            Some(ep) => {
                let tier = tier_of(config, name.as_str());
                let e = ep.duplicate();
                let adopted = adopt_endpoint(fleet, name.as_str(), e, tier);
                if adopted {
                    count = count + 1;
                }
            },
            None => {},
        }
        i = i + 1;
    }
    assert(fs.take(n as int) =~= fs);
    count
}

/// The live endpoint's name tells that it serves the model: it contains
/// the model's display name, or its id with '/' as '-', lowercased.
pub open spec fn serves(e: Endpoint, m: ModelEntry) -> bool {
    has_substring(e.name@, spec_display_name(m)) || has_substring(
        e.name@,
        spec_to_lowercase(slashes_to_dashes(m.id@)),
    )
}

/// The shapes after the endpoint is given to the first model, from
/// position `j` on, that it serves and that is cold.
pub open spec fn adopt_from(
    m: Map<Seq<char>, ModelShape>,
    models: Seq<ModelEntry>,
    e: Endpoint,
    j: int,
) -> Map<Seq<char>, ModelShape>
    decreases models.len() - j,
{
    if j < 0 || j >= models.len() {
        m
    } else {
        let name = spec_display_name(models[j]);
        if serves(e, models[j]) && m.contains_key(name) && m[name] is Cold {
            adopt(m, name, e, models[j].tier)
        } else {
            adopt_from(m, models, e, j + 1)
        }
    }
}

/// The shapes after each live endpoint, in order, is given to the first
/// cold model it serves.
pub open spec fn discovered(m: Map<Seq<char>, ModelShape>, live: Seq<Endpoint>, models: Seq<ModelEntry>) -> Map<
    Seq<char>,
    ModelShape,
>
    decreases live.len(),
{
    if live.len() == 0 {
        m
    } else {
        adopt_from(discovered(m, live.drop_last(), models), models, live.last(), 0)
    }
}

/// Whether a live endpoint serves a model (see `serves`).
pub fn endpoint_serves(e: &Endpoint, m: &ModelEntry) -> (r: bool)
    ensures
        r == serves(*e, *m),
{
    let name = m.display_name();
    if contains_str(e.name.as_str(), name.as_str()) {
        return true;
    }
    let replaced = replace_slashes(m.id.as_str());
    let lower = to_lowercase(replaced.as_str());
    contains_str(e.name.as_str(), lower.as_str())
}

/// Gives the live endpoints of the provider to the models they serve: each
/// endpoint, in order, goes to the first cold model (in configuration
/// order) whose name it carries.
pub fn discover_endpoints(fleet: &mut FleetState, config: &FleetConfig, live: &Vec<Endpoint>)
    requires
        old(fleet).wf(),
    ensures
        final(fleet).wf(),
        shapes(final(fleet)@) == discovered(shapes(old(fleet)@), live@, config.models@),
{
    let ghost start = shapes(fleet@);
    let mut i: usize = 0;
    while i < live.len()
        invariant
            i <= live@.len(),
            fleet.wf(),
            shapes(fleet@) == discovered(start, live@.take(i as int), config.models@),
        decreases live@.len() - i,
    {
        assert(live@.take(i + 1).drop_last() =~= live@.take(i as int));
        assert(live@.take(i + 1).last() == live@[i as int]);
        let e = &live[i];
        let ghost before = shapes(fleet@);
        let mut j: usize = 0;
        while j < config.models.len()
            invariant_except_break
                shapes(fleet@) == before,
            invariant
                j <= config.models@.len(),
                fleet.wf(),
                adopt_from(before, config.models@, *e, 0) == adopt_from(
                    before,
                    config.models@,
                    *e,
                    j as int,
                ),
            ensures
                fleet.wf(),
                shapes(fleet@) == adopt_from(before, config.models@, *e, 0),
            decreases config.models@.len() - j,
        {
            let entry = &config.models[j];
            let name = entry.display_name();
            let cold = match fleet.get(name.as_str()) {
                Some(s) => s.is_cold(),
                None => false,
            };
            proof {
                if fleet@.contains_key(name@) {
                    assert(shapes(fleet@).contains_key(name@));
                    assert(shapes(fleet@)[name@] == shape(fleet@[name@]));
                }
            }
            if cold && endpoint_serves(e, entry) {
                let ghost ev = *e;
                let adopted = adopt_endpoint(fleet, name.as_str(), e.duplicate(), entry.tier);
                assert(adopt_from(before, config.models@, ev, j as int) == adopt(
                    before,
                    name@,
                    ev,
                    config.models@[j as int].tier,
                ));
                break;
            }
            j = j + 1;
        }
        i = i + 1;
    }
    assert(live@.take(live@.len() as int) =~= live@);
}


/// A model whose endpoint no longer exists is not restored: where nothing
/// was found again, every model keeps its state (a cold model stays cold).
pub proof fn law_vanished_endpoints_stay_cold(
    m: Map<Seq<char>, ModelShape>,
    found: Seq<(Seq<char>, Option<Endpoint>)>,
    models: Seq<ModelEntry>,
)
    requires
        forall|i: int| 0 <= i < found.len() ==> (#[trigger] found[i]).1 is None,
    ensures
        restored(m, found, models) == (m, 0nat),
    decreases found.len(),
{
    if found.len() > 0 {
        let t = found.drop_last();
        assert forall|i: int| 0 <= i < t.len() implies (#[trigger] t[i]).1 is None by {
            assert(t[i] == found[i]);
        }
        law_vanished_endpoints_stay_cold(m, t, models);
        assert(found.last() == found[found.len() - 1]);
    }
}

/// The shape a cold model takes with an endpoint: hot for a hot-tier
/// model, warm otherwise.
pub open spec fn ready_shape(e: Endpoint, tier: ModelTier) -> ModelShape {
    if tier == ModelTier::Hot {
        ModelShape::Hot(e)
    } else {
        ModelShape::Warm(e)
    }
}

/// A model of the previous run whose endpoint still exists is ready again
/// with that endpoint, hot or warm as its tier says; every such model
/// counts as restored, and the other models keep their state.
pub proof fn law_found_endpoints_are_restored(
    m: Map<Seq<char>, ModelShape>,
    found: Seq<(Seq<char>, Option<Endpoint>)>,
    models: Seq<ModelEntry>,
)
    requires
        forall|i: int|
            0 <= i < found.len() ==> m.contains_key((#[trigger] found[i]).0) && m[found[i].0] is Cold
                && found[i].1 is Some,
        forall|i: int, j: int| 0 <= i < j < found.len() ==> (#[trigger] found[i]).0 != (#[trigger] found[j]).0,
    ensures
        restored(m, found, models).1 == found.len(),
        restored(m, found, models).0.dom() == m.dom(),
        forall|i: int|
            0 <= i < found.len() ==> (#[trigger] restored(m, found, models).0[found[i].0]) == ready_shape(
                found[i].1->0,
                tier_for(models, found[i].0),
            ),
        forall|k: Seq<char>|
            m.contains_key(k) && (forall|i: int| 0 <= i < found.len() ==> (#[trigger] found[i]).0 != k)
                ==> #[trigger] restored(m, found, models).0[k] == m[k],
    decreases found.len(),
{
    if found.len() > 0 {
        let t = found.drop_last();
        assert forall|i: int|
            0 <= i < t.len() implies m.contains_key((#[trigger] t[i]).0) && m[t[i].0] is Cold
                && t[i].1 is Some by {
            assert(t[i] == found[i]);
        }
        assert forall|i: int, j: int| 0 <= i < j < t.len() implies (#[trigger] t[i]).0 != (
        #[trigger] t[j]).0 by {
            assert(t[i] == found[i]);
            assert(t[j] == found[j]);
        }
        law_found_endpoints_are_restored(m, t, models);
        let (m1, c1) = restored(m, t, models);
        let n = found.len() - 1;
        let (name, ep) = found[n];
        assert(found.last() == found[n]);
        assert forall|i: int| 0 <= i < t.len() implies (#[trigger] t[i]).0 != name by {
            assert(t[i] == found[i]);
        }
        assert(m1[name] == m[name]);
        let e = ep->0;
        let tier = tier_for(models, name);
        assert(restored(m, found, models) == (adopt(m1, name, e, tier), c1 + 1));
        let m2 = adopt(m1, name, e, tier);
        assert(m2 == m1.insert(name, ready_shape(e, tier)));
        assert(m2.dom() =~= m.dom());
        assert forall|i: int| 0 <= i < found.len() implies (#[trigger] m2[found[i].0]) == ready_shape(
            found[i].1->0,
            tier_for(models, found[i].0),
        ) by {
            if i < n {
                assert(t[i] == found[i]);
                assert(found[i].0 != name);
            }
        }
        assert forall|k: Seq<char>|
            m.contains_key(k) && (forall|i: int| 0 <= i < found.len() ==> (#[trigger] found[i]).0 != k)
                implies #[trigger] m2[k] == m[k] by {
            assert(found[n].0 != k);
            assert forall|i: int| 0 <= i < t.len() implies (#[trigger] t[i]).0 != k by {
                assert(t[i] == found[i]);
            }
        }
    }
}

} // verus!
