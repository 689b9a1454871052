//! Fleet configuration: the models a gateway serves, their tiers and
//! scaling, and the API keys it accepts.
pub mod state;
pub mod store;

use std::collections::HashMap;

use vstd::prelude::*;

use crate::config::{Constraints, RpxConfig, ScalingDefaults};
use crate::provider::types::ScalingConfig;
use crate::text::{slug, spec_slug};

verus! {

/// How a model is kept: always running, scaled to zero when idle, or
/// deployed on first request.
#[derive(Debug, Clone, Copy, PartialEq, Eq, Structural)]
pub enum ModelTier {
    Hot,
    Warm,
    Cold,
}

impl ModelTier {
    pub open spec fn spec_name(self) -> Seq<char> {
        match self {
            ModelTier::Hot => "hot"@,
            ModelTier::Warm => "warm"@,
            ModelTier::Cold => "cold"@,
        }
    }

    /// The lowercase name of the tier ("hot", "warm", "cold").
    pub fn to_string(&self) -> (r: String)
        ensures
            r@ == self.spec_name(),
    {
        match self {
            ModelTier::Hot => String::from_str("hot"),
            ModelTier::Warm => String::from_str("warm"),
            ModelTier::Cold => String::from_str("cold"),
        }
    }
}

impl Default for ModelTier {
    /// Models are warm unless configured otherwise.
    fn default() -> (r: ModelTier)
        ensures
            r == ModelTier::Warm,
    {
        ModelTier::Warm
    }
}


/// A multi-model gateway as `rpx.yaml` describes it.
#[derive(Debug, Clone)]
pub struct FleetConfig {
    pub gateway: GatewayConfig,
    pub provider: ProviderConfig,
    pub models: Vec<ModelEntry>,
    pub api_keys: Vec<ApiKeyEntry>,
    pub defaults: FleetDefaults,
}

/// Where the gateway listens.
#[derive(Debug, Clone)]
pub struct GatewayConfig {
    pub port: u16,
    pub host: String,
}

impl Default for GatewayConfig {
    /// Port 4000 on every interface.
    fn default() -> (r: GatewayConfig)
        ensures
            r.port == 4000,
            r.host@ == "0.0.0.0"@,
    {
        GatewayConfig { port: default_port(), host: default_host() }
    }
}

/// The cloud provider the fleet runs on.
#[derive(Debug, Clone)]
pub struct ProviderConfig {
    pub name: String,
}

/// One model of the fleet.
#[derive(Debug, Clone)]
pub struct ModelEntry {
    pub id: String,
    pub alias: Option<String>,
    pub tier: ModelTier,
    pub backend: String,
    pub gpu: String,
    pub gpu_count: u8,
    pub dtype: String,
    pub scaling: ModelScaling,
    pub backend_args: HashMap<String, serde_json::Value>,
}

/// Scaling of one model; `eviction_timeout` is in seconds.
#[derive(Debug, Clone, Copy, PartialEq, Eq, Structural)]
pub struct ModelScaling {
    pub min_workers: u32,
    pub max_workers: u32,
    pub idle_timeout: u32,
    pub eviction_timeout: u64,
}

impl Default for ModelScaling {
    /// Zero to three workers, 300 idle seconds, evicted after an hour.
    fn default() -> (r: ModelScaling)
        ensures
            r == (ModelScaling {
                min_workers: 0,
                max_workers: 3,
                idle_timeout: 300,
                eviction_timeout: 3600,
            }),
    {
        ModelScaling { min_workers: 0, max_workers: 3, idle_timeout: 300, eviction_timeout: 3600 }
    }
}

/// An API key the gateway accepts. `budget_pico` is the spending limit in
/// picodollars; `rate_limit_rpm` is in requests per minute.
#[derive(Debug, Clone)]
pub struct ApiKeyEntry {
    pub key: String,
    pub name: String,
    pub budget_pico: Option<u64>,
    pub rate_limit_rpm: Option<u32>,
    pub allowed_models: Option<Vec<String>>,
}

/// Defaults for the models of a fleet.
#[derive(Debug, Clone)]
pub struct FleetDefaults {
    pub backend: String,
    pub gpu: String,
    pub dtype: String,
}

impl Default for FleetDefaults {
    /// vLLM, with GPU and dtype chosen automatically.
    fn default() -> (r: FleetDefaults)
        ensures
            r.backend@ == "vllm"@,
            r.gpu@ == "auto"@,
            r.dtype@ == "auto"@,
    {
        FleetDefaults { backend: default_backend(), gpu: default_auto(), dtype: default_auto() }
    }
}

/// The name a model is served under: its alias, or its id made into a
/// name (see `sanitize_model_id`).
pub open spec fn spec_display_name(e: ModelEntry) -> Seq<char> {
    match e.alias {
        Some(a) => a@,
        None => spec_slug(e.id@),
    }
}

impl ModelEntry {
    /// The name used for API routing: the alias if set, else one derived
    /// from the model id.
    pub fn display_name(&self) -> (r: String)
        ensures
            r@ == spec_display_name(*self),
    {
        match &self.alias {
            Some(a) => a.clone(),
            None => sanitize_model_id(self.id.as_str()),
        }
    }

    /// The single-model configuration that deploys this model: named by its
    /// display name, with provider "auto", no secrets and no constraints.
    pub fn to_rpx_config(&self) -> (r: RpxConfig)
        ensures
            r.version@ == "1"@,
            r.name matches Some(n) && n@ == spec_display_name(*self),
            r.model == self.id,
            r.backend == self.backend,
            r.provider@ == "auto"@,
            r.gpu == self.gpu,
            r.gpu_count == self.gpu_count,
            r.dtype == self.dtype,
            r.backend_args@ == self.backend_args@,
            r.scaling == (ScalingDefaults {
                min_workers: self.scaling.min_workers,
                max_workers: self.scaling.max_workers,
                idle_timeout: self.scaling.idle_timeout,
            }),
            r.secrets@.len() == 0,
            r.constraints.max_price_per_hour is None,
            r.constraints.preferred_regions@.len() == 0,
    {
        RpxConfig {
            version: String::from_str("1"),
            name: Some(self.display_name()),
            model: self.id.clone(),
            backend: self.backend.clone(),
            provider: String::from_str("auto"),
            gpu: self.gpu.clone(),
            gpu_count: self.gpu_count,
            dtype: self.dtype.clone(),
            backend_args: self.backend_args.clone(),
            scaling: ScalingDefaults {
                min_workers: self.scaling.min_workers,
                max_workers: self.scaling.max_workers,
                idle_timeout: self.scaling.idle_timeout,
            },
            secrets: Vec::new(),
            constraints: Constraints::default(),
        }
    }

    /// The endpoint scaling of this model.
    pub fn to_scaling_config(&self) -> (r: ScalingConfig)
        ensures
            r == (ScalingConfig {
                min_workers: self.scaling.min_workers,
                max_workers: self.scaling.max_workers,
                idle_timeout_secs: self.scaling.idle_timeout,
            }),
    {
        ScalingConfig {
            min_workers: self.scaling.min_workers,
            max_workers: self.scaling.max_workers,
            idle_timeout_secs: self.scaling.idle_timeout,
        }
    }
}

/// Why a fleet configuration was refused.
#[derive(Debug)]
pub enum FleetConfigError {
    /// The text is no valid configuration; the parser's message.
    Parse(String),
    /// The configuration breaks a rule of the fleet.
    Validation(String),
}

impl FleetConfigError {
    pub open spec fn spec_message(&self) -> Seq<char> {
        match self {
            FleetConfigError::Parse(m) => "failed to parse fleet config: "@ + m@,
            FleetConfigError::Validation(m) => "invalid fleet config: "@ + m@,
        }
    }

    pub fn to_string(&self) -> (r: String)
        ensures
            r@ == self.spec_message(),
    {
        match self {
            FleetConfigError::Parse(m) => crate::text::concat2(
                "failed to parse fleet config: ",
                m.as_str(),
            ),
            FleetConfigError::Validation(m) => crate::text::concat2(
                "invalid fleet config: ",
                m.as_str(),
            ),
        }
    }
}

/// The display names of the models, in order.
pub open spec fn display_names(models: Seq<ModelEntry>) -> Seq<Seq<char>> {
    models.map_values(|m: ModelEntry| spec_display_name(m))
}

/// Model `i` is served under a name an earlier model already has.
pub open spec fn duplicate_at(names: Seq<Seq<char>>, i: int) -> bool {
    exists|j: int| 0 <= j < i && names[j] == names[i]
}

/// Model `i` is hot but may scale to zero workers.
pub open spec fn cold_hot_at(models: Seq<ModelEntry>, i: int) -> bool {
    models[i].tier == ModelTier::Hot && models[i].scaling.min_workers < 1
}

/// The first model served under a name an earlier model has (meaningful
/// where there is one).
pub open spec fn first_duplicate(names: Seq<Seq<char>>) -> int {
    choose|w: int|
        0 <= w < names.len() && #[trigger] duplicate_at(names, w) && forall|k: int|
            0 <= k < w ==> !#[trigger] duplicate_at(names, k)
}

/// The first hot model that may scale to zero (meaningful where there is
/// one).
pub open spec fn first_cold_hot(models: Seq<ModelEntry>) -> int {
    choose|w: int|
        0 <= w < models.len() && #[trigger] cold_hot_at(models, w) && forall|k: int|
            0 <= k < w ==> !#[trigger] cold_hot_at(models, k)
}

proof fn lemma_first_duplicate(names: Seq<Seq<char>>, i: int)
    requires
        0 <= i < names.len(),
        duplicate_at(names, i),
        forall|k: int| 0 <= k < i ==> !#[trigger] duplicate_at(names, k),
    ensures
        first_duplicate(names) == i,
{
    let w = first_duplicate(names);
    if w < i {
        assert(!duplicate_at(names, w));
    } else if w > i {
        assert(!duplicate_at(names, i));
    }
}

proof fn lemma_first_cold_hot(models: Seq<ModelEntry>, i: int)
    requires
        0 <= i < models.len(),
        cold_hot_at(models, i),
        forall|k: int| 0 <= k < i ==> !#[trigger] cold_hot_at(models, k),
    ensures
        first_cold_hot(models) == i,
{
    let w = first_cold_hot(models);
    if w < i {
        assert(!cold_hot_at(models, w));
    } else if w > i {
        assert(!cold_hot_at(models, i));
    }
}

/// What `validate` answers for a list of models.
pub open spec fn spec_validate(models: Seq<ModelEntry>) -> Result<(), Seq<char>> {
    let names = display_names(models);
    if models.len() == 0 {
        Err("at least one model must be defined"@)
    } else if exists|i: int| 0 <= i < models.len() && #[trigger] duplicate_at(names, i) {
        Err("duplicate model alias: "@ + names[first_duplicate(names)])
    } else if exists|i: int| 0 <= i < models.len() && #[trigger] cold_hot_at(models, i) {
        Err("hot model '"@ + names[first_cold_hot(models)] + "' must have min_workers >= 1"@)
    } else {
        Ok(())
    }
}

impl FleetConfig {
    /// Checks the rules of a fleet: at least one model; no two models
    /// served under one name (the first repeated name is reported); every
    /// hot model keeps at least one worker (the first that does not is
    /// reported).
    pub fn validate(&self) -> (r: Result<(), FleetConfigError>)
        ensures
            match spec_validate(self.models@) {
                Ok(()) => r is Ok,
                Err(m) => r matches Err(FleetConfigError::Validation(t)) && t@ == m,
            },
    {
        let ghost ms = self.models@;
        let ghost names = display_names(ms);
        if self.models.len() == 0 {
            return Err(FleetConfigError::Validation(String::from_str("at least one model must be defined")));
        }
        let mut seen: Vec<String> = Vec::new();
        let mut i: usize = 0;
        while i < self.models.len()
            invariant
                i <= ms.len(),
                ms == self.models@,
                names == display_names(ms),
                seen@.len() == i,
                forall|j: int| 0 <= j < i ==> #[trigger] seen@[j]@ == names[j],
                forall|k: int| 0 <= k < i ==> !duplicate_at(names, k),
            decreases ms.len() - i,
        {
            let name = self.models[i].display_name();
            assert(name@ == names[i as int]);
            if contains_name(&seen, name.as_str()) {
                proof {
                    let q = choose|q: int| 0 <= q < seen@.len() && #[trigger] seen@[q]@ == name@;
                    assert(names[q] == names[i as int]);
                    assert(duplicate_at(names, i as int));
                    lemma_first_duplicate(names, i as int);
                }
                return Err(FleetConfigError::Validation(crate::text::concat2("duplicate model alias: ", name.as_str())));
            }
            assert forall|j: int| 0 <= j < i implies names[j] != names[i as int] by {
                assert(seen@[j]@ == names[j]);
            }
            assert(!duplicate_at(names, i as int));
            seen.push(name);
            i = i + 1;
        }
        let mut i: usize = 0;
        while i < self.models.len()
            invariant
                i <= ms.len(),
                ms == self.models@,
                names == display_names(ms),
                forall|k: int| 0 <= k < ms.len() ==> !duplicate_at(names, k),
                forall|k: int| 0 <= k < i ==> !cold_hot_at(ms, k),
            decreases ms.len() - i,
        {
            if self.models[i].tier == ModelTier::Hot && self.models[i].scaling.min_workers < 1 {
                let name = self.models[i].display_name();
                proof {
                    lemma_first_cold_hot(ms, i as int);
                    assert(names[i as int] == name@);
                }
                let mut msg = String::from_str("hot model '");
                msg.append(name.as_str());
                msg.append("' must have min_workers >= 1");
                proof {
                    assert(cold_hot_at(ms, i as int));
                    assert(!(exists|k: int| 0 <= k < ms.len() && #[trigger] duplicate_at(names, k)));
                    assert(msg@ == "hot model '"@ + names[first_cold_hot(ms)]
                        + "' must have min_workers >= 1"@);
                }
                return Err(FleetConfigError::Validation(msg));
            }
            i = i + 1;
        }
        Ok(())
    }

    /// The display names of the models, in order.
    pub fn model_names(&self) -> (r: Vec<String>)
        ensures
            r@.map_values(|n: String| n@) == display_names(self.models@),
    {
        let mut r: Vec<String> = Vec::new();
        let mut i: usize = 0;
        while i < self.models.len()
            invariant
                i <= self.models@.len(),
                r@.map_values(|n: String| n@) == display_names(self.models@).take(i as int),
            decreases self.models@.len() - i,
        {
            let ghost prev = r@;
            let nm = self.models[i].display_name();
            r.push(nm);
            assert(r@.map_values(|n: String| n@) =~= prev.map_values(|n: String| n@).push(
                spec_display_name(self.models@[i as int]),
            ));
            assert(r@.map_values(|n: String| n@) =~= display_names(self.models@).take(i + 1));
            i = i + 1;
        }
        assert(display_names(self.models@).take(self.models@.len() as int) =~= display_names(
            self.models@,
        ));
        r
    }

    /// Each model's display name with its position, in model order. Where
    /// two models share a name, a lookup keeps the later one.
    pub fn alias_map(&self) -> (r: Vec<(String, usize)>)
        ensures
            r@.len() == self.models@.len(),
            forall|i: int|
                0 <= i < r@.len() ==> #[trigger] r@[i].0@ == display_names(self.models@)[i]
                    && r@[i].1 == i,
    {
        let mut r: Vec<(String, usize)> = Vec::new();
        let mut i: usize = 0;
        while i < self.models.len()
            invariant
                i <= self.models@.len(),
                r@.len() == i,
                forall|j: int|
                    0 <= j < i ==> #[trigger] r@[j].0@ == display_names(self.models@)[j] && r@[j].1
                        == j,
            decreases self.models@.len() - i,
        {
            r.push((self.models[i].display_name(), i));
            i = i + 1;
        }
        r
    }
}

/// `name` is one of `names`.
fn contains_name(names: &Vec<String>, name: &str) -> (r: bool)
    ensures
        r == exists|q: int| 0 <= q < names@.len() && #[trigger] names@[q]@ == name@,
{
    let mut j: usize = 0;
    while j < names.len()
        invariant
            j <= names@.len(),
            forall|q: int| 0 <= q < j ==> #[trigger] names@[q]@ != name@,
        decreases names@.len() - j,
    {
        if crate::text::str_eq(names[j].as_str(), name) {
            return true;
        }
        j = j + 1;
    }
    false
}

/// Makes a model id into a routing name: lowercased, with '/', '.' and
/// '_' turned into '-', other characters than letters, digits and '-'
/// dropped, and leading and trailing '-' removed.
pub fn sanitize_model_id(id: &str) -> (r: String)
    ensures
        r@ == spec_slug(id@),
{
    slug(id)
}

/// 4000
pub fn default_port() -> (r: u16)
    ensures
        r == 4000,
{
    4000
}

/// "0.0.0.0"
pub fn default_host() -> (r: String)
    ensures
        r@ == "0.0.0.0"@,
{
    String::from_str("0.0.0.0")
}

/// "vllm"
pub fn default_backend() -> (r: String)
    ensures
        r@ == "vllm"@,
{
    String::from_str("vllm")
}

/// "auto"
pub fn default_auto() -> (r: String)
    ensures
        r@ == "auto"@,
{
    String::from_str("auto")
}

/// One GPU.
pub fn default_gpu_count() -> (r: u8)
    ensures
        r == 1,
{
    1
}

/// Three workers at most.
pub fn default_max_workers() -> (r: u32)
    ensures
        r == 3,
{
    3
}

/// 300 idle seconds.
pub fn default_idle_timeout() -> (r: u32)
    ensures
        r == 300,
{
    300
}

/// An hour before an idle warm model is evicted.
pub fn default_eviction_timeout() -> (r: u64)
    ensures
        r == 3600,
{
    3600
}

/// The positions of the hot models of a configuration, in model order:
/// the models deployed when the fleet starts.
pub fn startup_models(config: &FleetConfig) -> (r: Vec<usize>)
    ensures
        forall|k: int| 0 <= k < r@.len() ==> #[trigger] r@[k] < config.models@.len()
            && config.models@[r@[k] as int].tier == ModelTier::Hot,
        forall|k: int, l: int| 0 <= k < l < r@.len() ==> #[trigger] r@[k] < #[trigger] r@[l],
        forall|i: int|
            0 <= i < config.models@.len() && (#[trigger] config.models@[i]).tier == ModelTier::Hot
                ==> exists|k: int| 0 <= k < r@.len() && r@[k] == i,
{
    let mut r: Vec<usize> = Vec::new();
    let mut i: usize = 0;
    while i < config.models.len()
        invariant
            i <= config.models@.len(),
            forall|k: int| 0 <= k < r@.len() ==> #[trigger] r@[k] < i
                && config.models@[r@[k] as int].tier == ModelTier::Hot,
            forall|k: int, l: int| 0 <= k < l < r@.len() ==> #[trigger] r@[k] < #[trigger] r@[l],
            forall|j: int|
                0 <= j < i && (#[trigger] config.models@[j]).tier == ModelTier::Hot
                    ==> exists|k: int| 0 <= k < r@.len() && r@[k] == j,
        decreases config.models@.len() - i,
    {
        if config.models[i].tier == ModelTier::Hot {
            let ghost prev = r@;
            r.push(i);
            proof {
                assert forall|j: int|
                    0 <= j < i + 1 && (#[trigger] config.models@[j]).tier == ModelTier::Hot
                        implies exists|k: int| 0 <= k < r@.len() && r@[k] == j by {
                    if j < i {
                        let k = choose|k: int| 0 <= k < prev.len() && prev[k] == j;
                        assert(r@[k] == j);
                    } else {
                        assert(r@[prev.len() as int] == j);
                    }
                }
            }
        }
        i = i + 1;
    }
    r
}

} // verus!
