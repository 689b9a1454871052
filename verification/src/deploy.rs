//! Deployment planning: from a configuration and a model's metadata to the
//! engine, GPU, image, scaling and name of the endpoint to create.
use vstd::prelude::*;

use crate::backend::{
    auto_select_backend, get_backend, spec_env_vars, spec_quarter_bytes_per_param, spec_vram_mgb,
    AnyBackend, BackendError, BackendKind, EngineSettings,
};
use crate::catalog::{CatalogError, GpuCatalog, GpuSelection};
use crate::config::{spec_provider_from_lower, RpxConfig};
use crate::model::sizing::{estimate_params_from_name, first_param_match, spec_params_from_text};
use crate::model::ModelMetadata;
use crate::provider::types::{EndpointConfig, GpuSpec, ImageSpec, ScalingConfig};
use crate::provider::ProviderKind;
use crate::text::{slug, spec_slug, spec_to_lowercase, str_eq};

verus! {

/// The complete plan of a deployment. `estimated_vram_mgb` is in
/// thousandths of a GB; `env_vars` are the container's variables, one per
/// name.
#[derive(Debug)]
pub struct DeployPlan {
    pub endpoint_name: String,
    pub model_id: String,
    pub backend: BackendKind,
    pub gpu: GpuSelection,
    pub gpu_count: u8,
    pub scaling: ScalingConfig,
    pub env_vars: Vec<(String, String)>,
    pub image: ImageSpec,
    pub estimated_vram_mgb: u64,
}

/// Why a deployment could not be planned or made.
#[derive(Debug)]
pub enum DeployError {
    Backend(String),
    ModelSizing(String),
    GpuSelection(String),
    Provider(String),
}

impl DeployError {
    pub open spec fn spec_message(&self) -> Seq<char> {
        match self {
            DeployError::Backend(m) => "backend error: "@ + m@,
            DeployError::ModelSizing(m) => "model sizing: "@ + m@,
            DeployError::GpuSelection(m) => "GPU selection: "@ + m@,
            DeployError::Provider(m) => "provider error: "@ + m@,
        }
    }

    pub fn to_string(&self) -> (r: String)
        ensures
            r@ == self.spec_message(),
    {
        match self {
            DeployError::Backend(m) => crate::text::concat2("backend error: ", m.as_str()),
            DeployError::ModelSizing(m) => crate::text::concat2("model sizing: ", m.as_str()),
            DeployError::GpuSelection(m) => crate::text::concat2("GPU selection: ", m.as_str()),
            DeployError::Provider(m) => crate::text::concat2("provider error: ", m.as_str()),
        }
    }
}

/// Makes a model id into an endpoint name: lowercased, with '/', '.' and
/// '_' turned into '-', other characters than letters, digits and '-'
/// dropped, and leading and trailing '-' removed.
pub fn sanitize_name(model_id: &str) -> (r: String)
    ensures
        r@ == spec_slug(model_id@),
{
    slug(model_id)
}

/// The position of the last `c` in `s`, or -1.
pub open spec fn last_index_of(s: Seq<char>, c: char) -> int
    decreases s.len(),
{
    if s.len() == 0 {
        -1
    } else if s.last() == c {
        s.len() - 1
    } else {
        last_index_of(s.drop_last(), c)
    }
}

proof fn lemma_last_index_of(s: Seq<char>, c: char)
    ensures
        -1 <= last_index_of(s, c) < s.len(),
        last_index_of(s, c) >= 0 ==> s[last_index_of(s, c)] == c,
        forall|i: int| last_index_of(s, c) < i < s.len() ==> #[trigger] s[i] != c,
    decreases s.len(),
{
    if s.len() > 0 && s.last() != c {
        lemma_last_index_of(s.drop_last(), c);
        assert forall|i: int| last_index_of(s, c) < i < s.len() implies #[trigger] s[i] != c by {
            if i < s.len() - 1 {
                assert(s[i] == s.drop_last()[i]);
            }
        }
    }
}

/// An image reference split into repository and tag at its last ':'; a
/// reference without one, or whose part after it holds a '/' (a registry
/// port, not a tag), is the repository itself, tagged "latest".
pub open spec fn spec_split_image(img: Seq<char>) -> (Seq<char>, Seq<char>) {
    let p = last_index_of(img, ':');
    if p < 0 {
        (img, "latest"@)
    } else {
        let tag = img.skip(p + 1);
        if tag.contains('/') {
            (img, "latest"@)
        } else {
            (img.take(p), tag)
        }
    }
}

/// Splits an image reference (see `spec_split_image`).
pub fn split_image_ref(img: &str) -> (r: (String, String))
    ensures
        (r.0@, r.1@) == spec_split_image(img@),
{
    proof {
        reveal_strlit("latest");
    }
    let n = img.unicode_len();
    let mut i: usize = n;
    proof {
        lemma_last_index_of(img@, ':');
    }
    while i > 0
        invariant
            i <= n,
            n == img@.len(),
            forall|j: int| i <= j < n ==> #[trigger] img@[j] != ':',
            -1 <= last_index_of(img@, ':') < n,
            last_index_of(img@, ':') >= 0 ==> img@[last_index_of(img@, ':')] == ':',
            forall|j: int| last_index_of(img@, ':') < j < n ==> #[trigger] img@[j] != ':',
        ensures
            i <= n,
            forall|j: int| i <= j < n ==> #[trigger] img@[j] != ':',
            i > 0 ==> img@[i - 1] == ':',
        decreases i,
    {
        if img.get_char(i - 1) == ':' {
            break;
        }
        i = i - 1;
    }
    if i == 0 {
        proof {
            if last_index_of(img@, ':') >= 0 {
                assert(img@[last_index_of(img@, ':')] == ':');
            }
        }
        return (crate::text::owned(img), String::from_str("latest"));
    }
    let p = i - 1;
    assert(img@[p as int] == ':');
    proof {
        let q = last_index_of(img@, ':');
        if q > p {
            assert(img@[q] == ':');
        }
        if q < p {
            assert(img@[p as int] != ':');
        }
    }
    let tag = img.substring_char(p + 1, n);
    assert(p as int == last_index_of(img@, ':'));
    let mut j: usize = 0;
    let tn = tag.unicode_len();
    while j < tn
        invariant
            j <= tn,
            p as int == last_index_of(img@, ':'),
            tag@ == img@.subrange(p + 1, n as int),
            n == img@.len(),
            tn == tag@.len(),
            forall|q: int| 0 <= q < j ==> #[trigger] tag@[q] != '/',
        decreases tn - j,
    {
        if tag.get_char(j) == '/' {
            assert(tag@[j as int] == '/');
            assert(img@.skip(p + 1) =~= tag@);
            assert(tag@.contains('/'));
            return (crate::text::owned(img), String::from_str("latest"));
        }
        j = j + 1;
    }
    (crate::text::owned(img.substring_char(0, p)), crate::text::owned(tag))
}

/// The engine a configuration asks for; "auto" and unknown names take the
/// default, vLLM.
pub open spec fn spec_backend_choice(config: RpxConfig) -> BackendKind {
    match config.spec_resolved_backend() {
        Some(k) => k,
        None => BackendKind::Vllm,
    }
}

/// The parameter count of the model: the one HuggingFace reports, else the
/// one its name gives.
pub open spec fn spec_param_count(config: RpxConfig, metadata: ModelMetadata) -> Option<u64> {
    match metadata.parameters {
        Some(p) => Some(p),
        None => match first_param_match(config.model@) {
            Some(t) => spec_params_from_text(t),
            None => None,
        },
    }
}

/// The provider GPUs are chosen on: the configured one, else the one that
/// deploys.
pub open spec fn spec_target_provider(config: RpxConfig, provider_kind: ProviderKind) -> ProviderKind {
    match spec_provider_from_lower(spec_to_lowercase(config.provider@)) {
        Some(p) => p,
        None => provider_kind,
    }
}

/// The default image of an implemented engine.
pub open spec fn spec_default_image(kind: BackendKind) -> Seq<char> {
    match kind {
        BackendKind::Rvllm => crate::backend::rvllm::RVLLM_IMAGE@,
        _ => crate::backend::vllm::VLLM_IMAGE@,
    }
}

/// The variable an implemented engine reads the model from.
pub open spec fn spec_model_var(kind: BackendKind) -> Seq<char> {
    match kind {
        BackendKind::Rvllm => "MODEL_ID"@,
        _ => "MODEL_NAME"@,
    }
}

/// The VRAM overhead, in percent, of an implemented engine.
pub open spec fn spec_overhead(kind: BackendKind) -> nat {
    match kind {
        BackendKind::Rvllm => 120,
        _ => 130,
    }
}

/// Name/value pairs as text.
pub open spec fn pair_views(s: Seq<(String, String)>) -> Seq<(Seq<char>, Seq<char>)> {
    s.map_values(|p: (String, String)| (p.0@, p.1@))
}

/// The pairs with the first one named `k` given the value `v`, or
/// `(k, v)` appended where there is none.
pub open spec fn with_pair(s: Seq<(Seq<char>, Seq<char>)>, k: Seq<char>, v: Seq<char>) -> Seq<
    (Seq<char>, Seq<char>),
>
    decreases s.len(),
{
    if s.len() == 0 {
        seq![(k, v)]
    } else if s[0].0 == k {
        s.update(0, (k, v))
    } else {
        seq![s[0]] + with_pair(s.drop_first(), k, v)
    }
}

/// Sets the variable `k` to `v` (see `with_pair`).
pub fn set_pair(vars: &mut Vec<(String, String)>, k: &str, v: String)
    ensures
        pair_views(final(vars)@) == with_pair(pair_views(old(vars)@), k@, v@),
{
    let ghost pre = pair_views(vars@);
    let mut i: usize = 0;
    while i < vars.len()
        invariant
            i <= vars@.len(),
            pre == pair_views(vars@),
            pre == pair_views(old(vars)@),
            forall|j: int| 0 <= j < i ==> #[trigger] pre[j].0 != k@,
        decreases vars@.len() - i,
    {
        if str_eq(vars[i].0.as_str(), k) {
            let name = vars[i].0.clone();
            vars.set(i, (name, v));
            proof {
                lemma_with_pair_at(pre, i as int, k@, v@);
                assert(pair_views(vars@) =~= pre.update(i as int, (k@, v@)));
            }
            return;
        }
        i = i + 1;
    }
    vars.push((crate::text::owned(k), v));
    proof {
        lemma_with_pair_absent(pre, k@, v@);
        assert(pair_views(vars@) =~= pre.push((k@, v@)));
    }
}

proof fn lemma_with_pair_at(s: Seq<(Seq<char>, Seq<char>)>, i: int, k: Seq<char>, v: Seq<char>)
    requires
        0 <= i < s.len(),
        s[i].0 == k,
        forall|j: int| 0 <= j < i ==> #[trigger] s[j].0 != k,
    ensures
        with_pair(s, k, v) == s.update(i, (k, v)),
    decreases i,
{
    if i > 0 {
        let t = s.drop_first();
        assert forall|j: int| 0 <= j < i - 1 implies #[trigger] t[j].0 != k by {
            assert(t[j] == s[j + 1]);
        }
        lemma_with_pair_at(t, i - 1, k, v);
        assert(with_pair(s, k, v) =~= s.update(i, (k, v)));
    }
}

proof fn lemma_with_pair_absent(s: Seq<(Seq<char>, Seq<char>)>, k: Seq<char>, v: Seq<char>)
    requires
        forall|j: int| 0 <= j < s.len() ==> #[trigger] s[j].0 != k,
    ensures
        with_pair(s, k, v) == s.push((k, v)),
    decreases s.len(),
{
    if s.len() > 0 {
        let t = s.drop_first();
        assert forall|j: int| 0 <= j < t.len() implies #[trigger] t[j].0 != k by {
            assert(t[j] == s[j + 1]);
        }
        lemma_with_pair_absent(t, k, v);
        assert(with_pair(s, k, v) =~= s.push((k, v)));
    }
}

/// The fields of a plan that do not depend on the GPU choice.
pub open spec fn plan_fields(
    plan: DeployPlan,
    config: RpxConfig,
    kind: BackendKind,
    vram: nat,
    native: Option<ImageSpec>,
    settings: EngineSettings,
    hf_token: Option<String>,
) -> bool {
    let env_vars = spec_env_vars(spec_model_var(kind), config.model@, settings);
    &&& plan.endpoint_name@ == match config.name {
        Some(n) => n@,
        None => spec_slug(config.model@),
    }
    &&& plan.model_id == config.model
    &&& plan.backend == kind
    &&& plan.gpu_count == config.gpu_count
    &&& plan.scaling == (ScalingConfig {
        min_workers: config.scaling.min_workers,
        max_workers: config.scaling.max_workers,
        idle_timeout_secs: config.scaling.idle_timeout,
    })
    &&& plan.estimated_vram_mgb == vram
    &&& pair_views(plan.env_vars@) == match hf_token {
        Some(t) => with_pair(env_vars, "HF_TOKEN"@, t@),
        None => env_vars,
    }
    &&& match native {
        Some(img) => plan.image == img,
        None => plan.image matches ImageSpec::PrebuiltImage { registry_url, tag } && (
        registry_url@,
        tag@,
        ) == spec_split_image(spec_default_image(kind)),
    }
}

/// Resolves the plan of a deployment. The engine is the configured one (vLLM
/// for "auto"); the parameter count comes from the metadata or the model's
/// name; the VRAM need from the engine's estimate; the GPU is the
/// configured one, or with "auto" the cheapest that fits, on the configured
/// provider or else `provider_kind`. `native` is the provider's own image
/// for the engine, if it has one; else the engine's default image is used.
/// The container variables are the engine's for the model and `settings`,
/// with `hf_token` added as `HF_TOKEN`. The endpoint is named as
/// configured, or after the model.
pub fn resolve_plan(
    config: &RpxConfig,
    metadata: &ModelMetadata,
    catalog: &GpuCatalog,
    provider_kind: ProviderKind,
    native: Option<ImageSpec>,
    settings: &EngineSettings,
    hf_token: Option<String>,
) -> (r: Result<DeployPlan, DeployError>)
    requires
        catalog.prices_in_range(),
    ensures
        ({
            let kind = spec_backend_choice(*config);
            if !(kind is Vllm || kind is Rvllm) {
                r matches Err(DeployError::Backend(m)) && m@ == BackendError::NotImplemented(
                    kind,
                ).spec_message()
            } else {
                match spec_param_count(*config, *metadata) {
                    None => r matches Err(DeployError::ModelSizing(m)) && m@
                        == "cannot determine parameter count for "@ + config.model@
                        + ". Specify --gpu manually."@,
                    Some(params) => {
                        let vram = spec_vram_mgb(
                            params as nat,
                            spec_quarter_bytes_per_param(config.dtype@) as nat,
                            spec_overhead(kind),
                        );
                        let pk = spec_target_provider(*config, provider_kind);
                        if config.gpu@ == "auto"@ {
                            ||| (r matches Ok(plan) && catalog.is_cheapest_offer(
                                plan.gpu,
                                vram as u64,
                                Some(pk),
                                config.constraints.max_price_per_hour,
                                config.gpu_count,
                            ) && plan_fields(
                                plan,
                                *config,
                                kind,
                                vram,
                                native,
                                *settings,
                                hf_token,
                            ))
                            ||| (r matches Err(DeployError::GpuSelection(m))
                                && catalog.has_no_offer(
                                vram as u64,
                                Some(pk),
                                config.constraints.max_price_per_hour,
                                config.gpu_count,
                            ) && m@ == CatalogError::NoSuitableGpu {
                                vram_needed_mgb: vram as u64,
                                provider_filter: Some(pk),
                            }.spec_message())
                        } else {
                            ||| (r matches Ok(plan) && catalog.is_found_gpu(
                                plan.gpu,
                                config.gpu@,
                                pk,
                            ) && plan_fields(
                                plan,
                                *config,
                                kind,
                                vram,
                                native,
                                *settings,
                                hf_token,
                            ))
                            ||| (r matches Err(DeployError::GpuSelection(m))
                                && catalog.no_gpu_found(config.gpu@, pk) && m@ == "GPU '"@
                                + config.gpu@ + "' not found in catalog for "@ + pk.spec_name())
                        }
                    },
                }
            }
        }),
{
    let backend_kind = match config.resolved_backend() {
        Some(k) => k,
        None => auto_select_backend(),
    };
    let backend: AnyBackend = match get_backend(backend_kind) {
        Ok(b) => b,
        Err(e) => return Err(DeployError::Backend(e.to_string())),
    };
    let params = match metadata.parameters {
        Some(p) => p,
        None => match estimate_params_from_name(config.model.as_str()) {
            Some(p) => p,
            None => {
                return Err(
                    DeployError::ModelSizing(
                        crate::text::concat3(
                            "cannot determine parameter count for ",
                            config.model.as_str(),
                            ". Specify --gpu manually.",
                        ),
                    ),
                );
            },
        },
    };
    let estimated = backend.estimate_vram_mgb(params, config.dtype.as_str());
    let pk = match config.resolved_provider() {
        Some(p) => p,
        None => provider_kind,
    };
    let gpu = if str_eq(config.gpu.as_str(), "auto") {
        match catalog.select_cheapest(
            estimated,
            Some(pk),
            config.constraints.max_price_per_hour,
            config.gpu_count,
        ) {
            Ok(g) => g,
            Err(e) => return Err(DeployError::GpuSelection(e.to_string())),
        }
    } else {
        match catalog.find_gpu(config.gpu.as_str(), pk) {
            Some(g) => g,
            None => {
                let mut m = String::from_str("GPU '");
                m.append(config.gpu.as_str());
                m.append("' not found in catalog for ");
                let n = pk.to_string();
                m.append(n.as_str());
                return Err(DeployError::GpuSelection(m));
            },
        }
    };
    let image = match native {
        Some(img) => img,
        None => {
            let (repo, tag) = split_image_ref(backend.default_image());
            ImageSpec::PrebuiltImage { registry_url: repo, tag }
        },
    };
    let mut vars = backend.env_vars(config.model.as_str(), settings);
    match hf_token {
        Some(t) => set_pair(&mut vars, "HF_TOKEN", t),
        None => {},
    }
    let endpoint_name = match &config.name {
        Some(n) => n.clone(),
        None => sanitize_name(config.model.as_str()),
    };
    Ok(
        DeployPlan {
            endpoint_name,
            model_id: config.model.clone(),
            backend: backend_kind,
            gpu,
            gpu_count: config.gpu_count,
            scaling: ScalingConfig {
                min_workers: config.scaling.min_workers,
                max_workers: config.scaling.max_workers,
                idle_timeout_secs: config.scaling.idle_timeout,
            },
            env_vars: vars,
            image,
            estimated_vram_mgb: estimated,
        },
    )
}


/// A copy of name/value pairs.
pub fn copy_pairs(v: &Vec<(String, String)>) -> (r: Vec<(String, String)>)
    ensures
        r@ == v@,
{
    let mut r: Vec<(String, String)> = Vec::new();
    let mut i: usize = 0;
    while i < v.len()
        invariant
            i <= v@.len(),
            r@ == v@.take(i as int),
        decreases v@.len() - i,
    {
        r.push((v[i].0.clone(), v[i].1.clone()));
        assert(r@ =~= v@.take(i + 1));
        i = i + 1;
    }
    assert(v@.take(v@.len() as int) =~= v@);
    r
}

/// What the provider is asked to create for a plan: the plan's name,
/// model, engine, scaling, variables and image, on its GPU (at most eight
/// per worker).
pub fn endpoint_config_of(plan: &DeployPlan) -> (r: EndpointConfig)
    ensures
        r.name == plan.endpoint_name,
        r.model_id == plan.model_id,
        r.backend == plan.backend,
        r.gpu == (GpuSpec {
            id: plan.gpu.gpu_id,
            name: plan.gpu.gpu_name,
            provider_gpu_id: plan.gpu.provider_gpu_id,
            vram_gb: plan.gpu.vram_gb,
            price_per_sec: plan.gpu.price_per_sec,
            multi_gpu_max: 8,
        }),
        r.gpu_count == plan.gpu_count,
        r.scaling == plan.scaling,
        r.env_vars@ == plan.env_vars@,
        r.image == plan.image,
{
    EndpointConfig {
        name: plan.endpoint_name.clone(),
        model_id: plan.model_id.clone(),
        backend: plan.backend,
        gpu: GpuSpec {
            id: plan.gpu.gpu_id.clone(),
            name: plan.gpu.gpu_name.clone(),
            provider_gpu_id: plan.gpu.provider_gpu_id.clone(),
            vram_gb: plan.gpu.vram_gb,
            price_per_sec: plan.gpu.price_per_sec,
            multi_gpu_max: 8,
        },
        gpu_count: plan.gpu_count,
        scaling: plan.scaling,
        env_vars: copy_pairs(&plan.env_vars),
        image: plan.image.duplicate(),
    }
}

} // verus!
