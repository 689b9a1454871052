//! The RunPod REST API: the requests rpx sends and how their answers are
//! read.
use vstd::prelude::*;

use crate::deploy::{copy_pairs, pair_views};
use crate::external::utc_now_rfc3339;
use crate::json::{Json, JsonNumber};
use crate::provider::types::{Endpoint, EndpointConfig, EndpointStatus, ImageSpec, ProviderError, ScalingConfig};
use crate::provider::ProviderKind;
use crate::text::str_eq;

verus! {

/// The REST API of RunPod.
pub const REST_BASE: &'static str = "https://rest.runpod.io/v1";

/// The base of RunPod's invocation API.
pub const INVOCATION_BASE: &'static str = "https://api.runpod.ai/v2";

/// An endpoint as the RunPod API describes it.
#[derive(Debug, Clone)]
pub struct RunPodEndpointResponse {
    pub id: String,
    pub name: Option<String>,
    pub status: Option<String>,
    pub gpu_type_ids: Option<Vec<String>>,
    pub template_id: Option<String>,
}

/// The state a RunPod status text stands for: READY, BUILDING,
/// INITIALIZING and ERROR (in capitals or lowercase); anything else, or no
/// status, is idle.
pub open spec fn spec_status_of(status: Option<Seq<char>>) -> EndpointStatus {
    match status {
        Some(s) => if s == "READY"@ || s == "ready"@ {
            EndpointStatus::Ready
        } else if s == "BUILDING"@ || s == "building"@ {
            EndpointStatus::Building
        } else if s == "INITIALIZING"@ || s == "initializing"@ {
            EndpointStatus::Initializing
        } else {
            EndpointStatus::Idle
        },
        None => EndpointStatus::Idle,
    }
}

/// The status text names the error state.
pub open spec fn is_error_status(status: Option<Seq<char>>) -> bool {
    status matches Some(s) && (s == "ERROR"@ || s == "error"@)
}

fn status_of(status: &Option<String>) -> (r: EndpointStatus)
    ensures
        is_error_status(match status {
            Some(s) => Some(s@),
            None => None,
        }) ==> (r matches EndpointStatus::Error(m) && m@ == "endpoint in error state"@),
        !is_error_status(match status {
            Some(s) => Some(s@),
            None => None,
        }) ==> r == spec_status_of(match status {
            Some(s) => Some(s@),
            None => None,
        }),
{
    proof {
        reveal_strlit("ERROR");
        reveal_strlit("error");
        reveal_strlit("READY");
        reveal_strlit("ready");
        reveal_strlit("BUILDING");
        reveal_strlit("building");
        reveal_strlit("INITIALIZING");
        reveal_strlit("initializing");
        reveal_strlit("endpoint in error state");
    }
    match status {
        Some(s) => {
            let t = s.as_str();
            if str_eq(t, "ERROR") || str_eq(t, "error") {
                EndpointStatus::Error(String::from_str("endpoint in error state"))
            } else if str_eq(t, "READY") || str_eq(t, "ready") {
                EndpointStatus::Ready
            } else if str_eq(t, "BUILDING") || str_eq(t, "building") {
                EndpointStatus::Building
            } else if str_eq(t, "INITIALIZING") || str_eq(t, "initializing") {
                EndpointStatus::Initializing
            } else {
                EndpointStatus::Idle
            }
        },
        None => EndpointStatus::Idle,
    }
}

/// `e` is the endpoint RunPod's description `rp` stands for, with
/// `gpu_id` as the GPU where RunPod lists none.
pub open spec fn is_endpoint_of(e: Endpoint, rp: RunPodEndpointResponse, gpu_id: Seq<char>) -> bool {
    &&& e.id == rp.id
    &&& e.name@ == match rp.name {
        Some(n) => n@,
        None => rp.id@,
    }
    &&& e.provider == ProviderKind::RunPod
    &&& ({
        let st = match rp.status {
            Some(s) => Some(s@),
            None => None,
        };
        if is_error_status(st) {
            e.status matches EndpointStatus::Error(m) && m@ == "endpoint in error state"@
        } else {
            e.status == spec_status_of(st)
        }
    })
    &&& e.gpu_id@ == match rp.gpu_type_ids {
        Some(ids) => if ids@.len() > 0 {
            ids@[0]@
        } else {
            gpu_id
        },
        None => gpu_id,
    }
    &&& e.invocation_url@ == "https://api.runpod.ai/v2/"@ + rp.id@
    &&& e.openai_base_url matches Some(u) && u@ == "https://api.runpod.ai/v2/"@ + rp.id@
        + "/openai/v1"@
}

/// The endpoint RunPod describes. Its GPU is the first GPU type RunPod
/// lists, else `gpu_id`; its name is RunPod's, else its id; its addresses
/// are RunPod's invocation and OpenAI URLs for the id. The creation time is
/// the time of the call.
pub fn to_endpoint(rp: &RunPodEndpointResponse, gpu_id: &str) -> (r: Endpoint)
    ensures
        is_endpoint_of(r, *rp, gpu_id@),
{
    let status = status_of(&rp.status);
    let gpu = match &rp.gpu_type_ids {
        Some(ids) => if ids.len() > 0 {
            ids[0].clone()
        } else {
            crate::text::owned(gpu_id)
        },
        None => crate::text::owned(gpu_id),
    };
    let name = match &rp.name {
        Some(n) => n.clone(),
        None => rp.id.clone(),
    };
    Endpoint {
        id: rp.id.clone(),
        name,
        provider: ProviderKind::RunPod,
        status,
        gpu_id: gpu,
        invocation_url: crate::text::concat2("https://api.runpod.ai/v2/", rp.id.as_str()),
        openai_base_url: Some(
            crate::text::concat3("https://api.runpod.ai/v2/", rp.id.as_str(), "/openai/v1"),
        ),
        created_at: utc_now_rfc3339(),
    }
}

/// The endpoints of a listing, in order, without a known GPU.
pub fn to_endpoints(rps: &Vec<RunPodEndpointResponse>) -> (r: Vec<Endpoint>)
    ensures
        r@.len() == rps@.len(),
        forall|i: int| 0 <= i < r@.len() ==> is_endpoint_of(#[trigger] r@[i], rps@[i], ""@),
{
    let mut r: Vec<Endpoint> = Vec::new();
    let mut i: usize = 0;
    while i < rps.len()
        invariant
            i <= rps@.len(),
            r@.len() == i,
            forall|j: int| 0 <= j < i ==> is_endpoint_of(#[trigger] r@[j], rps@[j], ""@),
        decreases rps@.len() - i,
    {
        r.push(to_endpoint(&rps[i], ""));
        i = i + 1;
    }
    r
}

/// What an HTTP status of the REST API means for a call.
#[derive(Debug)]
pub enum StatusVerdict {
    /// 2xx: read the answer.
    Success,
    /// The call failed with this error.
    Fail(ProviderError),
    /// Another failure: an API error whose message is the answer's body.
    ApiError,
}

/// Which call an answer belongs to, for reading its status.
#[derive(Debug, Clone, Copy, PartialEq, Eq, Structural)]
pub enum ApiCall {
    /// The key check: 401 means the key is wrong.
    ValidateAuth,
    /// A call on one endpoint: 404 means it does not exist.
    OneEndpoint,
    /// Any other call.
    Other,
}

/// Reads the HTTP status of an answer: 2xx succeeds; 401 of the key check
/// is an authentication error; 404 of a call on one endpoint (`id`) is
/// "not found"; everything else is an API error.
pub fn check_status(status: u16, call: ApiCall, id: &str) -> (r: StatusVerdict)
    ensures
        call == ApiCall::ValidateAuth && status == 401 ==> (r matches StatusVerdict::Fail(
            ProviderError::Auth(m),
        ) && m@ == "invalid RunPod API key"@),
        call == ApiCall::OneEndpoint && status == 404 ==> (r matches StatusVerdict::Fail(
            ProviderError::NotFound(m),
        ) && m@ == id@),
        !(call == ApiCall::ValidateAuth && status == 401) && !(call == ApiCall::OneEndpoint
            && status == 404) ==> if 200 <= status <= 299 {
            r is Success
        } else {
            r is ApiError
        },
{
    if call == ApiCall::ValidateAuth && status == 401 {
        StatusVerdict::Fail(ProviderError::Auth(String::from_str("invalid RunPod API key")))
    } else if call == ApiCall::OneEndpoint && status == 404 {
        StatusVerdict::Fail(ProviderError::NotFound(crate::text::owned(id)))
    } else if 200 <= status && status <= 299 {
        StatusVerdict::Success
    } else {
        StatusVerdict::ApiError
    }
}

/// The request that creates a serverless template.
#[derive(Debug)]
pub struct CreateTemplateRequest {
    pub name: String,
    pub image_name: String,
    pub is_serverless: bool,
    pub container_disk_in_gb: u32,
    pub env: Option<Vec<(String, String)>>,
}

/// The template for an endpoint: named `rpx-<name>-<first 8 characters of
/// a fresh id>`, serverless, with a 50 GB disk and the variables (none when
/// there are none).
pub fn template_request(name: &str, unique_id: &str, image: &str, env_vars: &Vec<(String, String)>) -> (r:
    CreateTemplateRequest)
    requires
        unique_id@.len() >= 8,
    ensures
        r.name@ == "rpx-"@ + name@ + "-"@ + unique_id@.take(8),
        r.image_name@ == image@,
        r.is_serverless,
        r.container_disk_in_gb == 50,
        env_vars@.len() == 0 ==> r.env is None,
        env_vars@.len() > 0 ==> (r.env matches Some(v) && v@ == env_vars@),
{
    let mut n = crate::text::concat3("rpx-", name, "-");
    n.append(unique_id.substring_char(0, 8));
    CreateTemplateRequest {
        name: n,
        image_name: crate::text::owned(image),
        is_serverless: true,
        container_disk_in_gb: 50,
        env: if env_vars.len() == 0 {
            None
        } else {
            Some(copy_pairs(env_vars))
        },
    }
}

/// A lower-case hexadecimal digit.
pub open spec fn is_lower_hex(c: char) -> bool {
    ('0' <= c && c <= '9') || ('a' <= c && c <= 'f')
}

/// A fresh random version-4 UUID (`uuid::Uuid::new_v4`), rendered by its
/// `Display` impl, which writes the hyphenated lower-case form
/// (`uuid::fmt::Hyphenated`): 36 characters, '-' at positions 8, 13, 18
/// and 23 and a lower-case hexadecimal digit everywhere else. Only that
/// shape is promised: the digits are random.
#[verifier::external_body]
fn fresh_uuid_text() -> (r: String)
    ensures
        r@.len() == 36,
        forall|i: int|
            0 <= i < 36 ==> if i == 8 || i == 13 || i == 18 || i == 23 {
                r@[i] == '-'
            } else {
                is_lower_hex(#[trigger] r@[i])
            },
{
    uuid::Uuid::new_v4().to_string()
}

/// The template request for a new endpoint, named after a fresh random id:
/// `rpx-<name>-<8 characters of the id>`, serverless, with a 50 GB disk and
/// the variables (none when there are none). Which 8 lower-case
/// hexadecimal digits they are depends on chance.
pub fn new_template_request(name: &str, image: &str, env_vars: &Vec<(String, String)>) -> (r:
    CreateTemplateRequest)
    ensures
        exists|u: Seq<char>|
            u.len() == 8 && (forall|i: int| 0 <= i < 8 ==> is_lower_hex(#[trigger] u[i])) && r.name@ == "rpx-"@
                + name@ + "-"@ + u,
        r.image_name@ == image@,
        r.is_serverless,
        r.container_disk_in_gb == 50,
        env_vars@.len() == 0 ==> r.env is None,
        env_vars@.len() > 0 ==> (r.env matches Some(v) && v@ == env_vars@),
{
    let unique = fresh_uuid_text();
    let r = template_request(name, unique.as_str(), image, env_vars);
    assert(unique@.take(8).len() == 8);
    assert forall|i: int| 0 <= i < 8 implies is_lower_hex(#[trigger] unique@.take(8)[i]) by {
        assert(unique@.take(8)[i] == unique@[i]);
    }
    r
}

/// Where the template of an endpoint comes from.
#[derive(Debug)]
pub enum TemplateSource {
    /// A template that already exists.
    Existing(String),
    /// A new template for this image reference.
    Create(String),
}

/// The template of an endpoint: a native template is used as it is; a
/// prebuilt image gets a template for `<registry>:<tag>`, a custom image
/// one for its address.
pub fn template_source(image: &ImageSpec) -> (r: TemplateSource)
    ensures
        match image {
            ImageSpec::NativeTemplate { template_id } => r matches TemplateSource::Existing(t) && t
                == template_id,
            ImageSpec::PrebuiltImage { registry_url, tag } => r matches TemplateSource::Create(i)
                && i@ == registry_url@ + ":"@ + tag@,
            ImageSpec::CustomImage { image_url } => r matches TemplateSource::Create(i) && i
                == image_url,
        },
{
    match image {
        ImageSpec::NativeTemplate { template_id } => TemplateSource::Existing(template_id.clone()),
        ImageSpec::PrebuiltImage { registry_url, tag } => TemplateSource::Create(
            crate::text::concat3(registry_url.as_str(), ":", tag.as_str()),
        ),
        ImageSpec::CustomImage { image_url } => TemplateSource::Create(image_url.clone()),
    }
}

/// The request that creates an endpoint.
#[derive(Debug)]
pub struct CreateEndpointRequest {
    pub name: String,
    pub template_id: String,
    pub gpu_type_ids: Vec<String>,
    pub gpu_count: u8,
    pub workers_min: u32,
    pub workers_max: u32,
    pub idle_timeout: u32,
}

/// The endpoint request for a configuration and its template: on the
/// configuration's GPU type alone, with its scaling.
pub fn endpoint_request(config: &EndpointConfig, template_id: String) -> (r: CreateEndpointRequest)
    ensures
        r.name == config.name,
        r.template_id == template_id,
        r.gpu_type_ids@ == seq![config.gpu.provider_gpu_id],
        r.gpu_count == config.gpu_count,
        r.workers_min == config.scaling.min_workers,
        r.workers_max == config.scaling.max_workers,
        r.idle_timeout == config.scaling.idle_timeout_secs,
{
    let mut ids: Vec<String> = Vec::new();
    ids.push(config.gpu.provider_gpu_id.clone());
    CreateEndpointRequest {
        name: config.name.clone(),
        template_id,
        gpu_type_ids: ids,
        gpu_count: config.gpu_count,
        workers_min: config.scaling.min_workers,
        workers_max: config.scaling.max_workers,
        idle_timeout: config.scaling.idle_timeout_secs,
    }
}

/// The body that changes an endpoint's scaling:
/// `{"workersMin": …, "workersMax": …, "idleTimeout": …}`.
pub fn update_body(scaling: &ScalingConfig) -> (r: Json)
    ensures
        r matches Json::Object(fs) && fs@.len() == 3 && fs@[0].0@ == "workersMin"@ && fs@[0].1
            == Json::Number(JsonNumber::PosInt(scaling.min_workers as u64)) && fs@[1].0@
            == "workersMax"@ && fs@[1].1 == Json::Number(
            JsonNumber::PosInt(scaling.max_workers as u64),
        ) && fs@[2].0@ == "idleTimeout"@ && fs@[2].1 == Json::Number(
            JsonNumber::PosInt(scaling.idle_timeout_secs as u64),
        ),
{
    let mut fs: Vec<(String, Json)> = Vec::new();
    fs.push((String::from_str("workersMin"), Json::Number(JsonNumber::PosInt(scaling.min_workers as u64))));
    fs.push((String::from_str("workersMax"), Json::Number(JsonNumber::PosInt(scaling.max_workers as u64))));
    fs.push(
        (String::from_str("idleTimeout"), Json::Number(JsonNumber::PosInt(scaling.idle_timeout_secs as u64))),
    );
    Json::Object(fs)
}

/// `<REST_BASE>/endpoints`, or `<REST_BASE>/endpoints/<id>` for one.
pub fn endpoints_url(base: &str, id: Option<&str>) -> (r: String)
    ensures
        r@ == base@ + "/endpoints"@ + match id {
            Some(i) => "/"@ + i@,
            None => Seq::empty(),
        },
{
    let mut r = crate::text::concat2(base, "/endpoints");
    match id {
        Some(i) => {
            r.append("/");
            r.append(i);
        },
        None => {},
    }
    r
}

} // verus!
