use rpx_core::backend::BackendKind;
use rpx_core::json::Json;
use rpx_core::json::JsonNumber;
use rpx_core::provider::runpod::api::check_status;
use rpx_core::provider::runpod::api::endpoint_request;
use rpx_core::provider::runpod::api::endpoints_url;
use rpx_core::provider::runpod::api::{new_template_request, template_request};
use rpx_core::provider::runpod::api::template_source;
use rpx_core::provider::runpod::api::to_endpoint;
use rpx_core::provider::runpod::api::to_endpoints;
use rpx_core::provider::runpod::api::update_body;
use rpx_core::provider::runpod::api::ApiCall;
use rpx_core::provider::runpod::api::RunPodEndpointResponse;
use rpx_core::provider::runpod::api::StatusVerdict;
use rpx_core::provider::runpod::api::TemplateSource;
use rpx_core::provider::runpod::invoke::frame_chunks;
use rpx_core::provider::runpod::invoke::input_body;
use rpx_core::provider::runpod::invoke::invocation_url;
use rpx_core::provider::runpod::invoke::job_id;
use rpx_core::provider::runpod::invoke::next_state;
use rpx_core::provider::runpod::invoke::runsync_output;
use rpx_core::provider::runpod::invoke::stream_completed;
use rpx_core::provider::runpod::invoke::StreamState;
use rpx_core::provider::types::EndpointConfig;
use rpx_core::provider::types::EndpointStatus;
use rpx_core::provider::types::GpuSpec;
use rpx_core::provider::types::ImageSpec;
use rpx_core::provider::types::ProviderError;
use rpx_core::provider::types::ScalingConfig;
use rpx_core::provider::ProviderKind;

fn s(x: &str) -> String {
    x.to_string()
}

fn obj(fields: Vec<(&str, Json)>) -> Json {
    Json::Object(fields.into_iter().map(|(k, v)| (k.to_string(), v)).collect())
}

#[test]
fn to_endpoint_maps_status() {
    let rp = RunPodEndpointResponse {
        id: s("test-123"),
        name: Some(s("my-endpoint")),
        status: Some(s("READY")),
        gpu_type_ids: Some(vec![s("NVIDIA L4")]),
        template_id: None,
    };
    let ep = to_endpoint(&rp, "");
    assert_eq!(ep.status, EndpointStatus::Ready);
    assert_eq!(ep.name, "my-endpoint");
    assert_eq!(ep.gpu_id, "NVIDIA L4");
    assert!(ep.invocation_url.contains("test-123"));
    assert_eq!(ep.invocation_url, "https://api.runpod.ai/v2/test-123");
    assert_eq!(ep.openai_base_url.as_deref(), Some("https://api.runpod.ai/v2/test-123/openai/v1"));
    assert_eq!(ep.provider, ProviderKind::RunPod);
    assert!(!ep.created_at.is_empty());
}

#[test]
fn to_endpoint_defaults_to_idle() {
    let rp = RunPodEndpointResponse {
        id: s("test"),
        name: None,
        status: None,
        gpu_type_ids: None,
        template_id: None,
    };
    let ep = to_endpoint(&rp, "fallback-gpu");
    assert_eq!(ep.status, EndpointStatus::Idle);
    assert_eq!(ep.name, "test");
    assert_eq!(ep.gpu_id, "fallback-gpu");
}

#[test]
fn to_endpoint_other_statuses() {
    let mk = |st: &str| RunPodEndpointResponse {
        id: s("e"),
        name: None,
        status: Some(s(st)),
        gpu_type_ids: Some(Vec::new()),
        template_id: None,
    };
    assert_eq!(to_endpoint(&mk("building"), "g").status, EndpointStatus::Building);
    assert_eq!(to_endpoint(&mk("INITIALIZING"), "g").status, EndpointStatus::Initializing);
    assert_eq!(to_endpoint(&mk("THROTTLED"), "g").status, EndpointStatus::Idle);
    assert_eq!(
        to_endpoint(&mk("ERROR"), "g").status,
        EndpointStatus::Error(s("endpoint in error state"))
    );
    // An empty GPU list falls back to the given GPU.
    assert_eq!(to_endpoint(&mk("READY"), "g").gpu_id, "g");
    let eps = to_endpoints(&vec![mk("READY"), mk("ERROR")]);
    assert_eq!(eps.len(), 2);
    assert_eq!(eps[1].id, "e");
}

#[test]
fn api_status_verdicts() {
    assert!(matches!(check_status(200, ApiCall::Other, ""), StatusVerdict::Success));
    assert!(matches!(check_status(204, ApiCall::OneEndpoint, "x"), StatusVerdict::Success));
    match check_status(401, ApiCall::ValidateAuth, "") {
        StatusVerdict::Fail(ProviderError::Auth(m)) => assert_eq!(m, "invalid RunPod API key"),
        other => panic!("unexpected {other:?}"),
    }
    match check_status(404, ApiCall::OneEndpoint, "ep-1") {
        StatusVerdict::Fail(e) => assert_eq!(e.to_string(), "endpoint not found: ep-1"),
        other => panic!("unexpected {other:?}"),
    }
    assert!(matches!(check_status(404, ApiCall::Other, "ep-1"), StatusVerdict::ApiError));
    assert!(matches!(check_status(401, ApiCall::OneEndpoint, "ep-1"), StatusVerdict::ApiError));
    assert!(matches!(check_status(500, ApiCall::ValidateAuth, ""), StatusVerdict::ApiError));
}

#[test]
fn template_and_endpoint_requests() {
    let env = vec![(s("MODEL_NAME"), s("m"))];
    let t = template_request("svc", "0123456789abcdef", "runpod/worker-v1-vllm:stable", &env);
    assert_eq!(t.name, "rpx-svc-01234567");
    assert_eq!(t.image_name, "runpod/worker-v1-vllm:stable");
    assert!(t.is_serverless);
    assert_eq!(t.container_disk_in_gb, 50);
    assert_eq!(t.env, Some(env.clone()));
    assert!(template_request("svc", "abcdefgh", "img", &Vec::new()).env.is_none());

    match template_source(&ImageSpec::PrebuiltImage { registry_url: s("repo/img"), tag: s("v1") }) {
        TemplateSource::Create(i) => assert_eq!(i, "repo/img:v1"),
        other => panic!("unexpected {other:?}"),
    }
    match template_source(&ImageSpec::NativeTemplate { template_id: s("tpl-1") }) {
        TemplateSource::Existing(t) => assert_eq!(t, "tpl-1"),
        other => panic!("unexpected {other:?}"),
    }
    match template_source(&ImageSpec::CustomImage { image_url: s("ghcr.io/x/y:z") }) {
        TemplateSource::Create(i) => assert_eq!(i, "ghcr.io/x/y:z"),
        other => panic!("unexpected {other:?}"),
    }

    let config = EndpointConfig {
        name: s("svc"),
        model_id: s("m"),
        backend: BackendKind::Vllm,
        gpu: GpuSpec {
            id: s("l4"),
            name: s("NVIDIA L4"),
            provider_gpu_id: s("NVIDIA L4"),
            vram_gb: 24,
            price_per_sec: 119_000_000,
            multi_gpu_max: 8,
        },
        gpu_count: 2,
        scaling: ScalingConfig { min_workers: 1, max_workers: 4, idle_timeout_secs: 120 },
        env_vars: env,
        image: ImageSpec::CustomImage { image_url: s("x") },
    };
    let r = endpoint_request(&config, s("tpl-9"));
    assert_eq!(r.name, "svc");
    assert_eq!(r.template_id, "tpl-9");
    assert_eq!(r.gpu_type_ids, vec![s("NVIDIA L4")]);
    assert_eq!((r.gpu_count, r.workers_min, r.workers_max, r.idle_timeout), (2, 1, 4, 120));

    match update_body(&config.scaling) {
        Json::Object(fs) => {
            assert_eq!(fs.len(), 3);
            assert_eq!(fs[0].0, "workersMin");
            assert_eq!(fs[2].0, "idleTimeout");
            assert!(matches!(fs[2].1, Json::Number(JsonNumber::PosInt(120))));
        }
        _ => panic!("update body should be an object"),
    }
    assert_eq!(endpoints_url("https://rest.runpod.io/v1", None), "https://rest.runpod.io/v1/endpoints");
    assert_eq!(
        endpoints_url("https://rest.runpod.io/v1", Some("ep-1")),
        "https://rest.runpod.io/v1/endpoints/ep-1"
    );
}

#[test]
fn stream_state_transitions() {
    // Just verify the enum exists and is constructable
    let _polling = StreamState::Polling;
    let _done = StreamState::Done;
    assert_eq!(next_state(false, false), StreamState::Polling);
    assert_eq!(next_state(true, false), StreamState::Done);
    assert_eq!(next_state(false, true), StreamState::Done);
}

#[test]
fn invocation_bodies() {
    assert_eq!(invocation_url("ep-1", "runsync"), "https://api.runpod.ai/v2/ep-1/runsync");
    match input_body(Json::Bool(true)) {
        Json::Object(fs) => {
            assert_eq!(fs.len(), 1);
            assert_eq!(fs[0].0, "input");
            assert!(matches!(fs[0].1, Json::Bool(true)));
        }
        _ => panic!("input body should be an object"),
    }
    let wrapped = obj(vec![("id", Json::Str(s("job"))), ("output", Json::Str(s("hi")))]);
    assert_eq!(runsync_output(wrapped).as_str(), Some("hi"));
    let bare = obj(vec![("choices", Json::Array(Vec::new()))]);
    assert!(runsync_output(bare).get("choices").is_some());

    assert_eq!(job_id(&obj(vec![("id", Json::Str(s("job-7")))])).ok(), Some(s("job-7")));
    match job_id(&obj(vec![("id", Json::Null)])) {
        Err(e) => assert_eq!(e.to_string(), "missing job id in run response"),
        Ok(_) => panic!("no job id"),
    }
    assert!(stream_completed(&obj(vec![("status", Json::Str(s("COMPLETED")))])));
    assert!(!stream_completed(&obj(vec![("status", Json::Str(s("IN_PROGRESS")))])));
    assert!(!stream_completed(&Json::Null));
    assert_eq!(frame_chunks(&vec![s("a"), s("{}")]), "data: a\n\ndata: {}\n\n");
    assert_eq!(frame_chunks(&Vec::new()), "");
}

#[test]
fn provider_names_and_errors() {
    assert_eq!(ProviderKind::RunPod.to_string(), "RunPod");
    assert_eq!(ProviderKind::VastAi.catalog_name(), "vastai");
    assert_eq!(ProviderKind::from_catalog_name("beam"), Some(ProviderKind::Beam));
    assert_eq!(ProviderKind::from_catalog_name("RunPod"), None);
    assert_eq!(
        ProviderError::Api { status: 500, message: s("boom") }.to_string(),
        "provider API error (500): boom"
    );
    assert_eq!(ProviderError::Other(s("plain")).to_string(), "plain");
    assert_eq!(EndpointStatus::Ready.to_string(), "Ready");
    assert_eq!(EndpointStatus::Error(s("x")).to_string(), "Error: x");
}

#[test]
fn new_template_names_carry_a_fresh_suffix() {
    let env = vec![("HF_TOKEN".to_string(), "hf_x".to_string())];
    let a = new_template_request("svc", "img", &env);
    let b = new_template_request("svc", "img", &env);
    assert!(a.name.starts_with("rpx-svc-"));
    assert_eq!(a.name.chars().count(), "rpx-svc-".len() + 8);
    assert!(a.name["rpx-svc-".len()..].chars().all(|c| c.is_ascii_digit() || ('a'..='f').contains(&c)));
    assert_ne!(a.name, b.name);
    assert_eq!(a.image_name, "img");
    assert!(a.is_serverless);
    assert_eq!(a.container_disk_in_gb, 50);
    assert_eq!(a.env, Some(env));
}
