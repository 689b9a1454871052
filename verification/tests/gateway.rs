use std::collections::HashMap;

use rpx_core::fleet::state::FleetState;
use rpx_core::fleet::ApiKeyEntry;
use rpx_core::fleet::FleetConfig;
use rpx_core::fleet::FleetDefaults;
use rpx_core::fleet::GatewayConfig;
use rpx_core::fleet::ModelEntry;
use rpx_core::fleet::ModelScaling;
use rpx_core::fleet::ModelTier;
use rpx_core::fleet::ProviderConfig;
use rpx_core::gateway::auth::AuthError;
use rpx_core::gateway::auth::AuthLayer;
use rpx_core::gateway::auth::TokenBucket;
use rpx_core::gateway::authorize;
use rpx_core::gateway::fleet_status;
use rpx_core::gateway::list_models;
use rpx_core::gateway::requested_model;
use rpx_core::gateway::router::error_json;
use rpx_core::gateway::router::provider_error_reply;
use rpx_core::gateway::router::queue_reply;
use rpx_core::gateway::router::ModelRouter;
use rpx_core::gateway::router::QueueWait;
use rpx_core::gateway::router::Route;
use rpx_core::gateway::spend::SpendTracker;
use rpx_core::gateway::AuthDecision;
use rpx_core::gateway::GatewayError;
use rpx_core::json::Json;
use rpx_core::json::JsonNumber;
use rpx_core::provider::types::Endpoint;
use rpx_core::provider::types::EndpointStatus;
use rpx_core::provider::ProviderKind;

const DOLLAR: u64 = 1_000_000_000_000;

fn key(key: &str, name: &str, budget_dollars: Option<u64>, rpm: Option<u32>, allowed: Option<Vec<&str>>) -> ApiKeyEntry {
    ApiKeyEntry {
        key: key.to_string(),
        name: name.to_string(),
        budget_pico: budget_dollars.map(|d| d * DOLLAR),
        rate_limit_rpm: rpm,
        allowed_models: allowed.map(|v| v.into_iter().map(|s| s.to_string()).collect()),
    }
}

fn test_keys() -> Vec<ApiKeyEntry> {
    vec![
        key("sk-valid", "test-app", Some(100), Some(60), None),
        key("sk-restricted", "restricted", None, Some(10), Some(vec!["llama-8b"])),
    ]
}

fn model(id: &str, alias: &str, tier: ModelTier, min_workers: u32) -> ModelEntry {
    let mut scaling = ModelScaling::default();
    scaling.min_workers = min_workers;
    ModelEntry {
        id: id.to_string(),
        alias: Some(alias.to_string()),
        tier,
        backend: "vllm".to_string(),
        gpu: "auto".to_string(),
        gpu_count: 1,
        dtype: "auto".to_string(),
        scaling,
        backend_args: HashMap::new(),
    }
}

fn test_config() -> FleetConfig {
    FleetConfig {
        gateway: GatewayConfig::default(),
        provider: ProviderConfig { name: "runpod".to_string() },
        models: vec![
            model("org/model-a", "model-a", ModelTier::Hot, 1),
            model("org/model-b", "model-b", ModelTier::Warm, 0),
            model("org/model-c", "model-c", ModelTier::Cold, 0),
        ],
        api_keys: Vec::new(),
        defaults: FleetDefaults::default(),
    }
}

fn names(config: &FleetConfig) -> Vec<String> {
    config.models.iter().map(|m| m.display_name()).collect()
}

fn endpoint(id: &str) -> Endpoint {
    Endpoint {
        id: id.to_string(),
        name: id.to_string(),
        provider: ProviderKind::RunPod,
        status: EndpointStatus::Ready,
        gpu_id: "L4".to_string(),
        invocation_url: format!("https://api.runpod.ai/v2/{id}"),
        openai_base_url: None,
        created_at: "2026-04-05T12:00:00Z".to_string(),
    }
}

fn num(n: u64) -> Json {
    Json::Number(JsonNumber::PosInt(n))
}

fn usage_response(prompt: u64, completion: u64) -> Json {
    Json::Object(vec![(
        "usage".to_string(),
        Json::Object(vec![
            ("prompt_tokens".to_string(), num(prompt)),
            ("completion_tokens".to_string(), num(completion)),
            ("total_tokens".to_string(), num(prompt + completion)),
        ]),
    )])
}

fn reject(r: Route) -> (u16, String) {
    match r {
        Route::Reject { status, body } => (status, body),
        other => panic!("expected a rejection, got {other:?}"),
    }
}

#[test]
fn valid_key_succeeds() {
    let mut auth = AuthLayer::new(&test_keys());
    let name = auth.validate("sk-valid").unwrap();
    assert_eq!(name, "test-app");
}

#[test]
fn invalid_key_fails() {
    let mut auth = AuthLayer::new(&test_keys());
    assert!(matches!(auth.validate("sk-invalid"), Err(AuthError::InvalidKey)));
}

#[test]
fn rate_limiting_works() {
    let keys = vec![key("sk-limited", "limited", None, Some(2), None)];
    let mut auth = AuthLayer::new(&keys);

    assert!(auth.validate("sk-limited").is_ok());
    assert!(auth.validate("sk-limited").is_ok());
    // Third request should fail (bucket started with 2 tokens)
    assert!(matches!(auth.validate("sk-limited"), Err(AuthError::RateLimited)));
}

#[test]
fn default_rate_limit_is_600_per_minute() {
    let keys = vec![key("sk", "app", None, None, None)];
    let mut auth = AuthLayer::new(&keys);
    for _ in 0..600 {
        assert!(auth.validate("sk").is_ok());
    }
    assert!(matches!(auth.validate("sk"), Err(AuthError::RateLimited)));
}

#[test]
fn token_bucket_refills_with_time() {
    let start: u128 = 5_000_000_000;
    let mut b = TokenBucket::full(60, start);
    assert_eq!(b.last_refill, start);
    // 60 rpm: one request per second.
    for _ in 0..60 {
        assert!(b.refill_and_take(start));
    }
    assert!(!b.refill_and_take(start));
    assert!(!b.refill_and_take(start + 999_999_999));
    assert_eq!(b.last_refill, start + 999_999_999);
    assert!(b.refill_and_take(start + 1_000_000_000));
    assert!(!b.refill_and_take(start + 1_000_000_000));
    // A reading earlier than the last refill refills nothing.
    assert!(!b.refill_and_take(0));
    // A long pause refills to the full minute, and no further.
    assert!(b.refill_and_take(3_600_000_000_000));
    for _ in 0..59 {
        assert!(b.refill_and_take(3_600_000_000_000));
    }
    assert!(!b.refill_and_take(3_600_000_000_000));
}

#[test]
fn model_restriction_works() {
    let auth = AuthLayer::new(&test_keys());
    assert!(auth.is_model_allowed("sk-valid", "anything")); // no restriction
    assert!(auth.is_model_allowed("sk-restricted", "llama-8b")); // allowed
    assert!(!auth.is_model_allowed("sk-restricted", "qwen-72b")); // not allowed
    assert!(!auth.is_model_allowed("sk-unknown", "llama-8b"));
}

#[test]
fn open_access_when_no_keys() {
    let auth = AuthLayer::new(&[]);
    assert!(auth.is_open());
}

#[test]
fn not_open_when_keys_exist() {
    let auth = AuthLayer::new(&test_keys());
    assert!(!auth.is_open());
}

#[test]
fn budget_enforcement() {
    let auth = AuthLayer::new(&test_keys());
    // sk-valid has $100 budget
    assert!(auth.check_budget("sk-valid", 50 * DOLLAR).is_ok());
    assert!(auth.check_budget("sk-valid", 99_990_000_000_000).is_ok());
    assert!(matches!(auth.check_budget("sk-valid", 100 * DOLLAR), Err(AuthError::BudgetExceeded { .. })));
    assert!(matches!(auth.check_budget("sk-valid", 150 * DOLLAR), Err(AuthError::BudgetExceeded { .. })));
    assert!(matches!(auth.check_budget("sk-none", 0), Err(AuthError::InvalidKey)));
}

#[test]
fn no_budget_means_unlimited() {
    let auth = AuthLayer::new(&test_keys());
    // sk-restricted has no budget
    assert!(auth.check_budget("sk-restricted", 999_999 * DOLLAR).is_ok());
}

#[test]
fn key_name_lookup() {
    let auth = AuthLayer::new(&test_keys());
    assert_eq!(auth.key_name("sk-valid"), Some("test-app"));
    assert_eq!(auth.key_name("sk-restricted"), Some("restricted"));
    assert_eq!(auth.key_name("sk-missing"), None);
}

#[test]
fn repeated_key_takes_the_last_entry() {
    let keys = vec![key("sk", "first", None, None, None), key("sk", "second", None, None, None)];
    let auth = AuthLayer::new(&keys);
    assert_eq!(auth.key_name("sk"), Some("second"));
}

#[test]
fn auth_error_messages() {
    assert_eq!(AuthError::InvalidKey.to_string(), "invalid API key");
    assert_eq!(AuthError::RateLimited.to_string(), "rate limit exceeded");
    let e = AuthError::BudgetExceeded { spent: 12_346_000_000_000, budget: 10 * DOLLAR };
    assert_eq!(e.to_string(), "budget exceeded: $12.35 of $10.00");
}

#[test]
fn auth_layer_integration() {
    let keys = vec![
        key("sk-valid", "my-app", Some(100), Some(60), None),
        key("sk-restricted", "restricted-app", Some(10), Some(5), Some(vec!["qwen-7b"])),
    ];

    let mut auth = AuthLayer::new(&keys);

    // Valid key works
    assert_eq!(auth.validate("sk-valid").unwrap(), "my-app");

    // Invalid key fails
    assert!(matches!(auth.validate("sk-bad"), Err(AuthError::InvalidKey)));

    // Model access control
    assert!(auth.is_model_allowed("sk-valid", "anything")); // unrestricted
    assert!(auth.is_model_allowed("sk-restricted", "qwen-7b")); // allowed
    assert!(!auth.is_model_allowed("sk-restricted", "llama-8b")); // denied

    // Rate limiting — sk-restricted has 5 rpm (bucket starts with 5 tokens)
    for i in 0..5 {
        assert!(auth.validate("sk-restricted").is_ok(), "request {i} should succeed");
    }
    // Next request should fail (bucket empty, too little time to refill)
    assert!(matches!(auth.validate("sk-restricted"), Err(AuthError::RateLimited)));
}

#[test]
fn auth_rate_limit_and_budget() {
    let keys = vec![key("sk-budget", "budget-app", Some(10), Some(3), Some(vec!["allowed-model"]))];

    let mut auth = AuthLayer::new(&keys);

    // Rate limit: 3 RPM
    assert!(auth.validate("sk-budget").is_ok());
    assert!(auth.validate("sk-budget").is_ok());
    assert!(auth.validate("sk-budget").is_ok());
    assert!(matches!(auth.validate("sk-budget"), Err(AuthError::RateLimited)));

    // Budget check
    assert!(auth.check_budget("sk-budget", 5 * DOLLAR).is_ok());
    assert!(matches!(auth.check_budget("sk-budget", 10 * DOLLAR), Err(AuthError::BudgetExceeded { .. })));

    // Model restriction
    assert!(auth.is_model_allowed("sk-budget", "allowed-model"));
    assert!(!auth.is_model_allowed("sk-budget", "other-model"));
}

#[test]
fn resolves_known_aliases() {
    let router = ModelRouter::new(&test_config());
    assert_eq!(router.resolve_model("model-a"), Some(0));
    assert_eq!(router.resolve_model("model-b"), Some(1));
    assert_eq!(router.resolve_model("model-c"), Some(2));
}

#[test]
fn unknown_alias_returns_none() {
    let router = ModelRouter::new(&test_config());
    assert_eq!(router.resolve_model("nonexistent"), None);
}

#[test]
fn forward_unknown_model_returns_404() {
    let config = test_config();
    let router = ModelRouter::new(&config);
    let fleet = FleetState::init_from_config(&names(&config));
    let (status, body) = reject(router.route("nonexistent", &fleet, false, false));
    assert_eq!(status, 404);
    assert_eq!(body, r#"{"error":{"message":"model 'nonexistent' not found","type":"model_not_found"}}"#);
}

#[test]
fn forward_cold_without_manager_returns_503() {
    let config = test_config();
    let router = ModelRouter::new(&config);
    let fleet = FleetState::init_from_config(&names(&config));
    let (status, body) = reject(router.route("model-c", &fleet, false, false));
    assert_eq!(status, 503);
    assert!(body.contains("no orchestrator configured"));
}

#[test]
fn forward_error_model_returns_503() {
    let config = test_config();
    let router = ModelRouter::new(&config);
    let mut state = FleetState::init_from_config(&names(&config));
    state.begin_deploy("model-a").unwrap();
    state.deploy_failed("model-a", "GPU unavailable".to_string()).unwrap();
    let (status, body) = reject(router.route("model-a", &state, true, true));
    assert_eq!(status, 503);
    assert!(body.contains("error state"));
}

#[test]
fn route_by_state() {
    let config = test_config();
    let router = ModelRouter::new(&config);
    let mut state = FleetState::init_from_config(&names(&config));
    // Cold with an orchestrator: deploy, and queue or refuse with a retry hint.
    assert!(matches!(router.route("model-c", &state, true, true), Route::DeployAndQueue));
    match router.route("model-c", &state, true, false) {
        Route::DeployAndRefuse(body) => assert_eq!(
            body,
            r#"{"error":{"message":"model 'model-c' is cold — deploying","type":"model_cold"},"retry_after":30}"#
        ),
        other => panic!("unexpected {other:?}"),
    }
    // Deploying: queue, or 503 with a retry hint.
    state.begin_deploy("model-b").unwrap();
    assert!(matches!(router.route("model-b", &state, true, true), Route::Queue));
    let (status, body) = reject(router.route("model-b", &state, true, false));
    assert_eq!(status, 503);
    assert!(body.ends_with(r#""retry_after":15}"#));
    // Ready: invoke its endpoint.
    state.deploy_succeeded("model-b", endpoint("ep-b"), ModelTier::Warm).unwrap();
    match router.route("model-b", &state, false, false) {
        Route::Invoke(ep) => assert_eq!(ep.id, "ep-b"),
        other => panic!("unexpected {other:?}"),
    }
    // Configured but untracked: 500.
    let empty = FleetState::new();
    let (status, _) = reject(router.route("model-a", &empty, true, true));
    assert_eq!(status, 500);
}

#[test]
fn queue_replies() {
    assert!(queue_reply(&QueueWait::Answered, "m", true, 300).is_none());
    assert_eq!(
        queue_reply(&QueueWait::TimedOut, "m", true, 300),
        Some((
            504,
            r#"{"error":{"message":"model 'm' deploy timed out after 300s","type":"deploy_timeout"},"retry_after":30}"#
                .to_string()
        ))
    );
    assert_eq!(
        queue_reply(&QueueWait::Full, "m", false, 300),
        Some((503, r#"{"error":{"message":"deploy queue full","type":"queue_full"},"retry_after":15}"#.to_string()))
    );
    assert_eq!(queue_reply(&QueueWait::ProviderFailed("boom".to_string()), "m", true, 1).unwrap().0, 502);
    assert_eq!(
        provider_error_reply("down"),
        (502, r#"{"error":{"message":"down","type":"provider_error"}}"#.to_string())
    );
    assert_eq!(error_json("x", "y"), r#"{"error":{"message":"x","type":"y"}}"#);
}

#[test]
fn record_tracks_tokens() {
    let mut tracker = SpendTracker::new();
    let response = usage_response(50, 100);

    tracker.record("my-app", &response, 188_000_000);
    let spend = tracker.get("my-app").unwrap();
    assert_eq!(spend.total_requests, 1);
    assert_eq!(spend.total_input_tokens, 50);
    assert_eq!(spend.total_output_tokens, 100);
    assert!(spend.estimated_cost_pico > 0);
    // 150 tokens at 100 tokens/s = 1.5 s of GPU time.
    assert_eq!(spend.estimated_cost_pico, 282_000_000);
}

#[test]
fn record_accumulates() {
    let mut tracker = SpendTracker::new();
    let response = Json::Object(vec![(
        "usage".to_string(),
        Json::Object(vec![
            ("prompt_tokens".to_string(), num(10)),
            ("completion_tokens".to_string(), num(20)),
        ]),
    )]);

    tracker.record("app", &response, 100_000_000);
    tracker.record("app", &response, 100_000_000);

    let spend = tracker.get("app").unwrap();
    assert_eq!(spend.total_requests, 2);
    assert_eq!(spend.total_input_tokens, 20);
    assert_eq!(spend.total_output_tokens, 40);
}

#[test]
fn record_without_usage_field() {
    let mut tracker = SpendTracker::new();
    let response = Json::Object(vec![("id".to_string(), Json::Str("chatcmpl-1".to_string()))]);

    tracker.record("app", &response, 100_000_000);
    let spend = tracker.get("app").unwrap();
    assert_eq!(spend.total_requests, 1);
    assert_eq!(spend.total_input_tokens, 0);
    assert_eq!(spend.estimated_cost_pico, 0);
}

#[test]
fn record_ignores_non_integer_counts() {
    let mut tracker = SpendTracker::new();
    let response = Json::Object(vec![(
        "usage".to_string(),
        Json::Object(vec![
            ("prompt_tokens".to_string(), Json::Number(JsonNumber::Float("1.5".to_string()))),
            ("completion_tokens".to_string(), num(7)),
        ]),
    )]);
    assert!(tracker.can_record("app", &response));
    tracker.record("app", &response, 100);
    let spend = tracker.get("app").unwrap();
    assert_eq!(spend.total_input_tokens, 0);
    assert_eq!(spend.total_output_tokens, 7);
    assert_eq!(spend.estimated_cost_pico, 7);
}

#[test]
fn unknown_key_returns_none() {
    let tracker = SpendTracker::new();
    assert!(tracker.get("nonexistent").is_none());
}

#[test]
fn spend_tracking() {
    let mut tracker = SpendTracker::new();

    // Record request with usage
    let response = usage_response(100, 200);
    tracker.record("app-1", &response, 188_000_000);

    // Record bare request
    tracker.record_request("app-1");
    tracker.record_request("app-2");

    let spend1 = tracker.get("app-1").unwrap();
    assert_eq!(spend1.total_requests, 2); // 1 full + 1 bare
    assert_eq!(spend1.total_input_tokens, 100);
    assert_eq!(spend1.total_output_tokens, 200);
    assert!(spend1.estimated_cost_pico > 0);

    let spend2 = tracker.get("app-2").unwrap();
    assert_eq!(spend2.total_requests, 1);
    assert_eq!(spend2.total_input_tokens, 0);

    assert_eq!(tracker.all().len(), 2);
}

#[test]
fn authorize_decisions() {
    let spend = SpendTracker::new();
    // An open gateway lets everything through.
    let mut open = AuthLayer::new(&[]);
    assert!(matches!(authorize(&mut open, "/v1/chat/completions", None, &spend), AuthDecision::Pass));

    let mut auth = AuthLayer::new(&test_keys());
    assert!(matches!(authorize(&mut auth, "/health", None, &spend), AuthDecision::Pass));
    assert!(matches!(authorize(&mut auth, "/v1/rpx/status", None, &spend), AuthDecision::Pass));
    match authorize(&mut auth, "/v1/models", None, &spend) {
        AuthDecision::Reject { status, body } => {
            assert_eq!(status, 401);
            assert_eq!(body, r#"{"error":{"message":"missing Authorization header","type":"auth_error"}}"#);
        }
        other => panic!("unexpected {other:?}"),
    }
    match authorize(&mut auth, "/v1/models", Some("Basic sk-valid"), &spend) {
        AuthDecision::Reject { status, .. } => assert_eq!(status, 401),
        other => panic!("unexpected {other:?}"),
    }
    match authorize(&mut auth, "/v1/models", Some("Bearer sk-nope"), &spend) {
        AuthDecision::Reject { status, body } => {
            assert_eq!(status, 401);
            assert!(body.contains("invalid API key"));
        }
        other => panic!("unexpected {other:?}"),
    }
    match authorize(&mut auth, "/v1/models", Some("Bearer sk-valid"), &spend) {
        AuthDecision::PassAs(name) => assert_eq!(name, "test-app"),
        other => panic!("unexpected {other:?}"),
    }
}

#[test]
fn authorize_rate_limit_and_budget() {
    let keys = vec![key("sk", "app", Some(1), Some(1), None)];
    let mut auth = AuthLayer::new(&keys);
    let mut spend = SpendTracker::new();
    // $1 budget: 1e12 picodollars of GPU time at 1e12 per second, 100 tokens.
    spend.record("app", &usage_response(60, 40), DOLLAR);
    match authorize(&mut auth, "/v1/chat/completions", Some("Bearer sk"), &spend) {
        AuthDecision::Reject { status, body } => {
            assert_eq!(status, 402);
            assert_eq!(
                body,
                r#"{"error":{"message":"budget exceeded: $1.00 of $1.00","type":"budget_exceeded"}}"#
            );
        }
        other => panic!("unexpected {other:?}"),
    }
    // The one request of the minute was taken.
    match authorize(&mut auth, "/v1/chat/completions", Some("Bearer sk"), &spend) {
        AuthDecision::Reject { status, body } => {
            assert_eq!(status, 429);
            assert!(body.contains("rate limit exceeded"));
        }
        other => panic!("unexpected {other:?}"),
    }
}

#[test]
fn model_list_and_status() {
    let config = test_config();
    match list_models(&config) {
        Json::Object(fs) => {
            assert_eq!(fs[0].0, "object");
            match &fs[1].1 {
                Json::Array(items) => assert_eq!(items.len(), 3),
                _ => panic!("data should be an array"),
            }
        }
        _ => panic!("model list should be an object"),
    }
    let mut fleet = FleetState::init_from_config(&names(&config));
    fleet.begin_deploy("model-a").unwrap();
    fleet.deploy_succeeded("model-a", endpoint("ep-a"), ModelTier::Hot).unwrap();
    match fleet_status(&config, &fleet) {
        Json::Object(fs) => {
            assert_eq!(fs[0].1.as_str(), Some("fleet_status"));
            match &fs[1].1 {
                Json::Array(items) => {
                    assert_eq!(items.len(), 3);
                    assert_eq!(items[0].get("status").and_then(|s| s.as_str()), Some("hot"));
                    assert_eq!(items[0].get("endpoint_id").and_then(|s| s.as_str()), Some("ep-a"));
                    assert_eq!(items[0].get("tier").and_then(|s| s.as_str()), Some("hot"));
                    assert_eq!(items[2].get("status").and_then(|s| s.as_str()), Some("cold"));
                    assert!(matches!(items[2].get("endpoint_id"), Some(Json::Null)));
                }
                _ => panic!("models should be an array"),
            }
        }
        _ => panic!("status should be an object"),
    }
    let untracked = FleetState::new();
    match fleet_status(&config, &untracked) {
        Json::Object(fs) => match &fs[1].1 {
            Json::Array(items) => assert_eq!(items[1].get("status").and_then(|s| s.as_str()), Some("unknown")),
            _ => panic!("models should be an array"),
        },
        _ => panic!("status should be an object"),
    }
}

#[test]
fn gateway_error_messages() {
    let e = GatewayError::Bind { message: "address in use".to_string(), port: 4000 };
    assert_eq!(e.to_string(), "failed to bind to port 4000: address in use");
    assert_eq!(GatewayError::Config("bad".to_string()).to_string(), "config error: bad");
    assert_eq!(GatewayError::Serve("x".to_string()).to_string(), "gateway error: x");
}

#[test]
fn requested_model_reads_the_model_member() {
    let body = Json::Object(vec![("model".to_string(), Json::Str("llama-8b".to_string()))]);
    assert_eq!(requested_model(&body), Ok("llama-8b".to_string()));
    let missing = r#"{"error":{"message":"missing 'model' field","type":"invalid_request"}}"#.to_string();
    assert_eq!(requested_model(&Json::Object(Vec::new())), Err((400, missing.clone())));
    let not_text = Json::Object(vec![("model".to_string(), num(3))]);
    assert_eq!(requested_model(&not_text), Err((400, missing)));
}

#[test]
fn burst_spread_within_a_refill_step() {
    // 3 requests per minute: one request comes back every 20 s. Four calls
    // spread over 4 s: the first three pass, the fourth is refused.
    let second: u128 = 1_000_000_000;
    let mut bucket = TokenBucket::full(3, 0);
    let admitted: Vec<bool> = (1..5u128).map(|t| bucket.refill_and_take(t * second)).collect();
    assert_eq!(admitted, vec![true, true, true, false]);
    // A full refill step later one more request passes.
    assert!(bucket.refill_and_take(24 * second));
}

#[test]
fn validate_at_refills_for_the_time_since_the_last_refill() {
    let keys = vec![key("sk-limited", "limited", None, Some(2), None)];
    let mut auth = AuthLayer::new(&keys);
    // Readings no later than the layer's start refill nothing.
    assert_eq!(auth.validate_at("sk-limited", 0).unwrap(), "limited");
    assert!(auth.validate_at("sk-limited", 0).is_ok());
    assert!(matches!(auth.validate_at("sk-limited", 0), Err(AuthError::RateLimited)));
    // Far later the bucket is full again; 30 s after that (2 rpm) one more
    // request has come back.
    let later: u128 = 1 << 100;
    assert!(auth.validate_at("sk-limited", later).is_ok());
    assert!(auth.validate_at("sk-limited", later).is_ok());
    assert!(matches!(auth.validate_at("sk-limited", later), Err(AuthError::RateLimited)));
    assert!(matches!(auth.validate_at("sk-limited", later + 29_999_999_999), Err(AuthError::RateLimited)));
    assert!(auth.validate_at("sk-limited", later + 30_000_000_000).is_ok());
    assert!(matches!(auth.validate_at("sk-unknown", later), Err(AuthError::InvalidKey)));
}
