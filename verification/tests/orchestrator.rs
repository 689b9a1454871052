use std::collections::HashMap;

use rpx_core::fleet::state::FleetState;
use rpx_core::fleet::state::ModelState;
use rpx_core::fleet::startup_models;
use rpx_core::fleet::FleetConfig;
use rpx_core::fleet::FleetDefaults;
use rpx_core::fleet::GatewayConfig;
use rpx_core::fleet::ModelEntry;
use rpx_core::fleet::ModelScaling;
use rpx_core::fleet::ModelTier;
use rpx_core::fleet::ProviderConfig;
use rpx_core::orchestrator::adopt_endpoint;
use rpx_core::orchestrator::autoscaler::actions_at;
use rpx_core::orchestrator::autoscaler::apply_action;
use rpx_core::orchestrator::autoscaler::decide;
use rpx_core::orchestrator::autoscaler::tick_actions;
use rpx_core::orchestrator::autoscaler::AutoscaleAction;
use rpx_core::orchestrator::discover_endpoints;
use rpx_core::orchestrator::endpoint_serves;
use rpx_core::orchestrator::fleet_provider_kind;
use rpx_core::orchestrator::missing_key_error;
use rpx_core::orchestrator::model_manager::finish_deploy;
use rpx_core::orchestrator::model_manager::poll_step;
use rpx_core::orchestrator::model_manager::poll_timeout;
use rpx_core::orchestrator::model_manager::start_deploy;
use rpx_core::orchestrator::model_manager::DeployError;
use rpx_core::orchestrator::model_manager::PollStep;
use rpx_core::orchestrator::restore_persisted;
use rpx_core::orchestrator::tier_of;
use rpx_core::provider::types::Endpoint;
use rpx_core::provider::types::EndpointStatus;
use rpx_core::provider::ProviderKind;

const SEC: u128 = 1_000_000_000;

fn test_entry(alias: &str, tier: ModelTier) -> ModelEntry {
    let mut scaling = ModelScaling::default();
    scaling.min_workers = if tier == ModelTier::Hot { 1 } else { 0 };
    ModelEntry {
        id: "Qwen/Qwen2.5-1.5B-Instruct".to_string(),
        alias: Some(alias.to_string()),
        tier,
        backend: "vllm".to_string(),
        gpu: "auto".to_string(),
        gpu_count: 1,
        dtype: "auto".to_string(),
        scaling,
        backend_args: HashMap::new(),
    }
}

fn entry(id: &str, alias: &str, tier: ModelTier) -> ModelEntry {
    let mut e = test_entry(alias, tier);
    e.id = id.to_string();
    e
}

fn config(models: Vec<ModelEntry>) -> FleetConfig {
    FleetConfig {
        gateway: GatewayConfig::default(),
        provider: ProviderConfig { name: "runpod".to_string() },
        models,
        api_keys: Vec::new(),
        defaults: FleetDefaults::default(),
    }
}

fn mock_endpoint(id: &str, name: &str) -> Endpoint {
    Endpoint {
        id: id.to_string(),
        name: name.to_string(),
        provider: ProviderKind::RunPod,
        status: EndpointStatus::Ready,
        gpu_id: "NVIDIA L4".to_string(),
        invocation_url: format!("https://api.runpod.ai/v2/{id}"),
        openai_base_url: Some(format!("https://api.runpod.ai/v2/{id}/openai/v1")),
        created_at: "2026-04-05T12:00:00Z".to_string(),
    }
}

fn status(fleet: &FleetState, name: &str) -> &'static str {
    fleet.get(name).unwrap().status_str()
}

#[test]
fn model_entry_converts_to_rpx_config() {
    let entry = test_entry("qwen-small", ModelTier::Hot);
    let config = entry.to_rpx_config();
    assert_eq!(config.model, "Qwen/Qwen2.5-1.5B-Instruct");
    assert_eq!(config.name, Some("qwen-small".to_string()));
    assert_eq!(config.backend, "vllm");
    assert_eq!(config.scaling.min_workers, 1);
}

#[test]
fn model_lifecycle_cold_to_warm() {
    let names = vec!["test-model".to_string()];
    let mut state = FleetState::init_from_config(&names);

    // Starts cold
    assert!(state.get("test-model").unwrap().is_cold());

    // Begin deploy
    state.begin_deploy("test-model").unwrap();
    assert!(state.get("test-model").unwrap().is_deploying());

    // Cannot begin deploy again
    assert!(state.begin_deploy("test-model").is_err());

    // Deploy succeeds
    state.deploy_succeeded("test-model", mock_endpoint("ep-1", "test-model"), ModelTier::Warm).unwrap();
    assert_eq!(state.get("test-model").unwrap().status_str(), "warm");
    assert_eq!(state.get("test-model").unwrap().endpoint().unwrap().id, "ep-1");

    // Evict
    let evicted = state.evict("test-model").unwrap();
    assert_eq!(evicted.unwrap().id, "ep-1");
    assert!(state.get("test-model").unwrap().is_cold());

    // Persisted snapshot
    let persisted = state.to_persisted();
    assert_eq!(persisted.get("test-model").unwrap().state, "cold");
}

#[test]
fn error_recovery_lifecycle() {
    let names = vec!["failing-model".to_string()];
    let mut state = FleetState::init_from_config(&names);

    // Deploy fails
    state.begin_deploy("failing-model").unwrap();
    state.deploy_failed("failing-model", "GPU capacity full".to_string()).unwrap();
    assert!(state.get("failing-model").unwrap().is_error());

    // Cannot deploy from error state directly
    assert!(state.begin_deploy("failing-model").is_err());

    // Reset error → cold
    state.reset_error("failing-model").unwrap();
    assert!(state.get("failing-model").unwrap().is_cold());

    // Now can deploy again
    state.begin_deploy("failing-model").unwrap();
    assert!(state.get("failing-model").unwrap().is_deploying());
}

#[test]
fn eviction_warm_model() {
    let names = vec!["idle-model".to_string()];
    let mut state = FleetState::init_from_config(&names);

    state.begin_deploy("idle-model").unwrap();
    state.deploy_succeeded("idle-model", mock_endpoint("ep-idle", "idle-model"), ModelTier::Warm).unwrap();

    // Model is warm with endpoint
    assert!(state.get("idle-model").unwrap().is_ready());
    assert!(state.get("idle-model").unwrap().endpoint().is_some());

    // Evict
    let evicted = state.evict("idle-model").unwrap();
    assert_eq!(evicted.unwrap().id, "ep-idle");
    assert!(state.get("idle-model").unwrap().is_cold());

    // Double evict is noop
    let evicted = state.evict("idle-model").unwrap();
    assert!(evicted.is_none());
}

#[test]
fn hot_model_not_evictable() {
    let names = vec!["hot".to_string()];
    let mut state = FleetState::init_from_config(&names);

    state.begin_deploy("hot").unwrap();
    state.deploy_succeeded("hot", mock_endpoint("ep-hot", "hot"), ModelTier::Hot).unwrap();

    let result = state.evict("hot");
    assert!(result.is_err(), "hot model should not be evictable");
}

#[test]
fn fleet_state_full_lifecycle() {
    let names = vec!["hot-model".to_string(), "warm-model".to_string(), "cold-model".to_string()];
    let mut state = FleetState::init_from_config(&names);

    // All start cold
    assert!(state.get("hot-model").unwrap().is_cold());
    assert!(state.get("warm-model").unwrap().is_cold());
    assert!(state.get("cold-model").unwrap().is_cold());

    // Deploy hot model
    state.begin_deploy("hot-model").unwrap();
    assert!(state.get("hot-model").unwrap().is_deploying());
    state.deploy_succeeded("hot-model", mock_endpoint("ep-hot", "hot-model"), ModelTier::Hot).unwrap();
    assert_eq!(state.get("hot-model").unwrap().status_str(), "hot");

    // Deploy warm model
    state.begin_deploy("warm-model").unwrap();
    let mut ep2 = mock_endpoint("ep-warm", "warm-model");
    ep2.gpu_id = "A100".to_string();
    ep2.openai_base_url = None;
    state.deploy_succeeded("warm-model", ep2, ModelTier::Warm).unwrap();
    assert_eq!(state.get("warm-model").unwrap().status_str(), "warm");

    // Touch warm model (simulate request)
    let now = state.now_ns();
    state.get_mut("warm-model").unwrap().touch(now);

    // Evict warm model
    let evicted = state.evict("warm-model").unwrap();
    assert!(evicted.is_some());
    assert_eq!(evicted.unwrap().id, "ep-warm");
    assert!(state.get("warm-model").unwrap().is_cold());

    // Cannot evict hot model
    assert!(state.evict("hot-model").is_err());

    // Cold model stays cold (no deploy triggered)
    assert!(state.get("cold-model").unwrap().is_cold());

    // Simulate failed deploy of cold model
    state.begin_deploy("cold-model").unwrap();
    state.deploy_failed("cold-model", "GPU unavailable".to_string()).unwrap();
    assert!(state.get("cold-model").unwrap().is_error());

    // Reset error → cold
    state.reset_error("cold-model").unwrap();
    assert!(state.get("cold-model").unwrap().is_cold());

    // Persisted snapshot
    let persisted = state.to_persisted();
    assert_eq!(persisted.get("hot-model").unwrap().state, "hot");
    assert_eq!(persisted.get("warm-model").unwrap().state, "cold"); // was evicted
    assert_eq!(persisted.get("cold-model").unwrap().state, "cold"); // was reset
    assert_eq!(persisted.get("hot-model").unwrap().endpoint_id, Some("ep-hot".to_string()));
}

#[test]
fn decide_evicts_idle_warm_models() {
    let warm = ModelState::Warm { endpoint: mock_endpoint("ep-1", "m"), last_request: 0 };
    assert!(decide("m", &warm, 3600, 3600 * SEC).is_none());
    match decide("m", &warm, 3600, 3600 * SEC + 1) {
        Some(AutoscaleAction::Evict { model, endpoint_id }) => {
            assert_eq!(model, "m");
            assert_eq!(endpoint_id, "ep-1");
        }
        other => panic!("unexpected {other:?}"),
    }
    let hot = ModelState::Hot { endpoint: mock_endpoint("ep-2", "h"), last_request: 0 };
    assert!(decide("h", &hot, 0, 1_000_000 * SEC).is_none());
    assert!(decide("c", &ModelState::Cold, 0, 1_000_000 * SEC).is_none());
}

#[test]
fn decide_retries_failed_models_after_backoff() {
    let failed = |retry_count: u32| ModelState::Error {
        message: "boom".to_string(),
        last_attempt: 0,
        retry_count,
    };
    assert!(decide("m", &failed(0), 3600, 30 * SEC).is_none());
    assert!(matches!(
        decide("m", &failed(0), 3600, 30 * SEC + 1),
        Some(AutoscaleAction::ResetError { .. })
    ));
    // Each retry doubles the wait: 30 s, 60 s, 120 s, ...
    assert!(decide("m", &failed(1), 3600, 60 * SEC).is_none());
    assert!(decide("m", &failed(2), 3600, 120 * SEC).is_none());
    assert!(decide("m", &failed(2), 3600, 120 * SEC + 1).is_some());
    assert!(decide("m", &failed(59), 0, 30 * (1u128 << 59) * SEC).is_none());
}

#[test]
fn tick_and_apply_actions() {
    let cfg = config(vec![entry("org/a", "a", ModelTier::Warm), entry("org/b", "b", ModelTier::Hot)]);
    let mut fleet = FleetState::init_from_config(&vec!["a".to_string(), "b".to_string(), "untracked".to_string()]);
    fleet.begin_deploy("a").unwrap();
    fleet.deploy_succeeded("a", mock_endpoint("ep-a", "a"), ModelTier::Warm).unwrap();
    fleet.begin_deploy("b").unwrap();
    fleet.deploy_failed("b", "no GPU".to_string()).unwrap();
    // Everything just happened: nothing is due.
    assert!(tick_actions(&cfg, &fleet).is_empty());

    apply_action(&mut fleet, &AutoscaleAction::Evict { model: "a".to_string(), endpoint_id: "ep-a".to_string() });
    assert_eq!(status(&fleet, "a"), "cold");
    apply_action(&mut fleet, &AutoscaleAction::ResetError { model: "b".to_string() });
    assert_eq!(status(&fleet, "b"), "cold");
    // An action no longer allowed changes nothing.
    apply_action(&mut fleet, &AutoscaleAction::ResetError { model: "a".to_string() });
    assert_eq!(status(&fleet, "a"), "cold");
}

#[test]
fn provider_of_fleet_and_errors() {
    assert!(matches!(fleet_provider_kind("runpod"), Ok(ProviderKind::RunPod)));
    match fleet_provider_kind("vastai") {
        Err(e) => assert_eq!(e.to_string(), "config error: unsupported provider: vastai"),
        Ok(_) => panic!("only runpod is supported"),
    }
    assert_eq!(
        missing_key_error(ProviderKind::RunPod).to_string(),
        "config error: no API key for RunPod. Run `rpx login` first."
    );
}

#[test]
fn restore_takes_endpoints_found_again() {
    let cfg = config(vec![
        entry("org/hot", "hot", ModelTier::Hot),
        entry("org/warm", "warm", ModelTier::Warm),
        entry("org/gone", "gone", ModelTier::Warm),
    ]);
    assert_eq!(tier_of(&cfg, "hot"), ModelTier::Hot);
    assert_eq!(tier_of(&cfg, "nobody"), ModelTier::Warm);
    let mut fleet = FleetState::init_from_config(&vec!["hot".to_string(), "warm".to_string(), "gone".to_string()]);
    let found = vec![
        ("hot".to_string(), Some(mock_endpoint("ep-h", "rpx-hot"))),
        ("warm".to_string(), Some(mock_endpoint("ep-w", "rpx-warm"))),
        ("warm".to_string(), Some(mock_endpoint("ep-w2", "rpx-warm"))),
        ("gone".to_string(), None),
        ("unknown".to_string(), Some(mock_endpoint("ep-u", "x"))),
    ];
    assert_eq!(restore_persisted(&mut fleet, &cfg, found), 2);
    assert_eq!(status(&fleet, "hot"), "hot");
    assert_eq!(status(&fleet, "warm"), "warm");
    assert_eq!(fleet.get("warm").unwrap().endpoint().unwrap().id, "ep-w");
    assert_eq!(status(&fleet, "gone"), "cold");
}

#[test]
fn discovery_matches_endpoint_names() {
    let cfg = config(vec![
        entry("meta-llama/Llama-3.1-8B", "llama", ModelTier::Warm),
        entry("Qwen/Qwen2.5-7B", "qwen-7b", ModelTier::Hot),
    ]);
    assert!(endpoint_serves(&mock_endpoint("e", "rpx-llama-prod"), &cfg.models[0]));
    assert!(endpoint_serves(&mock_endpoint("e", "qwen-qwen2.5-7b"), &cfg.models[1]));
    assert!(!endpoint_serves(&mock_endpoint("e", "mistral"), &cfg.models[0]));

    let mut fleet = FleetState::init_from_config(&vec!["llama".to_string(), "qwen-7b".to_string()]);
    let live = vec![
        mock_endpoint("ep-1", "rpx-qwen-7b"),
        mock_endpoint("ep-2", "other"),
        mock_endpoint("ep-3", "rpx-qwen-7b-copy"),
    ];
    discover_endpoints(&mut fleet, &cfg, &live);
    assert_eq!(status(&fleet, "qwen-7b"), "hot");
    assert_eq!(fleet.get("qwen-7b").unwrap().endpoint().unwrap().id, "ep-1");
    assert_eq!(status(&fleet, "llama"), "cold");

    // Only cold models take an endpoint.
    assert!(!adopt_endpoint(&mut fleet, "qwen-7b", mock_endpoint("ep-9", "x"), ModelTier::Hot));
    assert!(adopt_endpoint(&mut fleet, "llama", mock_endpoint("ep-9", "x"), ModelTier::Warm));
    assert!(!adopt_endpoint(&mut fleet, "nobody", mock_endpoint("ep-9", "x"), ModelTier::Warm));
}

#[test]
fn deploy_transitions() {
    let mut fleet = FleetState::init_from_config(&vec!["m".to_string()]);
    assert!(start_deploy(&mut fleet, "m").is_ok());
    match start_deploy(&mut fleet, "m") {
        Err(e) => {
            assert!(matches!(e, DeployError::State(_)));
            assert_eq!(e.to_string(), "state error: invalid transition for 'm': deploying → deploying");
        }
        Ok(()) => panic!("already deploying"),
    }
    let err = finish_deploy(&mut fleet, "m", Err(DeployError::Plan("no GPU".to_string())), ModelTier::Warm);
    match err {
        Err(e) => assert_eq!(e.to_string(), "plan: no GPU"),
        Ok(()) => panic!("failed deploy"),
    }
    match fleet.get("m").unwrap() {
        ModelState::Error { message, .. } => assert_eq!(message, "plan: no GPU"),
        _ => panic!("expected error"),
    }
    fleet.reset_error("m").unwrap();
    start_deploy(&mut fleet, "m").unwrap();
    assert!(finish_deploy(&mut fleet, "m", Ok(mock_endpoint("ep", "m")), ModelTier::Hot).is_ok());
    assert_eq!(status(&fleet, "m"), "hot");
    assert!(finish_deploy(&mut fleet, "m", Ok(mock_endpoint("ep", "m")), ModelTier::Hot).is_err());
}

#[test]
fn polling_decisions() {
    match poll_step(0, 180, Ok(mock_endpoint("ep", "m"))) {
        PollStep::Ready(e) => assert_eq!(e.id, "ep"),
        other => panic!("unexpected {other:?}"),
    }
    let mut building = mock_endpoint("ep", "m");
    building.status = EndpointStatus::Building;
    assert!(matches!(poll_step(0, 180, Ok(building)), PollStep::Wait));
    let mut failed = mock_endpoint("ep", "m");
    failed.status = EndpointStatus::Error("OOM".to_string());
    match poll_step(5, 180, Ok(failed)) {
        PollStep::Fail(e) => assert_eq!(e.to_string(), "provider: endpoint entered error state: Error: OOM"),
        other => panic!("unexpected {other:?}"),
    }
    assert!(matches!(poll_step(178, 180, Err("net".to_string())), PollStep::Wait));
    match poll_step(179, 180, Err("net".to_string())) {
        PollStep::Fail(e) => assert_eq!(e.to_string(), "provider: net"),
        other => panic!("unexpected {other:?}"),
    }
    assert_eq!(
        poll_timeout("ep-1", 180).to_string(),
        "timeout: endpoint ep-1 did not become ready after 180s"
    );
}

#[test]
fn one_look_decides_each_served_model_in_order() {
    let mut idle = test_entry("idle", ModelTier::Warm);
    idle.scaling.eviction_timeout = 60;
    let mut busy = test_entry("busy", ModelTier::Warm);
    busy.scaling.eviction_timeout = 60;
    let failed = test_entry("failed", ModelTier::Warm);
    let cfg = config(vec![idle, busy, failed]);
    let now: u128 = 0;
    let entries = vec![
        ("idle".to_string(), ModelState::Warm { endpoint: mock_endpoint("ep-idle", "idle"), last_request: now }),
        ("stray".to_string(), ModelState::Warm { endpoint: mock_endpoint("ep-stray", "stray"), last_request: now }),
        ("busy".to_string(), ModelState::Warm { endpoint: mock_endpoint("ep-busy", "busy"), last_request: now }),
        (
            "failed".to_string(),
            ModelState::Error { message: "boom".to_string(), last_attempt: now, retry_count: 1 },
        ),
    ];
    let s = 1_000_000_000u128;
    let elapsed = vec![61 * s, 1000 * s, 60 * s, 61 * s];
    let actions = actions_at(&cfg, &entries, &elapsed);
    assert_eq!(actions.len(), 2);
    match &actions[0] {
        AutoscaleAction::Evict { model, endpoint_id } => {
            assert_eq!(model, "idle");
            assert_eq!(endpoint_id, "ep-idle");
        }
        other => panic!("unexpected {other:?}"),
    }
    match &actions[1] {
        AutoscaleAction::ResetError { model } => assert_eq!(model, "failed"),
        other => panic!("unexpected {other:?}"),
    }
    let later = vec![0, 0, 0, 59 * s];
    assert!(actions_at(&cfg, &entries, &later).is_empty());
}

#[test]
fn consecutive_failures_double_the_backoff() {
    let mut fleet = FleetState::init_from_config(&vec!["m".to_string()]);
    let retries = |fleet: &FleetState| match fleet.get("m").unwrap() {
        ModelState::Error { retry_count, .. } => *retry_count,
        _ => panic!("expected error"),
    };
    fleet.begin_deploy("m").unwrap();
    fleet.deploy_failed("m", "first".to_string()).unwrap();
    assert_eq!(retries(&fleet), 0);
    assert_eq!(fleet.failures_of("m"), 1);
    assert!(decide("m", fleet.get("m").unwrap(), 0, 31 * SEC).is_some());
    fleet.reset_error("m").unwrap();
    assert_eq!(fleet.failures_of("m"), 1);
    fleet.begin_deploy("m").unwrap();
    fleet.deploy_failed("m", "second".to_string()).unwrap();
    assert_eq!(retries(&fleet), 1);
    assert_eq!(fleet.failures_of("m"), 2);
    // After the second failure the wait is 60 s, not 30 s.
    assert!(decide("m", fleet.get("m").unwrap(), 0, 31 * SEC).is_none());
    assert!(decide("m", fleet.get("m").unwrap(), 0, 60 * SEC + 1).is_some());
    fleet.reset_error("m").unwrap();
    fleet.begin_deploy("m").unwrap();
    fleet.deploy_succeeded("m", mock_endpoint("ep-m", "m"), ModelTier::Warm).unwrap();
    assert_eq!(fleet.failures_of("m"), 0);
    assert_eq!(fleet.failures_of("unknown"), 0);
}

#[test]
fn very_long_backoff_never_expires() {
    let failed = ModelState::Error { message: "x".to_string(), last_attempt: 0, retry_count: u32::MAX };
    assert!(decide("m", &failed, 0, u128::MAX).is_none());
    let failed = ModelState::Error { message: "x".to_string(), last_attempt: 0, retry_count: 98 };
    assert!(decide("m", &failed, 0, u128::MAX).is_none());
}

#[test]
fn hot_models_are_deployed_at_startup_in_order() {
    let cfg = config(vec![
        entry("org/a", "a", ModelTier::Hot),
        entry("org/b", "b", ModelTier::Warm),
        entry("org/c", "c", ModelTier::Cold),
        entry("org/d", "d", ModelTier::Hot),
    ]);
    assert_eq!(startup_models(&cfg), vec![0, 3]);
    assert!(startup_models(&config(vec![entry("org/b", "b", ModelTier::Warm)])).is_empty());
}
