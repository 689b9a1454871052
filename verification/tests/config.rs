use rpx_core::backend::BackendKind;
use rpx_core::cli::apply_deploy_args;
use rpx_core::cli::confirms;
use rpx_core::cli::default_deploy_config;
use rpx_core::cli::login_provider;
use rpx_core::cli::DeployArgs;
use rpx_core::config::choose_api_key;
use rpx_core::config::secret_source;
use rpx_core::config::Credentials;
use rpx_core::config::EndpointStore;
use rpx_core::config::ProviderCredential;
use rpx_core::config::RpxConfig;
use rpx_core::config::SecretSource;
use rpx_core::config::StoredEndpoint;
use rpx_core::provider::types::EndpointStatus;
use rpx_core::provider::ProviderKind;

fn stored(name: &str, id: &str, model_id: &str, gpu: &str, url: &str, at: &str) -> StoredEndpoint {
    StoredEndpoint {
        name: name.to_string(),
        id: id.to_string(),
        provider: "RunPod".to_string(),
        model_id: model_id.to_string(),
        backend: "vLLM".to_string(),
        gpu: gpu.to_string(),
        invocation_url: url.to_string(),
        openai_base_url: None,
        created_at: at.to_string(),
    }
}

fn config_with_backend(backend: &str) -> RpxConfig {
    let mut config = default_deploy_config("test");
    config.backend = backend.to_string();
    config
}

#[test]
fn minimal_config_defaults() {
    let config = default_deploy_config("Qwen/Qwen2.5-7B-Instruct");
    assert_eq!(config.model, "Qwen/Qwen2.5-7B-Instruct");
    assert_eq!(config.backend, "auto");
    assert_eq!(config.provider, "auto");
    assert_eq!(config.gpu, "auto");
    assert_eq!(config.gpu_count, 1);
    assert_eq!(config.version, "1");
    assert_eq!(config.scaling.min_workers, 0);
    assert_eq!(config.scaling.max_workers, 3);
    assert_eq!(config.scaling.idle_timeout, 300);
}

#[test]
fn resolved_backend_auto_returns_none() {
    let config = default_deploy_config("test");
    assert_eq!(config.resolved_backend(), None);
}

#[test]
fn resolved_backend_parses_variants() {
    for (input, expected) in [
        ("vllm", Some(BackendKind::Vllm)),
        ("rvllm", Some(BackendKind::Rvllm)),
        ("tgi", Some(BackendKind::Tgi)),
        ("llamacpp", Some(BackendKind::LlamaCpp)),
        ("unknown", None),
    ] {
        let config = config_with_backend(input);
        assert_eq!(config.resolved_backend(), expected, "input: {input}");
    }
}

#[test]
fn resolved_provider_variants() {
    let mut config = default_deploy_config("test");
    assert_eq!(config.resolved_provider(), None);
    config.provider = "RunPod".to_string();
    assert_eq!(config.resolved_provider(), Some(ProviderKind::RunPod));
    config.provider = "vast.ai".to_string();
    assert_eq!(config.resolved_provider(), Some(ProviderKind::VastAi));
    config.provider = "vast".to_string();
    assert_eq!(config.resolved_provider(), Some(ProviderKind::VastAi));
    config.provider = "BEAM".to_string();
    assert_eq!(config.resolved_provider(), Some(ProviderKind::Beam));
    config.provider = "modal".to_string();
    assert_eq!(config.resolved_provider(), None);
}

#[test]
fn secret_sources() {
    assert_eq!(secret_source("env:HF_TOKEN"), SecretSource::Env("HF_TOKEN".to_string()));
    assert_eq!(secret_source("plaintext"), SecretSource::Literal("plaintext".to_string()));
    assert_eq!(secret_source("env"), SecretSource::Literal("env".to_string()));
    assert_eq!(secret_source("env:"), SecretSource::Env(String::new()));
}

#[test]
fn secret_lookup_takes_the_configured_value() {
    let mut config = default_deploy_config("test");
    config.secrets.push(("hf_token".to_string(), "env:RPX_TEST_TOKEN".to_string()));
    config.secrets.push(("literal".to_string(), "plaintext".to_string()));
    assert_eq!(config.secret_value("literal").map(|s| s.as_str()), Some("plaintext"));
    assert_eq!(
        config.secret_source_of("hf_token"),
        Some(SecretSource::Env("RPX_TEST_TOKEN".to_string()))
    );
    assert_eq!(
        config.secret_source_of("literal"),
        Some(SecretSource::Literal("plaintext".to_string()))
    );
    assert_eq!(config.secret_source_of("missing"), None);
}

#[test]
fn credentials_lookup() {
    let creds = Credentials {
        runpod: Some(ProviderCredential { api_key: "rpa_test".to_string() }),
        ..Default::default()
    };
    assert_eq!(creds.api_key_for(ProviderKind::RunPod), Some("rpa_test"));
    assert_eq!(creds.api_key_for(ProviderKind::VastAi), None);
    assert!(Credentials::default().api_key_for(ProviderKind::RunPod).is_none());
    assert_eq!(Credentials::api_key_env_var(ProviderKind::RunPod), "RUNPOD_API_KEY");
    assert_eq!(Credentials::api_key_env_var(ProviderKind::Beam), "BEAM_API_KEY");
}

#[test]
fn endpoint_store_find_by_name_or_id() {
    let mut store = EndpointStore::default();
    store.upsert(stored("my-model", "ep-456", "test", "L4", "https://example.com", "2026-04-05T12:00:00Z"));

    assert!(store.find_by_name_or_id("my-model").is_some());
    assert!(store.find_by_name_or_id("ep-456").is_some());
    assert!(store.find_by_name_or_id("nonexistent").is_none());
}

#[test]
fn endpoint_store_upsert_updates_existing() {
    let mut store = EndpointStore::default();
    store.upsert(stored("my-model", "ep-1", "old", "L4", "https://old.com", "2026-04-05T12:00:00Z"));
    store.upsert(stored("my-model", "ep-1", "new", "A100", "https://new.com", "2026-04-05T13:00:00Z"));

    assert_eq!(store.endpoints.len(), 1);
    assert_eq!(store.endpoints[0].model_id, "new");
}

#[test]
fn endpoint_store_upsert_appends_new() {
    let mut store = EndpointStore::default();
    store.upsert(stored("a", "ep-a", "m", "L4", "u", "t"));
    store.upsert(stored("b", "ep-b", "m", "L4", "u", "t"));
    // Same id under another name replaces the record.
    store.upsert(stored("c", "ep-a", "m2", "L4", "u", "t"));
    assert_eq!(store.endpoints.len(), 2);
    assert_eq!(store.endpoints[0].name, "c");
    assert_eq!(store.endpoints[1].name, "b");
    // The record just written is what a lookup by its name reads back.
    let found = store.find_by_name_or_id("c").unwrap();
    assert_eq!(found.id, "ep-a");
    assert_eq!(found.model_id, "m2");
}

#[test]
fn endpoint_store_remove() {
    let mut store = EndpointStore::default();
    store.upsert(stored("to-delete", "ep-del", "test", "L4", "https://example.com", "2026-04-05T12:00:00Z"));

    assert!(store.remove("to-delete"));
    assert!(store.endpoints.is_empty());
    assert!(!store.remove("nonexistent"));
}

#[test]
fn endpoint_store_remove_keeps_others_in_order() {
    let mut store = EndpointStore::default();
    store.upsert(stored("a", "ep-a", "m", "L4", "u", "t"));
    store.upsert(stored("b", "ep-b", "m", "L4", "u", "t"));
    store.upsert(stored("c", "ep-c", "m", "L4", "u", "t"));
    assert!(store.remove("ep-b"));
    assert_eq!(store.endpoints.len(), 2);
    assert_eq!(store.endpoints[0].name, "a");
    assert_eq!(store.endpoints[1].name, "c");
    assert!(store.find_by_name_or_id("b").is_none());
}

#[test]
fn stored_endpoint_to_endpoint_is_ready_runpod() {
    let mut rec = stored("m", "ep-9", "model", "NVIDIA L4", "https://api.runpod.ai/v2/ep-9", "t0");
    rec.openai_base_url = Some("https://api.runpod.ai/v2/ep-9/openai/v1".to_string());
    let ep = rec.to_endpoint("2026-01-01T00:00:00Z".to_string());
    assert_eq!(ep.id, "ep-9");
    assert_eq!(ep.name, "m");
    assert_eq!(ep.provider, ProviderKind::RunPod);
    assert_eq!(ep.status, EndpointStatus::Ready);
    assert_eq!(ep.gpu_id, "NVIDIA L4");
    assert_eq!(ep.openai_base_url.as_deref(), Some("https://api.runpod.ai/v2/ep-9/openai/v1"));
    assert_eq!(ep.created_at, "2026-01-01T00:00:00Z");

    let back = StoredEndpoint::from_endpoint(&ep, "model", "vLLM");
    assert_eq!(back.provider, "RunPod");
    assert_eq!(back.model_id, "model");
    assert_eq!(back.invocation_url, "https://api.runpod.ai/v2/ep-9");
}

#[test]
fn deploy_args_override_config() {
    let args = DeployArgs {
        model: "meta-llama/Llama-3.1-8B".to_string(),
        backend: "rvllm".to_string(),
        provider: "auto".to_string(),
        gpu: "l4".to_string(),
        gpu_count: 2,
        min_workers: 1,
        max_workers: 4,
        name: Some("llama".to_string()),
        no_wait: false,
        dry_run: true,
    };
    let config = apply_deploy_args(default_deploy_config("old"), &args);
    assert_eq!(config.model, "meta-llama/Llama-3.1-8B");
    assert_eq!(config.backend, "rvllm");
    assert_eq!(config.provider, "auto");
    assert_eq!(config.gpu, "l4");
    assert_eq!(config.gpu_count, 2);
    assert_eq!(config.scaling.min_workers, 1);
    assert_eq!(config.scaling.max_workers, 4);
    assert_eq!(config.scaling.idle_timeout, 300);
    assert_eq!(config.name.as_deref(), Some("llama"));
}

#[test]
fn login_provider_names() {
    assert_eq!(login_provider("RunPod"), Ok(ProviderKind::RunPod));
    assert_eq!(login_provider("vast.ai"), Ok(ProviderKind::VastAi));
    assert_eq!(login_provider("beam"), Ok(ProviderKind::Beam));
    assert_eq!(login_provider("Modal"), Err("unknown provider: modal".to_string()));
}

#[test]
fn confirmation_answers() {
    assert!(confirms("y"));
    assert!(confirms(" Y\n"));
    assert!(!confirms("yes"));
    assert!(!confirms(""));
}

#[test]
fn stored_key_wins_over_environment() {
    assert_eq!(choose_api_key(Some("stored"), Some("env".to_string())), Some("stored".to_string()));
    assert_eq!(choose_api_key(None, Some("env".to_string())), Some("env".to_string()));
    assert_eq!(choose_api_key(None, None), None);
    assert_eq!(choose_api_key(Some("stored"), None), Some("stored".to_string()));
}
