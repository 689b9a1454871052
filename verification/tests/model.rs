use rpx_core::backend::BackendKind;
use rpx_core::model::check_access;
use rpx_core::model::classify_hf_status;
use rpx_core::model::hf_model_url;
use rpx_core::model::metadata_from_response;
use rpx_core::model::sizing::estimate_params_from_name;
use rpx_core::model::sizing::estimate_vram;
use rpx_core::model::sizing::params_from_text;
use rpx_core::model::HfGated;
use rpx_core::model::HfStatus;
use rpx_core::model::ModelError;

#[test]
fn hf_gated_parsing() {
    let g = HfGated::Bool(true);
    assert!(g.is_gated());

    let g = HfGated::Bool(false);
    assert!(!g.is_gated());

    let g = HfGated::String("auto".to_string());
    assert!(g.is_gated());

    let g = HfGated::String("false".to_string());
    assert!(!g.is_gated());

    let g = HfGated::Absent;
    assert!(!g.is_gated());
    assert_eq!(HfGated::default(), HfGated::Absent);
}

#[test]
fn metadata_from_api_fields() {
    let m = metadata_from_response(
        "meta-llama/Llama-3.1-8B",
        Some("text-generation".to_string()),
        Some(8_030_261_248),
        &HfGated::String("manual".to_string()),
    );
    assert_eq!(m.model_id, "meta-llama/Llama-3.1-8B");
    assert_eq!(m.pipeline_tag.as_deref(), Some("text-generation"));
    assert_eq!(m.parameters, Some(8_030_261_248));
    assert!(m.gated);
    assert_eq!(hf_model_url("gpt2"), "https://huggingface.co/api/models/gpt2");
}

#[test]
fn hf_status_classes() {
    assert_eq!(classify_hf_status(200), HfStatus::Success);
    assert_eq!(classify_hf_status(204), HfStatus::Success);
    assert_eq!(classify_hf_status(404), HfStatus::NotFound);
    assert_eq!(classify_hf_status(401), HfStatus::Gated);
    assert_eq!(classify_hf_status(403), HfStatus::Gated);
    assert_eq!(classify_hf_status(500), HfStatus::Failed);
    assert_eq!(classify_hf_status(302), HfStatus::Failed);
}

#[test]
fn model_error_messages() {
    assert_eq!(ModelError::NotFound("x/y".to_string()).to_string(), "model not found: x/y");
    assert_eq!(
        ModelError::Gated("x/y".to_string()).to_string(),
        "model x/y is gated — set HF_TOKEN or `secrets.hf_token` in rpx.yaml"
    );
    assert_eq!(
        ModelError::Api { status: 500, message: "boom".to_string() }.to_string(),
        "HuggingFace API error (500): boom"
    );
    assert_eq!(ModelError::Network("down".to_string()).to_string(), "network error: down");
    assert_eq!(ModelError::Parse("bad".to_string()).to_string(), "failed to parse model metadata: bad");
}

#[test]
fn estimate_vram_for_vllm() {
    let vram = estimate_vram(7_000_000_000, "float16", BackendKind::Vllm).ok().unwrap();
    // 7B * 2 bytes * 1.3 overhead = 18.2 GB
    assert_eq!(vram, 18_200);
}

#[test]
fn estimate_vram_for_rvllm() {
    let vram = estimate_vram(7_000_000_000, "float16", BackendKind::Rvllm).ok().unwrap();
    // 7B * 2 bytes * 1.2 overhead = 16.8 GB
    assert_eq!(vram, 16_800);
}

#[test]
fn estimate_vram_for_unimplemented_backend() {
    match estimate_vram(7_000_000_000, "float16", BackendKind::LlamaCpp) {
        Err(e) => assert_eq!(e.to_string(), "backend unavailable: backend llama.cpp is not yet implemented"),
        Ok(_) => panic!("llama.cpp has no estimate"),
    }
}

#[test]
fn estimate_params_common_patterns() {
    assert_eq!(estimate_params_from_name("meta-llama/Llama-3.1-8B-Instruct"), Some(8_000_000_000));
    assert_eq!(estimate_params_from_name("Qwen/Qwen2.5-7B-Instruct"), Some(7_000_000_000));
    assert_eq!(estimate_params_from_name("Qwen/Qwen2.5-72B-Instruct"), Some(72_000_000_000));
    assert_eq!(estimate_params_from_name("Qwen/Qwen2.5-1.5B-Instruct"), Some(1_500_000_000));
    assert_eq!(estimate_params_from_name("Qwen/Qwen2.5-0.5B-Instruct"), Some(500_000_000));
}

#[test]
fn estimate_params_no_match() {
    assert_eq!(estimate_params_from_name("bert-base-uncased"), None);
    assert_eq!(estimate_params_from_name("gpt2"), None);
}

#[test]
fn estimate_params_case_insensitive() {
    assert_eq!(estimate_params_from_name("some-model-7b-chat"), Some(7_000_000_000));
    assert_eq!(estimate_params_from_name("some-model-7B-chat"), Some(7_000_000_000));
}

#[test]
fn estimate_params_at_end_of_name() {
    assert_eq!(estimate_params_from_name("org/model-13B"), Some(13_000_000_000));
    // "7bit" is no size: the 'b' is followed by a letter.
    assert_eq!(estimate_params_from_name("quant-7bit"), None);
}

#[test]
fn params_text_forms() {
    assert_eq!(params_from_text("7"), Some(7_000_000_000));
    assert_eq!(params_from_text("1.5"), Some(1_500_000_000));
    assert_eq!(params_from_text("12."), Some(12_000_000_000));
    assert_eq!(params_from_text("0.0000000019"), Some(1));
    assert_eq!(params_from_text("99999999999999"), Some(u64::MAX));
    assert_eq!(params_from_text(""), None);
    assert_eq!(params_from_text("1.2.3"), None);
    assert_eq!(params_from_text(".5"), None);
    assert_eq!(params_from_text("x"), None);
}

#[test]
fn gated_models_need_a_token() {
    let mut m = metadata_from_response("org/private", None, None, &HfGated::Bool(true));
    assert_eq!(
        check_access("org/private", &m, false),
        Err("model org/private is gated. Set HF_TOKEN env var or add secrets.hf_token to rpx.yaml".to_string())
    );
    assert_eq!(check_access("org/private", &m, true), Ok(()));
    m.gated = false;
    assert_eq!(check_access("org/private", &m, false), Ok(()));
}
