use rpx_core::backend::auto_select_backend;
use rpx_core::backend::engine_settings;
use rpx_core::json::json_text;
use rpx_core::json::Json;
use rpx_core::json::JsonNumber;
use rpx_core::backend::get_backend;
use rpx_core::backend::quarter_bytes_per_param;
use rpx_core::backend::rvllm::RvllmBackend;
use rpx_core::backend::vllm::VllmBackend;
use rpx_core::backend::vram_mgb;
use rpx_core::backend::BackendError;
use rpx_core::backend::BackendKind;
use rpx_core::backend::EngineSettings;

#[test]
fn backend_kind_display() {
    assert_eq!(BackendKind::Vllm.to_string(), "vLLM");
    assert_eq!(BackendKind::Rvllm.to_string(), "rvLLM");
    assert_eq!(BackendKind::Tgi.to_string(), "TGI");
    assert_eq!(BackendKind::LlamaCpp.to_string(), "llama.cpp");
}

#[test]
fn backend_kind_from_str_loose() {
    assert_eq!(BackendKind::from_str_loose("vllm"), Some(BackendKind::Vllm));
    assert_eq!(BackendKind::from_str_loose("VLLM"), Some(BackendKind::Vllm));
    assert_eq!(BackendKind::from_str_loose("rvllm"), Some(BackendKind::Rvllm));
    assert_eq!(BackendKind::from_str_loose("llamacpp"), Some(BackendKind::LlamaCpp));
    assert_eq!(BackendKind::from_str_loose("llama.cpp"), Some(BackendKind::LlamaCpp));
    assert_eq!(BackendKind::from_str_loose("llama-cpp"), Some(BackendKind::LlamaCpp));
    assert_eq!(BackendKind::from_str_loose("unknown"), None);
}

#[test]
fn backend_kind_from_str_loose_tgi_and_mixed_case() {
    assert_eq!(BackendKind::from_str_loose("tgi"), Some(BackendKind::Tgi));
    assert_eq!(BackendKind::from_str_loose("TGI"), Some(BackendKind::Tgi));
    assert_eq!(BackendKind::from_str_loose("RvLLM"), Some(BackendKind::Rvllm));
    assert_eq!(BackendKind::from_str_loose(""), None);
}

#[test]
fn get_backend_returns_implemented() {
    assert!(get_backend(BackendKind::Vllm).is_ok());
    assert!(get_backend(BackendKind::Rvllm).is_ok());
}

#[test]
fn get_backend_errors_for_unimplemented() {
    assert!(get_backend(BackendKind::Tgi).is_err());
    assert!(get_backend(BackendKind::LlamaCpp).is_err());
}

#[test]
fn get_backend_error_names_the_engine() {
    match get_backend(BackendKind::Tgi) {
        Err(e) => {
            assert!(matches!(e, BackendError::NotImplemented(BackendKind::Tgi)));
            assert_eq!(e.to_string(), "backend TGI is not yet implemented");
        }
        Ok(_) => panic!("TGI has no implementation"),
    }
}

#[test]
fn get_backend_gives_the_requested_engine() {
    let vllm = get_backend(BackendKind::Vllm).ok().unwrap();
    assert_eq!(vllm.kind(), BackendKind::Vllm);
    assert_eq!(vllm.default_image(), "runpod/worker-v1-vllm:stable-cuda12.1.0");
    let rvllm = get_backend(BackendKind::Rvllm).ok().unwrap();
    assert_eq!(rvllm.kind(), BackendKind::Rvllm);
    assert_eq!(rvllm.default_image(), "pyshx/rvllm-runpod:latest");
    assert!(rvllm.openai_native());
    assert_eq!(rvllm.default_port(), 8000);
}

#[test]
fn auto_select_defaults_to_vllm() {
    assert_eq!(auto_select_backend(), BackendKind::Vllm);
}

#[test]
fn vllm_is_openai_native() {
    assert!(VllmBackend.openai_native());
}

#[test]
fn vllm_default_port() {
    assert_eq!(VllmBackend.default_port(), 8000);
}

#[test]
fn rvllm_is_openai_native() {
    assert!(RvllmBackend.openai_native());
}

#[test]
fn rvllm_lower_overhead_than_vllm() {
    let rvllm_vram = RvllmBackend.estimate_vram_mgb(7_000_000_000, "float16");
    let vllm_vram = VllmBackend.estimate_vram_mgb(7_000_000_000, "float16");
    assert!(rvllm_vram < vllm_vram, "rvLLM should have lower overhead");
}

#[test]
fn rvllm_vram_estimate_fp16() {
    // 7B * 2 bytes = 14 GB * 1.2 overhead = 16.8 GB
    assert_eq!(RvllmBackend.estimate_vram_mgb(7_000_000_000, "float16"), 16_800);
}

#[test]
fn vllm_vram_estimate_fp16() {
    // 7B model at fp16 = 7 * 2 = 14 GB model + 30% overhead = 18.2 GB
    assert_eq!(VllmBackend.estimate_vram_mgb(7_000_000_000, "float16"), 18_200);
}

#[test]
fn vllm_vram_estimate_fp32() {
    // 7B model at fp32 = 7 * 4 = 28 GB + 30% = 36.4 GB
    assert_eq!(VllmBackend.estimate_vram_mgb(7_000_000_000, "float32"), 36_400);
}

#[test]
fn vllm_vram_estimate_int4() {
    // 70B model at int4 = 70 * 0.5 = 35 GB + 30% = 45.5 GB
    assert_eq!(VllmBackend.estimate_vram_mgb(70_000_000_000, "int4"), 45_500);
}

#[test]
fn vllm_vram_unknown_dtype_defaults_to_fp16() {
    let vram_unknown = VllmBackend.estimate_vram_mgb(7_000_000_000, "mystery");
    let vram_fp16 = VllmBackend.estimate_vram_mgb(7_000_000_000, "float16");
    assert_eq!(vram_unknown, vram_fp16);
}

#[test]
fn vram_estimate_int8_and_rounding_up() {
    // 8B at int8 = 8 GB + 30% = 10.4 GB
    assert_eq!(VllmBackend.estimate_vram_mgb(8_000_000_000, "int8"), 10_400);
    // One parameter still needs a (rounded up) thousandth of a GB.
    assert_eq!(vram_mgb(1, "fp16", 130), 1);
    assert_eq!(vram_mgb(0, "fp16", 130), 0);
}

#[test]
fn dtype_widths() {
    assert_eq!(quarter_bytes_per_param("fp32"), 16);
    assert_eq!(quarter_bytes_per_param("bfloat16"), 8);
    assert_eq!(quarter_bytes_per_param("half"), 8);
    assert_eq!(quarter_bytes_per_param("auto"), 8);
    assert_eq!(quarter_bytes_per_param("q8"), 4);
    assert_eq!(quarter_bytes_per_param("q4"), 2);
    assert_eq!(quarter_bytes_per_param("FP32"), 8);
}

fn make_config(dtype: &str) -> EngineSettings {
    EngineSettings {
        dtype: dtype.to_string(),
        max_model_len: None,
        gpu_memory_utilization: None,
        tensor_parallel_size: None,
        max_num_seqs: None,
        extra: Vec::new(),
    }
}

fn var<'a>(vars: &'a [(String, String)], key: &str) -> Option<&'a str> {
    vars.iter().find(|(k, _)| k == key).map(|(_, v)| v.as_str())
}

#[test]
fn vllm_env_vars_basic() {
    let config = make_config("float16");
    let vars = VllmBackend.env_vars("meta-llama/Llama-3.1-8B", &config);
    assert_eq!(var(&vars, "MODEL_NAME"), Some("meta-llama/Llama-3.1-8B"));
    assert_eq!(var(&vars, "DTYPE"), Some("float16"));
    assert_eq!(vars.len(), 2);
}

#[test]
fn vllm_env_vars_with_overrides() {
    let config = EngineSettings {
        dtype: "auto".to_string(),
        max_model_len: Some(8192),
        gpu_memory_utilization: Some("0.9".to_string()),
        tensor_parallel_size: Some(2),
        max_num_seqs: Some(256),
        extra: Vec::new(),
    };
    let vars = VllmBackend.env_vars("test/model", &config);
    assert_eq!(var(&vars, "MAX_MODEL_LEN"), Some("8192"));
    assert_eq!(var(&vars, "GPU_MEMORY_UTILIZATION"), Some("0.9"));
    assert_eq!(var(&vars, "TENSOR_PARALLEL_SIZE"), Some("2"));
    assert_eq!(var(&vars, "MAX_NUM_SEQS"), Some("256"));
}

#[test]
fn rvllm_uses_model_id_env_var() {
    let config = make_config("auto");
    let vars = RvllmBackend.env_vars("Qwen/Qwen2.5-7B", &config);
    assert_eq!(var(&vars, "MODEL_ID"), Some("Qwen/Qwen2.5-7B"));
    assert!(var(&vars, "MODEL_NAME").is_none()); // that's vLLM's key
}

#[test]
fn vllm_extra_args_passed_through() {
    let mut config = make_config("auto");
    config.extra = vec![
        ("enforce_eager".to_string(), "true".to_string()),
        ("custom_opt".to_string(), "value".to_string()),
    ];
    let vars = VllmBackend.env_vars("test/model", &config);
    assert_eq!(var(&vars, "ENFORCE_EAGER"), Some("true"));
    assert_eq!(var(&vars, "CUSTOM_OPT"), Some("value"));
}

#[test]
fn extra_args_replace_earlier_values() {
    let mut config = make_config("auto");
    config.extra = vec![
        ("dtype".to_string(), "bfloat16".to_string()),
        ("Opt".to_string(), "1".to_string()),
        ("OPT".to_string(), "2".to_string()),
    ];
    let backend = get_backend(BackendKind::Rvllm).ok().unwrap();
    let vars = backend.env_vars("m", &config);
    assert_eq!(
        vars,
        vec![
            ("MODEL_ID".to_string(), "m".to_string()),
            ("DTYPE".to_string(), "bfloat16".to_string()),
            ("OPT".to_string(), "2".to_string()),
        ]
    );
}

#[test]
fn engine_settings_from_backend_args() {
    let args = vec![
        ("max_model_len".to_string(), Json::Number(JsonNumber::PosInt(8192))),
        ("enforce_eager".to_string(), Json::Bool(true)),
        ("tensor_parallel_size".to_string(), Json::Number(JsonNumber::PosInt(258))),
        ("custom_opt".to_string(), Json::Str("value".to_string())),
        ("max_num_seqs".to_string(), Json::Str("64".to_string())),
        ("gpu_memory_utilization".to_string(), Json::Number(JsonNumber::Float("0.9".to_string()))),
        ("limits".to_string(), Json::Array(vec![Json::Number(JsonNumber::NegInt(-3)), Json::Null])),
    ];
    let st = engine_settings("bfloat16", &args, Some("0.9".to_string()));
    assert_eq!(st.dtype, "bfloat16");
    assert_eq!(st.max_model_len, Some(8192));
    // Only the low 8 bits of the tensor-parallel size are kept.
    assert_eq!(st.tensor_parallel_size, Some(2));
    // A setting given as text is dropped.
    assert_eq!(st.max_num_seqs, None);
    assert_eq!(st.gpu_memory_utilization, Some("0.9".to_string()));
    assert_eq!(
        st.extra,
        vec![
            ("enforce_eager".to_string(), "true".to_string()),
            ("custom_opt".to_string(), "value".to_string()),
            ("limits".to_string(), "[-3,null]".to_string()),
        ]
    );
    let big = vec![("max_model_len".to_string(), Json::Number(JsonNumber::PosInt((1u64 << 32) + 5)))];
    assert_eq!(engine_settings("auto", &big, None).max_model_len, Some(5));
}

#[test]
fn json_text_is_compact_and_escaped() {
    let v = Json::Object(vec![
        ("a".to_string(), Json::Str("q\"b\\n\n\u{1}".to_string())),
        ("b".to_string(), Json::Array(vec![])),
        ("c".to_string(), Json::Object(vec![])),
        ("d".to_string(), Json::Number(JsonNumber::NegInt(i64::MIN))),
        ("e".to_string(), Json::Bool(false)),
    ]);
    assert_eq!(
        json_text(&v),
        r#"{"a":"q\"b\\n\n\u0001","b":[],"c":{},"d":-9223372036854775808,"e":false}"#
    );
}
