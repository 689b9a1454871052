//! Inference engines that serve models on an endpoint.
pub mod rvllm;
pub mod vllm;

use vstd::prelude::*;
use crate::deploy::{pair_views, set_pair, with_pair};
use crate::json::{field, json_text, member, render, Json};
use crate::text::{decimal, spec_to_uppercase, str_eq, to_uppercase, u64_to_string};

verus! {

/// The inference engines rpx knows.
#[derive(Debug, Clone, Copy, PartialEq, Eq, Hash, Structural)]
pub enum BackendKind {
    Vllm,
    Rvllm,
    Tgi,
    LlamaCpp,
}

impl BackendKind {
    pub open spec fn spec_name(self) -> Seq<char> {
        match self {
            BackendKind::Vllm => "vLLM"@,
            BackendKind::Rvllm => "rvLLM"@,
            BackendKind::Tgi => "TGI"@,
            BackendKind::LlamaCpp => "llama.cpp"@,
        }
    }

    /// The display name of the engine ("vLLM", "rvLLM", "TGI", "llama.cpp").
    pub fn to_string(&self) -> (r: String)
        ensures
            r@ == self.spec_name(),
    {
        match self {
            BackendKind::Vllm => String::from_str("vLLM"),
            BackendKind::Rvllm => String::from_str("rvLLM"),
            BackendKind::Tgi => String::from_str("TGI"),
            BackendKind::LlamaCpp => String::from_str("llama.cpp"),
        }
    }

    /// The engine a lowercased name stands for.
    pub open spec fn spec_from_lower(s: Seq<char>) -> Option<BackendKind> {
        if s == "vllm"@ {
            Some(BackendKind::Vllm)
        } else if s == "rvllm"@ {
            Some(BackendKind::Rvllm)
        } else if s == "tgi"@ {
            Some(BackendKind::Tgi)
        } else if s == "llamacpp"@ || s == "llama.cpp"@ || s == "llama-cpp"@ {
            Some(BackendKind::LlamaCpp)
        } else {
            None
        }
    }

    /// Reads an engine name in any case: "vllm", "rvllm", "tgi", and
    /// "llamacpp", "llama.cpp" or "llama-cpp". Anything else gives `None`.
    pub fn from_str_loose(s: &str) -> (r: Option<BackendKind>)
        ensures
            r == Self::spec_from_lower(crate::text::spec_to_lowercase(s@)),
    {
        let lower = crate::text::to_lowercase(s);
        let l = lower.as_str();
        if str_eq(l, "vllm") {
            Some(BackendKind::Vllm)
        } else if str_eq(l, "rvllm") {
            Some(BackendKind::Rvllm)
        } else if str_eq(l, "tgi") {
            Some(BackendKind::Tgi)
        } else if str_eq(l, "llamacpp") || str_eq(l, "llama.cpp")
            || str_eq(l, "llama-cpp") {
            Some(BackendKind::LlamaCpp)
        } else {
            None
        }
    }
}

/// What a model does.
#[derive(Debug, Clone, Copy, PartialEq, Eq, Structural)]
pub enum ModelKind {
    TextGeneration,
    Embedding,
    ImageGeneration,
    AudioTranscription,
}

/// Why an engine cannot be used.
#[derive(Debug)]
pub enum BackendError {
    NotImplemented(BackendKind),
}

impl BackendError {
    pub open spec fn spec_message(&self) -> Seq<char> {
        match self {
            BackendError::NotImplemented(k) => "backend "@ + k.spec_name() + " is not yet implemented"@,
        }
    }

    pub fn to_string(&self) -> (r: String)
        ensures
            r@ == self.spec_message(),
    {
        match self {
            BackendError::NotImplemented(k) => {
                let n = k.to_string();
                crate::text::concat3("backend ", n.as_str(), " is not yet implemented")
            },
        }
    }
}

/// An engine rpx can deploy.
#[derive(Debug, Clone, Copy, PartialEq, Eq, Structural)]
pub enum AnyBackend {
    Vllm(vllm::VllmBackend),
    Rvllm(rvllm::RvllmBackend),
}

impl AnyBackend {
    pub open spec fn spec_kind(self) -> BackendKind {
        match self {
            AnyBackend::Vllm(_) => BackendKind::Vllm,
            AnyBackend::Rvllm(_) => BackendKind::Rvllm,
        }
    }

    pub fn kind(&self) -> (r: BackendKind)
        ensures
            r == self.spec_kind(),
    {
        match self {
            AnyBackend::Vllm(b) => b.kind(),
            AnyBackend::Rvllm(b) => b.kind(),
        }
    }

    /// The container image of the engine.
    pub fn default_image(&self) -> (r: &'static str)
        ensures
            r@ == match self {
                AnyBackend::Vllm(_) => vllm::VLLM_IMAGE@,
                AnyBackend::Rvllm(_) => rvllm::RVLLM_IMAGE@,
            },
    {
        match self {
            AnyBackend::Vllm(b) => b.default_image(),
            AnyBackend::Rvllm(b) => b.default_image(),
        }
    }

    pub fn openai_native(&self) -> (r: bool)
        ensures
            r,
    {
        true
    }

    pub fn default_port(&self) -> (r: u16)
        ensures
            r == 8000,
    {
        8000
    }

    /// The VRAM an engine needs, weights and runtime together, in percent
    /// of the weights: 130 for vLLM (KV cache and runtime), 120 for rvLLM.
    pub open spec fn spec_overhead_percent(self) -> u32 {
        match self {
            AnyBackend::Vllm(_) => 130u32,
            AnyBackend::Rvllm(_) => 120u32,
        }
    }

    /// VRAM overhead on top of the weights, in percent of the weights.
    pub fn overhead_percent(&self) -> (r: u32)
        ensures
            r == self.spec_overhead_percent(),
    {
        match self {
            AnyBackend::Vllm(b) => b.overhead_percent(),
            AnyBackend::Rvllm(b) => b.overhead_percent(),
        }
    }
}

/// The engine of a kind: vLLM and rvLLM are implemented, TGI and llama.cpp
/// are not yet.
pub fn get_backend(kind: BackendKind) -> (r: Result<AnyBackend, BackendError>)
    ensures
        match kind {
            BackendKind::Vllm | BackendKind::Rvllm => r is Ok && r->Ok_0.spec_kind() == kind,
            _ => r matches Err(BackendError::NotImplemented(k)) && k == kind,
        },
{
    match kind {
        BackendKind::Vllm => Ok(AnyBackend::Vllm(vllm::VllmBackend)),
        BackendKind::Rvllm => Ok(AnyBackend::Rvllm(rvllm::RvllmBackend)),
        BackendKind::Tgi => Err(BackendError::NotImplemented(kind)),
        BackendKind::LlamaCpp => Err(BackendError::NotImplemented(kind)),
    }
}

/// The engine used when none is configured: vLLM, the most widely
/// supported.
pub fn auto_select_backend() -> (r: BackendKind)
    ensures
        r == BackendKind::Vllm,
{
    BackendKind::Vllm
}

/// Bytes one parameter takes for a dtype, in quarter bytes: 16 for 32-bit
/// floats, 8 for 16-bit types and "auto", 4 for 8-bit, 2 for 4-bit;
/// unknown dtypes count as 16-bit.
pub open spec fn spec_quarter_bytes_per_param(dtype: Seq<char>) -> u32 {
    if dtype == "float32"@ || dtype == "fp32"@ {
        16
    } else if dtype == "bfloat16"@ || dtype == "float16"@ || dtype == "fp16"@ || dtype == "half"@
        || dtype == "auto"@ {
        8
    } else if dtype == "int8"@ || dtype == "q8"@ {
        4
    } else if dtype == "int4"@ || dtype == "q4"@ {
        2
    } else {
        8
    }
}

/// See `spec_quarter_bytes_per_param`.
pub fn quarter_bytes_per_param(dtype: &str) -> (r: u32)
    ensures
        r == spec_quarter_bytes_per_param(dtype@),
{
    if str_eq(dtype, "float32") || str_eq(dtype, "fp32") {
        16
    } else if str_eq(dtype, "bfloat16") || str_eq(dtype, "float16") || str_eq(dtype, "fp16")
        || str_eq(dtype, "half") || str_eq(dtype, "auto") {
        8
    } else if str_eq(dtype, "int8") || str_eq(dtype, "q8") {
        4
    } else if str_eq(dtype, "int4") || str_eq(dtype, "q4") {
        2
    } else {
        8
    }
}


/// The width, in bits, of the numbers a dtype name stands for: 32 for
/// single precision ("float32", "fp32"), 16 for half precision
/// ("bfloat16", "float16", "fp16", "half"), 8 for "int8" and "q8", 4 for
/// "int4" and "q4"; any other name, "auto" among them, is taken as half
/// precision.
pub open spec fn dtype_bits(dtype: Seq<char>) -> nat {
    if dtype == "float32"@ || dtype == "fp32"@ {
        32
    } else if dtype == "int8"@ || dtype == "q8"@ {
        8
    } else if dtype == "int4"@ || dtype == "q4"@ {
        4
    } else {
        16
    }
}

proof fn lemma_dtype_names_differ()
    ensures
        "fp16"@ != "float32"@ && "fp16"@ != "fp32"@ && "fp16"@ != "int8"@ && "fp16"@ != "q8"@
            && "fp16"@ != "int4"@ && "fp16"@ != "q4"@,
        "float16"@ != "float32"@ && "float16"@ != "fp32"@ && "float16"@ != "int8"@ && "float16"@
            != "q8"@ && "float16"@ != "int4"@ && "float16"@ != "q4"@,
        "bfloat16"@ != "float32"@ && "bfloat16"@ != "fp32"@ && "bfloat16"@ != "int8"@ && "bfloat16"@
            != "q8"@ && "bfloat16"@ != "int4"@ && "bfloat16"@ != "q4"@,
        "half"@ != "float32"@ && "half"@ != "fp32"@ && "half"@ != "int8"@ && "half"@ != "q8"@
            && "half"@ != "int4"@ && "half"@ != "q4"@,
        "auto"@ != "float32"@ && "auto"@ != "fp32"@ && "auto"@ != "int8"@ && "auto"@ != "q8"@
            && "auto"@ != "int4"@ && "auto"@ != "q4"@,
        "int8"@ != "float32"@ && "int8"@ != "fp32"@ && "q8"@ != "float32"@ && "q8"@ != "fp32"@,
        "int4"@ != "float32"@ && "int4"@ != "fp32"@ && "q4"@ != "float32"@ && "q4"@ != "fp32"@,
        "int4"@ != "int8"@ && "int4"@ != "q8"@ && "q4"@ != "int8"@ && "q4"@ != "q8"@,
{
    reveal_strlit("float32");
    reveal_strlit("fp32");
    reveal_strlit("int8");
    reveal_strlit("q8");
    reveal_strlit("int4");
    reveal_strlit("q4");
    reveal_strlit("fp16");
    reveal_strlit("float16");
    reveal_strlit("bfloat16");
    reveal_strlit("half");
    reveal_strlit("auto");
    assert("fp16"@[2] != "fp32"@[2]);
    assert("fp16"@[0] != "int8"@[0]);
    assert("fp16"@[0] != "int4"@[0]);
    assert("half"@[0] != "fp32"@[0]);
    assert("half"@[0] != "int8"@[0]);
    assert("half"@[0] != "int4"@[0]);
    assert("auto"@[0] != "fp32"@[0]);
    assert("auto"@[0] != "int8"@[0]);
    assert("auto"@[0] != "int4"@[0]);
    assert("float16"@[5] != "float32"@[5]);
    assert("int8"@[0] != "fp32"@[0]);
    assert("int4"@[0] != "fp32"@[0]);
    assert("int4"@[3] != "int8"@[3]);
    assert("q4"@[1] != "q8"@[1]);
}

/// A model's VRAM estimate is its parameters times the bytes one
/// parameter takes at its dtype (the dtype's width over 8), times the
/// engine's overhead, in thousandths of a GB rounded up: for every model
/// size, dtype and overhead, `8 * 10^8 * vram` lies within `8 * 10^8` above
/// `bits * params * percent`. So every half-precision name takes 2 bytes
/// per parameter, single precision twice that, 8-bit half of it and 4-bit
/// a quarter; and a model at single precision needs exactly what a model
/// twice its size needs at half precision.
pub proof fn law_vram_follows_dtype_width(params: nat, dtype: Seq<char>, percent: nat)
    ensures
        spec_quarter_bytes_per_param(dtype) * 2 == dtype_bits(dtype),
        800_000_000 * spec_vram_mgb(params, spec_quarter_bytes_per_param(dtype) as nat, percent)
            >= dtype_bits(dtype) * params * percent,
        800_000_000 * spec_vram_mgb(params, spec_quarter_bytes_per_param(dtype) as nat, percent)
            < dtype_bits(dtype) * params * percent + 800_000_000,
        dtype_bits("fp16"@) == 16 && dtype_bits("float16"@) == 16 && dtype_bits("bfloat16"@) == 16
            && dtype_bits("half"@) == 16 && dtype_bits("fp32"@) == 32 && dtype_bits("float32"@) == 32,
        spec_vram_mgb(params, spec_quarter_bytes_per_param("fp32"@) as nat, percent) == spec_vram_mgb(
            2 * params,
            spec_quarter_bytes_per_param("fp16"@) as nat,
            percent,
        ),
{
    reveal_strlit("float32");
    reveal_strlit("fp32");
    reveal_strlit("int8");
    reveal_strlit("q8");
    reveal_strlit("int4");
    reveal_strlit("q4");
    reveal_strlit("fp16");
    reveal_strlit("float16");
    reveal_strlit("bfloat16");
    reveal_strlit("half");
    reveal_strlit("auto");
    lemma_dtype_names_differ();
    let q = spec_quarter_bytes_per_param(dtype) as nat;
    let b = dtype_bits(dtype);
    assert(q * 2 == b);
    let n = params * q * percent;
    let v = spec_vram_mgb(params, q, percent);
    assert(v == (n + 399_999_999) / 400_000_000);
    assert(b * params * percent == 2 * n) by (nonlinear_arith)
        requires
            q * 2 == b,
            n == params * q * percent,
    ;
    assert(400_000_000 * v >= n && 400_000_000 * v < n + 400_000_000) by (nonlinear_arith)
        requires
            v == (n + 399_999_999) / 400_000_000,
            n >= 0,
    ;
    assert(params * 16 * percent == (2 * params) * 8 * percent) by (nonlinear_arith);
}

/// The VRAM, in thousandths of a GB and rounded up, that a model of
/// `params` parameters needs: `params` times the bytes per parameter
/// (`quarter_bytes / 4`) times the engine's overhead (`percent / 100`).
pub open spec fn spec_vram_mgb(params: nat, quarter_bytes: nat, percent: nat) -> nat {
    (params * quarter_bytes * percent + 399_999_999) / 400_000_000
}

impl AnyBackend {
    /// Estimates the VRAM a model of `params` parameters needs at `dtype`,
    /// in thousandths of a GB, rounded up.
    pub fn estimate_vram_mgb(&self, params: u64, dtype: &str) -> (r: u64)
        ensures
            r == spec_vram_mgb(
                params as nat,
                spec_quarter_bytes_per_param(dtype@) as nat,
                self.spec_overhead_percent() as nat,
            ),
    {
        vram_mgb(params, dtype, self.overhead_percent())
    }
}

/// The VRAM estimate for an engine with the given overhead (see
/// `spec_vram_mgb`).
pub fn vram_mgb(params: u64, dtype: &str, percent: u32) -> (r: u64)
    requires
        percent <= 130,
    ensures
        r == spec_vram_mgb(params as nat, spec_quarter_bytes_per_param(dtype@) as nat, percent as nat),
{
    let q = quarter_bytes_per_param(dtype) as u128;
    let pct = percent as u128;
    let p = params as u128;
    assert(p * q <= 18446744073709551615u128 * 16) by (nonlinear_arith)
        requires
            p <= 18446744073709551615u128,
            q <= 16,
    ;
    assert(p * q * pct <= 18446744073709551615u128 * 16 * 130) by (nonlinear_arith)
        requires
            p * q <= 18446744073709551615u128 * 16,
            pct <= 130,
    ;
    let num = p * q * pct;
    let r = (num + 399_999_999) / 400_000_000;
    r as u64
}

/// Settings an engine reads from its container variables. The GPU memory
/// fraction is kept as the decimal text it is written with; `extra` holds
/// the other backend arguments, each with the text of its value.
#[derive(Debug, Clone)]
pub struct EngineSettings {
    pub dtype: String,
    pub max_model_len: Option<u32>,
    pub gpu_memory_utilization: Option<String>,
    pub tensor_parallel_size: Option<u8>,
    pub max_num_seqs: Option<u32>,
    pub extra: Vec<(String, String)>,
}

/// The variables with `k` set to the text `v`, where there is one.
pub open spec fn with_opt(s: Seq<(Seq<char>, Seq<char>)>, k: Seq<char>, v: Option<Seq<char>>) -> Seq<
    (Seq<char>, Seq<char>),
> {
    match v {
        Some(t) => with_pair(s, k, t),
        None => s,
    }
}

/// The decimal text of an optional number.
pub open spec fn opt_decimal(n: Option<nat>) -> Option<Seq<char>> {
    match n {
        Some(m) => Some(decimal(m)),
        None => None,
    }
}

/// The variables with each extra argument set, in order, under its name
/// in uppercase.
pub open spec fn with_extra(s: Seq<(Seq<char>, Seq<char>)>, extra: Seq<(String, String)>) -> Seq<
    (Seq<char>, Seq<char>),
>
    decreases extra.len(),
{
    if extra.len() == 0 {
        s
    } else {
        with_pair(with_extra(s, extra.drop_last()), spec_to_uppercase(extra.last().0@), extra.last().1@)
    }
}

/// The container variables of an engine that reads the model from
/// `model_var`: the model, `DTYPE`, the limits that are set
/// (`MAX_MODEL_LEN`, `GPU_MEMORY_UTILIZATION`, `TENSOR_PARALLEL_SIZE`,
/// `MAX_NUM_SEQS`), then the extra arguments; a later value of a name
/// replaces an earlier one.
pub open spec fn spec_env_vars(model_var: Seq<char>, model_id: Seq<char>, st: EngineSettings) -> Seq<
    (Seq<char>, Seq<char>),
> {
    let a = with_pair(seq![(model_var, model_id)], "DTYPE"@, st.dtype@);
    let b = with_opt(
        a,
        "MAX_MODEL_LEN"@,
        opt_decimal(
            match st.max_model_len {
                Some(n) => Some(n as nat),
                None => None,
            },
        ),
    );
    let c = with_opt(
        b,
        "GPU_MEMORY_UTILIZATION"@,
        match st.gpu_memory_utilization {
            Some(t) => Some(t@),
            None => None,
        },
    );
    let d = with_opt(
        c,
        "TENSOR_PARALLEL_SIZE"@,
        opt_decimal(
            match st.tensor_parallel_size {
                Some(n) => Some(n as nat),
                None => None,
            },
        ),
    );
    let e = with_opt(
        d,
        "MAX_NUM_SEQS"@,
        opt_decimal(
            match st.max_num_seqs {
                Some(n) => Some(n as nat),
                None => None,
            },
        ),
    );
    with_extra(e, st.extra@)
}

/// Builds `spec_env_vars(model_var, model_id, st)`.
pub fn engine_env_vars(model_var: &str, model_id: &str, st: &EngineSettings) -> (r: Vec<(String, String)>)
    ensures
        pair_views(r@) == spec_env_vars(model_var@, model_id@, *st),
{
    let mut v: Vec<(String, String)> = Vec::new();
    v.push((crate::text::owned(model_var), crate::text::owned(model_id)));
    assert(pair_views(v@) =~= seq![(model_var@, model_id@)]);
    set_pair(&mut v, "DTYPE", st.dtype.clone());
    match st.max_model_len {
        Some(n) => set_pair(&mut v, "MAX_MODEL_LEN", u64_to_string(n as u64)),
        None => {},
    }
    match &st.gpu_memory_utilization {
        Some(t) => set_pair(&mut v, "GPU_MEMORY_UTILIZATION", t.clone()),
        None => {},
    }
    match st.tensor_parallel_size {
        Some(n) => set_pair(&mut v, "TENSOR_PARALLEL_SIZE", u64_to_string(n as u64)),
        None => {},
    }
    match st.max_num_seqs {
        Some(n) => set_pair(&mut v, "MAX_NUM_SEQS", u64_to_string(n as u64)),
        None => {},
    }
    let ghost base = pair_views(v@);
    assert(st.extra@.take(0) =~= Seq::<(String, String)>::empty());
    let mut i: usize = 0;
    while i < st.extra.len()
        invariant
            i <= st.extra@.len(),
            pair_views(v@) == with_extra(base, st.extra@.take(i as int)),
        decreases st.extra@.len() - i,
    {
        let k = to_uppercase(st.extra[i].0.as_str());
        set_pair(&mut v, k.as_str(), st.extra[i].1.clone());
        assert(st.extra@.take(i + 1).drop_last() =~= st.extra@.take(i as int));
        i = i + 1;
    }
    assert(st.extra@.take(st.extra@.len() as int) =~= st.extra@);
    v
}

impl AnyBackend {
    /// The variable an engine reads the model from: `MODEL_NAME` for vLLM,
    /// `MODEL_ID` for rvLLM.
    pub open spec fn spec_model_var(self) -> Seq<char> {
        match self {
            AnyBackend::Vllm(_) => "MODEL_NAME"@,
            AnyBackend::Rvllm(_) => "MODEL_ID"@,
        }
    }

    /// The container variables of the engine for a model (see
    /// `spec_env_vars`).
    pub fn env_vars(&self, model_id: &str, settings: &EngineSettings) -> (r: Vec<(String, String)>)
        ensures
            pair_views(r@) == spec_env_vars(self.spec_model_var(), model_id@, *settings),
    {
        match self {
            AnyBackend::Vllm(b) => b.env_vars(model_id, settings),
            AnyBackend::Rvllm(b) => b.env_vars(model_id, settings),
        }
    }
}

/// The four backend arguments that become settings of their own.
pub open spec fn is_setting_key(k: Seq<char>) -> bool {
    k == "max_model_len"@ || k == "gpu_memory_utilization"@ || k == "tensor_parallel_size"@ || k
        == "max_num_seqs"@
}

/// The text a backend argument is passed with: a string's text, else the
/// value's JSON.
pub open spec fn arg_text(v: Json) -> Seq<char> {
    match v.spec_as_str() {
        Some(t) => t,
        None => render(v),
    }
}

/// The backend arguments other than the four settings, each with the text
/// of its value, in order.
pub open spec fn extra_args(args: Seq<(String, Json)>) -> Seq<(Seq<char>, Seq<char>)>
    decreases args.len(),
{
    if args.len() == 0 {
        Seq::empty()
    } else {
        let rest = extra_args(args.drop_last());
        if is_setting_key(args.last().0@) {
            rest
        } else {
            rest.push((args.last().0@, arg_text(args.last().1)))
        }
    }
}

/// The whole-number argument `key`, as its remainder by `modulus` (its
/// low bits); `None`
/// where it is absent or no non-negative integer.
pub open spec fn low_bits_arg(args: Seq<(String, Json)>, key: Seq<char>, modulus: nat) -> Option<nat> {
    match member(args, key) {
        Some(v) => match v.spec_as_u64() {
            Some(n) => Some((n as nat) % modulus),
            None => None,
        },
        None => None,
    }
}

fn low_bits_of(args: &Vec<(String, Json)>, key: &str, modulus: u64) -> (r: Option<u64>)
    requires
        modulus > 0,
    ensures
        match low_bits_arg(args@, key@, modulus as nat) {
            Some(n) => r == Some(n as u64),
            None => r is None,
        },
{
    match field(args, key) {
        Some(v) => match v.as_u64() {
            Some(n) => Some(n % modulus),
            None => None,
        },
        None => None,
    }
}

/// The engine settings a configuration's dtype and backend arguments
/// give: the maximum model length and number of sequences as 32-bit and
/// the tensor-parallel size as 8-bit numbers (their low bits, where they
/// are given as non-negative integers), the memory fraction as the text
/// `memory_fraction`, and every other argument with the text of its value.
pub fn engine_settings(dtype: &str, args: &Vec<(String, Json)>, memory_fraction: Option<String>) -> (r:
    EngineSettings)
    ensures
        r.dtype@ == dtype@,
        r.max_model_len == match low_bits_arg(args@, "max_model_len"@, 0x1_0000_0000) {
            Some(n) => Some(n as u32),
            None => None::<u32>,
        },
        r.tensor_parallel_size == match low_bits_arg(args@, "tensor_parallel_size"@, 0x100) {
            Some(n) => Some(n as u8),
            None => None::<u8>,
        },
        r.max_num_seqs == match low_bits_arg(args@, "max_num_seqs"@, 0x1_0000_0000) {
            Some(n) => Some(n as u32),
            None => None::<u32>,
        },
        r.gpu_memory_utilization == memory_fraction,
        pair_views(r.extra@) == extra_args(args@),
{
    let max_model_len = match low_bits_of(args, "max_model_len", 0x1_0000_0000) {
        Some(n) => Some(n as u32),
        None => None,
    };
    let tensor_parallel_size = match low_bits_of(args, "tensor_parallel_size", 0x100) {
        Some(n) => Some(n as u8),
        None => None,
    };
    let max_num_seqs = match low_bits_of(args, "max_num_seqs", 0x1_0000_0000) {
        Some(n) => Some(n as u32),
        None => None,
    };
    let mut extra: Vec<(String, String)> = Vec::new();
    let mut i: usize = 0;
    while i < args.len()
        invariant
            i <= args@.len(),
            pair_views(extra@) == extra_args(args@.take(i as int)),
        decreases args@.len() - i,
    {
        let key = &args[i].0;
        let ghost prev = extra@;
        let skip = str_eq(key.as_str(), "max_model_len") || str_eq(key.as_str(), "gpu_memory_utilization")
            || str_eq(key.as_str(), "tensor_parallel_size") || str_eq(key.as_str(), "max_num_seqs");
        if !skip {
            let text = match args[i].1.as_str() {
                Some(t) => crate::text::owned(t),
                None => json_text(&args[i].1),
            };
            extra.push((key.clone(), text));
            assert(pair_views(extra@) =~= pair_views(prev).push((key@, arg_text(args@[i as int].1))));
        }
        proof {
            let t = args@.take(i + 1);
            assert(t.drop_last() =~= args@.take(i as int));
            assert(t.last() == args@[i as int]);
        }
        i = i + 1;
    }
    assert(args@.take(args@.len() as int) =~= args@);
    EngineSettings {
        dtype: crate::text::owned(dtype),
        max_model_len,
        gpu_memory_utilization: memory_fraction,
        tensor_parallel_size,
        max_num_seqs,
        extra,
    }
}

} // verus!
