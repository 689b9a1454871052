use vstd::prelude::*;

use super::{engine_env_vars, spec_env_vars, spec_quarter_bytes_per_param, spec_vram_mgb, vram_mgb, BackendKind, EngineSettings};
use crate::deploy::pair_views;

verus! {

/// The container image of the engine.
pub const RVLLM_IMAGE: &'static str = "pyshx/rvllm-runpod:latest";

#[derive(Debug, Clone, Copy, PartialEq, Eq, Structural)]
pub struct RvllmBackend;

impl RvllmBackend {
    pub fn kind(&self) -> (r: BackendKind)
        ensures
            r == BackendKind::Rvllm,
    {
        BackendKind::Rvllm
    }

    /// The container image of the engine.
    pub fn default_image(&self) -> (r: &'static str)
        ensures
            r@ == RVLLM_IMAGE@,
    {
        RVLLM_IMAGE
    }

    /// The container variables for a model: the model id as `MODEL_ID`, then
    /// the settings (see `spec_env_vars`).
    pub fn env_vars(&self, model_id: &str, settings: &EngineSettings) -> (r: Vec<(String, String)>)
        ensures
            pair_views(r@) == spec_env_vars("MODEL_ID"@, model_id@, *settings),
    {
        engine_env_vars("MODEL_ID", model_id, settings)
    }

    /// The engine serves the OpenAI API itself.
    pub fn openai_native(&self) -> (r: bool)
        ensures
            r,
    {
        true
    }

    pub fn default_port(&self) -> (r: u16)
        ensures
            r == 8000,
    {
        8000
    }

    /// KV cache and runtime overhead on top of the weights: the VRAM
    /// estimate is this percentage of the weights' size.
    pub fn overhead_percent(&self) -> (r: u32)
        ensures
            r == 120,
    {
        120
    }

    /// Estimates the VRAM a model of `params` parameters needs at `dtype`,
    /// in thousandths of a GB, rounded up: the weights plus 20%.
    pub fn estimate_vram_mgb(&self, params: u64, dtype: &str) -> (r: u64)
        ensures
            r == spec_vram_mgb(params as nat, spec_quarter_bytes_per_param(dtype@) as nat, 120),
    {
        vram_mgb(params, dtype, 120)
    }
}

} // verus!
