//! The arguments of the command line's subcommands, and the decisions the
//! commands take on them.
use std::collections::HashMap;
use std::path::PathBuf;

use vstd::prelude::*;

use crate::config::{Constraints, RpxConfig, ScalingDefaults};
use crate::provider::ProviderKind;
use crate::text::{spec_to_lowercase, spec_trim, str_eq, to_lowercase, trim};

verus! {

/// `rpx deploy <model>`.
#[derive(Debug, Clone)]
pub struct DeployArgs {
    pub model: String,
    pub backend: String,
    pub provider: String,
    pub gpu: String,
    pub gpu_count: u8,
    pub min_workers: u32,
    pub max_workers: u32,
    pub name: Option<String>,
    pub no_wait: bool,
    pub dry_run: bool,
}

/// `rpx destroy <endpoint>`.
#[derive(Debug, Clone)]
pub struct DestroyArgs {
    pub endpoint: String,
    pub yes: bool,
}

/// `rpx login [provider]`.
#[derive(Debug, Clone)]
pub struct LoginArgs {
    pub provider: String,
    pub api_key: Option<String>,
}

/// `rpx proxy <endpoint>`.
#[derive(Debug, Clone)]
pub struct ProxyArgs {
    pub endpoint: String,
    pub port: u16,
}

/// `rpx serve`.
#[derive(Debug)]
pub struct ServeArgs {
    pub config: PathBuf,
    pub dry_run: bool,
}

/// `rpx status <endpoint>`.
#[derive(Debug, Clone)]
pub struct StatusArgs {
    pub endpoint: String,
}

/// The configuration of a deploy without `rpx.toml`: the model, with
/// everything else automatic.
pub fn default_deploy_config(model: &str) -> (r: RpxConfig)
    ensures
        r.version@ == "1"@,
        r.name is None,
        r.model@ == model@,
        r.backend@ == "auto"@,
        r.provider@ == "auto"@,
        r.gpu@ == "auto"@,
        r.gpu_count == 1,
        r.dtype@ == "auto"@,
        r.backend_args@ == Map::<String, serde_json::Value>::empty(),
        r.scaling == (ScalingDefaults { min_workers: 0, max_workers: 3, idle_timeout: 300 }),
        r.secrets@.len() == 0,
        r.constraints.max_price_per_hour is None,
        r.constraints.preferred_regions@.len() == 0,
{
    RpxConfig {
        version: String::from_str("1"),
        name: None,
        model: crate::text::owned(model),
        backend: String::from_str("auto"),
        provider: String::from_str("auto"),
        gpu: String::from_str("auto"),
        gpu_count: 1,
        dtype: String::from_str("auto"),
        backend_args: HashMap::new(),
        scaling: ScalingDefaults::default(),
        secrets: Vec::new(),
        constraints: Constraints::default(),
    }
}

/// The options of `rpx deploy` applied to a configuration: the model,
/// GPU count and worker range always; engine, provider and GPU unless
/// "auto"; the name when one is given.
pub fn apply_deploy_args(config: RpxConfig, args: &DeployArgs) -> (r: RpxConfig)
    ensures
        r.version == config.version,
        r.name == match args.name {
            Some(n) => Some(n),
            None => config.name,
        },
        r.model == args.model,
        r.backend == if args.backend@ != "auto"@ {
            args.backend
        } else {
            config.backend
        },
        r.provider == if args.provider@ != "auto"@ {
            args.provider
        } else {
            config.provider
        },
        r.gpu == if args.gpu@ != "auto"@ {
            args.gpu
        } else {
            config.gpu
        },
        r.gpu_count == args.gpu_count,
        r.dtype == config.dtype,
        r.backend_args == config.backend_args,
        r.scaling == (ScalingDefaults {
            min_workers: args.min_workers,
            max_workers: args.max_workers,
            idle_timeout: config.scaling.idle_timeout,
        }),
        r.secrets == config.secrets,
        r.constraints == config.constraints,
{
    let mut config = config;
    config.model = args.model.clone();
    if !str_eq(args.backend.as_str(), "auto") {
        config.backend = args.backend.clone();
    }
    if !str_eq(args.provider.as_str(), "auto") {
        config.provider = args.provider.clone();
    }
    if !str_eq(args.gpu.as_str(), "auto") {
        config.gpu = args.gpu.clone();
    }
    config.gpu_count = args.gpu_count;
    config.scaling.min_workers = args.min_workers;
    config.scaling.max_workers = args.max_workers;
    match &args.name {
        Some(n) => {
            config.name = Some(n.clone());
        },
        None => {},
    }
    config
}

/// The provider `rpx login` is asked for, in any case: "runpod";
/// "vastai" or "vast.ai"; "beam". Anything else is refused as
/// `unknown provider: <name in lowercase>`.
pub fn login_provider(name: &str) -> (r: Result<ProviderKind, String>)
    ensures
        ({
            let l = spec_to_lowercase(name@);
            if l == "runpod"@ {
                r == Ok::<ProviderKind, String>(ProviderKind::RunPod)
            } else if l == "vastai"@ || l == "vast.ai"@ {
                r == Ok::<ProviderKind, String>(ProviderKind::VastAi)
            } else if l == "beam"@ {
                r == Ok::<ProviderKind, String>(ProviderKind::Beam)
            } else {
                r matches Err(m) && m@ == "unknown provider: "@ + l
            }
        }),
{
    let lower = to_lowercase(name);
    let l = lower.as_str();
    if str_eq(l, "runpod") {
        Ok(ProviderKind::RunPod)
    } else if str_eq(l, "vastai") || str_eq(l, "vast.ai") {
        Ok(ProviderKind::VastAi)
    } else if str_eq(l, "beam") {
        Ok(ProviderKind::Beam)
    } else {
        Err(crate::text::concat2("unknown provider: ", l))
    }
}

/// The answer to "Destroy endpoint? [y/N]" confirms: it is "y" or "Y",
/// surrounding white space aside.
pub fn confirms(input: &str) -> (r: bool)
    ensures
        r == (spec_trim(input@) == "y"@ || spec_trim(input@) == "Y"@),
{
    let t = trim(input);
    str_eq(t.as_str(), "y") || str_eq(t.as_str(), "Y")
}

} // verus!
