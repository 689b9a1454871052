//! Data exchanged with providers.
use vstd::prelude::*;

use super::ProviderKind;
use crate::backend::BackendKind;
use crate::json::Json;

verus! {

/// `serde_json::Value`, the value of a backend argument as the
/// configuration file gives it, held opaquely: the library carries it
/// through without reading it.
#[verifier::external_type_specification]
#[verifier::external_body]
pub struct ExJsonValue(serde_json::Value);

/// Worker scaling of an endpoint.
#[derive(Debug, Clone, Copy, PartialEq, Eq, Structural)]
pub struct ScalingConfig {
    pub min_workers: u32,
    pub max_workers: u32,
    pub idle_timeout_secs: u32,
}

impl ScalingConfig {
    /// Zero to three workers, idle for 300 s before a worker stops.
    pub fn default() -> (r: ScalingConfig)
        ensures
            r == (ScalingConfig { min_workers: 0, max_workers: 3, idle_timeout_secs: 300 }),
    {
        ScalingConfig { min_workers: 0, max_workers: 3, idle_timeout_secs: 300 }
    }
}

/// Where the container image of an endpoint comes from.
#[derive(Debug, Clone)]
pub enum ImageSpec {
    NativeTemplate { template_id: String },
    PrebuiltImage { registry_url: String, tag: String },
    CustomImage { image_url: String },
}

impl ImageSpec {
    /// A copy of the image description.
    pub fn duplicate(&self) -> (r: ImageSpec)
        ensures
            r == *self,
    {
        match self {
            ImageSpec::NativeTemplate { template_id } => ImageSpec::NativeTemplate {
                template_id: template_id.clone(),
            },
            ImageSpec::PrebuiltImage { registry_url, tag } => ImageSpec::PrebuiltImage {
                registry_url: registry_url.clone(),
                tag: tag.clone(),
            },
            ImageSpec::CustomImage { image_url } => ImageSpec::CustomImage { image_url: image_url.clone() },
        }
    }
}

/// The state a provider reports for an endpoint.
#[derive(Debug, Clone, PartialEq)]
pub enum EndpointStatus {
    Building,
    Initializing,
    Ready,
    Scaling,
    Idle,
    Error(String),
    Terminated,
}

impl EndpointStatus {
    pub open spec fn spec_text(&self) -> Seq<char> {
        match self {
            EndpointStatus::Building => "Building"@,
            EndpointStatus::Initializing => "Initializing"@,
            EndpointStatus::Ready => "Ready"@,
            EndpointStatus::Scaling => "Scaling"@,
            EndpointStatus::Idle => "Idle"@,
            EndpointStatus::Error(e) => "Error: "@ + e@,
            EndpointStatus::Terminated => "Terminated"@,
        }
    }

    /// The display text of the status; an error carries its message
    /// ("Error: <message>").
    pub fn to_string(&self) -> (r: String)
        ensures
            r@ == self.spec_text(),
    {
        match self {
            EndpointStatus::Building => String::from_str("Building"),
            EndpointStatus::Initializing => String::from_str("Initializing"),
            EndpointStatus::Ready => String::from_str("Ready"),
            EndpointStatus::Scaling => String::from_str("Scaling"),
            EndpointStatus::Idle => String::from_str("Idle"),
            EndpointStatus::Error(e) => crate::text::concat2("Error: ", e.as_str()),
            EndpointStatus::Terminated => String::from_str("Terminated"),
        }
    }

    /// A copy of the status.
    pub fn duplicate(&self) -> (r: EndpointStatus)
        ensures
            r == *self,
    {
        match self {
            EndpointStatus::Building => EndpointStatus::Building,
            EndpointStatus::Initializing => EndpointStatus::Initializing,
            EndpointStatus::Ready => EndpointStatus::Ready,
            EndpointStatus::Scaling => EndpointStatus::Scaling,
            EndpointStatus::Idle => EndpointStatus::Idle,
            EndpointStatus::Error(e) => EndpointStatus::Error(e.clone()),
            EndpointStatus::Terminated => EndpointStatus::Terminated,
        }
    }
}

/// A deployed serverless endpoint. `created_at` holds the creation time as
/// RFC 3339 text.
#[derive(Debug, Clone)]
pub struct Endpoint {
    pub id: String,
    pub name: String,
    pub provider: ProviderKind,
    pub status: EndpointStatus,
    pub gpu_id: String,
    pub invocation_url: String,
    pub openai_base_url: Option<String>,
    pub created_at: String,
}

impl Endpoint {
    /// A copy of the endpoint.
    pub fn duplicate(&self) -> (r: Endpoint)
        ensures
            r == *self,
    {
        let openai_base_url = match &self.openai_base_url {
            Some(u) => Some(u.clone()),
            None => None,
        };
        Endpoint {
            id: self.id.clone(),
            name: self.name.clone(),
            provider: self.provider,
            status: self.status.duplicate(),
            gpu_id: self.gpu_id.clone(),
            invocation_url: self.invocation_url.clone(),
            openai_base_url,
            created_at: self.created_at.clone(),
        }
    }
}

/// A request to run on an endpoint: the OpenAI-style body, whether the
/// caller wants a stream, and the time limit.
#[derive(Debug)]
pub struct InvocationRequest {
    pub body: Json,
    pub stream: bool,
    pub timeout_secs: u32,
}


/// A GPU type as a provider offers it; the price is in picodollars per
/// second.
#[derive(Debug, Clone)]
pub struct GpuSpec {
    pub id: String,
    pub name: String,
    pub provider_gpu_id: String,
    pub vram_gb: u32,
    pub price_per_sec: u64,
    pub multi_gpu_max: u8,
}

/// Everything a provider needs to create an endpoint. `env_vars` are the
/// container's variables, one per name.
#[derive(Debug)]
pub struct EndpointConfig {
    pub name: String,
    pub model_id: String,
    pub backend: BackendKind,
    pub gpu: GpuSpec,
    pub gpu_count: u8,
    pub scaling: ScalingConfig,
    pub env_vars: Vec<(String, String)>,
    pub image: ImageSpec,
}

/// Why a provider call failed.
#[derive(Debug)]
pub enum ProviderError {
    Auth(String),
    NotFound(String),
    Api { status: u16, message: String },
    Network(String),
    Unsupported(String),
    Timeout(String),
    Other(String),
}

impl ProviderError {
    pub open spec fn spec_message(&self) -> Seq<char> {
        match self {
            ProviderError::Auth(m) => "authentication failed: "@ + m@,
            ProviderError::NotFound(m) => "endpoint not found: "@ + m@,
            ProviderError::Api { status, message } => "provider API error ("@ + crate::text::decimal(
                *status as nat,
            ) + "): "@ + message@,
            ProviderError::Network(m) => "network error: "@ + m@,
            ProviderError::Unsupported(m) => "not supported: "@ + m@,
            ProviderError::Timeout(m) => "timeout: "@ + m@,
            ProviderError::Other(m) => m@,
        }
    }

    pub fn to_string(&self) -> (r: String)
        ensures
            r@ == self.spec_message(),
    {
        match self {
            ProviderError::Auth(m) => crate::text::concat2("authentication failed: ", m.as_str()),
            ProviderError::NotFound(m) => crate::text::concat2("endpoint not found: ", m.as_str()),
            ProviderError::Api { status, message } => {
                let mut r = String::from_str("provider API error (");
                let s = crate::text::u64_to_string(*status as u64);
                r.append(s.as_str());
                r.append("): ");
                r.append(message.as_str());
                r
            },
            ProviderError::Network(m) => crate::text::concat2("network error: ", m.as_str()),
            ProviderError::Unsupported(m) => crate::text::concat2("not supported: ", m.as_str()),
            ProviderError::Timeout(m) => crate::text::concat2("timeout: ", m.as_str()),
            ProviderError::Other(m) => m.clone(),
        }
    }
}

} // verus!
