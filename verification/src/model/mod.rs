//! What the library knows of a HuggingFace model: its metadata, whether it
//! is gated, and how the HuggingFace API answered.
pub mod sizing;

use vstd::prelude::*;

use crate::text::str_eq;

verus! {

/// Metadata about a HuggingFace model. `parameters` is the total parameter
/// count the model's safetensors report.
#[derive(Debug, Clone)]
pub struct ModelMetadata {
    pub model_id: String,
    pub pipeline_tag: Option<String>,
    pub parameters: Option<u64>,
    pub gated: bool,
}

/// The `gated` member of a HuggingFace model: a boolean, a string (such as
/// "auto" or "manual"), or absent.
#[derive(Debug, Clone, PartialEq, Eq)]
pub enum HfGated {
    Bool(bool),
    String(String),
    Absent,
}

impl Default for HfGated {
    /// Absent.
    fn default() -> (r: HfGated)
        ensures
            r is Absent,
    {
        HfGated::Absent
    }
}

impl HfGated {
    /// Access to the model needs approval: `true`, or any string but
    /// "false".
    pub open spec fn spec_is_gated(&self) -> bool {
        match self {
            HfGated::Bool(b) => *b,
            HfGated::String(s) => s@ != "false"@,
            HfGated::Absent => false,
        }
    }

    pub fn is_gated(&self) -> (r: bool)
        ensures
            r == self.spec_is_gated(),
    {
        match self {
            HfGated::Bool(b) => *b,
            HfGated::String(s) => !str_eq(s.as_str(), "false"),
            HfGated::Absent => false,
        }
    }
}

/// The metadata of a model from the fields of its API answer.
pub fn metadata_from_response(
    model_id: &str,
    pipeline_tag: Option<String>,
    safetensors_total: Option<u64>,
    gated: &HfGated,
) -> (r: ModelMetadata)
    ensures
        r.model_id@ == model_id@,
        r.pipeline_tag == pipeline_tag,
        r.parameters == safetensors_total,
        r.gated == gated.spec_is_gated(),
{
    ModelMetadata {
        model_id: crate::text::owned(model_id),
        pipeline_tag,
        parameters: safetensors_total,
        gated: gated.is_gated(),
    }
}

/// A gated model can only be deployed with a HuggingFace token; without
/// one the deploy is refused.
pub fn check_access(model_id: &str, metadata: &ModelMetadata, has_token: bool) -> (r: Result<(), String>)
    ensures
        metadata.gated && !has_token ==> (r matches Err(m) && m@ == "model "@ + model_id@
            + " is gated. Set HF_TOKEN env var or add secrets.hf_token to rpx.yaml"@),
        !(metadata.gated && !has_token) ==> r is Ok,
{
    if metadata.gated && !has_token {
        Err(
            crate::text::concat3(
                "model ",
                model_id,
                " is gated. Set HF_TOKEN env var or add secrets.hf_token to rpx.yaml",
            ),
        )
    } else {
        Ok(())
    }
}

/// The API address of a model: `https://huggingface.co/api/models/<id>`.
pub fn hf_model_url(model_id: &str) -> (r: String)
    ensures
        r@ == "https://huggingface.co/api/models/"@ + model_id@,
{
    crate::text::concat2("https://huggingface.co/api/models/", model_id)
}

/// Why the metadata of a model could not be had.
#[derive(Debug)]
pub enum ModelError {
    NotFound(String),
    Gated(String),
    Api { status: u16, message: String },
    Network(String),
    Parse(String),
}

impl ModelError {
    pub open spec fn spec_message(&self) -> Seq<char> {
        match self {
            ModelError::NotFound(m) => "model not found: "@ + m@,
            ModelError::Gated(m) => "model "@ + m@
                + " is gated — set HF_TOKEN or `secrets.hf_token` in rpx.yaml"@,
            ModelError::Api { status, message } => "HuggingFace API error ("@ + crate::text::decimal(
                *status as nat,
            ) + "): "@ + message@,
            ModelError::Network(m) => "network error: "@ + m@,
            ModelError::Parse(m) => "failed to parse model metadata: "@ + m@,
        }
    }

    pub fn to_string(&self) -> (r: String)
        ensures
            r@ == self.spec_message(),
    {
        match self {
            ModelError::NotFound(m) => crate::text::concat2("model not found: ", m.as_str()),
            ModelError::Gated(m) => crate::text::concat3(
                "model ",
                m.as_str(),
                " is gated — set HF_TOKEN or `secrets.hf_token` in rpx.yaml",
            ),
            ModelError::Api { status, message } => {
                let mut r = String::from_str("HuggingFace API error (");
                let s = crate::text::u64_to_string(*status as u64);
                r.append(s.as_str());
                r.append("): ");
                r.append(message.as_str());
                r
            },
            ModelError::Network(m) => crate::text::concat2("network error: ", m.as_str()),
            ModelError::Parse(m) => crate::text::concat2(
                "failed to parse model metadata: ",
                m.as_str(),
            ),
        }
    }
}

/// How the HuggingFace API answered a metadata request, by HTTP status.
#[derive(Debug, Clone, Copy, PartialEq, Eq, Structural)]
pub enum HfStatus {
    /// 2xx: the body holds the metadata.
    Success,
    /// 404: no such model.
    NotFound,
    /// 401 or 403: the model is gated and the token does not open it.
    Gated,
    /// Any other status: an API error, with the body as its message.
    Failed,
}

/// The class of an HTTP status of the HuggingFace API.
pub fn classify_hf_status(status: u16) -> (r: HfStatus)
    ensures
        r == if status == 404 {
            HfStatus::NotFound
        } else if status == 401 || status == 403 {
            HfStatus::Gated
        } else if 200 <= status <= 299 {
            HfStatus::Success
        } else {
            HfStatus::Failed
        },
{
    if status == 404 {
        HfStatus::NotFound
    } else if status == 401 || status == 403 {
        HfStatus::Gated
    } else if 200 <= status && status <= 299 {
        HfStatus::Success
    } else {
        HfStatus::Failed
    }
}

} // verus!
