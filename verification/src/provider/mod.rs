//! Cloud GPU providers: the kinds the library knows and the data exchanged
//! with them.
pub mod runpod;
pub mod types;

use vstd::prelude::*;

verus! {

/// The cloud providers rpx can deploy to.
#[derive(Debug, Clone, Copy, PartialEq, Eq, Hash, Structural)]
pub enum ProviderKind {
    RunPod,
    VastAi,
    Beam,
}

impl ProviderKind {
    /// The display name of the provider.
    pub open spec fn spec_name(self) -> Seq<char> {
        match self {
            ProviderKind::RunPod => "RunPod"@,
            ProviderKind::VastAi => "Vast.ai"@,
            ProviderKind::Beam => "Beam"@,
        }
    }

    /// The display name of the provider ("RunPod", "Vast.ai", "Beam").
    pub fn to_string(&self) -> (r: String)
        ensures
            r@ == self.spec_name(),
    {
        match self {
            ProviderKind::RunPod => String::from_str("RunPod"),
            ProviderKind::VastAi => String::from_str("Vast.ai"),
            ProviderKind::Beam => String::from_str("Beam"),
        }
    }

    /// The name the GPU catalog uses for the provider.
    pub open spec fn spec_catalog_name(self) -> Seq<char> {
        match self {
            ProviderKind::RunPod => "runpod"@,
            ProviderKind::VastAi => "vastai"@,
            ProviderKind::Beam => "beam"@,
        }
    }

    /// The name the GPU catalog uses for the provider ("runpod", "vastai",
    /// "beam").
    pub fn catalog_name(&self) -> (r: &'static str)
        ensures
            r@ == self.spec_catalog_name(),
    {
        match self {
            ProviderKind::RunPod => "runpod",
            ProviderKind::VastAi => "vastai",
            ProviderKind::Beam => "beam",
        }
    }

    /// The provider a catalog name stands for, if any.
    pub open spec fn spec_from_catalog_name(s: Seq<char>) -> Option<ProviderKind> {
        if s == "runpod"@ {
            Some(ProviderKind::RunPod)
        } else if s == "vastai"@ {
            Some(ProviderKind::VastAi)
        } else if s == "beam"@ {
            Some(ProviderKind::Beam)
        } else {
            None
        }
    }

    /// Reads a catalog provider name ("runpod", "vastai", "beam"); any other
    /// name gives `None`.
    pub fn from_catalog_name(s: &str) -> (r: Option<ProviderKind>)
        ensures
            r == Self::spec_from_catalog_name(s@),
    {
        if crate::text::str_eq(s, "runpod") {
            Some(ProviderKind::RunPod)
        } else if crate::text::str_eq(s, "vastai") {
            Some(ProviderKind::VastAi)
        } else if crate::text::str_eq(s, "beam") {
            Some(ProviderKind::Beam)
        } else {
            None
        }
    }
}

} // verus!
