//! Deployment configuration (`rpx.yaml`), stored provider credentials and
//! the local record of deployed endpoints.
use std::collections::HashMap;

use vstd::prelude::*;

use crate::backend::BackendKind;
use crate::provider::types::{Endpoint, EndpointStatus};
use crate::provider::ProviderKind;
use crate::text::{has_prefix, spec_to_lowercase, str_eq, strip_prefix, to_lowercase};

verus! {

/// One deployment as the user describes it. `secrets` lists name/value
/// pairs; a value of the form `env:NAME` refers to an environment variable.
#[derive(Debug, Clone)]
pub struct RpxConfig {
    pub version: String,
    pub name: Option<String>,
    pub model: String,
    pub backend: String,
    pub provider: String,
    pub gpu: String,
    pub gpu_count: u8,
    pub dtype: String,
    pub backend_args: HashMap<String, serde_json::Value>,
    pub scaling: ScalingDefaults,
    pub secrets: Vec<(String, String)>,
    pub constraints: Constraints,
}

/// Worker scaling as written in the configuration.
#[derive(Debug, Clone, Copy, PartialEq, Eq, Structural)]
pub struct ScalingDefaults {
    pub min_workers: u32,
    pub max_workers: u32,
    pub idle_timeout: u32,
}

impl Default for ScalingDefaults {
    /// Zero to three workers, stopped after 300 idle seconds.
    fn default() -> (r: ScalingDefaults)
        ensures
            r == (ScalingDefaults { min_workers: 0, max_workers: 3, idle_timeout: 300 }),
    {
        ScalingDefaults { min_workers: 0, max_workers: 3, idle_timeout: 300 }
    }
}

/// Limits on where and at what price a deployment may run.
/// `max_price_per_hour` is in picodollars per hour.
#[derive(Debug, Clone)]
pub struct Constraints {
    pub max_price_per_hour: Option<u64>,
    pub preferred_regions: Vec<String>,
}

impl Default for Constraints {
    /// No price limit and no preferred region.
    fn default() -> (r: Constraints)
        ensures
            r.max_price_per_hour is None,
            r.preferred_regions@.len() == 0,
    {
        Constraints { max_price_per_hour: None, preferred_regions: Vec::new() }
    }
}

/// Where the value of a secret comes from.
#[derive(Debug, Clone, PartialEq, Eq)]
pub enum SecretSource {
    /// The environment variable of this name.
    Env(String),
    /// The text itself.
    Literal(String),
}

/// The provider a lowercased name stands for.
pub open spec fn spec_provider_from_lower(s: Seq<char>) -> Option<ProviderKind> {
    if s == "runpod"@ {
        Some(ProviderKind::RunPod)
    } else if s == "vastai"@ || s == "vast.ai"@ || s == "vast"@ {
        Some(ProviderKind::VastAi)
    } else if s == "beam"@ {
        Some(ProviderKind::Beam)
    } else {
        None
    }
}

/// Where the value behind a configured secret comes from: a value of the
/// form `env:NAME` refers to the environment variable `NAME`, any other
/// value is the secret itself.
pub fn secret_source(value: &str) -> (r: SecretSource)
    ensures
        match r {
            SecretSource::Env(name) => has_prefix(value@, "env:"@) && name@ == value@.skip(4),
            SecretSource::Literal(text) => !has_prefix(value@, "env:"@) && text@ == value@,
        },
{
    proof {
        reveal_strlit("env:");
    }
    match strip_prefix(value, "env:") {
        Some(name) => SecretSource::Env(name),
        None => SecretSource::Literal(crate::text::owned(value)),
    }
}

/// The value of the first entry named `key`, if any.
pub open spec fn lookup_pair(entries: Seq<(String, String)>, key: Seq<char>) -> Option<String>
    decreases entries.len(),
{
    if entries.len() == 0 {
        None
    } else if entries[0].0@ == key {
        Some(entries[0].1)
    } else {
        lookup_pair(entries.drop_first(), key)
    }
}

impl RpxConfig {
    pub open spec fn spec_resolved_backend(&self) -> Option<BackendKind> {
        if self.backend@ == "auto"@ {
            None
        } else {
            BackendKind::spec_from_lower(spec_to_lowercase(self.backend@))
        }
    }

    /// The configured engine: `None` for "auto", else what
    /// `BackendKind::from_str_loose` reads from the name.
    pub fn resolved_backend(&self) -> (r: Option<BackendKind>)
        ensures
            r == self.spec_resolved_backend(),
    {
        if str_eq(self.backend.as_str(), "auto") {
            return None;
        }
        BackendKind::from_str_loose(self.backend.as_str())
    }

    /// The configured provider, read in any case: "runpod"; "vastai",
    /// "vast.ai" or "vast"; "beam". Anything else (such as "auto") gives
    /// `None`.
    pub fn resolved_provider(&self) -> (r: Option<ProviderKind>)
        ensures
            r == spec_provider_from_lower(spec_to_lowercase(self.provider@)),
    {
        let lower = to_lowercase(self.provider.as_str());
        let l = lower.as_str();
        if str_eq(l, "runpod") {
            Some(ProviderKind::RunPod)
        } else if str_eq(l, "vastai") || str_eq(l, "vast.ai") || str_eq(l, "vast") {
            Some(ProviderKind::VastAi)
        } else if str_eq(l, "beam") {
            Some(ProviderKind::Beam)
        } else {
            None
        }
    }

    /// The configured value of the secret `key`, if one is configured.
    pub fn secret_value(&self, key: &str) -> (r: Option<&String>)
        ensures
            match r {
                Some(v) => lookup_pair(self.secrets@, key@) == Some(*v),
                None => lookup_pair(self.secrets@, key@) is None,
            },
    {
        let mut i: usize = 0;
        assert(self.secrets@.skip(0) =~= self.secrets@);
        while i < self.secrets.len()
            invariant
                i <= self.secrets@.len(),
                lookup_pair(self.secrets@, key@) == lookup_pair(self.secrets@.skip(i as int), key@),
            decreases self.secrets@.len() - i,
        {
            let ghost rest = self.secrets@.skip(i as int);
            assert(rest.drop_first() =~= self.secrets@.skip(i + 1));
            assert(rest[0] == self.secrets@[i as int]);
            if str_eq(self.secrets[i].0.as_str(), key) {
                return Some(&self.secrets[i].1);
            }
            i = i + 1;
        }
        None
    }

    /// Where the secret `key` is to be read from: `None` when no such
    /// secret is configured, else the source its value names.
    pub fn secret_source_of(&self, key: &str) -> (r: Option<SecretSource>)
        ensures
            match lookup_pair(self.secrets@, key@) {
                None => r is None,
                Some(v) => r matches Some(src) && match src {
                    SecretSource::Env(name) => has_prefix(v@, "env:"@) && name@ == v@.skip(4),
                    SecretSource::Literal(text) => !has_prefix(v@, "env:"@) && text@ == v@,
                },
            },
    {
        match self.secret_value(key) {
            Some(v) => Some(secret_source(v.as_str())),
            None => None,
        }
    }
}

/// A stored API key of a provider.
#[derive(Debug, Clone)]
pub struct ProviderCredential {
    pub api_key: String,
}

/// A stored HuggingFace token.
#[derive(Debug, Clone)]
pub struct HfCredential {
    pub token: String,
}

/// The credentials saved by `rpx login`.
#[derive(Debug, Clone)]
pub struct Credentials {
    pub runpod: Option<ProviderCredential>,
    pub vastai: Option<ProviderCredential>,
    pub beam: Option<ProviderCredential>,
    pub huggingface: Option<HfCredential>,
}

impl Default for Credentials {
    /// No credential stored.
    fn default() -> (r: Credentials)
        ensures
            r.runpod is None,
            r.vastai is None,
            r.beam is None,
            r.huggingface is None,
    {
        Credentials { runpod: None, vastai: None, beam: None, huggingface: None }
    }
}

impl Credentials {
    /// The stored credential of a provider.
    pub open spec fn credential_of(&self, provider: ProviderKind) -> Option<ProviderCredential> {
        match provider {
            ProviderKind::RunPod => self.runpod,
            ProviderKind::VastAi => self.vastai,
            ProviderKind::Beam => self.beam,
        }
    }

    /// The stored API key of a provider, if any.
    pub fn api_key_for(&self, provider: ProviderKind) -> (r: Option<&str>)
        ensures
            match self.credential_of(provider) {
                Some(c) => r matches Some(k) && k@ == c.api_key@,
                None => r is None,
            },
    {
        let cred = match provider {
            ProviderKind::RunPod => &self.runpod,
            ProviderKind::VastAi => &self.vastai,
            ProviderKind::Beam => &self.beam,
        };
        match cred {
            Some(c) => Some(c.api_key.as_str()),
            None => None,
        }
    }

    /// The environment variable that holds a provider's API key where none
    /// is stored.
    pub open spec fn spec_api_key_env_var(provider: ProviderKind) -> Seq<char> {
        match provider {
            ProviderKind::RunPod => "RUNPOD_API_KEY"@,
            ProviderKind::VastAi => "VASTAI_API_KEY"@,
            ProviderKind::Beam => "BEAM_API_KEY"@,
        }
    }

    /// "RUNPOD_API_KEY", "VASTAI_API_KEY" or "BEAM_API_KEY".
    pub fn api_key_env_var(provider: ProviderKind) -> (r: &'static str)
        ensures
            r@ == Self::spec_api_key_env_var(provider),
    {
        match provider {
            ProviderKind::RunPod => "RUNPOD_API_KEY",
            ProviderKind::VastAi => "VASTAI_API_KEY",
            ProviderKind::Beam => "BEAM_API_KEY",
        }
    }
}

/// An endpoint deployed by `rpx deploy`, as recorded on disk.
#[derive(Debug, Clone)]
pub struct StoredEndpoint {
    pub name: String,
    pub id: String,
    pub provider: String,
    pub model_id: String,
    pub backend: String,
    pub gpu: String,
    pub invocation_url: String,
    pub openai_base_url: Option<String>,
    pub created_at: String,
}

impl StoredEndpoint {
    /// The record of a freshly deployed endpoint.
    pub fn from_endpoint(ep: &Endpoint, model_id: &str, backend: &str) -> (r: StoredEndpoint)
        ensures
            r.name == ep.name,
            r.id == ep.id,
            r.provider@ == ep.provider.spec_name(),
            r.model_id@ == model_id@,
            r.backend@ == backend@,
            r.gpu == ep.gpu_id,
            r.invocation_url == ep.invocation_url,
            r.openai_base_url == ep.openai_base_url,
            r.created_at == ep.created_at,
    {
        let openai_base_url = match &ep.openai_base_url {
            Some(u) => Some(u.clone()),
            None => None,
        };
        StoredEndpoint {
            name: ep.name.clone(),
            id: ep.id.clone(),
            provider: ep.provider.to_string(),
            model_id: crate::text::owned(model_id),
            backend: crate::text::owned(backend),
            gpu: ep.gpu_id.clone(),
            invocation_url: ep.invocation_url.clone(),
            openai_base_url,
            created_at: ep.created_at.clone(),
        }
    }

    /// A copy of the record.
    pub fn duplicate(&self) -> (r: StoredEndpoint)
        ensures
            r == *self,
    {
        let openai_base_url = match &self.openai_base_url {
            Some(u) => Some(u.clone()),
            None => None,
        };
        StoredEndpoint {
            name: self.name.clone(),
            id: self.id.clone(),
            provider: self.provider.clone(),
            model_id: self.model_id.clone(),
            backend: self.backend.clone(),
            gpu: self.gpu.clone(),
            invocation_url: self.invocation_url.clone(),
            openai_base_url,
            created_at: self.created_at.clone(),
        }
    }
}

/// The record is the one a query names, by name or by id.
pub open spec fn named_by(e: StoredEndpoint, query: Seq<char>) -> bool {
    e.name@ == query || e.id@ == query
}

/// Two records stand for the same endpoint: same name or same id.
pub open spec fn same_endpoint(e: StoredEndpoint, other: StoredEndpoint) -> bool {
    e.name@ == other.name@ || e.id@ == other.id@
}

/// `i` is the first position whose record stands for the same endpoint as
/// `other`.
pub open spec fn first_same(s: Seq<StoredEndpoint>, i: int, other: StoredEndpoint) -> bool {
    &&& 0 <= i < s.len()
    &&& same_endpoint(s[i], other)
    &&& forall|j: int| 0 <= j < i ==> !same_endpoint(#[trigger] s[j], other)
}

/// The records of `s` that a query does not name, in order.
pub open spec fn unnamed_by(s: Seq<StoredEndpoint>, query: Seq<char>) -> Seq<StoredEndpoint>
    decreases s.len(),
{
    if s.len() == 0 {
        s
    } else {
        let rest = unnamed_by(s.drop_last(), query);
        if named_by(s.last(), query) {
            rest
        } else {
            rest.push(s.last())
        }
    }
}

proof fn lemma_unnamed_len(s: Seq<StoredEndpoint>, query: Seq<char>)
    ensures
        unnamed_by(s, query).len() <= s.len(),
        unnamed_by(s, query).len() == s.len() <==> forall|i: int|
            0 <= i < s.len() ==> !named_by(#[trigger] s[i], query),
    decreases s.len(),
{
    if s.len() > 0 {
        lemma_unnamed_len(s.drop_last(), query);
        assert forall|i: int| 0 <= i < s.len() - 1 implies #[trigger] s.drop_last()[i] == s[i] by {}
        if unnamed_by(s, query).len() == s.len() {
            assert forall|i: int| 0 <= i < s.len() implies !named_by(#[trigger] s[i], query) by {
                if i < s.len() - 1 {
                    assert(s.drop_last()[i] == s[i]);
                }
            }
        }
        if forall|i: int| 0 <= i < s.len() ==> !named_by(#[trigger] s[i], query) {
            assert(!named_by(s[s.len() - 1], query));
            assert forall|i: int| 0 <= i < s.len() - 1 implies !named_by(
                #[trigger] s.drop_last()[i],
                query,
            ) by {
                assert(s.drop_last()[i] == s[i]);
            }
        }
    }
}

/// The endpoints deployed from this machine.
#[derive(Debug, Clone)]
pub struct EndpointStore {
    pub endpoints: Vec<StoredEndpoint>,
}

impl Default for EndpointStore {
    /// No endpoint.
    fn default() -> (r: EndpointStore)
        ensures
            r.endpoints@.len() == 0,
    {
        EndpointStore { endpoints: Vec::new() }
    }
}

impl EndpointStore {
    /// Records an endpoint: it replaces the first record with the same name
    /// or the same id, or is appended where there is none.
    pub fn upsert(&mut self, endpoint: StoredEndpoint)
        ensures
            forall|i: int|
                first_same(old(self).endpoints@, i, endpoint) ==> final(self).endpoints@
                    == old(self).endpoints@.update(i, endpoint),
            (forall|i: int|
                0 <= i < old(self).endpoints@.len() ==> !same_endpoint(
                    #[trigger] old(self).endpoints@[i],
                    endpoint,
                )) ==> final(self).endpoints@ == old(self).endpoints@.push(endpoint),
    {
        let mut i: usize = 0;
        while i < self.endpoints.len()
            invariant
                i <= self.endpoints@.len(),
                self.endpoints@ == old(self).endpoints@,
                forall|j: int| 0 <= j < i ==> !same_endpoint(#[trigger] self.endpoints@[j], endpoint),
            decreases self.endpoints@.len() - i,
        {
            let hit = str_eq(self.endpoints[i].name.as_str(), endpoint.name.as_str()) || str_eq(
                self.endpoints[i].id.as_str(),
                endpoint.id.as_str(),
            );
            if hit {
                assert(first_same(old(self).endpoints@, i as int, endpoint));
                self.endpoints.set(i, endpoint);
                return;
            }
            i = i + 1;
        }
        self.endpoints.push(endpoint);
    }

    /// The first record whose name or id is `query`.
    pub fn find_by_name_or_id(&self, query: &str) -> (r: Option<&StoredEndpoint>)
        ensures
            match r {
                Some(e) => exists|i: int|
                    0 <= i < self.endpoints@.len() && self.endpoints@[i] == *e && named_by(*e, query@)
                        && forall|j: int|
                        0 <= j < i ==> !named_by(#[trigger] self.endpoints@[j], query@),
                None => forall|i: int|
                    0 <= i < self.endpoints@.len() ==> !named_by(#[trigger] self.endpoints@[i], query@),
            },
    {
        let mut i: usize = 0;
        while i < self.endpoints.len()
            invariant
                i <= self.endpoints@.len(),
                forall|j: int| 0 <= j < i ==> !named_by(#[trigger] self.endpoints@[j], query@),
            decreases self.endpoints@.len() - i,
        {
            if str_eq(self.endpoints[i].name.as_str(), query) || str_eq(
                self.endpoints[i].id.as_str(),
                query,
            ) {
                return Some(&self.endpoints[i]);
            }
            i = i + 1;
        }
        None
    }

    /// Drops every record whose name or id is `query`; true when one was
    /// dropped.
    pub fn remove(&mut self, query: &str) -> (r: bool)
        ensures
            final(self).endpoints@ == unnamed_by(old(self).endpoints@, query@),
            r == exists|i: int|
                0 <= i < old(self).endpoints@.len() && named_by(
                    #[trigger] old(self).endpoints@[i],
                    query@,
                ),
    {
        let ghost s = self.endpoints@;
        let mut kept: Vec<StoredEndpoint> = Vec::new();
        let mut i: usize = 0;
        while i < self.endpoints.len()
            invariant
                i <= s.len(),
                self.endpoints@ == s,
                kept@ == unnamed_by(s.take(i as int), query@),
            decreases s.len() - i,
        {
            assert(s.take(i + 1).drop_last() =~= s.take(i as int));
            assert(s.take(i + 1).last() == s[i as int]);
            let named = str_eq(self.endpoints[i].name.as_str(), query) || str_eq(
                self.endpoints[i].id.as_str(),
                query,
            );
            if !named {
                kept.push(self.endpoints[i].duplicate());
            }
            i = i + 1;
        }
        assert(s.take(s.len() as int) =~= s);
        proof {
            lemma_unnamed_len(s, query@);
        }
        let removed = kept.len() < self.endpoints.len();
        self.endpoints = kept;
        removed
    }
}

/// "1"
pub fn default_version() -> (r: String)
    ensures
        r@ == "1"@,
{
    String::from_str("1")
}

/// "auto"
pub fn default_backend_str() -> (r: String)
    ensures
        r@ == "auto"@,
{
    String::from_str("auto")
}

/// "auto"
pub fn default_auto() -> (r: String)
    ensures
        r@ == "auto"@,
{
    String::from_str("auto")
}

/// One GPU.
pub fn default_gpu_count() -> (r: u8)
    ensures
        r == 1,
{
    1
}

/// Three workers at most.
pub fn default_max_workers() -> (r: u32)
    ensures
        r == 3,
{
    3
}

/// 300 idle seconds before a worker stops.
pub fn default_idle_timeout() -> (r: u32)
    ensures
        r == 300,
{
    300
}


/// A record just upserted is the one a lookup by its name finds (unless
/// an earlier record has that name as its id).
pub proof fn law_upserted_record_is_found(
    before: Seq<StoredEndpoint>,
    after: Seq<StoredEndpoint>,
    e: StoredEndpoint,
)
    requires
        forall|i: int| first_same(before, i, e) ==> after == before.update(i, e),
        (forall|i: int| 0 <= i < before.len() ==> !same_endpoint(#[trigger] before[i], e)) ==> after
            == before.push(e),
        forall|i: int| 0 <= i < before.len() ==> (#[trigger] before[i]).id@ != e.name@,
    ensures
        exists|k: int|
            0 <= k < after.len() && after[k] == e && forall|j: int|
                0 <= j < k ==> !named_by(#[trigger] after[j], e.name@),
{
    if exists|i: int| 0 <= i < before.len() && same_endpoint(#[trigger] before[i], e) {
        let w = choose|i: int| 0 <= i < before.len() && same_endpoint(#[trigger] before[i], e);
        lemma_first_same_exists(before, e, w);
        let k = choose|k: int| first_same(before, k, e);
        assert(after == before.update(k, e));
        assert(after[k] == e);
        assert forall|j: int| 0 <= j < k implies !named_by(#[trigger] after[j], e.name@) by {
            assert(after[j] == before[j]);
            assert(!same_endpoint(before[j], e));
        }
    } else {
        assert(after == before.push(e));
        let k = before.len() as int;
        assert(after[k] == e);
        assert forall|j: int| 0 <= j < k implies !named_by(#[trigger] after[j], e.name@) by {
            assert(after[j] == before[j]);
            assert(!same_endpoint(before[j], e));
        }
    }
}

/// Where some record stands for the same endpoint as `e`, a first one
/// does.
proof fn lemma_first_same_exists(s: Seq<StoredEndpoint>, e: StoredEndpoint, w: int)
    requires
        0 <= w < s.len(),
        same_endpoint(s[w], e),
    ensures
        exists|k: int| first_same(s, k, e),
    decreases w,
{
    if exists|j: int| 0 <= j < w && same_endpoint(#[trigger] s[j], e) {
        let j = choose|j: int| 0 <= j < w && same_endpoint(#[trigger] s[j], e);
        lemma_first_same_exists(s, e, j);
    } else {
        assert(first_same(s, w, e));
    }
}

/// After a removal, no record is named by the query any more.
pub proof fn law_removed_records_are_gone(s: Seq<StoredEndpoint>, query: Seq<char>)
    ensures
        forall|i: int|
            0 <= i < unnamed_by(s, query).len() ==> !named_by(#[trigger] unnamed_by(s, query)[i], query),
    decreases s.len(),
{
    if s.len() > 0 {
        law_removed_records_are_gone(s.drop_last(), query);
        let rest = unnamed_by(s.drop_last(), query);
        if !named_by(s.last(), query) {
            assert forall|i: int| 0 <= i < unnamed_by(s, query).len() implies !named_by(
                #[trigger] unnamed_by(s, query)[i],
                query,
            ) by {
                if i < rest.len() {
                    assert(unnamed_by(s, query)[i] == rest[i]);
                }
            }
        }
    }
}

/// Removal keeps every record the query does not name, in order.
pub proof fn law_removal_keeps_the_others(s: Seq<StoredEndpoint>, query: Seq<char>)
    ensures
        forall|i: int|
            0 <= i < s.len() && !named_by(#[trigger] s[i], query) ==> unnamed_by(s, query).contains(s[i]),
    decreases s.len(),
{
    if s.len() > 0 {
        law_removal_keeps_the_others(s.drop_last(), query);
        let rest = unnamed_by(s.drop_last(), query);
        assert forall|i: int| 0 <= i < s.len() && !named_by(#[trigger] s[i], query) implies unnamed_by(
            s,
            query,
        ).contains(s[i]) by {
            if i < s.len() - 1 {
                assert(s.drop_last()[i] == s[i]);
                let j = choose|j: int| 0 <= j < rest.len() && rest[j] == s[i];
                if named_by(s.last(), query) {
                    assert(unnamed_by(s, query)[j] == s[i]);
                } else {
                    assert(unnamed_by(s, query)[j] == s[i]);
                }
            } else {
                assert(unnamed_by(s, query)[rest.len() as int] == s[i]);
            }
        }
    }
}

impl StoredEndpoint {
    /// The endpoint a record stands for, taken to be a ready RunPod
    /// endpoint; `created_at` is the time given.
    pub fn to_endpoint(&self, created_at: String) -> (r: Endpoint)
        ensures
            r.id == self.id,
            r.name == self.name,
            r.provider == ProviderKind::RunPod,
            r.status == EndpointStatus::Ready,
            r.gpu_id == self.gpu,
            r.invocation_url == self.invocation_url,
            r.openai_base_url == self.openai_base_url,
            r.created_at == created_at,
    {
        let openai_base_url = match &self.openai_base_url {
            Some(u) => Some(u.clone()),
            None => None,
        };
        Endpoint {
            id: self.id.clone(),
            name: self.name.clone(),
            provider: ProviderKind::RunPod,
            status: EndpointStatus::Ready,
            gpu_id: self.gpu.clone(),
            invocation_url: self.invocation_url.clone(),
            openai_base_url,
            created_at,
        }
    }
}

/// The API key to use: the stored one where there is one, else the one
/// the environment holds, if any.
pub fn choose_api_key(stored: Option<&str>, env: Option<String>) -> (r: Option<String>)
    ensures
        match stored {
            Some(k) => r matches Some(t) && t@ == k@,
            None => r == env,
        },
{
    match stored {
        Some(k) => Some(crate::text::owned(k)),
        None => env,
    }
}

} // verus!
