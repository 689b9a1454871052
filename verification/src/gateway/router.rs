//! Routing of gateway requests: from the model name a client asks for, to
//! what the gateway does with the request, and the error answers it gives.
use vstd::prelude::*;

use crate::fleet::state::{FleetState, ModelState};
use crate::fleet::{display_names, FleetConfig};
use crate::provider::types::Endpoint;
use crate::text::{decimal, str_eq, u64_to_string};

verus! {

/// The JSON error body `{"error":{"message":…,"type":…}}`.
pub open spec fn error_body(message: Seq<char>, kind: Seq<char>) -> Seq<char> {
    "{\"error\":{\"message\":\""@ + message + "\",\"type\":\""@ + kind + "\"}}"@
}

/// The JSON error body with a retry hint, in seconds:
/// `{"error":{"message":…,"type":…},"retry_after":…}`.
pub open spec fn error_body_retry(message: Seq<char>, kind: Seq<char>, retry_after: Seq<char>) -> Seq<
    char,
> {
    "{\"error\":{\"message\":\""@ + message + "\",\"type\":\""@ + kind + "\"},\"retry_after\":"@
        + retry_after + "}"@
}

/// Builds `error_body(message, kind)`.
pub fn error_json(message: &str, kind: &str) -> (r: String)
    ensures
        r@ == error_body(message@, kind@),
{
    let mut r = String::from_str("{\"error\":{\"message\":\"");
    r.append(message);
    r.append("\",\"type\":\"");
    r.append(kind);
    r.append("\"}}");
    r
}

/// Builds `error_body_retry(message, kind, retry_after)`.
pub fn error_json_retry(message: &str, kind: &str, retry_after: &str) -> (r: String)
    ensures
        r@ == error_body_retry(message@, kind@, retry_after@),
{
    let mut r = String::from_str("{\"error\":{\"message\":\"");
    r.append(message);
    r.append("\",\"type\":\"");
    r.append(kind);
    r.append("\"},\"retry_after\":");
    r.append(retry_after);
    r.append("}");
    r
}

/// `model '<alias>'<rest>`
pub open spec fn about_model(alias: Seq<char>, rest: Seq<char>) -> Seq<char> {
    "model '"@ + alias + "'"@ + rest
}

fn model_message(alias: &str, rest: &str) -> (r: String)
    ensures
        r@ == about_model(alias@, rest@),
{
    let mut r = String::from_str("model '");
    r.append(alias);
    r.append("'");
    r.append(rest);
    r
}

/// `i` is the last position whose name is `alias`.
pub open spec fn last_named(names: Seq<Seq<char>>, alias: Seq<char>, i: int) -> bool {
    &&& 0 <= i < names.len()
    &&& names[i] == alias
    &&& forall|j: int| i < j < names.len() ==> #[trigger] names[j] != alias
}

/// Finds the model a client names.
pub struct ModelRouter {
    alias_to_index: Vec<(String, usize)>,
}

impl ModelRouter {
    /// The served names, by model position.
    pub closed spec fn names(&self) -> Seq<Seq<char>> {
        self.alias_to_index@.map_values(|e: (String, usize)| e.0@)
    }

    pub closed spec fn wf(&self) -> bool {
        forall|i: int| 0 <= i < self.alias_to_index@.len() ==> #[trigger] self.alias_to_index@[i].1 == i
    }

    /// A router for the models of a fleet, under their display names.
    pub fn new(config: &FleetConfig) -> (r: ModelRouter)
        ensures
            r.wf(),
            r.names() == display_names(config.models@),
    {
        let m = config.alias_map();
        assert forall|i: int| 0 <= i < m@.len() implies #[trigger] m@[i].1 == i by {
            assert(m@[i].0@ == display_names(config.models@)[i]);
        }
        let r = ModelRouter { alias_to_index: m };
        assert forall|i: int| 0 <= i < m@.len() implies #[trigger] r.names()[i] == display_names(config.models@)[i] by {
            assert(m@[i].0@ == display_names(config.models@)[i]);
        }
        assert(r.names() =~= display_names(config.models@));
        r
    }

    /// The position of the model served under `alias`; where two models
    /// share the name, the later one.
    pub fn resolve_model(&self, alias: &str) -> (r: Option<usize>)
        requires
            self.wf(),
        ensures
            match r {
                Some(i) => last_named(self.names(), alias@, i as int),
                None => forall|j: int| 0 <= j < self.names().len() ==> #[trigger] self.names()[j] != alias@,
            },
    {
        let mut i: usize = self.alias_to_index.len();
        while i > 0
            invariant
                i <= self.alias_to_index@.len(),
                self.wf(),
                forall|j: int|
                    i <= j < self.alias_to_index@.len() ==> #[trigger] self.names()[j] != alias@,
            decreases i,
        {
            let k = i - 1;
            if str_eq(self.alias_to_index[k].0.as_str(), alias) {
                assert(self.names()[k as int] == alias@);
                return Some(self.alias_to_index[k].1);
            }
            assert(self.names()[k as int] != alias@);
            i = k;
        }
        None
    }
}

/// What the gateway does with a request for a model.
#[derive(Debug)]
pub enum Route {
    /// The model is ready: send the request to its endpoint.
    Invoke(Endpoint),
    /// The model is cold: deploy it and hold the request in its queue.
    DeployAndQueue,
    /// The model is cold and has no queue: deploy it, and answer 503 with
    /// the body.
    DeployAndRefuse(String),
    /// The model is deploying: hold the request in its queue.
    Queue,
    /// Answer with this status and JSON body.
    Reject { status: u16, body: String },
}

/// What `route` does with a request for `alias`.
pub open spec fn route_ok(
    r: Route,
    names: Seq<Seq<char>>,
    fleet: Map<Seq<char>, ModelState>,
    alias: Seq<char>,
    has_manager: bool,
    has_queue: bool,
) -> bool {
    if forall|j: int| 0 <= j < names.len() ==> #[trigger] names[j] != alias {
        r matches Route::Reject { status, body } && status == 404 && body@ == error_body(
            about_model(alias, " not found"@),
            "model_not_found"@,
        )
    } else if !fleet.contains_key(alias) {
        r matches Route::Reject { status, body } && status == 500 && body@ == error_body(
            "model state missing"@,
            "internal_error"@,
        )
    } else {
        match fleet[alias] {
            ModelState::Warm { endpoint, .. } => r matches Route::Invoke(e) && e == endpoint,
            ModelState::Hot { endpoint, .. } => r matches Route::Invoke(e) && e == endpoint,
            ModelState::Cold => if !has_manager {
                r matches Route::Reject { status, body } && status == 503 && body@ == error_body(
                    about_model(alias, " is cold and no orchestrator configured"@),
                    "model_cold"@,
                )
            } else if has_queue {
                r is DeployAndQueue
            } else {
                r matches Route::DeployAndRefuse(body) && body@ == error_body_retry(
                    about_model(alias, " is cold — deploying"@),
                    "model_cold"@,
                    "30"@,
                )
            },
            ModelState::Deploying { .. } => if has_queue {
                r is Queue
            } else {
                r matches Route::Reject { status, body } && status == 503 && body@
                    == error_body_retry(
                    about_model(alias, " is deploying"@),
                    "model_deploying"@,
                    "15"@,
                )
            },
            ModelState::Error { .. } => r matches Route::Reject { status, body } && status == 503
                && body@ == error_body(about_model(alias, " is in error state"@), "model_error"@),
        }
    }
}

impl ModelRouter {
    /// Decides what to do with a request for `model_alias`: unknown names
    /// get 404; a ready model is invoked; a cold one is deployed (when an
    /// orchestrator runs) with the request held in its queue; a deploying
    /// one holds the request in its queue; a failed one gets 503.
    pub fn route(&self, model_alias: &str, fleet: &FleetState, has_manager: bool, has_queue: bool) -> (r:
        Route)
        requires
            self.wf(),
            fleet.wf(),
        ensures
            route_ok(r, self.names(), fleet@, model_alias@, has_manager, has_queue),
    {
        if self.resolve_model(model_alias).is_none() {
            let m = model_message(model_alias, " not found");
            return Route::Reject { status: 404, body: error_json(m.as_str(), "model_not_found") };
        }
        let state = match fleet.get(model_alias) {
            Some(s) => s,
            None => {
                return Route::Reject {
                    status: 500,
                    body: error_json("model state missing", "internal_error"),
                };
            },
        };
        match state {
            ModelState::Warm { endpoint, .. } => Route::Invoke(endpoint.duplicate()),
            ModelState::Hot { endpoint, .. } => Route::Invoke(endpoint.duplicate()),
            ModelState::Cold => {
                if !has_manager {
                    let m = model_message(model_alias, " is cold and no orchestrator configured");
                    Route::Reject { status: 503, body: error_json(m.as_str(), "model_cold") }
                } else if has_queue {
                    Route::DeployAndQueue
                } else {
                    let m = model_message(model_alias, " is cold — deploying");
                    Route::DeployAndRefuse(error_json_retry(m.as_str(), "model_cold", "30"))
                }
            },
            ModelState::Deploying { .. } => {
                if has_queue {
                    Route::Queue
                } else {
                    let m = model_message(model_alias, " is deploying");
                    Route::Reject {
                        status: 503,
                        body: error_json_retry(m.as_str(), "model_deploying", "15"),
                    }
                }
            },
            ModelState::Error { .. } => {
                let m = model_message(model_alias, " is in error state");
                Route::Reject { status: 503, body: error_json(m.as_str(), "model_error") }
            },
        }
    }
}

/// How waiting in a deploy queue ended.
#[derive(Debug)]
pub enum QueueWait {
    /// The queue was full; the request was not held.
    Full,
    /// The provider answered.
    Answered,
    /// The provider failed with this message.
    ProviderFailed(String),
    /// The deploy finished but nobody answered.
    ChannelDropped,
    /// No answer came within the queue's time limit.
    TimedOut,
}

/// The error answer for how a held request ended, for a model that was
/// cold (`cold`) or already deploying; `None` when the provider answered.
pub open spec fn queue_reply_ok(
    r: Option<(u16, String)>,
    outcome: QueueWait,
    alias: Seq<char>,
    cold: bool,
    timeout_secs: nat,
) -> bool {
    match outcome {
        QueueWait::Answered => r is None,
        QueueWait::Full => r matches Some((status, body)) && status == 503 && body@ == if cold {
            error_body_retry(about_model(alias, " deploy queue full"@), "queue_full"@, "30"@)
        } else {
            error_body_retry("deploy queue full"@, "queue_full"@, "15"@)
        },
        QueueWait::ProviderFailed(m) => r matches Some((status, body)) && status == 502 && body@
            == error_body(m@, "provider_error"@),
        QueueWait::ChannelDropped => r matches Some((status, body)) && status == 503 && body@
            == error_body(
            if cold {
                "deploy completed but response channel dropped"@
            } else {
                "response channel dropped"@
            },
            "internal_error"@,
        ),
        QueueWait::TimedOut => r matches Some((status, body)) && status == 504 && body@ == if cold {
            error_body_retry(
                about_model(alias, " deploy timed out after "@ + decimal(timeout_secs) + "s"@),
                "deploy_timeout"@,
                "30"@,
            )
        } else {
            error_body_retry(about_model(alias, " deploy timed out"@), "deploy_timeout"@, "15"@)
        },
    }
}

/// The answer for a request held in a deploy queue (see `queue_reply_ok`).
pub fn queue_reply(outcome: &QueueWait, model_alias: &str, cold: bool, timeout_secs: u64) -> (r:
    Option<(u16, String)>)
    ensures
        queue_reply_ok(r, *outcome, model_alias@, cold, timeout_secs as nat),
{
    match outcome {
        QueueWait::Answered => None,
        QueueWait::Full => {
            if cold {
                let m = model_message(model_alias, " deploy queue full");
                Some((503, error_json_retry(m.as_str(), "queue_full", "30")))
            } else {
                Some((503, error_json_retry("deploy queue full", "queue_full", "15")))
            }
        },
        QueueWait::ProviderFailed(m) => Some((502, error_json(m.as_str(), "provider_error"))),
        QueueWait::ChannelDropped => {
            if cold {
                Some(
                    (
                        503,
                        error_json("deploy completed but response channel dropped", "internal_error"),
                    ),
                )
            } else {
                Some((503, error_json("response channel dropped", "internal_error")))
            }
        },
        QueueWait::TimedOut => {
            if cold {
                let mut rest = String::from_str(" deploy timed out after ");
                let t = u64_to_string(timeout_secs);
                rest.append(t.as_str());
                rest.append("s");
                let m = model_message(model_alias, rest.as_str());
                Some((504, error_json_retry(m.as_str(), "deploy_timeout", "30")))
            } else {
                let m = model_message(model_alias, " deploy timed out");
                Some((504, error_json_retry(m.as_str(), "deploy_timeout", "15")))
            }
        },
    }
}

/// The answer when the provider fails a request: 502 with the provider's
/// message.
pub fn provider_error_reply(message: &str) -> (r: (u16, String))
    ensures
        r.0 == 502,
        r.1@ == error_body(message@, "provider_error"@),
{
    (502, error_json(message, "provider_error"))
}


/// A ready model is invoked on its endpoint: after a successful deploy,
/// requests go to the new endpoint.
pub proof fn law_ready_model_is_invoked(
    r: Route,
    names: Seq<Seq<char>>,
    fleet: Map<Seq<char>, ModelState>,
    alias: Seq<char>,
    has_manager: bool,
    has_queue: bool,
    endpoint: Endpoint,
    tier: crate::fleet::ModelTier,
)
    requires
        route_ok(r, names, fleet, alias, has_manager, has_queue),
        exists|j: int| 0 <= j < names.len() && names[j] == alias,
        fleet.contains_key(alias),
        crate::fleet::state::ready_with(fleet[alias], endpoint, tier),
    ensures
        r matches Route::Invoke(e) && e == endpoint,
{
}

/// A failed model is refused with 503, whatever else holds.
pub proof fn law_failed_model_is_refused(
    r: Route,
    names: Seq<Seq<char>>,
    fleet: Map<Seq<char>, ModelState>,
    alias: Seq<char>,
    has_manager: bool,
    has_queue: bool,
)
    requires
        route_ok(r, names, fleet, alias, has_manager, has_queue),
        exists|j: int| 0 <= j < names.len() && names[j] == alias,
        fleet.contains_key(alias),
        fleet[alias] is Error,
    ensures
        r matches Route::Reject { status, .. } && status == 503,
{
}

/// A cold model is deployed on demand while an orchestrator runs; with a
/// queue the request waits for it.
pub proof fn law_cold_model_is_deployed_on_demand(
    r: Route,
    names: Seq<Seq<char>>,
    fleet: Map<Seq<char>, ModelState>,
    alias: Seq<char>,
    has_queue: bool,
)
    requires
        route_ok(r, names, fleet, alias, true, has_queue),
        exists|j: int| 0 <= j < names.len() && names[j] == alias,
        fleet.contains_key(alias),
        fleet[alias] is Cold,
    ensures
        r is DeployAndQueue || r is DeployAndRefuse,
        has_queue ==> r is DeployAndQueue,
{
}

/// In a configuration that validates, every model is found under its own
/// name at its own position.
pub proof fn law_valid_config_routes_each_model(models: Seq<crate::fleet::ModelEntry>, i: int)
    requires
        crate::fleet::spec_validate(models) is Ok,
        0 <= i < models.len(),
    ensures
        last_named(display_names(models), display_names(models)[i], i),
{
    let names = display_names(models);
    assert forall|j: int| i < j < names.len() implies #[trigger] names[j] != names[i] by {
        if names[j] == names[i] {
            assert(crate::fleet::duplicate_at(names, j));
        }
    }
}

} // verus!
