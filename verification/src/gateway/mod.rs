//! The multi-model gateway: API keys, routing of requests to models, and
//! spend tracking, with the decisions its HTTP layer takes on each request.
pub mod auth;
pub mod router;
pub mod spend;

use vstd::prelude::*;

use crate::external::sat_sub;
use crate::fleet::state::{FleetState, ModelState};
use crate::fleet::{display_names, spec_display_name, FleetConfig};
use crate::json::{str_member, Json, JsonNumber};
use crate::text::{has_prefix, starts_with, str_eq, strip_prefix};
use auth::{admits, has_key, key_pos, tokens_after, AuthError, AuthLayer};
use router::{error_body, error_json};
use spend::SpendTracker;

verus! {

/// Why the gateway stopped.
#[derive(Debug)]
pub enum GatewayError {
    Config(String),
    /// The port could not be bound; the message of the system error.
    Bind { message: String, port: u16 },
    Serve(String),
}

impl GatewayError {
    pub open spec fn spec_message(&self) -> Seq<char> {
        match self {
            GatewayError::Config(m) => "config error: "@ + m@,
            GatewayError::Bind { message, port } => "failed to bind to port "@ + crate::text::decimal(
                *port as nat,
            ) + ": "@ + message@,
            GatewayError::Serve(m) => "gateway error: "@ + m@,
        }
    }

    pub fn to_string(&self) -> (r: String)
        ensures
            r@ == self.spec_message(),
    {
        match self {
            GatewayError::Config(m) => crate::text::concat2("config error: ", m.as_str()),
            GatewayError::Bind { message, port } => {
                let mut r = String::from_str("failed to bind to port ");
                let p = crate::text::u64_to_string(*port as u64);
                r.append(p.as_str());
                r.append(": ");
                r.append(message.as_str());
                r
            },
            GatewayError::Serve(m) => crate::text::concat2("gateway error: ", m.as_str()),
        }
    }
}

/// What the gateway's auth layer does with a request.
#[derive(Debug)]
pub enum AuthDecision {
    /// Let the request through without a key (open gateway, or a
    /// management path).
    Pass,
    /// Let the request through on behalf of the named key.
    PassAs(String),
    /// Answer with this status and JSON body.
    Reject { status: u16, body: String },
}

/// Paths that need no key: the health check and the management API.
pub open spec fn is_management_path(path: Seq<char>) -> bool {
    path == "/health"@ || has_prefix(path, "/v1/rpx/"@)
}

/// The spend of a key as the budget check reads it, capped at the largest
/// `u64`.
pub open spec fn spend_for_budget(cost: u128) -> u64 {
    if cost <= u64::MAX {
        cost as u64
    } else {
        u64::MAX
    }
}

/// Decides whether a request may pass the gateway: everything passes an
/// open gateway (no key configured) and the management paths; other
/// requests need `Authorization: Bearer <key>` with a known key that is
/// within its rate limit (one request is taken from it) and, where its
/// spending is tracked, within its budget.
pub fn authorize(
    auth: &mut AuthLayer,
    path: &str,
    authorization: Option<&str>,
    spend: &SpendTracker,
) -> (r: AuthDecision)
    requires
        old(auth).wf(),
        spend.wf(),
    ensures
        final(auth).wf(),
        ({
            let pre = old(auth).states();
            let post = final(auth).states();
            if pre.len() == 0 || is_management_path(path@) {
                r is Pass && post == pre
            } else if !(authorization matches Some(h) && has_prefix(h@, "Bearer "@)) {
                &&& post == pre
                &&& r matches AuthDecision::Reject { status, body }
                &&& status == 401
                &&& body@ == error_body("missing Authorization header"@, "auth_error"@)
            } else {
                let key = authorization->0@.skip(7);
                if !has_key(pre, key) {
                    &&& post == pre
                    &&& r matches AuthDecision::Reject { status, body }
                    &&& status == 401
                    &&& body@ == error_body(AuthError::InvalidKey.spec_message(), "auth_error"@)
                } else {
                    let p = key_pos(pre, key);
                    let st = pre[p];
                    &&& post.len() == pre.len()
                    &&& forall|q: int| 0 <= q < pre.len() && q != p ==> #[trigger] post[q] == pre[q]
                    &&& post[p].entry == st.entry
                    &&& exists|now: u128|
                        {
                            let e = #[trigger] sat_sub(now, st.bucket.last_refill) as nat;
                            &&& post[p].bucket.last_refill == now
                            &&& post[p].bucket.tokens == tokens_after(
                                st.bucket.tokens as nat,
                                st.bucket.rpm as nat,
                                e,
                            )
                            &&& if !admits(st.bucket.tokens as nat, st.bucket.rpm as nat, e) {
                                r matches AuthDecision::Reject { status, body } && status == 429
                                    && body@ == error_body(
                                    AuthError::RateLimited.spec_message(),
                                    "auth_error"@,
                                )
                            } else {
                                let name = st.entry.name@;
                                let budget = st.entry.budget_pico;
                                if spend@.contains_key(name) && budget is Some && spend_for_budget(
                                    spend@[name].estimated_cost_pico,
                                ) >= budget->0 {
                                    &&& r matches AuthDecision::Reject { status, body }
                                    &&& status == 402
                                    &&& body@ == error_body(
                                        AuthError::BudgetExceeded {
                                            spent: spend_for_budget(spend@[name].estimated_cost_pico),
                                            budget: budget->0,
                                        }.spec_message(),
                                        "budget_exceeded"@,
                                    )
                                } else {
                                    r matches AuthDecision::PassAs(n) && n@ == name
                                }
                            }
                        }
                }
            }
        }),
{
    if auth.is_open() {
        return AuthDecision::Pass;
    }
    if str_eq(path, "/health") || starts_with(path, "/v1/rpx/") {
        return AuthDecision::Pass;
    }
    let key = match authorization {
        Some(h) => match strip_prefix(h, "Bearer ") {
            Some(k) => k,
            None => {
                return AuthDecision::Reject {
                    status: 401,
                    body: error_json("missing Authorization header", "auth_error"),
                };
            },
        },
        None => {
            return AuthDecision::Reject {
                status: 401,
                body: error_json("missing Authorization header", "auth_error"),
            };
        },
    };
    proof {
        reveal_strlit("Bearer ");
    }
    let name = match auth.validate(key.as_str()) {
        Ok(name) => name,
        Err(e) => {
            let status: u16 = match e {
                AuthError::InvalidKey => 401,
                AuthError::RateLimited => 429,
                AuthError::BudgetExceeded { .. } => 402,
            };
            let m = e.to_string();
            return AuthDecision::Reject { status, body: error_json(m.as_str(), "auth_error") };
        },
    };
    match spend.get(name.as_str()) {
        Some(record) => {
            let cost = record.estimated_cost_pico;
            let spent: u64 = if cost <= u64::MAX as u128 {
                cost as u64
            } else {
                u64::MAX
            };
            match auth.check_budget(key.as_str(), spent) {
                Ok(()) => {},
                Err(e) => {
                    let m = e.to_string();
                    return AuthDecision::Reject {
                        status: 402,
                        body: error_json(m.as_str(), "budget_exceeded"),
                    };
                },
            }
        },
        None => {},
    }
    AuthDecision::PassAs(name)
}

/// The model a completion request names: the text of its "model" member.
/// A body without a "model" string is refused with 400.
pub fn requested_model(body: &Json) -> (r: Result<String, (u16, String)>)
    ensures
        match body.spec_get("model"@) {
            Some(v) => match v.spec_as_str() {
                Some(m) => r matches Ok(t) && t@ == m,
                None => r matches Err((status, b)) && status == 400 && b@ == error_body(
                    "missing 'model' field"@,
                    "invalid_request"@,
                ),
            },
            None => r matches Err((status, b)) && status == 400 && b@ == error_body(
                "missing 'model' field"@,
                "invalid_request"@,
            ),
        },
{
    match body.get("model") {
        Some(v) => match v.as_str() {
            Some(m) => Ok(crate::text::owned(m)),
            None => Err((400, error_json("missing 'model' field", "invalid_request"))),
        },
        None => Err((400, error_json("missing 'model' field", "invalid_request"))),
    }
}

/// The models the gateway serves, as an OpenAI model list.
pub fn list_models(config: &FleetConfig) -> (r: Json)
    ensures
        crate::json::is_model_list(r, display_names(config.models@)),
{
    let names = config.model_names();
    crate::json::model_list_of(&names)
}

/// One model of the fleet status: its name, model id, tier, state, and the
/// id of its endpoint (null when it has none); the state is "unknown" for a
/// model the fleet does not track.
pub open spec fn is_status_entry(
    j: Json,
    name: Seq<char>,
    model_id: Seq<char>,
    tier: Seq<char>,
    st: Option<ModelState>,
) -> bool {
    &&& j matches Json::Object(fs)
    &&& fs@.len() == 5
    &&& crate::json::str_field(fs@[0], "name"@, name)
    &&& crate::json::str_field(fs@[1], "model_id"@, model_id)
    &&& crate::json::str_field(fs@[2], "tier"@, tier)
    &&& crate::json::str_field(
        fs@[3],
        "status"@,
        match st {
            Some(s) => s.spec_status(),
            None => "unknown"@,
        },
    )
    &&& fs@[4].0@ == "endpoint_id"@
    &&& match st {
        Some(s) => match s.spec_endpoint() {
            Some(e) => fs@[4].1.spec_as_str() == Some(e.id@),
            None => fs@[4].1 is Null,
        },
        None => fs@[4].1 is Null,
    }
}

/// The fleet status: `{"object": "fleet_status", "models": [...]}`, one
/// entry per configured model, in order.
pub fn fleet_status(config: &FleetConfig, fleet: &FleetState) -> (r: Json)
    requires
        fleet.wf(),
    ensures
        ({
            &&& r matches Json::Object(fs)
            &&& fs@.len() == 2
            &&& crate::json::str_field(fs@[0], "object"@, "fleet_status"@)
            &&& fs@[1].0@ == "models"@
            &&& fs@[1].1 matches Json::Array(items)
            &&& items@.len() == config.models@.len()
            &&& forall|i: int|
                0 <= i < items@.len() ==> {
                    let m = config.models@[i];
                    let name = spec_display_name(m);
                    is_status_entry(
                        #[trigger] items@[i],
                        name,
                        m.id@,
                        m.tier.spec_name(),
                        if fleet@.contains_key(name) {
                            Some(fleet@[name])
                        } else {
                            None
                        },
                    )
                }
        }),
{
    let mut items: Vec<Json> = Vec::new();
    let mut i: usize = 0;
    while i < config.models.len()
        invariant
            i <= config.models@.len(),
            fleet.wf(),
            items@.len() == i,
            forall|j: int|
                0 <= j < i ==> {
                    let m = config.models@[j];
                    let name = spec_display_name(m);
                    is_status_entry(
                        #[trigger] items@[j],
                        name,
                        m.id@,
                        m.tier.spec_name(),
                        if fleet@.contains_key(name) {
                            Some(fleet@[name])
                        } else {
                            None
                        },
                    )
                },
        decreases config.models@.len() - i,
    {
        let entry = &config.models[i];
        let name = entry.display_name();
        let tier = entry.tier.to_string();
        let (status, endpoint_id) = match fleet.get(name.as_str()) {
            Some(s) => {
                let id = match s.endpoint() {
                    Some(e) => Json::string(e.id.as_str()),
                    None => Json::Null,
                };
                (s.status_str(), id)
            },
            None => ("unknown", Json::Null),
        };
        let mut fs: Vec<(String, Json)> = Vec::new();
        fs.push(str_member("name", name.as_str()));
        fs.push(str_member("model_id", entry.id.as_str()));
        fs.push(str_member("tier", tier.as_str()));
        fs.push(str_member("status", status));
        fs.push((String::from_str("endpoint_id"), endpoint_id));
        items.push(Json::Object(fs));
        i = i + 1;
    }
    let mut out: Vec<(String, Json)> = Vec::new();
    out.push(str_member("object", "fleet_status"));
    out.push((String::from_str("models"), Json::Array(items)));
    Json::Object(out)
}

} // verus!
