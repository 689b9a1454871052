//! Deploying one model of a fleet: the state transitions around a deploy,
//! and the decisions while waiting for its endpoint to become ready.
use vstd::prelude::*;

use crate::fleet::state::{
    begin_deploy_allowed, begin_deploy_post, deploy_done_allowed,
    deploy_succeeded_post, one_more_failure, FleetState,
};
use crate::fleet::ModelTier;
use crate::provider::types::{Endpoint, EndpointStatus};

verus! {

/// How many seconds (one poll each) a deploy waits for its endpoint.
pub const POLL_ATTEMPTS: u32 = 180;

/// Why deploying a model failed.
#[derive(Debug)]
pub enum DeployError {
    State(String),
    Metadata(String),
    Plan(String),
    Provider(String),
    Timeout(String),
}

impl DeployError {
    pub open spec fn spec_message(&self) -> Seq<char> {
        match self {
            DeployError::State(m) => "state error: "@ + m@,
            DeployError::Metadata(m) => "metadata: "@ + m@,
            DeployError::Plan(m) => "plan: "@ + m@,
            DeployError::Provider(m) => "provider: "@ + m@,
            DeployError::Timeout(m) => "timeout: "@ + m@,
        }
    }

    pub fn to_string(&self) -> (r: String)
        ensures
            r@ == self.spec_message(),
    {
        match self {
            DeployError::State(m) => crate::text::concat2("state error: ", m.as_str()),
            DeployError::Metadata(m) => crate::text::concat2("metadata: ", m.as_str()),
            DeployError::Plan(m) => crate::text::concat2("plan: ", m.as_str()),
            DeployError::Provider(m) => crate::text::concat2("provider: ", m.as_str()),
            DeployError::Timeout(m) => crate::text::concat2("timeout: ", m.as_str()),
        }
    }
}

/// Marks a model as deploying: allowed only from cold; the refusal of the
/// fleet state becomes a state error.
pub fn start_deploy(fleet: &mut FleetState, model_name: &str) -> (r: Result<(), DeployError>)
    requires
        old(fleet).wf(),
    ensures
        final(fleet).wf(),
        r is Ok <==> begin_deploy_allowed(old(fleet)@, model_name@),
        r is Ok ==> begin_deploy_post(old(fleet)@, final(fleet)@, model_name@),
        r is Err ==> final(fleet)@ == old(fleet)@ && r matches Err(DeployError::State(_)),
        final(fleet).failed_deploys() == old(fleet).failed_deploys(),
{
    match fleet.begin_deploy(model_name) {
        Ok(()) => Ok(()),
        Err(e) => Err(DeployError::State(e.to_string())),
    }
}

/// Ends a deploy: with an endpoint the model becomes ready (hot for a hot
/// tier, warm otherwise) and its count of failed deploys starts again from
/// zero; with an error it becomes failed, with the error's message and, as
/// retry count, the number of its deploys that failed before, that number
/// grows by one, and the error is handed back.
pub fn finish_deploy(
    fleet: &mut FleetState,
    model_name: &str,
    outcome: Result<Endpoint, DeployError>,
    tier: ModelTier,
) -> (r: Result<(), DeployError>)
    requires
        old(fleet).wf(),
    ensures
        final(fleet).wf(),
        match outcome {
            Ok(ep) => if deploy_done_allowed(old(fleet)@, model_name@) {
                &&& r is Ok
                &&& deploy_succeeded_post(old(fleet)@, final(fleet)@, model_name@, ep, tier)
                &&& final(fleet).failed_deploys() == old(fleet).failed_deploys().insert(model_name@, 0)
            } else {
                &&& final(fleet)@ == old(fleet)@
                &&& final(fleet).failed_deploys() == old(fleet).failed_deploys()
                &&& r matches Err(DeployError::State(_))
            },
            Err(e) => {
                &&& r matches Err(e2) && e2.spec_message() == e.spec_message()
                &&& if deploy_done_allowed(old(fleet)@, model_name@) {
                    &&& final(fleet)@.contains_key(model_name@)
                    &&& final(fleet)@[model_name@] is Error
                    &&& final(fleet)@[model_name@]->Error_message@ == e.spec_message()
                    &&& final(fleet)@[model_name@]->Error_retry_count
                        == old(fleet).failed_deploys()[model_name@]
                    &&& final(fleet)@ == old(fleet)@.insert(model_name@, final(fleet)@[model_name@])
                    &&& final(fleet).failed_deploys() == old(fleet).failed_deploys().insert(
                        model_name@,
                        one_more_failure(old(fleet).failed_deploys()[model_name@]),
                    )
                } else {
                    &&& final(fleet)@ == old(fleet)@
                    &&& final(fleet).failed_deploys() == old(fleet).failed_deploys()
                }
            },
        },
{
    match outcome {
        Ok(ep) => match fleet.deploy_succeeded(model_name, ep, tier) {
            Ok(()) => Ok(()),
            Err(e) => Err(DeployError::State(e.to_string())),
        },
        Err(e) => {
            let m = e.to_string();
            let _ = fleet.deploy_failed(model_name, m);
            Err(e)
        },
    }
}

/// What a deploy does after one look at its endpoint.
#[derive(Debug)]
pub enum PollStep {
    /// The endpoint is ready.
    Ready(Endpoint),
    /// The deploy failed.
    Fail(DeployError),
    /// Look again in a second.
    Wait,
}

/// The decision after look number `attempt` (from 0) of `max_attempts`:
/// a ready endpoint ends the wait; an endpoint in error fails the deploy;
/// a failed look is retried, except on the last attempt.
pub fn poll_step(attempt: u32, max_attempts: u32, result: Result<Endpoint, String>) -> (r: PollStep)
    requires
        attempt < max_attempts,
    ensures
        match result {
            Ok(ep) => match ep.status {
                EndpointStatus::Ready => r matches PollStep::Ready(e) && e == ep,
                EndpointStatus::Error(_) => r matches PollStep::Fail(DeployError::Provider(m)) && m@
                    == "endpoint entered error state: "@ + ep.status.spec_text(),
                _ => r is Wait,
            },
            Err(msg) => if attempt < max_attempts - 1 {
                r is Wait
            } else {
                r matches PollStep::Fail(DeployError::Provider(m)) && m == msg
            },
        },
{
    match result {
        Ok(ep) => match &ep.status {
            EndpointStatus::Ready => PollStep::Ready(ep),
            EndpointStatus::Error(_) => {
                let s = ep.status.to_string();
                PollStep::Fail(
                    DeployError::Provider(crate::text::concat2("endpoint entered error state: ", s.as_str())),
                )
            },
            _ => PollStep::Wait,
        },
        Err(msg) => {
            if attempt < max_attempts - 1 {
                PollStep::Wait
            } else {
                PollStep::Fail(DeployError::Provider(msg))
            }
        },
    }
}

/// The error when the endpoint did not become ready in time.
pub fn poll_timeout(endpoint_id: &str, max_attempts: u32) -> (r: DeployError)
    ensures
        r matches DeployError::Timeout(m) && m@ == "endpoint "@ + endpoint_id@
            + " did not become ready after "@ + crate::text::decimal(max_attempts as nat) + "s"@,
{
    let mut m = crate::text::concat3("endpoint ", endpoint_id, " did not become ready after ");
    let n = crate::text::u64_to_string(max_attempts as u64);
    m.append(n.as_str());
    m.append("s");
    DeployError::Timeout(m)
}

} // verus!
