//! Invoking a RunPod endpoint: synchronously (`runsync`), or as a job
//! whose output is polled as a stream.
use vstd::prelude::*;

use crate::json::{member, Json};
use crate::provider::types::ProviderError;
use crate::text::str_eq;

verus! {

/// Where the polling of a streamed job stands.
#[derive(Debug, Clone, Copy, PartialEq, Eq, Structural)]
pub enum StreamState {
    Polling,
    Done,
}

/// The state after a poll: done once the job has completed or the poll
/// failed; polling on otherwise.
pub fn next_state(completed: bool, failed: bool) -> (r: StreamState)
    ensures
        r == if completed || failed {
            StreamState::Done
        } else {
            StreamState::Polling
        },
{
    if completed || failed {
        StreamState::Done
    } else {
        StreamState::Polling
    }
}

/// `https://api.runpod.ai/v2/<id>/<path>`.
pub fn invocation_url(endpoint_id: &str, path: &str) -> (r: String)
    ensures
        r@ == "https://api.runpod.ai/v2/"@ + endpoint_id@ + "/"@ + path@,
{
    let mut r = crate::text::concat3("https://api.runpod.ai/v2/", endpoint_id, "/");
    r.append(path);
    r
}

/// The body RunPod runs: `{"input": body}`.
pub fn input_body(body: Json) -> (r: Json)
    ensures
        r matches Json::Object(fs) && fs@.len() == 1 && fs@[0].0@ == "input"@ && fs@[0].1 == body,
{
    let mut fs: Vec<(String, Json)> = Vec::new();
    fs.push((String::from_str("input"), body));
    Json::Object(fs)
}

/// The answer of a synchronous run: RunPod wraps it as
/// `{"id": …, "status": …, "output": …}`; the output is the answer, and a
/// result without an output member is the answer itself.
pub fn runsync_output(result: Json) -> (r: Json)
    ensures
        match result.spec_get("output"@) {
            Some(o) => r == o,
            None => r == result,
        },
{
    let present = match result.get("output") {
        Some(_) => true,
        None => false,
    };
    if !present {
        return result;
    }
    let ghost whole = result;
    match result {
        Json::Object(fs) => {
            let ghost f0 = fs@;
            let mut fs = fs;
            let mut i: usize = 0;
            assert(f0.skip(0) =~= f0);
            while i < fs.len()
                invariant
                    i <= fs@.len(),
                    fs@ == f0,
                    whole == result,
                    whole.spec_get("output"@) == member(f0, "output"@),
                    member(f0, "output"@) is Some,
                    member(f0, "output"@) == member(f0.skip(i as int), "output"@),
                decreases fs@.len() - i,
            {
                let ghost rest = f0.skip(i as int);
                assert(rest.drop_first() =~= f0.skip(i + 1));
                assert(rest[0] == f0[i as int]);
                if str_eq(fs[i].0.as_str(), "output") {
                    let (_, v) = fs.remove(i);
                    assert(member(rest, "output"@) == Some(rest[0].1));
                    return v;
                }
                i = i + 1;
            }
            assert(f0.skip(f0.len() as int) =~= Seq::<(String, Json)>::empty());
            Json::Null
        },
        other => other,
    }
}

/// The job id of a `run` answer: its "id" string; an answer without one is
/// an error.
pub fn job_id(run_result: &Json) -> (r: Result<String, ProviderError>)
    ensures
        match run_result.spec_get("id"@) {
            Some(v) => match v.spec_as_str() {
                Some(s) => r matches Ok(t) && t@ == s,
                None => r matches Err(ProviderError::Other(m)) && m@ == "missing job id in run response"@,
            },
            None => r matches Err(ProviderError::Other(m)) && m@ == "missing job id in run response"@,
        },
{
    match run_result.get("id") {
        Some(v) => match v.as_str() {
            Some(s) => Ok(crate::text::owned(s)),
            None => Err(ProviderError::Other(String::from_str("missing job id in run response"))),
        },
        None => Err(ProviderError::Other(String::from_str("missing job id in run response"))),
    }
}

/// A stream poll reports the job as completed: its "status" is
/// "COMPLETED".
pub open spec fn spec_completed(body: Json) -> bool {
    body.spec_get("status"@) matches Some(v) && v.spec_as_str() == Some("COMPLETED"@)
}

/// Whether a stream poll reports the job as completed.
pub fn stream_completed(body: &Json) -> (r: bool)
    ensures
        r == spec_completed(*body),
{
    match body.get("status") {
        Some(v) => match v.as_str() {
            Some(s) => str_eq(s, "COMPLETED"),
            None => false,
        },
        None => false,
    }
}

/// The SSE text of a batch of chunks: `data: <chunk>` and a blank line for
/// each, in order.
pub open spec fn framed(chunks: Seq<Seq<char>>) -> Seq<char>
    decreases chunks.len(),
{
    if chunks.len() == 0 {
        Seq::empty()
    } else {
        framed(chunks.drop_last()) + "data: "@ + chunks.last() + "\n\n"@
    }
}

/// Frames a batch of stream chunks as server-sent events.
pub fn frame_chunks(chunks: &Vec<String>) -> (r: String)
    ensures
        r@ == framed(chunks@.map_values(|c: String| c@)),
{
    let ghost cs = chunks@.map_values(|c: String| c@);
    let mut r = String::new();
    let mut i: usize = 0;
    while i < chunks.len()
        invariant
            i <= chunks@.len(),
            cs == chunks@.map_values(|c: String| c@),
            r@ == framed(cs.take(i as int)),
        decreases chunks@.len() - i,
    {
        assert(cs.take(i + 1).drop_last() =~= cs.take(i as int));
        assert(cs.take(i + 1).last() == chunks@[i as int]@);
        r.append("data: ");
        r.append(chunks[i].as_str());
        r.append("\n\n");
        i = i + 1;
    }
    assert(cs.take(chunks@.len() as int) =~= cs);
    r
}

} // verus!
