//! The single-endpoint OpenAI proxy: what it answers on its own, and how it
//! reads a streamed answer when the caller wanted a complete one.
pub mod streaming;
pub mod translator;

use vstd::prelude::*;

use crate::json::Json;
use streaming::{parse_sse_line, spec_parse_sse_line};

verus! {

/// Why the proxy stopped.
#[derive(Debug)]
pub enum ProxyError {
    /// The port could not be bound; the message of the system error.
    Bind { message: String, port: u16 },
    /// The server failed while running.
    Serve(String),
}

impl ProxyError {
    pub open spec fn spec_message(&self) -> Seq<char> {
        match self {
            ProxyError::Bind { message, port } => "failed to bind to port "@ + crate::text::decimal(
                *port as nat,
            ) + ": "@ + message@,
            ProxyError::Serve(m) => "proxy server error: "@ + m@,
        }
    }

    pub fn to_string(&self) -> (r: String)
        ensures
            r@ == self.spec_message(),
    {
        match self {
            ProxyError::Bind { message, port } => {
                let mut r = String::from_str("failed to bind to port ");
                let p = crate::text::u64_to_string(*port as u64);
                r.append(p.as_str());
                r.append(": ");
                r.append(message.as_str());
                r
            },
            ProxyError::Serve(m) => crate::text::concat2("proxy server error: ", m.as_str()),
        }
    }
}

/// The payload of the last data line among `lines`, or the empty text
/// where none has one.
pub open spec fn last_payload(lines: Seq<Seq<char>>) -> Seq<char>
    decreases lines.len(),
{
    if lines.len() == 0 {
        Seq::empty()
    } else {
        match spec_parse_sse_line(lines.last()) {
            Some(d) => d,
            None => last_payload(lines.drop_last()),
        }
    }
}

/// Reads the lines of a streamed answer and keeps the payload of the last
/// data line: the complete answer when the caller did not ask for a stream.
pub fn last_sse_payload(lines: &Vec<String>) -> (r: String)
    ensures
        r@ == last_payload(lines@.map_values(|l: String| l@)),
{
    let ghost ls = lines@.map_values(|l: String| l@);
    let mut collected = String::new();
    let mut i: usize = 0;
    while i < lines.len()
        invariant
            i <= lines@.len(),
            ls == lines@.map_values(|l: String| l@),
            collected@ == last_payload(ls.take(i as int)),
        decreases lines@.len() - i,
    {
        assert(ls.take(i + 1).drop_last() =~= ls.take(i as int));
        assert(ls.take(i + 1).last() == lines@[i as int]@);
        match parse_sse_line(lines[i].as_str()) {
            Some(d) => {
                collected = d;
            },
            None => {},
        }
        i = i + 1;
    }
    assert(ls.take(lines@.len() as int) =~= ls);
    collected
}

/// The model list the proxy serves: its one endpoint, under the
/// endpoint's name.
pub fn models_list(endpoint_name: &str) -> (r: Json)
    ensures
        crate::json::is_model_list(r, seq![endpoint_name@]),
{
    let names = vec![crate::text::owned(endpoint_name)];
    let r = crate::json::model_list_of(&names);
    assert(names@.map_values(|n: String| n@) =~= seq![endpoint_name@]);
    r
}

} // verus!
