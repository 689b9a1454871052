//! Server-sent events: reading the data lines of a stream.
use vstd::prelude::*;

use crate::text::{has_prefix, spec_trim, str_eq, strip_prefix, trim};

verus! {

/// The payload of an SSE line: the line is trimmed; empty lines, comments
/// (starting with ':'), lines that are not `data:` lines, and the `[DONE]`
/// sentinel carry none; else the payload is the trimmed text after
/// `data:`.
pub open spec fn spec_parse_sse_line(line: Seq<char>) -> Option<Seq<char>> {
    let t = spec_trim(line);
    if t.len() == 0 || t[0] == ':' {
        None
    } else if !has_prefix(t, "data:"@) {
        None
    } else {
        let d = spec_trim(t.skip(5));
        if d == "[DONE]"@ {
            None
        } else {
            Some(d)
        }
    }
}

/// Parses a raw SSE line into its data payload, if any.
pub fn parse_sse_line(line: &str) -> (r: Option<String>)
    ensures
        match spec_parse_sse_line(line@) {
            Some(d) => r matches Some(s) && s@ == d,
            None => r is None,
        },
{
    proof {
        reveal_strlit("data:");
        reveal_strlit("[DONE]");
    }
    let t = trim(line);
    let ts = t.as_str();
    if ts.unicode_len() == 0 || ts.get_char(0) == ':' {
        return None;
    }
    let rest = match strip_prefix(ts, "data:") {
        Some(rest) => rest,
        None => return None,
    };
    let d = trim(rest.as_str());
    if str_eq(d.as_str(), "[DONE]") {
        return None;
    }
    Some(d)
}

/// The line is the SSE end-of-stream sentinel.
pub open spec fn spec_is_done(line: Seq<char>) -> bool {
    spec_trim(line) == "data: [DONE]"@ || spec_trim(line) == "data:[DONE]"@
}

/// Checks whether a line is the SSE end-of-stream sentinel, with or
/// without a space after `data:` and surrounding white space.
pub fn is_done(line: &str) -> (r: bool)
    ensures
        r == spec_is_done(line@),
{
    let t = trim(line);
    str_eq(t.as_str(), "data: [DONE]") || str_eq(t.as_str(), "data:[DONE]")
}

} // verus!
