//! Translation between OpenAI-style bodies and provider requests, and the
//! model-name rewriting between the name a gateway serves and the name the
//! engine knows.
use vstd::prelude::*;

use crate::json::{field, member, set_member, str_member_equals, str_member_is, with_member, Json};
use crate::provider::types::InvocationRequest;
use crate::text::str_eq;

verus! {

/// The body asks for a streamed answer: its member `stream` is `true`.
pub open spec fn wants_stream(body: Json) -> bool {
    body.spec_get("stream"@) matches Some(v) && v.spec_as_bool() == Some(true)
}

/// A provider request for an OpenAI-style body: the body as it is, a
/// stream when the body asks for one, and a limit of 600 seconds.
pub fn to_invocation_request(body: Json) -> (r: InvocationRequest)
    ensures
        r.body == body,
        r.stream == wants_stream(body),
        r.timeout_secs == 600,
{
    let stream = match body.get("stream") {
        Some(v) => match v.as_bool() {
            Some(b) => b,
            None => false,
        },
        None => false,
    };
    InvocationRequest { body, stream, timeout_secs: 600 }
}

/// Sets the "model" of a request body to `target` where it names
/// `served_name` or is absent; a body whose "model" is anything else (an
/// explicit foreign model), and a body that is no object, stay as they are.
pub fn rewrite_request_model(body: &mut Json, served_name: &str, target: &str)
    ensures
        match *old(body) {
            Json::Object(fs) => {
                let m = member(fs@, "model"@);
                if (m matches Some(v) && v.spec_as_str() == Some(served_name@)) || (m is None) {
                    *final(body) matches Json::Object(gs) && exists|k: String, t: String|
                        k@ == "model"@ && t@ == target@ && gs@ == with_member(
                            fs@,
                            k,
                            Json::Str(t),
                        )
                } else {
                    *final(body) matches Json::Object(gs) && gs@ == fs@
                }
            },
            _ => *final(body) == *old(body),
        },
{
    match body {
        Json::Object(fs) => {
            let replace = match field(fs, "model") {
                Some(v) => match v.as_str() {
                    Some(m) => str_eq(m, served_name),
                    None => false,
                },
                None => true,
            };
            if replace {
                set_member(fs, "model", Json::string(target));
            }
        },
        _ => {},
    }
}

/// `i` is the first member of `s` with its name.
pub open spec fn first_key(s: Seq<(String, Json)>, i: int) -> bool {
    forall|j: int| 0 <= j < i ==> s[j].0@ != s[i].0@
}

/// The member `i` of an object is one whose value goes back to the served
/// name: the first "model" member when it names `target`, or the first
/// "id" member when it names `target` in an object whose "object" is
/// "model".
pub open spec fn renamed_member(fs: Seq<(String, Json)>, i: int, target: Seq<char>) -> bool {
    &&& first_key(fs, i)
    &&& ((fs[i].0@ == "model"@ && str_member_is(fs, "model"@, target)) || (fs[i].0@ == "id"@
        && str_member_is(fs, "object"@, "model"@) && str_member_is(fs, "id"@, target)))
}

/// `b` is `a` with every model name `target` in it given back as
/// `served`: in each object, at any depth, the "model" member naming
/// `target`, and the "id" member naming `target` of a model object.
pub open spec fn response_rewritten(a: Json, b: Json, served: Seq<char>, target: Seq<char>) -> bool
    decreases a,
{
    match a {
        Json::Array(xs) => match b {
            Json::Array(ys) => ys@.len() == xs@.len() && forall|i: int|
                0 <= i < xs@.len() ==> response_rewritten(#[trigger] xs@[i], ys@[i], served, target),
            _ => false,
        },
        Json::Object(fs) => match b {
            Json::Object(gs) => gs@.len() == fs@.len() && forall|i: int|
                0 <= i < fs@.len() ==> {
                    &&& #[trigger] gs@[i].0 == fs@[i].0
                    &&& if renamed_member(fs@, i, target) {
                        gs@[i].1.spec_as_str() == Some(served)
                    } else {
                        response_rewritten(fs@[i].1, gs@[i].1, served, target)
                    }
                },
            _ => false,
        },
        _ => b == a,
    }
}

/// Member `i` of `gs` is member `i` of `fs` rewritten as
/// `response_rewritten` says.
pub open spec fn member_ok(
    fs: Seq<(String, Json)>,
    gs: Seq<(String, Json)>,
    i: int,
    served: Seq<char>,
    target: Seq<char>,
) -> bool {
    &&& gs[i].0 == fs[i].0
    &&& if renamed_member(fs, i, target) {
        gs[i].1.spec_as_str() == Some(served)
    } else {
        response_rewritten(fs[i].1, gs[i].1, served, target)
    }
}

proof fn lemma_object_rewritten(a: Json, b: Json, served: Seq<char>, target: Seq<char>)
    requires
        a is Object,
        b is Object,
        b->Object_0@.len() == a->Object_0@.len(),
        forall|i: int|
            0 <= i < a->Object_0@.len() ==> #[trigger] member_ok(
                a->Object_0@,
                b->Object_0@,
                i,
                served,
                target,
            ),
    ensures
        response_rewritten(a, b, served, target),
{
    let fs = a->Object_0@;
    let gs = b->Object_0@;
    assert forall|i: int| 0 <= i < fs.len() implies {
        &&& #[trigger] gs[i].0 == fs[i].0
        &&& if renamed_member(fs, i, target) {
            gs[i].1.spec_as_str() == Some(served)
        } else {
            response_rewritten(fs[i].1, gs[i].1, served, target)
        }
    } by {
        assert(member_ok(fs, gs, i, served, target));
    }
}

/// `payload` with its model names rewritten back to the served name.
pub fn rewritten_response(payload: Json, served_name: &str, target: &str) -> (r: Json)
    ensures
        response_rewritten(payload, r, served_name@, target@),
    decreases payload,
{
    let ghost whole = payload;
    match payload {
        Json::Array(items) => {
            let ghost v0 = items;
            let mut items = items;
            let ghost orig = items@;
            let n0 = items.len();
            let mut out: Vec<Json> = Vec::new();
            let mut k: usize = 0;
            while items.len() > 0
                invariant
                    k <= orig.len(),
                    items@ == orig.skip(k as int),
                    out@.len() == k,
                    whole == Json::Array(v0),
                    whole == payload,
                    orig == v0@,
                    n0 == orig.len(),
                    forall|j: int|
                        0 <= j < k ==> response_rewritten(#[trigger] orig[j], out@[j], served_name@, target@),
                decreases items@.len(),
            {
                let x = items.remove(0);
                assert(x == orig[k as int]);
                proof {
                    assert(whole->Array_0 == v0);
                    assert(decreases_to!(whole => whole->Array_0));
                    assert(decreases_to!(v0 => v0@));
                    assert(decreases_to!(v0@ => v0@[k as int]));
                }
                let y = rewritten_response(x, served_name, target);
                out.push(y);
                assert(orig.skip(k as int).drop_first() =~= orig.skip(k + 1));
                k = k + 1;
            }
            assert(k == orig.len());
            assert forall|j: int| 0 <= j < v0@.len() implies response_rewritten(
                #[trigger] v0@[j],
                out@[j],
                served_name@,
                target@,
            ) by {
                assert(orig[j] == v0@[j]);
            }
            let r = Json::Array(out);
            assert(response_rewritten(whole, r, served_name@, target@));
            r
        },
        Json::Object(fs) => {
            let ghost f0 = fs;
            let model_hit = str_member_equals(&fs, "model", target);
            let id_hit = str_member_equals(&fs, "object", "model") && str_member_equals(
                &fs,
                "id",
                target,
            );
            let mut fs = fs;
            let ghost orig = fs@;
            let n0 = fs.len();
            let mut out: Vec<(String, Json)> = Vec::new();
            let mut seen_model = false;
            let mut seen_id = false;
            let mut k: usize = 0;
            while fs.len() > 0
                invariant
                    k <= orig.len(),
                    whole == Json::Object(f0),
                    whole == payload,
                    orig == f0@,
                    n0 == orig.len(),
                    fs@ == orig.skip(k as int),
                    out@.len() == k,
                    model_hit == str_member_is(orig, "model"@, target@),
                    id_hit == (str_member_is(orig, "object"@, "model"@) && str_member_is(
                        orig,
                        "id"@,
                        target@,
                    )),
                    seen_model == exists|j: int| 0 <= j < k && #[trigger] orig[j].0@ == "model"@,
                    seen_id == exists|j: int| 0 <= j < k && #[trigger] orig[j].0@ == "id"@,
                    forall|j: int|
                        0 <= j < k ==> #[trigger] member_ok(orig, out@, j, served_name@, target@),
                decreases fs@.len(),
            {
                let (name, v) = fs.remove(0);
                assert(name == orig[k as int].0 && v == orig[k as int].1);
                let is_model = str_eq(name.as_str(), "model");
                let is_id = str_eq(name.as_str(), "id");
                proof {
                    reveal_strlit("model");
                    reveal_strlit("id");
                    if is_model {
                        if seen_model {
                            let j = choose|j: int| 0 <= j < k && #[trigger] orig[j].0@ == "model"@;
                            assert(orig[j].0@ == orig[k as int].0@);
                        } else {
                            assert forall|j: int| 0 <= j < k implies orig[j].0@ != orig[
                                k as int
                            ].0@ by {
                                assert(orig[j].0@ != "model"@);
                            }
                        }
                    }
                    if is_id {
                        if seen_id {
                            let j = choose|j: int| 0 <= j < k && #[trigger] orig[j].0@ == "id"@;
                            assert(orig[j].0@ == orig[k as int].0@);
                        } else {
                            assert forall|j: int| 0 <= j < k implies orig[j].0@ != orig[
                                k as int
                            ].0@ by {
                                assert(orig[j].0@ != "id"@);
                            }
                        }
                    }
                }
                let renamed = (is_model && !seen_model && model_hit) || (is_id && !seen_id
                    && id_hit);
                assert(renamed == renamed_member(orig, k as int, target@));
                let nv = if renamed {
                    Json::string(served_name)
                } else {
                    proof {
                        assert(whole->Object_0 == f0);
                        assert(decreases_to!(whole => whole->Object_0));
                        assert(decreases_to!(f0 => f0@));
                        assert(decreases_to!(f0@ => f0@[k as int]));
                        assert(decreases_to!(f0@[k as int] => f0@[k as int].1));
                    }
                    rewritten_response(v, served_name, target)
                };
                if is_model {
                    seen_model = true;
                }
                if is_id {
                    seen_id = true;
                }
                let ghost prev = out@;
                let ghost nv_g = nv;
                out.push((name, nv));
                assert(out@ == prev.push((orig[k as int].0, nv_g)));
                assert(out@[k as int].0 == orig[k as int].0);
                assert(renamed ==> nv_g.spec_as_str() == Some(served_name@));
                assert(!renamed ==> response_rewritten(orig[k as int].1, nv_g, served_name@, target@));
                assert forall|j: int| 0 <= j < k + 1 implies #[trigger] member_ok(
                    orig,
                    out@,
                    j,
                    served_name@,
                    target@,
                ) by {
                    if j < k {
                        assert(out@[j] == prev[j]);
                        assert(member_ok(orig, prev, j, served_name@, target@));
                    } else {
                        assert(out@[j] == (orig[k as int].0, nv_g));
                    }
                }
                assert(orig.skip(k as int).drop_first() =~= orig.skip(k + 1));
                k = k + 1;
            }
            assert(k == orig.len());
            let r = Json::Object(out);
            proof {
                lemma_object_rewritten(whole, r, served_name@, target@);
            }
            r
        },
        other => {
            assert(other == whole);
            other
        },
    }
}

/// Rewrites, in place, every model name `target` in a response back to
/// the served name (see `response_rewritten`).
pub fn rewrite_response_model(payload: &mut Json, served_name: &str, target: &str)
    ensures
        response_rewritten(*old(payload), *final(payload), served_name@, target@),
{
    let mut taken = Json::Null;
    core::mem::swap(&mut taken, payload);
    *payload = rewritten_response(taken, served_name, target);
}


proof fn lemma_member_at(s: Seq<(String, Json)>, key: Seq<char>, i: int)
    requires
        0 <= i < s.len(),
        s[i].0@ == key,
        forall|j: int| 0 <= j < i ==> #[trigger] s[j].0@ != key,
    ensures
        member(s, key) == Some(s[i].1),
    decreases i,
{
    if i > 0 {
        let t = s.drop_first();
        assert forall|j: int| 0 <= j < i - 1 implies #[trigger] t[j].0@ != key by {
            assert(t[j] == s[j + 1]);
        }
        lemma_member_at(t, key, i - 1);
    }
}

proof fn lemma_member_found(s: Seq<(String, Json)>, key: Seq<char>)
    requires
        member(s, key) is Some,
    ensures
        exists|i: int|
            0 <= i < s.len() && s[i].0@ == key && member(s, key) == Some(s[i].1) && forall|j: int|
                0 <= j < i ==> #[trigger] s[j].0@ != key,
    decreases s.len(),
{
    if s[0].0@ != key {
        let t = s.drop_first();
        lemma_member_found(t, key);
        let i = choose|i: int|
            0 <= i < t.len() && t[i].0@ == key && member(t, key) == Some(t[i].1) && forall|j: int|
                0 <= j < i ==> #[trigger] t[j].0@ != key;
        assert(s[i + 1] == t[i]);
        assert forall|j: int| 0 <= j < i + 1 implies #[trigger] s[j].0@ != key by {
            if j > 0 {
                assert(s[j] == t[j - 1]);
            }
        }
    } else {
        assert(forall|j: int| 0 <= j < 0 ==> #[trigger] s[j].0@ != key);
    }
}

/// A response that names the engine's model gets the served name back:
/// what the client sees is the model it asked for.
pub proof fn law_served_name_restored(a: Json, b: Json, served: Seq<char>, target: Seq<char>)
    requires
        response_rewritten(a, b, served, target),
        a.spec_get("model"@) matches Some(m) && m.spec_as_str() == Some(target),
    ensures
        b.spec_get("model"@) matches Some(m) && m.spec_as_str() == Some(served),
{
    let fs = a->Object_0@;
    let gs = b->Object_0@;
    lemma_member_found(fs, "model"@);
    let i = choose|i: int|
        0 <= i < fs.len() && fs[i].0@ == "model"@ && member(fs, "model"@) == Some(fs[i].1)
            && forall|j: int| 0 <= j < i ==> #[trigger] fs[j].0@ != "model"@;
    assert(gs[i].0 == fs[i].0);
    assert(renamed_member(fs, i, target));
    assert forall|j: int| 0 <= j < i implies #[trigger] gs[j].0@ != "model"@ by {
        assert(gs[j].0 == fs[j].0);
    }
    lemma_member_at(gs, "model"@, i);
}

} // verus!
