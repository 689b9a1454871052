//! JSON values as the library reads and writes them: request and response
//! bodies of the OpenAI-style API. An object keeps its members in order,
//! one member per key.
use vstd::prelude::*;

use crate::text::{decimal, push_char, str_eq, u64_to_string};

verus! {

/// A JSON number: a non-negative integer, a negative integer, or any other
/// number kept as its decimal text.
#[derive(Debug, Clone, PartialEq, Eq)]
pub enum JsonNumber {
    PosInt(u64),
    NegInt(i64),
    Float(String),
}

/// A JSON value.
#[derive(Debug)]
pub enum Json {
    Null,
    Bool(bool),
    Number(JsonNumber),
    Str(String),
    Array(Vec<Json>),
    Object(Vec<(String, Json)>),
}

/// The value of the first member named `key`.
pub open spec fn member(fields: Seq<(String, Json)>, key: Seq<char>) -> Option<Json>
    decreases fields.len(),
{
    if fields.len() == 0 {
        None
    } else if fields[0].0@ == key {
        Some(fields[0].1)
    } else {
        member(fields.drop_first(), key)
    }
}

/// The members with the first one named `key` given the value `v`, or `v`
/// appended under `key` where there is none.
pub open spec fn with_member(fields: Seq<(String, Json)>, key: String, v: Json) -> Seq<(String, Json)>
    decreases fields.len(),
{
    if fields.len() == 0 {
        seq![(key, v)]
    } else if fields[0].0@ == key@ {
        fields.update(0, (fields[0].0, v))
    } else {
        seq![fields[0]] + with_member(fields.drop_first(), key, v)
    }
}

impl Json {
    /// The member `key` of an object; `None` for any other value.
    pub open spec fn spec_get(self, key: Seq<char>) -> Option<Json> {
        match self {
            Json::Object(fields) => member(fields@, key),
            _ => None,
        }
    }

    /// The text of a string value.
    pub open spec fn spec_as_str(self) -> Option<Seq<char>> {
        match self {
            Json::Str(s) => Some(s@),
            _ => None,
        }
    }

    /// The value of a boolean.
    pub open spec fn spec_as_bool(self) -> Option<bool> {
        match self {
            Json::Bool(b) => Some(b),
            _ => None,
        }
    }

    /// The value of a non-negative integer.
    pub open spec fn spec_as_u64(self) -> Option<u64> {
        match self {
            Json::Number(JsonNumber::PosInt(n)) => Some(n),
            _ => None,
        }
    }

    /// The member `key` of an object.
    pub fn get(&self, key: &str) -> (r: Option<&Json>)
        ensures
            match self.spec_get(key@) {
                Some(v) => r matches Some(x) && *x == v,
                None => r is None,
            },
    {
        match self {
            Json::Object(fields) => field(fields, key),
            _ => None,
        }
    }

    /// The text of a string value.
    pub fn as_str(&self) -> (r: Option<&str>)
        ensures
            match self.spec_as_str() {
                Some(s) => r matches Some(x) && x@ == s,
                None => r is None,
            },
    {
        match self {
            Json::Str(s) => Some(s.as_str()),
            _ => None,
        }
    }

    /// The value of a boolean.
    pub fn as_bool(&self) -> (r: Option<bool>)
        ensures
            r == self.spec_as_bool(),
    {
        match self {
            Json::Bool(b) => Some(*b),
            _ => None,
        }
    }

    /// The value of a non-negative integer.
    pub fn as_u64(&self) -> (r: Option<u64>)
        ensures
            r == self.spec_as_u64(),
    {
        match self {
            Json::Number(JsonNumber::PosInt(n)) => Some(*n),
            _ => None,
        }
    }

    /// A string value.
    pub fn string(s: &str) -> (r: Json)
        ensures
            r matches Json::Str(t) && t@ == s@,
    {
        Json::Str(crate::text::owned(s))
    }
}

/// Sets the member `key` of the object `fields`: the first member of that
/// name gets the value, or a new member is appended.
pub fn set_member(fields: &mut Vec<(String, Json)>, key: &str, v: Json)
    ensures
        exists|k: String| k@ == key@ && final(fields)@ == with_member(old(fields)@, k, v),
{
    let k = crate::text::owned(key);
    let ghost pre = fields@;
    let mut i: usize = 0;
    while i < fields.len()
        invariant
            i <= fields@.len(),
            fields@ == pre,
            pre == old(fields)@,
            k@ == key@,
            forall|j: int| 0 <= j < i ==> #[trigger] pre[j].0@ != key@,
        decreases fields@.len() - i,
    {
        if str_eq(fields[i].0.as_str(), key) {
            let name = fields[i].0.clone();
            proof {
                lemma_with_member_at(pre, i as int, k, v);
            }
            fields.set(i, (name, v));
            assert(fields@ =~= pre.update(i as int, (pre[i as int].0, v)));
            assert(k@ == key@ && fields@ == with_member(pre, k, v));
            return;
        }
        i = i + 1;
    }
    proof {
        lemma_with_member_absent(pre, k, v);
    }
    let ghost kk = k;
    fields.push((k, v));
    assert(kk@ == key@ && fields@ == with_member(pre, kk, v));
}

proof fn lemma_with_member_at(s: Seq<(String, Json)>, i: int, k: String, v: Json)
    requires
        0 <= i < s.len(),
        s[i].0@ == k@,
        forall|j: int| 0 <= j < i ==> #[trigger] s[j].0@ != k@,
    ensures
        with_member(s, k, v) == s.update(i, (s[i].0, v)),
    decreases i,
{
    if i > 0 {
        let t = s.drop_first();
        assert forall|j: int| 0 <= j < i - 1 implies #[trigger] t[j].0@ != k@ by {
            assert(t[j] == s[j + 1]);
        }
        lemma_with_member_at(t, i - 1, k, v);
        assert(s[0].0@ != k@);
        assert(with_member(s, k, v) =~= s.update(i, (s[i].0, v)));
    }
}

proof fn lemma_with_member_absent(s: Seq<(String, Json)>, k: String, v: Json)
    requires
        forall|j: int| 0 <= j < s.len() ==> #[trigger] s[j].0@ != k@,
    ensures
        with_member(s, k, v) == s.push((k, v)),
    decreases s.len(),
{
    if s.len() > 0 {
        let t = s.drop_first();
        assert forall|j: int| 0 <= j < t.len() implies #[trigger] t[j].0@ != k@ by {
            assert(t[j] == s[j + 1]);
        }
        lemma_with_member_absent(t, k, v);
        assert(s[0].0@ != k@);
        assert(with_member(s, k, v) =~= s.push((k, v)));
    }
}


/// The value of the first member named `key`.
pub fn field<'a>(fields: &'a Vec<(String, Json)>, key: &str) -> (r: Option<&'a Json>)
    ensures
        match member(fields@, key@) {
            Some(v) => r matches Some(x) && *x == v,
            None => r is None,
        },
{
    let mut i: usize = 0;
    assert(fields@.skip(0) =~= fields@);
    while i < fields.len()
        invariant
            i <= fields@.len(),
            member(fields@, key@) == member(fields@.skip(i as int), key@),
        decreases fields@.len() - i,
    {
        let ghost rest = fields@.skip(i as int);
        assert(rest.drop_first() =~= fields@.skip(i + 1));
        assert(rest[0] == fields@[i as int]);
        if str_eq(fields[i].0.as_str(), key) {
            assert(member(rest, key@) == Some(rest[0].1));
            return Some(&fields[i].1);
        }
        i = i + 1;
    }
    None
}

/// The member `key` is a string with the text `val`.
pub open spec fn str_member_is(fields: Seq<(String, Json)>, key: Seq<char>, val: Seq<char>) -> bool {
    member(fields, key) matches Some(v) && v.spec_as_str() == Some(val)
}

/// Whether the member `key` is a string with the text `val`.
pub fn str_member_equals(fields: &Vec<(String, Json)>, key: &str, val: &str) -> (r: bool)
    ensures
        r == str_member_is(fields@, key@, val@),
{
    match field(fields, key) {
        Some(v) => match v.as_str() {
            Some(s) => str_eq(s, val),
            None => false,
        },
        None => false,
    }
}


/// A member named `key` whose value is the string `val`.
pub open spec fn str_field(f: (String, Json), key: Seq<char>, val: Seq<char>) -> bool {
    f.0@ == key && f.1.spec_as_str() == Some(val)
}

/// The OpenAI description of one served model:
/// `{"id": name, "object": "model", "owned_by": "rpx"}`.
pub open spec fn is_model_card(m: Json, name: Seq<char>) -> bool {
    m matches Json::Object(fs) && fs@.len() == 3 && str_field(fs@[0], "id"@, name) && str_field(
        fs@[1],
        "object"@,
        "model"@,
    ) && str_field(fs@[2], "owned_by"@, "rpx"@)
}

/// The OpenAI model list `{"object": "list", "data": [cards]}` of the
/// given names, in order.
pub open spec fn is_model_list(r: Json, names: Seq<Seq<char>>) -> bool {
    &&& r matches Json::Object(fs)
    &&& fs@.len() == 2
    &&& str_field(fs@[0], "object"@, "list"@)
    &&& fs@[1].0@ == "data"@
    &&& fs@[1].1 matches Json::Array(items)
    &&& items@.len() == names.len()
    &&& forall|i: int| 0 <= i < names.len() ==> is_model_card(#[trigger] items@[i], names[i])
}

/// A member holding a string.
pub fn str_member(key: &str, val: &str) -> (r: (String, Json))
    ensures
        str_field(r, key@, val@),
{
    (crate::text::owned(key), Json::string(val))
}

/// The description of one served model.
pub fn model_card(name: &str) -> (r: Json)
    ensures
        is_model_card(r, name@),
{
    let mut fs: Vec<(String, Json)> = Vec::new();
    fs.push(str_member("id", name));
    fs.push(str_member("object", "model"));
    fs.push(str_member("owned_by", "rpx"));
    Json::Object(fs)
}

/// The model list of the given names.
pub fn model_list_of(names: &Vec<String>) -> (r: Json)
    ensures
        is_model_list(r, names@.map_values(|n: String| n@)),
{
    let ghost ns = names@.map_values(|n: String| n@);
    let mut items: Vec<Json> = Vec::new();
    let mut i: usize = 0;
    while i < names.len()
        invariant
            i <= names@.len(),
            ns == names@.map_values(|n: String| n@),
            items@.len() == i,
            forall|j: int| 0 <= j < i ==> is_model_card(#[trigger] items@[j], ns[j]),
        decreases names@.len() - i,
    {
        items.push(model_card(names[i].as_str()));
        i = i + 1;
    }
    let mut fs: Vec<(String, Json)> = Vec::new();
    fs.push(str_member("object", "list"));
    fs.push((crate::text::owned("data"), Json::Array(items)));
    Json::Object(fs)
}

/// The lower-case hexadecimal digit of `n` (below 16).
pub open spec fn hex_digit(n: nat) -> char {
    if n == 0 { '0' } else if n == 1 { '1' } else if n == 2 { '2' } else if n == 3 { '3' }
    else if n == 4 { '4' } else if n == 5 { '5' } else if n == 6 { '6' } else if n == 7 { '7' }
    else if n == 8 { '8' } else if n == 9 { '9' } else if n == 10 { 'a' } else if n == 11 { 'b' }
    else if n == 12 { 'c' } else if n == 13 { 'd' } else if n == 14 { 'e' } else { 'f' }
}

fn hex_char(n: u32) -> (r: char)
    requires
        n < 16,
    ensures
        r == hex_digit(n as nat),
{
    if n == 0 { '0' } else if n == 1 { '1' } else if n == 2 { '2' } else if n == 3 { '3' }
    else if n == 4 { '4' } else if n == 5 { '5' } else if n == 6 { '6' } else if n == 7 { '7' }
    else if n == 8 { '8' } else if n == 9 { '9' } else if n == 10 { 'a' } else if n == 11 { 'b' }
    else if n == 12 { 'c' } else if n == 13 { 'd' } else if n == 14 { 'e' } else { 'f' }
}

/// A char as it stands inside a JSON string: '"' and '\' behind a
/// backslash, the control chars as `\b`, `\t`, `\n`, `\f`, `\r` or
/// `\u00XX`, every other char as it is.
pub open spec fn escape_char(c: char) -> Seq<char> {
    if c == '"' {
        seq!['\\', '"']
    } else if c == '\\' {
        seq!['\\', '\\']
    } else if c == '\u{8}' {
        seq!['\\', 'b']
    } else if c == '\t' {
        seq!['\\', 't']
    } else if c == '\n' {
        seq!['\\', 'n']
    } else if c == '\u{c}' {
        seq!['\\', 'f']
    } else if c == '\r' {
        seq!['\\', 'r']
    } else if (c as nat) < 32 {
        seq!['\\', 'u', '0', '0', hex_digit((c as nat) / 16), hex_digit((c as nat) % 16)]
    } else {
        seq![c]
    }
}

/// The chars of a text as they stand inside a JSON string.
pub open spec fn escaped(s: Seq<char>) -> Seq<char>
    decreases s.len(),
{
    if s.len() == 0 {
        Seq::empty()
    } else {
        escaped(s.drop_last()) + escape_char(s.last())
    }
}

/// A text as a JSON string.
pub open spec fn quoted(s: Seq<char>) -> Seq<char> {
    seq!['"'] + escaped(s) + seq!['"']
}

/// The compact JSON text of a value: no white space, members in their
/// order, numbers as their decimal text.
pub open spec fn render(j: Json) -> Seq<char>
    decreases j,
{
    match j {
        Json::Null => "null"@,
        Json::Bool(b) => if b {
            "true"@
        } else {
            "false"@
        },
        Json::Number(JsonNumber::PosInt(n)) => decimal(n as nat),
        Json::Number(JsonNumber::NegInt(i)) => if i < 0 {
            seq!['-'] + decimal((-i) as nat)
        } else {
            decimal(i as nat)
        },
        Json::Number(JsonNumber::Float(t)) => t@,
        Json::Str(s) => quoted(s@),
        Json::Array(xs) => seq!['['] + render_items(xs@) + seq![']'],
        Json::Object(fs) => seq!['{'] + render_members(fs@) + seq!['}'],
    }
}

/// The values of an array, rendered and separated by ','.
pub open spec fn render_items(xs: Seq<Json>) -> Seq<char>
    decreases xs,
{
    if xs.len() == 0 {
        Seq::empty()
    } else if xs.len() == 1 {
        render(xs[0])
    } else {
        render_items(xs.subrange(0, xs.len() - 1)) + seq![','] + render(xs[xs.len() - 1])
    }
}

/// The members of an object, each as `"key":value`, separated by ','.
pub open spec fn render_members(fs: Seq<(String, Json)>) -> Seq<char>
    decreases fs,
{
    if fs.len() == 0 {
        Seq::empty()
    } else if fs.len() == 1 {
        quoted(fs[0].0@) + seq![':'] + render(fs[0].1)
    } else {
        render_members(fs.subrange(0, fs.len() - 1)) + seq![','] + quoted(fs[fs.len() - 1].0@) + seq![
            ':',
        ] + render(fs[fs.len() - 1].1)
    }
}

/// Appends the chars of `s` as they stand inside a JSON string.
fn push_escaped(out: &mut String, s: &str)
    ensures
        final(out)@ == old(out)@ + escaped(s@),
{
    let n = s.unicode_len();
    let mut i: usize = 0;
    while i < n
        invariant
            n == s@.len(),
            i <= n,
            out@ == old(out)@ + escaped(s@.subrange(0, i as int)),
        decreases n - i,
    {
        let c = s.get_char(i);
        let ghost before = out@;
        if c == '"' {
            push_char(out, '\\');
            push_char(out, '"');
        } else if c == '\\' {
            push_char(out, '\\');
            push_char(out, '\\');
        } else if c == '\u{8}' {
            push_char(out, '\\');
            push_char(out, 'b');
        } else if c == '\t' {
            push_char(out, '\\');
            push_char(out, 't');
        } else if c == '\n' {
            push_char(out, '\\');
            push_char(out, 'n');
        } else if c == '\u{c}' {
            push_char(out, '\\');
            push_char(out, 'f');
        } else if c == '\r' {
            push_char(out, '\\');
            push_char(out, 'r');
        } else if (c as u32) < 32 {
            let code = c as u32;
            push_char(out, '\\');
            push_char(out, 'u');
            push_char(out, '0');
            push_char(out, '0');
            push_char(out, hex_char(code / 16));
            push_char(out, hex_char(code % 16));
        } else {
            push_char(out, c);
        }
        proof {
            let t = s@.subrange(0, i + 1);
            assert(t.drop_last() =~= s@.subrange(0, i as int));
            assert(t.last() == c);
            assert(out@ =~= before + escape_char(c));
        }
        i = i + 1;
    }
    assert(s@.subrange(0, n as int) =~= s@);
}

/// Builds `quoted(s)`.
pub fn quote_text(s: &str) -> (r: String)
    ensures
        r@ == quoted(s@),
{
    let mut r = String::new();
    push_char(&mut r, '"');
    push_escaped(&mut r, s);
    push_char(&mut r, '"');
    assert(r@ =~= quoted(s@));
    r
}

/// The compact JSON text of a value (see `render`).
#[verifier::loop_isolation(false)]
pub fn json_text(j: &Json) -> (r: String)
    ensures
        r@ == render(*j),
    decreases j,
{
    match j {
        Json::Null => String::from_str("null"),
        Json::Bool(b) => if *b {
            String::from_str("true")
        } else {
            String::from_str("false")
        },
        Json::Number(JsonNumber::PosInt(n)) => u64_to_string(*n),
        Json::Number(JsonNumber::NegInt(v)) => {
            if *v < 0 {
                let m: u64 = (0i128 - (*v as i128)) as u64;
                let mut r = String::new();
                push_char(&mut r, '-');
                let d = u64_to_string(m);
                r.append(d.as_str());
                assert(r@ =~= seq!['-'] + decimal((-*v) as nat));
                r
            } else {
                u64_to_string(*v as u64)
            }
        },
        Json::Number(JsonNumber::Float(t)) => crate::text::owned(t.as_str()),
        Json::Str(s) => quote_text(s.as_str()),
        Json::Array(xs) => {
            let mut r = String::new();
            push_char(&mut r, '[');
            let mut i: usize = 0;
            while i < xs.len()
                invariant
                    i <= xs@.len(),
                    r@ == seq!['['] + render_items(xs@.subrange(0, i as int)),
                decreases xs@.len() - i,
            {
                let ghost before = r@;
                if i > 0 {
                    push_char(&mut r, ',');
                }
                proof {
                    assert(decreases_to!(*j => (*j)->Array_0));
                    assert(decreases_to!(*xs => xs@));
                    assert(decreases_to!(xs@ => xs@[i as int]));
                }
                let t = json_text(&xs[i]);
                r.append(t.as_str());
                proof {
                    let u = xs@.subrange(0, i + 1);
                    assert(u.subrange(0, u.len() - 1) =~= xs@.subrange(0, i as int));
                    assert(u[u.len() - 1] == xs@[i as int]);
                    if i == 0 {
                        assert(xs@.subrange(0, 0) =~= Seq::<Json>::empty());
                        assert(r@ =~= seq!['['] + render_items(u));
                    } else {
                        assert(r@ =~= seq!['['] + render_items(u));
                    }
                }
                i = i + 1;
            }
            push_char(&mut r, ']');
            assert(xs@.subrange(0, xs@.len() as int) =~= xs@);
            assert(r@ =~= render(*j));
            r
        },
        Json::Object(fs) => {
            let mut r = String::new();
            push_char(&mut r, '{');
            let mut i: usize = 0;
            while i < fs.len()
                invariant
                    i <= fs@.len(),
                    r@ == seq!['{'] + render_members(fs@.subrange(0, i as int)),
                decreases fs@.len() - i,
            {
                if i > 0 {
                    push_char(&mut r, ',');
                }
                let k = quote_text(fs[i].0.as_str());
                r.append(k.as_str());
                push_char(&mut r, ':');
                proof {
                    assert(decreases_to!(*j => (*j)->Object_0));
                    assert(decreases_to!(*fs => fs@));
                    assert(decreases_to!(fs@ => fs@[i as int]));
                    assert(decreases_to!(fs@[i as int] => fs@[i as int].1));
                }
                let t = json_text(&fs[i].1);
                r.append(t.as_str());
                proof {
                    let u = fs@.subrange(0, i + 1);
                    assert(u.subrange(0, u.len() - 1) =~= fs@.subrange(0, i as int));
                    assert(u[u.len() - 1] == fs@[i as int]);
                    if i == 0 {
                        assert(fs@.subrange(0, 0) =~= Seq::<(String, Json)>::empty());
                    }
                    assert(r@ =~= seq!['{'] + render_members(u));
                }
                i = i + 1;
            }
            push_char(&mut r, '}');
            assert(fs@.subrange(0, fs@.len() as int) =~= fs@);
            assert(r@ =~= render(*j));
            r
        },
    }
}

} // verus!
