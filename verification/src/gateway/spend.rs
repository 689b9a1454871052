//! Per-key usage and an estimate of what it cost.
use vstd::prelude::*;

use crate::fleet::state::{entries_map, has_name, lemma_entry, lemma_push, lemma_update, names_unique};
use crate::json::Json;
use crate::text::str_eq;

verus! {

/// Usage of one API key. The cost is in picodollars.
#[derive(Debug, Clone)]
pub struct KeySpend {
    pub key_name: String,
    pub total_requests: u64,
    pub total_input_tokens: u64,
    pub total_output_tokens: u64,
    pub estimated_cost_pico: u128,
}

/// A token count read from an optional JSON value: the value when it is a
/// non-negative integer, else zero.
pub open spec fn count_of(v: Option<Json>) -> u64 {
    match v {
        Some(j) => match j.spec_as_u64() {
            Some(n) => n,
            None => 0,
        },
        None => 0,
    }
}

/// The prompt and completion tokens a response reports in its OpenAI
/// `usage` member, if it has one.
pub open spec fn usage_of(response: Json) -> Option<(u64, u64)> {
    match response.spec_get("usage"@) {
        Some(u) => Some((count_of(u.spec_get("prompt_tokens"@)), count_of(u.spec_get("completion_tokens"@)))),
        None => None,
    }
}

/// The cost of `tokens` tokens at a GPU price per second, taking a
/// throughput of 100 tokens per second: `tokens / 100 * price`, rounded
/// down to a picodollar.
pub open spec fn cost_of(tokens: nat, price_per_sec_pico: nat) -> nat {
    tokens * price_per_sec_pico / 100
}

/// `next` is `prev` (or a fresh record, where there is none) after one
/// more request with the given usage; the cost stops growing at the
/// largest `u128`.
pub open spec fn spend_step(
    prev: Option<KeySpend>,
    next: KeySpend,
    key: Seq<char>,
    usage: Option<(u64, u64)>,
    price_per_sec_pico: nat,
) -> bool {
    let (r0, i0, o0, c0) = match prev {
        Some(p) => (
            p.total_requests as nat,
            p.total_input_tokens as nat,
            p.total_output_tokens as nat,
            p.estimated_cost_pico as nat,
        ),
        None => (0nat, 0nat, 0nat, 0nat),
    };
    &&& next.key_name@ == key
    &&& next.total_requests == r0 + 1
    &&& match usage {
        Some((i, o)) => {
            &&& next.total_input_tokens == i0 + i
            &&& next.total_output_tokens == o0 + o
            &&& next.estimated_cost_pico == if c0 + cost_of((i + o) as nat, price_per_sec_pico) <= u128::MAX {
                c0 + cost_of((i + o) as nat, price_per_sec_pico)
            } else {
                u128::MAX as nat
            }
        },
        None => {
            &&& next.total_input_tokens == i0
            &&& next.total_output_tokens == o0
            &&& next.estimated_cost_pico == c0
        },
    }
}

/// The counters of the record of `key` can take one more request with the
/// given usage.
pub open spec fn step_fits(prev: Option<KeySpend>, usage: Option<(u64, u64)>) -> bool {
    let (r0, i0, o0) = match prev {
        Some(p) => (p.total_requests as nat, p.total_input_tokens as nat, p.total_output_tokens as nat),
        None => (0nat, 0nat, 0nat),
    };
    &&& r0 + 1 <= u64::MAX
    &&& match usage {
        Some((i, o)) => i0 + i <= u64::MAX && o0 + o <= u64::MAX && i + o <= u64::MAX,
        None => true,
    }
}

/// Usage per key name.
pub struct SpendTracker {
    records: Vec<(String, KeySpend)>,
}

impl View for SpendTracker {
    type V = Map<Seq<char>, KeySpend>;

    closed spec fn view(&self) -> Map<Seq<char>, KeySpend> {
        entries_map(self.records@)
    }
}

impl SpendTracker {
    /// One record per key name.
    pub closed spec fn wf(&self) -> bool {
        names_unique(self.records@)
    }

    /// A tracker with no usage.
    pub fn new() -> (r: SpendTracker)
        ensures
            r.wf(),
            r@ == Map::<Seq<char>, KeySpend>::empty(),
    {
        let r = SpendTracker { records: Vec::new() };
        assert(r@ =~= Map::<Seq<char>, KeySpend>::empty());
        r
    }

    fn position(&self, key_name: &str) -> (r: Option<usize>)
        requires
            self.wf(),
        ensures
            match r {
                Some(i) => i < self.records@.len() && self.records@[i as int].0@ == key_name@
                    && self@.contains_key(key_name@) && self@[key_name@] == self.records@[i as int].1,
                None => !self@.contains_key(key_name@),
            },
    {
        let mut i: usize = 0;
        while i < self.records.len()
            invariant
                i <= self.records@.len(),
                names_unique(self.records@),
                forall|j: int| 0 <= j < i ==> #[trigger] self.records@[j].0@ != key_name@,
            decreases self.records@.len() - i,
        {
            if str_eq(self.records[i].0.as_str(), key_name) {
                proof {
                    lemma_entry(self.records@, i as int);
                }
                return Some(i);
            }
            i = i + 1;
        }
        proof {
            if has_name(self.records@, key_name@) {
                let j = choose|j: int| 0 <= j < self.records@.len() && #[trigger] self.records@[j].0@ == key_name@;
                assert(self.records@[j].0@ != key_name@);
            }
        }
        None
    }

    /// The record of a key name.
    pub fn get(&self, key_name: &str) -> (r: Option<&KeySpend>)
        requires
            self.wf(),
        ensures
            match r {
                Some(s) => self@.contains_key(key_name@) && *s == self@[key_name@],
                None => !self@.contains_key(key_name@),
            },
    {
        match self.position(key_name) {
            Some(i) => Some(&self.records[i].1),
            None => None,
        }
    }

    /// Every record, once each.
    pub fn all(&self) -> (r: Vec<&KeySpend>)
        requires
            self.wf(),
        ensures
            r@.len() == self@.dom().len(),
            forall|k: Seq<char>|
                #[trigger] self@.contains_key(k) ==> exists|i: int| 0 <= i < r@.len() && *r@[i] == self@[k],
    {
        let mut r: Vec<&KeySpend> = Vec::new();
        let mut i: usize = 0;
        while i < self.records.len()
            invariant
                i <= self.records@.len(),
                r@.len() == i,
                forall|j: int| 0 <= j < i ==> *r@[j] == #[trigger] self.records@[j].1,
            decreases self.records@.len() - i,
        {
            r.push(&self.records[i].1);
            i = i + 1;
        }
        proof {
            lemma_dom_len(self.records@);
            assert forall|k: Seq<char>| #[trigger] self@.contains_key(k) implies exists|i: int|
                0 <= i < r@.len() && *r@[i] == self@[k] by {
                let j = choose|j: int| 0 <= j < self.records@.len() && #[trigger] self.records@[j].0@ == k;
                lemma_entry(self.records@, j);
                assert(*r@[j] == self.records@[j].1);
            }
        }
        r
    }

    /// Whether one more request with the usage `response` reports fits the
    /// counters of `key_name`.
    pub fn can_record(&self, key_name: &str, response: &Json) -> (r: bool)
        requires
            self.wf(),
        ensures
            r == step_fits(self@.get(key_name@), usage_of(*response)),
    {
        let usage = usage_tokens(response);
        let (r0, i0, o0) = match self.get(key_name) {
            Some(s) => (s.total_requests, s.total_input_tokens, s.total_output_tokens),
            None => (0u64, 0u64, 0u64),
        };
        if r0 == u64::MAX {
            return false;
        }
        match usage {
            Some((i, o)) => i0 <= u64::MAX - i && o0 <= u64::MAX - o && i <= u64::MAX - o,
            None => true,
        }
    }

    /// Records a completed request of `key_name`: one more request and,
    /// where the response reports OpenAI `usage`, its prompt and completion
    /// tokens and their estimated cost at `gpu_price_per_sec_pico`.
    pub fn record(&mut self, key_name: &str, response: &Json, gpu_price_per_sec_pico: u64)
        requires
            old(self).wf(),
            step_fits(old(self)@.get(key_name@), usage_of(*response)),
        ensures
            final(self).wf(),
            final(self)@.dom() == old(self)@.dom().insert(key_name@),
            forall|k: Seq<char>|
                k != key_name@ && #[trigger] old(self)@.contains_key(k) ==> final(self)@[k] == old(
                    self,
                )@[k],
            spend_step(
                old(self)@.get(key_name@),
                final(self)@[key_name@],
                key_name@,
                usage_of(*response),
                gpu_price_per_sec_pico as nat,
            ),
    {
        let usage = usage_tokens(response);
        self.add(key_name, usage, gpu_price_per_sec_pico);
    }

    /// Records a request of `key_name` without token counts.
    pub fn record_request(&mut self, key_name: &str)
        requires
            old(self).wf(),
            step_fits(old(self)@.get(key_name@), None),
        ensures
            final(self).wf(),
            final(self)@.dom() == old(self)@.dom().insert(key_name@),
            forall|k: Seq<char>|
                k != key_name@ && #[trigger] old(self)@.contains_key(k) ==> final(self)@[k] == old(
                    self,
                )@[k],
            spend_step(old(self)@.get(key_name@), final(self)@[key_name@], key_name@, None, 0),
    {
        self.add(key_name, None, 0);
    }

    fn add(&mut self, key_name: &str, usage: Option<(u64, u64)>, price: u64)
        requires
            old(self).wf(),
            step_fits(old(self)@.get(key_name@), usage),
        ensures
            final(self).wf(),
            final(self)@.dom() == old(self)@.dom().insert(key_name@),
            forall|k: Seq<char>|
                k != key_name@ && #[trigger] old(self)@.contains_key(k) ==> final(self)@[k] == old(
                    self,
                )@[k],
            spend_step(old(self)@.get(key_name@), final(self)@[key_name@], key_name@, usage, price as nat),
    {
        let ghost old_map = self@;
        let (prev, pos) = match self.position(key_name) {
            Some(i) => {
                let s = &self.records[i].1;
                (KeySpend {
                    key_name: s.key_name.clone(),
                    total_requests: s.total_requests,
                    total_input_tokens: s.total_input_tokens,
                    total_output_tokens: s.total_output_tokens,
                    estimated_cost_pico: s.estimated_cost_pico,
                }, Some(i))
            },
            None => (KeySpend {
                key_name: crate::text::owned(key_name),
                total_requests: 0,
                total_input_tokens: 0,
                total_output_tokens: 0,
                estimated_cost_pico: 0,
            }, None),
        };
        let mut next = prev;
        next.key_name = crate::text::owned(key_name);
        next.total_requests = next.total_requests + 1;
        match usage {
            Some((i, o)) => {
                next.total_input_tokens = next.total_input_tokens + i;
                next.total_output_tokens = next.total_output_tokens + o;
                let tokens: u64 = i + o;
                assert((tokens as u128) * (price as u128) <= (u64::MAX as u128) * (u64::MAX as u128))
                    by (nonlinear_arith);
                let cost: u128 = (tokens as u128) * (price as u128) / 100;
                next.estimated_cost_pico = next.estimated_cost_pico.saturating_add(cost);
            },
            None => {},
        }
        match pos {
            Some(i) => {
                proof {
                    lemma_update(self.records@, i as int, next);
                }
                let name = self.records[i].0.clone();
                let ghost pre = self.records@;
                self.records.set(i, (name, next));
                assert(self.records@ =~= pre.update(i as int, (pre[i as int].0, next)));
            },
            None => {
                let name = crate::text::owned(key_name);
                proof {
                    lemma_push(self.records@, name, next);
                }
                self.records.push((name, next));
            },
        }
        assert(self@.dom() =~= old_map.dom().insert(key_name@));
    }
}

/// The prompt and completion tokens of a response's `usage`, if any.
fn usage_tokens(response: &Json) -> (r: Option<(u64, u64)>)
    ensures
        r == usage_of(*response),
{
    match response.get("usage") {
        Some(u) => {
            let input = match u.get("prompt_tokens") {
                Some(v) => match v.as_u64() {
                    Some(n) => n,
                    None => 0,
                },
                None => 0,
            };
            let output = match u.get("completion_tokens") {
                Some(v) => match v.as_u64() {
                    Some(n) => n,
                    None => 0,
                },
                None => 0,
            };
            Some((input, output))
        },
        None => None,
    }
}

proof fn lemma_dom_len(s: Seq<(String, KeySpend)>)
    requires
        names_unique(s),
    ensures
        entries_map(s).dom().len() == s.len(),
        entries_map(s).dom().finite(),
    decreases s.len(),
{
    if s.len() == 0 {
        assert(entries_map(s).dom() =~= Set::<Seq<char>>::empty());
    } else {
        let t = s.drop_last();
        assert forall|a: int, b: int| 0 <= a < b < t.len() implies #[trigger] t[a].0@ != #[trigger] t[b].0@ by {
            assert(s[a].0@ != s[b].0@);
        }
        lemma_dom_len(t);
        let last = s.last();
        assert(!has_name(t, last.0@)) by {
            if has_name(t, last.0@) {
                let j = choose|j: int| 0 <= j < t.len() && #[trigger] t[j].0@ == last.0@;
                assert(s[j].0@ != s[s.len() - 1].0@);
            }
        }
        lemma_push(t, last.0, last.1);
        assert(t.push(last) =~= s);
    }
}

} // verus!
