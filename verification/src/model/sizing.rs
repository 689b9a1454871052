//! VRAM sizing of a model, and a fallback that reads the parameter count
//! from the model's name ("7B", "1.5B", "72b").
use vstd::prelude::*;

use crate::backend::{get_backend, spec_quarter_bytes_per_param, spec_vram_mgb, BackendError, BackendKind};

verus! {

/// Why no VRAM estimate could be made.
#[derive(Debug)]
pub enum SizingError {
    BackendUnavailable(String),
}

impl SizingError {
    pub open spec fn spec_message(&self) -> Seq<char> {
        match self {
            SizingError::BackendUnavailable(m) => "backend unavailable: "@ + m@,
        }
    }

    pub fn to_string(&self) -> (r: String)
        ensures
            r@ == self.spec_message(),
    {
        match self {
            SizingError::BackendUnavailable(m) => crate::text::concat2("backend unavailable: ", m.as_str()),
        }
    }
}

/// Estimates the VRAM, in thousandths of a GB, that a model of `params`
/// parameters needs at `dtype` on an engine; engines that are not
/// implemented give an error.
pub fn estimate_vram(params: u64, dtype: &str, backend_kind: BackendKind) -> (r: Result<u64, SizingError>)
    ensures
        match backend_kind {
            BackendKind::Vllm => r == Ok::<u64, SizingError>(
                spec_vram_mgb(params as nat, spec_quarter_bytes_per_param(dtype@) as nat, 130) as u64,
            ),
            BackendKind::Rvllm => r == Ok::<u64, SizingError>(
                spec_vram_mgb(params as nat, spec_quarter_bytes_per_param(dtype@) as nat, 120) as u64,
            ),
            _ => r matches Err(SizingError::BackendUnavailable(m)) && m@ == BackendError::NotImplemented(
                backend_kind,
            ).spec_message(),
        },
{
    match get_backend(backend_kind) {
        Ok(b) => Ok(b.estimate_vram_mgb(params, dtype)),
        Err(e) => Err(SizingError::BackendUnavailable(e.to_string())),
    }
}

/// An ASCII letter.
pub open spec fn is_ascii_letter(c: char) -> bool {
    ('a' <= c && c <= 'z') || ('A' <= c && c <= 'Z')
}

/// A parameter count written in `t` from `i` to `j`: a digit, then digits
/// with at most one '.', then at `j` a 'b' or 'B' that no ASCII letter
/// follows.
pub open spec fn param_match(t: Seq<char>, i: int, j: int) -> bool {
    &&& 0 <= i < j < t.len()
    &&& is_digit(t[i])
    &&& forall|k: int| i <= k < j ==> is_digit(#[trigger] t[k]) || t[k] == '.'
    &&& forall|k1: int, k2: int| i <= k1 < k2 < j ==> !(#[trigger] t[k1] == '.' && #[trigger] t[k2] == '.')
    &&& (t[j] == 'b' || t[j] == 'B')
    &&& (j + 1 == t.len() || !is_ascii_letter(t[j + 1]))
}

/// The number of the first parameter count in a model name ("7" in
/// "Llama-7B", "1.5" in "Qwen2.5-1.5B-Instruct"), if there is one.
pub open spec fn first_param_match(t: Seq<char>) -> Option<Seq<char>> {
    if exists|i: int, j: int| param_match(t, i, j) {
        let (i, j) = choose|i: int, j: int|
            param_match(t, i, j) && forall|i2: int, j2: int| #[trigger] param_match(t, i2, j2) ==> i <= i2;
        Some(t.subrange(i, j))
    } else {
        None
    }
}

proof fn lemma_param_match_end(t: Seq<char>, i: int, j1: int, j2: int)
    requires
        param_match(t, i, j1),
        param_match(t, i, j2),
    ensures
        j1 == j2,
{
    if j1 < j2 {
        assert(is_digit(t[j1]) || t[j1] == '.');
    } else if j2 < j1 {
        assert(is_digit(t[j2]) || t[j2] == '.');
    }
}

proof fn lemma_first_param(t: Seq<char>, i: int, k: int)
    requires
        param_match(t, i, k),
        forall|i2: int, j2: int| 0 <= i2 < i ==> !#[trigger] param_match(t, i2, j2),
    ensures
        first_param_match(t) == Some(t.subrange(i, k)),
{
    assert forall|i2: int, j2: int| #[trigger] param_match(t, i2, j2) implies i <= i2 by {
        if i2 < i {
            assert(!param_match(t, i2, j2));
        }
    }
    let (a, b) = choose|a: int, b: int|
        param_match(t, a, b) && forall|i2: int, j2: int| #[trigger] param_match(t, i2, j2) ==> a <= i2;
    assert(a <= i);
    assert(a == i);
    lemma_param_match_end(t, i, b, k);
}

fn char_is_ascii_letter(c: char) -> (r: bool)
    ensures
        r == is_ascii_letter(c),
{
    ('a' <= c && c <= 'z') || ('A' <= c && c <= 'Z')
}

/// The number of the first parameter count in a model name (see
/// `first_param_match`).
pub fn param_capture(text: &str) -> (r: Option<String>)
    ensures
        match first_param_match(text@) {
            Some(t) => r matches Some(s) && s@ == t,
            None => r is None,
        },
{
    let n = text.unicode_len();
    let mut i: usize = 0;
    while i < n
        invariant
            n == text@.len(),
            i <= n,
            forall|i2: int, j2: int| 0 <= i2 < i ==> !#[trigger] param_match(text@, i2, j2),
        decreases n - i,
    {
        if is_digit_char(text.get_char(i)) {
            let mut k: usize = i + 1;
            let mut seen_dot = false;
            let mut go = true;
            while go && k < n
                invariant
                    n == text@.len(),
                    i < k <= n,
                    is_digit(text@[i as int]),
                    forall|m: int| i <= m < k ==> is_digit(#[trigger] text@[m]) || text@[m] == '.',
                    forall|m1: int, m2: int|
                        i <= m1 < m2 < k ==> !(#[trigger] text@[m1] == '.' && #[trigger] text@[m2] == '.'),
                    seen_dot ==> exists|m: int| i <= m < k && #[trigger] text@[m] == '.',
                    !seen_dot ==> forall|m: int| i <= m < k ==> #[trigger] text@[m] != '.',
                    !go ==> k < n && !is_digit(text@[k as int]) && !(text@[k as int] == '.' && !seen_dot),
                decreases n - k + (if go {
                    1int
                } else {
                    0int
                }),
            {
                let c = text.get_char(k);
                if is_digit_char(c) {
                    k = k + 1;
                } else if c == '.' && !seen_dot {
                    assert(text@[k as int] == '.');
                    seen_dot = true;
                    k = k + 1;
                } else {
                    go = false;
                }
            }
            if k < n {
                let c = text.get_char(k);
                if c == 'b' || c == 'B' {
                    let fits = if k + 1 == n {
                        true
                    } else {
                        !char_is_ascii_letter(text.get_char(k + 1))
                    };
                    if fits {
                        proof {
                            assert(param_match(text@, i as int, k as int));
                            lemma_first_param(text@, i as int, k as int);
                        }
                        return Some(crate::text::owned(text.substring_char(i, k)));
                    }
                }
            }
            proof {
                assert forall|j: int| !#[trigger] param_match(text@, i as int, j) by {
                    if param_match(text@, i as int, j) {
                        if j < k {
                            assert(is_digit(text@[j]) || text@[j] == '.');
                        } else if j > k {
                            assert(is_digit(text@[k as int]) || text@[k as int] == '.');
                            assert(text@[k as int] == '.');
                            let m = choose|m: int| i <= m < k && #[trigger] text@[m] == '.';
                            assert(!(text@[m] == '.' && text@[k as int] == '.'));
                        }
                    }
                }
            }
        } else {
            assert forall|j: int| !#[trigger] param_match(text@, i as int, j) by {}
        }
        i = i + 1;
    }
    None
}

pub open spec fn is_digit(c: char) -> bool {
    '0' <= c && c <= '9'
}

/// The value of a string of decimal digits.
pub open spec fn digits_value(s: Seq<char>) -> nat
    decreases s.len(),
{
    if s.len() == 0 {
        0
    } else {
        digits_value(s.drop_last()) * 10 + ((s.last() as nat) - ('0' as nat)) as nat
    }
}

/// `n` zero digits.
pub open spec fn zeros(n: nat) -> Seq<char> {
    Seq::new(n, |i: int| '0')
}

/// The first nine digits of a fraction, padded with zeros.
pub open spec fn nine_digits(f: Seq<char>) -> Seq<char> {
    if f.len() >= 9 {
        f.take(9)
    } else {
        f + zeros((9 - f.len()) as nat)
    }
}

/// The text is digits, optionally followed by '.' and more digits: the
/// form the capture has.
pub open spec fn is_decimal(t: Seq<char>, k: int) -> bool {
    &&& 1 <= k <= t.len()
    &&& forall|i: int| 0 <= i < k ==> is_digit(#[trigger] t[i])
    &&& (k == t.len() || (t[k] == '.' && forall|i: int| k < i < t.len() ==> is_digit(#[trigger] t[i])))
}

/// The parameter count a decimal number of billions stands for: whole
/// parameters (billionths beyond the ninth decimal are dropped), capped at
/// the largest `u64`. `None` for text that is no such number.
pub open spec fn spec_params_from_text(t: Seq<char>) -> Option<u64> {
    if exists|k: int| is_decimal(t, k) {
        let k = choose|k: int| is_decimal(t, k);
        let whole = digits_value(t.take(k));
        let frac = if k < t.len() {
            digits_value(nine_digits(t.skip(k + 1)))
        } else {
            0
        };
        let v = whole * 1_000_000_000 + frac;
        Some(if v <= u64::MAX {
            v as u64
        } else {
            u64::MAX
        })
    } else {
        None
    }
}

/// `min(x, u64::MAX)`.
pub open spec fn cap(x: nat) -> nat {
    if x <= u64::MAX {
        x
    } else {
        u64::MAX as nat
    }
}

proof fn lemma_cap_step(v: nat, d: nat)
    requires
        d < 10,
    ensures
        cap(cap(v) * 10 + d) == cap(v * 10 + d),
{
    if v > u64::MAX {
        assert(v * 10 + d > u64::MAX) by (nonlinear_arith)
            requires
                v > u64::MAX,
        ;
        assert((u64::MAX as nat) * 10 + d > u64::MAX);
    }
}

proof fn lemma_cap_scale(v: nat, f: nat)
    ensures
        cap(cap(v) * 1_000_000_000 + f) == cap(v * 1_000_000_000 + f),
{
    if v > u64::MAX {
        assert(v * 1_000_000_000 + f > u64::MAX) by (nonlinear_arith)
            requires
                v > u64::MAX,
        ;
        assert((u64::MAX as nat) * 1_000_000_000 + f > u64::MAX) by (nonlinear_arith);
    }
}

proof fn lemma_decimal_unique(t: Seq<char>, k: int, k2: int)
    requires
        is_decimal(t, k),
        is_decimal(t, k2),
    ensures
        k == k2,
{
    if k < k2 {
        assert(is_digit(t[k]));
    } else if k2 < k {
        assert(is_digit(t[k2]));
    }
}

/// Reads a number of billions written as digits with an optional fraction
/// ("7", "1.5", "0.5") as a parameter count (see `spec_params_from_text`).
pub fn params_from_text(text: &str) -> (r: Option<u64>)
    ensures
        r == spec_params_from_text(text@),
{
    let n = text.unicode_len();
    let ghost s = text@;
    let mut k: usize = 0;
    let mut whole: u128 = 0;
    while k < n
        invariant
            k <= n,
            n == s.len(),
            s == text@,
            forall|i: int| 0 <= i < k ==> is_digit(#[trigger] s[i]),
            whole == cap(digits_value(s.take(k as int))),
        ensures
            k < n ==> !is_digit(s[k as int]),
        decreases n - k,
    {
        let c = text.get_char(k);
        if !is_digit_char(c) {
            break;
        }
        let d = (c as u32 - '0' as u32) as u128;
        proof {
            assert(s.take(k + 1).drop_last() =~= s.take(k as int));
            lemma_cap_step(digits_value(s.take(k as int)), d as nat);
        }
        let next = whole * 10 + d;
        whole = if next > u64::MAX as u128 {
            u64::MAX as u128
        } else {
            next
        };
        k = k + 1;
    }
    if k == 0 {
        proof {
            assert forall|kk: int| !is_decimal(s, kk) by {
                if is_decimal(s, kk) {
                    assert(is_digit(s[0]));
                }
            }
        }
        return None;
    }
    let mut frac: u128 = 0;
    if k < n {
        if text.get_char(k) != '.' {
            proof {
                assert forall|kk: int| !is_decimal(s, kk) by {
                    if is_decimal(s, kk) {
                        if kk < k {
                            assert(is_digit(s[kk]));
                        } else if kk > k {
                            assert(is_digit(s[k as int]));
                        }
                    }
                }
            }
            return None;
        }
        let mut j: usize = k + 1;
        let mut taken: usize = 0;
        let ghost f = s.skip(k + 1);
        while j < n
            invariant
                k < n,
                n == s.len(),
                s == text@,
                f == s.skip(k + 1),
                k + 1 <= j <= n,
                s[k as int] == '.',
                forall|i: int| 0 <= i < k ==> is_digit(#[trigger] s[i]),
                taken == j - (k + 1),
                forall|i: int| k < i < j ==> is_digit(#[trigger] s[i]),
                frac == digits_value(f.take(if taken <= 9 { taken as int } else { 9 })),
                frac < pow10((if taken <= 9 { taken as int } else { 9 }) as nat),
            decreases n - j,
        {
            let c = text.get_char(j);
            if !is_digit_char(c) {
                proof {
                    assert forall|kk: int| !is_decimal(s, kk) by {
                        if is_decimal(s, kk) {
                            if kk < k {
                                assert(is_digit(s[kk]));
                            } else if kk > k {
                                assert(is_digit(s[k as int]));
                            } else {
                                assert(is_digit(s[j as int]));
                            }
                        }
                    }
                }
                return None;
            }
            if taken < 9 {
                let d = (c as u32 - '0' as u32) as u128;
                proof {
                    assert(f.take(taken + 1).drop_last() =~= f.take(taken as int));
                    assert(f[taken as int] == s[j as int]);
                    assert(pow10(taken as nat) <= 100_000_000) by {
                        lemma_pow10_mono(taken as nat, 8);
                    }
                }
                frac = frac * 10 + d;
                proof {
                    let g = f.take(taken + 1);
                    assert forall|i: int| 0 <= i < g.len() implies is_digit(#[trigger] g[i]) by {
                        assert(g[i] == s[k + 1 + i]);
                    }
                    lemma_digits_bound(g);
                }
            }
            j = j + 1;
            taken = taken + 1;
        }
        let mut m: usize = if taken <= 9 { taken } else { 9 };
        assert(f.len() == taken);
        assert(pow10(0) == 1);
        assert(frac == digits_value(f.take(if taken <= 9 { taken as int } else { 9 })) * pow10(0));
        while m < 9
            invariant
                m <= 9,
                taken <= 9 ==> m >= taken,
                taken > 9 ==> m == 9,
                f.len() == taken,
                forall|i: int| 0 <= i < f.len() ==> is_digit(#[trigger] f[i]),
                frac == digits_value(f.take(if taken <= 9 { taken as int } else { 9 })) * pow10(
                    (m - (if taken <= 9 { taken as int } else { 9 })) as nat,
                ),
                frac < pow10(m as nat),
            decreases 9 - m,
        {
            proof {
                assert(pow10((m + 1) as nat) == pow10(m as nat) * 10);
                assert(pow10((m + 1 - (if taken <= 9 { taken as int } else { 9 })) as nat) == pow10(
                    (m - (if taken <= 9 { taken as int } else { 9 })) as nat,
                ) * 10);
                assert(pow10(m as nat) <= 1_000_000_000) by {
                    lemma_pow10_mono(m as nat, 9);
                }
                assert(frac * 10 < pow10(m as nat) * 10) by (nonlinear_arith)
                    requires
                        frac < pow10(m as nat),
                ;
                let base = digits_value(f.take(if taken <= 9 { taken as int } else { 9 }));
                let x = pow10((m - (if taken <= 9 { taken as int } else { 9 })) as nat);
                assert(base * x * 10 == base * (x * 10)) by (nonlinear_arith);
            }
            frac = frac * 10;
            m = m + 1;
        }
        proof {
            lemma_nine_digits(f, frac as nat);
        }
    }
    proof {
        assert(is_decimal(s, k as int));
        let kk = choose|kk: int| is_decimal(s, kk);
        lemma_decimal_unique(s, k as int, kk);
        assert(s.take(k as int) == s.take(kk));
        lemma_cap_scale(digits_value(s.take(k as int)), frac as nat);
    }
    proof {
        lemma_pow10_mono(9, 9);
    }
    assert(whole <= u64::MAX);
    assert(frac < 1_000_000_000);
    let v = whole * 1_000_000_000 + frac;
    if v > u64::MAX as u128 {
        Some(u64::MAX)
    } else {
        Some(v as u64)
    }
}

fn is_digit_char(c: char) -> (r: bool)
    ensures
        r == is_digit(c),
{
    '0' <= c && c <= '9'
}

proof fn lemma_digits_bound(s: Seq<char>)
    requires
        forall|i: int| 0 <= i < s.len() ==> is_digit(#[trigger] s[i]),
    ensures
        digits_value(s) < pow10(s.len()),
    decreases s.len(),
{
    if s.len() > 0 {
        let t = s.drop_last();
        assert forall|i: int| 0 <= i < t.len() implies is_digit(#[trigger] t[i]) by {
            assert(t[i] == s[i]);
        }
        lemma_digits_bound(t);
        assert(is_digit(s[s.len() - 1]));
        assert(digits_value(t) * 10 + 9 < pow10(t.len()) * 10) by (nonlinear_arith)
            requires
                digits_value(t) < pow10(t.len()),
        ;
    }
}

/// `10^n`.
pub open spec fn pow10(n: nat) -> nat
    decreases n,
{
    if n == 0 {
        1
    } else {
        pow10((n - 1) as nat) * 10
    }
}

#[verifier::spinoff_prover]
proof fn lemma_nine_digits(f: Seq<char>, frac: nat)
    requires
        forall|i: int| 0 <= i < f.len() ==> is_digit(#[trigger] f[i]),
        frac == digits_value(f.take(if f.len() <= 9 { f.len() as int } else { 9 })) * pow10(
            (9 - (if f.len() <= 9 { f.len() as int } else { 9 })) as nat,
        ),
    ensures
        frac == digits_value(nine_digits(f)),
{
    if f.len() < 9 {
        let z = (9 - f.len()) as nat;
        assert(f.take(f.len() as int) =~= f);
        assert((if f.len() <= 9 { f.len() as int } else { 9 }) == f.len());
        assert(digits_value(f.take(f.len() as int)) == digits_value(f));
        assert(frac == digits_value(f) * pow10(z));
        lemma_pad_zeros(f, z);
        assert(nine_digits(f) == f + zeros(z));
        assert(digits_value(nine_digits(f)) == digits_value(f) * pow10(z));
    } else {
        assert(pow10(0) == 1);
        assert((9 - (if f.len() <= 9 { f.len() as int } else { 9 })) as nat == 0);
        assert(f.take(if f.len() <= 9 { f.len() as int } else { 9 }) == f.take(9));
        assert(frac == digits_value(f.take(9)) * pow10(0));
        assert(nine_digits(f) == f.take(9));
        let d = digits_value(f.take(9));
        assert(d * pow10(0) == d) by (nonlinear_arith)
            requires
                pow10(0) == 1,
        ;
        assert(frac == d);
        assert(digits_value(nine_digits(f)) == digits_value(f.take(9)));
    }
}

proof fn lemma_pow10_mono(a: nat, b: nat)
    requires
        a <= b,
    ensures
        pow10(a) <= pow10(b),
        pow10(9) == 1_000_000_000,
        pow10(8) == 100_000_000,
    decreases b - a,
{
    reveal_with_fuel(pow10, 10);
    if a < b {
        lemma_pow10_mono(a, (b - 1) as nat);
        assert(pow10(b) == pow10((b - 1) as nat) * 10);
    }
}

proof fn lemma_pad_zeros(f: Seq<char>, z: nat)
    ensures
        digits_value(f + zeros(z)) == digits_value(f) * pow10(z),
    decreases z,
{
    assert(pow10(0) == 1);
    if z == 0 {
        assert(f + zeros(0) =~= f);
    } else {
        let g = f + zeros(z);
        let h = f + zeros((z - 1) as nat);
        assert(g.drop_last() =~= h);
        assert(g.last() == '0');
        assert(digits_value(g) == digits_value(h) * 10);
        lemma_pad_zeros(f, (z - 1) as nat);
        assert(pow10(z) == pow10((z - 1) as nat) * 10);
        assert(digits_value(f) * pow10((z - 1) as nat) * 10 == digits_value(f) * pow10(z)) by (nonlinear_arith)
            requires
                pow10(z) == pow10((z - 1) as nat) * 10,
        ;
    }
}

/// Reads the parameter count from a model's name ("Llama-3.1-8B" gives
/// eight billion); `None` when the name has no such pattern.
pub fn estimate_params_from_name(model_id: &str) -> (r: Option<u64>)
    ensures
        r == match first_param_match(model_id@) {
            Some(t) => spec_params_from_text(t),
            None => None,
        },
{
    match param_capture(model_id) {
        Some(t) => params_from_text(t.as_str()),
        None => None,
    }
}

} // verus!
