//! Character-level string helpers shared by the library.
use vstd::prelude::*;

verus! {

/// What `str::to_lowercase` returns for a string, as a sequence of chars.
pub uninterp spec fn spec_to_lowercase(s: Seq<char>) -> Seq<char>;

/// What `str::to_uppercase` returns for a string, as a sequence of chars.
pub uninterp spec fn spec_to_uppercase(s: Seq<char>) -> Seq<char>;

/// What `char::is_alphanumeric` returns for a char.
pub uninterp spec fn spec_is_alphanumeric(c: char) -> bool;

/// Calls `str::to_lowercase`. The result is the name `spec_to_lowercase`
/// applied to the input's characters (Unicode lowercase mapping, which the
/// contract does not spell out).
#[verifier::external_body]
pub fn to_lowercase(s: &str) -> (r: String)
    ensures
        r@ == spec_to_lowercase(s@),
{
    s.to_lowercase()
}

/// Calls `str::to_uppercase`. The result is the name `spec_to_uppercase`
/// applied to the input's characters (Unicode uppercase mapping, which the
/// contract does not spell out).
#[verifier::external_body]
pub fn to_uppercase(s: &str) -> (r: String)
    ensures
        r@ == spec_to_uppercase(s@),
{
    s.to_uppercase()
}

/// Calls `char::is_alphanumeric`. The result is the name
/// `spec_is_alphanumeric` applied to the char (Unicode Alphabetic or
/// Numeric, which the contract does not spell out).
#[verifier::external_body]
pub fn is_alphanumeric(c: char) -> (r: bool)
    ensures
        r == spec_is_alphanumeric(c),
{
    c.is_alphanumeric()
}

/// Two string slices are equal exactly when they hold the same
/// characters.
pub fn str_eq(a: &str, b: &str) -> (r: bool)
    ensures
        r == (a@ == b@),
{
    let n = a.unicode_len();
    if n != b.unicode_len() {
        return false;
    }
    let mut i: usize = 0;
    while i < n
        invariant
            n == a@.len(),
            n == b@.len(),
            i <= n,
            forall|j: int| 0 <= j < i ==> a@[j] == b@[j],
        decreases n - i,
    {
        if a.get_char(i) != b.get_char(i) {
            return false;
        }
        i = i + 1;
    }
    assert(a@ =~= b@);
    true
}

/// Calls `String::push`, which appends one char.
#[verifier::external_body]
pub fn push_char(s: &mut String, c: char)
    ensures
        final(s)@ == old(s)@.push(c),
{
    s.push(c)
}

/// A fresh `String` holding the characters of `s`.
pub fn owned(s: &str) -> (r: String)
    ensures
        r@ == s@,
{
    String::from_str(s)
}

/// The concatenation of two strings.
pub fn concat2(a: &str, b: &str) -> (r: String)
    ensures
        r@ == a@ + b@,
{
    let mut r = String::from_str(a);
    r.append(b);
    r
}

/// The concatenation of three strings.
pub fn concat3(a: &str, b: &str, c: &str) -> (r: String)
    ensures
        r@ == a@ + b@ + c@,
{
    let mut r = String::from_str(a);
    r.append(b);
    r.append(c);
    r
}

/// The decimal digit for `d < 10`.
pub open spec fn digit_char(d: nat) -> char {
    if d == 0 { '0' } else if d == 1 { '1' } else if d == 2 { '2' } else if d == 3 { '3' } else if d
        == 4 { '4' } else if d == 5 { '5' } else if d == 6 { '6' } else if d == 7 { '7' } else if d
        == 8 { '8' } else { '9' }
}

/// The decimal text of `n`, without leading zeros ("0" for zero).
pub open spec fn decimal(n: nat) -> Seq<char>
    decreases n,
{
    if n < 10 {
        seq![digit_char(n)]
    } else {
        decimal(n / 10).push(digit_char(n % 10))
    }
}

fn digit(d: u64) -> (c: char)
    requires
        d < 10,
    ensures
        c == digit_char(d as nat),
{
    if d == 0 { '0' } else if d == 1 { '1' } else if d == 2 { '2' } else if d == 3 { '3' } else if d
        == 4 { '4' } else if d == 5 { '5' } else if d == 6 { '6' } else if d == 7 { '7' } else if d
        == 8 { '8' } else { '9' }
}

/// The decimal text of `n`, as `u64::to_string` gives it.
pub fn u64_to_string(n: u64) -> (r: String)
    ensures
        r@ == decimal(n as nat),
    decreases n,
{
    if n < 10 {
        let mut r = String::new();
        push_char(&mut r, digit(n));
        r
    } else {
        let mut r = u64_to_string(n / 10);
        push_char(&mut r, digit(n % 10));
        r
    }
}

/// White_Space characters of the Unicode standard, the set that
/// `char::is_whitespace` and `str::trim` use.
pub open spec fn is_space(c: char) -> bool {
    ||| ('\u{9}' <= c && c <= '\u{d}')
    ||| c == ' '
    ||| c == '\u{85}'
    ||| c == '\u{a0}'
    ||| c == '\u{1680}'
    ||| ('\u{2000}' <= c && c <= '\u{200a}')
    ||| c == '\u{2028}'
    ||| c == '\u{2029}'
    ||| c == '\u{202f}'
    ||| c == '\u{205f}'
    ||| c == '\u{3000}'
}

pub fn char_is_space(c: char) -> (r: bool)
    ensures
        r == is_space(c),
{
    ('\u{9}' <= c && c <= '\u{d}') || c == ' ' || c == '\u{85}' || c == '\u{a0}' || c == '\u{1680}'
        || ('\u{2000}' <= c && c <= '\u{200a}') || c == '\u{2028}' || c == '\u{2029}' || c
        == '\u{202f}' || c == '\u{205f}' || c == '\u{3000}'
}

/// Number of leading chars of `s` that satisfy `p`.
pub open spec fn leading_count(s: Seq<char>, p: spec_fn(char) -> bool) -> nat
    decreases s.len(),
{
    if s.len() > 0 && p(s[0]) {
        1 + leading_count(s.drop_first(), p)
    } else {
        0
    }
}

/// Number of trailing chars of `s` that satisfy `p`.
pub open spec fn trailing_count(s: Seq<char>, p: spec_fn(char) -> bool) -> nat
    decreases s.len(),
{
    if s.len() > 0 && p(s.last()) {
        1 + trailing_count(s.drop_last(), p)
    } else {
        0
    }
}

/// `s` without the leading and trailing chars that satisfy `p`.
pub open spec fn trim_by(s: Seq<char>, p: spec_fn(char) -> bool) -> Seq<char> {
    let a = leading_count(s, p);
    let rest = s.skip(a as int);
    rest.take(rest.len() - trailing_count(rest, p))
}

/// `s` without leading and trailing white space, as `str::trim` gives it.
pub open spec fn spec_trim(s: Seq<char>) -> Seq<char> {
    trim_by(s, |c: char| is_space(c))
}

/// `s` without leading and trailing '-', as `str::trim_matches('-')` gives
/// it.
pub open spec fn spec_trim_dashes(s: Seq<char>) -> Seq<char> {
    trim_by(s, |c: char| c == '-')
}

pub open spec fn trim_pred(dashes: bool) -> spec_fn(char) -> bool {
    if dashes {
        |c: char| c == '-'
    } else {
        |c: char| is_space(c)
    }
}

proof fn lemma_leading_count_bound(s: Seq<char>, p: spec_fn(char) -> bool)
    ensures
        leading_count(s, p) <= s.len(),
        forall|i: int| 0 <= i < leading_count(s, p) ==> p(#[trigger] s[i]),
        leading_count(s, p) < s.len() ==> !p(s[leading_count(s, p) as int]),
    decreases s.len(),
{
    if s.len() > 0 && p(s[0]) {
        lemma_leading_count_bound(s.drop_first(), p);
        assert forall|i: int| 0 <= i < leading_count(s, p) implies p(#[trigger] s[i]) by {
            if i > 0 {
                assert(s[i] == s.drop_first()[i - 1]);
            }
        }
    }
}

proof fn lemma_trailing_count_bound(s: Seq<char>, p: spec_fn(char) -> bool)
    ensures
        trailing_count(s, p) <= s.len(),
        forall|i: int| s.len() - trailing_count(s, p) <= i < s.len() ==> p(#[trigger] s[i]),
        trailing_count(s, p) < s.len() ==> !p(s[s.len() - 1 - trailing_count(s, p)]),
    decreases s.len(),
{
    if s.len() > 0 && p(s.last()) {
        lemma_trailing_count_bound(s.drop_last(), p);
        assert forall|i: int| s.len() - trailing_count(s, p) <= i < s.len() implies p(
            #[trigger] s[i],
        ) by {
            if i < s.len() - 1 {
                assert(s[i] == s.drop_last()[i]);
            }
        }
    }
}

fn trim_char_matches(c: char, dashes: bool) -> (r: bool)
    ensures
        r == trim_pred(dashes)(c),
{
    if dashes {
        c == '-'
    } else {
        char_is_space(c)
    }
}

/// `s` without the leading and trailing chars that `trim_pred(dashes)`
/// selects.
fn trim_with(s: &str, dashes: bool) -> (r: String)
    ensures
        r@ == trim_by(s@, trim_pred(dashes)),
{
    let ghost p = trim_pred(dashes);
    let n = s.unicode_len();
    let mut start: usize = 0;
    proof {
        lemma_leading_count_bound(s@, p);
    }
    while start < n && trim_char_matches(s.get_char(start), dashes)
        invariant
            p == trim_pred(dashes),
            n == s@.len(),
            0 <= start <= leading_count(s@, p),
            leading_count(s@, p) <= s@.len(),
            leading_count(s@, p) < s@.len() ==> !p(s@[leading_count(s@, p) as int]),
            forall|i: int| 0 <= i < leading_count(s@, p) ==> p(#[trigger] s@[i]),
        decreases n - start,
    {
        start = start + 1;
    }
    assert(start == leading_count(s@, p));
    let ghost rest = s@.skip(start as int);
    let mut end: usize = n;
    proof {
        lemma_trailing_count_bound(rest, p);
    }
    while end > start && trim_char_matches(s.get_char(end - 1), dashes)
        invariant
            p == trim_pred(dashes),
            n == s@.len(),
            start <= end <= n,
            rest == s@.skip(start as int),
            n - end <= trailing_count(rest, p),
            trailing_count(rest, p) <= rest.len(),
            trailing_count(rest, p) < rest.len() ==> !p(rest[rest.len() - 1 - trailing_count(rest, p)]),
        decreases end,
    {
        assert(rest[end - 1 - start] == s@[end - 1]);
        end = end - 1;
    }
    proof {
        if n - end < trailing_count(rest, p) {
            assert(end > start);
            assert(rest[end - 1 - start] == s@[end - 1]);
        }
    }
    let sub = s.substring_char(start, end);
    let r = owned(sub);
    assert(r@ =~= trim_by(s@, p));
    r
}

/// Returns `s` with leading and trailing white space removed, as
/// `str::trim` does.
pub fn trim(s: &str) -> (r: String)
    ensures
        r@ == spec_trim(s@),
{
    let r = trim_with(s, false);
    assert(trim_pred(false) == |c: char| is_space(c));
    r
}

/// Returns `s` with leading and trailing '-' removed, as
/// `str::trim_matches('-')` does.
pub fn trim_dashes(s: &str) -> (r: String)
    ensures
        r@ == spec_trim_dashes(s@),
{
    let r = trim_with(s, true);
    assert(trim_pred(true) == |c: char| c == '-');
    r
}

/// `s` with every char mapped as the sanitizer maps it ('/', '.', '_'
/// become '-') and only alphanumerics and '-' kept.
pub open spec fn slug_chars(s: Seq<char>) -> Seq<char>
    decreases s.len(),
{
    if s.len() == 0 {
        Seq::empty()
    } else {
        let c = s.last();
        let m = if c == '/' || c == '.' || c == '_' {
            '-'
        } else {
            c
        };
        let rest = slug_chars(s.drop_last());
        if spec_is_alphanumeric(m) || m == '-' {
            rest.push(m)
        } else {
            rest
        }
    }
}

/// A model id made into an endpoint name: lowercased, '/', '.' and '_'
/// turned into '-', every other char that is not alphanumeric dropped,
/// and leading and trailing '-' removed.
pub open spec fn spec_slug(id: Seq<char>) -> Seq<char> {
    spec_trim_dashes(slug_chars(spec_to_lowercase(id)))
}

/// Makes a model id into a valid endpoint name (see `spec_slug`).
pub fn slug(id: &str) -> (r: String)
    ensures
        r@ == spec_slug(id@),
{
    let lower = to_lowercase(id);
    let n = lower.as_str().unicode_len();
    let mut kept = String::new();
    let mut i: usize = 0;
    while i < n
        invariant
            n == lower@.len(),
            i <= n,
            kept@ == slug_chars(lower@.take(i as int)),
        decreases n - i,
    {
        let c = lower.as_str().get_char(i);
        let m = if c == '/' || c == '.' || c == '_' {
            '-'
        } else {
            c
        };
        assert(lower@.take(i + 1).drop_last() =~= lower@.take(i as int));
        if is_alphanumeric(m) || m == '-' {
            push_char(&mut kept, m);
        }
        i = i + 1;
    }
    assert(lower@.take(n as int) =~= lower@);
    trim_dashes(kept.as_str())
}


/// `p` is a prefix of `s`.
pub open spec fn has_prefix(s: Seq<char>, p: Seq<char>) -> bool {
    p.len() <= s.len() && s.take(p.len() as int) == p
}

/// `s` without the leading `p`, or `None` where `s` does not start with
/// `p`, as `str::strip_prefix` gives it.
pub fn strip_prefix(s: &str, p: &str) -> (r: Option<String>)
    ensures
        match r {
            Some(t) => has_prefix(s@, p@) && t@ == s@.skip(p@.len() as int),
            None => !has_prefix(s@, p@),
        },
{
    let n = s.unicode_len();
    let m = p.unicode_len();
    if m > n {
        return None;
    }
    let head = s.substring_char(0, m);
    if str_eq(head, p) {
        Some(owned(s.substring_char(m, n)))
    } else {
        None
    }
}

/// `s` begins with `p`, as `str::starts_with` says.
pub fn starts_with(s: &str, p: &str) -> (r: bool)
    ensures
        r == has_prefix(s@, p@),
{
    let n = s.unicode_len();
    let m = p.unicode_len();
    if m > n {
        return false;
    }
    str_eq(s.substring_char(0, m), p)
}


/// The two-digit text of `n < 100`, with a leading zero below ten.
pub open spec fn two_digits(n: nat) -> Seq<char> {
    seq![digit_char(n / 10), digit_char(n % 10)]
}

/// The number of whole cents in `pico` picodollars, rounded to the nearest
/// cent, halves up.
pub open spec fn cents_of(pico: nat) -> nat {
    (pico + 5_000_000_000) / 10_000_000_000
}

/// `pico` picodollars as dollars with two decimals ("12.34").
pub open spec fn dollars_text(pico: nat) -> Seq<char> {
    decimal(cents_of(pico) / 100) + "."@ + two_digits(cents_of(pico) % 100)
}

/// Renders an amount of picodollars as dollars with two decimals, rounded
/// to the nearest cent.
pub fn dollars_2dp(pico: u64) -> (r: String)
    ensures
        r@ == dollars_text(pico as nat),
{
    let cents: u64 = ((pico as u128 + 5_000_000_000u128) / 10_000_000_000u128) as u64;
    let mut r = u64_to_string(cents / 100);
    r.append(".");
    push_char(&mut r, digit((cents % 100) / 10));
    push_char(&mut r, digit(cents % 10));
    proof {
        reveal_strlit(".");
        assert((cents % 100) % 10 == cents % 10) by (nonlinear_arith);
    }
    assert(r@ =~= dollars_text(pico as nat));
    r
}


/// `p` occurs in `s`.
pub open spec fn has_substring(s: Seq<char>, p: Seq<char>) -> bool {
    exists|i: int| 0 <= i <= s.len() - p.len() && #[trigger] s.subrange(i, i + p.len()) == p
}

/// `s` contains `p`, as `str::contains` with a string pattern says.
pub fn contains_str(s: &str, p: &str) -> (r: bool)
    ensures
        r == has_substring(s@, p@),
{
    let n = s.unicode_len();
    let m = p.unicode_len();
    if m > n {
        proof {
            assert forall|i: int| !(0 <= i <= s@.len() - p@.len() && #[trigger] s@.subrange(i, i + p@.len()) == p@) by {}
        }
        return false;
    }
    let mut i: usize = 0;
    while i <= n - m
        invariant
            m <= n,
            n == s@.len(),
            m == p@.len(),
            forall|j: int| 0 <= j < i ==> #[trigger] s@.subrange(j, j + m) != p@,
        decreases n - m + 1 - i,
    {
        if str_eq(s.substring_char(i, i + m), p) {
            return true;
        }
        if i == n - m {
            return false;
        }
        i = i + 1;
    }
    false
}

/// `s` with every '/' turned into '-'.
pub open spec fn slashes_to_dashes(s: Seq<char>) -> Seq<char> {
    s.map_values(|c: char| if c == '/' { '-' } else { c })
}

/// Replaces every '/' of `s` by '-', as `str::replace('/', "-")` does.
pub fn replace_slashes(s: &str) -> (r: String)
    ensures
        r@ == slashes_to_dashes(s@),
{
    let n = s.unicode_len();
    let mut r = String::new();
    let mut i: usize = 0;
    while i < n
        invariant
            i <= n,
            n == s@.len(),
            r@ == slashes_to_dashes(s@.take(i as int)),
        decreases n - i,
    {
        let c = s.get_char(i);
        push_char(&mut r, if c == '/' { '-' } else { c });
        assert(slashes_to_dashes(s@.take(i + 1)) =~= slashes_to_dashes(s@.take(i as int)).push(
            if c == '/' { '-' } else { c },
        ));
        i = i + 1;
    }
    assert(s@.take(n as int) =~= s@);
    r
}

proof fn lemma_slug_chars_kept(s: Seq<char>)
    ensures
        forall|i: int|
            0 <= i < slug_chars(s).len() ==> #[trigger] slug_chars(s)[i] == '-' || spec_is_alphanumeric(
                slug_chars(s)[i],
            ),
    decreases s.len(),
{
    if s.len() > 0 {
        let rest = slug_chars(s.drop_last());
        lemma_slug_chars_kept(s.drop_last());
        let c = s.last();
        let m = if c == '/' || c == '.' || c == '_' {
            '-'
        } else {
            c
        };
        if spec_is_alphanumeric(m) || m == '-' {
            assert(slug_chars(s) == rest.push(m));
            assert forall|i: int| 0 <= i < slug_chars(s).len() implies #[trigger] slug_chars(s)[i] == '-'
                || spec_is_alphanumeric(slug_chars(s)[i]) by {
                if i < rest.len() {
                    assert(slug_chars(s)[i] == rest[i]);
                }
            }
        } else {
            assert(slug_chars(s) == rest);
        }
    }
}

/// An endpoint name made from a model id holds only '-' and alphanumeric
/// chars, and neither starts nor ends with '-'.
pub proof fn law_slug_shape(id: Seq<char>)
    ensures
        forall|i: int|
            0 <= i < spec_slug(id).len() ==> #[trigger] spec_slug(id)[i] == '-' || spec_is_alphanumeric(
                spec_slug(id)[i],
            ),
        spec_slug(id).len() > 0 ==> spec_slug(id)[0] != '-' && spec_slug(id).last() != '-',
{
    let k = slug_chars(spec_to_lowercase(id));
    let p = |c: char| c == '-';
    lemma_slug_chars_kept(spec_to_lowercase(id));
    lemma_leading_count_bound(k, p);
    let a = leading_count(k, p);
    let rest = k.skip(a as int);
    lemma_trailing_count_bound(rest, p);
    let t = trailing_count(rest, p);
    let r = spec_slug(id);
    assert(r == rest.take(rest.len() - t));
    assert forall|i: int| 0 <= i < r.len() implies #[trigger] r[i] == '-' || spec_is_alphanumeric(r[i]) by {
        assert(r[i] == k[i + a]);
    }
    if r.len() > 0 {
        assert(r[0] == k[a as int]);
        assert(r.last() == rest[rest.len() - 1 - t]);
    }
}

} // verus!
