//! Character-level helpers on `str`: Unicode whitespace, trimming, and
//! decimal numbers in the form that `u64::from_str` accepts.

use vstd::prelude::*;
use vstd::string::*;

verus! {

/// The characters with the Unicode `White_Space` property.
pub open spec fn is_white_space(c: char) -> bool {
    let v = c as u32;
    ||| 0x9 <= v <= 0xd
    ||| v == 0x20
    ||| v == 0x85
    ||| v == 0xa0
    ||| v == 0x1680
    ||| 0x2000 <= v <= 0x200a
    ||| v == 0x2028
    ||| v == 0x2029
    ||| v == 0x202f
    ||| v == 0x205f
    ||| v == 0x3000
}

/// Whether `c` has the Unicode `White_Space` property.
pub fn is_whitespace(c: char) -> (r: bool)
    ensures
        r == is_white_space(c),
{
    let v = c as u32;
    (0x9 <= v && v <= 0xd) || v == 0x20 || v == 0x85 || v == 0xa0 || v == 0x1680 || (0x2000 <= v
        && v <= 0x200a) || v == 0x2028 || v == 0x2029 || v == 0x202f || v == 0x205f || v == 0x3000
}

} // verus!

verus! {

/// `s` without its leading whitespace.
pub open spec fn skip_white_space(s: Seq<char>) -> Seq<char>
    decreases s.len(),
{
    if s.len() > 0 && is_white_space(s[0]) {
        skip_white_space(s.drop_first())
    } else {
        s
    }
}

/// `s` without its trailing whitespace.
pub open spec fn drop_trailing_white_space(s: Seq<char>) -> Seq<char>
    decreases s.len(),
{
    if s.len() > 0 && is_white_space(s.last()) {
        drop_trailing_white_space(s.drop_last())
    } else {
        s
    }
}

/// `s` without leading and trailing whitespace.
pub open spec fn trimmed(s: Seq<char>) -> Seq<char> {
    drop_trailing_white_space(skip_white_space(s))
}

proof fn lemma_skip_white_space_prefix(s: Seq<char>, i: int)
    requires
        0 <= i <= s.len(),
        forall|k: int| 0 <= k < i ==> is_white_space(#[trigger] s[k]),
    ensures
        skip_white_space(s) == skip_white_space(s.skip(i)),
    decreases i,
{
    if i == 0 {
        assert(s.skip(0) =~= s);
    } else {
        assert(is_white_space(s[0]));
        let t = s.drop_first();
        assert forall|k: int| 0 <= k < i - 1 implies is_white_space(#[trigger] t[k]) by {
            assert(is_white_space(s[k + 1]));
        }
        lemma_skip_white_space_prefix(t, i - 1);
        assert(t.skip(i - 1) =~= s.skip(i));
    }
}

proof fn lemma_drop_trailing_suffix(s: Seq<char>, j: int)
    requires
        0 <= j <= s.len(),
        forall|k: int| j <= k < s.len() ==> is_white_space(#[trigger] s[k]),
    ensures
        drop_trailing_white_space(s) == drop_trailing_white_space(s.take(j)),
    decreases s.len() - j,
{
    if j == s.len() {
        assert(s.take(j) =~= s);
    } else {
        assert(is_white_space(s[s.len() - 1]));
        let t = s.drop_last();
        assert forall|k: int| j <= k < t.len() implies is_white_space(#[trigger] t[k]) by {
            assert(is_white_space(s[k]));
        }
        lemma_drop_trailing_suffix(t, j);
        assert(t.take(j) =~= s.take(j));
    }
}

/// `s` without leading and trailing Unicode whitespace.
pub fn trim(s: &str) -> (r: &str)
    ensures
        r@ == trimmed(s@),
{
    let n = s.unicode_len();
    let mut i: usize = 0;
    loop
        invariant
            n == s@.len(),
            i <= n,
            forall|k: int| 0 <= k < i ==> is_white_space(#[trigger] s@[k]),
        ensures
            i <= n,
            forall|k: int| 0 <= k < i ==> is_white_space(#[trigger] s@[k]),
            i == n || !is_white_space(s@[i as int]),
        decreases n - i,
    {
        if i == n {
            break;
        }
        if !is_whitespace(s.get_char(i)) {
            break;
        }
        i = i + 1;
    }
    let ghost rest = s@.skip(i as int);
    proof {
        lemma_skip_white_space_prefix(s@, i as int);
        if i < n {
            assert(rest[0] == s@[i as int]);
        }
        assert(skip_white_space(rest) == rest);
    }
    let mut j: usize = n;
    loop
        invariant
            n == s@.len(),
            i <= j <= n,
            rest == s@.skip(i as int),
            forall|k: int| j <= k < n ==> is_white_space(#[trigger] s@[k]),
        ensures
            i <= j <= n,
            forall|k: int| j <= k < n ==> is_white_space(#[trigger] s@[k]),
            j == i || !is_white_space(s@[j - 1]),
        decreases j,
    {
        if j == i {
            break;
        }
        if !is_whitespace(s.get_char(j - 1)) {
            break;
        }
        j = j - 1;
    }
    proof {
        let m = (j - i) as int;
        assert forall|k: int| m <= k < rest.len() implies is_white_space(#[trigger] rest[k]) by {
            assert(rest[k] == s@[k + i]);
        }
        lemma_drop_trailing_suffix(rest, m);
        let kept = rest.take(m);
        assert(kept =~= s@.subrange(i as int, j as int));
        if m > 0 {
            assert(kept.last() == s@[j - 1]);
        }
        assert(drop_trailing_white_space(kept) == kept);
    }
    s.substring_char(i, j)
}

} // verus!

verus! {

/// An ASCII decimal digit.
pub open spec fn is_digit(c: char) -> bool {
    48 <= (c as u32) <= 57
}

/// Every character of `s` is an ASCII decimal digit.
pub open spec fn all_digits(s: Seq<char>) -> bool {
    forall|i: int| 0 <= i < s.len() ==> is_digit(#[trigger] s[i])
}

/// The number that the decimal digits `s` spell (most significant first).
pub open spec fn digits_value(s: Seq<char>) -> nat
    decreases s.len(),
{
    if s.len() == 0 {
        0
    } else {
        digits_value(s.drop_last()) * 10 + ((s.last() as u32) - 48) as nat
    }
}

/// `s` without one leading `+`, if it has one.
pub open spec fn unsigned_digits(s: Seq<char>) -> Seq<char> {
    if s.len() > 0 && s[0] == '+' {
        s.drop_first()
    } else {
        s
    }
}

/// What `u64::from_str` accepts: an optional `+`, then one or more ASCII
/// digits whose value fits in a `u64`.
pub open spec fn decimal_u64(s: Seq<char>) -> Option<u64> {
    let d = unsigned_digits(s);
    if d.len() > 0 && all_digits(d) && digits_value(d) <= u64::MAX {
        Some(digits_value(d) as u64)
    } else {
        None
    }
}

proof fn lemma_digits_value_prefix(s: Seq<char>, j: int)
    requires
        0 <= j <= s.len(),
    ensures
        digits_value(s.take(j)) <= digits_value(s),
    decreases s.len() - j,
{
    if j < s.len() {
        let t = s.drop_last();
        lemma_digits_value_prefix(t, j);
        assert(t.take(j) =~= s.take(j));
    } else {
        assert(s.take(j) =~= s);
    }
}

proof fn lemma_step_fits(v: u64, d: u64)
    requires
        d <= 9,
    ensures
        v <= (u64::MAX - d) / 10 ==> v * 10 + d <= u64::MAX,
        v > (u64::MAX - d) / 10 ==> v * 10 + d > u64::MAX,
{
    assert(v <= (u64::MAX - d) / 10 ==> v * 10 + d <= u64::MAX) by (nonlinear_arith)
        requires
            d <= 9,
    ;
    assert(v > (u64::MAX - d) / 10 ==> v * 10 + d > u64::MAX) by (nonlinear_arith)
        requires
            d <= 9,
    ;
}

/// Parses `s` as `u64::from_str` does: an optional `+`, then decimal digits,
/// `None` when anything else is there or the value does not fit.
pub fn parse_u64(s: &str) -> (r: Option<u64>)
    ensures
        r == decimal_u64(s@),
{
    let n = s.unicode_len();
    let mut i: usize = 0;
    if n > 0 && s.get_char(0) == '+' {
        i = 1;
    }
    let ghost d = s@.skip(i as int);
    assert(d =~= unsigned_digits(s@));
    if i == n {
        return None;
    }
    let mut v: u64 = 0;
    let mut k: usize = i;
    while k < n
        invariant
            n == s@.len(),
            i <= k <= n,
            d == s@.skip(i as int),
            d == unsigned_digits(s@),
            v == digits_value(s@.subrange(i as int, k as int)),
            all_digits(s@.subrange(i as int, k as int)),
        decreases n - k,
    {
        let c = s.get_char(k);
        let cv = c as u32;
        if cv < 48 || cv > 57 {
            assert(d[k - i] == s@[k as int]);
            assert(!is_digit(d[k - i]));
            return None;
        }
        let dv = (cv - 48) as u64;
        let ghost next = s@.subrange(i as int, k + 1);
        assert(next.drop_last() =~= s@.subrange(i as int, k as int));
        assert(next.last() == c);
        assert(digits_value(next) == v * 10 + dv);
        proof {
            lemma_step_fits(v, dv);
        }
        if v > (u64::MAX - dv) / 10 {
            proof {
                if all_digits(d) {
                    assert(d.take(k + 1 - i) =~= next);
                    lemma_digits_value_prefix(d, k + 1 - i);
                }
            }
            return None;
        }
        v = v * 10 + dv;
        k = k + 1;
        assert forall|j: int| 0 <= j < next.len() implies is_digit(#[trigger] next[j]) by {
            if j < next.len() - 1 {
                assert(next[j] == s@.subrange(i as int, k - 1)[j]);
            }
        }
    }
    assert(s@.subrange(i as int, n as int) =~= d);
    Some(v)
}

} // verus!

verus! {

/// `String::push`: appends `c` to `s`, as std documents.
#[verifier::external_body]
pub fn push_char(s: &mut String, c: char)
    ensures
        final(s)@ == old(s)@.push(c),
{
    s.push(c)
}

/// `String::pop`: removes the last character of `s` and returns it, or
/// returns `None` and leaves `s` as it is when `s` is empty, as std documents.
#[verifier::external_body]
pub fn pop_char(s: &mut String) -> (r: Option<char>)
    ensures
        old(s)@.len() == 0 ==> r is None && final(s)@ == old(s)@,
        old(s)@.len() > 0 ==> r == Some(old(s)@.last()) && final(s)@ == old(s)@.drop_last(),
{
    s.pop()
}

} // verus!

verus! {

proof fn lemma_skip_white_space_len(s: Seq<char>)
    ensures
        skip_white_space(s).len() <= s.len(),
    decreases s.len(),
{
    if s.len() > 0 && is_white_space(s[0]) {
        lemma_skip_white_space_len(s.drop_first());
    }
}

proof fn lemma_drop_trailing_len(s: Seq<char>)
    ensures
        drop_trailing_white_space(s).len() <= s.len(),
    decreases s.len(),
{
    if s.len() > 0 && is_white_space(s.last()) {
        lemma_drop_trailing_len(s.drop_last());
    }
}

/// Trimming never makes a string longer.
pub proof fn lemma_trimmed_len(s: Seq<char>)
    ensures
        trimmed(s).len() <= s.len(),
{
    lemma_skip_white_space_len(s);
    lemma_drop_trailing_len(skip_white_space(s));
}

/// Ten to the power `n`.
pub open spec fn pow10(n: nat) -> nat
    decreases n,
{
    if n == 0 {
        1
    } else {
        10 * pow10((n - 1) as nat)
    }
}

/// A number written with `n` decimal digits is less than ten to the `n`.
pub proof fn lemma_digits_value_bound(d: Seq<char>)
    requires
        all_digits(d),
    ensures
        digits_value(d) < pow10(d.len()),
    decreases d.len(),
{
    if d.len() > 0 {
        let t = d.drop_last();
        assert(all_digits(t)) by {
            assert forall|i: int| 0 <= i < t.len() implies is_digit(#[trigger] t[i]) by {
                assert(is_digit(d[i]));
            }
        }
        lemma_digits_value_bound(t);
        assert(is_digit(d[d.len() - 1]));
        assert(pow10(d.len()) == 10 * pow10(t.len()));
    }
}

/// A number of at most six digits that `u64::from_str` accepts is below a
/// million.
pub proof fn lemma_decimal_u64_short(s: Seq<char>)
    requires
        s.len() <= 6,
        decimal_u64(s) is Some,
    ensures
        decimal_u64(s)->0 < 1000000,
{
    let d = unsigned_digits(s);
    lemma_digits_value_bound(d);
    let n = d.len();
    assert(pow10(n) <= 1000000) by {
        reveal_with_fuel(pow10, 7);
    }
}

/// Trimming twice trims no more than trimming once.
pub proof fn law_trim_idempotent(s: Seq<char>)
    ensures
        trimmed(trimmed(s)) == trimmed(s),
{
    let a = skip_white_space(s);
    let t = trimmed(s);
    lemma_skip_result(s);
    lemma_drop_trailing_result(a);
    if t.len() > 0 {
        lemma_drop_trailing_prefix_start(a);
        assert(!is_white_space(t[0]));
        assert(!is_white_space(t.last()));
    }
    assert(skip_white_space(t) == t);
    assert(drop_trailing_white_space(t) == t);
}

proof fn lemma_skip_result(s: Seq<char>)
    ensures
        skip_white_space(s).len() == 0 || !is_white_space(skip_white_space(s)[0]),
    decreases s.len(),
{
    if s.len() > 0 && is_white_space(s[0]) {
        lemma_skip_result(s.drop_first());
    }
}

proof fn lemma_drop_trailing_result(s: Seq<char>)
    ensures
        drop_trailing_white_space(s).len() == 0 || !is_white_space(
            drop_trailing_white_space(s).last(),
        ),
        drop_trailing_white_space(s) =~= s.take(drop_trailing_white_space(s).len() as int),
    decreases s.len(),
{
    if s.len() > 0 && is_white_space(s.last()) {
        lemma_drop_trailing_result(s.drop_last());
        let r = drop_trailing_white_space(s.drop_last());
        lemma_drop_trailing_len(s.drop_last());
        assert(s.drop_last().take(r.len() as int) =~= s.take(r.len() as int));
    } else {
        assert(s.take(s.len() as int) =~= s);
    }
}

proof fn lemma_drop_trailing_prefix_start(a: Seq<char>)
    requires
        a.len() == 0 || !is_white_space(a[0]),
    ensures
        drop_trailing_white_space(a).len() == 0 || !is_white_space(drop_trailing_white_space(a)[0]),
{
    lemma_drop_trailing_result(a);
    lemma_drop_trailing_len(a);
    let r = drop_trailing_white_space(a);
    if r.len() > 0 {
        assert(r[0] == a.take(r.len() as int)[0]);
    }
}

} // verus!
