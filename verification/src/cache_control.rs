//! The `max-age` directive of an HTTP `Cache-Control` header: how many
//! seconds the upstream lets an answer be kept.

use vstd::prelude::*;
use vstd::string::*;

use crate::text::{split_char, split_on_char, views};

verus! {

/// Whitespace around a directive: a space or a tab.
pub open spec fn is_ows(c: char) -> bool {
    c == ' ' || c == '\t'
}

/// `s` without its leading whitespace.
pub open spec fn trim_start_ows(s: Seq<char>) -> Seq<char>
    decreases s.len(),
{
    if s.len() > 0 && is_ows(s[0]) {
        trim_start_ows(s.drop_first())
    } else {
        s
    }
}

/// `s` without its trailing whitespace.
pub open spec fn trim_end_ows(s: Seq<char>) -> Seq<char>
    decreases s.len(),
{
    if s.len() > 0 && is_ows(s.last()) {
        trim_end_ows(s.drop_last())
    } else {
        s
    }
}

/// `s` without whitespace at either end.
pub open spec fn trim_ows(s: Seq<char>) -> Seq<char> {
    trim_end_ows(trim_start_ows(s))
}

/// `c` is `lower`, or the capital of the lower-case letter `lower`.
pub open spec fn same_ignoring_case(c: char, lower: char) -> bool {
    c == lower || ('a' <= lower && lower <= 'z' && c as u32 + 32 == lower as u32)
}

/// `d` begins with `max-age=`, its letters in either case.
pub open spec fn starts_with_max_age(d: Seq<char>) -> bool {
    &&& d.len() >= 8
    &&& forall|i: int| 0 <= i < 8 ==> same_ignoring_case(d[i], #[trigger] "max-age="@[i])
}

/// The value of a decimal digit.
pub open spec fn decimal_digit_value(c: char) -> Option<nat> {
    if '0' <= c && c <= '9' {
        Some((c as u32 - '0' as u32) as nat)
    } else {
        None
    }
}

/// The value of a string of decimal digits (0 for no digits).
pub open spec fn decimal_value(d: Seq<char>) -> Option<nat>
    decreases d.len(),
{
    if d.len() == 0 {
        Some(0)
    } else {
        match (decimal_value(d.drop_last()), decimal_digit_value(d.last())) {
            (Some(v), Some(x)) => Some(v * 10 + x),
            _ => None,
        }
    }
}

/// The largest number of seconds taken from a header (2^31); a larger
/// value counts as this one.
pub const MAX_DELTA_SECONDS: u64 = 2147483648;

/// The number of seconds that `d` writes: one or more decimal digits, a
/// value past `MAX_DELTA_SECONDS` counting as `MAX_DELTA_SECONDS`.
pub open spec fn delta_seconds(d: Seq<char>) -> Option<u64> {
    if d.len() == 0 {
        None
    } else {
        match decimal_value(d) {
            Some(v) => Some(
                if v > MAX_DELTA_SECONDS {
                    MAX_DELTA_SECONDS
                } else {
                    v as u64
                },
            ),
            None => None,
        }
    }
}

/// The lifetime that the first `max-age=` directive among `directives`
/// gives; `None` where there is none or its value is not a number.
pub open spec fn first_max_age(directives: Seq<Seq<char>>) -> Option<u64>
    decreases directives.len(),
{
    if directives.len() == 0 {
        None
    } else if starts_with_max_age(trim_ows(directives[0])) {
        delta_seconds(trim_ows(directives[0]).skip(8))
    } else {
        first_max_age(directives.drop_first())
    }
}

/// The lifetime, in seconds, that a `Cache-Control` header value gives:
/// the value of its first `max-age=` directive, directives being separated
/// by commas.
pub open spec fn header_max_age(header: Seq<char>) -> Option<u64> {
    first_max_age(split_char(header, ','))
}

fn is_ows_char(c: char) -> (r: bool)
    ensures
        r == is_ows(c),
{
    c == ' ' || c == '\t'
}

/// `s` without whitespace at either end.
fn trim_ows_text(s: &str) -> (r: String)
    ensures
        r@ == trim_ows(s@),
{
    let n = s.unicode_len();
    let mut start: usize = 0;
    assert(s@.skip(0) =~= s@);
    while start < n && is_ows_char(s.get_char(start))
        invariant
            n == s@.len(),
            start <= n,
            trim_start_ows(s@) == trim_start_ows(s@.skip(start as int)),
        decreases n - start,
    {
        assert(s@.skip(start as int).drop_first() =~= s@.skip(start + 1));
        start = start + 1;
    }
    let ghost trimmed_start = s@.skip(start as int);
    assert(trim_start_ows(trimmed_start) == trimmed_start);
    let mut end: usize = n;
    assert(trimmed_start =~= s@.subrange(start as int, n as int));
    while end > start && is_ows_char(s.get_char(end - 1))
        invariant
            n == s@.len(),
            start <= end <= n,
            trimmed_start == s@.subrange(start as int, n as int),
            trim_end_ows(trimmed_start) == trim_end_ows(s@.subrange(start as int, end as int)),
        decreases end - start,
    {
        assert(s@.subrange(start as int, end as int).drop_last() =~= s@.subrange(
            start as int,
            end - 1,
        ));
        end = end - 1;
    }
    let r = s.substring_char(start, end).to_owned();
    assert(trim_end_ows(s@.subrange(start as int, end as int)) == s@.subrange(
        start as int,
        end as int,
    ));
    r
}

fn same_ignoring_case_char(c: char, lower: char) -> (r: bool)
    ensures
        r == same_ignoring_case(c, lower),
{
    c == lower || ('a' <= lower && lower <= 'z' && c as u32 + 32 == lower as u32)
}

/// Whether `d` begins with `max-age=`, its letters in either case.
fn starts_with_max_age_text(d: &str) -> (r: bool)
    ensures
        r == starts_with_max_age(d@),
{
    let pattern = "max-age=";
    proof {
        reveal_strlit("max-age=");
    }
    if d.unicode_len() < 8 {
        return false;
    }
    let mut i: usize = 0;
    while i < 8
        invariant
            d@.len() >= 8,
            pattern@ == "max-age="@,
            pattern@.len() == 8,
            i <= 8,
            forall|j: int| 0 <= j < i ==> same_ignoring_case(d@[j], #[trigger] "max-age="@[j]),
        decreases 8 - i,
    {
        if !same_ignoring_case_char(d.get_char(i), pattern.get_char(i)) {
            return false;
        }
        i = i + 1;
    }
    true
}

fn decimal_digit(c: char) -> (r: Option<u64>)
    ensures
        r matches Some(x) ==> decimal_digit_value(c) == Some(x as nat) && x < 10,
        r is None <==> decimal_digit_value(c) is None,
{
    if '0' <= c && c <= '9' {
        Some((c as u32 - '0' as u32) as u64)
    } else {
        None
    }
}

/// The number of seconds that `d` writes.
fn delta_seconds_text(d: &str) -> (r: Option<u64>)
    ensures
        r == delta_seconds(d@),
{
    let n = d.unicode_len();
    if n == 0 {
        return None;
    }
    // `acc` is the value so far, held at `MAX_DELTA_SECONDS + 1` once it is past it
    let mut acc: u64 = 0;
    let mut i: usize = 0;
    assert(d@.take(0) =~= Seq::<char>::empty());
    while i < n
        invariant
            n == d@.len(),
            i <= n,
            acc <= MAX_DELTA_SECONDS + 1,
            decimal_value(d@.take(i as int)) matches Some(v) && acc as nat == (if v
                > MAX_DELTA_SECONDS {
                (MAX_DELTA_SECONDS + 1) as nat
            } else {
                v
            }),
        decreases n - i,
    {
        let c = d.get_char(i);
        assert(d@.take(i + 1).drop_last() =~= d@.take(i as int));
        assert(d@.take(i + 1).last() == c);
        match decimal_digit(c) {
            None => {
                proof {
                    lemma_decimal_prefix(d@, i + 1);
                }
                return None;
            },
            Some(x) => {
                acc = acc * 10 + x;
                if acc > MAX_DELTA_SECONDS {
                    acc = MAX_DELTA_SECONDS + 1;
                }
            },
        }
        i = i + 1;
    }
    assert(d@.take(n as int) =~= d@);
    if acc > MAX_DELTA_SECONDS {
        Some(MAX_DELTA_SECONDS)
    } else {
        Some(acc)
    }
}

/// A prefix without a value leaves the whole without one.
proof fn lemma_decimal_prefix(d: Seq<char>, k: int)
    requires
        0 <= k <= d.len(),
        decimal_value(d.take(k)) is None,
    ensures
        decimal_value(d) is None,
    decreases d.len(),
{
    if k == d.len() {
        assert(d.take(k) =~= d);
    } else {
        let init = d.drop_last();
        assert(init.take(k) =~= d.take(k));
        lemma_decimal_prefix(init, k);
    }
}

/// The lifetime, in seconds, that the `Cache-Control` header value
/// `header` gives: the value of its first `max-age=` directive.
pub fn max_age_from_cache_control(header: &str) -> (r: Option<u64>)
    ensures
        r == header_max_age(header@),
{
    let directives = split_on_char(header, ',');
    let ghost ds = views(directives@);
    let n = directives.len();
    let mut i: usize = 0;
    assert(ds.skip(0) =~= ds);
    while i < n
        invariant
            n == directives.len(),
            ds == views(directives@),
            first_max_age(ds) == header_max_age(header@),
            i <= n,
            first_max_age(ds) == first_max_age(ds.skip(i as int)),
        decreases n - i,
    {
        let d = trim_ows_text(directives[i].as_str());
        assert(ds.skip(i as int)[0] == directives@[i as int]@);
        assert(ds.skip(i as int).drop_first() =~= ds.skip(i + 1));
        if starts_with_max_age_text(d.as_str()) {
            let value = d.as_str().substring_char(8, d.unicode_len());
            assert(value@ =~= d@.skip(8));
            assert(trim_ows(ds.skip(i as int)[0]) == d@);
            assert(first_max_age(ds.skip(i as int)) == delta_seconds(d@.skip(8)));
            let r = delta_seconds_text(value);
            assert(r == delta_seconds(d@.skip(8)));
            return r;
        }
        i = i + 1;
    }
    assert(ds.skip(n as int) =~= Seq::<Seq<char>>::empty());
    None
}

} // verus!
