//! Text operations on method names: comparison, suffix tests, splitting on
//! dots and joining with dots.

use vstd::prelude::*;
use vstd::string::*;

verus! {

/// The views of a sequence of strings.
pub open spec fn views(v: Seq<String>) -> Seq<Seq<char>> {
    v.map_values(|p: String| p@)
}

/// `s` ends with `suffix`.
pub open spec fn has_suffix(s: Seq<char>, suffix: Seq<char>) -> bool {
    suffix.len() <= s.len() && s.subrange(s.len() - suffix.len(), s.len() as int) == suffix
}

/// The pieces of `s` between the occurrences of `sep`, as `str::split`
/// yields them: one more piece than there are separators, empty pieces
/// included.
pub open spec fn split_char(s: Seq<char>, sep: char) -> Seq<Seq<char>>
    decreases s.len(),
{
    if s.len() == 0 {
        seq![Seq::empty()]
    } else {
        let init = split_char(s.drop_last(), sep);
        if s.last() == sep {
            init.push(Seq::empty())
        } else {
            init.update(init.len() - 1, init.last().push(s.last()))
        }
    }
}

/// The pieces of `s` between its dots (`str::split('.')`).
pub open spec fn split_dots(s: Seq<char>) -> Seq<Seq<char>> {
    split_char(s, '.')
}

/// The pieces joined with a dot between each two.
pub open spec fn join_dots(parts: Seq<Seq<char>>) -> Seq<char>
    decreases parts.len(),
{
    if parts.len() == 0 {
        Seq::empty()
    } else if parts.len() == 1 {
        parts[0]
    } else {
        join_dots(parts.drop_last()) + seq!['.'] + parts.last()
    }
}

pub proof fn lemma_split_dots_nonempty(s: Seq<char>)
    ensures
        split_dots(s).len() >= 1,
    decreases s.len(),
{
    if s.len() > 0 {
        lemma_split_dots_nonempty(s.drop_last());
    }
}

/// The text has no dot.
pub open spec fn dot_free(s: Seq<char>) -> bool {
    forall|i: int| 0 <= i < s.len() ==> s[i] != '.'
}

/// A name without dots is a single piece.
pub proof fn lemma_split_dot_free(s: Seq<char>)
    requires
        dot_free(s),
    ensures
        split_dots(s) == seq![s],
    decreases s.len(),
{
    if s.len() > 0 {
        lemma_split_dot_free(s.drop_last());
        assert(s.drop_last().push(s.last()) =~= s);
        assert(split_dots(s) =~= seq![s]);
    } else {
        assert(s =~= Seq::<char>::empty());
    }
}

/// Appending a dot and a dot-free piece to a name appends that piece to
/// its pieces.
pub proof fn lemma_split_append_piece(s: Seq<char>, t: Seq<char>)
    requires
        dot_free(t),
    ensures
        split_dots(s + seq!['.'] + t) == split_dots(s).push(t),
    decreases t.len(),
{
    if t.len() == 0 {
        assert((s + seq!['.'] + t).drop_last() =~= s);
        assert(t =~= Seq::<char>::empty());
    } else {
        let t0 = t.drop_last();
        lemma_split_append_piece(s, t0);
        assert((s + seq!['.'] + t).drop_last() =~= s + seq!['.'] + t0);
        assert(t0.push(t.last()) =~= t);
        assert(split_dots(s + seq!['.'] + t) =~= split_dots(s).push(t));
    }
}

/// Splitting a name on its dots and joining the pieces with dots gives the
/// name back.
pub proof fn lemma_join_split(s: Seq<char>)
    ensures
        join_dots(split_dots(s)) == s,
    decreases s.len(),
{
    if s.len() > 0 {
        let s0 = s.drop_last();
        let init = split_dots(s0);
        lemma_join_split(s0);
        lemma_split_dots_nonempty(s0);
        let p = split_dots(s);
        if s.last() == '.' {
            assert(p.drop_last() =~= init);
            assert(s =~= s0 + seq!['.'] + Seq::<char>::empty());
        } else {
            assert(p.len() == init.len());
            if init.len() == 1 {
                assert(p[0] =~= s0.push(s.last()));
                assert(s =~= s0.push(s.last()));
            } else {
                assert(p.drop_last() =~= init.drop_last());
                assert(join_dots(p) =~= join_dots(init) + seq![s.last()]);
                assert(s =~= s0 + seq![s.last()]);
            }
        }
    }
}

/// Character-wise equality of two strings.
pub fn same_text(a: &str, b: &str) -> (r: bool)
    ensures
        r == (a@ == b@),
{
    let n = a.unicode_len();
    if n != b.unicode_len() {
        return false;
    }
    let mut i: usize = 0;
    while i < n
        invariant
            n == a@.len(),
            n == b@.len(),
            i <= n,
            forall|j: int| 0 <= j < i ==> a@[j] == b@[j],
        decreases n - i,
    {
        if a.get_char(i) != b.get_char(i) {
            return false;
        }
        i = i + 1;
    }
    assert(a@ =~= b@);
    true
}

/// Whether `s` ends with `suffix`.
pub fn ends_with_text(s: &str, suffix: &str) -> (r: bool)
    ensures
        r == has_suffix(s@, suffix@),
{
    let n = s.unicode_len();
    let m = suffix.unicode_len();
    if m > n {
        return false;
    }
    let off = n - m;
    let mut i: usize = 0;
    while i < m
        invariant
            n == s@.len(),
            m == suffix@.len(),
            off == n - m,
            i <= m,
            forall|j: int| 0 <= j < i ==> s@[off + j] == suffix@[j],
        decreases m - i,
    {
        if s.get_char(off + i) != suffix.get_char(i) {
            assert(s@.subrange(off as int, n as int)[i as int] != suffix@[i as int]);
            return false;
        }
        i = i + 1;
    }
    assert(s@.subrange(off as int, n as int) =~= suffix@);
    true
}

/// The pieces of `s` between the occurrences of `sep` (`s.split(sep)`).
pub fn split_on_char(s: &str, sep: char) -> (parts: Vec<String>)
    ensures
        views(parts@) == split_char(s@, sep),
{
    let n = s.unicode_len();
    let mut parts: Vec<String> = Vec::new();
    let mut start: usize = 0;
    let mut i: usize = 0;
    assert(s@.take(0) =~= Seq::<char>::empty());
    assert(views(parts@).push(s@.subrange(0, 0)) =~= seq![Seq::<char>::empty()]);
    while i < n
        invariant
            n == s@.len(),
            start <= i <= n,
            split_char(s@.take(i as int), sep) == views(parts@).push(s@.subrange(start as int, i as int)),
        decreases n - i,
    {
        let c = s.get_char(i);
        let ghost before = s@.take(i as int);
        assert(s@.take(i + 1).drop_last() =~= before);
        assert(s@.take(i + 1).last() == c);
        if c == sep {
            let piece = s.substring_char(start, i).to_owned();
            parts.push(piece);
            start = i + 1;
            assert(views(parts@) =~= views(parts@).drop_last().push(piece@));
            assert(s@.subrange(start as int, i + 1) =~= Seq::<char>::empty());
        } else {
            assert(s@.subrange(start as int, i + 1) =~= s@.subrange(start as int, i as int).push(c));
        }
        i = i + 1;
        assert(split_char(s@.take(i as int), sep) =~= views(parts@).push(s@.subrange(start as int, i as int)));
    }
    let last = s.substring_char(start, n).to_owned();
    parts.push(last);
    assert(s@.take(n as int) =~= s@);
    assert(views(parts@) =~= split_char(s@, sep));
    parts
}

/// The value of a hexadecimal digit.
pub open spec fn hex_digit_value(c: char) -> Option<nat> {
    let code = c as u32;
    if 0x30 <= code <= 0x39 {
        Some((code - 0x30) as nat)
    } else if 0x61 <= code <= 0x66 {
        Some((code - 0x61 + 10) as nat)
    } else if 0x41 <= code <= 0x46 {
        Some((code - 0x41 + 10) as nat)
    } else {
        None
    }
}

/// The value of a string of hexadecimal digits (0 for no digits).
pub open spec fn hex_digits_value(d: Seq<char>) -> Option<nat>
    decreases d.len(),
{
    if d.len() == 0 {
        Some(0)
    } else {
        match (hex_digits_value(d.drop_last()), hex_digit_value(d.last())) {
            (Some(v), Some(x)) => Some(v * 16 + x),
            _ => None,
        }
    }
}

/// `u32::from_str_radix(s, 16)`: an optional `+` and then one or more
/// hexadecimal digits whose value fits in 32 bits.
pub open spec fn radix16_u32(s: Seq<char>) -> Option<u32> {
    let digits = if s.len() > 0 && s[0] == '+' {
        s.drop_first()
    } else {
        s
    };
    if digits.len() == 0 {
        None
    } else {
        match hex_digits_value(digits) {
            Some(v) => if v <= u32::MAX {
                Some(v as u32)
            } else {
                None
            },
            None => None,
        }
    }
}

/// A prefix without a value leaves the whole without one; the value of the
/// whole is at least the value of a prefix.
pub proof fn lemma_hex_prefix(d: Seq<char>, k: int)
    requires
        0 <= k <= d.len(),
    ensures
        hex_digits_value(d.take(k)) is None ==> hex_digits_value(d) is None,
        hex_digits_value(d.take(k)) matches Some(v) ==> (hex_digits_value(d) matches Some(w) ==> w
            >= v),
    decreases d.len(),
{
    if k == d.len() {
        assert(d.take(k) =~= d);
    } else {
        let init = d.drop_last();
        assert(init.take(k) =~= d.take(k));
        lemma_hex_prefix(init, k);
    }
}

fn hex_digit(c: char) -> (r: Option<u32>)
    ensures
        r matches Some(x) ==> hex_digit_value(c) == Some(x as nat) && x < 16,
        r is None <==> hex_digit_value(c) is None,
{
    let code = c as u32;
    if 0x30 <= code && code <= 0x39 {
        Some(code - 0x30)
    } else if 0x61 <= code && code <= 0x66 {
        Some(code - 0x61 + 10)
    } else if 0x41 <= code && code <= 0x46 {
        Some(code - 0x41 + 10)
    } else {
        None
    }
}

/// The number that `s` writes in hexadecimal (`u32::from_str_radix(s, 16)`).
pub fn parse_hex_u32(s: &str) -> (r: Option<u32>)
    ensures
        r == radix16_u32(s@),
{
    let n = s.unicode_len();
    if n == 0 {
        return None;
    }
    let mut start: usize = 0;
    if s.get_char(0) == '+' {
        start = 1;
        if n == 1 {
            assert(s@.drop_first().len() == 0);
            return None;
        }
    }
    let ghost digits = s@.subrange(start as int, n as int);
    assert(digits =~= (if s@.len() > 0 && s@[0] == '+' {
        s@.drop_first()
    } else {
        s@
    }));
    let mut acc: u64 = 0;
    let mut i: usize = start;
    assert(digits.take(0) =~= Seq::<char>::empty());
    assert(digits.len() > 0);
    while i < n
        invariant
            n == s@.len(),
            start <= i <= n,
            digits == s@.subrange(start as int, n as int),
            radix16_u32(s@) == (match hex_digits_value(digits) {
                Some(v) => if v <= u32::MAX {
                    Some(v as u32)
                } else {
                    None
                },
                None => None,
            }),
            acc <= 0xffff_ffff,
            hex_digits_value(digits.take(i - start)) == Some(acc as nat),
        decreases n - i,
    {
        let c = s.get_char(i);
        let ghost k = i - start;
        assert(digits.take(k + 1).drop_last() =~= digits.take(k));
        assert(digits.take(k + 1).last() == c);
        match hex_digit(c) {
            None => {
                proof {
                    lemma_hex_prefix(digits, k + 1);
                }
                return None;
            },
            Some(x) => {
                acc = acc * 16 + x as u64;
                if acc > 0xffff_ffff {
                    proof {
                        lemma_hex_prefix(digits, k + 1);
                    }
                    return None;
                }
            },
        }
        i = i + 1;
    }
    assert(digits.take(n - start) =~= digits);
    Some(acc as u32)
}

/// The pieces of `s` between its dots (`s.split('.')`).
pub fn split_on_dots(s: &str) -> (parts: Vec<String>)
    ensures
        views(parts@) == split_dots(s@),
{
    split_on_char(s, '.')
}

} // verus!
