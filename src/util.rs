use vstd::prelude::*;

verus! {

/// Whether two strings hold the same characters.
pub fn same_text(a: &str, b: &str) -> (r: bool)
    ensures
        r == (a@ == b@),
{
    let n = a.unicode_len();
    if n != b.unicode_len() {
        return false;
    }
    let mut i: usize = 0;
    while i < n
        invariant
            i <= n,
            n == a@.len(),
            n == b@.len(),
            forall|k: int| 0 <= k < i ==> a@[k] == b@[k],
        decreases n - i,
    {
        if a.get_char(i) != b.get_char(i) {
            return false;
        }
        i = i + 1;
    }
    assert(a@ =~= b@);
    true
}

/// Whether `c` is white space in Unicode's sense (the `White_Space` property).
pub open spec fn is_space(c: char) -> bool {
    ('\u{9}' <= c && c <= '\u{d}') || c == ' ' || c == '\u{85}' || c == '\u{a0}' || c == '\u{1680}'
        || ('\u{2000}' <= c && c <= '\u{200a}') || c == '\u{2028}' || c == '\u{2029}' || c
        == '\u{202f}' || c == '\u{205f}' || c == '\u{3000}'
}

pub fn is_space_char(c: char) -> (r: bool)
    ensures
        r == is_space(c),
{
    ('\u{9}' <= c && c <= '\u{d}') || c == ' ' || c == '\u{85}' || c == '\u{a0}' || c == '\u{1680}'
        || ('\u{2000}' <= c && c <= '\u{200a}') || c == '\u{2028}' || c == '\u{2029}' || c
        == '\u{202f}' || c == '\u{205f}' || c == '\u{3000}'
}

/// `s` without its white space.
pub open spec fn without_spaces(s: Seq<char>) -> Seq<char>
    decreases s.len(),
{
    if s.len() == 0 {
        s
    } else if is_space(s.last()) {
        without_spaces(s.drop_last())
    } else {
        without_spaces(s.drop_last()).push(s.last())
    }
}

pub open spec fn is_digit(c: char) -> bool {
    '0' <= c && c <= '9'
}

/// Number of decimal digits that open `s`.
pub open spec fn digits_len(s: Seq<char>) -> nat
    decreases s.len(),
{
    if s.len() > 0 && is_digit(s[0]) {
        1 + digits_len(s.drop_first())
    } else {
        0
    }
}

/// The number that a string of decimal digits writes.
pub open spec fn decimal_value(d: Seq<char>) -> nat
    decreases d.len(),
{
    if d.len() == 0 {
        0
    } else {
        decimal_value(d.drop_last()) * 10 + ((d.last() as u32) - ('0' as u32)) as nat
    }
}

/// Seconds per unit, as a fraction (numerator, denominator), for the unit
/// names a duration may carry.
pub open spec fn unit_scale(u: Seq<char>) -> Option<(nat, nat)> {
    if u == "ns"@ || u == "nanos"@ || u == "nano"@ || u == "nanoseconds"@ || u == "nanosecond"@ {
        Some((1, 1_000_000_000))
    } else if u == "us"@ || u == "micros"@ || u == "micro"@ || u == "microseconds"@ || u == "microsecond"@ {
        Some((1, 1_000_000))
    } else if u == "ms"@ || u == "millis"@ || u == "milli"@ || u == "milliseconds"@ || u == "millisecond"@ {
        Some((1, 1000))
    } else if u == "s"@ || u == "secs"@ || u == "sec"@ || u == "seconds"@ || u == "second"@ {
        Some((1, 1))
    } else if u == "m"@ || u == "mins"@ || u == "min"@ || u == "minutes"@ || u == "minute"@ {
        Some((60, 1))
    } else if u == "h"@ || u == "hours"@ || u == "hour"@ {
        Some((3600, 1))
    } else if u == "d"@ || u == "days"@ || u == "day"@ {
        Some((86400, 1))
    } else {
        None
    }
}

/// Whether the characters of `t` from `from` on spell `word`.
fn chars_match(t: &Vec<char>, from: usize, word: &str) -> (r: bool)
    requires
        from <= t@.len(),
    ensures
        r == (t@.subrange(from as int, t@.len() as int) == word@),
{
    let n = word.unicode_len();
    if t.len() - from != n {
        return false;
    }
    let mut i: usize = 0;
    while i < n
        invariant
            i <= n,
            n == word@.len(),
            from + n == t@.len(),
            t@.len() <= usize::MAX,
            forall|k: int| 0 <= k < i ==> t@[from + k] == word@[k],
        decreases n - i,
    {
        if t[from + i] != word.get_char(i) {
            assert(t@.subrange(from as int, t@.len() as int)[i as int] != word@[i as int]);
            return false;
        }
        i = i + 1;
    }
    assert(t@.subrange(from as int, t@.len() as int) =~= word@);
    true
}

fn unit_scale_of(t: &Vec<char>, from: usize) -> (r: Option<(u128, u128)>)
    requires
        from <= t@.len(),
    ensures
        match unit_scale(t@.subrange(from as int, t@.len() as int)) {
            Some((m, d)) => r == Some((m as u128, d as u128)),
            None => r is None,
        },
        r matches Some((m, d)) ==> 1 <= m <= 86400 && 1 <= d,
{
    if chars_match(t, from, "ns") || chars_match(t, from, "nanos") || chars_match(t, from, "nano") || chars_match(t, from, "nanoseconds") || chars_match(t, from, "nanosecond") {
        Some((1, 1_000_000_000))
    } else if chars_match(t, from, "us") || chars_match(t, from, "micros") || chars_match(t, from, "micro") || chars_match(t, from, "microseconds") || chars_match(t, from, "microsecond") {
        Some((1, 1_000_000))
    } else if chars_match(t, from, "ms") || chars_match(t, from, "millis") || chars_match(t, from, "milli") || chars_match(t, from, "milliseconds") || chars_match(t, from, "millisecond") {
        Some((1, 1000))
    } else if chars_match(t, from, "s") || chars_match(t, from, "secs") || chars_match(t, from, "sec") || chars_match(t, from, "seconds") || chars_match(t, from, "second") {
        Some((1, 1))
    } else if chars_match(t, from, "m") || chars_match(t, from, "mins") || chars_match(t, from, "min") || chars_match(t, from, "minutes") || chars_match(t, from, "minute") {
        Some((60, 1))
    } else if chars_match(t, from, "h") || chars_match(t, from, "hours") || chars_match(t, from, "hour") {
        Some((3600, 1))
    } else if chars_match(t, from, "d") || chars_match(t, from, "days") || chars_match(t, from, "day") {
        Some((86400, 1))
    } else {
        None
    }
}

/// The longest duration accepted, in seconds: that of a span of
/// `i64::MAX` milliseconds.
pub const MAX_DURATION_SECS: i64 = 9_223_372_036_854_775;

/// The duration that `s` writes, in whole seconds: white space is ignored,
/// then a decimal number of at most `i64::MAX` is followed by a unit name.
/// Sub-second units are truncated to whole seconds.
pub open spec fn duration_secs(s: Seq<char>) -> Option<int> {
    let t = without_spaces(s);
    let k = digits_len(t) as int;
    let n = decimal_value(t.subrange(0, k));
    if k == 0 || n > i64::MAX {
        None
    } else {
        match unit_scale(t.subrange(k, t.len() as int)) {
            None => None,
            Some((m, d)) => {
                let secs = (n * m) / d;
                if secs > MAX_DURATION_SECS {
                    None
                } else {
                    Some(secs as int)
                }
            },
        }
    }
}

proof fn lemma_digits_len(t: Seq<char>, k: int)
    requires
        0 <= k <= t.len(),
        forall|j: int| 0 <= j < k ==> is_digit(#[trigger] t[j]),
        k == t.len() || !is_digit(t[k]),
    ensures
        digits_len(t) == k,
    decreases k,
{
    if k > 0 {
        let r = t.drop_first();
        assert forall|j: int| 0 <= j < k - 1 implies is_digit(#[trigger] r[j]) by {
            assert(r[j] == t[j + 1]);
        }
        lemma_digits_len(r, k - 1);
    }
}

proof fn lemma_decimal_monotone(d: Seq<char>, j: int)
    requires
        0 <= j <= d.len(),
    ensures
        decimal_value(d.subrange(0, j)) <= decimal_value(d),
    decreases d.len(),
{
    if j < d.len() {
        assert(d.subrange(0, j) =~= d.drop_last().subrange(0, j));
        lemma_decimal_monotone(d.drop_last(), j);
    } else {
        assert(d.subrange(0, j) =~= d);
    }
}

/// Parses a duration such as `30s`, `5 min` or `2h` into whole seconds (see
/// `duration_secs`); `None` when it is malformed or too long.
pub fn parse_duration(s: &str) -> (r: Option<i64>)
    ensures
        r == match duration_secs(s@) {
            Some(v) => Some(v as i64),
            None => None::<i64>,
        },
{
    let len = s.unicode_len();
    let mut t: Vec<char> = Vec::new();
    let mut i: usize = 0;
    while i < len
        invariant
            i <= len,
            len == s@.len(),
            t@ == without_spaces(s@.subrange(0, i as int)),
        decreases len - i,
    {
        let c = s.get_char(i);
        assert(s@.subrange(0, i + 1).drop_last() =~= s@.subrange(0, i as int));
        if !is_space_char(c) {
            t.push(c);
        }
        i = i + 1;
    }
    assert(s@.subrange(0, len as int) =~= s@);
    let ghost tv = t@;
    let mut k: usize = 0;
    while k < t.len() && '0' <= t[k] && t[k] <= '9'
        invariant
            k <= t@.len(),
            forall|j: int| 0 <= j < k ==> is_digit(#[trigger] t@[j]),
        decreases t@.len() - k,
    {
        k = k + 1;
    }
    proof {
        lemma_digits_len(tv, k as int);
    }
    if k == 0 {
        return None;
    }
    let mut n: u128 = 0;
    let mut j: usize = 0;
    while j < k
        invariant
            j <= k,
            k <= t@.len(),
            forall|q: int| 0 <= q < k ==> is_digit(#[trigger] t@[q]),
            n == decimal_value(t@.subrange(0, j as int)),
            n <= i64::MAX,
            t@ == tv,
            tv == without_spaces(s@),
            digits_len(tv) == k,
        decreases k - j,
    {
        assert(t@.subrange(0, j + 1).drop_last() =~= t@.subrange(0, j as int));
        assert(is_digit(t@[j as int]));
        let ghost prev = t@.subrange(0, j as int);
        let ghost next = t@.subrange(0, j + 1);
        assert(next.last() == t@[j as int]);
        assert(decimal_value(next) == decimal_value(prev) * 10 + ((t@[j as int] as u32) - ('0' as u32)) as nat);
        n = n * 10 + ((t[j] as u32) - ('0' as u32)) as u128;
        j = j + 1;
        if n > i64::MAX as u128 {
            proof {
                lemma_decimal_monotone(t@.subrange(0, k as int), j as int);
                assert(t@.subrange(0, k as int).subrange(0, j as int) =~= t@.subrange(0, j as int));
                assert(decimal_value(t@.subrange(0, k as int)) > i64::MAX);
                assert(without_spaces(s@) == t@);
                assert(digits_len(t@) == k);
            }
            return None;
        }
    }
    match unit_scale_of(&t, k) {
        None => None,
        Some((m, d)) => {
            assert(n * m <= 86400 * (i64::MAX as u128)) by (nonlinear_arith)
                requires
                    n <= i64::MAX,
                    m <= 86400,
            ;
            let secs = n * m / d;
            if secs > MAX_DURATION_SECS as u128 {
                None
            } else {
                Some(secs as i64)
            }
        },
    }
}

/// Whether `s` opens with a `~` that tilde expansion replaces: alone, or
/// followed by a path separator.
pub open spec fn expandable(s: Seq<char>) -> bool {
    s.len() > 0 && s[0] == '~' && (s.len() == 1 || s[1] == '/' || s[1] == '\\')
}

/// Whether `r` may be the tilde expansion of `s`: `s` itself, or, when `s`
/// opens with an expandable `~`, a home directory followed by the rest of `s`.
pub open spec fn tilde_expansion(s: Seq<char>, r: Seq<char>) -> bool {
    r == s || (expandable(s) && exists|home: Seq<char>| r == home + s.subrange(1, s.len() as int))
}

/// Relies on shellexpand's `tilde`: input that does not open with an
/// expandable `~` comes back unchanged; otherwise the `~` is replaced by the
/// home directory when one is known, and the rest is kept.
#[verifier::external_body]
fn expand_tilde(s: &str) -> (r: String)
    ensures
        tilde_expansion(s@, r@),
{
    shellexpand::tilde(s).into_owned()
}

/// A configured path with a leading `~` expanded to the home directory.
pub fn str_to_path(s: &str) -> (r: String)
    ensures
        tilde_expansion(s@, r@),
        !expandable(s@) ==> r@ == s@,
{
    expand_tilde(s)
}

pub fn string_to_path(s: &String) -> (r: String)
    ensures
        tilde_expansion(s@, r@),
        !expandable(s@) ==> r@ == s@,
{
    str_to_path(s.as_str())
}

} // verus!
