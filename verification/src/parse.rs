//! Turning a raw input line into a guess.
//!
//! A line is accepted as a guess exactly when, after trimming leading and
//! trailing white space, it is a decimal rendering of an unsigned 32-bit
//! integer: an optional leading `+`, then one or more ASCII digits, whose
//! value fits in `u32`. Everything else is rejected.

use vstd::prelude::*;
use vstd::string::StrSliceExecFns;

verus! {

/// The Unicode white-space code points, the set that trimming removes.
pub open spec fn is_space(c: char) -> bool {
    c == ' ' || c == '\t' || c == '\n' || c == '\r' || c == '\u{000B}' || c == '\u{000C}'
        || c == '\u{0085}' || c == '\u{00A0}' || c == '\u{1680}'
        || ('\u{2000}' as u32 <= c as u32 && c as u32 <= '\u{200A}' as u32)
        || c == '\u{2028}' || c == '\u{2029}' || c == '\u{202F}' || c == '\u{205F}'
        || c == '\u{3000}'
}

fn char_is_space(c: char) -> (b: bool)
    ensures
        b == is_space(c),
{
    c == ' ' || c == '\t' || c == '\n' || c == '\r' || c == '\u{000B}' || c == '\u{000C}'
        || c == '\u{0085}' || c == '\u{00A0}' || c == '\u{1680}'
        || ('\u{2000}' as u32 <= c as u32 && c as u32 <= '\u{200A}' as u32)
        || c == '\u{2028}' || c == '\u{2029}' || c == '\u{202F}' || c == '\u{205F}'
        || c == '\u{3000}'
}

/// What remains after removing every leading white-space character.
pub open spec fn trim_start_spec(s: Seq<char>) -> Seq<char>
    decreases s.len(),
{
    if s.len() > 0 && is_space(s[0]) {
        trim_start_spec(s.subrange(1, s.len() as int))
    } else {
        s
    }
}

/// What remains after removing every trailing white-space character.
pub open spec fn trim_end_spec(s: Seq<char>) -> Seq<char>
    decreases s.len(),
{
    if s.len() > 0 && is_space(s[s.len() - 1]) {
        trim_end_spec(s.subrange(0, s.len() - 1))
    } else {
        s
    }
}

/// What remains after removing leading and trailing white space.
pub open spec fn trim_spec(s: Seq<char>) -> Seq<char> {
    trim_end_spec(trim_start_spec(s))
}

proof fn lemma_trim_start_prefix(s: Seq<char>, i: int)
    requires
        0 <= i <= s.len(),
        forall|k: int| 0 <= k < i ==> is_space(s[k]),
        i == s.len() || !is_space(s[i]),
    ensures
        trim_start_spec(s) == s.subrange(i, s.len() as int),
    decreases i,
{
    if i == 0 {
        assert(s.subrange(0, s.len() as int) =~= s);
    } else {
        let s1 = s.subrange(1, s.len() as int);
        lemma_trim_start_prefix(s1, i - 1);
        assert(s1.subrange(i - 1, s1.len() as int) =~= s.subrange(i, s.len() as int));
    }
}

proof fn lemma_trim_end_suffix(s: Seq<char>, j: int)
    requires
        0 <= j <= s.len(),
        forall|k: int| j <= k < s.len() ==> is_space(s[k]),
        j == 0 || !is_space(s[j - 1]),
    ensures
        trim_end_spec(s) == s.subrange(0, j),
    decreases s.len() - j,
{
    if j == s.len() {
        assert(s.subrange(0, j) =~= s);
    } else {
        let s1 = s.subrange(0, s.len() - 1);
        lemma_trim_end_suffix(s1, j);
        assert(s1.subrange(0, j) =~= s.subrange(0, j));
    }
}

proof fn lemma_trim_parts(s: Seq<char>, i: int, j: int)
    requires
        0 <= i <= j <= s.len(),
        forall|k: int| 0 <= k < i ==> is_space(s[k]),
        forall|k: int| j <= k < s.len() ==> is_space(s[k]),
        i == s.len() || !is_space(s[i]),
        j == i || !is_space(s[j - 1]),
    ensures
        trim_spec(s) == s.subrange(i, j),
{
    lemma_trim_start_prefix(s, i);
    let m = s.subrange(i, s.len() as int);
    lemma_trim_end_suffix(m, j - i);
    assert(m.subrange(0, j - i) =~= s.subrange(i, j));
}

/// Removes leading and trailing white space from a line.
pub fn trim(s: &str) -> (t: &str)
    ensures
        t@ == trim_spec(s@),
{
    let n = s.unicode_len();
    let mut start: usize = 0;
    loop
        invariant
            n == s@.len(),
            start <= n,
            forall|k: int| 0 <= k < start ==> is_space(s@[k]),
        ensures
            start <= n,
            forall|k: int| 0 <= k < start ==> is_space(s@[k]),
            start == n || !is_space(s@[start as int]),
        decreases n - start,
    {
        if start == n {
            break;
        }
        if !char_is_space(s.get_char(start)) {
            break;
        }
        start = start + 1;
    }
    let mut end: usize = n;
    loop
        invariant
            n == s@.len(),
            start <= end <= n,
            forall|k: int| end <= k < n ==> is_space(s@[k]),
        ensures
            start <= end <= n,
            forall|k: int| end <= k < n ==> is_space(s@[k]),
            end == start || !is_space(s@[end - 1]),
        decreases end,
    {
        if end == start {
            break;
        }
        if !char_is_space(s.get_char(end - 1)) {
            break;
        }
        end = end - 1;
    }
    proof {
        lemma_trim_parts(s@, start as int, end as int);
    }
    s.substring_char(start, end)
}

/// An ASCII decimal digit.
pub open spec fn is_digit(c: char) -> bool {
    48 <= c as int && c as int <= 57
}

/// The numeric value of an ASCII decimal digit.
pub open spec fn digit_val(c: char) -> int {
    c as int - 48
}

/// Every character of the sequence is an ASCII decimal digit.
pub open spec fn all_digits(s: Seq<char>) -> bool {
    forall|k: int| 0 <= k < s.len() ==> is_digit(s[k])
}

/// The value of a sequence of decimal digits, most significant first.
pub open spec fn dec_val(s: Seq<char>) -> int
    decreases s.len(),
{
    if s.len() == 0 {
        0
    } else {
        dec_val(s.drop_last()) * 10 + digit_val(s.last())
    }
}

/// The sequence with one leading `+` sign removed, if it has one.
pub open spec fn strip_plus(s: Seq<char>) -> Seq<char> {
    if s.len() > 0 && s[0] == '+' {
        s.subrange(1, s.len() as int)
    } else {
        s
    }
}

/// What parsing a trimmed line as a `u32` yields: the digits' value when the
/// line is an optional `+` followed by one or more digits and the value fits,
/// nothing otherwise.
pub open spec fn parse_u32_spec(s: Seq<char>) -> Option<u32> {
    let d = strip_plus(s);
    if d.len() > 0 && all_digits(d) && dec_val(d) <= u32::MAX {
        Some(dec_val(d) as u32)
    } else {
        None
    }
}

/// What parsing a raw line yields: the line is trimmed first.
pub open spec fn parse_guess_spec(s: Seq<char>) -> Option<u32> {
    parse_u32_spec(trim_spec(s))
}

proof fn lemma_dec_val_nonneg(s: Seq<char>)
    requires
        all_digits(s),
    ensures
        dec_val(s) >= 0,
    decreases s.len(),
{
    if s.len() > 0 {
        lemma_dec_val_nonneg(s.drop_last());
    }
}

proof fn lemma_dec_val_prefix_le(s: Seq<char>, i: int)
    requires
        all_digits(s),
        0 <= i <= s.len(),
    ensures
        dec_val(s.subrange(0, i)) <= dec_val(s),
    decreases s.len() - i,
{
    if i == s.len() {
        assert(s.subrange(0, i) =~= s);
    } else {
        lemma_dec_val_prefix_le(s, i + 1);
        let p = s.subrange(0, i);
        let q = s.subrange(0, i + 1);
        assert(q.drop_last() =~= p);
        assert(q.last() == s[i]);
        lemma_dec_val_nonneg(p);
    }
}

/// Parses an already-trimmed line as a `u32`.
pub fn parse_u32_digits(t: &str) -> (r: Option<u32>)
    ensures
        r == parse_u32_spec(t@),
{
    let n = t.unicode_len();
    let mut i: usize = 0;
    if n > 0 && t.get_char(0) == '+' {
        i = 1;
    }
    let ghost d = strip_plus(t@);
    proof {
        assert(d =~= t@.subrange(i as int, n as int));
    }
    if i == n {
        return None;
    }
    let mut acc: u32 = 0;
    let mut j: usize = i;
    loop
        invariant
            i <= j <= n,
            n == t@.len(),
            i < n,
            d == t@.subrange(i as int, n as int),
            d == strip_plus(t@),
            all_digits(d.subrange(0, j - i)),
            acc as int == dec_val(d.subrange(0, j - i)),
        ensures
            j == n,
            all_digits(d),
            acc as int == dec_val(d),
        decreases n - j,
    {
        if j == n {
            proof {
                assert(d.subrange(0, j - i) =~= d);
            }
            break;
        }
        let c = t.get_char(j);
        let v = c as u32;
        if v < 48 || v > 57 {
            proof {
                assert(d[j - i] == t@[j as int]);
                assert(!is_digit(d[j - i]));
            }
            return None;
        }
        let dv = v - 48;
        let ghost p = d.subrange(0, j - i);
        let ghost q = d.subrange(0, j - i + 1);
        proof {
            assert(q.drop_last() =~= p);
            assert(q.last() == d[j - i]);
        }
        let next = match acc.checked_mul(10) {
            Some(x) => x.checked_add(dv),
            None => None,
        };
        match next {
            Some(x) => {
                acc = x;
            },
            None => {
                proof {
                    lemma_dec_val_nonneg(p);
                    if all_digits(d) {
                        lemma_dec_val_prefix_le(d, j - i + 1);
                    }
                }
                return None;
            },
        }
        j = j + 1;
    }
    Some(acc)
}

/// Parses a raw input line as a guess: trims it, then reads it as a `u32`.
pub fn parse_guess(s: &str) -> (r: Option<u32>)
    ensures
        r == parse_guess_spec(s@),
{
    parse_u32_digits(trim(s))
}

} // verus!
