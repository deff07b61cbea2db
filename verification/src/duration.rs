//! The ISO 8601 durations of MPD attributes (`PT1H2M3.4S`, `P1DT12H`, ...):
//! which texts are durations.
use vstd::prelude::*;

use crate::error::{Error, ErrorKind};
use crate::text::{chars_of, is_digit, push_str, string_of_range, trim, trim_range};

verus! {

/// How many times `c` occurs in `s`.
pub open spec fn count_char(s: Seq<char>, c: char) -> nat
    decreases s.len(),
{
    if s.len() == 0 {
        0
    } else {
        count_char(s.drop_last(), c) + if s.last() == c {
            1nat
        } else {
            0nat
        }
    }
}

/// `s`, made of digits and dots, reads as a decimal number as
/// `str::parse::<f64>` reads it: at most one dot and at least one digit.
pub open spec fn number_text_ok(s: Seq<char>) -> bool {
    &&& forall|k: int| 0 <= k < s.len() ==> is_digit(#[trigger] s[k]) || s[k] == '.'
    &&& count_char(s, '.') <= 1
    &&& exists|k: int| 0 <= k < s.len() && is_digit(#[trigger] s[k])
}

/// The characters `s[i..]` of a duration after its `P` are well formed,
/// `in_time` telling whether a `T` came before, `start` where the number
/// being read began, and `seen` whether a component was read.
pub open spec fn duration_scan(s: Seq<char>, i: int, in_time: bool, start: Option<int>, seen: bool) -> bool
    decreases s.len() - i,
{
    if i < 0 || i >= s.len() {
        start is None && seen
    } else {
        let c = s[i];
        if c == 'T' {
            duration_scan(s, i + 1, true, None, seen)
        } else if is_digit(c) || c == '.' {
            duration_scan(s, i + 1, in_time, if start is None { Some(i) } else { start }, seen)
        } else if c == 'Y' || c == 'W' || c == 'D' || c == 'M' || (in_time && (c == 'H' || c == 'S')) {
            match start {
                Some(b) => 0 <= b <= i && number_text_ok(s.subrange(b, i)) && duration_scan(
                    s,
                    i + 1,
                    in_time,
                    None,
                    true,
                ),
                None => false,
            }
        } else {
            false
        }
    }
}

/// Why the characters `s[i..]` after a duration's `P` are refused, in the
/// state that `duration_scan` describes: the first fault met from `i` on.
pub open spec fn duration_reason(s: Seq<char>, i: int, in_time: bool, start: Option<int>, seen: bool) -> Seq<char>
    decreases s.len() - i,
{
    if i < 0 || i >= s.len() {
        if start is Some {
            "trailing number without unit"@
        } else {
            "no duration components"@
        }
    } else {
        let c = s[i];
        if c == 'T' {
            duration_reason(s, i + 1, true, None, seen)
        } else if is_digit(c) || c == '.' {
            duration_reason(s, i + 1, in_time, if start is None { Some(i) } else { start }, seen)
        } else if c == 'Y' || c == 'W' || c == 'D' || c == 'M' || (in_time && (c == 'H' || c == 'S')) {
            match start {
                Some(b) => if 0 <= b <= i && number_text_ok(s.subrange(b, i)) {
                    duration_reason(s, i + 1, in_time, None, true)
                } else {
                    "invalid number '"@ + s.subrange(b, i) + "'"@
                },
                None => "unit without number"@,
            }
        } else if c == 'H' || c == 'S' {
            seq!['\'', c] + "' without 'T'"@
        } else {
            "unexpected character '"@ + seq![c] + "'"@
        }
    }
}

/// The message with which `input` is refused as a duration: the fault, then
/// `input` itself.
pub open spec fn duration_message(input: Seq<char>) -> Seq<char> {
    let s = trim(input);
    (if !(s.len() > 0 && s[0] == 'P') {
        "duration must start with 'P'"@
    } else if s.len() == 1 {
        "empty duration"@
    } else {
        duration_reason(s.drop_first(), 0, false, None, false)
    }) + ": "@ + input
}

/// `input` is an ISO 8601 duration as MPD attributes write them: once
/// trimmed, a `P`, then components each made of a number and a unit (`Y`,
/// `W`, `D`, `M`, and after a `T` also `H`, `M`, `S`), at least one of them,
/// with no number left without its unit.
pub open spec fn duration_ok(input: Seq<char>) -> bool {
    let s = trim(input);
    s.len() > 0 && s[0] == 'P' && duration_scan(s.drop_first(), 0, false, None, false)
}

/// Whether `v[start..end]` reads as the number of a duration component.
fn number_ok(v: &Vec<char>, start: usize, end: usize) -> (b: bool)
    requires
        start <= end <= v.len(),
    ensures
        b == number_text_ok(v@.subrange(start as int, end as int)),
{
    let ghost s = v@.subrange(start as int, end as int);
    let mut dots: usize = 0;
    let mut digit = false;
    let mut k = start;
    while k < end
        invariant
            start <= k <= end <= v.len(),
            s == v@.subrange(start as int, end as int),
            dots == count_char(s.take(k - start), '.'),
            dots <= k - start,
            digit == (exists|j: int| 0 <= j < k - start && is_digit(#[trigger] s[j])),
            forall|j: int| 0 <= j < k - start ==> is_digit(#[trigger] s[j]) || s[j] == '.',
        decreases end - k,
    {
        let c = v[k];
        assert(s[k - start] == c);
        assert(s.take(k - start + 1).drop_last() =~= s.take(k - start));
        if c == '.' {
            dots = dots + 1;
        } else if '0' <= c && c <= '9' {
            digit = true;
        } else {
            return false;
        }
        k = k + 1;
    }
    assert(s.take(k - start) =~= s);
    dots <= 1 && digit
}

/// The error for a duration refused for `reason`: the reason, `: ` and the
/// text that was refused.
fn refused(reason: Vec<char>, input: &str) -> (e: Error)
    ensures
        e.spec_kind() == ErrorKind::InvalidDuration,
        e.spec_message() == reason@ + ": "@ + input@,
{
    let mut m = reason;
    push_str(&mut m, ": ");
    push_str(&mut m, input);
    Error::from_chars(ErrorKind::InvalidDuration, &m)
}

/// Checks that `input` is an ISO 8601 duration (see `duration_ok`).
pub fn check_duration(input: &str) -> (r: Result<(), Error>)
    ensures
        r is Ok <==> duration_ok(input@),
        r matches Err(e) ==> e.spec_kind() == ErrorKind::InvalidDuration && e.spec_message() == duration_message(
            input@,
        ),
{
    let v = chars_of(input);
    let (a, b) = trim_range(&v, 0, v.len());
    assert(v@.subrange(0, v@.len() as int) =~= input@);
    let ghost s = trim(input@);
    if a == b || v[a] != 'P' {
        return Err(refused(chars_of("duration must start with 'P'"), input));
    }
    if b == a + 1 {
        return Err(refused(chars_of("empty duration"), input));
    }
    let ghost rest = s.drop_first();
    assert(rest =~= v@.subrange(a + 1, b as int));
    assert(duration_ok(input@) == duration_scan(rest, 0, false, None, false));
    let mut in_time = false;
    let mut start: Option<usize> = None;
    let mut seen = false;
    let mut i = a + 1;
    while i < b
        invariant
            a < i <= b <= v.len(),
            rest == v@.subrange(a + 1, b as int),
            duration_ok(input@) == duration_scan(rest, 0, false, None, false),
            match start {
                Some(n) => a + 1 <= n <= i,
                None => true,
            },
            duration_scan(rest, i - (a + 1), in_time, match start {
                Some(n) => Some(n - (a + 1)),
                None => None,
            }, seen) == duration_scan(rest, 0, false, None, false),
            duration_message(input@) == duration_reason(rest, i - (a + 1), in_time, match start {
                Some(n) => Some(n - (a + 1)),
                None => None,
            }, seen) + ": "@ + input@,
        decreases b - i,
    {
        let c = v[i];
        assert(rest[i - (a + 1)] == c);
        if c == 'T' {
            in_time = true;
            start = None;
        } else if ('0' <= c && c <= '9') || c == '.' {
            if start.is_none() {
                start = Some(i);
            }
        } else if c == 'Y' || c == 'W' || c == 'D' || c == 'M' || (in_time && (c == 'H' || c == 'S')) {
            match start {
                Some(n) => {
                    assert(rest.subrange(n - (a + 1), i - (a + 1)) =~= v@.subrange(n as int, i as int));
                    if !number_ok(&v, n, i) {
                        let mut m = chars_of("invalid number '");
                        let num = string_of_range(&v, n, i);
                        push_str(&mut m, num.as_str());
                        push_str(&mut m, "'");
                        return Err(refused(m, input));
                    }
                },
                None => {
                    return Err(refused(chars_of("unit without number"), input));
                },
            }
            start = None;
            seen = true;
        } else if c == 'H' || c == 'S' {
            let mut m: Vec<char> = Vec::new();
            m.push('\'');
            m.push(c);
            push_str(&mut m, "' without 'T'");
            return Err(refused(m, input));
        } else {
            let mut m = chars_of("unexpected character '");
            m.push(c);
            push_str(&mut m, "'");
            return Err(refused(m, input));
        }
        i = i + 1;
    }
    if start.is_some() {
        return Err(refused(chars_of("trailing number without unit"), input));
    }
    if !seen {
        return Err(refused(chars_of("no duration components"), input));
    }
    Ok(())
}

} // verus!
