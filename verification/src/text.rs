use vstd::prelude::*;
use vstd::std_specs::iter::IteratorSpec;

verus! {

broadcast use vstd::string::group_string_axioms;

/// The characters of a string slice, in order.
pub fn chars_of(s: &str) -> (r: Vec<char>)
    ensures
        r@ == s@,
{
    let mut r: Vec<char> = Vec::new();
    let mut it = s.chars();
    loop
        invariant
            r@ + it.remaining() == s@,
            it.obeys_prophetic_iter_laws(),
            it.decrease() is Some,
        decreases it.decrease()->0,
    {
        let ghost before = it.remaining();
        match it.next() {
            Some(c) => {
                r.push(c);
                assert(r@ + it.remaining() =~= s@) by {
                    assert(before =~= seq![c] + it.remaining());
                }
            },
            None => {
                assert(r@ =~= s@);
                return r;
            },
        }
    }
}


/// A string with the given characters.
#[verifier::external_body]
pub(crate) fn string_of(v: &Vec<char>) -> (s: String)
    ensures
        s@ == v@,
{
    v.iter().collect()
}

/// `c` is one of the characters that Unicode gives the White_Space property,
/// the set that `char::is_whitespace` tests.
pub open spec fn is_white_space(c: char) -> bool {
    ||| c == ' '
    ||| ('\x09' <= c && c <= '\x0d')
    ||| c == '\u{85}'
    ||| c == '\u{a0}'
    ||| c == '\u{1680}'
    ||| ('\u{2000}' <= c && c <= '\u{200a}')
    ||| c == '\u{2028}'
    ||| c == '\u{2029}'
    ||| c == '\u{202f}'
    ||| c == '\u{205f}'
    ||| c == '\u{3000}'
}

/// Whether `c` is a white space character.
pub fn white_space(c: char) -> (b: bool)
    ensures
        b == is_white_space(c),
{
    c == ' ' || ('\x09' <= c && c <= '\x0d') || c == '\u{85}' || c == '\u{a0}' || c == '\u{1680}'
        || ('\u{2000}' <= c && c <= '\u{200a}') || c == '\u{2028}' || c == '\u{2029}'
        || c == '\u{202f}' || c == '\u{205f}' || c == '\u{3000}'
}

/// `s` without its leading white space.
pub open spec fn trim_start(s: Seq<char>) -> Seq<char>
    decreases s.len(),
{
    if s.len() > 0 && is_white_space(s[0]) {
        trim_start(s.drop_first())
    } else {
        s
    }
}

/// `s` without its trailing white space.
pub open spec fn trim_end(s: Seq<char>) -> Seq<char>
    decreases s.len(),
{
    if s.len() > 0 && is_white_space(s.last()) {
        trim_end(s.drop_last())
    } else {
        s
    }
}

/// `s` without leading and trailing white space, as `str::trim` gives it.
pub open spec fn trim(s: Seq<char>) -> Seq<char> {
    trim_end(trim_start(s))
}

proof fn lemma_trim_start_skip(s: Seq<char>, i: int)
    requires
        0 <= i <= s.len(),
        forall|j: int| 0 <= j < i ==> is_white_space(#[trigger] s[j]),
    ensures
        trim_start(s) == trim_start(s.subrange(i, s.len() as int)),
    decreases i,
{
    if i > 0 {
        lemma_trim_start_skip(s.drop_first(), i - 1);
        assert(s.drop_first().subrange(i - 1, s.drop_first().len() as int) =~= s.subrange(i, s.len() as int));
    } else {
        assert(s.subrange(0, s.len() as int) =~= s);
    }
}

proof fn lemma_trim_end_skip(s: Seq<char>, e: int)
    requires
        0 <= e <= s.len(),
        forall|j: int| e <= j < s.len() ==> is_white_space(#[trigger] s[j]),
    ensures
        trim_end(s) == trim_end(s.subrange(0, e)),
    decreases s.len() - e,
{
    if e < s.len() {
        lemma_trim_end_skip(s.drop_last(), e);
        assert(s.drop_last().subrange(0, e) =~= s.subrange(0, e));
    } else {
        assert(s.subrange(0, e) =~= s);
    }
}

/// The part of `v[start..end]` that `str::trim` keeps, as a pair of indices.
pub fn trim_range(v: &Vec<char>, start: usize, end: usize) -> (r: (usize, usize))
    requires
        start <= end <= v.len(),
    ensures
        start <= r.0 <= r.1 <= end,
        v@.subrange(r.0 as int, r.1 as int) == trim(v@.subrange(start as int, end as int)),
{
    let ghost s = v@.subrange(start as int, end as int);
    let mut i = start;
    while i < end && white_space(v[i])
        invariant
            start <= i <= end <= v.len(),
            s == v@.subrange(start as int, end as int),
            forall|j: int| start <= j < i ==> is_white_space(#[trigger] v@[j]),
        decreases end - i,
    {
        i = i + 1;
    }
    proof {
        assert forall|j: int| 0 <= j < i - start implies is_white_space(#[trigger] s[j]) by {
            assert(s[j] == v@[start + j]);
        }
        lemma_trim_start_skip(s, i - start);
        assert(s.subrange(i - start, s.len() as int) =~= v@.subrange(i as int, end as int));
        if i < end {
            assert(!is_white_space(v@[i as int]));
        }
    }
    let ghost t = v@.subrange(i as int, end as int);
    assert(trim_start(s) == t) by {
        if t.len() > 0 {
            assert(t[0] == v@[i as int]);
        }
    }
    let mut e = end;
    while e > i && white_space(v[e - 1])
        invariant
            start <= i <= e <= end <= v.len(),
            t == v@.subrange(i as int, end as int),
            forall|j: int| e <= j < end ==> is_white_space(#[trigger] v@[j]),
        decreases e - i,
    {
        e = e - 1;
    }
    proof {
        assert forall|j: int| e - i <= j < t.len() implies is_white_space(#[trigger] t[j]) by {
            assert(t[j] == v@[i + j]);
        }
        lemma_trim_end_skip(t, e - i);
        assert(t.subrange(0, e - i) =~= v@.subrange(i as int, e as int));
        let u = v@.subrange(i as int, e as int);
        if u.len() > 0 {
            assert(u.last() == v@[e - 1]);
        }
    }
    (i, e)
}

/// The decimal digit character for `d`, which is below ten.
pub open spec fn digit_char(d: nat) -> char {
    (d + 48) as char
}

/// `c` is one of `0` to `9`.
pub open spec fn is_digit(c: char) -> bool {
    '0' <= c && c <= '9'
}

/// The value of the decimal digit `c`.
pub open spec fn digit_value(c: char) -> nat {
    (c as int - 48) as nat
}

/// The decimal notation of `n`, with no leading zero, as `Display` writes it.
pub open spec fn decimal(n: nat) -> Seq<char>
    decreases n,
{
    if n < 10 {
        seq![digit_char(n)]
    } else {
        decimal(n / 10).push(digit_char(n % 10))
    }
}

/// The character of the decimal digit `d`.
pub fn digit_of(d: u8) -> (c: char)
    requires
        d < 10,
    ensures
        c == digit_char(d as nat),
{
    (d + 48) as char
}

/// The decimal notation of an unsigned integer.
pub fn decimal_of(n: u64) -> (r: Vec<char>)
    ensures
        r@ == decimal(n as nat),
    decreases n,
{
    let c = digit_of((n % 10) as u8);
    if n < 10 {
        let mut r = Vec::new();
        r.push(c);
        r
    } else {
        let mut r = decimal_of(n / 10);
        r.push(c);
        r
    }
}


/// Every character of `s` is a decimal digit.
pub open spec fn all_digits(s: Seq<char>) -> bool {
    forall|i: int| 0 <= i < s.len() ==> is_digit(#[trigger] s[i])
}

/// The number that the decimal digits `s` denote.
pub open spec fn digits_value(s: Seq<char>) -> nat
    decreases s.len(),
{
    if s.len() == 0 {
        0
    } else {
        digits_value(s.drop_last()) * 10 + digit_value(s.last())
    }
}

/// The number that `s` denotes as an unsigned decimal integer as `str::parse`
/// reads it: an optional `+` and at least one digit, nothing else.
pub open spec fn unsigned_text_value(s: Seq<char>) -> Option<nat> {
    let body = if s.len() > 0 && s[0] == '+' { s.drop_first() } else { s };
    if body.len() > 0 && all_digits(body) {
        Some(digits_value(body))
    } else {
        None
    }
}

/// The number that `s` denotes as a signed decimal integer as `str::parse`
/// reads it: an optional `+` or `-` and at least one digit, nothing else.
pub open spec fn signed_text_value(s: Seq<char>) -> Option<int> {
    if s.len() > 0 && s[0] == '-' {
        let body = s.drop_first();
        if body.len() > 0 && all_digits(body) {
            Some(-digits_value(body))
        } else {
            None
        }
    } else {
        match unsigned_text_value(s) {
            Some(v) => Some(v as int),
            None => None,
        }
    }
}

/// What `str::parse::<u64>` gives for `s`, when it succeeds.
pub open spec fn u64_of(s: Seq<char>) -> Option<u64> {
    match unsigned_text_value(s) {
        Some(v) => if v <= u64::MAX { Some(v as u64) } else { None },
        None => None,
    }
}

/// What `str::parse::<u32>` gives for `s`, when it succeeds.
pub open spec fn u32_of(s: Seq<char>) -> Option<u32> {
    match unsigned_text_value(s) {
        Some(v) => if v <= u32::MAX { Some(v as u32) } else { None },
        None => None,
    }
}

/// What `str::parse::<usize>` gives for `s`, when it succeeds.
pub open spec fn usize_of(s: Seq<char>) -> Option<usize> {
    match unsigned_text_value(s) {
        Some(v) => if v <= usize::MAX { Some(v as usize) } else { None },
        None => None,
    }
}

/// What `str::parse::<i64>` gives for `s`, when it succeeds.
pub open spec fn i64_of(s: Seq<char>) -> Option<i64> {
    match signed_text_value(s) {
        Some(v) => if i64::MIN <= v <= i64::MAX { Some(v as i64) } else { None },
        None => None,
    }
}

proof fn lemma_digits_value_take(s: Seq<char>, k: int)
    requires
        all_digits(s),
        0 <= k <= s.len(),
    ensures
        digits_value(s.take(k)) <= digits_value(s),
    decreases s.len() - k,
{
    if k < s.len() {
        assert(all_digits(s.drop_last())) by {
            assert forall|i: int| 0 <= i < s.drop_last().len() implies is_digit(#[trigger] s.drop_last()[i]) by {
                assert(s.drop_last()[i] == s[i]);
            }
        }
        lemma_digits_value_take(s.drop_last(), k);
        assert(s.drop_last().take(k) =~= s.take(k));
    } else {
        assert(s.take(k) =~= s);
    }
}

/// The value of the digits `v[start..end]`, all of them decimal digits, or
/// `None` when that value does not fit in a `u64`.
fn digits_u64(v: &Vec<char>, start: usize, end: usize) -> (r: Option<u64>)
    requires
        start <= end <= v.len(),
    ensures
        all_digits(v@.subrange(start as int, end as int)) ==> (match r {
            Some(n) => n as nat == digits_value(v@.subrange(start as int, end as int)),
            None => digits_value(v@.subrange(start as int, end as int)) > u64::MAX,
        }),
        !all_digits(v@.subrange(start as int, end as int)) ==> r is None,
{
    let ghost s = v@.subrange(start as int, end as int);
    let mut acc: u64 = 0;
    let mut i = start;
    while i < end
        invariant
            start <= i <= end <= v.len(),
            s == v@.subrange(start as int, end as int),
            all_digits(s.take(i - start)),
            acc as nat == digits_value(s.take(i - start)),
        decreases end - i,
    {
        let c = v[i];
        if !('0' <= c && c <= '9') {
            assert(!is_digit(s[i - start]));
            return None;
        }
        let d = (c as u32 - 48) as u64;
        assert(s.take(i - start + 1).drop_last() =~= s.take(i - start));
        assert(s.take(i - start + 1).last() == c);
        if acc > (u64::MAX - d) / 10 {
            proof {
                assert(all_digits(s.take(i - start + 1))) by {
                    assert forall|j: int| 0 <= j < i - start + 1 implies is_digit(#[trigger] s.take(i - start + 1)[j]) by {
                        if j < i - start {
                            assert(s.take(i - start + 1)[j] == s.take(i - start)[j]);
                        }
                    }
                }
                assert(digits_value(s.take(i - start + 1)) > u64::MAX) by (nonlinear_arith)
                    requires
                        digits_value(s.take(i - start + 1)) == acc * 10 + d,
                        acc > (u64::MAX - d) / 10,
                        d <= 9,
                ;
                if all_digits(s) {
                    lemma_digits_value_take(s, i - start + 1);
                } else {
                    let j = choose|j: int| 0 <= j < s.len() && !is_digit(s[j]);
                    if j <= i - start {
                        assert(s.take(i - start + 1)[j] == s[j]);
                    }
                }
            }
            return None;
        }
        acc = acc * 10 + d;
        i = i + 1;
        proof {
            assert forall|j: int| 0 <= j < i - start implies is_digit(#[trigger] s.take(i - start)[j]) by {
                if j < i - start - 1 {
                    assert(s.take(i - start)[j] == s.take(i - start - 1)[j]);
                }
            }
        }
    }
    assert(s.take(i - start) =~= s);
    Some(acc)
}


/// What `str::parse::<u64>` gives for the characters `v[start..end]`.
pub fn parse_u64_in(v: &Vec<char>, start: usize, end: usize) -> (r: Option<u64>)
    requires
        start <= end <= v.len(),
    ensures
        r == u64_of(v@.subrange(start as int, end as int)),
{
    let ghost s = v@.subrange(start as int, end as int);
    let mut b = start;
    if start < end && v[start] == '+' {
        b = start + 1;
    }
    assert(v@.subrange(b as int, end as int) =~= (if s.len() > 0 && s[0] == '+' { s.drop_first() } else { s }));
    if b == end {
        return None;
    }
    digits_u64(v, b, end)
}

/// What `str::parse::<u64>` gives for `s`.
pub fn parse_u64(s: &str) -> (r: Option<u64>)
    ensures
        r == u64_of(s@),
{
    let v = chars_of(s);
    assert(v@.subrange(0, v@.len() as int) =~= s@);
    parse_u64_in(&v, 0, v.len())
}

/// What `str::parse::<u32>` gives for `s`.
pub fn parse_u32(s: &str) -> (r: Option<u32>)
    ensures
        r == u32_of(s@),
{
    match parse_u64(s) {
        Some(n) => if n <= u32::MAX as u64 { Some(n as u32) } else { None },
        None => None,
    }
}

/// What `str::parse::<usize>` gives for the characters `v[start..end]`.
pub fn parse_usize_in(v: &Vec<char>, start: usize, end: usize) -> (r: Option<usize>)
    requires
        start <= end <= v.len(),
    ensures
        r == usize_of(v@.subrange(start as int, end as int)),
{
    match parse_u64_in(v, start, end) {
        Some(n) => if n as u128 <= usize::MAX as u128 { Some(n as usize) } else { None },
        None => None,
    }
}

/// What `str::parse::<i64>` gives for `s`.
pub fn parse_i64(s: &str) -> (r: Option<i64>)
    ensures
        r == i64_of(s@),
{
    let v = chars_of(s);
    let ghost t = s@;
    if v.len() > 0 && v[0] == '-' {
        if v.len() == 1 {
            return None;
        }
        assert(v@.subrange(1, v@.len() as int) =~= t.drop_first());
        match digits_u64(&v, 1, v.len()) {
            Some(n) => if n <= 9223372036854775808u64 {
                if n == 9223372036854775808u64 {
                    Some(i64::MIN)
                } else {
                    Some(-(n as i64))
                }
            } else {
                None
            },
            None => None,
        }
    } else {
        assert(v@.subrange(0, v@.len() as int) =~= t);
        match parse_u64_in(&v, 0, v.len()) {
            Some(n) => if n <= i64::MAX as u64 { Some(n as i64) } else { None },
            None => None,
        }
    }
}


/// Appends the characters `v[start..end]` to `out`.
pub fn push_range(out: &mut Vec<char>, v: &Vec<char>, start: usize, end: usize)
    requires
        start <= end <= v.len(),
    ensures
        final(out)@ == old(out)@ + v@.subrange(start as int, end as int),
{
    let mut i = start;
    while i < end
        invariant
            start <= i <= end <= v.len(),
            out@ == old(out)@ + v@.subrange(start as int, i as int),
        decreases end - i,
    {
        out.push(v[i]);
        i = i + 1;
        assert(out@ =~= old(out)@ + v@.subrange(start as int, i as int));
    }
}

/// Appends all of `v` to `out`.
pub fn push_all(out: &mut Vec<char>, v: &Vec<char>)
    ensures
        final(out)@ == old(out)@ + v@,
{
    push_range(out, v, 0, v.len());
    assert(v@.subrange(0, v@.len() as int) =~= v@);
}

/// Appends the characters of `s` to `out`.
pub fn push_str(out: &mut Vec<char>, s: &str)
    ensures
        final(out)@ == old(out)@ + s@,
{
    let v = chars_of(s);
    push_all(out, &v);
}

/// Whether `v[start..end]` holds exactly the characters of `lit`.
pub fn range_is(v: &Vec<char>, start: usize, end: usize, lit: &str) -> (b: bool)
    requires
        start <= end <= v.len(),
    ensures
        b == (v@.subrange(start as int, end as int) == lit@),
{
    let l = chars_of(lit);
    if end - start != l.len() {
        return false;
    }
    let mut i: usize = 0;
    while i < l.len()
        invariant
            start <= end <= v.len(),
            end - start == l.len(),
            l@ == lit@,
            i <= l.len(),
            forall|j: int| 0 <= j < i ==> v@[start + j] == l@[j],
        decreases l.len() - i,
    {
        if v[start + i] != l[i] {
            assert(v@.subrange(start as int, end as int)[i as int] != lit@[i as int]);
            return false;
        }
        i = i + 1;
    }
    assert(v@.subrange(start as int, end as int) =~= lit@);
    true
}

/// The index of the first `c` in `s`, or the length of `s` when there is none.
pub open spec fn first_index(s: Seq<char>, c: char) -> int
    decreases s.len(),
{
    if s.len() == 0 {
        0
    } else if s[0] == c {
        0
    } else {
        1 + first_index(s.drop_first(), c)
    }
}

pub proof fn lemma_first_index(s: Seq<char>, c: char)
    ensures
        0 <= first_index(s, c) <= s.len(),
        first_index(s, c) < s.len() ==> s[first_index(s, c)] == c,
        forall|j: int| 0 <= j < first_index(s, c) ==> s[j] != c,
    decreases s.len(),
{
    if s.len() > 0 && s[0] != c {
        lemma_first_index(s.drop_first(), c);
        assert forall|j: int| 0 <= j < first_index(s, c) implies s[j] != c by {
            if j > 0 {
                assert(s[j] == s.drop_first()[j - 1]);
            }
        }
    }
}

pub proof fn lemma_first_index_unique(s: Seq<char>, c: char, k: int)
    requires
        0 <= k <= s.len(),
        k < s.len() ==> s[k] == c,
        forall|j: int| 0 <= j < k ==> s[j] != c,
    ensures
        first_index(s, c) == k,
    decreases s.len(),
{
    if s.len() > 0 && k > 0 {
        assert forall|j: int| 0 <= j < k - 1 implies s.drop_first()[j] != c by {
            assert(s.drop_first()[j] == s[j + 1]);
        }
        lemma_first_index_unique(s.drop_first(), c, k - 1);
    }
}

/// The index of the first `c` in `v[start..end]`, counted from `start`, or
/// `end` when there is none.
pub fn find_char(v: &Vec<char>, start: usize, end: usize, c: char) -> (r: usize)
    requires
        start <= end <= v.len(),
    ensures
        start <= r <= end,
        r - start == first_index(v@.subrange(start as int, end as int), c),
{
    let mut i = start;
    while i < end && v[i] != c
        invariant
            start <= i <= end <= v.len(),
            forall|j: int| start <= j < i ==> v@[j] != c,
        decreases end - i,
    {
        i = i + 1;
    }
    proof {
        let s = v@.subrange(start as int, end as int);
        assert forall|j: int| 0 <= j < i - start implies s[j] != c by {
            assert(s[j] == v@[start + j]);
        }
        lemma_first_index_unique(s, c, i - start);
    }
    i
}


/// A string with the characters `v[start..end]`.
pub fn string_of_range(v: &Vec<char>, start: usize, end: usize) -> (s: String)
    requires
        start <= end <= v.len(),
    ensures
        s@ == v@.subrange(start as int, end as int),
{
    let mut out: Vec<char> = Vec::new();
    push_range(&mut out, v, start, end);
    assert(out@ =~= v@.subrange(start as int, end as int));
    string_of(&out)
}

/// `s` without the leading and trailing repetitions of `c`, as
/// `str::trim_matches(c)` gives it.
pub open spec fn trim_char(s: Seq<char>, c: char) -> Seq<char>
    decreases s.len(),
{
    if s.len() > 0 && s[0] == c {
        trim_char(s.drop_first(), c)
    } else if s.len() > 0 && s.last() == c {
        trim_char(s.drop_last(), c)
    } else {
        s
    }
}

/// The part of `v[start..end]` that `trim_matches(c)` keeps.
pub fn trim_char_range(v: &Vec<char>, start: usize, end: usize, c: char) -> (r: (usize, usize))
    requires
        start <= end <= v.len(),
    ensures
        start <= r.0 <= r.1 <= end,
        v@.subrange(r.0 as int, r.1 as int) == trim_char(v@.subrange(start as int, end as int), c),
    decreases end - start,
{
    let ghost s = v@.subrange(start as int, end as int);
    if start < end && v[start] == c {
        assert(s.drop_first() =~= v@.subrange(start + 1, end as int));
        trim_char_range(v, start + 1, end, c)
    } else if start < end && v[end - 1] == c {
        assert(s.drop_last() =~= v@.subrange(start as int, end - 1));
        trim_char_range(v, start, end - 1, c)
    } else {
        (start, end)
    }
}

/// Whether `s` holds exactly the characters of `lit`.
pub fn text_is(s: &str, lit: &str) -> (b: bool)
    ensures
        b == (s@ == lit@),
{
    let v = chars_of(s);
    let b = range_is(&v, 0, v.len(), lit);
    assert(v@.subrange(0, v@.len() as int) =~= v@);
    b
}

} // verus!
