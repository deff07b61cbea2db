//! Expansion of the variables of a SegmentTemplate URL.
use vstd::prelude::*;

use crate::text::{
    chars_of, decimal, decimal_of, find_char, first_index, lemma_first_index, parse_usize_in, push_all,
    push_range, push_str, range_is, string_of, usize_of,
};

verus! {

/// `s` padded on the left with `0` up to `width` characters, as the format
/// `{:0>width$}` writes it.
pub open spec fn pad_zero(s: Seq<char>, width: nat) -> Seq<char> {
    if s.len() < width {
        Seq::new((width - s.len()) as nat, |i: int| '0') + s
    } else {
        s
    }
}

/// The width that a format specifier `0Nd` asks for: `spec` starts with `0`,
/// ends with `d`, and what lies between reads as a `usize`.
pub open spec fn format_width(spec: Seq<char>) -> Option<usize> {
    if spec.len() >= 2 && spec[0] == '0' && spec.last() == 'd' {
        usize_of(spec.subrange(1, spec.len() - 1))
    } else {
        None
    }
}

/// A variable whose name is not known stays in the output as it was written,
/// between two `$`.
pub open spec fn kept_variable(var: Seq<char>) -> Seq<char> {
    seq!['$'] + var + seq!['$']
}

/// What the variable `var` (the text between two `$`) expands to.
pub open spec fn variable_text(
    var: Seq<char>,
    number: u64,
    time: u64,
    bandwidth: u64,
    representation_id: Seq<char>,
) -> Seq<char> {
    let p = first_index(var, '%');
    if p < var.len() {
        let name = var.take(p);
        let value: Option<u64> = if name == "Number"@ {
            Some(number)
        } else if name == "Time"@ {
            Some(time)
        } else if name == "Bandwidth"@ {
            Some(bandwidth)
        } else {
            None
        };
        match value {
            None => kept_variable(var),
            Some(v) => match format_width(var.skip(p + 1)) {
                Some(w) => pad_zero(decimal(v as nat), w as nat),
                None => decimal(v as nat),
            },
        }
    } else if var == "Number"@ {
        decimal(number as nat)
    } else if var == "Time"@ {
        decimal(time as nat)
    } else if var == "Bandwidth"@ {
        decimal(bandwidth as nat)
    } else if var == "RepresentationID"@ {
        representation_id
    } else {
        kept_variable(var)
    }
}

/// The expansion of the template `t`: `$$` is a literal `$`; `$name$` is a
/// variable, which an unclosed `$name` at the end also is; every other
/// character is copied.
pub open spec fn expand(
    t: Seq<char>,
    number: u64,
    time: u64,
    bandwidth: u64,
    representation_id: Seq<char>,
) -> Seq<char>
    decreases t.len(),
{
    if t.len() == 0 {
        seq![]
    } else if t[0] != '$' {
        seq![t[0]] + expand(t.drop_first(), number, time, bandwidth, representation_id)
    } else if t.len() > 1 && t[1] == '$' {
        seq!['$'] + expand(t.skip(2), number, time, bandwidth, representation_id)
    } else {
        let rest = t.drop_first();
        let k = first_index(rest, '$');
        let after = if k < rest.len() { rest.skip(k + 1) } else { rest.skip(k) };
        proof {
            lemma_first_index(rest, '$');
        }
        variable_text(rest.take(k), number, time, bandwidth, representation_id) + expand(
            after,
            number,
            time,
            bandwidth,
            representation_id,
        )
    }
}

/// The width of a `0Nd` format specifier, `spec` being `v[start..end]`.
pub fn parse_format_width(v: &Vec<char>, start: usize, end: usize) -> (r: Option<usize>)
    requires
        start <= end <= v.len(),
    ensures
        r == format_width(v@.subrange(start as int, end as int)),
{
    if end - start >= 2 && v[start] == '0' && v[end - 1] == 'd' {
        let r = parse_usize_in(v, start + 1, end - 1);
        assert(v@.subrange(start as int, end as int).subrange(1, end - start - 1) =~= v@.subrange(
            start + 1,
            end - 1,
        ));
        r
    } else {
        r_none(v, start, end)
    }
}

fn r_none(v: &Vec<char>, start: usize, end: usize) -> (r: Option<usize>)
    requires
        start <= end <= v.len(),
        !(end - start >= 2 && v@[start as int] == '0' && v@[end - 1] == 'd'),
    ensures
        r == format_width(v@.subrange(start as int, end as int)),
{
    let ghost s = v@.subrange(start as int, end as int);
    assert(s.len() >= 2 ==> s[0] == v@[start as int] && s.last() == v@[end - 1]);
    None
}

/// Appends the decimal notation of `n`, padded with `0` up to `width`.
fn push_padded(out: &mut Vec<char>, n: u64, width: usize)
    ensures
        final(out)@ == old(out)@ + pad_zero(decimal(n as nat), width as nat),
{
    let d = decimal_of(n);
    if d.len() < width {
        let mut i = d.len();
        let ghost start = out@;
        while i < width
            invariant
                d.len() <= i <= width,
                out@ == start + Seq::new((i - d.len()) as nat, |j: int| '0'),
            decreases width - i,
        {
            out.push('0');
            i = i + 1;
            assert(out@ =~= start + Seq::new((i - d.len()) as nat, |j: int| '0'));
        }
        push_all(out, &d);
        assert(out@ =~= old(out)@ + pad_zero(decimal(n as nat), width as nat));
    } else {
        push_all(out, &d);
    }
}

/// Appends the expansion of the variable `v[start..end]`.
fn push_variable(
    out: &mut Vec<char>,
    v: &Vec<char>,
    start: usize,
    end: usize,
    number: u64,
    time: u64,
    bandwidth: u64,
    representation_id: &str,
)
    requires
        start <= end <= v.len(),
    ensures
        final(out)@ == old(out)@ + variable_text(
            v@.subrange(start as int, end as int),
            number,
            time,
            bandwidth,
            representation_id@,
        ),
{
    let ghost var = v@.subrange(start as int, end as int);
    let p = find_char(v, start, end, '%');
    proof {
        lemma_first_index(var, '%');
    }
    if p < end {
        assert(var.take(p - start) =~= v@.subrange(start as int, p as int));
        assert(var.skip(p - start + 1) =~= v@.subrange(p + 1, end as int));
        let value: Option<u64> = if range_is(v, start, p, "Number") {
            Some(number)
        } else if range_is(v, start, p, "Time") {
            Some(time)
        } else if range_is(v, start, p, "Bandwidth") {
            Some(bandwidth)
        } else {
            None
        };
        match value {
            None => {
                out.push('$');
                push_range(out, v, start, end);
                out.push('$');
                assert(out@ =~= old(out)@ + kept_variable(var));
            },
            Some(n) => match parse_format_width(v, p + 1, end) {
                Some(w) => push_padded(out, n, w),
                None => {
                    let d = decimal_of(n);
                    push_all(out, &d);
                },
            },
        }
    } else if range_is(v, start, end, "Number") {
        let d = decimal_of(number);
        push_all(out, &d);
    } else if range_is(v, start, end, "Time") {
        let d = decimal_of(time);
        push_all(out, &d);
    } else if range_is(v, start, end, "Bandwidth") {
        let d = decimal_of(bandwidth);
        push_all(out, &d);
    } else if range_is(v, start, end, "RepresentationID") {
        push_str(out, representation_id);
    } else {
        out.push('$');
        push_range(out, v, start, end);
        out.push('$');
        assert(out@ =~= old(out)@ + kept_variable(var));
    }
}

/// Expands the variables of a SegmentTemplate URL template.
///
/// `$Number$` and `$Number%0Nd$` give the segment number (padded with zeros
/// to N digits), `$Time$` the segment start time, `$Bandwidth$` the bit rate
/// and `$RepresentationID$` the Representation's id; `$$` is a literal `$`.
/// The width format applies to Number, Time and Bandwidth. A variable whose
/// name is not known is kept as it was written.
pub fn resolve_template(
    template: &str,
    number: u64,
    time: u64,
    bandwidth: u64,
    representation_id: &str,
) -> (r: String)
    ensures
        r@ == expand(template@, number, time, bandwidth, representation_id@),
{
    let t = chars_of(template);
    let mut out: Vec<char> = Vec::new();
    let mut i: usize = 0;
    assert(t@.skip(0) =~= t@);
    while i < t.len()
        invariant
            i <= t.len(),
            t@ == template@,
            out@ + expand(t@.skip(i as int), number, time, bandwidth, representation_id@)
                == expand(t@, number, time, bandwidth, representation_id@),
        decreases t.len() - i,
    {
        let ghost rest = t@.skip(i as int);
        if t[i] != '$' {
            out.push(t[i]);
            assert(rest.drop_first() =~= t@.skip(i + 1));
            i = i + 1;
            assert(out@ + expand(t@.skip(i as int), number, time, bandwidth, representation_id@)
                =~= expand(t@, number, time, bandwidth, representation_id@));
        } else if i + 1 < t.len() && t[i + 1] == '$' {
            out.push('$');
            assert(rest.skip(2) =~= t@.skip(i + 2));
            i = i + 2;
            assert(out@ + expand(t@.skip(i as int), number, time, bandwidth, representation_id@)
                =~= expand(t@, number, time, bandwidth, representation_id@));
        } else {
            let k = find_char(&t, i + 1, t.len(), '$');
            let ghost r1 = rest.drop_first();
            assert(r1 =~= t@.subrange(i + 1, t.len() as int));
            proof {
                lemma_first_index(r1, '$');
            }
            assert(r1.take(k - i - 1) =~= t@.subrange(i + 1, k as int));
            let ghost before = out@;
            push_variable(&mut out, &t, i + 1, k, number, time, bandwidth, representation_id);
            if k < t.len() {
                assert(r1.skip(k - i - 1 + 1) =~= t@.skip(k + 1));
                i = k + 1;
            } else {
                assert(r1.skip(k - i - 1) =~= t@.skip(k as int));
                i = k;
            }
            assert(out@ + expand(t@.skip(i as int), number, time, bandwidth, representation_id@)
                =~= expand(t@, number, time, bandwidth, representation_id@));
        }
    }
    assert(t@.skip(i as int) =~= Seq::<char>::empty());
    assert(out@ =~= expand(t@, number, time, bandwidth, representation_id@));
    string_of(&out)
}

} // verus!
