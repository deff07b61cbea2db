//! The XPath subset that MPD Patch selectors use.
use vstd::prelude::*;

use crate::error::{result_is, Error, ErrorKind};
use crate::text::{
    chars_of, find_char, first_index, lemma_first_index, parse_usize_in, range_is,
    string_of_range, trim_char, trim_char_range, usize_of,
};

verus! {

/// One step of an XPath selector.
#[derive(Debug, Clone, PartialEq, Eq)]
pub struct XPathComponent {
    /// An element name, `@` and an attribute name, or `text()`.
    pub name: String,
    /// A position among the same-named siblings, counted from 1.
    pub position: Option<usize>,
    /// An attribute that the element must carry, with its value.
    pub attribute_match: Option<(String, String)>,
}

/// A selector: an absolute path of components.
#[derive(Debug, Clone, PartialEq, Eq)]
pub struct SimpleXPath {
    pub components: Vec<XPathComponent>,
}

/// What a component is, as plain values.
pub struct XPathComponentView {
    pub name: Seq<char>,
    pub position: Option<usize>,
    pub attribute_match: Option<(Seq<char>, Seq<char>)>,
}

impl View for XPathComponent {
    type V = XPathComponentView;

    open spec fn view(&self) -> XPathComponentView {
        XPathComponentView {
            name: self.name@,
            position: self.position,
            attribute_match: match self.attribute_match {
                Some((a, v)) => Some((a@, v@)),
                None => None,
            },
        }
    }
}

impl View for SimpleXPath {
    type V = Seq<XPathComponentView>;

    open spec fn view(&self) -> Seq<XPathComponentView> {
        self.components@.map_values(|c: XPathComponent| c@)
    }
}

/// The parts of `path` between the `/` that stand outside brackets, scanned
/// from index `i`; the current part began at `start` and `in_bracket` tells
/// whether a `[` was seen after the last `]`. A trailing empty part is dropped.
pub open spec fn split_scan(path: Seq<char>, i: int, start: int, in_bracket: bool) -> Seq<Seq<char>>
    decreases path.len() - i,
{
    if i >= path.len() {
        if start < path.len() {
            seq![path.subrange(start, path.len() as int)]
        } else {
            seq![]
        }
    } else if path[i] == '[' {
        split_scan(path, i + 1, start, true)
    } else if path[i] == ']' {
        split_scan(path, i + 1, start, false)
    } else if path[i] == '/' && !in_bracket {
        seq![path.subrange(start, i)] + split_scan(path, i + 1, i + 1, in_bracket)
    } else {
        split_scan(path, i + 1, start, in_bracket)
    }
}

/// The parts of a path, split at the `/` outside brackets.
pub open spec fn split_parts(path: Seq<char>) -> Seq<Seq<char>> {
    split_scan(path, 0, 0, false)
}

pub open spec fn plain_component(name: Seq<char>) -> XPathComponentView {
    XPathComponentView { name, position: None, attribute_match: None }
}

/// What one part of a selector means, or the error kind that it gives.
pub open spec fn component_of(part: Seq<char>) -> Result<XPathComponentView, ErrorKind> {
    let b = first_index(part, '[');
    if part.len() > 0 && part[0] == '@' {
        Ok(plain_component(part))
    } else if part == "text()"@ {
        Ok(plain_component(part))
    } else if b < part.len() {
        let name = part.take(b);
        let rest = part.skip(b);
        if !(rest.len() >= 1 && rest.last() == ']') || rest.len() < 2 {
            Err(ErrorKind::InvalidXPath)
        } else {
            let pred = rest.subrange(1, rest.len() - 1);
            let attr = pred.drop_first();
            let eq = first_index(attr, '=');
            if usize_of(pred) is Some {
                Ok(XPathComponentView { name, position: usize_of(pred), attribute_match: None })
            } else if pred.len() > 0 && pred[0] == '@' && eq < attr.len() {
                Ok(
                    XPathComponentView {
                        name,
                        position: None,
                        attribute_match: Some(
                            (attr.take(eq), trim_char(trim_char(attr.skip(eq + 1), '"'), '\'')),
                        ),
                    },
                )
            } else {
                Err(ErrorKind::InvalidXPath)
            }
        }
    } else {
        Ok(plain_component(part))
    }
}

/// The message of the error that the part `part` gives: a bracket left
/// open, or a predicate that is neither a position nor an attribute test.
pub open spec fn component_message(part: Seq<char>) -> Seq<char> {
    let rest = part.skip(first_index(part, '['));
    if !(rest.len() >= 1 && rest.last() == ']') || rest.len() < 2 {
        "unclosed bracket in XPath: "@ + part
    } else {
        "unsupported predicate in XPath: "@ + rest.subrange(1, rest.len() - 1)
    }
}

/// The message of the error of the first part that is not valid; when every
/// part is valid, the message for a selector without components.
pub open spec fn parts_message(parts: Seq<Seq<char>>) -> Seq<char>
    decreases parts.len(),
{
    if parts.len() == 0 {
        "XPath must have at least one component"@
    } else if parts[0].len() > 0 && component_of(parts[0]) is Err {
        component_message(parts[0])
    } else {
        parts_message(parts.drop_first())
    }
}

/// The message of the error that a selector string gives.
pub open spec fn xpath_message(input: Seq<char>) -> Seq<char> {
    if !(input.len() > 0 && input[0] == '/') {
        "XPath must be absolute: "@ + input
    } else if input.len() == 1 {
        "XPath must not be empty"@
    } else {
        parts_message(split_parts(input.drop_first()))
    }
}

/// The components of the parts, empty parts skipped, or the error of the
/// first part that is not valid.
pub open spec fn components_of(parts: Seq<Seq<char>>) -> Result<Seq<XPathComponentView>, ErrorKind>
    decreases parts.len(),
{
    if parts.len() == 0 {
        Ok(seq![])
    } else if parts[0].len() == 0 {
        components_of(parts.drop_first())
    } else {
        match component_of(parts[0]) {
            Err(k) => Err(k),
            Ok(c) => match components_of(parts.drop_first()) {
                Ok(cs) => Ok(seq![c] + cs),
                Err(k) => Err(k),
            },
        }
    }
}

/// What a selector string means: an absolute path (it starts with `/`) of at
/// least one component; any other string is an invalid XPath.
pub open spec fn xpath_of(input: Seq<char>) -> Result<Seq<XPathComponentView>, ErrorKind> {
    if !(input.len() > 0 && input[0] == '/') || input.len() == 1 {
        Err(ErrorKind::InvalidXPath)
    } else {
        match components_of(split_parts(input.drop_first())) {
            Err(k) => Err(k),
            Ok(cs) => if cs.len() == 0 {
                Err(ErrorKind::InvalidXPath)
            } else {
                Ok(cs)
            },
        }
    }
}

/// The parts of `v[start..end]` as index ranges.
fn split_xpath_parts(v: &Vec<char>, start: usize, end: usize) -> (r: Vec<(usize, usize)>)
    requires
        start <= end <= v.len(),
    ensures
        r@.len() == split_parts(v@.subrange(start as int, end as int)).len(),
        forall|k: int|
            0 <= k < r@.len() ==> start <= (#[trigger] r@[k]).0 <= r@[k].1 <= end && v@.subrange(
                r@[k].0 as int,
                r@[k].1 as int,
            ) == split_parts(v@.subrange(start as int, end as int))[k],
{
    let ghost path = v@.subrange(start as int, end as int);
    let mut r: Vec<(usize, usize)> = Vec::new();
    let mut part_start = start;
    let mut in_bracket = false;
    let mut i = start;
    while i < end
        invariant
            start <= part_start <= i <= end <= v.len(),
            path == v@.subrange(start as int, end as int),
            forall|k: int|
                0 <= k < r@.len() ==> start <= (#[trigger] r@[k]).0 <= r@[k].1 <= end,
            r@.map_values(|p: (usize, usize)| v@.subrange(p.0 as int, p.1 as int)) + split_scan(
                path,
                i - start,
                part_start - start,
                in_bracket,
            ) == split_parts(path),
        decreases end - i,
    {
        let c = v[i];
        let ghost before = r@.map_values(|p: (usize, usize)| v@.subrange(p.0 as int, p.1 as int));
        if c == '[' {
            in_bracket = true;
        } else if c == ']' {
            in_bracket = false;
        } else if c == '/' && !in_bracket {
            r.push((part_start, i));
            assert(path.subrange(part_start - start, i - start) =~= v@.subrange(
                part_start as int,
                i as int,
            ));
            assert(r@.map_values(|p: (usize, usize)| v@.subrange(p.0 as int, p.1 as int)) =~= before
                + seq![v@.subrange(part_start as int, i as int)]);
            part_start = i + 1;
        }
        i = i + 1;
    }
    let ghost before = r@.map_values(|p: (usize, usize)| v@.subrange(p.0 as int, p.1 as int));
    if part_start < end {
        r.push((part_start, end));
        assert(path.subrange(part_start - start, path.len() as int) =~= v@.subrange(
            part_start as int,
            end as int,
        ));
        assert(r@.map_values(|p: (usize, usize)| v@.subrange(p.0 as int, p.1 as int)) =~= before
            + seq![v@.subrange(part_start as int, end as int)]);
    } else {
        assert(before =~= before + Seq::<Seq<char>>::empty());
    }
    let ghost m = r@.map_values(|p: (usize, usize)| v@.subrange(p.0 as int, p.1 as int));
    assert forall|k: int| 0 <= k < r@.len() implies v@.subrange(
        (#[trigger] r@[k]).0 as int,
        r@[k].1 as int,
    ) == split_parts(path)[k] by {
        assert(m[k] == v@.subrange(r@[k].0 as int, r@[k].1 as int));
    }
    r
}

fn component(name: String, position: Option<usize>, attribute_match: Option<(String, String)>) -> (c: XPathComponent)
    ensures
        c.name == name,
        c.position == position,
        c.attribute_match == attribute_match,
{
    XPathComponent { name, position, attribute_match }
}

/// Reads one part, `v[start..end]`, of a selector.
fn parse_xpath_component(v: &Vec<char>, start: usize, end: usize) -> (r: Result<XPathComponent, Error>)
    requires
        start <= end <= v.len(),
    ensures
        result_is(r, component_of(v@.subrange(start as int, end as int))),
        r matches Err(e) ==> e.spec_message() == component_message(v@.subrange(start as int, end as int)),
{
    let ghost part = v@.subrange(start as int, end as int);
    if start < end && v[start] == '@' {
        return Ok(component(string_of_range(v, start, end), None, None));
    }
    if range_is(v, start, end, "text()") {
        return Ok(component(string_of_range(v, start, end), None, None));
    }
    let b = find_char(v, start, end, '[');
    proof {
        lemma_first_index(part, '[');
    }
    if b < end {
        let ghost rest = part.skip(b - start);
        assert(rest =~= v@.subrange(b as int, end as int));
        assert(part.take(b - start) =~= v@.subrange(start as int, b as int));
        if !(v[end - 1] == ']') || end - b < 2 {
            assert(rest.len() >= 1 ==> rest.last() == v@[end - 1]);
            let whole = string_of_range(v, start, end);
            return Err(Error::with_detail(ErrorKind::InvalidXPath, "unclosed bracket in XPath: ", whole.as_str()));
        }
        let ps = b + 1;
        let pe = end - 1;
        assert(rest.subrange(1, rest.len() - 1) =~= v@.subrange(ps as int, pe as int));
        if let Some(pos) = parse_usize_in(v, ps, pe) {
            return Ok(component(string_of_range(v, start, b), Some(pos), None));
        }
        if ps < pe && v[ps] == '@' {
            let ghost attr = v@.subrange(ps + 1, pe as int);
            assert(v@.subrange(ps as int, pe as int).drop_first() =~= attr);
            let eq = find_char(v, ps + 1, pe, '=');
            if eq < pe {
                assert(attr.take(eq - ps - 1) =~= v@.subrange(ps + 1, eq as int));
                assert(attr.skip(eq - ps - 1 + 1) =~= v@.subrange(eq + 1, pe as int));
                let (a0, a1) = trim_char_range(v, eq + 1, pe, '"');
                let (b0, b1) = trim_char_range(v, a0, a1, '\'');
                let attr_name = string_of_range(v, ps + 1, eq);
                let attr_value = string_of_range(v, b0, b1);
                return Ok(
                    component(string_of_range(v, start, b), None, Some((attr_name, attr_value))),
                );
            }
        }
        let predicate = string_of_range(v, ps, pe);
        return Err(Error::with_detail(ErrorKind::InvalidXPath, "unsupported predicate in XPath: ", predicate.as_str()));
    }
    Ok(component(string_of_range(v, start, end), None, None))
}

/// Reads an XPath selector.
pub fn parse_xpath(input: &str) -> (r: Result<SimpleXPath, Error>)
    ensures
        result_is(r, xpath_of(input@)),
        r matches Err(e) ==> e.spec_message() == xpath_message(input@),
{
    let v = chars_of(input);
    if !(v.len() > 0 && v[0] == '/') {
        return Err(Error::with_detail(ErrorKind::InvalidXPath, "XPath must be absolute: ", input));
    }
    if v.len() == 1 {
        return Err(Error::with_text(ErrorKind::InvalidXPath, "XPath must not be empty"));
    }
    let parts = split_xpath_parts(&v, 1, v.len());
    let ghost ps = split_parts(v@.subrange(1, v@.len() as int));
    assert(v@.subrange(1, v@.len() as int) =~= input@.drop_first());
    let mut components: Vec<XPathComponent> = Vec::new();
    let mut i: usize = 0;
    proof {
        assert(ps.skip(0) =~= ps);
        assert(components@.map_values(|c: XPathComponent| c@) =~= Seq::<XPathComponentView>::empty());
        match components_of(ps) {
            Ok(cs) => {
                assert(Seq::<XPathComponentView>::empty() + cs =~= cs);
            },
            Err(k) => {},
        }
    }
    while i < parts.len()
        invariant
            i <= parts@.len() == ps.len(),
            v@ == input@,
            v@.len() >= 2,
            v@[0] == '/',
            ps == split_parts(input@.drop_first()),
            forall|k: int|
                0 <= k < parts@.len() ==> 1 <= (#[trigger] parts@[k]).0 <= parts@[k].1 <= v@.len()
                    && v@.subrange(parts@[k].0 as int, parts@[k].1 as int) == ps[k],
            parts_message(ps) == parts_message(ps.skip(i as int)),
            components_of(ps) == match components_of(ps.skip(i as int)) {
                Ok(cs) => Ok(components@.map_values(|c: XPathComponent| c@) + cs),
                Err(k) => Err(k),
            },
        decreases parts.len() - i,
    {
        let (s, e) = parts[i];
        assert(ps.skip(i as int).drop_first() =~= ps.skip(i + 1));
        assert(ps.skip(i as int)[0] == ps[i as int]);
        if s == e {
            i = i + 1;
        } else {
            let c = match parse_xpath_component(&v, s, e) {
                Ok(c) => c,
                Err(err) => {
                    assert(ps[i as int].len() > 0);
                    assert(components_of(ps.skip(i as int)) == Err::<Seq<XPathComponentView>, ErrorKind>(err.spec_kind()));
                    assert(components_of(ps) == Err::<Seq<XPathComponentView>, ErrorKind>(err.spec_kind()));
                    assert(split_parts(input@.drop_first()) == ps);
                    assert(xpath_of(input@) == Err::<Seq<XPathComponentView>, ErrorKind>(err.spec_kind()));
                    assert(parts_message(ps.skip(i as int)) == component_message(ps[i as int]));
                    return Err(err);
                },
            };
            let ghost before = components@.map_values(|c: XPathComponent| c@);
            components.push(c);
            assert(components@.map_values(|c: XPathComponent| c@) =~= before + seq![c@]);
            i = i + 1;
            proof {
                match components_of(ps.skip(i as int)) {
                    Ok(cs) => {
                        assert(before + seq![c@] + cs =~= before + (seq![c@] + cs));
                    },
                    Err(k) => {},
                }
            }
        }
    }
    assert(ps.skip(i as int) =~= Seq::<Seq<char>>::empty());
    assert(components@.map_values(|c: XPathComponent| c@) + Seq::<XPathComponentView>::empty()
        =~= components@.map_values(|c: XPathComponent| c@));
    if components.len() == 0 {
        return Err(Error::with_text(ErrorKind::InvalidXPath, "XPath must have at least one component"));
    }
    Ok(SimpleXPath { components })
}

} // verus!
