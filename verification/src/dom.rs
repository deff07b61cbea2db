//! The XML element tree that patch operations work on.
use vstd::prelude::*;

use crate::error::{Error, ErrorKind};
use crate::text::{chars_of, find_char, first_index, lemma_first_index, push_str, range_is, string_of, string_of_range};
use crate::types::{PatchAction, PatchPosition};
use crate::xml_io::{
    ends_matched, events_view, lemma_matched_add, lemma_matched_wrap, open_depth, pairs_view,
    read_xml, write_xml, xml_text, xml_tokens, TokenV, WriteEvent, WriteEventV, XmlAttr, XmlAttrV,
    XmlToken,
};
use crate::writer::{declare_if_used, declared_if_used, xlink_namespace};
use crate::xpath::{SimpleXPath, XPathComponent, XPathComponentView};
use crate::types::PatchOperation;

verus! {

/// An XML element.
#[derive(Debug)]
pub struct XmlElement {
    pub name: String,
    pub namespace: Option<String>,
    pub attributes: Vec<(String, String)>,
    pub children: Vec<XmlChild>,
}

/// A child node of an element.
#[derive(Debug)]
pub enum XmlChild {
    Element(XmlElement),
    Text(String),
}

/// An element as plain values.
pub struct ElementV {
    pub name: Seq<char>,
    pub namespace: Option<Seq<char>>,
    pub attributes: Seq<(Seq<char>, Seq<char>)>,
    pub children: Seq<ChildV>,
}

/// A child node as plain values.
pub enum ChildV {
    Element(ElementV),
    Text(Seq<char>),
}

pub open spec fn attrs_view(a: Seq<(String, String)>) -> Seq<(Seq<char>, Seq<char>)> {
    a.map_values(|p: (String, String)| (p.0@, p.1@))
}

pub open spec fn opt_view(o: Option<String>) -> Option<Seq<char>> {
    match o {
        Some(s) => Some(s@),
        None => None,
    }
}

pub open spec fn element_view(e: XmlElement) -> ElementV
    decreases e, 0nat,
{
    ElementV {
        name: e.name@,
        namespace: opt_view(e.namespace),
        attributes: attrs_view(e.attributes@),
        children: children_view(e.children@),
    }
}

pub open spec fn children_view(cs: Seq<XmlChild>) -> Seq<ChildV>
    decreases cs, cs.len(),
{
    if cs.len() == 0 {
        seq![]
    } else {
        children_view(cs.subrange(0, cs.len() - 1)).push(child_view(cs[cs.len() - 1]))
    }
}

pub open spec fn child_view(c: XmlChild) -> ChildV
    decreases c, 0nat,
{
    match c {
        XmlChild::Element(e) => ChildV::Element(element_view(e)),
        XmlChild::Text(t) => ChildV::Text(t@),
    }
}


pub proof fn lemma_children_view(cs: Seq<XmlChild>)
    ensures
        children_view(cs).len() == cs.len(),
        forall|i: int| 0 <= i < cs.len() ==> #[trigger] children_view(cs)[i] == child_view(cs[i]),
    decreases cs.len(),
{
    if cs.len() > 0 {
        lemma_children_view(cs.subrange(0, cs.len() - 1));
        assert forall|i: int| 0 <= i < cs.len() implies #[trigger] children_view(cs)[i] == child_view(cs[i]) by {
            if i < cs.len() - 1 {
                assert(cs.subrange(0, cs.len() - 1)[i] == cs[i]);
            }
        }
    }
}

/// Two child lists with equal views, position by position, have equal views.
pub proof fn lemma_children_view_ext(a: Seq<XmlChild>, b: Seq<ChildV>)
    requires
        a.len() == b.len(),
        forall|i: int| 0 <= i < a.len() ==> child_view(#[trigger] a[i]) == b[i],
    ensures
        children_view(a) == b,
{
    lemma_children_view(a);
    assert(children_view(a) =~= b);
}

/// The value of the first attribute named `name`, if there is one.
pub open spec fn attr_value(attrs: Seq<(Seq<char>, Seq<char>)>, name: Seq<char>) -> Option<Seq<char>>
    decreases attrs.len(),
{
    if attrs.len() == 0 {
        None
    } else if attrs[0].0 == name {
        Some(attrs[0].1)
    } else {
        attr_value(attrs.drop_first(), name)
    }
}

/// `attrs` holds the attribute `name` with the value `value`.
pub open spec fn has_attr(attrs: Seq<(Seq<char>, Seq<char>)>, name: Seq<char>, value: Seq<char>) -> bool {
    exists|k: int| 0 <= k < attrs.len() && attrs[k] == (name, value)
}


/// `c` is an element named `n`.
pub open spec fn named(c: ChildV, n: Seq<char>) -> bool {
    c matches ChildV::Element(e) && e.name == n
}

/// The element that `c` is (meaningful only when `c` is an element).
pub open spec fn elem_of(c: ChildV) -> ElementV {
    match c {
        ChildV::Element(e) => e,
        ChildV::Text(_) => ElementV { name: seq![], namespace: None, attributes: seq![], children: seq![] },
    }
}

/// How many of `cs[0..i]` are elements named `n`.
pub open spec fn count_named(cs: Seq<ChildV>, n: Seq<char>, i: int) -> nat
    decreases i,
{
    if i <= 0 {
        0
    } else {
        count_named(cs, n, i - 1) + if named(cs[i - 1], n) { 1nat } else { 0nat }
    }
}

/// `cs[i]` is an element that the component `comp` selects: it has the
/// component's name and, where the component asks for it, the position among
/// its same-named siblings or the attribute.
pub open spec fn child_matches(cs: Seq<ChildV>, comp: XPathComponentView, i: int) -> bool {
    &&& named(cs[i], comp.name)
    &&& match comp.position {
        Some(p) => count_named(cs, comp.name, i) + 1 == p,
        None => match comp.attribute_match {
            Some((a, v)) => has_attr(elem_of(cs[i]).attributes, a, v),
            None => true,
        },
    }
}

/// The first index below `n` that `comp` selects.
pub open spec fn first_match(cs: Seq<ChildV>, comp: XPathComponentView, n: int) -> Option<int>
    decreases n,
{
    if n <= 0 {
        None
    } else {
        match first_match(cs, comp, n - 1) {
            Some(j) => Some(j),
            None => if child_matches(cs, comp, n - 1) { Some(n - 1) } else { None },
        }
    }
}

/// The last index below `n` that `comp` selects.
pub open spec fn last_match(cs: Seq<ChildV>, comp: XPathComponentView, n: int) -> Option<int>
    decreases n,
{
    if n <= 0 {
        None
    } else if child_matches(cs, comp, n - 1) {
        Some(n - 1)
    } else {
        last_match(cs, comp, n - 1)
    }
}

/// The child that a component selects: the first that matches, except for an
/// attribute predicate on a step that is not the last, where the last that
/// matches is taken.
pub open spec fn select_child(cs: Seq<ChildV>, comp: XPathComponentView, is_last: bool) -> Option<int> {
    if !is_last && comp.position is None && comp.attribute_match is Some {
        last_match(cs, comp, cs.len() as int)
    } else {
        first_match(cs, comp, cs.len() as int)
    }
}

/// What a selector designates in the element it was followed to.
pub enum TargetV {
    /// The element itself.
    Itself,
    /// An attribute of the element.
    Attribute(Seq<char>),
    /// The element's text.
    Text,
    /// The element's child at an index.
    Child(int),
}

/// Follows the components `comps` down from `e`: the child indices taken and
/// what the last component designates, or the kind of error.
pub open spec fn locate(e: ElementV, comps: Seq<XPathComponentView>) -> Result<(Seq<int>, TargetV), ErrorKind>
    decreases comps.len(),
{
    if comps.len() == 0 {
        Ok((seq![], TargetV::Itself))
    } else {
        let c = comps[0];
        let last = comps.len() == 1;
        if c.name.len() > 0 && c.name[0] == '@' {
            if !last {
                Err(ErrorKind::InvalidXPath)
            } else {
                Ok((seq![], TargetV::Attribute(c.name.drop_first())))
            }
        } else if c.name == "text()"@ {
            if !last {
                Err(ErrorKind::InvalidXPath)
            } else {
                Ok((seq![], TargetV::Text))
            }
        } else {
            match select_child(e.children, c, last) {
                None => Err(ErrorKind::PatchFailed),
                Some(i) => if last {
                    Ok((seq![], TargetV::Child(i)))
                } else {
                    match locate(elem_of(e.children[i]), comps.drop_first()) {
                        Ok((p, t)) => Ok((seq![i] + p, t)),
                        Err(k) => Err(k),
                    }
                },
            }
        }
    }
}

/// The message of the error that following `comps` down from `e` gives: a
/// selector step that must be last and is not, or a step that finds no
/// element, named with the element it was looked for in.
pub open spec fn locate_message(e: ElementV, comps: Seq<XPathComponentView>) -> Seq<char>
    decreases comps.len(),
{
    if comps.len() == 0 {
        seq![]
    } else {
        let c = comps[0];
        let last = comps.len() == 1;
        if c.name.len() > 0 && c.name[0] == '@' {
            "attribute selector must be last in XPath"@
        } else if c.name == "text()"@ {
            "text() selector must be last in XPath"@
        } else {
            match select_child(e.children, c, last) {
                None => "XPath target not found: element '"@ + c.name + "' in '"@ + e.name + "'"@,
                Some(i) => if last {
                    seq![]
                } else {
                    locate_message(elem_of(e.children[i]), comps.drop_first())
                },
            }
        }
    }
}

/// The message of the error that following a whole selector from the
/// document root gives.
pub open spec fn target_message(root: ElementV, comps: Seq<XPathComponentView>) -> Seq<char> {
    if comps.len() == 0 {
        "empty XPath"@
    } else if comps[0].name != root.name {
        "XPath root '"@ + comps[0].name + "' does not match document root '"@ + root.name + "'"@
    } else {
        locate_message(root, comps.drop_first())
    }
}

/// Follows a whole selector from the document root: its first component must
/// name the root.
pub open spec fn target_of(root: ElementV, comps: Seq<XPathComponentView>) -> Result<(Seq<int>, TargetV), ErrorKind> {
    if comps.len() == 0 {
        Err(ErrorKind::InvalidXPath)
    } else if comps[0].name != root.name {
        Err(ErrorKind::PatchFailed)
    } else {
        locate(root, comps.drop_first())
    }
}

/// What a selector designates, found by the code.
pub enum Target {
    Itself,
    Attribute(String),
    Text,
    Child(usize),
}

pub open spec fn target_view(t: Target) -> TargetV {
    match t {
        Target::Itself => TargetV::Itself,
        Target::Attribute(a) => TargetV::Attribute(a@),
        Target::Text => TargetV::Text,
        Target::Child(i) => TargetV::Child(i as int),
    }
}

pub open spec fn comps_view(comps: Seq<XPathComponent>) -> Seq<XPathComponentView> {
    comps.map_values(|c: XPathComponent| c@)
}

pub open spec fn located_is(r: Result<(Vec<usize>, Target), Error>, s: Result<(Seq<int>, TargetV), ErrorKind>) -> bool {
    match (r, s) {
        (Ok((p, t)), Ok((q, u))) => p@.map_values(|i: usize| i as int) == q && target_view(t) == u,
        (Err(e), Err(k)) => e.spec_kind() == k,
        _ => false,
    }
}

proof fn lemma_first_match_mono(cs: Seq<ChildV>, comp: XPathComponentView, n: int, m: int)
    requires
        n <= m,
        first_match(cs, comp, n) is Some,
    ensures
        first_match(cs, comp, m) == first_match(cs, comp, n),
    decreases m - n,
{
    if n < m {
        lemma_first_match_mono(cs, comp, n, m - 1);
    }
}

proof fn lemma_first_match_found(cs: Seq<ChildV>, comp: XPathComponentView, n: int)
    ensures
        first_match(cs, comp, n) matches Some(j) ==> 0 <= j < n && child_matches(cs, comp, j),
    decreases n,
{
    if n > 0 {
        lemma_first_match_found(cs, comp, n - 1);
    }
}

proof fn lemma_last_match_found(cs: Seq<ChildV>, comp: XPathComponentView, n: int)
    ensures
        last_match(cs, comp, n) matches Some(j) ==> 0 <= j < n && child_matches(cs, comp, j),
    decreases n,
{
    if n > 0 {
        lemma_last_match_found(cs, comp, n - 1);
    }
}

pub open spec fn opt_int(o: Option<usize>) -> Option<int> {
    match o {
        Some(i) => Some(i as int),
        None => None,
    }
}

pub proof fn lemma_select_found(cs: Seq<ChildV>, comp: XPathComponentView, is_last: bool)
    ensures
        select_child(cs, comp, is_last) matches Some(i) ==> 0 <= i < cs.len() && cs[i] is Element,
{
    lemma_first_match_found(cs, comp, cs.len() as int);
    lemma_last_match_found(cs, comp, cs.len() as int);
}

/// Whether the element `c` carries the attribute `(a, v)`.
fn has_attribute(c: &XmlElement, a: &String, v: &String) -> (b: bool)
    ensures
        b == has_attr(element_view(*c).attributes, a@, v@),
{
    let ghost av = element_view(*c).attributes;
    let mut k: usize = 0;
    while k < c.attributes.len()
        invariant
            k <= c.attributes@.len(),
            av == attrs_view(c.attributes@),
            forall|j: int| 0 <= j < k ==> av[j] != (a@, v@),
        decreases c.attributes.len() - k,
    {
        let pair = &c.attributes[k];
        assert(av[k as int] == (pair.0@, pair.1@));
        if pair.0.eq(a) && pair.1.eq(v) {
            return true;
        }
        k = k + 1;
    }
    false
}

/// The index of the child that `comp` selects.
fn select_index(e: &XmlElement, comp: &XPathComponent, is_last: bool) -> (r: Option<usize>)
    ensures
        r matches Some(i) ==> i < e.children@.len(),
        opt_int(r) == select_child(element_view(*e).children, comp@, is_last),
{
    let ghost cs = element_view(*e).children;
    proof {
        lemma_children_view(e.children@);
    }
    let take_last = !is_last && comp.position.is_none() && comp.attribute_match.is_some();
    let mut match_count: usize = 0;
    let mut matched: Option<usize> = None;
    let mut i: usize = 0;
    while i < e.children.len()
        invariant
            i <= e.children@.len() == cs.len(),
            cs == element_view(*e).children,
            take_last == (!is_last && comp@.position is None && comp@.attribute_match is Some),
            match_count as nat == count_named(cs, comp@.name, i as int),
            match_count <= i,
            take_last ==> opt_int(matched) == last_match(cs, comp@, i as int),
            !take_last ==> opt_int(matched) == first_match(cs, comp@, i as int),
            matched matches Some(j) ==> j < i,
            matched is Some ==> (comp@.position matches Some(p) ==> match_count >= p),
            is_last ==> matched is None,
        decreases e.children.len() - i,
    {
        proof {
            lemma_children_view(e.children@);
        }
        assert(cs[i as int] == child_view(e.children@[i as int]));
        if let XmlChild::Element(ce) = &e.children[i] {
            if ce.name == comp.name {
                match_count = match_count + 1;
                let matches = match (&comp.position, &comp.attribute_match) {
                    (Some(pos), _) => match_count == *pos,
                    (_, Some((a, v))) => has_attribute(ce, a, v),
                    (None, None) => matched.is_none(),
                };
                if matches {
                    matched = Some(i);
                    if is_last {
                        proof {
                            lemma_first_match_mono(cs, comp@, i + 1, cs.len() as int);
                        }
                        return matched;
                    }
                }
            }
        }
        i = i + 1;
    }
    matched
}

/// `r` with the child indices `path` put before its own.
pub open spec fn below(path: Seq<int>, r: Result<(Seq<int>, TargetV), ErrorKind>) -> Result<(Seq<int>, TargetV), ErrorKind> {
    match r {
        Ok((p, t)) => Ok((path + p, t)),
        Err(k) => Err(k),
    }
}

/// Follows `comps[k..]` down from `e`, one element at a time.
fn locate_from(e: &XmlElement, comps: &Vec<XPathComponent>, k: usize) -> (r: Result<(Vec<usize>, Target), Error>)
    requires
        k < comps.len(),
    ensures
        located_is(r, locate(element_view(*e), comps_view(comps@).skip(k as int))),
        r matches Err(err) ==> err.spec_message() == locate_message(element_view(*e), comps_view(comps@).skip(k as int)),
{
    let ghost goal = locate(element_view(*e), comps_view(comps@).skip(k as int));
    let mut cur: &XmlElement = e;
    let mut j: usize = k;
    let mut path: Vec<usize> = Vec::new();
    assert(path@.map_values(|i: usize| i as int) =~= Seq::<int>::empty());
    assert(below(seq![], goal) == goal);
    loop
        invariant
            k <= j < comps@.len(),
            goal == locate(element_view(*e), comps_view(comps@).skip(k as int)),
            locate_message(element_view(*e), comps_view(comps@).skip(k as int)) == locate_message(
                element_view(*cur),
                comps_view(comps@).skip(j as int),
            ),
            goal == below(path@.map_values(|i: usize| i as int), locate(element_view(*cur), comps_view(comps@).skip(j as int))),
        decreases comps@.len() - j,
    {
        let ghost pv = path@.map_values(|i: usize| i as int);
        let ghost cv = comps_view(comps@).skip(j as int);
        assert(comps_view(comps@).len() == comps@.len());
        assert(cv.len() == comps@.len() - j);
        assert(cv[0] == comps@[j as int]@);
        assert(cv.drop_first() =~= comps_view(comps@).skip(j + 1));
        let c = &comps[j];
        let is_last = j == comps.len() - 1;
        let name = chars_of(c.name.as_str());
        assert(name@.subrange(0, name@.len() as int) =~= c.name@);
        if name.len() > 0 && name[0] == '@' {
            if !is_last {
                assert(locate(element_view(*cur), cv) == Err::<(Seq<int>, TargetV), ErrorKind>(ErrorKind::InvalidXPath));
                return Err(Error::with_text(ErrorKind::InvalidXPath, "attribute selector must be last in XPath"));
            }
            let a = string_of_range(&name, 1, name.len());
            assert(name@.subrange(1, name@.len() as int) =~= c.name@.drop_first());
            assert(pv + Seq::<int>::empty() =~= pv);
            return Ok((path, Target::Attribute(a)));
        }
        if range_is(&name, 0, name.len(), "text()") {
            assert(name@.subrange(0, name@.len() as int) =~= c.name@);
            if !is_last {
                assert(locate(element_view(*cur), cv) == Err::<(Seq<int>, TargetV), ErrorKind>(ErrorKind::InvalidXPath));
                return Err(Error::with_text(ErrorKind::InvalidXPath, "text() selector must be last in XPath"));
            }
            assert(pv + Seq::<int>::empty() =~= pv);
            return Ok((path, Target::Text));
        }
        assert(name@.subrange(0, name@.len() as int) =~= c.name@);
        match select_index(cur, c, is_last) {
            None => {
                let mut m: Vec<char> = Vec::new();
                push_str(&mut m, "XPath target not found: element '");
                push_str(&mut m, c.name.as_str());
                push_str(&mut m, "' in '");
                push_str(&mut m, cur.name.as_str());
                push_str(&mut m, "'");
                return Err(Error::from_chars(ErrorKind::PatchFailed, &m));
            },
            Some(i) => {
                if is_last {
                    assert(pv + Seq::<int>::empty() =~= pv);
                    return Ok((path, Target::Child(i)));
                }
                proof {
                    lemma_children_view(cur.children@);
                    if cv[0].position is None && cv[0].attribute_match is Some {
                        lemma_last_match_found(element_view(*cur).children, cv[0], cur.children@.len() as int);
                    } else {
                        lemma_first_match_found(element_view(*cur).children, cv[0], cur.children@.len() as int);
                    }
                }
                match &cur.children[i] {
                    XmlChild::Element(ce) => {
                        let ghost rest = locate(element_view(*ce), comps_view(comps@).skip(j + 1));
                        assert(element_view(*ce) == elem_of(element_view(*cur).children[i as int]));
                        path.push(i);
                        assert(path@.map_values(|x: usize| x as int) =~= pv.push(i as int));
                        assert(below(pv, below(seq![i as int], rest)) == below(pv.push(i as int), rest)) by {
                            if let Ok((p, t)) = rest {
                                assert(pv + (seq![i as int] + p) =~= pv.push(i as int) + p);
                            }
                        }
                        cur = ce;
                        j = j + 1;
                    },
                    XmlChild::Text(_) => {
                        return Err(Error::with_text(ErrorKind::PatchFailed, "XPath target is not an element"));
                    },
                }
            },
        }
    }
}

/// Follows a selector from the document root.
pub fn locate_target(root: &XmlElement, xpath: &Vec<XPathComponent>) -> (r: Result<(Vec<usize>, Target), Error>)
    ensures
        located_is(r, target_of(element_view(*root), comps_view(xpath@))),
        r matches Err(err) ==> err.spec_message() == target_message(element_view(*root), comps_view(xpath@)),
{
    if xpath.len() == 0 {
        return Err(Error::with_text(ErrorKind::InvalidXPath, "empty XPath"));
    }
    assert(comps_view(xpath@)[0] == xpath@[0]@);
    if xpath[0].name != root.name {
        let mut m: Vec<char> = Vec::new();
        push_str(&mut m, "XPath root '");
        push_str(&mut m, xpath[0].name.as_str());
        push_str(&mut m, "' does not match document root '");
        push_str(&mut m, root.name.as_str());
        push_str(&mut m, "'");
        return Err(Error::from_chars(ErrorKind::PatchFailed, &m));
    }
    assert(comps_view(xpath@).drop_first() =~= comps_view(xpath@).skip(1));
    if xpath.len() == 1 {
        assert(Seq::<usize>::empty().map_values(|i: usize| i as int) =~= Seq::<int>::empty());
        return Ok((Vec::new(), Target::Itself));
    }
    locate_from(root, xpath, 1)
}


/// The element reached from `e` by the child indices `path`.
pub open spec fn elem_at(e: ElementV, path: Seq<int>) -> ElementV
    decreases path.len(),
{
    if path.len() == 0 {
        e
    } else {
        elem_at(elem_of(e.children[path[0]]), path.drop_first())
    }
}

/// `e` with the element at `path` replaced by `new`.
pub open spec fn replace_at(e: ElementV, path: Seq<int>, new: ElementV) -> ElementV
    decreases path.len(),
{
    if path.len() == 0 {
        new
    } else {
        ElementV {
            children: e.children.update(
                path[0],
                ChildV::Element(replace_at(elem_of(e.children[path[0]]), path.drop_first(), new)),
            ),
            ..e
        }
    }
}

/// Every index of `path` leads to an element.
pub open spec fn path_ok(e: ElementV, path: Seq<int>) -> bool
    decreases path.len(),
{
    path.len() == 0 || (0 <= path[0] < e.children.len() && e.children[path[0]] is Element && path_ok(
        elem_of(e.children[path[0]]),
        path.drop_first(),
    ))
}

pub open spec fn with_children(e: ElementV, cs: Seq<ChildV>) -> ElementV {
    ElementV { children: cs, ..e }
}

pub open spec fn with_attributes(e: ElementV, a: Seq<(Seq<char>, Seq<char>)>) -> ElementV {
    ElementV { attributes: a, ..e }
}

/// The index of the first attribute named `name`, or the number of attributes.
pub open spec fn attr_index(attrs: Seq<(Seq<char>, Seq<char>)>, name: Seq<char>) -> int
    decreases attrs.len(),
{
    if attrs.len() == 0 {
        0
    } else if attrs[0].0 == name {
        0
    } else {
        1 + attr_index(attrs.drop_first(), name)
    }
}

/// What a patch operation makes of the element `te` that its selector led
/// to: `t` is what the selector designates in it, `v` the operation's value
/// (empty when it has none) and `nc` the nodes that the value reads as.
pub open spec fn edit(
    te: ElementV,
    t: TargetV,
    action: PatchAction,
    v: Seq<char>,
    pos: Option<PatchPosition>,
    nc: Seq<ChildV>,
) -> Result<ElementV, ErrorKind> {
    let cs = te.children;
    match action {
        PatchAction::Add => match t {
            TargetV::Attribute(a) => Ok(with_attributes(te, te.attributes.push((a, v)))),
            TargetV::Text => Ok(with_children(te, cs.push(ChildV::Text(v)))),
            TargetV::Child(i) => match pos {
                Some(PatchPosition::Before) => Ok(with_children(te, cs.take(i) + nc + cs.skip(i))),
                Some(PatchPosition::After) => Ok(
                    with_children(te, cs.take(i + 1) + nc + cs.skip(i + 1)),
                ),
                Some(PatchPosition::Prepend) => match cs[i] {
                    ChildV::Element(ce) => Ok(
                        with_children(
                            te,
                            cs.update(i, ChildV::Element(with_children(ce, nc + ce.children))),
                        ),
                    ),
                    ChildV::Text(_) => Err(ErrorKind::PatchFailed),
                },
                None => match cs[i] {
                    ChildV::Element(ce) => Ok(
                        with_children(
                            te,
                            cs.update(i, ChildV::Element(with_children(ce, ce.children + nc))),
                        ),
                    ),
                    ChildV::Text(_) => Err(ErrorKind::PatchFailed),
                },
            },
            TargetV::Itself => match pos {
                Some(PatchPosition::Prepend) => Ok(with_children(te, nc + cs)),
                _ => Ok(with_children(te, cs + nc)),
            },
        },
        PatchAction::Remove => match t {
            TargetV::Attribute(a) => Ok(
                with_attributes(te, te.attributes.filter(other_name(a))),
            ),
            TargetV::Text => Ok(with_children(te, cs.filter(non_text()))),
            TargetV::Child(i) => Ok(with_children(te, cs.remove(i))),
            TargetV::Itself => Err(ErrorKind::PatchFailed),
        },
        PatchAction::Replace => match t {
            TargetV::Attribute(a) => {
                let j = attr_index(te.attributes, a);
                if j < te.attributes.len() {
                    Ok(with_attributes(te, te.attributes.update(j, (te.attributes[j].0, v))))
                } else {
                    Ok(with_attributes(te, te.attributes.push((a, v))))
                }
            },
            TargetV::Text => Ok(
                with_children(te, cs.filter(non_text()).push(ChildV::Text(v))),
            ),
            TargetV::Child(i) => Ok(with_children(te, cs.take(i) + nc + cs.skip(i + 1))),
            TargetV::Itself => Err(ErrorKind::PatchFailed),
        },
    }
}

/// Keeps the nodes that are not text.
pub open spec fn non_text() -> spec_fn(ChildV) -> bool {
    |c: ChildV| !(c is Text)
}

/// Keeps the attributes that are not named `a`.
pub open spec fn other_name(a: Seq<char>) -> spec_fn((Seq<char>, Seq<char>)) -> bool {
    |p: (Seq<char>, Seq<char>)| p.0 != a
}

/// An operation's edit needs the nodes that its value reads as.
pub open spec fn needs_fragment(action: PatchAction, t: TargetV) -> bool {
    match action {
        PatchAction::Add => t is Child || t is Itself,
        PatchAction::Replace => t is Child,
        PatchAction::Remove => false,
    }
}


pub proof fn lemma_children_view_push(a: Seq<XmlChild>, x: XmlChild)
    ensures
        children_view(a.push(x)) == children_view(a).push(child_view(x)),
{
    lemma_children_view(a);
    lemma_children_view_ext(a.push(x), children_view(a).push(child_view(x)));
}

pub proof fn lemma_children_view_add(a: Seq<XmlChild>, b: Seq<XmlChild>)
    ensures
        children_view(a + b) == children_view(a) + children_view(b),
{
    lemma_children_view(a);
    lemma_children_view(b);
    lemma_children_view_ext(a + b, children_view(a) + children_view(b));
}

/// Takes every child out of `v`, leaving it empty.
fn take_children(v: &mut Vec<XmlChild>) -> (r: Vec<XmlChild>)
    ensures
        r@ == old(v)@,
        final(v)@ == Seq::<XmlChild>::empty(),
{
    let mut r: Vec<XmlChild> = Vec::new();
    std::mem::swap(&mut r, v);
    r
}

/// `cs` without its text nodes.
fn drop_text_children(cs: Vec<XmlChild>) -> (r: Vec<XmlChild>)
    ensures
        children_view(r@) == children_view(cs@).filter(non_text()),
{
    let ghost all = cs@;
    let total = cs.len();
    let mut rest = cs;
    let mut r: Vec<XmlChild> = Vec::new();
    let mut k: usize = 0;
    proof {
        lemma_children_view(all.take(0));
        assert(all.take(0) =~= Seq::<XmlChild>::empty());
        assert(children_view(all.take(0)).filter(non_text()) =~= Seq::<ChildV>::empty());
        assert(children_view(r@) =~= Seq::<ChildV>::empty());
    }
    while rest.len() > 0
        invariant
            k + rest@.len() == all.len() == total,
            rest@ == all.skip(k as int),
            children_view(r@) == children_view(all.take(k as int)).filter(non_text()),
        decreases rest.len(),
    {
        let c = rest.remove(0);
        assert(all.take(k + 1) =~= all.take(k as int).push(c));
        assert(all.skip(k + 1) =~= all.skip(k as int).drop_first());
        proof {
            lemma_children_view_push(all.take(k as int), c);
            children_view(all.take(k as int)).lemma_filter_push(child_view(c), non_text());
        }
        let is_text = match &c {
            XmlChild::Text(_) => true,
            XmlChild::Element(_) => false,
        };
        assert(non_text()(child_view(c)) == !is_text);
        if !is_text {
            proof {
                lemma_children_view_push(r@, c);
            }
            r.push(c);
        }
        k = k + 1;
    }
    assert(all.take(k as int) =~= all);
    r
}

/// Removes the attributes named `a`.
fn drop_attributes(attrs: &Vec<(String, String)>, a: &String) -> (r: Vec<(String, String)>)
    ensures
        attrs_view(r@) == attrs_view(attrs@).filter(other_name(a@)),
{
    let mut r: Vec<(String, String)> = Vec::new();
    let mut k: usize = 0;
    proof {
        assert(attrs_view(attrs@).take(0) =~= Seq::<(Seq<char>, Seq<char>)>::empty());
        assert(attrs_view(attrs@).take(0).filter(other_name(a@)) =~= Seq::<(Seq<char>, Seq<char>)>::empty());
        assert(attrs_view(r@) =~= Seq::<(Seq<char>, Seq<char>)>::empty());
    }
    while k < attrs.len()
        invariant
            k <= attrs@.len(),
            attrs_view(r@) == attrs_view(attrs@).take(k as int).filter(other_name(a@)),
        decreases attrs.len() - k,
    {
        let pair = &attrs[k];
        let ghost pv = (pair.0@, pair.1@);
        assert(attrs_view(attrs@).take(k + 1) =~= attrs_view(attrs@).take(k as int).push(pv));
        proof {
            attrs_view(attrs@).take(k as int).lemma_filter_push(pv, other_name(a@));
        }
        let keep = !pair.0.eq(a);
        assert(other_name(a@)(pv) == keep);
        if keep {
            let ghost before = r@;
            r.push((pair.0.clone(), pair.1.clone()));
            assert(attrs_view(r@) =~= attrs_view(before).push(pv));
        }
        k = k + 1;
    }
    assert(attrs_view(attrs@).take(k as int) =~= attrs_view(attrs@));
    r
}

/// The index of the first attribute named `a`, or the number of attributes.
fn find_attribute(attrs: &Vec<(String, String)>, a: &String) -> (r: usize)
    ensures
        r as int == attr_index(attrs_view(attrs@), a@),
        r <= attrs@.len(),
{
    let ghost av = attrs_view(attrs@);
    let mut k: usize = 0;
    assert(av.skip(0) =~= av);
    while k < attrs.len()
        invariant
            k <= attrs@.len(),
            av == attrs_view(attrs@),
            attr_index(av, a@) == k + attr_index(av.skip(k as int), a@),
        decreases attrs.len() - k,
    {
        let pair = &attrs[k];
        assert(av.skip(k as int)[0] == (pair.0@, pair.1@));
        if pair.0.eq(a) {
            return k;
        }
        assert(av.skip(k as int).drop_first() =~= av.skip(k + 1));
        k = k + 1;
    }
    assert(av.skip(k as int).len() == 0);
    k
}


pub open spec fn edit_is(r: Result<(), Error>, s: Result<ElementV, ErrorKind>, after: ElementV) -> bool {
    match s {
        Ok(x) => r is Ok && after == x,
        Err(k) => r matches Err(e) && e.spec_kind() == k,
    }
}

/// Inserts the nodes `nc` among the children of `te`, at `at`.
fn insert_children(te: &mut XmlElement, at: usize, nc: Vec<XmlChild>)
    requires
        at <= old(te).children@.len(),
    ensures
        element_view(*final(te)) == with_children(
            element_view(*old(te)),
            element_view(*old(te)).children.take(at as int) + children_view(nc@) + element_view(
                *old(te),
            ).children.skip(at as int),
        ),
{
    let ghost cs = te.children@;
    let mut tail = te.children.split_off(at);
    let mut nc = nc;
    let ghost ncv = nc@;
    te.children.append(&mut nc);
    te.children.append(&mut tail);
    proof {
        assert(te.children@ =~= cs.take(at as int) + ncv + cs.skip(at as int));
        lemma_children_view_add(cs.take(at as int), ncv);
        lemma_children_view_add(cs.take(at as int) + ncv, cs.skip(at as int));
        lemma_children_view(cs);
        lemma_children_view(cs.take(at as int));
        lemma_children_view(cs.skip(at as int));
        assert(children_view(cs.take(at as int)) =~= children_view(cs).take(at as int));
        assert(children_view(cs.skip(at as int)) =~= children_view(cs).skip(at as int));
    }
}

/// Applies a patch operation to the element `te` that its selector led to.
fn edit_element(
    te: &mut XmlElement,
    t: &Target,
    action: PatchAction,
    v: &String,
    pos: Option<PatchPosition>,
    nc: Vec<XmlChild>,
) -> (r: Result<(), Error>)
    requires
        t matches Target::Child(i) ==> i < old(te).children.len(),
    ensures
        edit_is(
            r,
            edit(element_view(*old(te)), target_view(*t), action, v@, pos, children_view(nc@)),
            element_view(*final(te)),
        ),
{
    let ghost ev = element_view(*te);
    let ghost ncv = children_view(nc@);
    proof {
        lemma_children_view(te.children@);
    }
    match action {
        PatchAction::Add => match t {
            Target::Attribute(a) => {
                te.attributes.push((a.clone(), v.clone()));
                assert(attrs_view(te.attributes@) =~= ev.attributes.push((a@, v@)));
                Ok(())
            },
            Target::Text => {
                let ghost cs = te.children@;
                let node = XmlChild::Text(v.clone());
                let ghost nv = node;
                te.children.push(node);
                proof {
                    lemma_children_view_push(cs, nv);
                }
                Ok(())
            },
            Target::Child(i) => {
                let i = *i;
                match pos {
                    Some(PatchPosition::Before) => {
                        insert_children(te, i, nc);
                        Ok(())
                    },
                    Some(PatchPosition::After) => {
                        insert_children(te, i + 1, nc);
                        Ok(())
                    },
                    _ => {
                        let ghost cs = te.children@;
                        let c = te.children.remove(i);
                        match c {
                            XmlChild::Element(mut ce) => {
                                let ghost cev = element_view(ce);
                                let old_children = take_children(&mut ce.children);
                                let ghost ocv = old_children@;
                                if pos == Some(PatchPosition::Prepend) {
                                    let mut nc = nc;
                                    let ghost ncs = nc@;
                                    let mut oc = old_children;
                                    nc.append(&mut oc);
                                    ce.children = nc;
                                    proof {
                                        lemma_children_view_add(ncs, ocv);
                                    }
                                } else {
                                    let mut oc = old_children;
                                    let mut nc = nc;
                                    let ghost ncs = nc@;
                                    oc.append(&mut nc);
                                    ce.children = oc;
                                    proof {
                                        lemma_children_view_add(ocv, ncs);
                                    }
                                }
                                let ghost nce = element_view(ce);
                                te.children.insert(i, XmlChild::Element(ce));
                                proof {
                                    assert(te.children@ =~= cs.update(i as int, XmlChild::Element(ce)));
                                    lemma_children_view(te.children@);
                                    assert(children_view(te.children@) =~= ev.children.update(
                                        i as int,
                                        ChildV::Element(nce),
                                    ));
                                }
                                Ok(())
                            },
                            XmlChild::Text(txt) => {
                                te.children.insert(i, XmlChild::Text(txt));
                                Err(Error::with_text(ErrorKind::PatchFailed, "add target is not an element"))
                            },
                        }
                    },
                }
            },
            Target::Itself => {
                let ghost cs = te.children@;
                let mut nc = nc;
                let ghost ncs = nc@;
                if pos == Some(PatchPosition::Prepend) {
                    let mut oc = take_children(&mut te.children);
                    nc.append(&mut oc);
                    te.children = nc;
                    proof {
                        lemma_children_view_add(ncs, cs);
                    }
                } else {
                    te.children.append(&mut nc);
                    proof {
                        lemma_children_view_add(cs, ncs);
                    }
                }
                Ok(())
            },
        },
        PatchAction::Remove => match t {
            Target::Attribute(a) => {
                te.attributes = drop_attributes(&te.attributes, a);
                Ok(())
            },
            Target::Text => {
                let cs = take_children(&mut te.children);
                te.children = drop_text_children(cs);
                Ok(())
            },
            Target::Child(i) => {
                let ghost cs = te.children@;
                let removed = te.children.remove(*i);
                discard(removed);
                proof {
                    lemma_children_view(te.children@);
                    assert(children_view(te.children@) =~= ev.children.remove(*i as int));
                }
                Ok(())
            },
            Target::Itself => Err(Error::with_text(ErrorKind::PatchFailed, "cannot remove root element")),
        },
        PatchAction::Replace => match t {
            Target::Attribute(a) => {
                let j = find_attribute(&te.attributes, a);
                if j < te.attributes.len() {
                    let key = te.attributes[j].0.clone();
                    te.attributes.set(j, (key, v.clone()));
                    assert(attrs_view(te.attributes@) =~= ev.attributes.update(j as int, (ev.attributes[j as int].0, v@)));
                } else {
                    te.attributes.push((a.clone(), v.clone()));
                    assert(attrs_view(te.attributes@) =~= ev.attributes.push((a@, v@)));
                }
                Ok(())
            },
            Target::Text => {
                let cs = take_children(&mut te.children);
                let mut kept = drop_text_children(cs);
                let ghost kv = kept@;
                let node = XmlChild::Text(v.clone());
                let ghost nv = node;
                kept.push(node);
                proof {
                    lemma_children_view_push(kv, nv);
                }
                te.children = kept;
                Ok(())
            },
            Target::Child(i) => {
                let ghost cs = te.children@;
                let removed = te.children.remove(*i);
                discard(removed);
                let ghost ev2 = element_view(*te);
                proof {
                    lemma_children_view(te.children@);
                    assert(ev2.children =~= ev.children.remove(*i as int));
                }
                insert_children(te, *i, nc);
                proof {
                    assert(ev.children.remove(*i as int).take(*i as int) =~= ev.children.take(*i as int));
                    assert(ev.children.remove(*i as int).skip(*i as int) =~= ev.children.skip(*i + 1));
                }
                Ok(())
            },
            Target::Itself => Err(Error::with_text(ErrorKind::PatchFailed, "cannot replace root element")),
        },
    }
}


pub proof fn lemma_locate_ok(e: ElementV, comps: Seq<XPathComponentView>)
    ensures
        locate(e, comps) matches Ok((p, t)) ==> path_ok(e, p) && (t matches TargetV::Child(i) ==> 0
            <= i < elem_at(e, p).children.len()),
    decreases comps.len(),
{
    if comps.len() > 0 {
        let c = comps[0];
        let last = comps.len() == 1;
        if !(c.name.len() > 0 && c.name[0] == '@') && c.name != "text()"@ {
            if !last && c.position is None && c.attribute_match is Some {
                lemma_last_match_found(e.children, c, e.children.len() as int);
            } else {
                lemma_first_match_found(e.children, c, e.children.len() as int);
            }
            if let Some(i) = select_child(e.children, c, last) {
                if !last {
                    lemma_locate_ok(elem_of(e.children[i]), comps.drop_first());
                    if let Ok((p, t)) = locate(elem_of(e.children[i]), comps.drop_first()) {
                        assert((seq![i] + p).drop_first() =~= p);
                    }
                }
            }
        }
    }
}

pub open spec fn int_path(path: Seq<usize>) -> Seq<int> {
    path.map_values(|j: usize| j as int)
}

/// `x` put back into the open elements `ps`, innermost last: each is an
/// element and the index of the child that was taken out of it.
pub open spec fn rebuild(ps: Seq<(ElementV, int)>, x: ElementV) -> ElementV
    decreases ps.len(),
{
    if ps.len() == 0 {
        x
    } else {
        let p = ps.last();
        rebuild(ps.drop_last(), with_children(p.0, p.0.children.update(p.1, ChildV::Element(x))))
    }
}

proof fn lemma_children_view_remove(cs: Seq<XmlChild>, i: int)
    requires
        0 <= i < cs.len(),
    ensures
        children_view(cs.remove(i)) == children_view(cs).remove(i),
{
    lemma_children_view(cs);
    lemma_children_view_ext(cs.remove(i), children_view(cs).remove(i));
}

proof fn lemma_children_view_insert(cs: Seq<XmlChild>, i: int, c: XmlChild)
    requires
        0 <= i <= cs.len(),
    ensures
        children_view(cs.insert(i, c)) == children_view(cs).insert(i, child_view(c)),
{
    lemma_children_view(cs);
    lemma_children_view_ext(cs.insert(i, c), children_view(cs).insert(i, child_view(c)));
}

/// Follows `path` down from `e` and applies the operation there. The elements
/// passed on the way are held on a stack of their own, with the child that
/// leads on taken out, and get it back on the way up; the depth of the path
/// does not grow the call stack.
fn edit_at(
    e: &mut XmlElement,
    path: &Vec<usize>,
    t: &Target,
    action: PatchAction,
    v: &String,
    pos: Option<PatchPosition>,
    nc: Vec<XmlChild>,
) -> (r: Result<(), Error>)
    requires
        path_ok(element_view(*old(e)), int_path(path@)),
        t matches Target::Child(i) ==> i < elem_at(element_view(*old(e)), int_path(path@)).children.len(),
    ensures
        match edit(elem_at(element_view(*old(e)), int_path(path@)), target_view(*t), action, v@, pos, children_view(nc@)) {
            Ok(x) => r is Ok && element_view(*final(e)) == replace_at(element_view(*old(e)), int_path(path@), x),
            Err(k) => r matches Err(err) && err.spec_kind() == k,
        },
{
    let ghost orig = element_view(*e);
    let ghost pv = int_path(path@);
    let mut cur = XmlElement { name: String::new(), namespace: None, attributes: Vec::new(), children: Vec::new() };
    std::mem::swap(&mut cur, e);
    let mut parents: Vec<(XmlElement, usize)> = Vec::new();
    let ghost mut fulls: Seq<(ElementV, int)> = seq![];
    let mut j: usize = 0;
    assert(pv.skip(0) =~= pv);
    while j < path.len()
        invariant
            j <= path@.len() == pv.len(),
            pv == int_path(path@),
            parents@.len() == j,
            fulls.len() == j,
            forall|k: int| 0 <= k < j ==> 0 <= (#[trigger] fulls[k]).1 < fulls[k].0.children.len()
                && fulls[k].1 == parents@[k].1 as int
                && element_view(parents@[k].0) == with_children(fulls[k].0, fulls[k].0.children.remove(fulls[k].1)),
            path_ok(element_view(cur), pv.skip(j as int)),
            elem_at(element_view(cur), pv.skip(j as int)) == elem_at(orig, pv),
            forall|x: ElementV| #[trigger] replace_at(orig, pv, x) == rebuild(fulls, replace_at(element_view(cur), pv.skip(j as int), x)),
        decreases path.len() - j,
    {
        let ghost ec = element_view(cur);
        let ghost rest = pv.skip(j as int);
        assert(rest[0] == path@[j as int] as int);
        assert(rest.drop_first() =~= pv.skip(j + 1));
        let i = path[j];
        proof {
            lemma_children_view(cur.children@);
            lemma_children_view_remove(cur.children@, i as int);
        }
        let c = cur.children.remove(i);
        match c {
            XmlChild::Element(ce) => {
                let ghost cev = element_view(ce);
                assert(ec.children[i as int] == ChildV::Element(cev));
                assert(element_view(cur) == with_children(ec, ec.children.remove(i as int)));
                parents.push((cur, i));
                proof {
                    let old_fulls = fulls;
                    fulls = fulls.push((ec, i as int));
                    assert forall|x: ElementV| #[trigger] replace_at(orig, pv, x) == rebuild(
                        fulls,
                        replace_at(cev, pv.skip(j + 1), x),
                    ) by {
                        assert(replace_at(orig, pv, x) == rebuild(old_fulls, replace_at(ec, rest, x)));
                        assert(fulls.drop_last() =~= old_fulls);
                        assert(replace_at(ec, rest, x) == with_children(
                            ec,
                            ec.children.update(i as int, ChildV::Element(replace_at(cev, pv.skip(j + 1), x))),
                        ));
                    }
                    assert forall|k: int| 0 <= k < j + 1 implies 0 <= (#[trigger] fulls[k]).1 < fulls[k].0.children.len()
                        && fulls[k].1 == parents@[k].1 as int
                        && element_view(parents@[k].0) == with_children(fulls[k].0, fulls[k].0.children.remove(fulls[k].1)) by {
                        if k < j {
                            assert(fulls[k] == old_fulls[k]);
                        }
                    }
                }
                cur = ce;
                j = j + 1;
            },
            XmlChild::Text(_) => {
                proof {
                    assert(false);
                }
                return Err(Error::with_text(ErrorKind::PatchFailed, "XPath target is not an element"));
            },
        }
    }
    assert(pv.skip(j as int) =~= Seq::<int>::empty());
    proof {
        lemma_children_view(cur.children@);
    }
    let r = edit_element(&mut cur, t, action, v, pos, nc);
    let ghost done = element_view(cur);
    assert(replace_at(orig, pv, done) == rebuild(fulls, done));
    assert(fulls.take(parents@.len() as int) =~= fulls);
    while parents.len() > 0
        invariant
            parents@.len() <= fulls.len(),
            forall|k: int| 0 <= k < parents@.len() ==> 0 <= (#[trigger] fulls[k]).1 < fulls[k].0.children.len()
                && fulls[k].1 == parents@[k].1 as int
                && element_view(parents@[k].0) == with_children(fulls[k].0, fulls[k].0.children.remove(fulls[k].1)),
            rebuild(fulls.take(parents@.len() as int), element_view(cur)) == rebuild(fulls, done),
        decreases parents.len(),
    {
        let m = parents.len();
        let ghost f = fulls[m - 1];
        let ghost top = parents@[m - 1];
        assert(element_view(top.0) == with_children(f.0, f.0.children.remove(f.1)));
        let (mut p, i) = parents.pop().unwrap();
        assert(p == top.0 && i == top.1);
        let ghost ecur = element_view(cur);
        proof {
            lemma_children_view(p.children@);
            lemma_children_view_insert(p.children@, i as int, XmlChild::Element(cur));
        }
        p.children.insert(i, XmlChild::Element(cur));
        assert(f.0.children.remove(i as int).insert(i as int, ChildV::Element(ecur)) =~= f.0.children.update(i as int, ChildV::Element(ecur)));
        assert(element_view(p) == with_children(f.0, f.0.children.update(i as int, ChildV::Element(ecur))));
        assert(fulls.take(m as int).drop_last() =~= fulls.take(m - 1));
        assert(fulls.take(m as int).last() == f);
        cur = p;
    }
    assert(fulls.take(0) =~= Seq::<(ElementV, int)>::empty());
    std::mem::swap(&mut cur, e);
    r
}


/// The name of an attribute as the tree keeps it: `prefix:local` when the
/// attribute has a prefix, else the local name.
pub open spec fn attr_key(a: XmlAttrV) -> Seq<char> {
    match a.prefix {
        Some(p) => p + seq![':'] + a.local_name,
        None => a.local_name,
    }
}

pub open spec fn start_element_v(name: Seq<char>, ns: Option<Seq<char>>, attrs: Seq<XmlAttrV>) -> ElementV {
    ElementV {
        name,
        namespace: ns,
        attributes: attrs.map_values(|a: XmlAttrV| (attr_key(a), a.value)),
        children: seq![],
    }
}

/// `stack` with `c` appended to the children of its last element.
pub open spec fn add_child(stack: Seq<ElementV>, c: ChildV) -> Seq<ElementV> {
    let top = stack.last();
    stack.update(stack.len() - 1, with_children(top, top.children.push(c)))
}

/// The element tree that the reader tokens `t[i..]` complete, `stack` being
/// the elements opened and not yet closed: the first element to close with
/// no open parent is the root. Text outside every element is dropped; an
/// error token, an end tag that closes nothing, or no root is an XML error.
pub open spec fn build_tree(t: Seq<TokenV>, i: int, stack: Seq<ElementV>) -> Result<ElementV, ErrorKind>
    decreases t.len() - i,
{
    if i < 0 || i >= t.len() {
        Err(ErrorKind::Xml)
    } else {
        match t[i] {
            TokenV::Error => Err(ErrorKind::Xml),
            TokenV::Start(n, ns, a) => build_tree(t, i + 1, stack.push(start_element_v(n, ns, a))),
            TokenV::End(_) => if stack.len() == 0 {
                Err(ErrorKind::Xml)
            } else if stack.len() == 1 {
                Ok(stack.last())
            } else {
                build_tree(t, i + 1, add_child(stack.drop_last(), ChildV::Element(stack.last())))
            },
            TokenV::Characters(s) => build_tree(
                t,
                i + 1,
                if stack.len() > 0 { add_child(stack, ChildV::Text(s)) } else { stack },
            ),
            TokenV::CData(s) => build_tree(
                t,
                i + 1,
                if stack.len() > 0 { add_child(stack, ChildV::Text(s)) } else { stack },
            ),
            _ => build_tree(t, i + 1, stack),
        }
    }
}

/// The element tree of the XML text `input`.
pub open spec fn tree_of(input: Seq<char>) -> Result<ElementV, ErrorKind> {
    build_tree(xml_tokens(input), 0, seq![])
}

pub open spec fn tree_is(r: Result<XmlElement, Error>, s: Result<ElementV, ErrorKind>) -> bool {
    match (r, s) {
        (Ok(e), Ok(v)) => element_view(e) == v,
        (Err(e), Err(k)) => e.spec_kind() == k,
        _ => false,
    }
}

pub open spec fn stack_view(s: Seq<XmlElement>) -> Seq<ElementV> {
    s.map_values(|e: XmlElement| element_view(e))
}

/// The name under which the tree keeps the attribute `a`.
fn attribute_key(a: &XmlAttr) -> (r: String)
    ensures
        r@ == attr_key(a@),
{
    match &a.prefix {
        Some(p) => {
            let mut v: Vec<char> = Vec::new();
            push_str(&mut v, p.as_str());
            v.push(':');
            push_str(&mut v, a.local_name.as_str());
            assert(v@ =~= p@ + seq![':'] + a.local_name@);
            string_of(&v)
        },
        None => a.local_name.clone(),
    }
}

/// A new element with the start tag's name, namespace and attributes.
fn new_element(name: &String, ns: &Option<String>, attrs: &Vec<XmlAttr>) -> (e: XmlElement)
    ensures
        element_view(e) == start_element_v(name@, opt_view(*ns), attrs@.map_values(|x: XmlAttr| x@)),
{
    let mut out: Vec<(String, String)> = Vec::new();
    let mut k: usize = 0;
    while k < attrs.len()
        invariant
            k <= attrs@.len(),
            attrs_view(out@) == attrs@.map_values(|x: XmlAttr| x@).take(k as int).map_values(
                |a: XmlAttrV| (attr_key(a), a.value),
            ),
        decreases attrs.len() - k,
    {
        let key = attribute_key(&attrs[k]);
        let ghost before = out@;
        let value = attrs[k].value.clone();
        let ghost pv = (key@, value@);
        out.push((key, value));
        let ghost full = attrs@.map_values(|x: XmlAttr| x@);
        assert(attrs_view(out@) =~= attrs_view(before).push(pv));
        assert(full.take(k + 1) =~= full.take(k as int).push(attrs@[k as int]@));
        assert(attrs_view(out@) =~= full.take(k + 1).map_values(
            |a: XmlAttrV| (attr_key(a), a.value),
        ));
        k = k + 1;
    }
    assert(attrs@.map_values(|x: XmlAttr| x@).take(k as int) =~= attrs@.map_values(|x: XmlAttr| x@));
    let namespace = match ns {
        Some(n) => Some(n.clone()),
        None => None,
    };
    let e = XmlElement { name: name.clone(), namespace, attributes: out, children: Vec::new() };
    assert(children_view(e.children@) =~= Seq::<ChildV>::empty());
    e
}

/// Appends `c` to the children of the last element of `stack`.
fn push_to_top(stack: &mut Vec<XmlElement>, c: XmlChild)
    requires
        old(stack)@.len() > 0,
    ensures
        stack_view(final(stack)@) == add_child(stack_view(old(stack)@), child_view(c)),
        final(stack)@.len() == old(stack)@.len(),
{
    let ghost sv = stack_view(stack@);
    let ghost cv = child_view(c);
    let mut top = stack.pop().unwrap();
    let ghost tv = element_view(top);
    let ghost cs = top.children@;
    top.children.push(c);
    proof {
        lemma_children_view_push(cs, c);
    }
    stack.push(top);
    assert(stack_view(stack@) =~= add_child(sv, cv));
}

/// Builds the element tree from the reader tokens.
pub fn tree_from_tokens(t: &Vec<XmlToken>) -> (r: Result<XmlElement, Error>)
    ensures
        tree_is(r, build_tree(t@.map_values(|x: XmlToken| x@), 0, seq![])),
{
    let ghost tv = t@.map_values(|x: XmlToken| x@);
    let mut stack: Vec<XmlElement> = Vec::new();
    let mut i: usize = 0;
    assert(stack_view(stack@) =~= Seq::<ElementV>::empty());
    while i < t.len()
        invariant
            i <= t@.len(),
            tv == t@.map_values(|x: XmlToken| x@),
            build_tree(tv, i as int, stack_view(stack@)) == build_tree(tv, 0, seq![]),
        decreases t.len() - i,
    {
        assert(tv[i as int] == t@[i as int]@);
        match &t[i] {
            XmlToken::Error(m) => {
                return Err(Error::with_detail(ErrorKind::Xml, "XML parse error: ", m.as_str()));
            },
            XmlToken::Start(n, ns, a) => {
                let e = new_element(n, ns, a);
                let ghost sv = stack_view(stack@);
                stack.push(e);
                assert(stack_view(stack@) =~= sv.push(element_view(e)));
            },
            XmlToken::End(_) => {
                if stack.len() == 0 {
                    return Err(Error::with_text(ErrorKind::Xml, "unexpected end element"));
                }
                let ghost sv = stack_view(stack@);
                let e = stack.pop().unwrap();
                assert(stack_view(stack@) =~= sv.drop_last());
                if stack.len() == 0 {
                    return Ok(e);
                }
                push_to_top(&mut stack, XmlChild::Element(e));
            },
            XmlToken::Characters(s) | XmlToken::CData(s) => {
                if stack.len() > 0 {
                    push_to_top(&mut stack, XmlChild::Text(s.clone()));
                }
            },
            _ => {},
        }
        i = i + 1;
    }
    Err(Error::with_text(ErrorKind::Xml, "no root element found"))
}

/// Reads XML text into an element tree.
pub fn parse_xml_to_dom(input: &str) -> (r: Result<XmlElement, Error>)
    ensures
        tree_is(r, tree_of(input@)),
{
    let t = read_xml(input);
    tree_from_tokens(&t)
}


/// The namespaces that an element's start tag declares, `inner` being the
/// events of what lies inside it. The root declares its namespace as the
/// default one, and each prefix (`xlink`, `cenc`, `dvb`, `scte214`) that its
/// own attributes or anything inside it uses; no other element declares any.
pub open spec fn declared_ns(e: ElementV, is_root: bool, inner: Seq<WriteEventV>) -> Seq<(Seq<char>, Seq<char>)> {
    if is_root {
        let used = seq![WriteEventV::Start(e.name, seq![], e.attributes)] + inner;
        (if e.namespace is Some {
            seq![(seq![], e.namespace->0)]
        } else {
            seq![]
        }) + declared_if_used(used, "xlink"@, xlink_namespace()) + declared_if_used(
            used,
            "cenc"@,
            "urn:mpeg:cenc:2013"@,
        ) + declared_if_used(used, "dvb"@, "urn:dvb:dash:dash-extensions:2014-1"@) + declared_if_used(
            used,
            "scte214"@,
            "urn:scte:dash:scte214-extensions"@,
        )
    } else {
        seq![]
    }
}

/// The events that write the element `e`: its start tag with its attributes
/// in order, its children in order, its end tag.
pub open spec fn element_events(e: ElementV, is_root: bool) -> Seq<WriteEventV>
    decreases e, 1nat,
{
    seq![WriteEventV::Start(e.name, declared_ns(e, is_root, children_events(e.children)), e.attributes)]
        + children_events(e.children) + seq![WriteEventV::End]
}

pub open spec fn children_events(cs: Seq<ChildV>) -> Seq<WriteEventV>
    decreases cs, cs.len(),
{
    if cs.len() == 0 {
        seq![]
    } else {
        children_events(cs.subrange(0, cs.len() - 1)) + child_events(cs[cs.len() - 1])
    }
}

pub open spec fn child_events(c: ChildV) -> Seq<WriteEventV>
    decreases c, 0nat,
{
    match c {
        ChildV::Element(e) => element_events(e, false),
        ChildV::Text(t) => seq![WriteEventV::Characters(t)],
    }
}

pub proof fn lemma_element_events_matched(e: ElementV, is_root: bool)
    ensures
        ends_matched(element_events(e, is_root)),
        open_depth(element_events(e, is_root)) == 0,
    decreases e, 1nat,
{
    lemma_children_events_matched(e.children);
    lemma_matched_wrap(
        WriteEventV::Start(e.name, declared_ns(e, is_root, children_events(e.children)), e.attributes),
        children_events(e.children),
    );
}

pub proof fn lemma_children_events_matched(cs: Seq<ChildV>)
    ensures
        ends_matched(children_events(cs)),
        open_depth(children_events(cs)) == 0,
    decreases cs, cs.len(),
{
    if cs.len() == 0 {
        let empty = Seq::<WriteEventV>::empty();
        assert(open_depth(empty) == 0);
        assert forall|k: int| 0 <= k <= empty.len() implies open_depth(#[trigger] empty.take(k)) >= 0 by {
            assert(empty.take(k) =~= empty);
        }
    } else {
        lemma_children_events_matched(cs.subrange(0, cs.len() - 1));
        let c = cs[cs.len() - 1];
        match c {
            ChildV::Element(e) => {
                lemma_element_events_matched(e, false);
            },
            ChildV::Text(t) => {
                let one = seq![WriteEventV::Characters(t)];
                let empty = Seq::<WriteEventV>::empty();
                assert(open_depth(empty) == 0);
                assert(one.drop_last() =~= empty);
                assert forall|k: int| 0 <= k <= one.len() implies open_depth(#[trigger] one.take(k)) >= 0 by {
                    if k == 0 {
                        assert(one.take(0) =~= empty);
                    } else {
                        assert(one.take(1) =~= one);
                    }
                }
            },
        }
        lemma_matched_add(children_events(cs.subrange(0, cs.len() - 1)), child_events(c));
    }
}

/// A copy of the attributes of `e`.
fn copy_attributes(e: &XmlElement) -> (r: Vec<(String, String)>)
    ensures
        pairs_view(r@) == attrs_view(e.attributes@),
{
    let mut attrs: Vec<(String, String)> = Vec::new();
    let mut k: usize = 0;
    while k < e.attributes.len()
        invariant
            k <= e.attributes@.len(),
            pairs_view(attrs@) == attrs_view(e.attributes@).take(k as int),
        decreases e.attributes.len() - k,
    {
        let ghost before = attrs@;
        let a0 = e.attributes[k].0.clone();
        let a1 = e.attributes[k].1.clone();
        let ghost pv = (a0@, a1@);
        attrs.push((a0, a1));
        assert(pairs_view(attrs@) =~= pairs_view(before).push(pv));
        assert(attrs_view(e.attributes@).take(k + 1) =~= attrs_view(e.attributes@).take(k as int).push(pv));
        k = k + 1;
    }
    assert(attrs_view(e.attributes@).take(k as int) =~= attrs_view(e.attributes@));
    attrs
}

/// The events still owed for the open elements `frames`, innermost last:
/// for each, the events of its children from the index it has reached, then
/// its end tag.
pub open spec fn pending_events(frames: Seq<(ElementV, int)>) -> Seq<WriteEventV>
    decreases frames.len(),
{
    if frames.len() == 0 {
        seq![]
    } else {
        let f = frames.last();
        children_events(f.0.children.skip(f.1)) + seq![WriteEventV::End] + pending_events(frames.drop_last())
    }
}

pub open spec fn frames_view(fs: Seq<(&XmlElement, usize)>) -> Seq<(ElementV, int)> {
    fs.map_values(|f: (&XmlElement, usize)| (element_view(*f.0), f.1 as int))
}

proof fn lemma_children_events_concat(a: Seq<ChildV>, b: Seq<ChildV>)
    ensures
        children_events(a + b) == children_events(a) + children_events(b),
    decreases b.len(),
{
    if b.len() == 0 {
        assert(a + b =~= a);
        assert(children_events(a) + children_events(b) =~= children_events(a));
    } else {
        let ab = a + b;
        let bs = b.subrange(0, b.len() - 1);
        assert(ab.subrange(0, ab.len() - 1) =~= a + bs);
        lemma_children_events_concat(a, bs);
        assert(ab[ab.len() - 1] == b[b.len() - 1]);
        assert(children_events(ab) =~= children_events(a) + children_events(b));
    }
}

proof fn lemma_children_events_front(cs: Seq<ChildV>, i: int)
    requires
        0 <= i <= cs.len(),
    ensures
        i == cs.len() ==> children_events(cs.skip(i)) == Seq::<WriteEventV>::empty(),
        i < cs.len() ==> children_events(cs.skip(i)) == child_events(cs[i]) + children_events(cs.skip(i + 1)),
{
    if i == cs.len() {
        assert(cs.skip(i) =~= Seq::<ChildV>::empty());
    } else {
        let one = seq![cs[i]];
        assert(cs.skip(i) =~= one + cs.skip(i + 1));
        lemma_children_events_concat(one, cs.skip(i + 1));
        assert(one.subrange(0, 0) =~= Seq::<ChildV>::empty());
        assert(children_events(one.subrange(0, 0)) == Seq::<WriteEventV>::empty());
        assert(children_events(one) == children_events(one.subrange(0, 0)) + child_events(one[0]));
        assert(children_events(one) =~= child_events(cs[i]));
    }
}

/// Appends the events that write the children of `e` and then its end tag.
/// The walk keeps the open elements on a stack of its own, so that the depth
/// of the tree does not grow the call stack.
#[verifier::spinoff_prover]
fn push_body_events(out: &mut Vec<WriteEvent>, e: &XmlElement)
    ensures
        events_view(final(out)@) == events_view(old(out)@) + children_events(element_view(*e).children) + seq![
            WriteEventV::End,
        ],
{
    let ghost goal = events_view(out@) + children_events(element_view(*e).children) + seq![WriteEventV::End];
    let mut frames: Vec<(&XmlElement, usize)> = Vec::new();
    frames.push((e, 0));
    proof {
        let fv = frames_view(frames@);
        assert(fv.last() == (element_view(*e), 0int));
        assert(fv.drop_last() =~= Seq::<(ElementV, int)>::empty());
        assert(element_view(*e).children.skip(0) =~= element_view(*e).children);
        assert(pending_events(fv.drop_last()) == Seq::<WriteEventV>::empty());
        assert(pending_events(fv) =~= children_events(element_view(*e).children) + seq![WriteEventV::End]);
    }
    while frames.len() > 0
        invariant
            goal == events_view(out@) + pending_events(frames_view(frames@)),
            forall|k: int| 0 <= k < frames@.len() ==> (#[trigger] frames@[k]).1 <= frames@[k].0.children@.len(),
        decreases goal.len() - events_view(out@).len(),
    {
        let ghost fv0 = frames_view(frames@);
        let ghost before = events_view(out@);
        let (cur, i) = frames.pop().unwrap();
        let ghost ev = element_view(*cur);
        let ghost below = frames_view(frames@);
        assert(fv0.drop_last() =~= below);
        assert(fv0.last() == (ev, i as int));
        proof {
            lemma_children_view(cur.children@);
            lemma_children_events_front(ev.children, i as int);
        }
        if i == cur.children.len() {
            out.push(WriteEvent::End);
            assert(events_view(out@) =~= before + seq![WriteEventV::End]);
            assert(goal =~= events_view(out@) + pending_events(frames_view(frames@)));
        } else {
            frames.push((cur, i + 1));
            let ghost mid = frames_view(frames@);
            assert(mid.drop_last() =~= below);
            assert(mid.last() == (ev, i + 1));
            assert(ev.children[i as int] == child_view(cur.children@[i as int]));
            match &cur.children[i] {
                XmlChild::Text(t) => {
                    out.push(WriteEvent::Characters(t.clone()));
                    assert(events_view(out@) =~= before + seq![WriteEventV::Characters(t@)]);
                    assert(goal =~= events_view(out@) + pending_events(frames_view(frames@)));
                },
                XmlChild::Element(ce) => {
                    let ghost cev = element_view(*ce);
                    let attrs = copy_attributes(ce);
                    let none: Vec<(String, String)> = Vec::new();
                    assert(pairs_view(none@) =~= Seq::<(Seq<char>, Seq<char>)>::empty());
                    out.push(WriteEvent::Start(ce.name.clone(), none, attrs));
                    assert(events_view(out@) =~= before + seq![WriteEventV::Start(cev.name, seq![], cev.attributes)]);
                    frames.push((ce, 0));
                    let ghost top = frames_view(frames@);
                    assert(top.drop_last() =~= mid);
                    assert(top.last() == (cev, 0int));
                    assert(cev.children.skip(0) =~= cev.children);
                    assert(element_events(cev, false) =~= seq![WriteEventV::Start(cev.name, seq![], cev.attributes)]
                        + children_events(cev.children) + seq![WriteEventV::End]);
                    assert(child_events(ev.children[i as int]) == element_events(cev, false));
                    assert(pending_events(fv0) == children_events(ev.children.skip(i as int)) + seq![WriteEventV::End]
                        + pending_events(below));
                    assert(pending_events(mid) == children_events(ev.children.skip(i + 1)) + seq![WriteEventV::End]
                        + pending_events(below));
                    assert(pending_events(top) == children_events(cev.children) + seq![WriteEventV::End]
                        + pending_events(mid));
                    assert(goal =~= events_view(out@) + pending_events(frames_view(frames@)));
                },
            }
        }
    }
    assert(frames_view(frames@) =~= Seq::<(ElementV, int)>::empty());
}

/// Appends the events that write `e`; the root declares its namespaces.
fn push_element_events(out: &mut Vec<WriteEvent>, e: &XmlElement, is_root: bool)
    ensures
        events_view(final(out)@) == events_view(old(out)@) + element_events(element_view(*e), is_root),
{
    let ghost ev = element_view(*e);
    let ghost start = events_view(out@);
    let mut body: Vec<WriteEvent> = Vec::new();
    let none: Vec<(String, String)> = Vec::new();
    assert(pairs_view(none@) =~= Seq::<(Seq<char>, Seq<char>)>::empty());
    let probe_attrs = copy_attributes(e);
    let probe_name = e.name.clone();
    body.push(WriteEvent::Start(probe_name, none, probe_attrs));
    assert(events_view(body@) =~= seq![WriteEventV::Start(ev.name, seq![], ev.attributes)]);
    push_body_events(&mut body, e);
    let ghost inner = children_events(ev.children);
    let ghost with_end = body@;
    assert(events_view(with_end) =~= seq![WriteEventV::Start(ev.name, seq![], ev.attributes)] + inner + seq![WriteEventV::End]);
    let _ = body.pop();
    assert(body@ =~= with_end.drop_last());
    assert(events_view(body@) =~= events_view(with_end).drop_last());
    assert(events_view(body@) =~= seq![WriteEventV::Start(ev.name, seq![], ev.attributes)] + inner);
    let mut ns: Vec<(String, String)> = Vec::new();
    if is_root {
        if let Some(n) = &e.namespace {
            ns.push((String::new(), n.clone()));
        }
        assert(pairs_view(ns@) =~= (if ev.namespace is Some {
            seq![(Seq::<char>::empty(), ev.namespace->0)]
        } else {
            Seq::<(Seq<char>, Seq<char>)>::empty()
        }));
        proof {
            reveal_strlit("xlink");
            reveal_strlit("xlink:");
            reveal_strlit("cenc");
            reveal_strlit("cenc:");
            reveal_strlit("dvb");
            reveal_strlit("dvb:");
            reveal_strlit("scte214");
            reveal_strlit("scte214:");
            assert("xlink:"@ =~= "xlink"@ + seq![':']);
            assert("cenc:"@ =~= "cenc"@ + seq![':']);
            assert("dvb:"@ =~= "dvb"@ + seq![':']);
            assert("scte214:"@ =~= "scte214"@ + seq![':']);
        }
        declare_if_used(&mut ns, &body, "xlink", "xlink:", "http://www.w3.org/1999/xlink");
        declare_if_used(&mut ns, &body, "cenc", "cenc:", "urn:mpeg:cenc:2013");
        declare_if_used(&mut ns, &body, "dvb", "dvb:", "urn:dvb:dash:dash-extensions:2014-1");
        declare_if_used(&mut ns, &body, "scte214", "scte214:", "urn:scte:dash:scte214-extensions");
    }
    assert(pairs_view(ns@) == declared_ns(ev, is_root, inner));
    let ghost probe = events_view(body@);
    assert(probe =~= seq![WriteEventV::Start(ev.name, seq![], ev.attributes)] + inner);
    assert(body@.len() == probe.len());
    let start_attrs = copy_attributes(e);
    let start_name = e.name.clone();
    body.set(0, WriteEvent::Start(start_name, ns, start_attrs));
    assert(events_view(body@) =~= probe.update(0, WriteEventV::Start(ev.name, declared_ns(ev, is_root, inner), ev.attributes)));
    let ghost after_set = events_view(body@);
    assert(after_set =~= seq![WriteEventV::Start(ev.name, declared_ns(ev, is_root, inner), ev.attributes)] + inner);
    body.push(WriteEvent::End);
    assert(events_view(body@) =~= after_set.push(WriteEventV::End));
    assert(events_view(body@) =~= seq![WriteEventV::Start(ev.name, declared_ns(ev, is_root, inner), ev.attributes)] + inner
        + seq![WriteEventV::End]);
    assert(events_view(body@) =~= element_events(ev, is_root));
    let ghost b = body@;
    out.append(&mut body);
    assert(events_view(out@) =~= start + events_view(b));
}

/// How many nodes the tree `e` holds, itself included.
pub open spec fn tree_size(e: ElementV) -> nat
    decreases e, 1nat,
{
    1 + children_size(e.children)
}

pub open spec fn children_size(cs: Seq<ChildV>) -> nat
    decreases cs, cs.len(),
{
    if cs.len() == 0 {
        0
    } else {
        children_size(cs.subrange(0, cs.len() - 1)) + child_size(cs[cs.len() - 1])
    }
}

pub open spec fn child_size(c: ChildV) -> nat
    decreases c, 0nat,
{
    match c {
        ChildV::Element(e) => tree_size(e),
        ChildV::Text(_) => 1,
    }
}

/// How many nodes the trees `ws` hold together.
pub open spec fn work_size(ws: Seq<XmlElement>) -> nat
    decreases ws.len(),
{
    if ws.len() == 0 {
        0
    } else {
        work_size(ws.drop_last()) + tree_size(element_view(ws.last()))
    }
}

/// Takes the tree `e` apart one element at a time, so that freeing it does
/// not descend once per level of nesting.
pub fn dismantle(e: XmlElement) {
    let mut work: Vec<XmlElement> = Vec::new();
    work.push(e);
    while work.len() > 0
        decreases work_size(work@),
    {
        let ghost before = work@;
        let mut x = work.pop().unwrap();
        assert(before.drop_last() =~= work@);
        let mut cs = take_children(&mut x.children);
        let ghost total = work_size(work@) + children_size(children_view(cs@));
        assert(total < work_size(before));
        while cs.len() > 0
            invariant
                work_size(work@) + children_size(children_view(cs@)) <= total,
            decreases cs.len(),
        {
            let ghost cs0 = cs@;
            let ghost w0 = work@;
            let c = cs.pop().unwrap();
            proof {
                assert(cs0 =~= cs@.push(c));
                lemma_children_view_push(cs@, c);
                assert(children_view(cs0).subrange(0, children_view(cs0).len() - 1) =~= children_view(cs@));
                lemma_children_view(cs@);
                assert(children_size(children_view(cs0)) == children_size(children_view(cs@)) + child_size(
                    child_view(c),
                ));
            }
            match c {
                XmlChild::Element(ce) => {
                    let ghost cev = element_view(ce);
                    work.push(ce);
                    assert(work@.drop_last() =~= w0);
                    assert(work_size(work@) == work_size(w0) + tree_size(cev));
                },
                XmlChild::Text(_) => {},
            }
        }
    }
}

/// Frees a node that an operation took out of the tree; an element is taken
/// apart by `dismantle`.
fn discard(c: XmlChild) {
    match c {
        XmlChild::Element(e) => dismantle(e),
        XmlChild::Text(_) => {},
    }
}

/// Writes an element tree as XML text, with an XML declaration, indented.
pub fn serialize_dom(root: &XmlElement) -> (r: String)
    ensures
        r@ == xml_text(element_events(element_view(*root), true)),
{
    let mut out: Vec<WriteEvent> = Vec::new();
    push_element_events(&mut out, root, true);
    assert(events_view(out@) =~= element_events(element_view(*root), true));
    proof {
        lemma_element_events_matched(element_view(*root), true);
    }
    write_xml(&out)
}


/// The nodes that an operation's value reads as: text with no `<` is one text
/// node; anything else is read as XML inside a wrapper element, whose
/// children are the nodes.
pub open spec fn fragment_of(v: Seq<char>) -> Result<Seq<ChildV>, ErrorKind> {
    if first_index(v, '<') == v.len() {
        Ok(seq![ChildV::Text(v)])
    } else {
        match tree_of("<_wrapper_>"@ + v + "</_wrapper_>"@) {
            Ok(e) => Ok(e.children),
            Err(k) => Err(k),
        }
    }
}

/// Reads an operation's value into nodes.
pub fn parse_xml_fragment(fragment: &String) -> (r: Result<Vec<XmlChild>, Error>)
    ensures
        match fragment_of(fragment@) {
            Ok(cs) => r matches Ok(v) && children_view(v@) == cs,
            Err(k) => r matches Err(e) && e.spec_kind() == k,
        },
{
    let v = chars_of(fragment.as_str());
    let lt = find_char(&v, 0, v.len(), '<');
    assert(v@.subrange(0, v@.len() as int) =~= fragment@);
    if lt == v.len() {
        let mut r: Vec<XmlChild> = Vec::new();
        let node = XmlChild::Text(fragment.clone());
        let ghost nv = node;
        r.push(node);
        proof {
            lemma_children_view(r@);
            assert(children_view(r@) =~= seq![ChildV::Text(fragment@)]);
        }
        return Ok(r);
    }
    let mut w: Vec<char> = Vec::new();
    push_str(&mut w, "<_wrapper_>");
    push_str(&mut w, fragment.as_str());
    push_str(&mut w, "</_wrapper_>");
    let wrapped = string_of(&w);
    let dom = parse_xml_to_dom(wrapped.as_str())?;
    Ok(dom.children)
}

/// The operation's value, or empty text when it has none.
pub open spec fn op_value(op: PatchOperation) -> Seq<char> {
    match op.value {
        Some(s) => s@,
        None => seq![],
    }
}

/// What applying one patch operation to the tree `root` gives: the selector
/// is followed; the value is read into nodes where the edit needs them; the
/// target element is edited in place.
pub open spec fn apply_result(
    root: ElementV,
    comps: Seq<XPathComponentView>,
    action: PatchAction,
    v: Seq<char>,
    pos: Option<PatchPosition>,
) -> Result<ElementV, ErrorKind> {
    match target_of(root, comps) {
        Err(k) => Err(k),
        Ok((p, t)) => {
            let frag = if needs_fragment(action, t) { fragment_of(v) } else { Ok(seq![]) };
            match frag {
                Err(k) => Err(k),
                Ok(nc) => match edit(elem_at(root, p), t, action, v, pos, nc) {
                    Ok(x) => Ok(replace_at(root, p, x)),
                    Err(k) => Err(k),
                },
            }
        },
    }
}

/// Applies one patch operation to the tree.
pub fn apply_operation(root: &mut XmlElement, xpath: &SimpleXPath, op: &PatchOperation) -> (r: Result<(), Error>)
    ensures
        edit_is(
            r,
            apply_result(element_view(*old(root)), xpath@, op.action, op_value(*op), op.position),
            element_view(*final(root)),
        ),
{
    assert(xpath@ =~= comps_view(xpath.components@));
    let ghost rv = element_view(*root);
    let (path, t) = locate_target(root, &xpath.components)?;
    proof {
        assert(target_of(rv, xpath@) == locate(rv, xpath@.drop_first()));
        lemma_locate_ok(rv, xpath@.drop_first());
        assert(int_path(path@) =~= path@.map_values(|i: usize| i as int));
        assert(int_path(path@).skip(0) =~= int_path(path@));
    }
    let v = match &op.value {
        Some(s) => s.clone(),
        None => String::new(),
    };
    let needs = match op.action {
        PatchAction::Add => match t {
            Target::Child(_) | Target::Itself => true,
            _ => false,
        },
        PatchAction::Replace => match t {
            Target::Child(_) => true,
            _ => false,
        },
        PatchAction::Remove => false,
    };
    let nc = if needs {
        parse_xml_fragment(&v)?
    } else {
        let e: Vec<XmlChild> = Vec::new();
        proof {
            lemma_children_view(e@);
        }
        e
    };
    edit_at(root, &path, &t, op.action, &v, op.position, nc)
}

} // verus!
