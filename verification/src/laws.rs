//! Properties of the library as a whole: what every patch operation does to
//! an element tree, what writing an MPD declares and emits, and how a
//! segment template expands.
use vstd::prelude::*;

use crate::dom::{
    apply_result, attr_index, attr_value, elem_at, elem_of, fragment_of, lemma_locate_ok, locate,
    non_text, other_name, path_ok, replace_at, target_of, ChildV, ElementV, TargetV,
};
use crate::types::{PatchAction, PatchPosition};
use crate::error::ErrorKind;
use crate::patch::{patch_mismatch, patch_result};
use crate::types::{Mpd, PatchDocument};
use crate::template::{expand, pad_zero, variable_text};
use crate::text::{decimal, first_index, lemma_first_index_unique};
use crate::reread::{lemma_decimal_digits, lemma_decimal_read};
use crate::writer::{balanced, lemma_mpd_balanced, mpd_events, mpd_inner, mpd_namespaces, prefix_used};
use crate::xpath::{component_of, XPathComponentView};
use crate::dom::{child_matches, first_match, last_match, select_child, count_named, named};
use crate::patch_reader::{action_of, find_root, last_attr, patch_of_tokens, position_attr};
use crate::types::{ContentType, PresentationType};
use crate::text::{all_digits, i64_of, is_digit, is_white_space, trim, trim_end, trim_start, trim_char, usize_of};
use crate::dom::has_attr;
use crate::duration::{count_char, duration_ok, duration_scan, number_text_ok};
use crate::model::{AdaptationSetV, RepresentationV};
use crate::reader::{
    bool_or_false, opt_bool, opt_u64, str_or_empty, u32_or, u64_or,
    event_at, event_start, mpd_at, mpd_start, lemma_mpd_scan_keeps_attributes, timeline_entry_of,
    event_stream_at, event_stream_start, lemma_event_stream_scan_keeps_attributes,
    lemma_segment_base_scan_keeps_attributes, lemma_segment_list_scan_keeps_attributes,
    lemma_segment_template_scan_keeps_attributes, segment_base_at, segment_base_start,
    segment_list_at, segment_list_start, segment_template_at, segment_template_start,
    adaptation_set_at, adaptation_set_scan, adaptation_set_start, content_type_of, first_attr,
    first_xlink_attr, lemma_adaptation_set_scan_keeps_attributes, lemma_period_scan_keeps_attributes,
    lemma_representation_scan_keeps_attributes, opt_u32, period_at, period_scan, period_start,
    representation_at, representation_start,
};
use crate::text::u64_of;
use crate::types::AdaptationSet;
use crate::writer::{
    adaptation_set_attrs, adaptation_set_events, adaptation_set_inner, base_url_fn, content_steering_fn,
    descriptor_fn, each_events, lemma_adaptation_set_balanced, lemma_balanced_cat,
    lemma_balanced_empty, lemma_base_url_list_balanced, lemma_content_steering_balanced,
    lemma_descriptor_list_balanced, lemma_location_list_balanced, lemma_metrics_list_balanced,
    lemma_patch_location_list_balanced, lemma_period_list_balanced,
    lemma_service_description_list_balanced, lemma_utc_timing_list_balanced, location_fn,
    metrics_fn, mpd_attrs, opt_events, patch_location_fn, period_fn, representation_fn,
    service_description_fn, utc_timing_fn,
};
use crate::xml_io::{TokenV, WriteEventV, XmlAttrV};

verus! {

proof fn lemma_elem_at_replace(e: ElementV, p: Seq<int>, x: ElementV)
    requires
        path_ok(e, p),
    ensures
        elem_at(replace_at(e, p, x), p) == x,
    decreases p.len(),
{
    if p.len() > 0 {
        lemma_elem_at_replace(elem_of(e.children[p[0]]), p.drop_first(), x);
    }
}

proof fn lemma_target_path(root: ElementV, comps: Seq<XPathComponentView>)
    ensures
        target_of(root, comps) matches Ok((p, t)) ==> path_ok(root, p) && (t matches TargetV::Child(
            i,
        ) ==> 0 <= i < elem_at(root, p).children.len()),
{
    if comps.len() > 0 {
        lemma_locate_ok(root, comps.drop_first());
    }
}

proof fn lemma_attr_value_update(a: Seq<(Seq<char>, Seq<char>)>, name: Seq<char>, v: Seq<char>)
    requires
        attr_index(a, name) < a.len(),
    ensures
        attr_value(a.update(attr_index(a, name), (a[attr_index(a, name)].0, v)), name) == Some(v),
        a[attr_index(a, name)].0 == name,
    decreases a.len(),
{
    if a.len() > 0 && a[0].0 != name {
        let b = a.drop_first();
        let k = attr_index(b, name);
        lemma_attr_index_bound(b, name);
        lemma_attr_value_update(b, name, v);
        let j = attr_index(a, name);
        assert(j == k + 1);
        assert(a[j] == b[k]);
        let u = a.update(j, (a[j].0, v));
        assert(u.drop_first() =~= b.update(k, (b[k].0, v)));
        assert(u[0] == a[0]);
    }
}

proof fn lemma_attr_value_push(a: Seq<(Seq<char>, Seq<char>)>, name: Seq<char>, v: Seq<char>)
    requires
        attr_index(a, name) == a.len(),
    ensures
        attr_value(a.push((name, v)), name) == Some(v),
    decreases a.len(),
{
    if a.len() > 0 {
        lemma_attr_value_push(a.drop_first(), name, v);
        assert(a.push((name, v)).drop_first() =~= a.drop_first().push((name, v)));
    }
}

proof fn lemma_attr_value_filtered(a: Seq<(Seq<char>, Seq<char>)>, name: Seq<char>)
    ensures
        attr_value(a.filter(other_name(name)), name) is None,
    decreases a.len(),
{
    let f = a.filter(other_name(name));
    if f.len() > 0 {
        assert(f.contains(f[0]));
        a.lemma_filter_contains_rev(other_name(name), f[0]);
        assert(f[0].0 != name);
        assert forall|k: int| 0 <= k < f.len() implies (#[trigger] f[k]).0 != name by {
            assert(f.contains(f[k]));
            a.lemma_filter_contains_rev(other_name(name), f[k]);
        }
        lemma_no_attr(f, name);
    }
}

proof fn lemma_no_attr(a: Seq<(Seq<char>, Seq<char>)>, name: Seq<char>)
    requires
        forall|k: int| 0 <= k < a.len() ==> (#[trigger] a[k]).0 != name,
    ensures
        attr_value(a, name) is None,
    decreases a.len(),
{
    if a.len() > 0 {
        assert forall|k: int| 0 <= k < a.drop_first().len() implies (#[trigger] a.drop_first()[k]).0 != name by {
            assert(a.drop_first()[k] == a[k + 1]);
        }
        lemma_no_attr(a.drop_first(), name);
    }
}

/// A `replace` of an attribute that succeeds leaves the element holding the
/// attribute with the operation's value: reading it back gives what was
/// written.
pub proof fn law_replace_attribute_reads_back(
    root: ElementV,
    comps: Seq<XPathComponentView>,
    v: Seq<char>,
    pos: Option<PatchPosition>,
)
    requires
        target_of(root, comps) matches Ok((_, TargetV::Attribute(_))),
    ensures
        apply_result(root, comps, PatchAction::Replace, v, pos) matches Ok(r) && (target_of(
            root,
            comps,
        ) matches Ok((p, TargetV::Attribute(a))) && attr_value(elem_at(r, p).attributes, a) == Some(
            v,
        )),
{
    lemma_target_path(root, comps);
    if let Ok((p, TargetV::Attribute(a))) = target_of(root, comps) {
        let te = elem_at(root, p);
        let j = attr_index(te.attributes, a);
        let x = if j < te.attributes.len() {
            lemma_attr_value_update(te.attributes, a, v);
            ElementV { attributes: te.attributes.update(j, (te.attributes[j].0, v)), ..te }
        } else {
            assert(j == te.attributes.len()) by {
                lemma_attr_index_bound(te.attributes, a);
            }
            lemma_attr_value_push(te.attributes, a, v);
            ElementV { attributes: te.attributes.push((a, v)), ..te }
        };
        lemma_elem_at_replace(root, p, x);
    }
}

proof fn lemma_attr_index_bound(a: Seq<(Seq<char>, Seq<char>)>, name: Seq<char>)
    ensures
        0 <= attr_index(a, name) <= a.len(),
    decreases a.len(),
{
    if a.len() > 0 && a[0].0 != name {
        lemma_attr_index_bound(a.drop_first(), name);
    }
}

/// A `remove` of an attribute always succeeds once the selector is found,
/// and afterwards the element holds no attribute of that name.
pub proof fn law_remove_attribute_leaves_none(
    root: ElementV,
    comps: Seq<XPathComponentView>,
    v: Seq<char>,
    pos: Option<PatchPosition>,
)
    requires
        target_of(root, comps) matches Ok((_, TargetV::Attribute(_))),
    ensures
        apply_result(root, comps, PatchAction::Remove, v, pos) matches Ok(r) && (target_of(
            root,
            comps,
        ) matches Ok((p, TargetV::Attribute(a))) && attr_value(elem_at(r, p).attributes, a) is None),
{
    lemma_target_path(root, comps);
    if let Ok((p, TargetV::Attribute(a))) = target_of(root, comps) {
        let te = elem_at(root, p);
        lemma_attr_value_filtered(te.attributes, a);
        lemma_elem_at_replace(root, p, ElementV { attributes: te.attributes.filter(other_name(a)), ..te });
    }
}

/// A `remove` of an element takes exactly that child out of its parent: the
/// siblings before and after it stay, in order.
pub proof fn law_remove_element_drops_one_child(
    root: ElementV,
    comps: Seq<XPathComponentView>,
    v: Seq<char>,
    pos: Option<PatchPosition>,
)
    requires
        target_of(root, comps) matches Ok((_, TargetV::Child(_))),
    ensures
        apply_result(root, comps, PatchAction::Remove, v, pos) matches Ok(r) && (target_of(
            root,
            comps,
        ) matches Ok((p, TargetV::Child(i))) && elem_at(r, p).children == elem_at(
            root,
            p,
        ).children.remove(i) && elem_at(r, p).children.len() + 1 == elem_at(root, p).children.len()),
{
    lemma_target_path(root, comps);
    if let Ok((p, TargetV::Child(i))) = target_of(root, comps) {
        let te = elem_at(root, p);
        lemma_elem_at_replace(root, p, ElementV { children: te.children.remove(i), ..te });
    }
}

/// An `add` of elements with no position, when the value reads as nodes,
/// appends them to the end of the target element's children.
pub proof fn law_add_appends_children(
    root: ElementV,
    comps: Seq<XPathComponentView>,
    v: Seq<char>,
)
    requires
        target_of(root, comps) matches Ok((_, TargetV::Child(_))),
        fragment_of(v) is Ok,
    ensures
        apply_result(root, comps, PatchAction::Add, v, None) matches Ok(r) && (target_of(
            root,
            comps,
        ) matches Ok((p, TargetV::Child(i))) && elem_at(r, p).children[i] matches ChildV::Element(
            ce,
        ) && ce.children == elem_of(elem_at(root, p).children[i]).children + fragment_of(v)->Ok_0),
{
    lemma_target_path(root, comps);
    lemma_children_are_elements(root, comps);
    if let Ok((p, TargetV::Child(i))) = target_of(root, comps) {
        let te = elem_at(root, p);
        let nc = fragment_of(v)->Ok_0;
        let ce = elem_of(te.children[i]);
        let x = ElementV {
            children: te.children.update(i, ChildV::Element(ElementV { children: ce.children + nc, ..ce })),
            ..te
        };
        lemma_elem_at_replace(root, p, x);
    }
}

proof fn lemma_children_are_elements(root: ElementV, comps: Seq<XPathComponentView>)
    ensures
        target_of(root, comps) matches Ok((p, TargetV::Child(i))) ==> elem_at(root, p).children[i] is Element,
{
    if comps.len() > 0 {
        lemma_locate_child_element(root, comps.drop_first());
    }
}

proof fn lemma_locate_child_element(e: ElementV, comps: Seq<XPathComponentView>)
    ensures
        locate(e, comps) matches Ok((p, TargetV::Child(i))) ==> elem_at(e, p).children[i] is Element,
    decreases comps.len(),
{
    if comps.len() > 0 {
        crate::dom::lemma_select_found(e.children, comps[0], comps.len() == 1);
        if comps.len() > 1 {
            if let Some(i) = crate::dom::select_child(e.children, comps[0], false) {
                lemma_locate_child_element(elem_of(e.children[i]), comps.drop_first());
                if let Ok((p, t)) = locate(elem_of(e.children[i]), comps.drop_first()) {
                    assert((seq![i] + p).drop_first() =~= p);
                }
            }
        }
    }
}

/// A `replace` of an element's text leaves it exactly one text node, its
/// last child, with the operation's value; every element child stays.
pub proof fn law_replace_text_leaves_one_text(
    root: ElementV,
    comps: Seq<XPathComponentView>,
    v: Seq<char>,
    pos: Option<PatchPosition>,
)
    requires
        target_of(root, comps) matches Ok((_, TargetV::Text)),
    ensures
        apply_result(root, comps, PatchAction::Replace, v, pos) matches Ok(r) && (target_of(
            root,
            comps,
        ) matches Ok((p, TargetV::Text)) && elem_at(r, p).children == elem_at(
            root,
            p,
        ).children.filter(non_text()).push(ChildV::Text(v))),
{
    lemma_target_path(root, comps);
    if let Ok((p, TargetV::Text)) = target_of(root, comps) {
        let te = elem_at(root, p);
        lemma_elem_at_replace(
            root,
            p,
            ElementV { children: te.children.filter(non_text()).push(ChildV::Text(v)), ..te },
        );
    }
}

/// A patch meant for another MPD is refused: when the MPD has an id other
/// than the patch's `mpdId`, or a publish time other than the patch's
/// `originalPublishTime`, applying the patch fails with `PatchFailed`,
/// whatever its operations.
pub proof fn law_mismatched_patch_refused(m: Mpd, p: PatchDocument)
    requires
        patch_mismatch(m, p),
    ensures
        patch_result(m, p) == Err::<crate::model::MpdV, ErrorKind>(ErrorKind::PatchFailed),
{
}


/// The events that `write` hands to the XML writer are well nested: every
/// end tag closes an element that a start tag opened, and none is left open.
pub proof fn law_written_events_well_nested(m: Mpd)
    ensures
        balanced(mpd_events(m)),
{
    lemma_mpd_balanced(m);
}

/// The root `MPD` element declares each prefixed namespace exactly when an
/// element or attribute inside uses its prefix: `xlink` for the links of
/// periods and segment lists, `cenc` for the content protection fields,
/// `dvb` for the DVB extension attributes, `scte214` for the supplemental
/// codecs. So every prefix that is written is declared.
pub proof fn law_extension_namespaces_declared_iff_used(m: Mpd)
    ensures
        mpd_namespaces(m).contains(("xlink"@, "http://www.w3.org/1999/xlink"@)) <==> prefix_used(
            mpd_inner(m),
            "xlink:"@,
        ),
        mpd_namespaces(m).contains(("cenc"@, "urn:mpeg:cenc:2013"@)) <==> prefix_used(
            mpd_inner(m),
            "cenc:"@,
        ),
        mpd_namespaces(m).contains(("dvb"@, "urn:dvb:dash:dash-extensions:2014-1"@))
            <==> prefix_used(mpd_inner(m), "dvb:"@),
        mpd_namespaces(m).contains(("scte214"@, "urn:scte:dash:scte214-extensions"@))
            <==> prefix_used(mpd_inner(m), "scte214:"@),
{
    reveal_strlit("xlink");
    reveal_strlit("xlink:");
    reveal_strlit("cenc");
    reveal_strlit("cenc:");
    reveal_strlit("dvb");
    reveal_strlit("dvb:");
    reveal_strlit("scte214");
    reveal_strlit("scte214:");
    assert("xlink:"@ =~= "xlink"@ + seq![':']);
    assert("cenc:"@ =~= "cenc"@ + seq![':']);
    assert("dvb:"@ =~= "dvb"@ + seq![':']);
    assert("scte214:"@ =~= "scte214"@ + seq![':']);
    let ns = mpd_namespaces(m);
    let inner = mpd_inner(m);
    let xl = ("xlink"@, "http://www.w3.org/1999/xlink"@);
    let cenc = ("cenc"@, "urn:mpeg:cenc:2013"@);
    let dvb = ("dvb"@, "urn:dvb:dash:dash-extensions:2014-1"@);
    let scte = ("scte214"@, "urn:scte:dash:scte214-extensions"@);
    let nx: int = if prefix_used(inner, "xlink:"@) { 1 } else { 0 };
    let nc: int = if prefix_used(inner, "cenc:"@) { 1 } else { 0 };
    let nd: int = if prefix_used(inner, "dvb:"@) { 1 } else { 0 };
    let ns_: int = if prefix_used(inner, "scte214:"@) { 1 } else { 0 };
    assert(ns.len() == 1 + nx + nc + nd + ns_);
    assert(ns[0].0.len() == 0);
    assert forall|k: int| 0 <= k < ns.len() && #[trigger] ns[k] == xl implies prefix_used(inner, "xlink:"@) by {
        assert(ns[k].0.len() == 5);
    }
    if nx == 1 {
        assert(ns[1] == xl);
    }
    assert forall|k: int| 0 <= k < ns.len() && #[trigger] ns[k] == cenc implies prefix_used(inner, "cenc:"@) by {
        assert(ns[k].0.len() == 4);
    }
    if nc == 1 {
        assert(ns[1 + nx] == cenc);
    }
    assert forall|k: int| 0 <= k < ns.len() && #[trigger] ns[k] == dvb implies prefix_used(inner, "dvb:"@) by {
        assert(ns[k].0.len() == 3);
    }
    if nd == 1 {
        assert(ns[1 + nx + nc] == dvb);
    }
    assert forall|k: int| 0 <= k < ns.len() && #[trigger] ns[k] == scte implies prefix_used(inner, "scte214:"@) by {
        assert(ns[k].0.len() == 7);
    }
    if ns_ == 1 {
        assert(ns[1 + nx + nc + nd] == scte);
    }
}

/// A segment template with no `$` in it is its own expansion.
pub proof fn law_template_without_variables_unchanged(
    t: Seq<char>,
    number: u64,
    time: u64,
    bandwidth: u64,
    representation_id: Seq<char>,
)
    requires
        forall|k: int| 0 <= k < t.len() ==> t[k] != '$',
    ensures
        expand(t, number, time, bandwidth, representation_id) == t,
    decreases t.len(),
{
    if t.len() > 0 {
        assert forall|k: int| 0 <= k < t.drop_first().len() implies t.drop_first()[k] != '$' by {
            assert(t.drop_first()[k] == t[k + 1]);
        }
        law_template_without_variables_unchanged(t.drop_first(), number, time, bandwidth, representation_id);
        assert(seq![t[0]] + t.drop_first() =~= t);
    }
}

/// `$$` in a template stands for one `$`.
pub proof fn law_template_double_dollar(
    t: Seq<char>,
    number: u64,
    time: u64,
    bandwidth: u64,
    representation_id: Seq<char>,
)
    ensures
        expand(seq!['$', '$'] + t, number, time, bandwidth, representation_id) == seq!['$'] + expand(
            t,
            number,
            time,
            bandwidth,
            representation_id,
        ),
{
    assert((seq!['$', '$'] + t).skip(2) =~= t);
}

/// `$Number%0<w>d$` expands to the segment number in decimal, padded on the
/// left with zeros to `w` digits; a number with more digits than `w` is
/// written whole, never cut.
pub proof fn law_number_width_pads_without_truncating(
    w: usize,
    number: u64,
    time: u64,
    bandwidth: u64,
    representation_id: Seq<char>,
)
    ensures
        expand("$Number%0"@ + decimal(w as nat) + "d$"@, number, time, bandwidth, representation_id)
            == pad_zero(decimal(number as nat), w as nat),
        ({
            let digits = decimal(number as nat);
            let out = pad_zero(digits, w as nat);
            &&& out.len() == if digits.len() < w { w as int } else { digits.len() as int }
            &&& out.skip(out.len() - digits.len()) == digits
            &&& forall|i: int| 0 <= i < out.len() - digits.len() ==> out[i] == '0'
        }),
{
    reveal_strlit("$Number%0");
    reveal_strlit("d$");
    reveal_strlit("Number");
    let d = decimal(w as nat);
    lemma_decimal_digits(w as nat);
    lemma_decimal_read(w as nat);
    let t = "$Number%0"@ + d + "d$"@;
    let rest = t.drop_first();
    let k = rest.len() - 1;
    assert forall|j: int| 0 <= j < k implies rest[j] != '$' by {
        if 8 <= j < 8 + d.len() {
            assert(rest[j] == d[j - 8]);
        }
    }
    lemma_first_index_unique(rest, '$', k);
    let var = rest.take(k);
    reveal_strlit("Number%0");
    reveal_strlit("d");
    assert(rest =~= "Number%0"@ + d + "d$"@);
    assert(var =~= "Number%0"@ + d + "d"@);
    assert forall|j: int| 0 <= j < 6 implies var[j] != '%' by {}
    lemma_first_index_unique(var, '%', 6);
    assert(var.take(6) =~= "Number"@);
    let spec = var.skip(7);
    assert(spec =~= seq!['0'] + d + seq!['d']);
    assert(spec.subrange(1, spec.len() - 1) =~= d);
    assert(rest.skip(k + 1) =~= Seq::<char>::empty());
    assert(expand(Seq::<char>::empty(), number, time, bandwidth, representation_id) == Seq::<char>::empty());
    assert(t.len() > 1 && t[0] == '$' && t[1] != '$');
    let digits = decimal(number as nat);
    let out = pad_zero(digits, w as nat);
    if digits.len() < w {
        assert(out.skip(out.len() - digits.len()) =~= digits);
    } else {
        assert(out.skip(0) =~= digits);
    }
}

/// A `Representation` is refused when it has no `id`, then when it has no
/// `bandwidth`, then when its `bandwidth` is not a decimal `u64`, in that
/// order; one that is read has the id and the bandwidth of its attributes,
/// whatever its content.
pub proof fn law_representation_requires_id_and_bandwidth(t: Seq<TokenV>, i: int, a: Seq<XmlAttrV>)
    ensures
        first_attr(a, "id"@) is None ==> representation_at(t, i, a) == Err::<(RepresentationV, int), ErrorKind>(
            ErrorKind::MissingAttribute { element: "Representation", attribute: "id" },
        ),
        (first_attr(a, "id"@) is Some && first_attr(a, "bandwidth"@) is None) ==> representation_at(t, i, a)
            == Err::<(RepresentationV, int), ErrorKind>(
            ErrorKind::MissingAttribute { element: "Representation", attribute: "bandwidth" },
        ),
        (first_attr(a, "id"@) is Some && (first_attr(a, "bandwidth"@) matches Some(b) && u64_of(b) is None))
            ==> representation_at(t, i, a) == Err::<(RepresentationV, int), ErrorKind>(
            ErrorKind::InvalidAttributeValue { attribute: "bandwidth" },
        ),
        representation_at(t, i, a) matches Ok((r, _)) ==> (first_attr(a, "id"@) == Some(r.id) && (first_attr(
            a,
            "bandwidth"@,
        ) matches Some(b) && u64_of(b) == Some(r.bandwidth))),
{
    reveal(representation_at);
    reveal(representation_start);
    if let Ok(x) = representation_start(a) {
        lemma_representation_scan_keeps_attributes(t, i, x);
    }
}

/// The attributes of an `AdaptationSet` refuse it only when
/// `maximumSAPPeriod` is there and is not a duration. A number that does not
/// parse and a `contentType` that is not known are read as absent, and
/// `segmentAlignment` is true exactly when it is written `true`; what is read
/// from the attributes stays whatever the content holds, and otherwise only
/// the content can refuse the element.
pub proof fn law_adaptation_set_attributes(t: Seq<TokenV>, i: int, a: Seq<XmlAttrV>)
    ensures
        (first_attr(a, "maximumSAPPeriod"@) matches Some(v) && !duration_ok(v)) ==> adaptation_set_at(t, i, a)
            == Err::<(AdaptationSetV, int), ErrorKind>(ErrorKind::InvalidDuration),
        (adaptation_set_at(t, i, a) is Err && !(first_attr(a, "maximumSAPPeriod"@) matches Some(v) && !duration_ok(
            v,
        ))) ==> (adaptation_set_start(a) matches Ok(x) && adaptation_set_scan(t, i, x) is Err),
        adaptation_set_at(t, i, a) matches Ok((x, _)) ==> ({
            &&& x.segment_alignment == (first_attr(a, "segmentAlignment"@) == Some("true"@))
            &&& x.subsegment_alignment == (first_attr(a, "subsegmentAlignment"@) == Some("true"@))
            &&& x.id == opt_u32(first_attr(a, "id"@))
            &&& x.width == opt_u32(first_attr(a, "width"@))
            &&& x.height == opt_u32(first_attr(a, "height"@))
            &&& x.content_type == content_type_of(first_attr(a, "contentType"@))
            &&& x.maximum_sap_period == first_attr(a, "maximumSAPPeriod"@)
        }),
{
    reveal(adaptation_set_at);
    reveal(adaptation_set_start);
    if let Ok(x) = adaptation_set_start(a) {
        lemma_adaptation_set_scan_keeps_attributes(t, i, x);
    }
}

/// A `Period`'s `xlink:href` and `xlink:actuate` are kept as they are
/// written and never followed: the Period that is read has them, like its
/// other attributes, from its start tag, whatever its content.
pub proof fn law_period_keeps_its_link(t: Seq<TokenV>, i: int, a: Seq<XmlAttrV>)
    ensures
        period_at(t, i, a) matches Ok((p, _)) ==> ({
            &&& p.xlink_href == first_xlink_attr(a, "href"@)
            &&& p.xlink_actuate == first_xlink_attr(a, "actuate"@)
            &&& p.id == first_attr(a, "id"@)
            &&& p.start == first_attr(a, "start"@)
            &&& p.duration == first_attr(a, "duration"@)
        }),
        period_start(a) matches Ok(x) ==> period_at(t, i, a) == period_scan(t, i, x),
{
    reveal(period_at);
    reveal(period_start);
    if let Ok(x) = period_start(a) {
        lemma_period_scan_keeps_attributes(t, i, x);
    }
}

proof fn lemma_first_match_is_first(cs: Seq<ChildV>, c: XPathComponentView, n: int)
    requires
        n <= cs.len(),
    ensures
        first_match(cs, c, n) matches Some(i) ==> (0 <= i < n && child_matches(cs, c, i) && forall|j: int|
            0 <= j < i ==> !child_matches(cs, c, j)),
        first_match(cs, c, n) is None ==> forall|j: int| 0 <= j < n ==> !child_matches(cs, c, j),
    decreases n,
{
    if n > 0 {
        lemma_first_match_is_first(cs, c, n - 1);
    }
}

/// The last step of a selector that names an element designates the first
/// child that it selects: an element of that name that is at the position
/// asked for among its same-named siblings, or that carries the attribute
/// asked for, or, with neither asked, the first of that name. When no child
/// is selected the step fails with `PatchFailed`.
pub proof fn law_last_step_selects_first_match(e: ElementV, c: XPathComponentView)
    requires
        !(c.name.len() > 0 && c.name[0] == '@'),
        c.name != "text()"@,
    ensures
        locate(e, seq![c]) is Ok ==> (locate(e, seq![c]) matches Ok((p, TargetV::Child(i))) && p
            == Seq::<int>::empty() && 0 <= i < e.children.len() && child_matches(e.children, c, i) && forall|
            j: int,
        | 0 <= j < i ==> !child_matches(e.children, c, j)),
        locate(e, seq![c]) is Err ==> (locate(e, seq![c]) == Err::<(Seq<int>, TargetV), ErrorKind>(
            ErrorKind::PatchFailed,
        ) && forall|j: int| 0 <= j < e.children.len() ==> !child_matches(e.children, c, j)),
{
    let comps = seq![c];
    assert(comps[0] == c);
    lemma_first_match_is_first(e.children, c, e.children.len() as int);
}

/// `AdaptationSet` is written as one well nested element: its start tag
/// with its attributes, its content, its end tag; the Representations come
/// last in the content, each written whole, in order.
pub proof fn law_adaptation_set_written_whole(a: AdaptationSet)
    ensures
        balanced(adaptation_set_events(a)),
        adaptation_set_events(a) == seq![WriteEventV::Start("AdaptationSet"@, seq![], adaptation_set_attrs(a))]
            + adaptation_set_inner(a) + seq![WriteEventV::End],
        ({
            let inner = adaptation_set_inner(a);
            let reps = each_events(a.representations@, representation_fn());
            inner.subrange(inner.len() - reps.len(), inner.len() as int) == reps
        }),
{
    lemma_adaptation_set_balanced(a);
    reveal(adaptation_set_inner);
    let inner = adaptation_set_inner(a);
    let reps = each_events(a.representations@, representation_fn());
    assert(inner.subrange(inner.len() - reps.len(), inner.len() as int) =~= reps);
}

/// The root `MPD` element is written with its children in the order of the
/// `MPDtype` sequence of DASH-MPD.xsd: the BaseURL, Location, PatchLocation
/// and ServiceDescription elements, then every Period, then the Metrics,
/// EssentialProperty, SupplementalProperty, UTCTiming and ContentSteering
/// elements. Each of the three groups is well nested on its own, so every
/// Period comes after the first group and before all of the last.
#[verifier::spinoff_prover]
#[verifier::rlimit(50)]
pub proof fn law_mpd_children_in_schema_order(m: Mpd)
    ensures
        ({
            let before = each_events(m.base_urls@, base_url_fn()) + each_events(m.locations@, location_fn())
                + each_events(m.patch_locations@, patch_location_fn()) + each_events(
                m.service_descriptions@,
                service_description_fn(),
            );
            let periods = each_events(m.periods@, period_fn());
            let after = each_events(m.metrics@, metrics_fn()) + each_events(
                m.essential_properties@,
                descriptor_fn("EssentialProperty"@),
            ) + each_events(m.supplemental_properties@, descriptor_fn("SupplementalProperty"@))
                + each_events(m.utc_timings@, utc_timing_fn()) + opt_events(m.content_steering, content_steering_fn());
            &&& mpd_events(m) == seq![WriteEventV::Start("MPD"@, mpd_namespaces(m), mpd_attrs(m))] + before
                + periods + after + seq![WriteEventV::End]
            &&& balanced(before)
            &&& balanced(periods)
            &&& balanced(after)
        }),
{
    lemma_base_url_list_balanced(m.base_urls@);
    lemma_location_list_balanced(m.locations@);
    lemma_patch_location_list_balanced(m.patch_locations@);
    lemma_service_description_list_balanced(m.service_descriptions@);
    lemma_period_list_balanced(m.periods@);
    lemma_metrics_list_balanced(m.metrics@);
    lemma_descriptor_list_balanced("EssentialProperty"@, m.essential_properties@);
    lemma_descriptor_list_balanced("SupplementalProperty"@, m.supplemental_properties@);
    lemma_utc_timing_list_balanced(m.utc_timings@);
    reveal(opt_events);
    if let Some(c) = m.content_steering {
        lemma_content_steering_balanced(c);
    } else {
        lemma_balanced_empty();
    }
    let p1 = each_events(m.base_urls@, base_url_fn());
    let p2 = each_events(m.locations@, location_fn());
    let p3 = each_events(m.patch_locations@, patch_location_fn());
    let p4 = each_events(m.service_descriptions@, service_description_fn());
    let p6 = each_events(m.metrics@, metrics_fn());
    let p7 = each_events(m.essential_properties@, descriptor_fn("EssentialProperty"@));
    let p8 = each_events(m.supplemental_properties@, descriptor_fn("SupplementalProperty"@));
    let p9 = each_events(m.utc_timings@, utc_timing_fn());
    let p10 = opt_events(m.content_steering, content_steering_fn());
    lemma_balanced_cat(p1, p2);
    lemma_balanced_cat(p1 + p2, p3);
    lemma_balanced_cat(p1 + p2 + p3, p4);
    lemma_balanced_cat(p6, p7);
    lemma_balanced_cat(p6 + p7, p8);
    lemma_balanced_cat(p6 + p7 + p8, p9);
    lemma_balanced_cat(p6 + p7 + p8 + p9, p10);
    let before = p1 + p2 + p3 + p4;
    let after = p6 + p7 + p8 + p9 + p10;
    assert(mpd_inner(m) =~= before + each_events(m.periods@, period_fn()) + after);
}

/// The decimal number that an attribute holds, or `d` when it is absent or
/// is not a decimal `u64`.
pub open spec fn number_or(o: Option<Seq<char>>, d: u64) -> u64 {
    if o is Some && u64_of(o->Some_0) is Some {
        u64_of(o->Some_0)->Some_0
    } else {
        d
    }
}

/// A `SegmentTemplate` without a `timescale` counts in seconds (timescale
/// 1), without a `startNumber` numbers its first segment 1, and without a
/// `presentationTimeOffset` has offset 0; an attribute that holds a decimal
/// number gives that number. Its content never changes them.
pub proof fn law_segment_template_defaults(t: Seq<TokenV>, i: int, a: Seq<XmlAttrV>)
    ensures
        segment_template_at(t, i, a) matches Ok((x, _)) ==> ({
            &&& x.timescale == number_or(first_attr(a, "timescale"@), 1)
            &&& x.start_number == number_or(first_attr(a, "startNumber"@), 1)
            &&& x.presentation_time_offset == number_or(first_attr(a, "presentationTimeOffset"@), 0)
        }),
        segment_template_at(t, i, a) matches Ok((x, _)) ==> (first_attr(a, "timescale"@) is None ==> x.timescale == 1),
{
    reveal(segment_template_at);
    reveal(segment_template_start);
    if let Ok(x) = segment_template_start(a) {
        lemma_segment_template_scan_keeps_attributes(t, i, x);
    }
}

/// A `SegmentList` without a `timescale` has timescale 1 and without a
/// `startNumber` starts at 1; a decimal attribute gives its number.
pub proof fn law_segment_list_defaults(t: Seq<TokenV>, i: int, a: Seq<XmlAttrV>)
    ensures
        segment_list_at(t, i, a) matches Ok((x, _)) ==> ({
            &&& x.timescale == number_or(first_attr(a, "timescale"@), 1)
            &&& x.start_number == number_or(first_attr(a, "startNumber"@), 1)
            &&& x.presentation_time_offset == number_or(first_attr(a, "presentationTimeOffset"@), 0)
        }),
{
    reveal(segment_list_at);
    reveal(segment_list_start);
    if let Ok(x) = segment_list_start(a) {
        lemma_segment_list_scan_keeps_attributes(t, i, x);
    }
}

/// A `SegmentBase` without a `timescale` has timescale 1 and without a
/// `presentationTimeOffset` offset 0; a decimal attribute gives its number.
pub proof fn law_segment_base_defaults(t: Seq<TokenV>, i: int, a: Seq<XmlAttrV>)
    ensures
        segment_base_at(t, i, a) matches Ok((x, _)) ==> ({
            &&& x.timescale == number_or(first_attr(a, "timescale"@), 1)
            &&& x.presentation_time_offset == number_or(first_attr(a, "presentationTimeOffset"@), 0)
        }),
{
    reveal(segment_base_at);
    reveal(segment_base_start);
    if let Ok(x) = segment_base_start(a) {
        lemma_segment_base_scan_keeps_attributes(t, i, x);
    }
}

/// An `EventStream` without a `timescale` has timescale 1 and without a
/// `presentationTimeOffset` offset 0; a decimal attribute gives its number.
pub proof fn law_event_stream_defaults(t: Seq<TokenV>, i: int, a: Seq<XmlAttrV>)
    ensures
        event_stream_at(t, i, a) matches Ok((x, _)) ==> ({
            &&& x.timescale == number_or(first_attr(a, "timescale"@), 1)
            &&& x.presentation_time_offset == number_or(first_attr(a, "presentationTimeOffset"@), 0)
        }),
{
    reveal(event_stream_at);
    reveal(event_stream_start);
    if let Ok(x) = event_stream_start(a) {
        lemma_event_stream_scan_keeps_attributes(t, i, x);
    }
}

/// The `pos` attribute of a patch operation is read as it is written:
/// `before`, `after` and `prepend` each give their own position, and a
/// value that is none of them, or no `pos`, gives none.
pub proof fn law_position_read_as_written(a: Seq<XmlAttrV>)
    ensures
        last_attr(a, "pos"@) == Some("before"@) ==> position_attr(a) == Some(PatchPosition::Before),
        last_attr(a, "pos"@) == Some("after"@) ==> position_attr(a) == Some(PatchPosition::After),
        last_attr(a, "pos"@) == Some("prepend"@) ==> position_attr(a) == Some(PatchPosition::Prepend),
        last_attr(a, "pos"@) is None ==> position_attr(a) is None,
        (last_attr(a, "pos"@) matches Some(v) && v != "before"@ && v != "after"@ && v != "prepend"@)
            ==> position_attr(a) is None,
{
    reveal_strlit("before");
    reveal_strlit("after");
    reveal_strlit("prepend");
    assert("after"@ != "before"@) by {
        assert("after"@[0] != "before"@[0]);
    }
    assert("prepend"@ != "before"@) by {
        assert("prepend"@[0] != "before"@[0]);
    }
    assert("prepend"@ != "after"@) by {
        assert("prepend"@[0] != "after"@[0]);
    }
}

/// An `add` with `pos="after"` puts the new nodes right after the selected
/// child: the children up to and including it keep their places, the new
/// nodes follow it, then come the children that were after it.
pub proof fn law_add_after_follows_target(root: ElementV, comps: Seq<XPathComponentView>, v: Seq<char>)
    requires
        target_of(root, comps) matches Ok((_, TargetV::Child(_))),
        fragment_of(v) is Ok,
    ensures
        apply_result(root, comps, PatchAction::Add, v, Some(PatchPosition::After)) matches Ok(r) && (target_of(
            root,
            comps,
        ) matches Ok((p, TargetV::Child(i))) && ({
            let before = elem_at(root, p).children;
            let after = elem_at(r, p).children;
            let nc = fragment_of(v)->Ok_0;
            &&& after.len() == before.len() + nc.len()
            &&& forall|j: int| 0 <= j <= i ==> after[j] == before[j]
            &&& forall|k: int| 0 <= k < nc.len() ==> after[i + 1 + k] == nc[k]
            &&& forall|j: int| i < j < before.len() ==> after[j + nc.len()] == before[j]
        })),
{
    lemma_target_path(root, comps);
    if let Ok((p, TargetV::Child(i))) = target_of(root, comps) {
        let te = elem_at(root, p);
        let cs = te.children;
        let nc = fragment_of(v)->Ok_0;
        let x = ElementV { children: cs.take(i + 1) + nc + cs.skip(i + 1), ..te };
        lemma_elem_at_replace(root, p, x);
        let after = x.children;
        assert forall|j: int| 0 <= j <= i implies after[j] == cs[j] by {
            assert(after[j] == cs.take(i + 1)[j]);
        }
        assert forall|k: int| 0 <= k < nc.len() implies after[i + 1 + k] == nc[k] by {
            assert((cs.take(i + 1) + nc)[i + 1 + k] == nc[k]);
        }
        assert forall|j: int| i < j < cs.len() implies after[j + nc.len()] == cs[j] by {
            assert(cs.skip(i + 1)[j - i - 1] == cs[j]);
        }
    }
}

/// An `add` with `pos="before"` puts the new nodes right before the
/// selected child: the children before it keep their places, the new nodes
/// follow them, then the selected child and the rest.
pub proof fn law_add_before_precedes_target(root: ElementV, comps: Seq<XPathComponentView>, v: Seq<char>)
    requires
        target_of(root, comps) matches Ok((_, TargetV::Child(_))),
        fragment_of(v) is Ok,
    ensures
        apply_result(root, comps, PatchAction::Add, v, Some(PatchPosition::Before)) matches Ok(r) && (target_of(
            root,
            comps,
        ) matches Ok((p, TargetV::Child(i))) && ({
            let before = elem_at(root, p).children;
            let after = elem_at(r, p).children;
            let nc = fragment_of(v)->Ok_0;
            &&& after.len() == before.len() + nc.len()
            &&& forall|j: int| 0 <= j < i ==> after[j] == before[j]
            &&& forall|k: int| 0 <= k < nc.len() ==> after[i + k] == nc[k]
            &&& forall|j: int| i <= j < before.len() ==> after[j + nc.len()] == before[j]
        })),
{
    lemma_target_path(root, comps);
    if let Ok((p, TargetV::Child(i))) = target_of(root, comps) {
        let te = elem_at(root, p);
        let cs = te.children;
        let nc = fragment_of(v)->Ok_0;
        let x = ElementV { children: cs.take(i) + nc + cs.skip(i), ..te };
        lemma_elem_at_replace(root, p, x);
        let after = x.children;
        assert forall|j: int| 0 <= j < i implies after[j] == cs[j] by {
            assert(after[j] == cs.take(i)[j]);
        }
        assert forall|k: int| 0 <= k < nc.len() implies after[i + k] == nc[k] by {
            assert((cs.take(i) + nc)[i + k] == nc[k]);
        }
        assert forall|j: int| i <= j < cs.len() implies after[j + nc.len()] == cs[j] by {
            assert(cs.skip(i)[j - i] == cs[j]);
        }
    }
}

/// A `replace` of a selected child takes that child out and puts the new
/// nodes in its place: the children before it and after it keep their
/// order, so the parent has one child less and as many more as there are
/// new nodes.
pub proof fn law_replace_child_takes_its_place(root: ElementV, comps: Seq<XPathComponentView>, v: Seq<char>)
    requires
        target_of(root, comps) matches Ok((_, TargetV::Child(_))),
        fragment_of(v) is Ok,
    ensures
        apply_result(root, comps, PatchAction::Replace, v, None) matches Ok(r) && (target_of(
            root,
            comps,
        ) matches Ok((p, TargetV::Child(i))) && ({
            let before = elem_at(root, p).children;
            let after = elem_at(r, p).children;
            let nc = fragment_of(v)->Ok_0;
            &&& after.len() + 1 == before.len() + nc.len()
            &&& forall|j: int| 0 <= j < i ==> after[j] == before[j]
            &&& forall|k: int| 0 <= k < nc.len() ==> after[i + k] == nc[k]
            &&& forall|j: int| i < j < before.len() ==> after[j - 1 + nc.len()] == before[j]
        })),
{
    lemma_target_path(root, comps);
    if let Ok((p, TargetV::Child(i))) = target_of(root, comps) {
        let te = elem_at(root, p);
        let cs = te.children;
        let nc = fragment_of(v)->Ok_0;
        let x = ElementV { children: cs.take(i) + nc + cs.skip(i + 1), ..te };
        lemma_elem_at_replace(root, p, x);
        let after = x.children;
        assert forall|j: int| 0 <= j < i implies after[j] == cs[j] by {
            assert(after[j] == cs.take(i)[j]);
        }
        assert forall|k: int| 0 <= k < nc.len() implies after[i + k] == nc[k] by {
            assert((cs.take(i) + nc)[i + k] == nc[k]);
        }
        assert forall|j: int| i < j < cs.len() implies after[j - 1 + nc.len()] == cs[j] by {
            assert(cs.skip(i + 1)[j - i - 1] == cs[j]);
        }
    }
}

/// Keeps the elements named `n`.
pub open spec fn element_named(n: Seq<char>) -> spec_fn(ChildV) -> bool {
    |x: ChildV| x matches ChildV::Element(e) && e.name == n
}

proof fn lemma_count_is_filter(cs: Seq<ChildV>, n: Seq<char>, k: int)
    requires
        0 <= k <= cs.len(),
    ensures
        count_named(cs, n, k) == cs.take(k).filter(element_named(n)).len(),
    decreases k,
{
    if k == 0 {
        assert(cs.take(0) =~= Seq::<ChildV>::empty());
    } else {
        lemma_count_is_filter(cs, n, k - 1);
        assert(cs.take(k) =~= cs.take(k - 1).push(cs[k - 1]));
        cs.take(k - 1).lemma_filter_push(cs[k - 1], element_named(n));
    }
}

proof fn lemma_count_reaches(cs: Seq<ChildV>, n: Seq<char>, q: int, k: int)
    requires
        0 <= k <= cs.len(),
        count_named(cs, n, k) <= q,
        count_named(cs, n, cs.len() as int) > q,
    ensures
        exists|j: int| k <= j < cs.len() && named(cs[j], n) && count_named(cs, n, j) == q,
    decreases cs.len() - k,
{
    if k == cs.len() {
    } else if named(cs[k], n) && count_named(cs, n, k) == q {
    } else {
        lemma_count_reaches(cs, n, q, k + 1);
    }
}

proof fn lemma_count_monotone(cs: Seq<ChildV>, n: Seq<char>, k: int)
    requires
        0 <= k <= cs.len(),
    ensures
        count_named(cs, n, k) <= k,
    decreases k,
{
    if k > 0 {
        lemma_count_monotone(cs, n, k - 1);
    }
}

/// A selector step `name[n]` selects the n-th child element named `name`,
/// counting from 1: the child that it selects is such an element with
/// exactly n - 1 elements of that name before it, and when the parent has
/// at least n of them one is selected; `name[1]` selects the first.
pub proof fn law_position_counts_from_one(cs: Seq<ChildV>, c: XPathComponentView, is_last: bool)
    requires
        c.position is Some,
    ensures
        select_child(cs, c, is_last) matches Some(i) ==> (0 <= i < cs.len() && (cs[i] matches ChildV::Element(
            e,
        ) && e.name == c.name) && cs.take(i).filter(element_named(c.name)).len() + 1 == c.position->Some_0),
        (c.position->Some_0 >= 1 && cs.filter(element_named(c.name)).len() >= c.position->Some_0)
            ==> select_child(cs, c, is_last) is Some,
{
    let n = c.name;
    let q = c.position->Some_0 - 1;
    lemma_first_match_is_first(cs, c, cs.len() as int);
    if let Some(i) = select_child(cs, c, is_last) {
        lemma_count_is_filter(cs, n, i);
    }
    if c.position->Some_0 >= 1 && cs.filter(element_named(n)).len() >= c.position->Some_0 {
        lemma_count_is_filter(cs, n, cs.len() as int);
        assert(cs.take(cs.len() as int) =~= cs);
        lemma_count_reaches(cs, n, q, 0);
        let j = choose|j: int| 0 <= j < cs.len() && named(cs[j], n) && count_named(cs, n, j) == q;
        assert(child_matches(cs, c, j));
    }
}

/// The element of a patch operation names its action as it is written:
/// `add`, `remove` and `replace` each give their own action, and any other
/// name gives none.
pub proof fn law_action_read_as_written(name: Seq<char>)
    ensures
        name == "add"@ ==> action_of(name) == Some(PatchAction::Add),
        name == "remove"@ ==> action_of(name) == Some(PatchAction::Remove),
        name == "replace"@ ==> action_of(name) == Some(PatchAction::Replace),
        (name != "add"@ && name != "remove"@ && name != "replace"@) ==> action_of(name) is None,
{
    reveal_strlit("add");
    reveal_strlit("remove");
    reveal_strlit("replace");
    assert("remove"@ != "add"@) by {
        assert("remove"@[0] != "add"@[0]);
    }
    assert("replace"@ != "add"@) by {
        assert("replace"@[0] != "add"@[0]);
    }
    assert("replace"@ != "remove"@) by {
        assert("replace"@[2] != "remove"@[2]);
    }
}

/// An `S` entry of a segment timeline without `d` lasts 0 and without `r`
/// repeats 0 times; `t` and `k` are absent unless written. A decimal
/// attribute gives its number.
pub proof fn law_timeline_entry_defaults(a: Seq<XmlAttrV>)
    ensures
        timeline_entry_of(a).d == number_or(first_attr(a, "d"@), 0),
        first_attr(a, "r"@) is None ==> timeline_entry_of(a).r == 0,
        (first_attr(a, "r"@) is Some && i64_of(first_attr(a, "r"@)->Some_0) is Some) ==> timeline_entry_of(a).r
            == i64_of(first_attr(a, "r"@)->Some_0)->Some_0,
        first_attr(a, "t"@) is None ==> timeline_entry_of(a).t is None,
        first_attr(a, "k"@) is None ==> timeline_entry_of(a).k is None,
{
}

/// An `Event` without `presentationTime` is at time 0; a decimal attribute
/// gives its number, and the id is the one written.
pub proof fn law_event_defaults(t: Seq<TokenV>, i: int, a: Seq<XmlAttrV>)
    ensures
        event_at(t, i, a) matches Ok((x, _)) ==> (x.presentation_time == number_or(
            first_attr(a, "presentationTime"@),
            0,
        ) && x.id == first_attr(a, "id"@)),
{
    reveal(event_at);
    reveal(event_start);
}

/// An MPD is dynamic exactly when its `type` is written `dynamic`; without
/// it, or with any other value, it is static. Its id is the one written,
/// whatever its content.
pub proof fn law_mpd_type_defaults_to_static(t: Seq<TokenV>, i: int, a: Seq<XmlAttrV>)
    ensures
        mpd_at(t, i, a) matches Ok((x, _)) ==> ((x.presentation_type == PresentationType::Dynamic
            <==> first_attr(a, "type"@) == Some("dynamic"@)) && x.id == first_attr(a, "id"@)),
{
    reveal(mpd_at);
    reveal(mpd_start);
    if let Ok(x) = mpd_start(a) {
        lemma_mpd_scan_keeps_attributes(t, i, x);
    }
}

/// An `add` with `pos="prepend"` puts the new nodes before the children of
/// the selected element, keeping its children after them; no other child of
/// the parent changes.
pub proof fn law_add_prepend_goes_first(root: ElementV, comps: Seq<XPathComponentView>, v: Seq<char>)
    requires
        target_of(root, comps) matches Ok((_, TargetV::Child(_))),
        fragment_of(v) is Ok,
    ensures
        apply_result(root, comps, PatchAction::Add, v, Some(PatchPosition::Prepend)) matches Ok(r) && (target_of(
            root,
            comps,
        ) matches Ok((p, TargetV::Child(i))) && ({
            let before = elem_at(root, p).children;
            let after = elem_at(r, p).children;
            let nc = fragment_of(v)->Ok_0;
            &&& after.len() == before.len()
            &&& forall|j: int| 0 <= j < before.len() && j != i ==> after[j] == before[j]
            &&& (after[i] matches ChildV::Element(ce) && ce.children.len() == nc.len() + elem_of(before[i]).children.len()
                && ce.name == elem_of(before[i]).name && ce.attributes == elem_of(before[i]).attributes
                && (forall|k: int| 0 <= k < nc.len() ==> ce.children[k] == nc[k]) && (forall|k: int|
                0 <= k < elem_of(before[i]).children.len() ==> ce.children[nc.len() + k] == elem_of(
                before[i],
            ).children[k]))
        })),
{
    lemma_target_path(root, comps);
    lemma_children_are_elements(root, comps);
    if let Ok((p, TargetV::Child(i))) = target_of(root, comps) {
        let te = elem_at(root, p);
        let nc = fragment_of(v)->Ok_0;
        let ce = elem_of(te.children[i]);
        let x = ElementV {
            children: te.children.update(i, ChildV::Element(ElementV { children: nc + ce.children, ..ce })),
            ..te
        };
        lemma_elem_at_replace(root, p, x);
    }
}

/// An `add` to the element that the selector names itself appends the new
/// nodes to its children, or puts them first with `pos="prepend"`; its
/// children keep their order.
pub proof fn law_add_to_selected_element(
    root: ElementV,
    comps: Seq<XPathComponentView>,
    v: Seq<char>,
    pos: Option<PatchPosition>,
)
    requires
        target_of(root, comps) matches Ok((_, TargetV::Itself)),
        fragment_of(v) is Ok,
    ensures
        apply_result(root, comps, PatchAction::Add, v, pos) matches Ok(r) && (target_of(root, comps) matches Ok(
            (p, _),
        ) && ({
            let before = elem_at(root, p).children;
            let after = elem_at(r, p).children;
            let nc = fragment_of(v)->Ok_0;
            &&& after.len() == before.len() + nc.len()
            &&& pos == Some(PatchPosition::Prepend) ==> (forall|k: int| 0 <= k < nc.len() ==> after[k] == nc[k])
                && (forall|j: int| 0 <= j < before.len() ==> after[nc.len() + j] == before[j])
            &&& pos != Some(PatchPosition::Prepend) ==> (forall|j: int| 0 <= j < before.len() ==> after[j]
                == before[j]) && (forall|k: int| 0 <= k < nc.len() ==> after[before.len() + k] == nc[k])
        })),
{
    lemma_target_path(root, comps);
    if let Ok((p, TargetV::Itself)) = target_of(root, comps) {
        let te = elem_at(root, p);
        let cs = te.children;
        let nc = fragment_of(v)->Ok_0;
        let x = if pos == Some(PatchPosition::Prepend) {
            ElementV { children: nc + cs, ..te }
        } else {
            ElementV { children: cs + nc, ..te }
        };
        lemma_elem_at_replace(root, p, x);
    }
}

/// Keeps the elements named `n` that carry the attribute `a` with the value
/// `v`.
pub open spec fn element_with(n: Seq<char>, a: Seq<char>, v: Seq<char>) -> spec_fn(ChildV) -> bool {
    |x: ChildV| x matches ChildV::Element(e) && e.name == n && exists|k: int| 0 <= k < e.attributes.len()
        && e.attributes[k] == (a, v)
}

/// A last selector step `name[@a=v]` selects the first child element named
/// `name` that carries the attribute `a` with the value `v`; when there is
/// none, nothing is selected.
pub proof fn law_attribute_test_selects_first(cs: Seq<ChildV>, c: XPathComponentView)
    requires
        c.position is None,
        c.attribute_match is Some,
    ensures
        select_child(cs, c, true) matches Some(i) ==> (0 <= i < cs.len() && element_with(
            c.name,
            c.attribute_match->Some_0.0,
            c.attribute_match->Some_0.1,
        )(cs[i]) && forall|j: int| 0 <= j < i ==> !element_with(
            c.name,
            c.attribute_match->Some_0.0,
            c.attribute_match->Some_0.1,
        )(cs[j])),
        select_child(cs, c, true) is None ==> forall|j: int| 0 <= j < cs.len() ==> !element_with(
            c.name,
            c.attribute_match->Some_0.0,
            c.attribute_match->Some_0.1,
        )(cs[j]),
{
    lemma_first_match_is_first(cs, c, cs.len() as int);
    let a = c.attribute_match->Some_0.0;
    let v = c.attribute_match->Some_0.1;
    let f = element_with(c.name, a, v);
    assert forall|j: int| 0 <= j < cs.len() implies #[trigger] child_matches(cs, c, j) == f(cs[j]) by {
        if child_matches(cs, c, j) {
            assert(has_attr(elem_of(cs[j]).attributes, a, v));
        }
        if f(cs[j]) {
            let e = elem_of(cs[j]);
            let k = choose|k: int| 0 <= k < e.attributes.len() && e.attributes[k] == (a, v);
            assert(has_attr(e.attributes, a, v));
        }
    }
    assert(select_child(cs, c, true) == first_match(cs, c, cs.len() as int));
    if let Some(i) = select_child(cs, c, true) {
        assert(child_matches(cs, c, i));
        assert forall|j: int| 0 <= j < i implies !f(cs[j]) by {
            assert(!child_matches(cs, c, j));
        }
    } else {
        assert forall|j: int| 0 <= j < cs.len() implies !f(cs[j]) by {
            assert(!child_matches(cs, c, j));
        }
    }
}

/// A `contentType` is read as it is written: each of `video`, `audio`,
/// `text`, `image` and `muxed` gives its own type, and any other value, or
/// none, gives no type.
pub proof fn law_content_type_read_as_written(o: Option<Seq<char>>)
    ensures
        o == Some("video"@) ==> content_type_of(o) == Some(ContentType::Video),
        o == Some("audio"@) ==> content_type_of(o) == Some(ContentType::Audio),
        o == Some("text"@) ==> content_type_of(o) == Some(ContentType::Text),
        o == Some("image"@) ==> content_type_of(o) == Some(ContentType::Image),
        o == Some("muxed"@) ==> content_type_of(o) == Some(ContentType::Muxed),
        (o != Some("video"@) && o != Some("audio"@) && o != Some("text"@) && o != Some("image"@) && o != Some(
            "muxed"@,
        )) ==> content_type_of(o) is None,
{
    reveal_strlit("video");
    reveal_strlit("audio");
    reveal_strlit("text");
    reveal_strlit("image");
    reveal_strlit("muxed");
    assert("video"@[0] != "audio"@[0] && "video"@[0] != "text"@[0] && "video"@[0] != "image"@[0]
        && "video"@[0] != "muxed"@[0]);
    assert("audio"@[0] != "text"@[0] && "audio"@[0] != "image"@[0] && "audio"@[0] != "muxed"@[0]);
    assert("text"@[0] != "image"@[0] && "text"@[0] != "muxed"@[0] && "image"@[0] != "muxed"@[0]);
}

/// A selector step that is only a name selects the first child element of
/// that name; with no such child it selects nothing.
pub proof fn law_plain_step_selects_first_named(cs: Seq<ChildV>, c: XPathComponentView, is_last: bool)
    requires
        c.position is None,
        c.attribute_match is None,
    ensures
        select_child(cs, c, is_last) matches Some(i) ==> (0 <= i < cs.len() && element_named(c.name)(cs[i])
            && forall|j: int| 0 <= j < i ==> !element_named(c.name)(cs[j])),
        select_child(cs, c, is_last) is None ==> forall|j: int| 0 <= j < cs.len() ==> !element_named(c.name)(
            cs[j],
        ),
{
    lemma_first_match_is_first(cs, c, cs.len() as int);
    let f = element_named(c.name);
    assert(select_child(cs, c, is_last) == first_match(cs, c, cs.len() as int));
    if let Some(i) = select_child(cs, c, is_last) {
        assert(child_matches(cs, c, i));
        assert forall|j: int| 0 <= j < i implies !f(cs[j]) by {
            assert(!child_matches(cs, c, j));
        }
    } else {
        assert forall|j: int| 0 <= j < cs.len() implies !f(cs[j]) by {
            assert(!child_matches(cs, c, j));
        }
    }
}

proof fn lemma_last_match_is_last(cs: Seq<ChildV>, c: XPathComponentView, n: int)
    requires
        n <= cs.len(),
    ensures
        last_match(cs, c, n) matches Some(i) ==> (0 <= i < n && child_matches(cs, c, i) && forall|j: int|
            i < j < n ==> !child_matches(cs, c, j)),
        last_match(cs, c, n) is None ==> forall|j: int| 0 <= j < n ==> !child_matches(cs, c, j),
    decreases n,
{
    if n > 0 {
        lemma_last_match_is_last(cs, c, n - 1);
    }
}

/// A selector step `name[@a=v]` that is not the last one leads into the
/// last child element named `name` that carries the attribute `a` with the
/// value `v`.
pub proof fn law_inner_attribute_step_selects_last(cs: Seq<ChildV>, c: XPathComponentView)
    requires
        c.position is None,
        c.attribute_match is Some,
    ensures
        select_child(cs, c, false) matches Some(i) ==> (0 <= i < cs.len() && element_with(
            c.name,
            c.attribute_match->Some_0.0,
            c.attribute_match->Some_0.1,
        )(cs[i]) && forall|j: int| i < j < cs.len() ==> !element_with(
            c.name,
            c.attribute_match->Some_0.0,
            c.attribute_match->Some_0.1,
        )(cs[j])),
        select_child(cs, c, false) is None ==> forall|j: int| 0 <= j < cs.len() ==> !element_with(
            c.name,
            c.attribute_match->Some_0.0,
            c.attribute_match->Some_0.1,
        )(cs[j]),
{
    lemma_last_match_is_last(cs, c, cs.len() as int);
    let a = c.attribute_match->Some_0.0;
    let v = c.attribute_match->Some_0.1;
    let f = element_with(c.name, a, v);
    assert forall|j: int| 0 <= j < cs.len() implies #[trigger] child_matches(cs, c, j) == f(cs[j]) by {
        if child_matches(cs, c, j) {
            assert(has_attr(elem_of(cs[j]).attributes, a, v));
        }
        if f(cs[j]) {
            let e = elem_of(cs[j]);
            let k = choose|k: int| 0 <= k < e.attributes.len() && e.attributes[k] == (a, v);
            assert(has_attr(e.attributes, a, v));
        }
    }
    assert(select_child(cs, c, false) == last_match(cs, c, cs.len() as int));
    if let Some(i) = select_child(cs, c, false) {
        assert(child_matches(cs, c, i));
        assert forall|j: int| i < j < cs.len() implies !f(cs[j]) by {
            assert(!child_matches(cs, c, j));
        }
    } else {
        assert forall|j: int| 0 <= j < cs.len() implies !f(cs[j]) by {
            assert(!child_matches(cs, c, j));
        }
    }
}

/// A selector part `name[n]`, with `n` written in decimal, is the element
/// name `name` with the position `n`.
pub proof fn law_position_predicate_read(name: Seq<char>, n: usize)
    requires
        forall|k: int| 0 <= k < name.len() ==> name[k] != '[',
        name.len() == 0 || name[0] != '@',
    ensures
        component_of(name + seq!['['] + decimal(n as nat) + seq![']']) == Ok::<XPathComponentView, ErrorKind>(
            XPathComponentView { name, position: Some(n), attribute_match: None },
        ),
{
    let d = decimal(n as nat);
    let part = name + seq!['['] + d + seq![']'];
    lemma_decimal_digits(n as nat);
    lemma_decimal_read(n as nat);
    let b = name.len() as int;
    assert forall|k: int| 0 <= k < b implies part[k] != '[' by {
        assert(part[k] == name[k]);
    }
    assert(part[b] == '[');
    lemma_first_index_unique(part, '[', b);
    assert(part.take(b) =~= name);
    let rest = part.skip(b);
    assert(rest =~= seq!['['] + d + seq![']']);
    assert(rest.subrange(1, rest.len() - 1) =~= d);
    reveal_strlit("text()");
    if part == "text()"@ {
        assert(part[b] == "text()"@[b]);
    }
    assert(!(part.len() > 0 && part[0] == '@')) by {
        if b > 0 {
            assert(part[0] == name[0]);
        }
    }
}

proof fn lemma_quotes_taken_off(v: Seq<char>)
    requires
        v.len() == 0 || (v[0] != '"' && v[0] != '\'' && v.last() != '"' && v.last() != '\''),
    ensures
        trim_char(trim_char(seq!['"'] + v + seq!['"'], '"'), '\'') == v,
{
    let q = seq!['"'] + v + seq!['"'];
    let w = v + seq!['"'];
    assert(q.drop_first() =~= w);
    assert(trim_char(q, '"') == trim_char(w, '"'));
    if v.len() == 0 {
        assert(w.drop_first() =~= v);
        assert(trim_char(w, '"') == trim_char(v, '"'));
    } else {
        assert(w[0] == v[0]);
        assert(w.drop_last() =~= v);
        assert(trim_char(w, '"') == trim_char(v, '"'));
    }
    assert(trim_char(v, '"') == v);
    assert(trim_char(v, '\'') == v);
}

/// A selector part `name[@a="v"]` is the element name `name` with the
/// attribute test: attribute `a` with the value `v`, the quotes taken off.
#[verifier::spinoff_prover]
#[verifier::rlimit(40)]
pub proof fn law_attribute_predicate_read(name: Seq<char>, a: Seq<char>, v: Seq<char>)
    requires
        forall|k: int| 0 <= k < name.len() ==> name[k] != '[',
        name.len() == 0 || name[0] != '@',
        forall|k: int| 0 <= k < a.len() ==> a[k] != '=',
        v.len() == 0 || (v[0] != '"' && v[0] != '\'' && v.last() != '"' && v.last() != '\''),
    ensures
        component_of(name + seq!['[', '@'] + a + seq!['=', '"'] + v + seq!['"', ']'])
            == Ok::<XPathComponentView, ErrorKind>(
            XPathComponentView { name, position: None, attribute_match: Some((a, v)) },
        ),
{
    let q = seq!['"'] + v + seq!['"'];
    let pred = seq!['@'] + a + seq!['='] + q;
    let part = name + seq!['['] + pred + seq![']'];
    assert(part =~= name + seq!['[', '@'] + a + seq!['=', '"'] + v + seq!['"', ']']);
    let b = name.len() as int;
    assert forall|k: int| 0 <= k < b implies part[k] != '[' by {
        assert(part[k] == name[k]);
    }
    assert(part[b] == '[');
    lemma_first_index_unique(part, '[', b);
    assert(part.take(b) =~= name);
    let rest = part.skip(b);
    assert(rest =~= seq!['['] + pred + seq![']']);
    assert(rest.subrange(1, rest.len() - 1) =~= pred);
    reveal_strlit("text()");
    if part == "text()"@ {
        assert(part[b] == "text()"@[b]);
    }
    assert(!(part.len() > 0 && part[0] == '@')) by {
        if b > 0 {
            assert(part[0] == name[0]);
        }
    }
    assert(usize_of(pred) is None) by {
        assert(pred[0] == '@');
        assert(!is_digit(pred[0]));
    }
    let attr = pred.drop_first();
    assert(attr =~= a + seq!['='] + q);
    let eq = a.len() as int;
    assert forall|k: int| 0 <= k < eq implies attr[k] != '=' by {
        assert(attr[k] == a[k]);
    }
    assert(attr[eq] == '=');
    lemma_first_index_unique(attr, '=', eq);
    assert(attr.take(eq) =~= a);
    assert(attr.skip(eq + 1) =~= q);
    lemma_quotes_taken_off(v);
}

/// A patch document that is read carries the `mpdId`, the
/// `originalPublishTime` and the `publishTime` of its `Patch` start tag,
/// each in its own field.
pub proof fn law_patch_header_read_as_written(t: Seq<TokenV>)
    ensures
        patch_of_tokens(t) matches Ok(p) ==> (find_root(t, 0) matches Ok((a, _)) && last_attr(a, "mpdId"@)
            == Some(p.mpd_id) && last_attr(a, "originalPublishTime"@) == Some(p.original_publish_time)
            && last_attr(a, "publishTime"@) == Some(p.publish_time)),
{
}

/// Keeps the nodes that are elements.
pub open spec fn element_node() -> spec_fn(ChildV) -> bool {
    |c: ChildV| c is Element
}

proof fn lemma_non_text_is_element()
    ensures
        non_text() == element_node(),
{
    assert(non_text() =~= element_node());
}

/// A `remove` of an element's text takes out every text node and keeps its
/// element children, in order.
pub proof fn law_remove_text_keeps_elements(
    root: ElementV,
    comps: Seq<XPathComponentView>,
    v: Seq<char>,
    pos: Option<PatchPosition>,
)
    requires
        target_of(root, comps) matches Ok((_, TargetV::Text)),
    ensures
        apply_result(root, comps, PatchAction::Remove, v, pos) matches Ok(r) && (target_of(root, comps) matches Ok(
            (p, TargetV::Text),
        ) && elem_at(r, p).children == elem_at(root, p).children.filter(element_node()) && forall|j: int|
            0 <= j < elem_at(r, p).children.len() ==> elem_at(r, p).children[j] is Element),
{
    lemma_target_path(root, comps);
    lemma_non_text_is_element();
    if let Ok((p, TargetV::Text)) = target_of(root, comps) {
        let te = elem_at(root, p);
        let kept = te.children.filter(non_text());
        lemma_elem_at_replace(root, p, ElementV { children: kept, ..te });
        assert forall|j: int| 0 <= j < kept.len() implies kept[j] is Element by {
            assert(element_node()(kept[j]));
        }
    }
}

/// A `replace` of an element's text keeps its element children, in order,
/// and ends them with one text node holding the operation's value.
pub proof fn law_replace_text_keeps_elements(
    root: ElementV,
    comps: Seq<XPathComponentView>,
    v: Seq<char>,
    pos: Option<PatchPosition>,
)
    requires
        target_of(root, comps) matches Ok((_, TargetV::Text)),
    ensures
        apply_result(root, comps, PatchAction::Replace, v, pos) matches Ok(r) && (target_of(root, comps) matches Ok(
            (p, TargetV::Text),
        ) && ({
            let after = elem_at(r, p).children;
            &&& after.len() >= 1
            &&& after.last() == ChildV::Text(v)
            &&& after.drop_last() == elem_at(root, p).children.filter(element_node())
        })),
{
    lemma_target_path(root, comps);
    lemma_non_text_is_element();
    if let Ok((p, TargetV::Text)) = target_of(root, comps) {
        let te = elem_at(root, p);
        let after = te.children.filter(non_text()).push(ChildV::Text(v));
        lemma_elem_at_replace(root, p, ElementV { children: after, ..te });
        assert(after.drop_last() =~= te.children.filter(non_text()));
    }
}

/// An `add` of text to an element appends one text node holding the
/// operation's value after its children, which keep their places.
pub proof fn law_add_text_appends(
    root: ElementV,
    comps: Seq<XPathComponentView>,
    v: Seq<char>,
    pos: Option<PatchPosition>,
)
    requires
        target_of(root, comps) matches Ok((_, TargetV::Text)),
    ensures
        apply_result(root, comps, PatchAction::Add, v, pos) matches Ok(r) && (target_of(root, comps) matches Ok(
            (p, TargetV::Text),
        ) && ({
            let before = elem_at(root, p).children;
            let after = elem_at(r, p).children;
            &&& after.len() == before.len() + 1
            &&& after[before.len() as int] == ChildV::Text(v)
            &&& forall|j: int| 0 <= j < before.len() ==> after[j] == before[j]
        })),
{
    lemma_target_path(root, comps);
    if let Ok((p, TargetV::Text)) = target_of(root, comps) {
        let te = elem_at(root, p);
        lemma_elem_at_replace(root, p, ElementV { children: te.children.push(ChildV::Text(v)), ..te });
    }
}

/// An `add` of an attribute gives the element that attribute with the
/// operation's value after its other attributes, which keep their places.
pub proof fn law_add_attribute_appends(
    root: ElementV,
    comps: Seq<XPathComponentView>,
    v: Seq<char>,
    pos: Option<PatchPosition>,
)
    requires
        target_of(root, comps) matches Ok((_, TargetV::Attribute(_))),
    ensures
        apply_result(root, comps, PatchAction::Add, v, pos) matches Ok(r) && (target_of(root, comps) matches Ok(
            (p, TargetV::Attribute(a)),
        ) && ({
            let before = elem_at(root, p).attributes;
            let after = elem_at(r, p).attributes;
            &&& after.len() == before.len() + 1
            &&& after[before.len() as int] == (a, v)
            &&& forall|j: int| 0 <= j < before.len() ==> after[j] == before[j]
            &&& elem_at(r, p).children == elem_at(root, p).children
        })),
{
    lemma_target_path(root, comps);
    if let Ok((p, TargetV::Attribute(a))) = target_of(root, comps) {
        let te = elem_at(root, p);
        lemma_elem_at_replace(root, p, ElementV { attributes: te.attributes.push((a, v)), ..te });
    }
}

proof fn lemma_variable_split(
    name: Seq<char>,
    rest: Seq<char>,
    number: u64,
    time: u64,
    bandwidth: u64,
    representation_id: Seq<char>,
)
    requires
        name.len() > 0,
        forall|k: int| 0 <= k < name.len() ==> name[k] != '$' && name[k] != '%',
    ensures
        expand(seq!['$'] + name + seq!['$'] + rest, number, time, bandwidth, representation_id) == variable_text(
            name,
            number,
            time,
            bandwidth,
            representation_id,
        ) + expand(rest, number, time, bandwidth, representation_id),
        first_index(name, '%') == name.len(),
{
    let t = seq!['$'] + name + seq!['$'] + rest;
    let r = t.drop_first();
    assert(r =~= name + seq!['$'] + rest);
    let k = name.len() as int;
    assert forall|j: int| 0 <= j < k implies r[j] != '$' by {
        assert(r[j] == name[j]);
    }
    assert(r[k] == '$');
    lemma_first_index_unique(r, '$', k);
    assert(r.take(k) =~= name);
    assert(r.skip(k + 1) =~= rest);
    assert(t[0] == '$');
    assert(t[1] == name[0]);
    lemma_first_index_unique(name, '%', k);
}

/// Each variable of a segment template expands to its value wherever it
/// stands: `$Number$`, `$Time$` and `$Bandwidth$` to the decimal number,
/// `$RepresentationID$` to the Representation's id; the text after it is
/// expanded in turn.
pub proof fn law_variables_expand_to_values(
    rest: Seq<char>,
    number: u64,
    time: u64,
    bandwidth: u64,
    representation_id: Seq<char>,
)
    ensures
        expand("$Number$"@ + rest, number, time, bandwidth, representation_id) == decimal(number as nat) + expand(
            rest,
            number,
            time,
            bandwidth,
            representation_id,
        ),
        expand("$Time$"@ + rest, number, time, bandwidth, representation_id) == decimal(time as nat) + expand(
            rest,
            number,
            time,
            bandwidth,
            representation_id,
        ),
        expand("$Bandwidth$"@ + rest, number, time, bandwidth, representation_id) == decimal(bandwidth as nat)
            + expand(rest, number, time, bandwidth, representation_id),
        expand("$RepresentationID$"@ + rest, number, time, bandwidth, representation_id) == representation_id
            + expand(rest, number, time, bandwidth, representation_id),
{
    reveal_strlit("$Number$");
    reveal_strlit("$Time$");
    reveal_strlit("$Bandwidth$");
    reveal_strlit("$RepresentationID$");
    reveal_strlit("Number");
    reveal_strlit("Time");
    reveal_strlit("Bandwidth");
    reveal_strlit("RepresentationID");
    assert("$Number$"@ =~= seq!['$'] + "Number"@ + seq!['$']);
    assert("$Time$"@ =~= seq!['$'] + "Time"@ + seq!['$']);
    assert("$Bandwidth$"@ =~= seq!['$'] + "Bandwidth"@ + seq!['$']);
    assert("$RepresentationID$"@ =~= seq!['$'] + "RepresentationID"@ + seq!['$']);
    lemma_variable_split("Number"@, rest, number, time, bandwidth, representation_id);
    lemma_variable_split("Time"@, rest, number, time, bandwidth, representation_id);
    lemma_variable_split("Bandwidth"@, rest, number, time, bandwidth, representation_id);
    lemma_variable_split("RepresentationID"@, rest, number, time, bandwidth, representation_id);
    assert("Time"@ != "Number"@) by {
        assert("Time"@[0] != "Number"@[0]);
    }
    assert("Bandwidth"@ != "Number"@ && "Bandwidth"@ != "Time"@) by {
        assert("Bandwidth"@[0] != "Number"@[0]);
        assert("Bandwidth"@[0] != "Time"@[0]);
    }
    assert("RepresentationID"@ != "Number"@ && "RepresentationID"@ != "Time"@ && "RepresentationID"@
        != "Bandwidth"@) by {
        assert("RepresentationID"@[0] != "Number"@[0]);
        assert("RepresentationID"@[0] != "Time"@[0]);
        assert("RepresentationID"@[0] != "Bandwidth"@[0]);
    }
}

proof fn lemma_scan_digits(s: Seq<char>, i: int, j: int, in_time: bool, st: Option<int>, seen: bool)
    requires
        0 <= i <= j <= s.len(),
        forall|k: int| i <= k < j ==> is_digit(s[k]),
    ensures
        duration_scan(s, i, in_time, st, seen) == duration_scan(
            s,
            j,
            in_time,
            if st is None && i < j { Some(i) } else { st },
            seen,
        ),
    decreases j - i,
{
    if i < j {
        let st2 = if st is None { Some(i) } else { st };
        lemma_scan_digits(s, i + 1, j, in_time, st2, seen);
    }
}

proof fn lemma_digits_have_no_dot(s: Seq<char>)
    requires
        all_digits(s),
    ensures
        count_char(s, '.') == 0,
    decreases s.len(),
{
    if s.len() > 0 {
        assert(all_digits(s.drop_last())) by {
            assert forall|k: int| 0 <= k < s.drop_last().len() implies is_digit(#[trigger] s.drop_last()[k]) by {
                assert(s.drop_last()[k] == s[k]);
            }
        }
        lemma_digits_have_no_dot(s.drop_last());
        assert(is_digit(s[s.len() - 1]));
    }
}

proof fn lemma_digits_are_a_number(d: Seq<char>)
    requires
        d.len() > 0,
        all_digits(d),
    ensures
        number_text_ok(d),
{
    lemma_digits_have_no_dot(d);
    assert(is_digit(d[0]));
}

proof fn lemma_no_white_space_trim(s: Seq<char>)
    requires
        s.len() > 0,
        !is_white_space(s[0]),
        !is_white_space(s.last()),
    ensures
        trim(s) == s,
{
}

/// The scan of `u + d + [unit]` from the start of `d`, `d` being digits:
/// the number is read, then the unit.
proof fn lemma_one_component(u: Seq<char>, d: Seq<char>, unit: char, in_time: bool)
    requires
        d.len() > 0,
        all_digits(d),
        !is_digit(unit) && unit != '.' && unit != 'T',
    ensures
        ({
            let s = u + d + seq![unit];
            let b = u.len() as int;
            let e = b + d.len();
            &&& duration_scan(s, b, in_time, None, false) == if unit == 'Y' || unit == 'W' || unit == 'D'
                || unit == 'M' || (in_time && (unit == 'H' || unit == 'S')) {
                true
            } else {
                false
            }
        }),
{
    let s = u + d + seq![unit];
    let b = u.len() as int;
    let e = b + d.len();
    assert forall|k: int| b <= k < e implies is_digit(s[k]) by {
        assert(s[k] == d[k - b]);
    }
    lemma_scan_digits(s, b, e, in_time, None, false);
    assert(s[e] == unit);
    assert(s.subrange(b, e) =~= d);
    lemma_digits_are_a_number(d);
    assert(e + 1 == s.len());
    assert(duration_scan(s, e + 1, in_time, None, true));
    assert(duration_scan(s, e, in_time, Some(b), false) == if unit == 'Y' || unit == 'W' || unit == 'D'
        || unit == 'M' || (in_time && (unit == 'H' || unit == 'S')) {
        duration_scan(s, e + 1, in_time, None, true)
    } else {
        false
    });
}

/// Durations are read by the ISO 8601 grammar: a whole number of days,
/// months, years or weeks after `P`, or of hours, minutes or seconds after
/// `PT`, is a duration; hours or seconds without the `T`, and `P` or `PT`
/// with no component, are not.
pub proof fn law_duration_grammar(n: nat)
    ensures
        duration_ok("P"@ + decimal(n) + "D"@),
        duration_ok("P"@ + decimal(n) + "Y"@),
        duration_ok("P"@ + decimal(n) + "W"@),
        duration_ok("P"@ + decimal(n) + "M"@),
        duration_ok("PT"@ + decimal(n) + "H"@),
        duration_ok("PT"@ + decimal(n) + "M"@),
        duration_ok("PT"@ + decimal(n) + "S"@),
        !duration_ok("P"@ + decimal(n) + "H"@),
        !duration_ok("P"@ + decimal(n) + "S"@),
        !duration_ok("P"@),
        !duration_ok("PT"@),
{
    reveal_strlit("P");
    reveal_strlit("PT");
    reveal_strlit("D");
    reveal_strlit("Y");
    reveal_strlit("W");
    reveal_strlit("M");
    reveal_strlit("H");
    reveal_strlit("S");
    let d = decimal(n);
    lemma_decimal_digits(n);
    let e = Seq::<char>::empty();
    let t = seq!['T'];
    assert(is_digit(d[0]));
    assert(!is_white_space('P'));
    assert forall|unit: char| #![trigger seq![unit]] unit == 'D' || unit == 'Y' || unit == 'W' || unit == 'M'
        || unit == 'H' || unit == 'S' implies duration_ok(seq!['P'] + d + seq![unit]) == (unit != 'H'
        && unit != 'S') && duration_ok(seq!['P', 'T'] + d + seq![unit]) by {
        let s1 = seq!['P'] + d + seq![unit];
        lemma_no_white_space_trim(s1);
        assert(s1.drop_first() =~= e + d + seq![unit]);
        lemma_one_component(e, d, unit, false);
        let s2 = seq!['P', 'T'] + d + seq![unit];
        lemma_no_white_space_trim(s2);
        assert(s2.drop_first() =~= t + d + seq![unit]);
        lemma_one_component(t, d, unit, true);
        assert((t + d + seq![unit])[0] == 'T');
    }
    assert("P"@ + d + "D"@ =~= seq!['P'] + d + seq!['D']);
    assert("P"@ + d + "Y"@ =~= seq!['P'] + d + seq!['Y']);
    assert("P"@ + d + "W"@ =~= seq!['P'] + d + seq!['W']);
    assert("P"@ + d + "M"@ =~= seq!['P'] + d + seq!['M']);
    assert("P"@ + d + "H"@ =~= seq!['P'] + d + seq!['H']);
    assert("P"@ + d + "S"@ =~= seq!['P'] + d + seq!['S']);
    assert("PT"@ + d + "H"@ =~= seq!['P', 'T'] + d + seq!['H']);
    assert("PT"@ + d + "M"@ =~= seq!['P', 'T'] + d + seq!['M']);
    assert("PT"@ + d + "S"@ =~= seq!['P', 'T'] + d + seq!['S']);
    lemma_no_white_space_trim("P"@);
    lemma_no_white_space_trim("PT"@);
    assert("P"@.drop_first() =~= e);
    assert("PT"@.drop_first() =~= t);
    assert(!duration_scan(t, 1, true, None, false));
    assert(!duration_scan(t, 0, false, None, false));
}

/// A boolean attribute reads as true exactly when it is written `true`:
/// any other value reads as false, and an absent one as absent (or false
/// where the attribute defaults to false).
pub proof fn law_boolean_attribute_reading(o: Option<Seq<char>>)
    ensures
        o == Some("true"@) ==> opt_bool(o) == Some(true) && bool_or_false(o),
        (o is Some && o != Some("true"@)) ==> opt_bool(o) == Some(false) && !bool_or_false(o),
        o is None ==> opt_bool(o) is None && !bool_or_false(o),
{
}

/// A number attribute written in decimal reads as that number; an absent
/// one reads as absent, or as the default where there is one; a text
/// attribute that is absent reads as empty.
pub proof fn law_number_attribute_reading(n: u64, d: u64, o: Option<Seq<char>>)
    ensures
        opt_u64(Some(decimal(n as nat))) == Some(n),
        u64_or(Some(decimal(n as nat)), d) == n,
        n <= u32::MAX ==> u32_or(Some(decimal(n as nat)), 0) == n,
        opt_u64(None) is None,
        u64_or(None, d) == d,
        u64_or(o, d) == number_or(o, d),
        str_or_empty(None) == Seq::<char>::empty(),
        o matches Some(v) ==> str_or_empty(o) == v,
{
    lemma_decimal_read(n as nat);
}

} // verus!
