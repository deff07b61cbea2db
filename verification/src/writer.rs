//! Writing an MPD as XML: the values become the events of an XML writer, and
//! the `xml` crate writes the events as text.
use vstd::prelude::*;

use crate::text::{chars_of, decimal, decimal_of, string_of};
use vstd::seq_lib::lemma_concat_associative;
use crate::types::{
    AdaptationSet, BaseUrl, CertUrl, ClientDataReporting, CmcdParameters, ContentComponent,
    ContentProtection, ContentSteering, ContentType, Descriptor, Event, EventStream, Label, Latency,
    Location, Metrics, MetricsRange, Mpd, OperatingBandwidth, OperatingQuality, PatchLocation,
    Period, PlaybackRate, Preselection, PresentationType, ProducerReferenceTime, Representation,
    SegmentBase, SegmentList, SegmentSequenceProperties, SegmentTemplate, SegmentUrl,
    ServiceDescription, SubRepresentation, Subset, TimelineEntry, UtcTiming,
};
use crate::xml_io::{
    ends_matched, events_view, lemma_matched_add, lemma_matched_wrap, open_depth, pairs_view,
    write_xml, WriteEvent, WriteEventV,
};

verus! {

/// The attributes of a start tag, as (name, value) pairs in order.
pub type Attrs = Seq<(Seq<char>, Seq<char>)>;

/// The events of an element: its start tag, what lies inside, its end tag.
pub open spec fn element_events(
    name: Seq<char>,
    ns: Attrs,
    attrs: Attrs,
    inner: Seq<WriteEventV>,
) -> Seq<WriteEventV> {
    seq![WriteEventV::Start(name, ns, attrs)] + inner + seq![WriteEventV::End]
}

/// The events of each item of `s`, in order.
#[verifier::opaque]
pub open spec fn each_events<T>(s: Seq<T>, f: spec_fn(T) -> Seq<WriteEventV>) -> Seq<WriteEventV>
    decreases s.len(),
{
    if s.len() == 0 {
        seq![]
    } else {
        each_events(s.drop_last(), f) + f(s.last())
    }
}

/// The events of an optional item.
#[verifier::opaque]
pub open spec fn opt_events<T>(o: Option<T>, f: spec_fn(T) -> Seq<WriteEventV>) -> Seq<WriteEventV> {
    match o {
        Some(v) => f(v),
        None => seq![],
    }
}

/// `e` is a well nested sequence of events: every end tag closes an element
/// that it opened, and it leaves none open.
pub open spec fn balanced(e: Seq<WriteEventV>) -> bool {
    ends_matched(e) && open_depth(e) == 0
}

/// The attribute `name` when the value is present.
pub open spec fn opt_attr(name: Seq<char>, v: Option<String>) -> Attrs {
    match v {
        Some(s) => seq![(name, s@)],
        None => seq![],
    }
}

pub open spec fn u32_attr(name: Seq<char>, v: Option<u32>) -> Attrs {
    match v {
        Some(n) => seq![(name, decimal(n as nat))],
        None => seq![],
    }
}

pub open spec fn u64_attr(name: Seq<char>, v: Option<u64>) -> Attrs {
    match v {
        Some(n) => seq![(name, decimal(n as nat))],
        None => seq![],
    }
}

/// How a boolean attribute is written.
pub open spec fn bool_text(b: bool) -> Seq<char> {
    if b {
        "true"@
    } else {
        "false"@
    }
}

pub open spec fn bool_attr(name: Seq<char>, v: Option<bool>) -> Attrs {
    match v {
        Some(b) => seq![(name, bool_text(b))],
        None => seq![],
    }
}

/// The attribute `name` with the decimal `v`, unless `v` is zero.
pub open spec fn nonzero_attr(name: Seq<char>, v: u64) -> Attrs {
    if v != 0 {
        seq![(name, decimal(v as nat))]
    } else {
        seq![]
    }
}

/// The attribute `name` with the value `true`, when `b` holds.
pub open spec fn true_attr(name: Seq<char>, b: bool) -> Attrs {
    if b {
        seq![(name, "true"@)]
    } else {
        seq![]
    }
}

/// The attribute `name` with the signed decimal `v`, unless `v` is zero.
pub open spec fn nonzero_signed_attr(name: Seq<char>, v: i64) -> Attrs {
    if v != 0 {
        seq![(name, signed_decimal(v as int))]
    } else {
        seq![]
    }
}

/// The decimal notation of a signed integer, as `Display` writes it.
pub open spec fn signed_decimal(n: int) -> Seq<char> {
    if n < 0 {
        seq!['-'] + decimal((-n) as nat)
    } else {
        decimal(n as nat)
    }
}

/// How a content type is written.
pub open spec fn content_type_text(c: ContentType) -> Seq<char> {
    match c {
        ContentType::Video => "video"@,
        ContentType::Audio => "audio"@,
        ContentType::Text => "text"@,
        ContentType::Image => "image"@,
        ContentType::Muxed => "muxed"@,
    }
}

pub open spec fn content_type_attr(name: Seq<char>, v: Option<ContentType>) -> Attrs {
    match v {
        Some(c) => seq![(name, content_type_text(c))],
        None => seq![],
    }
}

/// Character data when the text is present.
pub open spec fn opt_text_events(v: Option<String>) -> Seq<WriteEventV> {
    match v {
        Some(s) => seq![WriteEventV::Characters(s@)],
        None => seq![],
    }
}

/// An element that holds only the text `v`, when `v` is present.
pub open spec fn text_element_events(name: Seq<char>, v: Option<String>) -> Seq<WriteEventV> {
    match v {
        Some(s) => element_events(name, seq![], seq![], seq![WriteEventV::Characters(s@)]),
        None => seq![],
    }
}

/// An element with the attributes `sourceURL` and `range`, when either is
/// present.
pub open spec fn pair_events(name: Seq<char>, url: Option<String>, range: Option<String>) -> Seq<WriteEventV> {
    if url is Some || range is Some {
        element_events(name, seq![], opt_attr("sourceURL"@, url) + opt_attr("range"@, range), seq![])
    } else {
        seq![]
    }
}

/// The `Signal` element that holds the `Binary` text, when present.
pub open spec fn signal_events(v: Option<String>) -> Seq<WriteEventV> {
    match v {
        Some(s) => element_events(
            "Signal"@,
            seq![],
            seq![],
            element_events("Binary"@, seq![], seq![], seq![WriteEventV::Characters(s@)]),
        ),
        None => seq![],
    }
}

pub proof fn lemma_balanced_empty()
    ensures
        balanced(Seq::<WriteEventV>::empty()),
{
    let e = Seq::<WriteEventV>::empty();
    assert forall|k: int| 0 <= k <= e.len() implies open_depth(#[trigger] e.take(k)) >= 0 by {
        assert(e.take(k) =~= e);
    }
}

pub proof fn lemma_balanced_cat(a: Seq<WriteEventV>, b: Seq<WriteEventV>)
    requires
        balanced(a),
        balanced(b),
    ensures
        balanced(a + b),
{
    lemma_matched_add(a, b);
}

pub proof fn lemma_element_balanced(name: Seq<char>, ns: Attrs, attrs: Attrs, inner: Seq<WriteEventV>)
    requires
        balanced(inner),
    ensures
        balanced(element_events(name, ns, attrs, inner)),
{
    lemma_matched_wrap(WriteEventV::Start(name, ns, attrs), inner);
}

pub proof fn lemma_characters_balanced(s: Seq<char>)
    ensures
        balanced(seq![WriteEventV::Characters(s)]),
{
    let e = seq![WriteEventV::Characters(s)];
    let empty = Seq::<WriteEventV>::empty();
    assert(e.drop_last() =~= empty);
    assert(open_depth(empty) == 0);
    assert forall|k: int| 0 <= k <= e.len() implies open_depth(#[trigger] e.take(k)) >= 0 by {
        if k == 0 {
            assert(e.take(k) =~= empty);
        } else {
            assert(e.take(k) =~= e);
        }
    }
}

pub proof fn lemma_opt_text_balanced(v: Option<String>)
    ensures
        balanced(opt_text_events(v)),
{
    match v {
        Some(s) => lemma_characters_balanced(s@),
        None => lemma_balanced_empty(),
    }
}

pub proof fn lemma_text_element_balanced(name: Seq<char>, v: Option<String>)
    ensures
        balanced(text_element_events(name, v)),
{
    match v {
        Some(s) => {
            lemma_characters_balanced(s@);
            lemma_element_balanced(name, seq![], seq![], seq![WriteEventV::Characters(s@)]);
        },
        None => lemma_balanced_empty(),
    }
}

pub proof fn lemma_pair_balanced(name: Seq<char>, url: Option<String>, range: Option<String>)
    ensures
        balanced(pair_events(name, url, range)),
{
    lemma_balanced_empty();
    if url is Some || range is Some {
        lemma_element_balanced(name, seq![], opt_attr("sourceURL"@, url) + opt_attr("range"@, range), seq![]);
    }
}

pub proof fn lemma_signal_balanced(v: Option<String>)
    ensures
        balanced(signal_events(v)),
{
    match v {
        Some(s) => {
            lemma_characters_balanced(s@);
            lemma_element_balanced("Binary"@, seq![], seq![], seq![WriteEventV::Characters(s@)]);
            lemma_element_balanced(
                "Signal"@,
                seq![],
                seq![],
                element_events("Binary"@, seq![], seq![], seq![WriteEventV::Characters(s@)]),
            );
        },
        None => lemma_balanced_empty(),
    }
}

/// Adds the attribute `name` with `value`.
fn push_attr(attrs: &mut Vec<(String, String)>, name: &str, value: String)
    ensures
        pairs_view(final(attrs)@) == pairs_view(old(attrs)@) + seq![(name@, value@)],
{
    let ghost before = pairs_view(attrs@);
    attrs.push((String::from_str(name), value));
    assert(pairs_view(attrs@) =~= before + seq![(name@, value@)]);
}

fn push_opt_attr(attrs: &mut Vec<(String, String)>, name: &str, v: &Option<String>)
    ensures
        pairs_view(final(attrs)@) == pairs_view(old(attrs)@) + opt_attr(name@, *v),
{
    match v {
        Some(s) => push_attr(attrs, name, s.clone()),
        None => {
            assert(pairs_view(attrs@) =~= pairs_view(attrs@) + opt_attr(name@, *v));
        },
    }
}

/// The decimal notation of `n` as a string.
fn decimal_string(n: u64) -> (s: String)
    ensures
        s@ == decimal(n as nat),
{
    string_of(&decimal_of(n))
}

/// The decimal notation of a signed `n` as a string.
fn signed_decimal_string(n: i64) -> (s: String)
    ensures
        s@ == signed_decimal(n as int),
{
    if n < 0 {
        let m: u64 = if n == i64::MIN {
            9223372036854775808u64
        } else {
            (-n) as u64
        };
        let mut v: Vec<char> = Vec::new();
        v.push('-');
        let d = decimal_of(m);
        let mut k: usize = 0;
        while k < d.len()
            invariant
                k <= d@.len(),
                v@ == seq!['-'] + d@.take(k as int),
            decreases d.len() - k,
        {
            v.push(d[k]);
            k = k + 1;
            assert(v@ =~= seq!['-'] + d@.take(k as int));
        }
        assert(d@.take(k as int) =~= d@);
        string_of(&v)
    } else {
        decimal_string(n as u64)
    }
}

fn push_u32_attr(attrs: &mut Vec<(String, String)>, name: &str, v: Option<u32>)
    ensures
        pairs_view(final(attrs)@) == pairs_view(old(attrs)@) + u32_attr(name@, v),
{
    match v {
        Some(n) => push_attr(attrs, name, decimal_string(n as u64)),
        None => {
            assert(pairs_view(attrs@) =~= pairs_view(attrs@) + u32_attr(name@, v));
        },
    }
}

fn push_u64_attr(attrs: &mut Vec<(String, String)>, name: &str, v: Option<u64>)
    ensures
        pairs_view(final(attrs)@) == pairs_view(old(attrs)@) + u64_attr(name@, v),
{
    match v {
        Some(n) => push_attr(attrs, name, decimal_string(n)),
        None => {
            assert(pairs_view(attrs@) =~= pairs_view(attrs@) + u64_attr(name@, v));
        },
    }
}

fn push_nonzero_attr(attrs: &mut Vec<(String, String)>, name: &str, v: u64)
    ensures
        pairs_view(final(attrs)@) == pairs_view(old(attrs)@) + nonzero_attr(name@, v),
{
    if v != 0 {
        push_attr(attrs, name, decimal_string(v));
    } else {
        assert(pairs_view(attrs@) =~= pairs_view(attrs@) + nonzero_attr(name@, v));
    }
}

fn push_true_attr(attrs: &mut Vec<(String, String)>, name: &str, b: bool)
    ensures
        pairs_view(final(attrs)@) == pairs_view(old(attrs)@) + true_attr(name@, b),
{
    if b {
        push_attr(attrs, name, String::from_str("true"));
    } else {
        assert(pairs_view(attrs@) =~= pairs_view(attrs@) + true_attr(name@, b));
    }
}

fn push_nonzero_signed_attr(attrs: &mut Vec<(String, String)>, name: &str, v: i64)
    ensures
        pairs_view(final(attrs)@) == pairs_view(old(attrs)@) + nonzero_signed_attr(name@, v),
{
    if v != 0 {
        push_attr(attrs, name, signed_decimal_string(v));
    } else {
        assert(pairs_view(attrs@) =~= pairs_view(attrs@) + nonzero_signed_attr(name@, v));
    }
}

fn bool_string(b: bool) -> (s: String)
    ensures
        s@ == bool_text(b),
{
    if b {
        String::from_str("true")
    } else {
        String::from_str("false")
    }
}

fn push_bool_attr(attrs: &mut Vec<(String, String)>, name: &str, v: Option<bool>)
    ensures
        pairs_view(final(attrs)@) == pairs_view(old(attrs)@) + bool_attr(name@, v),
{
    match v {
        Some(b) => push_attr(attrs, name, bool_string(b)),
        None => {
            assert(pairs_view(attrs@) =~= pairs_view(attrs@) + bool_attr(name@, v));
        },
    }
}

fn push_content_type_attr(attrs: &mut Vec<(String, String)>, name: &str, v: Option<ContentType>)
    ensures
        pairs_view(final(attrs)@) == pairs_view(old(attrs)@) + content_type_attr(name@, v),
{
    match v {
        Some(c) => {
            let text = match c {
                ContentType::Video => String::from_str("video"),
                ContentType::Audio => String::from_str("audio"),
                ContentType::Text => String::from_str("text"),
                ContentType::Image => String::from_str("image"),
                ContentType::Muxed => String::from_str("muxed"),
            };
            push_attr(attrs, name, text);
        },
        None => {
            assert(pairs_view(attrs@) =~= pairs_view(attrs@) + content_type_attr(name@, v));
        },
    }
}

/// Writes a start tag with no namespace declaration.
fn start_element(out: &mut Vec<WriteEvent>, name: &str, attrs: Vec<(String, String)>)
    ensures
        events_view(final(out)@) == events_view(old(out)@) + seq![
            WriteEventV::Start(name@, seq![], pairs_view(attrs@)),
        ],
{
    let ghost before = events_view(out@);
    let ghost a = pairs_view(attrs@);
    let ns: Vec<(String, String)> = Vec::new();
    assert(pairs_view(ns@) =~= Seq::<(Seq<char>, Seq<char>)>::empty());
    out.push(WriteEvent::Start(String::from_str(name), ns, attrs));
    assert(events_view(out@) =~= before + seq![WriteEventV::Start(name@, seq![], a)]);
}

fn characters(out: &mut Vec<WriteEvent>, s: &String)
    ensures
        events_view(final(out)@) == events_view(old(out)@) + seq![WriteEventV::Characters(s@)],
{
    let ghost before = events_view(out@);
    out.push(WriteEvent::Characters(s.clone()));
    assert(events_view(out@) =~= before + seq![WriteEventV::Characters(s@)]);
}

fn end_element(out: &mut Vec<WriteEvent>)
    ensures
        events_view(final(out)@) == events_view(old(out)@) + seq![WriteEventV::End],
{
    let ghost before = events_view(out@);
    out.push(WriteEvent::End);
    assert(events_view(out@) =~= before + seq![WriteEventV::End]);
}

fn write_opt_text(out: &mut Vec<WriteEvent>, v: &Option<String>)
    ensures
        events_view(final(out)@) == events_view(old(out)@) + opt_text_events(*v),
{
    match v {
        Some(s) => characters(out, s),
        None => {
            assert(events_view(out@) =~= events_view(out@) + opt_text_events(*v));
        },
    }
}

fn write_text_element(out: &mut Vec<WriteEvent>, name: &str, v: &Option<String>)
    ensures
        events_view(final(out)@) == events_view(old(out)@) + text_element_events(name@, *v),
{
    let ghost before = events_view(out@);
    match v {
        Some(s) => {
            let none: Vec<(String, String)> = Vec::new();
            assert(pairs_view(none@) =~= Seq::<(Seq<char>, Seq<char>)>::empty());
            start_element(out, name, none);
            characters(out, s);
            end_element(out);
            assert(events_view(out@) =~= before + text_element_events(name@, *v));
        },
        None => {
            assert(events_view(out@) =~= before + text_element_events(name@, *v));
        },
    }
}

fn write_pair(out: &mut Vec<WriteEvent>, name: &str, url: &Option<String>, range: &Option<String>)
    ensures
        events_view(final(out)@) == events_view(old(out)@) + pair_events(name@, *url, *range),
{
    let ghost before = events_view(out@);
    if url.is_some() || range.is_some() {
        let mut attrs: Vec<(String, String)> = Vec::new();
        assert(pairs_view(attrs@) =~= Seq::<(Seq<char>, Seq<char>)>::empty());
        push_opt_attr(&mut attrs, "sourceURL", url);
        push_opt_attr(&mut attrs, "range", range);
        assert(pairs_view(attrs@) =~= opt_attr("sourceURL"@, *url) + opt_attr("range"@, *range));
        start_element(out, name, attrs);
        end_element(out);
        assert(events_view(out@) =~= before + pair_events(name@, *url, *range));
    } else {
        assert(events_view(out@) =~= before + pair_events(name@, *url, *range));
    }
}

fn write_signal(out: &mut Vec<WriteEvent>, v: &Option<String>)
    ensures
        events_view(final(out)@) == events_view(old(out)@) + signal_events(*v),
{
    let ghost before = events_view(out@);
    match v {
        Some(s) => {
            let none: Vec<(String, String)> = Vec::new();
            assert(pairs_view(none@) =~= Seq::<(Seq<char>, Seq<char>)>::empty());
            start_element(out, "Signal", none);
            let none: Vec<(String, String)> = Vec::new();
            assert(pairs_view(none@) =~= Seq::<(Seq<char>, Seq<char>)>::empty());
            start_element(out, "Binary", none);
            characters(out, s);
            end_element(out);
            end_element(out);
            assert(events_view(out@) =~= before + signal_events(*v));
        },
        None => {
            assert(events_view(out@) =~= before + signal_events(*v));
        },
    }
}

/// The attributes of the element `name` for `d`.
#[verifier::opaque]
pub open spec fn descriptor_attrs(d: Descriptor) -> Attrs {
    seq![("schemeIdUri"@, d.scheme_id_uri@)]
        + opt_attr("value"@, d.value)
        + opt_attr("id"@, d.id)
        + opt_attr("dvb:url"@, d.dvb_url)
        + opt_attr("dvb:mimeType"@, d.dvb_mime_type)
        + opt_attr("dvb:fontFamily"@, d.dvb_font_family)
}

/// What lies inside the element `name` for `d`.
#[verifier::opaque]
pub open spec fn descriptor_inner(d: Descriptor) -> Seq<WriteEventV> {
    seq![]
}

/// The events that write `d` as the element `name`.
pub open spec fn descriptor_events(name: Seq<char>, d: Descriptor) -> Seq<WriteEventV> {
    element_events(name, seq![], descriptor_attrs(d), descriptor_inner(d))
}

pub open spec fn descriptor_fn(name: Seq<char>) -> spec_fn(Descriptor) -> Seq<WriteEventV> {
    |d: Descriptor| descriptor_events(name, d)
}

pub proof fn lemma_descriptor_balanced(name: Seq<char>, d: Descriptor)
    ensures
        balanced(descriptor_events(name, d)),
{
    reveal(descriptor_inner);
    lemma_balanced_empty();
    lemma_element_balanced(name, seq![], descriptor_attrs(d), descriptor_inner(d));
}

pub proof fn lemma_descriptor_list_balanced(name: Seq<char>, s: Seq<Descriptor>)
    ensures
        balanced(each_events(s, descriptor_fn(name))),
    decreases s.len(),
{
    reveal(each_events);
    if s.len() == 0 {
        lemma_balanced_empty();
    } else {
        lemma_descriptor_list_balanced(name, s.drop_last());
        lemma_descriptor_balanced(name, s.last());
        lemma_balanced_cat(each_events(s.drop_last(), descriptor_fn(name)), descriptor_events(name, s.last()));
    }
}

/// The attributes of the element `name` for `l`.
#[verifier::opaque]
pub open spec fn label_attrs(l: Label) -> Attrs {
    opt_attr("lang"@, l.lang)
}

/// What lies inside the element `name` for `l`.
#[verifier::opaque]
pub open spec fn label_inner(l: Label) -> Seq<WriteEventV> {
    seq![WriteEventV::Characters(l.text@)]
}

/// The events that write `l` as the element `name`.
pub open spec fn label_events(name: Seq<char>, l: Label) -> Seq<WriteEventV> {
    element_events(name, seq![], label_attrs(l), label_inner(l))
}

pub open spec fn label_fn(name: Seq<char>) -> spec_fn(Label) -> Seq<WriteEventV> {
    |l: Label| label_events(name, l)
}

pub proof fn lemma_label_balanced(name: Seq<char>, l: Label)
    ensures
        balanced(label_events(name, l)),
{
    reveal(label_inner);
    lemma_characters_balanced(l.text@);
    lemma_element_balanced(name, seq![], label_attrs(l), label_inner(l));
}

pub proof fn lemma_label_list_balanced(name: Seq<char>, s: Seq<Label>)
    ensures
        balanced(each_events(s, label_fn(name))),
    decreases s.len(),
{
    reveal(each_events);
    if s.len() == 0 {
        lemma_balanced_empty();
    } else {
        lemma_label_list_balanced(name, s.drop_last());
        lemma_label_balanced(name, s.last());
        lemma_balanced_cat(each_events(s.drop_last(), label_fn(name)), label_events(name, s.last()));
    }
}

/// The attributes of `UTCTiming` for `u`.
#[verifier::opaque]
pub open spec fn utc_timing_attrs(u: UtcTiming) -> Attrs {
    seq![("schemeIdUri"@, u.scheme_id_uri@)] + opt_attr("value"@, u.value) + opt_attr("id"@, u.id)
}

/// What lies inside `UTCTiming` for `u`.
#[verifier::opaque]
pub open spec fn utc_timing_inner(u: UtcTiming) -> Seq<WriteEventV> {
    seq![]
}

/// The events that write `u` as `UTCTiming`.
pub open spec fn utc_timing_events(u: UtcTiming) -> Seq<WriteEventV> {
    element_events("UTCTiming"@, seq![], utc_timing_attrs(u), utc_timing_inner(u))
}

pub open spec fn utc_timing_fn() -> spec_fn(UtcTiming) -> Seq<WriteEventV> {
    |u: UtcTiming| utc_timing_events(u)
}

pub proof fn lemma_utc_timing_balanced(u: UtcTiming)
    ensures
        balanced(utc_timing_events(u)),
{
    reveal(utc_timing_inner);
    lemma_balanced_empty();
    lemma_element_balanced("UTCTiming"@, seq![], utc_timing_attrs(u), utc_timing_inner(u));
}

pub proof fn lemma_utc_timing_list_balanced(s: Seq<UtcTiming>)
    ensures
        balanced(each_events(s, utc_timing_fn())),
    decreases s.len(),
{
    reveal(each_events);
    if s.len() == 0 {
        lemma_balanced_empty();
    } else {
        lemma_utc_timing_list_balanced(s.drop_last());
        lemma_utc_timing_balanced(s.last());
        lemma_balanced_cat(each_events(s.drop_last(), utc_timing_fn()), utc_timing_events(s.last()));
    }
}

/// The attributes of `Location` for `l`.
#[verifier::opaque]
pub open spec fn location_attrs(l: Location) -> Attrs {
    opt_attr("serviceLocation"@, l.service_location)
}

/// What lies inside `Location` for `l`.
#[verifier::opaque]
pub open spec fn location_inner(l: Location) -> Seq<WriteEventV> {
    seq![WriteEventV::Characters(l.url@)]
}

/// The events that write `l` as `Location`.
pub open spec fn location_events(l: Location) -> Seq<WriteEventV> {
    element_events("Location"@, seq![], location_attrs(l), location_inner(l))
}

pub open spec fn location_fn() -> spec_fn(Location) -> Seq<WriteEventV> {
    |l: Location| location_events(l)
}

pub proof fn lemma_location_balanced(l: Location)
    ensures
        balanced(location_events(l)),
{
    reveal(location_inner);
    lemma_characters_balanced(l.url@);
    lemma_element_balanced("Location"@, seq![], location_attrs(l), location_inner(l));
}

pub proof fn lemma_location_list_balanced(s: Seq<Location>)
    ensures
        balanced(each_events(s, location_fn())),
    decreases s.len(),
{
    reveal(each_events);
    if s.len() == 0 {
        lemma_balanced_empty();
    } else {
        lemma_location_list_balanced(s.drop_last());
        lemma_location_balanced(s.last());
        lemma_balanced_cat(each_events(s.drop_last(), location_fn()), location_events(s.last()));
    }
}

/// The attributes of `BaseURL` for `b`.
#[verifier::opaque]
pub open spec fn base_url_attrs(b: BaseUrl) -> Attrs {
    opt_attr("serviceLocation"@, b.service_location)
        + opt_attr("availabilityTimeOffset"@, b.availability_time_offset)
        + bool_attr("availabilityTimeComplete"@, b.availability_time_complete)
        + opt_attr("byteRange"@, b.byte_range)
        + u32_attr("dvb:priority"@, b.dvb_priority)
        + u32_attr("dvb:weight"@, b.dvb_weight)
}

/// What lies inside `BaseURL` for `b`.
#[verifier::opaque]
pub open spec fn base_url_inner(b: BaseUrl) -> Seq<WriteEventV> {
    seq![WriteEventV::Characters(b.url@)]
}

/// The events that write `b` as `BaseURL`.
pub open spec fn base_url_events(b: BaseUrl) -> Seq<WriteEventV> {
    element_events("BaseURL"@, seq![], base_url_attrs(b), base_url_inner(b))
}

pub open spec fn base_url_fn() -> spec_fn(BaseUrl) -> Seq<WriteEventV> {
    |b: BaseUrl| base_url_events(b)
}

pub proof fn lemma_base_url_balanced(b: BaseUrl)
    ensures
        balanced(base_url_events(b)),
{
    reveal(base_url_inner);
    lemma_characters_balanced(b.url@);
    lemma_element_balanced("BaseURL"@, seq![], base_url_attrs(b), base_url_inner(b));
}

pub proof fn lemma_base_url_list_balanced(s: Seq<BaseUrl>)
    ensures
        balanced(each_events(s, base_url_fn())),
    decreases s.len(),
{
    reveal(each_events);
    if s.len() == 0 {
        lemma_balanced_empty();
    } else {
        lemma_base_url_list_balanced(s.drop_last());
        lemma_base_url_balanced(s.last());
        lemma_balanced_cat(each_events(s.drop_last(), base_url_fn()), base_url_events(s.last()));
    }
}

/// The attributes of `PatchLocation` for `p`.
#[verifier::opaque]
pub open spec fn patch_location_attrs(p: PatchLocation) -> Attrs {
    opt_attr("serviceLocation"@, p.service_location) + opt_attr("ttl"@, p.ttl)
}

/// What lies inside `PatchLocation` for `p`.
#[verifier::opaque]
pub open spec fn patch_location_inner(p: PatchLocation) -> Seq<WriteEventV> {
    seq![WriteEventV::Characters(p.url@)]
}

/// The events that write `p` as `PatchLocation`.
pub open spec fn patch_location_events(p: PatchLocation) -> Seq<WriteEventV> {
    element_events("PatchLocation"@, seq![], patch_location_attrs(p), patch_location_inner(p))
}

pub open spec fn patch_location_fn() -> spec_fn(PatchLocation) -> Seq<WriteEventV> {
    |p: PatchLocation| patch_location_events(p)
}

pub proof fn lemma_patch_location_balanced(p: PatchLocation)
    ensures
        balanced(patch_location_events(p)),
{
    reveal(patch_location_inner);
    lemma_characters_balanced(p.url@);
    lemma_element_balanced("PatchLocation"@, seq![], patch_location_attrs(p), patch_location_inner(p));
}

pub proof fn lemma_patch_location_list_balanced(s: Seq<PatchLocation>)
    ensures
        balanced(each_events(s, patch_location_fn())),
    decreases s.len(),
{
    reveal(each_events);
    if s.len() == 0 {
        lemma_balanced_empty();
    } else {
        lemma_patch_location_list_balanced(s.drop_last());
        lemma_patch_location_balanced(s.last());
        lemma_balanced_cat(each_events(s.drop_last(), patch_location_fn()), patch_location_events(s.last()));
    }
}

/// The attributes of `Latency` for `l`.
#[verifier::opaque]
pub open spec fn latency_attrs(l: Latency) -> Attrs {
    u32_attr("target"@, l.target) + u32_attr("min"@, l.min) + u32_attr("max"@, l.max) + u32_attr("referenceId"@, l.reference_id)
}

/// What lies inside `Latency` for `l`.
#[verifier::opaque]
pub open spec fn latency_inner(l: Latency) -> Seq<WriteEventV> {
    seq![]
}

/// The events that write `l` as `Latency`.
pub open spec fn latency_events(l: Latency) -> Seq<WriteEventV> {
    element_events("Latency"@, seq![], latency_attrs(l), latency_inner(l))
}

pub open spec fn latency_fn() -> spec_fn(Latency) -> Seq<WriteEventV> {
    |l: Latency| latency_events(l)
}

pub proof fn lemma_latency_balanced(l: Latency)
    ensures
        balanced(latency_events(l)),
{
    reveal(latency_inner);
    lemma_balanced_empty();
    lemma_element_balanced("Latency"@, seq![], latency_attrs(l), latency_inner(l));
}

/// The attributes of `PlaybackRate` for `p`.
#[verifier::opaque]
pub open spec fn playback_rate_attrs(p: PlaybackRate) -> Attrs {
    opt_attr("min"@, p.min) + opt_attr("max"@, p.max)
}

/// What lies inside `PlaybackRate` for `p`.
#[verifier::opaque]
pub open spec fn playback_rate_inner(p: PlaybackRate) -> Seq<WriteEventV> {
    seq![]
}

/// The events that write `p` as `PlaybackRate`.
pub open spec fn playback_rate_events(p: PlaybackRate) -> Seq<WriteEventV> {
    element_events("PlaybackRate"@, seq![], playback_rate_attrs(p), playback_rate_inner(p))
}

pub open spec fn playback_rate_fn() -> spec_fn(PlaybackRate) -> Seq<WriteEventV> {
    |p: PlaybackRate| playback_rate_events(p)
}

pub proof fn lemma_playback_rate_balanced(p: PlaybackRate)
    ensures
        balanced(playback_rate_events(p)),
{
    reveal(playback_rate_inner);
    lemma_balanced_empty();
    lemma_element_balanced("PlaybackRate"@, seq![], playback_rate_attrs(p), playback_rate_inner(p));
}

/// The attributes of `OperatingQuality` for `q`.
#[verifier::opaque]
pub open spec fn operating_quality_attrs(q: OperatingQuality) -> Attrs {
    opt_attr("mediaType"@, q.media_type)
        + u32_attr("min"@, q.min)
        + u32_attr("max"@, q.max)
        + u32_attr("target"@, q.target)
        + opt_attr("type"@, q.type_)
        + u32_attr("maxQualityDifference"@, q.max_quality_difference)
}

/// What lies inside `OperatingQuality` for `q`.
#[verifier::opaque]
pub open spec fn operating_quality_inner(q: OperatingQuality) -> Seq<WriteEventV> {
    seq![]
}

/// The events that write `q` as `OperatingQuality`.
pub open spec fn operating_quality_events(q: OperatingQuality) -> Seq<WriteEventV> {
    element_events("OperatingQuality"@, seq![], operating_quality_attrs(q), operating_quality_inner(q))
}

pub open spec fn operating_quality_fn() -> spec_fn(OperatingQuality) -> Seq<WriteEventV> {
    |q: OperatingQuality| operating_quality_events(q)
}

pub proof fn lemma_operating_quality_balanced(q: OperatingQuality)
    ensures
        balanced(operating_quality_events(q)),
{
    reveal(operating_quality_inner);
    lemma_balanced_empty();
    lemma_element_balanced("OperatingQuality"@, seq![], operating_quality_attrs(q), operating_quality_inner(q));
}

/// The attributes of `OperatingBandwidth` for `b`.
#[verifier::opaque]
pub open spec fn operating_bandwidth_attrs(b: OperatingBandwidth) -> Attrs {
    opt_attr("mediaType"@, b.media_type) + u32_attr("min"@, b.min) + u32_attr("max"@, b.max) + u32_attr("target"@, b.target)
}

/// What lies inside `OperatingBandwidth` for `b`.
#[verifier::opaque]
pub open spec fn operating_bandwidth_inner(b: OperatingBandwidth) -> Seq<WriteEventV> {
    seq![]
}

/// The events that write `b` as `OperatingBandwidth`.
pub open spec fn operating_bandwidth_events(b: OperatingBandwidth) -> Seq<WriteEventV> {
    element_events("OperatingBandwidth"@, seq![], operating_bandwidth_attrs(b), operating_bandwidth_inner(b))
}

pub open spec fn operating_bandwidth_fn() -> spec_fn(OperatingBandwidth) -> Seq<WriteEventV> {
    |b: OperatingBandwidth| operating_bandwidth_events(b)
}

pub proof fn lemma_operating_bandwidth_balanced(b: OperatingBandwidth)
    ensures
        balanced(operating_bandwidth_events(b)),
{
    reveal(operating_bandwidth_inner);
    lemma_balanced_empty();
    lemma_element_balanced("OperatingBandwidth"@, seq![], operating_bandwidth_attrs(b), operating_bandwidth_inner(b));
}

/// The attributes of `CMCDParameters` for `c`.
#[verifier::opaque]
pub open spec fn cmcd_parameters_attrs(c: CmcdParameters) -> Attrs {
    seq![("schemeIdUri"@, c.scheme_id_uri@)]
        + opt_attr("value"@, c.value)
        + opt_attr("id"@, c.id)
        + opt_attr("version"@, c.version)
        + opt_attr("sessionID"@, c.session_id)
        + opt_attr("contentID"@, c.content_id)
        + opt_attr("mode"@, c.mode)
        + opt_attr("keys"@, c.keys)
        + opt_attr("includeInRequests"@, c.include_in_requests)
}

/// What lies inside `CMCDParameters` for `c`.
#[verifier::opaque]
pub open spec fn cmcd_parameters_inner(c: CmcdParameters) -> Seq<WriteEventV> {
    seq![]
}

/// The events that write `c` as `CMCDParameters`.
pub open spec fn cmcd_parameters_events(c: CmcdParameters) -> Seq<WriteEventV> {
    element_events("CMCDParameters"@, seq![], cmcd_parameters_attrs(c), cmcd_parameters_inner(c))
}

pub open spec fn cmcd_parameters_fn() -> spec_fn(CmcdParameters) -> Seq<WriteEventV> {
    |c: CmcdParameters| cmcd_parameters_events(c)
}

pub proof fn lemma_cmcd_parameters_balanced(c: CmcdParameters)
    ensures
        balanced(cmcd_parameters_events(c)),
{
    reveal(cmcd_parameters_inner);
    lemma_balanced_empty();
    lemma_element_balanced("CMCDParameters"@, seq![], cmcd_parameters_attrs(c), cmcd_parameters_inner(c));
}

/// The attributes of `ClientDataReporting` for `c`.
#[verifier::opaque]
pub open spec fn client_data_reporting_attrs(c: ClientDataReporting) -> Attrs {
    opt_attr("serviceLocations"@, c.service_locations) + opt_attr("adaptationSets"@, c.adaptation_sets)
}

/// What lies inside `ClientDataReporting` for `c`.
#[verifier::opaque]
pub open spec fn client_data_reporting_inner(c: ClientDataReporting) -> Seq<WriteEventV> {
    opt_events(c.cmcd_parameters, cmcd_parameters_fn())
}

/// The events that write `c` as `ClientDataReporting`.
pub open spec fn client_data_reporting_events(c: ClientDataReporting) -> Seq<WriteEventV> {
    element_events("ClientDataReporting"@, seq![], client_data_reporting_attrs(c), client_data_reporting_inner(c))
}

pub open spec fn client_data_reporting_fn() -> spec_fn(ClientDataReporting) -> Seq<WriteEventV> {
    |c: ClientDataReporting| client_data_reporting_events(c)
}

pub proof fn lemma_client_data_reporting_balanced(c: ClientDataReporting)
    ensures
        balanced(client_data_reporting_events(c)),
{
    reveal(client_data_reporting_inner);
    reveal(opt_events);
    if let Some(x) = c.cmcd_parameters { lemma_cmcd_parameters_balanced(x); } else { lemma_balanced_empty(); }
    lemma_element_balanced("ClientDataReporting"@, seq![], client_data_reporting_attrs(c), client_data_reporting_inner(c));
}

/// The attributes of `ServiceDescription` for `s`.
#[verifier::opaque]
pub open spec fn service_description_attrs(s: ServiceDescription) -> Attrs {
    u32_attr("id"@, s.id)
}

/// What lies inside `ServiceDescription` for `s`.
#[verifier::opaque]
pub open spec fn service_description_inner(s: ServiceDescription) -> Seq<WriteEventV> {
    opt_events(s.scope, descriptor_fn("Scope"@))
        + opt_events(s.latency, latency_fn())
        + opt_events(s.playback_rate, playback_rate_fn())
        + opt_events(s.operating_quality, operating_quality_fn())
        + opt_events(s.operating_bandwidth, operating_bandwidth_fn())
        + opt_events(s.client_data_reporting, client_data_reporting_fn())
}

/// The events that write `s` as `ServiceDescription`.
pub open spec fn service_description_events(s: ServiceDescription) -> Seq<WriteEventV> {
    element_events("ServiceDescription"@, seq![], service_description_attrs(s), service_description_inner(s))
}

pub open spec fn service_description_fn() -> spec_fn(ServiceDescription) -> Seq<WriteEventV> {
    |s: ServiceDescription| service_description_events(s)
}

pub proof fn lemma_service_description_balanced(s: ServiceDescription)
    ensures
        balanced(service_description_events(s)),
{
    reveal(service_description_inner);
    reveal(opt_events);
    if let Some(x) = s.scope { lemma_descriptor_balanced("Scope"@, x); } else { lemma_balanced_empty(); }
    if let Some(x) = s.latency { lemma_latency_balanced(x); } else { lemma_balanced_empty(); }
    if let Some(x) = s.playback_rate { lemma_playback_rate_balanced(x); } else { lemma_balanced_empty(); }
    if let Some(x) = s.operating_quality { lemma_operating_quality_balanced(x); } else { lemma_balanced_empty(); }
    if let Some(x) = s.operating_bandwidth { lemma_operating_bandwidth_balanced(x); } else { lemma_balanced_empty(); }
    if let Some(x) = s.client_data_reporting { lemma_client_data_reporting_balanced(x); } else { lemma_balanced_empty(); }
    lemma_balanced_cat(opt_events(s.scope, descriptor_fn("Scope"@)), opt_events(s.latency, latency_fn()));
    lemma_balanced_cat(opt_events(s.scope, descriptor_fn("Scope"@)) + opt_events(s.latency, latency_fn()), opt_events(s.playback_rate, playback_rate_fn()));
    lemma_balanced_cat(opt_events(s.scope, descriptor_fn("Scope"@))
        + opt_events(s.latency, latency_fn())
        + opt_events(s.playback_rate, playback_rate_fn()), opt_events(s.operating_quality, operating_quality_fn()));
    lemma_balanced_cat(opt_events(s.scope, descriptor_fn("Scope"@))
        + opt_events(s.latency, latency_fn())
        + opt_events(s.playback_rate, playback_rate_fn())
        + opt_events(s.operating_quality, operating_quality_fn()), opt_events(s.operating_bandwidth, operating_bandwidth_fn()));
    lemma_balanced_cat(opt_events(s.scope, descriptor_fn("Scope"@))
        + opt_events(s.latency, latency_fn())
        + opt_events(s.playback_rate, playback_rate_fn())
        + opt_events(s.operating_quality, operating_quality_fn())
        + opt_events(s.operating_bandwidth, operating_bandwidth_fn()), opt_events(s.client_data_reporting, client_data_reporting_fn()));
    lemma_element_balanced("ServiceDescription"@, seq![], service_description_attrs(s), service_description_inner(s));
}

pub proof fn lemma_service_description_list_balanced(s: Seq<ServiceDescription>)
    ensures
        balanced(each_events(s, service_description_fn())),
    decreases s.len(),
{
    reveal(each_events);
    if s.len() == 0 {
        lemma_balanced_empty();
    } else {
        lemma_service_description_list_balanced(s.drop_last());
        lemma_service_description_balanced(s.last());
        lemma_balanced_cat(each_events(s.drop_last(), service_description_fn()), service_description_events(s.last()));
    }
}

/// The attributes of `ContentSteering` for `c`.
#[verifier::opaque]
pub open spec fn content_steering_attrs(c: ContentSteering) -> Attrs {
    opt_attr("defaultServiceLocation"@, c.default_service_location)
        + bool_attr("queryBeforeStart"@, c.query_before_start)
        + bool_attr("clientRequirement"@, c.client_requirement)
}

/// What lies inside `ContentSteering` for `c`.
#[verifier::opaque]
pub open spec fn content_steering_inner(c: ContentSteering) -> Seq<WriteEventV> {
    seq![WriteEventV::Characters(c.server_url@)]
}

/// The events that write `c` as `ContentSteering`.
pub open spec fn content_steering_events(c: ContentSteering) -> Seq<WriteEventV> {
    element_events("ContentSteering"@, seq![], content_steering_attrs(c), content_steering_inner(c))
}

pub open spec fn content_steering_fn() -> spec_fn(ContentSteering) -> Seq<WriteEventV> {
    |c: ContentSteering| content_steering_events(c)
}

pub proof fn lemma_content_steering_balanced(c: ContentSteering)
    ensures
        balanced(content_steering_events(c)),
{
    reveal(content_steering_inner);
    lemma_characters_balanced(c.server_url@);
    lemma_element_balanced("ContentSteering"@, seq![], content_steering_attrs(c), content_steering_inner(c));
}

/// The attributes of `Range` for `r`.
#[verifier::opaque]
pub open spec fn metrics_range_attrs(r: MetricsRange) -> Attrs {
    opt_attr("starttime"@, r.starttime) + opt_attr("duration"@, r.duration)
}

/// What lies inside `Range` for `r`.
#[verifier::opaque]
pub open spec fn metrics_range_inner(r: MetricsRange) -> Seq<WriteEventV> {
    seq![]
}

/// The events that write `r` as `Range`.
pub open spec fn metrics_range_events(r: MetricsRange) -> Seq<WriteEventV> {
    element_events("Range"@, seq![], metrics_range_attrs(r), metrics_range_inner(r))
}

pub open spec fn metrics_range_fn() -> spec_fn(MetricsRange) -> Seq<WriteEventV> {
    |r: MetricsRange| metrics_range_events(r)
}

pub proof fn lemma_metrics_range_balanced(r: MetricsRange)
    ensures
        balanced(metrics_range_events(r)),
{
    reveal(metrics_range_inner);
    lemma_balanced_empty();
    lemma_element_balanced("Range"@, seq![], metrics_range_attrs(r), metrics_range_inner(r));
}

pub proof fn lemma_metrics_range_list_balanced(s: Seq<MetricsRange>)
    ensures
        balanced(each_events(s, metrics_range_fn())),
    decreases s.len(),
{
    reveal(each_events);
    if s.len() == 0 {
        lemma_balanced_empty();
    } else {
        lemma_metrics_range_list_balanced(s.drop_last());
        lemma_metrics_range_balanced(s.last());
        lemma_balanced_cat(each_events(s.drop_last(), metrics_range_fn()), metrics_range_events(s.last()));
    }
}

/// The attributes of `Metrics` for `m`.
#[verifier::opaque]
pub open spec fn metrics_attrs(m: Metrics) -> Attrs {
    seq![("metrics"@, m.metrics@)]
}

/// What lies inside `Metrics` for `m`.
#[verifier::opaque]
pub open spec fn metrics_inner(m: Metrics) -> Seq<WriteEventV> {
    each_events(m.reportings@, descriptor_fn("Reporting"@)) + each_events(m.ranges@, metrics_range_fn())
}

/// The events that write `m` as `Metrics`.
pub open spec fn metrics_events(m: Metrics) -> Seq<WriteEventV> {
    element_events("Metrics"@, seq![], metrics_attrs(m), metrics_inner(m))
}

pub open spec fn metrics_fn() -> spec_fn(Metrics) -> Seq<WriteEventV> {
    |m: Metrics| metrics_events(m)
}

pub proof fn lemma_metrics_balanced(m: Metrics)
    ensures
        balanced(metrics_events(m)),
{
    reveal(metrics_inner);
    lemma_descriptor_list_balanced("Reporting"@, m.reportings@);
    lemma_metrics_range_list_balanced(m.ranges@);
    lemma_balanced_cat(each_events(m.reportings@, descriptor_fn("Reporting"@)), each_events(m.ranges@, metrics_range_fn()));
    lemma_element_balanced("Metrics"@, seq![], metrics_attrs(m), metrics_inner(m));
}

pub proof fn lemma_metrics_list_balanced(s: Seq<Metrics>)
    ensures
        balanced(each_events(s, metrics_fn())),
    decreases s.len(),
{
    reveal(each_events);
    if s.len() == 0 {
        lemma_balanced_empty();
    } else {
        lemma_metrics_list_balanced(s.drop_last());
        lemma_metrics_balanced(s.last());
        lemma_balanced_cat(each_events(s.drop_last(), metrics_fn()), metrics_events(s.last()));
    }
}

/// The attributes of `Event` for `e`.
#[verifier::opaque]
pub open spec fn event_attrs(e: Event) -> Attrs {
    seq![("presentationTime"@, decimal(e.presentation_time as nat))]
        + u64_attr("duration"@, e.duration)
        + opt_attr("id"@, e.id)
        + opt_attr("messageData"@, e.message_data)
}

/// What lies inside `Event` for `e`.
#[verifier::opaque]
pub open spec fn event_inner(e: Event) -> Seq<WriteEventV> {
    opt_text_events(e.content) + signal_events(e.signal_binary)
}

/// The events that write `e` as `Event`.
pub open spec fn event_events(e: Event) -> Seq<WriteEventV> {
    element_events("Event"@, seq![], event_attrs(e), event_inner(e))
}

pub open spec fn event_fn() -> spec_fn(Event) -> Seq<WriteEventV> {
    |e: Event| event_events(e)
}

pub proof fn lemma_event_balanced(e: Event)
    ensures
        balanced(event_events(e)),
{
    reveal(event_inner);
    lemma_opt_text_balanced(e.content);
    lemma_signal_balanced(e.signal_binary);
    lemma_balanced_cat(opt_text_events(e.content), signal_events(e.signal_binary));
    lemma_element_balanced("Event"@, seq![], event_attrs(e), event_inner(e));
}

pub proof fn lemma_event_list_balanced(s: Seq<Event>)
    ensures
        balanced(each_events(s, event_fn())),
    decreases s.len(),
{
    reveal(each_events);
    if s.len() == 0 {
        lemma_balanced_empty();
    } else {
        lemma_event_list_balanced(s.drop_last());
        lemma_event_balanced(s.last());
        lemma_balanced_cat(each_events(s.drop_last(), event_fn()), event_events(s.last()));
    }
}

/// The attributes of `EventStream` for `s`.
#[verifier::opaque]
pub open spec fn event_stream_attrs(s: EventStream) -> Attrs {
    seq![("schemeIdUri"@, s.scheme_id_uri@)]
        + opt_attr("value"@, s.value)
        + seq![("timescale"@, decimal(s.timescale as nat))]
        + nonzero_attr("presentationTimeOffset"@, s.presentation_time_offset)
}

/// What lies inside `EventStream` for `s`.
#[verifier::opaque]
pub open spec fn event_stream_inner(s: EventStream) -> Seq<WriteEventV> {
    each_events(s.events@, event_fn())
}

/// The events that write `s` as `EventStream`.
pub open spec fn event_stream_events(s: EventStream) -> Seq<WriteEventV> {
    element_events("EventStream"@, seq![], event_stream_attrs(s), event_stream_inner(s))
}

pub open spec fn event_stream_fn() -> spec_fn(EventStream) -> Seq<WriteEventV> {
    |s: EventStream| event_stream_events(s)
}

pub proof fn lemma_event_stream_balanced(s: EventStream)
    ensures
        balanced(event_stream_events(s)),
{
    reveal(event_stream_inner);
    lemma_event_list_balanced(s.events@);
    lemma_element_balanced("EventStream"@, seq![], event_stream_attrs(s), event_stream_inner(s));
}

pub proof fn lemma_event_stream_list_balanced(s: Seq<EventStream>)
    ensures
        balanced(each_events(s, event_stream_fn())),
    decreases s.len(),
{
    reveal(each_events);
    if s.len() == 0 {
        lemma_balanced_empty();
    } else {
        lemma_event_stream_list_balanced(s.drop_last());
        lemma_event_stream_balanced(s.last());
        lemma_balanced_cat(each_events(s.drop_last(), event_stream_fn()), event_stream_events(s.last()));
    }
}

/// The attributes of `ProducerReferenceTime` for `p`.
#[verifier::opaque]
pub open spec fn producer_reference_time_attrs(p: ProducerReferenceTime) -> Attrs {
    seq![("id"@, decimal(p.id as nat))]
        + seq![("wallClockTime"@, p.wall_clock_time@)]
        + seq![("presentationTime"@, decimal(p.presentation_time as nat))]
        + bool_attr("inband"@, p.inband)
        + opt_attr("type"@, p.type_)
        + opt_attr("applicationScheme"@, p.application_scheme)
}

/// What lies inside `ProducerReferenceTime` for `p`.
#[verifier::opaque]
pub open spec fn producer_reference_time_inner(p: ProducerReferenceTime) -> Seq<WriteEventV> {
    opt_events(p.utc_timing, utc_timing_fn())
}

/// The events that write `p` as `ProducerReferenceTime`.
pub open spec fn producer_reference_time_events(p: ProducerReferenceTime) -> Seq<WriteEventV> {
    element_events("ProducerReferenceTime"@, seq![], producer_reference_time_attrs(p), producer_reference_time_inner(p))
}

pub open spec fn producer_reference_time_fn() -> spec_fn(ProducerReferenceTime) -> Seq<WriteEventV> {
    |p: ProducerReferenceTime| producer_reference_time_events(p)
}

pub proof fn lemma_producer_reference_time_balanced(p: ProducerReferenceTime)
    ensures
        balanced(producer_reference_time_events(p)),
{
    reveal(producer_reference_time_inner);
    reveal(opt_events);
    if let Some(x) = p.utc_timing { lemma_utc_timing_balanced(x); } else { lemma_balanced_empty(); }
    lemma_element_balanced("ProducerReferenceTime"@, seq![], producer_reference_time_attrs(p), producer_reference_time_inner(p));
}

pub proof fn lemma_producer_reference_time_list_balanced(s: Seq<ProducerReferenceTime>)
    ensures
        balanced(each_events(s, producer_reference_time_fn())),
    decreases s.len(),
{
    reveal(each_events);
    if s.len() == 0 {
        lemma_balanced_empty();
    } else {
        lemma_producer_reference_time_list_balanced(s.drop_last());
        lemma_producer_reference_time_balanced(s.last());
        lemma_balanced_cat(each_events(s.drop_last(), producer_reference_time_fn()), producer_reference_time_events(s.last()));
    }
}

/// The attributes of `ContentComponent` for `c`.
#[verifier::opaque]
pub open spec fn content_component_attrs(c: ContentComponent) -> Attrs {
    opt_attr("id"@, c.id) + opt_attr("contentType"@, c.content_type) + opt_attr("lang"@, c.lang)
}

/// What lies inside `ContentComponent` for `c`.
#[verifier::opaque]
pub open spec fn content_component_inner(c: ContentComponent) -> Seq<WriteEventV> {
    each_events(c.accessibilities@, descriptor_fn("Accessibility"@)) + each_events(c.roles@, descriptor_fn("Role"@))
}

/// The events that write `c` as `ContentComponent`.
pub open spec fn content_component_events(c: ContentComponent) -> Seq<WriteEventV> {
    element_events("ContentComponent"@, seq![], content_component_attrs(c), content_component_inner(c))
}

pub open spec fn content_component_fn() -> spec_fn(ContentComponent) -> Seq<WriteEventV> {
    |c: ContentComponent| content_component_events(c)
}

pub proof fn lemma_content_component_balanced(c: ContentComponent)
    ensures
        balanced(content_component_events(c)),
{
    reveal(content_component_inner);
    lemma_descriptor_list_balanced("Accessibility"@, c.accessibilities@);
    lemma_descriptor_list_balanced("Role"@, c.roles@);
    lemma_balanced_cat(each_events(c.accessibilities@, descriptor_fn("Accessibility"@)), each_events(c.roles@, descriptor_fn("Role"@)));
    lemma_element_balanced("ContentComponent"@, seq![], content_component_attrs(c), content_component_inner(c));
}

pub proof fn lemma_content_component_list_balanced(s: Seq<ContentComponent>)
    ensures
        balanced(each_events(s, content_component_fn())),
    decreases s.len(),
{
    reveal(each_events);
    if s.len() == 0 {
        lemma_balanced_empty();
    } else {
        lemma_content_component_list_balanced(s.drop_last());
        lemma_content_component_balanced(s.last());
        lemma_balanced_cat(each_events(s.drop_last(), content_component_fn()), content_component_events(s.last()));
    }
}

/// The attributes of `SegmentSequenceProperties` for `s`.
#[verifier::opaque]
pub open spec fn segment_sequence_properties_attrs(s: SegmentSequenceProperties) -> Attrs {
    u32_attr("cadence"@, s.cadence) + u32_attr("sapType"@, s.sap_type) + bool_attr("event"@, s.event) + opt_attr("alignment"@, s.alignment)
}

/// What lies inside `SegmentSequenceProperties` for `s`.
#[verifier::opaque]
pub open spec fn segment_sequence_properties_inner(s: SegmentSequenceProperties) -> Seq<WriteEventV> {
    seq![]
}

/// The events that write `s` as `SegmentSequenceProperties`.
pub open spec fn segment_sequence_properties_events(s: SegmentSequenceProperties) -> Seq<WriteEventV> {
    element_events("SegmentSequenceProperties"@, seq![], segment_sequence_properties_attrs(s), segment_sequence_properties_inner(s))
}

pub open spec fn segment_sequence_properties_fn() -> spec_fn(SegmentSequenceProperties) -> Seq<WriteEventV> {
    |s: SegmentSequenceProperties| segment_sequence_properties_events(s)
}

pub proof fn lemma_segment_sequence_properties_balanced(s: SegmentSequenceProperties)
    ensures
        balanced(segment_sequence_properties_events(s)),
{
    reveal(segment_sequence_properties_inner);
    lemma_balanced_empty();
    lemma_element_balanced("SegmentSequenceProperties"@, seq![], segment_sequence_properties_attrs(s), segment_sequence_properties_inner(s));
}

pub proof fn lemma_segment_sequence_properties_list_balanced(s: Seq<SegmentSequenceProperties>)
    ensures
        balanced(each_events(s, segment_sequence_properties_fn())),
    decreases s.len(),
{
    reveal(each_events);
    if s.len() == 0 {
        lemma_balanced_empty();
    } else {
        lemma_segment_sequence_properties_list_balanced(s.drop_last());
        lemma_segment_sequence_properties_balanced(s.last());
        lemma_balanced_cat(each_events(s.drop_last(), segment_sequence_properties_fn()), segment_sequence_properties_events(s.last()));
    }
}

/// The attributes of `Certurl` for `c`.
#[verifier::opaque]
pub open spec fn cert_url_attrs(c: CertUrl) -> Attrs {
    opt_attr("certType"@, c.cert_type)
}

/// What lies inside `Certurl` for `c`.
#[verifier::opaque]
pub open spec fn cert_url_inner(c: CertUrl) -> Seq<WriteEventV> {
    seq![WriteEventV::Characters(c.url@)]
}

/// The events that write `c` as `Certurl`.
pub open spec fn cert_url_events(c: CertUrl) -> Seq<WriteEventV> {
    element_events("Certurl"@, seq![], cert_url_attrs(c), cert_url_inner(c))
}

pub open spec fn cert_url_fn() -> spec_fn(CertUrl) -> Seq<WriteEventV> {
    |c: CertUrl| cert_url_events(c)
}

pub proof fn lemma_cert_url_balanced(c: CertUrl)
    ensures
        balanced(cert_url_events(c)),
{
    reveal(cert_url_inner);
    lemma_characters_balanced(c.url@);
    lemma_element_balanced("Certurl"@, seq![], cert_url_attrs(c), cert_url_inner(c));
}

pub proof fn lemma_cert_url_list_balanced(s: Seq<CertUrl>)
    ensures
        balanced(each_events(s, cert_url_fn())),
    decreases s.len(),
{
    reveal(each_events);
    if s.len() == 0 {
        lemma_balanced_empty();
    } else {
        lemma_cert_url_list_balanced(s.drop_last());
        lemma_cert_url_balanced(s.last());
        lemma_balanced_cat(each_events(s.drop_last(), cert_url_fn()), cert_url_events(s.last()));
    }
}

/// The attributes of `ContentProtection` for `c`.
#[verifier::opaque]
pub open spec fn content_protection_attrs(c: ContentProtection) -> Attrs {
    seq![("schemeIdUri"@, c.scheme_id_uri@)]
        + opt_attr("value"@, c.value)
        + opt_attr("cenc:default_KID"@, c.default_kid)
        + opt_attr("robustness"@, c.robustness)
        + opt_attr("ref"@, c.ref_)
        + opt_attr("refId"@, c.ref_id)
}

/// What lies inside `ContentProtection` for `c`.
#[verifier::opaque]
pub open spec fn content_protection_inner(c: ContentProtection) -> Seq<WriteEventV> {
    text_element_events("cenc:pssh"@, c.pssh)
        + text_element_events("Laurl"@, c.laurl)
        + text_element_events("pro"@, c.pro)
        + each_events(c.certurls@, cert_url_fn())
}

/// The events that write `c` as `ContentProtection`.
pub open spec fn content_protection_events(c: ContentProtection) -> Seq<WriteEventV> {
    element_events("ContentProtection"@, seq![], content_protection_attrs(c), content_protection_inner(c))
}

pub open spec fn content_protection_fn() -> spec_fn(ContentProtection) -> Seq<WriteEventV> {
    |c: ContentProtection| content_protection_events(c)
}

pub proof fn lemma_content_protection_balanced(c: ContentProtection)
    ensures
        balanced(content_protection_events(c)),
{
    reveal(content_protection_inner);
    lemma_text_element_balanced("cenc:pssh"@, c.pssh);
    lemma_text_element_balanced("Laurl"@, c.laurl);
    lemma_text_element_balanced("pro"@, c.pro);
    lemma_cert_url_list_balanced(c.certurls@);
    lemma_balanced_cat(text_element_events("cenc:pssh"@, c.pssh), text_element_events("Laurl"@, c.laurl));
    lemma_balanced_cat(text_element_events("cenc:pssh"@, c.pssh) + text_element_events("Laurl"@, c.laurl), text_element_events("pro"@, c.pro));
    lemma_balanced_cat(text_element_events("cenc:pssh"@, c.pssh)
        + text_element_events("Laurl"@, c.laurl)
        + text_element_events("pro"@, c.pro), each_events(c.certurls@, cert_url_fn()));
    lemma_element_balanced("ContentProtection"@, seq![], content_protection_attrs(c), content_protection_inner(c));
}

pub proof fn lemma_content_protection_list_balanced(s: Seq<ContentProtection>)
    ensures
        balanced(each_events(s, content_protection_fn())),
    decreases s.len(),
{
    reveal(each_events);
    if s.len() == 0 {
        lemma_balanced_empty();
    } else {
        lemma_content_protection_list_balanced(s.drop_last());
        lemma_content_protection_balanced(s.last());
        lemma_balanced_cat(each_events(s.drop_last(), content_protection_fn()), content_protection_events(s.last()));
    }
}

/// The attributes of `S` for `e`.
#[verifier::opaque]
pub open spec fn timeline_entry_attrs(e: TimelineEntry) -> Attrs {
    seq![("d"@, decimal(e.d as nat))] + u64_attr("t"@, e.t) + nonzero_signed_attr("r"@, e.r) + u64_attr("k"@, e.k)
}

/// What lies inside `S` for `e`.
#[verifier::opaque]
pub open spec fn timeline_entry_inner(e: TimelineEntry) -> Seq<WriteEventV> {
    seq![]
}

/// The events that write `e` as `S`.
pub open spec fn timeline_entry_events(e: TimelineEntry) -> Seq<WriteEventV> {
    element_events("S"@, seq![], timeline_entry_attrs(e), timeline_entry_inner(e))
}

pub open spec fn timeline_entry_fn() -> spec_fn(TimelineEntry) -> Seq<WriteEventV> {
    |e: TimelineEntry| timeline_entry_events(e)
}

pub proof fn lemma_timeline_entry_balanced(e: TimelineEntry)
    ensures
        balanced(timeline_entry_events(e)),
{
    reveal(timeline_entry_inner);
    lemma_balanced_empty();
    lemma_element_balanced("S"@, seq![], timeline_entry_attrs(e), timeline_entry_inner(e));
}

pub proof fn lemma_timeline_entry_list_balanced(s: Seq<TimelineEntry>)
    ensures
        balanced(each_events(s, timeline_entry_fn())),
    decreases s.len(),
{
    reveal(each_events);
    if s.len() == 0 {
        lemma_balanced_empty();
    } else {
        lemma_timeline_entry_list_balanced(s.drop_last());
        lemma_timeline_entry_balanced(s.last());
        lemma_balanced_cat(each_events(s.drop_last(), timeline_entry_fn()), timeline_entry_events(s.last()));
    }
}

/// The attributes of `SegmentURL` for `u`.
#[verifier::opaque]
pub open spec fn segment_url_attrs(u: SegmentUrl) -> Attrs {
    opt_attr("media"@, u.media) + opt_attr("mediaRange"@, u.media_range) + opt_attr("indexRange"@, u.index_range)
}

/// What lies inside `SegmentURL` for `u`.
#[verifier::opaque]
pub open spec fn segment_url_inner(u: SegmentUrl) -> Seq<WriteEventV> {
    seq![]
}

/// The events that write `u` as `SegmentURL`.
pub open spec fn segment_url_events(u: SegmentUrl) -> Seq<WriteEventV> {
    element_events("SegmentURL"@, seq![], segment_url_attrs(u), segment_url_inner(u))
}

pub open spec fn segment_url_fn() -> spec_fn(SegmentUrl) -> Seq<WriteEventV> {
    |u: SegmentUrl| segment_url_events(u)
}

pub proof fn lemma_segment_url_balanced(u: SegmentUrl)
    ensures
        balanced(segment_url_events(u)),
{
    reveal(segment_url_inner);
    lemma_balanced_empty();
    lemma_element_balanced("SegmentURL"@, seq![], segment_url_attrs(u), segment_url_inner(u));
}

pub proof fn lemma_segment_url_list_balanced(s: Seq<SegmentUrl>)
    ensures
        balanced(each_events(s, segment_url_fn())),
    decreases s.len(),
{
    reveal(each_events);
    if s.len() == 0 {
        lemma_balanced_empty();
    } else {
        lemma_segment_url_list_balanced(s.drop_last());
        lemma_segment_url_balanced(s.last());
        lemma_balanced_cat(each_events(s.drop_last(), segment_url_fn()), segment_url_events(s.last()));
    }
}

/// The attributes of `SegmentBase` for `b`.
#[verifier::opaque]
pub open spec fn segment_base_attrs(b: SegmentBase) -> Attrs {
    seq![("timescale"@, decimal(b.timescale as nat))]
        + opt_attr("indexRange"@, b.index_range)
        + bool_attr("indexRangeExact"@, b.index_range_exact)
        + nonzero_attr("presentationTimeOffset"@, b.presentation_time_offset)
        + opt_attr("availabilityTimeOffset"@, b.availability_time_offset)
        + bool_attr("availabilityTimeComplete"@, b.availability_time_complete)
}

/// What lies inside `SegmentBase` for `b`.
#[verifier::opaque]
pub open spec fn segment_base_inner(b: SegmentBase) -> Seq<WriteEventV> {
    pair_events("Initialization"@, b.initialization_source_url, b.initialization_range)
        + pair_events("RepresentationIndex"@, b.representation_index_source_url, b.representation_index_range)
        + pair_events("BitstreamSwitching"@, b.bitstream_switching_source_url, b.bitstream_switching_range)
}

/// The events that write `b` as `SegmentBase`.
pub open spec fn segment_base_events(b: SegmentBase) -> Seq<WriteEventV> {
    element_events("SegmentBase"@, seq![], segment_base_attrs(b), segment_base_inner(b))
}

pub open spec fn segment_base_fn() -> spec_fn(SegmentBase) -> Seq<WriteEventV> {
    |b: SegmentBase| segment_base_events(b)
}

pub proof fn lemma_segment_base_balanced(b: SegmentBase)
    ensures
        balanced(segment_base_events(b)),
{
    reveal(segment_base_inner);
    lemma_pair_balanced("Initialization"@, b.initialization_source_url, b.initialization_range);
    lemma_pair_balanced("RepresentationIndex"@, b.representation_index_source_url, b.representation_index_range);
    lemma_pair_balanced("BitstreamSwitching"@, b.bitstream_switching_source_url, b.bitstream_switching_range);
    lemma_balanced_cat(pair_events("Initialization"@,
        b.initialization_source_url,
        b.initialization_range),
        pair_events("RepresentationIndex"@,
        b.representation_index_source_url,
        b.representation_index_range));
    lemma_balanced_cat(pair_events("Initialization"@,
        b.initialization_source_url,
        b.initialization_range) + pair_events("RepresentationIndex"@,
        b.representation_index_source_url,
        b.representation_index_range),
        pair_events("BitstreamSwitching"@,
        b.bitstream_switching_source_url,
        b.bitstream_switching_range));
    lemma_element_balanced("SegmentBase"@, seq![], segment_base_attrs(b), segment_base_inner(b));
}

/// The attributes of `SegmentList` for `l`.
#[verifier::opaque]
pub open spec fn segment_list_attrs(l: SegmentList) -> Attrs {
    seq![("timescale"@, decimal(l.timescale as nat))]
        + seq![("startNumber"@, decimal(l.start_number as nat))]
        + opt_attr("xlink:href"@, l.xlink_href)
        + opt_attr("xlink:actuate"@, l.xlink_actuate)
        + u64_attr("endNumber"@, l.end_number)
        + u64_attr("duration"@, l.duration)
        + nonzero_attr("presentationTimeOffset"@, l.presentation_time_offset)
        + opt_attr("availabilityTimeOffset"@, l.availability_time_offset)
        + bool_attr("availabilityTimeComplete"@, l.availability_time_complete)
}

/// What lies inside `SegmentList` for `l`.
#[verifier::opaque]
pub open spec fn segment_list_inner(l: SegmentList) -> Seq<WriteEventV> {
    pair_events("Initialization"@, l.initialization_source_url, l.initialization_range)
        + pair_events("RepresentationIndex"@, l.representation_index_source_url, l.representation_index_range)
        + pair_events("BitstreamSwitching"@, l.bitstream_switching_source_url, l.bitstream_switching_range)
        + opt_timeline_events(l.segment_timeline)
        + each_events(l.segment_urls@, segment_url_fn())
}

/// The events that write `l` as `SegmentList`.
pub open spec fn segment_list_events(l: SegmentList) -> Seq<WriteEventV> {
    element_events("SegmentList"@, seq![], segment_list_attrs(l), segment_list_inner(l))
}

pub open spec fn segment_list_fn() -> spec_fn(SegmentList) -> Seq<WriteEventV> {
    |l: SegmentList| segment_list_events(l)
}

pub proof fn lemma_segment_list_balanced(l: SegmentList)
    ensures
        balanced(segment_list_events(l)),
{
    reveal(segment_list_inner);
    lemma_pair_balanced("Initialization"@, l.initialization_source_url, l.initialization_range);
    lemma_pair_balanced("RepresentationIndex"@, l.representation_index_source_url, l.representation_index_range);
    lemma_pair_balanced("BitstreamSwitching"@, l.bitstream_switching_source_url, l.bitstream_switching_range);
    lemma_opt_timeline_balanced(l.segment_timeline);
    lemma_segment_url_list_balanced(l.segment_urls@);
    lemma_balanced_cat(pair_events("Initialization"@,
        l.initialization_source_url,
        l.initialization_range),
        pair_events("RepresentationIndex"@,
        l.representation_index_source_url,
        l.representation_index_range));
    lemma_balanced_cat(pair_events("Initialization"@,
        l.initialization_source_url,
        l.initialization_range) + pair_events("RepresentationIndex"@,
        l.representation_index_source_url,
        l.representation_index_range),
        pair_events("BitstreamSwitching"@,
        l.bitstream_switching_source_url,
        l.bitstream_switching_range));
    lemma_balanced_cat(pair_events("Initialization"@, l.initialization_source_url, l.initialization_range)
        + pair_events("RepresentationIndex"@, l.representation_index_source_url, l.representation_index_range)
        + pair_events("BitstreamSwitching"@, l.bitstream_switching_source_url, l.bitstream_switching_range), opt_timeline_events(l.segment_timeline));
    lemma_balanced_cat(pair_events("Initialization"@, l.initialization_source_url, l.initialization_range)
        + pair_events("RepresentationIndex"@, l.representation_index_source_url, l.representation_index_range)
        + pair_events("BitstreamSwitching"@, l.bitstream_switching_source_url, l.bitstream_switching_range)
        + opt_timeline_events(l.segment_timeline), each_events(l.segment_urls@, segment_url_fn()));
    lemma_element_balanced("SegmentList"@, seq![], segment_list_attrs(l), segment_list_inner(l));
}

/// The attributes of `SegmentTemplate` for `t`.
#[verifier::opaque]
pub open spec fn segment_template_attrs(t: SegmentTemplate) -> Attrs {
    seq![("timescale"@, decimal(t.timescale as nat))]
        + seq![("startNumber"@, decimal(t.start_number as nat))]
        + opt_attr("media"@, t.media)
        + opt_attr("initialization"@, t.initialization)
        + opt_attr("index"@, t.index)
        + u64_attr("duration"@, t.duration)
        + u64_attr("endNumber"@, t.end_number)
        + nonzero_attr("presentationTimeOffset"@, t.presentation_time_offset)
        + opt_attr("availabilityTimeOffset"@, t.availability_time_offset)
        + bool_attr("availabilityTimeComplete"@, t.availability_time_complete)
}

/// What lies inside `SegmentTemplate` for `t`.
#[verifier::opaque]
pub open spec fn segment_template_inner(t: SegmentTemplate) -> Seq<WriteEventV> {
    pair_events("BitstreamSwitching"@, t.bitstream_switching_source_url, t.bitstream_switching_range) + opt_timeline_events(t.segment_timeline)
}

/// The events that write `t` as `SegmentTemplate`.
pub open spec fn segment_template_events(t: SegmentTemplate) -> Seq<WriteEventV> {
    element_events("SegmentTemplate"@, seq![], segment_template_attrs(t), segment_template_inner(t))
}

pub open spec fn segment_template_fn() -> spec_fn(SegmentTemplate) -> Seq<WriteEventV> {
    |t: SegmentTemplate| segment_template_events(t)
}

pub proof fn lemma_segment_template_balanced(t: SegmentTemplate)
    ensures
        balanced(segment_template_events(t)),
{
    reveal(segment_template_inner);
    lemma_pair_balanced("BitstreamSwitching"@, t.bitstream_switching_source_url, t.bitstream_switching_range);
    lemma_opt_timeline_balanced(t.segment_timeline);
    lemma_balanced_cat(pair_events("BitstreamSwitching"@,
        t.bitstream_switching_source_url,
        t.bitstream_switching_range),
        opt_timeline_events(t.segment_timeline));
    lemma_element_balanced("SegmentTemplate"@, seq![], segment_template_attrs(t), segment_template_inner(t));
}

/// The attributes of `Preselection` for `p`.
#[verifier::opaque]
pub open spec fn preselection_attrs(p: Preselection) -> Attrs {
    opt_attr("id"@, p.id)
        + opt_attr("preselectionComponents"@, p.preselection_components)
        + opt_attr("lang"@, p.lang)
        + opt_attr("tag"@, p.tag)
        + u32_attr("order"@, p.order)
        + opt_attr("contentType"@, p.content_type)
        + opt_attr("mimeType"@, p.mime_type)
        + opt_attr("codecs"@, p.codecs)
}

/// What lies inside `Preselection` for `p`.
#[verifier::opaque]
pub open spec fn preselection_inner(p: Preselection) -> Seq<WriteEventV> {
    each_events(p.accessibilities@, descriptor_fn("Accessibility"@))
        + each_events(p.roles@, descriptor_fn("Role"@))
        + each_events(p.viewpoints@, descriptor_fn("Viewpoint"@))
        + each_events(p.labels@, label_fn("Label"@))
        + each_events(p.essential_properties@, descriptor_fn("EssentialProperty"@))
        + each_events(p.supplemental_properties@, descriptor_fn("SupplementalProperty"@))
}

/// The events that write `p` as `Preselection`.
pub open spec fn preselection_events(p: Preselection) -> Seq<WriteEventV> {
    element_events("Preselection"@, seq![], preselection_attrs(p), preselection_inner(p))
}

pub open spec fn preselection_fn() -> spec_fn(Preselection) -> Seq<WriteEventV> {
    |p: Preselection| preselection_events(p)
}

pub proof fn lemma_preselection_balanced(p: Preselection)
    ensures
        balanced(preselection_events(p)),
{
    reveal(preselection_inner);
    lemma_descriptor_list_balanced("Accessibility"@, p.accessibilities@);
    lemma_descriptor_list_balanced("Role"@, p.roles@);
    lemma_descriptor_list_balanced("Viewpoint"@, p.viewpoints@);
    lemma_label_list_balanced("Label"@, p.labels@);
    lemma_descriptor_list_balanced("EssentialProperty"@, p.essential_properties@);
    lemma_descriptor_list_balanced("SupplementalProperty"@, p.supplemental_properties@);
    lemma_balanced_cat(each_events(p.accessibilities@, descriptor_fn("Accessibility"@)), each_events(p.roles@, descriptor_fn("Role"@)));
    lemma_balanced_cat(each_events(p.accessibilities@,
        descriptor_fn("Accessibility"@)) + each_events(p.roles@,
        descriptor_fn("Role"@)),
        each_events(p.viewpoints@,
        descriptor_fn("Viewpoint"@)));
    lemma_balanced_cat(each_events(p.accessibilities@, descriptor_fn("Accessibility"@))
        + each_events(p.roles@, descriptor_fn("Role"@))
        + each_events(p.viewpoints@, descriptor_fn("Viewpoint"@)), each_events(p.labels@, label_fn("Label"@)));
    lemma_balanced_cat(each_events(p.accessibilities@, descriptor_fn("Accessibility"@))
        + each_events(p.roles@, descriptor_fn("Role"@))
        + each_events(p.viewpoints@, descriptor_fn("Viewpoint"@))
        + each_events(p.labels@, label_fn("Label"@)), each_events(p.essential_properties@, descriptor_fn("EssentialProperty"@)));
    lemma_balanced_cat(each_events(p.accessibilities@, descriptor_fn("Accessibility"@))
        + each_events(p.roles@, descriptor_fn("Role"@))
        + each_events(p.viewpoints@, descriptor_fn("Viewpoint"@))
        + each_events(p.labels@, label_fn("Label"@))
        + each_events(p.essential_properties@, descriptor_fn("EssentialProperty"@)), each_events(p.supplemental_properties@, descriptor_fn("SupplementalProperty"@)));
    lemma_element_balanced("Preselection"@, seq![], preselection_attrs(p), preselection_inner(p));
}

pub proof fn lemma_preselection_list_balanced(s: Seq<Preselection>)
    ensures
        balanced(each_events(s, preselection_fn())),
    decreases s.len(),
{
    reveal(each_events);
    if s.len() == 0 {
        lemma_balanced_empty();
    } else {
        lemma_preselection_list_balanced(s.drop_last());
        lemma_preselection_balanced(s.last());
        lemma_balanced_cat(each_events(s.drop_last(), preselection_fn()), preselection_events(s.last()));
    }
}

/// The attributes of `Subset` for `s`.
#[verifier::opaque]
pub open spec fn subset_attrs(s: Subset) -> Attrs {
    seq![("contains"@, s.contains@)] + opt_attr("id"@, s.id)
}

/// What lies inside `Subset` for `s`.
#[verifier::opaque]
pub open spec fn subset_inner(s: Subset) -> Seq<WriteEventV> {
    seq![]
}

/// The events that write `s` as `Subset`.
pub open spec fn subset_events(s: Subset) -> Seq<WriteEventV> {
    element_events("Subset"@, seq![], subset_attrs(s), subset_inner(s))
}

pub open spec fn subset_fn() -> spec_fn(Subset) -> Seq<WriteEventV> {
    |s: Subset| subset_events(s)
}

pub proof fn lemma_subset_balanced(s: Subset)
    ensures
        balanced(subset_events(s)),
{
    reveal(subset_inner);
    lemma_balanced_empty();
    lemma_element_balanced("Subset"@, seq![], subset_attrs(s), subset_inner(s));
}

pub proof fn lemma_subset_list_balanced(s: Seq<Subset>)
    ensures
        balanced(each_events(s, subset_fn())),
    decreases s.len(),
{
    reveal(each_events);
    if s.len() == 0 {
        lemma_balanced_empty();
    } else {
        lemma_subset_list_balanced(s.drop_last());
        lemma_subset_balanced(s.last());
        lemma_balanced_cat(each_events(s.drop_last(), subset_fn()), subset_events(s.last()));
    }
}

/// The attributes of `SubRepresentation` for `s`.
#[verifier::opaque]
pub open spec fn sub_representation_attrs(s: SubRepresentation) -> Attrs {
    u32_attr("level"@, s.level)
        + u64_attr("bandwidth"@, s.bandwidth)
        + opt_attr("contentComponent"@, s.content_component)
        + opt_attr("codecs"@, s.codecs)
        + opt_attr("dependencyLevel"@, s.dependency_level)
        + u32_attr("width"@, s.width)
        + u32_attr("height"@, s.height)
        + opt_attr("mimeType"@, s.mime_type)
        + opt_attr("frameRate"@, s.frame_rate)
        + u32_attr("audioSamplingRate"@, s.audio_sampling_rate)
        + opt_attr("sar"@, s.sar)
        + opt_attr("scanType"@, s.scan_type)
        + opt_attr("profiles"@, s.profiles)
        + u32_attr("startWithSAP"@, s.start_with_sap)
        + opt_attr("maxPlayoutRate"@, s.max_playout_rate)
        + bool_attr("codingDependency"@, s.coding_dependency)
        + opt_attr("maximumSAPPeriod"@, s.maximum_sap_period)
        + opt_attr("segmentProfiles"@, s.segment_profiles)
}

/// What lies inside `SubRepresentation` for `s`.
#[verifier::opaque]
pub open spec fn sub_representation_inner(s: SubRepresentation) -> Seq<WriteEventV> {
    each_events(s.content_protections@, content_protection_fn())
        + each_events(s.audio_channel_configurations@, descriptor_fn("AudioChannelConfiguration"@))
        + each_events(s.frame_packings@, descriptor_fn("FramePacking"@))
        + each_events(s.inband_event_streams@, descriptor_fn("InbandEventStream"@))
        + each_events(s.essential_properties@, descriptor_fn("EssentialProperty"@))
        + each_events(s.supplemental_properties@, descriptor_fn("SupplementalProperty"@))
        + each_events(s.segment_sequence_properties@, segment_sequence_properties_fn())
}

/// The events that write `s` as `SubRepresentation`.
pub open spec fn sub_representation_events(s: SubRepresentation) -> Seq<WriteEventV> {
    element_events("SubRepresentation"@, seq![], sub_representation_attrs(s), sub_representation_inner(s))
}

pub open spec fn sub_representation_fn() -> spec_fn(SubRepresentation) -> Seq<WriteEventV> {
    |s: SubRepresentation| sub_representation_events(s)
}

pub proof fn lemma_sub_representation_balanced(s: SubRepresentation)
    ensures
        balanced(sub_representation_events(s)),
{
    reveal(sub_representation_inner);
    lemma_content_protection_list_balanced(s.content_protections@);
    lemma_descriptor_list_balanced("AudioChannelConfiguration"@, s.audio_channel_configurations@);
    lemma_descriptor_list_balanced("FramePacking"@, s.frame_packings@);
    lemma_descriptor_list_balanced("InbandEventStream"@, s.inband_event_streams@);
    lemma_descriptor_list_balanced("EssentialProperty"@, s.essential_properties@);
    lemma_descriptor_list_balanced("SupplementalProperty"@, s.supplemental_properties@);
    lemma_segment_sequence_properties_list_balanced(s.segment_sequence_properties@);
    lemma_balanced_cat(each_events(s.content_protections@,
        content_protection_fn()),
        each_events(s.audio_channel_configurations@,
        descriptor_fn("AudioChannelConfiguration"@)));
    lemma_balanced_cat(each_events(s.content_protections@,
        content_protection_fn()) + each_events(s.audio_channel_configurations@,
        descriptor_fn("AudioChannelConfiguration"@)),
        each_events(s.frame_packings@,
        descriptor_fn("FramePacking"@)));
    lemma_balanced_cat(each_events(s.content_protections@, content_protection_fn())
        + each_events(s.audio_channel_configurations@, descriptor_fn("AudioChannelConfiguration"@))
        + each_events(s.frame_packings@, descriptor_fn("FramePacking"@)), each_events(s.inband_event_streams@, descriptor_fn("InbandEventStream"@)));
    lemma_balanced_cat(each_events(s.content_protections@, content_protection_fn())
        + each_events(s.audio_channel_configurations@, descriptor_fn("AudioChannelConfiguration"@))
        + each_events(s.frame_packings@, descriptor_fn("FramePacking"@))
        + each_events(s.inband_event_streams@, descriptor_fn("InbandEventStream"@)), each_events(s.essential_properties@, descriptor_fn("EssentialProperty"@)));
    lemma_balanced_cat(each_events(s.content_protections@, content_protection_fn())
        + each_events(s.audio_channel_configurations@, descriptor_fn("AudioChannelConfiguration"@))
        + each_events(s.frame_packings@, descriptor_fn("FramePacking"@))
        + each_events(s.inband_event_streams@, descriptor_fn("InbandEventStream"@))
        + each_events(s.essential_properties@, descriptor_fn("EssentialProperty"@)), each_events(s.supplemental_properties@, descriptor_fn("SupplementalProperty"@)));
    lemma_balanced_cat(each_events(s.content_protections@, content_protection_fn())
        + each_events(s.audio_channel_configurations@, descriptor_fn("AudioChannelConfiguration"@))
        + each_events(s.frame_packings@, descriptor_fn("FramePacking"@))
        + each_events(s.inband_event_streams@, descriptor_fn("InbandEventStream"@))
        + each_events(s.essential_properties@, descriptor_fn("EssentialProperty"@))
        + each_events(s.supplemental_properties@, descriptor_fn("SupplementalProperty"@)), each_events(s.segment_sequence_properties@, segment_sequence_properties_fn()));
    lemma_element_balanced("SubRepresentation"@, seq![], sub_representation_attrs(s), sub_representation_inner(s));
}

pub proof fn lemma_sub_representation_list_balanced(s: Seq<SubRepresentation>)
    ensures
        balanced(each_events(s, sub_representation_fn())),
    decreases s.len(),
{
    reveal(each_events);
    if s.len() == 0 {
        lemma_balanced_empty();
    } else {
        lemma_sub_representation_list_balanced(s.drop_last());
        lemma_sub_representation_balanced(s.last());
        lemma_balanced_cat(each_events(s.drop_last(), sub_representation_fn()), sub_representation_events(s.last()));
    }
}

/// The attributes of `Representation` for `r`.
#[verifier::opaque]
pub open spec fn representation_attrs(r: Representation) -> Attrs {
    seq![("id"@, r.id@)]
        + seq![("bandwidth"@, decimal(r.bandwidth as nat))]
        + opt_attr("mimeType"@, r.mime_type)
        + opt_attr("codecs"@, r.codecs)
        + u32_attr("width"@, r.width)
        + u32_attr("height"@, r.height)
        + opt_attr("frameRate"@, r.frame_rate)
        + u32_attr("audioSamplingRate"@, r.audio_sampling_rate)
        + opt_attr("sar"@, r.sar)
        + u32_attr("qualityRanking"@, r.quality_ranking)
        + opt_attr("dependencyId"@, r.dependency_id)
        + opt_attr("maxPlayoutRate"@, r.max_playout_rate)
        + opt_attr("scanType"@, r.scan_type)
        + u32_attr("startWithSAP"@, r.start_with_sap)
        + opt_attr("profiles"@, r.profiles)
        + opt_attr("scte214:supplementalCodecs"@, r.supplemental_codecs)
        + bool_attr("codingDependency"@, r.coding_dependency)
        + opt_attr("codecPrivateData"@, r.codec_private_data)
        + opt_attr("mediaStreamStructureId"@, r.media_stream_structure_id)
        + opt_attr("maximumSAPPeriod"@, r.maximum_sap_period)
        + opt_attr("segmentProfiles"@, r.segment_profiles)
}

/// What lies inside `Representation` for `r`.
#[verifier::opaque]
pub open spec fn representation_inner(r: Representation) -> Seq<WriteEventV> {
    each_events(r.base_urls@, base_url_fn())
        + each_events(r.audio_channel_configurations@, descriptor_fn("AudioChannelConfiguration"@))
        + each_events(r.essential_properties@, descriptor_fn("EssentialProperty"@))
        + each_events(r.supplemental_properties@, descriptor_fn("SupplementalProperty"@))
        + each_events(r.frame_packings@, descriptor_fn("FramePacking"@))
        + each_events(r.inband_event_streams@, descriptor_fn("InbandEventStream"@))
        + each_events(r.producer_reference_times@, producer_reference_time_fn())
        + each_events(r.segment_sequence_properties@, segment_sequence_properties_fn())
        + each_events(r.sub_representations@, sub_representation_fn())
        + each_events(r.content_protections@, content_protection_fn())
        + opt_events(r.segment_base, segment_base_fn())
        + opt_events(r.segment_list, segment_list_fn())
        + opt_events(r.segment_template, segment_template_fn())
}

/// The events that write `r` as `Representation`.
pub open spec fn representation_events(r: Representation) -> Seq<WriteEventV> {
    element_events("Representation"@, seq![], representation_attrs(r), representation_inner(r))
}

pub open spec fn representation_fn() -> spec_fn(Representation) -> Seq<WriteEventV> {
    |r: Representation| representation_events(r)
}

pub proof fn lemma_representation_balanced(r: Representation)
    ensures
        balanced(representation_events(r)),
{
    reveal(representation_inner);
    reveal(opt_events);
    lemma_base_url_list_balanced(r.base_urls@);
    lemma_descriptor_list_balanced("AudioChannelConfiguration"@, r.audio_channel_configurations@);
    lemma_descriptor_list_balanced("EssentialProperty"@, r.essential_properties@);
    lemma_descriptor_list_balanced("SupplementalProperty"@, r.supplemental_properties@);
    lemma_descriptor_list_balanced("FramePacking"@, r.frame_packings@);
    lemma_descriptor_list_balanced("InbandEventStream"@, r.inband_event_streams@);
    lemma_producer_reference_time_list_balanced(r.producer_reference_times@);
    lemma_segment_sequence_properties_list_balanced(r.segment_sequence_properties@);
    lemma_sub_representation_list_balanced(r.sub_representations@);
    lemma_content_protection_list_balanced(r.content_protections@);
    if let Some(x) = r.segment_base { lemma_segment_base_balanced(x); } else { lemma_balanced_empty(); }
    if let Some(x) = r.segment_list { lemma_segment_list_balanced(x); } else { lemma_balanced_empty(); }
    if let Some(x) = r.segment_template { lemma_segment_template_balanced(x); } else { lemma_balanced_empty(); }
    lemma_balanced_cat(each_events(r.base_urls@, base_url_fn()), each_events(r.audio_channel_configurations@, descriptor_fn("AudioChannelConfiguration"@)));
    lemma_balanced_cat(each_events(r.base_urls@,
        base_url_fn()) + each_events(r.audio_channel_configurations@,
        descriptor_fn("AudioChannelConfiguration"@)),
        each_events(r.essential_properties@,
        descriptor_fn("EssentialProperty"@)));
    lemma_balanced_cat(each_events(r.base_urls@, base_url_fn())
        + each_events(r.audio_channel_configurations@, descriptor_fn("AudioChannelConfiguration"@))
        + each_events(r.essential_properties@, descriptor_fn("EssentialProperty"@)), each_events(r.supplemental_properties@, descriptor_fn("SupplementalProperty"@)));
    lemma_balanced_cat(each_events(r.base_urls@, base_url_fn())
        + each_events(r.audio_channel_configurations@, descriptor_fn("AudioChannelConfiguration"@))
        + each_events(r.essential_properties@, descriptor_fn("EssentialProperty"@))
        + each_events(r.supplemental_properties@, descriptor_fn("SupplementalProperty"@)), each_events(r.frame_packings@, descriptor_fn("FramePacking"@)));
    lemma_balanced_cat(each_events(r.base_urls@, base_url_fn())
        + each_events(r.audio_channel_configurations@, descriptor_fn("AudioChannelConfiguration"@))
        + each_events(r.essential_properties@, descriptor_fn("EssentialProperty"@))
        + each_events(r.supplemental_properties@, descriptor_fn("SupplementalProperty"@))
        + each_events(r.frame_packings@, descriptor_fn("FramePacking"@)), each_events(r.inband_event_streams@, descriptor_fn("InbandEventStream"@)));
    lemma_balanced_cat(each_events(r.base_urls@, base_url_fn())
        + each_events(r.audio_channel_configurations@, descriptor_fn("AudioChannelConfiguration"@))
        + each_events(r.essential_properties@, descriptor_fn("EssentialProperty"@))
        + each_events(r.supplemental_properties@, descriptor_fn("SupplementalProperty"@))
        + each_events(r.frame_packings@, descriptor_fn("FramePacking"@))
        + each_events(r.inband_event_streams@, descriptor_fn("InbandEventStream"@)), each_events(r.producer_reference_times@, producer_reference_time_fn()));
    lemma_balanced_cat(each_events(r.base_urls@, base_url_fn())
        + each_events(r.audio_channel_configurations@, descriptor_fn("AudioChannelConfiguration"@))
        + each_events(r.essential_properties@, descriptor_fn("EssentialProperty"@))
        + each_events(r.supplemental_properties@, descriptor_fn("SupplementalProperty"@))
        + each_events(r.frame_packings@, descriptor_fn("FramePacking"@))
        + each_events(r.inband_event_streams@, descriptor_fn("InbandEventStream"@))
        + each_events(r.producer_reference_times@, producer_reference_time_fn()), each_events(r.segment_sequence_properties@, segment_sequence_properties_fn()));
    lemma_balanced_cat(each_events(r.base_urls@, base_url_fn())
        + each_events(r.audio_channel_configurations@, descriptor_fn("AudioChannelConfiguration"@))
        + each_events(r.essential_properties@, descriptor_fn("EssentialProperty"@))
        + each_events(r.supplemental_properties@, descriptor_fn("SupplementalProperty"@))
        + each_events(r.frame_packings@, descriptor_fn("FramePacking"@))
        + each_events(r.inband_event_streams@, descriptor_fn("InbandEventStream"@))
        + each_events(r.producer_reference_times@, producer_reference_time_fn())
        + each_events(r.segment_sequence_properties@, segment_sequence_properties_fn()), each_events(r.sub_representations@, sub_representation_fn()));
    lemma_balanced_cat(each_events(r.base_urls@, base_url_fn())
        + each_events(r.audio_channel_configurations@, descriptor_fn("AudioChannelConfiguration"@))
        + each_events(r.essential_properties@, descriptor_fn("EssentialProperty"@))
        + each_events(r.supplemental_properties@, descriptor_fn("SupplementalProperty"@))
        + each_events(r.frame_packings@, descriptor_fn("FramePacking"@))
        + each_events(r.inband_event_streams@, descriptor_fn("InbandEventStream"@))
        + each_events(r.producer_reference_times@, producer_reference_time_fn())
        + each_events(r.segment_sequence_properties@, segment_sequence_properties_fn())
        + each_events(r.sub_representations@, sub_representation_fn()), each_events(r.content_protections@, content_protection_fn()));
    lemma_balanced_cat(each_events(r.base_urls@, base_url_fn())
        + each_events(r.audio_channel_configurations@, descriptor_fn("AudioChannelConfiguration"@))
        + each_events(r.essential_properties@, descriptor_fn("EssentialProperty"@))
        + each_events(r.supplemental_properties@, descriptor_fn("SupplementalProperty"@))
        + each_events(r.frame_packings@, descriptor_fn("FramePacking"@))
        + each_events(r.inband_event_streams@, descriptor_fn("InbandEventStream"@))
        + each_events(r.producer_reference_times@, producer_reference_time_fn())
        + each_events(r.segment_sequence_properties@, segment_sequence_properties_fn())
        + each_events(r.sub_representations@, sub_representation_fn())
        + each_events(r.content_protections@, content_protection_fn()), opt_events(r.segment_base, segment_base_fn()));
    lemma_balanced_cat(each_events(r.base_urls@, base_url_fn())
        + each_events(r.audio_channel_configurations@, descriptor_fn("AudioChannelConfiguration"@))
        + each_events(r.essential_properties@, descriptor_fn("EssentialProperty"@))
        + each_events(r.supplemental_properties@, descriptor_fn("SupplementalProperty"@))
        + each_events(r.frame_packings@, descriptor_fn("FramePacking"@))
        + each_events(r.inband_event_streams@, descriptor_fn("InbandEventStream"@))
        + each_events(r.producer_reference_times@, producer_reference_time_fn())
        + each_events(r.segment_sequence_properties@, segment_sequence_properties_fn())
        + each_events(r.sub_representations@, sub_representation_fn())
        + each_events(r.content_protections@, content_protection_fn())
        + opt_events(r.segment_base, segment_base_fn()), opt_events(r.segment_list, segment_list_fn()));
    lemma_balanced_cat(each_events(r.base_urls@, base_url_fn())
        + each_events(r.audio_channel_configurations@, descriptor_fn("AudioChannelConfiguration"@))
        + each_events(r.essential_properties@, descriptor_fn("EssentialProperty"@))
        + each_events(r.supplemental_properties@, descriptor_fn("SupplementalProperty"@))
        + each_events(r.frame_packings@, descriptor_fn("FramePacking"@))
        + each_events(r.inband_event_streams@, descriptor_fn("InbandEventStream"@))
        + each_events(r.producer_reference_times@, producer_reference_time_fn())
        + each_events(r.segment_sequence_properties@, segment_sequence_properties_fn())
        + each_events(r.sub_representations@, sub_representation_fn())
        + each_events(r.content_protections@, content_protection_fn())
        + opt_events(r.segment_base, segment_base_fn())
        + opt_events(r.segment_list, segment_list_fn()), opt_events(r.segment_template, segment_template_fn()));
    lemma_element_balanced("Representation"@, seq![], representation_attrs(r), representation_inner(r));
}

pub proof fn lemma_representation_list_balanced(s: Seq<Representation>)
    ensures
        balanced(each_events(s, representation_fn())),
    decreases s.len(),
{
    reveal(each_events);
    if s.len() == 0 {
        lemma_balanced_empty();
    } else {
        lemma_representation_list_balanced(s.drop_last());
        lemma_representation_balanced(s.last());
        lemma_balanced_cat(each_events(s.drop_last(), representation_fn()), representation_events(s.last()));
    }
}

/// The attributes of `AdaptationSet` for `a`.
#[verifier::opaque]
pub open spec fn adaptation_set_attrs(a: AdaptationSet) -> Attrs {
    u32_attr("id"@, a.id)
        + opt_attr("mimeType"@, a.mime_type)
        + opt_attr("codecs"@, a.codecs)
        + content_type_attr("contentType"@, a.content_type)
        + opt_attr("lang"@, a.lang)
        + u32_attr("width"@, a.width)
        + u32_attr("height"@, a.height)
        + opt_attr("frameRate"@, a.frame_rate)
        + u32_attr("minWidth"@, a.min_width)
        + u32_attr("minHeight"@, a.min_height)
        + opt_attr("minFrameRate"@, a.min_frame_rate)
        + u64_attr("minBandwidth"@, a.min_bandwidth)
        + u64_attr("maxBandwidth"@, a.max_bandwidth)
        + u32_attr("maxWidth"@, a.max_width)
        + u32_attr("maxHeight"@, a.max_height)
        + opt_attr("maxFrameRate"@, a.max_frame_rate)
        + opt_attr("par"@, a.par)
        + u32_attr("audioSamplingRate"@, a.audio_sampling_rate)
        + opt_attr("sar"@, a.sar)
        + opt_attr("profiles"@, a.profiles)
        + opt_attr("scanType"@, a.scan_type)
        + u32_attr("startWithSAP"@, a.start_with_sap)
        + opt_attr("maxPlayoutRate"@, a.max_playout_rate)
        + u32_attr("selectionPriority"@, a.selection_priority)
        + opt_attr("scte214:supplementalCodecs"@, a.supplemental_codecs)
        + bool_attr("codingDependency"@, a.coding_dependency)
        + opt_attr("maximumSAPPeriod"@, a.maximum_sap_period)
        + opt_attr("segmentProfiles"@, a.segment_profiles)
        + true_attr("segmentAlignment"@, a.segment_alignment)
        + true_attr("subsegmentAlignment"@, a.subsegment_alignment)
        + bool_attr("bitstreamSwitching"@, a.bitstream_switching)
}

/// What lies inside `AdaptationSet` for `a`.
#[verifier::opaque]
pub open spec fn adaptation_set_inner(a: AdaptationSet) -> Seq<WriteEventV> {
    each_events(a.base_urls@, base_url_fn())
        + each_events(a.roles@, descriptor_fn("Role"@))
        + each_events(a.accessibilities@, descriptor_fn("Accessibility"@))
        + each_events(a.audio_channel_configurations@, descriptor_fn("AudioChannelConfiguration"@))
        + each_events(a.labels@, label_fn("Label"@))
        + each_events(a.group_labels@, label_fn("GroupLabel"@))
        + each_events(a.essential_properties@, descriptor_fn("EssentialProperty"@))
        + each_events(a.supplemental_properties@, descriptor_fn("SupplementalProperty"@))
        + each_events(a.viewpoints@, descriptor_fn("Viewpoint"@))
        + each_events(a.frame_packings@, descriptor_fn("FramePacking"@))
        + each_events(a.inband_event_streams@, descriptor_fn("InbandEventStream"@))
        + each_events(a.producer_reference_times@, producer_reference_time_fn())
        + each_events(a.content_components@, content_component_fn())
        + each_events(a.segment_sequence_properties@, segment_sequence_properties_fn())
        + each_events(a.event_streams@, event_stream_fn())
        + each_events(a.content_protections@, content_protection_fn())
        + opt_events(a.segment_base, segment_base_fn())
        + opt_events(a.segment_list, segment_list_fn())
        + opt_events(a.segment_template, segment_template_fn())
        + each_events(a.representations@, representation_fn())
}

/// The events that write `a` as `AdaptationSet`.
pub open spec fn adaptation_set_events(a: AdaptationSet) -> Seq<WriteEventV> {
    element_events("AdaptationSet"@, seq![], adaptation_set_attrs(a), adaptation_set_inner(a))
}

pub open spec fn adaptation_set_fn() -> spec_fn(AdaptationSet) -> Seq<WriteEventV> {
    |a: AdaptationSet| adaptation_set_events(a)
}

pub proof fn lemma_adaptation_set_balanced(a: AdaptationSet)
    ensures
        balanced(adaptation_set_events(a)),
{
    reveal(adaptation_set_inner);
    reveal(opt_events);
    lemma_base_url_list_balanced(a.base_urls@);
    lemma_descriptor_list_balanced("Role"@, a.roles@);
    lemma_descriptor_list_balanced("Accessibility"@, a.accessibilities@);
    lemma_descriptor_list_balanced("AudioChannelConfiguration"@, a.audio_channel_configurations@);
    lemma_label_list_balanced("Label"@, a.labels@);
    lemma_label_list_balanced("GroupLabel"@, a.group_labels@);
    lemma_descriptor_list_balanced("EssentialProperty"@, a.essential_properties@);
    lemma_descriptor_list_balanced("SupplementalProperty"@, a.supplemental_properties@);
    lemma_descriptor_list_balanced("Viewpoint"@, a.viewpoints@);
    lemma_descriptor_list_balanced("FramePacking"@, a.frame_packings@);
    lemma_descriptor_list_balanced("InbandEventStream"@, a.inband_event_streams@);
    lemma_producer_reference_time_list_balanced(a.producer_reference_times@);
    lemma_content_component_list_balanced(a.content_components@);
    lemma_segment_sequence_properties_list_balanced(a.segment_sequence_properties@);
    lemma_event_stream_list_balanced(a.event_streams@);
    lemma_content_protection_list_balanced(a.content_protections@);
    if let Some(x) = a.segment_base { lemma_segment_base_balanced(x); } else { lemma_balanced_empty(); }
    if let Some(x) = a.segment_list { lemma_segment_list_balanced(x); } else { lemma_balanced_empty(); }
    if let Some(x) = a.segment_template { lemma_segment_template_balanced(x); } else { lemma_balanced_empty(); }
    lemma_representation_list_balanced(a.representations@);
    lemma_balanced_cat(each_events(a.base_urls@, base_url_fn()), each_events(a.roles@, descriptor_fn("Role"@)));
    lemma_balanced_cat(each_events(a.base_urls@,
        base_url_fn()) + each_events(a.roles@,
        descriptor_fn("Role"@)),
        each_events(a.accessibilities@,
        descriptor_fn("Accessibility"@)));
    lemma_balanced_cat(each_events(a.base_urls@, base_url_fn())
        + each_events(a.roles@, descriptor_fn("Role"@))
        + each_events(a.accessibilities@, descriptor_fn("Accessibility"@)), each_events(a.audio_channel_configurations@, descriptor_fn("AudioChannelConfiguration"@)));
    lemma_balanced_cat(each_events(a.base_urls@, base_url_fn())
        + each_events(a.roles@, descriptor_fn("Role"@))
        + each_events(a.accessibilities@, descriptor_fn("Accessibility"@))
        + each_events(a.audio_channel_configurations@, descriptor_fn("AudioChannelConfiguration"@)), each_events(a.labels@, label_fn("Label"@)));
    lemma_balanced_cat(each_events(a.base_urls@, base_url_fn())
        + each_events(a.roles@, descriptor_fn("Role"@))
        + each_events(a.accessibilities@, descriptor_fn("Accessibility"@))
        + each_events(a.audio_channel_configurations@, descriptor_fn("AudioChannelConfiguration"@))
        + each_events(a.labels@, label_fn("Label"@)), each_events(a.group_labels@, label_fn("GroupLabel"@)));
    lemma_balanced_cat(each_events(a.base_urls@, base_url_fn())
        + each_events(a.roles@, descriptor_fn("Role"@))
        + each_events(a.accessibilities@, descriptor_fn("Accessibility"@))
        + each_events(a.audio_channel_configurations@, descriptor_fn("AudioChannelConfiguration"@))
        + each_events(a.labels@, label_fn("Label"@))
        + each_events(a.group_labels@, label_fn("GroupLabel"@)), each_events(a.essential_properties@, descriptor_fn("EssentialProperty"@)));
    lemma_balanced_cat(each_events(a.base_urls@, base_url_fn())
        + each_events(a.roles@, descriptor_fn("Role"@))
        + each_events(a.accessibilities@, descriptor_fn("Accessibility"@))
        + each_events(a.audio_channel_configurations@, descriptor_fn("AudioChannelConfiguration"@))
        + each_events(a.labels@, label_fn("Label"@))
        + each_events(a.group_labels@, label_fn("GroupLabel"@))
        + each_events(a.essential_properties@, descriptor_fn("EssentialProperty"@)), each_events(a.supplemental_properties@, descriptor_fn("SupplementalProperty"@)));
    lemma_balanced_cat(each_events(a.base_urls@, base_url_fn())
        + each_events(a.roles@, descriptor_fn("Role"@))
        + each_events(a.accessibilities@, descriptor_fn("Accessibility"@))
        + each_events(a.audio_channel_configurations@, descriptor_fn("AudioChannelConfiguration"@))
        + each_events(a.labels@, label_fn("Label"@))
        + each_events(a.group_labels@, label_fn("GroupLabel"@))
        + each_events(a.essential_properties@, descriptor_fn("EssentialProperty"@))
        + each_events(a.supplemental_properties@, descriptor_fn("SupplementalProperty"@)), each_events(a.viewpoints@, descriptor_fn("Viewpoint"@)));
    lemma_balanced_cat(each_events(a.base_urls@, base_url_fn())
        + each_events(a.roles@, descriptor_fn("Role"@))
        + each_events(a.accessibilities@, descriptor_fn("Accessibility"@))
        + each_events(a.audio_channel_configurations@, descriptor_fn("AudioChannelConfiguration"@))
        + each_events(a.labels@, label_fn("Label"@))
        + each_events(a.group_labels@, label_fn("GroupLabel"@))
        + each_events(a.essential_properties@, descriptor_fn("EssentialProperty"@))
        + each_events(a.supplemental_properties@, descriptor_fn("SupplementalProperty"@))
        + each_events(a.viewpoints@, descriptor_fn("Viewpoint"@)), each_events(a.frame_packings@, descriptor_fn("FramePacking"@)));
    lemma_balanced_cat(each_events(a.base_urls@, base_url_fn())
        + each_events(a.roles@, descriptor_fn("Role"@))
        + each_events(a.accessibilities@, descriptor_fn("Accessibility"@))
        + each_events(a.audio_channel_configurations@, descriptor_fn("AudioChannelConfiguration"@))
        + each_events(a.labels@, label_fn("Label"@))
        + each_events(a.group_labels@, label_fn("GroupLabel"@))
        + each_events(a.essential_properties@, descriptor_fn("EssentialProperty"@))
        + each_events(a.supplemental_properties@, descriptor_fn("SupplementalProperty"@))
        + each_events(a.viewpoints@, descriptor_fn("Viewpoint"@))
        + each_events(a.frame_packings@, descriptor_fn("FramePacking"@)), each_events(a.inband_event_streams@, descriptor_fn("InbandEventStream"@)));
    lemma_balanced_cat(each_events(a.base_urls@, base_url_fn())
        + each_events(a.roles@, descriptor_fn("Role"@))
        + each_events(a.accessibilities@, descriptor_fn("Accessibility"@))
        + each_events(a.audio_channel_configurations@, descriptor_fn("AudioChannelConfiguration"@))
        + each_events(a.labels@, label_fn("Label"@))
        + each_events(a.group_labels@, label_fn("GroupLabel"@))
        + each_events(a.essential_properties@, descriptor_fn("EssentialProperty"@))
        + each_events(a.supplemental_properties@, descriptor_fn("SupplementalProperty"@))
        + each_events(a.viewpoints@, descriptor_fn("Viewpoint"@))
        + each_events(a.frame_packings@, descriptor_fn("FramePacking"@))
        + each_events(a.inband_event_streams@, descriptor_fn("InbandEventStream"@)), each_events(a.producer_reference_times@, producer_reference_time_fn()));
    lemma_balanced_cat(each_events(a.base_urls@, base_url_fn())
        + each_events(a.roles@, descriptor_fn("Role"@))
        + each_events(a.accessibilities@, descriptor_fn("Accessibility"@))
        + each_events(a.audio_channel_configurations@, descriptor_fn("AudioChannelConfiguration"@))
        + each_events(a.labels@, label_fn("Label"@))
        + each_events(a.group_labels@, label_fn("GroupLabel"@))
        + each_events(a.essential_properties@, descriptor_fn("EssentialProperty"@))
        + each_events(a.supplemental_properties@, descriptor_fn("SupplementalProperty"@))
        + each_events(a.viewpoints@, descriptor_fn("Viewpoint"@))
        + each_events(a.frame_packings@, descriptor_fn("FramePacking"@))
        + each_events(a.inband_event_streams@, descriptor_fn("InbandEventStream"@))
        + each_events(a.producer_reference_times@, producer_reference_time_fn()), each_events(a.content_components@, content_component_fn()));
    lemma_balanced_cat(each_events(a.base_urls@, base_url_fn())
        + each_events(a.roles@, descriptor_fn("Role"@))
        + each_events(a.accessibilities@, descriptor_fn("Accessibility"@))
        + each_events(a.audio_channel_configurations@, descriptor_fn("AudioChannelConfiguration"@))
        + each_events(a.labels@, label_fn("Label"@))
        + each_events(a.group_labels@, label_fn("GroupLabel"@))
        + each_events(a.essential_properties@, descriptor_fn("EssentialProperty"@))
        + each_events(a.supplemental_properties@, descriptor_fn("SupplementalProperty"@))
        + each_events(a.viewpoints@, descriptor_fn("Viewpoint"@))
        + each_events(a.frame_packings@, descriptor_fn("FramePacking"@))
        + each_events(a.inband_event_streams@, descriptor_fn("InbandEventStream"@))
        + each_events(a.producer_reference_times@, producer_reference_time_fn())
        + each_events(a.content_components@, content_component_fn()), each_events(a.segment_sequence_properties@, segment_sequence_properties_fn()));
    lemma_balanced_cat(each_events(a.base_urls@, base_url_fn())
        + each_events(a.roles@, descriptor_fn("Role"@))
        + each_events(a.accessibilities@, descriptor_fn("Accessibility"@))
        + each_events(a.audio_channel_configurations@, descriptor_fn("AudioChannelConfiguration"@))
        + each_events(a.labels@, label_fn("Label"@))
        + each_events(a.group_labels@, label_fn("GroupLabel"@))
        + each_events(a.essential_properties@, descriptor_fn("EssentialProperty"@))
        + each_events(a.supplemental_properties@, descriptor_fn("SupplementalProperty"@))
        + each_events(a.viewpoints@, descriptor_fn("Viewpoint"@))
        + each_events(a.frame_packings@, descriptor_fn("FramePacking"@))
        + each_events(a.inband_event_streams@, descriptor_fn("InbandEventStream"@))
        + each_events(a.producer_reference_times@, producer_reference_time_fn())
        + each_events(a.content_components@, content_component_fn())
        + each_events(a.segment_sequence_properties@, segment_sequence_properties_fn()), each_events(a.event_streams@, event_stream_fn()));
    lemma_balanced_cat(each_events(a.base_urls@, base_url_fn())
        + each_events(a.roles@, descriptor_fn("Role"@))
        + each_events(a.accessibilities@, descriptor_fn("Accessibility"@))
        + each_events(a.audio_channel_configurations@, descriptor_fn("AudioChannelConfiguration"@))
        + each_events(a.labels@, label_fn("Label"@))
        + each_events(a.group_labels@, label_fn("GroupLabel"@))
        + each_events(a.essential_properties@, descriptor_fn("EssentialProperty"@))
        + each_events(a.supplemental_properties@, descriptor_fn("SupplementalProperty"@))
        + each_events(a.viewpoints@, descriptor_fn("Viewpoint"@))
        + each_events(a.frame_packings@, descriptor_fn("FramePacking"@))
        + each_events(a.inband_event_streams@, descriptor_fn("InbandEventStream"@))
        + each_events(a.producer_reference_times@, producer_reference_time_fn())
        + each_events(a.content_components@, content_component_fn())
        + each_events(a.segment_sequence_properties@, segment_sequence_properties_fn())
        + each_events(a.event_streams@, event_stream_fn()), each_events(a.content_protections@, content_protection_fn()));
    lemma_balanced_cat(each_events(a.base_urls@, base_url_fn())
        + each_events(a.roles@, descriptor_fn("Role"@))
        + each_events(a.accessibilities@, descriptor_fn("Accessibility"@))
        + each_events(a.audio_channel_configurations@, descriptor_fn("AudioChannelConfiguration"@))
        + each_events(a.labels@, label_fn("Label"@))
        + each_events(a.group_labels@, label_fn("GroupLabel"@))
        + each_events(a.essential_properties@, descriptor_fn("EssentialProperty"@))
        + each_events(a.supplemental_properties@, descriptor_fn("SupplementalProperty"@))
        + each_events(a.viewpoints@, descriptor_fn("Viewpoint"@))
        + each_events(a.frame_packings@, descriptor_fn("FramePacking"@))
        + each_events(a.inband_event_streams@, descriptor_fn("InbandEventStream"@))
        + each_events(a.producer_reference_times@, producer_reference_time_fn())
        + each_events(a.content_components@, content_component_fn())
        + each_events(a.segment_sequence_properties@, segment_sequence_properties_fn())
        + each_events(a.event_streams@, event_stream_fn())
        + each_events(a.content_protections@, content_protection_fn()), opt_events(a.segment_base, segment_base_fn()));
    lemma_balanced_cat(each_events(a.base_urls@, base_url_fn())
        + each_events(a.roles@, descriptor_fn("Role"@))
        + each_events(a.accessibilities@, descriptor_fn("Accessibility"@))
        + each_events(a.audio_channel_configurations@, descriptor_fn("AudioChannelConfiguration"@))
        + each_events(a.labels@, label_fn("Label"@))
        + each_events(a.group_labels@, label_fn("GroupLabel"@))
        + each_events(a.essential_properties@, descriptor_fn("EssentialProperty"@))
        + each_events(a.supplemental_properties@, descriptor_fn("SupplementalProperty"@))
        + each_events(a.viewpoints@, descriptor_fn("Viewpoint"@))
        + each_events(a.frame_packings@, descriptor_fn("FramePacking"@))
        + each_events(a.inband_event_streams@, descriptor_fn("InbandEventStream"@))
        + each_events(a.producer_reference_times@, producer_reference_time_fn())
        + each_events(a.content_components@, content_component_fn())
        + each_events(a.segment_sequence_properties@, segment_sequence_properties_fn())
        + each_events(a.event_streams@, event_stream_fn())
        + each_events(a.content_protections@, content_protection_fn())
        + opt_events(a.segment_base, segment_base_fn()), opt_events(a.segment_list, segment_list_fn()));
    lemma_balanced_cat(each_events(a.base_urls@, base_url_fn())
        + each_events(a.roles@, descriptor_fn("Role"@))
        + each_events(a.accessibilities@, descriptor_fn("Accessibility"@))
        + each_events(a.audio_channel_configurations@, descriptor_fn("AudioChannelConfiguration"@))
        + each_events(a.labels@, label_fn("Label"@))
        + each_events(a.group_labels@, label_fn("GroupLabel"@))
        + each_events(a.essential_properties@, descriptor_fn("EssentialProperty"@))
        + each_events(a.supplemental_properties@, descriptor_fn("SupplementalProperty"@))
        + each_events(a.viewpoints@, descriptor_fn("Viewpoint"@))
        + each_events(a.frame_packings@, descriptor_fn("FramePacking"@))
        + each_events(a.inband_event_streams@, descriptor_fn("InbandEventStream"@))
        + each_events(a.producer_reference_times@, producer_reference_time_fn())
        + each_events(a.content_components@, content_component_fn())
        + each_events(a.segment_sequence_properties@, segment_sequence_properties_fn())
        + each_events(a.event_streams@, event_stream_fn())
        + each_events(a.content_protections@, content_protection_fn())
        + opt_events(a.segment_base, segment_base_fn())
        + opt_events(a.segment_list, segment_list_fn()), opt_events(a.segment_template, segment_template_fn()));
    lemma_balanced_cat(each_events(a.base_urls@, base_url_fn())
        + each_events(a.roles@, descriptor_fn("Role"@))
        + each_events(a.accessibilities@, descriptor_fn("Accessibility"@))
        + each_events(a.audio_channel_configurations@, descriptor_fn("AudioChannelConfiguration"@))
        + each_events(a.labels@, label_fn("Label"@))
        + each_events(a.group_labels@, label_fn("GroupLabel"@))
        + each_events(a.essential_properties@, descriptor_fn("EssentialProperty"@))
        + each_events(a.supplemental_properties@, descriptor_fn("SupplementalProperty"@))
        + each_events(a.viewpoints@, descriptor_fn("Viewpoint"@))
        + each_events(a.frame_packings@, descriptor_fn("FramePacking"@))
        + each_events(a.inband_event_streams@, descriptor_fn("InbandEventStream"@))
        + each_events(a.producer_reference_times@, producer_reference_time_fn())
        + each_events(a.content_components@, content_component_fn())
        + each_events(a.segment_sequence_properties@, segment_sequence_properties_fn())
        + each_events(a.event_streams@, event_stream_fn())
        + each_events(a.content_protections@, content_protection_fn())
        + opt_events(a.segment_base, segment_base_fn())
        + opt_events(a.segment_list, segment_list_fn())
        + opt_events(a.segment_template, segment_template_fn()), each_events(a.representations@, representation_fn()));
    lemma_element_balanced("AdaptationSet"@, seq![], adaptation_set_attrs(a), adaptation_set_inner(a));
}

pub proof fn lemma_adaptation_set_list_balanced(s: Seq<AdaptationSet>)
    ensures
        balanced(each_events(s, adaptation_set_fn())),
    decreases s.len(),
{
    reveal(each_events);
    if s.len() == 0 {
        lemma_balanced_empty();
    } else {
        lemma_adaptation_set_list_balanced(s.drop_last());
        lemma_adaptation_set_balanced(s.last());
        lemma_balanced_cat(each_events(s.drop_last(), adaptation_set_fn()), adaptation_set_events(s.last()));
    }
}

/// The attributes of `Period` for `p`.
#[verifier::opaque]
pub open spec fn period_attrs(p: Period) -> Attrs {
    opt_attr("id"@, p.id)
        + opt_attr("start"@, p.start)
        + opt_attr("duration"@, p.duration)
        + opt_attr("xlink:href"@, p.xlink_href)
        + opt_attr("xlink:actuate"@, p.xlink_actuate)
}

/// What lies inside `Period` for `p`.
#[verifier::opaque]
pub open spec fn period_inner(p: Period) -> Seq<WriteEventV> {
    each_events(p.base_urls@, base_url_fn())
        + opt_events(p.segment_base, segment_base_fn())
        + opt_events(p.segment_list, segment_list_fn())
        + opt_events(p.segment_template, segment_template_fn())
        + opt_events(p.asset_identifier, descriptor_fn("AssetIdentifier"@))
        + each_events(p.event_streams@, event_stream_fn())
        + each_events(p.adaptation_sets@, adaptation_set_fn())
        + each_events(p.subsets@, subset_fn())
        + each_events(p.supplemental_properties@, descriptor_fn("SupplementalProperty"@))
        + each_events(p.essential_properties@, descriptor_fn("EssentialProperty"@))
        + each_events(p.preselections@, preselection_fn())
}

/// The events that write `p` as `Period`.
pub open spec fn period_events(p: Period) -> Seq<WriteEventV> {
    element_events("Period"@, seq![], period_attrs(p), period_inner(p))
}

pub open spec fn period_fn() -> spec_fn(Period) -> Seq<WriteEventV> {
    |p: Period| period_events(p)
}

pub proof fn lemma_period_balanced(p: Period)
    ensures
        balanced(period_events(p)),
{
    reveal(period_inner);
    reveal(opt_events);
    lemma_base_url_list_balanced(p.base_urls@);
    if let Some(x) = p.segment_base { lemma_segment_base_balanced(x); } else { lemma_balanced_empty(); }
    if let Some(x) = p.segment_list { lemma_segment_list_balanced(x); } else { lemma_balanced_empty(); }
    if let Some(x) = p.segment_template { lemma_segment_template_balanced(x); } else { lemma_balanced_empty(); }
    if let Some(x) = p.asset_identifier { lemma_descriptor_balanced("AssetIdentifier"@, x); } else { lemma_balanced_empty(); }
    lemma_event_stream_list_balanced(p.event_streams@);
    lemma_adaptation_set_list_balanced(p.adaptation_sets@);
    lemma_subset_list_balanced(p.subsets@);
    lemma_descriptor_list_balanced("SupplementalProperty"@, p.supplemental_properties@);
    lemma_descriptor_list_balanced("EssentialProperty"@, p.essential_properties@);
    lemma_preselection_list_balanced(p.preselections@);
    lemma_balanced_cat(each_events(p.base_urls@, base_url_fn()), opt_events(p.segment_base, segment_base_fn()));
    lemma_balanced_cat(each_events(p.base_urls@, base_url_fn()) + opt_events(p.segment_base, segment_base_fn()), opt_events(p.segment_list, segment_list_fn()));
    lemma_balanced_cat(each_events(p.base_urls@, base_url_fn())
        + opt_events(p.segment_base, segment_base_fn())
        + opt_events(p.segment_list, segment_list_fn()), opt_events(p.segment_template, segment_template_fn()));
    lemma_balanced_cat(each_events(p.base_urls@, base_url_fn())
        + opt_events(p.segment_base, segment_base_fn())
        + opt_events(p.segment_list, segment_list_fn())
        + opt_events(p.segment_template, segment_template_fn()), opt_events(p.asset_identifier, descriptor_fn("AssetIdentifier"@)));
    lemma_balanced_cat(each_events(p.base_urls@, base_url_fn())
        + opt_events(p.segment_base, segment_base_fn())
        + opt_events(p.segment_list, segment_list_fn())
        + opt_events(p.segment_template, segment_template_fn())
        + opt_events(p.asset_identifier, descriptor_fn("AssetIdentifier"@)), each_events(p.event_streams@, event_stream_fn()));
    lemma_balanced_cat(each_events(p.base_urls@, base_url_fn())
        + opt_events(p.segment_base, segment_base_fn())
        + opt_events(p.segment_list, segment_list_fn())
        + opt_events(p.segment_template, segment_template_fn())
        + opt_events(p.asset_identifier, descriptor_fn("AssetIdentifier"@))
        + each_events(p.event_streams@, event_stream_fn()), each_events(p.adaptation_sets@, adaptation_set_fn()));
    lemma_balanced_cat(each_events(p.base_urls@, base_url_fn())
        + opt_events(p.segment_base, segment_base_fn())
        + opt_events(p.segment_list, segment_list_fn())
        + opt_events(p.segment_template, segment_template_fn())
        + opt_events(p.asset_identifier, descriptor_fn("AssetIdentifier"@))
        + each_events(p.event_streams@, event_stream_fn())
        + each_events(p.adaptation_sets@, adaptation_set_fn()), each_events(p.subsets@, subset_fn()));
    lemma_balanced_cat(each_events(p.base_urls@, base_url_fn())
        + opt_events(p.segment_base, segment_base_fn())
        + opt_events(p.segment_list, segment_list_fn())
        + opt_events(p.segment_template, segment_template_fn())
        + opt_events(p.asset_identifier, descriptor_fn("AssetIdentifier"@))
        + each_events(p.event_streams@, event_stream_fn())
        + each_events(p.adaptation_sets@, adaptation_set_fn())
        + each_events(p.subsets@, subset_fn()), each_events(p.supplemental_properties@, descriptor_fn("SupplementalProperty"@)));
    lemma_balanced_cat(each_events(p.base_urls@, base_url_fn())
        + opt_events(p.segment_base, segment_base_fn())
        + opt_events(p.segment_list, segment_list_fn())
        + opt_events(p.segment_template, segment_template_fn())
        + opt_events(p.asset_identifier, descriptor_fn("AssetIdentifier"@))
        + each_events(p.event_streams@, event_stream_fn())
        + each_events(p.adaptation_sets@, adaptation_set_fn())
        + each_events(p.subsets@, subset_fn())
        + each_events(p.supplemental_properties@, descriptor_fn("SupplementalProperty"@)), each_events(p.essential_properties@, descriptor_fn("EssentialProperty"@)));
    lemma_balanced_cat(each_events(p.base_urls@, base_url_fn())
        + opt_events(p.segment_base, segment_base_fn())
        + opt_events(p.segment_list, segment_list_fn())
        + opt_events(p.segment_template, segment_template_fn())
        + opt_events(p.asset_identifier, descriptor_fn("AssetIdentifier"@))
        + each_events(p.event_streams@, event_stream_fn())
        + each_events(p.adaptation_sets@, adaptation_set_fn())
        + each_events(p.subsets@, subset_fn())
        + each_events(p.supplemental_properties@, descriptor_fn("SupplementalProperty"@))
        + each_events(p.essential_properties@, descriptor_fn("EssentialProperty"@)), each_events(p.preselections@, preselection_fn()));
    lemma_element_balanced("Period"@, seq![], period_attrs(p), period_inner(p));
}

pub proof fn lemma_period_list_balanced(s: Seq<Period>)
    ensures
        balanced(each_events(s, period_fn())),
    decreases s.len(),
{
    reveal(each_events);
    if s.len() == 0 {
        lemma_balanced_empty();
    } else {
        lemma_period_list_balanced(s.drop_last());
        lemma_period_balanced(s.last());
        lemma_balanced_cat(each_events(s.drop_last(), period_fn()), period_events(s.last()));
    }
}

/// Writes `d` as the element `name`.
fn write_descriptor(out: &mut Vec<WriteEvent>, name: &str, d: &Descriptor)
    ensures
        events_view(final(out)@) == events_view(old(out)@) + descriptor_events(name@, *d),
{
    let ghost before = events_view(out@);
    let mut attrs: Vec<(String, String)> = Vec::new();
    push_attr(&mut attrs, "schemeIdUri", d.scheme_id_uri.clone());
    assert(pairs_view(attrs@) =~= seq![("schemeIdUri"@, d.scheme_id_uri@)]);
    push_opt_attr(&mut attrs, "value", &d.value);
    push_opt_attr(&mut attrs, "id", &d.id);
    push_opt_attr(&mut attrs, "dvb:url", &d.dvb_url);
    push_opt_attr(&mut attrs, "dvb:mimeType", &d.dvb_mime_type);
    push_opt_attr(&mut attrs, "dvb:fontFamily", &d.dvb_font_family);
    assert(pairs_view(attrs@) == descriptor_attrs(*d)) by {
        reveal(descriptor_attrs);
    }
    start_element(out, name, attrs);
    let ghost opened = events_view(out@);
    assert(events_view(out@) =~= opened + descriptor_inner(*d)) by {
        reveal(descriptor_inner);
    }
    end_element(out);
    assert(events_view(out@) =~= before + descriptor_events(name@, *d));
}

/// Writes each item of `s` as the element `name`, in order.
fn write_descriptor_list(out: &mut Vec<WriteEvent>, name: &str, s: &Vec<Descriptor>)
    ensures
        events_view(final(out)@) == events_view(old(out)@) + each_events(s@, descriptor_fn(name@)),
{
    reveal(each_events);
    let mut k: usize = 0;
    assert(s@.take(0) =~= Seq::<Descriptor>::empty());
    assert(events_view(out@) =~= events_view(old(out)@) + each_events(s@.take(0), descriptor_fn(name@)));
    while k < s.len()
        invariant
            k <= s@.len(),
            events_view(out@) == events_view(old(out)@) + each_events(s@.take(k as int), descriptor_fn(name@)),
        decreases s.len() - k,
    {
        write_descriptor(out, name, &s[k]);
        reveal(each_events);
        assert(s@.take(k + 1).drop_last() =~= s@.take(k as int));
        k = k + 1;
        assert(events_view(out@) =~= events_view(old(out)@) + each_events(s@.take(k as int), descriptor_fn(name@)));
    }
    assert(s@.take(k as int) =~= s@);
}

/// Writes `l` as the element `name`.
fn write_label(out: &mut Vec<WriteEvent>, name: &str, l: &Label)
    ensures
        events_view(final(out)@) == events_view(old(out)@) + label_events(name@, *l),
{
    let ghost before = events_view(out@);
    let mut attrs: Vec<(String, String)> = Vec::new();
    push_opt_attr(&mut attrs, "lang", &l.lang);
    assert(pairs_view(attrs@) =~= opt_attr("lang"@, l.lang));
    assert(pairs_view(attrs@) == label_attrs(*l)) by {
        reveal(label_attrs);
    }
    start_element(out, name, attrs);
    let ghost opened = events_view(out@);
    characters(out, &l.text);
    assert(seq![WriteEventV::Characters((*l).text@)] == label_inner(*l)) by {
        reveal(label_inner);
    }
    end_element(out);
    assert(events_view(out@) =~= before + label_events(name@, *l));
}

/// Writes each item of `s` as the element `name`, in order.
fn write_label_list(out: &mut Vec<WriteEvent>, name: &str, s: &Vec<Label>)
    ensures
        events_view(final(out)@) == events_view(old(out)@) + each_events(s@, label_fn(name@)),
{
    reveal(each_events);
    let mut k: usize = 0;
    assert(s@.take(0) =~= Seq::<Label>::empty());
    assert(events_view(out@) =~= events_view(old(out)@) + each_events(s@.take(0), label_fn(name@)));
    while k < s.len()
        invariant
            k <= s@.len(),
            events_view(out@) == events_view(old(out)@) + each_events(s@.take(k as int), label_fn(name@)),
        decreases s.len() - k,
    {
        write_label(out, name, &s[k]);
        reveal(each_events);
        assert(s@.take(k + 1).drop_last() =~= s@.take(k as int));
        k = k + 1;
        assert(events_view(out@) =~= events_view(old(out)@) + each_events(s@.take(k as int), label_fn(name@)));
    }
    assert(s@.take(k as int) =~= s@);
}

/// Writes `u` as `UTCTiming`.
fn write_utc_timing(out: &mut Vec<WriteEvent>, u: &UtcTiming)
    ensures
        events_view(final(out)@) == events_view(old(out)@) + utc_timing_events(*u),
{
    let ghost before = events_view(out@);
    let mut attrs: Vec<(String, String)> = Vec::new();
    push_attr(&mut attrs, "schemeIdUri", u.scheme_id_uri.clone());
    assert(pairs_view(attrs@) =~= seq![("schemeIdUri"@, u.scheme_id_uri@)]);
    push_opt_attr(&mut attrs, "value", &u.value);
    push_opt_attr(&mut attrs, "id", &u.id);
    assert(pairs_view(attrs@) == utc_timing_attrs(*u)) by {
        reveal(utc_timing_attrs);
    }
    start_element(out, "UTCTiming", attrs);
    let ghost opened = events_view(out@);
    assert(events_view(out@) =~= opened + utc_timing_inner(*u)) by {
        reveal(utc_timing_inner);
    }
    end_element(out);
    assert(events_view(out@) =~= before + utc_timing_events(*u));
}

/// Writes each item of `s` as `UTCTiming`, in order.
fn write_utc_timing_list(out: &mut Vec<WriteEvent>, s: &Vec<UtcTiming>)
    ensures
        events_view(final(out)@) == events_view(old(out)@) + each_events(s@, utc_timing_fn()),
{
    reveal(each_events);
    let mut k: usize = 0;
    assert(s@.take(0) =~= Seq::<UtcTiming>::empty());
    assert(events_view(out@) =~= events_view(old(out)@) + each_events(s@.take(0), utc_timing_fn()));
    while k < s.len()
        invariant
            k <= s@.len(),
            events_view(out@) == events_view(old(out)@) + each_events(s@.take(k as int), utc_timing_fn()),
        decreases s.len() - k,
    {
        write_utc_timing(out, &s[k]);
        reveal(each_events);
        assert(s@.take(k + 1).drop_last() =~= s@.take(k as int));
        k = k + 1;
        assert(events_view(out@) =~= events_view(old(out)@) + each_events(s@.take(k as int), utc_timing_fn()));
    }
    assert(s@.take(k as int) =~= s@);
}

/// Writes `l` as `Location`.
fn write_location(out: &mut Vec<WriteEvent>, l: &Location)
    ensures
        events_view(final(out)@) == events_view(old(out)@) + location_events(*l),
{
    let ghost before = events_view(out@);
    let mut attrs: Vec<(String, String)> = Vec::new();
    push_opt_attr(&mut attrs, "serviceLocation", &l.service_location);
    assert(pairs_view(attrs@) =~= opt_attr("serviceLocation"@, l.service_location));
    assert(pairs_view(attrs@) == location_attrs(*l)) by {
        reveal(location_attrs);
    }
    start_element(out, "Location", attrs);
    let ghost opened = events_view(out@);
    characters(out, &l.url);
    assert(seq![WriteEventV::Characters((*l).url@)] == location_inner(*l)) by {
        reveal(location_inner);
    }
    end_element(out);
    assert(events_view(out@) =~= before + location_events(*l));
}

/// Writes each item of `s` as `Location`, in order.
fn write_location_list(out: &mut Vec<WriteEvent>, s: &Vec<Location>)
    ensures
        events_view(final(out)@) == events_view(old(out)@) + each_events(s@, location_fn()),
{
    reveal(each_events);
    let mut k: usize = 0;
    assert(s@.take(0) =~= Seq::<Location>::empty());
    assert(events_view(out@) =~= events_view(old(out)@) + each_events(s@.take(0), location_fn()));
    while k < s.len()
        invariant
            k <= s@.len(),
            events_view(out@) == events_view(old(out)@) + each_events(s@.take(k as int), location_fn()),
        decreases s.len() - k,
    {
        write_location(out, &s[k]);
        reveal(each_events);
        assert(s@.take(k + 1).drop_last() =~= s@.take(k as int));
        k = k + 1;
        assert(events_view(out@) =~= events_view(old(out)@) + each_events(s@.take(k as int), location_fn()));
    }
    assert(s@.take(k as int) =~= s@);
}

/// Writes `b` as `BaseURL`.
fn write_base_url(out: &mut Vec<WriteEvent>, b: &BaseUrl)
    ensures
        events_view(final(out)@) == events_view(old(out)@) + base_url_events(*b),
{
    let ghost before = events_view(out@);
    let mut attrs: Vec<(String, String)> = Vec::new();
    push_opt_attr(&mut attrs, "serviceLocation", &b.service_location);
    assert(pairs_view(attrs@) =~= opt_attr("serviceLocation"@, b.service_location));
    push_opt_attr(&mut attrs, "availabilityTimeOffset", &b.availability_time_offset);
    push_bool_attr(&mut attrs, "availabilityTimeComplete", b.availability_time_complete);
    push_opt_attr(&mut attrs, "byteRange", &b.byte_range);
    push_u32_attr(&mut attrs, "dvb:priority", b.dvb_priority);
    push_u32_attr(&mut attrs, "dvb:weight", b.dvb_weight);
    assert(pairs_view(attrs@) == base_url_attrs(*b)) by {
        reveal(base_url_attrs);
    }
    start_element(out, "BaseURL", attrs);
    let ghost opened = events_view(out@);
    characters(out, &b.url);
    assert(seq![WriteEventV::Characters((*b).url@)] == base_url_inner(*b)) by {
        reveal(base_url_inner);
    }
    end_element(out);
    assert(events_view(out@) =~= before + base_url_events(*b));
}

/// Writes each item of `s` as `BaseURL`, in order.
fn write_base_url_list(out: &mut Vec<WriteEvent>, s: &Vec<BaseUrl>)
    ensures
        events_view(final(out)@) == events_view(old(out)@) + each_events(s@, base_url_fn()),
{
    reveal(each_events);
    let mut k: usize = 0;
    assert(s@.take(0) =~= Seq::<BaseUrl>::empty());
    assert(events_view(out@) =~= events_view(old(out)@) + each_events(s@.take(0), base_url_fn()));
    while k < s.len()
        invariant
            k <= s@.len(),
            events_view(out@) == events_view(old(out)@) + each_events(s@.take(k as int), base_url_fn()),
        decreases s.len() - k,
    {
        write_base_url(out, &s[k]);
        reveal(each_events);
        assert(s@.take(k + 1).drop_last() =~= s@.take(k as int));
        k = k + 1;
        assert(events_view(out@) =~= events_view(old(out)@) + each_events(s@.take(k as int), base_url_fn()));
    }
    assert(s@.take(k as int) =~= s@);
}

/// Writes `p` as `PatchLocation`.
fn write_patch_location(out: &mut Vec<WriteEvent>, p: &PatchLocation)
    ensures
        events_view(final(out)@) == events_view(old(out)@) + patch_location_events(*p),
{
    let ghost before = events_view(out@);
    let mut attrs: Vec<(String, String)> = Vec::new();
    push_opt_attr(&mut attrs, "serviceLocation", &p.service_location);
    assert(pairs_view(attrs@) =~= opt_attr("serviceLocation"@, p.service_location));
    push_opt_attr(&mut attrs, "ttl", &p.ttl);
    assert(pairs_view(attrs@) == patch_location_attrs(*p)) by {
        reveal(patch_location_attrs);
    }
    start_element(out, "PatchLocation", attrs);
    let ghost opened = events_view(out@);
    characters(out, &p.url);
    assert(seq![WriteEventV::Characters((*p).url@)] == patch_location_inner(*p)) by {
        reveal(patch_location_inner);
    }
    end_element(out);
    assert(events_view(out@) =~= before + patch_location_events(*p));
}

/// Writes each item of `s` as `PatchLocation`, in order.
fn write_patch_location_list(out: &mut Vec<WriteEvent>, s: &Vec<PatchLocation>)
    ensures
        events_view(final(out)@) == events_view(old(out)@) + each_events(s@, patch_location_fn()),
{
    reveal(each_events);
    let mut k: usize = 0;
    assert(s@.take(0) =~= Seq::<PatchLocation>::empty());
    assert(events_view(out@) =~= events_view(old(out)@) + each_events(s@.take(0), patch_location_fn()));
    while k < s.len()
        invariant
            k <= s@.len(),
            events_view(out@) == events_view(old(out)@) + each_events(s@.take(k as int), patch_location_fn()),
        decreases s.len() - k,
    {
        write_patch_location(out, &s[k]);
        reveal(each_events);
        assert(s@.take(k + 1).drop_last() =~= s@.take(k as int));
        k = k + 1;
        assert(events_view(out@) =~= events_view(old(out)@) + each_events(s@.take(k as int), patch_location_fn()));
    }
    assert(s@.take(k as int) =~= s@);
}

/// Writes `l` as `Latency`.
fn write_latency(out: &mut Vec<WriteEvent>, l: &Latency)
    ensures
        events_view(final(out)@) == events_view(old(out)@) + latency_events(*l),
{
    let ghost before = events_view(out@);
    let mut attrs: Vec<(String, String)> = Vec::new();
    push_u32_attr(&mut attrs, "target", l.target);
    assert(pairs_view(attrs@) =~= u32_attr("target"@, l.target));
    push_u32_attr(&mut attrs, "min", l.min);
    push_u32_attr(&mut attrs, "max", l.max);
    push_u32_attr(&mut attrs, "referenceId", l.reference_id);
    assert(pairs_view(attrs@) == latency_attrs(*l)) by {
        reveal(latency_attrs);
    }
    start_element(out, "Latency", attrs);
    let ghost opened = events_view(out@);
    assert(events_view(out@) =~= opened + latency_inner(*l)) by {
        reveal(latency_inner);
    }
    end_element(out);
    assert(events_view(out@) =~= before + latency_events(*l));
}

/// Writes `p` as `PlaybackRate`.
fn write_playback_rate(out: &mut Vec<WriteEvent>, p: &PlaybackRate)
    ensures
        events_view(final(out)@) == events_view(old(out)@) + playback_rate_events(*p),
{
    let ghost before = events_view(out@);
    let mut attrs: Vec<(String, String)> = Vec::new();
    push_opt_attr(&mut attrs, "min", &p.min);
    assert(pairs_view(attrs@) =~= opt_attr("min"@, p.min));
    push_opt_attr(&mut attrs, "max", &p.max);
    assert(pairs_view(attrs@) == playback_rate_attrs(*p)) by {
        reveal(playback_rate_attrs);
    }
    start_element(out, "PlaybackRate", attrs);
    let ghost opened = events_view(out@);
    assert(events_view(out@) =~= opened + playback_rate_inner(*p)) by {
        reveal(playback_rate_inner);
    }
    end_element(out);
    assert(events_view(out@) =~= before + playback_rate_events(*p));
}

/// Writes `q` as `OperatingQuality`.
fn write_operating_quality(out: &mut Vec<WriteEvent>, q: &OperatingQuality)
    ensures
        events_view(final(out)@) == events_view(old(out)@) + operating_quality_events(*q),
{
    let ghost before = events_view(out@);
    let mut attrs: Vec<(String, String)> = Vec::new();
    push_opt_attr(&mut attrs, "mediaType", &q.media_type);
    assert(pairs_view(attrs@) =~= opt_attr("mediaType"@, q.media_type));
    push_u32_attr(&mut attrs, "min", q.min);
    push_u32_attr(&mut attrs, "max", q.max);
    push_u32_attr(&mut attrs, "target", q.target);
    push_opt_attr(&mut attrs, "type", &q.type_);
    push_u32_attr(&mut attrs, "maxQualityDifference", q.max_quality_difference);
    assert(pairs_view(attrs@) == operating_quality_attrs(*q)) by {
        reveal(operating_quality_attrs);
    }
    start_element(out, "OperatingQuality", attrs);
    let ghost opened = events_view(out@);
    assert(events_view(out@) =~= opened + operating_quality_inner(*q)) by {
        reveal(operating_quality_inner);
    }
    end_element(out);
    assert(events_view(out@) =~= before + operating_quality_events(*q));
}

/// Writes `b` as `OperatingBandwidth`.
fn write_operating_bandwidth(out: &mut Vec<WriteEvent>, b: &OperatingBandwidth)
    ensures
        events_view(final(out)@) == events_view(old(out)@) + operating_bandwidth_events(*b),
{
    let ghost before = events_view(out@);
    let mut attrs: Vec<(String, String)> = Vec::new();
    push_opt_attr(&mut attrs, "mediaType", &b.media_type);
    assert(pairs_view(attrs@) =~= opt_attr("mediaType"@, b.media_type));
    push_u32_attr(&mut attrs, "min", b.min);
    push_u32_attr(&mut attrs, "max", b.max);
    push_u32_attr(&mut attrs, "target", b.target);
    assert(pairs_view(attrs@) == operating_bandwidth_attrs(*b)) by {
        reveal(operating_bandwidth_attrs);
    }
    start_element(out, "OperatingBandwidth", attrs);
    let ghost opened = events_view(out@);
    assert(events_view(out@) =~= opened + operating_bandwidth_inner(*b)) by {
        reveal(operating_bandwidth_inner);
    }
    end_element(out);
    assert(events_view(out@) =~= before + operating_bandwidth_events(*b));
}

/// Writes `c` as `CMCDParameters`.
fn write_cmcd_parameters(out: &mut Vec<WriteEvent>, c: &CmcdParameters)
    ensures
        events_view(final(out)@) == events_view(old(out)@) + cmcd_parameters_events(*c),
{
    let ghost before = events_view(out@);
    let mut attrs: Vec<(String, String)> = Vec::new();
    push_attr(&mut attrs, "schemeIdUri", c.scheme_id_uri.clone());
    assert(pairs_view(attrs@) =~= seq![("schemeIdUri"@, c.scheme_id_uri@)]);
    push_opt_attr(&mut attrs, "value", &c.value);
    push_opt_attr(&mut attrs, "id", &c.id);
    push_opt_attr(&mut attrs, "version", &c.version);
    push_opt_attr(&mut attrs, "sessionID", &c.session_id);
    push_opt_attr(&mut attrs, "contentID", &c.content_id);
    push_opt_attr(&mut attrs, "mode", &c.mode);
    push_opt_attr(&mut attrs, "keys", &c.keys);
    push_opt_attr(&mut attrs, "includeInRequests", &c.include_in_requests);
    assert(pairs_view(attrs@) == cmcd_parameters_attrs(*c)) by {
        reveal(cmcd_parameters_attrs);
    }
    start_element(out, "CMCDParameters", attrs);
    let ghost opened = events_view(out@);
    assert(events_view(out@) =~= opened + cmcd_parameters_inner(*c)) by {
        reveal(cmcd_parameters_inner);
    }
    end_element(out);
    assert(events_view(out@) =~= before + cmcd_parameters_events(*c));
}

/// Writes `c` as `ClientDataReporting`.
fn write_client_data_reporting(out: &mut Vec<WriteEvent>, c: &ClientDataReporting)
    ensures
        events_view(final(out)@) == events_view(old(out)@) + client_data_reporting_events(*c),
{
    let ghost before = events_view(out@);
    let mut attrs: Vec<(String, String)> = Vec::new();
    push_opt_attr(&mut attrs, "serviceLocations", &c.service_locations);
    assert(pairs_view(attrs@) =~= opt_attr("serviceLocations"@, c.service_locations));
    push_opt_attr(&mut attrs, "adaptationSets", &c.adaptation_sets);
    assert(pairs_view(attrs@) == client_data_reporting_attrs(*c)) by {
        reveal(client_data_reporting_attrs);
    }
    start_element(out, "ClientDataReporting", attrs);
    let ghost opened = events_view(out@);
    write_cmcd_parameters_opt(out, &c.cmcd_parameters);
    assert(opt_events((*c).cmcd_parameters, cmcd_parameters_fn()) == client_data_reporting_inner(*c)) by {
        reveal(client_data_reporting_inner);
    }
    end_element(out);
    assert(events_view(out@) =~= before + client_data_reporting_events(*c));
}

/// Writes `s` as `ServiceDescription`.
fn write_service_description(out: &mut Vec<WriteEvent>, s: &ServiceDescription)
    ensures
        events_view(final(out)@) == events_view(old(out)@) + service_description_events(*s),
{
    let ghost before = events_view(out@);
    let mut attrs: Vec<(String, String)> = Vec::new();
    push_u32_attr(&mut attrs, "id", s.id);
    assert(pairs_view(attrs@) =~= u32_attr("id"@, s.id));
    assert(pairs_view(attrs@) == service_description_attrs(*s)) by {
        reveal(service_description_attrs);
    }
    start_element(out, "ServiceDescription", attrs);
    let ghost opened = events_view(out@);
    write_descriptor_opt(out, "Scope", &s.scope);
    write_latency_opt(out, &s.latency);
    proof {
        lemma_concat_associative(opened, opt_events((*s).scope, descriptor_fn("Scope"@)), opt_events((*s).latency, latency_fn()));
    }
    write_playback_rate_opt(out, &s.playback_rate);
    proof {
        lemma_concat_associative(opened,
            opt_events((*s).scope,
            descriptor_fn("Scope"@)) + opt_events((*s).latency,
            latency_fn()),
            opt_events((*s).playback_rate,
            playback_rate_fn()));
    }
    write_operating_quality_opt(out, &s.operating_quality);
    proof {
        lemma_concat_associative(opened, opt_events((*s).scope, descriptor_fn("Scope"@))
            + opt_events((*s).latency, latency_fn())
            + opt_events((*s).playback_rate, playback_rate_fn()), opt_events((*s).operating_quality, operating_quality_fn()));
    }
    write_operating_bandwidth_opt(out, &s.operating_bandwidth);
    proof {
        lemma_concat_associative(opened, opt_events((*s).scope, descriptor_fn("Scope"@))
            + opt_events((*s).latency, latency_fn())
            + opt_events((*s).playback_rate, playback_rate_fn())
            + opt_events((*s).operating_quality, operating_quality_fn()), opt_events((*s).operating_bandwidth, operating_bandwidth_fn()));
    }
    write_client_data_reporting_opt(out, &s.client_data_reporting);
    proof {
        lemma_concat_associative(opened, opt_events((*s).scope, descriptor_fn("Scope"@))
            + opt_events((*s).latency, latency_fn())
            + opt_events((*s).playback_rate, playback_rate_fn())
            + opt_events((*s).operating_quality, operating_quality_fn())
            + opt_events((*s).operating_bandwidth, operating_bandwidth_fn()), opt_events((*s).client_data_reporting, client_data_reporting_fn()));
    }
    assert(opt_events((*s).scope, descriptor_fn("Scope"@))
        + opt_events((*s).latency, latency_fn())
        + opt_events((*s).playback_rate, playback_rate_fn())
        + opt_events((*s).operating_quality, operating_quality_fn())
        + opt_events((*s).operating_bandwidth, operating_bandwidth_fn())
        + opt_events((*s).client_data_reporting, client_data_reporting_fn()) == service_description_inner(*s)) by {
        reveal(service_description_inner);
    }
    end_element(out);
    assert(events_view(out@) =~= before + service_description_events(*s));
}

/// Writes each item of `s` as `ServiceDescription`, in order.
fn write_service_description_list(out: &mut Vec<WriteEvent>, s: &Vec<ServiceDescription>)
    ensures
        events_view(final(out)@) == events_view(old(out)@) + each_events(s@, service_description_fn()),
{
    reveal(each_events);
    let mut k: usize = 0;
    assert(s@.take(0) =~= Seq::<ServiceDescription>::empty());
    assert(events_view(out@) =~= events_view(old(out)@) + each_events(s@.take(0), service_description_fn()));
    while k < s.len()
        invariant
            k <= s@.len(),
            events_view(out@) == events_view(old(out)@) + each_events(s@.take(k as int), service_description_fn()),
        decreases s.len() - k,
    {
        write_service_description(out, &s[k]);
        reveal(each_events);
        assert(s@.take(k + 1).drop_last() =~= s@.take(k as int));
        k = k + 1;
        assert(events_view(out@) =~= events_view(old(out)@) + each_events(s@.take(k as int), service_description_fn()));
    }
    assert(s@.take(k as int) =~= s@);
}

/// Writes `c` as `ContentSteering`.
fn write_content_steering(out: &mut Vec<WriteEvent>, c: &ContentSteering)
    ensures
        events_view(final(out)@) == events_view(old(out)@) + content_steering_events(*c),
{
    let ghost before = events_view(out@);
    let mut attrs: Vec<(String, String)> = Vec::new();
    push_opt_attr(&mut attrs, "defaultServiceLocation", &c.default_service_location);
    assert(pairs_view(attrs@) =~= opt_attr("defaultServiceLocation"@, c.default_service_location));
    push_bool_attr(&mut attrs, "queryBeforeStart", c.query_before_start);
    push_bool_attr(&mut attrs, "clientRequirement", c.client_requirement);
    assert(pairs_view(attrs@) == content_steering_attrs(*c)) by {
        reveal(content_steering_attrs);
    }
    start_element(out, "ContentSteering", attrs);
    let ghost opened = events_view(out@);
    characters(out, &c.server_url);
    assert(seq![WriteEventV::Characters((*c).server_url@)] == content_steering_inner(*c)) by {
        reveal(content_steering_inner);
    }
    end_element(out);
    assert(events_view(out@) =~= before + content_steering_events(*c));
}

/// Writes `r` as `Range`.
fn write_metrics_range(out: &mut Vec<WriteEvent>, r: &MetricsRange)
    ensures
        events_view(final(out)@) == events_view(old(out)@) + metrics_range_events(*r),
{
    let ghost before = events_view(out@);
    let mut attrs: Vec<(String, String)> = Vec::new();
    push_opt_attr(&mut attrs, "starttime", &r.starttime);
    assert(pairs_view(attrs@) =~= opt_attr("starttime"@, r.starttime));
    push_opt_attr(&mut attrs, "duration", &r.duration);
    assert(pairs_view(attrs@) == metrics_range_attrs(*r)) by {
        reveal(metrics_range_attrs);
    }
    start_element(out, "Range", attrs);
    let ghost opened = events_view(out@);
    assert(events_view(out@) =~= opened + metrics_range_inner(*r)) by {
        reveal(metrics_range_inner);
    }
    end_element(out);
    assert(events_view(out@) =~= before + metrics_range_events(*r));
}

/// Writes each item of `s` as `Range`, in order.
fn write_metrics_range_list(out: &mut Vec<WriteEvent>, s: &Vec<MetricsRange>)
    ensures
        events_view(final(out)@) == events_view(old(out)@) + each_events(s@, metrics_range_fn()),
{
    reveal(each_events);
    let mut k: usize = 0;
    assert(s@.take(0) =~= Seq::<MetricsRange>::empty());
    assert(events_view(out@) =~= events_view(old(out)@) + each_events(s@.take(0), metrics_range_fn()));
    while k < s.len()
        invariant
            k <= s@.len(),
            events_view(out@) == events_view(old(out)@) + each_events(s@.take(k as int), metrics_range_fn()),
        decreases s.len() - k,
    {
        write_metrics_range(out, &s[k]);
        reveal(each_events);
        assert(s@.take(k + 1).drop_last() =~= s@.take(k as int));
        k = k + 1;
        assert(events_view(out@) =~= events_view(old(out)@) + each_events(s@.take(k as int), metrics_range_fn()));
    }
    assert(s@.take(k as int) =~= s@);
}

/// Writes `m` as `Metrics`.
fn write_metrics(out: &mut Vec<WriteEvent>, m: &Metrics)
    ensures
        events_view(final(out)@) == events_view(old(out)@) + metrics_events(*m),
{
    let ghost before = events_view(out@);
    let mut attrs: Vec<(String, String)> = Vec::new();
    push_attr(&mut attrs, "metrics", m.metrics.clone());
    assert(pairs_view(attrs@) =~= seq![("metrics"@, m.metrics@)]);
    assert(pairs_view(attrs@) == metrics_attrs(*m)) by {
        reveal(metrics_attrs);
    }
    start_element(out, "Metrics", attrs);
    let ghost opened = events_view(out@);
    write_descriptor_list(out, "Reporting", &m.reportings);
    write_metrics_range_list(out, &m.ranges);
    proof {
        lemma_concat_associative(opened, each_events((*m).reportings@, descriptor_fn("Reporting"@)), each_events((*m).ranges@, metrics_range_fn()));
    }
    assert(each_events((*m).reportings@, descriptor_fn("Reporting"@)) + each_events((*m).ranges@, metrics_range_fn()) == metrics_inner(*m)) by {
        reveal(metrics_inner);
    }
    end_element(out);
    assert(events_view(out@) =~= before + metrics_events(*m));
}

/// Writes each item of `s` as `Metrics`, in order.
fn write_metrics_list(out: &mut Vec<WriteEvent>, s: &Vec<Metrics>)
    ensures
        events_view(final(out)@) == events_view(old(out)@) + each_events(s@, metrics_fn()),
{
    reveal(each_events);
    let mut k: usize = 0;
    assert(s@.take(0) =~= Seq::<Metrics>::empty());
    assert(events_view(out@) =~= events_view(old(out)@) + each_events(s@.take(0), metrics_fn()));
    while k < s.len()
        invariant
            k <= s@.len(),
            events_view(out@) == events_view(old(out)@) + each_events(s@.take(k as int), metrics_fn()),
        decreases s.len() - k,
    {
        write_metrics(out, &s[k]);
        reveal(each_events);
        assert(s@.take(k + 1).drop_last() =~= s@.take(k as int));
        k = k + 1;
        assert(events_view(out@) =~= events_view(old(out)@) + each_events(s@.take(k as int), metrics_fn()));
    }
    assert(s@.take(k as int) =~= s@);
}

/// Writes `e` as `Event`.
fn write_event(out: &mut Vec<WriteEvent>, e: &Event)
    ensures
        events_view(final(out)@) == events_view(old(out)@) + event_events(*e),
{
    let ghost before = events_view(out@);
    let mut attrs: Vec<(String, String)> = Vec::new();
    push_attr(&mut attrs, "presentationTime", decimal_string(e.presentation_time));
    assert(pairs_view(attrs@) =~= seq![("presentationTime"@, decimal(e.presentation_time as nat))]);
    push_u64_attr(&mut attrs, "duration", e.duration);
    push_opt_attr(&mut attrs, "id", &e.id);
    push_opt_attr(&mut attrs, "messageData", &e.message_data);
    assert(pairs_view(attrs@) == event_attrs(*e)) by {
        reveal(event_attrs);
    }
    start_element(out, "Event", attrs);
    let ghost opened = events_view(out@);
    write_opt_text(out, &e.content);
    write_signal(out, &e.signal_binary);
    proof {
        lemma_concat_associative(opened, opt_text_events((*e).content), signal_events((*e).signal_binary));
    }
    assert(opt_text_events((*e).content) + signal_events((*e).signal_binary) == event_inner(*e)) by {
        reveal(event_inner);
    }
    end_element(out);
    assert(events_view(out@) =~= before + event_events(*e));
}

/// Writes each item of `s` as `Event`, in order.
fn write_event_list(out: &mut Vec<WriteEvent>, s: &Vec<Event>)
    ensures
        events_view(final(out)@) == events_view(old(out)@) + each_events(s@, event_fn()),
{
    reveal(each_events);
    let mut k: usize = 0;
    assert(s@.take(0) =~= Seq::<Event>::empty());
    assert(events_view(out@) =~= events_view(old(out)@) + each_events(s@.take(0), event_fn()));
    while k < s.len()
        invariant
            k <= s@.len(),
            events_view(out@) == events_view(old(out)@) + each_events(s@.take(k as int), event_fn()),
        decreases s.len() - k,
    {
        write_event(out, &s[k]);
        reveal(each_events);
        assert(s@.take(k + 1).drop_last() =~= s@.take(k as int));
        k = k + 1;
        assert(events_view(out@) =~= events_view(old(out)@) + each_events(s@.take(k as int), event_fn()));
    }
    assert(s@.take(k as int) =~= s@);
}

/// Writes `s` as `EventStream`.
fn write_event_stream(out: &mut Vec<WriteEvent>, s: &EventStream)
    ensures
        events_view(final(out)@) == events_view(old(out)@) + event_stream_events(*s),
{
    let ghost before = events_view(out@);
    let mut attrs: Vec<(String, String)> = Vec::new();
    push_attr(&mut attrs, "schemeIdUri", s.scheme_id_uri.clone());
    assert(pairs_view(attrs@) =~= seq![("schemeIdUri"@, s.scheme_id_uri@)]);
    push_opt_attr(&mut attrs, "value", &s.value);
    push_attr(&mut attrs, "timescale", decimal_string(s.timescale));
    push_nonzero_attr(&mut attrs, "presentationTimeOffset", s.presentation_time_offset);
    assert(pairs_view(attrs@) == event_stream_attrs(*s)) by {
        reveal(event_stream_attrs);
    }
    start_element(out, "EventStream", attrs);
    let ghost opened = events_view(out@);
    write_event_list(out, &s.events);
    assert(each_events((*s).events@, event_fn()) == event_stream_inner(*s)) by {
        reveal(event_stream_inner);
    }
    end_element(out);
    assert(events_view(out@) =~= before + event_stream_events(*s));
}

/// Writes each item of `s` as `EventStream`, in order.
fn write_event_stream_list(out: &mut Vec<WriteEvent>, s: &Vec<EventStream>)
    ensures
        events_view(final(out)@) == events_view(old(out)@) + each_events(s@, event_stream_fn()),
{
    reveal(each_events);
    let mut k: usize = 0;
    assert(s@.take(0) =~= Seq::<EventStream>::empty());
    assert(events_view(out@) =~= events_view(old(out)@) + each_events(s@.take(0), event_stream_fn()));
    while k < s.len()
        invariant
            k <= s@.len(),
            events_view(out@) == events_view(old(out)@) + each_events(s@.take(k as int), event_stream_fn()),
        decreases s.len() - k,
    {
        write_event_stream(out, &s[k]);
        reveal(each_events);
        assert(s@.take(k + 1).drop_last() =~= s@.take(k as int));
        k = k + 1;
        assert(events_view(out@) =~= events_view(old(out)@) + each_events(s@.take(k as int), event_stream_fn()));
    }
    assert(s@.take(k as int) =~= s@);
}

/// Writes `p` as `ProducerReferenceTime`.
fn write_producer_reference_time(out: &mut Vec<WriteEvent>, p: &ProducerReferenceTime)
    ensures
        events_view(final(out)@) == events_view(old(out)@) + producer_reference_time_events(*p),
{
    let ghost before = events_view(out@);
    let mut attrs: Vec<(String, String)> = Vec::new();
    push_attr(&mut attrs, "id", decimal_string(p.id as u64));
    assert(pairs_view(attrs@) =~= seq![("id"@, decimal(p.id as nat))]);
    push_attr(&mut attrs, "wallClockTime", p.wall_clock_time.clone());
    push_attr(&mut attrs, "presentationTime", decimal_string(p.presentation_time));
    push_bool_attr(&mut attrs, "inband", p.inband);
    push_opt_attr(&mut attrs, "type", &p.type_);
    push_opt_attr(&mut attrs, "applicationScheme", &p.application_scheme);
    assert(pairs_view(attrs@) == producer_reference_time_attrs(*p)) by {
        reveal(producer_reference_time_attrs);
    }
    start_element(out, "ProducerReferenceTime", attrs);
    let ghost opened = events_view(out@);
    write_utc_timing_opt(out, &p.utc_timing);
    assert(opt_events((*p).utc_timing, utc_timing_fn()) == producer_reference_time_inner(*p)) by {
        reveal(producer_reference_time_inner);
    }
    end_element(out);
    assert(events_view(out@) =~= before + producer_reference_time_events(*p));
}

/// Writes each item of `s` as `ProducerReferenceTime`, in order.
fn write_producer_reference_time_list(out: &mut Vec<WriteEvent>, s: &Vec<ProducerReferenceTime>)
    ensures
        events_view(final(out)@) == events_view(old(out)@) + each_events(s@, producer_reference_time_fn()),
{
    reveal(each_events);
    let mut k: usize = 0;
    assert(s@.take(0) =~= Seq::<ProducerReferenceTime>::empty());
    assert(events_view(out@) =~= events_view(old(out)@) + each_events(s@.take(0), producer_reference_time_fn()));
    while k < s.len()
        invariant
            k <= s@.len(),
            events_view(out@) == events_view(old(out)@) + each_events(s@.take(k as int), producer_reference_time_fn()),
        decreases s.len() - k,
    {
        write_producer_reference_time(out, &s[k]);
        reveal(each_events);
        assert(s@.take(k + 1).drop_last() =~= s@.take(k as int));
        k = k + 1;
        assert(events_view(out@) =~= events_view(old(out)@) + each_events(s@.take(k as int), producer_reference_time_fn()));
    }
    assert(s@.take(k as int) =~= s@);
}

/// Writes `c` as `ContentComponent`.
fn write_content_component(out: &mut Vec<WriteEvent>, c: &ContentComponent)
    ensures
        events_view(final(out)@) == events_view(old(out)@) + content_component_events(*c),
{
    let ghost before = events_view(out@);
    let mut attrs: Vec<(String, String)> = Vec::new();
    push_opt_attr(&mut attrs, "id", &c.id);
    assert(pairs_view(attrs@) =~= opt_attr("id"@, c.id));
    push_opt_attr(&mut attrs, "contentType", &c.content_type);
    push_opt_attr(&mut attrs, "lang", &c.lang);
    assert(pairs_view(attrs@) == content_component_attrs(*c)) by {
        reveal(content_component_attrs);
    }
    start_element(out, "ContentComponent", attrs);
    let ghost opened = events_view(out@);
    write_descriptor_list(out, "Accessibility", &c.accessibilities);
    write_descriptor_list(out, "Role", &c.roles);
    proof {
        lemma_concat_associative(opened, each_events((*c).accessibilities@, descriptor_fn("Accessibility"@)), each_events((*c).roles@, descriptor_fn("Role"@)));
    }
    assert(each_events((*c).accessibilities@,
        descriptor_fn("Accessibility"@)) + each_events((*c).roles@,
        descriptor_fn("Role"@)) == content_component_inner(*c)) by {
        reveal(content_component_inner);
    }
    end_element(out);
    assert(events_view(out@) =~= before + content_component_events(*c));
}

/// Writes each item of `s` as `ContentComponent`, in order.
fn write_content_component_list(out: &mut Vec<WriteEvent>, s: &Vec<ContentComponent>)
    ensures
        events_view(final(out)@) == events_view(old(out)@) + each_events(s@, content_component_fn()),
{
    reveal(each_events);
    let mut k: usize = 0;
    assert(s@.take(0) =~= Seq::<ContentComponent>::empty());
    assert(events_view(out@) =~= events_view(old(out)@) + each_events(s@.take(0), content_component_fn()));
    while k < s.len()
        invariant
            k <= s@.len(),
            events_view(out@) == events_view(old(out)@) + each_events(s@.take(k as int), content_component_fn()),
        decreases s.len() - k,
    {
        write_content_component(out, &s[k]);
        reveal(each_events);
        assert(s@.take(k + 1).drop_last() =~= s@.take(k as int));
        k = k + 1;
        assert(events_view(out@) =~= events_view(old(out)@) + each_events(s@.take(k as int), content_component_fn()));
    }
    assert(s@.take(k as int) =~= s@);
}

/// Writes `s` as `SegmentSequenceProperties`.
fn write_segment_sequence_properties(out: &mut Vec<WriteEvent>, s: &SegmentSequenceProperties)
    ensures
        events_view(final(out)@) == events_view(old(out)@) + segment_sequence_properties_events(*s),
{
    let ghost before = events_view(out@);
    let mut attrs: Vec<(String, String)> = Vec::new();
    push_u32_attr(&mut attrs, "cadence", s.cadence);
    assert(pairs_view(attrs@) =~= u32_attr("cadence"@, s.cadence));
    push_u32_attr(&mut attrs, "sapType", s.sap_type);
    push_bool_attr(&mut attrs, "event", s.event);
    push_opt_attr(&mut attrs, "alignment", &s.alignment);
    assert(pairs_view(attrs@) == segment_sequence_properties_attrs(*s)) by {
        reveal(segment_sequence_properties_attrs);
    }
    start_element(out, "SegmentSequenceProperties", attrs);
    let ghost opened = events_view(out@);
    assert(events_view(out@) =~= opened + segment_sequence_properties_inner(*s)) by {
        reveal(segment_sequence_properties_inner);
    }
    end_element(out);
    assert(events_view(out@) =~= before + segment_sequence_properties_events(*s));
}

/// Writes each item of `s` as `SegmentSequenceProperties`, in order.
fn write_segment_sequence_properties_list(out: &mut Vec<WriteEvent>, s: &Vec<SegmentSequenceProperties>)
    ensures
        events_view(final(out)@) == events_view(old(out)@) + each_events(s@, segment_sequence_properties_fn()),
{
    reveal(each_events);
    let mut k: usize = 0;
    assert(s@.take(0) =~= Seq::<SegmentSequenceProperties>::empty());
    assert(events_view(out@) =~= events_view(old(out)@) + each_events(s@.take(0), segment_sequence_properties_fn()));
    while k < s.len()
        invariant
            k <= s@.len(),
            events_view(out@) == events_view(old(out)@) + each_events(s@.take(k as int), segment_sequence_properties_fn()),
        decreases s.len() - k,
    {
        write_segment_sequence_properties(out, &s[k]);
        reveal(each_events);
        assert(s@.take(k + 1).drop_last() =~= s@.take(k as int));
        k = k + 1;
        assert(events_view(out@) =~= events_view(old(out)@) + each_events(s@.take(k as int), segment_sequence_properties_fn()));
    }
    assert(s@.take(k as int) =~= s@);
}

/// Writes `c` as `Certurl`.
fn write_cert_url(out: &mut Vec<WriteEvent>, c: &CertUrl)
    ensures
        events_view(final(out)@) == events_view(old(out)@) + cert_url_events(*c),
{
    let ghost before = events_view(out@);
    let mut attrs: Vec<(String, String)> = Vec::new();
    push_opt_attr(&mut attrs, "certType", &c.cert_type);
    assert(pairs_view(attrs@) =~= opt_attr("certType"@, c.cert_type));
    assert(pairs_view(attrs@) == cert_url_attrs(*c)) by {
        reveal(cert_url_attrs);
    }
    start_element(out, "Certurl", attrs);
    let ghost opened = events_view(out@);
    characters(out, &c.url);
    assert(seq![WriteEventV::Characters((*c).url@)] == cert_url_inner(*c)) by {
        reveal(cert_url_inner);
    }
    end_element(out);
    assert(events_view(out@) =~= before + cert_url_events(*c));
}

/// Writes each item of `s` as `Certurl`, in order.
fn write_cert_url_list(out: &mut Vec<WriteEvent>, s: &Vec<CertUrl>)
    ensures
        events_view(final(out)@) == events_view(old(out)@) + each_events(s@, cert_url_fn()),
{
    reveal(each_events);
    let mut k: usize = 0;
    assert(s@.take(0) =~= Seq::<CertUrl>::empty());
    assert(events_view(out@) =~= events_view(old(out)@) + each_events(s@.take(0), cert_url_fn()));
    while k < s.len()
        invariant
            k <= s@.len(),
            events_view(out@) == events_view(old(out)@) + each_events(s@.take(k as int), cert_url_fn()),
        decreases s.len() - k,
    {
        write_cert_url(out, &s[k]);
        reveal(each_events);
        assert(s@.take(k + 1).drop_last() =~= s@.take(k as int));
        k = k + 1;
        assert(events_view(out@) =~= events_view(old(out)@) + each_events(s@.take(k as int), cert_url_fn()));
    }
    assert(s@.take(k as int) =~= s@);
}

/// Writes `c` as `ContentProtection`.
fn write_content_protection(out: &mut Vec<WriteEvent>, c: &ContentProtection)
    ensures
        events_view(final(out)@) == events_view(old(out)@) + content_protection_events(*c),
{
    let ghost before = events_view(out@);
    let mut attrs: Vec<(String, String)> = Vec::new();
    push_attr(&mut attrs, "schemeIdUri", c.scheme_id_uri.clone());
    assert(pairs_view(attrs@) =~= seq![("schemeIdUri"@, c.scheme_id_uri@)]);
    push_opt_attr(&mut attrs, "value", &c.value);
    push_opt_attr(&mut attrs, "cenc:default_KID", &c.default_kid);
    push_opt_attr(&mut attrs, "robustness", &c.robustness);
    push_opt_attr(&mut attrs, "ref", &c.ref_);
    push_opt_attr(&mut attrs, "refId", &c.ref_id);
    assert(pairs_view(attrs@) == content_protection_attrs(*c)) by {
        reveal(content_protection_attrs);
    }
    start_element(out, "ContentProtection", attrs);
    let ghost opened = events_view(out@);
    write_text_element(out, "cenc:pssh", &c.pssh);
    write_text_element(out, "Laurl", &c.laurl);
    proof {
        lemma_concat_associative(opened, text_element_events("cenc:pssh"@, (*c).pssh), text_element_events("Laurl"@, (*c).laurl));
    }
    write_text_element(out, "pro", &c.pro);
    proof {
        lemma_concat_associative(opened,
            text_element_events("cenc:pssh"@,
            (*c).pssh) + text_element_events("Laurl"@,
            (*c).laurl),
            text_element_events("pro"@,
            (*c).pro));
    }
    write_cert_url_list(out, &c.certurls);
    proof {
        lemma_concat_associative(opened, text_element_events("cenc:pssh"@, (*c).pssh)
            + text_element_events("Laurl"@, (*c).laurl)
            + text_element_events("pro"@, (*c).pro), each_events((*c).certurls@, cert_url_fn()));
    }
    assert(text_element_events("cenc:pssh"@, (*c).pssh)
        + text_element_events("Laurl"@, (*c).laurl)
        + text_element_events("pro"@, (*c).pro)
        + each_events((*c).certurls@, cert_url_fn()) == content_protection_inner(*c)) by {
        reveal(content_protection_inner);
    }
    end_element(out);
    assert(events_view(out@) =~= before + content_protection_events(*c));
}

/// Writes each item of `s` as `ContentProtection`, in order.
fn write_content_protection_list(out: &mut Vec<WriteEvent>, s: &Vec<ContentProtection>)
    ensures
        events_view(final(out)@) == events_view(old(out)@) + each_events(s@, content_protection_fn()),
{
    reveal(each_events);
    let mut k: usize = 0;
    assert(s@.take(0) =~= Seq::<ContentProtection>::empty());
    assert(events_view(out@) =~= events_view(old(out)@) + each_events(s@.take(0), content_protection_fn()));
    while k < s.len()
        invariant
            k <= s@.len(),
            events_view(out@) == events_view(old(out)@) + each_events(s@.take(k as int), content_protection_fn()),
        decreases s.len() - k,
    {
        write_content_protection(out, &s[k]);
        reveal(each_events);
        assert(s@.take(k + 1).drop_last() =~= s@.take(k as int));
        k = k + 1;
        assert(events_view(out@) =~= events_view(old(out)@) + each_events(s@.take(k as int), content_protection_fn()));
    }
    assert(s@.take(k as int) =~= s@);
}

/// Writes `e` as `S`.
fn write_timeline_entry(out: &mut Vec<WriteEvent>, e: &TimelineEntry)
    ensures
        events_view(final(out)@) == events_view(old(out)@) + timeline_entry_events(*e),
{
    let ghost before = events_view(out@);
    let mut attrs: Vec<(String, String)> = Vec::new();
    push_attr(&mut attrs, "d", decimal_string(e.d));
    assert(pairs_view(attrs@) =~= seq![("d"@, decimal(e.d as nat))]);
    push_u64_attr(&mut attrs, "t", e.t);
    push_nonzero_signed_attr(&mut attrs, "r", e.r);
    push_u64_attr(&mut attrs, "k", e.k);
    assert(pairs_view(attrs@) == timeline_entry_attrs(*e)) by {
        reveal(timeline_entry_attrs);
    }
    start_element(out, "S", attrs);
    let ghost opened = events_view(out@);
    assert(events_view(out@) =~= opened + timeline_entry_inner(*e)) by {
        reveal(timeline_entry_inner);
    }
    end_element(out);
    assert(events_view(out@) =~= before + timeline_entry_events(*e));
}

/// Writes each item of `s` as `S`, in order.
fn write_timeline_entry_list(out: &mut Vec<WriteEvent>, s: &Vec<TimelineEntry>)
    ensures
        events_view(final(out)@) == events_view(old(out)@) + each_events(s@, timeline_entry_fn()),
{
    reveal(each_events);
    let mut k: usize = 0;
    assert(s@.take(0) =~= Seq::<TimelineEntry>::empty());
    assert(events_view(out@) =~= events_view(old(out)@) + each_events(s@.take(0), timeline_entry_fn()));
    while k < s.len()
        invariant
            k <= s@.len(),
            events_view(out@) == events_view(old(out)@) + each_events(s@.take(k as int), timeline_entry_fn()),
        decreases s.len() - k,
    {
        write_timeline_entry(out, &s[k]);
        reveal(each_events);
        assert(s@.take(k + 1).drop_last() =~= s@.take(k as int));
        k = k + 1;
        assert(events_view(out@) =~= events_view(old(out)@) + each_events(s@.take(k as int), timeline_entry_fn()));
    }
    assert(s@.take(k as int) =~= s@);
}

/// Writes `u` as `SegmentURL`.
fn write_segment_url(out: &mut Vec<WriteEvent>, u: &SegmentUrl)
    ensures
        events_view(final(out)@) == events_view(old(out)@) + segment_url_events(*u),
{
    let ghost before = events_view(out@);
    let mut attrs: Vec<(String, String)> = Vec::new();
    push_opt_attr(&mut attrs, "media", &u.media);
    assert(pairs_view(attrs@) =~= opt_attr("media"@, u.media));
    push_opt_attr(&mut attrs, "mediaRange", &u.media_range);
    push_opt_attr(&mut attrs, "indexRange", &u.index_range);
    assert(pairs_view(attrs@) == segment_url_attrs(*u)) by {
        reveal(segment_url_attrs);
    }
    start_element(out, "SegmentURL", attrs);
    let ghost opened = events_view(out@);
    assert(events_view(out@) =~= opened + segment_url_inner(*u)) by {
        reveal(segment_url_inner);
    }
    end_element(out);
    assert(events_view(out@) =~= before + segment_url_events(*u));
}

/// Writes each item of `s` as `SegmentURL`, in order.
fn write_segment_url_list(out: &mut Vec<WriteEvent>, s: &Vec<SegmentUrl>)
    ensures
        events_view(final(out)@) == events_view(old(out)@) + each_events(s@, segment_url_fn()),
{
    reveal(each_events);
    let mut k: usize = 0;
    assert(s@.take(0) =~= Seq::<SegmentUrl>::empty());
    assert(events_view(out@) =~= events_view(old(out)@) + each_events(s@.take(0), segment_url_fn()));
    while k < s.len()
        invariant
            k <= s@.len(),
            events_view(out@) == events_view(old(out)@) + each_events(s@.take(k as int), segment_url_fn()),
        decreases s.len() - k,
    {
        write_segment_url(out, &s[k]);
        reveal(each_events);
        assert(s@.take(k + 1).drop_last() =~= s@.take(k as int));
        k = k + 1;
        assert(events_view(out@) =~= events_view(old(out)@) + each_events(s@.take(k as int), segment_url_fn()));
    }
    assert(s@.take(k as int) =~= s@);
}

/// Writes `b` as `SegmentBase`.
fn write_segment_base(out: &mut Vec<WriteEvent>, b: &SegmentBase)
    ensures
        events_view(final(out)@) == events_view(old(out)@) + segment_base_events(*b),
{
    let ghost before = events_view(out@);
    let mut attrs: Vec<(String, String)> = Vec::new();
    push_attr(&mut attrs, "timescale", decimal_string(b.timescale));
    assert(pairs_view(attrs@) =~= seq![("timescale"@, decimal(b.timescale as nat))]);
    push_opt_attr(&mut attrs, "indexRange", &b.index_range);
    push_bool_attr(&mut attrs, "indexRangeExact", b.index_range_exact);
    push_nonzero_attr(&mut attrs, "presentationTimeOffset", b.presentation_time_offset);
    push_opt_attr(&mut attrs, "availabilityTimeOffset", &b.availability_time_offset);
    push_bool_attr(&mut attrs, "availabilityTimeComplete", b.availability_time_complete);
    assert(pairs_view(attrs@) == segment_base_attrs(*b)) by {
        reveal(segment_base_attrs);
    }
    start_element(out, "SegmentBase", attrs);
    let ghost opened = events_view(out@);
    write_pair(out, "Initialization", &b.initialization_source_url, &b.initialization_range);
    write_pair(out, "RepresentationIndex", &b.representation_index_source_url, &b.representation_index_range);
    proof {
        lemma_concat_associative(opened,
            pair_events("Initialization"@,
            (*b).initialization_source_url,
            (*b).initialization_range),
            pair_events("RepresentationIndex"@,
            (*b).representation_index_source_url,
            (*b).representation_index_range));
    }
    write_pair(out, "BitstreamSwitching", &b.bitstream_switching_source_url, &b.bitstream_switching_range);
    proof {
        lemma_concat_associative(opened,
            pair_events("Initialization"@,
            (*b).initialization_source_url,
            (*b).initialization_range) + pair_events("RepresentationIndex"@,
            (*b).representation_index_source_url,
            (*b).representation_index_range),
            pair_events("BitstreamSwitching"@,
            (*b).bitstream_switching_source_url,
            (*b).bitstream_switching_range));
    }
    assert(pair_events("Initialization"@, (*b).initialization_source_url, (*b).initialization_range)
        + pair_events("RepresentationIndex"@, (*b).representation_index_source_url, (*b).representation_index_range)
        + pair_events("BitstreamSwitching"@, (*b).bitstream_switching_source_url, (*b).bitstream_switching_range) == segment_base_inner(*b)) by {
        reveal(segment_base_inner);
    }
    end_element(out);
    assert(events_view(out@) =~= before + segment_base_events(*b));
}

/// Writes `l` as `SegmentList`.
fn write_segment_list(out: &mut Vec<WriteEvent>, l: &SegmentList)
    ensures
        events_view(final(out)@) == events_view(old(out)@) + segment_list_events(*l),
{
    let ghost before = events_view(out@);
    let mut attrs: Vec<(String, String)> = Vec::new();
    push_attr(&mut attrs, "timescale", decimal_string(l.timescale));
    assert(pairs_view(attrs@) =~= seq![("timescale"@, decimal(l.timescale as nat))]);
    push_attr(&mut attrs, "startNumber", decimal_string(l.start_number));
    push_opt_attr(&mut attrs, "xlink:href", &l.xlink_href);
    push_opt_attr(&mut attrs, "xlink:actuate", &l.xlink_actuate);
    push_u64_attr(&mut attrs, "endNumber", l.end_number);
    push_u64_attr(&mut attrs, "duration", l.duration);
    push_nonzero_attr(&mut attrs, "presentationTimeOffset", l.presentation_time_offset);
    push_opt_attr(&mut attrs, "availabilityTimeOffset", &l.availability_time_offset);
    push_bool_attr(&mut attrs, "availabilityTimeComplete", l.availability_time_complete);
    assert(pairs_view(attrs@) == segment_list_attrs(*l)) by {
        reveal(segment_list_attrs);
    }
    start_element(out, "SegmentList", attrs);
    let ghost opened = events_view(out@);
    write_pair(out, "Initialization", &l.initialization_source_url, &l.initialization_range);
    write_pair(out, "RepresentationIndex", &l.representation_index_source_url, &l.representation_index_range);
    proof {
        lemma_concat_associative(opened,
            pair_events("Initialization"@,
            (*l).initialization_source_url,
            (*l).initialization_range),
            pair_events("RepresentationIndex"@,
            (*l).representation_index_source_url,
            (*l).representation_index_range));
    }
    write_pair(out, "BitstreamSwitching", &l.bitstream_switching_source_url, &l.bitstream_switching_range);
    proof {
        lemma_concat_associative(opened,
            pair_events("Initialization"@,
            (*l).initialization_source_url,
            (*l).initialization_range) + pair_events("RepresentationIndex"@,
            (*l).representation_index_source_url,
            (*l).representation_index_range),
            pair_events("BitstreamSwitching"@,
            (*l).bitstream_switching_source_url,
            (*l).bitstream_switching_range));
    }
    write_opt_timeline(out, &l.segment_timeline);
    proof {
        lemma_concat_associative(opened, pair_events("Initialization"@, (*l).initialization_source_url, (*l).initialization_range)
            + pair_events("RepresentationIndex"@, (*l).representation_index_source_url, (*l).representation_index_range)
            + pair_events("BitstreamSwitching"@, (*l).bitstream_switching_source_url, (*l).bitstream_switching_range), opt_timeline_events((*l).segment_timeline));
    }
    write_segment_url_list(out, &l.segment_urls);
    proof {
        lemma_concat_associative(opened, pair_events("Initialization"@, (*l).initialization_source_url, (*l).initialization_range)
            + pair_events("RepresentationIndex"@, (*l).representation_index_source_url, (*l).representation_index_range)
            + pair_events("BitstreamSwitching"@, (*l).bitstream_switching_source_url, (*l).bitstream_switching_range)
            + opt_timeline_events((*l).segment_timeline), each_events((*l).segment_urls@, segment_url_fn()));
    }
    assert(pair_events("Initialization"@, (*l).initialization_source_url, (*l).initialization_range)
        + pair_events("RepresentationIndex"@, (*l).representation_index_source_url, (*l).representation_index_range)
        + pair_events("BitstreamSwitching"@, (*l).bitstream_switching_source_url, (*l).bitstream_switching_range)
        + opt_timeline_events((*l).segment_timeline)
        + each_events((*l).segment_urls@, segment_url_fn()) == segment_list_inner(*l)) by {
        reveal(segment_list_inner);
    }
    end_element(out);
    assert(events_view(out@) =~= before + segment_list_events(*l));
}

/// Writes `t` as `SegmentTemplate`.
fn write_segment_template(out: &mut Vec<WriteEvent>, t: &SegmentTemplate)
    ensures
        events_view(final(out)@) == events_view(old(out)@) + segment_template_events(*t),
{
    let ghost before = events_view(out@);
    let mut attrs: Vec<(String, String)> = Vec::new();
    push_attr(&mut attrs, "timescale", decimal_string(t.timescale));
    assert(pairs_view(attrs@) =~= seq![("timescale"@, decimal(t.timescale as nat))]);
    push_attr(&mut attrs, "startNumber", decimal_string(t.start_number));
    push_opt_attr(&mut attrs, "media", &t.media);
    push_opt_attr(&mut attrs, "initialization", &t.initialization);
    push_opt_attr(&mut attrs, "index", &t.index);
    push_u64_attr(&mut attrs, "duration", t.duration);
    push_u64_attr(&mut attrs, "endNumber", t.end_number);
    push_nonzero_attr(&mut attrs, "presentationTimeOffset", t.presentation_time_offset);
    push_opt_attr(&mut attrs, "availabilityTimeOffset", &t.availability_time_offset);
    push_bool_attr(&mut attrs, "availabilityTimeComplete", t.availability_time_complete);
    assert(pairs_view(attrs@) == segment_template_attrs(*t)) by {
        reveal(segment_template_attrs);
    }
    start_element(out, "SegmentTemplate", attrs);
    let ghost opened = events_view(out@);
    write_pair(out, "BitstreamSwitching", &t.bitstream_switching_source_url, &t.bitstream_switching_range);
    write_opt_timeline(out, &t.segment_timeline);
    proof {
        lemma_concat_associative(opened,
            pair_events("BitstreamSwitching"@,
            (*t).bitstream_switching_source_url,
            (*t).bitstream_switching_range),
            opt_timeline_events((*t).segment_timeline));
    }
    assert(pair_events("BitstreamSwitching"@,
        (*t).bitstream_switching_source_url,
        (*t).bitstream_switching_range) + opt_timeline_events((*t).segment_timeline) == segment_template_inner(*t)) by {
        reveal(segment_template_inner);
    }
    end_element(out);
    assert(events_view(out@) =~= before + segment_template_events(*t));
}

/// Writes `p` as `Preselection`.
fn write_preselection(out: &mut Vec<WriteEvent>, p: &Preselection)
    ensures
        events_view(final(out)@) == events_view(old(out)@) + preselection_events(*p),
{
    let ghost before = events_view(out@);
    let mut attrs: Vec<(String, String)> = Vec::new();
    push_opt_attr(&mut attrs, "id", &p.id);
    assert(pairs_view(attrs@) =~= opt_attr("id"@, p.id));
    push_opt_attr(&mut attrs, "preselectionComponents", &p.preselection_components);
    push_opt_attr(&mut attrs, "lang", &p.lang);
    push_opt_attr(&mut attrs, "tag", &p.tag);
    push_u32_attr(&mut attrs, "order", p.order);
    push_opt_attr(&mut attrs, "contentType", &p.content_type);
    push_opt_attr(&mut attrs, "mimeType", &p.mime_type);
    push_opt_attr(&mut attrs, "codecs", &p.codecs);
    assert(pairs_view(attrs@) == preselection_attrs(*p)) by {
        reveal(preselection_attrs);
    }
    start_element(out, "Preselection", attrs);
    let ghost opened = events_view(out@);
    write_descriptor_list(out, "Accessibility", &p.accessibilities);
    write_descriptor_list(out, "Role", &p.roles);
    proof {
        lemma_concat_associative(opened, each_events((*p).accessibilities@, descriptor_fn("Accessibility"@)), each_events((*p).roles@, descriptor_fn("Role"@)));
    }
    write_descriptor_list(out, "Viewpoint", &p.viewpoints);
    proof {
        lemma_concat_associative(opened,
            each_events((*p).accessibilities@,
            descriptor_fn("Accessibility"@)) + each_events((*p).roles@,
            descriptor_fn("Role"@)),
            each_events((*p).viewpoints@,
            descriptor_fn("Viewpoint"@)));
    }
    write_label_list(out, "Label", &p.labels);
    proof {
        lemma_concat_associative(opened, each_events((*p).accessibilities@, descriptor_fn("Accessibility"@))
            + each_events((*p).roles@, descriptor_fn("Role"@))
            + each_events((*p).viewpoints@, descriptor_fn("Viewpoint"@)), each_events((*p).labels@, label_fn("Label"@)));
    }
    write_descriptor_list(out, "EssentialProperty", &p.essential_properties);
    proof {
        lemma_concat_associative(opened, each_events((*p).accessibilities@, descriptor_fn("Accessibility"@))
            + each_events((*p).roles@, descriptor_fn("Role"@))
            + each_events((*p).viewpoints@, descriptor_fn("Viewpoint"@))
            + each_events((*p).labels@, label_fn("Label"@)), each_events((*p).essential_properties@, descriptor_fn("EssentialProperty"@)));
    }
    write_descriptor_list(out, "SupplementalProperty", &p.supplemental_properties);
    proof {
        lemma_concat_associative(opened, each_events((*p).accessibilities@, descriptor_fn("Accessibility"@))
            + each_events((*p).roles@, descriptor_fn("Role"@))
            + each_events((*p).viewpoints@, descriptor_fn("Viewpoint"@))
            + each_events((*p).labels@, label_fn("Label"@))
            + each_events((*p).essential_properties@, descriptor_fn("EssentialProperty"@)), each_events((*p).supplemental_properties@, descriptor_fn("SupplementalProperty"@)));
    }
    assert(each_events((*p).accessibilities@, descriptor_fn("Accessibility"@))
        + each_events((*p).roles@, descriptor_fn("Role"@))
        + each_events((*p).viewpoints@, descriptor_fn("Viewpoint"@))
        + each_events((*p).labels@, label_fn("Label"@))
        + each_events((*p).essential_properties@, descriptor_fn("EssentialProperty"@))
        + each_events((*p).supplemental_properties@, descriptor_fn("SupplementalProperty"@)) == preselection_inner(*p)) by {
        reveal(preselection_inner);
    }
    end_element(out);
    assert(events_view(out@) =~= before + preselection_events(*p));
}

/// Writes each item of `s` as `Preselection`, in order.
fn write_preselection_list(out: &mut Vec<WriteEvent>, s: &Vec<Preselection>)
    ensures
        events_view(final(out)@) == events_view(old(out)@) + each_events(s@, preselection_fn()),
{
    reveal(each_events);
    let mut k: usize = 0;
    assert(s@.take(0) =~= Seq::<Preselection>::empty());
    assert(events_view(out@) =~= events_view(old(out)@) + each_events(s@.take(0), preselection_fn()));
    while k < s.len()
        invariant
            k <= s@.len(),
            events_view(out@) == events_view(old(out)@) + each_events(s@.take(k as int), preselection_fn()),
        decreases s.len() - k,
    {
        write_preselection(out, &s[k]);
        reveal(each_events);
        assert(s@.take(k + 1).drop_last() =~= s@.take(k as int));
        k = k + 1;
        assert(events_view(out@) =~= events_view(old(out)@) + each_events(s@.take(k as int), preselection_fn()));
    }
    assert(s@.take(k as int) =~= s@);
}

/// Writes `s` as `Subset`.
fn write_subset(out: &mut Vec<WriteEvent>, s: &Subset)
    ensures
        events_view(final(out)@) == events_view(old(out)@) + subset_events(*s),
{
    let ghost before = events_view(out@);
    let mut attrs: Vec<(String, String)> = Vec::new();
    push_attr(&mut attrs, "contains", s.contains.clone());
    assert(pairs_view(attrs@) =~= seq![("contains"@, s.contains@)]);
    push_opt_attr(&mut attrs, "id", &s.id);
    assert(pairs_view(attrs@) == subset_attrs(*s)) by {
        reveal(subset_attrs);
    }
    start_element(out, "Subset", attrs);
    let ghost opened = events_view(out@);
    assert(events_view(out@) =~= opened + subset_inner(*s)) by {
        reveal(subset_inner);
    }
    end_element(out);
    assert(events_view(out@) =~= before + subset_events(*s));
}

/// Writes each item of `s` as `Subset`, in order.
fn write_subset_list(out: &mut Vec<WriteEvent>, s: &Vec<Subset>)
    ensures
        events_view(final(out)@) == events_view(old(out)@) + each_events(s@, subset_fn()),
{
    reveal(each_events);
    let mut k: usize = 0;
    assert(s@.take(0) =~= Seq::<Subset>::empty());
    assert(events_view(out@) =~= events_view(old(out)@) + each_events(s@.take(0), subset_fn()));
    while k < s.len()
        invariant
            k <= s@.len(),
            events_view(out@) == events_view(old(out)@) + each_events(s@.take(k as int), subset_fn()),
        decreases s.len() - k,
    {
        write_subset(out, &s[k]);
        reveal(each_events);
        assert(s@.take(k + 1).drop_last() =~= s@.take(k as int));
        k = k + 1;
        assert(events_view(out@) =~= events_view(old(out)@) + each_events(s@.take(k as int), subset_fn()));
    }
    assert(s@.take(k as int) =~= s@);
}

/// Writes `s` as `SubRepresentation`.
fn write_sub_representation(out: &mut Vec<WriteEvent>, s: &SubRepresentation)
    ensures
        events_view(final(out)@) == events_view(old(out)@) + sub_representation_events(*s),
{
    let ghost before = events_view(out@);
    let mut attrs: Vec<(String, String)> = Vec::new();
    push_u32_attr(&mut attrs, "level", s.level);
    assert(pairs_view(attrs@) =~= u32_attr("level"@, s.level));
    push_u64_attr(&mut attrs, "bandwidth", s.bandwidth);
    push_opt_attr(&mut attrs, "contentComponent", &s.content_component);
    push_opt_attr(&mut attrs, "codecs", &s.codecs);
    push_opt_attr(&mut attrs, "dependencyLevel", &s.dependency_level);
    push_u32_attr(&mut attrs, "width", s.width);
    push_u32_attr(&mut attrs, "height", s.height);
    push_opt_attr(&mut attrs, "mimeType", &s.mime_type);
    push_opt_attr(&mut attrs, "frameRate", &s.frame_rate);
    push_u32_attr(&mut attrs, "audioSamplingRate", s.audio_sampling_rate);
    push_opt_attr(&mut attrs, "sar", &s.sar);
    push_opt_attr(&mut attrs, "scanType", &s.scan_type);
    push_opt_attr(&mut attrs, "profiles", &s.profiles);
    push_u32_attr(&mut attrs, "startWithSAP", s.start_with_sap);
    push_opt_attr(&mut attrs, "maxPlayoutRate", &s.max_playout_rate);
    push_bool_attr(&mut attrs, "codingDependency", s.coding_dependency);
    push_opt_attr(&mut attrs, "maximumSAPPeriod", &s.maximum_sap_period);
    push_opt_attr(&mut attrs, "segmentProfiles", &s.segment_profiles);
    assert(pairs_view(attrs@) == sub_representation_attrs(*s)) by {
        reveal(sub_representation_attrs);
    }
    start_element(out, "SubRepresentation", attrs);
    let ghost opened = events_view(out@);
    write_content_protection_list(out, &s.content_protections);
    write_descriptor_list(out, "AudioChannelConfiguration", &s.audio_channel_configurations);
    proof {
        lemma_concat_associative(opened,
            each_events((*s).content_protections@,
            content_protection_fn()),
            each_events((*s).audio_channel_configurations@,
            descriptor_fn("AudioChannelConfiguration"@)));
    }
    write_descriptor_list(out, "FramePacking", &s.frame_packings);
    proof {
        lemma_concat_associative(opened,
            each_events((*s).content_protections@,
            content_protection_fn()) + each_events((*s).audio_channel_configurations@,
            descriptor_fn("AudioChannelConfiguration"@)),
            each_events((*s).frame_packings@,
            descriptor_fn("FramePacking"@)));
    }
    write_descriptor_list(out, "InbandEventStream", &s.inband_event_streams);
    proof {
        lemma_concat_associative(opened, each_events((*s).content_protections@, content_protection_fn())
            + each_events((*s).audio_channel_configurations@, descriptor_fn("AudioChannelConfiguration"@))
            + each_events((*s).frame_packings@, descriptor_fn("FramePacking"@)), each_events((*s).inband_event_streams@, descriptor_fn("InbandEventStream"@)));
    }
    write_descriptor_list(out, "EssentialProperty", &s.essential_properties);
    proof {
        lemma_concat_associative(opened, each_events((*s).content_protections@, content_protection_fn())
            + each_events((*s).audio_channel_configurations@, descriptor_fn("AudioChannelConfiguration"@))
            + each_events((*s).frame_packings@, descriptor_fn("FramePacking"@))
            + each_events((*s).inband_event_streams@, descriptor_fn("InbandEventStream"@)), each_events((*s).essential_properties@, descriptor_fn("EssentialProperty"@)));
    }
    write_descriptor_list(out, "SupplementalProperty", &s.supplemental_properties);
    proof {
        lemma_concat_associative(opened, each_events((*s).content_protections@, content_protection_fn())
            + each_events((*s).audio_channel_configurations@, descriptor_fn("AudioChannelConfiguration"@))
            + each_events((*s).frame_packings@, descriptor_fn("FramePacking"@))
            + each_events((*s).inband_event_streams@, descriptor_fn("InbandEventStream"@))
            + each_events((*s).essential_properties@, descriptor_fn("EssentialProperty"@)), each_events((*s).supplemental_properties@, descriptor_fn("SupplementalProperty"@)));
    }
    write_segment_sequence_properties_list(out, &s.segment_sequence_properties);
    proof {
        lemma_concat_associative(opened, each_events((*s).content_protections@, content_protection_fn())
            + each_events((*s).audio_channel_configurations@, descriptor_fn("AudioChannelConfiguration"@))
            + each_events((*s).frame_packings@, descriptor_fn("FramePacking"@))
            + each_events((*s).inband_event_streams@, descriptor_fn("InbandEventStream"@))
            + each_events((*s).essential_properties@, descriptor_fn("EssentialProperty"@))
            + each_events((*s).supplemental_properties@, descriptor_fn("SupplementalProperty"@)), each_events((*s).segment_sequence_properties@, segment_sequence_properties_fn()));
    }
    assert(each_events((*s).content_protections@, content_protection_fn())
        + each_events((*s).audio_channel_configurations@, descriptor_fn("AudioChannelConfiguration"@))
        + each_events((*s).frame_packings@, descriptor_fn("FramePacking"@))
        + each_events((*s).inband_event_streams@, descriptor_fn("InbandEventStream"@))
        + each_events((*s).essential_properties@, descriptor_fn("EssentialProperty"@))
        + each_events((*s).supplemental_properties@, descriptor_fn("SupplementalProperty"@))
        + each_events((*s).segment_sequence_properties@, segment_sequence_properties_fn()) == sub_representation_inner(*s)) by {
        reveal(sub_representation_inner);
    }
    end_element(out);
    assert(events_view(out@) =~= before + sub_representation_events(*s));
}

/// Writes each item of `s` as `SubRepresentation`, in order.
fn write_sub_representation_list(out: &mut Vec<WriteEvent>, s: &Vec<SubRepresentation>)
    ensures
        events_view(final(out)@) == events_view(old(out)@) + each_events(s@, sub_representation_fn()),
{
    reveal(each_events);
    let mut k: usize = 0;
    assert(s@.take(0) =~= Seq::<SubRepresentation>::empty());
    assert(events_view(out@) =~= events_view(old(out)@) + each_events(s@.take(0), sub_representation_fn()));
    while k < s.len()
        invariant
            k <= s@.len(),
            events_view(out@) == events_view(old(out)@) + each_events(s@.take(k as int), sub_representation_fn()),
        decreases s.len() - k,
    {
        write_sub_representation(out, &s[k]);
        reveal(each_events);
        assert(s@.take(k + 1).drop_last() =~= s@.take(k as int));
        k = k + 1;
        assert(events_view(out@) =~= events_view(old(out)@) + each_events(s@.take(k as int), sub_representation_fn()));
    }
    assert(s@.take(k as int) =~= s@);
}

/// Writes `r` as `Representation`.
fn write_representation(out: &mut Vec<WriteEvent>, r: &Representation)
    ensures
        events_view(final(out)@) == events_view(old(out)@) + representation_events(*r),
{
    let ghost before = events_view(out@);
    let mut attrs: Vec<(String, String)> = Vec::new();
    push_attr(&mut attrs, "id", r.id.clone());
    assert(pairs_view(attrs@) =~= seq![("id"@, r.id@)]);
    push_attr(&mut attrs, "bandwidth", decimal_string(r.bandwidth));
    push_opt_attr(&mut attrs, "mimeType", &r.mime_type);
    push_opt_attr(&mut attrs, "codecs", &r.codecs);
    push_u32_attr(&mut attrs, "width", r.width);
    push_u32_attr(&mut attrs, "height", r.height);
    push_opt_attr(&mut attrs, "frameRate", &r.frame_rate);
    push_u32_attr(&mut attrs, "audioSamplingRate", r.audio_sampling_rate);
    push_opt_attr(&mut attrs, "sar", &r.sar);
    push_u32_attr(&mut attrs, "qualityRanking", r.quality_ranking);
    push_opt_attr(&mut attrs, "dependencyId", &r.dependency_id);
    push_opt_attr(&mut attrs, "maxPlayoutRate", &r.max_playout_rate);
    push_opt_attr(&mut attrs, "scanType", &r.scan_type);
    push_u32_attr(&mut attrs, "startWithSAP", r.start_with_sap);
    push_opt_attr(&mut attrs, "profiles", &r.profiles);
    push_opt_attr(&mut attrs, "scte214:supplementalCodecs", &r.supplemental_codecs);
    push_bool_attr(&mut attrs, "codingDependency", r.coding_dependency);
    push_opt_attr(&mut attrs, "codecPrivateData", &r.codec_private_data);
    push_opt_attr(&mut attrs, "mediaStreamStructureId", &r.media_stream_structure_id);
    push_opt_attr(&mut attrs, "maximumSAPPeriod", &r.maximum_sap_period);
    push_opt_attr(&mut attrs, "segmentProfiles", &r.segment_profiles);
    assert(pairs_view(attrs@) == representation_attrs(*r)) by {
        reveal(representation_attrs);
    }
    start_element(out, "Representation", attrs);
    let ghost opened = events_view(out@);
    write_base_url_list(out, &r.base_urls);
    write_descriptor_list(out, "AudioChannelConfiguration", &r.audio_channel_configurations);
    proof {
        lemma_concat_associative(opened,
            each_events((*r).base_urls@,
            base_url_fn()),
            each_events((*r).audio_channel_configurations@,
            descriptor_fn("AudioChannelConfiguration"@)));
    }
    write_descriptor_list(out, "EssentialProperty", &r.essential_properties);
    proof {
        lemma_concat_associative(opened,
            each_events((*r).base_urls@,
            base_url_fn()) + each_events((*r).audio_channel_configurations@,
            descriptor_fn("AudioChannelConfiguration"@)),
            each_events((*r).essential_properties@,
            descriptor_fn("EssentialProperty"@)));
    }
    write_descriptor_list(out, "SupplementalProperty", &r.supplemental_properties);
    proof {
        lemma_concat_associative(opened, each_events((*r).base_urls@, base_url_fn())
            + each_events((*r).audio_channel_configurations@, descriptor_fn("AudioChannelConfiguration"@))
            + each_events((*r).essential_properties@, descriptor_fn("EssentialProperty"@)), each_events((*r).supplemental_properties@, descriptor_fn("SupplementalProperty"@)));
    }
    write_descriptor_list(out, "FramePacking", &r.frame_packings);
    proof {
        lemma_concat_associative(opened, each_events((*r).base_urls@, base_url_fn())
            + each_events((*r).audio_channel_configurations@, descriptor_fn("AudioChannelConfiguration"@))
            + each_events((*r).essential_properties@, descriptor_fn("EssentialProperty"@))
            + each_events((*r).supplemental_properties@, descriptor_fn("SupplementalProperty"@)), each_events((*r).frame_packings@, descriptor_fn("FramePacking"@)));
    }
    write_descriptor_list(out, "InbandEventStream", &r.inband_event_streams);
    proof {
        lemma_concat_associative(opened, each_events((*r).base_urls@, base_url_fn())
            + each_events((*r).audio_channel_configurations@, descriptor_fn("AudioChannelConfiguration"@))
            + each_events((*r).essential_properties@, descriptor_fn("EssentialProperty"@))
            + each_events((*r).supplemental_properties@, descriptor_fn("SupplementalProperty"@))
            + each_events((*r).frame_packings@, descriptor_fn("FramePacking"@)), each_events((*r).inband_event_streams@, descriptor_fn("InbandEventStream"@)));
    }
    write_producer_reference_time_list(out, &r.producer_reference_times);
    proof {
        lemma_concat_associative(opened, each_events((*r).base_urls@, base_url_fn())
            + each_events((*r).audio_channel_configurations@, descriptor_fn("AudioChannelConfiguration"@))
            + each_events((*r).essential_properties@, descriptor_fn("EssentialProperty"@))
            + each_events((*r).supplemental_properties@, descriptor_fn("SupplementalProperty"@))
            + each_events((*r).frame_packings@, descriptor_fn("FramePacking"@))
            + each_events((*r).inband_event_streams@, descriptor_fn("InbandEventStream"@)), each_events((*r).producer_reference_times@, producer_reference_time_fn()));
    }
    write_segment_sequence_properties_list(out, &r.segment_sequence_properties);
    proof {
        lemma_concat_associative(opened, each_events((*r).base_urls@, base_url_fn())
            + each_events((*r).audio_channel_configurations@, descriptor_fn("AudioChannelConfiguration"@))
            + each_events((*r).essential_properties@, descriptor_fn("EssentialProperty"@))
            + each_events((*r).supplemental_properties@, descriptor_fn("SupplementalProperty"@))
            + each_events((*r).frame_packings@, descriptor_fn("FramePacking"@))
            + each_events((*r).inband_event_streams@, descriptor_fn("InbandEventStream"@))
            + each_events((*r).producer_reference_times@, producer_reference_time_fn()), each_events((*r).segment_sequence_properties@, segment_sequence_properties_fn()));
    }
    write_sub_representation_list(out, &r.sub_representations);
    proof {
        lemma_concat_associative(opened, each_events((*r).base_urls@, base_url_fn())
            + each_events((*r).audio_channel_configurations@, descriptor_fn("AudioChannelConfiguration"@))
            + each_events((*r).essential_properties@, descriptor_fn("EssentialProperty"@))
            + each_events((*r).supplemental_properties@, descriptor_fn("SupplementalProperty"@))
            + each_events((*r).frame_packings@, descriptor_fn("FramePacking"@))
            + each_events((*r).inband_event_streams@, descriptor_fn("InbandEventStream"@))
            + each_events((*r).producer_reference_times@, producer_reference_time_fn())
            + each_events((*r).segment_sequence_properties@, segment_sequence_properties_fn()), each_events((*r).sub_representations@, sub_representation_fn()));
    }
    write_content_protection_list(out, &r.content_protections);
    proof {
        lemma_concat_associative(opened, each_events((*r).base_urls@, base_url_fn())
            + each_events((*r).audio_channel_configurations@, descriptor_fn("AudioChannelConfiguration"@))
            + each_events((*r).essential_properties@, descriptor_fn("EssentialProperty"@))
            + each_events((*r).supplemental_properties@, descriptor_fn("SupplementalProperty"@))
            + each_events((*r).frame_packings@, descriptor_fn("FramePacking"@))
            + each_events((*r).inband_event_streams@, descriptor_fn("InbandEventStream"@))
            + each_events((*r).producer_reference_times@, producer_reference_time_fn())
            + each_events((*r).segment_sequence_properties@, segment_sequence_properties_fn())
            + each_events((*r).sub_representations@, sub_representation_fn()), each_events((*r).content_protections@, content_protection_fn()));
    }
    write_segment_base_opt(out, &r.segment_base);
    proof {
        lemma_concat_associative(opened, each_events((*r).base_urls@, base_url_fn())
            + each_events((*r).audio_channel_configurations@, descriptor_fn("AudioChannelConfiguration"@))
            + each_events((*r).essential_properties@, descriptor_fn("EssentialProperty"@))
            + each_events((*r).supplemental_properties@, descriptor_fn("SupplementalProperty"@))
            + each_events((*r).frame_packings@, descriptor_fn("FramePacking"@))
            + each_events((*r).inband_event_streams@, descriptor_fn("InbandEventStream"@))
            + each_events((*r).producer_reference_times@, producer_reference_time_fn())
            + each_events((*r).segment_sequence_properties@, segment_sequence_properties_fn())
            + each_events((*r).sub_representations@, sub_representation_fn())
            + each_events((*r).content_protections@, content_protection_fn()), opt_events((*r).segment_base, segment_base_fn()));
    }
    write_segment_list_opt(out, &r.segment_list);
    proof {
        lemma_concat_associative(opened, each_events((*r).base_urls@, base_url_fn())
            + each_events((*r).audio_channel_configurations@, descriptor_fn("AudioChannelConfiguration"@))
            + each_events((*r).essential_properties@, descriptor_fn("EssentialProperty"@))
            + each_events((*r).supplemental_properties@, descriptor_fn("SupplementalProperty"@))
            + each_events((*r).frame_packings@, descriptor_fn("FramePacking"@))
            + each_events((*r).inband_event_streams@, descriptor_fn("InbandEventStream"@))
            + each_events((*r).producer_reference_times@, producer_reference_time_fn())
            + each_events((*r).segment_sequence_properties@, segment_sequence_properties_fn())
            + each_events((*r).sub_representations@, sub_representation_fn())
            + each_events((*r).content_protections@, content_protection_fn())
            + opt_events((*r).segment_base, segment_base_fn()), opt_events((*r).segment_list, segment_list_fn()));
    }
    write_segment_template_opt(out, &r.segment_template);
    proof {
        lemma_concat_associative(opened, each_events((*r).base_urls@, base_url_fn())
            + each_events((*r).audio_channel_configurations@, descriptor_fn("AudioChannelConfiguration"@))
            + each_events((*r).essential_properties@, descriptor_fn("EssentialProperty"@))
            + each_events((*r).supplemental_properties@, descriptor_fn("SupplementalProperty"@))
            + each_events((*r).frame_packings@, descriptor_fn("FramePacking"@))
            + each_events((*r).inband_event_streams@, descriptor_fn("InbandEventStream"@))
            + each_events((*r).producer_reference_times@, producer_reference_time_fn())
            + each_events((*r).segment_sequence_properties@, segment_sequence_properties_fn())
            + each_events((*r).sub_representations@, sub_representation_fn())
            + each_events((*r).content_protections@, content_protection_fn())
            + opt_events((*r).segment_base, segment_base_fn())
            + opt_events((*r).segment_list, segment_list_fn()), opt_events((*r).segment_template, segment_template_fn()));
    }
    assert(each_events((*r).base_urls@, base_url_fn())
        + each_events((*r).audio_channel_configurations@, descriptor_fn("AudioChannelConfiguration"@))
        + each_events((*r).essential_properties@, descriptor_fn("EssentialProperty"@))
        + each_events((*r).supplemental_properties@, descriptor_fn("SupplementalProperty"@))
        + each_events((*r).frame_packings@, descriptor_fn("FramePacking"@))
        + each_events((*r).inband_event_streams@, descriptor_fn("InbandEventStream"@))
        + each_events((*r).producer_reference_times@, producer_reference_time_fn())
        + each_events((*r).segment_sequence_properties@, segment_sequence_properties_fn())
        + each_events((*r).sub_representations@, sub_representation_fn())
        + each_events((*r).content_protections@, content_protection_fn())
        + opt_events((*r).segment_base, segment_base_fn())
        + opt_events((*r).segment_list, segment_list_fn())
        + opt_events((*r).segment_template, segment_template_fn()) == representation_inner(*r)) by {
        reveal(representation_inner);
    }
    end_element(out);
    assert(events_view(out@) =~= before + representation_events(*r));
}

/// Writes each item of `s` as `Representation`, in order.
fn write_representation_list(out: &mut Vec<WriteEvent>, s: &Vec<Representation>)
    ensures
        events_view(final(out)@) == events_view(old(out)@) + each_events(s@, representation_fn()),
{
    reveal(each_events);
    let mut k: usize = 0;
    assert(s@.take(0) =~= Seq::<Representation>::empty());
    assert(events_view(out@) =~= events_view(old(out)@) + each_events(s@.take(0), representation_fn()));
    while k < s.len()
        invariant
            k <= s@.len(),
            events_view(out@) == events_view(old(out)@) + each_events(s@.take(k as int), representation_fn()),
        decreases s.len() - k,
    {
        write_representation(out, &s[k]);
        reveal(each_events);
        assert(s@.take(k + 1).drop_last() =~= s@.take(k as int));
        k = k + 1;
        assert(events_view(out@) =~= events_view(old(out)@) + each_events(s@.take(k as int), representation_fn()));
    }
    assert(s@.take(k as int) =~= s@);
}

/// Writes `a` as `AdaptationSet`.
fn write_adaptation_set(out: &mut Vec<WriteEvent>, a: &AdaptationSet)
    ensures
        events_view(final(out)@) == events_view(old(out)@) + adaptation_set_events(*a),
{
    let ghost before = events_view(out@);
    let mut attrs: Vec<(String, String)> = Vec::new();
    push_u32_attr(&mut attrs, "id", a.id);
    assert(pairs_view(attrs@) =~= u32_attr("id"@, a.id));
    push_opt_attr(&mut attrs, "mimeType", &a.mime_type);
    push_opt_attr(&mut attrs, "codecs", &a.codecs);
    push_content_type_attr(&mut attrs, "contentType", a.content_type);
    push_opt_attr(&mut attrs, "lang", &a.lang);
    push_u32_attr(&mut attrs, "width", a.width);
    push_u32_attr(&mut attrs, "height", a.height);
    push_opt_attr(&mut attrs, "frameRate", &a.frame_rate);
    push_u32_attr(&mut attrs, "minWidth", a.min_width);
    push_u32_attr(&mut attrs, "minHeight", a.min_height);
    push_opt_attr(&mut attrs, "minFrameRate", &a.min_frame_rate);
    push_u64_attr(&mut attrs, "minBandwidth", a.min_bandwidth);
    push_u64_attr(&mut attrs, "maxBandwidth", a.max_bandwidth);
    push_u32_attr(&mut attrs, "maxWidth", a.max_width);
    push_u32_attr(&mut attrs, "maxHeight", a.max_height);
    push_opt_attr(&mut attrs, "maxFrameRate", &a.max_frame_rate);
    push_opt_attr(&mut attrs, "par", &a.par);
    push_u32_attr(&mut attrs, "audioSamplingRate", a.audio_sampling_rate);
    push_opt_attr(&mut attrs, "sar", &a.sar);
    push_opt_attr(&mut attrs, "profiles", &a.profiles);
    push_opt_attr(&mut attrs, "scanType", &a.scan_type);
    push_u32_attr(&mut attrs, "startWithSAP", a.start_with_sap);
    push_opt_attr(&mut attrs, "maxPlayoutRate", &a.max_playout_rate);
    push_u32_attr(&mut attrs, "selectionPriority", a.selection_priority);
    push_opt_attr(&mut attrs, "scte214:supplementalCodecs", &a.supplemental_codecs);
    push_bool_attr(&mut attrs, "codingDependency", a.coding_dependency);
    push_opt_attr(&mut attrs, "maximumSAPPeriod", &a.maximum_sap_period);
    push_opt_attr(&mut attrs, "segmentProfiles", &a.segment_profiles);
    push_true_attr(&mut attrs, "segmentAlignment", a.segment_alignment);
    push_true_attr(&mut attrs, "subsegmentAlignment", a.subsegment_alignment);
    push_bool_attr(&mut attrs, "bitstreamSwitching", a.bitstream_switching);
    assert(pairs_view(attrs@) == adaptation_set_attrs(*a)) by {
        reveal(adaptation_set_attrs);
    }
    start_element(out, "AdaptationSet", attrs);
    let ghost opened = events_view(out@);
    write_base_url_list(out, &a.base_urls);
    write_descriptor_list(out, "Role", &a.roles);
    proof {
        lemma_concat_associative(opened, each_events((*a).base_urls@, base_url_fn()), each_events((*a).roles@, descriptor_fn("Role"@)));
    }
    write_descriptor_list(out, "Accessibility", &a.accessibilities);
    proof {
        lemma_concat_associative(opened,
            each_events((*a).base_urls@,
            base_url_fn()) + each_events((*a).roles@,
            descriptor_fn("Role"@)),
            each_events((*a).accessibilities@,
            descriptor_fn("Accessibility"@)));
    }
    write_descriptor_list(out, "AudioChannelConfiguration", &a.audio_channel_configurations);
    proof {
        lemma_concat_associative(opened, each_events((*a).base_urls@, base_url_fn())
            + each_events((*a).roles@, descriptor_fn("Role"@))
            + each_events((*a).accessibilities@, descriptor_fn("Accessibility"@)), each_events((*a).audio_channel_configurations@, descriptor_fn("AudioChannelConfiguration"@)));
    }
    write_label_list(out, "Label", &a.labels);
    proof {
        lemma_concat_associative(opened, each_events((*a).base_urls@, base_url_fn())
            + each_events((*a).roles@, descriptor_fn("Role"@))
            + each_events((*a).accessibilities@, descriptor_fn("Accessibility"@))
            + each_events((*a).audio_channel_configurations@, descriptor_fn("AudioChannelConfiguration"@)), each_events((*a).labels@, label_fn("Label"@)));
    }
    write_label_list(out, "GroupLabel", &a.group_labels);
    proof {
        lemma_concat_associative(opened, each_events((*a).base_urls@, base_url_fn())
            + each_events((*a).roles@, descriptor_fn("Role"@))
            + each_events((*a).accessibilities@, descriptor_fn("Accessibility"@))
            + each_events((*a).audio_channel_configurations@, descriptor_fn("AudioChannelConfiguration"@))
            + each_events((*a).labels@, label_fn("Label"@)), each_events((*a).group_labels@, label_fn("GroupLabel"@)));
    }
    write_descriptor_list(out, "EssentialProperty", &a.essential_properties);
    proof {
        lemma_concat_associative(opened, each_events((*a).base_urls@, base_url_fn())
            + each_events((*a).roles@, descriptor_fn("Role"@))
            + each_events((*a).accessibilities@, descriptor_fn("Accessibility"@))
            + each_events((*a).audio_channel_configurations@, descriptor_fn("AudioChannelConfiguration"@))
            + each_events((*a).labels@, label_fn("Label"@))
            + each_events((*a).group_labels@, label_fn("GroupLabel"@)), each_events((*a).essential_properties@, descriptor_fn("EssentialProperty"@)));
    }
    write_descriptor_list(out, "SupplementalProperty", &a.supplemental_properties);
    proof {
        lemma_concat_associative(opened, each_events((*a).base_urls@, base_url_fn())
            + each_events((*a).roles@, descriptor_fn("Role"@))
            + each_events((*a).accessibilities@, descriptor_fn("Accessibility"@))
            + each_events((*a).audio_channel_configurations@, descriptor_fn("AudioChannelConfiguration"@))
            + each_events((*a).labels@, label_fn("Label"@))
            + each_events((*a).group_labels@, label_fn("GroupLabel"@))
            + each_events((*a).essential_properties@, descriptor_fn("EssentialProperty"@)), each_events((*a).supplemental_properties@, descriptor_fn("SupplementalProperty"@)));
    }
    write_descriptor_list(out, "Viewpoint", &a.viewpoints);
    proof {
        lemma_concat_associative(opened, each_events((*a).base_urls@, base_url_fn())
            + each_events((*a).roles@, descriptor_fn("Role"@))
            + each_events((*a).accessibilities@, descriptor_fn("Accessibility"@))
            + each_events((*a).audio_channel_configurations@, descriptor_fn("AudioChannelConfiguration"@))
            + each_events((*a).labels@, label_fn("Label"@))
            + each_events((*a).group_labels@, label_fn("GroupLabel"@))
            + each_events((*a).essential_properties@, descriptor_fn("EssentialProperty"@))
            + each_events((*a).supplemental_properties@, descriptor_fn("SupplementalProperty"@)), each_events((*a).viewpoints@, descriptor_fn("Viewpoint"@)));
    }
    write_descriptor_list(out, "FramePacking", &a.frame_packings);
    proof {
        lemma_concat_associative(opened, each_events((*a).base_urls@, base_url_fn())
            + each_events((*a).roles@, descriptor_fn("Role"@))
            + each_events((*a).accessibilities@, descriptor_fn("Accessibility"@))
            + each_events((*a).audio_channel_configurations@, descriptor_fn("AudioChannelConfiguration"@))
            + each_events((*a).labels@, label_fn("Label"@))
            + each_events((*a).group_labels@, label_fn("GroupLabel"@))
            + each_events((*a).essential_properties@, descriptor_fn("EssentialProperty"@))
            + each_events((*a).supplemental_properties@, descriptor_fn("SupplementalProperty"@))
            + each_events((*a).viewpoints@, descriptor_fn("Viewpoint"@)), each_events((*a).frame_packings@, descriptor_fn("FramePacking"@)));
    }
    write_descriptor_list(out, "InbandEventStream", &a.inband_event_streams);
    proof {
        lemma_concat_associative(opened, each_events((*a).base_urls@, base_url_fn())
            + each_events((*a).roles@, descriptor_fn("Role"@))
            + each_events((*a).accessibilities@, descriptor_fn("Accessibility"@))
            + each_events((*a).audio_channel_configurations@, descriptor_fn("AudioChannelConfiguration"@))
            + each_events((*a).labels@, label_fn("Label"@))
            + each_events((*a).group_labels@, label_fn("GroupLabel"@))
            + each_events((*a).essential_properties@, descriptor_fn("EssentialProperty"@))
            + each_events((*a).supplemental_properties@, descriptor_fn("SupplementalProperty"@))
            + each_events((*a).viewpoints@, descriptor_fn("Viewpoint"@))
            + each_events((*a).frame_packings@, descriptor_fn("FramePacking"@)), each_events((*a).inband_event_streams@, descriptor_fn("InbandEventStream"@)));
    }
    write_producer_reference_time_list(out, &a.producer_reference_times);
    proof {
        lemma_concat_associative(opened, each_events((*a).base_urls@, base_url_fn())
            + each_events((*a).roles@, descriptor_fn("Role"@))
            + each_events((*a).accessibilities@, descriptor_fn("Accessibility"@))
            + each_events((*a).audio_channel_configurations@, descriptor_fn("AudioChannelConfiguration"@))
            + each_events((*a).labels@, label_fn("Label"@))
            + each_events((*a).group_labels@, label_fn("GroupLabel"@))
            + each_events((*a).essential_properties@, descriptor_fn("EssentialProperty"@))
            + each_events((*a).supplemental_properties@, descriptor_fn("SupplementalProperty"@))
            + each_events((*a).viewpoints@, descriptor_fn("Viewpoint"@))
            + each_events((*a).frame_packings@, descriptor_fn("FramePacking"@))
            + each_events((*a).inband_event_streams@, descriptor_fn("InbandEventStream"@)), each_events((*a).producer_reference_times@, producer_reference_time_fn()));
    }
    write_content_component_list(out, &a.content_components);
    proof {
        lemma_concat_associative(opened, each_events((*a).base_urls@, base_url_fn())
            + each_events((*a).roles@, descriptor_fn("Role"@))
            + each_events((*a).accessibilities@, descriptor_fn("Accessibility"@))
            + each_events((*a).audio_channel_configurations@, descriptor_fn("AudioChannelConfiguration"@))
            + each_events((*a).labels@, label_fn("Label"@))
            + each_events((*a).group_labels@, label_fn("GroupLabel"@))
            + each_events((*a).essential_properties@, descriptor_fn("EssentialProperty"@))
            + each_events((*a).supplemental_properties@, descriptor_fn("SupplementalProperty"@))
            + each_events((*a).viewpoints@, descriptor_fn("Viewpoint"@))
            + each_events((*a).frame_packings@, descriptor_fn("FramePacking"@))
            + each_events((*a).inband_event_streams@, descriptor_fn("InbandEventStream"@))
            + each_events((*a).producer_reference_times@, producer_reference_time_fn()), each_events((*a).content_components@, content_component_fn()));
    }
    write_segment_sequence_properties_list(out, &a.segment_sequence_properties);
    proof {
        lemma_concat_associative(opened, each_events((*a).base_urls@, base_url_fn())
            + each_events((*a).roles@, descriptor_fn("Role"@))
            + each_events((*a).accessibilities@, descriptor_fn("Accessibility"@))
            + each_events((*a).audio_channel_configurations@, descriptor_fn("AudioChannelConfiguration"@))
            + each_events((*a).labels@, label_fn("Label"@))
            + each_events((*a).group_labels@, label_fn("GroupLabel"@))
            + each_events((*a).essential_properties@, descriptor_fn("EssentialProperty"@))
            + each_events((*a).supplemental_properties@, descriptor_fn("SupplementalProperty"@))
            + each_events((*a).viewpoints@, descriptor_fn("Viewpoint"@))
            + each_events((*a).frame_packings@, descriptor_fn("FramePacking"@))
            + each_events((*a).inband_event_streams@, descriptor_fn("InbandEventStream"@))
            + each_events((*a).producer_reference_times@, producer_reference_time_fn())
            + each_events((*a).content_components@, content_component_fn()), each_events((*a).segment_sequence_properties@, segment_sequence_properties_fn()));
    }
    write_event_stream_list(out, &a.event_streams);
    proof {
        lemma_concat_associative(opened, each_events((*a).base_urls@, base_url_fn())
            + each_events((*a).roles@, descriptor_fn("Role"@))
            + each_events((*a).accessibilities@, descriptor_fn("Accessibility"@))
            + each_events((*a).audio_channel_configurations@, descriptor_fn("AudioChannelConfiguration"@))
            + each_events((*a).labels@, label_fn("Label"@))
            + each_events((*a).group_labels@, label_fn("GroupLabel"@))
            + each_events((*a).essential_properties@, descriptor_fn("EssentialProperty"@))
            + each_events((*a).supplemental_properties@, descriptor_fn("SupplementalProperty"@))
            + each_events((*a).viewpoints@, descriptor_fn("Viewpoint"@))
            + each_events((*a).frame_packings@, descriptor_fn("FramePacking"@))
            + each_events((*a).inband_event_streams@, descriptor_fn("InbandEventStream"@))
            + each_events((*a).producer_reference_times@, producer_reference_time_fn())
            + each_events((*a).content_components@, content_component_fn())
            + each_events((*a).segment_sequence_properties@, segment_sequence_properties_fn()), each_events((*a).event_streams@, event_stream_fn()));
    }
    write_content_protection_list(out, &a.content_protections);
    proof {
        lemma_concat_associative(opened, each_events((*a).base_urls@, base_url_fn())
            + each_events((*a).roles@, descriptor_fn("Role"@))
            + each_events((*a).accessibilities@, descriptor_fn("Accessibility"@))
            + each_events((*a).audio_channel_configurations@, descriptor_fn("AudioChannelConfiguration"@))
            + each_events((*a).labels@, label_fn("Label"@))
            + each_events((*a).group_labels@, label_fn("GroupLabel"@))
            + each_events((*a).essential_properties@, descriptor_fn("EssentialProperty"@))
            + each_events((*a).supplemental_properties@, descriptor_fn("SupplementalProperty"@))
            + each_events((*a).viewpoints@, descriptor_fn("Viewpoint"@))
            + each_events((*a).frame_packings@, descriptor_fn("FramePacking"@))
            + each_events((*a).inband_event_streams@, descriptor_fn("InbandEventStream"@))
            + each_events((*a).producer_reference_times@, producer_reference_time_fn())
            + each_events((*a).content_components@, content_component_fn())
            + each_events((*a).segment_sequence_properties@, segment_sequence_properties_fn())
            + each_events((*a).event_streams@, event_stream_fn()), each_events((*a).content_protections@, content_protection_fn()));
    }
    write_segment_base_opt(out, &a.segment_base);
    proof {
        lemma_concat_associative(opened, each_events((*a).base_urls@, base_url_fn())
            + each_events((*a).roles@, descriptor_fn("Role"@))
            + each_events((*a).accessibilities@, descriptor_fn("Accessibility"@))
            + each_events((*a).audio_channel_configurations@, descriptor_fn("AudioChannelConfiguration"@))
            + each_events((*a).labels@, label_fn("Label"@))
            + each_events((*a).group_labels@, label_fn("GroupLabel"@))
            + each_events((*a).essential_properties@, descriptor_fn("EssentialProperty"@))
            + each_events((*a).supplemental_properties@, descriptor_fn("SupplementalProperty"@))
            + each_events((*a).viewpoints@, descriptor_fn("Viewpoint"@))
            + each_events((*a).frame_packings@, descriptor_fn("FramePacking"@))
            + each_events((*a).inband_event_streams@, descriptor_fn("InbandEventStream"@))
            + each_events((*a).producer_reference_times@, producer_reference_time_fn())
            + each_events((*a).content_components@, content_component_fn())
            + each_events((*a).segment_sequence_properties@, segment_sequence_properties_fn())
            + each_events((*a).event_streams@, event_stream_fn())
            + each_events((*a).content_protections@, content_protection_fn()), opt_events((*a).segment_base, segment_base_fn()));
    }
    write_segment_list_opt(out, &a.segment_list);
    proof {
        lemma_concat_associative(opened, each_events((*a).base_urls@, base_url_fn())
            + each_events((*a).roles@, descriptor_fn("Role"@))
            + each_events((*a).accessibilities@, descriptor_fn("Accessibility"@))
            + each_events((*a).audio_channel_configurations@, descriptor_fn("AudioChannelConfiguration"@))
            + each_events((*a).labels@, label_fn("Label"@))
            + each_events((*a).group_labels@, label_fn("GroupLabel"@))
            + each_events((*a).essential_properties@, descriptor_fn("EssentialProperty"@))
            + each_events((*a).supplemental_properties@, descriptor_fn("SupplementalProperty"@))
            + each_events((*a).viewpoints@, descriptor_fn("Viewpoint"@))
            + each_events((*a).frame_packings@, descriptor_fn("FramePacking"@))
            + each_events((*a).inband_event_streams@, descriptor_fn("InbandEventStream"@))
            + each_events((*a).producer_reference_times@, producer_reference_time_fn())
            + each_events((*a).content_components@, content_component_fn())
            + each_events((*a).segment_sequence_properties@, segment_sequence_properties_fn())
            + each_events((*a).event_streams@, event_stream_fn())
            + each_events((*a).content_protections@, content_protection_fn())
            + opt_events((*a).segment_base, segment_base_fn()), opt_events((*a).segment_list, segment_list_fn()));
    }
    write_segment_template_opt(out, &a.segment_template);
    proof {
        lemma_concat_associative(opened, each_events((*a).base_urls@, base_url_fn())
            + each_events((*a).roles@, descriptor_fn("Role"@))
            + each_events((*a).accessibilities@, descriptor_fn("Accessibility"@))
            + each_events((*a).audio_channel_configurations@, descriptor_fn("AudioChannelConfiguration"@))
            + each_events((*a).labels@, label_fn("Label"@))
            + each_events((*a).group_labels@, label_fn("GroupLabel"@))
            + each_events((*a).essential_properties@, descriptor_fn("EssentialProperty"@))
            + each_events((*a).supplemental_properties@, descriptor_fn("SupplementalProperty"@))
            + each_events((*a).viewpoints@, descriptor_fn("Viewpoint"@))
            + each_events((*a).frame_packings@, descriptor_fn("FramePacking"@))
            + each_events((*a).inband_event_streams@, descriptor_fn("InbandEventStream"@))
            + each_events((*a).producer_reference_times@, producer_reference_time_fn())
            + each_events((*a).content_components@, content_component_fn())
            + each_events((*a).segment_sequence_properties@, segment_sequence_properties_fn())
            + each_events((*a).event_streams@, event_stream_fn())
            + each_events((*a).content_protections@, content_protection_fn())
            + opt_events((*a).segment_base, segment_base_fn())
            + opt_events((*a).segment_list, segment_list_fn()), opt_events((*a).segment_template, segment_template_fn()));
    }
    write_representation_list(out, &a.representations);
    proof {
        lemma_concat_associative(opened, each_events((*a).base_urls@, base_url_fn())
            + each_events((*a).roles@, descriptor_fn("Role"@))
            + each_events((*a).accessibilities@, descriptor_fn("Accessibility"@))
            + each_events((*a).audio_channel_configurations@, descriptor_fn("AudioChannelConfiguration"@))
            + each_events((*a).labels@, label_fn("Label"@))
            + each_events((*a).group_labels@, label_fn("GroupLabel"@))
            + each_events((*a).essential_properties@, descriptor_fn("EssentialProperty"@))
            + each_events((*a).supplemental_properties@, descriptor_fn("SupplementalProperty"@))
            + each_events((*a).viewpoints@, descriptor_fn("Viewpoint"@))
            + each_events((*a).frame_packings@, descriptor_fn("FramePacking"@))
            + each_events((*a).inband_event_streams@, descriptor_fn("InbandEventStream"@))
            + each_events((*a).producer_reference_times@, producer_reference_time_fn())
            + each_events((*a).content_components@, content_component_fn())
            + each_events((*a).segment_sequence_properties@, segment_sequence_properties_fn())
            + each_events((*a).event_streams@, event_stream_fn())
            + each_events((*a).content_protections@, content_protection_fn())
            + opt_events((*a).segment_base, segment_base_fn())
            + opt_events((*a).segment_list, segment_list_fn())
            + opt_events((*a).segment_template, segment_template_fn()), each_events((*a).representations@, representation_fn()));
    }
    assert(each_events((*a).base_urls@, base_url_fn())
        + each_events((*a).roles@, descriptor_fn("Role"@))
        + each_events((*a).accessibilities@, descriptor_fn("Accessibility"@))
        + each_events((*a).audio_channel_configurations@, descriptor_fn("AudioChannelConfiguration"@))
        + each_events((*a).labels@, label_fn("Label"@))
        + each_events((*a).group_labels@, label_fn("GroupLabel"@))
        + each_events((*a).essential_properties@, descriptor_fn("EssentialProperty"@))
        + each_events((*a).supplemental_properties@, descriptor_fn("SupplementalProperty"@))
        + each_events((*a).viewpoints@, descriptor_fn("Viewpoint"@))
        + each_events((*a).frame_packings@, descriptor_fn("FramePacking"@))
        + each_events((*a).inband_event_streams@, descriptor_fn("InbandEventStream"@))
        + each_events((*a).producer_reference_times@, producer_reference_time_fn())
        + each_events((*a).content_components@, content_component_fn())
        + each_events((*a).segment_sequence_properties@, segment_sequence_properties_fn())
        + each_events((*a).event_streams@, event_stream_fn())
        + each_events((*a).content_protections@, content_protection_fn())
        + opt_events((*a).segment_base, segment_base_fn())
        + opt_events((*a).segment_list, segment_list_fn())
        + opt_events((*a).segment_template, segment_template_fn())
        + each_events((*a).representations@, representation_fn()) == adaptation_set_inner(*a)) by {
        reveal(adaptation_set_inner);
    }
    end_element(out);
    assert(events_view(out@) =~= before + adaptation_set_events(*a));
}

/// Writes each item of `s` as `AdaptationSet`, in order.
fn write_adaptation_set_list(out: &mut Vec<WriteEvent>, s: &Vec<AdaptationSet>)
    ensures
        events_view(final(out)@) == events_view(old(out)@) + each_events(s@, adaptation_set_fn()),
{
    reveal(each_events);
    let mut k: usize = 0;
    assert(s@.take(0) =~= Seq::<AdaptationSet>::empty());
    assert(events_view(out@) =~= events_view(old(out)@) + each_events(s@.take(0), adaptation_set_fn()));
    while k < s.len()
        invariant
            k <= s@.len(),
            events_view(out@) == events_view(old(out)@) + each_events(s@.take(k as int), adaptation_set_fn()),
        decreases s.len() - k,
    {
        write_adaptation_set(out, &s[k]);
        reveal(each_events);
        assert(s@.take(k + 1).drop_last() =~= s@.take(k as int));
        k = k + 1;
        assert(events_view(out@) =~= events_view(old(out)@) + each_events(s@.take(k as int), adaptation_set_fn()));
    }
    assert(s@.take(k as int) =~= s@);
}

/// Writes `p` as `Period`.
fn write_period(out: &mut Vec<WriteEvent>, p: &Period)
    ensures
        events_view(final(out)@) == events_view(old(out)@) + period_events(*p),
{
    let ghost before = events_view(out@);
    let mut attrs: Vec<(String, String)> = Vec::new();
    push_opt_attr(&mut attrs, "id", &p.id);
    assert(pairs_view(attrs@) =~= opt_attr("id"@, p.id));
    push_opt_attr(&mut attrs, "start", &p.start);
    push_opt_attr(&mut attrs, "duration", &p.duration);
    push_opt_attr(&mut attrs, "xlink:href", &p.xlink_href);
    push_opt_attr(&mut attrs, "xlink:actuate", &p.xlink_actuate);
    assert(pairs_view(attrs@) == period_attrs(*p)) by {
        reveal(period_attrs);
    }
    start_element(out, "Period", attrs);
    let ghost opened = events_view(out@);
    write_base_url_list(out, &p.base_urls);
    write_segment_base_opt(out, &p.segment_base);
    proof {
        lemma_concat_associative(opened, each_events((*p).base_urls@, base_url_fn()), opt_events((*p).segment_base, segment_base_fn()));
    }
    write_segment_list_opt(out, &p.segment_list);
    proof {
        lemma_concat_associative(opened,
            each_events((*p).base_urls@,
            base_url_fn()) + opt_events((*p).segment_base,
            segment_base_fn()),
            opt_events((*p).segment_list,
            segment_list_fn()));
    }
    write_segment_template_opt(out, &p.segment_template);
    proof {
        lemma_concat_associative(opened, each_events((*p).base_urls@, base_url_fn())
            + opt_events((*p).segment_base, segment_base_fn())
            + opt_events((*p).segment_list, segment_list_fn()), opt_events((*p).segment_template, segment_template_fn()));
    }
    write_descriptor_opt(out, "AssetIdentifier", &p.asset_identifier);
    proof {
        lemma_concat_associative(opened, each_events((*p).base_urls@, base_url_fn())
            + opt_events((*p).segment_base, segment_base_fn())
            + opt_events((*p).segment_list, segment_list_fn())
            + opt_events((*p).segment_template, segment_template_fn()), opt_events((*p).asset_identifier, descriptor_fn("AssetIdentifier"@)));
    }
    write_event_stream_list(out, &p.event_streams);
    proof {
        lemma_concat_associative(opened, each_events((*p).base_urls@, base_url_fn())
            + opt_events((*p).segment_base, segment_base_fn())
            + opt_events((*p).segment_list, segment_list_fn())
            + opt_events((*p).segment_template, segment_template_fn())
            + opt_events((*p).asset_identifier, descriptor_fn("AssetIdentifier"@)), each_events((*p).event_streams@, event_stream_fn()));
    }
    write_adaptation_set_list(out, &p.adaptation_sets);
    proof {
        lemma_concat_associative(opened, each_events((*p).base_urls@, base_url_fn())
            + opt_events((*p).segment_base, segment_base_fn())
            + opt_events((*p).segment_list, segment_list_fn())
            + opt_events((*p).segment_template, segment_template_fn())
            + opt_events((*p).asset_identifier, descriptor_fn("AssetIdentifier"@))
            + each_events((*p).event_streams@, event_stream_fn()), each_events((*p).adaptation_sets@, adaptation_set_fn()));
    }
    write_subset_list(out, &p.subsets);
    proof {
        lemma_concat_associative(opened, each_events((*p).base_urls@, base_url_fn())
            + opt_events((*p).segment_base, segment_base_fn())
            + opt_events((*p).segment_list, segment_list_fn())
            + opt_events((*p).segment_template, segment_template_fn())
            + opt_events((*p).asset_identifier, descriptor_fn("AssetIdentifier"@))
            + each_events((*p).event_streams@, event_stream_fn())
            + each_events((*p).adaptation_sets@, adaptation_set_fn()), each_events((*p).subsets@, subset_fn()));
    }
    write_descriptor_list(out, "SupplementalProperty", &p.supplemental_properties);
    proof {
        lemma_concat_associative(opened, each_events((*p).base_urls@, base_url_fn())
            + opt_events((*p).segment_base, segment_base_fn())
            + opt_events((*p).segment_list, segment_list_fn())
            + opt_events((*p).segment_template, segment_template_fn())
            + opt_events((*p).asset_identifier, descriptor_fn("AssetIdentifier"@))
            + each_events((*p).event_streams@, event_stream_fn())
            + each_events((*p).adaptation_sets@, adaptation_set_fn())
            + each_events((*p).subsets@, subset_fn()), each_events((*p).supplemental_properties@, descriptor_fn("SupplementalProperty"@)));
    }
    write_descriptor_list(out, "EssentialProperty", &p.essential_properties);
    proof {
        lemma_concat_associative(opened, each_events((*p).base_urls@, base_url_fn())
            + opt_events((*p).segment_base, segment_base_fn())
            + opt_events((*p).segment_list, segment_list_fn())
            + opt_events((*p).segment_template, segment_template_fn())
            + opt_events((*p).asset_identifier, descriptor_fn("AssetIdentifier"@))
            + each_events((*p).event_streams@, event_stream_fn())
            + each_events((*p).adaptation_sets@, adaptation_set_fn())
            + each_events((*p).subsets@, subset_fn())
            + each_events((*p).supplemental_properties@, descriptor_fn("SupplementalProperty"@)), each_events((*p).essential_properties@, descriptor_fn("EssentialProperty"@)));
    }
    write_preselection_list(out, &p.preselections);
    proof {
        lemma_concat_associative(opened, each_events((*p).base_urls@, base_url_fn())
            + opt_events((*p).segment_base, segment_base_fn())
            + opt_events((*p).segment_list, segment_list_fn())
            + opt_events((*p).segment_template, segment_template_fn())
            + opt_events((*p).asset_identifier, descriptor_fn("AssetIdentifier"@))
            + each_events((*p).event_streams@, event_stream_fn())
            + each_events((*p).adaptation_sets@, adaptation_set_fn())
            + each_events((*p).subsets@, subset_fn())
            + each_events((*p).supplemental_properties@, descriptor_fn("SupplementalProperty"@))
            + each_events((*p).essential_properties@, descriptor_fn("EssentialProperty"@)), each_events((*p).preselections@, preselection_fn()));
    }
    assert(each_events((*p).base_urls@, base_url_fn())
        + opt_events((*p).segment_base, segment_base_fn())
        + opt_events((*p).segment_list, segment_list_fn())
        + opt_events((*p).segment_template, segment_template_fn())
        + opt_events((*p).asset_identifier, descriptor_fn("AssetIdentifier"@))
        + each_events((*p).event_streams@, event_stream_fn())
        + each_events((*p).adaptation_sets@, adaptation_set_fn())
        + each_events((*p).subsets@, subset_fn())
        + each_events((*p).supplemental_properties@, descriptor_fn("SupplementalProperty"@))
        + each_events((*p).essential_properties@, descriptor_fn("EssentialProperty"@))
        + each_events((*p).preselections@, preselection_fn()) == period_inner(*p)) by {
        reveal(period_inner);
    }
    end_element(out);
    assert(events_view(out@) =~= before + period_events(*p));
}

/// Writes each item of `s` as `Period`, in order.
fn write_period_list(out: &mut Vec<WriteEvent>, s: &Vec<Period>)
    ensures
        events_view(final(out)@) == events_view(old(out)@) + each_events(s@, period_fn()),
{
    reveal(each_events);
    let mut k: usize = 0;
    assert(s@.take(0) =~= Seq::<Period>::empty());
    assert(events_view(out@) =~= events_view(old(out)@) + each_events(s@.take(0), period_fn()));
    while k < s.len()
        invariant
            k <= s@.len(),
            events_view(out@) == events_view(old(out)@) + each_events(s@.take(k as int), period_fn()),
        decreases s.len() - k,
    {
        write_period(out, &s[k]);
        reveal(each_events);
        assert(s@.take(k + 1).drop_last() =~= s@.take(k as int));
        k = k + 1;
        assert(events_view(out@) =~= events_view(old(out)@) + each_events(s@.take(k as int), period_fn()));
    }
    assert(s@.take(k as int) =~= s@);
}

/// Writes `o` as the element `name`, when it is present.
fn write_descriptor_opt(out: &mut Vec<WriteEvent>, name: &str, o: &Option<Descriptor>)
    ensures
        events_view(final(out)@) == events_view(old(out)@) + opt_events(*o, descriptor_fn(name@)),
{
    reveal(opt_events);
    match o {
        Some(x) => write_descriptor(out, name, x),
        None => {
            assert(events_view(out@) =~= events_view(out@) + opt_events(*o, descriptor_fn(name@)));
        },
    }
}

/// Writes `o` as `UTCTiming`, when it is present.
fn write_utc_timing_opt(out: &mut Vec<WriteEvent>, o: &Option<UtcTiming>)
    ensures
        events_view(final(out)@) == events_view(old(out)@) + opt_events(*o, utc_timing_fn()),
{
    reveal(opt_events);
    match o {
        Some(x) => write_utc_timing(out, x),
        None => {
            assert(events_view(out@) =~= events_view(out@) + opt_events(*o, utc_timing_fn()));
        },
    }
}

/// Writes `o` as `Latency`, when it is present.
fn write_latency_opt(out: &mut Vec<WriteEvent>, o: &Option<Latency>)
    ensures
        events_view(final(out)@) == events_view(old(out)@) + opt_events(*o, latency_fn()),
{
    reveal(opt_events);
    match o {
        Some(x) => write_latency(out, x),
        None => {
            assert(events_view(out@) =~= events_view(out@) + opt_events(*o, latency_fn()));
        },
    }
}

/// Writes `o` as `PlaybackRate`, when it is present.
fn write_playback_rate_opt(out: &mut Vec<WriteEvent>, o: &Option<PlaybackRate>)
    ensures
        events_view(final(out)@) == events_view(old(out)@) + opt_events(*o, playback_rate_fn()),
{
    reveal(opt_events);
    match o {
        Some(x) => write_playback_rate(out, x),
        None => {
            assert(events_view(out@) =~= events_view(out@) + opt_events(*o, playback_rate_fn()));
        },
    }
}

/// Writes `o` as `OperatingQuality`, when it is present.
fn write_operating_quality_opt(out: &mut Vec<WriteEvent>, o: &Option<OperatingQuality>)
    ensures
        events_view(final(out)@) == events_view(old(out)@) + opt_events(*o, operating_quality_fn()),
{
    reveal(opt_events);
    match o {
        Some(x) => write_operating_quality(out, x),
        None => {
            assert(events_view(out@) =~= events_view(out@) + opt_events(*o, operating_quality_fn()));
        },
    }
}

/// Writes `o` as `OperatingBandwidth`, when it is present.
fn write_operating_bandwidth_opt(out: &mut Vec<WriteEvent>, o: &Option<OperatingBandwidth>)
    ensures
        events_view(final(out)@) == events_view(old(out)@) + opt_events(*o, operating_bandwidth_fn()),
{
    reveal(opt_events);
    match o {
        Some(x) => write_operating_bandwidth(out, x),
        None => {
            assert(events_view(out@) =~= events_view(out@) + opt_events(*o, operating_bandwidth_fn()));
        },
    }
}

/// Writes `o` as `CMCDParameters`, when it is present.
fn write_cmcd_parameters_opt(out: &mut Vec<WriteEvent>, o: &Option<CmcdParameters>)
    ensures
        events_view(final(out)@) == events_view(old(out)@) + opt_events(*o, cmcd_parameters_fn()),
{
    reveal(opt_events);
    match o {
        Some(x) => write_cmcd_parameters(out, x),
        None => {
            assert(events_view(out@) =~= events_view(out@) + opt_events(*o, cmcd_parameters_fn()));
        },
    }
}

/// Writes `o` as `ClientDataReporting`, when it is present.
fn write_client_data_reporting_opt(out: &mut Vec<WriteEvent>, o: &Option<ClientDataReporting>)
    ensures
        events_view(final(out)@) == events_view(old(out)@) + opt_events(*o, client_data_reporting_fn()),
{
    reveal(opt_events);
    match o {
        Some(x) => write_client_data_reporting(out, x),
        None => {
            assert(events_view(out@) =~= events_view(out@) + opt_events(*o, client_data_reporting_fn()));
        },
    }
}

/// Writes `o` as `ContentSteering`, when it is present.
fn write_content_steering_opt(out: &mut Vec<WriteEvent>, o: &Option<ContentSteering>)
    ensures
        events_view(final(out)@) == events_view(old(out)@) + opt_events(*o, content_steering_fn()),
{
    reveal(opt_events);
    match o {
        Some(x) => write_content_steering(out, x),
        None => {
            assert(events_view(out@) =~= events_view(out@) + opt_events(*o, content_steering_fn()));
        },
    }
}

/// Writes `o` as `SegmentBase`, when it is present.
fn write_segment_base_opt(out: &mut Vec<WriteEvent>, o: &Option<SegmentBase>)
    ensures
        events_view(final(out)@) == events_view(old(out)@) + opt_events(*o, segment_base_fn()),
{
    reveal(opt_events);
    match o {
        Some(x) => write_segment_base(out, x),
        None => {
            assert(events_view(out@) =~= events_view(out@) + opt_events(*o, segment_base_fn()));
        },
    }
}

/// Writes `o` as `SegmentList`, when it is present.
fn write_segment_list_opt(out: &mut Vec<WriteEvent>, o: &Option<SegmentList>)
    ensures
        events_view(final(out)@) == events_view(old(out)@) + opt_events(*o, segment_list_fn()),
{
    reveal(opt_events);
    match o {
        Some(x) => write_segment_list(out, x),
        None => {
            assert(events_view(out@) =~= events_view(out@) + opt_events(*o, segment_list_fn()));
        },
    }
}

/// Writes `o` as `SegmentTemplate`, when it is present.
fn write_segment_template_opt(out: &mut Vec<WriteEvent>, o: &Option<SegmentTemplate>)
    ensures
        events_view(final(out)@) == events_view(old(out)@) + opt_events(*o, segment_template_fn()),
{
    reveal(opt_events);
    match o {
        Some(x) => write_segment_template(out, x),
        None => {
            assert(events_view(out@) =~= events_view(out@) + opt_events(*o, segment_template_fn()));
        },
    }
}

/// The `SegmentTimeline` element, when there is one.
pub open spec fn opt_timeline_events(o: Option<Vec<TimelineEntry>>) -> Seq<WriteEventV> {
    match o {
        Some(es) => element_events("SegmentTimeline"@, seq![], seq![], each_events(es@, timeline_entry_fn())),
        None => seq![],
    }
}

pub proof fn lemma_opt_timeline_balanced(o: Option<Vec<TimelineEntry>>)
    ensures
        balanced(opt_timeline_events(o)),
{
    match o {
        Some(es) => {
            lemma_timeline_entry_list_balanced(es@);
            lemma_element_balanced("SegmentTimeline"@, seq![], seq![], each_events(es@, timeline_entry_fn()));
        },
        None => lemma_balanced_empty(),
    }
}

/// Writes the `SegmentTimeline` element, when there is one.
fn write_opt_timeline(out: &mut Vec<WriteEvent>, o: &Option<Vec<TimelineEntry>>)
    ensures
        events_view(final(out)@) == events_view(old(out)@) + opt_timeline_events(*o),
{
    let ghost before = events_view(out@);
    match o {
        Some(es) => {
            let none: Vec<(String, String)> = Vec::new();
            assert(pairs_view(none@) =~= Seq::<(Seq<char>, Seq<char>)>::empty());
            start_element(out, "SegmentTimeline", none);
            write_timeline_entry_list(out, es);
            end_element(out);
            assert(events_view(out@) =~= before + opt_timeline_events(*o));
        },
        None => {
            assert(events_view(out@) =~= before + opt_timeline_events(*o));
        },
    }
}

/// The namespace of MPD documents.
pub open spec fn mpd_namespace() -> Seq<char> {
    "urn:mpeg:dash:schema:mpd:2011"@
}

/// The namespace of XLink.
pub open spec fn xlink_namespace() -> Seq<char> {
    "http://www.w3.org/1999/xlink"@
}

/// The event `e` is a start tag whose name, or the name of one of whose
/// attributes, begins with `p`.
pub open spec fn event_uses_prefix(e: WriteEventV, p: Seq<char>) -> bool {
    match e {
        WriteEventV::Start(n, _, a) => p.is_prefix_of(n) || attr_uses_prefix(a, p),
        _ => false,
    }
}

/// The name of some attribute of `a` begins with `p`.
pub open spec fn attr_uses_prefix(a: Attrs, p: Seq<char>) -> bool {
    exists|j: int| 0 <= j < a.len() && p.is_prefix_of(#[trigger] a[j].0)
}

/// Some event of `e` uses a name that begins with `p`.
pub open spec fn prefix_used(e: Seq<WriteEventV>, p: Seq<char>) -> bool {
    exists|i: int| 0 <= i < e.len() && event_uses_prefix(#[trigger] e[i], p)
}

/// The declaration of the namespace `uri` under `prefix` when the events
/// `e` use the prefix.
pub open spec fn declared_if_used(e: Seq<WriteEventV>, prefix: Seq<char>, uri: Seq<char>) -> Attrs {
    if prefix_used(e, prefix + seq![':']) {
        seq![(prefix, uri)]
    } else {
        seq![]
    }
}

/// The namespaces that the `MPD` element declares: that of MPD documents,
/// and each prefixed namespace (`xlink`, `cenc`, `dvb`, `scte214`) that some
/// element or attribute inside uses.
pub open spec fn mpd_namespaces(m: Mpd) -> Attrs {
    seq![(seq![], mpd_namespace())]
        + declared_if_used(mpd_inner(m), "xlink"@, xlink_namespace())
        + declared_if_used(mpd_inner(m), "cenc"@, "urn:mpeg:cenc:2013"@)
        + declared_if_used(
        mpd_inner(m),
        "dvb"@,
        "urn:dvb:dash:dash-extensions:2014-1"@,
    ) + declared_if_used(mpd_inner(m), "scte214"@, "urn:scte:dash:scte214-extensions"@)
}

pub open spec fn presentation_type_text(t: PresentationType) -> Seq<char> {
    match t {
        PresentationType::Static => "static"@,
        PresentationType::Dynamic => "dynamic"@,
    }
}

/// The attributes of the `MPD` element.
pub open spec fn mpd_attrs(m: Mpd) -> Attrs {
    seq![("type"@, presentation_type_text(m.presentation_type))] + seq![("profiles"@, m.profiles@)]
        + opt_attr("id"@, m.id) + seq![("minBufferTime"@, m.min_buffer_time@)] + opt_attr(
        "mediaPresentationDuration"@,
        m.media_presentation_duration,
    ) + opt_attr("minimumUpdatePeriod"@, m.minimum_update_period) + opt_attr(
        "availabilityStartTime"@,
        m.availability_start_time,
    ) + opt_attr("availabilityEndTime"@, m.availability_end_time) + opt_attr(
        "timeShiftBufferDepth"@,
        m.time_shift_buffer_depth,
    ) + opt_attr("suggestedPresentationDelay"@, m.suggested_presentation_delay) + opt_attr(
        "publishTime"@,
        m.publish_time,
    ) + opt_attr("maxSegmentDuration"@, m.max_segment_duration) + opt_attr(
        "maxSubsegmentDuration"@,
        m.max_subsegment_duration,
    )
}

/// What lies inside the `MPD` element, in the order of the `MPDtype`
/// sequence of DASH-MPD.xsd.
pub open spec fn mpd_inner(m: Mpd) -> Seq<WriteEventV> {
    each_events(m.base_urls@, base_url_fn()) + each_events(m.locations@, location_fn()) + each_events(
        m.patch_locations@,
        patch_location_fn(),
    ) + each_events(m.service_descriptions@, service_description_fn()) + each_events(m.periods@, period_fn())
        + each_events(m.metrics@, metrics_fn()) + each_events(
        m.essential_properties@,
        descriptor_fn("EssentialProperty"@),
    ) + each_events(m.supplemental_properties@, descriptor_fn("SupplementalProperty"@)) + each_events(
        m.utc_timings@,
        utc_timing_fn(),
    ) + opt_events(m.content_steering, content_steering_fn())
}

/// The events that write the MPD `m`.
pub open spec fn mpd_events(m: Mpd) -> Seq<WriteEventV> {
    element_events("MPD"@, mpd_namespaces(m), mpd_attrs(m), mpd_inner(m))
}

pub proof fn lemma_mpd_balanced(m: Mpd)
    ensures
        balanced(mpd_events(m)),
{
    lemma_base_url_list_balanced(m.base_urls@);
    lemma_utc_timing_list_balanced(m.utc_timings@);
    lemma_location_list_balanced(m.locations@);
    lemma_service_description_list_balanced(m.service_descriptions@);
    reveal(opt_events);
    if let Some(c) = m.content_steering {
        lemma_content_steering_balanced(c);
    } else {
        lemma_balanced_empty();
    }
    lemma_patch_location_list_balanced(m.patch_locations@);
    lemma_descriptor_list_balanced("EssentialProperty"@, m.essential_properties@);
    lemma_descriptor_list_balanced("SupplementalProperty"@, m.supplemental_properties@);
    lemma_metrics_list_balanced(m.metrics@);
    lemma_period_list_balanced(m.periods@);
    let p1 = each_events(m.base_urls@, base_url_fn());
    let p2 = each_events(m.locations@, location_fn());
    let p3 = each_events(m.patch_locations@, patch_location_fn());
    let p4 = each_events(m.service_descriptions@, service_description_fn());
    let p5 = each_events(m.periods@, period_fn());
    let p6 = each_events(m.metrics@, metrics_fn());
    let p7 = each_events(m.essential_properties@, descriptor_fn("EssentialProperty"@));
    let p8 = each_events(m.supplemental_properties@, descriptor_fn("SupplementalProperty"@));
    let p9 = each_events(m.utc_timings@, utc_timing_fn());
    let p10 = opt_events(m.content_steering, content_steering_fn());
    lemma_balanced_cat(p1, p2);
    lemma_balanced_cat(p1 + p2, p3);
    lemma_balanced_cat(p1 + p2 + p3, p4);
    lemma_balanced_cat(p1 + p2 + p3 + p4, p5);
    lemma_balanced_cat(p1 + p2 + p3 + p4 + p5, p6);
    lemma_balanced_cat(p1 + p2 + p3 + p4 + p5 + p6, p7);
    lemma_balanced_cat(p1 + p2 + p3 + p4 + p5 + p6 + p7, p8);
    lemma_balanced_cat(p1 + p2 + p3 + p4 + p5 + p6 + p7 + p8, p9);
    lemma_balanced_cat(p1 + p2 + p3 + p4 + p5 + p6 + p7 + p8 + p9, p10);
    lemma_element_balanced("MPD"@, mpd_namespaces(m), mpd_attrs(m), mpd_inner(m));
}

/// Whether `s` begins with `p`.
fn starts_with(s: &str, p: &str) -> (b: bool)
    ensures
        b == p@.is_prefix_of(s@),
{
    let sv = chars_of(s);
    let pv = chars_of(p);
    if pv.len() > sv.len() {
        return false;
    }
    let mut k: usize = 0;
    while k < pv.len()
        invariant
            k <= pv@.len() <= sv@.len(),
            sv@ == s@,
            pv@ == p@,
            forall|j: int| 0 <= j < k ==> pv@[j] == sv@[j],
        decreases pv.len() - k,
    {
        if pv[k] != sv[k] {
            assert(p@[k as int] != s@.subrange(0, p@.len() as int)[k as int]);
            return false;
        }
        k = k + 1;
    }
    assert(p@ =~= s@.subrange(0, p@.len() as int));
    true
}

/// Whether the name of some attribute of `a` begins with `p`.
fn attrs_use_prefix(a: &Vec<(String, String)>, p: &str) -> (b: bool)
    ensures
        b == attr_uses_prefix(pairs_view(a@), p@),
{
    let mut j: usize = 0;
    while j < a.len()
        invariant
            j <= a@.len(),
            forall|k: int| 0 <= k < j ==> !p@.is_prefix_of(#[trigger] pairs_view(a@)[k].0),
        decreases a.len() - j,
    {
        assert(pairs_view(a@)[j as int].0 == a@[j as int].0@);
        if starts_with(a[j].0.as_str(), p) {
            return true;
        }
        j = j + 1;
    }
    false
}

/// Whether some event of `events` uses a name that begins with `p`.
fn uses_prefix(events: &Vec<WriteEvent>, p: &str) -> (b: bool)
    ensures
        b == prefix_used(events_view(events@), p@),
{
    let ghost ev = events_view(events@);
    let mut i: usize = 0;
    while i < events.len()
        invariant
            i <= events@.len(),
            ev == events_view(events@),
            forall|k: int| 0 <= k < i ==> !event_uses_prefix(#[trigger] ev[k], p@),
        decreases events.len() - i,
    {
        assert(ev[i as int] == events@[i as int]@);
        match &events[i] {
            WriteEvent::Start(n, ns, a) => {
                assert(ev[i as int] == WriteEventV::Start(n@, pairs_view(ns@), pairs_view(a@)));
                let named = starts_with(n.as_str(), p);
                let in_attrs = attrs_use_prefix(a, p);
                if named || in_attrs {
                    assert(event_uses_prefix(ev[i as int], p@));
                    return true;
                }
            },
            _ => {},
        }
        i = i + 1;
    }
    false
}

/// Adds the declaration of `uri` under `prefix` when `inner` uses the
/// prefix.
pub(crate) fn declare_if_used(ns: &mut Vec<(String, String)>, inner: &Vec<WriteEvent>, prefix: &str, prefixed: &str, uri: &str)
    requires
        prefixed@ == prefix@ + seq![':'],
    ensures
        pairs_view(final(ns)@) == pairs_view(old(ns)@) + declared_if_used(events_view(inner@), prefix@, uri@),
{
    let ghost before = pairs_view(ns@);
    proof {
        reveal_strlit(":");
    }
    if uses_prefix(inner, prefixed) {
        ns.push((String::from_str(prefix), String::from_str(uri)));
        assert(pairs_view(ns@) =~= before + declared_if_used(events_view(inner@), prefix@, uri@));
    } else {
        assert(pairs_view(ns@) =~= before + declared_if_used(events_view(inner@), prefix@, uri@));
    }
}

/// Writes the MPD `m` as the root `MPD` element.
fn write_mpd(out: &mut Vec<WriteEvent>, m: &Mpd)
    ensures
        events_view(final(out)@) == events_view(old(out)@) + mpd_events(*m),
{
    let ghost before = events_view(out@);
    let mut inner: Vec<WriteEvent> = Vec::new();
    assert(events_view(inner@) =~= Seq::<WriteEventV>::empty());
    write_base_url_list(&mut inner, &m.base_urls);
    write_location_list(&mut inner, &m.locations);
    proof {
        lemma_concat_associative(
            Seq::<WriteEventV>::empty(),
            each_events(m.base_urls@, base_url_fn()),
            each_events(m.locations@, location_fn()),
        );
    }
    write_patch_location_list(&mut inner, &m.patch_locations);
    write_service_description_list(&mut inner, &m.service_descriptions);
    write_period_list(&mut inner, &m.periods);
    write_metrics_list(&mut inner, &m.metrics);
    write_descriptor_list(&mut inner, "EssentialProperty", &m.essential_properties);
    write_descriptor_list(&mut inner, "SupplementalProperty", &m.supplemental_properties);
    write_utc_timing_list(&mut inner, &m.utc_timings);
    write_content_steering_opt(&mut inner, &m.content_steering);
    assert(events_view(inner@) =~= mpd_inner(*m));
    let mut ns: Vec<(String, String)> = Vec::new();
    ns.push((String::new(), String::from_str("urn:mpeg:dash:schema:mpd:2011")));
    assert(pairs_view(ns@) =~= seq![(Seq::<char>::empty(), mpd_namespace())]);
    proof {
        reveal_strlit("xlink");
        reveal_strlit("xlink:");
        assert("xlink:"@ =~= "xlink"@ + seq![':']);
        reveal_strlit("cenc");
        reveal_strlit("cenc:");
        reveal_strlit("dvb");
        reveal_strlit("dvb:");
        reveal_strlit("scte214");
        reveal_strlit("scte214:");
        assert("cenc:"@ =~= "cenc"@ + seq![':']);
        assert("dvb:"@ =~= "dvb"@ + seq![':']);
        assert("scte214:"@ =~= "scte214"@ + seq![':']);
    }
    declare_if_used(&mut ns, &inner, "xlink", "xlink:", "http://www.w3.org/1999/xlink");
    declare_if_used(&mut ns, &inner, "cenc", "cenc:", "urn:mpeg:cenc:2013");
    declare_if_used(&mut ns, &inner, "dvb", "dvb:", "urn:dvb:dash:dash-extensions:2014-1");
    declare_if_used(&mut ns, &inner, "scte214", "scte214:", "urn:scte:dash:scte214-extensions");
    assert(pairs_view(ns@) == mpd_namespaces(*m));
    let mut attrs: Vec<(String, String)> = Vec::new();
    let type_text = match m.presentation_type {
        PresentationType::Static => String::from_str("static"),
        PresentationType::Dynamic => String::from_str("dynamic"),
    };
    assert(pairs_view(attrs@) =~= Seq::<(Seq<char>, Seq<char>)>::empty());
    push_attr(&mut attrs, "type", type_text);
    push_attr(&mut attrs, "profiles", m.profiles.clone());
    push_opt_attr(&mut attrs, "id", &m.id);
    push_attr(&mut attrs, "minBufferTime", m.min_buffer_time.clone());
    push_opt_attr(&mut attrs, "mediaPresentationDuration", &m.media_presentation_duration);
    push_opt_attr(&mut attrs, "minimumUpdatePeriod", &m.minimum_update_period);
    push_opt_attr(&mut attrs, "availabilityStartTime", &m.availability_start_time);
    push_opt_attr(&mut attrs, "availabilityEndTime", &m.availability_end_time);
    push_opt_attr(&mut attrs, "timeShiftBufferDepth", &m.time_shift_buffer_depth);
    push_opt_attr(&mut attrs, "suggestedPresentationDelay", &m.suggested_presentation_delay);
    push_opt_attr(&mut attrs, "publishTime", &m.publish_time);
    push_opt_attr(&mut attrs, "maxSegmentDuration", &m.max_segment_duration);
    push_opt_attr(&mut attrs, "maxSubsegmentDuration", &m.max_subsegment_duration);
    assert(pairs_view(attrs@) =~= mpd_attrs(*m));
    let ghost a = pairs_view(attrs@);
    let ghost n = pairs_view(ns@);
    out.push(WriteEvent::Start(String::from_str("MPD"), ns, attrs));
    assert(events_view(out@) =~= before + seq![WriteEventV::Start("MPD"@, n, a)]);
    let ghost opened = events_view(out@);
    append_events(out, inner);
    end_element(out);
    assert(events_view(out@) =~= before + mpd_events(*m));
}

/// Appends the events `more` to `out`.
fn append_events(out: &mut Vec<WriteEvent>, more: Vec<WriteEvent>)
    ensures
        events_view(final(out)@) == events_view(old(out)@) + events_view(more@),
{
    let ghost before = out@;
    let ghost mv = more@;
    let mut more = more;
    out.append(&mut more);
    assert(out@ == before + mv);
    assert(events_view(out@) =~= events_view(before) + events_view(mv));
}

/// The XML text of the MPD `m`: the XML declaration and the `MPD` element,
/// indented by two spaces.
pub open spec fn mpd_text(m: Mpd) -> Seq<char> {
    crate::xml_io::xml_text(mpd_events(m))
}

/// Writes the MPD `m` as XML text.
pub fn write(m: &Mpd) -> (r: String)
    ensures
        r@ == mpd_text(*m),
{
    let mut out: Vec<WriteEvent> = Vec::new();
    assert(events_view(out@) =~= Seq::<WriteEventV>::empty());
    write_mpd(&mut out, m);
    assert(events_view(out@) =~= mpd_events(*m));
    proof {
        lemma_mpd_balanced(*m);
    }
    write_xml(&out)
}

} // verus!
