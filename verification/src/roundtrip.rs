//! Reading back a written MPD: the reader tokens of the elements that the
//! writer writes for an MPD, read by the reader, give that MPD back.
use vstd::prelude::*;

use crate::dom::opt_view;
use crate::duration::duration_ok;
use crate::error::ErrorKind;
use crate::model::{
    AdaptationSetV, BaseUrlV, ClientDataReportingV, ContentComponentV, ContentProtectionV,
    ContentSteeringV, EventStreamV, EventV, LocationV, MetricsV, MpdV, PatchLocationV, PeriodV,
    PreselectionV, ProducerReferenceTimeV, RepresentationV, SegmentBaseV, SegmentListV,
    SegmentTemplateV, ServiceDescriptionV, SubRepresentationV, lemma_views_push, views
};
use crate::patch_reader::{finished, skip_scan};
use crate::reader::{
    adaptation_set_at, adaptation_set_scan, base_url_at, client_data_reporting_at,
    client_data_reporting_scan, content_component_at, content_component_scan,
    content_protection_at, content_protection_scan, content_steering_at, event_at,
    event_body_scan, event_stream_at, event_stream_scan, first_attr, location_at, metrics_at,
    metrics_scan, mpd_at, mpd_of_tokens, mpd_scan, patch_location_at, period_at, period_scan,
    preselection_at, preselection_scan, producer_reference_time_at,
    producer_reference_time_scan, representation_at, representation_scan, segment_base_at,
    segment_base_scan, segment_list_at, segment_list_scan, segment_template_at,
    segment_template_scan, service_description_at, service_description_scan, signal_scan,
    skip_pos, str_or_empty, sub_representation_at, sub_representation_scan, text_scan,
    timeline_entry_of, timeline_scan
};
use crate::reread::{
    attrs_as_read, law_adaptation_set_attributes_read_back, law_base_url_attributes_read_back,
    law_cert_url_attributes_read_back, law_client_data_reporting_attributes_read_back,
    law_cmcd_parameters_attributes_read_back, law_content_component_attributes_read_back,
    law_content_protection_attributes_read_back, law_content_steering_attributes_read_back,
    law_descriptor_attributes_read_back, law_event_attributes_read_back,
    law_event_stream_attributes_read_back, law_label_attributes_read_back,
    law_latency_attributes_read_back, law_location_attributes_read_back,
    law_metrics_attributes_read_back, law_metrics_range_attributes_read_back,
    law_mpd_attributes_read_back, law_operating_bandwidth_attributes_read_back,
    law_operating_quality_attributes_read_back, law_patch_location_attributes_read_back,
    law_period_attributes_read_back, law_playback_rate_attributes_read_back,
    law_preselection_attributes_read_back, law_producer_reference_time_attributes_read_back,
    law_representation_attributes_read_back, law_segment_base_attributes_read_back,
    law_segment_list_attributes_read_back, law_segment_sequence_properties_attributes_read_back,
    law_segment_template_attributes_read_back, law_segment_url_attributes_read_back,
    law_service_description_attributes_read_back, law_sub_representation_attributes_read_back,
    law_subset_attributes_read_back, law_timeline_entry_attributes_read_back,
    law_utc_timing_attributes_read_back, lemma_lookup_cat, lemma_lookup_part, local_of,
    lookup_written
};
use crate::text::{first_index, trim};
use crate::types::{
    AdaptationSet, BaseUrl, CertUrl, ClientDataReporting, CmcdParameters, ContentComponent,
    ContentProtection, ContentSteering, Descriptor, Event, EventStream, Label, Latency,
    Location, Metrics, MetricsRange, Mpd, OperatingBandwidth, OperatingQuality, PatchLocation,
    Period, PlaybackRate, Preselection, ProducerReferenceTime, Representation, SegmentBase,
    SegmentList, SegmentSequenceProperties, SegmentTemplate, SegmentUrl, ServiceDescription,
    SubRepresentation, Subset, TimelineEntry, UtcTiming
};
use crate::writer::{
    Attrs, adaptation_set_attrs, base_url_attrs, cert_url_attrs, client_data_reporting_attrs,
    cmcd_parameters_attrs, content_component_attrs, content_protection_attrs,
    content_steering_attrs, descriptor_attrs, event_attrs, event_stream_attrs, label_attrs,
    latency_attrs, location_attrs, metrics_attrs, metrics_range_attrs, mpd_attrs,
    operating_bandwidth_attrs, operating_quality_attrs, opt_attr, patch_location_attrs,
    period_attrs, playback_rate_attrs, preselection_attrs, producer_reference_time_attrs,
    representation_attrs, segment_base_attrs, segment_list_attrs,
    segment_sequence_properties_attrs, segment_template_attrs, segment_url_attrs,
    service_description_attrs, sub_representation_attrs, subset_attrs, timeline_entry_attrs,
    utc_timing_attrs
};
use crate::xml_io::{TokenV};

verus! {

/// The tokens `t` hold the tokens `s` from the index `i` on.
pub open spec fn holds_at(t: Seq<TokenV>, i: int, s: Seq<TokenV>) -> bool {
    0 <= i && i + s.len() <= t.len() && t.subrange(i, i + s.len()) == s
}

proof fn lemma_holds_cat(t: Seq<TokenV>, i: int, a: Seq<TokenV>, b: Seq<TokenV>)
    requires
        holds_at(t, i, a + b),
    ensures
        holds_at(t, i, a),
        holds_at(t, i + a.len(), b),
{
    assert(t.subrange(i, i + a.len()) =~= (a + b).subrange(0, a.len() as int));
    assert((a + b).subrange(0, a.len() as int) =~= a);
    assert(t.subrange(i + a.len(), i + a.len() + b.len()) =~= b) by {
        assert forall|k: int| 0 <= k < b.len() implies t.subrange(i + a.len(), i + a.len() + b.len())[k] == b[k] by {
            assert(t.subrange(i, i + (a + b).len())[a.len() + k] == (a + b)[a.len() + k]);
        }
    }
}

proof fn lemma_holds_index(t: Seq<TokenV>, i: int, s: Seq<TokenV>, k: int)
    requires
        holds_at(t, i, s),
        0 <= k < s.len(),
    ensures
        t[i + k] == s[k],
{
    assert(t.subrange(i, i + s.len())[k] == s[k]);
}

/// The tokens that the reader gives for an element written as `name` with
/// the attributes `attrs`, whose content gives the tokens `inner`.
pub open spec fn element_tokens(name: Seq<char>, attrs: Attrs, inner: Seq<TokenV>) -> Seq<TokenV> {
    seq![TokenV::Start(local_of(name), None, attrs_as_read(attrs))] + inner + seq![TokenV::End(local_of(name))]
}

/// The tokens of each item of `s`, in order.
#[verifier::opaque]
pub open spec fn each_tokens<T>(s: Seq<T>, f: spec_fn(T) -> Seq<TokenV>) -> Seq<TokenV>
    decreases s.len(),
{
    if s.len() == 0 {
        seq![]
    } else {
        each_tokens(s.drop_last(), f) + f(s.last())
    }
}

/// The tokens of an optional item.
#[verifier::opaque]
pub open spec fn opt_tokens<T>(o: Option<T>, f: spec_fn(T) -> Seq<TokenV>) -> Seq<TokenV> {
    match o {
        Some(v) => f(v),
        None => seq![],
    }
}

/// The text `s` as character data.
pub open spec fn characters_tokens(s: Seq<char>) -> Seq<TokenV> {
    seq![TokenV::Characters(s)]
}

/// A text that the reader reads as it is: no white space around it.
pub open spec fn trimmed(s: Seq<char>) -> bool {
    trim(s) == s
}

/// A text that the reader reads as it is and does not drop: trimmed and not
/// empty.
pub open spec fn kept(s: Seq<char>) -> bool {
    trim(s) == s && s.len() > 0
}

/// The text content of an element, read from its character data `s` up to
/// its end tag.
proof fn lemma_text_read(t: Seq<TokenV>, i: int, name: Seq<char>, s: Seq<char>)
    requires
        holds_at(t, i, seq![TokenV::Characters(s), TokenV::End(name)]),
    ensures
        text_scan(t, i, name, seq![]) == (finished(s, true), i + 2),
{
    reveal_with_fuel(text_scan, 3);
    lemma_holds_index(t, i, seq![TokenV::Characters(s), TokenV::End(name)], 0);
    lemma_holds_index(t, i, seq![TokenV::Characters(s), TokenV::End(name)], 1);
    assert(Seq::<char>::empty() + s =~= s);
}

/// An element with no content is skipped up to just after its end tag.
proof fn lemma_skip_empty(t: Seq<TokenV>, i: int, name: Seq<char>)
    requires
        0 <= i < t.len(),
        t[i] == TokenV::End(name),
    ensures
        skip_scan(t, i, 1) == Ok::<int, ErrorKind>(i + 1),
        skip_pos(t, i, 1) == i + 1,
{
}

/// Character data when the text is present.
pub open spec fn opt_text_tokens(v: Option<String>) -> Seq<TokenV> {
    match v {
        Some(s) => characters_tokens(s@),
        None => seq![],
    }
}

/// An element that holds only the text `v`, when `v` is present.
pub open spec fn text_element_tokens(name: Seq<char>, v: Option<String>) -> Seq<TokenV> {
    match v {
        Some(s) => element_tokens(name, seq![], characters_tokens(s@)),
        None => seq![],
    }
}

/// An element with the attributes `sourceURL` and `range`, when either is
/// present.
pub open spec fn pair_tokens(name: Seq<char>, url: Option<String>, range: Option<String>) -> Seq<TokenV> {
    if url is Some || range is Some {
        element_tokens(name, opt_attr("sourceURL"@, url) + opt_attr("range"@, range), seq![])
    } else {
        seq![]
    }
}

/// A segment timeline, when present.
pub open spec fn opt_timeline_tokens(o: Option<Vec<TimelineEntry>>) -> Seq<TokenV> {
    match o {
        Some(es) => element_tokens("SegmentTimeline"@, seq![], each_tokens(es@, timeline_entry_tokens_fn())),
        None => seq![],
    }
}

/// The `Signal` element that holds the `Binary` text, when present.
pub open spec fn signal_tokens(v: Option<String>) -> Seq<TokenV> {
    match v {
        Some(s) => element_tokens(
            "Signal"@,
            seq![],
            element_tokens("Binary"@, seq![], characters_tokens(s@)),
        ),
        None => seq![],
    }
}

/// How the reader names the elements that the writer writes.
proof fn lemma_element_names()
    ensures
        local_of("S"@) == "S"@,
        local_of("SegmentTimeline"@) == "SegmentTimeline"@,
        local_of("Signal"@) == "Signal"@,
        local_of("Binary"@) == "Binary"@,
        "S"@.len() == 1,
        "SegmentTimeline"@.len() == 15,
        "Signal"@.len() == 6,
        "Binary"@.len() == 6,
        "Signal"@[0] == 'S',
        "Binary"@[0] == 'B',
        "Event"@.len() == 5,
        local_of("Event"@) == "Event"@,
{
    reveal(local_of);
    reveal_with_fuel(first_index, 16);
    reveal_strlit("S");
    reveal_strlit("SegmentTimeline");
    reveal_strlit("Signal");
    reveal_strlit("Binary");
    reveal_strlit("Event");
    assert("S"@.len() == 1);
    assert("SegmentTimeline"@.len() == 15);
    assert("Signal"@.len() == 6);
    assert("Binary"@.len() == 6);
    assert("Event"@.len() == 5);
}

/// The entries of a written segment timeline are read back in order, up to
/// the end of the timeline.
proof fn lemma_timeline_read(t: Seq<TokenV>, i: int, es: Seq<TimelineEntry>, s: Seq<TimelineEntry>)
    requires
        holds_at(t, i, each_tokens(s, timeline_entry_tokens_fn())),
    ensures
        timeline_scan(t, i, es) == timeline_scan(t, i + each_tokens(s, timeline_entry_tokens_fn()).len(), es + s),
    decreases s.len(),
{
    reveal(each_tokens);
    if s.len() == 0 {
        assert(es + s =~= es);
    } else {
        let s0 = s.drop_last();
        let e = s.last();
        let a = each_tokens(s0, timeline_entry_tokens_fn());
        let b = timeline_entry_tokens(e);
        lemma_holds_cat(t, i, a, b);
        lemma_timeline_read(t, i, es, s0);
        let j = i + a.len();
        reveal(timeline_entry_inner_tokens);
        assert(b =~= seq![TokenV::Start(local_of("S"@), None, attrs_as_read(timeline_entry_attrs(e))), TokenV::End(local_of("S"@))]);
        lemma_holds_index(t, j, b, 0);
        lemma_holds_index(t, j, b, 1);
        lemma_element_names();
        law_timeline_entry_attributes_read_back(e);
        lemma_skip_empty(t, j + 1, "S"@);
        assert(es + s =~= (es + s0).push(e));
    }
}

/// A written segment timeline is read back whole.
proof fn lemma_opt_timeline_read(t: Seq<TokenV>, i: int, es: Vec<TimelineEntry>)
    requires
        holds_at(t, i, opt_timeline_tokens(Some(es))),
    ensures
        timeline_scan(t, i + 1, seq![]) == (es@, i + opt_timeline_tokens(Some(es)).len()),
{
    let inner = each_tokens(es@, timeline_entry_tokens_fn());
    let all = opt_timeline_tokens(Some(es));
    lemma_element_names();
    assert(all == seq![TokenV::Start("SegmentTimeline"@, None, attrs_as_read(seq![]))] + inner + seq![TokenV::End("SegmentTimeline"@)]);
    lemma_holds_cat(t, i, seq![TokenV::Start("SegmentTimeline"@, None, attrs_as_read(seq![]))] + inner, seq![TokenV::End("SegmentTimeline"@)]);
    lemma_holds_cat(t, i, seq![TokenV::Start("SegmentTimeline"@, None, attrs_as_read(seq![]))], inner);
    lemma_timeline_read(t, i + 1, seq![], es@);
    lemma_holds_index(t, i + 1 + inner.len(), seq![TokenV::End("SegmentTimeline"@)], 0);
    assert(Seq::<TimelineEntry>::empty() + es@ =~= es@);
}

/// A written `sourceURL` and `range` pair is read back.
proof fn lemma_pair_read(url: Option<String>, range: Option<String>)
    ensures
        first_attr(attrs_as_read(opt_attr("sourceURL"@, url) + opt_attr("range"@, range)), "sourceURL"@) == opt_view(url),
        first_attr(attrs_as_read(opt_attr("sourceURL"@, url) + opt_attr("range"@, range)), "range"@) == opt_view(range),
{
    reveal(local_of);
    reveal_with_fuel(first_index, 10);
    reveal_strlit("sourceURL");
    reveal_strlit("range");
    assert("sourceURL"@.len() == 9);
    assert("range"@.len() == 5);
    let p0 = opt_attr("sourceURL"@, url);
    let p1 = opt_attr("range"@, range);
    lemma_lookup_part(p0, "sourceURL"@, opt_view(url));
    lemma_lookup_part(p1, "range"@, opt_view(range));
    lemma_lookup_cat(p0, p1);
    assert(lookup_written(p0 + p1, "sourceURL"@) == opt_view(url));
    assert(lookup_written(p0 + p1, "range"@) == opt_view(range));
    reveal(lookup_written);
}

proof fn lemma_holds_tail(t: Seq<TokenV>, i: int, s: Seq<TokenV>)
    requires
        holds_at(t, i, s),
        s.len() > 0,
    ensures
        t[i] == s[0],
        holds_at(t, i + 1, s.drop_first()),
{
    lemma_holds_index(t, i, s, 0);
    assert(s =~= seq![s[0]] + s.drop_first());
    lemma_holds_cat(t, i, seq![s[0]], s.drop_first());
}

/// A text that the reader reads as it is gives itself back.
proof fn lemma_trimmed_read(s: Seq<char>)
    requires
        trimmed(s),
    ensures
        str_or_empty(finished(s, true)) == s,
        s.len() > 0 ==> finished(s, true) == Some(s),
{
    if s.len() == 0 {
        assert(s =~= Seq::<char>::empty());
    }
}

/// A written `Event` element is read back whole, up to just after its end
/// tag.
pub proof fn lemma_event_reads(t: Seq<TokenV>, i: int, e: Event)
    requires
        holds_at(t, i, event_tokens(e)),
        event_clean(e),
    ensures
        event_at(t, i + 1, attrs_as_read(event_attrs(e))) == Ok::<(EventV, int), ErrorKind>((e@, i + event_tokens(e).len())),
{
    reveal(event_at);
    reveal(event_inner_tokens);
    law_event_attributes_read_back(e);
    lemma_element_names();
    let ct = opt_text_tokens(e.content);
    let sg = signal_tokens(e.signal_binary);
    let st = seq![TokenV::Start(local_of("Event"@), None, attrs_as_read(event_attrs(e)))];
    let en = seq![TokenV::End(local_of("Event"@))];
    assert(event_tokens(e) == st + (ct + sg) + en);
    lemma_holds_cat(t, i, st + (ct + sg), en);
    lemma_holds_cat(t, i, st, ct + sg);
    lemma_holds_cat(t, i + 1, ct, sg);
    let j = i + 1 + ct.len();
    let text = match e.content {
        Some(s) => s@,
        None => Seq::<char>::empty(),
    };
    if let Some(s) = e.content {
        lemma_holds_index(t, i + 1, ct, 0);
        assert(Seq::<char>::empty() + s@ =~= s@);
        assert(trim(s@).len() > 0);
    }
    assert(event_body_scan(t, i + 1, seq![], None) == event_body_scan(t, j, text, None));
    let k = j + sg.len();
    if let Some(b) = e.signal_binary {
        assert(sg =~= seq![
            TokenV::Start(local_of("Signal"@), None, attrs_as_read(seq![])),
            TokenV::Start(local_of("Binary"@), None, attrs_as_read(seq![])),
            TokenV::Characters(b@),
            TokenV::End(local_of("Binary"@)),
            TokenV::End(local_of("Signal"@)),
        ]);
        lemma_holds_index(t, j, sg, 0);
        lemma_holds_index(t, j, sg, 1);
        lemma_holds_index(t, j, sg, 4);
        assert(sg.subrange(0, 2) + sg.subrange(2, 5) =~= sg);
        lemma_holds_cat(t, j, sg.subrange(0, 2), sg.subrange(2, 5));
        assert(sg.subrange(2, 5) =~= seq![TokenV::Characters(b@), TokenV::End("Binary"@)] + seq![TokenV::End("Signal"@)]);
        lemma_holds_cat(t, j + 2, seq![TokenV::Characters(b@), TokenV::End("Binary"@)], seq![TokenV::End("Signal"@)]);
        lemma_text_read(t, j + 2, "Binary"@, b@);
        lemma_trimmed_read(b@);
        assert(signal_scan(t, j + 4, Some(b@)) == Ok::<(Option<Seq<char>>, int), ErrorKind>((Some(b@), j + 5)));
        assert(signal_scan(t, j + 1, None) == Ok::<(Option<Seq<char>>, int), ErrorKind>((Some(b@), j + 5)));
        assert(event_body_scan(t, j, text, None) == event_body_scan(t, k, text, Some(b@)));
    }
    lemma_holds_index(t, k, en, 0);
    if e.content is None {
        assert(trim(Seq::<char>::empty()).len() == 0);
    }
}

/// What lies inside the element `name` for `d`, as reader tokens.
#[verifier::opaque]
pub open spec fn descriptor_inner_tokens(d: Descriptor) -> Seq<TokenV> {
    seq![]
}

/// The reader tokens of `d` written as the element `name`.
pub open spec fn descriptor_tokens(name: Seq<char>, d: Descriptor) -> Seq<TokenV> {
    element_tokens(name, descriptor_attrs(d), descriptor_inner_tokens(d))
}

pub open spec fn descriptor_tokens_fn(name: Seq<char>) -> spec_fn(Descriptor) -> Seq<TokenV> {
    |d: Descriptor| descriptor_tokens(name, d)
}

/// What lies inside the element `name` for `l`, as reader tokens.
#[verifier::opaque]
pub open spec fn label_inner_tokens(l: Label) -> Seq<TokenV> {
    characters_tokens(l.text@)
}

/// The reader tokens of `l` written as the element `name`.
pub open spec fn label_tokens(name: Seq<char>, l: Label) -> Seq<TokenV> {
    element_tokens(name, label_attrs(l), label_inner_tokens(l))
}

pub open spec fn label_tokens_fn(name: Seq<char>) -> spec_fn(Label) -> Seq<TokenV> {
    |l: Label| label_tokens(name, l)
}

/// What lies inside `UTCTiming` for `u`, as reader tokens.
#[verifier::opaque]
pub open spec fn utc_timing_inner_tokens(u: UtcTiming) -> Seq<TokenV> {
    seq![]
}

/// The reader tokens of `u` written as `UTCTiming`.
pub open spec fn utc_timing_tokens(u: UtcTiming) -> Seq<TokenV> {
    element_tokens("UTCTiming"@, utc_timing_attrs(u), utc_timing_inner_tokens(u))
}

pub open spec fn utc_timing_tokens_fn() -> spec_fn(UtcTiming) -> Seq<TokenV> {
    |u: UtcTiming| utc_timing_tokens(u)
}

/// What lies inside `Location` for `l`, as reader tokens.
#[verifier::opaque]
pub open spec fn location_inner_tokens(l: Location) -> Seq<TokenV> {
    characters_tokens(l.url@)
}

/// The reader tokens of `l` written as `Location`.
pub open spec fn location_tokens(l: Location) -> Seq<TokenV> {
    element_tokens("Location"@, location_attrs(l), location_inner_tokens(l))
}

pub open spec fn location_tokens_fn() -> spec_fn(Location) -> Seq<TokenV> {
    |l: Location| location_tokens(l)
}

/// What lies inside `BaseURL` for `b`, as reader tokens.
#[verifier::opaque]
pub open spec fn base_url_inner_tokens(b: BaseUrl) -> Seq<TokenV> {
    characters_tokens(b.url@)
}

/// The reader tokens of `b` written as `BaseURL`.
pub open spec fn base_url_tokens(b: BaseUrl) -> Seq<TokenV> {
    element_tokens("BaseURL"@, base_url_attrs(b), base_url_inner_tokens(b))
}

pub open spec fn base_url_tokens_fn() -> spec_fn(BaseUrl) -> Seq<TokenV> {
    |b: BaseUrl| base_url_tokens(b)
}

/// What lies inside `PatchLocation` for `p`, as reader tokens.
#[verifier::opaque]
pub open spec fn patch_location_inner_tokens(p: PatchLocation) -> Seq<TokenV> {
    characters_tokens(p.url@)
}

/// The reader tokens of `p` written as `PatchLocation`.
pub open spec fn patch_location_tokens(p: PatchLocation) -> Seq<TokenV> {
    element_tokens("PatchLocation"@, patch_location_attrs(p), patch_location_inner_tokens(p))
}

pub open spec fn patch_location_tokens_fn() -> spec_fn(PatchLocation) -> Seq<TokenV> {
    |p: PatchLocation| patch_location_tokens(p)
}

/// What lies inside `Latency` for `l`, as reader tokens.
#[verifier::opaque]
pub open spec fn latency_inner_tokens(l: Latency) -> Seq<TokenV> {
    seq![]
}

/// The reader tokens of `l` written as `Latency`.
pub open spec fn latency_tokens(l: Latency) -> Seq<TokenV> {
    element_tokens("Latency"@, latency_attrs(l), latency_inner_tokens(l))
}

pub open spec fn latency_tokens_fn() -> spec_fn(Latency) -> Seq<TokenV> {
    |l: Latency| latency_tokens(l)
}

/// What lies inside `PlaybackRate` for `p`, as reader tokens.
#[verifier::opaque]
pub open spec fn playback_rate_inner_tokens(p: PlaybackRate) -> Seq<TokenV> {
    seq![]
}

/// The reader tokens of `p` written as `PlaybackRate`.
pub open spec fn playback_rate_tokens(p: PlaybackRate) -> Seq<TokenV> {
    element_tokens("PlaybackRate"@, playback_rate_attrs(p), playback_rate_inner_tokens(p))
}

pub open spec fn playback_rate_tokens_fn() -> spec_fn(PlaybackRate) -> Seq<TokenV> {
    |p: PlaybackRate| playback_rate_tokens(p)
}

/// What lies inside `OperatingQuality` for `q`, as reader tokens.
#[verifier::opaque]
pub open spec fn operating_quality_inner_tokens(q: OperatingQuality) -> Seq<TokenV> {
    seq![]
}

/// The reader tokens of `q` written as `OperatingQuality`.
pub open spec fn operating_quality_tokens(q: OperatingQuality) -> Seq<TokenV> {
    element_tokens("OperatingQuality"@, operating_quality_attrs(q), operating_quality_inner_tokens(q))
}

pub open spec fn operating_quality_tokens_fn() -> spec_fn(OperatingQuality) -> Seq<TokenV> {
    |q: OperatingQuality| operating_quality_tokens(q)
}

/// What lies inside `OperatingBandwidth` for `b`, as reader tokens.
#[verifier::opaque]
pub open spec fn operating_bandwidth_inner_tokens(b: OperatingBandwidth) -> Seq<TokenV> {
    seq![]
}

/// The reader tokens of `b` written as `OperatingBandwidth`.
pub open spec fn operating_bandwidth_tokens(b: OperatingBandwidth) -> Seq<TokenV> {
    element_tokens("OperatingBandwidth"@, operating_bandwidth_attrs(b), operating_bandwidth_inner_tokens(b))
}

pub open spec fn operating_bandwidth_tokens_fn() -> spec_fn(OperatingBandwidth) -> Seq<TokenV> {
    |b: OperatingBandwidth| operating_bandwidth_tokens(b)
}

/// What lies inside `CMCDParameters` for `c`, as reader tokens.
#[verifier::opaque]
pub open spec fn cmcd_parameters_inner_tokens(c: CmcdParameters) -> Seq<TokenV> {
    seq![]
}

/// The reader tokens of `c` written as `CMCDParameters`.
pub open spec fn cmcd_parameters_tokens(c: CmcdParameters) -> Seq<TokenV> {
    element_tokens("CMCDParameters"@, cmcd_parameters_attrs(c), cmcd_parameters_inner_tokens(c))
}

pub open spec fn cmcd_parameters_tokens_fn() -> spec_fn(CmcdParameters) -> Seq<TokenV> {
    |c: CmcdParameters| cmcd_parameters_tokens(c)
}

/// What lies inside `ClientDataReporting` for `c`, as reader tokens.
#[verifier::opaque]
pub open spec fn client_data_reporting_inner_tokens(c: ClientDataReporting) -> Seq<TokenV> {
    opt_tokens(c.cmcd_parameters, cmcd_parameters_tokens_fn())
}

/// The reader tokens of `c` written as `ClientDataReporting`.
pub open spec fn client_data_reporting_tokens(c: ClientDataReporting) -> Seq<TokenV> {
    element_tokens("ClientDataReporting"@, client_data_reporting_attrs(c), client_data_reporting_inner_tokens(c))
}

pub open spec fn client_data_reporting_tokens_fn() -> spec_fn(ClientDataReporting) -> Seq<TokenV> {
    |c: ClientDataReporting| client_data_reporting_tokens(c)
}

/// What lies inside `ServiceDescription` for `s`, as reader tokens.
#[verifier::opaque]
pub open spec fn service_description_inner_tokens(s: ServiceDescription) -> Seq<TokenV> {
    opt_tokens(s.scope, descriptor_tokens_fn("Scope"@))
        + opt_tokens(s.latency, latency_tokens_fn())
        + opt_tokens(s.playback_rate, playback_rate_tokens_fn())
        + opt_tokens(s.operating_quality, operating_quality_tokens_fn())
        + opt_tokens(s.operating_bandwidth, operating_bandwidth_tokens_fn())
        + opt_tokens(s.client_data_reporting, client_data_reporting_tokens_fn())
}

/// The reader tokens of `s` written as `ServiceDescription`.
pub open spec fn service_description_tokens(s: ServiceDescription) -> Seq<TokenV> {
    element_tokens("ServiceDescription"@, service_description_attrs(s), service_description_inner_tokens(s))
}

pub open spec fn service_description_tokens_fn() -> spec_fn(ServiceDescription) -> Seq<TokenV> {
    |s: ServiceDescription| service_description_tokens(s)
}

/// What lies inside `ContentSteering` for `c`, as reader tokens.
#[verifier::opaque]
pub open spec fn content_steering_inner_tokens(c: ContentSteering) -> Seq<TokenV> {
    characters_tokens(c.server_url@)
}

/// The reader tokens of `c` written as `ContentSteering`.
pub open spec fn content_steering_tokens(c: ContentSteering) -> Seq<TokenV> {
    element_tokens("ContentSteering"@, content_steering_attrs(c), content_steering_inner_tokens(c))
}

pub open spec fn content_steering_tokens_fn() -> spec_fn(ContentSteering) -> Seq<TokenV> {
    |c: ContentSteering| content_steering_tokens(c)
}

/// What lies inside `Range` for `r`, as reader tokens.
#[verifier::opaque]
pub open spec fn metrics_range_inner_tokens(r: MetricsRange) -> Seq<TokenV> {
    seq![]
}

/// The reader tokens of `r` written as `Range`.
pub open spec fn metrics_range_tokens(r: MetricsRange) -> Seq<TokenV> {
    element_tokens("Range"@, metrics_range_attrs(r), metrics_range_inner_tokens(r))
}

pub open spec fn metrics_range_tokens_fn() -> spec_fn(MetricsRange) -> Seq<TokenV> {
    |r: MetricsRange| metrics_range_tokens(r)
}

/// What lies inside `Metrics` for `m`, as reader tokens.
#[verifier::opaque]
pub open spec fn metrics_inner_tokens(m: Metrics) -> Seq<TokenV> {
    each_tokens(m.reportings@, descriptor_tokens_fn("Reporting"@)) + each_tokens(m.ranges@, metrics_range_tokens_fn())
}

/// The reader tokens of `m` written as `Metrics`.
pub open spec fn metrics_tokens(m: Metrics) -> Seq<TokenV> {
    element_tokens("Metrics"@, metrics_attrs(m), metrics_inner_tokens(m))
}

pub open spec fn metrics_tokens_fn() -> spec_fn(Metrics) -> Seq<TokenV> {
    |m: Metrics| metrics_tokens(m)
}

/// What lies inside `Event` for `e`, as reader tokens.
#[verifier::opaque]
pub open spec fn event_inner_tokens(e: Event) -> Seq<TokenV> {
    opt_text_tokens(e.content) + signal_tokens(e.signal_binary)
}

/// The reader tokens of `e` written as `Event`.
pub open spec fn event_tokens(e: Event) -> Seq<TokenV> {
    element_tokens("Event"@, event_attrs(e), event_inner_tokens(e))
}

pub open spec fn event_tokens_fn() -> spec_fn(Event) -> Seq<TokenV> {
    |e: Event| event_tokens(e)
}

/// What lies inside `EventStream` for `s`, as reader tokens.
#[verifier::opaque]
pub open spec fn event_stream_inner_tokens(s: EventStream) -> Seq<TokenV> {
    each_tokens(s.events@, event_tokens_fn())
}

/// The reader tokens of `s` written as `EventStream`.
pub open spec fn event_stream_tokens(s: EventStream) -> Seq<TokenV> {
    element_tokens("EventStream"@, event_stream_attrs(s), event_stream_inner_tokens(s))
}

pub open spec fn event_stream_tokens_fn() -> spec_fn(EventStream) -> Seq<TokenV> {
    |s: EventStream| event_stream_tokens(s)
}

/// What lies inside `ProducerReferenceTime` for `p`, as reader tokens.
#[verifier::opaque]
pub open spec fn producer_reference_time_inner_tokens(p: ProducerReferenceTime) -> Seq<TokenV> {
    opt_tokens(p.utc_timing, utc_timing_tokens_fn())
}

/// The reader tokens of `p` written as `ProducerReferenceTime`.
pub open spec fn producer_reference_time_tokens(p: ProducerReferenceTime) -> Seq<TokenV> {
    element_tokens("ProducerReferenceTime"@, producer_reference_time_attrs(p), producer_reference_time_inner_tokens(p))
}

pub open spec fn producer_reference_time_tokens_fn() -> spec_fn(ProducerReferenceTime) -> Seq<TokenV> {
    |p: ProducerReferenceTime| producer_reference_time_tokens(p)
}

/// What lies inside `ContentComponent` for `c`, as reader tokens.
#[verifier::opaque]
pub open spec fn content_component_inner_tokens(c: ContentComponent) -> Seq<TokenV> {
    each_tokens(c.accessibilities@, descriptor_tokens_fn("Accessibility"@)) + each_tokens(c.roles@, descriptor_tokens_fn("Role"@))
}

/// The reader tokens of `c` written as `ContentComponent`.
pub open spec fn content_component_tokens(c: ContentComponent) -> Seq<TokenV> {
    element_tokens("ContentComponent"@, content_component_attrs(c), content_component_inner_tokens(c))
}

pub open spec fn content_component_tokens_fn() -> spec_fn(ContentComponent) -> Seq<TokenV> {
    |c: ContentComponent| content_component_tokens(c)
}

/// What lies inside `SegmentSequenceProperties` for `s`, as reader tokens.
#[verifier::opaque]
pub open spec fn segment_sequence_properties_inner_tokens(s: SegmentSequenceProperties) -> Seq<TokenV> {
    seq![]
}

/// The reader tokens of `s` written as `SegmentSequenceProperties`.
pub open spec fn segment_sequence_properties_tokens(s: SegmentSequenceProperties) -> Seq<TokenV> {
    element_tokens("SegmentSequenceProperties"@, segment_sequence_properties_attrs(s), segment_sequence_properties_inner_tokens(s))
}

pub open spec fn segment_sequence_properties_tokens_fn() -> spec_fn(SegmentSequenceProperties) -> Seq<TokenV> {
    |s: SegmentSequenceProperties| segment_sequence_properties_tokens(s)
}

/// What lies inside `Certurl` for `c`, as reader tokens.
#[verifier::opaque]
pub open spec fn cert_url_inner_tokens(c: CertUrl) -> Seq<TokenV> {
    characters_tokens(c.url@)
}

/// The reader tokens of `c` written as `Certurl`.
pub open spec fn cert_url_tokens(c: CertUrl) -> Seq<TokenV> {
    element_tokens("Certurl"@, cert_url_attrs(c), cert_url_inner_tokens(c))
}

pub open spec fn cert_url_tokens_fn() -> spec_fn(CertUrl) -> Seq<TokenV> {
    |c: CertUrl| cert_url_tokens(c)
}

/// What lies inside `ContentProtection` for `c`, as reader tokens.
#[verifier::opaque]
pub open spec fn content_protection_inner_tokens(c: ContentProtection) -> Seq<TokenV> {
    text_element_tokens("cenc:pssh"@, c.pssh)
        + text_element_tokens("Laurl"@, c.laurl)
        + text_element_tokens("pro"@, c.pro)
        + each_tokens(c.certurls@, cert_url_tokens_fn())
}

/// The reader tokens of `c` written as `ContentProtection`.
pub open spec fn content_protection_tokens(c: ContentProtection) -> Seq<TokenV> {
    element_tokens("ContentProtection"@, content_protection_attrs(c), content_protection_inner_tokens(c))
}

pub open spec fn content_protection_tokens_fn() -> spec_fn(ContentProtection) -> Seq<TokenV> {
    |c: ContentProtection| content_protection_tokens(c)
}

/// What lies inside `S` for `e`, as reader tokens.
#[verifier::opaque]
pub open spec fn timeline_entry_inner_tokens(e: TimelineEntry) -> Seq<TokenV> {
    seq![]
}

/// The reader tokens of `e` written as `S`.
pub open spec fn timeline_entry_tokens(e: TimelineEntry) -> Seq<TokenV> {
    element_tokens("S"@, timeline_entry_attrs(e), timeline_entry_inner_tokens(e))
}

pub open spec fn timeline_entry_tokens_fn() -> spec_fn(TimelineEntry) -> Seq<TokenV> {
    |e: TimelineEntry| timeline_entry_tokens(e)
}

/// What lies inside `SegmentURL` for `u`, as reader tokens.
#[verifier::opaque]
pub open spec fn segment_url_inner_tokens(u: SegmentUrl) -> Seq<TokenV> {
    seq![]
}

/// The reader tokens of `u` written as `SegmentURL`.
pub open spec fn segment_url_tokens(u: SegmentUrl) -> Seq<TokenV> {
    element_tokens("SegmentURL"@, segment_url_attrs(u), segment_url_inner_tokens(u))
}

pub open spec fn segment_url_tokens_fn() -> spec_fn(SegmentUrl) -> Seq<TokenV> {
    |u: SegmentUrl| segment_url_tokens(u)
}

/// What lies inside `SegmentBase` for `b`, as reader tokens.
#[verifier::opaque]
pub open spec fn segment_base_inner_tokens(b: SegmentBase) -> Seq<TokenV> {
    pair_tokens("Initialization"@, b.initialization_source_url, b.initialization_range)
        + pair_tokens("RepresentationIndex"@, b.representation_index_source_url, b.representation_index_range)
        + pair_tokens("BitstreamSwitching"@, b.bitstream_switching_source_url, b.bitstream_switching_range)
}

/// The reader tokens of `b` written as `SegmentBase`.
pub open spec fn segment_base_tokens(b: SegmentBase) -> Seq<TokenV> {
    element_tokens("SegmentBase"@, segment_base_attrs(b), segment_base_inner_tokens(b))
}

pub open spec fn segment_base_tokens_fn() -> spec_fn(SegmentBase) -> Seq<TokenV> {
    |b: SegmentBase| segment_base_tokens(b)
}

/// What lies inside `SegmentList` for `l`, as reader tokens.
#[verifier::opaque]
pub open spec fn segment_list_inner_tokens(l: SegmentList) -> Seq<TokenV> {
    pair_tokens("Initialization"@, l.initialization_source_url, l.initialization_range)
        + pair_tokens("RepresentationIndex"@, l.representation_index_source_url, l.representation_index_range)
        + pair_tokens("BitstreamSwitching"@, l.bitstream_switching_source_url, l.bitstream_switching_range)
        + opt_timeline_tokens(l.segment_timeline)
        + each_tokens(l.segment_urls@, segment_url_tokens_fn())
}

/// The reader tokens of `l` written as `SegmentList`.
pub open spec fn segment_list_tokens(l: SegmentList) -> Seq<TokenV> {
    element_tokens("SegmentList"@, segment_list_attrs(l), segment_list_inner_tokens(l))
}

pub open spec fn segment_list_tokens_fn() -> spec_fn(SegmentList) -> Seq<TokenV> {
    |l: SegmentList| segment_list_tokens(l)
}

/// What lies inside `SegmentTemplate` for `tm`, as reader tokens.
#[verifier::opaque]
pub open spec fn segment_template_inner_tokens(tm: SegmentTemplate) -> Seq<TokenV> {
    pair_tokens("BitstreamSwitching"@, tm.bitstream_switching_source_url, tm.bitstream_switching_range) + opt_timeline_tokens(tm.segment_timeline)
}

/// The reader tokens of `tm` written as `SegmentTemplate`.
pub open spec fn segment_template_tokens(tm: SegmentTemplate) -> Seq<TokenV> {
    element_tokens("SegmentTemplate"@, segment_template_attrs(tm), segment_template_inner_tokens(tm))
}

pub open spec fn segment_template_tokens_fn() -> spec_fn(SegmentTemplate) -> Seq<TokenV> {
    |tm: SegmentTemplate| segment_template_tokens(tm)
}

/// What lies inside `Preselection` for `p`, as reader tokens.
#[verifier::opaque]
pub open spec fn preselection_inner_tokens(p: Preselection) -> Seq<TokenV> {
    each_tokens(p.accessibilities@, descriptor_tokens_fn("Accessibility"@))
        + each_tokens(p.roles@, descriptor_tokens_fn("Role"@))
        + each_tokens(p.viewpoints@, descriptor_tokens_fn("Viewpoint"@))
        + each_tokens(p.labels@, label_tokens_fn("Label"@))
        + each_tokens(p.essential_properties@, descriptor_tokens_fn("EssentialProperty"@))
        + each_tokens(p.supplemental_properties@, descriptor_tokens_fn("SupplementalProperty"@))
}

/// The reader tokens of `p` written as `Preselection`.
pub open spec fn preselection_tokens(p: Preselection) -> Seq<TokenV> {
    element_tokens("Preselection"@, preselection_attrs(p), preselection_inner_tokens(p))
}

pub open spec fn preselection_tokens_fn() -> spec_fn(Preselection) -> Seq<TokenV> {
    |p: Preselection| preselection_tokens(p)
}

/// What lies inside `Subset` for `s`, as reader tokens.
#[verifier::opaque]
pub open spec fn subset_inner_tokens(s: Subset) -> Seq<TokenV> {
    seq![]
}

/// The reader tokens of `s` written as `Subset`.
pub open spec fn subset_tokens(s: Subset) -> Seq<TokenV> {
    element_tokens("Subset"@, subset_attrs(s), subset_inner_tokens(s))
}

pub open spec fn subset_tokens_fn() -> spec_fn(Subset) -> Seq<TokenV> {
    |s: Subset| subset_tokens(s)
}

/// What lies inside `SubRepresentation` for `s`, as reader tokens.
#[verifier::opaque]
pub open spec fn sub_representation_inner_tokens(s: SubRepresentation) -> Seq<TokenV> {
    each_tokens(s.content_protections@, content_protection_tokens_fn())
        + each_tokens(s.audio_channel_configurations@, descriptor_tokens_fn("AudioChannelConfiguration"@))
        + each_tokens(s.frame_packings@, descriptor_tokens_fn("FramePacking"@))
        + each_tokens(s.inband_event_streams@, descriptor_tokens_fn("InbandEventStream"@))
        + each_tokens(s.essential_properties@, descriptor_tokens_fn("EssentialProperty"@))
        + each_tokens(s.supplemental_properties@, descriptor_tokens_fn("SupplementalProperty"@))
        + each_tokens(s.segment_sequence_properties@, segment_sequence_properties_tokens_fn())
}

/// The reader tokens of `s` written as `SubRepresentation`.
pub open spec fn sub_representation_tokens(s: SubRepresentation) -> Seq<TokenV> {
    element_tokens("SubRepresentation"@, sub_representation_attrs(s), sub_representation_inner_tokens(s))
}

pub open spec fn sub_representation_tokens_fn() -> spec_fn(SubRepresentation) -> Seq<TokenV> {
    |s: SubRepresentation| sub_representation_tokens(s)
}

/// What lies inside `Representation` for `r`, as reader tokens.
#[verifier::opaque]
pub open spec fn representation_inner_tokens(r: Representation) -> Seq<TokenV> {
    each_tokens(r.base_urls@, base_url_tokens_fn())
        + each_tokens(r.audio_channel_configurations@, descriptor_tokens_fn("AudioChannelConfiguration"@))
        + each_tokens(r.essential_properties@, descriptor_tokens_fn("EssentialProperty"@))
        + each_tokens(r.supplemental_properties@, descriptor_tokens_fn("SupplementalProperty"@))
        + each_tokens(r.frame_packings@, descriptor_tokens_fn("FramePacking"@))
        + each_tokens(r.inband_event_streams@, descriptor_tokens_fn("InbandEventStream"@))
        + each_tokens(r.producer_reference_times@, producer_reference_time_tokens_fn())
        + each_tokens(r.segment_sequence_properties@, segment_sequence_properties_tokens_fn())
        + each_tokens(r.sub_representations@, sub_representation_tokens_fn())
        + each_tokens(r.content_protections@, content_protection_tokens_fn())
        + opt_tokens(r.segment_base, segment_base_tokens_fn())
        + opt_tokens(r.segment_list, segment_list_tokens_fn())
        + opt_tokens(r.segment_template, segment_template_tokens_fn())
}

/// The reader tokens of `r` written as `Representation`.
pub open spec fn representation_tokens(r: Representation) -> Seq<TokenV> {
    element_tokens("Representation"@, representation_attrs(r), representation_inner_tokens(r))
}

pub open spec fn representation_tokens_fn() -> spec_fn(Representation) -> Seq<TokenV> {
    |r: Representation| representation_tokens(r)
}

/// What lies inside `AdaptationSet` for `a`, as reader tokens.
#[verifier::opaque]
pub open spec fn adaptation_set_inner_tokens(a: AdaptationSet) -> Seq<TokenV> {
    each_tokens(a.base_urls@, base_url_tokens_fn())
        + each_tokens(a.roles@, descriptor_tokens_fn("Role"@))
        + each_tokens(a.accessibilities@, descriptor_tokens_fn("Accessibility"@))
        + each_tokens(a.audio_channel_configurations@, descriptor_tokens_fn("AudioChannelConfiguration"@))
        + each_tokens(a.labels@, label_tokens_fn("Label"@))
        + each_tokens(a.group_labels@, label_tokens_fn("GroupLabel"@))
        + each_tokens(a.essential_properties@, descriptor_tokens_fn("EssentialProperty"@))
        + each_tokens(a.supplemental_properties@, descriptor_tokens_fn("SupplementalProperty"@))
        + each_tokens(a.viewpoints@, descriptor_tokens_fn("Viewpoint"@))
        + each_tokens(a.frame_packings@, descriptor_tokens_fn("FramePacking"@))
        + each_tokens(a.inband_event_streams@, descriptor_tokens_fn("InbandEventStream"@))
        + each_tokens(a.producer_reference_times@, producer_reference_time_tokens_fn())
        + each_tokens(a.content_components@, content_component_tokens_fn())
        + each_tokens(a.segment_sequence_properties@, segment_sequence_properties_tokens_fn())
        + each_tokens(a.event_streams@, event_stream_tokens_fn())
        + each_tokens(a.content_protections@, content_protection_tokens_fn())
        + opt_tokens(a.segment_base, segment_base_tokens_fn())
        + opt_tokens(a.segment_list, segment_list_tokens_fn())
        + opt_tokens(a.segment_template, segment_template_tokens_fn())
        + each_tokens(a.representations@, representation_tokens_fn())
}

/// The reader tokens of `a` written as `AdaptationSet`.
pub open spec fn adaptation_set_tokens(a: AdaptationSet) -> Seq<TokenV> {
    element_tokens("AdaptationSet"@, adaptation_set_attrs(a), adaptation_set_inner_tokens(a))
}

pub open spec fn adaptation_set_tokens_fn() -> spec_fn(AdaptationSet) -> Seq<TokenV> {
    |a: AdaptationSet| adaptation_set_tokens(a)
}

/// What lies inside `Period` for `p`, as reader tokens.
#[verifier::opaque]
pub open spec fn period_inner_tokens(p: Period) -> Seq<TokenV> {
    each_tokens(p.base_urls@, base_url_tokens_fn())
        + opt_tokens(p.segment_base, segment_base_tokens_fn())
        + opt_tokens(p.segment_list, segment_list_tokens_fn())
        + opt_tokens(p.segment_template, segment_template_tokens_fn())
        + opt_tokens(p.asset_identifier, descriptor_tokens_fn("AssetIdentifier"@))
        + each_tokens(p.event_streams@, event_stream_tokens_fn())
        + each_tokens(p.adaptation_sets@, adaptation_set_tokens_fn())
        + each_tokens(p.subsets@, subset_tokens_fn())
        + each_tokens(p.supplemental_properties@, descriptor_tokens_fn("SupplementalProperty"@))
        + each_tokens(p.essential_properties@, descriptor_tokens_fn("EssentialProperty"@))
        + each_tokens(p.preselections@, preselection_tokens_fn())
}

/// The reader tokens of `p` written as `Period`.
pub open spec fn period_tokens(p: Period) -> Seq<TokenV> {
    element_tokens("Period"@, period_attrs(p), period_inner_tokens(p))
}

pub open spec fn period_tokens_fn() -> spec_fn(Period) -> Seq<TokenV> {
    |p: Period| period_tokens(p)
}

/// What lies inside `MPD` for `m`, as reader tokens.
#[verifier::opaque]
pub open spec fn mpd_inner_tokens(m: Mpd) -> Seq<TokenV> {
    each_tokens(m.base_urls@, base_url_tokens_fn())
        + each_tokens(m.locations@, location_tokens_fn())
        + each_tokens(m.patch_locations@, patch_location_tokens_fn())
        + each_tokens(m.service_descriptions@, service_description_tokens_fn())
        + each_tokens(m.periods@, period_tokens_fn())
        + each_tokens(m.metrics@, metrics_tokens_fn())
        + each_tokens(m.essential_properties@, descriptor_tokens_fn("EssentialProperty"@))
        + each_tokens(m.supplemental_properties@, descriptor_tokens_fn("SupplementalProperty"@))
        + each_tokens(m.utc_timings@, utc_timing_tokens_fn())
        + opt_tokens(m.content_steering, content_steering_tokens_fn())
}

/// The reader tokens of `m` written as `MPD`.
pub open spec fn mpd_tokens(m: Mpd) -> Seq<TokenV> {
    element_tokens("MPD"@, mpd_attrs(m), mpd_inner_tokens(m))
}

/// `l` holds only what the reader reads back as it is: durations that
/// it accepts, texts without white space around them, and no empty text
/// that it would drop.
pub open spec fn label_clean(l: Label) -> bool {
    &&& kept(l.text@)
}

/// `l` holds only what the reader reads back as it is: durations that
/// it accepts, texts without white space around them, and no empty text
/// that it would drop.
pub open spec fn location_clean(l: Location) -> bool {
    &&& trimmed(l.url@)
}

/// `b` holds only what the reader reads back as it is: durations that
/// it accepts, texts without white space around them, and no empty text
/// that it would drop.
pub open spec fn base_url_clean(b: BaseUrl) -> bool {
    &&& trimmed(b.url@)
}

/// `p` holds only what the reader reads back as it is: durations that
/// it accepts, texts without white space around them, and no empty text
/// that it would drop.
pub open spec fn patch_location_clean(p: PatchLocation) -> bool {
    &&& trimmed(p.url@)
}

/// `c` holds only what the reader reads back as it is: durations that
/// it accepts, texts without white space around them, and no empty text
/// that it would drop.
pub open spec fn content_steering_clean(c: ContentSteering) -> bool {
    &&& trimmed(c.server_url@)
}

/// `r` holds only what the reader reads back as it is: durations that
/// it accepts, texts without white space around them, and no empty text
/// that it would drop.
pub open spec fn metrics_range_clean(r: MetricsRange) -> bool {
    &&& r.starttime matches Some(s) ==> duration_ok(s@)
    &&& r.duration matches Some(s) ==> duration_ok(s@)
}

/// `m` holds only what the reader reads back as it is: durations that
/// it accepts, texts without white space around them, and no empty text
/// that it would drop.
pub open spec fn metrics_clean(m: Metrics) -> bool {
    &&& forall|k: int| 0 <= k < m.ranges@.len() ==> metrics_range_clean(#[trigger] m.ranges@[k])
}

/// `e` holds only what the reader reads back as it is: durations that
/// it accepts, texts without white space around them, and no empty text
/// that it would drop.
pub open spec fn event_clean(e: Event) -> bool {
    &&& e.content matches Some(s) ==> kept(s@)
    &&& e.signal_binary matches Some(s) ==> kept(s@)
}

/// `s` holds only what the reader reads back as it is: durations that
/// it accepts, texts without white space around them, and no empty text
/// that it would drop.
pub open spec fn event_stream_clean(s: EventStream) -> bool {
    &&& forall|k: int| 0 <= k < s.events@.len() ==> event_clean(#[trigger] s.events@[k])
}

/// `c` holds only what the reader reads back as it is: durations that
/// it accepts, texts without white space around them, and no empty text
/// that it would drop.
pub open spec fn cert_url_clean(c: CertUrl) -> bool {
    &&& kept(c.url@)
}

/// `c` holds only what the reader reads back as it is: durations that
/// it accepts, texts without white space around them, and no empty text
/// that it would drop.
pub open spec fn content_protection_clean(c: ContentProtection) -> bool {
    &&& c.pssh matches Some(s) ==> kept(s@)
    &&& c.laurl matches Some(s) ==> kept(s@)
    &&& c.pro matches Some(s) ==> kept(s@)
    &&& forall|k: int| 0 <= k < c.certurls@.len() ==> cert_url_clean(#[trigger] c.certurls@[k])
}

/// `p` holds only what the reader reads back as it is: durations that
/// it accepts, texts without white space around them, and no empty text
/// that it would drop.
pub open spec fn preselection_clean(p: Preselection) -> bool {
    &&& forall|k: int| 0 <= k < p.labels@.len() ==> label_clean(#[trigger] p.labels@[k])
}

/// `s` holds only what the reader reads back as it is: durations that
/// it accepts, texts without white space around them, and no empty text
/// that it would drop.
pub open spec fn sub_representation_clean(s: SubRepresentation) -> bool {
    &&& s.maximum_sap_period matches Some(s) ==> duration_ok(s@)
    &&& forall|k: int| 0 <= k < s.content_protections@.len() ==> content_protection_clean(#[trigger] s.content_protections@[k])
}

/// `r` holds only what the reader reads back as it is: durations that
/// it accepts, texts without white space around them, and no empty text
/// that it would drop.
pub open spec fn representation_clean(r: Representation) -> bool {
    &&& r.maximum_sap_period matches Some(s) ==> duration_ok(s@)
    &&& forall|k: int| 0 <= k < r.base_urls@.len() ==> base_url_clean(#[trigger] r.base_urls@[k])
    &&& forall|k: int| 0 <= k < r.sub_representations@.len() ==> sub_representation_clean(#[trigger] r.sub_representations@[k])
    &&& forall|k: int| 0 <= k < r.content_protections@.len() ==> content_protection_clean(#[trigger] r.content_protections@[k])
}

/// `a` holds only what the reader reads back as it is: durations that
/// it accepts, texts without white space around them, and no empty text
/// that it would drop.
pub open spec fn adaptation_set_clean(a: AdaptationSet) -> bool {
    &&& a.maximum_sap_period matches Some(s) ==> duration_ok(s@)
    &&& forall|k: int| 0 <= k < a.base_urls@.len() ==> base_url_clean(#[trigger] a.base_urls@[k])
    &&& forall|k: int| 0 <= k < a.labels@.len() ==> label_clean(#[trigger] a.labels@[k])
    &&& forall|k: int| 0 <= k < a.group_labels@.len() ==> label_clean(#[trigger] a.group_labels@[k])
    &&& forall|k: int| 0 <= k < a.event_streams@.len() ==> event_stream_clean(#[trigger] a.event_streams@[k])
    &&& forall|k: int| 0 <= k < a.content_protections@.len() ==> content_protection_clean(#[trigger] a.content_protections@[k])
    &&& forall|k: int| 0 <= k < a.representations@.len() ==> representation_clean(#[trigger] a.representations@[k])
}

/// `p` holds only what the reader reads back as it is: durations that
/// it accepts, texts without white space around them, and no empty text
/// that it would drop.
pub open spec fn period_clean(p: Period) -> bool {
    &&& p.start matches Some(s) ==> duration_ok(s@)
    &&& p.duration matches Some(s) ==> duration_ok(s@)
    &&& forall|k: int| 0 <= k < p.base_urls@.len() ==> base_url_clean(#[trigger] p.base_urls@[k])
    &&& forall|k: int| 0 <= k < p.event_streams@.len() ==> event_stream_clean(#[trigger] p.event_streams@[k])
    &&& forall|k: int| 0 <= k < p.adaptation_sets@.len() ==> adaptation_set_clean(#[trigger] p.adaptation_sets@[k])
    &&& forall|k: int| 0 <= k < p.preselections@.len() ==> preselection_clean(#[trigger] p.preselections@[k])
}

/// `m` holds only what the reader reads back as it is: durations that
/// it accepts, texts without white space around them, and no empty text
/// that it would drop.
pub open spec fn mpd_clean(m: Mpd) -> bool {
    &&& duration_ok(m.min_buffer_time@)
    &&& m.media_presentation_duration matches Some(s) ==> duration_ok(s@)
    &&& m.minimum_update_period matches Some(s) ==> duration_ok(s@)
    &&& m.time_shift_buffer_depth matches Some(s) ==> duration_ok(s@)
    &&& m.suggested_presentation_delay matches Some(s) ==> duration_ok(s@)
    &&& m.max_segment_duration matches Some(s) ==> duration_ok(s@)
    &&& m.max_subsegment_duration matches Some(s) ==> duration_ok(s@)
    &&& forall|k: int| 0 <= k < m.base_urls@.len() ==> base_url_clean(#[trigger] m.base_urls@[k])
    &&& forall|k: int| 0 <= k < m.locations@.len() ==> location_clean(#[trigger] m.locations@[k])
    &&& forall|k: int| 0 <= k < m.patch_locations@.len() ==> patch_location_clean(#[trigger] m.patch_locations@[k])
    &&& forall|k: int| 0 <= k < m.periods@.len() ==> period_clean(#[trigger] m.periods@[k])
    &&& forall|k: int| 0 <= k < m.metrics@.len() ==> metrics_clean(#[trigger] m.metrics@[k])
    &&& m.content_steering matches Some(c) ==> content_steering_clean(c)
}

/// How the reader names the elements that the writer writes in `Location`,
/// and how those names differ.
proof fn lemma_location_names()
    ensures
        local_of("Location"@) == "Location"@,
        "Location"@.len() == 8,
{
    reveal(local_of);
    reveal_with_fuel(first_index, 9);
    reveal_strlit("Location");
    assert("Location"@.len() == 8);
}

/// A written `Location` element is read back whole, up to just after its end tag.
pub proof fn lemma_location_reads(t: Seq<TokenV>, i: int, l: Location)
    requires
        holds_at(t, i, location_tokens(l)),
        location_clean(l),
    ensures
        location_at(t, i + 1, attrs_as_read(location_attrs(l))) == Ok::<(LocationV, int), ErrorKind>((l@, i + location_tokens(l).len())),
{
    reveal(location_at);
    reveal(location_inner_tokens);
    lemma_location_names();
    law_location_attributes_read_back(l);
    let toks = location_tokens(l);
    assert(toks =~= seq![TokenV::Start(local_of("Location"@),
        None,
        attrs_as_read(location_attrs(l))),
        TokenV::Characters(l.url@),
        TokenV::End(local_of("Location"@))]);
    lemma_holds_tail(t, i, toks);
    assert(toks.drop_first() =~= seq![TokenV::Characters(l.url@), TokenV::End("Location"@)]);
    lemma_text_read(t, i + 1, "Location"@, l.url@);
    lemma_trimmed_read(l.url@);
}

/// How the reader names the elements that the writer writes in `BaseURL`,
/// and how those names differ.
proof fn lemma_base_url_names()
    ensures
        local_of("BaseURL"@) == "BaseURL"@,
        "BaseURL"@.len() == 7,
{
    reveal(local_of);
    reveal_with_fuel(first_index, 8);
    reveal_strlit("BaseURL");
    assert("BaseURL"@.len() == 7);
}

/// A written `BaseURL` element is read back whole, up to just after its end tag.
pub proof fn lemma_base_url_reads(t: Seq<TokenV>, i: int, b: BaseUrl)
    requires
        holds_at(t, i, base_url_tokens(b)),
        base_url_clean(b),
    ensures
        base_url_at(t, i + 1, attrs_as_read(base_url_attrs(b))) == Ok::<(BaseUrlV, int), ErrorKind>((b@, i + base_url_tokens(b).len())),
{
    reveal(base_url_at);
    reveal(base_url_inner_tokens);
    lemma_base_url_names();
    law_base_url_attributes_read_back(b);
    let toks = base_url_tokens(b);
    assert(toks =~= seq![TokenV::Start(local_of("BaseURL"@),
        None,
        attrs_as_read(base_url_attrs(b))),
        TokenV::Characters(b.url@),
        TokenV::End(local_of("BaseURL"@))]);
    lemma_holds_tail(t, i, toks);
    assert(toks.drop_first() =~= seq![TokenV::Characters(b.url@), TokenV::End("BaseURL"@)]);
    lemma_text_read(t, i + 1, "BaseURL"@, b.url@);
    lemma_trimmed_read(b.url@);
}

/// How the reader names the elements that the writer writes in `PatchLocation`,
/// and how those names differ.
proof fn lemma_patch_location_names()
    ensures
        local_of("PatchLocation"@) == "PatchLocation"@,
        "PatchLocation"@.len() == 13,
{
    reveal(local_of);
    reveal_with_fuel(first_index, 14);
    reveal_strlit("PatchLocation");
    assert("PatchLocation"@.len() == 13);
}

/// A written `PatchLocation` element is read back whole, up to just after its end tag.
pub proof fn lemma_patch_location_reads(t: Seq<TokenV>, i: int, p: PatchLocation)
    requires
        holds_at(t, i, patch_location_tokens(p)),
        patch_location_clean(p),
    ensures
        patch_location_at(t, i + 1, attrs_as_read(patch_location_attrs(p))) == Ok::<(PatchLocationV, int), ErrorKind>((p@, i + patch_location_tokens(p).len())),
{
    reveal(patch_location_at);
    reveal(patch_location_inner_tokens);
    lemma_patch_location_names();
    law_patch_location_attributes_read_back(p);
    let toks = patch_location_tokens(p);
    assert(toks =~= seq![TokenV::Start(local_of("PatchLocation"@),
        None,
        attrs_as_read(patch_location_attrs(p))),
        TokenV::Characters(p.url@),
        TokenV::End(local_of("PatchLocation"@))]);
    lemma_holds_tail(t, i, toks);
    assert(toks.drop_first() =~= seq![TokenV::Characters(p.url@), TokenV::End("PatchLocation"@)]);
    lemma_text_read(t, i + 1, "PatchLocation"@, p.url@);
    lemma_trimmed_read(p.url@);
}

/// How the reader names the elements that the writer writes in `ClientDataReporting`,
/// and how those names differ.
proof fn lemma_client_data_reporting_names()
    ensures
        local_of("ClientDataReporting"@) == "ClientDataReporting"@,
        local_of("CMCDParameters"@) == "CMCDParameters"@,
        "ClientDataReporting"@.len() == 19,
        "CMCDParameters"@.len() == 14,
{
    reveal(local_of);
    reveal_with_fuel(first_index, 20);
    reveal_strlit("CMCDParameters");
    reveal_strlit("ClientDataReporting");
    assert("ClientDataReporting"@.len() == 19);
    assert("CMCDParameters"@.len() == 14);
}

/// The written `cmcd_parameters`, when present, is read.
proof fn lemma_client_data_reporting_reads_cmcd_parameters(t: Seq<TokenV>, i: int, x: ClientDataReportingV, o: Option<CmcdParameters>)
    requires
        holds_at(t, i, opt_tokens(o, cmcd_parameters_tokens_fn())),
    ensures
        client_data_reporting_scan(t, i, x) == client_data_reporting_scan(t, i + opt_tokens(o, cmcd_parameters_tokens_fn()).len(), match o {
            Some(c) => ClientDataReportingV { cmcd_parameters: Some(c@), ..x },
            None => x,
        }),
{
    reveal(opt_tokens);
    if let Some(c) = o {
        let b = cmcd_parameters_tokens(c);
        lemma_client_data_reporting_names();
        reveal(cmcd_parameters_inner_tokens);
        assert(b =~= seq![TokenV::Start(local_of("CMCDParameters"@), None, attrs_as_read(cmcd_parameters_attrs(c))), TokenV::End(local_of("CMCDParameters"@))]);
        lemma_holds_index(t, i, b, 0);
        lemma_holds_index(t, i, b, 1);
        law_cmcd_parameters_attributes_read_back(c);
        lemma_skip_empty(t, i + 1, local_of("CMCDParameters"@));
    }
}

/// A written `ClientDataReporting` element is read back whole, up to just after its end tag.
pub proof fn lemma_client_data_reporting_reads(t: Seq<TokenV>, i: int, c: ClientDataReporting)
    requires
        holds_at(t, i, client_data_reporting_tokens(c)),
    ensures
        client_data_reporting_at(t, i
            + 1, attrs_as_read(client_data_reporting_attrs(c))) == Ok::<(ClientDataReportingV, int), ErrorKind>((c@, i
            + client_data_reporting_tokens(c).len())),
{
    reveal(client_data_reporting_at);
    reveal(client_data_reporting_inner_tokens);
    lemma_client_data_reporting_names();
    law_client_data_reporting_attributes_read_back(c);
    let g0 = opt_tokens(c.cmcd_parameters, cmcd_parameters_tokens_fn());
    let st = seq![TokenV::Start(local_of("ClientDataReporting"@), None, attrs_as_read(client_data_reporting_attrs(c)))];
    let en = seq![TokenV::End(local_of("ClientDataReporting"@))];
    assert(client_data_reporting_tokens(c) == st + g0 + en);
    lemma_holds_cat(t, i, st + g0, en);
    lemma_holds_cat(t, i, st, g0);
    let ghost x0 = ClientDataReportingV { cmcd_parameters: None, ..c@ };
    let ghost q0 = i + 1;
    lemma_client_data_reporting_reads_cmcd_parameters(t, q0, x0, c.cmcd_parameters);
    let ghost x1 = match c.cmcd_parameters { Some(c) => ClientDataReportingV { cmcd_parameters: Some(c@), ..x0 }, None => x0 };
    let ghost q1 = q0 + g0.len();
    lemma_holds_index(t, i + 1 + g0.len(), en, 0);
    assert(x1 == c@);
}

/// How the reader names the elements that the writer writes in `ServiceDescription`,
/// and how those names differ.
proof fn lemma_service_description_names()
    ensures
        local_of("ServiceDescription"@) == "ServiceDescription"@,
        local_of("Scope"@) == "Scope"@,
        local_of("Latency"@) == "Latency"@,
        local_of("PlaybackRate"@) == "PlaybackRate"@,
        local_of("OperatingQuality"@) == "OperatingQuality"@,
        local_of("OperatingBandwidth"@) == "OperatingBandwidth"@,
        local_of("ClientDataReporting"@) == "ClientDataReporting"@,
        "ServiceDescription"@.len() == 18,
        "Scope"@.len() == 5,
        "Latency"@.len() == 7,
        "PlaybackRate"@.len() == 12,
        "OperatingQuality"@.len() == 16,
        "OperatingBandwidth"@.len() == 18,
        "ClientDataReporting"@.len() == 19,
        "OperatingBandwidth"@[0] == 'O',
        "ServiceDescription"@[0] == 'S',
{
    reveal(local_of);
    reveal_with_fuel(first_index, 20);
    reveal_strlit("ClientDataReporting");
    reveal_strlit("Latency");
    reveal_strlit("OperatingBandwidth");
    reveal_strlit("OperatingQuality");
    reveal_strlit("PlaybackRate");
    reveal_strlit("Scope");
    reveal_strlit("ServiceDescription");
    assert("ServiceDescription"@.len() == 18);
    assert("Scope"@.len() == 5);
    assert("Latency"@.len() == 7);
    assert("PlaybackRate"@.len() == 12);
    assert("OperatingQuality"@.len() == 16);
    assert("OperatingBandwidth"@.len() == 18);
    assert("ClientDataReporting"@.len() == 19);
}

/// The written `scope`, when present, is read.
proof fn lemma_service_description_reads_scope(t: Seq<TokenV>, i: int, x: ServiceDescriptionV, o: Option<Descriptor>)
    requires
        holds_at(t, i, opt_tokens(o, descriptor_tokens_fn("Scope"@))),
    ensures
        service_description_scan(t, i, x) == service_description_scan(t, i + opt_tokens(o, descriptor_tokens_fn("Scope"@)).len(), match o {
            Some(c) => ServiceDescriptionV { scope: Some(c@), ..x },
            None => x,
        }),
{
    reveal(opt_tokens);
    if let Some(c) = o {
        let b = descriptor_tokens("Scope"@, c);
        lemma_service_description_names();
        reveal(descriptor_inner_tokens);
        assert(b =~= seq![TokenV::Start(local_of("Scope"@), None, attrs_as_read(descriptor_attrs(c))), TokenV::End(local_of("Scope"@))]);
        lemma_holds_index(t, i, b, 0);
        lemma_holds_index(t, i, b, 1);
        law_descriptor_attributes_read_back(c);
        lemma_skip_empty(t, i + 1, local_of("Scope"@));
    }
}

/// The written `latency`, when present, is read.
proof fn lemma_service_description_reads_latency(t: Seq<TokenV>, i: int, x: ServiceDescriptionV, o: Option<Latency>)
    requires
        holds_at(t, i, opt_tokens(o, latency_tokens_fn())),
    ensures
        service_description_scan(t, i, x) == service_description_scan(t, i + opt_tokens(o, latency_tokens_fn()).len(), match o {
            Some(c) => ServiceDescriptionV { latency: Some(c@), ..x },
            None => x,
        }),
{
    reveal(opt_tokens);
    if let Some(c) = o {
        let b = latency_tokens(c);
        lemma_service_description_names();
        reveal(latency_inner_tokens);
        assert(b =~= seq![TokenV::Start(local_of("Latency"@), None, attrs_as_read(latency_attrs(c))), TokenV::End(local_of("Latency"@))]);
        lemma_holds_index(t, i, b, 0);
        lemma_holds_index(t, i, b, 1);
        law_latency_attributes_read_back(c);
        lemma_skip_empty(t, i + 1, local_of("Latency"@));
    }
}

/// The written `playback_rate`, when present, is read.
proof fn lemma_service_description_reads_playback_rate(t: Seq<TokenV>, i: int, x: ServiceDescriptionV, o: Option<PlaybackRate>)
    requires
        holds_at(t, i, opt_tokens(o, playback_rate_tokens_fn())),
    ensures
        service_description_scan(t, i, x) == service_description_scan(t, i + opt_tokens(o, playback_rate_tokens_fn()).len(), match o {
            Some(c) => ServiceDescriptionV { playback_rate: Some(c@), ..x },
            None => x,
        }),
{
    reveal(opt_tokens);
    if let Some(c) = o {
        let b = playback_rate_tokens(c);
        lemma_service_description_names();
        reveal(playback_rate_inner_tokens);
        assert(b =~= seq![TokenV::Start(local_of("PlaybackRate"@), None, attrs_as_read(playback_rate_attrs(c))), TokenV::End(local_of("PlaybackRate"@))]);
        lemma_holds_index(t, i, b, 0);
        lemma_holds_index(t, i, b, 1);
        law_playback_rate_attributes_read_back(c);
        lemma_skip_empty(t, i + 1, local_of("PlaybackRate"@));
    }
}

/// The written `operating_quality`, when present, is read.
proof fn lemma_service_description_reads_operating_quality(t: Seq<TokenV>, i: int, x: ServiceDescriptionV, o: Option<OperatingQuality>)
    requires
        holds_at(t, i, opt_tokens(o, operating_quality_tokens_fn())),
    ensures
        service_description_scan(t, i, x) == service_description_scan(t, i + opt_tokens(o, operating_quality_tokens_fn()).len(), match o {
            Some(c) => ServiceDescriptionV { operating_quality: Some(c@), ..x },
            None => x,
        }),
{
    reveal(opt_tokens);
    if let Some(c) = o {
        let b = operating_quality_tokens(c);
        lemma_service_description_names();
        reveal(operating_quality_inner_tokens);
        assert(b =~= seq![TokenV::Start(local_of("OperatingQuality"@),
            None,
            attrs_as_read(operating_quality_attrs(c))),
            TokenV::End(local_of("OperatingQuality"@))]);
        lemma_holds_index(t, i, b, 0);
        lemma_holds_index(t, i, b, 1);
        law_operating_quality_attributes_read_back(c);
        lemma_skip_empty(t, i + 1, local_of("OperatingQuality"@));
    }
}

/// The written `operating_bandwidth`, when present, is read.
proof fn lemma_service_description_reads_operating_bandwidth(t: Seq<TokenV>, i: int, x: ServiceDescriptionV, o: Option<OperatingBandwidth>)
    requires
        holds_at(t, i, opt_tokens(o, operating_bandwidth_tokens_fn())),
    ensures
        service_description_scan(t, i, x) == service_description_scan(t, i + opt_tokens(o, operating_bandwidth_tokens_fn()).len(), match o {
            Some(c) => ServiceDescriptionV { operating_bandwidth: Some(c@), ..x },
            None => x,
        }),
{
    reveal(opt_tokens);
    if let Some(c) = o {
        let b = operating_bandwidth_tokens(c);
        lemma_service_description_names();
        reveal(operating_bandwidth_inner_tokens);
        assert(b =~= seq![TokenV::Start(local_of("OperatingBandwidth"@),
            None,
            attrs_as_read(operating_bandwidth_attrs(c))),
            TokenV::End(local_of("OperatingBandwidth"@))]);
        lemma_holds_index(t, i, b, 0);
        lemma_holds_index(t, i, b, 1);
        law_operating_bandwidth_attributes_read_back(c);
        lemma_skip_empty(t, i + 1, local_of("OperatingBandwidth"@));
    }
}

/// The written `client_data_reporting`, when present, is read.
proof fn lemma_service_description_reads_client_data_reporting(t: Seq<TokenV>, i: int, x: ServiceDescriptionV, o: Option<ClientDataReporting>)
    requires
        holds_at(t, i, opt_tokens(o, client_data_reporting_tokens_fn())),
    ensures
        service_description_scan(t, i, x) == service_description_scan(t, i + opt_tokens(o, client_data_reporting_tokens_fn()).len(), match o {
            Some(c) => ServiceDescriptionV { client_data_reporting: Some(c@), ..x },
            None => x,
        }),
{
    reveal(opt_tokens);
    if let Some(c) = o {
        let b = client_data_reporting_tokens(c);
        lemma_service_description_names();
        lemma_client_data_reporting_reads(t, i, c);
        lemma_holds_index(t, i, b, 0);
        assert(b[0] == TokenV::Start(local_of("ClientDataReporting"@), None, attrs_as_read(client_data_reporting_attrs(c))));
    }
}

/// A written `ServiceDescription` element is read back whole, up to just after its end tag.
pub proof fn lemma_service_description_reads(t: Seq<TokenV>, i: int, s: ServiceDescription)
    requires
        holds_at(t, i, service_description_tokens(s)),
    ensures
        service_description_at(t, i
            + 1, attrs_as_read(service_description_attrs(s))) == Ok::<(ServiceDescriptionV, int), ErrorKind>((s@, i
            + service_description_tokens(s).len())),
{
    reveal(service_description_at);
    reveal(service_description_inner_tokens);
    lemma_service_description_names();
    law_service_description_attributes_read_back(s);
    let g0 = opt_tokens(s.scope, descriptor_tokens_fn("Scope"@));
    let g1 = opt_tokens(s.latency, latency_tokens_fn());
    let g2 = opt_tokens(s.playback_rate, playback_rate_tokens_fn());
    let g3 = opt_tokens(s.operating_quality, operating_quality_tokens_fn());
    let g4 = opt_tokens(s.operating_bandwidth, operating_bandwidth_tokens_fn());
    let g5 = opt_tokens(s.client_data_reporting, client_data_reporting_tokens_fn());
    let h1 = g0 + g1;
    let h2 = h1 + g2;
    let h3 = h2 + g3;
    let h4 = h3 + g4;
    let h5 = h4 + g5;
    let st = seq![TokenV::Start(local_of("ServiceDescription"@), None, attrs_as_read(service_description_attrs(s)))];
    let en = seq![TokenV::End(local_of("ServiceDescription"@))];
    assert(service_description_tokens(s) == st + h5 + en);
    lemma_holds_cat(t, i, st + h5, en);
    lemma_holds_cat(t, i, st, h5);
    lemma_holds_cat(t, i + 1, h4, g5);
    lemma_holds_cat(t, i + 1, h3, g4);
    lemma_holds_cat(t, i + 1, h2, g3);
    lemma_holds_cat(t, i + 1, h1, g2);
    lemma_holds_cat(t, i + 1, g0, g1);
    let ghost x0 = ServiceDescriptionV { scope: None,
        latency: None,
        playback_rate: None,
        operating_quality: None,
        operating_bandwidth: None,
        client_data_reporting: None,
        ..s@ };
    let ghost q0 = i + 1;
    lemma_service_description_reads_scope(t, q0, x0, s.scope);
    let ghost x1 = match s.scope { Some(c) => ServiceDescriptionV { scope: Some(c@), ..x0 }, None => x0 };
    let ghost q1 = q0 + g0.len();
    lemma_service_description_reads_latency(t, q1, x1, s.latency);
    let ghost x2 = match s.latency { Some(c) => ServiceDescriptionV { latency: Some(c@), ..x1 }, None => x1 };
    let ghost q2 = q1 + g1.len();
    lemma_service_description_reads_playback_rate(t, q2, x2, s.playback_rate);
    let ghost x3 = match s.playback_rate { Some(c) => ServiceDescriptionV { playback_rate: Some(c@), ..x2 }, None => x2 };
    let ghost q3 = q2 + g2.len();
    lemma_service_description_reads_operating_quality(t, q3, x3, s.operating_quality);
    let ghost x4 = match s.operating_quality { Some(c) => ServiceDescriptionV { operating_quality: Some(c@), ..x3 }, None => x3 };
    let ghost q4 = q3 + g3.len();
    lemma_service_description_reads_operating_bandwidth(t, q4, x4, s.operating_bandwidth);
    let ghost x5 = match s.operating_bandwidth { Some(c) => ServiceDescriptionV { operating_bandwidth: Some(c@), ..x4 }, None => x4 };
    let ghost q5 = q4 + g4.len();
    lemma_service_description_reads_client_data_reporting(t, q5, x5, s.client_data_reporting);
    let ghost x6 = match s.client_data_reporting { Some(c) => ServiceDescriptionV { client_data_reporting: Some(c@), ..x5 }, None => x5 };
    let ghost q6 = q5 + g5.len();
    lemma_holds_index(t, i + 1 + h5.len(), en, 0);
    assert(x6 == s@);
}

/// How the reader names the elements that the writer writes in `ContentSteering`,
/// and how those names differ.
proof fn lemma_content_steering_names()
    ensures
        local_of("ContentSteering"@) == "ContentSteering"@,
        "ContentSteering"@.len() == 15,
{
    reveal(local_of);
    reveal_with_fuel(first_index, 16);
    reveal_strlit("ContentSteering");
    assert("ContentSteering"@.len() == 15);
}

/// A written `ContentSteering` element is read back whole, up to just after its end tag.
pub proof fn lemma_content_steering_reads(t: Seq<TokenV>, i: int, c: ContentSteering)
    requires
        holds_at(t, i, content_steering_tokens(c)),
        content_steering_clean(c),
    ensures
        content_steering_at(t, i
            + 1, attrs_as_read(content_steering_attrs(c))) == Ok::<(ContentSteeringV, int), ErrorKind>((c@, i
            + content_steering_tokens(c).len())),
{
    reveal(content_steering_at);
    reveal(content_steering_inner_tokens);
    lemma_content_steering_names();
    law_content_steering_attributes_read_back(c);
    let toks = content_steering_tokens(c);
    assert(toks =~= seq![TokenV::Start(local_of("ContentSteering"@),
        None,
        attrs_as_read(content_steering_attrs(c))),
        TokenV::Characters(c.server_url@),
        TokenV::End(local_of("ContentSteering"@))]);
    lemma_holds_tail(t, i, toks);
    assert(toks.drop_first() =~= seq![TokenV::Characters(c.server_url@), TokenV::End("ContentSteering"@)]);
    lemma_text_read(t, i + 1, "ContentSteering"@, c.server_url@);
    lemma_trimmed_read(c.server_url@);
}

/// How the reader names the elements that the writer writes in `Metrics`,
/// and how those names differ.
proof fn lemma_metrics_names()
    ensures
        local_of("Metrics"@) == "Metrics"@,
        local_of("Reporting"@) == "Reporting"@,
        local_of("Range"@) == "Range"@,
        "Metrics"@.len() == 7,
        "Reporting"@.len() == 9,
        "Range"@.len() == 5,
{
    reveal(local_of);
    reveal_with_fuel(first_index, 10);
    reveal_strlit("Metrics");
    reveal_strlit("Range");
    reveal_strlit("Reporting");
    assert("Metrics"@.len() == 7);
    assert("Reporting"@.len() == 9);
    assert("Range"@.len() == 5);
}

/// The written `reportings` items are read in order.
proof fn lemma_metrics_reads_reportings(t: Seq<TokenV>, i: int, x: MetricsV, s: Seq<Descriptor>)
    requires
        holds_at(t, i, each_tokens(s, descriptor_tokens_fn("Reporting"@))),
    ensures
        metrics_scan(t, i, x) == metrics_scan(t, i
            + each_tokens(s, descriptor_tokens_fn("Reporting"@)).len(), MetricsV { reportings: x.reportings
            + views(s), ..x }),
    decreases s.len(),
{
    reveal(each_tokens);
    if s.len() == 0 {
        assert(x.reportings + views(s) =~= x.reportings);
    } else {
        let s0 = s.drop_last();
        let c = s.last();
        let a = each_tokens(s0, descriptor_tokens_fn("Reporting"@));
        let b = descriptor_tokens("Reporting"@, c);
        lemma_holds_cat(t, i, a, b);
        lemma_metrics_reads_reportings(t, i, x, s0);
        let j = i + a.len();
        lemma_metrics_names();
        reveal(descriptor_inner_tokens);
        assert(b =~= seq![TokenV::Start(local_of("Reporting"@), None, attrs_as_read(descriptor_attrs(c))), TokenV::End(local_of("Reporting"@))]);
        lemma_holds_index(t, j, b, 0);
        lemma_holds_index(t, j, b, 1);
        law_descriptor_attributes_read_back(c);
        lemma_skip_empty(t, j + 1, local_of("Reporting"@));
        lemma_views_push(s0, c);
        assert(x.reportings + views(s) =~= (x.reportings + views(s0)).push(c@));
    }
}

/// The written `ranges` items are read in order.
proof fn lemma_metrics_reads_ranges(t: Seq<TokenV>, i: int, x: MetricsV, s: Seq<MetricsRange>)
    requires
        holds_at(t, i, each_tokens(s, metrics_range_tokens_fn())),
        forall|k: int| 0 <= k < s.len() ==> metrics_range_clean(#[trigger] s[k]),
    ensures
        metrics_scan(t, i, x) == metrics_scan(t, i + each_tokens(s, metrics_range_tokens_fn()).len(), MetricsV { ranges: x.ranges + views(s), ..x }),
    decreases s.len(),
{
    reveal(each_tokens);
    if s.len() == 0 {
        assert(x.ranges + views(s) =~= x.ranges);
    } else {
        let s0 = s.drop_last();
        let c = s.last();
        let a = each_tokens(s0, metrics_range_tokens_fn());
        let b = metrics_range_tokens(c);
        lemma_holds_cat(t, i, a, b);
        assert forall|k: int| 0 <= k < s0.len() implies metrics_range_clean(#[trigger] s0[k]) by {
            assert(s0[k] == s[k]);
        }
        lemma_metrics_reads_ranges(t, i, x, s0);
        assert(metrics_range_clean(c)) by {
            assert(c == s[s.len() - 1]);
        }
        let j = i + a.len();
        lemma_metrics_names();
        reveal(metrics_range_inner_tokens);
        assert(b =~= seq![TokenV::Start(local_of("Range"@), None, attrs_as_read(metrics_range_attrs(c))), TokenV::End(local_of("Range"@))]);
        lemma_holds_index(t, j, b, 0);
        lemma_holds_index(t, j, b, 1);
        law_metrics_range_attributes_read_back(c);
        lemma_skip_empty(t, j + 1, local_of("Range"@));
        lemma_views_push(s0, c);
        assert(x.ranges + views(s) =~= (x.ranges + views(s0)).push(c@));
    }
}

/// A written `Metrics` element is read back whole, up to just after its end tag.
pub proof fn lemma_metrics_reads(t: Seq<TokenV>, i: int, m: Metrics)
    requires
        holds_at(t, i, metrics_tokens(m)),
        metrics_clean(m),
    ensures
        metrics_at(t, i + 1, attrs_as_read(metrics_attrs(m))) == Ok::<(MetricsV, int), ErrorKind>((m@, i + metrics_tokens(m).len())),
{
    reveal(metrics_at);
    reveal(metrics_inner_tokens);
    lemma_metrics_names();
    law_metrics_attributes_read_back(m);
    let g0 = each_tokens(m.reportings@, descriptor_tokens_fn("Reporting"@));
    let g1 = each_tokens(m.ranges@, metrics_range_tokens_fn());
    let h1 = g0 + g1;
    let st = seq![TokenV::Start(local_of("Metrics"@), None, attrs_as_read(metrics_attrs(m)))];
    let en = seq![TokenV::End(local_of("Metrics"@))];
    assert(metrics_tokens(m) == st + h1 + en);
    lemma_holds_cat(t, i, st + h1, en);
    lemma_holds_cat(t, i, st, h1);
    lemma_holds_cat(t, i + 1, g0, g1);
    let ghost x0 = MetricsV { reportings: seq![], ranges: seq![], ..m@ };
    let ghost q0 = i + 1;
    lemma_metrics_reads_reportings(t, q0, x0, m.reportings@);
    let ghost x1 = MetricsV { reportings: x0.reportings + views(m.reportings@), ..x0 };
    let ghost q1 = q0 + g0.len();
    lemma_metrics_reads_ranges(t, q1, x1, m.ranges@);
    let ghost x2 = MetricsV { ranges: x1.ranges + views(m.ranges@), ..x1 };
    let ghost q2 = q1 + g1.len();
    lemma_holds_index(t, i + 1 + h1.len(), en, 0);
    assert(x0.reportings + views(m.reportings@) =~= views(m.reportings@));
    assert(x0.ranges + views(m.ranges@) =~= views(m.ranges@));
    assert(x2 == m@);
}

/// How the reader names the elements that the writer writes in `EventStream`,
/// and how those names differ.
proof fn lemma_event_stream_names()
    ensures
        local_of("EventStream"@) == "EventStream"@,
        local_of("Event"@) == "Event"@,
        "EventStream"@.len() == 11,
        "Event"@.len() == 5,
{
    reveal(local_of);
    reveal_with_fuel(first_index, 12);
    reveal_strlit("Event");
    reveal_strlit("EventStream");
    assert("EventStream"@.len() == 11);
    assert("Event"@.len() == 5);
}

/// The written `events` items are read in order.
proof fn lemma_event_stream_reads_events(t: Seq<TokenV>, i: int, x: EventStreamV, s: Seq<Event>)
    requires
        holds_at(t, i, each_tokens(s, event_tokens_fn())),
        forall|k: int| 0 <= k < s.len() ==> event_clean(#[trigger] s[k]),
    ensures
        event_stream_scan(t, i, x) == event_stream_scan(t, i + each_tokens(s, event_tokens_fn()).len(), EventStreamV { events: x.events + views(s), ..x }),
    decreases s.len(),
{
    reveal(each_tokens);
    if s.len() == 0 {
        assert(x.events + views(s) =~= x.events);
    } else {
        let s0 = s.drop_last();
        let c = s.last();
        let a = each_tokens(s0, event_tokens_fn());
        let b = event_tokens(c);
        lemma_holds_cat(t, i, a, b);
        assert forall|k: int| 0 <= k < s0.len() implies event_clean(#[trigger] s0[k]) by {
            assert(s0[k] == s[k]);
        }
        lemma_event_stream_reads_events(t, i, x, s0);
        assert(event_clean(c)) by {
            assert(c == s[s.len() - 1]);
        }
        let j = i + a.len();
        lemma_event_stream_names();
        lemma_event_reads(t, j, c);
        lemma_holds_index(t, j, b, 0);
        assert(b[0] == TokenV::Start(local_of("Event"@), None, attrs_as_read(event_attrs(c))));
        lemma_views_push(s0, c);
        assert(x.events + views(s) =~= (x.events + views(s0)).push(c@));
    }
}

/// A written `EventStream` element is read back whole, up to just after its end tag.
pub proof fn lemma_event_stream_reads(t: Seq<TokenV>, i: int, s: EventStream)
    requires
        holds_at(t, i, event_stream_tokens(s)),
        event_stream_clean(s),
    ensures
        event_stream_at(t, i + 1, attrs_as_read(event_stream_attrs(s))) == Ok::<(EventStreamV, int), ErrorKind>((s@, i + event_stream_tokens(s).len())),
{
    reveal(event_stream_at);
    reveal(event_stream_inner_tokens);
    lemma_event_stream_names();
    law_event_stream_attributes_read_back(s);
    let g0 = each_tokens(s.events@, event_tokens_fn());
    let st = seq![TokenV::Start(local_of("EventStream"@), None, attrs_as_read(event_stream_attrs(s)))];
    let en = seq![TokenV::End(local_of("EventStream"@))];
    assert(event_stream_tokens(s) == st + g0 + en);
    lemma_holds_cat(t, i, st + g0, en);
    lemma_holds_cat(t, i, st, g0);
    let ghost x0 = EventStreamV { events: seq![], ..s@ };
    let ghost q0 = i + 1;
    lemma_event_stream_reads_events(t, q0, x0, s.events@);
    let ghost x1 = EventStreamV { events: x0.events + views(s.events@), ..x0 };
    let ghost q1 = q0 + g0.len();
    lemma_holds_index(t, i + 1 + g0.len(), en, 0);
    assert(x0.events + views(s.events@) =~= views(s.events@));
    assert(x1 == s@);
}

/// How the reader names the elements that the writer writes in `ProducerReferenceTime`,
/// and how those names differ.
proof fn lemma_producer_reference_time_names()
    ensures
        local_of("ProducerReferenceTime"@) == "ProducerReferenceTime"@,
        local_of("UTCTiming"@) == "UTCTiming"@,
        "ProducerReferenceTime"@.len() == 21,
        "UTCTiming"@.len() == 9,
{
    reveal(local_of);
    reveal_with_fuel(first_index, 22);
    reveal_strlit("ProducerReferenceTime");
    reveal_strlit("UTCTiming");
    assert("ProducerReferenceTime"@.len() == 21);
    assert("UTCTiming"@.len() == 9);
}

/// The written `utc_timing`, when present, is read.
proof fn lemma_producer_reference_time_reads_utc_timing(t: Seq<TokenV>, i: int, x: ProducerReferenceTimeV, o: Option<UtcTiming>)
    requires
        holds_at(t, i, opt_tokens(o, utc_timing_tokens_fn())),
    ensures
        producer_reference_time_scan(t, i, x) == producer_reference_time_scan(t, i + opt_tokens(o, utc_timing_tokens_fn()).len(), match o {
            Some(c) => ProducerReferenceTimeV { utc_timing: Some(c@), ..x },
            None => x,
        }),
{
    reveal(opt_tokens);
    if let Some(c) = o {
        let b = utc_timing_tokens(c);
        lemma_producer_reference_time_names();
        reveal(utc_timing_inner_tokens);
        assert(b =~= seq![TokenV::Start(local_of("UTCTiming"@), None, attrs_as_read(utc_timing_attrs(c))), TokenV::End(local_of("UTCTiming"@))]);
        lemma_holds_index(t, i, b, 0);
        lemma_holds_index(t, i, b, 1);
        law_utc_timing_attributes_read_back(c);
        lemma_skip_empty(t, i + 1, local_of("UTCTiming"@));
    }
}

/// A written `ProducerReferenceTime` element is read back whole, up to just after its end tag.
pub proof fn lemma_producer_reference_time_reads(t: Seq<TokenV>, i: int, p: ProducerReferenceTime)
    requires
        holds_at(t, i, producer_reference_time_tokens(p)),
    ensures
        producer_reference_time_at(t, i
            + 1, attrs_as_read(producer_reference_time_attrs(p))) == Ok::<(ProducerReferenceTimeV, int), ErrorKind>((p@, i
            + producer_reference_time_tokens(p).len())),
{
    reveal(producer_reference_time_at);
    reveal(producer_reference_time_inner_tokens);
    lemma_producer_reference_time_names();
    law_producer_reference_time_attributes_read_back(p);
    let g0 = opt_tokens(p.utc_timing, utc_timing_tokens_fn());
    let st = seq![TokenV::Start(local_of("ProducerReferenceTime"@), None, attrs_as_read(producer_reference_time_attrs(p)))];
    let en = seq![TokenV::End(local_of("ProducerReferenceTime"@))];
    assert(producer_reference_time_tokens(p) == st + g0 + en);
    lemma_holds_cat(t, i, st + g0, en);
    lemma_holds_cat(t, i, st, g0);
    let ghost x0 = ProducerReferenceTimeV { utc_timing: None, ..p@ };
    let ghost q0 = i + 1;
    lemma_producer_reference_time_reads_utc_timing(t, q0, x0, p.utc_timing);
    let ghost x1 = match p.utc_timing { Some(c) => ProducerReferenceTimeV { utc_timing: Some(c@), ..x0 }, None => x0 };
    let ghost q1 = q0 + g0.len();
    lemma_holds_index(t, i + 1 + g0.len(), en, 0);
    assert(x1 == p@);
}

/// How the reader names the elements that the writer writes in `ContentComponent`,
/// and how those names differ.
proof fn lemma_content_component_names()
    ensures
        local_of("ContentComponent"@) == "ContentComponent"@,
        local_of("Accessibility"@) == "Accessibility"@,
        local_of("Role"@) == "Role"@,
        "ContentComponent"@.len() == 16,
        "Accessibility"@.len() == 13,
        "Role"@.len() == 4,
{
    reveal(local_of);
    reveal_with_fuel(first_index, 17);
    reveal_strlit("Accessibility");
    reveal_strlit("ContentComponent");
    reveal_strlit("Role");
    assert("ContentComponent"@.len() == 16);
    assert("Accessibility"@.len() == 13);
    assert("Role"@.len() == 4);
}

/// The written `accessibilities` items are read in order.
proof fn lemma_content_component_reads_accessibilities(t: Seq<TokenV>, i: int, x: ContentComponentV, s: Seq<Descriptor>)
    requires
        holds_at(t, i, each_tokens(s, descriptor_tokens_fn("Accessibility"@))),
    ensures
        content_component_scan(t, i, x) == content_component_scan(t, i
            + each_tokens(s, descriptor_tokens_fn("Accessibility"@)).len(), ContentComponentV { accessibilities: x.accessibilities
            + views(s), ..x }),
    decreases s.len(),
{
    reveal(each_tokens);
    if s.len() == 0 {
        assert(x.accessibilities + views(s) =~= x.accessibilities);
    } else {
        let s0 = s.drop_last();
        let c = s.last();
        let a = each_tokens(s0, descriptor_tokens_fn("Accessibility"@));
        let b = descriptor_tokens("Accessibility"@, c);
        lemma_holds_cat(t, i, a, b);
        lemma_content_component_reads_accessibilities(t, i, x, s0);
        let j = i + a.len();
        lemma_content_component_names();
        reveal(descriptor_inner_tokens);
        assert(b =~= seq![TokenV::Start(local_of("Accessibility"@), None, attrs_as_read(descriptor_attrs(c))), TokenV::End(local_of("Accessibility"@))]);
        lemma_holds_index(t, j, b, 0);
        lemma_holds_index(t, j, b, 1);
        law_descriptor_attributes_read_back(c);
        lemma_skip_empty(t, j + 1, local_of("Accessibility"@));
        lemma_views_push(s0, c);
        assert(x.accessibilities + views(s) =~= (x.accessibilities + views(s0)).push(c@));
    }
}

/// The written `roles` items are read in order.
proof fn lemma_content_component_reads_roles(t: Seq<TokenV>, i: int, x: ContentComponentV, s: Seq<Descriptor>)
    requires
        holds_at(t, i, each_tokens(s, descriptor_tokens_fn("Role"@))),
    ensures
        content_component_scan(t, i, x) == content_component_scan(t, i
            + each_tokens(s, descriptor_tokens_fn("Role"@)).len(), ContentComponentV { roles: x.roles
            + views(s), ..x }),
    decreases s.len(),
{
    reveal(each_tokens);
    if s.len() == 0 {
        assert(x.roles + views(s) =~= x.roles);
    } else {
        let s0 = s.drop_last();
        let c = s.last();
        let a = each_tokens(s0, descriptor_tokens_fn("Role"@));
        let b = descriptor_tokens("Role"@, c);
        lemma_holds_cat(t, i, a, b);
        lemma_content_component_reads_roles(t, i, x, s0);
        let j = i + a.len();
        lemma_content_component_names();
        reveal(descriptor_inner_tokens);
        assert(b =~= seq![TokenV::Start(local_of("Role"@), None, attrs_as_read(descriptor_attrs(c))), TokenV::End(local_of("Role"@))]);
        lemma_holds_index(t, j, b, 0);
        lemma_holds_index(t, j, b, 1);
        law_descriptor_attributes_read_back(c);
        lemma_skip_empty(t, j + 1, local_of("Role"@));
        lemma_views_push(s0, c);
        assert(x.roles + views(s) =~= (x.roles + views(s0)).push(c@));
    }
}

/// A written `ContentComponent` element is read back whole, up to just after its end tag.
pub proof fn lemma_content_component_reads(t: Seq<TokenV>, i: int, c: ContentComponent)
    requires
        holds_at(t, i, content_component_tokens(c)),
    ensures
        content_component_at(t, i
            + 1, attrs_as_read(content_component_attrs(c))) == Ok::<(ContentComponentV, int), ErrorKind>((c@, i
            + content_component_tokens(c).len())),
{
    reveal(content_component_at);
    reveal(content_component_inner_tokens);
    lemma_content_component_names();
    law_content_component_attributes_read_back(c);
    let g0 = each_tokens(c.accessibilities@, descriptor_tokens_fn("Accessibility"@));
    let g1 = each_tokens(c.roles@, descriptor_tokens_fn("Role"@));
    let h1 = g0 + g1;
    let st = seq![TokenV::Start(local_of("ContentComponent"@), None, attrs_as_read(content_component_attrs(c)))];
    let en = seq![TokenV::End(local_of("ContentComponent"@))];
    assert(content_component_tokens(c) == st + h1 + en);
    lemma_holds_cat(t, i, st + h1, en);
    lemma_holds_cat(t, i, st, h1);
    lemma_holds_cat(t, i + 1, g0, g1);
    let ghost x0 = ContentComponentV { accessibilities: seq![], roles: seq![], ..c@ };
    let ghost q0 = i + 1;
    lemma_content_component_reads_accessibilities(t, q0, x0, c.accessibilities@);
    let ghost x1 = ContentComponentV { accessibilities: x0.accessibilities + views(c.accessibilities@), ..x0 };
    let ghost q1 = q0 + g0.len();
    lemma_content_component_reads_roles(t, q1, x1, c.roles@);
    let ghost x2 = ContentComponentV { roles: x1.roles + views(c.roles@), ..x1 };
    let ghost q2 = q1 + g1.len();
    lemma_holds_index(t, i + 1 + h1.len(), en, 0);
    assert(x0.accessibilities + views(c.accessibilities@) =~= views(c.accessibilities@));
    assert(x0.roles + views(c.roles@) =~= views(c.roles@));
    assert(x2 == c@);
}

/// How the reader names the elements that the writer writes in `ContentProtection`,
/// and how those names differ.
proof fn lemma_content_protection_names()
    ensures
        local_of("ContentProtection"@) == "ContentProtection"@,
        local_of("cenc:pssh"@) == "pssh"@,
        local_of("Laurl"@) == "Laurl"@,
        local_of("pro"@) == "pro"@,
        local_of("Certurl"@) == "Certurl"@,
        "ContentProtection"@.len() == 17,
        "pssh"@.len() == 4,
        "Laurl"@.len() == 5,
        "laurl"@.len() == 5,
        "pro"@.len() == 3,
        "Certurl"@.len() == 7,
        "certurl"@.len() == 7,
        "Certurl"@[0] == 'C',
        "Laurl"@[0] == 'L',
        "certurl"@[0] == 'c',
        "laurl"@[0] == 'l',
{
    reveal(local_of);
    reveal_with_fuel(first_index, 18);
    reveal_strlit("Certurl");
    reveal_strlit("ContentProtection");
    reveal_strlit("Laurl");
    reveal_strlit("cenc:pssh");
    reveal_strlit("certurl");
    reveal_strlit("laurl");
    reveal_strlit("pro");
    reveal_strlit("pssh");
    assert("cenc:pssh"@.skip(5) =~= "pssh"@);
    assert("ContentProtection"@.len() == 17);
    assert("pssh"@.len() == 4);
    assert("Laurl"@.len() == 5);
    assert("laurl"@.len() == 5);
    assert("pro"@.len() == 3);
    assert("Certurl"@.len() == 7);
    assert("certurl"@.len() == 7);
}

/// The written `pssh` text, when present, is read.
proof fn lemma_content_protection_reads_pssh(t: Seq<TokenV>, i: int, x: ContentProtectionV, o: Option<String>)
    requires
        holds_at(t, i, text_element_tokens("cenc:pssh"@, o)),
        o matches Some(s) ==> kept(s@),
    ensures
        content_protection_scan(t, i, x) == content_protection_scan(t, i + text_element_tokens("cenc:pssh"@, o).len(), match o {
            Some(s) => ContentProtectionV { pssh: Some(s@), ..x },
            None => x,
        }),
{
    if let Some(s) = o {
        let b = text_element_tokens("cenc:pssh"@, o);
        lemma_content_protection_names();
        assert(b =~= seq![TokenV::Start(local_of("cenc:pssh"@), None, attrs_as_read(seq![])), TokenV::Characters(s@), TokenV::End(local_of("cenc:pssh"@))]);
        lemma_holds_tail(t, i, b);
        assert(b.drop_first() =~= seq![TokenV::Characters(s@), TokenV::End(local_of("cenc:pssh"@))]);
        lemma_text_read(t, i + 1, local_of("cenc:pssh"@), s@);
        lemma_trimmed_read(s@);
    }
}

/// The written `laurl` text, when present, is read.
proof fn lemma_content_protection_reads_laurl(t: Seq<TokenV>, i: int, x: ContentProtectionV, o: Option<String>)
    requires
        holds_at(t, i, text_element_tokens("Laurl"@, o)),
        o matches Some(s) ==> kept(s@),
    ensures
        content_protection_scan(t, i, x) == content_protection_scan(t, i + text_element_tokens("Laurl"@, o).len(), match o {
            Some(s) => ContentProtectionV { laurl: Some(s@), ..x },
            None => x,
        }),
{
    if let Some(s) = o {
        let b = text_element_tokens("Laurl"@, o);
        lemma_content_protection_names();
        assert(b =~= seq![TokenV::Start(local_of("Laurl"@), None, attrs_as_read(seq![])), TokenV::Characters(s@), TokenV::End(local_of("Laurl"@))]);
        lemma_holds_tail(t, i, b);
        assert(b.drop_first() =~= seq![TokenV::Characters(s@), TokenV::End(local_of("Laurl"@))]);
        lemma_text_read(t, i + 1, local_of("Laurl"@), s@);
        lemma_trimmed_read(s@);
    }
}

/// The written `pro` text, when present, is read.
proof fn lemma_content_protection_reads_pro(t: Seq<TokenV>, i: int, x: ContentProtectionV, o: Option<String>)
    requires
        holds_at(t, i, text_element_tokens("pro"@, o)),
        o matches Some(s) ==> kept(s@),
    ensures
        content_protection_scan(t, i, x) == content_protection_scan(t, i + text_element_tokens("pro"@, o).len(), match o {
            Some(s) => ContentProtectionV { pro: Some(s@), ..x },
            None => x,
        }),
{
    if let Some(s) = o {
        let b = text_element_tokens("pro"@, o);
        lemma_content_protection_names();
        assert(b =~= seq![TokenV::Start(local_of("pro"@), None, attrs_as_read(seq![])), TokenV::Characters(s@), TokenV::End(local_of("pro"@))]);
        lemma_holds_tail(t, i, b);
        assert(b.drop_first() =~= seq![TokenV::Characters(s@), TokenV::End(local_of("pro"@))]);
        lemma_text_read(t, i + 1, local_of("pro"@), s@);
        lemma_trimmed_read(s@);
    }
}

/// The written `certurls` items are read in order.
proof fn lemma_content_protection_reads_certurls(t: Seq<TokenV>, i: int, x: ContentProtectionV, s: Seq<CertUrl>)
    requires
        holds_at(t, i, each_tokens(s, cert_url_tokens_fn())),
        forall|k: int| 0 <= k < s.len() ==> cert_url_clean(#[trigger] s[k]),
    ensures
        content_protection_scan(t, i, x) == content_protection_scan(t, i
            + each_tokens(s, cert_url_tokens_fn()).len(), ContentProtectionV { certurls: x.certurls
            + views(s), ..x }),
    decreases s.len(),
{
    reveal(each_tokens);
    if s.len() == 0 {
        assert(x.certurls + views(s) =~= x.certurls);
    } else {
        let s0 = s.drop_last();
        let c = s.last();
        let a = each_tokens(s0, cert_url_tokens_fn());
        let b = cert_url_tokens(c);
        lemma_holds_cat(t, i, a, b);
        assert forall|k: int| 0 <= k < s0.len() implies cert_url_clean(#[trigger] s0[k]) by {
            assert(s0[k] == s[k]);
        }
        lemma_content_protection_reads_certurls(t, i, x, s0);
        assert(cert_url_clean(c)) by {
            assert(c == s[s.len() - 1]);
        }
        let j = i + a.len();
        lemma_content_protection_names();
        reveal(cert_url_inner_tokens);
        assert(b =~= seq![TokenV::Start(local_of("Certurl"@),
            None,
            attrs_as_read(cert_url_attrs(c))),
            TokenV::Characters(c.url@),
            TokenV::End(local_of("Certurl"@))]);
        lemma_holds_tail(t, j, b);
        assert(b.drop_first() =~= seq![TokenV::Characters(c.url@), TokenV::End(local_of("Certurl"@))]);
        lemma_text_read(t, j + 1, local_of("Certurl"@), c.url@);
        law_cert_url_attributes_read_back(c);
        lemma_trimmed_read(c.url@);
        lemma_views_push(s0, c);
        assert(x.certurls + views(s) =~= (x.certurls + views(s0)).push(c@));
    }
}

/// A written `ContentProtection` element is read back whole, up to just after its end tag.
pub proof fn lemma_content_protection_reads(t: Seq<TokenV>, i: int, c: ContentProtection)
    requires
        holds_at(t, i, content_protection_tokens(c)),
        content_protection_clean(c),
    ensures
        content_protection_at(t, i
            + 1, attrs_as_read(content_protection_attrs(c))) == Ok::<(ContentProtectionV, int), ErrorKind>((c@, i
            + content_protection_tokens(c).len())),
{
    reveal(content_protection_at);
    reveal(content_protection_inner_tokens);
    lemma_content_protection_names();
    law_content_protection_attributes_read_back(c);
    let g0 = text_element_tokens("cenc:pssh"@, c.pssh);
    let g1 = text_element_tokens("Laurl"@, c.laurl);
    let g2 = text_element_tokens("pro"@, c.pro);
    let g3 = each_tokens(c.certurls@, cert_url_tokens_fn());
    let h1 = g0 + g1;
    let h2 = h1 + g2;
    let h3 = h2 + g3;
    let st = seq![TokenV::Start(local_of("ContentProtection"@), None, attrs_as_read(content_protection_attrs(c)))];
    let en = seq![TokenV::End(local_of("ContentProtection"@))];
    assert(content_protection_tokens(c) == st + h3 + en);
    lemma_holds_cat(t, i, st + h3, en);
    lemma_holds_cat(t, i, st, h3);
    lemma_holds_cat(t, i + 1, h2, g3);
    lemma_holds_cat(t, i + 1, h1, g2);
    lemma_holds_cat(t, i + 1, g0, g1);
    let ghost x0 = ContentProtectionV { pssh: None, laurl: None, pro: None, certurls: seq![], ..c@ };
    let ghost q0 = i + 1;
    lemma_content_protection_reads_pssh(t, q0, x0, c.pssh);
    let ghost x1 = match c.pssh { Some(s) => ContentProtectionV { pssh: Some(s@), ..x0 }, None => x0 };
    let ghost q1 = q0 + g0.len();
    lemma_content_protection_reads_laurl(t, q1, x1, c.laurl);
    let ghost x2 = match c.laurl { Some(s) => ContentProtectionV { laurl: Some(s@), ..x1 }, None => x1 };
    let ghost q2 = q1 + g1.len();
    lemma_content_protection_reads_pro(t, q2, x2, c.pro);
    let ghost x3 = match c.pro { Some(s) => ContentProtectionV { pro: Some(s@), ..x2 }, None => x2 };
    let ghost q3 = q2 + g2.len();
    lemma_content_protection_reads_certurls(t, q3, x3, c.certurls@);
    let ghost x4 = ContentProtectionV { certurls: x3.certurls + views(c.certurls@), ..x3 };
    let ghost q4 = q3 + g3.len();
    lemma_holds_index(t, i + 1 + h3.len(), en, 0);
    assert(x0.certurls + views(c.certurls@) =~= views(c.certurls@));
    assert(x4 == c@);
}

/// How the reader names the elements that the writer writes in `SegmentBase`,
/// and how those names differ.
proof fn lemma_segment_base_names()
    ensures
        local_of("SegmentBase"@) == "SegmentBase"@,
        local_of("Initialization"@) == "Initialization"@,
        local_of("RepresentationIndex"@) == "RepresentationIndex"@,
        local_of("BitstreamSwitching"@) == "BitstreamSwitching"@,
        "SegmentBase"@.len() == 11,
        "Initialization"@.len() == 14,
        "RepresentationIndex"@.len() == 19,
        "BitstreamSwitching"@.len() == 18,
{
    reveal(local_of);
    reveal_with_fuel(first_index, 20);
    reveal_strlit("BitstreamSwitching");
    reveal_strlit("Initialization");
    reveal_strlit("RepresentationIndex");
    reveal_strlit("SegmentBase");
    assert("SegmentBase"@.len() == 11);
    assert("Initialization"@.len() == 14);
    assert("RepresentationIndex"@.len() == 19);
    assert("BitstreamSwitching"@.len() == 18);
}

/// The written `Initialization` pair, when present, is read.
proof fn lemma_segment_base_reads_initialization_source_url(t: Seq<TokenV>, i: int, x: SegmentBaseV, url: Option<String>, range: Option<String>)
    requires
        holds_at(t, i, pair_tokens("Initialization"@, url, range)),
    ensures
        segment_base_scan(t, i, x) == segment_base_scan(t, i + pair_tokens("Initialization"@, url, range).len(), if url is Some || range is Some {
            SegmentBaseV { initialization_source_url: opt_view(url), initialization_range: opt_view(range), ..x }
        } else {
            x
        }),
{
    if url is Some || range is Some {
        let b = pair_tokens("Initialization"@, url, range);
        lemma_segment_base_names();
        assert(b =~= seq![TokenV::Start(local_of("Initialization"@),
            None,
            attrs_as_read(opt_attr("sourceURL"@,
            url) + opt_attr("range"@,
            range))),
            TokenV::End(local_of("Initialization"@))]);
        lemma_holds_index(t, i, b, 0);
        lemma_holds_index(t, i, b, 1);
        lemma_pair_read(url, range);
        lemma_skip_empty(t, i + 1, local_of("Initialization"@));
    }
}

/// The written `RepresentationIndex` pair, when present, is read.
proof fn lemma_segment_base_reads_representation_index_source_url(t: Seq<TokenV>, i: int, x: SegmentBaseV, url: Option<String>, range: Option<String>)
    requires
        holds_at(t, i, pair_tokens("RepresentationIndex"@, url, range)),
    ensures
        segment_base_scan(t, i, x) == segment_base_scan(t, i + pair_tokens("RepresentationIndex"@, url, range).len(), if url is Some || range is Some {
            SegmentBaseV { representation_index_source_url: opt_view(url), representation_index_range: opt_view(range), ..x }
        } else {
            x
        }),
{
    if url is Some || range is Some {
        let b = pair_tokens("RepresentationIndex"@, url, range);
        lemma_segment_base_names();
        assert(b =~= seq![TokenV::Start(local_of("RepresentationIndex"@),
            None,
            attrs_as_read(opt_attr("sourceURL"@,
            url) + opt_attr("range"@,
            range))),
            TokenV::End(local_of("RepresentationIndex"@))]);
        lemma_holds_index(t, i, b, 0);
        lemma_holds_index(t, i, b, 1);
        lemma_pair_read(url, range);
        lemma_skip_empty(t, i + 1, local_of("RepresentationIndex"@));
    }
}

/// The written `BitstreamSwitching` pair, when present, is read.
proof fn lemma_segment_base_reads_bitstream_switching_source_url(t: Seq<TokenV>, i: int, x: SegmentBaseV, url: Option<String>, range: Option<String>)
    requires
        holds_at(t, i, pair_tokens("BitstreamSwitching"@, url, range)),
    ensures
        segment_base_scan(t, i, x) == segment_base_scan(t, i + pair_tokens("BitstreamSwitching"@, url, range).len(), if url is Some || range is Some {
            SegmentBaseV { bitstream_switching_source_url: opt_view(url), bitstream_switching_range: opt_view(range), ..x }
        } else {
            x
        }),
{
    if url is Some || range is Some {
        let b = pair_tokens("BitstreamSwitching"@, url, range);
        lemma_segment_base_names();
        assert(b =~= seq![TokenV::Start(local_of("BitstreamSwitching"@),
            None,
            attrs_as_read(opt_attr("sourceURL"@,
            url) + opt_attr("range"@,
            range))),
            TokenV::End(local_of("BitstreamSwitching"@))]);
        lemma_holds_index(t, i, b, 0);
        lemma_holds_index(t, i, b, 1);
        lemma_pair_read(url, range);
        lemma_skip_empty(t, i + 1, local_of("BitstreamSwitching"@));
    }
}

/// A written `SegmentBase` element is read back whole, up to just after its end tag.
pub proof fn lemma_segment_base_reads(t: Seq<TokenV>, i: int, b: SegmentBase)
    requires
        holds_at(t, i, segment_base_tokens(b)),
    ensures
        segment_base_at(t, i + 1, attrs_as_read(segment_base_attrs(b))) == Ok::<(SegmentBaseV, int), ErrorKind>((b@, i + segment_base_tokens(b).len())),
{
    reveal(segment_base_at);
    reveal(segment_base_inner_tokens);
    lemma_segment_base_names();
    law_segment_base_attributes_read_back(b);
    let g0 = pair_tokens("Initialization"@, b.initialization_source_url, b.initialization_range);
    let g1 = pair_tokens("RepresentationIndex"@, b.representation_index_source_url, b.representation_index_range);
    let g2 = pair_tokens("BitstreamSwitching"@, b.bitstream_switching_source_url, b.bitstream_switching_range);
    let h1 = g0 + g1;
    let h2 = h1 + g2;
    let st = seq![TokenV::Start(local_of("SegmentBase"@), None, attrs_as_read(segment_base_attrs(b)))];
    let en = seq![TokenV::End(local_of("SegmentBase"@))];
    assert(segment_base_tokens(b) == st + h2 + en);
    lemma_holds_cat(t, i, st + h2, en);
    lemma_holds_cat(t, i, st, h2);
    lemma_holds_cat(t, i + 1, h1, g2);
    lemma_holds_cat(t, i + 1, g0, g1);
    let ghost x0 = SegmentBaseV { initialization_source_url: None,
        initialization_range: None,
        representation_index_source_url: None,
        representation_index_range: None,
        bitstream_switching_source_url: None,
        bitstream_switching_range: None,
        ..b@ };
    let ghost q0 = i + 1;
    lemma_segment_base_reads_initialization_source_url(t, q0, x0, b.initialization_source_url, b.initialization_range);
    let ghost x1 = if b.initialization_source_url is Some || b.initialization_range is Some { SegmentBaseV { initialization_source_url: opt_view(b.initialization_source_url),
        initialization_range: opt_view(b.initialization_range),
        ..x0 } } else { x0 };
    let ghost q1 = q0 + g0.len();
    lemma_segment_base_reads_representation_index_source_url(t, q1, x1, b.representation_index_source_url, b.representation_index_range);
    let ghost x2 = if b.representation_index_source_url is Some || b.representation_index_range is Some { SegmentBaseV { representation_index_source_url: opt_view(b.representation_index_source_url),
        representation_index_range: opt_view(b.representation_index_range),
        ..x1 } } else { x1 };
    let ghost q2 = q1 + g1.len();
    lemma_segment_base_reads_bitstream_switching_source_url(t, q2, x2, b.bitstream_switching_source_url, b.bitstream_switching_range);
    let ghost x3 = if b.bitstream_switching_source_url is Some || b.bitstream_switching_range is Some { SegmentBaseV { bitstream_switching_source_url: opt_view(b.bitstream_switching_source_url),
        bitstream_switching_range: opt_view(b.bitstream_switching_range),
        ..x2 } } else { x2 };
    let ghost q3 = q2 + g2.len();
    lemma_holds_index(t, i + 1 + h2.len(), en, 0);
    assert(x3 == b@);
}

/// How the reader names the elements that the writer writes in `SegmentList`,
/// and how those names differ.
proof fn lemma_segment_list_names()
    ensures
        local_of("SegmentList"@) == "SegmentList"@,
        local_of("Initialization"@) == "Initialization"@,
        local_of("RepresentationIndex"@) == "RepresentationIndex"@,
        local_of("BitstreamSwitching"@) == "BitstreamSwitching"@,
        local_of("SegmentTimeline"@) == "SegmentTimeline"@,
        local_of("SegmentURL"@) == "SegmentURL"@,
        "SegmentList"@.len() == 11,
        "Initialization"@.len() == 14,
        "RepresentationIndex"@.len() == 19,
        "BitstreamSwitching"@.len() == 18,
        "SegmentURL"@.len() == 10,
        "SegmentTimeline"@.len() == 15,
{
    reveal(local_of);
    reveal_with_fuel(first_index, 20);
    reveal_strlit("BitstreamSwitching");
    reveal_strlit("Initialization");
    reveal_strlit("RepresentationIndex");
    reveal_strlit("SegmentList");
    reveal_strlit("SegmentTimeline");
    reveal_strlit("SegmentURL");
    assert("SegmentList"@.len() == 11);
    assert("Initialization"@.len() == 14);
    assert("RepresentationIndex"@.len() == 19);
    assert("BitstreamSwitching"@.len() == 18);
    assert("SegmentURL"@.len() == 10);
    assert("SegmentTimeline"@.len() == 15);
}

/// The written `Initialization` pair, when present, is read.
proof fn lemma_segment_list_reads_initialization_source_url(t: Seq<TokenV>, i: int, x: SegmentListV, url: Option<String>, range: Option<String>)
    requires
        holds_at(t, i, pair_tokens("Initialization"@, url, range)),
    ensures
        segment_list_scan(t, i, x) == segment_list_scan(t, i + pair_tokens("Initialization"@, url, range).len(), if url is Some || range is Some {
            SegmentListV { initialization_source_url: opt_view(url), initialization_range: opt_view(range), ..x }
        } else {
            x
        }),
{
    if url is Some || range is Some {
        let b = pair_tokens("Initialization"@, url, range);
        lemma_segment_list_names();
        assert(b =~= seq![TokenV::Start(local_of("Initialization"@),
            None,
            attrs_as_read(opt_attr("sourceURL"@,
            url) + opt_attr("range"@,
            range))),
            TokenV::End(local_of("Initialization"@))]);
        lemma_holds_index(t, i, b, 0);
        lemma_holds_index(t, i, b, 1);
        lemma_pair_read(url, range);
        lemma_skip_empty(t, i + 1, local_of("Initialization"@));
    }
}

/// The written `RepresentationIndex` pair, when present, is read.
proof fn lemma_segment_list_reads_representation_index_source_url(t: Seq<TokenV>, i: int, x: SegmentListV, url: Option<String>, range: Option<String>)
    requires
        holds_at(t, i, pair_tokens("RepresentationIndex"@, url, range)),
    ensures
        segment_list_scan(t, i, x) == segment_list_scan(t, i + pair_tokens("RepresentationIndex"@, url, range).len(), if url is Some || range is Some {
            SegmentListV { representation_index_source_url: opt_view(url), representation_index_range: opt_view(range), ..x }
        } else {
            x
        }),
{
    if url is Some || range is Some {
        let b = pair_tokens("RepresentationIndex"@, url, range);
        lemma_segment_list_names();
        assert(b =~= seq![TokenV::Start(local_of("RepresentationIndex"@),
            None,
            attrs_as_read(opt_attr("sourceURL"@,
            url) + opt_attr("range"@,
            range))),
            TokenV::End(local_of("RepresentationIndex"@))]);
        lemma_holds_index(t, i, b, 0);
        lemma_holds_index(t, i, b, 1);
        lemma_pair_read(url, range);
        lemma_skip_empty(t, i + 1, local_of("RepresentationIndex"@));
    }
}

/// The written `BitstreamSwitching` pair, when present, is read.
proof fn lemma_segment_list_reads_bitstream_switching_source_url(t: Seq<TokenV>, i: int, x: SegmentListV, url: Option<String>, range: Option<String>)
    requires
        holds_at(t, i, pair_tokens("BitstreamSwitching"@, url, range)),
    ensures
        segment_list_scan(t, i, x) == segment_list_scan(t, i + pair_tokens("BitstreamSwitching"@, url, range).len(), if url is Some || range is Some {
            SegmentListV { bitstream_switching_source_url: opt_view(url), bitstream_switching_range: opt_view(range), ..x }
        } else {
            x
        }),
{
    if url is Some || range is Some {
        let b = pair_tokens("BitstreamSwitching"@, url, range);
        lemma_segment_list_names();
        assert(b =~= seq![TokenV::Start(local_of("BitstreamSwitching"@),
            None,
            attrs_as_read(opt_attr("sourceURL"@,
            url) + opt_attr("range"@,
            range))),
            TokenV::End(local_of("BitstreamSwitching"@))]);
        lemma_holds_index(t, i, b, 0);
        lemma_holds_index(t, i, b, 1);
        lemma_pair_read(url, range);
        lemma_skip_empty(t, i + 1, local_of("BitstreamSwitching"@));
    }
}

/// The written segment timeline, when present, is read.
proof fn lemma_segment_list_reads_segment_timeline(t: Seq<TokenV>, i: int, x: SegmentListV, o: Option<Vec<TimelineEntry>>)
    requires
        holds_at(t, i, opt_timeline_tokens(o)),
    ensures
        segment_list_scan(t, i, x) == segment_list_scan(t, i + opt_timeline_tokens(o).len(), match o {
            Some(es) => SegmentListV { segment_timeline: Some(es@), ..x },
            None => x,
        }),
{
    if let Some(es) = o {
        let b = opt_timeline_tokens(o);
        lemma_segment_list_names();
        lemma_opt_timeline_read(t, i, es);
        lemma_holds_index(t, i, b, 0);
        assert(b[0] == TokenV::Start(local_of("SegmentTimeline"@), None, attrs_as_read(seq![])));
    }
}

/// The written `segment_urls` items are read in order.
proof fn lemma_segment_list_reads_segment_urls(t: Seq<TokenV>, i: int, x: SegmentListV, s: Seq<SegmentUrl>)
    requires
        holds_at(t, i, each_tokens(s, segment_url_tokens_fn())),
    ensures
        segment_list_scan(t, i, x) == segment_list_scan(t, i
            + each_tokens(s, segment_url_tokens_fn()).len(), SegmentListV { segment_urls: x.segment_urls
            + views(s), ..x }),
    decreases s.len(),
{
    reveal(each_tokens);
    if s.len() == 0 {
        assert(x.segment_urls + views(s) =~= x.segment_urls);
    } else {
        let s0 = s.drop_last();
        let c = s.last();
        let a = each_tokens(s0, segment_url_tokens_fn());
        let b = segment_url_tokens(c);
        lemma_holds_cat(t, i, a, b);
        lemma_segment_list_reads_segment_urls(t, i, x, s0);
        let j = i + a.len();
        lemma_segment_list_names();
        reveal(segment_url_inner_tokens);
        assert(b =~= seq![TokenV::Start(local_of("SegmentURL"@), None, attrs_as_read(segment_url_attrs(c))), TokenV::End(local_of("SegmentURL"@))]);
        lemma_holds_index(t, j, b, 0);
        lemma_holds_index(t, j, b, 1);
        law_segment_url_attributes_read_back(c);
        lemma_skip_empty(t, j + 1, local_of("SegmentURL"@));
        lemma_views_push(s0, c);
        assert(x.segment_urls + views(s) =~= (x.segment_urls + views(s0)).push(c@));
    }
}

/// A written `SegmentList` element is read back whole, up to just after its end tag.
pub proof fn lemma_segment_list_reads(t: Seq<TokenV>, i: int, l: SegmentList)
    requires
        holds_at(t, i, segment_list_tokens(l)),
    ensures
        segment_list_at(t, i + 1, attrs_as_read(segment_list_attrs(l))) == Ok::<(SegmentListV, int), ErrorKind>((l@, i + segment_list_tokens(l).len())),
{
    reveal(segment_list_at);
    reveal(segment_list_inner_tokens);
    lemma_segment_list_names();
    law_segment_list_attributes_read_back(l);
    let g0 = pair_tokens("Initialization"@, l.initialization_source_url, l.initialization_range);
    let g1 = pair_tokens("RepresentationIndex"@, l.representation_index_source_url, l.representation_index_range);
    let g2 = pair_tokens("BitstreamSwitching"@, l.bitstream_switching_source_url, l.bitstream_switching_range);
    let g3 = opt_timeline_tokens(l.segment_timeline);
    let g4 = each_tokens(l.segment_urls@, segment_url_tokens_fn());
    let h1 = g0 + g1;
    let h2 = h1 + g2;
    let h3 = h2 + g3;
    let h4 = h3 + g4;
    let st = seq![TokenV::Start(local_of("SegmentList"@), None, attrs_as_read(segment_list_attrs(l)))];
    let en = seq![TokenV::End(local_of("SegmentList"@))];
    assert(segment_list_tokens(l) == st + h4 + en);
    lemma_holds_cat(t, i, st + h4, en);
    lemma_holds_cat(t, i, st, h4);
    lemma_holds_cat(t, i + 1, h3, g4);
    lemma_holds_cat(t, i + 1, h2, g3);
    lemma_holds_cat(t, i + 1, h1, g2);
    lemma_holds_cat(t, i + 1, g0, g1);
    let ghost x0 = SegmentListV { initialization_source_url: None,
        initialization_range: None,
        representation_index_source_url: None,
        representation_index_range: None,
        bitstream_switching_source_url: None,
        bitstream_switching_range: None,
        segment_urls: seq![],
        segment_timeline: None,
        ..l@ };
    let ghost q0 = i + 1;
    lemma_segment_list_reads_initialization_source_url(t, q0, x0, l.initialization_source_url, l.initialization_range);
    let ghost x1 = if l.initialization_source_url is Some || l.initialization_range is Some { SegmentListV { initialization_source_url: opt_view(l.initialization_source_url),
        initialization_range: opt_view(l.initialization_range),
        ..x0 } } else { x0 };
    let ghost q1 = q0 + g0.len();
    lemma_segment_list_reads_representation_index_source_url(t, q1, x1, l.representation_index_source_url, l.representation_index_range);
    let ghost x2 = if l.representation_index_source_url is Some || l.representation_index_range is Some { SegmentListV { representation_index_source_url: opt_view(l.representation_index_source_url),
        representation_index_range: opt_view(l.representation_index_range),
        ..x1 } } else { x1 };
    let ghost q2 = q1 + g1.len();
    lemma_segment_list_reads_bitstream_switching_source_url(t, q2, x2, l.bitstream_switching_source_url, l.bitstream_switching_range);
    let ghost x3 = if l.bitstream_switching_source_url is Some || l.bitstream_switching_range is Some { SegmentListV { bitstream_switching_source_url: opt_view(l.bitstream_switching_source_url),
        bitstream_switching_range: opt_view(l.bitstream_switching_range),
        ..x2 } } else { x2 };
    let ghost q3 = q2 + g2.len();
    lemma_segment_list_reads_segment_timeline(t, q3, x3, l.segment_timeline);
    let ghost x4 = match l.segment_timeline { Some(es) => SegmentListV { segment_timeline: Some(es@), ..x3 }, None => x3 };
    let ghost q4 = q3 + g3.len();
    lemma_segment_list_reads_segment_urls(t, q4, x4, l.segment_urls@);
    let ghost x5 = SegmentListV { segment_urls: x4.segment_urls + views(l.segment_urls@), ..x4 };
    let ghost q5 = q4 + g4.len();
    lemma_holds_index(t, i + 1 + h4.len(), en, 0);
    assert(x0.segment_urls + views(l.segment_urls@) =~= views(l.segment_urls@));
    assert(x5 == l@);
}

/// How the reader names the elements that the writer writes in `SegmentTemplate`,
/// and how those names differ.
proof fn lemma_segment_template_names()
    ensures
        local_of("SegmentTemplate"@) == "SegmentTemplate"@,
        local_of("BitstreamSwitching"@) == "BitstreamSwitching"@,
        local_of("SegmentTimeline"@) == "SegmentTimeline"@,
        "SegmentTemplate"@.len() == 15,
        "SegmentTimeline"@.len() == 15,
        "BitstreamSwitching"@.len() == 18,
        "SegmentTemplate"@[8] == 'e',
        "SegmentTimeline"@[8] == 'i',
{
    reveal(local_of);
    reveal_with_fuel(first_index, 19);
    reveal_strlit("BitstreamSwitching");
    reveal_strlit("SegmentTemplate");
    reveal_strlit("SegmentTimeline");
    assert("SegmentTemplate"@.len() == 15);
    assert("SegmentTimeline"@.len() == 15);
    assert("BitstreamSwitching"@.len() == 18);
}

/// The written `BitstreamSwitching` pair, when present, is read.
proof fn lemma_segment_template_reads_bitstream_switching_source_url(t: Seq<TokenV>, i: int, x: SegmentTemplateV, url: Option<String>, range: Option<String>)
    requires
        holds_at(t, i, pair_tokens("BitstreamSwitching"@, url, range)),
    ensures
        segment_template_scan(t, i, x) == segment_template_scan(t, i + pair_tokens("BitstreamSwitching"@, url, range).len(), if url is Some || range is Some {
            SegmentTemplateV { bitstream_switching_source_url: opt_view(url), bitstream_switching_range: opt_view(range), ..x }
        } else {
            x
        }),
{
    if url is Some || range is Some {
        let b = pair_tokens("BitstreamSwitching"@, url, range);
        lemma_segment_template_names();
        assert(b =~= seq![TokenV::Start(local_of("BitstreamSwitching"@),
            None,
            attrs_as_read(opt_attr("sourceURL"@,
            url) + opt_attr("range"@,
            range))),
            TokenV::End(local_of("BitstreamSwitching"@))]);
        lemma_holds_index(t, i, b, 0);
        lemma_holds_index(t, i, b, 1);
        lemma_pair_read(url, range);
        lemma_skip_empty(t, i + 1, local_of("BitstreamSwitching"@));
    }
}

/// The written segment timeline, when present, is read.
proof fn lemma_segment_template_reads_segment_timeline(t: Seq<TokenV>, i: int, x: SegmentTemplateV, o: Option<Vec<TimelineEntry>>)
    requires
        holds_at(t, i, opt_timeline_tokens(o)),
    ensures
        segment_template_scan(t, i, x) == segment_template_scan(t, i + opt_timeline_tokens(o).len(), match o {
            Some(es) => SegmentTemplateV { segment_timeline: Some(es@), ..x },
            None => x,
        }),
{
    if let Some(es) = o {
        let b = opt_timeline_tokens(o);
        lemma_segment_template_names();
        lemma_opt_timeline_read(t, i, es);
        lemma_holds_index(t, i, b, 0);
        assert(b[0] == TokenV::Start(local_of("SegmentTimeline"@), None, attrs_as_read(seq![])));
    }
}

/// A written `SegmentTemplate` element is read back whole, up to just after its end tag.
pub proof fn lemma_segment_template_reads(t: Seq<TokenV>, i: int, tm: SegmentTemplate)
    requires
        holds_at(t, i, segment_template_tokens(tm)),
    ensures
        segment_template_at(t, i
            + 1, attrs_as_read(segment_template_attrs(tm))) == Ok::<(SegmentTemplateV, int), ErrorKind>((tm@, i
            + segment_template_tokens(tm).len())),
{
    reveal(segment_template_at);
    reveal(segment_template_inner_tokens);
    lemma_segment_template_names();
    law_segment_template_attributes_read_back(tm);
    let g0 = pair_tokens("BitstreamSwitching"@, tm.bitstream_switching_source_url, tm.bitstream_switching_range);
    let g1 = opt_timeline_tokens(tm.segment_timeline);
    let h1 = g0 + g1;
    let st = seq![TokenV::Start(local_of("SegmentTemplate"@), None, attrs_as_read(segment_template_attrs(tm)))];
    let en = seq![TokenV::End(local_of("SegmentTemplate"@))];
    assert(segment_template_tokens(tm) == st + h1 + en);
    lemma_holds_cat(t, i, st + h1, en);
    lemma_holds_cat(t, i, st, h1);
    lemma_holds_cat(t, i + 1, g0, g1);
    let ghost x0 = SegmentTemplateV { bitstream_switching_source_url: None, bitstream_switching_range: None, segment_timeline: None, ..tm@ };
    let ghost q0 = i + 1;
    lemma_segment_template_reads_bitstream_switching_source_url(t, q0, x0, tm.bitstream_switching_source_url, tm.bitstream_switching_range);
    let ghost x1 = if tm.bitstream_switching_source_url is Some || tm.bitstream_switching_range is Some { SegmentTemplateV { bitstream_switching_source_url: opt_view(tm.bitstream_switching_source_url),
        bitstream_switching_range: opt_view(tm.bitstream_switching_range),
        ..x0 } } else { x0 };
    let ghost q1 = q0 + g0.len();
    lemma_segment_template_reads_segment_timeline(t, q1, x1, tm.segment_timeline);
    let ghost x2 = match tm.segment_timeline { Some(es) => SegmentTemplateV { segment_timeline: Some(es@), ..x1 }, None => x1 };
    let ghost q2 = q1 + g1.len();
    lemma_holds_index(t, i + 1 + h1.len(), en, 0);
    assert(x2 == tm@);
}

/// How the reader names the elements that the writer writes in `Preselection`,
/// and how those names differ.
proof fn lemma_preselection_names()
    ensures
        local_of("Preselection"@) == "Preselection"@,
        local_of("Accessibility"@) == "Accessibility"@,
        local_of("Role"@) == "Role"@,
        local_of("Viewpoint"@) == "Viewpoint"@,
        local_of("Label"@) == "Label"@,
        local_of("EssentialProperty"@) == "EssentialProperty"@,
        local_of("SupplementalProperty"@) == "SupplementalProperty"@,
        "Preselection"@.len() == 12,
        "Accessibility"@.len() == 13,
        "Role"@.len() == 4,
        "Viewpoint"@.len() == 9,
        "Label"@.len() == 5,
        "EssentialProperty"@.len() == 17,
        "SupplementalProperty"@.len() == 20,
{
    reveal(local_of);
    reveal_with_fuel(first_index, 21);
    reveal_strlit("Accessibility");
    reveal_strlit("EssentialProperty");
    reveal_strlit("Label");
    reveal_strlit("Preselection");
    reveal_strlit("Role");
    reveal_strlit("SupplementalProperty");
    reveal_strlit("Viewpoint");
    assert("Preselection"@.len() == 12);
    assert("Accessibility"@.len() == 13);
    assert("Role"@.len() == 4);
    assert("Viewpoint"@.len() == 9);
    assert("Label"@.len() == 5);
    assert("EssentialProperty"@.len() == 17);
    assert("SupplementalProperty"@.len() == 20);
}

/// The written `accessibilities` items are read in order.
proof fn lemma_preselection_reads_accessibilities(t: Seq<TokenV>, i: int, x: PreselectionV, s: Seq<Descriptor>)
    requires
        holds_at(t, i, each_tokens(s, descriptor_tokens_fn("Accessibility"@))),
    ensures
        preselection_scan(t, i, x) == preselection_scan(t, i
            + each_tokens(s, descriptor_tokens_fn("Accessibility"@)).len(), PreselectionV { accessibilities: x.accessibilities
            + views(s), ..x }),
    decreases s.len(),
{
    reveal(each_tokens);
    if s.len() == 0 {
        assert(x.accessibilities + views(s) =~= x.accessibilities);
    } else {
        let s0 = s.drop_last();
        let c = s.last();
        let a = each_tokens(s0, descriptor_tokens_fn("Accessibility"@));
        let b = descriptor_tokens("Accessibility"@, c);
        lemma_holds_cat(t, i, a, b);
        lemma_preselection_reads_accessibilities(t, i, x, s0);
        let j = i + a.len();
        lemma_preselection_names();
        reveal(descriptor_inner_tokens);
        assert(b =~= seq![TokenV::Start(local_of("Accessibility"@), None, attrs_as_read(descriptor_attrs(c))), TokenV::End(local_of("Accessibility"@))]);
        lemma_holds_index(t, j, b, 0);
        lemma_holds_index(t, j, b, 1);
        law_descriptor_attributes_read_back(c);
        lemma_skip_empty(t, j + 1, local_of("Accessibility"@));
        lemma_views_push(s0, c);
        assert(x.accessibilities + views(s) =~= (x.accessibilities + views(s0)).push(c@));
    }
}

/// The written `roles` items are read in order.
proof fn lemma_preselection_reads_roles(t: Seq<TokenV>, i: int, x: PreselectionV, s: Seq<Descriptor>)
    requires
        holds_at(t, i, each_tokens(s, descriptor_tokens_fn("Role"@))),
    ensures
        preselection_scan(t, i, x) == preselection_scan(t, i
            + each_tokens(s, descriptor_tokens_fn("Role"@)).len(), PreselectionV { roles: x.roles
            + views(s), ..x }),
    decreases s.len(),
{
    reveal(each_tokens);
    if s.len() == 0 {
        assert(x.roles + views(s) =~= x.roles);
    } else {
        let s0 = s.drop_last();
        let c = s.last();
        let a = each_tokens(s0, descriptor_tokens_fn("Role"@));
        let b = descriptor_tokens("Role"@, c);
        lemma_holds_cat(t, i, a, b);
        lemma_preselection_reads_roles(t, i, x, s0);
        let j = i + a.len();
        lemma_preselection_names();
        reveal(descriptor_inner_tokens);
        assert(b =~= seq![TokenV::Start(local_of("Role"@), None, attrs_as_read(descriptor_attrs(c))), TokenV::End(local_of("Role"@))]);
        lemma_holds_index(t, j, b, 0);
        lemma_holds_index(t, j, b, 1);
        law_descriptor_attributes_read_back(c);
        lemma_skip_empty(t, j + 1, local_of("Role"@));
        lemma_views_push(s0, c);
        assert(x.roles + views(s) =~= (x.roles + views(s0)).push(c@));
    }
}

/// The written `viewpoints` items are read in order.
proof fn lemma_preselection_reads_viewpoints(t: Seq<TokenV>, i: int, x: PreselectionV, s: Seq<Descriptor>)
    requires
        holds_at(t, i, each_tokens(s, descriptor_tokens_fn("Viewpoint"@))),
    ensures
        preselection_scan(t, i, x) == preselection_scan(t, i
            + each_tokens(s, descriptor_tokens_fn("Viewpoint"@)).len(), PreselectionV { viewpoints: x.viewpoints
            + views(s), ..x }),
    decreases s.len(),
{
    reveal(each_tokens);
    if s.len() == 0 {
        assert(x.viewpoints + views(s) =~= x.viewpoints);
    } else {
        let s0 = s.drop_last();
        let c = s.last();
        let a = each_tokens(s0, descriptor_tokens_fn("Viewpoint"@));
        let b = descriptor_tokens("Viewpoint"@, c);
        lemma_holds_cat(t, i, a, b);
        lemma_preselection_reads_viewpoints(t, i, x, s0);
        let j = i + a.len();
        lemma_preselection_names();
        reveal(descriptor_inner_tokens);
        assert(b =~= seq![TokenV::Start(local_of("Viewpoint"@), None, attrs_as_read(descriptor_attrs(c))), TokenV::End(local_of("Viewpoint"@))]);
        lemma_holds_index(t, j, b, 0);
        lemma_holds_index(t, j, b, 1);
        law_descriptor_attributes_read_back(c);
        lemma_skip_empty(t, j + 1, local_of("Viewpoint"@));
        lemma_views_push(s0, c);
        assert(x.viewpoints + views(s) =~= (x.viewpoints + views(s0)).push(c@));
    }
}

/// The written `labels` items are read in order.
proof fn lemma_preselection_reads_labels(t: Seq<TokenV>, i: int, x: PreselectionV, s: Seq<Label>)
    requires
        holds_at(t, i, each_tokens(s, label_tokens_fn("Label"@))),
        forall|k: int| 0 <= k < s.len() ==> label_clean(#[trigger] s[k]),
    ensures
        preselection_scan(t, i, x) == preselection_scan(t, i
            + each_tokens(s, label_tokens_fn("Label"@)).len(), PreselectionV { labels: x.labels
            + views(s), ..x }),
    decreases s.len(),
{
    reveal(each_tokens);
    if s.len() == 0 {
        assert(x.labels + views(s) =~= x.labels);
    } else {
        let s0 = s.drop_last();
        let c = s.last();
        let a = each_tokens(s0, label_tokens_fn("Label"@));
        let b = label_tokens("Label"@, c);
        lemma_holds_cat(t, i, a, b);
        assert forall|k: int| 0 <= k < s0.len() implies label_clean(#[trigger] s0[k]) by {
            assert(s0[k] == s[k]);
        }
        lemma_preselection_reads_labels(t, i, x, s0);
        assert(label_clean(c)) by {
            assert(c == s[s.len() - 1]);
        }
        let j = i + a.len();
        lemma_preselection_names();
        reveal(label_inner_tokens);
        assert(b =~= seq![TokenV::Start(local_of("Label"@),
            None,
            attrs_as_read(label_attrs(c))),
            TokenV::Characters(c.text@),
            TokenV::End(local_of("Label"@))]);
        lemma_holds_tail(t, j, b);
        assert(b.drop_first() =~= seq![TokenV::Characters(c.text@), TokenV::End(local_of("Label"@))]);
        lemma_text_read(t, j + 1, local_of("Label"@), c.text@);
        law_label_attributes_read_back(c);
        lemma_trimmed_read(c.text@);
        lemma_views_push(s0, c);
        assert(x.labels + views(s) =~= (x.labels + views(s0)).push(c@));
    }
}

/// The written `essential_properties` items are read in order.
proof fn lemma_preselection_reads_essential_properties(t: Seq<TokenV>, i: int, x: PreselectionV, s: Seq<Descriptor>)
    requires
        holds_at(t, i, each_tokens(s, descriptor_tokens_fn("EssentialProperty"@))),
    ensures
        preselection_scan(t, i, x) == preselection_scan(t, i
            + each_tokens(s, descriptor_tokens_fn("EssentialProperty"@)).len(), PreselectionV { essential_properties: x.essential_properties
            + views(s), ..x }),
    decreases s.len(),
{
    reveal(each_tokens);
    if s.len() == 0 {
        assert(x.essential_properties + views(s) =~= x.essential_properties);
    } else {
        let s0 = s.drop_last();
        let c = s.last();
        let a = each_tokens(s0, descriptor_tokens_fn("EssentialProperty"@));
        let b = descriptor_tokens("EssentialProperty"@, c);
        lemma_holds_cat(t, i, a, b);
        lemma_preselection_reads_essential_properties(t, i, x, s0);
        let j = i + a.len();
        lemma_preselection_names();
        reveal(descriptor_inner_tokens);
        assert(b =~= seq![TokenV::Start(local_of("EssentialProperty"@),
            None,
            attrs_as_read(descriptor_attrs(c))),
            TokenV::End(local_of("EssentialProperty"@))]);
        lemma_holds_index(t, j, b, 0);
        lemma_holds_index(t, j, b, 1);
        law_descriptor_attributes_read_back(c);
        lemma_skip_empty(t, j + 1, local_of("EssentialProperty"@));
        lemma_views_push(s0, c);
        assert(x.essential_properties + views(s) =~= (x.essential_properties + views(s0)).push(c@));
    }
}

/// The written `supplemental_properties` items are read in order.
proof fn lemma_preselection_reads_supplemental_properties(t: Seq<TokenV>, i: int, x: PreselectionV, s: Seq<Descriptor>)
    requires
        holds_at(t, i, each_tokens(s, descriptor_tokens_fn("SupplementalProperty"@))),
    ensures
        preselection_scan(t, i, x) == preselection_scan(t, i
            + each_tokens(s, descriptor_tokens_fn("SupplementalProperty"@)).len(), PreselectionV { supplemental_properties: x.supplemental_properties
            + views(s), ..x }),
    decreases s.len(),
{
    reveal(each_tokens);
    if s.len() == 0 {
        assert(x.supplemental_properties + views(s) =~= x.supplemental_properties);
    } else {
        let s0 = s.drop_last();
        let c = s.last();
        let a = each_tokens(s0, descriptor_tokens_fn("SupplementalProperty"@));
        let b = descriptor_tokens("SupplementalProperty"@, c);
        lemma_holds_cat(t, i, a, b);
        lemma_preselection_reads_supplemental_properties(t, i, x, s0);
        let j = i + a.len();
        lemma_preselection_names();
        reveal(descriptor_inner_tokens);
        assert(b =~= seq![TokenV::Start(local_of("SupplementalProperty"@),
            None,
            attrs_as_read(descriptor_attrs(c))),
            TokenV::End(local_of("SupplementalProperty"@))]);
        lemma_holds_index(t, j, b, 0);
        lemma_holds_index(t, j, b, 1);
        law_descriptor_attributes_read_back(c);
        lemma_skip_empty(t, j + 1, local_of("SupplementalProperty"@));
        lemma_views_push(s0, c);
        assert(x.supplemental_properties + views(s) =~= (x.supplemental_properties + views(s0)).push(c@));
    }
}

/// A written `Preselection` element is read back whole, up to just after its end tag.
pub proof fn lemma_preselection_reads(t: Seq<TokenV>, i: int, p: Preselection)
    requires
        holds_at(t, i, preselection_tokens(p)),
        preselection_clean(p),
    ensures
        preselection_at(t, i + 1, attrs_as_read(preselection_attrs(p))) == Ok::<(PreselectionV, int), ErrorKind>((p@, i + preselection_tokens(p).len())),
{
    reveal(preselection_at);
    reveal(preselection_inner_tokens);
    lemma_preselection_names();
    law_preselection_attributes_read_back(p);
    let g0 = each_tokens(p.accessibilities@, descriptor_tokens_fn("Accessibility"@));
    let g1 = each_tokens(p.roles@, descriptor_tokens_fn("Role"@));
    let g2 = each_tokens(p.viewpoints@, descriptor_tokens_fn("Viewpoint"@));
    let g3 = each_tokens(p.labels@, label_tokens_fn("Label"@));
    let g4 = each_tokens(p.essential_properties@, descriptor_tokens_fn("EssentialProperty"@));
    let g5 = each_tokens(p.supplemental_properties@, descriptor_tokens_fn("SupplementalProperty"@));
    let h1 = g0 + g1;
    let h2 = h1 + g2;
    let h3 = h2 + g3;
    let h4 = h3 + g4;
    let h5 = h4 + g5;
    let st = seq![TokenV::Start(local_of("Preselection"@), None, attrs_as_read(preselection_attrs(p)))];
    let en = seq![TokenV::End(local_of("Preselection"@))];
    assert(preselection_tokens(p) == st + h5 + en);
    lemma_holds_cat(t, i, st + h5, en);
    lemma_holds_cat(t, i, st, h5);
    lemma_holds_cat(t, i + 1, h4, g5);
    lemma_holds_cat(t, i + 1, h3, g4);
    lemma_holds_cat(t, i + 1, h2, g3);
    lemma_holds_cat(t, i + 1, h1, g2);
    lemma_holds_cat(t, i + 1, g0, g1);
    let ghost x0 = PreselectionV { accessibilities: seq![],
        roles: seq![],
        viewpoints: seq![],
        labels: seq![],
        essential_properties: seq![],
        supplemental_properties: seq![],
        ..p@ };
    let ghost q0 = i + 1;
    lemma_preselection_reads_accessibilities(t, q0, x0, p.accessibilities@);
    let ghost x1 = PreselectionV { accessibilities: x0.accessibilities + views(p.accessibilities@), ..x0 };
    let ghost q1 = q0 + g0.len();
    lemma_preselection_reads_roles(t, q1, x1, p.roles@);
    let ghost x2 = PreselectionV { roles: x1.roles + views(p.roles@), ..x1 };
    let ghost q2 = q1 + g1.len();
    lemma_preselection_reads_viewpoints(t, q2, x2, p.viewpoints@);
    let ghost x3 = PreselectionV { viewpoints: x2.viewpoints + views(p.viewpoints@), ..x2 };
    let ghost q3 = q2 + g2.len();
    lemma_preselection_reads_labels(t, q3, x3, p.labels@);
    let ghost x4 = PreselectionV { labels: x3.labels + views(p.labels@), ..x3 };
    let ghost q4 = q3 + g3.len();
    lemma_preselection_reads_essential_properties(t, q4, x4, p.essential_properties@);
    let ghost x5 = PreselectionV { essential_properties: x4.essential_properties + views(p.essential_properties@), ..x4 };
    let ghost q5 = q4 + g4.len();
    lemma_preselection_reads_supplemental_properties(t, q5, x5, p.supplemental_properties@);
    let ghost x6 = PreselectionV { supplemental_properties: x5.supplemental_properties + views(p.supplemental_properties@), ..x5 };
    let ghost q6 = q5 + g5.len();
    lemma_holds_index(t, i + 1 + h5.len(), en, 0);
    assert(x0.accessibilities + views(p.accessibilities@) =~= views(p.accessibilities@));
    assert(x0.roles + views(p.roles@) =~= views(p.roles@));
    assert(x0.viewpoints + views(p.viewpoints@) =~= views(p.viewpoints@));
    assert(x0.labels + views(p.labels@) =~= views(p.labels@));
    assert(x0.essential_properties + views(p.essential_properties@) =~= views(p.essential_properties@));
    assert(x0.supplemental_properties + views(p.supplemental_properties@) =~= views(p.supplemental_properties@));
    assert(x6 == p@);
}

/// How the reader names the elements that the writer writes in `SubRepresentation`,
/// and how those names differ.
proof fn lemma_sub_representation_names()
    ensures
        local_of("SubRepresentation"@) == "SubRepresentation"@,
        local_of("ContentProtection"@) == "ContentProtection"@,
        local_of("AudioChannelConfiguration"@) == "AudioChannelConfiguration"@,
        local_of("FramePacking"@) == "FramePacking"@,
        local_of("InbandEventStream"@) == "InbandEventStream"@,
        local_of("EssentialProperty"@) == "EssentialProperty"@,
        local_of("SupplementalProperty"@) == "SupplementalProperty"@,
        local_of("SegmentSequenceProperties"@) == "SegmentSequenceProperties"@,
        "SubRepresentation"@.len() == 17,
        "ContentProtection"@.len() == 17,
        "AudioChannelConfiguration"@.len() == 25,
        "FramePacking"@.len() == 12,
        "InbandEventStream"@.len() == 17,
        "EssentialProperty"@.len() == 17,
        "SupplementalProperty"@.len() == 20,
        "SegmentSequenceProperties"@.len() == 25,
        "AudioChannelConfiguration"@[0] == 'A',
        "ContentProtection"@[0] == 'C',
        "EssentialProperty"@[0] == 'E',
        "InbandEventStream"@[0] == 'I',
        "SegmentSequenceProperties"@[0] == 'S',
        "SubRepresentation"@[0] == 'S',
{
    reveal(local_of);
    reveal_with_fuel(first_index, 26);
    reveal_strlit("AudioChannelConfiguration");
    reveal_strlit("ContentProtection");
    reveal_strlit("EssentialProperty");
    reveal_strlit("FramePacking");
    reveal_strlit("InbandEventStream");
    reveal_strlit("SegmentSequenceProperties");
    reveal_strlit("SubRepresentation");
    reveal_strlit("SupplementalProperty");
    assert("SubRepresentation"@.len() == 17);
    assert("ContentProtection"@.len() == 17);
    assert("AudioChannelConfiguration"@.len() == 25);
    assert("FramePacking"@.len() == 12);
    assert("InbandEventStream"@.len() == 17);
    assert("EssentialProperty"@.len() == 17);
    assert("SupplementalProperty"@.len() == 20);
    assert("SegmentSequenceProperties"@.len() == 25);
}

/// The written `content_protections` items are read in order.
proof fn lemma_sub_representation_reads_content_protections(t: Seq<TokenV>, i: int, x: SubRepresentationV, s: Seq<ContentProtection>)
    requires
        holds_at(t, i, each_tokens(s, content_protection_tokens_fn())),
        forall|k: int| 0 <= k < s.len() ==> content_protection_clean(#[trigger] s[k]),
    ensures
        sub_representation_scan(t, i, x) == sub_representation_scan(t, i
            + each_tokens(s, content_protection_tokens_fn()).len(), SubRepresentationV { content_protections: x.content_protections
            + views(s), ..x }),
    decreases s.len(),
{
    reveal(each_tokens);
    if s.len() == 0 {
        assert(x.content_protections + views(s) =~= x.content_protections);
    } else {
        let s0 = s.drop_last();
        let c = s.last();
        let a = each_tokens(s0, content_protection_tokens_fn());
        let b = content_protection_tokens(c);
        lemma_holds_cat(t, i, a, b);
        assert forall|k: int| 0 <= k < s0.len() implies content_protection_clean(#[trigger] s0[k]) by {
            assert(s0[k] == s[k]);
        }
        lemma_sub_representation_reads_content_protections(t, i, x, s0);
        assert(content_protection_clean(c)) by {
            assert(c == s[s.len() - 1]);
        }
        let j = i + a.len();
        lemma_sub_representation_names();
        lemma_content_protection_reads(t, j, c);
        lemma_holds_index(t, j, b, 0);
        assert(b[0] == TokenV::Start(local_of("ContentProtection"@), None, attrs_as_read(content_protection_attrs(c))));
        lemma_views_push(s0, c);
        assert(x.content_protections + views(s) =~= (x.content_protections + views(s0)).push(c@));
    }
}

/// The written `audio_channel_configurations` items are read in order.
proof fn lemma_sub_representation_reads_audio_channel_configurations(t: Seq<TokenV>, i: int, x: SubRepresentationV, s: Seq<Descriptor>)
    requires
        holds_at(t, i, each_tokens(s, descriptor_tokens_fn("AudioChannelConfiguration"@))),
    ensures
        sub_representation_scan(t, i, x) == sub_representation_scan(t, i
            + each_tokens(s, descriptor_tokens_fn("AudioChannelConfiguration"@)).len(), SubRepresentationV { audio_channel_configurations: x.audio_channel_configurations
            + views(s), ..x }),
    decreases s.len(),
{
    reveal(each_tokens);
    if s.len() == 0 {
        assert(x.audio_channel_configurations + views(s) =~= x.audio_channel_configurations);
    } else {
        let s0 = s.drop_last();
        let c = s.last();
        let a = each_tokens(s0, descriptor_tokens_fn("AudioChannelConfiguration"@));
        let b = descriptor_tokens("AudioChannelConfiguration"@, c);
        lemma_holds_cat(t, i, a, b);
        lemma_sub_representation_reads_audio_channel_configurations(t, i, x, s0);
        let j = i + a.len();
        lemma_sub_representation_names();
        reveal(descriptor_inner_tokens);
        assert(b =~= seq![TokenV::Start(local_of("AudioChannelConfiguration"@),
            None,
            attrs_as_read(descriptor_attrs(c))),
            TokenV::End(local_of("AudioChannelConfiguration"@))]);
        lemma_holds_index(t, j, b, 0);
        lemma_holds_index(t, j, b, 1);
        law_descriptor_attributes_read_back(c);
        lemma_skip_empty(t, j + 1, local_of("AudioChannelConfiguration"@));
        lemma_views_push(s0, c);
        assert(x.audio_channel_configurations + views(s) =~= (x.audio_channel_configurations + views(s0)).push(c@));
    }
}

/// The written `frame_packings` items are read in order.
proof fn lemma_sub_representation_reads_frame_packings(t: Seq<TokenV>, i: int, x: SubRepresentationV, s: Seq<Descriptor>)
    requires
        holds_at(t, i, each_tokens(s, descriptor_tokens_fn("FramePacking"@))),
    ensures
        sub_representation_scan(t, i, x) == sub_representation_scan(t, i
            + each_tokens(s, descriptor_tokens_fn("FramePacking"@)).len(), SubRepresentationV { frame_packings: x.frame_packings
            + views(s), ..x }),
    decreases s.len(),
{
    reveal(each_tokens);
    if s.len() == 0 {
        assert(x.frame_packings + views(s) =~= x.frame_packings);
    } else {
        let s0 = s.drop_last();
        let c = s.last();
        let a = each_tokens(s0, descriptor_tokens_fn("FramePacking"@));
        let b = descriptor_tokens("FramePacking"@, c);
        lemma_holds_cat(t, i, a, b);
        lemma_sub_representation_reads_frame_packings(t, i, x, s0);
        let j = i + a.len();
        lemma_sub_representation_names();
        reveal(descriptor_inner_tokens);
        assert(b =~= seq![TokenV::Start(local_of("FramePacking"@), None, attrs_as_read(descriptor_attrs(c))), TokenV::End(local_of("FramePacking"@))]);
        lemma_holds_index(t, j, b, 0);
        lemma_holds_index(t, j, b, 1);
        law_descriptor_attributes_read_back(c);
        lemma_skip_empty(t, j + 1, local_of("FramePacking"@));
        lemma_views_push(s0, c);
        assert(x.frame_packings + views(s) =~= (x.frame_packings + views(s0)).push(c@));
    }
}

/// The written `inband_event_streams` items are read in order.
proof fn lemma_sub_representation_reads_inband_event_streams(t: Seq<TokenV>, i: int, x: SubRepresentationV, s: Seq<Descriptor>)
    requires
        holds_at(t, i, each_tokens(s, descriptor_tokens_fn("InbandEventStream"@))),
    ensures
        sub_representation_scan(t, i, x) == sub_representation_scan(t, i
            + each_tokens(s, descriptor_tokens_fn("InbandEventStream"@)).len(), SubRepresentationV { inband_event_streams: x.inband_event_streams
            + views(s), ..x }),
    decreases s.len(),
{
    reveal(each_tokens);
    if s.len() == 0 {
        assert(x.inband_event_streams + views(s) =~= x.inband_event_streams);
    } else {
        let s0 = s.drop_last();
        let c = s.last();
        let a = each_tokens(s0, descriptor_tokens_fn("InbandEventStream"@));
        let b = descriptor_tokens("InbandEventStream"@, c);
        lemma_holds_cat(t, i, a, b);
        lemma_sub_representation_reads_inband_event_streams(t, i, x, s0);
        let j = i + a.len();
        lemma_sub_representation_names();
        reveal(descriptor_inner_tokens);
        assert(b =~= seq![TokenV::Start(local_of("InbandEventStream"@),
            None,
            attrs_as_read(descriptor_attrs(c))),
            TokenV::End(local_of("InbandEventStream"@))]);
        lemma_holds_index(t, j, b, 0);
        lemma_holds_index(t, j, b, 1);
        law_descriptor_attributes_read_back(c);
        lemma_skip_empty(t, j + 1, local_of("InbandEventStream"@));
        lemma_views_push(s0, c);
        assert(x.inband_event_streams + views(s) =~= (x.inband_event_streams + views(s0)).push(c@));
    }
}

/// The written `essential_properties` items are read in order.
proof fn lemma_sub_representation_reads_essential_properties(t: Seq<TokenV>, i: int, x: SubRepresentationV, s: Seq<Descriptor>)
    requires
        holds_at(t, i, each_tokens(s, descriptor_tokens_fn("EssentialProperty"@))),
    ensures
        sub_representation_scan(t, i, x) == sub_representation_scan(t, i
            + each_tokens(s, descriptor_tokens_fn("EssentialProperty"@)).len(), SubRepresentationV { essential_properties: x.essential_properties
            + views(s), ..x }),
    decreases s.len(),
{
    reveal(each_tokens);
    if s.len() == 0 {
        assert(x.essential_properties + views(s) =~= x.essential_properties);
    } else {
        let s0 = s.drop_last();
        let c = s.last();
        let a = each_tokens(s0, descriptor_tokens_fn("EssentialProperty"@));
        let b = descriptor_tokens("EssentialProperty"@, c);
        lemma_holds_cat(t, i, a, b);
        lemma_sub_representation_reads_essential_properties(t, i, x, s0);
        let j = i + a.len();
        lemma_sub_representation_names();
        reveal(descriptor_inner_tokens);
        assert(b =~= seq![TokenV::Start(local_of("EssentialProperty"@),
            None,
            attrs_as_read(descriptor_attrs(c))),
            TokenV::End(local_of("EssentialProperty"@))]);
        lemma_holds_index(t, j, b, 0);
        lemma_holds_index(t, j, b, 1);
        law_descriptor_attributes_read_back(c);
        lemma_skip_empty(t, j + 1, local_of("EssentialProperty"@));
        lemma_views_push(s0, c);
        assert(x.essential_properties + views(s) =~= (x.essential_properties + views(s0)).push(c@));
    }
}

/// The written `supplemental_properties` items are read in order.
proof fn lemma_sub_representation_reads_supplemental_properties(t: Seq<TokenV>, i: int, x: SubRepresentationV, s: Seq<Descriptor>)
    requires
        holds_at(t, i, each_tokens(s, descriptor_tokens_fn("SupplementalProperty"@))),
    ensures
        sub_representation_scan(t, i, x) == sub_representation_scan(t, i
            + each_tokens(s, descriptor_tokens_fn("SupplementalProperty"@)).len(), SubRepresentationV { supplemental_properties: x.supplemental_properties
            + views(s), ..x }),
    decreases s.len(),
{
    reveal(each_tokens);
    if s.len() == 0 {
        assert(x.supplemental_properties + views(s) =~= x.supplemental_properties);
    } else {
        let s0 = s.drop_last();
        let c = s.last();
        let a = each_tokens(s0, descriptor_tokens_fn("SupplementalProperty"@));
        let b = descriptor_tokens("SupplementalProperty"@, c);
        lemma_holds_cat(t, i, a, b);
        lemma_sub_representation_reads_supplemental_properties(t, i, x, s0);
        let j = i + a.len();
        lemma_sub_representation_names();
        reveal(descriptor_inner_tokens);
        assert(b =~= seq![TokenV::Start(local_of("SupplementalProperty"@),
            None,
            attrs_as_read(descriptor_attrs(c))),
            TokenV::End(local_of("SupplementalProperty"@))]);
        lemma_holds_index(t, j, b, 0);
        lemma_holds_index(t, j, b, 1);
        law_descriptor_attributes_read_back(c);
        lemma_skip_empty(t, j + 1, local_of("SupplementalProperty"@));
        lemma_views_push(s0, c);
        assert(x.supplemental_properties + views(s) =~= (x.supplemental_properties + views(s0)).push(c@));
    }
}

/// The written `segment_sequence_properties` items are read in order.
proof fn lemma_sub_representation_reads_segment_sequence_properties(t: Seq<TokenV>, i: int, x: SubRepresentationV, s: Seq<SegmentSequenceProperties>)
    requires
        holds_at(t, i, each_tokens(s, segment_sequence_properties_tokens_fn())),
    ensures
        sub_representation_scan(t, i, x) == sub_representation_scan(t, i
            + each_tokens(s, segment_sequence_properties_tokens_fn()).len(), SubRepresentationV { segment_sequence_properties: x.segment_sequence_properties
            + views(s), ..x }),
    decreases s.len(),
{
    reveal(each_tokens);
    if s.len() == 0 {
        assert(x.segment_sequence_properties + views(s) =~= x.segment_sequence_properties);
    } else {
        let s0 = s.drop_last();
        let c = s.last();
        let a = each_tokens(s0, segment_sequence_properties_tokens_fn());
        let b = segment_sequence_properties_tokens(c);
        lemma_holds_cat(t, i, a, b);
        lemma_sub_representation_reads_segment_sequence_properties(t, i, x, s0);
        let j = i + a.len();
        lemma_sub_representation_names();
        reveal(segment_sequence_properties_inner_tokens);
        assert(b =~= seq![TokenV::Start(local_of("SegmentSequenceProperties"@),
            None,
            attrs_as_read(segment_sequence_properties_attrs(c))),
            TokenV::End(local_of("SegmentSequenceProperties"@))]);
        lemma_holds_index(t, j, b, 0);
        lemma_holds_index(t, j, b, 1);
        law_segment_sequence_properties_attributes_read_back(c);
        lemma_skip_empty(t, j + 1, local_of("SegmentSequenceProperties"@));
        lemma_views_push(s0, c);
        assert(x.segment_sequence_properties + views(s) =~= (x.segment_sequence_properties + views(s0)).push(c@));
    }
}

/// A written `SubRepresentation` element is read back whole, up to just after its end tag.
pub proof fn lemma_sub_representation_reads(t: Seq<TokenV>, i: int, s: SubRepresentation)
    requires
        holds_at(t, i, sub_representation_tokens(s)),
        sub_representation_clean(s),
    ensures
        sub_representation_at(t, i
            + 1, attrs_as_read(sub_representation_attrs(s))) == Ok::<(SubRepresentationV, int), ErrorKind>((s@, i
            + sub_representation_tokens(s).len())),
{
    reveal(sub_representation_at);
    reveal(sub_representation_inner_tokens);
    lemma_sub_representation_names();
    law_sub_representation_attributes_read_back(s);
    let g0 = each_tokens(s.content_protections@, content_protection_tokens_fn());
    let g1 = each_tokens(s.audio_channel_configurations@, descriptor_tokens_fn("AudioChannelConfiguration"@));
    let g2 = each_tokens(s.frame_packings@, descriptor_tokens_fn("FramePacking"@));
    let g3 = each_tokens(s.inband_event_streams@, descriptor_tokens_fn("InbandEventStream"@));
    let g4 = each_tokens(s.essential_properties@, descriptor_tokens_fn("EssentialProperty"@));
    let g5 = each_tokens(s.supplemental_properties@, descriptor_tokens_fn("SupplementalProperty"@));
    let g6 = each_tokens(s.segment_sequence_properties@, segment_sequence_properties_tokens_fn());
    let h1 = g0 + g1;
    let h2 = h1 + g2;
    let h3 = h2 + g3;
    let h4 = h3 + g4;
    let h5 = h4 + g5;
    let h6 = h5 + g6;
    let st = seq![TokenV::Start(local_of("SubRepresentation"@), None, attrs_as_read(sub_representation_attrs(s)))];
    let en = seq![TokenV::End(local_of("SubRepresentation"@))];
    assert(sub_representation_tokens(s) == st + h6 + en);
    lemma_holds_cat(t, i, st + h6, en);
    lemma_holds_cat(t, i, st, h6);
    lemma_holds_cat(t, i + 1, h5, g6);
    lemma_holds_cat(t, i + 1, h4, g5);
    lemma_holds_cat(t, i + 1, h3, g4);
    lemma_holds_cat(t, i + 1, h2, g3);
    lemma_holds_cat(t, i + 1, h1, g2);
    lemma_holds_cat(t, i + 1, g0, g1);
    let ghost x0 = SubRepresentationV { content_protections: seq![],
        audio_channel_configurations: seq![],
        frame_packings: seq![],
        inband_event_streams: seq![],
        essential_properties: seq![],
        supplemental_properties: seq![],
        segment_sequence_properties: seq![],
        ..s@ };
    let ghost q0 = i + 1;
    lemma_sub_representation_reads_content_protections(t, q0, x0, s.content_protections@);
    let ghost x1 = SubRepresentationV { content_protections: x0.content_protections + views(s.content_protections@), ..x0 };
    let ghost q1 = q0 + g0.len();
    lemma_sub_representation_reads_audio_channel_configurations(t, q1, x1, s.audio_channel_configurations@);
    let ghost x2 = SubRepresentationV { audio_channel_configurations: x1.audio_channel_configurations + views(s.audio_channel_configurations@), ..x1 };
    let ghost q2 = q1 + g1.len();
    lemma_sub_representation_reads_frame_packings(t, q2, x2, s.frame_packings@);
    let ghost x3 = SubRepresentationV { frame_packings: x2.frame_packings + views(s.frame_packings@), ..x2 };
    let ghost q3 = q2 + g2.len();
    lemma_sub_representation_reads_inband_event_streams(t, q3, x3, s.inband_event_streams@);
    let ghost x4 = SubRepresentationV { inband_event_streams: x3.inband_event_streams + views(s.inband_event_streams@), ..x3 };
    let ghost q4 = q3 + g3.len();
    lemma_sub_representation_reads_essential_properties(t, q4, x4, s.essential_properties@);
    let ghost x5 = SubRepresentationV { essential_properties: x4.essential_properties + views(s.essential_properties@), ..x4 };
    let ghost q5 = q4 + g4.len();
    lemma_sub_representation_reads_supplemental_properties(t, q5, x5, s.supplemental_properties@);
    let ghost x6 = SubRepresentationV { supplemental_properties: x5.supplemental_properties + views(s.supplemental_properties@), ..x5 };
    let ghost q6 = q5 + g5.len();
    lemma_sub_representation_reads_segment_sequence_properties(t, q6, x6, s.segment_sequence_properties@);
    let ghost x7 = SubRepresentationV { segment_sequence_properties: x6.segment_sequence_properties + views(s.segment_sequence_properties@), ..x6 };
    let ghost q7 = q6 + g6.len();
    lemma_holds_index(t, i + 1 + h6.len(), en, 0);
    assert(x0.content_protections + views(s.content_protections@) =~= views(s.content_protections@));
    assert(x0.audio_channel_configurations + views(s.audio_channel_configurations@) =~= views(s.audio_channel_configurations@));
    assert(x0.frame_packings + views(s.frame_packings@) =~= views(s.frame_packings@));
    assert(x0.inband_event_streams + views(s.inband_event_streams@) =~= views(s.inband_event_streams@));
    assert(x0.essential_properties + views(s.essential_properties@) =~= views(s.essential_properties@));
    assert(x0.supplemental_properties + views(s.supplemental_properties@) =~= views(s.supplemental_properties@));
    assert(x0.segment_sequence_properties + views(s.segment_sequence_properties@) =~= views(s.segment_sequence_properties@));
    assert(x7 == s@);
}

/// How the reader names the elements that the writer writes in `Representation`,
/// and how those names differ.
proof fn lemma_representation_names()
    ensures
        local_of("Representation"@) == "Representation"@,
        local_of("BaseURL"@) == "BaseURL"@,
        local_of("AudioChannelConfiguration"@) == "AudioChannelConfiguration"@,
        local_of("EssentialProperty"@) == "EssentialProperty"@,
        local_of("SupplementalProperty"@) == "SupplementalProperty"@,
        local_of("FramePacking"@) == "FramePacking"@,
        local_of("InbandEventStream"@) == "InbandEventStream"@,
        local_of("ProducerReferenceTime"@) == "ProducerReferenceTime"@,
        local_of("SegmentSequenceProperties"@) == "SegmentSequenceProperties"@,
        local_of("SubRepresentation"@) == "SubRepresentation"@,
        local_of("ContentProtection"@) == "ContentProtection"@,
        local_of("SegmentBase"@) == "SegmentBase"@,
        local_of("SegmentList"@) == "SegmentList"@,
        local_of("SegmentTemplate"@) == "SegmentTemplate"@,
        "Representation"@.len() == 14,
        "BaseURL"@.len() == 7,
        "AudioChannelConfiguration"@.len() == 25,
        "EssentialProperty"@.len() == 17,
        "SupplementalProperty"@.len() == 20,
        "FramePacking"@.len() == 12,
        "InbandEventStream"@.len() == 17,
        "ProducerReferenceTime"@.len() == 21,
        "SegmentSequenceProperties"@.len() == 25,
        "SubRepresentation"@.len() == 17,
        "SegmentBase"@.len() == 11,
        "SegmentList"@.len() == 11,
        "SegmentTemplate"@.len() == 15,
        "ContentProtection"@.len() == 17,
        "AudioChannelConfiguration"@[0] == 'A',
        "ContentProtection"@[0] == 'C',
        "EssentialProperty"@[0] == 'E',
        "InbandEventStream"@[0] == 'I',
        "SegmentBase"@[7] == 'B',
        "SegmentList"@[7] == 'L',
        "SegmentSequenceProperties"@[0] == 'S',
        "SubRepresentation"@[0] == 'S',
{
    reveal(local_of);
    reveal_with_fuel(first_index, 26);
    reveal_strlit("AudioChannelConfiguration");
    reveal_strlit("BaseURL");
    reveal_strlit("ContentProtection");
    reveal_strlit("EssentialProperty");
    reveal_strlit("FramePacking");
    reveal_strlit("InbandEventStream");
    reveal_strlit("ProducerReferenceTime");
    reveal_strlit("Representation");
    reveal_strlit("SegmentBase");
    reveal_strlit("SegmentList");
    reveal_strlit("SegmentSequenceProperties");
    reveal_strlit("SegmentTemplate");
    reveal_strlit("SubRepresentation");
    reveal_strlit("SupplementalProperty");
    assert("Representation"@.len() == 14);
    assert("BaseURL"@.len() == 7);
    assert("AudioChannelConfiguration"@.len() == 25);
    assert("EssentialProperty"@.len() == 17);
    assert("SupplementalProperty"@.len() == 20);
    assert("FramePacking"@.len() == 12);
    assert("InbandEventStream"@.len() == 17);
    assert("ProducerReferenceTime"@.len() == 21);
    assert("SegmentSequenceProperties"@.len() == 25);
    assert("SubRepresentation"@.len() == 17);
    assert("SegmentBase"@.len() == 11);
    assert("SegmentList"@.len() == 11);
    assert("SegmentTemplate"@.len() == 15);
    assert("ContentProtection"@.len() == 17);
}

/// The written `base_urls` items are read in order.
proof fn lemma_representation_reads_base_urls(t: Seq<TokenV>, i: int, x: RepresentationV, s: Seq<BaseUrl>)
    requires
        holds_at(t, i, each_tokens(s, base_url_tokens_fn())),
        forall|k: int| 0 <= k < s.len() ==> base_url_clean(#[trigger] s[k]),
    ensures
        representation_scan(t, i, x) == representation_scan(t, i
            + each_tokens(s, base_url_tokens_fn()).len(), RepresentationV { base_urls: x.base_urls
            + views(s), ..x }),
    decreases s.len(),
{
    reveal(each_tokens);
    if s.len() == 0 {
        assert(x.base_urls + views(s) =~= x.base_urls);
    } else {
        let s0 = s.drop_last();
        let c = s.last();
        let a = each_tokens(s0, base_url_tokens_fn());
        let b = base_url_tokens(c);
        lemma_holds_cat(t, i, a, b);
        assert forall|k: int| 0 <= k < s0.len() implies base_url_clean(#[trigger] s0[k]) by {
            assert(s0[k] == s[k]);
        }
        lemma_representation_reads_base_urls(t, i, x, s0);
        assert(base_url_clean(c)) by {
            assert(c == s[s.len() - 1]);
        }
        let j = i + a.len();
        lemma_representation_names();
        lemma_base_url_reads(t, j, c);
        lemma_holds_index(t, j, b, 0);
        assert(b[0] == TokenV::Start(local_of("BaseURL"@), None, attrs_as_read(base_url_attrs(c))));
        lemma_views_push(s0, c);
        assert(x.base_urls + views(s) =~= (x.base_urls + views(s0)).push(c@));
    }
}

/// The written `audio_channel_configurations` items are read in order.
proof fn lemma_representation_reads_audio_channel_configurations(t: Seq<TokenV>, i: int, x: RepresentationV, s: Seq<Descriptor>)
    requires
        holds_at(t, i, each_tokens(s, descriptor_tokens_fn("AudioChannelConfiguration"@))),
    ensures
        representation_scan(t, i, x) == representation_scan(t, i
            + each_tokens(s, descriptor_tokens_fn("AudioChannelConfiguration"@)).len(), RepresentationV { audio_channel_configurations: x.audio_channel_configurations
            + views(s), ..x }),
    decreases s.len(),
{
    reveal(each_tokens);
    if s.len() == 0 {
        assert(x.audio_channel_configurations + views(s) =~= x.audio_channel_configurations);
    } else {
        let s0 = s.drop_last();
        let c = s.last();
        let a = each_tokens(s0, descriptor_tokens_fn("AudioChannelConfiguration"@));
        let b = descriptor_tokens("AudioChannelConfiguration"@, c);
        lemma_holds_cat(t, i, a, b);
        lemma_representation_reads_audio_channel_configurations(t, i, x, s0);
        let j = i + a.len();
        lemma_representation_names();
        reveal(descriptor_inner_tokens);
        assert(b =~= seq![TokenV::Start(local_of("AudioChannelConfiguration"@),
            None,
            attrs_as_read(descriptor_attrs(c))),
            TokenV::End(local_of("AudioChannelConfiguration"@))]);
        lemma_holds_index(t, j, b, 0);
        lemma_holds_index(t, j, b, 1);
        law_descriptor_attributes_read_back(c);
        lemma_skip_empty(t, j + 1, local_of("AudioChannelConfiguration"@));
        lemma_views_push(s0, c);
        assert(x.audio_channel_configurations + views(s) =~= (x.audio_channel_configurations + views(s0)).push(c@));
    }
}

/// The written `essential_properties` items are read in order.
proof fn lemma_representation_reads_essential_properties(t: Seq<TokenV>, i: int, x: RepresentationV, s: Seq<Descriptor>)
    requires
        holds_at(t, i, each_tokens(s, descriptor_tokens_fn("EssentialProperty"@))),
    ensures
        representation_scan(t, i, x) == representation_scan(t, i
            + each_tokens(s, descriptor_tokens_fn("EssentialProperty"@)).len(), RepresentationV { essential_properties: x.essential_properties
            + views(s), ..x }),
    decreases s.len(),
{
    reveal(each_tokens);
    if s.len() == 0 {
        assert(x.essential_properties + views(s) =~= x.essential_properties);
    } else {
        let s0 = s.drop_last();
        let c = s.last();
        let a = each_tokens(s0, descriptor_tokens_fn("EssentialProperty"@));
        let b = descriptor_tokens("EssentialProperty"@, c);
        lemma_holds_cat(t, i, a, b);
        lemma_representation_reads_essential_properties(t, i, x, s0);
        let j = i + a.len();
        lemma_representation_names();
        reveal(descriptor_inner_tokens);
        assert(b =~= seq![TokenV::Start(local_of("EssentialProperty"@),
            None,
            attrs_as_read(descriptor_attrs(c))),
            TokenV::End(local_of("EssentialProperty"@))]);
        lemma_holds_index(t, j, b, 0);
        lemma_holds_index(t, j, b, 1);
        law_descriptor_attributes_read_back(c);
        lemma_skip_empty(t, j + 1, local_of("EssentialProperty"@));
        lemma_views_push(s0, c);
        assert(x.essential_properties + views(s) =~= (x.essential_properties + views(s0)).push(c@));
    }
}

/// The written `supplemental_properties` items are read in order.
proof fn lemma_representation_reads_supplemental_properties(t: Seq<TokenV>, i: int, x: RepresentationV, s: Seq<Descriptor>)
    requires
        holds_at(t, i, each_tokens(s, descriptor_tokens_fn("SupplementalProperty"@))),
    ensures
        representation_scan(t, i, x) == representation_scan(t, i
            + each_tokens(s, descriptor_tokens_fn("SupplementalProperty"@)).len(), RepresentationV { supplemental_properties: x.supplemental_properties
            + views(s), ..x }),
    decreases s.len(),
{
    reveal(each_tokens);
    if s.len() == 0 {
        assert(x.supplemental_properties + views(s) =~= x.supplemental_properties);
    } else {
        let s0 = s.drop_last();
        let c = s.last();
        let a = each_tokens(s0, descriptor_tokens_fn("SupplementalProperty"@));
        let b = descriptor_tokens("SupplementalProperty"@, c);
        lemma_holds_cat(t, i, a, b);
        lemma_representation_reads_supplemental_properties(t, i, x, s0);
        let j = i + a.len();
        lemma_representation_names();
        reveal(descriptor_inner_tokens);
        assert(b =~= seq![TokenV::Start(local_of("SupplementalProperty"@),
            None,
            attrs_as_read(descriptor_attrs(c))),
            TokenV::End(local_of("SupplementalProperty"@))]);
        lemma_holds_index(t, j, b, 0);
        lemma_holds_index(t, j, b, 1);
        law_descriptor_attributes_read_back(c);
        lemma_skip_empty(t, j + 1, local_of("SupplementalProperty"@));
        lemma_views_push(s0, c);
        assert(x.supplemental_properties + views(s) =~= (x.supplemental_properties + views(s0)).push(c@));
    }
}

/// The written `frame_packings` items are read in order.
proof fn lemma_representation_reads_frame_packings(t: Seq<TokenV>, i: int, x: RepresentationV, s: Seq<Descriptor>)
    requires
        holds_at(t, i, each_tokens(s, descriptor_tokens_fn("FramePacking"@))),
    ensures
        representation_scan(t, i, x) == representation_scan(t, i
            + each_tokens(s, descriptor_tokens_fn("FramePacking"@)).len(), RepresentationV { frame_packings: x.frame_packings
            + views(s), ..x }),
    decreases s.len(),
{
    reveal(each_tokens);
    if s.len() == 0 {
        assert(x.frame_packings + views(s) =~= x.frame_packings);
    } else {
        let s0 = s.drop_last();
        let c = s.last();
        let a = each_tokens(s0, descriptor_tokens_fn("FramePacking"@));
        let b = descriptor_tokens("FramePacking"@, c);
        lemma_holds_cat(t, i, a, b);
        lemma_representation_reads_frame_packings(t, i, x, s0);
        let j = i + a.len();
        lemma_representation_names();
        reveal(descriptor_inner_tokens);
        assert(b =~= seq![TokenV::Start(local_of("FramePacking"@), None, attrs_as_read(descriptor_attrs(c))), TokenV::End(local_of("FramePacking"@))]);
        lemma_holds_index(t, j, b, 0);
        lemma_holds_index(t, j, b, 1);
        law_descriptor_attributes_read_back(c);
        lemma_skip_empty(t, j + 1, local_of("FramePacking"@));
        lemma_views_push(s0, c);
        assert(x.frame_packings + views(s) =~= (x.frame_packings + views(s0)).push(c@));
    }
}

/// The written `inband_event_streams` items are read in order.
proof fn lemma_representation_reads_inband_event_streams(t: Seq<TokenV>, i: int, x: RepresentationV, s: Seq<Descriptor>)
    requires
        holds_at(t, i, each_tokens(s, descriptor_tokens_fn("InbandEventStream"@))),
    ensures
        representation_scan(t, i, x) == representation_scan(t, i
            + each_tokens(s, descriptor_tokens_fn("InbandEventStream"@)).len(), RepresentationV { inband_event_streams: x.inband_event_streams
            + views(s), ..x }),
    decreases s.len(),
{
    reveal(each_tokens);
    if s.len() == 0 {
        assert(x.inband_event_streams + views(s) =~= x.inband_event_streams);
    } else {
        let s0 = s.drop_last();
        let c = s.last();
        let a = each_tokens(s0, descriptor_tokens_fn("InbandEventStream"@));
        let b = descriptor_tokens("InbandEventStream"@, c);
        lemma_holds_cat(t, i, a, b);
        lemma_representation_reads_inband_event_streams(t, i, x, s0);
        let j = i + a.len();
        lemma_representation_names();
        reveal(descriptor_inner_tokens);
        assert(b =~= seq![TokenV::Start(local_of("InbandEventStream"@),
            None,
            attrs_as_read(descriptor_attrs(c))),
            TokenV::End(local_of("InbandEventStream"@))]);
        lemma_holds_index(t, j, b, 0);
        lemma_holds_index(t, j, b, 1);
        law_descriptor_attributes_read_back(c);
        lemma_skip_empty(t, j + 1, local_of("InbandEventStream"@));
        lemma_views_push(s0, c);
        assert(x.inband_event_streams + views(s) =~= (x.inband_event_streams + views(s0)).push(c@));
    }
}

/// The written `producer_reference_times` items are read in order.
proof fn lemma_representation_reads_producer_reference_times(t: Seq<TokenV>, i: int, x: RepresentationV, s: Seq<ProducerReferenceTime>)
    requires
        holds_at(t, i, each_tokens(s, producer_reference_time_tokens_fn())),
    ensures
        representation_scan(t, i, x) == representation_scan(t, i
            + each_tokens(s, producer_reference_time_tokens_fn()).len(), RepresentationV { producer_reference_times: x.producer_reference_times
            + views(s), ..x }),
    decreases s.len(),
{
    reveal(each_tokens);
    if s.len() == 0 {
        assert(x.producer_reference_times + views(s) =~= x.producer_reference_times);
    } else {
        let s0 = s.drop_last();
        let c = s.last();
        let a = each_tokens(s0, producer_reference_time_tokens_fn());
        let b = producer_reference_time_tokens(c);
        lemma_holds_cat(t, i, a, b);
        lemma_representation_reads_producer_reference_times(t, i, x, s0);
        let j = i + a.len();
        lemma_representation_names();
        lemma_producer_reference_time_reads(t, j, c);
        lemma_holds_index(t, j, b, 0);
        assert(b[0] == TokenV::Start(local_of("ProducerReferenceTime"@), None, attrs_as_read(producer_reference_time_attrs(c))));
        lemma_views_push(s0, c);
        assert(x.producer_reference_times + views(s) =~= (x.producer_reference_times + views(s0)).push(c@));
    }
}

/// The written `segment_sequence_properties` items are read in order.
proof fn lemma_representation_reads_segment_sequence_properties(t: Seq<TokenV>, i: int, x: RepresentationV, s: Seq<SegmentSequenceProperties>)
    requires
        holds_at(t, i, each_tokens(s, segment_sequence_properties_tokens_fn())),
    ensures
        representation_scan(t, i, x) == representation_scan(t, i
            + each_tokens(s, segment_sequence_properties_tokens_fn()).len(), RepresentationV { segment_sequence_properties: x.segment_sequence_properties
            + views(s), ..x }),
    decreases s.len(),
{
    reveal(each_tokens);
    if s.len() == 0 {
        assert(x.segment_sequence_properties + views(s) =~= x.segment_sequence_properties);
    } else {
        let s0 = s.drop_last();
        let c = s.last();
        let a = each_tokens(s0, segment_sequence_properties_tokens_fn());
        let b = segment_sequence_properties_tokens(c);
        lemma_holds_cat(t, i, a, b);
        lemma_representation_reads_segment_sequence_properties(t, i, x, s0);
        let j = i + a.len();
        lemma_representation_names();
        reveal(segment_sequence_properties_inner_tokens);
        assert(b =~= seq![TokenV::Start(local_of("SegmentSequenceProperties"@),
            None,
            attrs_as_read(segment_sequence_properties_attrs(c))),
            TokenV::End(local_of("SegmentSequenceProperties"@))]);
        lemma_holds_index(t, j, b, 0);
        lemma_holds_index(t, j, b, 1);
        law_segment_sequence_properties_attributes_read_back(c);
        lemma_skip_empty(t, j + 1, local_of("SegmentSequenceProperties"@));
        lemma_views_push(s0, c);
        assert(x.segment_sequence_properties + views(s) =~= (x.segment_sequence_properties + views(s0)).push(c@));
    }
}

/// The written `sub_representations` items are read in order.
proof fn lemma_representation_reads_sub_representations(t: Seq<TokenV>, i: int, x: RepresentationV, s: Seq<SubRepresentation>)
    requires
        holds_at(t, i, each_tokens(s, sub_representation_tokens_fn())),
        forall|k: int| 0 <= k < s.len() ==> sub_representation_clean(#[trigger] s[k]),
    ensures
        representation_scan(t, i, x) == representation_scan(t, i
            + each_tokens(s, sub_representation_tokens_fn()).len(), RepresentationV { sub_representations: x.sub_representations
            + views(s), ..x }),
    decreases s.len(),
{
    reveal(each_tokens);
    if s.len() == 0 {
        assert(x.sub_representations + views(s) =~= x.sub_representations);
    } else {
        let s0 = s.drop_last();
        let c = s.last();
        let a = each_tokens(s0, sub_representation_tokens_fn());
        let b = sub_representation_tokens(c);
        lemma_holds_cat(t, i, a, b);
        assert forall|k: int| 0 <= k < s0.len() implies sub_representation_clean(#[trigger] s0[k]) by {
            assert(s0[k] == s[k]);
        }
        lemma_representation_reads_sub_representations(t, i, x, s0);
        assert(sub_representation_clean(c)) by {
            assert(c == s[s.len() - 1]);
        }
        let j = i + a.len();
        lemma_representation_names();
        lemma_sub_representation_reads(t, j, c);
        lemma_holds_index(t, j, b, 0);
        assert(b[0] == TokenV::Start(local_of("SubRepresentation"@), None, attrs_as_read(sub_representation_attrs(c))));
        lemma_views_push(s0, c);
        assert(x.sub_representations + views(s) =~= (x.sub_representations + views(s0)).push(c@));
    }
}

/// The written `content_protections` items are read in order.
proof fn lemma_representation_reads_content_protections(t: Seq<TokenV>, i: int, x: RepresentationV, s: Seq<ContentProtection>)
    requires
        holds_at(t, i, each_tokens(s, content_protection_tokens_fn())),
        forall|k: int| 0 <= k < s.len() ==> content_protection_clean(#[trigger] s[k]),
    ensures
        representation_scan(t, i, x) == representation_scan(t, i
            + each_tokens(s, content_protection_tokens_fn()).len(), RepresentationV { content_protections: x.content_protections
            + views(s), ..x }),
    decreases s.len(),
{
    reveal(each_tokens);
    if s.len() == 0 {
        assert(x.content_protections + views(s) =~= x.content_protections);
    } else {
        let s0 = s.drop_last();
        let c = s.last();
        let a = each_tokens(s0, content_protection_tokens_fn());
        let b = content_protection_tokens(c);
        lemma_holds_cat(t, i, a, b);
        assert forall|k: int| 0 <= k < s0.len() implies content_protection_clean(#[trigger] s0[k]) by {
            assert(s0[k] == s[k]);
        }
        lemma_representation_reads_content_protections(t, i, x, s0);
        assert(content_protection_clean(c)) by {
            assert(c == s[s.len() - 1]);
        }
        let j = i + a.len();
        lemma_representation_names();
        lemma_content_protection_reads(t, j, c);
        lemma_holds_index(t, j, b, 0);
        assert(b[0] == TokenV::Start(local_of("ContentProtection"@), None, attrs_as_read(content_protection_attrs(c))));
        lemma_views_push(s0, c);
        assert(x.content_protections + views(s) =~= (x.content_protections + views(s0)).push(c@));
    }
}

/// The written `segment_base`, when present, is read.
proof fn lemma_representation_reads_segment_base(t: Seq<TokenV>, i: int, x: RepresentationV, o: Option<SegmentBase>)
    requires
        holds_at(t, i, opt_tokens(o, segment_base_tokens_fn())),
    ensures
        representation_scan(t, i, x) == representation_scan(t, i + opt_tokens(o, segment_base_tokens_fn()).len(), match o {
            Some(c) => RepresentationV { segment_base: Some(c@), ..x },
            None => x,
        }),
{
    reveal(opt_tokens);
    if let Some(c) = o {
        let b = segment_base_tokens(c);
        lemma_representation_names();
        lemma_segment_base_reads(t, i, c);
        lemma_holds_index(t, i, b, 0);
        assert(b[0] == TokenV::Start(local_of("SegmentBase"@), None, attrs_as_read(segment_base_attrs(c))));
    }
}

/// The written `segment_list`, when present, is read.
proof fn lemma_representation_reads_segment_list(t: Seq<TokenV>, i: int, x: RepresentationV, o: Option<SegmentList>)
    requires
        holds_at(t, i, opt_tokens(o, segment_list_tokens_fn())),
    ensures
        representation_scan(t, i, x) == representation_scan(t, i + opt_tokens(o, segment_list_tokens_fn()).len(), match o {
            Some(c) => RepresentationV { segment_list: Some(c@), ..x },
            None => x,
        }),
{
    reveal(opt_tokens);
    if let Some(c) = o {
        let b = segment_list_tokens(c);
        lemma_representation_names();
        lemma_segment_list_reads(t, i, c);
        lemma_holds_index(t, i, b, 0);
        assert(b[0] == TokenV::Start(local_of("SegmentList"@), None, attrs_as_read(segment_list_attrs(c))));
    }
}

/// The written `segment_template`, when present, is read.
proof fn lemma_representation_reads_segment_template(t: Seq<TokenV>, i: int, x: RepresentationV, o: Option<SegmentTemplate>)
    requires
        holds_at(t, i, opt_tokens(o, segment_template_tokens_fn())),
    ensures
        representation_scan(t, i, x) == representation_scan(t, i + opt_tokens(o, segment_template_tokens_fn()).len(), match o {
            Some(c) => RepresentationV { segment_template: Some(c@), ..x },
            None => x,
        }),
{
    reveal(opt_tokens);
    if let Some(c) = o {
        let b = segment_template_tokens(c);
        lemma_representation_names();
        lemma_segment_template_reads(t, i, c);
        lemma_holds_index(t, i, b, 0);
        assert(b[0] == TokenV::Start(local_of("SegmentTemplate"@), None, attrs_as_read(segment_template_attrs(c))));
    }
}

/// A written `Representation` element is read back whole, up to just after its end tag.
#[verifier::rlimit(60)]
pub proof fn lemma_representation_reads(t: Seq<TokenV>, i: int, r: Representation)
    requires
        holds_at(t, i, representation_tokens(r)),
        representation_clean(r),
    ensures
        representation_at(t, i
            + 1, attrs_as_read(representation_attrs(r))) == Ok::<(RepresentationV, int), ErrorKind>((r@, i
            + representation_tokens(r).len())),
{
    reveal(representation_at);
    reveal(representation_inner_tokens);
    lemma_representation_names();
    law_representation_attributes_read_back(r);
    let g0 = each_tokens(r.base_urls@, base_url_tokens_fn());
    let g1 = each_tokens(r.audio_channel_configurations@, descriptor_tokens_fn("AudioChannelConfiguration"@));
    let g2 = each_tokens(r.essential_properties@, descriptor_tokens_fn("EssentialProperty"@));
    let g3 = each_tokens(r.supplemental_properties@, descriptor_tokens_fn("SupplementalProperty"@));
    let g4 = each_tokens(r.frame_packings@, descriptor_tokens_fn("FramePacking"@));
    let g5 = each_tokens(r.inband_event_streams@, descriptor_tokens_fn("InbandEventStream"@));
    let g6 = each_tokens(r.producer_reference_times@, producer_reference_time_tokens_fn());
    let g7 = each_tokens(r.segment_sequence_properties@, segment_sequence_properties_tokens_fn());
    let g8 = each_tokens(r.sub_representations@, sub_representation_tokens_fn());
    let g9 = each_tokens(r.content_protections@, content_protection_tokens_fn());
    let g10 = opt_tokens(r.segment_base, segment_base_tokens_fn());
    let g11 = opt_tokens(r.segment_list, segment_list_tokens_fn());
    let g12 = opt_tokens(r.segment_template, segment_template_tokens_fn());
    let h1 = g0 + g1;
    let h2 = h1 + g2;
    let h3 = h2 + g3;
    let h4 = h3 + g4;
    let h5 = h4 + g5;
    let h6 = h5 + g6;
    let h7 = h6 + g7;
    let h8 = h7 + g8;
    let h9 = h8 + g9;
    let h10 = h9 + g10;
    let h11 = h10 + g11;
    let h12 = h11 + g12;
    let st = seq![TokenV::Start(local_of("Representation"@), None, attrs_as_read(representation_attrs(r)))];
    let en = seq![TokenV::End(local_of("Representation"@))];
    assert(representation_tokens(r) == st + h12 + en);
    lemma_holds_cat(t, i, st + h12, en);
    lemma_holds_cat(t, i, st, h12);
    lemma_holds_cat(t, i + 1, h11, g12);
    lemma_holds_cat(t, i + 1, h10, g11);
    lemma_holds_cat(t, i + 1, h9, g10);
    lemma_holds_cat(t, i + 1, h8, g9);
    lemma_holds_cat(t, i + 1, h7, g8);
    lemma_holds_cat(t, i + 1, h6, g7);
    lemma_holds_cat(t, i + 1, h5, g6);
    lemma_holds_cat(t, i + 1, h4, g5);
    lemma_holds_cat(t, i + 1, h3, g4);
    lemma_holds_cat(t, i + 1, h2, g3);
    lemma_holds_cat(t, i + 1, h1, g2);
    lemma_holds_cat(t, i + 1, g0, g1);
    let ghost x0 = RepresentationV { base_urls: seq![],
        audio_channel_configurations: seq![],
        essential_properties: seq![],
        supplemental_properties: seq![],
        frame_packings: seq![],
        inband_event_streams: seq![],
        producer_reference_times: seq![],
        segment_sequence_properties: seq![],
        sub_representations: seq![],
        segment_base: None,
        segment_list: None,
        segment_template: None,
        content_protections: seq![],
        ..r@ };
    let ghost q0 = i + 1;
    lemma_representation_reads_base_urls(t, q0, x0, r.base_urls@);
    let ghost x1 = RepresentationV { base_urls: x0.base_urls + views(r.base_urls@), ..x0 };
    let ghost q1 = q0 + g0.len();
    lemma_representation_reads_audio_channel_configurations(t, q1, x1, r.audio_channel_configurations@);
    let ghost x2 = RepresentationV { audio_channel_configurations: x1.audio_channel_configurations + views(r.audio_channel_configurations@), ..x1 };
    let ghost q2 = q1 + g1.len();
    lemma_representation_reads_essential_properties(t, q2, x2, r.essential_properties@);
    let ghost x3 = RepresentationV { essential_properties: x2.essential_properties + views(r.essential_properties@), ..x2 };
    let ghost q3 = q2 + g2.len();
    lemma_representation_reads_supplemental_properties(t, q3, x3, r.supplemental_properties@);
    let ghost x4 = RepresentationV { supplemental_properties: x3.supplemental_properties + views(r.supplemental_properties@), ..x3 };
    let ghost q4 = q3 + g3.len();
    lemma_representation_reads_frame_packings(t, q4, x4, r.frame_packings@);
    let ghost x5 = RepresentationV { frame_packings: x4.frame_packings + views(r.frame_packings@), ..x4 };
    let ghost q5 = q4 + g4.len();
    lemma_representation_reads_inband_event_streams(t, q5, x5, r.inband_event_streams@);
    let ghost x6 = RepresentationV { inband_event_streams: x5.inband_event_streams + views(r.inband_event_streams@), ..x5 };
    let ghost q6 = q5 + g5.len();
    lemma_representation_reads_producer_reference_times(t, q6, x6, r.producer_reference_times@);
    let ghost x7 = RepresentationV { producer_reference_times: x6.producer_reference_times + views(r.producer_reference_times@), ..x6 };
    let ghost q7 = q6 + g6.len();
    lemma_representation_reads_segment_sequence_properties(t, q7, x7, r.segment_sequence_properties@);
    let ghost x8 = RepresentationV { segment_sequence_properties: x7.segment_sequence_properties + views(r.segment_sequence_properties@), ..x7 };
    let ghost q8 = q7 + g7.len();
    lemma_representation_reads_sub_representations(t, q8, x8, r.sub_representations@);
    let ghost x9 = RepresentationV { sub_representations: x8.sub_representations + views(r.sub_representations@), ..x8 };
    let ghost q9 = q8 + g8.len();
    lemma_representation_reads_content_protections(t, q9, x9, r.content_protections@);
    let ghost x10 = RepresentationV { content_protections: x9.content_protections + views(r.content_protections@), ..x9 };
    let ghost q10 = q9 + g9.len();
    lemma_representation_reads_segment_base(t, q10, x10, r.segment_base);
    let ghost x11 = match r.segment_base { Some(c) => RepresentationV { segment_base: Some(c@), ..x10 }, None => x10 };
    let ghost q11 = q10 + g10.len();
    lemma_representation_reads_segment_list(t, q11, x11, r.segment_list);
    let ghost x12 = match r.segment_list { Some(c) => RepresentationV { segment_list: Some(c@), ..x11 }, None => x11 };
    let ghost q12 = q11 + g11.len();
    lemma_representation_reads_segment_template(t, q12, x12, r.segment_template);
    let ghost x13 = match r.segment_template { Some(c) => RepresentationV { segment_template: Some(c@), ..x12 }, None => x12 };
    let ghost q13 = q12 + g12.len();
    lemma_holds_index(t, i + 1 + h12.len(), en, 0);
    assert(x0.base_urls + views(r.base_urls@) =~= views(r.base_urls@));
    assert(x0.audio_channel_configurations + views(r.audio_channel_configurations@) =~= views(r.audio_channel_configurations@));
    assert(x0.essential_properties + views(r.essential_properties@) =~= views(r.essential_properties@));
    assert(x0.supplemental_properties + views(r.supplemental_properties@) =~= views(r.supplemental_properties@));
    assert(x0.frame_packings + views(r.frame_packings@) =~= views(r.frame_packings@));
    assert(x0.inband_event_streams + views(r.inband_event_streams@) =~= views(r.inband_event_streams@));
    assert(x0.producer_reference_times + views(r.producer_reference_times@) =~= views(r.producer_reference_times@));
    assert(x0.segment_sequence_properties + views(r.segment_sequence_properties@) =~= views(r.segment_sequence_properties@));
    assert(x0.sub_representations + views(r.sub_representations@) =~= views(r.sub_representations@));
    assert(x0.content_protections + views(r.content_protections@) =~= views(r.content_protections@));
    assert(x13 == r@);
}

/// How the reader names the elements that the writer writes in `AdaptationSet`,
/// and how those names differ.
proof fn lemma_adaptation_set_names()
    ensures
        local_of("AdaptationSet"@) == "AdaptationSet"@,
        local_of("BaseURL"@) == "BaseURL"@,
        local_of("Role"@) == "Role"@,
        local_of("Accessibility"@) == "Accessibility"@,
        local_of("AudioChannelConfiguration"@) == "AudioChannelConfiguration"@,
        local_of("Label"@) == "Label"@,
        local_of("GroupLabel"@) == "GroupLabel"@,
        local_of("EssentialProperty"@) == "EssentialProperty"@,
        local_of("SupplementalProperty"@) == "SupplementalProperty"@,
        local_of("Viewpoint"@) == "Viewpoint"@,
        local_of("FramePacking"@) == "FramePacking"@,
        local_of("InbandEventStream"@) == "InbandEventStream"@,
        local_of("ProducerReferenceTime"@) == "ProducerReferenceTime"@,
        local_of("ContentComponent"@) == "ContentComponent"@,
        local_of("SegmentSequenceProperties"@) == "SegmentSequenceProperties"@,
        local_of("EventStream"@) == "EventStream"@,
        local_of("ContentProtection"@) == "ContentProtection"@,
        local_of("SegmentBase"@) == "SegmentBase"@,
        local_of("SegmentList"@) == "SegmentList"@,
        local_of("SegmentTemplate"@) == "SegmentTemplate"@,
        local_of("Representation"@) == "Representation"@,
        "AdaptationSet"@.len() == 13,
        "BaseURL"@.len() == 7,
        "EventStream"@.len() == 11,
        "Role"@.len() == 4,
        "Accessibility"@.len() == 13,
        "AudioChannelConfiguration"@.len() == 25,
        "Label"@.len() == 5,
        "GroupLabel"@.len() == 10,
        "EssentialProperty"@.len() == 17,
        "SupplementalProperty"@.len() == 20,
        "Viewpoint"@.len() == 9,
        "FramePacking"@.len() == 12,
        "InbandEventStream"@.len() == 17,
        "ProducerReferenceTime"@.len() == 21,
        "ContentComponent"@.len() == 16,
        "SegmentSequenceProperties"@.len() == 25,
        "SegmentBase"@.len() == 11,
        "SegmentList"@.len() == 11,
        "SegmentTemplate"@.len() == 15,
        "ContentProtection"@.len() == 17,
        "Representation"@.len() == 14,
        "Accessibility"@[1] == 'c',
        "AdaptationSet"@[1] == 'd',
        "AudioChannelConfiguration"@[0] == 'A',
        "ContentProtection"@[0] == 'C',
        "EssentialProperty"@[0] == 'E',
        "EventStream"@[0] == 'E',
        "InbandEventStream"@[0] == 'I',
        "SegmentBase"@[0] == 'S',
        "SegmentBase"@[7] == 'B',
        "SegmentList"@[0] == 'S',
        "SegmentList"@[7] == 'L',
        "SegmentSequenceProperties"@[0] == 'S',
{
    reveal(local_of);
    reveal_with_fuel(first_index, 26);
    reveal_strlit("Accessibility");
    reveal_strlit("AdaptationSet");
    reveal_strlit("AudioChannelConfiguration");
    reveal_strlit("BaseURL");
    reveal_strlit("ContentComponent");
    reveal_strlit("ContentProtection");
    reveal_strlit("EssentialProperty");
    reveal_strlit("EventStream");
    reveal_strlit("FramePacking");
    reveal_strlit("GroupLabel");
    reveal_strlit("InbandEventStream");
    reveal_strlit("Label");
    reveal_strlit("ProducerReferenceTime");
    reveal_strlit("Representation");
    reveal_strlit("Role");
    reveal_strlit("SegmentBase");
    reveal_strlit("SegmentList");
    reveal_strlit("SegmentSequenceProperties");
    reveal_strlit("SegmentTemplate");
    reveal_strlit("SupplementalProperty");
    reveal_strlit("Viewpoint");
    assert("AdaptationSet"@.len() == 13);
    assert("BaseURL"@.len() == 7);
    assert("EventStream"@.len() == 11);
    assert("Role"@.len() == 4);
    assert("Accessibility"@.len() == 13);
    assert("AudioChannelConfiguration"@.len() == 25);
    assert("Label"@.len() == 5);
    assert("GroupLabel"@.len() == 10);
    assert("EssentialProperty"@.len() == 17);
    assert("SupplementalProperty"@.len() == 20);
    assert("Viewpoint"@.len() == 9);
    assert("FramePacking"@.len() == 12);
    assert("InbandEventStream"@.len() == 17);
    assert("ProducerReferenceTime"@.len() == 21);
    assert("ContentComponent"@.len() == 16);
    assert("SegmentSequenceProperties"@.len() == 25);
    assert("SegmentBase"@.len() == 11);
    assert("SegmentList"@.len() == 11);
    assert("SegmentTemplate"@.len() == 15);
    assert("ContentProtection"@.len() == 17);
    assert("Representation"@.len() == 14);
}

/// The written `base_urls` items are read in order.
proof fn lemma_adaptation_set_reads_base_urls(t: Seq<TokenV>, i: int, x: AdaptationSetV, s: Seq<BaseUrl>)
    requires
        holds_at(t, i, each_tokens(s, base_url_tokens_fn())),
        forall|k: int| 0 <= k < s.len() ==> base_url_clean(#[trigger] s[k]),
    ensures
        adaptation_set_scan(t, i, x) == adaptation_set_scan(t, i
            + each_tokens(s, base_url_tokens_fn()).len(), AdaptationSetV { base_urls: x.base_urls
            + views(s), ..x }),
    decreases s.len(),
{
    reveal(each_tokens);
    if s.len() == 0 {
        assert(x.base_urls + views(s) =~= x.base_urls);
    } else {
        let s0 = s.drop_last();
        let c = s.last();
        let a = each_tokens(s0, base_url_tokens_fn());
        let b = base_url_tokens(c);
        lemma_holds_cat(t, i, a, b);
        assert forall|k: int| 0 <= k < s0.len() implies base_url_clean(#[trigger] s0[k]) by {
            assert(s0[k] == s[k]);
        }
        lemma_adaptation_set_reads_base_urls(t, i, x, s0);
        assert(base_url_clean(c)) by {
            assert(c == s[s.len() - 1]);
        }
        let j = i + a.len();
        lemma_adaptation_set_names();
        lemma_base_url_reads(t, j, c);
        lemma_holds_index(t, j, b, 0);
        assert(b[0] == TokenV::Start(local_of("BaseURL"@), None, attrs_as_read(base_url_attrs(c))));
        lemma_views_push(s0, c);
        assert(x.base_urls + views(s) =~= (x.base_urls + views(s0)).push(c@));
    }
}

/// The written `roles` items are read in order.
proof fn lemma_adaptation_set_reads_roles(t: Seq<TokenV>, i: int, x: AdaptationSetV, s: Seq<Descriptor>)
    requires
        holds_at(t, i, each_tokens(s, descriptor_tokens_fn("Role"@))),
    ensures
        adaptation_set_scan(t, i, x) == adaptation_set_scan(t, i
            + each_tokens(s, descriptor_tokens_fn("Role"@)).len(), AdaptationSetV { roles: x.roles
            + views(s), ..x }),
    decreases s.len(),
{
    reveal(each_tokens);
    if s.len() == 0 {
        assert(x.roles + views(s) =~= x.roles);
    } else {
        let s0 = s.drop_last();
        let c = s.last();
        let a = each_tokens(s0, descriptor_tokens_fn("Role"@));
        let b = descriptor_tokens("Role"@, c);
        lemma_holds_cat(t, i, a, b);
        lemma_adaptation_set_reads_roles(t, i, x, s0);
        let j = i + a.len();
        lemma_adaptation_set_names();
        reveal(descriptor_inner_tokens);
        assert(b =~= seq![TokenV::Start(local_of("Role"@), None, attrs_as_read(descriptor_attrs(c))), TokenV::End(local_of("Role"@))]);
        lemma_holds_index(t, j, b, 0);
        lemma_holds_index(t, j, b, 1);
        law_descriptor_attributes_read_back(c);
        lemma_skip_empty(t, j + 1, local_of("Role"@));
        lemma_views_push(s0, c);
        assert(x.roles + views(s) =~= (x.roles + views(s0)).push(c@));
    }
}

/// The written `accessibilities` items are read in order.
proof fn lemma_adaptation_set_reads_accessibilities(t: Seq<TokenV>, i: int, x: AdaptationSetV, s: Seq<Descriptor>)
    requires
        holds_at(t, i, each_tokens(s, descriptor_tokens_fn("Accessibility"@))),
    ensures
        adaptation_set_scan(t, i, x) == adaptation_set_scan(t, i
            + each_tokens(s, descriptor_tokens_fn("Accessibility"@)).len(), AdaptationSetV { accessibilities: x.accessibilities
            + views(s), ..x }),
    decreases s.len(),
{
    reveal(each_tokens);
    if s.len() == 0 {
        assert(x.accessibilities + views(s) =~= x.accessibilities);
    } else {
        let s0 = s.drop_last();
        let c = s.last();
        let a = each_tokens(s0, descriptor_tokens_fn("Accessibility"@));
        let b = descriptor_tokens("Accessibility"@, c);
        lemma_holds_cat(t, i, a, b);
        lemma_adaptation_set_reads_accessibilities(t, i, x, s0);
        let j = i + a.len();
        lemma_adaptation_set_names();
        reveal(descriptor_inner_tokens);
        assert(b =~= seq![TokenV::Start(local_of("Accessibility"@), None, attrs_as_read(descriptor_attrs(c))), TokenV::End(local_of("Accessibility"@))]);
        lemma_holds_index(t, j, b, 0);
        lemma_holds_index(t, j, b, 1);
        law_descriptor_attributes_read_back(c);
        lemma_skip_empty(t, j + 1, local_of("Accessibility"@));
        lemma_views_push(s0, c);
        assert(x.accessibilities + views(s) =~= (x.accessibilities + views(s0)).push(c@));
    }
}

/// The written `audio_channel_configurations` items are read in order.
proof fn lemma_adaptation_set_reads_audio_channel_configurations(t: Seq<TokenV>, i: int, x: AdaptationSetV, s: Seq<Descriptor>)
    requires
        holds_at(t, i, each_tokens(s, descriptor_tokens_fn("AudioChannelConfiguration"@))),
    ensures
        adaptation_set_scan(t, i, x) == adaptation_set_scan(t, i
            + each_tokens(s, descriptor_tokens_fn("AudioChannelConfiguration"@)).len(), AdaptationSetV { audio_channel_configurations: x.audio_channel_configurations
            + views(s), ..x }),
    decreases s.len(),
{
    reveal(each_tokens);
    if s.len() == 0 {
        assert(x.audio_channel_configurations + views(s) =~= x.audio_channel_configurations);
    } else {
        let s0 = s.drop_last();
        let c = s.last();
        let a = each_tokens(s0, descriptor_tokens_fn("AudioChannelConfiguration"@));
        let b = descriptor_tokens("AudioChannelConfiguration"@, c);
        lemma_holds_cat(t, i, a, b);
        lemma_adaptation_set_reads_audio_channel_configurations(t, i, x, s0);
        let j = i + a.len();
        lemma_adaptation_set_names();
        reveal(descriptor_inner_tokens);
        assert(b =~= seq![TokenV::Start(local_of("AudioChannelConfiguration"@),
            None,
            attrs_as_read(descriptor_attrs(c))),
            TokenV::End(local_of("AudioChannelConfiguration"@))]);
        lemma_holds_index(t, j, b, 0);
        lemma_holds_index(t, j, b, 1);
        law_descriptor_attributes_read_back(c);
        lemma_skip_empty(t, j + 1, local_of("AudioChannelConfiguration"@));
        lemma_views_push(s0, c);
        assert(x.audio_channel_configurations + views(s) =~= (x.audio_channel_configurations + views(s0)).push(c@));
    }
}

/// The written `labels` items are read in order.
proof fn lemma_adaptation_set_reads_labels(t: Seq<TokenV>, i: int, x: AdaptationSetV, s: Seq<Label>)
    requires
        holds_at(t, i, each_tokens(s, label_tokens_fn("Label"@))),
        forall|k: int| 0 <= k < s.len() ==> label_clean(#[trigger] s[k]),
    ensures
        adaptation_set_scan(t, i, x) == adaptation_set_scan(t, i
            + each_tokens(s, label_tokens_fn("Label"@)).len(), AdaptationSetV { labels: x.labels
            + views(s), ..x }),
    decreases s.len(),
{
    reveal(each_tokens);
    if s.len() == 0 {
        assert(x.labels + views(s) =~= x.labels);
    } else {
        let s0 = s.drop_last();
        let c = s.last();
        let a = each_tokens(s0, label_tokens_fn("Label"@));
        let b = label_tokens("Label"@, c);
        lemma_holds_cat(t, i, a, b);
        assert forall|k: int| 0 <= k < s0.len() implies label_clean(#[trigger] s0[k]) by {
            assert(s0[k] == s[k]);
        }
        lemma_adaptation_set_reads_labels(t, i, x, s0);
        assert(label_clean(c)) by {
            assert(c == s[s.len() - 1]);
        }
        let j = i + a.len();
        lemma_adaptation_set_names();
        reveal(label_inner_tokens);
        assert(b =~= seq![TokenV::Start(local_of("Label"@),
            None,
            attrs_as_read(label_attrs(c))),
            TokenV::Characters(c.text@),
            TokenV::End(local_of("Label"@))]);
        lemma_holds_tail(t, j, b);
        assert(b.drop_first() =~= seq![TokenV::Characters(c.text@), TokenV::End(local_of("Label"@))]);
        lemma_text_read(t, j + 1, local_of("Label"@), c.text@);
        law_label_attributes_read_back(c);
        lemma_trimmed_read(c.text@);
        lemma_views_push(s0, c);
        assert(x.labels + views(s) =~= (x.labels + views(s0)).push(c@));
    }
}

/// The written `group_labels` items are read in order.
proof fn lemma_adaptation_set_reads_group_labels(t: Seq<TokenV>, i: int, x: AdaptationSetV, s: Seq<Label>)
    requires
        holds_at(t, i, each_tokens(s, label_tokens_fn("GroupLabel"@))),
        forall|k: int| 0 <= k < s.len() ==> label_clean(#[trigger] s[k]),
    ensures
        adaptation_set_scan(t, i, x) == adaptation_set_scan(t, i
            + each_tokens(s, label_tokens_fn("GroupLabel"@)).len(), AdaptationSetV { group_labels: x.group_labels
            + views(s), ..x }),
    decreases s.len(),
{
    reveal(each_tokens);
    if s.len() == 0 {
        assert(x.group_labels + views(s) =~= x.group_labels);
    } else {
        let s0 = s.drop_last();
        let c = s.last();
        let a = each_tokens(s0, label_tokens_fn("GroupLabel"@));
        let b = label_tokens("GroupLabel"@, c);
        lemma_holds_cat(t, i, a, b);
        assert forall|k: int| 0 <= k < s0.len() implies label_clean(#[trigger] s0[k]) by {
            assert(s0[k] == s[k]);
        }
        lemma_adaptation_set_reads_group_labels(t, i, x, s0);
        assert(label_clean(c)) by {
            assert(c == s[s.len() - 1]);
        }
        let j = i + a.len();
        lemma_adaptation_set_names();
        reveal(label_inner_tokens);
        assert(b =~= seq![TokenV::Start(local_of("GroupLabel"@),
            None,
            attrs_as_read(label_attrs(c))),
            TokenV::Characters(c.text@),
            TokenV::End(local_of("GroupLabel"@))]);
        lemma_holds_tail(t, j, b);
        assert(b.drop_first() =~= seq![TokenV::Characters(c.text@), TokenV::End(local_of("GroupLabel"@))]);
        lemma_text_read(t, j + 1, local_of("GroupLabel"@), c.text@);
        law_label_attributes_read_back(c);
        lemma_trimmed_read(c.text@);
        lemma_views_push(s0, c);
        assert(x.group_labels + views(s) =~= (x.group_labels + views(s0)).push(c@));
    }
}

/// The written `essential_properties` items are read in order.
proof fn lemma_adaptation_set_reads_essential_properties(t: Seq<TokenV>, i: int, x: AdaptationSetV, s: Seq<Descriptor>)
    requires
        holds_at(t, i, each_tokens(s, descriptor_tokens_fn("EssentialProperty"@))),
    ensures
        adaptation_set_scan(t, i, x) == adaptation_set_scan(t, i
            + each_tokens(s, descriptor_tokens_fn("EssentialProperty"@)).len(), AdaptationSetV { essential_properties: x.essential_properties
            + views(s), ..x }),
    decreases s.len(),
{
    reveal(each_tokens);
    if s.len() == 0 {
        assert(x.essential_properties + views(s) =~= x.essential_properties);
    } else {
        let s0 = s.drop_last();
        let c = s.last();
        let a = each_tokens(s0, descriptor_tokens_fn("EssentialProperty"@));
        let b = descriptor_tokens("EssentialProperty"@, c);
        lemma_holds_cat(t, i, a, b);
        lemma_adaptation_set_reads_essential_properties(t, i, x, s0);
        let j = i + a.len();
        lemma_adaptation_set_names();
        reveal(descriptor_inner_tokens);
        assert(b =~= seq![TokenV::Start(local_of("EssentialProperty"@),
            None,
            attrs_as_read(descriptor_attrs(c))),
            TokenV::End(local_of("EssentialProperty"@))]);
        lemma_holds_index(t, j, b, 0);
        lemma_holds_index(t, j, b, 1);
        law_descriptor_attributes_read_back(c);
        lemma_skip_empty(t, j + 1, local_of("EssentialProperty"@));
        lemma_views_push(s0, c);
        assert(x.essential_properties + views(s) =~= (x.essential_properties + views(s0)).push(c@));
    }
}

/// The written `supplemental_properties` items are read in order.
proof fn lemma_adaptation_set_reads_supplemental_properties(t: Seq<TokenV>, i: int, x: AdaptationSetV, s: Seq<Descriptor>)
    requires
        holds_at(t, i, each_tokens(s, descriptor_tokens_fn("SupplementalProperty"@))),
    ensures
        adaptation_set_scan(t, i, x) == adaptation_set_scan(t, i
            + each_tokens(s, descriptor_tokens_fn("SupplementalProperty"@)).len(), AdaptationSetV { supplemental_properties: x.supplemental_properties
            + views(s), ..x }),
    decreases s.len(),
{
    reveal(each_tokens);
    if s.len() == 0 {
        assert(x.supplemental_properties + views(s) =~= x.supplemental_properties);
    } else {
        let s0 = s.drop_last();
        let c = s.last();
        let a = each_tokens(s0, descriptor_tokens_fn("SupplementalProperty"@));
        let b = descriptor_tokens("SupplementalProperty"@, c);
        lemma_holds_cat(t, i, a, b);
        lemma_adaptation_set_reads_supplemental_properties(t, i, x, s0);
        let j = i + a.len();
        lemma_adaptation_set_names();
        reveal(descriptor_inner_tokens);
        assert(b =~= seq![TokenV::Start(local_of("SupplementalProperty"@),
            None,
            attrs_as_read(descriptor_attrs(c))),
            TokenV::End(local_of("SupplementalProperty"@))]);
        lemma_holds_index(t, j, b, 0);
        lemma_holds_index(t, j, b, 1);
        law_descriptor_attributes_read_back(c);
        lemma_skip_empty(t, j + 1, local_of("SupplementalProperty"@));
        lemma_views_push(s0, c);
        assert(x.supplemental_properties + views(s) =~= (x.supplemental_properties + views(s0)).push(c@));
    }
}

/// The written `viewpoints` items are read in order.
proof fn lemma_adaptation_set_reads_viewpoints(t: Seq<TokenV>, i: int, x: AdaptationSetV, s: Seq<Descriptor>)
    requires
        holds_at(t, i, each_tokens(s, descriptor_tokens_fn("Viewpoint"@))),
    ensures
        adaptation_set_scan(t, i, x) == adaptation_set_scan(t, i
            + each_tokens(s, descriptor_tokens_fn("Viewpoint"@)).len(), AdaptationSetV { viewpoints: x.viewpoints
            + views(s), ..x }),
    decreases s.len(),
{
    reveal(each_tokens);
    if s.len() == 0 {
        assert(x.viewpoints + views(s) =~= x.viewpoints);
    } else {
        let s0 = s.drop_last();
        let c = s.last();
        let a = each_tokens(s0, descriptor_tokens_fn("Viewpoint"@));
        let b = descriptor_tokens("Viewpoint"@, c);
        lemma_holds_cat(t, i, a, b);
        lemma_adaptation_set_reads_viewpoints(t, i, x, s0);
        let j = i + a.len();
        lemma_adaptation_set_names();
        reveal(descriptor_inner_tokens);
        assert(b =~= seq![TokenV::Start(local_of("Viewpoint"@), None, attrs_as_read(descriptor_attrs(c))), TokenV::End(local_of("Viewpoint"@))]);
        lemma_holds_index(t, j, b, 0);
        lemma_holds_index(t, j, b, 1);
        law_descriptor_attributes_read_back(c);
        lemma_skip_empty(t, j + 1, local_of("Viewpoint"@));
        lemma_views_push(s0, c);
        assert(x.viewpoints + views(s) =~= (x.viewpoints + views(s0)).push(c@));
    }
}

/// The written `frame_packings` items are read in order.
proof fn lemma_adaptation_set_reads_frame_packings(t: Seq<TokenV>, i: int, x: AdaptationSetV, s: Seq<Descriptor>)
    requires
        holds_at(t, i, each_tokens(s, descriptor_tokens_fn("FramePacking"@))),
    ensures
        adaptation_set_scan(t, i, x) == adaptation_set_scan(t, i
            + each_tokens(s, descriptor_tokens_fn("FramePacking"@)).len(), AdaptationSetV { frame_packings: x.frame_packings
            + views(s), ..x }),
    decreases s.len(),
{
    reveal(each_tokens);
    if s.len() == 0 {
        assert(x.frame_packings + views(s) =~= x.frame_packings);
    } else {
        let s0 = s.drop_last();
        let c = s.last();
        let a = each_tokens(s0, descriptor_tokens_fn("FramePacking"@));
        let b = descriptor_tokens("FramePacking"@, c);
        lemma_holds_cat(t, i, a, b);
        lemma_adaptation_set_reads_frame_packings(t, i, x, s0);
        let j = i + a.len();
        lemma_adaptation_set_names();
        reveal(descriptor_inner_tokens);
        assert(b =~= seq![TokenV::Start(local_of("FramePacking"@), None, attrs_as_read(descriptor_attrs(c))), TokenV::End(local_of("FramePacking"@))]);
        lemma_holds_index(t, j, b, 0);
        lemma_holds_index(t, j, b, 1);
        law_descriptor_attributes_read_back(c);
        lemma_skip_empty(t, j + 1, local_of("FramePacking"@));
        lemma_views_push(s0, c);
        assert(x.frame_packings + views(s) =~= (x.frame_packings + views(s0)).push(c@));
    }
}

/// The written `inband_event_streams` items are read in order.
proof fn lemma_adaptation_set_reads_inband_event_streams(t: Seq<TokenV>, i: int, x: AdaptationSetV, s: Seq<Descriptor>)
    requires
        holds_at(t, i, each_tokens(s, descriptor_tokens_fn("InbandEventStream"@))),
    ensures
        adaptation_set_scan(t, i, x) == adaptation_set_scan(t, i
            + each_tokens(s, descriptor_tokens_fn("InbandEventStream"@)).len(), AdaptationSetV { inband_event_streams: x.inband_event_streams
            + views(s), ..x }),
    decreases s.len(),
{
    reveal(each_tokens);
    if s.len() == 0 {
        assert(x.inband_event_streams + views(s) =~= x.inband_event_streams);
    } else {
        let s0 = s.drop_last();
        let c = s.last();
        let a = each_tokens(s0, descriptor_tokens_fn("InbandEventStream"@));
        let b = descriptor_tokens("InbandEventStream"@, c);
        lemma_holds_cat(t, i, a, b);
        lemma_adaptation_set_reads_inband_event_streams(t, i, x, s0);
        let j = i + a.len();
        lemma_adaptation_set_names();
        reveal(descriptor_inner_tokens);
        assert(b =~= seq![TokenV::Start(local_of("InbandEventStream"@),
            None,
            attrs_as_read(descriptor_attrs(c))),
            TokenV::End(local_of("InbandEventStream"@))]);
        lemma_holds_index(t, j, b, 0);
        lemma_holds_index(t, j, b, 1);
        law_descriptor_attributes_read_back(c);
        lemma_skip_empty(t, j + 1, local_of("InbandEventStream"@));
        lemma_views_push(s0, c);
        assert(x.inband_event_streams + views(s) =~= (x.inband_event_streams + views(s0)).push(c@));
    }
}

/// The written `producer_reference_times` items are read in order.
proof fn lemma_adaptation_set_reads_producer_reference_times(t: Seq<TokenV>, i: int, x: AdaptationSetV, s: Seq<ProducerReferenceTime>)
    requires
        holds_at(t, i, each_tokens(s, producer_reference_time_tokens_fn())),
    ensures
        adaptation_set_scan(t, i, x) == adaptation_set_scan(t, i
            + each_tokens(s, producer_reference_time_tokens_fn()).len(), AdaptationSetV { producer_reference_times: x.producer_reference_times
            + views(s), ..x }),
    decreases s.len(),
{
    reveal(each_tokens);
    if s.len() == 0 {
        assert(x.producer_reference_times + views(s) =~= x.producer_reference_times);
    } else {
        let s0 = s.drop_last();
        let c = s.last();
        let a = each_tokens(s0, producer_reference_time_tokens_fn());
        let b = producer_reference_time_tokens(c);
        lemma_holds_cat(t, i, a, b);
        lemma_adaptation_set_reads_producer_reference_times(t, i, x, s0);
        let j = i + a.len();
        lemma_adaptation_set_names();
        lemma_producer_reference_time_reads(t, j, c);
        lemma_holds_index(t, j, b, 0);
        assert(b[0] == TokenV::Start(local_of("ProducerReferenceTime"@), None, attrs_as_read(producer_reference_time_attrs(c))));
        lemma_views_push(s0, c);
        assert(x.producer_reference_times + views(s) =~= (x.producer_reference_times + views(s0)).push(c@));
    }
}

/// The written `content_components` items are read in order.
proof fn lemma_adaptation_set_reads_content_components(t: Seq<TokenV>, i: int, x: AdaptationSetV, s: Seq<ContentComponent>)
    requires
        holds_at(t, i, each_tokens(s, content_component_tokens_fn())),
    ensures
        adaptation_set_scan(t, i, x) == adaptation_set_scan(t, i
            + each_tokens(s, content_component_tokens_fn()).len(), AdaptationSetV { content_components: x.content_components
            + views(s), ..x }),
    decreases s.len(),
{
    reveal(each_tokens);
    if s.len() == 0 {
        assert(x.content_components + views(s) =~= x.content_components);
    } else {
        let s0 = s.drop_last();
        let c = s.last();
        let a = each_tokens(s0, content_component_tokens_fn());
        let b = content_component_tokens(c);
        lemma_holds_cat(t, i, a, b);
        lemma_adaptation_set_reads_content_components(t, i, x, s0);
        let j = i + a.len();
        lemma_adaptation_set_names();
        lemma_content_component_reads(t, j, c);
        lemma_holds_index(t, j, b, 0);
        assert(b[0] == TokenV::Start(local_of("ContentComponent"@), None, attrs_as_read(content_component_attrs(c))));
        lemma_views_push(s0, c);
        assert(x.content_components + views(s) =~= (x.content_components + views(s0)).push(c@));
    }
}

/// The written `segment_sequence_properties` items are read in order.
proof fn lemma_adaptation_set_reads_segment_sequence_properties(t: Seq<TokenV>, i: int, x: AdaptationSetV, s: Seq<SegmentSequenceProperties>)
    requires
        holds_at(t, i, each_tokens(s, segment_sequence_properties_tokens_fn())),
    ensures
        adaptation_set_scan(t, i, x) == adaptation_set_scan(t, i
            + each_tokens(s, segment_sequence_properties_tokens_fn()).len(), AdaptationSetV { segment_sequence_properties: x.segment_sequence_properties
            + views(s), ..x }),
    decreases s.len(),
{
    reveal(each_tokens);
    if s.len() == 0 {
        assert(x.segment_sequence_properties + views(s) =~= x.segment_sequence_properties);
    } else {
        let s0 = s.drop_last();
        let c = s.last();
        let a = each_tokens(s0, segment_sequence_properties_tokens_fn());
        let b = segment_sequence_properties_tokens(c);
        lemma_holds_cat(t, i, a, b);
        lemma_adaptation_set_reads_segment_sequence_properties(t, i, x, s0);
        let j = i + a.len();
        lemma_adaptation_set_names();
        reveal(segment_sequence_properties_inner_tokens);
        assert(b =~= seq![TokenV::Start(local_of("SegmentSequenceProperties"@),
            None,
            attrs_as_read(segment_sequence_properties_attrs(c))),
            TokenV::End(local_of("SegmentSequenceProperties"@))]);
        lemma_holds_index(t, j, b, 0);
        lemma_holds_index(t, j, b, 1);
        law_segment_sequence_properties_attributes_read_back(c);
        lemma_skip_empty(t, j + 1, local_of("SegmentSequenceProperties"@));
        lemma_views_push(s0, c);
        assert(x.segment_sequence_properties + views(s) =~= (x.segment_sequence_properties + views(s0)).push(c@));
    }
}

/// The written `event_streams` items are read in order.
proof fn lemma_adaptation_set_reads_event_streams(t: Seq<TokenV>, i: int, x: AdaptationSetV, s: Seq<EventStream>)
    requires
        holds_at(t, i, each_tokens(s, event_stream_tokens_fn())),
        forall|k: int| 0 <= k < s.len() ==> event_stream_clean(#[trigger] s[k]),
    ensures
        adaptation_set_scan(t, i, x) == adaptation_set_scan(t, i
            + each_tokens(s, event_stream_tokens_fn()).len(), AdaptationSetV { event_streams: x.event_streams
            + views(s), ..x }),
    decreases s.len(),
{
    reveal(each_tokens);
    if s.len() == 0 {
        assert(x.event_streams + views(s) =~= x.event_streams);
    } else {
        let s0 = s.drop_last();
        let c = s.last();
        let a = each_tokens(s0, event_stream_tokens_fn());
        let b = event_stream_tokens(c);
        lemma_holds_cat(t, i, a, b);
        assert forall|k: int| 0 <= k < s0.len() implies event_stream_clean(#[trigger] s0[k]) by {
            assert(s0[k] == s[k]);
        }
        lemma_adaptation_set_reads_event_streams(t, i, x, s0);
        assert(event_stream_clean(c)) by {
            assert(c == s[s.len() - 1]);
        }
        let j = i + a.len();
        lemma_adaptation_set_names();
        lemma_event_stream_reads(t, j, c);
        lemma_holds_index(t, j, b, 0);
        assert(b[0] == TokenV::Start(local_of("EventStream"@), None, attrs_as_read(event_stream_attrs(c))));
        lemma_views_push(s0, c);
        assert(x.event_streams + views(s) =~= (x.event_streams + views(s0)).push(c@));
    }
}

/// The written `content_protections` items are read in order.
proof fn lemma_adaptation_set_reads_content_protections(t: Seq<TokenV>, i: int, x: AdaptationSetV, s: Seq<ContentProtection>)
    requires
        holds_at(t, i, each_tokens(s, content_protection_tokens_fn())),
        forall|k: int| 0 <= k < s.len() ==> content_protection_clean(#[trigger] s[k]),
    ensures
        adaptation_set_scan(t, i, x) == adaptation_set_scan(t, i
            + each_tokens(s, content_protection_tokens_fn()).len(), AdaptationSetV { content_protections: x.content_protections
            + views(s), ..x }),
    decreases s.len(),
{
    reveal(each_tokens);
    if s.len() == 0 {
        assert(x.content_protections + views(s) =~= x.content_protections);
    } else {
        let s0 = s.drop_last();
        let c = s.last();
        let a = each_tokens(s0, content_protection_tokens_fn());
        let b = content_protection_tokens(c);
        lemma_holds_cat(t, i, a, b);
        assert forall|k: int| 0 <= k < s0.len() implies content_protection_clean(#[trigger] s0[k]) by {
            assert(s0[k] == s[k]);
        }
        lemma_adaptation_set_reads_content_protections(t, i, x, s0);
        assert(content_protection_clean(c)) by {
            assert(c == s[s.len() - 1]);
        }
        let j = i + a.len();
        lemma_adaptation_set_names();
        lemma_content_protection_reads(t, j, c);
        lemma_holds_index(t, j, b, 0);
        assert(b[0] == TokenV::Start(local_of("ContentProtection"@), None, attrs_as_read(content_protection_attrs(c))));
        lemma_views_push(s0, c);
        assert(x.content_protections + views(s) =~= (x.content_protections + views(s0)).push(c@));
    }
}

/// The written `segment_base`, when present, is read.
proof fn lemma_adaptation_set_reads_segment_base(t: Seq<TokenV>, i: int, x: AdaptationSetV, o: Option<SegmentBase>)
    requires
        holds_at(t, i, opt_tokens(o, segment_base_tokens_fn())),
    ensures
        adaptation_set_scan(t, i, x) == adaptation_set_scan(t, i + opt_tokens(o, segment_base_tokens_fn()).len(), match o {
            Some(c) => AdaptationSetV { segment_base: Some(c@), ..x },
            None => x,
        }),
{
    reveal(opt_tokens);
    if let Some(c) = o {
        let b = segment_base_tokens(c);
        lemma_adaptation_set_names();
        lemma_segment_base_reads(t, i, c);
        lemma_holds_index(t, i, b, 0);
        assert(b[0] == TokenV::Start(local_of("SegmentBase"@), None, attrs_as_read(segment_base_attrs(c))));
    }
}

/// The written `segment_list`, when present, is read.
proof fn lemma_adaptation_set_reads_segment_list(t: Seq<TokenV>, i: int, x: AdaptationSetV, o: Option<SegmentList>)
    requires
        holds_at(t, i, opt_tokens(o, segment_list_tokens_fn())),
    ensures
        adaptation_set_scan(t, i, x) == adaptation_set_scan(t, i + opt_tokens(o, segment_list_tokens_fn()).len(), match o {
            Some(c) => AdaptationSetV { segment_list: Some(c@), ..x },
            None => x,
        }),
{
    reveal(opt_tokens);
    if let Some(c) = o {
        let b = segment_list_tokens(c);
        lemma_adaptation_set_names();
        lemma_segment_list_reads(t, i, c);
        lemma_holds_index(t, i, b, 0);
        assert(b[0] == TokenV::Start(local_of("SegmentList"@), None, attrs_as_read(segment_list_attrs(c))));
    }
}

/// The written `segment_template`, when present, is read.
proof fn lemma_adaptation_set_reads_segment_template(t: Seq<TokenV>, i: int, x: AdaptationSetV, o: Option<SegmentTemplate>)
    requires
        holds_at(t, i, opt_tokens(o, segment_template_tokens_fn())),
    ensures
        adaptation_set_scan(t, i, x) == adaptation_set_scan(t, i + opt_tokens(o, segment_template_tokens_fn()).len(), match o {
            Some(c) => AdaptationSetV { segment_template: Some(c@), ..x },
            None => x,
        }),
{
    reveal(opt_tokens);
    if let Some(c) = o {
        let b = segment_template_tokens(c);
        lemma_adaptation_set_names();
        lemma_segment_template_reads(t, i, c);
        lemma_holds_index(t, i, b, 0);
        assert(b[0] == TokenV::Start(local_of("SegmentTemplate"@), None, attrs_as_read(segment_template_attrs(c))));
    }
}

/// The written `representations` items are read in order.
proof fn lemma_adaptation_set_reads_representations(t: Seq<TokenV>, i: int, x: AdaptationSetV, s: Seq<Representation>)
    requires
        holds_at(t, i, each_tokens(s, representation_tokens_fn())),
        forall|k: int| 0 <= k < s.len() ==> representation_clean(#[trigger] s[k]),
    ensures
        adaptation_set_scan(t, i, x) == adaptation_set_scan(t, i
            + each_tokens(s, representation_tokens_fn()).len(), AdaptationSetV { representations: x.representations
            + views(s), ..x }),
    decreases s.len(),
{
    reveal(each_tokens);
    if s.len() == 0 {
        assert(x.representations + views(s) =~= x.representations);
    } else {
        let s0 = s.drop_last();
        let c = s.last();
        let a = each_tokens(s0, representation_tokens_fn());
        let b = representation_tokens(c);
        lemma_holds_cat(t, i, a, b);
        assert forall|k: int| 0 <= k < s0.len() implies representation_clean(#[trigger] s0[k]) by {
            assert(s0[k] == s[k]);
        }
        lemma_adaptation_set_reads_representations(t, i, x, s0);
        assert(representation_clean(c)) by {
            assert(c == s[s.len() - 1]);
        }
        let j = i + a.len();
        lemma_adaptation_set_names();
        lemma_representation_reads(t, j, c);
        lemma_holds_index(t, j, b, 0);
        assert(b[0] == TokenV::Start(local_of("Representation"@), None, attrs_as_read(representation_attrs(c))));
        lemma_views_push(s0, c);
        assert(x.representations + views(s) =~= (x.representations + views(s0)).push(c@));
    }
}

/// A written `AdaptationSet` element is read back whole, up to just after its end tag.
#[verifier::rlimit(60)]
pub proof fn lemma_adaptation_set_reads(t: Seq<TokenV>, i: int, a: AdaptationSet)
    requires
        holds_at(t, i, adaptation_set_tokens(a)),
        adaptation_set_clean(a),
    ensures
        adaptation_set_at(t, i + 1, attrs_as_read(adaptation_set_attrs(a))) == Ok::<(AdaptationSetV, int), ErrorKind>((a@, i + adaptation_set_tokens(a).len())),
{
    reveal(adaptation_set_at);
    reveal(adaptation_set_inner_tokens);
    lemma_adaptation_set_names();
    law_adaptation_set_attributes_read_back(a);
    let g0 = each_tokens(a.base_urls@, base_url_tokens_fn());
    let g1 = each_tokens(a.roles@, descriptor_tokens_fn("Role"@));
    let g2 = each_tokens(a.accessibilities@, descriptor_tokens_fn("Accessibility"@));
    let g3 = each_tokens(a.audio_channel_configurations@, descriptor_tokens_fn("AudioChannelConfiguration"@));
    let g4 = each_tokens(a.labels@, label_tokens_fn("Label"@));
    let g5 = each_tokens(a.group_labels@, label_tokens_fn("GroupLabel"@));
    let g6 = each_tokens(a.essential_properties@, descriptor_tokens_fn("EssentialProperty"@));
    let g7 = each_tokens(a.supplemental_properties@, descriptor_tokens_fn("SupplementalProperty"@));
    let g8 = each_tokens(a.viewpoints@, descriptor_tokens_fn("Viewpoint"@));
    let g9 = each_tokens(a.frame_packings@, descriptor_tokens_fn("FramePacking"@));
    let g10 = each_tokens(a.inband_event_streams@, descriptor_tokens_fn("InbandEventStream"@));
    let g11 = each_tokens(a.producer_reference_times@, producer_reference_time_tokens_fn());
    let g12 = each_tokens(a.content_components@, content_component_tokens_fn());
    let g13 = each_tokens(a.segment_sequence_properties@, segment_sequence_properties_tokens_fn());
    let g14 = each_tokens(a.event_streams@, event_stream_tokens_fn());
    let g15 = each_tokens(a.content_protections@, content_protection_tokens_fn());
    let g16 = opt_tokens(a.segment_base, segment_base_tokens_fn());
    let g17 = opt_tokens(a.segment_list, segment_list_tokens_fn());
    let g18 = opt_tokens(a.segment_template, segment_template_tokens_fn());
    let g19 = each_tokens(a.representations@, representation_tokens_fn());
    let h1 = g0 + g1;
    let h2 = h1 + g2;
    let h3 = h2 + g3;
    let h4 = h3 + g4;
    let h5 = h4 + g5;
    let h6 = h5 + g6;
    let h7 = h6 + g7;
    let h8 = h7 + g8;
    let h9 = h8 + g9;
    let h10 = h9 + g10;
    let h11 = h10 + g11;
    let h12 = h11 + g12;
    let h13 = h12 + g13;
    let h14 = h13 + g14;
    let h15 = h14 + g15;
    let h16 = h15 + g16;
    let h17 = h16 + g17;
    let h18 = h17 + g18;
    let h19 = h18 + g19;
    let st = seq![TokenV::Start(local_of("AdaptationSet"@), None, attrs_as_read(adaptation_set_attrs(a)))];
    let en = seq![TokenV::End(local_of("AdaptationSet"@))];
    assert(adaptation_set_tokens(a) == st + h19 + en);
    lemma_holds_cat(t, i, st + h19, en);
    lemma_holds_cat(t, i, st, h19);
    lemma_holds_cat(t, i + 1, h18, g19);
    lemma_holds_cat(t, i + 1, h17, g18);
    lemma_holds_cat(t, i + 1, h16, g17);
    lemma_holds_cat(t, i + 1, h15, g16);
    lemma_holds_cat(t, i + 1, h14, g15);
    lemma_holds_cat(t, i + 1, h13, g14);
    lemma_holds_cat(t, i + 1, h12, g13);
    lemma_holds_cat(t, i + 1, h11, g12);
    lemma_holds_cat(t, i + 1, h10, g11);
    lemma_holds_cat(t, i + 1, h9, g10);
    lemma_holds_cat(t, i + 1, h8, g9);
    lemma_holds_cat(t, i + 1, h7, g8);
    lemma_holds_cat(t, i + 1, h6, g7);
    lemma_holds_cat(t, i + 1, h5, g6);
    lemma_holds_cat(t, i + 1, h4, g5);
    lemma_holds_cat(t, i + 1, h3, g4);
    lemma_holds_cat(t, i + 1, h2, g3);
    lemma_holds_cat(t, i + 1, h1, g2);
    lemma_holds_cat(t, i + 1, g0, g1);
    let ghost x0 = AdaptationSetV { base_urls: seq![],
        roles: seq![],
        accessibilities: seq![],
        audio_channel_configurations: seq![],
        labels: seq![],
        group_labels: seq![],
        essential_properties: seq![],
        supplemental_properties: seq![],
        viewpoints: seq![],
        frame_packings: seq![],
        inband_event_streams: seq![],
        producer_reference_times: seq![],
        content_components: seq![],
        segment_sequence_properties: seq![],
        segment_base: None,
        segment_list: None,
        segment_template: None,
        event_streams: seq![],
        content_protections: seq![],
        representations: seq![],
        ..a@ };
    let ghost q0 = i + 1;
    lemma_adaptation_set_reads_base_urls(t, q0, x0, a.base_urls@);
    let ghost x1 = AdaptationSetV { base_urls: x0.base_urls + views(a.base_urls@), ..x0 };
    let ghost q1 = q0 + g0.len();
    lemma_adaptation_set_reads_roles(t, q1, x1, a.roles@);
    let ghost x2 = AdaptationSetV { roles: x1.roles + views(a.roles@), ..x1 };
    let ghost q2 = q1 + g1.len();
    lemma_adaptation_set_reads_accessibilities(t, q2, x2, a.accessibilities@);
    let ghost x3 = AdaptationSetV { accessibilities: x2.accessibilities + views(a.accessibilities@), ..x2 };
    let ghost q3 = q2 + g2.len();
    lemma_adaptation_set_reads_audio_channel_configurations(t, q3, x3, a.audio_channel_configurations@);
    let ghost x4 = AdaptationSetV { audio_channel_configurations: x3.audio_channel_configurations + views(a.audio_channel_configurations@), ..x3 };
    let ghost q4 = q3 + g3.len();
    lemma_adaptation_set_reads_labels(t, q4, x4, a.labels@);
    let ghost x5 = AdaptationSetV { labels: x4.labels + views(a.labels@), ..x4 };
    let ghost q5 = q4 + g4.len();
    lemma_adaptation_set_reads_group_labels(t, q5, x5, a.group_labels@);
    let ghost x6 = AdaptationSetV { group_labels: x5.group_labels + views(a.group_labels@), ..x5 };
    let ghost q6 = q5 + g5.len();
    lemma_adaptation_set_reads_essential_properties(t, q6, x6, a.essential_properties@);
    let ghost x7 = AdaptationSetV { essential_properties: x6.essential_properties + views(a.essential_properties@), ..x6 };
    let ghost q7 = q6 + g6.len();
    lemma_adaptation_set_reads_supplemental_properties(t, q7, x7, a.supplemental_properties@);
    let ghost x8 = AdaptationSetV { supplemental_properties: x7.supplemental_properties + views(a.supplemental_properties@), ..x7 };
    let ghost q8 = q7 + g7.len();
    lemma_adaptation_set_reads_viewpoints(t, q8, x8, a.viewpoints@);
    let ghost x9 = AdaptationSetV { viewpoints: x8.viewpoints + views(a.viewpoints@), ..x8 };
    let ghost q9 = q8 + g8.len();
    lemma_adaptation_set_reads_frame_packings(t, q9, x9, a.frame_packings@);
    let ghost x10 = AdaptationSetV { frame_packings: x9.frame_packings + views(a.frame_packings@), ..x9 };
    let ghost q10 = q9 + g9.len();
    lemma_adaptation_set_reads_inband_event_streams(t, q10, x10, a.inband_event_streams@);
    let ghost x11 = AdaptationSetV { inband_event_streams: x10.inband_event_streams + views(a.inband_event_streams@), ..x10 };
    let ghost q11 = q10 + g10.len();
    lemma_adaptation_set_reads_producer_reference_times(t, q11, x11, a.producer_reference_times@);
    let ghost x12 = AdaptationSetV { producer_reference_times: x11.producer_reference_times + views(a.producer_reference_times@), ..x11 };
    let ghost q12 = q11 + g11.len();
    lemma_adaptation_set_reads_content_components(t, q12, x12, a.content_components@);
    let ghost x13 = AdaptationSetV { content_components: x12.content_components + views(a.content_components@), ..x12 };
    let ghost q13 = q12 + g12.len();
    lemma_adaptation_set_reads_segment_sequence_properties(t, q13, x13, a.segment_sequence_properties@);
    let ghost x14 = AdaptationSetV { segment_sequence_properties: x13.segment_sequence_properties + views(a.segment_sequence_properties@), ..x13 };
    let ghost q14 = q13 + g13.len();
    lemma_adaptation_set_reads_event_streams(t, q14, x14, a.event_streams@);
    let ghost x15 = AdaptationSetV { event_streams: x14.event_streams + views(a.event_streams@), ..x14 };
    let ghost q15 = q14 + g14.len();
    lemma_adaptation_set_reads_content_protections(t, q15, x15, a.content_protections@);
    let ghost x16 = AdaptationSetV { content_protections: x15.content_protections + views(a.content_protections@), ..x15 };
    let ghost q16 = q15 + g15.len();
    lemma_adaptation_set_reads_segment_base(t, q16, x16, a.segment_base);
    let ghost x17 = match a.segment_base { Some(c) => AdaptationSetV { segment_base: Some(c@), ..x16 }, None => x16 };
    let ghost q17 = q16 + g16.len();
    lemma_adaptation_set_reads_segment_list(t, q17, x17, a.segment_list);
    let ghost x18 = match a.segment_list { Some(c) => AdaptationSetV { segment_list: Some(c@), ..x17 }, None => x17 };
    let ghost q18 = q17 + g17.len();
    lemma_adaptation_set_reads_segment_template(t, q18, x18, a.segment_template);
    let ghost x19 = match a.segment_template { Some(c) => AdaptationSetV { segment_template: Some(c@), ..x18 }, None => x18 };
    let ghost q19 = q18 + g18.len();
    lemma_adaptation_set_reads_representations(t, q19, x19, a.representations@);
    let ghost x20 = AdaptationSetV { representations: x19.representations + views(a.representations@), ..x19 };
    let ghost q20 = q19 + g19.len();
    lemma_holds_index(t, i + 1 + h19.len(), en, 0);
    assert(x0.base_urls + views(a.base_urls@) =~= views(a.base_urls@));
    assert(x0.roles + views(a.roles@) =~= views(a.roles@));
    assert(x0.accessibilities + views(a.accessibilities@) =~= views(a.accessibilities@));
    assert(x0.audio_channel_configurations + views(a.audio_channel_configurations@) =~= views(a.audio_channel_configurations@));
    assert(x0.labels + views(a.labels@) =~= views(a.labels@));
    assert(x0.group_labels + views(a.group_labels@) =~= views(a.group_labels@));
    assert(x0.essential_properties + views(a.essential_properties@) =~= views(a.essential_properties@));
    assert(x0.supplemental_properties + views(a.supplemental_properties@) =~= views(a.supplemental_properties@));
    assert(x0.viewpoints + views(a.viewpoints@) =~= views(a.viewpoints@));
    assert(x0.frame_packings + views(a.frame_packings@) =~= views(a.frame_packings@));
    assert(x0.inband_event_streams + views(a.inband_event_streams@) =~= views(a.inband_event_streams@));
    assert(x0.producer_reference_times + views(a.producer_reference_times@) =~= views(a.producer_reference_times@));
    assert(x0.content_components + views(a.content_components@) =~= views(a.content_components@));
    assert(x0.segment_sequence_properties + views(a.segment_sequence_properties@) =~= views(a.segment_sequence_properties@));
    assert(x0.event_streams + views(a.event_streams@) =~= views(a.event_streams@));
    assert(x0.content_protections + views(a.content_protections@) =~= views(a.content_protections@));
    assert(x0.representations + views(a.representations@) =~= views(a.representations@));
    assert(x20 == a@);
}

/// How the reader names the elements that the writer writes in `Period`,
/// and how those names differ.
proof fn lemma_period_names()
    ensures
        local_of("Period"@) == "Period"@,
        local_of("BaseURL"@) == "BaseURL"@,
        local_of("SegmentBase"@) == "SegmentBase"@,
        local_of("SegmentList"@) == "SegmentList"@,
        local_of("SegmentTemplate"@) == "SegmentTemplate"@,
        local_of("AssetIdentifier"@) == "AssetIdentifier"@,
        local_of("EventStream"@) == "EventStream"@,
        local_of("AdaptationSet"@) == "AdaptationSet"@,
        local_of("Subset"@) == "Subset"@,
        local_of("SupplementalProperty"@) == "SupplementalProperty"@,
        local_of("EssentialProperty"@) == "EssentialProperty"@,
        local_of("Preselection"@) == "Preselection"@,
        "Period"@.len() == 6,
        "BaseURL"@.len() == 7,
        "SupplementalProperty"@.len() == 20,
        "EssentialProperty"@.len() == 17,
        "AssetIdentifier"@.len() == 15,
        "EventStream"@.len() == 11,
        "Preselection"@.len() == 12,
        "SegmentBase"@.len() == 11,
        "SegmentList"@.len() == 11,
        "SegmentTemplate"@.len() == 15,
        "Subset"@.len() == 6,
        "AdaptationSet"@.len() == 13,
        "AssetIdentifier"@[0] == 'A',
        "EventStream"@[0] == 'E',
        "Period"@[0] == 'P',
        "SegmentBase"@[0] == 'S',
        "SegmentBase"@[7] == 'B',
        "SegmentList"@[0] == 'S',
        "SegmentList"@[7] == 'L',
        "SegmentTemplate"@[0] == 'S',
        "Subset"@[0] == 'S',
{
    reveal(local_of);
    reveal_with_fuel(first_index, 21);
    reveal_strlit("AdaptationSet");
    reveal_strlit("AssetIdentifier");
    reveal_strlit("BaseURL");
    reveal_strlit("EssentialProperty");
    reveal_strlit("EventStream");
    reveal_strlit("Period");
    reveal_strlit("Preselection");
    reveal_strlit("SegmentBase");
    reveal_strlit("SegmentList");
    reveal_strlit("SegmentTemplate");
    reveal_strlit("Subset");
    reveal_strlit("SupplementalProperty");
    assert("Period"@.len() == 6);
    assert("BaseURL"@.len() == 7);
    assert("SupplementalProperty"@.len() == 20);
    assert("EssentialProperty"@.len() == 17);
    assert("AssetIdentifier"@.len() == 15);
    assert("EventStream"@.len() == 11);
    assert("Preselection"@.len() == 12);
    assert("SegmentBase"@.len() == 11);
    assert("SegmentList"@.len() == 11);
    assert("SegmentTemplate"@.len() == 15);
    assert("Subset"@.len() == 6);
    assert("AdaptationSet"@.len() == 13);
}

/// The written `base_urls` items are read in order.
proof fn lemma_period_reads_base_urls(t: Seq<TokenV>, i: int, x: PeriodV, s: Seq<BaseUrl>)
    requires
        holds_at(t, i, each_tokens(s, base_url_tokens_fn())),
        forall|k: int| 0 <= k < s.len() ==> base_url_clean(#[trigger] s[k]),
    ensures
        period_scan(t, i, x) == period_scan(t, i + each_tokens(s, base_url_tokens_fn()).len(), PeriodV { base_urls: x.base_urls + views(s), ..x }),
    decreases s.len(),
{
    reveal(each_tokens);
    if s.len() == 0 {
        assert(x.base_urls + views(s) =~= x.base_urls);
    } else {
        let s0 = s.drop_last();
        let c = s.last();
        let a = each_tokens(s0, base_url_tokens_fn());
        let b = base_url_tokens(c);
        lemma_holds_cat(t, i, a, b);
        assert forall|k: int| 0 <= k < s0.len() implies base_url_clean(#[trigger] s0[k]) by {
            assert(s0[k] == s[k]);
        }
        lemma_period_reads_base_urls(t, i, x, s0);
        assert(base_url_clean(c)) by {
            assert(c == s[s.len() - 1]);
        }
        let j = i + a.len();
        lemma_period_names();
        lemma_base_url_reads(t, j, c);
        lemma_holds_index(t, j, b, 0);
        assert(b[0] == TokenV::Start(local_of("BaseURL"@), None, attrs_as_read(base_url_attrs(c))));
        lemma_views_push(s0, c);
        assert(x.base_urls + views(s) =~= (x.base_urls + views(s0)).push(c@));
    }
}

/// The written `segment_base`, when present, is read.
proof fn lemma_period_reads_segment_base(t: Seq<TokenV>, i: int, x: PeriodV, o: Option<SegmentBase>)
    requires
        holds_at(t, i, opt_tokens(o, segment_base_tokens_fn())),
    ensures
        period_scan(t, i, x) == period_scan(t, i + opt_tokens(o, segment_base_tokens_fn()).len(), match o {
            Some(c) => PeriodV { segment_base: Some(c@), ..x },
            None => x,
        }),
{
    reveal(opt_tokens);
    if let Some(c) = o {
        let b = segment_base_tokens(c);
        lemma_period_names();
        lemma_segment_base_reads(t, i, c);
        lemma_holds_index(t, i, b, 0);
        assert(b[0] == TokenV::Start(local_of("SegmentBase"@), None, attrs_as_read(segment_base_attrs(c))));
    }
}

/// The written `segment_list`, when present, is read.
proof fn lemma_period_reads_segment_list(t: Seq<TokenV>, i: int, x: PeriodV, o: Option<SegmentList>)
    requires
        holds_at(t, i, opt_tokens(o, segment_list_tokens_fn())),
    ensures
        period_scan(t, i, x) == period_scan(t, i + opt_tokens(o, segment_list_tokens_fn()).len(), match o {
            Some(c) => PeriodV { segment_list: Some(c@), ..x },
            None => x,
        }),
{
    reveal(opt_tokens);
    if let Some(c) = o {
        let b = segment_list_tokens(c);
        lemma_period_names();
        lemma_segment_list_reads(t, i, c);
        lemma_holds_index(t, i, b, 0);
        assert(b[0] == TokenV::Start(local_of("SegmentList"@), None, attrs_as_read(segment_list_attrs(c))));
    }
}

/// The written `segment_template`, when present, is read.
proof fn lemma_period_reads_segment_template(t: Seq<TokenV>, i: int, x: PeriodV, o: Option<SegmentTemplate>)
    requires
        holds_at(t, i, opt_tokens(o, segment_template_tokens_fn())),
    ensures
        period_scan(t, i, x) == period_scan(t, i + opt_tokens(o, segment_template_tokens_fn()).len(), match o {
            Some(c) => PeriodV { segment_template: Some(c@), ..x },
            None => x,
        }),
{
    reveal(opt_tokens);
    if let Some(c) = o {
        let b = segment_template_tokens(c);
        lemma_period_names();
        lemma_segment_template_reads(t, i, c);
        lemma_holds_index(t, i, b, 0);
        assert(b[0] == TokenV::Start(local_of("SegmentTemplate"@), None, attrs_as_read(segment_template_attrs(c))));
    }
}

/// The written `asset_identifier`, when present, is read.
proof fn lemma_period_reads_asset_identifier(t: Seq<TokenV>, i: int, x: PeriodV, o: Option<Descriptor>)
    requires
        holds_at(t, i, opt_tokens(o, descriptor_tokens_fn("AssetIdentifier"@))),
    ensures
        period_scan(t, i, x) == period_scan(t, i + opt_tokens(o, descriptor_tokens_fn("AssetIdentifier"@)).len(), match o {
            Some(c) => PeriodV { asset_identifier: Some(c@), ..x },
            None => x,
        }),
{
    reveal(opt_tokens);
    if let Some(c) = o {
        let b = descriptor_tokens("AssetIdentifier"@, c);
        lemma_period_names();
        reveal(descriptor_inner_tokens);
        assert(b =~= seq![TokenV::Start(local_of("AssetIdentifier"@), None, attrs_as_read(descriptor_attrs(c))), TokenV::End(local_of("AssetIdentifier"@))]);
        lemma_holds_index(t, i, b, 0);
        lemma_holds_index(t, i, b, 1);
        law_descriptor_attributes_read_back(c);
        lemma_skip_empty(t, i + 1, local_of("AssetIdentifier"@));
    }
}

/// The written `event_streams` items are read in order.
proof fn lemma_period_reads_event_streams(t: Seq<TokenV>, i: int, x: PeriodV, s: Seq<EventStream>)
    requires
        holds_at(t, i, each_tokens(s, event_stream_tokens_fn())),
        forall|k: int| 0 <= k < s.len() ==> event_stream_clean(#[trigger] s[k]),
    ensures
        period_scan(t, i, x) == period_scan(t, i + each_tokens(s, event_stream_tokens_fn()).len(), PeriodV { event_streams: x.event_streams + views(s), ..x }),
    decreases s.len(),
{
    reveal(each_tokens);
    if s.len() == 0 {
        assert(x.event_streams + views(s) =~= x.event_streams);
    } else {
        let s0 = s.drop_last();
        let c = s.last();
        let a = each_tokens(s0, event_stream_tokens_fn());
        let b = event_stream_tokens(c);
        lemma_holds_cat(t, i, a, b);
        assert forall|k: int| 0 <= k < s0.len() implies event_stream_clean(#[trigger] s0[k]) by {
            assert(s0[k] == s[k]);
        }
        lemma_period_reads_event_streams(t, i, x, s0);
        assert(event_stream_clean(c)) by {
            assert(c == s[s.len() - 1]);
        }
        let j = i + a.len();
        lemma_period_names();
        lemma_event_stream_reads(t, j, c);
        lemma_holds_index(t, j, b, 0);
        assert(b[0] == TokenV::Start(local_of("EventStream"@), None, attrs_as_read(event_stream_attrs(c))));
        lemma_views_push(s0, c);
        assert(x.event_streams + views(s) =~= (x.event_streams + views(s0)).push(c@));
    }
}

/// The written `adaptation_sets` items are read in order.
proof fn lemma_period_reads_adaptation_sets(t: Seq<TokenV>, i: int, x: PeriodV, s: Seq<AdaptationSet>)
    requires
        holds_at(t, i, each_tokens(s, adaptation_set_tokens_fn())),
        forall|k: int| 0 <= k < s.len() ==> adaptation_set_clean(#[trigger] s[k]),
    ensures
        period_scan(t, i, x) == period_scan(t, i
            + each_tokens(s, adaptation_set_tokens_fn()).len(), PeriodV { adaptation_sets: x.adaptation_sets
            + views(s), ..x }),
    decreases s.len(),
{
    reveal(each_tokens);
    if s.len() == 0 {
        assert(x.adaptation_sets + views(s) =~= x.adaptation_sets);
    } else {
        let s0 = s.drop_last();
        let c = s.last();
        let a = each_tokens(s0, adaptation_set_tokens_fn());
        let b = adaptation_set_tokens(c);
        lemma_holds_cat(t, i, a, b);
        assert forall|k: int| 0 <= k < s0.len() implies adaptation_set_clean(#[trigger] s0[k]) by {
            assert(s0[k] == s[k]);
        }
        lemma_period_reads_adaptation_sets(t, i, x, s0);
        assert(adaptation_set_clean(c)) by {
            assert(c == s[s.len() - 1]);
        }
        let j = i + a.len();
        lemma_period_names();
        lemma_adaptation_set_reads(t, j, c);
        lemma_holds_index(t, j, b, 0);
        assert(b[0] == TokenV::Start(local_of("AdaptationSet"@), None, attrs_as_read(adaptation_set_attrs(c))));
        lemma_views_push(s0, c);
        assert(x.adaptation_sets + views(s) =~= (x.adaptation_sets + views(s0)).push(c@));
    }
}

/// The written `subsets` items are read in order.
proof fn lemma_period_reads_subsets(t: Seq<TokenV>, i: int, x: PeriodV, s: Seq<Subset>)
    requires
        holds_at(t, i, each_tokens(s, subset_tokens_fn())),
    ensures
        period_scan(t, i, x) == period_scan(t, i + each_tokens(s, subset_tokens_fn()).len(), PeriodV { subsets: x.subsets + views(s), ..x }),
    decreases s.len(),
{
    reveal(each_tokens);
    if s.len() == 0 {
        assert(x.subsets + views(s) =~= x.subsets);
    } else {
        let s0 = s.drop_last();
        let c = s.last();
        let a = each_tokens(s0, subset_tokens_fn());
        let b = subset_tokens(c);
        lemma_holds_cat(t, i, a, b);
        lemma_period_reads_subsets(t, i, x, s0);
        let j = i + a.len();
        lemma_period_names();
        reveal(subset_inner_tokens);
        assert(b =~= seq![TokenV::Start(local_of("Subset"@), None, attrs_as_read(subset_attrs(c))), TokenV::End(local_of("Subset"@))]);
        lemma_holds_index(t, j, b, 0);
        lemma_holds_index(t, j, b, 1);
        law_subset_attributes_read_back(c);
        lemma_skip_empty(t, j + 1, local_of("Subset"@));
        lemma_views_push(s0, c);
        assert(x.subsets + views(s) =~= (x.subsets + views(s0)).push(c@));
    }
}

/// The written `supplemental_properties` items are read in order.
proof fn lemma_period_reads_supplemental_properties(t: Seq<TokenV>, i: int, x: PeriodV, s: Seq<Descriptor>)
    requires
        holds_at(t, i, each_tokens(s, descriptor_tokens_fn("SupplementalProperty"@))),
    ensures
        period_scan(t, i, x) == period_scan(t, i
            + each_tokens(s, descriptor_tokens_fn("SupplementalProperty"@)).len(), PeriodV { supplemental_properties: x.supplemental_properties
            + views(s), ..x }),
    decreases s.len(),
{
    reveal(each_tokens);
    if s.len() == 0 {
        assert(x.supplemental_properties + views(s) =~= x.supplemental_properties);
    } else {
        let s0 = s.drop_last();
        let c = s.last();
        let a = each_tokens(s0, descriptor_tokens_fn("SupplementalProperty"@));
        let b = descriptor_tokens("SupplementalProperty"@, c);
        lemma_holds_cat(t, i, a, b);
        lemma_period_reads_supplemental_properties(t, i, x, s0);
        let j = i + a.len();
        lemma_period_names();
        reveal(descriptor_inner_tokens);
        assert(b =~= seq![TokenV::Start(local_of("SupplementalProperty"@),
            None,
            attrs_as_read(descriptor_attrs(c))),
            TokenV::End(local_of("SupplementalProperty"@))]);
        lemma_holds_index(t, j, b, 0);
        lemma_holds_index(t, j, b, 1);
        law_descriptor_attributes_read_back(c);
        lemma_skip_empty(t, j + 1, local_of("SupplementalProperty"@));
        lemma_views_push(s0, c);
        assert(x.supplemental_properties + views(s) =~= (x.supplemental_properties + views(s0)).push(c@));
    }
}

/// The written `essential_properties` items are read in order.
proof fn lemma_period_reads_essential_properties(t: Seq<TokenV>, i: int, x: PeriodV, s: Seq<Descriptor>)
    requires
        holds_at(t, i, each_tokens(s, descriptor_tokens_fn("EssentialProperty"@))),
    ensures
        period_scan(t, i, x) == period_scan(t, i
            + each_tokens(s, descriptor_tokens_fn("EssentialProperty"@)).len(), PeriodV { essential_properties: x.essential_properties
            + views(s), ..x }),
    decreases s.len(),
{
    reveal(each_tokens);
    if s.len() == 0 {
        assert(x.essential_properties + views(s) =~= x.essential_properties);
    } else {
        let s0 = s.drop_last();
        let c = s.last();
        let a = each_tokens(s0, descriptor_tokens_fn("EssentialProperty"@));
        let b = descriptor_tokens("EssentialProperty"@, c);
        lemma_holds_cat(t, i, a, b);
        lemma_period_reads_essential_properties(t, i, x, s0);
        let j = i + a.len();
        lemma_period_names();
        reveal(descriptor_inner_tokens);
        assert(b =~= seq![TokenV::Start(local_of("EssentialProperty"@),
            None,
            attrs_as_read(descriptor_attrs(c))),
            TokenV::End(local_of("EssentialProperty"@))]);
        lemma_holds_index(t, j, b, 0);
        lemma_holds_index(t, j, b, 1);
        law_descriptor_attributes_read_back(c);
        lemma_skip_empty(t, j + 1, local_of("EssentialProperty"@));
        lemma_views_push(s0, c);
        assert(x.essential_properties + views(s) =~= (x.essential_properties + views(s0)).push(c@));
    }
}

/// The written `preselections` items are read in order.
proof fn lemma_period_reads_preselections(t: Seq<TokenV>, i: int, x: PeriodV, s: Seq<Preselection>)
    requires
        holds_at(t, i, each_tokens(s, preselection_tokens_fn())),
        forall|k: int| 0 <= k < s.len() ==> preselection_clean(#[trigger] s[k]),
    ensures
        period_scan(t, i, x) == period_scan(t, i + each_tokens(s, preselection_tokens_fn()).len(), PeriodV { preselections: x.preselections + views(s), ..x }),
    decreases s.len(),
{
    reveal(each_tokens);
    if s.len() == 0 {
        assert(x.preselections + views(s) =~= x.preselections);
    } else {
        let s0 = s.drop_last();
        let c = s.last();
        let a = each_tokens(s0, preselection_tokens_fn());
        let b = preselection_tokens(c);
        lemma_holds_cat(t, i, a, b);
        assert forall|k: int| 0 <= k < s0.len() implies preselection_clean(#[trigger] s0[k]) by {
            assert(s0[k] == s[k]);
        }
        lemma_period_reads_preselections(t, i, x, s0);
        assert(preselection_clean(c)) by {
            assert(c == s[s.len() - 1]);
        }
        let j = i + a.len();
        lemma_period_names();
        lemma_preselection_reads(t, j, c);
        lemma_holds_index(t, j, b, 0);
        assert(b[0] == TokenV::Start(local_of("Preselection"@), None, attrs_as_read(preselection_attrs(c))));
        lemma_views_push(s0, c);
        assert(x.preselections + views(s) =~= (x.preselections + views(s0)).push(c@));
    }
}

/// A written `Period` element is read back whole, up to just after its end tag.
#[verifier::rlimit(60)]
pub proof fn lemma_period_reads(t: Seq<TokenV>, i: int, p: Period)
    requires
        holds_at(t, i, period_tokens(p)),
        period_clean(p),
    ensures
        period_at(t, i + 1, attrs_as_read(period_attrs(p))) == Ok::<(PeriodV, int), ErrorKind>((p@, i + period_tokens(p).len())),
{
    reveal(period_at);
    reveal(period_inner_tokens);
    lemma_period_names();
    law_period_attributes_read_back(p);
    let g0 = each_tokens(p.base_urls@, base_url_tokens_fn());
    let g1 = opt_tokens(p.segment_base, segment_base_tokens_fn());
    let g2 = opt_tokens(p.segment_list, segment_list_tokens_fn());
    let g3 = opt_tokens(p.segment_template, segment_template_tokens_fn());
    let g4 = opt_tokens(p.asset_identifier, descriptor_tokens_fn("AssetIdentifier"@));
    let g5 = each_tokens(p.event_streams@, event_stream_tokens_fn());
    let g6 = each_tokens(p.adaptation_sets@, adaptation_set_tokens_fn());
    let g7 = each_tokens(p.subsets@, subset_tokens_fn());
    let g8 = each_tokens(p.supplemental_properties@, descriptor_tokens_fn("SupplementalProperty"@));
    let g9 = each_tokens(p.essential_properties@, descriptor_tokens_fn("EssentialProperty"@));
    let g10 = each_tokens(p.preselections@, preselection_tokens_fn());
    let h1 = g0 + g1;
    let h2 = h1 + g2;
    let h3 = h2 + g3;
    let h4 = h3 + g4;
    let h5 = h4 + g5;
    let h6 = h5 + g6;
    let h7 = h6 + g7;
    let h8 = h7 + g8;
    let h9 = h8 + g9;
    let h10 = h9 + g10;
    let st = seq![TokenV::Start(local_of("Period"@), None, attrs_as_read(period_attrs(p)))];
    let en = seq![TokenV::End(local_of("Period"@))];
    assert(period_tokens(p) == st + h10 + en);
    lemma_holds_cat(t, i, st + h10, en);
    lemma_holds_cat(t, i, st, h10);
    lemma_holds_cat(t, i + 1, h9, g10);
    lemma_holds_cat(t, i + 1, h8, g9);
    lemma_holds_cat(t, i + 1, h7, g8);
    lemma_holds_cat(t, i + 1, h6, g7);
    lemma_holds_cat(t, i + 1, h5, g6);
    lemma_holds_cat(t, i + 1, h4, g5);
    lemma_holds_cat(t, i + 1, h3, g4);
    lemma_holds_cat(t, i + 1, h2, g3);
    lemma_holds_cat(t, i + 1, h1, g2);
    lemma_holds_cat(t, i + 1, g0, g1);
    let ghost x0 = PeriodV { base_urls: seq![],
        supplemental_properties: seq![],
        essential_properties: seq![],
        asset_identifier: None,
        event_streams: seq![],
        preselections: seq![],
        segment_base: None,
        segment_list: None,
        segment_template: None,
        subsets: seq![],
        adaptation_sets: seq![],
        ..p@ };
    let ghost q0 = i + 1;
    lemma_period_reads_base_urls(t, q0, x0, p.base_urls@);
    let ghost x1 = PeriodV { base_urls: x0.base_urls + views(p.base_urls@), ..x0 };
    let ghost q1 = q0 + g0.len();
    lemma_period_reads_segment_base(t, q1, x1, p.segment_base);
    let ghost x2 = match p.segment_base { Some(c) => PeriodV { segment_base: Some(c@), ..x1 }, None => x1 };
    let ghost q2 = q1 + g1.len();
    lemma_period_reads_segment_list(t, q2, x2, p.segment_list);
    let ghost x3 = match p.segment_list { Some(c) => PeriodV { segment_list: Some(c@), ..x2 }, None => x2 };
    let ghost q3 = q2 + g2.len();
    lemma_period_reads_segment_template(t, q3, x3, p.segment_template);
    let ghost x4 = match p.segment_template { Some(c) => PeriodV { segment_template: Some(c@), ..x3 }, None => x3 };
    let ghost q4 = q3 + g3.len();
    lemma_period_reads_asset_identifier(t, q4, x4, p.asset_identifier);
    let ghost x5 = match p.asset_identifier { Some(c) => PeriodV { asset_identifier: Some(c@), ..x4 }, None => x4 };
    let ghost q5 = q4 + g4.len();
    lemma_period_reads_event_streams(t, q5, x5, p.event_streams@);
    let ghost x6 = PeriodV { event_streams: x5.event_streams + views(p.event_streams@), ..x5 };
    let ghost q6 = q5 + g5.len();
    lemma_period_reads_adaptation_sets(t, q6, x6, p.adaptation_sets@);
    let ghost x7 = PeriodV { adaptation_sets: x6.adaptation_sets + views(p.adaptation_sets@), ..x6 };
    let ghost q7 = q6 + g6.len();
    lemma_period_reads_subsets(t, q7, x7, p.subsets@);
    let ghost x8 = PeriodV { subsets: x7.subsets + views(p.subsets@), ..x7 };
    let ghost q8 = q7 + g7.len();
    lemma_period_reads_supplemental_properties(t, q8, x8, p.supplemental_properties@);
    let ghost x9 = PeriodV { supplemental_properties: x8.supplemental_properties + views(p.supplemental_properties@), ..x8 };
    let ghost q9 = q8 + g8.len();
    lemma_period_reads_essential_properties(t, q9, x9, p.essential_properties@);
    let ghost x10 = PeriodV { essential_properties: x9.essential_properties + views(p.essential_properties@), ..x9 };
    let ghost q10 = q9 + g9.len();
    lemma_period_reads_preselections(t, q10, x10, p.preselections@);
    let ghost x11 = PeriodV { preselections: x10.preselections + views(p.preselections@), ..x10 };
    let ghost q11 = q10 + g10.len();
    lemma_holds_index(t, i + 1 + h10.len(), en, 0);
    assert(x0.base_urls + views(p.base_urls@) =~= views(p.base_urls@));
    assert(x0.event_streams + views(p.event_streams@) =~= views(p.event_streams@));
    assert(x0.adaptation_sets + views(p.adaptation_sets@) =~= views(p.adaptation_sets@));
    assert(x0.subsets + views(p.subsets@) =~= views(p.subsets@));
    assert(x0.supplemental_properties + views(p.supplemental_properties@) =~= views(p.supplemental_properties@));
    assert(x0.essential_properties + views(p.essential_properties@) =~= views(p.essential_properties@));
    assert(x0.preselections + views(p.preselections@) =~= views(p.preselections@));
    assert(x11 == p@);
}

/// How the reader names the elements that the writer writes in `MPD`,
/// and how those names differ.
proof fn lemma_mpd_names()
    ensures
        local_of("MPD"@) == "MPD"@,
        local_of("BaseURL"@) == "BaseURL"@,
        local_of("Location"@) == "Location"@,
        local_of("PatchLocation"@) == "PatchLocation"@,
        local_of("ServiceDescription"@) == "ServiceDescription"@,
        local_of("Period"@) == "Period"@,
        local_of("Metrics"@) == "Metrics"@,
        local_of("EssentialProperty"@) == "EssentialProperty"@,
        local_of("SupplementalProperty"@) == "SupplementalProperty"@,
        local_of("UTCTiming"@) == "UTCTiming"@,
        local_of("ContentSteering"@) == "ContentSteering"@,
        "MPD"@.len() == 3,
        "BaseURL"@.len() == 7,
        "UTCTiming"@.len() == 9,
        "Location"@.len() == 8,
        "PatchLocation"@.len() == 13,
        "ServiceDescription"@.len() == 18,
        "ContentSteering"@.len() == 15,
        "EssentialProperty"@.len() == 17,
        "SupplementalProperty"@.len() == 20,
        "Metrics"@.len() == 7,
        "Period"@.len() == 6,
        "BaseURL"@[0] == 'B',
        "Metrics"@[0] == 'M',
{
    reveal(local_of);
    reveal_with_fuel(first_index, 21);
    reveal_strlit("BaseURL");
    reveal_strlit("ContentSteering");
    reveal_strlit("EssentialProperty");
    reveal_strlit("Location");
    reveal_strlit("MPD");
    reveal_strlit("Metrics");
    reveal_strlit("PatchLocation");
    reveal_strlit("Period");
    reveal_strlit("ServiceDescription");
    reveal_strlit("SupplementalProperty");
    reveal_strlit("UTCTiming");
    assert("MPD"@.len() == 3);
    assert("BaseURL"@.len() == 7);
    assert("UTCTiming"@.len() == 9);
    assert("Location"@.len() == 8);
    assert("PatchLocation"@.len() == 13);
    assert("ServiceDescription"@.len() == 18);
    assert("ContentSteering"@.len() == 15);
    assert("EssentialProperty"@.len() == 17);
    assert("SupplementalProperty"@.len() == 20);
    assert("Metrics"@.len() == 7);
    assert("Period"@.len() == 6);
}

/// The written `base_urls` items are read in order.
proof fn lemma_mpd_reads_base_urls(t: Seq<TokenV>, i: int, x: MpdV, s: Seq<BaseUrl>)
    requires
        holds_at(t, i, each_tokens(s, base_url_tokens_fn())),
        forall|k: int| 0 <= k < s.len() ==> base_url_clean(#[trigger] s[k]),
    ensures
        mpd_scan(t, i, x) == mpd_scan(t, i + each_tokens(s, base_url_tokens_fn()).len(), MpdV { base_urls: x.base_urls + views(s), ..x }),
    decreases s.len(),
{
    reveal(each_tokens);
    if s.len() == 0 {
        assert(x.base_urls + views(s) =~= x.base_urls);
    } else {
        let s0 = s.drop_last();
        let c = s.last();
        let a = each_tokens(s0, base_url_tokens_fn());
        let b = base_url_tokens(c);
        lemma_holds_cat(t, i, a, b);
        assert forall|k: int| 0 <= k < s0.len() implies base_url_clean(#[trigger] s0[k]) by {
            assert(s0[k] == s[k]);
        }
        lemma_mpd_reads_base_urls(t, i, x, s0);
        assert(base_url_clean(c)) by {
            assert(c == s[s.len() - 1]);
        }
        let j = i + a.len();
        lemma_mpd_names();
        lemma_base_url_reads(t, j, c);
        lemma_holds_index(t, j, b, 0);
        assert(b[0] == TokenV::Start(local_of("BaseURL"@), None, attrs_as_read(base_url_attrs(c))));
        lemma_views_push(s0, c);
        assert(x.base_urls + views(s) =~= (x.base_urls + views(s0)).push(c@));
    }
}

/// The written `locations` items are read in order.
proof fn lemma_mpd_reads_locations(t: Seq<TokenV>, i: int, x: MpdV, s: Seq<Location>)
    requires
        holds_at(t, i, each_tokens(s, location_tokens_fn())),
        forall|k: int| 0 <= k < s.len() ==> location_clean(#[trigger] s[k]),
    ensures
        mpd_scan(t, i, x) == mpd_scan(t, i + each_tokens(s, location_tokens_fn()).len(), MpdV { locations: x.locations + views(s), ..x }),
    decreases s.len(),
{
    reveal(each_tokens);
    if s.len() == 0 {
        assert(x.locations + views(s) =~= x.locations);
    } else {
        let s0 = s.drop_last();
        let c = s.last();
        let a = each_tokens(s0, location_tokens_fn());
        let b = location_tokens(c);
        lemma_holds_cat(t, i, a, b);
        assert forall|k: int| 0 <= k < s0.len() implies location_clean(#[trigger] s0[k]) by {
            assert(s0[k] == s[k]);
        }
        lemma_mpd_reads_locations(t, i, x, s0);
        assert(location_clean(c)) by {
            assert(c == s[s.len() - 1]);
        }
        let j = i + a.len();
        lemma_mpd_names();
        lemma_location_reads(t, j, c);
        lemma_holds_index(t, j, b, 0);
        assert(b[0] == TokenV::Start(local_of("Location"@), None, attrs_as_read(location_attrs(c))));
        lemma_views_push(s0, c);
        assert(x.locations + views(s) =~= (x.locations + views(s0)).push(c@));
    }
}

/// The written `patch_locations` items are read in order.
proof fn lemma_mpd_reads_patch_locations(t: Seq<TokenV>, i: int, x: MpdV, s: Seq<PatchLocation>)
    requires
        holds_at(t, i, each_tokens(s, patch_location_tokens_fn())),
        forall|k: int| 0 <= k < s.len() ==> patch_location_clean(#[trigger] s[k]),
    ensures
        mpd_scan(t, i, x) == mpd_scan(t, i + each_tokens(s, patch_location_tokens_fn()).len(), MpdV { patch_locations: x.patch_locations + views(s), ..x }),
    decreases s.len(),
{
    reveal(each_tokens);
    if s.len() == 0 {
        assert(x.patch_locations + views(s) =~= x.patch_locations);
    } else {
        let s0 = s.drop_last();
        let c = s.last();
        let a = each_tokens(s0, patch_location_tokens_fn());
        let b = patch_location_tokens(c);
        lemma_holds_cat(t, i, a, b);
        assert forall|k: int| 0 <= k < s0.len() implies patch_location_clean(#[trigger] s0[k]) by {
            assert(s0[k] == s[k]);
        }
        lemma_mpd_reads_patch_locations(t, i, x, s0);
        assert(patch_location_clean(c)) by {
            assert(c == s[s.len() - 1]);
        }
        let j = i + a.len();
        lemma_mpd_names();
        lemma_patch_location_reads(t, j, c);
        lemma_holds_index(t, j, b, 0);
        assert(b[0] == TokenV::Start(local_of("PatchLocation"@), None, attrs_as_read(patch_location_attrs(c))));
        lemma_views_push(s0, c);
        assert(x.patch_locations + views(s) =~= (x.patch_locations + views(s0)).push(c@));
    }
}

/// The written `service_descriptions` items are read in order.
proof fn lemma_mpd_reads_service_descriptions(t: Seq<TokenV>, i: int, x: MpdV, s: Seq<ServiceDescription>)
    requires
        holds_at(t, i, each_tokens(s, service_description_tokens_fn())),
    ensures
        mpd_scan(t, i, x) == mpd_scan(t, i
            + each_tokens(s, service_description_tokens_fn()).len(), MpdV { service_descriptions: x.service_descriptions
            + views(s), ..x }),
    decreases s.len(),
{
    reveal(each_tokens);
    if s.len() == 0 {
        assert(x.service_descriptions + views(s) =~= x.service_descriptions);
    } else {
        let s0 = s.drop_last();
        let c = s.last();
        let a = each_tokens(s0, service_description_tokens_fn());
        let b = service_description_tokens(c);
        lemma_holds_cat(t, i, a, b);
        lemma_mpd_reads_service_descriptions(t, i, x, s0);
        let j = i + a.len();
        lemma_mpd_names();
        lemma_service_description_reads(t, j, c);
        lemma_holds_index(t, j, b, 0);
        assert(b[0] == TokenV::Start(local_of("ServiceDescription"@), None, attrs_as_read(service_description_attrs(c))));
        lemma_views_push(s0, c);
        assert(x.service_descriptions + views(s) =~= (x.service_descriptions + views(s0)).push(c@));
    }
}

/// The written `periods` items are read in order.
proof fn lemma_mpd_reads_periods(t: Seq<TokenV>, i: int, x: MpdV, s: Seq<Period>)
    requires
        holds_at(t, i, each_tokens(s, period_tokens_fn())),
        forall|k: int| 0 <= k < s.len() ==> period_clean(#[trigger] s[k]),
    ensures
        mpd_scan(t, i, x) == mpd_scan(t, i + each_tokens(s, period_tokens_fn()).len(), MpdV { periods: x.periods + views(s), ..x }),
    decreases s.len(),
{
    reveal(each_tokens);
    if s.len() == 0 {
        assert(x.periods + views(s) =~= x.periods);
    } else {
        let s0 = s.drop_last();
        let c = s.last();
        let a = each_tokens(s0, period_tokens_fn());
        let b = period_tokens(c);
        lemma_holds_cat(t, i, a, b);
        assert forall|k: int| 0 <= k < s0.len() implies period_clean(#[trigger] s0[k]) by {
            assert(s0[k] == s[k]);
        }
        lemma_mpd_reads_periods(t, i, x, s0);
        assert(period_clean(c)) by {
            assert(c == s[s.len() - 1]);
        }
        let j = i + a.len();
        lemma_mpd_names();
        lemma_period_reads(t, j, c);
        lemma_holds_index(t, j, b, 0);
        assert(b[0] == TokenV::Start(local_of("Period"@), None, attrs_as_read(period_attrs(c))));
        lemma_views_push(s0, c);
        assert(x.periods + views(s) =~= (x.periods + views(s0)).push(c@));
    }
}

/// The written `metrics` items are read in order.
proof fn lemma_mpd_reads_metrics(t: Seq<TokenV>, i: int, x: MpdV, s: Seq<Metrics>)
    requires
        holds_at(t, i, each_tokens(s, metrics_tokens_fn())),
        forall|k: int| 0 <= k < s.len() ==> metrics_clean(#[trigger] s[k]),
    ensures
        mpd_scan(t, i, x) == mpd_scan(t, i + each_tokens(s, metrics_tokens_fn()).len(), MpdV { metrics: x.metrics + views(s), ..x }),
    decreases s.len(),
{
    reveal(each_tokens);
    if s.len() == 0 {
        assert(x.metrics + views(s) =~= x.metrics);
    } else {
        let s0 = s.drop_last();
        let c = s.last();
        let a = each_tokens(s0, metrics_tokens_fn());
        let b = metrics_tokens(c);
        lemma_holds_cat(t, i, a, b);
        assert forall|k: int| 0 <= k < s0.len() implies metrics_clean(#[trigger] s0[k]) by {
            assert(s0[k] == s[k]);
        }
        lemma_mpd_reads_metrics(t, i, x, s0);
        assert(metrics_clean(c)) by {
            assert(c == s[s.len() - 1]);
        }
        let j = i + a.len();
        lemma_mpd_names();
        lemma_metrics_reads(t, j, c);
        lemma_holds_index(t, j, b, 0);
        assert(b[0] == TokenV::Start(local_of("Metrics"@), None, attrs_as_read(metrics_attrs(c))));
        lemma_views_push(s0, c);
        assert(x.metrics + views(s) =~= (x.metrics + views(s0)).push(c@));
    }
}

/// The written `essential_properties` items are read in order.
proof fn lemma_mpd_reads_essential_properties(t: Seq<TokenV>, i: int, x: MpdV, s: Seq<Descriptor>)
    requires
        holds_at(t, i, each_tokens(s, descriptor_tokens_fn("EssentialProperty"@))),
    ensures
        mpd_scan(t, i, x) == mpd_scan(t, i
            + each_tokens(s, descriptor_tokens_fn("EssentialProperty"@)).len(), MpdV { essential_properties: x.essential_properties
            + views(s), ..x }),
    decreases s.len(),
{
    reveal(each_tokens);
    if s.len() == 0 {
        assert(x.essential_properties + views(s) =~= x.essential_properties);
    } else {
        let s0 = s.drop_last();
        let c = s.last();
        let a = each_tokens(s0, descriptor_tokens_fn("EssentialProperty"@));
        let b = descriptor_tokens("EssentialProperty"@, c);
        lemma_holds_cat(t, i, a, b);
        lemma_mpd_reads_essential_properties(t, i, x, s0);
        let j = i + a.len();
        lemma_mpd_names();
        reveal(descriptor_inner_tokens);
        assert(b =~= seq![TokenV::Start(local_of("EssentialProperty"@),
            None,
            attrs_as_read(descriptor_attrs(c))),
            TokenV::End(local_of("EssentialProperty"@))]);
        lemma_holds_index(t, j, b, 0);
        lemma_holds_index(t, j, b, 1);
        law_descriptor_attributes_read_back(c);
        lemma_skip_empty(t, j + 1, local_of("EssentialProperty"@));
        lemma_views_push(s0, c);
        assert(x.essential_properties + views(s) =~= (x.essential_properties + views(s0)).push(c@));
    }
}

/// The written `supplemental_properties` items are read in order.
proof fn lemma_mpd_reads_supplemental_properties(t: Seq<TokenV>, i: int, x: MpdV, s: Seq<Descriptor>)
    requires
        holds_at(t, i, each_tokens(s, descriptor_tokens_fn("SupplementalProperty"@))),
    ensures
        mpd_scan(t, i, x) == mpd_scan(t, i
            + each_tokens(s, descriptor_tokens_fn("SupplementalProperty"@)).len(), MpdV { supplemental_properties: x.supplemental_properties
            + views(s), ..x }),
    decreases s.len(),
{
    reveal(each_tokens);
    if s.len() == 0 {
        assert(x.supplemental_properties + views(s) =~= x.supplemental_properties);
    } else {
        let s0 = s.drop_last();
        let c = s.last();
        let a = each_tokens(s0, descriptor_tokens_fn("SupplementalProperty"@));
        let b = descriptor_tokens("SupplementalProperty"@, c);
        lemma_holds_cat(t, i, a, b);
        lemma_mpd_reads_supplemental_properties(t, i, x, s0);
        let j = i + a.len();
        lemma_mpd_names();
        reveal(descriptor_inner_tokens);
        assert(b =~= seq![TokenV::Start(local_of("SupplementalProperty"@),
            None,
            attrs_as_read(descriptor_attrs(c))),
            TokenV::End(local_of("SupplementalProperty"@))]);
        lemma_holds_index(t, j, b, 0);
        lemma_holds_index(t, j, b, 1);
        law_descriptor_attributes_read_back(c);
        lemma_skip_empty(t, j + 1, local_of("SupplementalProperty"@));
        lemma_views_push(s0, c);
        assert(x.supplemental_properties + views(s) =~= (x.supplemental_properties + views(s0)).push(c@));
    }
}

/// The written `utc_timings` items are read in order.
proof fn lemma_mpd_reads_utc_timings(t: Seq<TokenV>, i: int, x: MpdV, s: Seq<UtcTiming>)
    requires
        holds_at(t, i, each_tokens(s, utc_timing_tokens_fn())),
    ensures
        mpd_scan(t, i, x) == mpd_scan(t, i + each_tokens(s, utc_timing_tokens_fn()).len(), MpdV { utc_timings: x.utc_timings + views(s), ..x }),
    decreases s.len(),
{
    reveal(each_tokens);
    if s.len() == 0 {
        assert(x.utc_timings + views(s) =~= x.utc_timings);
    } else {
        let s0 = s.drop_last();
        let c = s.last();
        let a = each_tokens(s0, utc_timing_tokens_fn());
        let b = utc_timing_tokens(c);
        lemma_holds_cat(t, i, a, b);
        lemma_mpd_reads_utc_timings(t, i, x, s0);
        let j = i + a.len();
        lemma_mpd_names();
        reveal(utc_timing_inner_tokens);
        assert(b =~= seq![TokenV::Start(local_of("UTCTiming"@), None, attrs_as_read(utc_timing_attrs(c))), TokenV::End(local_of("UTCTiming"@))]);
        lemma_holds_index(t, j, b, 0);
        lemma_holds_index(t, j, b, 1);
        law_utc_timing_attributes_read_back(c);
        lemma_skip_empty(t, j + 1, local_of("UTCTiming"@));
        lemma_views_push(s0, c);
        assert(x.utc_timings + views(s) =~= (x.utc_timings + views(s0)).push(c@));
    }
}

/// The written `content_steering`, when present, is read.
proof fn lemma_mpd_reads_content_steering(t: Seq<TokenV>, i: int, x: MpdV, o: Option<ContentSteering>)
    requires
        holds_at(t, i, opt_tokens(o, content_steering_tokens_fn())),
        o matches Some(c) ==> content_steering_clean(c),
    ensures
        mpd_scan(t, i, x) == mpd_scan(t, i + opt_tokens(o, content_steering_tokens_fn()).len(), match o {
            Some(c) => MpdV { content_steering: Some(c@), ..x },
            None => x,
        }),
{
    reveal(opt_tokens);
    if let Some(c) = o {
        let b = content_steering_tokens(c);
        lemma_mpd_names();
        lemma_content_steering_reads(t, i, c);
        lemma_holds_index(t, i, b, 0);
        assert(b[0] == TokenV::Start(local_of("ContentSteering"@), None, attrs_as_read(content_steering_attrs(c))));
    }
}

/// A written `MPD` element is read back whole, up to just after its end tag.
#[verifier::rlimit(60)]
pub proof fn lemma_mpd_reads(t: Seq<TokenV>, i: int, m: Mpd)
    requires
        holds_at(t, i, mpd_tokens(m)),
        mpd_clean(m),
    ensures
        mpd_at(t, i + 1, attrs_as_read(mpd_attrs(m))) == Ok::<(MpdV, int), ErrorKind>((m@, i + mpd_tokens(m).len())),
{
    reveal(mpd_at);
    reveal(mpd_inner_tokens);
    lemma_mpd_names();
    law_mpd_attributes_read_back(m);
    let g0 = each_tokens(m.base_urls@, base_url_tokens_fn());
    let g1 = each_tokens(m.locations@, location_tokens_fn());
    let g2 = each_tokens(m.patch_locations@, patch_location_tokens_fn());
    let g3 = each_tokens(m.service_descriptions@, service_description_tokens_fn());
    let g4 = each_tokens(m.periods@, period_tokens_fn());
    let g5 = each_tokens(m.metrics@, metrics_tokens_fn());
    let g6 = each_tokens(m.essential_properties@, descriptor_tokens_fn("EssentialProperty"@));
    let g7 = each_tokens(m.supplemental_properties@, descriptor_tokens_fn("SupplementalProperty"@));
    let g8 = each_tokens(m.utc_timings@, utc_timing_tokens_fn());
    let g9 = opt_tokens(m.content_steering, content_steering_tokens_fn());
    let h1 = g0 + g1;
    let h2 = h1 + g2;
    let h3 = h2 + g3;
    let h4 = h3 + g4;
    let h5 = h4 + g5;
    let h6 = h5 + g6;
    let h7 = h6 + g7;
    let h8 = h7 + g8;
    let h9 = h8 + g9;
    let st = seq![TokenV::Start(local_of("MPD"@), None, attrs_as_read(mpd_attrs(m)))];
    let en = seq![TokenV::End(local_of("MPD"@))];
    assert(mpd_tokens(m) == st + h9 + en);
    lemma_holds_cat(t, i, st + h9, en);
    lemma_holds_cat(t, i, st, h9);
    lemma_holds_cat(t, i + 1, h8, g9);
    lemma_holds_cat(t, i + 1, h7, g8);
    lemma_holds_cat(t, i + 1, h6, g7);
    lemma_holds_cat(t, i + 1, h5, g6);
    lemma_holds_cat(t, i + 1, h4, g5);
    lemma_holds_cat(t, i + 1, h3, g4);
    lemma_holds_cat(t, i + 1, h2, g3);
    lemma_holds_cat(t, i + 1, h1, g2);
    lemma_holds_cat(t, i + 1, g0, g1);
    let ghost x0 = MpdV { base_urls: seq![],
        utc_timings: seq![],
        locations: seq![],
        service_descriptions: seq![],
        content_steering: None,
        patch_locations: seq![],
        essential_properties: seq![],
        supplemental_properties: seq![],
        metrics: seq![],
        periods: seq![],
        ..m@ };
    let ghost q0 = i + 1;
    lemma_mpd_reads_base_urls(t, q0, x0, m.base_urls@);
    let ghost x1 = MpdV { base_urls: x0.base_urls + views(m.base_urls@), ..x0 };
    let ghost q1 = q0 + g0.len();
    lemma_mpd_reads_locations(t, q1, x1, m.locations@);
    let ghost x2 = MpdV { locations: x1.locations + views(m.locations@), ..x1 };
    let ghost q2 = q1 + g1.len();
    lemma_mpd_reads_patch_locations(t, q2, x2, m.patch_locations@);
    let ghost x3 = MpdV { patch_locations: x2.patch_locations + views(m.patch_locations@), ..x2 };
    let ghost q3 = q2 + g2.len();
    lemma_mpd_reads_service_descriptions(t, q3, x3, m.service_descriptions@);
    let ghost x4 = MpdV { service_descriptions: x3.service_descriptions + views(m.service_descriptions@), ..x3 };
    let ghost q4 = q3 + g3.len();
    lemma_mpd_reads_periods(t, q4, x4, m.periods@);
    let ghost x5 = MpdV { periods: x4.periods + views(m.periods@), ..x4 };
    let ghost q5 = q4 + g4.len();
    lemma_mpd_reads_metrics(t, q5, x5, m.metrics@);
    let ghost x6 = MpdV { metrics: x5.metrics + views(m.metrics@), ..x5 };
    let ghost q6 = q5 + g5.len();
    lemma_mpd_reads_essential_properties(t, q6, x6, m.essential_properties@);
    let ghost x7 = MpdV { essential_properties: x6.essential_properties + views(m.essential_properties@), ..x6 };
    let ghost q7 = q6 + g6.len();
    lemma_mpd_reads_supplemental_properties(t, q7, x7, m.supplemental_properties@);
    let ghost x8 = MpdV { supplemental_properties: x7.supplemental_properties + views(m.supplemental_properties@), ..x7 };
    let ghost q8 = q7 + g7.len();
    lemma_mpd_reads_utc_timings(t, q8, x8, m.utc_timings@);
    let ghost x9 = MpdV { utc_timings: x8.utc_timings + views(m.utc_timings@), ..x8 };
    let ghost q9 = q8 + g8.len();
    lemma_mpd_reads_content_steering(t, q9, x9, m.content_steering);
    let ghost x10 = match m.content_steering { Some(c) => MpdV { content_steering: Some(c@), ..x9 }, None => x9 };
    let ghost q10 = q9 + g9.len();
    lemma_holds_index(t, i + 1 + h9.len(), en, 0);
    assert(x0.base_urls + views(m.base_urls@) =~= views(m.base_urls@));
    assert(x0.locations + views(m.locations@) =~= views(m.locations@));
    assert(x0.patch_locations + views(m.patch_locations@) =~= views(m.patch_locations@));
    assert(x0.service_descriptions + views(m.service_descriptions@) =~= views(m.service_descriptions@));
    assert(x0.periods + views(m.periods@) =~= views(m.periods@));
    assert(x0.metrics + views(m.metrics@) =~= views(m.metrics@));
    assert(x0.essential_properties + views(m.essential_properties@) =~= views(m.essential_properties@));
    assert(x0.supplemental_properties + views(m.supplemental_properties@) =~= views(m.supplemental_properties@));
    assert(x0.utc_timings + views(m.utc_timings@) =~= views(m.utc_timings@));
    assert(x10 == m@);
}

/// The tokens of a written MPD, followed by the end of the document, are
/// read into that MPD.
pub proof fn lemma_mpd_tokens_read_back(m: Mpd)
    requires
        mpd_clean(m),
    ensures
        mpd_of_tokens(mpd_tokens(m) + seq![TokenV::EndDocument]) == Ok::<MpdV, ErrorKind>(m@),
{
    let t = mpd_tokens(m) + seq![TokenV::EndDocument];
    assert(t.subrange(0, mpd_tokens(m).len() as int) =~= mpd_tokens(m));
    lemma_mpd_reads(t, 0, m);
    lemma_mpd_names();
    lemma_holds_index(t, 0, mpd_tokens(m), 0);
    assert(mpd_tokens(m)[0] == TokenV::Start(local_of("MPD"@), None, attrs_as_read(mpd_attrs(m))));
}

} // verus!
