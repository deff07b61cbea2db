//! What a reader reports for the events that the writer writes: the tokens
//! of each written element are those that the reader reads back, so that
//! reading a written MPD gives it back.
use vstd::prelude::*;

use crate::error::ErrorKind;
use crate::model::MpdV;
use crate::reader::mpd_of_tokens;
use crate::reread::{attrs_as_read, local_of};
use crate::roundtrip::{
    adaptation_set_inner_tokens, adaptation_set_tokens, adaptation_set_tokens_fn,
    base_url_inner_tokens, base_url_tokens, base_url_tokens_fn, cert_url_inner_tokens,
    cert_url_tokens, cert_url_tokens_fn, characters_tokens, client_data_reporting_inner_tokens,
    client_data_reporting_tokens, client_data_reporting_tokens_fn, cmcd_parameters_inner_tokens,
    cmcd_parameters_tokens, cmcd_parameters_tokens_fn, content_component_inner_tokens,
    content_component_tokens, content_component_tokens_fn, content_protection_inner_tokens,
    content_protection_tokens, content_protection_tokens_fn, content_steering_inner_tokens,
    content_steering_tokens, content_steering_tokens_fn, descriptor_inner_tokens,
    descriptor_tokens, descriptor_tokens_fn, each_tokens, element_tokens, event_inner_tokens,
    event_stream_inner_tokens, event_stream_tokens, event_stream_tokens_fn, event_tokens,
    event_tokens_fn, label_inner_tokens, label_tokens, label_tokens_fn, latency_inner_tokens,
    latency_tokens, latency_tokens_fn, lemma_mpd_tokens_read_back, location_inner_tokens,
    location_tokens, location_tokens_fn, metrics_inner_tokens, metrics_range_inner_tokens,
    metrics_range_tokens, metrics_range_tokens_fn, metrics_tokens, metrics_tokens_fn, mpd_clean,
    mpd_inner_tokens, mpd_tokens, operating_bandwidth_inner_tokens, operating_bandwidth_tokens,
    operating_bandwidth_tokens_fn, operating_quality_inner_tokens, operating_quality_tokens,
    operating_quality_tokens_fn, opt_text_tokens, opt_timeline_tokens, opt_tokens, pair_tokens,
    patch_location_inner_tokens, patch_location_tokens, patch_location_tokens_fn,
    period_inner_tokens, period_tokens, period_tokens_fn, playback_rate_inner_tokens,
    playback_rate_tokens, playback_rate_tokens_fn, preselection_inner_tokens,
    preselection_tokens, preselection_tokens_fn, producer_reference_time_inner_tokens,
    producer_reference_time_tokens, producer_reference_time_tokens_fn,
    representation_inner_tokens, representation_tokens, representation_tokens_fn,
    segment_base_inner_tokens, segment_base_tokens, segment_base_tokens_fn,
    segment_list_inner_tokens, segment_list_tokens, segment_list_tokens_fn,
    segment_sequence_properties_inner_tokens, segment_sequence_properties_tokens,
    segment_sequence_properties_tokens_fn, segment_template_inner_tokens,
    segment_template_tokens, segment_template_tokens_fn, segment_url_inner_tokens,
    segment_url_tokens, segment_url_tokens_fn, service_description_inner_tokens,
    service_description_tokens, service_description_tokens_fn, signal_tokens,
    sub_representation_inner_tokens, sub_representation_tokens, sub_representation_tokens_fn,
    subset_inner_tokens, subset_tokens, subset_tokens_fn, text_element_tokens,
    timeline_entry_inner_tokens, timeline_entry_tokens, timeline_entry_tokens_fn,
    utc_timing_inner_tokens, utc_timing_tokens, utc_timing_tokens_fn
};
use crate::types::{
    AdaptationSet, BaseUrl, CertUrl, ClientDataReporting, CmcdParameters, ContentComponent,
    ContentProtection, ContentSteering, Descriptor, Event, EventStream, Label, Latency,
    Location, Metrics, MetricsRange, Mpd, OperatingBandwidth, OperatingQuality, PatchLocation,
    Period, PlaybackRate, Preselection, ProducerReferenceTime, Representation, SegmentBase,
    SegmentList, SegmentSequenceProperties, SegmentTemplate, SegmentUrl, ServiceDescription,
    SubRepresentation, Subset, TimelineEntry, UtcTiming
};
use crate::writer::{
    Attrs, adaptation_set_attrs, adaptation_set_events, adaptation_set_fn, adaptation_set_inner,
    balanced, base_url_attrs, base_url_events, base_url_fn, base_url_inner, cert_url_attrs,
    cert_url_events, cert_url_fn, cert_url_inner, client_data_reporting_attrs,
    client_data_reporting_events, client_data_reporting_fn, client_data_reporting_inner,
    cmcd_parameters_attrs, cmcd_parameters_events, cmcd_parameters_fn, cmcd_parameters_inner,
    content_component_attrs, content_component_events, content_component_fn,
    content_component_inner, content_protection_attrs, content_protection_events,
    content_protection_fn, content_protection_inner, content_steering_attrs,
    content_steering_events, content_steering_fn, content_steering_inner, descriptor_attrs,
    descriptor_events, descriptor_fn, descriptor_inner, each_events, element_events,
    event_attrs, event_events, event_fn, event_inner, event_stream_attrs, event_stream_events,
    event_stream_fn, event_stream_inner, label_attrs, label_events, label_fn, label_inner,
    latency_attrs, latency_events, latency_fn, latency_inner, lemma_balanced_cat,
    lemma_balanced_empty, lemma_characters_balanced, lemma_element_balanced,
    lemma_opt_text_balanced, lemma_opt_timeline_balanced, lemma_pair_balanced,
    lemma_signal_balanced, lemma_text_element_balanced, location_attrs, location_events,
    location_fn, location_inner, metrics_attrs, metrics_events, metrics_fn, metrics_inner,
    metrics_range_attrs, metrics_range_events, metrics_range_fn, metrics_range_inner, mpd_attrs,
    mpd_events, mpd_inner, mpd_namespaces, operating_bandwidth_attrs,
    operating_bandwidth_events, operating_bandwidth_fn, operating_bandwidth_inner,
    operating_quality_attrs, operating_quality_events, operating_quality_fn,
    operating_quality_inner, opt_attr, opt_events, opt_text_events, opt_timeline_events,
    pair_events, patch_location_attrs, patch_location_events, patch_location_fn,
    patch_location_inner, period_attrs, period_events, period_fn, period_inner,
    playback_rate_attrs, playback_rate_events, playback_rate_fn, playback_rate_inner,
    preselection_attrs, preselection_events, preselection_fn, preselection_inner,
    producer_reference_time_attrs, producer_reference_time_events, producer_reference_time_fn,
    producer_reference_time_inner, representation_attrs, representation_events,
    representation_fn, representation_inner, segment_base_attrs, segment_base_events,
    segment_base_fn, segment_base_inner, segment_list_attrs, segment_list_events,
    segment_list_fn, segment_list_inner, segment_sequence_properties_attrs,
    segment_sequence_properties_events, segment_sequence_properties_fn,
    segment_sequence_properties_inner, segment_template_attrs, segment_template_events,
    segment_template_fn, segment_template_inner, segment_url_attrs, segment_url_events,
    segment_url_fn, segment_url_inner, service_description_attrs, service_description_events,
    service_description_fn, service_description_inner, signal_events, sub_representation_attrs,
    sub_representation_events, sub_representation_fn, sub_representation_inner, subset_attrs,
    subset_events, subset_fn, subset_inner, text_element_events, timeline_entry_attrs,
    timeline_entry_events, timeline_entry_fn, timeline_entry_inner, utc_timing_attrs,
    utc_timing_events, utc_timing_fn, utc_timing_inner
};
use crate::xml_io::{ends_matched, open_depth, TokenV, WriteEventV};

verus! {

/// The elements open after the events `e`, written when the elements named
/// `open` were open (the innermost last).
pub open spec fn open_after(e: Seq<WriteEventV>, open: Seq<Seq<char>>) -> Seq<Seq<char>>
    decreases e.len(),
{
    if e.len() == 0 {
        open
    } else {
        let s = open_after(e.drop_last(), open);
        match e.last() {
            WriteEventV::Start(n, _, _) => s.push(n),
            WriteEventV::End => s.drop_last(),
            WriteEventV::Characters(_) => s,
        }
    }
}

/// The token that a reader reports for the event `ev`, written when the
/// elements named `open` are open: a start tag under its local name, with
/// its attributes as the reader names them; character data as it is; an end
/// tag under the local name of the element that it closes.
pub open spec fn event_token(ev: WriteEventV, open: Seq<Seq<char>>) -> TokenV {
    match ev {
        WriteEventV::Start(n, _, a) => TokenV::Start(local_of(n), None, attrs_as_read(a)),
        WriteEventV::Characters(s) => TokenV::Characters(s),
        WriteEventV::End => TokenV::End(local_of(open.last())),
    }
}

/// The tokens that a reader reports for the events `e`, written when the
/// elements named `open` were open.
pub open spec fn events_tokens(e: Seq<WriteEventV>, open: Seq<Seq<char>>) -> Seq<TokenV>
    decreases e.len(),
{
    if e.len() == 0 {
        seq![]
    } else {
        events_tokens(e.drop_last(), open).push(event_token(e.last(), open_after(e.drop_last(), open)))
    }
}

/// Events written one after the other.
proof fn lemma_events_cat(a: Seq<WriteEventV>, b: Seq<WriteEventV>, s: Seq<Seq<char>>)
    ensures
        open_after(a + b, s) == open_after(b, open_after(a, s)),
        events_tokens(a + b, s) == events_tokens(a, s) + events_tokens(b, open_after(a, s)),
    decreases b.len(),
{
    if b.len() == 0 {
        assert(a + b =~= a);
        assert(events_tokens(a, s) + events_tokens(b, open_after(a, s)) =~= events_tokens(a, s));
    } else {
        let b0 = b.drop_last();
        lemma_events_cat(a, b0, s);
        assert((a + b).drop_last() =~= a + b0);
        assert((a + b).last() == b.last());
        assert(events_tokens(a + b, s) =~= events_tokens(a, s) + events_tokens(b, open_after(a, s)));
    }
}

/// Events whose end tags close only what they opened report the same
/// tokens whatever was open before them, and leave it open.
proof fn lemma_events_nested(e: Seq<WriteEventV>, s: Seq<Seq<char>>)
    requires
        ends_matched(e),
    ensures
        open_after(e, s) == s + open_after(e, seq![]),
        open_after(e, seq![]).len() == open_depth(e),
        events_tokens(e, s) == events_tokens(e, seq![]),
    decreases e.len(),
{
    if e.len() == 0 {
        assert(s + Seq::<Seq<char>>::empty() =~= s);
    } else {
        let e0 = e.drop_last();
        assert forall|k: int| 0 <= k <= e0.len() implies open_depth(#[trigger] e0.take(k)) >= 0 by {
            assert(e0.take(k) =~= e.take(k));
        }
        lemma_events_nested(e0, s);
        let x = open_after(e0, seq![]);
        assert(e.take(e.len() as int) =~= e);
        match e.last() {
            WriteEventV::Start(n, _, _) => {
                assert((s + x).push(n) =~= s + x.push(n));
            },
            WriteEventV::End => {
                assert(x.len() >= 1);
                assert((s + x).drop_last() =~= s + x.drop_last());
                assert((s + x).last() == x.last());
            },
            WriteEventV::Characters(_) => {},
        }
    }
}

/// The tokens of well nested events written one after the other.
proof fn lemma_tokens_cat(a: Seq<WriteEventV>, b: Seq<WriteEventV>)
    requires
        balanced(a),
    ensures
        events_tokens(a + b, seq![]) == events_tokens(a, seq![]) + events_tokens(b, seq![]),
{
    lemma_events_cat(a, b, seq![]);
    lemma_events_nested(a, seq![]);
    assert(open_after(a, seq![]) =~= Seq::<Seq<char>>::empty());
}

/// The tokens of an element: its start tag, what lies inside, its end tag.
proof fn lemma_element_tokens(n: Seq<char>, ns: Attrs, a: Attrs, inner: Seq<WriteEventV>)
    requires
        balanced(inner),
    ensures
        balanced(element_events(n, ns, a, inner)),
        events_tokens(element_events(n, ns, a, inner), seq![]) == element_tokens(n, a, events_tokens(inner, seq![])),
{
    lemma_element_balanced(n, ns, a, inner);
    let st = seq![WriteEventV::Start(n, ns, a)];
    let en = seq![WriteEventV::End];
    lemma_events_cat(st + inner, en, seq![]);
    lemma_events_cat(st, inner, seq![]);
    assert(st.drop_last() =~= Seq::<WriteEventV>::empty());
    assert(open_after(st, seq![]) =~= seq![n]);
    assert(st.last() == WriteEventV::Start(n, ns, a));
    assert(events_tokens(Seq::<WriteEventV>::empty(), seq![]) == Seq::<TokenV>::empty());
    assert(events_tokens(st, seq![]) == Seq::<TokenV>::empty().push(event_token(st.last(), open_after(st.drop_last(), seq![]))));
    assert(events_tokens(st, seq![]) =~= seq![TokenV::Start(local_of(n), None, attrs_as_read(a))]);
    lemma_events_nested(inner, seq![n]);
    assert(open_after(inner, seq![]) =~= Seq::<Seq<char>>::empty());
    assert(seq![n] + Seq::<Seq<char>>::empty() =~= seq![n]);
    assert(en.drop_last() =~= Seq::<WriteEventV>::empty());
    assert(en.last() == WriteEventV::End);
    assert(events_tokens(Seq::<WriteEventV>::empty(), seq![n]) == Seq::<TokenV>::empty());
    assert(open_after(Seq::<WriteEventV>::empty(), seq![n]) == seq![n]);
    assert(events_tokens(en, seq![n]) == Seq::<TokenV>::empty().push(event_token(en.last(), open_after(en.drop_last(), seq![n]))));
    assert(seq![n].last() == n);
    assert(events_tokens(en, seq![n]) =~= seq![TokenV::End(local_of(n))]);
}

/// The tokens of each item of a list of well nested items.
proof fn lemma_each_tokens<T>(s: Seq<T>, f: spec_fn(T) -> Seq<WriteEventV>, g: spec_fn(T) -> Seq<TokenV>)
    requires
        forall|x: T| #[trigger] balanced(f(x)) && events_tokens(f(x), seq![]) == g(x),
    ensures
        balanced(each_events(s, f)),
        events_tokens(each_events(s, f), seq![]) == each_tokens(s, g),
    decreases s.len(),
{
    reveal(each_events);
    reveal(each_tokens);
    if s.len() == 0 {
        lemma_balanced_empty();
    } else {
        lemma_each_tokens(s.drop_last(), f, g);
        let x = s.last();
        assert(balanced(f(x)) && events_tokens(f(x), seq![]) == g(x));
        lemma_tokens_cat(each_events(s.drop_last(), f), f(x));
        lemma_balanced_cat(each_events(s.drop_last(), f), f(x));
    }
}

/// The tokens of an optional well nested item.
proof fn lemma_opt_tokens<T>(o: Option<T>, f: spec_fn(T) -> Seq<WriteEventV>, g: spec_fn(T) -> Seq<TokenV>)
    requires
        forall|x: T| #[trigger] balanced(f(x)) && events_tokens(f(x), seq![]) == g(x),
    ensures
        balanced(opt_events(o, f)),
        events_tokens(opt_events(o, f), seq![]) == opt_tokens(o, g),
{
    reveal(opt_events);
    reveal(opt_tokens);
    if let Some(x) = o {
        assert(balanced(f(x)) && events_tokens(f(x), seq![]) == g(x));
    } else {
        lemma_balanced_empty();
    }
}

proof fn lemma_characters_tokens(s: Seq<char>)
    ensures
        balanced(seq![WriteEventV::Characters(s)]),
        events_tokens(seq![WriteEventV::Characters(s)], seq![]) == characters_tokens(s),
{
    lemma_characters_balanced(s);
    assert(seq![WriteEventV::Characters(s)].drop_last() =~= Seq::<WriteEventV>::empty());
    let e = seq![WriteEventV::Characters(s)];
    assert(e.last() == WriteEventV::Characters(s));
    assert(events_tokens(Seq::<WriteEventV>::empty(), seq![]) == Seq::<TokenV>::empty());
    assert(events_tokens(e, seq![]) == Seq::<TokenV>::empty().push(event_token(e.last(), open_after(e.drop_last(), seq![]))));
    assert(events_tokens(e, seq![]) =~= characters_tokens(s));
}

proof fn lemma_opt_text_tokens(v: Option<String>)
    ensures
        balanced(opt_text_events(v)),
        events_tokens(opt_text_events(v), seq![]) == opt_text_tokens(v),
{
    lemma_opt_text_balanced(v);
    if let Some(s) = v {
        lemma_characters_tokens(s@);
    }
}

proof fn lemma_text_element_tokens(name: Seq<char>, v: Option<String>)
    ensures
        balanced(text_element_events(name, v)),
        events_tokens(text_element_events(name, v), seq![]) == text_element_tokens(name, v),
{
    lemma_text_element_balanced(name, v);
    if let Some(s) = v {
        lemma_characters_tokens(s@);
        lemma_element_tokens(name, seq![], seq![], seq![WriteEventV::Characters(s@)]);
    }
}

proof fn lemma_pair_tokens(name: Seq<char>, url: Option<String>, range: Option<String>)
    ensures
        balanced(pair_events(name, url, range)),
        events_tokens(pair_events(name, url, range), seq![]) == pair_tokens(name, url, range),
{
    lemma_pair_balanced(name, url, range);
    if url is Some || range is Some {
        lemma_balanced_empty();
        lemma_element_tokens(name, seq![], opt_attr("sourceURL"@, url) + opt_attr("range"@, range), seq![]);
    }
}

proof fn lemma_signal_tokens(v: Option<String>)
    ensures
        balanced(signal_events(v)),
        events_tokens(signal_events(v), seq![]) == signal_tokens(v),
{
    lemma_signal_balanced(v);
    if let Some(s) = v {
        lemma_characters_tokens(s@);
        lemma_element_tokens("Binary"@, seq![], seq![], seq![WriteEventV::Characters(s@)]);
        lemma_element_tokens(
            "Signal"@,
            seq![],
            seq![],
            element_events("Binary"@, seq![], seq![], seq![WriteEventV::Characters(s@)]),
        );
    }
}

proof fn lemma_opt_timeline_tokens(o: Option<Vec<TimelineEntry>>)
    ensures
        balanced(opt_timeline_events(o)),
        events_tokens(opt_timeline_events(o), seq![]) == opt_timeline_tokens(o),
{
    lemma_opt_timeline_balanced(o);
    if let Some(es) = o {
        assert forall|x: TimelineEntry| #[trigger] balanced(timeline_entry_fn()(x)) && events_tokens(timeline_entry_fn()(x), seq![]) == timeline_entry_tokens_fn()(x) by {
            lemma_timeline_entry_events_tokens(x);
        }
        lemma_each_tokens(es@, timeline_entry_fn(), timeline_entry_tokens_fn());
        lemma_element_tokens("SegmentTimeline"@, seq![], seq![], each_events(es@, timeline_entry_fn()));
    }
}

/// The tokens that a reader reports for the events that write `d` as
/// the element `name`.
proof fn lemma_descriptor_events_tokens(name: Seq<char>, d: Descriptor)
    ensures
        balanced(descriptor_events(name, d)),
        events_tokens(descriptor_events(name, d), seq![]) == descriptor_tokens(name, d),
{
    reveal(descriptor_inner);
    reveal(descriptor_inner_tokens);
    lemma_balanced_empty();
    lemma_element_tokens(name, seq![], descriptor_attrs(d), descriptor_inner(d));
}

/// The tokens that a reader reports for the events that write `l` as
/// the element `name`.
proof fn lemma_label_events_tokens(name: Seq<char>, l: Label)
    ensures
        balanced(label_events(name, l)),
        events_tokens(label_events(name, l), seq![]) == label_tokens(name, l),
{
    reveal(label_inner);
    reveal(label_inner_tokens);
    let e0 = seq![WriteEventV::Characters(l.text@)];
    lemma_characters_tokens(l.text@);
    lemma_element_tokens(name, seq![], label_attrs(l), label_inner(l));
}

/// The tokens that a reader reports for the events that write `u` as
/// `UTCTiming`.
proof fn lemma_utc_timing_events_tokens(u: UtcTiming)
    ensures
        balanced(utc_timing_events(u)),
        events_tokens(utc_timing_events(u), seq![]) == utc_timing_tokens(u),
{
    reveal(utc_timing_inner);
    reveal(utc_timing_inner_tokens);
    lemma_balanced_empty();
    lemma_element_tokens("UTCTiming"@, seq![], utc_timing_attrs(u), utc_timing_inner(u));
}

/// The tokens that a reader reports for the events that write `l` as
/// `Location`.
proof fn lemma_location_events_tokens(l: Location)
    ensures
        balanced(location_events(l)),
        events_tokens(location_events(l), seq![]) == location_tokens(l),
{
    reveal(location_inner);
    reveal(location_inner_tokens);
    let e0 = seq![WriteEventV::Characters(l.url@)];
    lemma_characters_tokens(l.url@);
    lemma_element_tokens("Location"@, seq![], location_attrs(l), location_inner(l));
}

/// The tokens that a reader reports for the events that write `b` as
/// `BaseURL`.
proof fn lemma_base_url_events_tokens(b: BaseUrl)
    ensures
        balanced(base_url_events(b)),
        events_tokens(base_url_events(b), seq![]) == base_url_tokens(b),
{
    reveal(base_url_inner);
    reveal(base_url_inner_tokens);
    let e0 = seq![WriteEventV::Characters(b.url@)];
    lemma_characters_tokens(b.url@);
    lemma_element_tokens("BaseURL"@, seq![], base_url_attrs(b), base_url_inner(b));
}

/// The tokens that a reader reports for the events that write `p` as
/// `PatchLocation`.
proof fn lemma_patch_location_events_tokens(p: PatchLocation)
    ensures
        balanced(patch_location_events(p)),
        events_tokens(patch_location_events(p), seq![]) == patch_location_tokens(p),
{
    reveal(patch_location_inner);
    reveal(patch_location_inner_tokens);
    let e0 = seq![WriteEventV::Characters(p.url@)];
    lemma_characters_tokens(p.url@);
    lemma_element_tokens("PatchLocation"@, seq![], patch_location_attrs(p), patch_location_inner(p));
}

/// The tokens that a reader reports for the events that write `l` as
/// `Latency`.
proof fn lemma_latency_events_tokens(l: Latency)
    ensures
        balanced(latency_events(l)),
        events_tokens(latency_events(l), seq![]) == latency_tokens(l),
{
    reveal(latency_inner);
    reveal(latency_inner_tokens);
    lemma_balanced_empty();
    lemma_element_tokens("Latency"@, seq![], latency_attrs(l), latency_inner(l));
}

/// The tokens that a reader reports for the events that write `p` as
/// `PlaybackRate`.
proof fn lemma_playback_rate_events_tokens(p: PlaybackRate)
    ensures
        balanced(playback_rate_events(p)),
        events_tokens(playback_rate_events(p), seq![]) == playback_rate_tokens(p),
{
    reveal(playback_rate_inner);
    reveal(playback_rate_inner_tokens);
    lemma_balanced_empty();
    lemma_element_tokens("PlaybackRate"@, seq![], playback_rate_attrs(p), playback_rate_inner(p));
}

/// The tokens that a reader reports for the events that write `q` as
/// `OperatingQuality`.
proof fn lemma_operating_quality_events_tokens(q: OperatingQuality)
    ensures
        balanced(operating_quality_events(q)),
        events_tokens(operating_quality_events(q), seq![]) == operating_quality_tokens(q),
{
    reveal(operating_quality_inner);
    reveal(operating_quality_inner_tokens);
    lemma_balanced_empty();
    lemma_element_tokens("OperatingQuality"@, seq![], operating_quality_attrs(q), operating_quality_inner(q));
}

/// The tokens that a reader reports for the events that write `b` as
/// `OperatingBandwidth`.
proof fn lemma_operating_bandwidth_events_tokens(b: OperatingBandwidth)
    ensures
        balanced(operating_bandwidth_events(b)),
        events_tokens(operating_bandwidth_events(b), seq![]) == operating_bandwidth_tokens(b),
{
    reveal(operating_bandwidth_inner);
    reveal(operating_bandwidth_inner_tokens);
    lemma_balanced_empty();
    lemma_element_tokens("OperatingBandwidth"@, seq![], operating_bandwidth_attrs(b), operating_bandwidth_inner(b));
}

/// The tokens that a reader reports for the events that write `c` as
/// `CMCDParameters`.
proof fn lemma_cmcd_parameters_events_tokens(c: CmcdParameters)
    ensures
        balanced(cmcd_parameters_events(c)),
        events_tokens(cmcd_parameters_events(c), seq![]) == cmcd_parameters_tokens(c),
{
    reveal(cmcd_parameters_inner);
    reveal(cmcd_parameters_inner_tokens);
    lemma_balanced_empty();
    lemma_element_tokens("CMCDParameters"@, seq![], cmcd_parameters_attrs(c), cmcd_parameters_inner(c));
}

/// The tokens that a reader reports for the events that write `c` as
/// `ClientDataReporting`.
proof fn lemma_client_data_reporting_events_tokens(c: ClientDataReporting)
    ensures
        balanced(client_data_reporting_events(c)),
        events_tokens(client_data_reporting_events(c), seq![]) == client_data_reporting_tokens(c),
{
    reveal(client_data_reporting_inner);
    reveal(client_data_reporting_inner_tokens);
    let e0 = opt_events(c.cmcd_parameters, cmcd_parameters_fn());
    lemma_cmcd_parameters_opt_tokens(c.cmcd_parameters);
    lemma_element_tokens("ClientDataReporting"@, seq![], client_data_reporting_attrs(c), client_data_reporting_inner(c));
}

/// The tokens that a reader reports for the events that write `s` as
/// `ServiceDescription`.
proof fn lemma_service_description_events_tokens(s: ServiceDescription)
    ensures
        balanced(service_description_events(s)),
        events_tokens(service_description_events(s), seq![]) == service_description_tokens(s),
{
    reveal(service_description_inner);
    reveal(service_description_inner_tokens);
    let e0 = opt_events(s.scope, descriptor_fn("Scope"@));
    lemma_descriptor_opt_tokens("Scope"@, s.scope);
    let e1 = opt_events(s.latency, latency_fn());
    lemma_latency_opt_tokens(s.latency);
    let e2 = opt_events(s.playback_rate, playback_rate_fn());
    lemma_playback_rate_opt_tokens(s.playback_rate);
    let e3 = opt_events(s.operating_quality, operating_quality_fn());
    lemma_operating_quality_opt_tokens(s.operating_quality);
    let e4 = opt_events(s.operating_bandwidth, operating_bandwidth_fn());
    lemma_operating_bandwidth_opt_tokens(s.operating_bandwidth);
    let e5 = opt_events(s.client_data_reporting, client_data_reporting_fn());
    lemma_client_data_reporting_opt_tokens(s.client_data_reporting);
    let s1 = e0 + e1;
    lemma_tokens_cat(e0, e1);
    lemma_balanced_cat(e0, e1);
    let s2 = s1 + e2;
    lemma_tokens_cat(s1, e2);
    lemma_balanced_cat(s1, e2);
    let s3 = s2 + e3;
    lemma_tokens_cat(s2, e3);
    lemma_balanced_cat(s2, e3);
    let s4 = s3 + e4;
    lemma_tokens_cat(s3, e4);
    lemma_balanced_cat(s3, e4);
    let s5 = s4 + e5;
    lemma_tokens_cat(s4, e5);
    lemma_balanced_cat(s4, e5);
    lemma_element_tokens("ServiceDescription"@, seq![], service_description_attrs(s), service_description_inner(s));
}

/// The tokens that a reader reports for the events that write `c` as
/// `ContentSteering`.
proof fn lemma_content_steering_events_tokens(c: ContentSteering)
    ensures
        balanced(content_steering_events(c)),
        events_tokens(content_steering_events(c), seq![]) == content_steering_tokens(c),
{
    reveal(content_steering_inner);
    reveal(content_steering_inner_tokens);
    let e0 = seq![WriteEventV::Characters(c.server_url@)];
    lemma_characters_tokens(c.server_url@);
    lemma_element_tokens("ContentSteering"@, seq![], content_steering_attrs(c), content_steering_inner(c));
}

/// The tokens that a reader reports for the events that write `r` as
/// `Range`.
proof fn lemma_metrics_range_events_tokens(r: MetricsRange)
    ensures
        balanced(metrics_range_events(r)),
        events_tokens(metrics_range_events(r), seq![]) == metrics_range_tokens(r),
{
    reveal(metrics_range_inner);
    reveal(metrics_range_inner_tokens);
    lemma_balanced_empty();
    lemma_element_tokens("Range"@, seq![], metrics_range_attrs(r), metrics_range_inner(r));
}

/// The tokens that a reader reports for the events that write `m` as
/// `Metrics`.
proof fn lemma_metrics_events_tokens(m: Metrics)
    ensures
        balanced(metrics_events(m)),
        events_tokens(metrics_events(m), seq![]) == metrics_tokens(m),
{
    reveal(metrics_inner);
    reveal(metrics_inner_tokens);
    let e0 = each_events(m.reportings@, descriptor_fn("Reporting"@));
    lemma_descriptor_list_tokens("Reporting"@, m.reportings@);
    let e1 = each_events(m.ranges@, metrics_range_fn());
    lemma_metrics_range_list_tokens(m.ranges@);
    let s1 = e0 + e1;
    lemma_tokens_cat(e0, e1);
    lemma_balanced_cat(e0, e1);
    lemma_element_tokens("Metrics"@, seq![], metrics_attrs(m), metrics_inner(m));
}

/// The tokens that a reader reports for the events that write `e` as
/// `Event`.
proof fn lemma_event_events_tokens(e: Event)
    ensures
        balanced(event_events(e)),
        events_tokens(event_events(e), seq![]) == event_tokens(e),
{
    reveal(event_inner);
    reveal(event_inner_tokens);
    let e0 = opt_text_events(e.content);
    lemma_opt_text_tokens(e.content);
    let e1 = signal_events(e.signal_binary);
    lemma_signal_tokens(e.signal_binary);
    let s1 = e0 + e1;
    lemma_tokens_cat(e0, e1);
    lemma_balanced_cat(e0, e1);
    lemma_element_tokens("Event"@, seq![], event_attrs(e), event_inner(e));
}

/// The tokens that a reader reports for the events that write `s` as
/// `EventStream`.
proof fn lemma_event_stream_events_tokens(s: EventStream)
    ensures
        balanced(event_stream_events(s)),
        events_tokens(event_stream_events(s), seq![]) == event_stream_tokens(s),
{
    reveal(event_stream_inner);
    reveal(event_stream_inner_tokens);
    let e0 = each_events(s.events@, event_fn());
    lemma_event_list_tokens(s.events@);
    lemma_element_tokens("EventStream"@, seq![], event_stream_attrs(s), event_stream_inner(s));
}

/// The tokens that a reader reports for the events that write `p` as
/// `ProducerReferenceTime`.
proof fn lemma_producer_reference_time_events_tokens(p: ProducerReferenceTime)
    ensures
        balanced(producer_reference_time_events(p)),
        events_tokens(producer_reference_time_events(p), seq![]) == producer_reference_time_tokens(p),
{
    reveal(producer_reference_time_inner);
    reveal(producer_reference_time_inner_tokens);
    let e0 = opt_events(p.utc_timing, utc_timing_fn());
    lemma_utc_timing_opt_tokens(p.utc_timing);
    lemma_element_tokens("ProducerReferenceTime"@, seq![], producer_reference_time_attrs(p), producer_reference_time_inner(p));
}

/// The tokens that a reader reports for the events that write `c` as
/// `ContentComponent`.
proof fn lemma_content_component_events_tokens(c: ContentComponent)
    ensures
        balanced(content_component_events(c)),
        events_tokens(content_component_events(c), seq![]) == content_component_tokens(c),
{
    reveal(content_component_inner);
    reveal(content_component_inner_tokens);
    let e0 = each_events(c.accessibilities@, descriptor_fn("Accessibility"@));
    lemma_descriptor_list_tokens("Accessibility"@, c.accessibilities@);
    let e1 = each_events(c.roles@, descriptor_fn("Role"@));
    lemma_descriptor_list_tokens("Role"@, c.roles@);
    let s1 = e0 + e1;
    lemma_tokens_cat(e0, e1);
    lemma_balanced_cat(e0, e1);
    lemma_element_tokens("ContentComponent"@, seq![], content_component_attrs(c), content_component_inner(c));
}

/// The tokens that a reader reports for the events that write `s` as
/// `SegmentSequenceProperties`.
proof fn lemma_segment_sequence_properties_events_tokens(s: SegmentSequenceProperties)
    ensures
        balanced(segment_sequence_properties_events(s)),
        events_tokens(segment_sequence_properties_events(s), seq![]) == segment_sequence_properties_tokens(s),
{
    reveal(segment_sequence_properties_inner);
    reveal(segment_sequence_properties_inner_tokens);
    lemma_balanced_empty();
    lemma_element_tokens("SegmentSequenceProperties"@, seq![], segment_sequence_properties_attrs(s), segment_sequence_properties_inner(s));
}

/// The tokens that a reader reports for the events that write `c` as
/// `Certurl`.
proof fn lemma_cert_url_events_tokens(c: CertUrl)
    ensures
        balanced(cert_url_events(c)),
        events_tokens(cert_url_events(c), seq![]) == cert_url_tokens(c),
{
    reveal(cert_url_inner);
    reveal(cert_url_inner_tokens);
    let e0 = seq![WriteEventV::Characters(c.url@)];
    lemma_characters_tokens(c.url@);
    lemma_element_tokens("Certurl"@, seq![], cert_url_attrs(c), cert_url_inner(c));
}

/// The tokens that a reader reports for the events that write `c` as
/// `ContentProtection`.
proof fn lemma_content_protection_events_tokens(c: ContentProtection)
    ensures
        balanced(content_protection_events(c)),
        events_tokens(content_protection_events(c), seq![]) == content_protection_tokens(c),
{
    reveal(content_protection_inner);
    reveal(content_protection_inner_tokens);
    let e0 = text_element_events("cenc:pssh"@, c.pssh);
    lemma_text_element_tokens("cenc:pssh"@, c.pssh);
    let e1 = text_element_events("Laurl"@, c.laurl);
    lemma_text_element_tokens("Laurl"@, c.laurl);
    let e2 = text_element_events("pro"@, c.pro);
    lemma_text_element_tokens("pro"@, c.pro);
    let e3 = each_events(c.certurls@, cert_url_fn());
    lemma_cert_url_list_tokens(c.certurls@);
    let s1 = e0 + e1;
    lemma_tokens_cat(e0, e1);
    lemma_balanced_cat(e0, e1);
    let s2 = s1 + e2;
    lemma_tokens_cat(s1, e2);
    lemma_balanced_cat(s1, e2);
    let s3 = s2 + e3;
    lemma_tokens_cat(s2, e3);
    lemma_balanced_cat(s2, e3);
    lemma_element_tokens("ContentProtection"@, seq![], content_protection_attrs(c), content_protection_inner(c));
}

/// The tokens that a reader reports for the events that write `e` as
/// `S`.
proof fn lemma_timeline_entry_events_tokens(e: TimelineEntry)
    ensures
        balanced(timeline_entry_events(e)),
        events_tokens(timeline_entry_events(e), seq![]) == timeline_entry_tokens(e),
{
    reveal(timeline_entry_inner);
    reveal(timeline_entry_inner_tokens);
    lemma_balanced_empty();
    lemma_element_tokens("S"@, seq![], timeline_entry_attrs(e), timeline_entry_inner(e));
}

/// The tokens that a reader reports for the events that write `u` as
/// `SegmentURL`.
proof fn lemma_segment_url_events_tokens(u: SegmentUrl)
    ensures
        balanced(segment_url_events(u)),
        events_tokens(segment_url_events(u), seq![]) == segment_url_tokens(u),
{
    reveal(segment_url_inner);
    reveal(segment_url_inner_tokens);
    lemma_balanced_empty();
    lemma_element_tokens("SegmentURL"@, seq![], segment_url_attrs(u), segment_url_inner(u));
}

/// The tokens that a reader reports for the events that write `b` as
/// `SegmentBase`.
proof fn lemma_segment_base_events_tokens(b: SegmentBase)
    ensures
        balanced(segment_base_events(b)),
        events_tokens(segment_base_events(b), seq![]) == segment_base_tokens(b),
{
    reveal(segment_base_inner);
    reveal(segment_base_inner_tokens);
    let e0 = pair_events("Initialization"@, b.initialization_source_url, b.initialization_range);
    lemma_pair_tokens("Initialization"@, b.initialization_source_url, b.initialization_range);
    let e1 = pair_events("RepresentationIndex"@, b.representation_index_source_url, b.representation_index_range);
    lemma_pair_tokens("RepresentationIndex"@, b.representation_index_source_url, b.representation_index_range);
    let e2 = pair_events("BitstreamSwitching"@, b.bitstream_switching_source_url, b.bitstream_switching_range);
    lemma_pair_tokens("BitstreamSwitching"@, b.bitstream_switching_source_url, b.bitstream_switching_range);
    let s1 = e0 + e1;
    lemma_tokens_cat(e0, e1);
    lemma_balanced_cat(e0, e1);
    let s2 = s1 + e2;
    lemma_tokens_cat(s1, e2);
    lemma_balanced_cat(s1, e2);
    lemma_element_tokens("SegmentBase"@, seq![], segment_base_attrs(b), segment_base_inner(b));
}

/// The tokens that a reader reports for the events that write `l` as
/// `SegmentList`.
proof fn lemma_segment_list_events_tokens(l: SegmentList)
    ensures
        balanced(segment_list_events(l)),
        events_tokens(segment_list_events(l), seq![]) == segment_list_tokens(l),
{
    reveal(segment_list_inner);
    reveal(segment_list_inner_tokens);
    let e0 = pair_events("Initialization"@, l.initialization_source_url, l.initialization_range);
    lemma_pair_tokens("Initialization"@, l.initialization_source_url, l.initialization_range);
    let e1 = pair_events("RepresentationIndex"@, l.representation_index_source_url, l.representation_index_range);
    lemma_pair_tokens("RepresentationIndex"@, l.representation_index_source_url, l.representation_index_range);
    let e2 = pair_events("BitstreamSwitching"@, l.bitstream_switching_source_url, l.bitstream_switching_range);
    lemma_pair_tokens("BitstreamSwitching"@, l.bitstream_switching_source_url, l.bitstream_switching_range);
    let e3 = opt_timeline_events(l.segment_timeline);
    lemma_opt_timeline_tokens(l.segment_timeline);
    let e4 = each_events(l.segment_urls@, segment_url_fn());
    lemma_segment_url_list_tokens(l.segment_urls@);
    let s1 = e0 + e1;
    lemma_tokens_cat(e0, e1);
    lemma_balanced_cat(e0, e1);
    let s2 = s1 + e2;
    lemma_tokens_cat(s1, e2);
    lemma_balanced_cat(s1, e2);
    let s3 = s2 + e3;
    lemma_tokens_cat(s2, e3);
    lemma_balanced_cat(s2, e3);
    let s4 = s3 + e4;
    lemma_tokens_cat(s3, e4);
    lemma_balanced_cat(s3, e4);
    lemma_element_tokens("SegmentList"@, seq![], segment_list_attrs(l), segment_list_inner(l));
}

/// The tokens that a reader reports for the events that write `tm` as
/// `SegmentTemplate`.
proof fn lemma_segment_template_events_tokens(tm: SegmentTemplate)
    ensures
        balanced(segment_template_events(tm)),
        events_tokens(segment_template_events(tm), seq![]) == segment_template_tokens(tm),
{
    reveal(segment_template_inner);
    reveal(segment_template_inner_tokens);
    let e0 = pair_events("BitstreamSwitching"@, tm.bitstream_switching_source_url, tm.bitstream_switching_range);
    lemma_pair_tokens("BitstreamSwitching"@, tm.bitstream_switching_source_url, tm.bitstream_switching_range);
    let e1 = opt_timeline_events(tm.segment_timeline);
    lemma_opt_timeline_tokens(tm.segment_timeline);
    let s1 = e0 + e1;
    lemma_tokens_cat(e0, e1);
    lemma_balanced_cat(e0, e1);
    lemma_element_tokens("SegmentTemplate"@, seq![], segment_template_attrs(tm), segment_template_inner(tm));
}

/// The tokens that a reader reports for the events that write `p` as
/// `Preselection`.
proof fn lemma_preselection_events_tokens(p: Preselection)
    ensures
        balanced(preselection_events(p)),
        events_tokens(preselection_events(p), seq![]) == preselection_tokens(p),
{
    reveal(preselection_inner);
    reveal(preselection_inner_tokens);
    let e0 = each_events(p.accessibilities@, descriptor_fn("Accessibility"@));
    lemma_descriptor_list_tokens("Accessibility"@, p.accessibilities@);
    let e1 = each_events(p.roles@, descriptor_fn("Role"@));
    lemma_descriptor_list_tokens("Role"@, p.roles@);
    let e2 = each_events(p.viewpoints@, descriptor_fn("Viewpoint"@));
    lemma_descriptor_list_tokens("Viewpoint"@, p.viewpoints@);
    let e3 = each_events(p.labels@, label_fn("Label"@));
    lemma_label_list_tokens("Label"@, p.labels@);
    let e4 = each_events(p.essential_properties@, descriptor_fn("EssentialProperty"@));
    lemma_descriptor_list_tokens("EssentialProperty"@, p.essential_properties@);
    let e5 = each_events(p.supplemental_properties@, descriptor_fn("SupplementalProperty"@));
    lemma_descriptor_list_tokens("SupplementalProperty"@, p.supplemental_properties@);
    let s1 = e0 + e1;
    lemma_tokens_cat(e0, e1);
    lemma_balanced_cat(e0, e1);
    let s2 = s1 + e2;
    lemma_tokens_cat(s1, e2);
    lemma_balanced_cat(s1, e2);
    let s3 = s2 + e3;
    lemma_tokens_cat(s2, e3);
    lemma_balanced_cat(s2, e3);
    let s4 = s3 + e4;
    lemma_tokens_cat(s3, e4);
    lemma_balanced_cat(s3, e4);
    let s5 = s4 + e5;
    lemma_tokens_cat(s4, e5);
    lemma_balanced_cat(s4, e5);
    lemma_element_tokens("Preselection"@, seq![], preselection_attrs(p), preselection_inner(p));
}

/// The tokens that a reader reports for the events that write `s` as
/// `Subset`.
proof fn lemma_subset_events_tokens(s: Subset)
    ensures
        balanced(subset_events(s)),
        events_tokens(subset_events(s), seq![]) == subset_tokens(s),
{
    reveal(subset_inner);
    reveal(subset_inner_tokens);
    lemma_balanced_empty();
    lemma_element_tokens("Subset"@, seq![], subset_attrs(s), subset_inner(s));
}

/// The tokens that a reader reports for the events that write `s` as
/// `SubRepresentation`.
proof fn lemma_sub_representation_events_tokens(s: SubRepresentation)
    ensures
        balanced(sub_representation_events(s)),
        events_tokens(sub_representation_events(s), seq![]) == sub_representation_tokens(s),
{
    reveal(sub_representation_inner);
    reveal(sub_representation_inner_tokens);
    let e0 = each_events(s.content_protections@, content_protection_fn());
    lemma_content_protection_list_tokens(s.content_protections@);
    let e1 = each_events(s.audio_channel_configurations@, descriptor_fn("AudioChannelConfiguration"@));
    lemma_descriptor_list_tokens("AudioChannelConfiguration"@, s.audio_channel_configurations@);
    let e2 = each_events(s.frame_packings@, descriptor_fn("FramePacking"@));
    lemma_descriptor_list_tokens("FramePacking"@, s.frame_packings@);
    let e3 = each_events(s.inband_event_streams@, descriptor_fn("InbandEventStream"@));
    lemma_descriptor_list_tokens("InbandEventStream"@, s.inband_event_streams@);
    let e4 = each_events(s.essential_properties@, descriptor_fn("EssentialProperty"@));
    lemma_descriptor_list_tokens("EssentialProperty"@, s.essential_properties@);
    let e5 = each_events(s.supplemental_properties@, descriptor_fn("SupplementalProperty"@));
    lemma_descriptor_list_tokens("SupplementalProperty"@, s.supplemental_properties@);
    let e6 = each_events(s.segment_sequence_properties@, segment_sequence_properties_fn());
    lemma_segment_sequence_properties_list_tokens(s.segment_sequence_properties@);
    let s1 = e0 + e1;
    lemma_tokens_cat(e0, e1);
    lemma_balanced_cat(e0, e1);
    let s2 = s1 + e2;
    lemma_tokens_cat(s1, e2);
    lemma_balanced_cat(s1, e2);
    let s3 = s2 + e3;
    lemma_tokens_cat(s2, e3);
    lemma_balanced_cat(s2, e3);
    let s4 = s3 + e4;
    lemma_tokens_cat(s3, e4);
    lemma_balanced_cat(s3, e4);
    let s5 = s4 + e5;
    lemma_tokens_cat(s4, e5);
    lemma_balanced_cat(s4, e5);
    let s6 = s5 + e6;
    lemma_tokens_cat(s5, e6);
    lemma_balanced_cat(s5, e6);
    lemma_element_tokens("SubRepresentation"@, seq![], sub_representation_attrs(s), sub_representation_inner(s));
}

/// The tokens that a reader reports for the events that write `r` as
/// `Representation`.
proof fn lemma_representation_events_tokens(r: Representation)
    ensures
        balanced(representation_events(r)),
        events_tokens(representation_events(r), seq![]) == representation_tokens(r),
{
    reveal(representation_inner);
    reveal(representation_inner_tokens);
    let e0 = each_events(r.base_urls@, base_url_fn());
    lemma_base_url_list_tokens(r.base_urls@);
    let e1 = each_events(r.audio_channel_configurations@, descriptor_fn("AudioChannelConfiguration"@));
    lemma_descriptor_list_tokens("AudioChannelConfiguration"@, r.audio_channel_configurations@);
    let e2 = each_events(r.essential_properties@, descriptor_fn("EssentialProperty"@));
    lemma_descriptor_list_tokens("EssentialProperty"@, r.essential_properties@);
    let e3 = each_events(r.supplemental_properties@, descriptor_fn("SupplementalProperty"@));
    lemma_descriptor_list_tokens("SupplementalProperty"@, r.supplemental_properties@);
    let e4 = each_events(r.frame_packings@, descriptor_fn("FramePacking"@));
    lemma_descriptor_list_tokens("FramePacking"@, r.frame_packings@);
    let e5 = each_events(r.inband_event_streams@, descriptor_fn("InbandEventStream"@));
    lemma_descriptor_list_tokens("InbandEventStream"@, r.inband_event_streams@);
    let e6 = each_events(r.producer_reference_times@, producer_reference_time_fn());
    lemma_producer_reference_time_list_tokens(r.producer_reference_times@);
    let e7 = each_events(r.segment_sequence_properties@, segment_sequence_properties_fn());
    lemma_segment_sequence_properties_list_tokens(r.segment_sequence_properties@);
    let e8 = each_events(r.sub_representations@, sub_representation_fn());
    lemma_sub_representation_list_tokens(r.sub_representations@);
    let e9 = each_events(r.content_protections@, content_protection_fn());
    lemma_content_protection_list_tokens(r.content_protections@);
    let e10 = opt_events(r.segment_base, segment_base_fn());
    lemma_segment_base_opt_tokens(r.segment_base);
    let e11 = opt_events(r.segment_list, segment_list_fn());
    lemma_segment_list_opt_tokens(r.segment_list);
    let e12 = opt_events(r.segment_template, segment_template_fn());
    lemma_segment_template_opt_tokens(r.segment_template);
    let s1 = e0 + e1;
    lemma_tokens_cat(e0, e1);
    lemma_balanced_cat(e0, e1);
    let s2 = s1 + e2;
    lemma_tokens_cat(s1, e2);
    lemma_balanced_cat(s1, e2);
    let s3 = s2 + e3;
    lemma_tokens_cat(s2, e3);
    lemma_balanced_cat(s2, e3);
    let s4 = s3 + e4;
    lemma_tokens_cat(s3, e4);
    lemma_balanced_cat(s3, e4);
    let s5 = s4 + e5;
    lemma_tokens_cat(s4, e5);
    lemma_balanced_cat(s4, e5);
    let s6 = s5 + e6;
    lemma_tokens_cat(s5, e6);
    lemma_balanced_cat(s5, e6);
    let s7 = s6 + e7;
    lemma_tokens_cat(s6, e7);
    lemma_balanced_cat(s6, e7);
    let s8 = s7 + e8;
    lemma_tokens_cat(s7, e8);
    lemma_balanced_cat(s7, e8);
    let s9 = s8 + e9;
    lemma_tokens_cat(s8, e9);
    lemma_balanced_cat(s8, e9);
    let s10 = s9 + e10;
    lemma_tokens_cat(s9, e10);
    lemma_balanced_cat(s9, e10);
    let s11 = s10 + e11;
    lemma_tokens_cat(s10, e11);
    lemma_balanced_cat(s10, e11);
    let s12 = s11 + e12;
    lemma_tokens_cat(s11, e12);
    lemma_balanced_cat(s11, e12);
    lemma_element_tokens("Representation"@, seq![], representation_attrs(r), representation_inner(r));
}

/// The tokens that a reader reports for the events that write `a` as
/// `AdaptationSet`.
proof fn lemma_adaptation_set_events_tokens(a: AdaptationSet)
    ensures
        balanced(adaptation_set_events(a)),
        events_tokens(adaptation_set_events(a), seq![]) == adaptation_set_tokens(a),
{
    reveal(adaptation_set_inner);
    reveal(adaptation_set_inner_tokens);
    let e0 = each_events(a.base_urls@, base_url_fn());
    lemma_base_url_list_tokens(a.base_urls@);
    let e1 = each_events(a.roles@, descriptor_fn("Role"@));
    lemma_descriptor_list_tokens("Role"@, a.roles@);
    let e2 = each_events(a.accessibilities@, descriptor_fn("Accessibility"@));
    lemma_descriptor_list_tokens("Accessibility"@, a.accessibilities@);
    let e3 = each_events(a.audio_channel_configurations@, descriptor_fn("AudioChannelConfiguration"@));
    lemma_descriptor_list_tokens("AudioChannelConfiguration"@, a.audio_channel_configurations@);
    let e4 = each_events(a.labels@, label_fn("Label"@));
    lemma_label_list_tokens("Label"@, a.labels@);
    let e5 = each_events(a.group_labels@, label_fn("GroupLabel"@));
    lemma_label_list_tokens("GroupLabel"@, a.group_labels@);
    let e6 = each_events(a.essential_properties@, descriptor_fn("EssentialProperty"@));
    lemma_descriptor_list_tokens("EssentialProperty"@, a.essential_properties@);
    let e7 = each_events(a.supplemental_properties@, descriptor_fn("SupplementalProperty"@));
    lemma_descriptor_list_tokens("SupplementalProperty"@, a.supplemental_properties@);
    let e8 = each_events(a.viewpoints@, descriptor_fn("Viewpoint"@));
    lemma_descriptor_list_tokens("Viewpoint"@, a.viewpoints@);
    let e9 = each_events(a.frame_packings@, descriptor_fn("FramePacking"@));
    lemma_descriptor_list_tokens("FramePacking"@, a.frame_packings@);
    let e10 = each_events(a.inband_event_streams@, descriptor_fn("InbandEventStream"@));
    lemma_descriptor_list_tokens("InbandEventStream"@, a.inband_event_streams@);
    let e11 = each_events(a.producer_reference_times@, producer_reference_time_fn());
    lemma_producer_reference_time_list_tokens(a.producer_reference_times@);
    let e12 = each_events(a.content_components@, content_component_fn());
    lemma_content_component_list_tokens(a.content_components@);
    let e13 = each_events(a.segment_sequence_properties@, segment_sequence_properties_fn());
    lemma_segment_sequence_properties_list_tokens(a.segment_sequence_properties@);
    let e14 = each_events(a.event_streams@, event_stream_fn());
    lemma_event_stream_list_tokens(a.event_streams@);
    let e15 = each_events(a.content_protections@, content_protection_fn());
    lemma_content_protection_list_tokens(a.content_protections@);
    let e16 = opt_events(a.segment_base, segment_base_fn());
    lemma_segment_base_opt_tokens(a.segment_base);
    let e17 = opt_events(a.segment_list, segment_list_fn());
    lemma_segment_list_opt_tokens(a.segment_list);
    let e18 = opt_events(a.segment_template, segment_template_fn());
    lemma_segment_template_opt_tokens(a.segment_template);
    let e19 = each_events(a.representations@, representation_fn());
    lemma_representation_list_tokens(a.representations@);
    let s1 = e0 + e1;
    lemma_tokens_cat(e0, e1);
    lemma_balanced_cat(e0, e1);
    let s2 = s1 + e2;
    lemma_tokens_cat(s1, e2);
    lemma_balanced_cat(s1, e2);
    let s3 = s2 + e3;
    lemma_tokens_cat(s2, e3);
    lemma_balanced_cat(s2, e3);
    let s4 = s3 + e4;
    lemma_tokens_cat(s3, e4);
    lemma_balanced_cat(s3, e4);
    let s5 = s4 + e5;
    lemma_tokens_cat(s4, e5);
    lemma_balanced_cat(s4, e5);
    let s6 = s5 + e6;
    lemma_tokens_cat(s5, e6);
    lemma_balanced_cat(s5, e6);
    let s7 = s6 + e7;
    lemma_tokens_cat(s6, e7);
    lemma_balanced_cat(s6, e7);
    let s8 = s7 + e8;
    lemma_tokens_cat(s7, e8);
    lemma_balanced_cat(s7, e8);
    let s9 = s8 + e9;
    lemma_tokens_cat(s8, e9);
    lemma_balanced_cat(s8, e9);
    let s10 = s9 + e10;
    lemma_tokens_cat(s9, e10);
    lemma_balanced_cat(s9, e10);
    let s11 = s10 + e11;
    lemma_tokens_cat(s10, e11);
    lemma_balanced_cat(s10, e11);
    let s12 = s11 + e12;
    lemma_tokens_cat(s11, e12);
    lemma_balanced_cat(s11, e12);
    let s13 = s12 + e13;
    lemma_tokens_cat(s12, e13);
    lemma_balanced_cat(s12, e13);
    let s14 = s13 + e14;
    lemma_tokens_cat(s13, e14);
    lemma_balanced_cat(s13, e14);
    let s15 = s14 + e15;
    lemma_tokens_cat(s14, e15);
    lemma_balanced_cat(s14, e15);
    let s16 = s15 + e16;
    lemma_tokens_cat(s15, e16);
    lemma_balanced_cat(s15, e16);
    let s17 = s16 + e17;
    lemma_tokens_cat(s16, e17);
    lemma_balanced_cat(s16, e17);
    let s18 = s17 + e18;
    lemma_tokens_cat(s17, e18);
    lemma_balanced_cat(s17, e18);
    let s19 = s18 + e19;
    lemma_tokens_cat(s18, e19);
    lemma_balanced_cat(s18, e19);
    lemma_element_tokens("AdaptationSet"@, seq![], adaptation_set_attrs(a), adaptation_set_inner(a));
}

/// The tokens that a reader reports for the events that write `p` as
/// `Period`.
proof fn lemma_period_events_tokens(p: Period)
    ensures
        balanced(period_events(p)),
        events_tokens(period_events(p), seq![]) == period_tokens(p),
{
    reveal(period_inner);
    reveal(period_inner_tokens);
    let e0 = each_events(p.base_urls@, base_url_fn());
    lemma_base_url_list_tokens(p.base_urls@);
    let e1 = opt_events(p.segment_base, segment_base_fn());
    lemma_segment_base_opt_tokens(p.segment_base);
    let e2 = opt_events(p.segment_list, segment_list_fn());
    lemma_segment_list_opt_tokens(p.segment_list);
    let e3 = opt_events(p.segment_template, segment_template_fn());
    lemma_segment_template_opt_tokens(p.segment_template);
    let e4 = opt_events(p.asset_identifier, descriptor_fn("AssetIdentifier"@));
    lemma_descriptor_opt_tokens("AssetIdentifier"@, p.asset_identifier);
    let e5 = each_events(p.event_streams@, event_stream_fn());
    lemma_event_stream_list_tokens(p.event_streams@);
    let e6 = each_events(p.adaptation_sets@, adaptation_set_fn());
    lemma_adaptation_set_list_tokens(p.adaptation_sets@);
    let e7 = each_events(p.subsets@, subset_fn());
    lemma_subset_list_tokens(p.subsets@);
    let e8 = each_events(p.supplemental_properties@, descriptor_fn("SupplementalProperty"@));
    lemma_descriptor_list_tokens("SupplementalProperty"@, p.supplemental_properties@);
    let e9 = each_events(p.essential_properties@, descriptor_fn("EssentialProperty"@));
    lemma_descriptor_list_tokens("EssentialProperty"@, p.essential_properties@);
    let e10 = each_events(p.preselections@, preselection_fn());
    lemma_preselection_list_tokens(p.preselections@);
    let s1 = e0 + e1;
    lemma_tokens_cat(e0, e1);
    lemma_balanced_cat(e0, e1);
    let s2 = s1 + e2;
    lemma_tokens_cat(s1, e2);
    lemma_balanced_cat(s1, e2);
    let s3 = s2 + e3;
    lemma_tokens_cat(s2, e3);
    lemma_balanced_cat(s2, e3);
    let s4 = s3 + e4;
    lemma_tokens_cat(s3, e4);
    lemma_balanced_cat(s3, e4);
    let s5 = s4 + e5;
    lemma_tokens_cat(s4, e5);
    lemma_balanced_cat(s4, e5);
    let s6 = s5 + e6;
    lemma_tokens_cat(s5, e6);
    lemma_balanced_cat(s5, e6);
    let s7 = s6 + e7;
    lemma_tokens_cat(s6, e7);
    lemma_balanced_cat(s6, e7);
    let s8 = s7 + e8;
    lemma_tokens_cat(s7, e8);
    lemma_balanced_cat(s7, e8);
    let s9 = s8 + e9;
    lemma_tokens_cat(s8, e9);
    lemma_balanced_cat(s8, e9);
    let s10 = s9 + e10;
    lemma_tokens_cat(s9, e10);
    lemma_balanced_cat(s9, e10);
    lemma_element_tokens("Period"@, seq![], period_attrs(p), period_inner(p));
}

/// The tokens that a reader reports for the events that write `m` as
/// `MPD`.
proof fn lemma_mpd_events_tokens(m: Mpd)
    ensures
        balanced(mpd_events(m)),
        events_tokens(mpd_events(m), seq![]) == mpd_tokens(m),
{
    reveal(mpd_inner);
    reveal(mpd_inner_tokens);
    let e0 = each_events(m.base_urls@, base_url_fn());
    lemma_base_url_list_tokens(m.base_urls@);
    let e1 = each_events(m.locations@, location_fn());
    lemma_location_list_tokens(m.locations@);
    let e2 = each_events(m.patch_locations@, patch_location_fn());
    lemma_patch_location_list_tokens(m.patch_locations@);
    let e3 = each_events(m.service_descriptions@, service_description_fn());
    lemma_service_description_list_tokens(m.service_descriptions@);
    let e4 = each_events(m.periods@, period_fn());
    lemma_period_list_tokens(m.periods@);
    let e5 = each_events(m.metrics@, metrics_fn());
    lemma_metrics_list_tokens(m.metrics@);
    let e6 = each_events(m.essential_properties@, descriptor_fn("EssentialProperty"@));
    lemma_descriptor_list_tokens("EssentialProperty"@, m.essential_properties@);
    let e7 = each_events(m.supplemental_properties@, descriptor_fn("SupplementalProperty"@));
    lemma_descriptor_list_tokens("SupplementalProperty"@, m.supplemental_properties@);
    let e8 = each_events(m.utc_timings@, utc_timing_fn());
    lemma_utc_timing_list_tokens(m.utc_timings@);
    let e9 = opt_events(m.content_steering, content_steering_fn());
    lemma_content_steering_opt_tokens(m.content_steering);
    let s1 = e0 + e1;
    lemma_tokens_cat(e0, e1);
    lemma_balanced_cat(e0, e1);
    let s2 = s1 + e2;
    lemma_tokens_cat(s1, e2);
    lemma_balanced_cat(s1, e2);
    let s3 = s2 + e3;
    lemma_tokens_cat(s2, e3);
    lemma_balanced_cat(s2, e3);
    let s4 = s3 + e4;
    lemma_tokens_cat(s3, e4);
    lemma_balanced_cat(s3, e4);
    let s5 = s4 + e5;
    lemma_tokens_cat(s4, e5);
    lemma_balanced_cat(s4, e5);
    let s6 = s5 + e6;
    lemma_tokens_cat(s5, e6);
    lemma_balanced_cat(s5, e6);
    let s7 = s6 + e7;
    lemma_tokens_cat(s6, e7);
    lemma_balanced_cat(s6, e7);
    let s8 = s7 + e8;
    lemma_tokens_cat(s7, e8);
    lemma_balanced_cat(s7, e8);
    let s9 = s8 + e9;
    lemma_tokens_cat(s8, e9);
    lemma_balanced_cat(s8, e9);
    lemma_element_tokens("MPD"@, mpd_namespaces(m), mpd_attrs(m), mpd_inner(m));
}

/// The tokens of a list of items written by adaptation_set_fn().
proof fn lemma_adaptation_set_list_tokens(s: Seq<AdaptationSet>)
    ensures
        balanced(each_events(s, adaptation_set_fn())),
        events_tokens(each_events(s, adaptation_set_fn()), seq![]) == each_tokens(s, adaptation_set_tokens_fn()),
{
    assert forall|x: AdaptationSet| #[trigger] balanced(adaptation_set_fn()(x)) && events_tokens(adaptation_set_fn()(x), seq![]) == adaptation_set_tokens_fn()(x) by {
        lemma_adaptation_set_events_tokens(x);
    }
    lemma_each_tokens(s, adaptation_set_fn(), adaptation_set_tokens_fn());
}

/// The tokens of a list of items written by base_url_fn().
proof fn lemma_base_url_list_tokens(s: Seq<BaseUrl>)
    ensures
        balanced(each_events(s, base_url_fn())),
        events_tokens(each_events(s, base_url_fn()), seq![]) == each_tokens(s, base_url_tokens_fn()),
{
    assert forall|x: BaseUrl| #[trigger] balanced(base_url_fn()(x)) && events_tokens(base_url_fn()(x), seq![]) == base_url_tokens_fn()(x) by {
        lemma_base_url_events_tokens(x);
    }
    lemma_each_tokens(s, base_url_fn(), base_url_tokens_fn());
}

/// The tokens of a list of items written by cert_url_fn().
proof fn lemma_cert_url_list_tokens(s: Seq<CertUrl>)
    ensures
        balanced(each_events(s, cert_url_fn())),
        events_tokens(each_events(s, cert_url_fn()), seq![]) == each_tokens(s, cert_url_tokens_fn()),
{
    assert forall|x: CertUrl| #[trigger] balanced(cert_url_fn()(x)) && events_tokens(cert_url_fn()(x), seq![]) == cert_url_tokens_fn()(x) by {
        lemma_cert_url_events_tokens(x);
    }
    lemma_each_tokens(s, cert_url_fn(), cert_url_tokens_fn());
}

/// The tokens of an optional item written by client_data_reporting_fn().
proof fn lemma_client_data_reporting_opt_tokens(o: Option<ClientDataReporting>)
    ensures
        balanced(opt_events(o, client_data_reporting_fn())),
        events_tokens(opt_events(o, client_data_reporting_fn()), seq![]) == opt_tokens(o, client_data_reporting_tokens_fn()),
{
    assert forall|x: ClientDataReporting| #[trigger] balanced(client_data_reporting_fn()(x)) && events_tokens(client_data_reporting_fn()(x), seq![]) == client_data_reporting_tokens_fn()(x) by {
        lemma_client_data_reporting_events_tokens(x);
    }
    lemma_opt_tokens(o, client_data_reporting_fn(), client_data_reporting_tokens_fn());
}

/// The tokens of an optional item written by cmcd_parameters_fn().
proof fn lemma_cmcd_parameters_opt_tokens(o: Option<CmcdParameters>)
    ensures
        balanced(opt_events(o, cmcd_parameters_fn())),
        events_tokens(opt_events(o, cmcd_parameters_fn()), seq![]) == opt_tokens(o, cmcd_parameters_tokens_fn()),
{
    assert forall|x: CmcdParameters| #[trigger] balanced(cmcd_parameters_fn()(x)) && events_tokens(cmcd_parameters_fn()(x), seq![]) == cmcd_parameters_tokens_fn()(x) by {
        lemma_cmcd_parameters_events_tokens(x);
    }
    lemma_opt_tokens(o, cmcd_parameters_fn(), cmcd_parameters_tokens_fn());
}

/// The tokens of a list of items written by content_component_fn().
proof fn lemma_content_component_list_tokens(s: Seq<ContentComponent>)
    ensures
        balanced(each_events(s, content_component_fn())),
        events_tokens(each_events(s, content_component_fn()), seq![]) == each_tokens(s, content_component_tokens_fn()),
{
    assert forall|x: ContentComponent| #[trigger] balanced(content_component_fn()(x)) && events_tokens(content_component_fn()(x), seq![]) == content_component_tokens_fn()(x) by {
        lemma_content_component_events_tokens(x);
    }
    lemma_each_tokens(s, content_component_fn(), content_component_tokens_fn());
}

/// The tokens of a list of items written by content_protection_fn().
proof fn lemma_content_protection_list_tokens(s: Seq<ContentProtection>)
    ensures
        balanced(each_events(s, content_protection_fn())),
        events_tokens(each_events(s, content_protection_fn()), seq![]) == each_tokens(s, content_protection_tokens_fn()),
{
    assert forall|x: ContentProtection| #[trigger] balanced(content_protection_fn()(x)) && events_tokens(content_protection_fn()(x), seq![]) == content_protection_tokens_fn()(x) by {
        lemma_content_protection_events_tokens(x);
    }
    lemma_each_tokens(s, content_protection_fn(), content_protection_tokens_fn());
}

/// The tokens of an optional item written by content_steering_fn().
proof fn lemma_content_steering_opt_tokens(o: Option<ContentSteering>)
    ensures
        balanced(opt_events(o, content_steering_fn())),
        events_tokens(opt_events(o, content_steering_fn()), seq![]) == opt_tokens(o, content_steering_tokens_fn()),
{
    assert forall|x: ContentSteering| #[trigger] balanced(content_steering_fn()(x)) && events_tokens(content_steering_fn()(x), seq![]) == content_steering_tokens_fn()(x) by {
        lemma_content_steering_events_tokens(x);
    }
    lemma_opt_tokens(o, content_steering_fn(), content_steering_tokens_fn());
}

/// The tokens of a list of items written by descriptor_fn(name).
proof fn lemma_descriptor_list_tokens(name: Seq<char>, s: Seq<Descriptor>)
    ensures
        balanced(each_events(s, descriptor_fn(name))),
        events_tokens(each_events(s, descriptor_fn(name)), seq![]) == each_tokens(s, descriptor_tokens_fn(name)),
{
    assert forall|x: Descriptor| #[trigger] balanced(descriptor_fn(name)(x)) && events_tokens(descriptor_fn(name)(x), seq![]) == descriptor_tokens_fn(name)(x) by {
        lemma_descriptor_events_tokens(name, x);
    }
    lemma_each_tokens(s, descriptor_fn(name), descriptor_tokens_fn(name));
}

/// The tokens of an optional item written by descriptor_fn(name).
proof fn lemma_descriptor_opt_tokens(name: Seq<char>, o: Option<Descriptor>)
    ensures
        balanced(opt_events(o, descriptor_fn(name))),
        events_tokens(opt_events(o, descriptor_fn(name)), seq![]) == opt_tokens(o, descriptor_tokens_fn(name)),
{
    assert forall|x: Descriptor| #[trigger] balanced(descriptor_fn(name)(x)) && events_tokens(descriptor_fn(name)(x), seq![]) == descriptor_tokens_fn(name)(x) by {
        lemma_descriptor_events_tokens(name, x);
    }
    lemma_opt_tokens(o, descriptor_fn(name), descriptor_tokens_fn(name));
}

/// The tokens of a list of items written by event_fn().
proof fn lemma_event_list_tokens(s: Seq<Event>)
    ensures
        balanced(each_events(s, event_fn())),
        events_tokens(each_events(s, event_fn()), seq![]) == each_tokens(s, event_tokens_fn()),
{
    assert forall|x: Event| #[trigger] balanced(event_fn()(x)) && events_tokens(event_fn()(x), seq![]) == event_tokens_fn()(x) by {
        lemma_event_events_tokens(x);
    }
    lemma_each_tokens(s, event_fn(), event_tokens_fn());
}

/// The tokens of a list of items written by event_stream_fn().
proof fn lemma_event_stream_list_tokens(s: Seq<EventStream>)
    ensures
        balanced(each_events(s, event_stream_fn())),
        events_tokens(each_events(s, event_stream_fn()), seq![]) == each_tokens(s, event_stream_tokens_fn()),
{
    assert forall|x: EventStream| #[trigger] balanced(event_stream_fn()(x)) && events_tokens(event_stream_fn()(x), seq![]) == event_stream_tokens_fn()(x) by {
        lemma_event_stream_events_tokens(x);
    }
    lemma_each_tokens(s, event_stream_fn(), event_stream_tokens_fn());
}

/// The tokens of a list of items written by label_fn(name).
proof fn lemma_label_list_tokens(name: Seq<char>, s: Seq<Label>)
    ensures
        balanced(each_events(s, label_fn(name))),
        events_tokens(each_events(s, label_fn(name)), seq![]) == each_tokens(s, label_tokens_fn(name)),
{
    assert forall|x: Label| #[trigger] balanced(label_fn(name)(x)) && events_tokens(label_fn(name)(x), seq![]) == label_tokens_fn(name)(x) by {
        lemma_label_events_tokens(name, x);
    }
    lemma_each_tokens(s, label_fn(name), label_tokens_fn(name));
}

/// The tokens of an optional item written by latency_fn().
proof fn lemma_latency_opt_tokens(o: Option<Latency>)
    ensures
        balanced(opt_events(o, latency_fn())),
        events_tokens(opt_events(o, latency_fn()), seq![]) == opt_tokens(o, latency_tokens_fn()),
{
    assert forall|x: Latency| #[trigger] balanced(latency_fn()(x)) && events_tokens(latency_fn()(x), seq![]) == latency_tokens_fn()(x) by {
        lemma_latency_events_tokens(x);
    }
    lemma_opt_tokens(o, latency_fn(), latency_tokens_fn());
}

/// The tokens of a list of items written by location_fn().
proof fn lemma_location_list_tokens(s: Seq<Location>)
    ensures
        balanced(each_events(s, location_fn())),
        events_tokens(each_events(s, location_fn()), seq![]) == each_tokens(s, location_tokens_fn()),
{
    assert forall|x: Location| #[trigger] balanced(location_fn()(x)) && events_tokens(location_fn()(x), seq![]) == location_tokens_fn()(x) by {
        lemma_location_events_tokens(x);
    }
    lemma_each_tokens(s, location_fn(), location_tokens_fn());
}

/// The tokens of a list of items written by metrics_fn().
proof fn lemma_metrics_list_tokens(s: Seq<Metrics>)
    ensures
        balanced(each_events(s, metrics_fn())),
        events_tokens(each_events(s, metrics_fn()), seq![]) == each_tokens(s, metrics_tokens_fn()),
{
    assert forall|x: Metrics| #[trigger] balanced(metrics_fn()(x)) && events_tokens(metrics_fn()(x), seq![]) == metrics_tokens_fn()(x) by {
        lemma_metrics_events_tokens(x);
    }
    lemma_each_tokens(s, metrics_fn(), metrics_tokens_fn());
}

/// The tokens of a list of items written by metrics_range_fn().
proof fn lemma_metrics_range_list_tokens(s: Seq<MetricsRange>)
    ensures
        balanced(each_events(s, metrics_range_fn())),
        events_tokens(each_events(s, metrics_range_fn()), seq![]) == each_tokens(s, metrics_range_tokens_fn()),
{
    assert forall|x: MetricsRange| #[trigger] balanced(metrics_range_fn()(x)) && events_tokens(metrics_range_fn()(x), seq![]) == metrics_range_tokens_fn()(x) by {
        lemma_metrics_range_events_tokens(x);
    }
    lemma_each_tokens(s, metrics_range_fn(), metrics_range_tokens_fn());
}

/// The tokens of an optional item written by operating_bandwidth_fn().
proof fn lemma_operating_bandwidth_opt_tokens(o: Option<OperatingBandwidth>)
    ensures
        balanced(opt_events(o, operating_bandwidth_fn())),
        events_tokens(opt_events(o, operating_bandwidth_fn()), seq![]) == opt_tokens(o, operating_bandwidth_tokens_fn()),
{
    assert forall|x: OperatingBandwidth| #[trigger] balanced(operating_bandwidth_fn()(x)) && events_tokens(operating_bandwidth_fn()(x), seq![]) == operating_bandwidth_tokens_fn()(x) by {
        lemma_operating_bandwidth_events_tokens(x);
    }
    lemma_opt_tokens(o, operating_bandwidth_fn(), operating_bandwidth_tokens_fn());
}

/// The tokens of an optional item written by operating_quality_fn().
proof fn lemma_operating_quality_opt_tokens(o: Option<OperatingQuality>)
    ensures
        balanced(opt_events(o, operating_quality_fn())),
        events_tokens(opt_events(o, operating_quality_fn()), seq![]) == opt_tokens(o, operating_quality_tokens_fn()),
{
    assert forall|x: OperatingQuality| #[trigger] balanced(operating_quality_fn()(x)) && events_tokens(operating_quality_fn()(x), seq![]) == operating_quality_tokens_fn()(x) by {
        lemma_operating_quality_events_tokens(x);
    }
    lemma_opt_tokens(o, operating_quality_fn(), operating_quality_tokens_fn());
}

/// The tokens of a list of items written by patch_location_fn().
proof fn lemma_patch_location_list_tokens(s: Seq<PatchLocation>)
    ensures
        balanced(each_events(s, patch_location_fn())),
        events_tokens(each_events(s, patch_location_fn()), seq![]) == each_tokens(s, patch_location_tokens_fn()),
{
    assert forall|x: PatchLocation| #[trigger] balanced(patch_location_fn()(x)) && events_tokens(patch_location_fn()(x), seq![]) == patch_location_tokens_fn()(x) by {
        lemma_patch_location_events_tokens(x);
    }
    lemma_each_tokens(s, patch_location_fn(), patch_location_tokens_fn());
}

/// The tokens of a list of items written by period_fn().
proof fn lemma_period_list_tokens(s: Seq<Period>)
    ensures
        balanced(each_events(s, period_fn())),
        events_tokens(each_events(s, period_fn()), seq![]) == each_tokens(s, period_tokens_fn()),
{
    assert forall|x: Period| #[trigger] balanced(period_fn()(x)) && events_tokens(period_fn()(x), seq![]) == period_tokens_fn()(x) by {
        lemma_period_events_tokens(x);
    }
    lemma_each_tokens(s, period_fn(), period_tokens_fn());
}

/// The tokens of an optional item written by playback_rate_fn().
proof fn lemma_playback_rate_opt_tokens(o: Option<PlaybackRate>)
    ensures
        balanced(opt_events(o, playback_rate_fn())),
        events_tokens(opt_events(o, playback_rate_fn()), seq![]) == opt_tokens(o, playback_rate_tokens_fn()),
{
    assert forall|x: PlaybackRate| #[trigger] balanced(playback_rate_fn()(x)) && events_tokens(playback_rate_fn()(x), seq![]) == playback_rate_tokens_fn()(x) by {
        lemma_playback_rate_events_tokens(x);
    }
    lemma_opt_tokens(o, playback_rate_fn(), playback_rate_tokens_fn());
}

/// The tokens of a list of items written by preselection_fn().
proof fn lemma_preselection_list_tokens(s: Seq<Preselection>)
    ensures
        balanced(each_events(s, preselection_fn())),
        events_tokens(each_events(s, preselection_fn()), seq![]) == each_tokens(s, preselection_tokens_fn()),
{
    assert forall|x: Preselection| #[trigger] balanced(preselection_fn()(x)) && events_tokens(preselection_fn()(x), seq![]) == preselection_tokens_fn()(x) by {
        lemma_preselection_events_tokens(x);
    }
    lemma_each_tokens(s, preselection_fn(), preselection_tokens_fn());
}

/// The tokens of a list of items written by producer_reference_time_fn().
proof fn lemma_producer_reference_time_list_tokens(s: Seq<ProducerReferenceTime>)
    ensures
        balanced(each_events(s, producer_reference_time_fn())),
        events_tokens(each_events(s, producer_reference_time_fn()), seq![]) == each_tokens(s, producer_reference_time_tokens_fn()),
{
    assert forall|x: ProducerReferenceTime| #[trigger] balanced(producer_reference_time_fn()(x)) && events_tokens(producer_reference_time_fn()(x), seq![]) == producer_reference_time_tokens_fn()(x) by {
        lemma_producer_reference_time_events_tokens(x);
    }
    lemma_each_tokens(s, producer_reference_time_fn(), producer_reference_time_tokens_fn());
}

/// The tokens of a list of items written by representation_fn().
proof fn lemma_representation_list_tokens(s: Seq<Representation>)
    ensures
        balanced(each_events(s, representation_fn())),
        events_tokens(each_events(s, representation_fn()), seq![]) == each_tokens(s, representation_tokens_fn()),
{
    assert forall|x: Representation| #[trigger] balanced(representation_fn()(x)) && events_tokens(representation_fn()(x), seq![]) == representation_tokens_fn()(x) by {
        lemma_representation_events_tokens(x);
    }
    lemma_each_tokens(s, representation_fn(), representation_tokens_fn());
}

/// The tokens of an optional item written by segment_base_fn().
proof fn lemma_segment_base_opt_tokens(o: Option<SegmentBase>)
    ensures
        balanced(opt_events(o, segment_base_fn())),
        events_tokens(opt_events(o, segment_base_fn()), seq![]) == opt_tokens(o, segment_base_tokens_fn()),
{
    assert forall|x: SegmentBase| #[trigger] balanced(segment_base_fn()(x)) && events_tokens(segment_base_fn()(x), seq![]) == segment_base_tokens_fn()(x) by {
        lemma_segment_base_events_tokens(x);
    }
    lemma_opt_tokens(o, segment_base_fn(), segment_base_tokens_fn());
}

/// The tokens of an optional item written by segment_list_fn().
proof fn lemma_segment_list_opt_tokens(o: Option<SegmentList>)
    ensures
        balanced(opt_events(o, segment_list_fn())),
        events_tokens(opt_events(o, segment_list_fn()), seq![]) == opt_tokens(o, segment_list_tokens_fn()),
{
    assert forall|x: SegmentList| #[trigger] balanced(segment_list_fn()(x)) && events_tokens(segment_list_fn()(x), seq![]) == segment_list_tokens_fn()(x) by {
        lemma_segment_list_events_tokens(x);
    }
    lemma_opt_tokens(o, segment_list_fn(), segment_list_tokens_fn());
}

/// The tokens of a list of items written by segment_sequence_properties_fn().
proof fn lemma_segment_sequence_properties_list_tokens(s: Seq<SegmentSequenceProperties>)
    ensures
        balanced(each_events(s, segment_sequence_properties_fn())),
        events_tokens(each_events(s, segment_sequence_properties_fn()), seq![]) == each_tokens(s, segment_sequence_properties_tokens_fn()),
{
    assert forall|x: SegmentSequenceProperties| #[trigger] balanced(segment_sequence_properties_fn()(x)) && events_tokens(segment_sequence_properties_fn()(x), seq![]) == segment_sequence_properties_tokens_fn()(x) by {
        lemma_segment_sequence_properties_events_tokens(x);
    }
    lemma_each_tokens(s, segment_sequence_properties_fn(), segment_sequence_properties_tokens_fn());
}

/// The tokens of an optional item written by segment_template_fn().
proof fn lemma_segment_template_opt_tokens(o: Option<SegmentTemplate>)
    ensures
        balanced(opt_events(o, segment_template_fn())),
        events_tokens(opt_events(o, segment_template_fn()), seq![]) == opt_tokens(o, segment_template_tokens_fn()),
{
    assert forall|x: SegmentTemplate| #[trigger] balanced(segment_template_fn()(x)) && events_tokens(segment_template_fn()(x), seq![]) == segment_template_tokens_fn()(x) by {
        lemma_segment_template_events_tokens(x);
    }
    lemma_opt_tokens(o, segment_template_fn(), segment_template_tokens_fn());
}

/// The tokens of a list of items written by segment_url_fn().
proof fn lemma_segment_url_list_tokens(s: Seq<SegmentUrl>)
    ensures
        balanced(each_events(s, segment_url_fn())),
        events_tokens(each_events(s, segment_url_fn()), seq![]) == each_tokens(s, segment_url_tokens_fn()),
{
    assert forall|x: SegmentUrl| #[trigger] balanced(segment_url_fn()(x)) && events_tokens(segment_url_fn()(x), seq![]) == segment_url_tokens_fn()(x) by {
        lemma_segment_url_events_tokens(x);
    }
    lemma_each_tokens(s, segment_url_fn(), segment_url_tokens_fn());
}

/// The tokens of a list of items written by service_description_fn().
proof fn lemma_service_description_list_tokens(s: Seq<ServiceDescription>)
    ensures
        balanced(each_events(s, service_description_fn())),
        events_tokens(each_events(s, service_description_fn()), seq![]) == each_tokens(s, service_description_tokens_fn()),
{
    assert forall|x: ServiceDescription| #[trigger] balanced(service_description_fn()(x)) && events_tokens(service_description_fn()(x), seq![]) == service_description_tokens_fn()(x) by {
        lemma_service_description_events_tokens(x);
    }
    lemma_each_tokens(s, service_description_fn(), service_description_tokens_fn());
}

/// The tokens of a list of items written by sub_representation_fn().
proof fn lemma_sub_representation_list_tokens(s: Seq<SubRepresentation>)
    ensures
        balanced(each_events(s, sub_representation_fn())),
        events_tokens(each_events(s, sub_representation_fn()), seq![]) == each_tokens(s, sub_representation_tokens_fn()),
{
    assert forall|x: SubRepresentation| #[trigger] balanced(sub_representation_fn()(x)) && events_tokens(sub_representation_fn()(x), seq![]) == sub_representation_tokens_fn()(x) by {
        lemma_sub_representation_events_tokens(x);
    }
    lemma_each_tokens(s, sub_representation_fn(), sub_representation_tokens_fn());
}

/// The tokens of a list of items written by subset_fn().
proof fn lemma_subset_list_tokens(s: Seq<Subset>)
    ensures
        balanced(each_events(s, subset_fn())),
        events_tokens(each_events(s, subset_fn()), seq![]) == each_tokens(s, subset_tokens_fn()),
{
    assert forall|x: Subset| #[trigger] balanced(subset_fn()(x)) && events_tokens(subset_fn()(x), seq![]) == subset_tokens_fn()(x) by {
        lemma_subset_events_tokens(x);
    }
    lemma_each_tokens(s, subset_fn(), subset_tokens_fn());
}

/// The tokens of a list of items written by utc_timing_fn().
proof fn lemma_utc_timing_list_tokens(s: Seq<UtcTiming>)
    ensures
        balanced(each_events(s, utc_timing_fn())),
        events_tokens(each_events(s, utc_timing_fn()), seq![]) == each_tokens(s, utc_timing_tokens_fn()),
{
    assert forall|x: UtcTiming| #[trigger] balanced(utc_timing_fn()(x)) && events_tokens(utc_timing_fn()(x), seq![]) == utc_timing_tokens_fn()(x) by {
        lemma_utc_timing_events_tokens(x);
    }
    lemma_each_tokens(s, utc_timing_fn(), utc_timing_tokens_fn());
}

/// The tokens of an optional item written by utc_timing_fn().
proof fn lemma_utc_timing_opt_tokens(o: Option<UtcTiming>)
    ensures
        balanced(opt_events(o, utc_timing_fn())),
        events_tokens(opt_events(o, utc_timing_fn()), seq![]) == opt_tokens(o, utc_timing_tokens_fn()),
{
    assert forall|x: UtcTiming| #[trigger] balanced(utc_timing_fn()(x)) && events_tokens(utc_timing_fn()(x), seq![]) == utc_timing_tokens_fn()(x) by {
        lemma_utc_timing_events_tokens(x);
    }
    lemma_opt_tokens(o, utc_timing_fn(), utc_timing_tokens_fn());
}

/// Reading back a written MPD: the tokens that a reader reports for the
/// events that the writer writes for `m`, followed by the end of the
/// document, are read into `m` itself, when `m` holds only what the reader
/// reads back as it is (durations that it accepts, texts without white
/// space around them, no empty text that it drops).
pub proof fn law_written_mpd_read_back(m: Mpd)
    requires
        mpd_clean(m),
    ensures
        mpd_of_tokens(events_tokens(mpd_events(m), seq![]) + seq![TokenV::EndDocument]) == Ok::<MpdV, ErrorKind>(m@),
{
    lemma_mpd_events_tokens(m);
    lemma_mpd_tokens_read_back(m);
}

} // verus!
