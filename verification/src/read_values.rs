//! What the reader reads holds only what it reads back as it is, so that an
//! MPD read from any tokens, once written, is read back the same.
use vstd::prelude::*;

use crate::duration::{count_char, duration_ok, duration_scan, number_text_ok};
use crate::error::ErrorKind;
use crate::event_tokens::{events_tokens, law_written_mpd_read_back};
use crate::model::{
    AdaptationSetV, BaseUrlV, CertUrlV, ContentProtectionV, ContentSteeringV, EventStreamV,
    EventV, LabelV, LocationV, MetricsRangeV, MetricsV, MpdV, PatchLocationV, PeriodV,
    PreselectionV, RepresentationV, SubRepresentationV, views
};
use crate::patch_reader::{finished, lemma_skip_scan_pos, skip_scan};
use crate::reader::{
    adaptation_set_at, adaptation_set_scan, adaptation_set_start, base_url_at, base_url_start,
    content_component_at, content_protection_at, content_protection_scan,
    content_protection_start, content_steering_at, content_steering_start, descriptor_start,
    event_at, event_body_scan, event_start, event_stream_at, event_stream_scan,
    event_stream_start, find_mpd_root, first_attr, lemma_adaptation_set_at_pos,
    lemma_base_url_at_pos, lemma_content_component_at_pos, lemma_content_protection_at_pos,
    lemma_content_steering_at_pos, lemma_event_at_pos, lemma_event_stream_at_pos,
    lemma_location_at_pos, lemma_metrics_at_pos, lemma_patch_location_at_pos,
    lemma_period_at_pos, lemma_preselection_at_pos, lemma_producer_reference_time_at_pos,
    lemma_representation_at_pos, lemma_segment_base_at_pos, lemma_segment_list_at_pos,
    lemma_segment_template_at_pos, lemma_service_description_at_pos, lemma_signal_scan_pos,
    lemma_sub_representation_at_pos, lemma_text_scan_pos, lemma_timeline_scan_pos, location_at,
    location_start, metrics_at, metrics_range_start, metrics_scan, metrics_start, mpd_at,
    mpd_of_tokens, mpd_scan, mpd_start, patch_location_at, patch_location_start, period_at,
    period_scan, period_start, preselection_at, preselection_scan, preselection_start,
    producer_reference_time_at, representation_at, representation_scan, representation_start,
    segment_base_at, segment_list_at, segment_sequence_properties_start, segment_template_at,
    service_description_at, signal_scan, sub_representation_at, sub_representation_scan,
    sub_representation_start, subset_start, text_scan, timeline_scan, utc_timing_start
};
use crate::roundtrip::{
    adaptation_set_clean, base_url_clean, cert_url_clean, content_protection_clean,
    content_steering_clean, event_clean, event_stream_clean, kept, label_clean, location_clean,
    metrics_clean, metrics_range_clean, mpd_clean, patch_location_clean, period_clean,
    preselection_clean, representation_clean, sub_representation_clean, trimmed
};
use crate::text::{is_digit, is_white_space, trim, trim_end, trim_start};
use crate::types::{
    AdaptationSet, BaseUrl, CertUrl, ContentProtection, ContentSteering, Event, EventStream,
    Label, Location, Metrics, MetricsRange, Mpd, PatchLocation, Period, Preselection,
    Representation, SubRepresentation
};
use crate::writer::mpd_events;
use crate::xml_io::{TokenV, XmlAttrV};

verus! {

proof fn lemma_trim_start_first(s: Seq<char>)
    ensures
        trim_start(s).len() > 0 ==> !is_white_space(trim_start(s)[0]),
    decreases s.len(),
{
    if s.len() > 0 && is_white_space(s[0]) {
        lemma_trim_start_first(s.drop_first());
    }
}

proof fn lemma_trim_end_prefix(s: Seq<char>)
    ensures
        trim_end(s).len() <= s.len(),
        trim_end(s) == s.subrange(0, trim_end(s).len() as int),
        trim_end(s).len() > 0 ==> !is_white_space(trim_end(s).last()),
    decreases s.len(),
{
    if s.len() > 0 && is_white_space(s.last()) {
        lemma_trim_end_prefix(s.drop_last());
        assert(s.drop_last().subrange(0, trim_end(s).len() as int) =~= s.subrange(0, trim_end(s).len() as int));
    } else {
        assert(s.subrange(0, s.len() as int) =~= s);
    }
}

/// A trimmed text has nothing more to trim.
proof fn lemma_trim_trimmed(s: Seq<char>)
    ensures
        trim(trim(s)) == trim(s),
{
    let a = trim_start(s);
    let u = trim_end(a);
    lemma_trim_start_first(s);
    lemma_trim_end_prefix(a);
    if u.len() > 0 {
        assert(u[0] == a[0]);
        assert(trim_start(u) == u);
        assert(trim_end(u) == u);
    } else {
        assert(u =~= Seq::<char>::empty());
        assert(trim_start(u) == u);
        assert(trim_end(u) == u);
    }
}

/// What `finished` gives is kept as it is.
proof fn lemma_finished_kept(c: Seq<char>)
    ensures
        finished(c, true) matches Some(s) ==> kept(s),
{
    lemma_trim_trimmed(c);
}

/// The empty text is trimmed.
proof fn lemma_empty_trimmed()
    ensures
        trimmed(Seq::<char>::empty()),
{
    assert(trim_start(Seq::<char>::empty()) == Seq::<char>::empty());
    assert(trim_end(Seq::<char>::empty()) == Seq::<char>::empty());
}

/// The text content that the reader reads is kept as it is.
proof fn lemma_text_scan_kept(t: Seq<TokenV>, i: int, name: Seq<char>, acc: Seq<char>)
    ensures
        text_scan(t, i, name, acc).0 matches Some(s) ==> kept(s),
    decreases t.len() - i,
{
    if 0 <= i < t.len() {
        match t[i] {
            TokenV::Characters(s) => lemma_text_scan_kept(t, i + 1, name, acc + s),
            TokenV::CData(s) => lemma_text_scan_kept(t, i + 1, name, acc + s),
            TokenV::End(n) => if n == name {
                lemma_finished_kept(acc);
            } else {
                lemma_text_scan_kept(t, i + 1, name, acc);
            },
            TokenV::EndDocument => {},
            TokenV::Error => {},
            _ => lemma_text_scan_kept(t, i + 1, name, acc),
        }
    }
}

/// The `Binary` text that the reader reads is kept as it is.
proof fn lemma_signal_scan_kept(t: Seq<TokenV>, i: int, bin: Option<Seq<char>>)
    requires
        bin matches Some(s) ==> kept(s),
    ensures
        signal_scan(t, i, bin) matches Ok((b, _)) ==> (b matches Some(s) ==> kept(s)),
    decreases t.len() - i,
{
    if 0 <= i < t.len() {
        match t[i] {
            TokenV::Start(n, _, _) => if n == "Binary"@ {
                lemma_text_scan_pos(t, i + 1, n, seq![]);
                lemma_text_scan_kept(t, i + 1, n, seq![]);
                let (b, j) = text_scan(t, i + 1, n, seq![]);
                lemma_signal_scan_kept(t, j, b);
            } else {
                lemma_skip_scan_pos(t, i + 1, 1);
                if let Ok(j) = skip_scan(t, i + 1, 1) {
                    lemma_signal_scan_kept(t, j, bin);
                }
            },
            TokenV::End(n) => if n != "Signal"@ {
                lemma_signal_scan_kept(t, i + 1, bin);
            },
            TokenV::Error => {},
            TokenV::EndDocument => {},
            _ => lemma_signal_scan_kept(t, i + 1, bin),
        }
    }
}

/// The text and the signal of an `Event` that the reader reads are kept as
/// they are.
proof fn lemma_event_body_kept(t: Seq<TokenV>, i: int, text: Seq<char>, sig: Option<Seq<char>>)
    requires
        sig matches Some(s) ==> kept(s),
    ensures
        event_body_scan(t, i, text, sig) matches Ok(((c, b), _)) ==> (c matches Some(s) ==> kept(s)) && (b matches Some(s) ==> kept(s)),
    decreases t.len() - i,
{
    lemma_finished_kept(text);
    if 0 <= i < t.len() {
        match t[i] {
            TokenV::Characters(s) => if trim(s).len() == 0 {
                lemma_event_body_kept(t, i + 1, text, sig);
            } else {
                lemma_event_body_kept(t, i + 1, text + s, sig);
            },
            TokenV::CData(s) => lemma_event_body_kept(t, i + 1, text + s, sig),
            TokenV::Start(n, _, _) => if n == "Signal"@ {
                lemma_signal_scan_pos(t, i + 1, None);
                lemma_signal_scan_kept(t, i + 1, None);
                if let Ok((b, j)) = signal_scan(t, i + 1, None) {
                    lemma_event_body_kept(t, j, text, b);
                }
            } else {
                lemma_skip_scan_pos(t, i + 1, 1);
                if let Ok(j) = skip_scan(t, i + 1, 1) {
                    lemma_event_body_kept(t, j, text, sig);
                }
            },
            TokenV::End(n) => if n != "Event"@ {
                lemma_event_body_kept(t, i + 1, text, sig);
            },
            TokenV::Error => {},
            TokenV::EndDocument => {},
            _ => lemma_event_body_kept(t, i + 1, text, sig),
        }
    }
}

/// The minimum buffer time that the reader gives when there is none is a
/// duration that it accepts.
proof fn lemma_default_buffer_time_ok()
    ensures
        duration_ok("PT0S"@),
{
    reveal_strlit("PT0S");
    let s = "PT0S"@;
    assert(s.len() == 4);
    assert(trim_start(s) == s);
    assert(trim_end(s) == s);
    let d = s.drop_first();
    assert(d =~= seq!['T', '0', 'S']);
    let z = d.subrange(1, 2);
    assert(z =~= seq!['0']);
    assert(z.drop_last() =~= Seq::<char>::empty());
    assert(z.last() == '0');
    assert(count_char(Seq::<char>::empty(), '.') == 0);
    assert(count_char(z, '.') == 0);
    assert(is_digit(z[0]));
    assert(number_text_ok(z));
    reveal_with_fuel(duration_scan, 5);
    assert(duration_scan(d, 3, true, None, true));
    assert(duration_scan(d, 2, true, Some(1), false));
    assert(duration_scan(d, 1, true, None, false));
    assert(duration_scan(d, 0, false, None, false));
}

/// `x` holds only what the reader reads back as it is.
pub open spec fn label_clean_v(x: LabelV) -> bool {
    &&& kept(x.text)
}

/// A value whose plain view holds only what the reader reads back as it is
/// does so itself.
pub proof fn lemma_label_clean_of_view(l: Label)
    requires
        label_clean_v(l@),
    ensures
        label_clean(l),
{
    
}

/// `x` holds only what the reader reads back as it is.
pub open spec fn location_clean_v(x: LocationV) -> bool {
    &&& trimmed(x.url)
}

/// A value whose plain view holds only what the reader reads back as it is
/// does so itself.
pub proof fn lemma_location_clean_of_view(l: Location)
    requires
        location_clean_v(l@),
    ensures
        location_clean(l),
{
    
}

/// `x` holds only what the reader reads back as it is.
pub open spec fn base_url_clean_v(x: BaseUrlV) -> bool {
    &&& trimmed(x.url)
}

/// A value whose plain view holds only what the reader reads back as it is
/// does so itself.
pub proof fn lemma_base_url_clean_of_view(b: BaseUrl)
    requires
        base_url_clean_v(b@),
    ensures
        base_url_clean(b),
{
    
}

/// `x` holds only what the reader reads back as it is.
pub open spec fn patch_location_clean_v(x: PatchLocationV) -> bool {
    &&& trimmed(x.url)
}

/// A value whose plain view holds only what the reader reads back as it is
/// does so itself.
pub proof fn lemma_patch_location_clean_of_view(p: PatchLocation)
    requires
        patch_location_clean_v(p@),
    ensures
        patch_location_clean(p),
{
    
}

/// `x` holds only what the reader reads back as it is.
pub open spec fn content_steering_clean_v(x: ContentSteeringV) -> bool {
    &&& trimmed(x.server_url)
}

/// A value whose plain view holds only what the reader reads back as it is
/// does so itself.
pub proof fn lemma_content_steering_clean_of_view(c: ContentSteering)
    requires
        content_steering_clean_v(c@),
    ensures
        content_steering_clean(c),
{
    
}

/// `x` holds only what the reader reads back as it is.
pub open spec fn metrics_range_clean_v(x: MetricsRangeV) -> bool {
    &&& x.starttime matches Some(s) ==> duration_ok(s)
    &&& x.duration matches Some(s) ==> duration_ok(s)
}

/// A value whose plain view holds only what the reader reads back as it is
/// does so itself.
pub proof fn lemma_metrics_range_clean_of_view(r: MetricsRange)
    requires
        metrics_range_clean_v(r@),
    ensures
        metrics_range_clean(r),
{
    
}

/// `x` holds only what the reader reads back as it is.
pub open spec fn metrics_clean_v(x: MetricsV) -> bool {
    &&& forall|k: int| 0 <= k < x.ranges.len() ==> metrics_range_clean_v(#[trigger] x.ranges[k])
}

/// A value whose plain view holds only what the reader reads back as it is
/// does so itself.
pub proof fn lemma_metrics_clean_of_view(m: Metrics)
    requires
        metrics_clean_v(m@),
    ensures
        metrics_clean(m),
{
    assert forall|k: int| 0 <= k < m.ranges@.len() implies metrics_range_clean(#[trigger] m.ranges@[k]) by {
        assert(m@.ranges[k] == m.ranges@[k]@);
        assert(metrics_range_clean_v(m@.ranges[k]));
        lemma_metrics_range_clean_of_view(m.ranges@[k]);
    }
}

/// `x` holds only what the reader reads back as it is.
pub open spec fn event_clean_v(x: EventV) -> bool {
    &&& x.content matches Some(s) ==> kept(s)
    &&& x.signal_binary matches Some(s) ==> kept(s)
}

/// A value whose plain view holds only what the reader reads back as it is
/// does so itself.
pub proof fn lemma_event_clean_of_view(e: Event)
    requires
        event_clean_v(e@),
    ensures
        event_clean(e),
{
    
}

/// `x` holds only what the reader reads back as it is.
pub open spec fn event_stream_clean_v(x: EventStreamV) -> bool {
    &&& forall|k: int| 0 <= k < x.events.len() ==> event_clean_v(#[trigger] x.events[k])
}

/// A value whose plain view holds only what the reader reads back as it is
/// does so itself.
pub proof fn lemma_event_stream_clean_of_view(s: EventStream)
    requires
        event_stream_clean_v(s@),
    ensures
        event_stream_clean(s),
{
    assert forall|k: int| 0 <= k < s.events@.len() implies event_clean(#[trigger] s.events@[k]) by {
        assert(s@.events[k] == s.events@[k]@);
        assert(event_clean_v(s@.events[k]));
        lemma_event_clean_of_view(s.events@[k]);
    }
}

/// `x` holds only what the reader reads back as it is.
pub open spec fn cert_url_clean_v(x: CertUrlV) -> bool {
    &&& kept(x.url)
}

/// A value whose plain view holds only what the reader reads back as it is
/// does so itself.
pub proof fn lemma_cert_url_clean_of_view(c: CertUrl)
    requires
        cert_url_clean_v(c@),
    ensures
        cert_url_clean(c),
{
    
}

/// `x` holds only what the reader reads back as it is.
pub open spec fn content_protection_clean_v(x: ContentProtectionV) -> bool {
    &&& x.pssh matches Some(s) ==> kept(s)
    &&& x.laurl matches Some(s) ==> kept(s)
    &&& x.pro matches Some(s) ==> kept(s)
    &&& forall|k: int| 0 <= k < x.certurls.len() ==> cert_url_clean_v(#[trigger] x.certurls[k])
}

/// A value whose plain view holds only what the reader reads back as it is
/// does so itself.
pub proof fn lemma_content_protection_clean_of_view(c: ContentProtection)
    requires
        content_protection_clean_v(c@),
    ensures
        content_protection_clean(c),
{
    assert forall|k: int| 0 <= k < c.certurls@.len() implies cert_url_clean(#[trigger] c.certurls@[k]) by {
        assert(c@.certurls[k] == c.certurls@[k]@);
        assert(cert_url_clean_v(c@.certurls[k]));
        lemma_cert_url_clean_of_view(c.certurls@[k]);
    }
}

/// `x` holds only what the reader reads back as it is.
pub open spec fn preselection_clean_v(x: PreselectionV) -> bool {
    &&& forall|k: int| 0 <= k < x.labels.len() ==> label_clean_v(#[trigger] x.labels[k])
}

/// A value whose plain view holds only what the reader reads back as it is
/// does so itself.
pub proof fn lemma_preselection_clean_of_view(p: Preselection)
    requires
        preselection_clean_v(p@),
    ensures
        preselection_clean(p),
{
    assert forall|k: int| 0 <= k < p.labels@.len() implies label_clean(#[trigger] p.labels@[k]) by {
        assert(p@.labels[k] == p.labels@[k]@);
        assert(label_clean_v(p@.labels[k]));
        lemma_label_clean_of_view(p.labels@[k]);
    }
}

/// `x` holds only what the reader reads back as it is.
pub open spec fn sub_representation_clean_v(x: SubRepresentationV) -> bool {
    &&& x.maximum_sap_period matches Some(s) ==> duration_ok(s)
    &&& forall|k: int| 0 <= k < x.content_protections.len() ==> content_protection_clean_v(#[trigger] x.content_protections[k])
}

/// A value whose plain view holds only what the reader reads back as it is
/// does so itself.
pub proof fn lemma_sub_representation_clean_of_view(s: SubRepresentation)
    requires
        sub_representation_clean_v(s@),
    ensures
        sub_representation_clean(s),
{
    assert forall|k: int| 0 <= k < s.content_protections@.len() implies content_protection_clean(#[trigger] s.content_protections@[k]) by {
        assert(s@.content_protections[k] == s.content_protections@[k]@);
        assert(content_protection_clean_v(s@.content_protections[k]));
        lemma_content_protection_clean_of_view(s.content_protections@[k]);
    }
}

/// `x` holds only what the reader reads back as it is.
pub open spec fn representation_clean_v(x: RepresentationV) -> bool {
    &&& x.maximum_sap_period matches Some(s) ==> duration_ok(s)
    &&& forall|k: int| 0 <= k < x.base_urls.len() ==> base_url_clean_v(#[trigger] x.base_urls[k])
    &&& forall|k: int| 0 <= k < x.sub_representations.len() ==> sub_representation_clean_v(#[trigger] x.sub_representations[k])
    &&& forall|k: int| 0 <= k < x.content_protections.len() ==> content_protection_clean_v(#[trigger] x.content_protections[k])
}

/// A value whose plain view holds only what the reader reads back as it is
/// does so itself.
pub proof fn lemma_representation_clean_of_view(r: Representation)
    requires
        representation_clean_v(r@),
    ensures
        representation_clean(r),
{
    assert forall|k: int| 0 <= k < r.base_urls@.len() implies base_url_clean(#[trigger] r.base_urls@[k]) by {
        assert(r@.base_urls[k] == r.base_urls@[k]@);
        assert(base_url_clean_v(r@.base_urls[k]));
        lemma_base_url_clean_of_view(r.base_urls@[k]);
    }
    assert forall|k: int| 0 <= k < r.sub_representations@.len() implies sub_representation_clean(#[trigger] r.sub_representations@[k]) by {
        assert(r@.sub_representations[k] == r.sub_representations@[k]@);
        assert(sub_representation_clean_v(r@.sub_representations[k]));
        lemma_sub_representation_clean_of_view(r.sub_representations@[k]);
    }
    assert forall|k: int| 0 <= k < r.content_protections@.len() implies content_protection_clean(#[trigger] r.content_protections@[k]) by {
        assert(r@.content_protections[k] == r.content_protections@[k]@);
        assert(content_protection_clean_v(r@.content_protections[k]));
        lemma_content_protection_clean_of_view(r.content_protections@[k]);
    }
}

/// `x` holds only what the reader reads back as it is.
pub open spec fn adaptation_set_clean_v(x: AdaptationSetV) -> bool {
    &&& x.maximum_sap_period matches Some(s) ==> duration_ok(s)
    &&& forall|k: int| 0 <= k < x.base_urls.len() ==> base_url_clean_v(#[trigger] x.base_urls[k])
    &&& forall|k: int| 0 <= k < x.labels.len() ==> label_clean_v(#[trigger] x.labels[k])
    &&& forall|k: int| 0 <= k < x.group_labels.len() ==> label_clean_v(#[trigger] x.group_labels[k])
    &&& forall|k: int| 0 <= k < x.event_streams.len() ==> event_stream_clean_v(#[trigger] x.event_streams[k])
    &&& forall|k: int| 0 <= k < x.content_protections.len() ==> content_protection_clean_v(#[trigger] x.content_protections[k])
    &&& forall|k: int| 0 <= k < x.representations.len() ==> representation_clean_v(#[trigger] x.representations[k])
}

/// A value whose plain view holds only what the reader reads back as it is
/// does so itself.
pub proof fn lemma_adaptation_set_clean_of_view(a: AdaptationSet)
    requires
        adaptation_set_clean_v(a@),
    ensures
        adaptation_set_clean(a),
{
    assert forall|k: int| 0 <= k < a.base_urls@.len() implies base_url_clean(#[trigger] a.base_urls@[k]) by {
        assert(a@.base_urls[k] == a.base_urls@[k]@);
        assert(base_url_clean_v(a@.base_urls[k]));
        lemma_base_url_clean_of_view(a.base_urls@[k]);
    }
    assert forall|k: int| 0 <= k < a.labels@.len() implies label_clean(#[trigger] a.labels@[k]) by {
        assert(a@.labels[k] == a.labels@[k]@);
        assert(label_clean_v(a@.labels[k]));
        lemma_label_clean_of_view(a.labels@[k]);
    }
    assert forall|k: int| 0 <= k < a.group_labels@.len() implies label_clean(#[trigger] a.group_labels@[k]) by {
        assert(a@.group_labels[k] == a.group_labels@[k]@);
        assert(label_clean_v(a@.group_labels[k]));
        lemma_label_clean_of_view(a.group_labels@[k]);
    }
    assert forall|k: int| 0 <= k < a.event_streams@.len() implies event_stream_clean(#[trigger] a.event_streams@[k]) by {
        assert(a@.event_streams[k] == a.event_streams@[k]@);
        assert(event_stream_clean_v(a@.event_streams[k]));
        lemma_event_stream_clean_of_view(a.event_streams@[k]);
    }
    assert forall|k: int| 0 <= k < a.content_protections@.len() implies content_protection_clean(#[trigger] a.content_protections@[k]) by {
        assert(a@.content_protections[k] == a.content_protections@[k]@);
        assert(content_protection_clean_v(a@.content_protections[k]));
        lemma_content_protection_clean_of_view(a.content_protections@[k]);
    }
    assert forall|k: int| 0 <= k < a.representations@.len() implies representation_clean(#[trigger] a.representations@[k]) by {
        assert(a@.representations[k] == a.representations@[k]@);
        assert(representation_clean_v(a@.representations[k]));
        lemma_representation_clean_of_view(a.representations@[k]);
    }
}

/// `x` holds only what the reader reads back as it is.
pub open spec fn period_clean_v(x: PeriodV) -> bool {
    &&& x.start matches Some(s) ==> duration_ok(s)
    &&& x.duration matches Some(s) ==> duration_ok(s)
    &&& forall|k: int| 0 <= k < x.base_urls.len() ==> base_url_clean_v(#[trigger] x.base_urls[k])
    &&& forall|k: int| 0 <= k < x.event_streams.len() ==> event_stream_clean_v(#[trigger] x.event_streams[k])
    &&& forall|k: int| 0 <= k < x.adaptation_sets.len() ==> adaptation_set_clean_v(#[trigger] x.adaptation_sets[k])
    &&& forall|k: int| 0 <= k < x.preselections.len() ==> preselection_clean_v(#[trigger] x.preselections[k])
}

/// A value whose plain view holds only what the reader reads back as it is
/// does so itself.
pub proof fn lemma_period_clean_of_view(p: Period)
    requires
        period_clean_v(p@),
    ensures
        period_clean(p),
{
    assert forall|k: int| 0 <= k < p.base_urls@.len() implies base_url_clean(#[trigger] p.base_urls@[k]) by {
        assert(p@.base_urls[k] == p.base_urls@[k]@);
        assert(base_url_clean_v(p@.base_urls[k]));
        lemma_base_url_clean_of_view(p.base_urls@[k]);
    }
    assert forall|k: int| 0 <= k < p.event_streams@.len() implies event_stream_clean(#[trigger] p.event_streams@[k]) by {
        assert(p@.event_streams[k] == p.event_streams@[k]@);
        assert(event_stream_clean_v(p@.event_streams[k]));
        lemma_event_stream_clean_of_view(p.event_streams@[k]);
    }
    assert forall|k: int| 0 <= k < p.adaptation_sets@.len() implies adaptation_set_clean(#[trigger] p.adaptation_sets@[k]) by {
        assert(p@.adaptation_sets[k] == p.adaptation_sets@[k]@);
        assert(adaptation_set_clean_v(p@.adaptation_sets[k]));
        lemma_adaptation_set_clean_of_view(p.adaptation_sets@[k]);
    }
    assert forall|k: int| 0 <= k < p.preselections@.len() implies preselection_clean(#[trigger] p.preselections@[k]) by {
        assert(p@.preselections[k] == p.preselections@[k]@);
        assert(preselection_clean_v(p@.preselections[k]));
        lemma_preselection_clean_of_view(p.preselections@[k]);
    }
}

/// `x` holds only what the reader reads back as it is.
pub open spec fn mpd_clean_v(x: MpdV) -> bool {
    &&& duration_ok(x.min_buffer_time)
    &&& x.media_presentation_duration matches Some(s) ==> duration_ok(s)
    &&& x.minimum_update_period matches Some(s) ==> duration_ok(s)
    &&& x.time_shift_buffer_depth matches Some(s) ==> duration_ok(s)
    &&& x.suggested_presentation_delay matches Some(s) ==> duration_ok(s)
    &&& x.max_segment_duration matches Some(s) ==> duration_ok(s)
    &&& x.max_subsegment_duration matches Some(s) ==> duration_ok(s)
    &&& forall|k: int| 0 <= k < x.base_urls.len() ==> base_url_clean_v(#[trigger] x.base_urls[k])
    &&& forall|k: int| 0 <= k < x.locations.len() ==> location_clean_v(#[trigger] x.locations[k])
    &&& forall|k: int| 0 <= k < x.patch_locations.len() ==> patch_location_clean_v(#[trigger] x.patch_locations[k])
    &&& forall|k: int| 0 <= k < x.periods.len() ==> period_clean_v(#[trigger] x.periods[k])
    &&& forall|k: int| 0 <= k < x.metrics.len() ==> metrics_clean_v(#[trigger] x.metrics[k])
    &&& x.content_steering matches Some(c) ==> content_steering_clean_v(c)
}

/// A value whose plain view holds only what the reader reads back as it is
/// does so itself.
pub proof fn lemma_mpd_clean_of_view(m: Mpd)
    requires
        mpd_clean_v(m@),
    ensures
        mpd_clean(m),
{
    assert forall|k: int| 0 <= k < m.base_urls@.len() implies base_url_clean(#[trigger] m.base_urls@[k]) by {
        assert(m@.base_urls[k] == m.base_urls@[k]@);
        assert(base_url_clean_v(m@.base_urls[k]));
        lemma_base_url_clean_of_view(m.base_urls@[k]);
    }
    assert forall|k: int| 0 <= k < m.locations@.len() implies location_clean(#[trigger] m.locations@[k]) by {
        assert(m@.locations[k] == m.locations@[k]@);
        assert(location_clean_v(m@.locations[k]));
        lemma_location_clean_of_view(m.locations@[k]);
    }
    assert forall|k: int| 0 <= k < m.patch_locations@.len() implies patch_location_clean(#[trigger] m.patch_locations@[k]) by {
        assert(m@.patch_locations[k] == m.patch_locations@[k]@);
        assert(patch_location_clean_v(m@.patch_locations[k]));
        lemma_patch_location_clean_of_view(m.patch_locations@[k]);
    }
    assert forall|k: int| 0 <= k < m.periods@.len() implies period_clean(#[trigger] m.periods@[k]) by {
        assert(m@.periods[k] == m.periods@[k]@);
        assert(period_clean_v(m@.periods[k]));
        lemma_period_clean_of_view(m.periods@[k]);
    }
    assert forall|k: int| 0 <= k < m.metrics@.len() implies metrics_clean(#[trigger] m.metrics@[k]) by {
        assert(m@.metrics[k] == m.metrics@[k]@);
        assert(metrics_clean_v(m@.metrics[k]));
        lemma_metrics_clean_of_view(m.metrics@[k]);
    }
    if let Some(c) = m.content_steering {
        lemma_content_steering_clean_of_view(c);
    }
}

/// The value that the reader gives an element from its attributes holds only
/// what it reads back as it is.
proof fn lemma_location_start_clean(a: Seq<XmlAttrV>)
    ensures
        location_start(a) matches Ok(v) ==> location_clean_v(v),
{
    reveal(location_start);
    lemma_empty_trimmed();
}

/// The `Location` element that the reader reads holds only what it reads back as it is.
proof fn lemma_location_at_clean(t: Seq<TokenV>, i: int, a: Seq<XmlAttrV>)
    ensures
        location_at(t, i, a) matches Ok((v, _)) ==> location_clean_v(v),
{
    reveal(location_at);
    lemma_location_start_clean(a);
    lemma_text_scan_kept(t, i, "Location"@, seq![]);
    lemma_empty_trimmed();
}

/// The value that the reader gives an element from its attributes holds only
/// what it reads back as it is.
proof fn lemma_base_url_start_clean(a: Seq<XmlAttrV>)
    ensures
        base_url_start(a) matches Ok(v) ==> base_url_clean_v(v),
{
    reveal(base_url_start);
    lemma_empty_trimmed();
}

/// The `BaseURL` element that the reader reads holds only what it reads back as it is.
proof fn lemma_base_url_at_clean(t: Seq<TokenV>, i: int, a: Seq<XmlAttrV>)
    ensures
        base_url_at(t, i, a) matches Ok((v, _)) ==> base_url_clean_v(v),
{
    reveal(base_url_at);
    lemma_base_url_start_clean(a);
    lemma_text_scan_kept(t, i, "BaseURL"@, seq![]);
    lemma_empty_trimmed();
}

/// The value that the reader gives an element from its attributes holds only
/// what it reads back as it is.
proof fn lemma_patch_location_start_clean(a: Seq<XmlAttrV>)
    ensures
        patch_location_start(a) matches Ok(v) ==> patch_location_clean_v(v),
{
    reveal(patch_location_start);
    lemma_empty_trimmed();
}

/// The `PatchLocation` element that the reader reads holds only what it reads back as it is.
proof fn lemma_patch_location_at_clean(t: Seq<TokenV>, i: int, a: Seq<XmlAttrV>)
    ensures
        patch_location_at(t, i, a) matches Ok((v, _)) ==> patch_location_clean_v(v),
{
    reveal(patch_location_at);
    lemma_patch_location_start_clean(a);
    lemma_text_scan_kept(t, i, "PatchLocation"@, seq![]);
    lemma_empty_trimmed();
}

/// The value that the reader gives an element from its attributes holds only
/// what it reads back as it is.
proof fn lemma_content_steering_start_clean(a: Seq<XmlAttrV>)
    ensures
        content_steering_start(a) matches Ok(v) ==> content_steering_clean_v(v),
{
    reveal(content_steering_start);
    lemma_empty_trimmed();
}

/// The `ContentSteering` element that the reader reads holds only what it reads back as it is.
proof fn lemma_content_steering_at_clean(t: Seq<TokenV>, i: int, a: Seq<XmlAttrV>)
    ensures
        content_steering_at(t, i, a) matches Ok((v, _)) ==> content_steering_clean_v(v),
{
    reveal(content_steering_at);
    lemma_content_steering_start_clean(a);
    lemma_text_scan_kept(t, i, "ContentSteering"@, seq![]);
    lemma_empty_trimmed();
}

/// The value that the reader gives an element from its attributes holds only
/// what it reads back as it is.
proof fn lemma_metrics_range_start_clean(a: Seq<XmlAttrV>)
    ensures
        metrics_range_start(a) matches Ok(v) ==> metrics_range_clean_v(v),
{
    reveal(metrics_range_start);
}

/// The value that the reader gives an element from its attributes holds only
/// what it reads back as it is.
proof fn lemma_metrics_start_clean(a: Seq<XmlAttrV>)
    ensures
        metrics_start(a) matches Ok(v) ==> metrics_clean_v(v),
{
    reveal(metrics_start);
}

/// Reading on the `Metrics` element keeps to what the reader reads back as it is.
proof fn lemma_metrics_scan_clean(t: Seq<TokenV>, i: int, x: MetricsV)
    requires
        metrics_clean_v(x),
    ensures
        metrics_scan(t, i, x) matches Ok((y, _)) ==> metrics_clean_v(y),
    decreases t.len() - i,
{
    if 0 <= i < t.len() {
        match t[i] {
            TokenV::End(n) => if n != "Metrics"@ {
                lemma_metrics_scan_clean(t, i + 1, x);
            },
            TokenV::Start(n, _, a) => if n == "Reporting"@ {
            lemma_skip_scan_pos(t, i + 1, 1);
            if let Ok(v) = descriptor_start(a) {
                if let Ok(j) = skip_scan(t, i + 1, 1) {
                    let y = MetricsV { reportings: x.reportings.push(v), ..x };
                    lemma_metrics_scan_clean(t, j, y);
                }
            }
        } else if n == "Range"@ {
            lemma_skip_scan_pos(t, i + 1, 1);
            if let Ok(v) = metrics_range_start(a) {
            lemma_metrics_range_start_clean(a);
                if let Ok(j) = skip_scan(t, i + 1, 1) {
                    let y = MetricsV { ranges: x.ranges.push(v), ..x };
                    assert forall|k: int| 0 <= k < y.ranges.len() implies metrics_range_clean_v(#[trigger] y.ranges[k]) by {
                        if k < x.ranges.len() {
                            assert(y.ranges[k] == x.ranges[k]);
                        }
                    }
                    lemma_metrics_scan_clean(t, j, y);
                }
            }
        } else {
            lemma_skip_scan_pos(t, i + 1, 1);
            if let Ok(j) = skip_scan(t, i + 1, 1) {
                lemma_metrics_scan_clean(t, j, x);
            }
        },
            TokenV::Error => {},
            TokenV::EndDocument => {},
            _ => lemma_metrics_scan_clean(t, i + 1, x),
        }
    }
}

/// The `Metrics` element that the reader reads holds only what it reads back as it is.
proof fn lemma_metrics_at_clean(t: Seq<TokenV>, i: int, a: Seq<XmlAttrV>)
    ensures
        metrics_at(t, i, a) matches Ok((v, _)) ==> metrics_clean_v(v),
{
    reveal(metrics_at);
    lemma_metrics_start_clean(a);
    if let Ok(x) = metrics_start(a) {
        lemma_metrics_scan_clean(t, i, x);
    }
}

/// The value that the reader gives an element from its attributes holds only
/// what it reads back as it is.
proof fn lemma_event_start_clean(a: Seq<XmlAttrV>)
    ensures
        event_start(a) matches Ok(v) ==> event_clean_v(v),
{
    reveal(event_start);
}

/// The `Event` element that the reader reads holds only what it reads back as it is.
proof fn lemma_event_at_clean(t: Seq<TokenV>, i: int, a: Seq<XmlAttrV>)
    ensures
        event_at(t, i, a) matches Ok((v, _)) ==> event_clean_v(v),
{
    reveal(event_at);
    lemma_event_start_clean(a);
    lemma_event_body_kept(t, i, seq![], None);
}

/// The value that the reader gives an element from its attributes holds only
/// what it reads back as it is.
proof fn lemma_event_stream_start_clean(a: Seq<XmlAttrV>)
    ensures
        event_stream_start(a) matches Ok(v) ==> event_stream_clean_v(v),
{
    reveal(event_stream_start);
}

/// Reading on the `EventStream` element keeps to what the reader reads back as it is.
proof fn lemma_event_stream_scan_clean(t: Seq<TokenV>, i: int, x: EventStreamV)
    requires
        event_stream_clean_v(x),
    ensures
        event_stream_scan(t, i, x) matches Ok((y, _)) ==> event_stream_clean_v(y),
    decreases t.len() - i,
{
    if 0 <= i < t.len() {
        match t[i] {
            TokenV::End(n) => if n != "EventStream"@ {
                lemma_event_stream_scan_clean(t, i + 1, x);
            },
            TokenV::Start(n, _, a) => if n == "Event"@ {
            lemma_event_at_pos(t, i + 1, a);
            if let Ok((v, j)) = event_at(t, i + 1, a) {
                lemma_event_at_clean(t, i + 1, a);
                let y = EventStreamV { events: x.events.push(v), ..x };
                assert forall|k: int| 0 <= k < y.events.len() implies event_clean_v(#[trigger] y.events[k]) by {
                    if k < x.events.len() {
                        assert(y.events[k] == x.events[k]);
                    }
                }
                lemma_event_stream_scan_clean(t, j, y);
            }
        } else {
            lemma_skip_scan_pos(t, i + 1, 1);
            if let Ok(j) = skip_scan(t, i + 1, 1) {
                lemma_event_stream_scan_clean(t, j, x);
            }
        },
            TokenV::Error => {},
            TokenV::EndDocument => {},
            _ => lemma_event_stream_scan_clean(t, i + 1, x),
        }
    }
}

/// The `EventStream` element that the reader reads holds only what it reads back as it is.
proof fn lemma_event_stream_at_clean(t: Seq<TokenV>, i: int, a: Seq<XmlAttrV>)
    ensures
        event_stream_at(t, i, a) matches Ok((v, _)) ==> event_stream_clean_v(v),
{
    reveal(event_stream_at);
    lemma_event_stream_start_clean(a);
    if let Ok(x) = event_stream_start(a) {
        lemma_event_stream_scan_clean(t, i, x);
    }
}

/// The value that the reader gives an element from its attributes holds only
/// what it reads back as it is.
proof fn lemma_content_protection_start_clean(a: Seq<XmlAttrV>)
    ensures
        content_protection_start(a) matches Ok(v) ==> content_protection_clean_v(v),
{
    reveal(content_protection_start);
}

/// Reading on the `ContentProtection` element keeps to what the reader reads back as it is.
proof fn lemma_content_protection_scan_clean(t: Seq<TokenV>, i: int, x: ContentProtectionV)
    requires
        content_protection_clean_v(x),
    ensures
        content_protection_scan(t, i, x) matches Ok((y, _)) ==> content_protection_clean_v(y),
    decreases t.len() - i,
{
    if 0 <= i < t.len() {
        match t[i] {
            TokenV::End(n) => if n != "ContentProtection"@ {
                lemma_content_protection_scan_clean(t, i + 1, x);
            },
            TokenV::Start(n, _, a) => if n == "pssh"@ {
            lemma_text_scan_pos(t, i + 1, n, seq![]);
            lemma_text_scan_kept(t, i + 1, n, seq![]);
            let (txt, j) = text_scan(t, i + 1, n, seq![]);
            lemma_content_protection_scan_clean(t, j, ContentProtectionV { pssh: txt, ..x });
        } else if n == "Laurl"@ || n == "laurl"@ {
            lemma_text_scan_pos(t, i + 1, n, seq![]);
            lemma_text_scan_kept(t, i + 1, n, seq![]);
            let (txt, j) = text_scan(t, i + 1, n, seq![]);
            lemma_content_protection_scan_clean(t, j, ContentProtectionV { laurl: txt, ..x });
        } else if n == "pro"@ {
            lemma_text_scan_pos(t, i + 1, n, seq![]);
            lemma_text_scan_kept(t, i + 1, n, seq![]);
            let (txt, j) = text_scan(t, i + 1, n, seq![]);
            lemma_content_protection_scan_clean(t, j, ContentProtectionV { pro: txt, ..x });
        } else if n == "Certurl"@ || n == "certurl"@ {
            lemma_text_scan_pos(t, i + 1, n, seq![]);
            lemma_text_scan_kept(t, i + 1, n, seq![]);
            let (txt, j) = text_scan(t, i + 1, n, seq![]);
            if let Some(s) = txt {
                let y = ContentProtectionV { certurls: x.certurls.push(CertUrlV { url: s, cert_type: first_attr(a, "certType"@) }), ..x };
                assert forall|k: int| 0 <= k < y.certurls.len() implies cert_url_clean_v(#[trigger] y.certurls[k]) by {
                    if k < x.certurls.len() {
                        assert(y.certurls[k] == x.certurls[k]);
                    }
                }
                lemma_content_protection_scan_clean(t, j, y);
            } else {
                lemma_content_protection_scan_clean(t, j, x);
            }
        } else {
            lemma_skip_scan_pos(t, i + 1, 1);
            if let Ok(j) = skip_scan(t, i + 1, 1) {
                lemma_content_protection_scan_clean(t, j, x);
            }
        },
            TokenV::Error => {},
            TokenV::EndDocument => {},
            _ => lemma_content_protection_scan_clean(t, i + 1, x),
        }
    }
}

/// The `ContentProtection` element that the reader reads holds only what it reads back as it is.
proof fn lemma_content_protection_at_clean(t: Seq<TokenV>, i: int, a: Seq<XmlAttrV>)
    ensures
        content_protection_at(t, i, a) matches Ok((v, _)) ==> content_protection_clean_v(v),
{
    reveal(content_protection_at);
    lemma_content_protection_start_clean(a);
    if let Ok(x) = content_protection_start(a) {
        lemma_content_protection_scan_clean(t, i, x);
    }
}

/// The value that the reader gives an element from its attributes holds only
/// what it reads back as it is.
proof fn lemma_preselection_start_clean(a: Seq<XmlAttrV>)
    ensures
        preselection_start(a) matches Ok(v) ==> preselection_clean_v(v),
{
    reveal(preselection_start);
}

/// Reading on the `Preselection` element keeps to what the reader reads back as it is.
proof fn lemma_preselection_scan_clean(t: Seq<TokenV>, i: int, x: PreselectionV)
    requires
        preselection_clean_v(x),
    ensures
        preselection_scan(t, i, x) matches Ok((y, _)) ==> preselection_clean_v(y),
    decreases t.len() - i,
{
    if 0 <= i < t.len() {
        match t[i] {
            TokenV::End(n) => if n != "Preselection"@ {
                lemma_preselection_scan_clean(t, i + 1, x);
            },
            TokenV::Start(n, _, a) => if n == "Accessibility"@ {
            lemma_skip_scan_pos(t, i + 1, 1);
            if let Ok(v) = descriptor_start(a) {
                if let Ok(j) = skip_scan(t, i + 1, 1) {
                    let y = PreselectionV { accessibilities: x.accessibilities.push(v), ..x };
                    lemma_preselection_scan_clean(t, j, y);
                }
            }
        } else if n == "Role"@ {
            lemma_skip_scan_pos(t, i + 1, 1);
            if let Ok(v) = descriptor_start(a) {
                if let Ok(j) = skip_scan(t, i + 1, 1) {
                    let y = PreselectionV { roles: x.roles.push(v), ..x };
                    lemma_preselection_scan_clean(t, j, y);
                }
            }
        } else if n == "Viewpoint"@ {
            lemma_skip_scan_pos(t, i + 1, 1);
            if let Ok(v) = descriptor_start(a) {
                if let Ok(j) = skip_scan(t, i + 1, 1) {
                    let y = PreselectionV { viewpoints: x.viewpoints.push(v), ..x };
                    lemma_preselection_scan_clean(t, j, y);
                }
            }
        } else if n == "Label"@ {
            lemma_text_scan_pos(t, i + 1, n, seq![]);
            lemma_text_scan_kept(t, i + 1, n, seq![]);
            let (txt, j) = text_scan(t, i + 1, n, seq![]);
            if let Some(s) = txt {
                let y = PreselectionV { labels: x.labels.push(LabelV { lang: first_attr(a, "lang"@), text: s }), ..x };
                assert forall|k: int| 0 <= k < y.labels.len() implies label_clean_v(#[trigger] y.labels[k]) by {
                    if k < x.labels.len() {
                        assert(y.labels[k] == x.labels[k]);
                    }
                }
                lemma_preselection_scan_clean(t, j, y);
            } else {
                lemma_preselection_scan_clean(t, j, x);
            }
        } else if n == "EssentialProperty"@ {
            lemma_skip_scan_pos(t, i + 1, 1);
            if let Ok(v) = descriptor_start(a) {
                if let Ok(j) = skip_scan(t, i + 1, 1) {
                    let y = PreselectionV { essential_properties: x.essential_properties.push(v), ..x };
                    lemma_preselection_scan_clean(t, j, y);
                }
            }
        } else if n == "SupplementalProperty"@ {
            lemma_skip_scan_pos(t, i + 1, 1);
            if let Ok(v) = descriptor_start(a) {
                if let Ok(j) = skip_scan(t, i + 1, 1) {
                    let y = PreselectionV { supplemental_properties: x.supplemental_properties.push(v), ..x };
                    lemma_preselection_scan_clean(t, j, y);
                }
            }
        } else {
            lemma_skip_scan_pos(t, i + 1, 1);
            if let Ok(j) = skip_scan(t, i + 1, 1) {
                lemma_preselection_scan_clean(t, j, x);
            }
        },
            TokenV::Error => {},
            TokenV::EndDocument => {},
            _ => lemma_preselection_scan_clean(t, i + 1, x),
        }
    }
}

/// The `Preselection` element that the reader reads holds only what it reads back as it is.
proof fn lemma_preselection_at_clean(t: Seq<TokenV>, i: int, a: Seq<XmlAttrV>)
    ensures
        preselection_at(t, i, a) matches Ok((v, _)) ==> preselection_clean_v(v),
{
    reveal(preselection_at);
    lemma_preselection_start_clean(a);
    if let Ok(x) = preselection_start(a) {
        lemma_preselection_scan_clean(t, i, x);
    }
}

/// The value that the reader gives an element from its attributes holds only
/// what it reads back as it is.
proof fn lemma_sub_representation_start_clean(a: Seq<XmlAttrV>)
    ensures
        sub_representation_start(a) matches Ok(v) ==> sub_representation_clean_v(v),
{
    reveal(sub_representation_start);
}

/// Reading on the `SubRepresentation` element keeps to what the reader reads back as it is.
proof fn lemma_sub_representation_scan_clean(t: Seq<TokenV>, i: int, x: SubRepresentationV)
    requires
        sub_representation_clean_v(x),
    ensures
        sub_representation_scan(t, i, x) matches Ok((y, _)) ==> sub_representation_clean_v(y),
    decreases t.len() - i,
{
    if 0 <= i < t.len() {
        match t[i] {
            TokenV::End(n) => if n != "SubRepresentation"@ {
                lemma_sub_representation_scan_clean(t, i + 1, x);
            },
            TokenV::Start(n, _, a) => if n == "ContentProtection"@ {
            lemma_content_protection_at_pos(t, i + 1, a);
            if let Ok((v, j)) = content_protection_at(t, i + 1, a) {
                lemma_content_protection_at_clean(t, i + 1, a);
                let y = SubRepresentationV { content_protections: x.content_protections.push(v), ..x };
                assert forall|k: int| 0 <= k < y.content_protections.len() implies content_protection_clean_v(#[trigger] y.content_protections[k]) by {
                    if k < x.content_protections.len() {
                        assert(y.content_protections[k] == x.content_protections[k]);
                    }
                }
                lemma_sub_representation_scan_clean(t, j, y);
            }
        } else if n == "AudioChannelConfiguration"@ {
            lemma_skip_scan_pos(t, i + 1, 1);
            if let Ok(v) = descriptor_start(a) {
                if let Ok(j) = skip_scan(t, i + 1, 1) {
                    let y = SubRepresentationV { audio_channel_configurations: x.audio_channel_configurations.push(v), ..x };
                    lemma_sub_representation_scan_clean(t, j, y);
                }
            }
        } else if n == "FramePacking"@ {
            lemma_skip_scan_pos(t, i + 1, 1);
            if let Ok(v) = descriptor_start(a) {
                if let Ok(j) = skip_scan(t, i + 1, 1) {
                    let y = SubRepresentationV { frame_packings: x.frame_packings.push(v), ..x };
                    lemma_sub_representation_scan_clean(t, j, y);
                }
            }
        } else if n == "InbandEventStream"@ {
            lemma_skip_scan_pos(t, i + 1, 1);
            if let Ok(v) = descriptor_start(a) {
                if let Ok(j) = skip_scan(t, i + 1, 1) {
                    let y = SubRepresentationV { inband_event_streams: x.inband_event_streams.push(v), ..x };
                    lemma_sub_representation_scan_clean(t, j, y);
                }
            }
        } else if n == "EssentialProperty"@ {
            lemma_skip_scan_pos(t, i + 1, 1);
            if let Ok(v) = descriptor_start(a) {
                if let Ok(j) = skip_scan(t, i + 1, 1) {
                    let y = SubRepresentationV { essential_properties: x.essential_properties.push(v), ..x };
                    lemma_sub_representation_scan_clean(t, j, y);
                }
            }
        } else if n == "SupplementalProperty"@ {
            lemma_skip_scan_pos(t, i + 1, 1);
            if let Ok(v) = descriptor_start(a) {
                if let Ok(j) = skip_scan(t, i + 1, 1) {
                    let y = SubRepresentationV { supplemental_properties: x.supplemental_properties.push(v), ..x };
                    lemma_sub_representation_scan_clean(t, j, y);
                }
            }
        } else if n == "SegmentSequenceProperties"@ {
            lemma_skip_scan_pos(t, i + 1, 1);
            if let Ok(v) = segment_sequence_properties_start(a) {
                if let Ok(j) = skip_scan(t, i + 1, 1) {
                    let y = SubRepresentationV { segment_sequence_properties: x.segment_sequence_properties.push(v), ..x };
                    lemma_sub_representation_scan_clean(t, j, y);
                }
            }
        } else {
            lemma_skip_scan_pos(t, i + 1, 1);
            if let Ok(j) = skip_scan(t, i + 1, 1) {
                lemma_sub_representation_scan_clean(t, j, x);
            }
        },
            TokenV::Error => {},
            TokenV::EndDocument => {},
            _ => lemma_sub_representation_scan_clean(t, i + 1, x),
        }
    }
}

/// The `SubRepresentation` element that the reader reads holds only what it reads back as it is.
proof fn lemma_sub_representation_at_clean(t: Seq<TokenV>, i: int, a: Seq<XmlAttrV>)
    ensures
        sub_representation_at(t, i, a) matches Ok((v, _)) ==> sub_representation_clean_v(v),
{
    reveal(sub_representation_at);
    lemma_sub_representation_start_clean(a);
    if let Ok(x) = sub_representation_start(a) {
        lemma_sub_representation_scan_clean(t, i, x);
    }
}

/// The value that the reader gives an element from its attributes holds only
/// what it reads back as it is.
proof fn lemma_representation_start_clean(a: Seq<XmlAttrV>)
    ensures
        representation_start(a) matches Ok(v) ==> representation_clean_v(v),
{
    reveal(representation_start);
}

/// Reading on the `Representation` element keeps to what the reader reads back as it is.
proof fn lemma_representation_scan_clean(t: Seq<TokenV>, i: int, x: RepresentationV)
    requires
        representation_clean_v(x),
    ensures
        representation_scan(t, i, x) matches Ok((y, _)) ==> representation_clean_v(y),
    decreases t.len() - i,
{
    if 0 <= i < t.len() {
        match t[i] {
            TokenV::End(n) => if n != "Representation"@ {
                lemma_representation_scan_clean(t, i + 1, x);
            },
            TokenV::Start(n, _, a) => if n == "BaseURL"@ {
            lemma_base_url_at_pos(t, i + 1, a);
            if let Ok((v, j)) = base_url_at(t, i + 1, a) {
                lemma_base_url_at_clean(t, i + 1, a);
                let y = RepresentationV { base_urls: x.base_urls.push(v), ..x };
                assert forall|k: int| 0 <= k < y.base_urls.len() implies base_url_clean_v(#[trigger] y.base_urls[k]) by {
                    if k < x.base_urls.len() {
                        assert(y.base_urls[k] == x.base_urls[k]);
                    }
                }
                lemma_representation_scan_clean(t, j, y);
            }
        } else if n == "AudioChannelConfiguration"@ {
            lemma_skip_scan_pos(t, i + 1, 1);
            if let Ok(v) = descriptor_start(a) {
                if let Ok(j) = skip_scan(t, i + 1, 1) {
                    let y = RepresentationV { audio_channel_configurations: x.audio_channel_configurations.push(v), ..x };
                    lemma_representation_scan_clean(t, j, y);
                }
            }
        } else if n == "EssentialProperty"@ {
            lemma_skip_scan_pos(t, i + 1, 1);
            if let Ok(v) = descriptor_start(a) {
                if let Ok(j) = skip_scan(t, i + 1, 1) {
                    let y = RepresentationV { essential_properties: x.essential_properties.push(v), ..x };
                    lemma_representation_scan_clean(t, j, y);
                }
            }
        } else if n == "SupplementalProperty"@ {
            lemma_skip_scan_pos(t, i + 1, 1);
            if let Ok(v) = descriptor_start(a) {
                if let Ok(j) = skip_scan(t, i + 1, 1) {
                    let y = RepresentationV { supplemental_properties: x.supplemental_properties.push(v), ..x };
                    lemma_representation_scan_clean(t, j, y);
                }
            }
        } else if n == "FramePacking"@ {
            lemma_skip_scan_pos(t, i + 1, 1);
            if let Ok(v) = descriptor_start(a) {
                if let Ok(j) = skip_scan(t, i + 1, 1) {
                    let y = RepresentationV { frame_packings: x.frame_packings.push(v), ..x };
                    lemma_representation_scan_clean(t, j, y);
                }
            }
        } else if n == "InbandEventStream"@ {
            lemma_skip_scan_pos(t, i + 1, 1);
            if let Ok(v) = descriptor_start(a) {
                if let Ok(j) = skip_scan(t, i + 1, 1) {
                    let y = RepresentationV { inband_event_streams: x.inband_event_streams.push(v), ..x };
                    lemma_representation_scan_clean(t, j, y);
                }
            }
        } else if n == "ProducerReferenceTime"@ {
            lemma_producer_reference_time_at_pos(t, i + 1, a);
            if let Ok((v, j)) = producer_reference_time_at(t, i + 1, a) {
                let y = RepresentationV { producer_reference_times: x.producer_reference_times.push(v), ..x };
                lemma_representation_scan_clean(t, j, y);
            }
        } else if n == "SegmentSequenceProperties"@ {
            lemma_skip_scan_pos(t, i + 1, 1);
            if let Ok(v) = segment_sequence_properties_start(a) {
                if let Ok(j) = skip_scan(t, i + 1, 1) {
                    let y = RepresentationV { segment_sequence_properties: x.segment_sequence_properties.push(v), ..x };
                    lemma_representation_scan_clean(t, j, y);
                }
            }
        } else if n == "SubRepresentation"@ {
            lemma_sub_representation_at_pos(t, i + 1, a);
            if let Ok((v, j)) = sub_representation_at(t, i + 1, a) {
                lemma_sub_representation_at_clean(t, i + 1, a);
                let y = RepresentationV { sub_representations: x.sub_representations.push(v), ..x };
                assert forall|k: int| 0 <= k < y.sub_representations.len() implies sub_representation_clean_v(#[trigger] y.sub_representations[k]) by {
                    if k < x.sub_representations.len() {
                        assert(y.sub_representations[k] == x.sub_representations[k]);
                    }
                }
                lemma_representation_scan_clean(t, j, y);
            }
        } else if n == "SegmentBase"@ {
            lemma_segment_base_at_pos(t, i + 1, a);
            if let Ok((v, j)) = segment_base_at(t, i + 1, a) {
                let y = RepresentationV { segment_base: Some(v), ..x };
                lemma_representation_scan_clean(t, j, y);
            }
        } else if n == "SegmentList"@ {
            lemma_segment_list_at_pos(t, i + 1, a);
            if let Ok((v, j)) = segment_list_at(t, i + 1, a) {
                let y = RepresentationV { segment_list: Some(v), ..x };
                lemma_representation_scan_clean(t, j, y);
            }
        } else if n == "SegmentTemplate"@ {
            lemma_segment_template_at_pos(t, i + 1, a);
            if let Ok((v, j)) = segment_template_at(t, i + 1, a) {
                let y = RepresentationV { segment_template: Some(v), ..x };
                lemma_representation_scan_clean(t, j, y);
            }
        } else if n == "ContentProtection"@ {
            lemma_content_protection_at_pos(t, i + 1, a);
            if let Ok((v, j)) = content_protection_at(t, i + 1, a) {
                lemma_content_protection_at_clean(t, i + 1, a);
                let y = RepresentationV { content_protections: x.content_protections.push(v), ..x };
                assert forall|k: int| 0 <= k < y.content_protections.len() implies content_protection_clean_v(#[trigger] y.content_protections[k]) by {
                    if k < x.content_protections.len() {
                        assert(y.content_protections[k] == x.content_protections[k]);
                    }
                }
                lemma_representation_scan_clean(t, j, y);
            }
        } else {
            lemma_skip_scan_pos(t, i + 1, 1);
            if let Ok(j) = skip_scan(t, i + 1, 1) {
                lemma_representation_scan_clean(t, j, x);
            }
        },
            TokenV::Error => {},
            TokenV::EndDocument => {},
            _ => lemma_representation_scan_clean(t, i + 1, x),
        }
    }
}

/// The `Representation` element that the reader reads holds only what it reads back as it is.
proof fn lemma_representation_at_clean(t: Seq<TokenV>, i: int, a: Seq<XmlAttrV>)
    ensures
        representation_at(t, i, a) matches Ok((v, _)) ==> representation_clean_v(v),
{
    reveal(representation_at);
    lemma_representation_start_clean(a);
    if let Ok(x) = representation_start(a) {
        lemma_representation_scan_clean(t, i, x);
    }
}

/// The value that the reader gives an element from its attributes holds only
/// what it reads back as it is.
proof fn lemma_adaptation_set_start_clean(a: Seq<XmlAttrV>)
    ensures
        adaptation_set_start(a) matches Ok(v) ==> adaptation_set_clean_v(v),
{
    reveal(adaptation_set_start);
}

/// Reading on the `AdaptationSet` element keeps to what the reader reads back as it is.
proof fn lemma_adaptation_set_scan_clean(t: Seq<TokenV>, i: int, x: AdaptationSetV)
    requires
        adaptation_set_clean_v(x),
    ensures
        adaptation_set_scan(t, i, x) matches Ok((y, _)) ==> adaptation_set_clean_v(y),
    decreases t.len() - i,
{
    if 0 <= i < t.len() {
        match t[i] {
            TokenV::End(n) => if n != "AdaptationSet"@ {
                lemma_adaptation_set_scan_clean(t, i + 1, x);
            },
            TokenV::Start(n, _, a) => if n == "BaseURL"@ {
            lemma_base_url_at_pos(t, i + 1, a);
            if let Ok((v, j)) = base_url_at(t, i + 1, a) {
                lemma_base_url_at_clean(t, i + 1, a);
                let y = AdaptationSetV { base_urls: x.base_urls.push(v), ..x };
                assert forall|k: int| 0 <= k < y.base_urls.len() implies base_url_clean_v(#[trigger] y.base_urls[k]) by {
                    if k < x.base_urls.len() {
                        assert(y.base_urls[k] == x.base_urls[k]);
                    }
                }
                lemma_adaptation_set_scan_clean(t, j, y);
            }
        } else if n == "EventStream"@ {
            lemma_event_stream_at_pos(t, i + 1, a);
            if let Ok((v, j)) = event_stream_at(t, i + 1, a) {
                lemma_event_stream_at_clean(t, i + 1, a);
                let y = AdaptationSetV { event_streams: x.event_streams.push(v), ..x };
                assert forall|k: int| 0 <= k < y.event_streams.len() implies event_stream_clean_v(#[trigger] y.event_streams[k]) by {
                    if k < x.event_streams.len() {
                        assert(y.event_streams[k] == x.event_streams[k]);
                    }
                }
                lemma_adaptation_set_scan_clean(t, j, y);
            }
        } else if n == "Role"@ {
            lemma_skip_scan_pos(t, i + 1, 1);
            if let Ok(v) = descriptor_start(a) {
                if let Ok(j) = skip_scan(t, i + 1, 1) {
                    let y = AdaptationSetV { roles: x.roles.push(v), ..x };
                    lemma_adaptation_set_scan_clean(t, j, y);
                }
            }
        } else if n == "Accessibility"@ {
            lemma_skip_scan_pos(t, i + 1, 1);
            if let Ok(v) = descriptor_start(a) {
                if let Ok(j) = skip_scan(t, i + 1, 1) {
                    let y = AdaptationSetV { accessibilities: x.accessibilities.push(v), ..x };
                    lemma_adaptation_set_scan_clean(t, j, y);
                }
            }
        } else if n == "AudioChannelConfiguration"@ {
            lemma_skip_scan_pos(t, i + 1, 1);
            if let Ok(v) = descriptor_start(a) {
                if let Ok(j) = skip_scan(t, i + 1, 1) {
                    let y = AdaptationSetV { audio_channel_configurations: x.audio_channel_configurations.push(v), ..x };
                    lemma_adaptation_set_scan_clean(t, j, y);
                }
            }
        } else if n == "Label"@ {
            lemma_text_scan_pos(t, i + 1, n, seq![]);
            lemma_text_scan_kept(t, i + 1, n, seq![]);
            let (txt, j) = text_scan(t, i + 1, n, seq![]);
            if let Some(s) = txt {
                let y = AdaptationSetV { labels: x.labels.push(LabelV { lang: first_attr(a, "lang"@), text: s }), ..x };
                assert forall|k: int| 0 <= k < y.labels.len() implies label_clean_v(#[trigger] y.labels[k]) by {
                    if k < x.labels.len() {
                        assert(y.labels[k] == x.labels[k]);
                    }
                }
                lemma_adaptation_set_scan_clean(t, j, y);
            } else {
                lemma_adaptation_set_scan_clean(t, j, x);
            }
        } else if n == "GroupLabel"@ {
            lemma_text_scan_pos(t, i + 1, n, seq![]);
            lemma_text_scan_kept(t, i + 1, n, seq![]);
            let (txt, j) = text_scan(t, i + 1, n, seq![]);
            if let Some(s) = txt {
                let y = AdaptationSetV { group_labels: x.group_labels.push(LabelV { lang: first_attr(a, "lang"@), text: s }), ..x };
                assert forall|k: int| 0 <= k < y.group_labels.len() implies label_clean_v(#[trigger] y.group_labels[k]) by {
                    if k < x.group_labels.len() {
                        assert(y.group_labels[k] == x.group_labels[k]);
                    }
                }
                lemma_adaptation_set_scan_clean(t, j, y);
            } else {
                lemma_adaptation_set_scan_clean(t, j, x);
            }
        } else if n == "EssentialProperty"@ {
            lemma_skip_scan_pos(t, i + 1, 1);
            if let Ok(v) = descriptor_start(a) {
                if let Ok(j) = skip_scan(t, i + 1, 1) {
                    let y = AdaptationSetV { essential_properties: x.essential_properties.push(v), ..x };
                    lemma_adaptation_set_scan_clean(t, j, y);
                }
            }
        } else if n == "SupplementalProperty"@ {
            lemma_skip_scan_pos(t, i + 1, 1);
            if let Ok(v) = descriptor_start(a) {
                if let Ok(j) = skip_scan(t, i + 1, 1) {
                    let y = AdaptationSetV { supplemental_properties: x.supplemental_properties.push(v), ..x };
                    lemma_adaptation_set_scan_clean(t, j, y);
                }
            }
        } else if n == "Viewpoint"@ {
            lemma_skip_scan_pos(t, i + 1, 1);
            if let Ok(v) = descriptor_start(a) {
                if let Ok(j) = skip_scan(t, i + 1, 1) {
                    let y = AdaptationSetV { viewpoints: x.viewpoints.push(v), ..x };
                    lemma_adaptation_set_scan_clean(t, j, y);
                }
            }
        } else if n == "FramePacking"@ {
            lemma_skip_scan_pos(t, i + 1, 1);
            if let Ok(v) = descriptor_start(a) {
                if let Ok(j) = skip_scan(t, i + 1, 1) {
                    let y = AdaptationSetV { frame_packings: x.frame_packings.push(v), ..x };
                    lemma_adaptation_set_scan_clean(t, j, y);
                }
            }
        } else if n == "InbandEventStream"@ {
            lemma_skip_scan_pos(t, i + 1, 1);
            if let Ok(v) = descriptor_start(a) {
                if let Ok(j) = skip_scan(t, i + 1, 1) {
                    let y = AdaptationSetV { inband_event_streams: x.inband_event_streams.push(v), ..x };
                    lemma_adaptation_set_scan_clean(t, j, y);
                }
            }
        } else if n == "ProducerReferenceTime"@ {
            lemma_producer_reference_time_at_pos(t, i + 1, a);
            if let Ok((v, j)) = producer_reference_time_at(t, i + 1, a) {
                let y = AdaptationSetV { producer_reference_times: x.producer_reference_times.push(v), ..x };
                lemma_adaptation_set_scan_clean(t, j, y);
            }
        } else if n == "ContentComponent"@ {
            lemma_content_component_at_pos(t, i + 1, a);
            if let Ok((v, j)) = content_component_at(t, i + 1, a) {
                let y = AdaptationSetV { content_components: x.content_components.push(v), ..x };
                lemma_adaptation_set_scan_clean(t, j, y);
            }
        } else if n == "SegmentSequenceProperties"@ {
            lemma_skip_scan_pos(t, i + 1, 1);
            if let Ok(v) = segment_sequence_properties_start(a) {
                if let Ok(j) = skip_scan(t, i + 1, 1) {
                    let y = AdaptationSetV { segment_sequence_properties: x.segment_sequence_properties.push(v), ..x };
                    lemma_adaptation_set_scan_clean(t, j, y);
                }
            }
        } else if n == "SegmentBase"@ {
            lemma_segment_base_at_pos(t, i + 1, a);
            if let Ok((v, j)) = segment_base_at(t, i + 1, a) {
                let y = AdaptationSetV { segment_base: Some(v), ..x };
                lemma_adaptation_set_scan_clean(t, j, y);
            }
        } else if n == "SegmentList"@ {
            lemma_segment_list_at_pos(t, i + 1, a);
            if let Ok((v, j)) = segment_list_at(t, i + 1, a) {
                let y = AdaptationSetV { segment_list: Some(v), ..x };
                lemma_adaptation_set_scan_clean(t, j, y);
            }
        } else if n == "SegmentTemplate"@ {
            lemma_segment_template_at_pos(t, i + 1, a);
            if let Ok((v, j)) = segment_template_at(t, i + 1, a) {
                let y = AdaptationSetV { segment_template: Some(v), ..x };
                lemma_adaptation_set_scan_clean(t, j, y);
            }
        } else if n == "ContentProtection"@ {
            lemma_content_protection_at_pos(t, i + 1, a);
            if let Ok((v, j)) = content_protection_at(t, i + 1, a) {
                lemma_content_protection_at_clean(t, i + 1, a);
                let y = AdaptationSetV { content_protections: x.content_protections.push(v), ..x };
                assert forall|k: int| 0 <= k < y.content_protections.len() implies content_protection_clean_v(#[trigger] y.content_protections[k]) by {
                    if k < x.content_protections.len() {
                        assert(y.content_protections[k] == x.content_protections[k]);
                    }
                }
                lemma_adaptation_set_scan_clean(t, j, y);
            }
        } else if n == "Representation"@ {
            lemma_representation_at_pos(t, i + 1, a);
            if let Ok((v, j)) = representation_at(t, i + 1, a) {
                lemma_representation_at_clean(t, i + 1, a);
                let y = AdaptationSetV { representations: x.representations.push(v), ..x };
                assert forall|k: int| 0 <= k < y.representations.len() implies representation_clean_v(#[trigger] y.representations[k]) by {
                    if k < x.representations.len() {
                        assert(y.representations[k] == x.representations[k]);
                    }
                }
                lemma_adaptation_set_scan_clean(t, j, y);
            }
        } else {
            lemma_skip_scan_pos(t, i + 1, 1);
            if let Ok(j) = skip_scan(t, i + 1, 1) {
                lemma_adaptation_set_scan_clean(t, j, x);
            }
        },
            TokenV::Error => {},
            TokenV::EndDocument => {},
            _ => lemma_adaptation_set_scan_clean(t, i + 1, x),
        }
    }
}

/// The `AdaptationSet` element that the reader reads holds only what it reads back as it is.
proof fn lemma_adaptation_set_at_clean(t: Seq<TokenV>, i: int, a: Seq<XmlAttrV>)
    ensures
        adaptation_set_at(t, i, a) matches Ok((v, _)) ==> adaptation_set_clean_v(v),
{
    reveal(adaptation_set_at);
    lemma_adaptation_set_start_clean(a);
    if let Ok(x) = adaptation_set_start(a) {
        lemma_adaptation_set_scan_clean(t, i, x);
    }
}

/// The value that the reader gives an element from its attributes holds only
/// what it reads back as it is.
proof fn lemma_period_start_clean(a: Seq<XmlAttrV>)
    ensures
        period_start(a) matches Ok(v) ==> period_clean_v(v),
{
    reveal(period_start);
}

/// Reading on the `Period` element keeps to what the reader reads back as it is.
proof fn lemma_period_scan_clean(t: Seq<TokenV>, i: int, x: PeriodV)
    requires
        period_clean_v(x),
    ensures
        period_scan(t, i, x) matches Ok((y, _)) ==> period_clean_v(y),
    decreases t.len() - i,
{
    if 0 <= i < t.len() {
        match t[i] {
            TokenV::End(n) => if n != "Period"@ {
                lemma_period_scan_clean(t, i + 1, x);
            },
            TokenV::Start(n, _, a) => if n == "BaseURL"@ {
            lemma_base_url_at_pos(t, i + 1, a);
            if let Ok((v, j)) = base_url_at(t, i + 1, a) {
                lemma_base_url_at_clean(t, i + 1, a);
                let y = PeriodV { base_urls: x.base_urls.push(v), ..x };
                assert forall|k: int| 0 <= k < y.base_urls.len() implies base_url_clean_v(#[trigger] y.base_urls[k]) by {
                    if k < x.base_urls.len() {
                        assert(y.base_urls[k] == x.base_urls[k]);
                    }
                }
                lemma_period_scan_clean(t, j, y);
            }
        } else if n == "SupplementalProperty"@ {
            lemma_skip_scan_pos(t, i + 1, 1);
            if let Ok(v) = descriptor_start(a) {
                if let Ok(j) = skip_scan(t, i + 1, 1) {
                    let y = PeriodV { supplemental_properties: x.supplemental_properties.push(v), ..x };
                    lemma_period_scan_clean(t, j, y);
                }
            }
        } else if n == "EssentialProperty"@ {
            lemma_skip_scan_pos(t, i + 1, 1);
            if let Ok(v) = descriptor_start(a) {
                if let Ok(j) = skip_scan(t, i + 1, 1) {
                    let y = PeriodV { essential_properties: x.essential_properties.push(v), ..x };
                    lemma_period_scan_clean(t, j, y);
                }
            }
        } else if n == "AssetIdentifier"@ {
            lemma_skip_scan_pos(t, i + 1, 1);
            if let Ok(v) = descriptor_start(a) {
                if let Ok(j) = skip_scan(t, i + 1, 1) {
                    let y = PeriodV { asset_identifier: Some(v), ..x };
                    lemma_period_scan_clean(t, j, y);
                }
            }
        } else if n == "EventStream"@ {
            lemma_event_stream_at_pos(t, i + 1, a);
            if let Ok((v, j)) = event_stream_at(t, i + 1, a) {
                lemma_event_stream_at_clean(t, i + 1, a);
                let y = PeriodV { event_streams: x.event_streams.push(v), ..x };
                assert forall|k: int| 0 <= k < y.event_streams.len() implies event_stream_clean_v(#[trigger] y.event_streams[k]) by {
                    if k < x.event_streams.len() {
                        assert(y.event_streams[k] == x.event_streams[k]);
                    }
                }
                lemma_period_scan_clean(t, j, y);
            }
        } else if n == "Preselection"@ {
            lemma_preselection_at_pos(t, i + 1, a);
            if let Ok((v, j)) = preselection_at(t, i + 1, a) {
                lemma_preselection_at_clean(t, i + 1, a);
                let y = PeriodV { preselections: x.preselections.push(v), ..x };
                assert forall|k: int| 0 <= k < y.preselections.len() implies preselection_clean_v(#[trigger] y.preselections[k]) by {
                    if k < x.preselections.len() {
                        assert(y.preselections[k] == x.preselections[k]);
                    }
                }
                lemma_period_scan_clean(t, j, y);
            }
        } else if n == "SegmentBase"@ {
            lemma_segment_base_at_pos(t, i + 1, a);
            if let Ok((v, j)) = segment_base_at(t, i + 1, a) {
                let y = PeriodV { segment_base: Some(v), ..x };
                lemma_period_scan_clean(t, j, y);
            }
        } else if n == "SegmentList"@ {
            lemma_segment_list_at_pos(t, i + 1, a);
            if let Ok((v, j)) = segment_list_at(t, i + 1, a) {
                let y = PeriodV { segment_list: Some(v), ..x };
                lemma_period_scan_clean(t, j, y);
            }
        } else if n == "SegmentTemplate"@ {
            lemma_segment_template_at_pos(t, i + 1, a);
            if let Ok((v, j)) = segment_template_at(t, i + 1, a) {
                let y = PeriodV { segment_template: Some(v), ..x };
                lemma_period_scan_clean(t, j, y);
            }
        } else if n == "Subset"@ {
            lemma_skip_scan_pos(t, i + 1, 1);
            if let Ok(v) = subset_start(a) {
                if let Ok(j) = skip_scan(t, i + 1, 1) {
                    let y = PeriodV { subsets: x.subsets.push(v), ..x };
                    lemma_period_scan_clean(t, j, y);
                }
            }
        } else if n == "AdaptationSet"@ {
            lemma_adaptation_set_at_pos(t, i + 1, a);
            if let Ok((v, j)) = adaptation_set_at(t, i + 1, a) {
                lemma_adaptation_set_at_clean(t, i + 1, a);
                let y = PeriodV { adaptation_sets: x.adaptation_sets.push(v), ..x };
                assert forall|k: int| 0 <= k < y.adaptation_sets.len() implies adaptation_set_clean_v(#[trigger] y.adaptation_sets[k]) by {
                    if k < x.adaptation_sets.len() {
                        assert(y.adaptation_sets[k] == x.adaptation_sets[k]);
                    }
                }
                lemma_period_scan_clean(t, j, y);
            }
        } else {
            lemma_skip_scan_pos(t, i + 1, 1);
            if let Ok(j) = skip_scan(t, i + 1, 1) {
                lemma_period_scan_clean(t, j, x);
            }
        },
            TokenV::Error => {},
            TokenV::EndDocument => {},
            _ => lemma_period_scan_clean(t, i + 1, x),
        }
    }
}

/// The `Period` element that the reader reads holds only what it reads back as it is.
proof fn lemma_period_at_clean(t: Seq<TokenV>, i: int, a: Seq<XmlAttrV>)
    ensures
        period_at(t, i, a) matches Ok((v, _)) ==> period_clean_v(v),
{
    reveal(period_at);
    lemma_period_start_clean(a);
    if let Ok(x) = period_start(a) {
        lemma_period_scan_clean(t, i, x);
    }
}

/// The value that the reader gives an element from its attributes holds only
/// what it reads back as it is.
proof fn lemma_mpd_start_clean(a: Seq<XmlAttrV>)
    ensures
        mpd_start(a) matches Ok(v) ==> mpd_clean_v(v),
{
    reveal(mpd_start);
    lemma_default_buffer_time_ok();
}

/// Reading on the `MPD` element keeps to what the reader reads back as it is.
proof fn lemma_mpd_scan_clean(t: Seq<TokenV>, i: int, x: MpdV)
    requires
        mpd_clean_v(x),
    ensures
        mpd_scan(t, i, x) matches Ok((y, _)) ==> mpd_clean_v(y),
    decreases t.len() - i,
{
    if 0 <= i < t.len() {
        match t[i] {
            TokenV::End(n) => if n != "MPD"@ {
                lemma_mpd_scan_clean(t, i + 1, x);
            },
            TokenV::Start(n, _, a) => if n == "BaseURL"@ {
            lemma_base_url_at_pos(t, i + 1, a);
            if let Ok((v, j)) = base_url_at(t, i + 1, a) {
                lemma_base_url_at_clean(t, i + 1, a);
                let y = MpdV { base_urls: x.base_urls.push(v), ..x };
                assert forall|k: int| 0 <= k < y.base_urls.len() implies base_url_clean_v(#[trigger] y.base_urls[k]) by {
                    if k < x.base_urls.len() {
                        assert(y.base_urls[k] == x.base_urls[k]);
                    }
                }
                lemma_mpd_scan_clean(t, j, y);
            }
        } else if n == "UTCTiming"@ {
            lemma_skip_scan_pos(t, i + 1, 1);
            if let Ok(v) = utc_timing_start(a) {
                if let Ok(j) = skip_scan(t, i + 1, 1) {
                    let y = MpdV { utc_timings: x.utc_timings.push(v), ..x };
                    lemma_mpd_scan_clean(t, j, y);
                }
            }
        } else if n == "Location"@ {
            lemma_location_at_pos(t, i + 1, a);
            if let Ok((v, j)) = location_at(t, i + 1, a) {
                lemma_location_at_clean(t, i + 1, a);
                let y = MpdV { locations: x.locations.push(v), ..x };
                assert forall|k: int| 0 <= k < y.locations.len() implies location_clean_v(#[trigger] y.locations[k]) by {
                    if k < x.locations.len() {
                        assert(y.locations[k] == x.locations[k]);
                    }
                }
                lemma_mpd_scan_clean(t, j, y);
            }
        } else if n == "PatchLocation"@ {
            lemma_patch_location_at_pos(t, i + 1, a);
            if let Ok((v, j)) = patch_location_at(t, i + 1, a) {
                lemma_patch_location_at_clean(t, i + 1, a);
                let y = MpdV { patch_locations: x.patch_locations.push(v), ..x };
                assert forall|k: int| 0 <= k < y.patch_locations.len() implies patch_location_clean_v(#[trigger] y.patch_locations[k]) by {
                    if k < x.patch_locations.len() {
                        assert(y.patch_locations[k] == x.patch_locations[k]);
                    }
                }
                lemma_mpd_scan_clean(t, j, y);
            }
        } else if n == "ServiceDescription"@ {
            lemma_service_description_at_pos(t, i + 1, a);
            if let Ok((v, j)) = service_description_at(t, i + 1, a) {
                let y = MpdV { service_descriptions: x.service_descriptions.push(v), ..x };
                lemma_mpd_scan_clean(t, j, y);
            }
        } else if n == "ContentSteering"@ {
            lemma_content_steering_at_pos(t, i + 1, a);
            if let Ok((v, j)) = content_steering_at(t, i + 1, a) {
                lemma_content_steering_at_clean(t, i + 1, a);
                let y = MpdV { content_steering: Some(v), ..x };
                lemma_mpd_scan_clean(t, j, y);
            }
        } else if n == "EssentialProperty"@ {
            lemma_skip_scan_pos(t, i + 1, 1);
            if let Ok(v) = descriptor_start(a) {
                if let Ok(j) = skip_scan(t, i + 1, 1) {
                    let y = MpdV { essential_properties: x.essential_properties.push(v), ..x };
                    lemma_mpd_scan_clean(t, j, y);
                }
            }
        } else if n == "SupplementalProperty"@ {
            lemma_skip_scan_pos(t, i + 1, 1);
            if let Ok(v) = descriptor_start(a) {
                if let Ok(j) = skip_scan(t, i + 1, 1) {
                    let y = MpdV { supplemental_properties: x.supplemental_properties.push(v), ..x };
                    lemma_mpd_scan_clean(t, j, y);
                }
            }
        } else if n == "Metrics"@ {
            lemma_metrics_at_pos(t, i + 1, a);
            if let Ok((v, j)) = metrics_at(t, i + 1, a) {
                lemma_metrics_at_clean(t, i + 1, a);
                let y = MpdV { metrics: x.metrics.push(v), ..x };
                assert forall|k: int| 0 <= k < y.metrics.len() implies metrics_clean_v(#[trigger] y.metrics[k]) by {
                    if k < x.metrics.len() {
                        assert(y.metrics[k] == x.metrics[k]);
                    }
                }
                lemma_mpd_scan_clean(t, j, y);
            }
        } else if n == "Period"@ {
            lemma_period_at_pos(t, i + 1, a);
            if let Ok((v, j)) = period_at(t, i + 1, a) {
                lemma_period_at_clean(t, i + 1, a);
                let y = MpdV { periods: x.periods.push(v), ..x };
                assert forall|k: int| 0 <= k < y.periods.len() implies period_clean_v(#[trigger] y.periods[k]) by {
                    if k < x.periods.len() {
                        assert(y.periods[k] == x.periods[k]);
                    }
                }
                lemma_mpd_scan_clean(t, j, y);
            }
        } else {
            lemma_skip_scan_pos(t, i + 1, 1);
            if let Ok(j) = skip_scan(t, i + 1, 1) {
                lemma_mpd_scan_clean(t, j, x);
            }
        },
            TokenV::Error => {},
            TokenV::EndDocument => {},
            _ => lemma_mpd_scan_clean(t, i + 1, x),
        }
    }
}

/// The `MPD` element that the reader reads holds only what it reads back as it is.
proof fn lemma_mpd_at_clean(t: Seq<TokenV>, i: int, a: Seq<XmlAttrV>)
    ensures
        mpd_at(t, i, a) matches Ok((v, _)) ==> mpd_clean_v(v),
{
    reveal(mpd_at);
    lemma_mpd_start_clean(a);
    if let Ok(x) = mpd_start(a) {
        lemma_mpd_scan_clean(t, i, x);
    }
}

/// The MPD that the reader reads from any tokens holds only what it reads
/// back as it is.
proof fn lemma_mpd_of_tokens_clean(t: Seq<TokenV>)
    ensures
        mpd_of_tokens(t) matches Ok(v) ==> mpd_clean_v(v),
{
    if let Ok((a, i)) = find_mpd_root(t, 0) {
        lemma_mpd_at_clean(t, i, a);
    }
}

/// Reading back what was read and written: whatever reader tokens the reader
/// reads into the MPD `m`, the tokens that a reader reports for the events
/// that the writer writes for `m`, followed by the end of the document, are
/// read into `m` again.
pub proof fn law_read_mpd_written_and_read_back(t: Seq<TokenV>, m: Mpd)
    requires
        mpd_of_tokens(t) == Ok::<MpdV, ErrorKind>(m@),
    ensures
        mpd_of_tokens(events_tokens(mpd_events(m), seq![]) + seq![TokenV::EndDocument]) == Ok::<MpdV, ErrorKind>(m@),
{
    lemma_mpd_of_tokens_clean(t);
    lemma_mpd_clean_of_view(m);
    law_written_mpd_read_back(m);
}

} // verus!
