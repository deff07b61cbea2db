//! Tokens that no reader of this library uses (white space between tags,
//! comments, processing instructions, the XML declaration) change nothing
//! of what the reader reads.
use vstd::prelude::*;

use crate::error::ErrorKind;
use crate::event_tokens::events_tokens;
use crate::model::{
    AdaptationSetV, CertUrlV, ClientDataReportingV, ContentComponentV, ContentProtectionV,
    EventStreamV, LabelV, MetricsV, MpdV, PeriodV, PreselectionV, ProducerReferenceTimeV,
    RepresentationV, SegmentBaseV, SegmentListV, SegmentTemplateV, ServiceDescriptionV,
    SubRepresentationV
};
use crate::patch_reader::{lemma_skip_scan_pos, skip_scan};
use crate::read_values::law_read_mpd_written_and_read_back;
use crate::reader::{
    adaptation_set_at, adaptation_set_scan, adaptation_set_start, base_url_at, base_url_start,
    client_data_reporting_at, client_data_reporting_scan, client_data_reporting_start,
    cmcd_parameters_start, content_component_at, content_component_scan,
    content_component_start, content_protection_at, content_protection_scan,
    content_protection_start, content_steering_at, content_steering_start, descriptor_start,
    event_at, event_body_scan, event_start, event_stream_at, event_stream_scan,
    event_stream_start, find_mpd_root, first_attr, latency_start, lemma_adaptation_set_at_pos,
    lemma_base_url_at_pos, lemma_client_data_reporting_at_pos, lemma_content_component_at_pos,
    lemma_content_protection_at_pos, lemma_content_steering_at_pos, lemma_event_at_pos,
    lemma_event_stream_at_pos, lemma_location_at_pos, lemma_metrics_at_pos,
    lemma_patch_location_at_pos, lemma_period_at_pos, lemma_preselection_at_pos,
    lemma_producer_reference_time_at_pos, lemma_representation_at_pos,
    lemma_segment_base_at_pos, lemma_segment_list_at_pos, lemma_segment_template_at_pos,
    lemma_service_description_at_pos, lemma_signal_scan_pos, lemma_skip_pos,
    lemma_sub_representation_at_pos, lemma_text_scan_pos, lemma_timeline_scan_pos, location_at,
    location_start, metrics_at, metrics_range_start, metrics_scan, metrics_start, mpd_at,
    mpd_of_tokens, mpd_scan, mpd_start, operating_bandwidth_start, operating_quality_start,
    patch_location_at, patch_location_start, period_at, period_scan, period_start,
    playback_rate_start, preselection_at, preselection_scan, preselection_start,
    producer_reference_time_at, producer_reference_time_scan, producer_reference_time_start,
    representation_at, representation_scan, representation_start, segment_base_at,
    segment_base_scan, segment_base_start, segment_list_at, segment_list_scan,
    segment_list_start, segment_sequence_properties_start, segment_template_at,
    segment_template_scan, segment_template_start, segment_url_start, service_description_at,
    service_description_scan, service_description_start, signal_scan, skip_pos,
    sub_representation_at, sub_representation_scan, sub_representation_start, subset_start,
    text_scan, timeline_entry_of, timeline_scan, utc_timing_start
};
use crate::text::trim;
use crate::types::{Mpd, TimelineEntry};
use crate::writer::mpd_events;
use crate::xml_io::{TokenV, XmlAttrV};

verus! {

/// The tokens `t` without those that no reader of this library uses.
pub open spec fn strip_ignorable(t: Seq<TokenV>) -> Seq<TokenV>
    decreases t.len(),
{
    if t.len() == 0 {
        seq![]
    } else if t.last() is Ignorable {
        strip_ignorable(t.drop_last())
    } else {
        strip_ignorable(t.drop_last()).push(t.last())
    }
}

/// Where the token `t[i]` stands once the ignorable tokens are taken out.
pub open spec fn kept_before(t: Seq<TokenV>, i: int) -> int {
    strip_ignorable(t.take(i)).len() as int
}

/// A reading result, with its position moved to where it stands once the
/// ignorable tokens are taken out.
pub open spec fn shifted<V>(t: Seq<TokenV>, r: Result<(V, int), ErrorKind>) -> Result<(V, int), ErrorKind> {
    match r {
        Ok((v, j)) => Ok((v, kept_before(t, j))),
        Err(k) => Err(k),
    }
}

/// Taking out the ignorable tokens of tokens written one after the other.
proof fn lemma_strip_cat(a: Seq<TokenV>, b: Seq<TokenV>)
    ensures
        strip_ignorable(a + b) == strip_ignorable(a) + strip_ignorable(b),
    decreases b.len(),
{
    if b.len() == 0 {
        assert(a + b =~= a);
        assert(strip_ignorable(a) + strip_ignorable(b) =~= strip_ignorable(a));
    } else {
        lemma_strip_cat(a, b.drop_last());
        assert((a + b).drop_last() =~= a + b.drop_last());
        assert((a + b).last() == b.last());
        if b.last() is Ignorable {
        } else {
            assert(strip_ignorable(a) + strip_ignorable(b.drop_last()).push(b.last()) =~= (strip_ignorable(a)
                + strip_ignorable(b.drop_last())).push(b.last()));
        }
    }
}

/// What the reader sees at `t[i]` and where it goes on, once the ignorable
/// tokens are taken out.
proof fn lemma_kept_step(t: Seq<TokenV>, i: int)
    requires
        0 <= i <= t.len(),
    ensures
        0 <= kept_before(t, i) <= strip_ignorable(t).len(),
        i == t.len() ==> kept_before(t, i) == strip_ignorable(t).len(),
        i < t.len() && t[i] is Ignorable ==> kept_before(t, i + 1) == kept_before(t, i),
        i < t.len() && !(t[i] is Ignorable) ==> kept_before(t, i + 1) == kept_before(t, i) + 1
            && kept_before(t, i) < strip_ignorable(t).len()
            && strip_ignorable(t)[kept_before(t, i)] == t[i],
{
    assert(t =~= t.take(i) + t.skip(i));
    lemma_strip_cat(t.take(i), t.skip(i));
    assert(t.take(t.len() as int) =~= t);
    if i < t.len() {
        assert(t.take(i + 1).drop_last() =~= t.take(i));
        assert(t.take(i + 1).last() == t[i]);
        assert(t.take(i + 1) =~= t.take(i) + seq![t[i]]);
        assert(t =~= t.take(i + 1) + t.skip(i + 1));
        lemma_strip_cat(t.take(i + 1), t.skip(i + 1));
    }
}

/// Skipping an element skips the same without the ignorable tokens.
proof fn lemma_skip_scan_strip(t: Seq<TokenV>, i: int, d: nat)
    requires
        0 <= i <= t.len(),
    ensures
        skip_scan(strip_ignorable(t), kept_before(t, i), d) == match skip_scan(t, i, d) {
            Ok(j) => Ok::<int, ErrorKind>(kept_before(t, j)),
            Err(k) => Err(k),
        },
    decreases t.len() - i,
{
    lemma_kept_step(t, i);
    if i < t.len() {
        match t[i] {
            TokenV::Start(..) => lemma_skip_scan_strip(t, i + 1, d + 1),
            TokenV::End(_) => if d > 1 {
                lemma_skip_scan_strip(t, i + 1, (d - 1) as nat);
            } else {
                lemma_kept_step(t, i + 1);
            },
            TokenV::Error => {},
            TokenV::EndDocument => {},
            _ => lemma_skip_scan_strip(t, i + 1, d),
        }
    }
}

/// Skipping an element, errors passed over, skips the same without the
/// ignorable tokens.
proof fn lemma_skip_pos_strip(t: Seq<TokenV>, i: int, d: nat)
    requires
        0 <= i <= t.len(),
    ensures
        skip_pos(strip_ignorable(t), kept_before(t, i), d) == kept_before(t, skip_pos(t, i, d)),
    decreases t.len() - i,
{
    lemma_kept_step(t, i);
    if i < t.len() {
        match t[i] {
            TokenV::Start(..) => lemma_skip_pos_strip(t, i + 1, d + 1),
            TokenV::End(_) => if d > 1 {
                lemma_skip_pos_strip(t, i + 1, (d - 1) as nat);
            },
            TokenV::Error => {},
            TokenV::EndDocument => {},
            _ => lemma_skip_pos_strip(t, i + 1, d),
        }
    }
}

/// Text content reads the same without the ignorable tokens.
proof fn lemma_text_scan_strip(t: Seq<TokenV>, i: int, name: Seq<char>, acc: Seq<char>)
    requires
        0 <= i <= t.len(),
    ensures
        text_scan(strip_ignorable(t), kept_before(t, i), name, acc) == (
            text_scan(t, i, name, acc).0,
            kept_before(t, text_scan(t, i, name, acc).1),
        ),
    decreases t.len() - i,
{
    lemma_kept_step(t, i);
    if i < t.len() {
        match t[i] {
            TokenV::Characters(s) => lemma_text_scan_strip(t, i + 1, name, acc + s),
            TokenV::CData(s) => lemma_text_scan_strip(t, i + 1, name, acc + s),
            TokenV::End(n) => if n != name {
                lemma_text_scan_strip(t, i + 1, name, acc);
            },
            TokenV::EndDocument => {},
            TokenV::Error => {},
            _ => lemma_text_scan_strip(t, i + 1, name, acc),
        }
    }
}

/// A segment timeline reads the same without the ignorable tokens.
proof fn lemma_timeline_scan_strip(t: Seq<TokenV>, i: int, es: Seq<TimelineEntry>)
    requires
        0 <= i <= t.len(),
    ensures
        timeline_scan(strip_ignorable(t), kept_before(t, i), es) == (
            timeline_scan(t, i, es).0,
            kept_before(t, timeline_scan(t, i, es).1),
        ),
    decreases t.len() - i,
{
    lemma_kept_step(t, i);
    if i < t.len() {
        match t[i] {
            TokenV::Start(n, _, a) => if n == "S"@ {
                lemma_skip_pos(t, i + 1, 1);
                lemma_skip_pos_strip(t, i + 1, 1);
                lemma_timeline_scan_strip(t, skip_pos(t, i + 1, 1), es.push(timeline_entry_of(a)));
            } else {
                lemma_timeline_scan_strip(t, i + 1, es);
            },
            TokenV::End(n) => if n != "SegmentTimeline"@ {
                lemma_timeline_scan_strip(t, i + 1, es);
            },
            TokenV::Error => {},
            TokenV::EndDocument => {},
            _ => lemma_timeline_scan_strip(t, i + 1, es),
        }
    }
}

/// A `Signal` element reads the same without the ignorable tokens.
proof fn lemma_signal_scan_strip(t: Seq<TokenV>, i: int, bin: Option<Seq<char>>)
    requires
        0 <= i <= t.len(),
    ensures
        signal_scan(strip_ignorable(t), kept_before(t, i), bin) == shifted(t, signal_scan(t, i, bin)),
    decreases t.len() - i,
{
    lemma_kept_step(t, i);
    if i < t.len() {
        match t[i] {
            TokenV::Start(n, _, _) => if n == "Binary"@ {
                lemma_text_scan_pos(t, i + 1, n, seq![]);
                lemma_text_scan_strip(t, i + 1, n, seq![]);
                let (b, j) = text_scan(t, i + 1, n, seq![]);
                lemma_signal_scan_strip(t, j, b);
            } else {
                lemma_skip_scan_pos(t, i + 1, 1);
                lemma_skip_scan_strip(t, i + 1, 1);
                if let Ok(j) = skip_scan(t, i + 1, 1) {
                    lemma_signal_scan_strip(t, j, bin);
                }
            },
            TokenV::End(n) => if n != "Signal"@ {
                lemma_signal_scan_strip(t, i + 1, bin);
            } else {
                lemma_kept_step(t, i + 1);
            },
            TokenV::Error => {},
            TokenV::EndDocument => {},
            _ => lemma_signal_scan_strip(t, i + 1, bin),
        }
    }
}

/// The content of an `Event` reads the same without the ignorable tokens.
proof fn lemma_event_body_scan_strip(t: Seq<TokenV>, i: int, text: Seq<char>, sig: Option<Seq<char>>)
    requires
        0 <= i <= t.len(),
    ensures
        event_body_scan(strip_ignorable(t), kept_before(t, i), text, sig) == shifted(t, event_body_scan(t, i, text, sig)),
    decreases t.len() - i,
{
    lemma_kept_step(t, i);
    if i < t.len() {
        match t[i] {
            TokenV::Characters(s) => if trim(s).len() == 0 {
                lemma_event_body_scan_strip(t, i + 1, text, sig);
            } else {
                lemma_event_body_scan_strip(t, i + 1, text + s, sig);
            },
            TokenV::CData(s) => lemma_event_body_scan_strip(t, i + 1, text + s, sig),
            TokenV::Start(n, _, _) => if n == "Signal"@ {
                lemma_signal_scan_pos(t, i + 1, None);
                lemma_signal_scan_strip(t, i + 1, None);
                if let Ok((b, j)) = signal_scan(t, i + 1, None) {
                    lemma_event_body_scan_strip(t, j, text, b);
                }
            } else {
                lemma_skip_scan_pos(t, i + 1, 1);
                lemma_skip_scan_strip(t, i + 1, 1);
                if let Ok(j) = skip_scan(t, i + 1, 1) {
                    lemma_event_body_scan_strip(t, j, text, sig);
                }
            },
            TokenV::End(n) => if n != "Event"@ {
                lemma_event_body_scan_strip(t, i + 1, text, sig);
            } else {
                lemma_kept_step(t, i + 1);
            },
            TokenV::Error => {},
            TokenV::EndDocument => {},
            _ => lemma_event_body_scan_strip(t, i + 1, text, sig),
        }
    }
}

/// The `MPD` start tag is found the same without the ignorable tokens.
proof fn lemma_find_mpd_root_strip(t: Seq<TokenV>, i: int)
    requires
        0 <= i <= t.len(),
    ensures
        find_mpd_root(strip_ignorable(t), kept_before(t, i)) == shifted(t, find_mpd_root(t, i)),
        find_mpd_root(t, i) matches Ok((_, j)) ==> i < j <= t.len(),
    decreases t.len() - i,
{
    lemma_kept_step(t, i);
    if i < t.len() {
        match t[i] {
            TokenV::Start(n, _, a) => if n == "MPD"@ {
                lemma_kept_step(t, i + 1);
            } else {
                lemma_find_mpd_root_strip(t, i + 1);
            },
            TokenV::Error => {},
            TokenV::EndDocument => {},
            _ => lemma_find_mpd_root_strip(t, i + 1),
        }
    }
}

/// The `BaseURL` element reads the same without the ignorable tokens.
proof fn lemma_base_url_at_strip(t: Seq<TokenV>, i: int, a: Seq<XmlAttrV>)
    requires
        0 <= i <= t.len(),
    ensures
        base_url_at(strip_ignorable(t), kept_before(t, i), a) == shifted(t, base_url_at(t, i, a)),
{
    reveal(base_url_at);
    lemma_text_scan_strip(t, i, "BaseURL"@, seq![]);
}

/// The `Location` element reads the same without the ignorable tokens.
proof fn lemma_location_at_strip(t: Seq<TokenV>, i: int, a: Seq<XmlAttrV>)
    requires
        0 <= i <= t.len(),
    ensures
        location_at(strip_ignorable(t), kept_before(t, i), a) == shifted(t, location_at(t, i, a)),
{
    reveal(location_at);
    lemma_text_scan_strip(t, i, "Location"@, seq![]);
}

/// The `PatchLocation` element reads the same without the ignorable tokens.
proof fn lemma_patch_location_at_strip(t: Seq<TokenV>, i: int, a: Seq<XmlAttrV>)
    requires
        0 <= i <= t.len(),
    ensures
        patch_location_at(strip_ignorable(t), kept_before(t, i), a) == shifted(t, patch_location_at(t, i, a)),
{
    reveal(patch_location_at);
    lemma_text_scan_strip(t, i, "PatchLocation"@, seq![]);
}

/// The `ContentSteering` element reads the same without the ignorable tokens.
proof fn lemma_content_steering_at_strip(t: Seq<TokenV>, i: int, a: Seq<XmlAttrV>)
    requires
        0 <= i <= t.len(),
    ensures
        content_steering_at(strip_ignorable(t), kept_before(t, i), a) == shifted(t, content_steering_at(t, i, a)),
{
    reveal(content_steering_at);
    lemma_text_scan_strip(t, i, "ContentSteering"@, seq![]);
}

/// Reading on the `ContentProtection` element reads the same without the ignorable tokens.
proof fn lemma_content_protection_scan_strip(t: Seq<TokenV>, i: int, x: ContentProtectionV)
    requires
        0 <= i <= t.len(),
    ensures
        content_protection_scan(strip_ignorable(t), kept_before(t, i), x) == shifted(t, content_protection_scan(t, i, x)),
    decreases t.len() - i,
{
    lemma_kept_step(t, i);
    if i < t.len() {
        match t[i] {
            TokenV::End(n) => if n != "ContentProtection"@ {
                lemma_content_protection_scan_strip(t, i + 1, x);
            },
            TokenV::Start(n, _, a) => if n == "pssh"@ {
            lemma_text_scan_pos(t, i + 1, n, seq![]);
            lemma_text_scan_strip(t, i + 1, n, seq![]);
            let (txt, j) = text_scan(t, i + 1, n, seq![]);
            lemma_content_protection_scan_strip(t, j, ContentProtectionV { pssh: txt, ..x });
        } else if n == "Laurl"@ || n == "laurl"@ {
            lemma_text_scan_pos(t, i + 1, n, seq![]);
            lemma_text_scan_strip(t, i + 1, n, seq![]);
            let (txt, j) = text_scan(t, i + 1, n, seq![]);
            lemma_content_protection_scan_strip(t, j, ContentProtectionV { laurl: txt, ..x });
        } else if n == "pro"@ {
            lemma_text_scan_pos(t, i + 1, n, seq![]);
            lemma_text_scan_strip(t, i + 1, n, seq![]);
            let (txt, j) = text_scan(t, i + 1, n, seq![]);
            lemma_content_protection_scan_strip(t, j, ContentProtectionV { pro: txt, ..x });
        } else if n == "Certurl"@ || n == "certurl"@ {
            lemma_text_scan_pos(t, i + 1, n, seq![]);
            lemma_text_scan_strip(t, i + 1, n, seq![]);
            let (txt, j) = text_scan(t, i + 1, n, seq![]);
            lemma_content_protection_scan_strip(t, j, match txt {
                Some(s) => ContentProtectionV { certurls: x.certurls.push(CertUrlV { url: s, cert_type: first_attr(a, "certType"@) }), ..x },
                None => x,
            });
        } else {
            lemma_skip_scan_pos(t, i + 1, 1);
            lemma_skip_scan_strip(t, i + 1, 1);
            if let Ok(j) = skip_scan(t, i + 1, 1) {
                lemma_content_protection_scan_strip(t, j, x);
            }
        },
            TokenV::Error => {},
            TokenV::EndDocument => {},
            _ => lemma_content_protection_scan_strip(t, i + 1, x),
        }
    }
}

/// The `ContentProtection` element reads the same without the ignorable tokens.
proof fn lemma_content_protection_at_strip(t: Seq<TokenV>, i: int, a: Seq<XmlAttrV>)
    requires
        0 <= i <= t.len(),
    ensures
        content_protection_at(strip_ignorable(t), kept_before(t, i), a) == shifted(t, content_protection_at(t, i, a)),
{
    reveal(content_protection_at);
    if let Ok(x) = content_protection_start(a) {
        lemma_content_protection_scan_strip(t, i, x);
    }
}

/// Reading on the `EventStream` element reads the same without the ignorable tokens.
proof fn lemma_event_stream_scan_strip(t: Seq<TokenV>, i: int, x: EventStreamV)
    requires
        0 <= i <= t.len(),
    ensures
        event_stream_scan(strip_ignorable(t), kept_before(t, i), x) == shifted(t, event_stream_scan(t, i, x)),
    decreases t.len() - i,
{
    lemma_kept_step(t, i);
    if i < t.len() {
        match t[i] {
            TokenV::End(n) => if n != "EventStream"@ {
                lemma_event_stream_scan_strip(t, i + 1, x);
            },
            TokenV::Start(n, _, a) => if n == "Event"@ {
            lemma_event_at_pos(t, i + 1, a);
            lemma_event_at_strip(t, i + 1, a);
            if let Ok((v, j)) = event_at(t, i + 1, a) {
                lemma_event_stream_scan_strip(t, j, EventStreamV { events: x.events.push(v), ..x });
            }
        } else {
            lemma_skip_scan_pos(t, i + 1, 1);
            lemma_skip_scan_strip(t, i + 1, 1);
            if let Ok(j) = skip_scan(t, i + 1, 1) {
                lemma_event_stream_scan_strip(t, j, x);
            }
        },
            TokenV::Error => {},
            TokenV::EndDocument => {},
            _ => lemma_event_stream_scan_strip(t, i + 1, x),
        }
    }
}

/// The `EventStream` element reads the same without the ignorable tokens.
proof fn lemma_event_stream_at_strip(t: Seq<TokenV>, i: int, a: Seq<XmlAttrV>)
    requires
        0 <= i <= t.len(),
    ensures
        event_stream_at(strip_ignorable(t), kept_before(t, i), a) == shifted(t, event_stream_at(t, i, a)),
{
    reveal(event_stream_at);
    if let Ok(x) = event_stream_start(a) {
        lemma_event_stream_scan_strip(t, i, x);
    }
}

/// Reading on the `ProducerReferenceTime` element reads the same without the ignorable tokens.
proof fn lemma_producer_reference_time_scan_strip(t: Seq<TokenV>, i: int, x: ProducerReferenceTimeV)
    requires
        0 <= i <= t.len(),
    ensures
        producer_reference_time_scan(strip_ignorable(t), kept_before(t, i), x) == shifted(t, producer_reference_time_scan(t, i, x)),
    decreases t.len() - i,
{
    lemma_kept_step(t, i);
    if i < t.len() {
        match t[i] {
            TokenV::End(n) => if n != "ProducerReferenceTime"@ {
                lemma_producer_reference_time_scan_strip(t, i + 1, x);
            },
            TokenV::Start(n, _, a) => if n == "UTCTiming"@ {
            lemma_skip_scan_pos(t, i + 1, 1);
            lemma_skip_scan_strip(t, i + 1, 1);
            if let Ok(v) = utc_timing_start(a) {
                if let Ok(j) = skip_scan(t, i + 1, 1) {
                    lemma_producer_reference_time_scan_strip(t, j, ProducerReferenceTimeV { utc_timing: Some(v), ..x });
                }
            }
        } else {
            lemma_skip_scan_pos(t, i + 1, 1);
            lemma_skip_scan_strip(t, i + 1, 1);
            if let Ok(j) = skip_scan(t, i + 1, 1) {
                lemma_producer_reference_time_scan_strip(t, j, x);
            }
        },
            TokenV::Error => {},
            TokenV::EndDocument => {},
            _ => lemma_producer_reference_time_scan_strip(t, i + 1, x),
        }
    }
}

/// The `ProducerReferenceTime` element reads the same without the ignorable tokens.
proof fn lemma_producer_reference_time_at_strip(t: Seq<TokenV>, i: int, a: Seq<XmlAttrV>)
    requires
        0 <= i <= t.len(),
    ensures
        producer_reference_time_at(strip_ignorable(t), kept_before(t, i), a) == shifted(t, producer_reference_time_at(t, i, a)),
{
    reveal(producer_reference_time_at);
    if let Ok(x) = producer_reference_time_start(a) {
        lemma_producer_reference_time_scan_strip(t, i, x);
    }
}

/// Reading on the `ContentComponent` element reads the same without the ignorable tokens.
proof fn lemma_content_component_scan_strip(t: Seq<TokenV>, i: int, x: ContentComponentV)
    requires
        0 <= i <= t.len(),
    ensures
        content_component_scan(strip_ignorable(t), kept_before(t, i), x) == shifted(t, content_component_scan(t, i, x)),
    decreases t.len() - i,
{
    lemma_kept_step(t, i);
    if i < t.len() {
        match t[i] {
            TokenV::End(n) => if n != "ContentComponent"@ {
                lemma_content_component_scan_strip(t, i + 1, x);
            },
            TokenV::Start(n, _, a) => if n == "Accessibility"@ {
            lemma_skip_scan_pos(t, i + 1, 1);
            lemma_skip_scan_strip(t, i + 1, 1);
            if let Ok(v) = descriptor_start(a) {
                if let Ok(j) = skip_scan(t, i + 1, 1) {
                    lemma_content_component_scan_strip(t, j, ContentComponentV { accessibilities: x.accessibilities.push(v), ..x });
                }
            }
        } else if n == "Role"@ {
            lemma_skip_scan_pos(t, i + 1, 1);
            lemma_skip_scan_strip(t, i + 1, 1);
            if let Ok(v) = descriptor_start(a) {
                if let Ok(j) = skip_scan(t, i + 1, 1) {
                    lemma_content_component_scan_strip(t, j, ContentComponentV { roles: x.roles.push(v), ..x });
                }
            }
        } else {
            lemma_skip_scan_pos(t, i + 1, 1);
            lemma_skip_scan_strip(t, i + 1, 1);
            if let Ok(j) = skip_scan(t, i + 1, 1) {
                lemma_content_component_scan_strip(t, j, x);
            }
        },
            TokenV::Error => {},
            TokenV::EndDocument => {},
            _ => lemma_content_component_scan_strip(t, i + 1, x),
        }
    }
}

/// The `ContentComponent` element reads the same without the ignorable tokens.
proof fn lemma_content_component_at_strip(t: Seq<TokenV>, i: int, a: Seq<XmlAttrV>)
    requires
        0 <= i <= t.len(),
    ensures
        content_component_at(strip_ignorable(t), kept_before(t, i), a) == shifted(t, content_component_at(t, i, a)),
{
    reveal(content_component_at);
    if let Ok(x) = content_component_start(a) {
        lemma_content_component_scan_strip(t, i, x);
    }
}

/// Reading on the `ClientDataReporting` element reads the same without the ignorable tokens.
proof fn lemma_client_data_reporting_scan_strip(t: Seq<TokenV>, i: int, x: ClientDataReportingV)
    requires
        0 <= i <= t.len(),
    ensures
        client_data_reporting_scan(strip_ignorable(t), kept_before(t, i), x) == shifted(t, client_data_reporting_scan(t, i, x)),
    decreases t.len() - i,
{
    lemma_kept_step(t, i);
    if i < t.len() {
        match t[i] {
            TokenV::End(n) => if n != "ClientDataReporting"@ {
                lemma_client_data_reporting_scan_strip(t, i + 1, x);
            },
            TokenV::Start(n, _, a) => if n == "CMCDParameters"@ {
            lemma_skip_scan_pos(t, i + 1, 1);
            lemma_skip_scan_strip(t, i + 1, 1);
            if let Ok(v) = cmcd_parameters_start(a) {
                if let Ok(j) = skip_scan(t, i + 1, 1) {
                    lemma_client_data_reporting_scan_strip(t, j, ClientDataReportingV { cmcd_parameters: Some(v), ..x });
                }
            }
        } else {
            lemma_skip_scan_pos(t, i + 1, 1);
            lemma_skip_scan_strip(t, i + 1, 1);
            if let Ok(j) = skip_scan(t, i + 1, 1) {
                lemma_client_data_reporting_scan_strip(t, j, x);
            }
        },
            TokenV::Error => {},
            TokenV::EndDocument => {},
            _ => lemma_client_data_reporting_scan_strip(t, i + 1, x),
        }
    }
}

/// The `ClientDataReporting` element reads the same without the ignorable tokens.
proof fn lemma_client_data_reporting_at_strip(t: Seq<TokenV>, i: int, a: Seq<XmlAttrV>)
    requires
        0 <= i <= t.len(),
    ensures
        client_data_reporting_at(strip_ignorable(t), kept_before(t, i), a) == shifted(t, client_data_reporting_at(t, i, a)),
{
    reveal(client_data_reporting_at);
    if let Ok(x) = client_data_reporting_start(a) {
        lemma_client_data_reporting_scan_strip(t, i, x);
    }
}

/// Reading on the `ServiceDescription` element reads the same without the ignorable tokens.
proof fn lemma_service_description_scan_strip(t: Seq<TokenV>, i: int, x: ServiceDescriptionV)
    requires
        0 <= i <= t.len(),
    ensures
        service_description_scan(strip_ignorable(t), kept_before(t, i), x) == shifted(t, service_description_scan(t, i, x)),
    decreases t.len() - i,
{
    lemma_kept_step(t, i);
    if i < t.len() {
        match t[i] {
            TokenV::End(n) => if n != "ServiceDescription"@ {
                lemma_service_description_scan_strip(t, i + 1, x);
            },
            TokenV::Start(n, _, a) => if n == "Scope"@ {
            lemma_skip_scan_pos(t, i + 1, 1);
            lemma_skip_scan_strip(t, i + 1, 1);
            if let Ok(v) = descriptor_start(a) {
                if let Ok(j) = skip_scan(t, i + 1, 1) {
                    lemma_service_description_scan_strip(t, j, ServiceDescriptionV { scope: Some(v), ..x });
                }
            }
        } else if n == "Latency"@ {
            lemma_skip_scan_pos(t, i + 1, 1);
            lemma_skip_scan_strip(t, i + 1, 1);
            if let Ok(v) = latency_start(a) {
                if let Ok(j) = skip_scan(t, i + 1, 1) {
                    lemma_service_description_scan_strip(t, j, ServiceDescriptionV { latency: Some(v), ..x });
                }
            }
        } else if n == "PlaybackRate"@ {
            lemma_skip_scan_pos(t, i + 1, 1);
            lemma_skip_scan_strip(t, i + 1, 1);
            if let Ok(v) = playback_rate_start(a) {
                if let Ok(j) = skip_scan(t, i + 1, 1) {
                    lemma_service_description_scan_strip(t, j, ServiceDescriptionV { playback_rate: Some(v), ..x });
                }
            }
        } else if n == "OperatingQuality"@ {
            lemma_skip_scan_pos(t, i + 1, 1);
            lemma_skip_scan_strip(t, i + 1, 1);
            if let Ok(v) = operating_quality_start(a) {
                if let Ok(j) = skip_scan(t, i + 1, 1) {
                    lemma_service_description_scan_strip(t, j, ServiceDescriptionV { operating_quality: Some(v), ..x });
                }
            }
        } else if n == "OperatingBandwidth"@ {
            lemma_skip_scan_pos(t, i + 1, 1);
            lemma_skip_scan_strip(t, i + 1, 1);
            if let Ok(v) = operating_bandwidth_start(a) {
                if let Ok(j) = skip_scan(t, i + 1, 1) {
                    lemma_service_description_scan_strip(t, j, ServiceDescriptionV { operating_bandwidth: Some(v), ..x });
                }
            }
        } else if n == "ClientDataReporting"@ {
            lemma_client_data_reporting_at_pos(t, i + 1, a);
            lemma_client_data_reporting_at_strip(t, i + 1, a);
            if let Ok((v, j)) = client_data_reporting_at(t, i + 1, a) {
                lemma_service_description_scan_strip(t, j, ServiceDescriptionV { client_data_reporting: Some(v), ..x });
            }
        } else {
            lemma_skip_scan_pos(t, i + 1, 1);
            lemma_skip_scan_strip(t, i + 1, 1);
            if let Ok(j) = skip_scan(t, i + 1, 1) {
                lemma_service_description_scan_strip(t, j, x);
            }
        },
            TokenV::Error => {},
            TokenV::EndDocument => {},
            _ => lemma_service_description_scan_strip(t, i + 1, x),
        }
    }
}

/// The `ServiceDescription` element reads the same without the ignorable tokens.
proof fn lemma_service_description_at_strip(t: Seq<TokenV>, i: int, a: Seq<XmlAttrV>)
    requires
        0 <= i <= t.len(),
    ensures
        service_description_at(strip_ignorable(t), kept_before(t, i), a) == shifted(t, service_description_at(t, i, a)),
{
    reveal(service_description_at);
    if let Ok(x) = service_description_start(a) {
        lemma_service_description_scan_strip(t, i, x);
    }
}

/// Reading on the `Preselection` element reads the same without the ignorable tokens.
proof fn lemma_preselection_scan_strip(t: Seq<TokenV>, i: int, x: PreselectionV)
    requires
        0 <= i <= t.len(),
    ensures
        preselection_scan(strip_ignorable(t), kept_before(t, i), x) == shifted(t, preselection_scan(t, i, x)),
    decreases t.len() - i,
{
    lemma_kept_step(t, i);
    if i < t.len() {
        match t[i] {
            TokenV::End(n) => if n != "Preselection"@ {
                lemma_preselection_scan_strip(t, i + 1, x);
            },
            TokenV::Start(n, _, a) => if n == "Accessibility"@ {
            lemma_skip_scan_pos(t, i + 1, 1);
            lemma_skip_scan_strip(t, i + 1, 1);
            if let Ok(v) = descriptor_start(a) {
                if let Ok(j) = skip_scan(t, i + 1, 1) {
                    lemma_preselection_scan_strip(t, j, PreselectionV { accessibilities: x.accessibilities.push(v), ..x });
                }
            }
        } else if n == "Role"@ {
            lemma_skip_scan_pos(t, i + 1, 1);
            lemma_skip_scan_strip(t, i + 1, 1);
            if let Ok(v) = descriptor_start(a) {
                if let Ok(j) = skip_scan(t, i + 1, 1) {
                    lemma_preselection_scan_strip(t, j, PreselectionV { roles: x.roles.push(v), ..x });
                }
            }
        } else if n == "Viewpoint"@ {
            lemma_skip_scan_pos(t, i + 1, 1);
            lemma_skip_scan_strip(t, i + 1, 1);
            if let Ok(v) = descriptor_start(a) {
                if let Ok(j) = skip_scan(t, i + 1, 1) {
                    lemma_preselection_scan_strip(t, j, PreselectionV { viewpoints: x.viewpoints.push(v), ..x });
                }
            }
        } else if n == "Label"@ {
            lemma_text_scan_pos(t, i + 1, n, seq![]);
            lemma_text_scan_strip(t, i + 1, n, seq![]);
            let (txt, j) = text_scan(t, i + 1, n, seq![]);
            lemma_preselection_scan_strip(t, j, match txt {
                Some(s) => PreselectionV { labels: x.labels.push(LabelV { lang: first_attr(a, "lang"@), text: s }), ..x },
                None => x,
            });
        } else if n == "EssentialProperty"@ {
            lemma_skip_scan_pos(t, i + 1, 1);
            lemma_skip_scan_strip(t, i + 1, 1);
            if let Ok(v) = descriptor_start(a) {
                if let Ok(j) = skip_scan(t, i + 1, 1) {
                    lemma_preselection_scan_strip(t, j, PreselectionV { essential_properties: x.essential_properties.push(v), ..x });
                }
            }
        } else if n == "SupplementalProperty"@ {
            lemma_skip_scan_pos(t, i + 1, 1);
            lemma_skip_scan_strip(t, i + 1, 1);
            if let Ok(v) = descriptor_start(a) {
                if let Ok(j) = skip_scan(t, i + 1, 1) {
                    lemma_preselection_scan_strip(t, j, PreselectionV { supplemental_properties: x.supplemental_properties.push(v), ..x });
                }
            }
        } else {
            lemma_skip_scan_pos(t, i + 1, 1);
            lemma_skip_scan_strip(t, i + 1, 1);
            if let Ok(j) = skip_scan(t, i + 1, 1) {
                lemma_preselection_scan_strip(t, j, x);
            }
        },
            TokenV::Error => {},
            TokenV::EndDocument => {},
            _ => lemma_preselection_scan_strip(t, i + 1, x),
        }
    }
}

/// The `Preselection` element reads the same without the ignorable tokens.
proof fn lemma_preselection_at_strip(t: Seq<TokenV>, i: int, a: Seq<XmlAttrV>)
    requires
        0 <= i <= t.len(),
    ensures
        preselection_at(strip_ignorable(t), kept_before(t, i), a) == shifted(t, preselection_at(t, i, a)),
{
    reveal(preselection_at);
    if let Ok(x) = preselection_start(a) {
        lemma_preselection_scan_strip(t, i, x);
    }
}

/// Reading on the `SegmentBase` element reads the same without the ignorable tokens.
proof fn lemma_segment_base_scan_strip(t: Seq<TokenV>, i: int, x: SegmentBaseV)
    requires
        0 <= i <= t.len(),
    ensures
        segment_base_scan(strip_ignorable(t), kept_before(t, i), x) == shifted(t, segment_base_scan(t, i, x)),
    decreases t.len() - i,
{
    lemma_kept_step(t, i);
    if i < t.len() {
        match t[i] {
            TokenV::End(n) => if n != "SegmentBase"@ {
                lemma_segment_base_scan_strip(t, i + 1, x);
            },
            TokenV::Start(n, _, a) => if n == "Initialization"@ {
            lemma_skip_scan_pos(t, i + 1, 1);
            lemma_skip_scan_strip(t, i + 1, 1);
            if let Ok(j) = skip_scan(t, i + 1, 1) {
                lemma_segment_base_scan_strip(t,
                    j,
                    SegmentBaseV { initialization_source_url: first_attr(a,
                    "sourceURL"@),
                    initialization_range: first_attr(a,
                    "range"@),
                    ..x });
            }
        } else if n == "RepresentationIndex"@ {
            lemma_skip_scan_pos(t, i + 1, 1);
            lemma_skip_scan_strip(t, i + 1, 1);
            if let Ok(j) = skip_scan(t, i + 1, 1) {
                lemma_segment_base_scan_strip(t,
                    j,
                    SegmentBaseV { representation_index_source_url: first_attr(a,
                    "sourceURL"@),
                    representation_index_range: first_attr(a,
                    "range"@),
                    ..x });
            }
        } else if n == "BitstreamSwitching"@ {
            lemma_skip_scan_pos(t, i + 1, 1);
            lemma_skip_scan_strip(t, i + 1, 1);
            if let Ok(j) = skip_scan(t, i + 1, 1) {
                lemma_segment_base_scan_strip(t,
                    j,
                    SegmentBaseV { bitstream_switching_source_url: first_attr(a,
                    "sourceURL"@),
                    bitstream_switching_range: first_attr(a,
                    "range"@),
                    ..x });
            }
        } else {
            lemma_skip_scan_pos(t, i + 1, 1);
            lemma_skip_scan_strip(t, i + 1, 1);
            if let Ok(j) = skip_scan(t, i + 1, 1) {
                lemma_segment_base_scan_strip(t, j, x);
            }
        },
            TokenV::Error => {},
            TokenV::EndDocument => {},
            _ => lemma_segment_base_scan_strip(t, i + 1, x),
        }
    }
}

/// The `SegmentBase` element reads the same without the ignorable tokens.
proof fn lemma_segment_base_at_strip(t: Seq<TokenV>, i: int, a: Seq<XmlAttrV>)
    requires
        0 <= i <= t.len(),
    ensures
        segment_base_at(strip_ignorable(t), kept_before(t, i), a) == shifted(t, segment_base_at(t, i, a)),
{
    reveal(segment_base_at);
    if let Ok(x) = segment_base_start(a) {
        lemma_segment_base_scan_strip(t, i, x);
    }
}

/// Reading on the `SegmentList` element reads the same without the ignorable tokens.
proof fn lemma_segment_list_scan_strip(t: Seq<TokenV>, i: int, x: SegmentListV)
    requires
        0 <= i <= t.len(),
    ensures
        segment_list_scan(strip_ignorable(t), kept_before(t, i), x) == shifted(t, segment_list_scan(t, i, x)),
    decreases t.len() - i,
{
    lemma_kept_step(t, i);
    if i < t.len() {
        match t[i] {
            TokenV::End(n) => if n != "SegmentList"@ {
                lemma_segment_list_scan_strip(t, i + 1, x);
            },
            TokenV::Start(n, _, a) => if n == "Initialization"@ {
            lemma_skip_scan_pos(t, i + 1, 1);
            lemma_skip_scan_strip(t, i + 1, 1);
            if let Ok(j) = skip_scan(t, i + 1, 1) {
                lemma_segment_list_scan_strip(t,
                    j,
                    SegmentListV { initialization_source_url: first_attr(a,
                    "sourceURL"@),
                    initialization_range: first_attr(a,
                    "range"@),
                    ..x });
            }
        } else if n == "RepresentationIndex"@ {
            lemma_skip_scan_pos(t, i + 1, 1);
            lemma_skip_scan_strip(t, i + 1, 1);
            if let Ok(j) = skip_scan(t, i + 1, 1) {
                lemma_segment_list_scan_strip(t,
                    j,
                    SegmentListV { representation_index_source_url: first_attr(a,
                    "sourceURL"@),
                    representation_index_range: first_attr(a,
                    "range"@),
                    ..x });
            }
        } else if n == "BitstreamSwitching"@ {
            lemma_skip_scan_pos(t, i + 1, 1);
            lemma_skip_scan_strip(t, i + 1, 1);
            if let Ok(j) = skip_scan(t, i + 1, 1) {
                lemma_segment_list_scan_strip(t,
                    j,
                    SegmentListV { bitstream_switching_source_url: first_attr(a,
                    "sourceURL"@),
                    bitstream_switching_range: first_attr(a,
                    "range"@),
                    ..x });
            }
        } else if n == "SegmentURL"@ {
            lemma_skip_scan_pos(t, i + 1, 1);
            lemma_skip_scan_strip(t, i + 1, 1);
            if let Ok(v) = segment_url_start(a) {
                if let Ok(j) = skip_scan(t, i + 1, 1) {
                    lemma_segment_list_scan_strip(t, j, SegmentListV { segment_urls: x.segment_urls.push(v), ..x });
                }
            }
        } else if n == "SegmentTimeline"@ {
            lemma_timeline_scan_pos(t, i + 1, seq![]);
            lemma_timeline_scan_strip(t, i + 1, seq![]);
            let (es, j) = timeline_scan(t, i + 1, seq![]);
            lemma_segment_list_scan_strip(t, j, SegmentListV { segment_timeline: Some(es), ..x });
        } else {
            lemma_skip_scan_pos(t, i + 1, 1);
            lemma_skip_scan_strip(t, i + 1, 1);
            if let Ok(j) = skip_scan(t, i + 1, 1) {
                lemma_segment_list_scan_strip(t, j, x);
            }
        },
            TokenV::Error => {},
            TokenV::EndDocument => {},
            _ => lemma_segment_list_scan_strip(t, i + 1, x),
        }
    }
}

/// The `SegmentList` element reads the same without the ignorable tokens.
proof fn lemma_segment_list_at_strip(t: Seq<TokenV>, i: int, a: Seq<XmlAttrV>)
    requires
        0 <= i <= t.len(),
    ensures
        segment_list_at(strip_ignorable(t), kept_before(t, i), a) == shifted(t, segment_list_at(t, i, a)),
{
    reveal(segment_list_at);
    if let Ok(x) = segment_list_start(a) {
        lemma_segment_list_scan_strip(t, i, x);
    }
}

/// Reading on the `SegmentTemplate` element reads the same without the ignorable tokens.
proof fn lemma_segment_template_scan_strip(t: Seq<TokenV>, i: int, x: SegmentTemplateV)
    requires
        0 <= i <= t.len(),
    ensures
        segment_template_scan(strip_ignorable(t), kept_before(t, i), x) == shifted(t, segment_template_scan(t, i, x)),
    decreases t.len() - i,
{
    lemma_kept_step(t, i);
    if i < t.len() {
        match t[i] {
            TokenV::End(n) => if n != "SegmentTemplate"@ {
                lemma_segment_template_scan_strip(t, i + 1, x);
            },
            TokenV::Start(n, _, a) => if n == "SegmentTimeline"@ {
            lemma_timeline_scan_pos(t, i + 1, seq![]);
            lemma_timeline_scan_strip(t, i + 1, seq![]);
            let (es, j) = timeline_scan(t, i + 1, seq![]);
            lemma_segment_template_scan_strip(t, j, SegmentTemplateV { segment_timeline: Some(es), ..x });
        } else if n == "BitstreamSwitching"@ {
            lemma_skip_scan_pos(t, i + 1, 1);
            lemma_skip_scan_strip(t, i + 1, 1);
            if let Ok(j) = skip_scan(t, i + 1, 1) {
                lemma_segment_template_scan_strip(t,
                    j,
                    SegmentTemplateV { bitstream_switching_source_url: first_attr(a,
                    "sourceURL"@),
                    bitstream_switching_range: first_attr(a,
                    "range"@),
                    ..x });
            }
        } else {
            lemma_skip_scan_pos(t, i + 1, 1);
            lemma_skip_scan_strip(t, i + 1, 1);
            if let Ok(j) = skip_scan(t, i + 1, 1) {
                lemma_segment_template_scan_strip(t, j, x);
            }
        },
            TokenV::Error => {},
            TokenV::EndDocument => {},
            _ => lemma_segment_template_scan_strip(t, i + 1, x),
        }
    }
}

/// The `SegmentTemplate` element reads the same without the ignorable tokens.
proof fn lemma_segment_template_at_strip(t: Seq<TokenV>, i: int, a: Seq<XmlAttrV>)
    requires
        0 <= i <= t.len(),
    ensures
        segment_template_at(strip_ignorable(t), kept_before(t, i), a) == shifted(t, segment_template_at(t, i, a)),
{
    reveal(segment_template_at);
    if let Ok(x) = segment_template_start(a) {
        lemma_segment_template_scan_strip(t, i, x);
    }
}

/// Reading on the `SubRepresentation` element reads the same without the ignorable tokens.
proof fn lemma_sub_representation_scan_strip(t: Seq<TokenV>, i: int, x: SubRepresentationV)
    requires
        0 <= i <= t.len(),
    ensures
        sub_representation_scan(strip_ignorable(t), kept_before(t, i), x) == shifted(t, sub_representation_scan(t, i, x)),
    decreases t.len() - i,
{
    lemma_kept_step(t, i);
    if i < t.len() {
        match t[i] {
            TokenV::End(n) => if n != "SubRepresentation"@ {
                lemma_sub_representation_scan_strip(t, i + 1, x);
            },
            TokenV::Start(n, _, a) => if n == "ContentProtection"@ {
            lemma_content_protection_at_pos(t, i + 1, a);
            lemma_content_protection_at_strip(t, i + 1, a);
            if let Ok((v, j)) = content_protection_at(t, i + 1, a) {
                lemma_sub_representation_scan_strip(t, j, SubRepresentationV { content_protections: x.content_protections.push(v), ..x });
            }
        } else if n == "AudioChannelConfiguration"@ {
            lemma_skip_scan_pos(t, i + 1, 1);
            lemma_skip_scan_strip(t, i + 1, 1);
            if let Ok(v) = descriptor_start(a) {
                if let Ok(j) = skip_scan(t, i + 1, 1) {
                    lemma_sub_representation_scan_strip(t, j, SubRepresentationV { audio_channel_configurations: x.audio_channel_configurations.push(v), ..x });
                }
            }
        } else if n == "FramePacking"@ {
            lemma_skip_scan_pos(t, i + 1, 1);
            lemma_skip_scan_strip(t, i + 1, 1);
            if let Ok(v) = descriptor_start(a) {
                if let Ok(j) = skip_scan(t, i + 1, 1) {
                    lemma_sub_representation_scan_strip(t, j, SubRepresentationV { frame_packings: x.frame_packings.push(v), ..x });
                }
            }
        } else if n == "InbandEventStream"@ {
            lemma_skip_scan_pos(t, i + 1, 1);
            lemma_skip_scan_strip(t, i + 1, 1);
            if let Ok(v) = descriptor_start(a) {
                if let Ok(j) = skip_scan(t, i + 1, 1) {
                    lemma_sub_representation_scan_strip(t, j, SubRepresentationV { inband_event_streams: x.inband_event_streams.push(v), ..x });
                }
            }
        } else if n == "EssentialProperty"@ {
            lemma_skip_scan_pos(t, i + 1, 1);
            lemma_skip_scan_strip(t, i + 1, 1);
            if let Ok(v) = descriptor_start(a) {
                if let Ok(j) = skip_scan(t, i + 1, 1) {
                    lemma_sub_representation_scan_strip(t, j, SubRepresentationV { essential_properties: x.essential_properties.push(v), ..x });
                }
            }
        } else if n == "SupplementalProperty"@ {
            lemma_skip_scan_pos(t, i + 1, 1);
            lemma_skip_scan_strip(t, i + 1, 1);
            if let Ok(v) = descriptor_start(a) {
                if let Ok(j) = skip_scan(t, i + 1, 1) {
                    lemma_sub_representation_scan_strip(t, j, SubRepresentationV { supplemental_properties: x.supplemental_properties.push(v), ..x });
                }
            }
        } else if n == "SegmentSequenceProperties"@ {
            lemma_skip_scan_pos(t, i + 1, 1);
            lemma_skip_scan_strip(t, i + 1, 1);
            if let Ok(v) = segment_sequence_properties_start(a) {
                if let Ok(j) = skip_scan(t, i + 1, 1) {
                    lemma_sub_representation_scan_strip(t, j, SubRepresentationV { segment_sequence_properties: x.segment_sequence_properties.push(v), ..x });
                }
            }
        } else {
            lemma_skip_scan_pos(t, i + 1, 1);
            lemma_skip_scan_strip(t, i + 1, 1);
            if let Ok(j) = skip_scan(t, i + 1, 1) {
                lemma_sub_representation_scan_strip(t, j, x);
            }
        },
            TokenV::Error => {},
            TokenV::EndDocument => {},
            _ => lemma_sub_representation_scan_strip(t, i + 1, x),
        }
    }
}

/// The `SubRepresentation` element reads the same without the ignorable tokens.
proof fn lemma_sub_representation_at_strip(t: Seq<TokenV>, i: int, a: Seq<XmlAttrV>)
    requires
        0 <= i <= t.len(),
    ensures
        sub_representation_at(strip_ignorable(t), kept_before(t, i), a) == shifted(t, sub_representation_at(t, i, a)),
{
    reveal(sub_representation_at);
    if let Ok(x) = sub_representation_start(a) {
        lemma_sub_representation_scan_strip(t, i, x);
    }
}

/// Reading on the `Representation` element reads the same without the ignorable tokens.
proof fn lemma_representation_scan_strip(t: Seq<TokenV>, i: int, x: RepresentationV)
    requires
        0 <= i <= t.len(),
    ensures
        representation_scan(strip_ignorable(t), kept_before(t, i), x) == shifted(t, representation_scan(t, i, x)),
    decreases t.len() - i,
{
    lemma_kept_step(t, i);
    if i < t.len() {
        match t[i] {
            TokenV::End(n) => if n != "Representation"@ {
                lemma_representation_scan_strip(t, i + 1, x);
            },
            TokenV::Start(n, _, a) => if n == "BaseURL"@ {
            lemma_base_url_at_pos(t, i + 1, a);
            lemma_base_url_at_strip(t, i + 1, a);
            if let Ok((v, j)) = base_url_at(t, i + 1, a) {
                lemma_representation_scan_strip(t, j, RepresentationV { base_urls: x.base_urls.push(v), ..x });
            }
        } else if n == "AudioChannelConfiguration"@ {
            lemma_skip_scan_pos(t, i + 1, 1);
            lemma_skip_scan_strip(t, i + 1, 1);
            if let Ok(v) = descriptor_start(a) {
                if let Ok(j) = skip_scan(t, i + 1, 1) {
                    lemma_representation_scan_strip(t, j, RepresentationV { audio_channel_configurations: x.audio_channel_configurations.push(v), ..x });
                }
            }
        } else if n == "EssentialProperty"@ {
            lemma_skip_scan_pos(t, i + 1, 1);
            lemma_skip_scan_strip(t, i + 1, 1);
            if let Ok(v) = descriptor_start(a) {
                if let Ok(j) = skip_scan(t, i + 1, 1) {
                    lemma_representation_scan_strip(t, j, RepresentationV { essential_properties: x.essential_properties.push(v), ..x });
                }
            }
        } else if n == "SupplementalProperty"@ {
            lemma_skip_scan_pos(t, i + 1, 1);
            lemma_skip_scan_strip(t, i + 1, 1);
            if let Ok(v) = descriptor_start(a) {
                if let Ok(j) = skip_scan(t, i + 1, 1) {
                    lemma_representation_scan_strip(t, j, RepresentationV { supplemental_properties: x.supplemental_properties.push(v), ..x });
                }
            }
        } else if n == "FramePacking"@ {
            lemma_skip_scan_pos(t, i + 1, 1);
            lemma_skip_scan_strip(t, i + 1, 1);
            if let Ok(v) = descriptor_start(a) {
                if let Ok(j) = skip_scan(t, i + 1, 1) {
                    lemma_representation_scan_strip(t, j, RepresentationV { frame_packings: x.frame_packings.push(v), ..x });
                }
            }
        } else if n == "InbandEventStream"@ {
            lemma_skip_scan_pos(t, i + 1, 1);
            lemma_skip_scan_strip(t, i + 1, 1);
            if let Ok(v) = descriptor_start(a) {
                if let Ok(j) = skip_scan(t, i + 1, 1) {
                    lemma_representation_scan_strip(t, j, RepresentationV { inband_event_streams: x.inband_event_streams.push(v), ..x });
                }
            }
        } else if n == "ProducerReferenceTime"@ {
            lemma_producer_reference_time_at_pos(t, i + 1, a);
            lemma_producer_reference_time_at_strip(t, i + 1, a);
            if let Ok((v, j)) = producer_reference_time_at(t, i + 1, a) {
                lemma_representation_scan_strip(t, j, RepresentationV { producer_reference_times: x.producer_reference_times.push(v), ..x });
            }
        } else if n == "SegmentSequenceProperties"@ {
            lemma_skip_scan_pos(t, i + 1, 1);
            lemma_skip_scan_strip(t, i + 1, 1);
            if let Ok(v) = segment_sequence_properties_start(a) {
                if let Ok(j) = skip_scan(t, i + 1, 1) {
                    lemma_representation_scan_strip(t, j, RepresentationV { segment_sequence_properties: x.segment_sequence_properties.push(v), ..x });
                }
            }
        } else if n == "SubRepresentation"@ {
            lemma_sub_representation_at_pos(t, i + 1, a);
            lemma_sub_representation_at_strip(t, i + 1, a);
            if let Ok((v, j)) = sub_representation_at(t, i + 1, a) {
                lemma_representation_scan_strip(t, j, RepresentationV { sub_representations: x.sub_representations.push(v), ..x });
            }
        } else if n == "SegmentBase"@ {
            lemma_segment_base_at_pos(t, i + 1, a);
            lemma_segment_base_at_strip(t, i + 1, a);
            if let Ok((v, j)) = segment_base_at(t, i + 1, a) {
                lemma_representation_scan_strip(t, j, RepresentationV { segment_base: Some(v), ..x });
            }
        } else if n == "SegmentList"@ {
            lemma_segment_list_at_pos(t, i + 1, a);
            lemma_segment_list_at_strip(t, i + 1, a);
            if let Ok((v, j)) = segment_list_at(t, i + 1, a) {
                lemma_representation_scan_strip(t, j, RepresentationV { segment_list: Some(v), ..x });
            }
        } else if n == "SegmentTemplate"@ {
            lemma_segment_template_at_pos(t, i + 1, a);
            lemma_segment_template_at_strip(t, i + 1, a);
            if let Ok((v, j)) = segment_template_at(t, i + 1, a) {
                lemma_representation_scan_strip(t, j, RepresentationV { segment_template: Some(v), ..x });
            }
        } else if n == "ContentProtection"@ {
            lemma_content_protection_at_pos(t, i + 1, a);
            lemma_content_protection_at_strip(t, i + 1, a);
            if let Ok((v, j)) = content_protection_at(t, i + 1, a) {
                lemma_representation_scan_strip(t, j, RepresentationV { content_protections: x.content_protections.push(v), ..x });
            }
        } else {
            lemma_skip_scan_pos(t, i + 1, 1);
            lemma_skip_scan_strip(t, i + 1, 1);
            if let Ok(j) = skip_scan(t, i + 1, 1) {
                lemma_representation_scan_strip(t, j, x);
            }
        },
            TokenV::Error => {},
            TokenV::EndDocument => {},
            _ => lemma_representation_scan_strip(t, i + 1, x),
        }
    }
}

/// The `Representation` element reads the same without the ignorable tokens.
proof fn lemma_representation_at_strip(t: Seq<TokenV>, i: int, a: Seq<XmlAttrV>)
    requires
        0 <= i <= t.len(),
    ensures
        representation_at(strip_ignorable(t), kept_before(t, i), a) == shifted(t, representation_at(t, i, a)),
{
    reveal(representation_at);
    if let Ok(x) = representation_start(a) {
        lemma_representation_scan_strip(t, i, x);
    }
}

/// Reading on the `AdaptationSet` element reads the same without the ignorable tokens.
proof fn lemma_adaptation_set_scan_strip(t: Seq<TokenV>, i: int, x: AdaptationSetV)
    requires
        0 <= i <= t.len(),
    ensures
        adaptation_set_scan(strip_ignorable(t), kept_before(t, i), x) == shifted(t, adaptation_set_scan(t, i, x)),
    decreases t.len() - i,
{
    lemma_kept_step(t, i);
    if i < t.len() {
        match t[i] {
            TokenV::End(n) => if n != "AdaptationSet"@ {
                lemma_adaptation_set_scan_strip(t, i + 1, x);
            },
            TokenV::Start(n, _, a) => if n == "BaseURL"@ {
            lemma_base_url_at_pos(t, i + 1, a);
            lemma_base_url_at_strip(t, i + 1, a);
            if let Ok((v, j)) = base_url_at(t, i + 1, a) {
                lemma_adaptation_set_scan_strip(t, j, AdaptationSetV { base_urls: x.base_urls.push(v), ..x });
            }
        } else if n == "EventStream"@ {
            lemma_event_stream_at_pos(t, i + 1, a);
            lemma_event_stream_at_strip(t, i + 1, a);
            if let Ok((v, j)) = event_stream_at(t, i + 1, a) {
                lemma_adaptation_set_scan_strip(t, j, AdaptationSetV { event_streams: x.event_streams.push(v), ..x });
            }
        } else if n == "Role"@ {
            lemma_skip_scan_pos(t, i + 1, 1);
            lemma_skip_scan_strip(t, i + 1, 1);
            if let Ok(v) = descriptor_start(a) {
                if let Ok(j) = skip_scan(t, i + 1, 1) {
                    lemma_adaptation_set_scan_strip(t, j, AdaptationSetV { roles: x.roles.push(v), ..x });
                }
            }
        } else if n == "Accessibility"@ {
            lemma_skip_scan_pos(t, i + 1, 1);
            lemma_skip_scan_strip(t, i + 1, 1);
            if let Ok(v) = descriptor_start(a) {
                if let Ok(j) = skip_scan(t, i + 1, 1) {
                    lemma_adaptation_set_scan_strip(t, j, AdaptationSetV { accessibilities: x.accessibilities.push(v), ..x });
                }
            }
        } else if n == "AudioChannelConfiguration"@ {
            lemma_skip_scan_pos(t, i + 1, 1);
            lemma_skip_scan_strip(t, i + 1, 1);
            if let Ok(v) = descriptor_start(a) {
                if let Ok(j) = skip_scan(t, i + 1, 1) {
                    lemma_adaptation_set_scan_strip(t, j, AdaptationSetV { audio_channel_configurations: x.audio_channel_configurations.push(v), ..x });
                }
            }
        } else if n == "Label"@ {
            lemma_text_scan_pos(t, i + 1, n, seq![]);
            lemma_text_scan_strip(t, i + 1, n, seq![]);
            let (txt, j) = text_scan(t, i + 1, n, seq![]);
            lemma_adaptation_set_scan_strip(t, j, match txt {
                Some(s) => AdaptationSetV { labels: x.labels.push(LabelV { lang: first_attr(a, "lang"@), text: s }), ..x },
                None => x,
            });
        } else if n == "GroupLabel"@ {
            lemma_text_scan_pos(t, i + 1, n, seq![]);
            lemma_text_scan_strip(t, i + 1, n, seq![]);
            let (txt, j) = text_scan(t, i + 1, n, seq![]);
            lemma_adaptation_set_scan_strip(t, j, match txt {
                Some(s) => AdaptationSetV { group_labels: x.group_labels.push(LabelV { lang: first_attr(a, "lang"@), text: s }), ..x },
                None => x,
            });
        } else if n == "EssentialProperty"@ {
            lemma_skip_scan_pos(t, i + 1, 1);
            lemma_skip_scan_strip(t, i + 1, 1);
            if let Ok(v) = descriptor_start(a) {
                if let Ok(j) = skip_scan(t, i + 1, 1) {
                    lemma_adaptation_set_scan_strip(t, j, AdaptationSetV { essential_properties: x.essential_properties.push(v), ..x });
                }
            }
        } else if n == "SupplementalProperty"@ {
            lemma_skip_scan_pos(t, i + 1, 1);
            lemma_skip_scan_strip(t, i + 1, 1);
            if let Ok(v) = descriptor_start(a) {
                if let Ok(j) = skip_scan(t, i + 1, 1) {
                    lemma_adaptation_set_scan_strip(t, j, AdaptationSetV { supplemental_properties: x.supplemental_properties.push(v), ..x });
                }
            }
        } else if n == "Viewpoint"@ {
            lemma_skip_scan_pos(t, i + 1, 1);
            lemma_skip_scan_strip(t, i + 1, 1);
            if let Ok(v) = descriptor_start(a) {
                if let Ok(j) = skip_scan(t, i + 1, 1) {
                    lemma_adaptation_set_scan_strip(t, j, AdaptationSetV { viewpoints: x.viewpoints.push(v), ..x });
                }
            }
        } else if n == "FramePacking"@ {
            lemma_skip_scan_pos(t, i + 1, 1);
            lemma_skip_scan_strip(t, i + 1, 1);
            if let Ok(v) = descriptor_start(a) {
                if let Ok(j) = skip_scan(t, i + 1, 1) {
                    lemma_adaptation_set_scan_strip(t, j, AdaptationSetV { frame_packings: x.frame_packings.push(v), ..x });
                }
            }
        } else if n == "InbandEventStream"@ {
            lemma_skip_scan_pos(t, i + 1, 1);
            lemma_skip_scan_strip(t, i + 1, 1);
            if let Ok(v) = descriptor_start(a) {
                if let Ok(j) = skip_scan(t, i + 1, 1) {
                    lemma_adaptation_set_scan_strip(t, j, AdaptationSetV { inband_event_streams: x.inband_event_streams.push(v), ..x });
                }
            }
        } else if n == "ProducerReferenceTime"@ {
            lemma_producer_reference_time_at_pos(t, i + 1, a);
            lemma_producer_reference_time_at_strip(t, i + 1, a);
            if let Ok((v, j)) = producer_reference_time_at(t, i + 1, a) {
                lemma_adaptation_set_scan_strip(t, j, AdaptationSetV { producer_reference_times: x.producer_reference_times.push(v), ..x });
            }
        } else if n == "ContentComponent"@ {
            lemma_content_component_at_pos(t, i + 1, a);
            lemma_content_component_at_strip(t, i + 1, a);
            if let Ok((v, j)) = content_component_at(t, i + 1, a) {
                lemma_adaptation_set_scan_strip(t, j, AdaptationSetV { content_components: x.content_components.push(v), ..x });
            }
        } else if n == "SegmentSequenceProperties"@ {
            lemma_skip_scan_pos(t, i + 1, 1);
            lemma_skip_scan_strip(t, i + 1, 1);
            if let Ok(v) = segment_sequence_properties_start(a) {
                if let Ok(j) = skip_scan(t, i + 1, 1) {
                    lemma_adaptation_set_scan_strip(t, j, AdaptationSetV { segment_sequence_properties: x.segment_sequence_properties.push(v), ..x });
                }
            }
        } else if n == "SegmentBase"@ {
            lemma_segment_base_at_pos(t, i + 1, a);
            lemma_segment_base_at_strip(t, i + 1, a);
            if let Ok((v, j)) = segment_base_at(t, i + 1, a) {
                lemma_adaptation_set_scan_strip(t, j, AdaptationSetV { segment_base: Some(v), ..x });
            }
        } else if n == "SegmentList"@ {
            lemma_segment_list_at_pos(t, i + 1, a);
            lemma_segment_list_at_strip(t, i + 1, a);
            if let Ok((v, j)) = segment_list_at(t, i + 1, a) {
                lemma_adaptation_set_scan_strip(t, j, AdaptationSetV { segment_list: Some(v), ..x });
            }
        } else if n == "SegmentTemplate"@ {
            lemma_segment_template_at_pos(t, i + 1, a);
            lemma_segment_template_at_strip(t, i + 1, a);
            if let Ok((v, j)) = segment_template_at(t, i + 1, a) {
                lemma_adaptation_set_scan_strip(t, j, AdaptationSetV { segment_template: Some(v), ..x });
            }
        } else if n == "ContentProtection"@ {
            lemma_content_protection_at_pos(t, i + 1, a);
            lemma_content_protection_at_strip(t, i + 1, a);
            if let Ok((v, j)) = content_protection_at(t, i + 1, a) {
                lemma_adaptation_set_scan_strip(t, j, AdaptationSetV { content_protections: x.content_protections.push(v), ..x });
            }
        } else if n == "Representation"@ {
            lemma_representation_at_pos(t, i + 1, a);
            lemma_representation_at_strip(t, i + 1, a);
            if let Ok((v, j)) = representation_at(t, i + 1, a) {
                lemma_adaptation_set_scan_strip(t, j, AdaptationSetV { representations: x.representations.push(v), ..x });
            }
        } else {
            lemma_skip_scan_pos(t, i + 1, 1);
            lemma_skip_scan_strip(t, i + 1, 1);
            if let Ok(j) = skip_scan(t, i + 1, 1) {
                lemma_adaptation_set_scan_strip(t, j, x);
            }
        },
            TokenV::Error => {},
            TokenV::EndDocument => {},
            _ => lemma_adaptation_set_scan_strip(t, i + 1, x),
        }
    }
}

/// The `AdaptationSet` element reads the same without the ignorable tokens.
proof fn lemma_adaptation_set_at_strip(t: Seq<TokenV>, i: int, a: Seq<XmlAttrV>)
    requires
        0 <= i <= t.len(),
    ensures
        adaptation_set_at(strip_ignorable(t), kept_before(t, i), a) == shifted(t, adaptation_set_at(t, i, a)),
{
    reveal(adaptation_set_at);
    if let Ok(x) = adaptation_set_start(a) {
        lemma_adaptation_set_scan_strip(t, i, x);
    }
}

/// Reading on the `Period` element reads the same without the ignorable tokens.
proof fn lemma_period_scan_strip(t: Seq<TokenV>, i: int, x: PeriodV)
    requires
        0 <= i <= t.len(),
    ensures
        period_scan(strip_ignorable(t), kept_before(t, i), x) == shifted(t, period_scan(t, i, x)),
    decreases t.len() - i,
{
    lemma_kept_step(t, i);
    if i < t.len() {
        match t[i] {
            TokenV::End(n) => if n != "Period"@ {
                lemma_period_scan_strip(t, i + 1, x);
            },
            TokenV::Start(n, _, a) => if n == "BaseURL"@ {
            lemma_base_url_at_pos(t, i + 1, a);
            lemma_base_url_at_strip(t, i + 1, a);
            if let Ok((v, j)) = base_url_at(t, i + 1, a) {
                lemma_period_scan_strip(t, j, PeriodV { base_urls: x.base_urls.push(v), ..x });
            }
        } else if n == "SupplementalProperty"@ {
            lemma_skip_scan_pos(t, i + 1, 1);
            lemma_skip_scan_strip(t, i + 1, 1);
            if let Ok(v) = descriptor_start(a) {
                if let Ok(j) = skip_scan(t, i + 1, 1) {
                    lemma_period_scan_strip(t, j, PeriodV { supplemental_properties: x.supplemental_properties.push(v), ..x });
                }
            }
        } else if n == "EssentialProperty"@ {
            lemma_skip_scan_pos(t, i + 1, 1);
            lemma_skip_scan_strip(t, i + 1, 1);
            if let Ok(v) = descriptor_start(a) {
                if let Ok(j) = skip_scan(t, i + 1, 1) {
                    lemma_period_scan_strip(t, j, PeriodV { essential_properties: x.essential_properties.push(v), ..x });
                }
            }
        } else if n == "AssetIdentifier"@ {
            lemma_skip_scan_pos(t, i + 1, 1);
            lemma_skip_scan_strip(t, i + 1, 1);
            if let Ok(v) = descriptor_start(a) {
                if let Ok(j) = skip_scan(t, i + 1, 1) {
                    lemma_period_scan_strip(t, j, PeriodV { asset_identifier: Some(v), ..x });
                }
            }
        } else if n == "EventStream"@ {
            lemma_event_stream_at_pos(t, i + 1, a);
            lemma_event_stream_at_strip(t, i + 1, a);
            if let Ok((v, j)) = event_stream_at(t, i + 1, a) {
                lemma_period_scan_strip(t, j, PeriodV { event_streams: x.event_streams.push(v), ..x });
            }
        } else if n == "Preselection"@ {
            lemma_preselection_at_pos(t, i + 1, a);
            lemma_preselection_at_strip(t, i + 1, a);
            if let Ok((v, j)) = preselection_at(t, i + 1, a) {
                lemma_period_scan_strip(t, j, PeriodV { preselections: x.preselections.push(v), ..x });
            }
        } else if n == "SegmentBase"@ {
            lemma_segment_base_at_pos(t, i + 1, a);
            lemma_segment_base_at_strip(t, i + 1, a);
            if let Ok((v, j)) = segment_base_at(t, i + 1, a) {
                lemma_period_scan_strip(t, j, PeriodV { segment_base: Some(v), ..x });
            }
        } else if n == "SegmentList"@ {
            lemma_segment_list_at_pos(t, i + 1, a);
            lemma_segment_list_at_strip(t, i + 1, a);
            if let Ok((v, j)) = segment_list_at(t, i + 1, a) {
                lemma_period_scan_strip(t, j, PeriodV { segment_list: Some(v), ..x });
            }
        } else if n == "SegmentTemplate"@ {
            lemma_segment_template_at_pos(t, i + 1, a);
            lemma_segment_template_at_strip(t, i + 1, a);
            if let Ok((v, j)) = segment_template_at(t, i + 1, a) {
                lemma_period_scan_strip(t, j, PeriodV { segment_template: Some(v), ..x });
            }
        } else if n == "Subset"@ {
            lemma_skip_scan_pos(t, i + 1, 1);
            lemma_skip_scan_strip(t, i + 1, 1);
            if let Ok(v) = subset_start(a) {
                if let Ok(j) = skip_scan(t, i + 1, 1) {
                    lemma_period_scan_strip(t, j, PeriodV { subsets: x.subsets.push(v), ..x });
                }
            }
        } else if n == "AdaptationSet"@ {
            lemma_adaptation_set_at_pos(t, i + 1, a);
            lemma_adaptation_set_at_strip(t, i + 1, a);
            if let Ok((v, j)) = adaptation_set_at(t, i + 1, a) {
                lemma_period_scan_strip(t, j, PeriodV { adaptation_sets: x.adaptation_sets.push(v), ..x });
            }
        } else {
            lemma_skip_scan_pos(t, i + 1, 1);
            lemma_skip_scan_strip(t, i + 1, 1);
            if let Ok(j) = skip_scan(t, i + 1, 1) {
                lemma_period_scan_strip(t, j, x);
            }
        },
            TokenV::Error => {},
            TokenV::EndDocument => {},
            _ => lemma_period_scan_strip(t, i + 1, x),
        }
    }
}

/// The `Period` element reads the same without the ignorable tokens.
proof fn lemma_period_at_strip(t: Seq<TokenV>, i: int, a: Seq<XmlAttrV>)
    requires
        0 <= i <= t.len(),
    ensures
        period_at(strip_ignorable(t), kept_before(t, i), a) == shifted(t, period_at(t, i, a)),
{
    reveal(period_at);
    if let Ok(x) = period_start(a) {
        lemma_period_scan_strip(t, i, x);
    }
}

/// Reading on the `Metrics` element reads the same without the ignorable tokens.
proof fn lemma_metrics_scan_strip(t: Seq<TokenV>, i: int, x: MetricsV)
    requires
        0 <= i <= t.len(),
    ensures
        metrics_scan(strip_ignorable(t), kept_before(t, i), x) == shifted(t, metrics_scan(t, i, x)),
    decreases t.len() - i,
{
    lemma_kept_step(t, i);
    if i < t.len() {
        match t[i] {
            TokenV::End(n) => if n != "Metrics"@ {
                lemma_metrics_scan_strip(t, i + 1, x);
            },
            TokenV::Start(n, _, a) => if n == "Reporting"@ {
            lemma_skip_scan_pos(t, i + 1, 1);
            lemma_skip_scan_strip(t, i + 1, 1);
            if let Ok(v) = descriptor_start(a) {
                if let Ok(j) = skip_scan(t, i + 1, 1) {
                    lemma_metrics_scan_strip(t, j, MetricsV { reportings: x.reportings.push(v), ..x });
                }
            }
        } else if n == "Range"@ {
            lemma_skip_scan_pos(t, i + 1, 1);
            lemma_skip_scan_strip(t, i + 1, 1);
            if let Ok(v) = metrics_range_start(a) {
                if let Ok(j) = skip_scan(t, i + 1, 1) {
                    lemma_metrics_scan_strip(t, j, MetricsV { ranges: x.ranges.push(v), ..x });
                }
            }
        } else {
            lemma_skip_scan_pos(t, i + 1, 1);
            lemma_skip_scan_strip(t, i + 1, 1);
            if let Ok(j) = skip_scan(t, i + 1, 1) {
                lemma_metrics_scan_strip(t, j, x);
            }
        },
            TokenV::Error => {},
            TokenV::EndDocument => {},
            _ => lemma_metrics_scan_strip(t, i + 1, x),
        }
    }
}

/// The `Metrics` element reads the same without the ignorable tokens.
proof fn lemma_metrics_at_strip(t: Seq<TokenV>, i: int, a: Seq<XmlAttrV>)
    requires
        0 <= i <= t.len(),
    ensures
        metrics_at(strip_ignorable(t), kept_before(t, i), a) == shifted(t, metrics_at(t, i, a)),
{
    reveal(metrics_at);
    if let Ok(x) = metrics_start(a) {
        lemma_metrics_scan_strip(t, i, x);
    }
}

/// Reading on the `MPD` element reads the same without the ignorable tokens.
proof fn lemma_mpd_scan_strip(t: Seq<TokenV>, i: int, x: MpdV)
    requires
        0 <= i <= t.len(),
    ensures
        mpd_scan(strip_ignorable(t), kept_before(t, i), x) == shifted(t, mpd_scan(t, i, x)),
    decreases t.len() - i,
{
    lemma_kept_step(t, i);
    if i < t.len() {
        match t[i] {
            TokenV::End(n) => if n != "MPD"@ {
                lemma_mpd_scan_strip(t, i + 1, x);
            },
            TokenV::Start(n, _, a) => if n == "BaseURL"@ {
            lemma_base_url_at_pos(t, i + 1, a);
            lemma_base_url_at_strip(t, i + 1, a);
            if let Ok((v, j)) = base_url_at(t, i + 1, a) {
                lemma_mpd_scan_strip(t, j, MpdV { base_urls: x.base_urls.push(v), ..x });
            }
        } else if n == "UTCTiming"@ {
            lemma_skip_scan_pos(t, i + 1, 1);
            lemma_skip_scan_strip(t, i + 1, 1);
            if let Ok(v) = utc_timing_start(a) {
                if let Ok(j) = skip_scan(t, i + 1, 1) {
                    lemma_mpd_scan_strip(t, j, MpdV { utc_timings: x.utc_timings.push(v), ..x });
                }
            }
        } else if n == "Location"@ {
            lemma_location_at_pos(t, i + 1, a);
            lemma_location_at_strip(t, i + 1, a);
            if let Ok((v, j)) = location_at(t, i + 1, a) {
                lemma_mpd_scan_strip(t, j, MpdV { locations: x.locations.push(v), ..x });
            }
        } else if n == "PatchLocation"@ {
            lemma_patch_location_at_pos(t, i + 1, a);
            lemma_patch_location_at_strip(t, i + 1, a);
            if let Ok((v, j)) = patch_location_at(t, i + 1, a) {
                lemma_mpd_scan_strip(t, j, MpdV { patch_locations: x.patch_locations.push(v), ..x });
            }
        } else if n == "ServiceDescription"@ {
            lemma_service_description_at_pos(t, i + 1, a);
            lemma_service_description_at_strip(t, i + 1, a);
            if let Ok((v, j)) = service_description_at(t, i + 1, a) {
                lemma_mpd_scan_strip(t, j, MpdV { service_descriptions: x.service_descriptions.push(v), ..x });
            }
        } else if n == "ContentSteering"@ {
            lemma_content_steering_at_pos(t, i + 1, a);
            lemma_content_steering_at_strip(t, i + 1, a);
            if let Ok((v, j)) = content_steering_at(t, i + 1, a) {
                lemma_mpd_scan_strip(t, j, MpdV { content_steering: Some(v), ..x });
            }
        } else if n == "EssentialProperty"@ {
            lemma_skip_scan_pos(t, i + 1, 1);
            lemma_skip_scan_strip(t, i + 1, 1);
            if let Ok(v) = descriptor_start(a) {
                if let Ok(j) = skip_scan(t, i + 1, 1) {
                    lemma_mpd_scan_strip(t, j, MpdV { essential_properties: x.essential_properties.push(v), ..x });
                }
            }
        } else if n == "SupplementalProperty"@ {
            lemma_skip_scan_pos(t, i + 1, 1);
            lemma_skip_scan_strip(t, i + 1, 1);
            if let Ok(v) = descriptor_start(a) {
                if let Ok(j) = skip_scan(t, i + 1, 1) {
                    lemma_mpd_scan_strip(t, j, MpdV { supplemental_properties: x.supplemental_properties.push(v), ..x });
                }
            }
        } else if n == "Metrics"@ {
            lemma_metrics_at_pos(t, i + 1, a);
            lemma_metrics_at_strip(t, i + 1, a);
            if let Ok((v, j)) = metrics_at(t, i + 1, a) {
                lemma_mpd_scan_strip(t, j, MpdV { metrics: x.metrics.push(v), ..x });
            }
        } else if n == "Period"@ {
            lemma_period_at_pos(t, i + 1, a);
            lemma_period_at_strip(t, i + 1, a);
            if let Ok((v, j)) = period_at(t, i + 1, a) {
                lemma_mpd_scan_strip(t, j, MpdV { periods: x.periods.push(v), ..x });
            }
        } else {
            lemma_skip_scan_pos(t, i + 1, 1);
            lemma_skip_scan_strip(t, i + 1, 1);
            if let Ok(j) = skip_scan(t, i + 1, 1) {
                lemma_mpd_scan_strip(t, j, x);
            }
        },
            TokenV::Error => {},
            TokenV::EndDocument => {},
            _ => lemma_mpd_scan_strip(t, i + 1, x),
        }
    }
}

/// The `MPD` element reads the same without the ignorable tokens.
proof fn lemma_mpd_at_strip(t: Seq<TokenV>, i: int, a: Seq<XmlAttrV>)
    requires
        0 <= i <= t.len(),
    ensures
        mpd_at(strip_ignorable(t), kept_before(t, i), a) == shifted(t, mpd_at(t, i, a)),
{
    reveal(mpd_at);
    if let Ok(x) = mpd_start(a) {
        lemma_mpd_scan_strip(t, i, x);
    }
}

/// The `Event` element reads the same without the ignorable tokens.
proof fn lemma_event_at_strip(t: Seq<TokenV>, i: int, a: Seq<XmlAttrV>)
    requires
        0 <= i <= t.len(),
    ensures
        event_at(strip_ignorable(t), kept_before(t, i), a) == shifted(t, event_at(t, i, a)),
{
    reveal(event_at);
    lemma_event_body_scan_strip(t, i, seq![], None);
}

/// Tokens that no reader of this library uses change nothing of the MPD that
/// the reader reads: it reads the same from `t` as from `t` without them.
pub proof fn law_ignorable_tokens_change_nothing(t: Seq<TokenV>)
    ensures
        mpd_of_tokens(strip_ignorable(t)) == mpd_of_tokens(t),
{
    lemma_find_mpd_root_strip(t, 0);
    assert(t.take(0) =~= Seq::<TokenV>::empty());
    if let Ok((a, i)) = find_mpd_root(t, 0) {
        lemma_mpd_at_strip(t, i, a);
    }
}

/// Reading back what was read and written: when the reader reads some
/// tokens `t0` into the MPD `m`, any tokens `t` that, but for those that no
/// reader of this library uses, are the tokens that a reader reports for the
/// events that the writer writes for `m` followed by the end of the document,
/// are read into `m` again.
pub proof fn law_read_written_read_back(t0: Seq<TokenV>, t: Seq<TokenV>, m: Mpd)
    requires
        mpd_of_tokens(t0) == Ok::<MpdV, ErrorKind>(m@),
        strip_ignorable(t) == events_tokens(mpd_events(m), seq![]) + seq![TokenV::EndDocument],
    ensures
        mpd_of_tokens(t) == Ok::<MpdV, ErrorKind>(m@),
{
    law_ignorable_tokens_change_nothing(t);
    law_read_mpd_written_and_read_back(t0, m);
}

} // verus!
