//! Reading an MPD from the tokens of the XML reader: each element becomes
//! its value, child elements are read in document order, and elements that
//! the library does not know are skipped whole.
use vstd::prelude::*;

use crate::dom::opt_view;
use crate::duration::{check_duration, duration_message, duration_ok};
use crate::error::{result_is, Error, ErrorKind};
use crate::model::{views, lemma_views_push};
use crate::patch_reader::{attrs_v, finished, lemma_skip_scan_pos, skip_dom_element, skip_is, skip_scan};
use crate::types::{
    AdaptationSet, BaseUrl, CertUrl, ClientDataReporting, CmcdParameters, ContentComponent,
    ContentProtection, ContentSteering, ContentType, Descriptor, Event, EventStream, Label, Latency,
    Location, Metrics, MetricsRange, Mpd, OperatingBandwidth, OperatingQuality, PatchLocation,
    Period, PlaybackRate, Preselection, PresentationType, ProducerReferenceTime, Representation,
    SegmentBase, SegmentList, SegmentSequenceProperties, SegmentTemplate, SegmentUrl,
    ServiceDescription, SubRepresentation, Subset, TimelineEntry, UtcTiming,
};
use crate::model::{
    AdaptationSetV, BaseUrlV, CertUrlV, ClientDataReportingV, CmcdParametersV, ContentComponentV,
    ContentProtectionV, ContentSteeringV, DescriptorV, EventStreamV, EventV, LabelV, LatencyV,
    LocationV, MetricsRangeV, MetricsV, MpdV, OperatingBandwidthV, OperatingQualityV,
    PatchLocationV, PeriodV, PlaybackRateV, PreselectionV, ProducerReferenceTimeV,
    RepresentationV, SegmentBaseV, SegmentListV, SegmentSequencePropertiesV, SegmentTemplateV,
    SegmentUrlV, ServiceDescriptionV, SubRepresentationV, SubsetV, UtcTimingV,
};
use crate::text::{
    chars_of, i64_of, parse_i64, parse_u32, parse_u64, push_all, string_of, text_is, trim, u32_of,
    u64_of,
};
use crate::xml_io::{read_xml, tokens_view, xml_tokens, TokenV, XmlAttr, XmlAttrV, XmlToken};

verus! {

/// The value of the first attribute of `a` whose local name is `name`,
/// whatever its prefix.
pub open spec fn first_attr(a: Seq<XmlAttrV>, name: Seq<char>) -> Option<Seq<char>>
    decreases a.len(),
{
    if a.len() == 0 {
        None
    } else if a[0].local_name == name {
        Some(a[0].value)
    } else {
        first_attr(a.drop_first(), name)
    }
}

/// The value of the first attribute of `a` named `xlink:name`.
pub open spec fn first_xlink_attr(a: Seq<XmlAttrV>, name: Seq<char>) -> Option<Seq<char>>
    decreases a.len(),
{
    if a.len() == 0 {
        None
    } else if a[0].local_name == name && a[0].prefix == Some("xlink"@) {
        Some(a[0].value)
    } else {
        first_xlink_attr(a.drop_first(), name)
    }
}

/// The message that the reader gives an error of each kind: a missing or
/// invalid attribute and a missing root element each have a fixed text, and a
/// refused duration the message of `check_duration` for its text. An error of
/// the XML reader keeps the text that the reader gave, which nothing states.
pub open spec fn reader_message_ok(e: Error) -> bool {
    let k = e.spec_kind();
    let m = e.spec_message();
    if k == (ErrorKind::MissingAttribute { element: "Representation", attribute: "id" }) {
        m == "attribute 'id' is required on <Representation>"@
    } else if k == (ErrorKind::MissingAttribute { element: "Representation", attribute: "bandwidth" }) {
        m == "attribute 'bandwidth' is required on <Representation>"@
    } else if k == (ErrorKind::InvalidAttributeValue { attribute: "bandwidth" }) {
        m == "bandwidth must be a positive integer"@
    } else if k == (ErrorKind::MissingElement { parent: "document", element: "MPD" }) {
        m == "MPD root element not found"@
    } else if k == ErrorKind::InvalidDuration {
        exists|v: Seq<char>| m == #[trigger] duration_message(v)
    } else {
        k == ErrorKind::Xml
    }
}

pub open spec fn str_or_empty(o: Option<Seq<char>>) -> Seq<char> {
    match o {
        Some(s) => s,
        None => seq![],
    }
}

pub open spec fn opt_u32(o: Option<Seq<char>>) -> Option<u32> {
    match o {
        Some(v) => u32_of(v),
        None => None,
    }
}

pub open spec fn opt_u64(o: Option<Seq<char>>) -> Option<u64> {
    match o {
        Some(v) => u64_of(v),
        None => None,
    }
}

pub open spec fn u32_or(o: Option<Seq<char>>, d: u32) -> u32 {
    match opt_u32(o) {
        Some(n) => n,
        None => d,
    }
}

pub open spec fn u64_or(o: Option<Seq<char>>, d: u64) -> u64 {
    match opt_u64(o) {
        Some(n) => n,
        None => d,
    }
}

pub open spec fn i64_or(o: Option<Seq<char>>, d: i64) -> i64 {
    match o {
        Some(v) => match i64_of(v) {
            Some(n) => n,
            None => d,
        },
        None => d,
    }
}

/// A boolean attribute: present, it holds when its value is `true`.
pub open spec fn opt_bool(o: Option<Seq<char>>) -> Option<bool> {
    match o {
        Some(v) => Some(v == "true"@),
        None => None,
    }
}

pub open spec fn bool_or_false(o: Option<Seq<char>>) -> bool {
    o matches Some(v) && v == "true"@
}

/// A duration attribute: absent, or a valid duration, or an error.
pub open spec fn dur_attr(o: Option<Seq<char>>) -> Result<Option<Seq<char>>, ErrorKind> {
    match o {
        Some(v) => if duration_ok(v) {
            Ok(Some(v))
        } else {
            Err(ErrorKind::InvalidDuration)
        },
        None => Ok(None),
    }
}

pub open spec fn content_type_of(o: Option<Seq<char>>) -> Option<ContentType> {
    match o {
        Some(v) => if v == "video"@ {
            Some(ContentType::Video)
        } else if v == "audio"@ {
            Some(ContentType::Audio)
        } else if v == "text"@ {
            Some(ContentType::Text)
        } else if v == "image"@ {
            Some(ContentType::Image)
        } else if v == "muxed"@ {
            Some(ContentType::Muxed)
        } else {
            None
        },
        None => None,
    }
}

pub open spec fn presentation_type_of(o: Option<Seq<char>>) -> PresentationType {
    if o == Some("dynamic"@) {
        PresentationType::Dynamic
    } else {
        PresentationType::Static
    }
}

/// The text content of an element named `name`, read from `t[i..]` after
/// the text `acc`: character data up to its end tag, trimmed, none when
/// empty; the end of the document or an error ends it with none.
pub open spec fn text_scan(t: Seq<TokenV>, i: int, name: Seq<char>, acc: Seq<char>) -> (Option<Seq<char>>, int)
    decreases t.len() - i,
{
    if i < 0 || i >= t.len() {
        (None, i)
    } else {
        match t[i] {
            TokenV::Characters(s) => text_scan(t, i + 1, name, acc + s),
            TokenV::CData(s) => text_scan(t, i + 1, name, acc + s),
            TokenV::End(n) => if n == name {
                (finished(acc, true), i + 1)
            } else {
                text_scan(t, i + 1, name, acc)
            },
            TokenV::EndDocument => (None, i),
            TokenV::Error => (None, i + 1),
            _ => text_scan(t, i + 1, name, acc),
        }
    }
}

pub proof fn lemma_text_scan_pos(t: Seq<TokenV>, i: int, name: Seq<char>, acc: Seq<char>)
    requires
        0 <= i <= t.len(),
    ensures
        i <= text_scan(t, i, name, acc).1 <= t.len(),
    decreases t.len() - i,
{
    if i < t.len() {
        match t[i] {
            TokenV::Characters(s) => lemma_text_scan_pos(t, i + 1, name, acc + s),
            TokenV::CData(s) => lemma_text_scan_pos(t, i + 1, name, acc + s),
            TokenV::End(n) => if n != name {
                lemma_text_scan_pos(t, i + 1, name, acc);
            },
            TokenV::EndDocument => {},
            TokenV::Error => {},
            _ => lemma_text_scan_pos(t, i + 1, name, acc),
        }
    }
}

/// Where the reading goes on after the rest of an element, `depth` elements
/// being open, when an error is passed over rather than reported.
pub open spec fn skip_pos(t: Seq<TokenV>, i: int, depth: nat) -> int
    decreases t.len() - i,
{
    if i < 0 || i >= t.len() {
        i
    } else {
        match t[i] {
            TokenV::Error => i + 1,
            TokenV::Start(..) => skip_pos(t, i + 1, depth + 1),
            TokenV::End(_) => if depth <= 1 {
                i + 1
            } else {
                skip_pos(t, i + 1, (depth - 1) as nat)
            },
            TokenV::EndDocument => i,
            _ => skip_pos(t, i + 1, depth),
        }
    }
}

pub proof fn lemma_skip_pos(t: Seq<TokenV>, i: int, depth: nat)
    requires
        0 <= i <= t.len(),
    ensures
        i <= skip_pos(t, i, depth) <= t.len(),
    decreases t.len() - i,
{
    if i < t.len() {
        match t[i] {
            TokenV::Start(..) => lemma_skip_pos(t, i + 1, depth + 1),
            TokenV::End(_) => if depth > 1 {
                lemma_skip_pos(t, i + 1, (depth - 1) as nat);
            },
            TokenV::Error => {},
            TokenV::EndDocument => {},
            _ => lemma_skip_pos(t, i + 1, depth),
        }
    }
}

/// An `S` element of a segment timeline, from its attributes.
pub open spec fn timeline_entry_of(a: Seq<XmlAttrV>) -> TimelineEntry {
    TimelineEntry {
        t: opt_u64(first_attr(a, "t"@)),
        d: u64_or(first_attr(a, "d"@), 0),
        r: i64_or(first_attr(a, "r"@), 0),
        k: opt_u64(first_attr(a, "k"@)),
    }
}

/// The entries of a `SegmentTimeline` read from `t[i..]` after `es`: each
/// `S` start tag gives one; the end tag of the timeline, the end of the
/// document or an error ends them.
pub open spec fn timeline_scan(t: Seq<TokenV>, i: int, es: Seq<TimelineEntry>) -> (Seq<TimelineEntry>, int)
    decreases t.len() - i,
{
    if i < 0 || i >= t.len() {
        (es, i)
    } else {
        match t[i] {
            TokenV::Error => (es, i + 1),
            TokenV::EndDocument => (es, i),
            TokenV::Start(n, _, a) => if n == "S"@ {
                proof {
                    lemma_skip_pos(t, i + 1, 1);
                }
                timeline_scan(t, skip_pos(t, i + 1, 1), es.push(timeline_entry_of(a)))
            } else {
                timeline_scan(t, i + 1, es)
            },
            TokenV::End(n) => if n == "SegmentTimeline"@ {
                (es, i + 1)
            } else {
                timeline_scan(t, i + 1, es)
            },
            _ => timeline_scan(t, i + 1, es),
        }
    }
}

pub proof fn lemma_timeline_scan_pos(t: Seq<TokenV>, i: int, es: Seq<TimelineEntry>)
    requires
        0 <= i <= t.len(),
    ensures
        i <= timeline_scan(t, i, es).1 <= t.len(),
    decreases t.len() - i,
{
    if i < t.len() {
        match t[i] {
            TokenV::Start(n, _, a) => if n == "S"@ {
                lemma_skip_pos(t, i + 1, 1);
                lemma_timeline_scan_pos(t, skip_pos(t, i + 1, 1), es.push(timeline_entry_of(a)));
            } else {
                lemma_timeline_scan_pos(t, i + 1, es);
            },
            TokenV::End(n) => if n != "SegmentTimeline"@ {
                lemma_timeline_scan_pos(t, i + 1, es);
            },
            TokenV::Error => {},
            TokenV::EndDocument => {},
            _ => lemma_timeline_scan_pos(t, i + 1, es),
        }
    }
}

/// The `Binary` text of a `Signal` element read from `t[i..]`, `bin` being
/// the one read so far.
pub open spec fn signal_scan(t: Seq<TokenV>, i: int, bin: Option<Seq<char>>) -> Result<(Option<Seq<char>>, int), ErrorKind>
    decreases t.len() - i,
{
    if i < 0 || i > t.len() {
        Err(ErrorKind::Xml)
    } else if i == t.len() {
        Ok((bin, i))
    } else {
        match t[i] {
            TokenV::Error => Err(ErrorKind::Xml),
            TokenV::EndDocument => Ok((bin, i)),
            TokenV::Start(n, _, _) => if n == "Binary"@ {
                proof {
                    lemma_text_scan_pos(t, i + 1, n, seq![]);
                }
                let (b, j) = text_scan(t, i + 1, n, seq![]);
                signal_scan(t, j, b)
            } else {
                proof {
                    lemma_skip_scan_pos(t, i + 1, 1);
                }
                match skip_scan(t, i + 1, 1) {
                    Ok(j) => signal_scan(t, j, bin),
                    Err(k) => Err(k),
                }
            },
            TokenV::End(n) => if n == "Signal"@ {
                Ok((bin, i + 1))
            } else {
                signal_scan(t, i + 1, bin)
            },
            _ => signal_scan(t, i + 1, bin),
        }
    }
}

pub proof fn lemma_signal_scan_pos(t: Seq<TokenV>, i: int, bin: Option<Seq<char>>)
    ensures
        signal_scan(t, i, bin) matches Ok((_, j)) ==> i <= j <= t.len(),
    decreases t.len() - i,
{
    if 0 <= i < t.len() {
        match t[i] {
            TokenV::Start(n, _, _) => if n == "Binary"@ {
                lemma_text_scan_pos(t, i + 1, n, seq![]);
                let (b, j) = text_scan(t, i + 1, n, seq![]);
                lemma_signal_scan_pos(t, j, b);
            } else {
                lemma_skip_scan_pos(t, i + 1, 1);
                if let Ok(j) = skip_scan(t, i + 1, 1) {
                    lemma_signal_scan_pos(t, j, bin);
                }
            },
            TokenV::End(n) => if n != "Signal"@ {
                lemma_signal_scan_pos(t, i + 1, bin);
            },
            TokenV::Error => {},
            TokenV::EndDocument => {},
            _ => lemma_signal_scan_pos(t, i + 1, bin),
        }
    }
}

/// The text and the signal of an `Event` read from `t[i..]`, after the text
/// `text` and the signal `sig`: character data that is not only white space
/// is text; a `Signal` element gives the signal.
pub open spec fn event_body_scan(
    t: Seq<TokenV>,
    i: int,
    text: Seq<char>,
    sig: Option<Seq<char>>,
) -> Result<((Option<Seq<char>>, Option<Seq<char>>), int), ErrorKind>
    decreases t.len() - i,
{
    if i < 0 || i > t.len() {
        Err(ErrorKind::Xml)
    } else if i == t.len() {
        Ok(((finished(text, true), sig), i))
    } else {
        match t[i] {
            TokenV::Error => Err(ErrorKind::Xml),
            TokenV::EndDocument => Ok(((finished(text, true), sig), i)),
            TokenV::Characters(s) => if trim(s).len() == 0 {
                event_body_scan(t, i + 1, text, sig)
            } else {
                event_body_scan(t, i + 1, text + s, sig)
            },
            TokenV::CData(s) => event_body_scan(t, i + 1, text + s, sig),
            TokenV::Start(n, _, _) => if n == "Signal"@ {
                proof {
                    lemma_signal_scan_pos(t, i + 1, None);
                }
                match signal_scan(t, i + 1, None) {
                    Ok((b, j)) => event_body_scan(t, j, text, b),
                    Err(k) => Err(k),
                }
            } else {
                proof {
                    lemma_skip_scan_pos(t, i + 1, 1);
                }
                match skip_scan(t, i + 1, 1) {
                    Ok(j) => event_body_scan(t, j, text, sig),
                    Err(k) => Err(k),
                }
            },
            TokenV::End(n) => if n == "Event"@ {
                Ok(((finished(text, true), sig), i + 1))
            } else {
                event_body_scan(t, i + 1, text, sig)
            },
            _ => event_body_scan(t, i + 1, text, sig),
        }
    }
}

pub proof fn lemma_event_body_scan_pos(t: Seq<TokenV>, i: int, text: Seq<char>, sig: Option<Seq<char>>)
    ensures
        event_body_scan(t, i, text, sig) matches Ok((_, j)) ==> i <= j <= t.len(),
    decreases t.len() - i,
{
    if 0 <= i < t.len() {
        match t[i] {
            TokenV::Characters(s) => if trim(s).len() == 0 {
                lemma_event_body_scan_pos(t, i + 1, text, sig);
            } else {
                lemma_event_body_scan_pos(t, i + 1, text + s, sig);
            },
            TokenV::CData(s) => lemma_event_body_scan_pos(t, i + 1, text + s, sig),
            TokenV::Start(n, _, _) => if n == "Signal"@ {
                lemma_signal_scan_pos(t, i + 1, None);
                if let Ok((b, j)) = signal_scan(t, i + 1, None) {
                    lemma_event_body_scan_pos(t, j, text, b);
                }
            } else {
                lemma_skip_scan_pos(t, i + 1, 1);
                if let Ok(j) = skip_scan(t, i + 1, 1) {
                    lemma_event_body_scan_pos(t, j, text, sig);
                }
            },
            TokenV::End(n) => if n != "Event"@ {
                lemma_event_body_scan_pos(t, i + 1, text, sig);
            },
            TokenV::Error => {},
            TokenV::EndDocument => {},
            _ => lemma_event_body_scan_pos(t, i + 1, text, sig),
        }
    }
}

/// `r` is what `s` describes: the value seen through its view and the
/// same position, or an error of the same kind.
pub open spec fn parsed_is<T: View>(r: Result<(T, usize), Error>, s: Result<(T::V, int), ErrorKind>) -> bool {
    match (r, s) {
        (Ok((x, j)), Ok((v, k))) => x@ == v && j == k,
        (Err(e), Err(k)) => e.spec_kind() == k,
        _ => false,
    }
}

/// The value of the first attribute of `a` whose local name is `name`.
pub fn get_attr(a: &Vec<XmlAttr>, name: &str) -> (r: Option<String>)
    ensures
        opt_view(r) == first_attr(attrs_v(a@), name@),
{
    let ghost av = attrs_v(a@);
    let mut k: usize = 0;
    assert(av.skip(0) =~= av);
    while k < a.len()
        invariant
            k <= a@.len(),
            av == attrs_v(a@),
            first_attr(av.skip(k as int), name@) == first_attr(av, name@),
        decreases a.len() - k,
    {
        assert(av.skip(k as int).drop_first() =~= av.skip(k + 1));
        assert(av.skip(k as int)[0] == a@[k as int]@);
        if text_is(a[k].local_name.as_str(), name) {
            return Some(a[k].value.clone());
        }
        k = k + 1;
    }
    None
}

/// The value of the first attribute of `a` named `xlink:name`.
fn get_xlink_attr(a: &Vec<XmlAttr>, name: &str) -> (r: Option<String>)
    ensures
        opt_view(r) == first_xlink_attr(attrs_v(a@), name@),
{
    let ghost av = attrs_v(a@);
    let mut k: usize = 0;
    assert(av.skip(0) =~= av);
    while k < a.len()
        invariant
            k <= a@.len(),
            av == attrs_v(a@),
            first_xlink_attr(av.skip(k as int), name@) == first_xlink_attr(av, name@),
        decreases a.len() - k,
    {
        assert(av.skip(k as int).drop_first() =~= av.skip(k + 1));
        assert(av.skip(k as int)[0] == a@[k as int]@);
        let is_xlink = match &a[k].prefix {
            Some(p) => text_is(p.as_str(), "xlink"),
            None => false,
        };
        if text_is(a[k].local_name.as_str(), name) && is_xlink {
            return Some(a[k].value.clone());
        }
        k = k + 1;
    }
    None
}

fn attr_or_empty(a: &Vec<XmlAttr>, name: &str) -> (r: String)
    ensures
        r@ == str_or_empty(first_attr(attrs_v(a@), name@)),
{
    match get_attr(a, name) {
        Some(v) => v,
        None => String::new(),
    }
}

fn attr_u32(a: &Vec<XmlAttr>, name: &str) -> (r: Option<u32>)
    ensures
        r == opt_u32(first_attr(attrs_v(a@), name@)),
{
    match get_attr(a, name) {
        Some(v) => parse_u32(v.as_str()),
        None => None,
    }
}

fn attr_u64(a: &Vec<XmlAttr>, name: &str) -> (r: Option<u64>)
    ensures
        r == opt_u64(first_attr(attrs_v(a@), name@)),
{
    match get_attr(a, name) {
        Some(v) => parse_u64(v.as_str()),
        None => None,
    }
}

fn attr_u32_or(a: &Vec<XmlAttr>, name: &str, d: u32) -> (r: u32)
    ensures
        r == u32_or(first_attr(attrs_v(a@), name@), d),
{
    match attr_u32(a, name) {
        Some(n) => n,
        None => d,
    }
}

fn attr_u64_or(a: &Vec<XmlAttr>, name: &str, d: u64) -> (r: u64)
    ensures
        r == u64_or(first_attr(attrs_v(a@), name@), d),
{
    match attr_u64(a, name) {
        Some(n) => n,
        None => d,
    }
}

fn attr_i64_or(a: &Vec<XmlAttr>, name: &str, d: i64) -> (r: i64)
    ensures
        r == i64_or(first_attr(attrs_v(a@), name@), d),
{
    match get_attr(a, name) {
        Some(v) => match parse_i64(v.as_str()) {
            Some(n) => n,
            None => d,
        },
        None => d,
    }
}

fn attr_bool(a: &Vec<XmlAttr>, name: &str) -> (r: Option<bool>)
    ensures
        r == opt_bool(first_attr(attrs_v(a@), name@)),
{
    match get_attr(a, name) {
        Some(v) => Some(text_is(v.as_str(), "true")),
        None => None,
    }
}

fn attr_bool_or_false(a: &Vec<XmlAttr>, name: &str) -> (r: bool)
    ensures
        r == bool_or_false(first_attr(attrs_v(a@), name@)),
{
    match get_attr(a, name) {
        Some(v) => text_is(v.as_str(), "true"),
        None => false,
    }
}

pub open spec fn opt_str_result_is(r: Result<Option<String>, Error>, s: Result<Option<Seq<char>>, ErrorKind>) -> bool {
    match (r, s) {
        (Ok(v), Ok(w)) => opt_view(v) == w,
        (Err(e), Err(k)) => e.spec_kind() == k,
        _ => false,
    }
}

/// A duration attribute, checked.
fn attr_duration(a: &Vec<XmlAttr>, name: &str) -> (r: Result<Option<String>, Error>)
    ensures
        r matches Err(e) ==> reader_message_ok(e),
        opt_str_result_is(r, dur_attr(first_attr(attrs_v(a@), name@))),
{
    match get_attr(a, name) {
        Some(v) => match check_duration(v.as_str()) {
            Ok(()) => Ok(Some(v)),
            Err(e) => Err(e),
        },
        None => Ok(None),
    }
}

fn attr_content_type(a: &Vec<XmlAttr>, name: &str) -> (r: Option<ContentType>)
    ensures
        r == content_type_of(first_attr(attrs_v(a@), name@)),
{
    match get_attr(a, name) {
        Some(v) => if text_is(v.as_str(), "video") {
            Some(ContentType::Video)
        } else if text_is(v.as_str(), "audio") {
            Some(ContentType::Audio)
        } else if text_is(v.as_str(), "text") {
            Some(ContentType::Text)
        } else if text_is(v.as_str(), "image") {
            Some(ContentType::Image)
        } else if text_is(v.as_str(), "muxed") {
            Some(ContentType::Muxed)
        } else {
            None
        },
        None => None,
    }
}

fn attr_presentation_type(a: &Vec<XmlAttr>, name: &str) -> (r: PresentationType)
    ensures
        r == presentation_type_of(first_attr(attrs_v(a@), name@)),
{
    match get_attr(a, name) {
        Some(v) => if text_is(v.as_str(), "dynamic") {
            PresentationType::Dynamic
        } else {
            PresentationType::Static
        },
        None => PresentationType::Static,
    }
}

/// Reads the text content of an element named `name` whose start tag was
/// `t[start - 1]`; returns it with where the reading goes on.
fn read_text_content(t: &Vec<XmlToken>, start: usize, name: &str) -> (r: (Option<String>, usize))
    requires
        start <= t.len(),
    ensures
        (opt_view(r.0), r.1 as int) == text_scan(tokens_view(t@), start as int, name@, seq![]),
{
    let ghost tv = tokens_view(t@);
    let mut acc: Vec<char> = Vec::new();
    let mut i = start;
    while i < t.len()
        invariant
            start <= i <= t@.len(),
            tv == tokens_view(t@),
            text_scan(tv, i as int, name@, acc@) == text_scan(tv, start as int, name@, seq![]),
        decreases t@.len() - i,
    {
        assert(tv[i as int] == t@[i as int]@);
        match &t[i] {
            XmlToken::Characters(s) | XmlToken::CData(s) => {
                let c = chars_of(s.as_str());
                push_all(&mut acc, &c);
            },
            XmlToken::End(n) => {
                if text_is(n.as_str(), name) {
                    let text = trimmed_text(&acc);
                    return (text, i + 1);
                }
            },
            XmlToken::EndDocument => {
                return (None, i);
            },
            XmlToken::Error(_) => {
                return (None, i + 1);
            },
            _ => {},
        }
        i = i + 1;
    }
    (None, i)
}

/// `v` trimmed, or none when that leaves nothing.
fn trimmed_text(v: &Vec<char>) -> (r: Option<String>)
    ensures
        opt_view(r) == finished(v@, true),
{
    let (a, b) = crate::text::trim_range(v, 0, v.len());
    assert(v@.subrange(0, v@.len() as int) =~= v@);
    if a == b {
        None
    } else {
        Some(crate::text::string_of_range(v, a, b))
    }
}

/// Skips the rest of an element whose start tag was `t[start - 1]`, passing
/// over an error; returns where the reading goes on.
fn skip_element_lenient(t: &Vec<XmlToken>, start: usize) -> (r: usize)
    requires
        1 <= start <= t.len(),
    ensures
        r as int == skip_pos(tokens_view(t@), start as int, 1),
{
    let ghost tv = tokens_view(t@);
    let mut depth: usize = 1;
    let mut i = start;
    while i < t.len()
        invariant
            start <= i <= t@.len(),
            1 <= depth <= i,
            tv == tokens_view(t@),
            skip_pos(tv, i as int, depth as nat) == skip_pos(tv, start as int, 1),
        decreases t@.len() - i,
    {
        assert(tv[i as int] == t@[i as int]@);
        match &t[i] {
            XmlToken::Error(_) => {
                return i + 1;
            },
            XmlToken::Start(..) => {
                depth = depth + 1;
            },
            XmlToken::End(_) => {
                if depth == 1 {
                    return i + 1;
                }
                depth = depth - 1;
            },
            XmlToken::EndDocument => {
                return i;
            },
            _ => {},
        }
        i = i + 1;
    }
    i
}

/// Reads the attributes of an `S` element.
fn read_timeline_entry(a: &Vec<XmlAttr>) -> (r: TimelineEntry)
    ensures
        r == timeline_entry_of(attrs_v(a@)),
{
    TimelineEntry {
        t: attr_u64(a, "t"),
        d: attr_u64_or(a, "d", 0),
        r: attr_i64_or(a, "r", 0),
        k: attr_u64(a, "k"),
    }
}

/// Reads the entries of a `SegmentTimeline` whose start tag was
/// `t[start - 1]`; returns them with where the reading goes on.
fn parse_segment_timeline(t: &Vec<XmlToken>, start: usize) -> (r: (Vec<TimelineEntry>, usize))
    requires
        start <= t.len(),
    ensures
        (r.0@, r.1 as int) == timeline_scan(tokens_view(t@), start as int, seq![]),
{
    let ghost tv = tokens_view(t@);
    let mut es: Vec<TimelineEntry> = Vec::new();
    let mut i = start;
    while i < t.len()
        invariant
            start <= i <= t@.len(),
            tv == tokens_view(t@),
            timeline_scan(tv, i as int, es@) == timeline_scan(tv, start as int, seq![]),
        decreases t@.len() - i,
    {
        assert(tv[i as int] == t@[i as int]@);
        match &t[i] {
            XmlToken::Error(_) => {
                return (es, i + 1);
            },
            XmlToken::EndDocument => {
                return (es, i);
            },
            XmlToken::Start(n, _, a) => {
                if text_is(n.as_str(), "S") {
                    es.push(read_timeline_entry(a));
                    proof {
                        lemma_skip_pos(tv, i + 1, 1);
                    }
                    i = skip_element_lenient(t, i + 1);
                } else {
                    i = i + 1;
                }
            },
            XmlToken::End(n) => {
                if text_is(n.as_str(), "SegmentTimeline") {
                    return (es, i + 1);
                }
                i = i + 1;
            },
            _ => {
                i = i + 1;
            },
        }
    }
    (es, i)
}

pub open spec fn opt_read_is(r: Result<(Option<String>, usize), Error>, s: Result<(Option<Seq<char>>, int), ErrorKind>) -> bool {
    match (r, s) {
        (Ok((v, j)), Ok((w, k))) => opt_view(v) == w && j == k,
        (Err(e), Err(k)) => e.spec_kind() == k,
        _ => false,
    }
}

/// Reads the `Binary` text of a `Signal` element whose start tag was
/// `t[start - 1]`.
fn parse_signal_element(t: &Vec<XmlToken>, start: usize) -> (r: Result<(Option<String>, usize), Error>)
    requires
        start <= t.len(),
    ensures
        r matches Err(e) ==> reader_message_ok(e),
        opt_read_is(r, signal_scan(tokens_view(t@), start as int, None)),
{
    let ghost tv = tokens_view(t@);
    let mut bin: Option<String> = None;
    let mut i = start;
    while i < t.len()
        invariant
            start <= i <= t@.len(),
            tv == tokens_view(t@),
            signal_scan(tv, i as int, opt_view(bin)) == signal_scan(tv, start as int, None),
        decreases t@.len() - i,
    {
        assert(tv[i as int] == t@[i as int]@);
        match &t[i] {
            XmlToken::Error(m) => {
                return Err(Error::with_text(ErrorKind::Xml, m.as_str()));
            },
            XmlToken::EndDocument => {
                return Ok((bin, i));
            },
            XmlToken::Start(n, _, _) => {
                if text_is(n.as_str(), "Binary") {
                    proof {
                        lemma_text_scan_pos(tv, i + 1, n@, seq![]);
                    }
                    let (b, j) = read_text_content(t, i + 1, n.as_str());
                    bin = b;
                    i = j;
                } else {
                    proof {
                        lemma_skip_scan_pos(tv, i + 1, 1);
                    }
                    match skip_dom_element(t, i + 1) {
                        Ok(j) => {
                            i = j;
                        },
                        Err(e) => {
                            return Err(e);
                        },
                    }
                }
            },
            XmlToken::End(n) => {
                if text_is(n.as_str(), "Signal") {
                    return Ok((bin, i + 1));
                }
                i = i + 1;
            },
            _ => {
                i = i + 1;
            },
        }
    }
    Ok((bin, i))
}

/// Whether `s` is only white space.
fn blank(s: &String) -> (b: bool)
    ensures
        b == (trim(s@).len() == 0),
{
    let v = chars_of(s.as_str());
    let (a, e) = crate::text::trim_range(&v, 0, v.len());
    assert(v@.subrange(0, v@.len() as int) =~= s@);
    a == e
}

pub open spec fn body_read_is(
    r: Result<((Option<String>, Option<String>), usize), Error>,
    s: Result<((Option<Seq<char>>, Option<Seq<char>>), int), ErrorKind>,
) -> bool {
    match (r, s) {
        (Ok(((c, b), j)), Ok(((w, x), k))) => opt_view(c) == w && opt_view(b) == x && j == k,
        (Err(e), Err(k)) => e.spec_kind() == k,
        _ => false,
    }
}

/// Reads the text and the signal of an `Event` whose start tag was
/// `t[start - 1]`.
fn parse_event_body(t: &Vec<XmlToken>, start: usize) -> (r: Result<((Option<String>, Option<String>), usize), Error>)
    requires
        start <= t.len(),
    ensures
        r matches Err(e) ==> reader_message_ok(e),
        body_read_is(r, event_body_scan(tokens_view(t@), start as int, seq![], None)),
{
    let ghost tv = tokens_view(t@);
    let mut text: Vec<char> = Vec::new();
    let mut sig: Option<String> = None;
    let mut i = start;
    while i < t.len()
        invariant
            start <= i <= t@.len(),
            tv == tokens_view(t@),
            event_body_scan(tv, i as int, text@, opt_view(sig)) == event_body_scan(tv, start as int, seq![], None),
        decreases t@.len() - i,
    {
        assert(tv[i as int] == t@[i as int]@);
        match &t[i] {
            XmlToken::Error(m) => {
                return Err(Error::with_text(ErrorKind::Xml, m.as_str()));
            },
            XmlToken::EndDocument => {
                let content = trimmed_text(&text);
                return Ok(((content, sig), i));
            },
            XmlToken::Characters(s) => {
                if !blank(s) {
                    let c = chars_of(s.as_str());
                    push_all(&mut text, &c);
                }
                i = i + 1;
            },
            XmlToken::CData(s) => {
                let c = chars_of(s.as_str());
                push_all(&mut text, &c);
                i = i + 1;
            },
            XmlToken::Start(n, _, _) => {
                if text_is(n.as_str(), "Signal") {
                    proof {
                        lemma_signal_scan_pos(tv, i + 1, None);
                    }
                    match parse_signal_element(t, i + 1) {
                        Ok((b, j)) => {
                            sig = b;
                            i = j;
                        },
                        Err(e) => {
                            return Err(e);
                        },
                    }
                } else {
                    proof {
                        lemma_skip_scan_pos(tv, i + 1, 1);
                    }
                    match skip_dom_element(t, i + 1) {
                        Ok(j) => {
                            i = j;
                        },
                        Err(e) => {
                            return Err(e);
                        },
                    }
                }
            },
            XmlToken::End(n) => {
                if text_is(n.as_str(), "Event") {
                    let content = trimmed_text(&text);
                    return Ok(((content, sig), i + 1));
                }
                i = i + 1;
            },
            _ => {
                i = i + 1;
            },
        }
    }
    let content = trimmed_text(&text);
    Ok(((content, sig), i))
}

/// The value of a `descriptor` element with the attributes `a`, before its content.
#[verifier::opaque]
pub open spec fn descriptor_start(a: Seq<XmlAttrV>) -> Result<DescriptorV, ErrorKind> {
    Ok(
        DescriptorV {
            scheme_id_uri: str_or_empty(first_attr(a, "schemeIdUri"@)),
            value: first_attr(a, "value"@),
            id: first_attr(a, "id"@),
            dvb_url: first_attr(a, "url"@),
            dvb_mime_type: first_attr(a, "mimeType"@),
            dvb_font_family: first_attr(a, "fontFamily"@),
        },
    )
}

/// The value of a `UTCTiming` element with the attributes `a`, before its content.
#[verifier::opaque]
pub open spec fn utc_timing_start(a: Seq<XmlAttrV>) -> Result<UtcTimingV, ErrorKind> {
    Ok(
        UtcTimingV {
            scheme_id_uri: str_or_empty(first_attr(a, "schemeIdUri"@)),
            value: first_attr(a, "value"@),
            id: first_attr(a, "id"@),
        },
    )
}

/// The value of a `SegmentURL` element with the attributes `a`, before its content.
#[verifier::opaque]
pub open spec fn segment_url_start(a: Seq<XmlAttrV>) -> Result<SegmentUrlV, ErrorKind> {
    Ok(
        SegmentUrlV {
            media: first_attr(a, "media"@),
            media_range: first_attr(a, "mediaRange"@),
            index_range: first_attr(a, "indexRange"@),
        },
    )
}

/// The value of a `Subset` element with the attributes `a`, before its content.
#[verifier::opaque]
pub open spec fn subset_start(a: Seq<XmlAttrV>) -> Result<SubsetV, ErrorKind> {
    Ok(
        SubsetV {
            contains: str_or_empty(first_attr(a, "contains"@)),
            id: first_attr(a, "id"@),
        },
    )
}

/// The value of a `SegmentSequenceProperties` element with the attributes `a`, before its content.
#[verifier::opaque]
pub open spec fn segment_sequence_properties_start(a: Seq<XmlAttrV>) -> Result<SegmentSequencePropertiesV, ErrorKind> {
    Ok(
        SegmentSequencePropertiesV {
            cadence: opt_u32(first_attr(a, "cadence"@)),
            sap_type: opt_u32(first_attr(a, "sapType"@)),
            event: opt_bool(first_attr(a, "event"@)),
            alignment: first_attr(a, "alignment"@),
        },
    )
}

/// The value of a `Latency` element with the attributes `a`, before its content.
#[verifier::opaque]
pub open spec fn latency_start(a: Seq<XmlAttrV>) -> Result<LatencyV, ErrorKind> {
    Ok(
        LatencyV {
            target: opt_u32(first_attr(a, "target"@)),
            min: opt_u32(first_attr(a, "min"@)),
            max: opt_u32(first_attr(a, "max"@)),
            reference_id: opt_u32(first_attr(a, "referenceId"@)),
        },
    )
}

/// The value of a `PlaybackRate` element with the attributes `a`, before its content.
#[verifier::opaque]
pub open spec fn playback_rate_start(a: Seq<XmlAttrV>) -> Result<PlaybackRateV, ErrorKind> {
    Ok(
        PlaybackRateV {
            min: first_attr(a, "min"@),
            max: first_attr(a, "max"@),
        },
    )
}

/// The value of a `OperatingQuality` element with the attributes `a`, before its content.
#[verifier::opaque]
pub open spec fn operating_quality_start(a: Seq<XmlAttrV>) -> Result<OperatingQualityV, ErrorKind> {
    Ok(
        OperatingQualityV {
            media_type: first_attr(a, "mediaType"@),
            min: opt_u32(first_attr(a, "min"@)),
            max: opt_u32(first_attr(a, "max"@)),
            target: opt_u32(first_attr(a, "target"@)),
            type_: first_attr(a, "type"@),
            max_quality_difference: opt_u32(first_attr(a, "maxQualityDifference"@)),
        },
    )
}

/// The value of a `OperatingBandwidth` element with the attributes `a`, before its content.
#[verifier::opaque]
pub open spec fn operating_bandwidth_start(a: Seq<XmlAttrV>) -> Result<OperatingBandwidthV, ErrorKind> {
    Ok(
        OperatingBandwidthV {
            media_type: first_attr(a, "mediaType"@),
            min: opt_u32(first_attr(a, "min"@)),
            max: opt_u32(first_attr(a, "max"@)),
            target: opt_u32(first_attr(a, "target"@)),
        },
    )
}

/// The value of a `CMCDParameters` element with the attributes `a`, before its content.
#[verifier::opaque]
pub open spec fn cmcd_parameters_start(a: Seq<XmlAttrV>) -> Result<CmcdParametersV, ErrorKind> {
    Ok(
        CmcdParametersV {
            scheme_id_uri: str_or_empty(first_attr(a, "schemeIdUri"@)),
            value: first_attr(a, "value"@),
            id: first_attr(a, "id"@),
            version: first_attr(a, "version"@),
            session_id: first_attr(a, "sessionID"@),
            content_id: first_attr(a, "contentID"@),
            mode: first_attr(a, "mode"@),
            keys: first_attr(a, "keys"@),
            include_in_requests: first_attr(a, "includeInRequests"@),
        },
    )
}

/// The value of a `Range` element with the attributes `a`, before its content.
#[verifier::opaque]
pub open spec fn metrics_range_start(a: Seq<XmlAttrV>) -> Result<MetricsRangeV, ErrorKind> {
    match dur_attr(first_attr(a, "starttime"@)) {
        Err(k) => Err(k),
        Ok(starttime) => match dur_attr(first_attr(a, "duration"@)) {
        Err(k) => Err(k),
        Ok(duration) => Ok(
        MetricsRangeV {
            starttime: starttime,
            duration: duration,
        },
    ),
    },
    }
}

/// The value of a `BaseURL` element with the attributes `a`, before its content.
#[verifier::opaque]
pub open spec fn base_url_start(a: Seq<XmlAttrV>) -> Result<BaseUrlV, ErrorKind> {
    Ok(
        BaseUrlV {
            service_location: first_attr(a, "serviceLocation"@),
            availability_time_offset: first_attr(a, "availabilityTimeOffset"@),
            availability_time_complete: opt_bool(first_attr(a, "availabilityTimeComplete"@)),
            byte_range: first_attr(a, "byteRange"@),
            dvb_priority: opt_u32(first_attr(a, "priority"@)),
            dvb_weight: opt_u32(first_attr(a, "weight"@)),
            url: seq![],
        },
    )
}

/// The `BaseURL` element with the attributes `a`, whose text begins at `t[i]`.
#[verifier::opaque]
pub open spec fn base_url_at(t: Seq<TokenV>, i: int, a: Seq<XmlAttrV>) -> Result<(BaseUrlV, int), ErrorKind> {
    match base_url_start(a) {
        Err(k) => Err(k),
        Ok(x) => {
            let (txt, j) = text_scan(t, i, "BaseURL"@, seq![]);
            Ok((BaseUrlV { url: str_or_empty(txt), ..x }, j))
        },
    }
}

pub proof fn lemma_base_url_at_pos(t: Seq<TokenV>, i: int, a: Seq<XmlAttrV>)
    requires
        0 <= i <= t.len(),
    ensures
        base_url_at(t, i, a) matches Ok((_, j)) ==> i <= j <= t.len(),
{
    reveal(base_url_at);
    lemma_text_scan_pos(t, i, "BaseURL"@, seq![]);
}

/// The value of a `Location` element with the attributes `a`, before its content.
#[verifier::opaque]
pub open spec fn location_start(a: Seq<XmlAttrV>) -> Result<LocationV, ErrorKind> {
    Ok(
        LocationV {
            url: seq![],
            service_location: first_attr(a, "serviceLocation"@),
        },
    )
}

/// The `Location` element with the attributes `a`, whose text begins at `t[i]`.
#[verifier::opaque]
pub open spec fn location_at(t: Seq<TokenV>, i: int, a: Seq<XmlAttrV>) -> Result<(LocationV, int), ErrorKind> {
    match location_start(a) {
        Err(k) => Err(k),
        Ok(x) => {
            let (txt, j) = text_scan(t, i, "Location"@, seq![]);
            Ok((LocationV { url: str_or_empty(txt), ..x }, j))
        },
    }
}

pub proof fn lemma_location_at_pos(t: Seq<TokenV>, i: int, a: Seq<XmlAttrV>)
    requires
        0 <= i <= t.len(),
    ensures
        location_at(t, i, a) matches Ok((_, j)) ==> i <= j <= t.len(),
{
    reveal(location_at);
    lemma_text_scan_pos(t, i, "Location"@, seq![]);
}

/// The value of a `PatchLocation` element with the attributes `a`, before its content.
#[verifier::opaque]
pub open spec fn patch_location_start(a: Seq<XmlAttrV>) -> Result<PatchLocationV, ErrorKind> {
    Ok(
        PatchLocationV {
            url: seq![],
            service_location: first_attr(a, "serviceLocation"@),
            ttl: first_attr(a, "ttl"@),
        },
    )
}

/// The `PatchLocation` element with the attributes `a`, whose text begins at `t[i]`.
#[verifier::opaque]
pub open spec fn patch_location_at(t: Seq<TokenV>, i: int, a: Seq<XmlAttrV>) -> Result<(PatchLocationV, int), ErrorKind> {
    match patch_location_start(a) {
        Err(k) => Err(k),
        Ok(x) => {
            let (txt, j) = text_scan(t, i, "PatchLocation"@, seq![]);
            Ok((PatchLocationV { url: str_or_empty(txt), ..x }, j))
        },
    }
}

pub proof fn lemma_patch_location_at_pos(t: Seq<TokenV>, i: int, a: Seq<XmlAttrV>)
    requires
        0 <= i <= t.len(),
    ensures
        patch_location_at(t, i, a) matches Ok((_, j)) ==> i <= j <= t.len(),
{
    reveal(patch_location_at);
    lemma_text_scan_pos(t, i, "PatchLocation"@, seq![]);
}

/// The value of a `ContentSteering` element with the attributes `a`, before its content.
#[verifier::opaque]
pub open spec fn content_steering_start(a: Seq<XmlAttrV>) -> Result<ContentSteeringV, ErrorKind> {
    Ok(
        ContentSteeringV {
            server_url: seq![],
            default_service_location: first_attr(a, "defaultServiceLocation"@),
            query_before_start: opt_bool(first_attr(a, "queryBeforeStart"@)),
            client_requirement: opt_bool(first_attr(a, "clientRequirement"@)),
        },
    )
}

/// The `ContentSteering` element with the attributes `a`, whose text begins at `t[i]`.
#[verifier::opaque]
pub open spec fn content_steering_at(t: Seq<TokenV>, i: int, a: Seq<XmlAttrV>) -> Result<(ContentSteeringV, int), ErrorKind> {
    match content_steering_start(a) {
        Err(k) => Err(k),
        Ok(x) => {
            let (txt, j) = text_scan(t, i, "ContentSteering"@, seq![]);
            Ok((ContentSteeringV { server_url: str_or_empty(txt), ..x }, j))
        },
    }
}

pub proof fn lemma_content_steering_at_pos(t: Seq<TokenV>, i: int, a: Seq<XmlAttrV>)
    requires
        0 <= i <= t.len(),
    ensures
        content_steering_at(t, i, a) matches Ok((_, j)) ==> i <= j <= t.len(),
{
    reveal(content_steering_at);
    lemma_text_scan_pos(t, i, "ContentSteering"@, seq![]);
}

/// The value of a `ContentProtection` element with the attributes `a`, before its content.
#[verifier::opaque]
pub open spec fn content_protection_start(a: Seq<XmlAttrV>) -> Result<ContentProtectionV, ErrorKind> {
    Ok(
        ContentProtectionV {
            scheme_id_uri: str_or_empty(first_attr(a, "schemeIdUri"@)),
            value: first_attr(a, "value"@),
            default_kid: first_attr(a, "default_KID"@),
            pssh: None,
            robustness: first_attr(a, "robustness"@),
            ref_: first_attr(a, "ref"@),
            ref_id: first_attr(a, "refId"@),
            laurl: None,
            pro: None,
            certurls: seq![],
        },
    )
}

/// The `ContentProtection` element whose value so far is `x`, read on from `t[i..]`: up
/// to its end tag (or the end of the document), with where the reading
/// goes on.
pub open spec fn content_protection_scan(t: Seq<TokenV>, i: int, x: ContentProtectionV) -> Result<(ContentProtectionV, int), ErrorKind>
    decreases t.len() - i,
{
    if i < 0 || i > t.len() {
        Err(ErrorKind::Xml)
    } else if i == t.len() {
        Ok((x, i))
    } else {
        match t[i] {
            TokenV::Error => Err(ErrorKind::Xml),
            TokenV::EndDocument => Ok((x, i)),
            TokenV::End(n) => if n == "ContentProtection"@ {
                Ok((x, i + 1))
            } else {
                content_protection_scan(t, i + 1, x)
            },
            TokenV::Start(n, _, a) => if n == "pssh"@ {
                    proof {
                        lemma_text_scan_pos(t, i + 1, n, seq![]);
                    }
                    let (txt, j) = text_scan(t, i + 1, n, seq![]);
                    content_protection_scan(t, j, ContentProtectionV { pssh: txt, ..x })
                } else if n == "Laurl"@ || n == "laurl"@ {
                    proof {
                        lemma_text_scan_pos(t, i + 1, n, seq![]);
                    }
                    let (txt, j) = text_scan(t, i + 1, n, seq![]);
                    content_protection_scan(t, j, ContentProtectionV { laurl: txt, ..x })
                } else if n == "pro"@ {
                    proof {
                        lemma_text_scan_pos(t, i + 1, n, seq![]);
                    }
                    let (txt, j) = text_scan(t, i + 1, n, seq![]);
                    content_protection_scan(t, j, ContentProtectionV { pro: txt, ..x })
                } else if n == "Certurl"@ || n == "certurl"@ {
                    proof {
                        lemma_text_scan_pos(t, i + 1, n, seq![]);
                    }
                    let (txt, j) = text_scan(t, i + 1, n, seq![]);
                    content_protection_scan(t, j, match txt {
                        Some(s) => ContentProtectionV { certurls: x.certurls.push(CertUrlV { url: s, cert_type: first_attr(a, "certType"@) }), ..x },
                        None => x,
                    })
                } else {
                    proof {
                        lemma_skip_scan_pos(t, i + 1, 1);
                    }
                    match skip_scan(t, i + 1, 1) {
                        Ok(j) => content_protection_scan(t, j, x),
                        Err(k) => Err(k),
                    }
                },
            _ => content_protection_scan(t, i + 1, x),
        }
    }
}

/// The `ContentProtection` element with the attributes `a`, whose content begins at
/// `t[i]`.
#[verifier::opaque]
pub open spec fn content_protection_at(t: Seq<TokenV>, i: int, a: Seq<XmlAttrV>) -> Result<(ContentProtectionV, int), ErrorKind> {
    match content_protection_start(a) {
        Err(k) => Err(k),
        Ok(x) => content_protection_scan(t, i, x),
    }
}

pub proof fn lemma_content_protection_scan_pos(t: Seq<TokenV>, i: int, x: ContentProtectionV)
    ensures
        content_protection_scan(t, i, x) matches Ok((_, j)) ==> i <= j <= t.len(),
    decreases t.len() - i,
{
    if 0 <= i < t.len() {
        match t[i] {
            TokenV::End(n) => if n != "ContentProtection"@ {
                lemma_content_protection_scan_pos(t, i + 1, x);
            },
            TokenV::Start(n, _, a) => if n == "pssh"@ {
                    lemma_text_scan_pos(t, i + 1, n, seq![]);
                    let (txt, j) = text_scan(t, i + 1, n, seq![]);
                    lemma_content_protection_scan_pos(t, j, ContentProtectionV { pssh: txt, ..x });
                } else if n == "Laurl"@ || n == "laurl"@ {
                    lemma_text_scan_pos(t, i + 1, n, seq![]);
                    let (txt, j) = text_scan(t, i + 1, n, seq![]);
                    lemma_content_protection_scan_pos(t, j, ContentProtectionV { laurl: txt, ..x });
                } else if n == "pro"@ {
                    lemma_text_scan_pos(t, i + 1, n, seq![]);
                    let (txt, j) = text_scan(t, i + 1, n, seq![]);
                    lemma_content_protection_scan_pos(t, j, ContentProtectionV { pro: txt, ..x });
                } else if n == "Certurl"@ || n == "certurl"@ {
                    lemma_text_scan_pos(t, i + 1, n, seq![]);
                    let (txt, j) = text_scan(t, i + 1, n, seq![]);
                    lemma_content_protection_scan_pos(t, j, match txt {
                        Some(s) => ContentProtectionV { certurls: x.certurls.push(CertUrlV { url: s, cert_type: first_attr(a, "certType"@) }), ..x },
                        None => x,
                    });
                } else {
                    lemma_skip_scan_pos(t, i + 1, 1);
                    if let Ok(j) = skip_scan(t, i + 1, 1) {
                        lemma_content_protection_scan_pos(t, j, x);
                    }
                },
            TokenV::Error => {},
            TokenV::EndDocument => {},
            _ => lemma_content_protection_scan_pos(t, i + 1, x),
        }
    }
}


pub proof fn lemma_content_protection_at_pos(t: Seq<TokenV>, i: int, a: Seq<XmlAttrV>)
    requires
        0 <= i <= t.len(),
    ensures
        content_protection_at(t, i, a) matches Ok((_, j)) ==> i <= j <= t.len(),
{
    reveal(content_protection_at);
    if let Ok(x) = content_protection_start(a) {
        lemma_content_protection_scan_pos(t, i, x);
    }
}

/// The value of a `EventStream` element with the attributes `a`, before its content.
#[verifier::opaque]
pub open spec fn event_stream_start(a: Seq<XmlAttrV>) -> Result<EventStreamV, ErrorKind> {
    Ok(
        EventStreamV {
            scheme_id_uri: str_or_empty(first_attr(a, "schemeIdUri"@)),
            value: first_attr(a, "value"@),
            timescale: u64_or(first_attr(a, "timescale"@), 1),
            presentation_time_offset: u64_or(first_attr(a, "presentationTimeOffset"@), 0),
            events: seq![],
        },
    )
}

/// The `EventStream` element whose value so far is `x`, read on from `t[i..]`: up
/// to its end tag (or the end of the document), with where the reading
/// goes on.
pub open spec fn event_stream_scan(t: Seq<TokenV>, i: int, x: EventStreamV) -> Result<(EventStreamV, int), ErrorKind>
    decreases t.len() - i,
{
    if i < 0 || i > t.len() {
        Err(ErrorKind::Xml)
    } else if i == t.len() {
        Ok((x, i))
    } else {
        match t[i] {
            TokenV::Error => Err(ErrorKind::Xml),
            TokenV::EndDocument => Ok((x, i)),
            TokenV::End(n) => if n == "EventStream"@ {
                Ok((x, i + 1))
            } else {
                event_stream_scan(t, i + 1, x)
            },
            TokenV::Start(n, _, a) => if n == "Event"@ {
                    proof {
                        lemma_event_at_pos(t, i + 1, a);
                    }
                    match event_at(t, i + 1, a) {
                        Ok((v, j)) => event_stream_scan(t, j, EventStreamV { events: x.events.push(v), ..x }),
                        Err(k) => Err(k),
                    }
                } else {
                    proof {
                        lemma_skip_scan_pos(t, i + 1, 1);
                    }
                    match skip_scan(t, i + 1, 1) {
                        Ok(j) => event_stream_scan(t, j, x),
                        Err(k) => Err(k),
                    }
                },
            _ => event_stream_scan(t, i + 1, x),
        }
    }
}

/// The `EventStream` element with the attributes `a`, whose content begins at
/// `t[i]`.
#[verifier::opaque]
pub open spec fn event_stream_at(t: Seq<TokenV>, i: int, a: Seq<XmlAttrV>) -> Result<(EventStreamV, int), ErrorKind> {
    match event_stream_start(a) {
        Err(k) => Err(k),
        Ok(x) => event_stream_scan(t, i, x),
    }
}

pub proof fn lemma_event_stream_scan_pos(t: Seq<TokenV>, i: int, x: EventStreamV)
    ensures
        event_stream_scan(t, i, x) matches Ok((_, j)) ==> i <= j <= t.len(),
    decreases t.len() - i,
{
    if 0 <= i < t.len() {
        match t[i] {
            TokenV::End(n) => if n != "EventStream"@ {
                lemma_event_stream_scan_pos(t, i + 1, x);
            },
            TokenV::Start(n, _, a) => if n == "Event"@ {
                    lemma_event_at_pos(t, i + 1, a);
                    if let Ok((v, j)) = event_at(t, i + 1, a) {
                        lemma_event_stream_scan_pos(t, j, EventStreamV { events: x.events.push(v), ..x });
                    }
                } else {
                    lemma_skip_scan_pos(t, i + 1, 1);
                    if let Ok(j) = skip_scan(t, i + 1, 1) {
                        lemma_event_stream_scan_pos(t, j, x);
                    }
                },
            TokenV::Error => {},
            TokenV::EndDocument => {},
            _ => lemma_event_stream_scan_pos(t, i + 1, x),
        }
    }
}

/// Reading the content of a `EventStream` element changes only the fields that
/// its child elements fill: every value read from its attributes stays.
pub proof fn lemma_event_stream_scan_keeps_attributes(t: Seq<TokenV>, i: int, x: EventStreamV)
    ensures
        event_stream_scan(t, i, x) matches Ok((p, _)) ==> p == (EventStreamV { events: p.events, ..x }),
    decreases t.len() - i,
{
    if 0 <= i < t.len() {
        match t[i] {
            TokenV::End(n) => if n != "EventStream"@ {
                lemma_event_stream_scan_keeps_attributes(t, i + 1, x);
            },
            TokenV::Start(n, _, a) => if n == "Event"@ {
                    lemma_event_at_pos(t, i + 1, a);
                    if let Ok((v, j)) = event_at(t, i + 1, a) {
                        lemma_event_stream_scan_keeps_attributes(t, j, EventStreamV { events: x.events.push(v), ..x });
                    }
                } else {
                    lemma_skip_scan_pos(t, i + 1, 1);
                    if let Ok(j) = skip_scan(t, i + 1, 1) {
                        lemma_event_stream_scan_keeps_attributes(t, j, x);
                    }
                },
            TokenV::Error => {},
            TokenV::EndDocument => {},
            _ => lemma_event_stream_scan_keeps_attributes(t, i + 1, x),
        }
    }
}


pub proof fn lemma_event_stream_at_pos(t: Seq<TokenV>, i: int, a: Seq<XmlAttrV>)
    requires
        0 <= i <= t.len(),
    ensures
        event_stream_at(t, i, a) matches Ok((_, j)) ==> i <= j <= t.len(),
{
    reveal(event_stream_at);
    if let Ok(x) = event_stream_start(a) {
        lemma_event_stream_scan_pos(t, i, x);
    }
}

/// The value of a `ProducerReferenceTime` element with the attributes `a`, before its content.
#[verifier::opaque]
pub open spec fn producer_reference_time_start(a: Seq<XmlAttrV>) -> Result<ProducerReferenceTimeV, ErrorKind> {
    Ok(
        ProducerReferenceTimeV {
            id: u32_or(first_attr(a, "id"@), 0),
            inband: opt_bool(first_attr(a, "inband"@)),
            type_: first_attr(a, "type"@),
            application_scheme: first_attr(a, "applicationScheme"@),
            wall_clock_time: str_or_empty(first_attr(a, "wallClockTime"@)),
            presentation_time: u64_or(first_attr(a, "presentationTime"@), 0),
            utc_timing: None,
        },
    )
}

/// The `ProducerReferenceTime` element whose value so far is `x`, read on from `t[i..]`: up
/// to its end tag (or the end of the document), with where the reading
/// goes on.
pub open spec fn producer_reference_time_scan(t: Seq<TokenV>, i: int, x: ProducerReferenceTimeV) -> Result<(ProducerReferenceTimeV, int), ErrorKind>
    decreases t.len() - i,
{
    if i < 0 || i > t.len() {
        Err(ErrorKind::Xml)
    } else if i == t.len() {
        Ok((x, i))
    } else {
        match t[i] {
            TokenV::Error => Err(ErrorKind::Xml),
            TokenV::EndDocument => Ok((x, i)),
            TokenV::End(n) => if n == "ProducerReferenceTime"@ {
                Ok((x, i + 1))
            } else {
                producer_reference_time_scan(t, i + 1, x)
            },
            TokenV::Start(n, _, a) => if n == "UTCTiming"@ {
                    proof {
                        lemma_skip_scan_pos(t, i + 1, 1);
                    }
                    match utc_timing_start(a) {
                        Err(k) => Err(k),
                        Ok(v) => match skip_scan(t, i + 1, 1) {
                            Ok(j) => producer_reference_time_scan(t, j, ProducerReferenceTimeV { utc_timing: Some(v), ..x }),
                            Err(k) => Err(k),
                        },
                    }
                } else {
                    proof {
                        lemma_skip_scan_pos(t, i + 1, 1);
                    }
                    match skip_scan(t, i + 1, 1) {
                        Ok(j) => producer_reference_time_scan(t, j, x),
                        Err(k) => Err(k),
                    }
                },
            _ => producer_reference_time_scan(t, i + 1, x),
        }
    }
}

/// The `ProducerReferenceTime` element with the attributes `a`, whose content begins at
/// `t[i]`.
#[verifier::opaque]
pub open spec fn producer_reference_time_at(t: Seq<TokenV>, i: int, a: Seq<XmlAttrV>) -> Result<(ProducerReferenceTimeV, int), ErrorKind> {
    match producer_reference_time_start(a) {
        Err(k) => Err(k),
        Ok(x) => producer_reference_time_scan(t, i, x),
    }
}

pub proof fn lemma_producer_reference_time_scan_pos(t: Seq<TokenV>, i: int, x: ProducerReferenceTimeV)
    ensures
        producer_reference_time_scan(t, i, x) matches Ok((_, j)) ==> i <= j <= t.len(),
    decreases t.len() - i,
{
    if 0 <= i < t.len() {
        match t[i] {
            TokenV::End(n) => if n != "ProducerReferenceTime"@ {
                lemma_producer_reference_time_scan_pos(t, i + 1, x);
            },
            TokenV::Start(n, _, a) => if n == "UTCTiming"@ {
                    lemma_skip_scan_pos(t, i + 1, 1);
                    if let Ok(v) = utc_timing_start(a) {
                        if let Ok(j) = skip_scan(t, i + 1, 1) {
                            lemma_producer_reference_time_scan_pos(t, j, ProducerReferenceTimeV { utc_timing: Some(v), ..x });
                        }
                    }
                } else {
                    lemma_skip_scan_pos(t, i + 1, 1);
                    if let Ok(j) = skip_scan(t, i + 1, 1) {
                        lemma_producer_reference_time_scan_pos(t, j, x);
                    }
                },
            TokenV::Error => {},
            TokenV::EndDocument => {},
            _ => lemma_producer_reference_time_scan_pos(t, i + 1, x),
        }
    }
}


pub proof fn lemma_producer_reference_time_at_pos(t: Seq<TokenV>, i: int, a: Seq<XmlAttrV>)
    requires
        0 <= i <= t.len(),
    ensures
        producer_reference_time_at(t, i, a) matches Ok((_, j)) ==> i <= j <= t.len(),
{
    reveal(producer_reference_time_at);
    if let Ok(x) = producer_reference_time_start(a) {
        lemma_producer_reference_time_scan_pos(t, i, x);
    }
}

/// The value of a `ContentComponent` element with the attributes `a`, before its content.
#[verifier::opaque]
pub open spec fn content_component_start(a: Seq<XmlAttrV>) -> Result<ContentComponentV, ErrorKind> {
    Ok(
        ContentComponentV {
            id: first_attr(a, "id"@),
            content_type: first_attr(a, "contentType"@),
            lang: first_attr(a, "lang"@),
            accessibilities: seq![],
            roles: seq![],
        },
    )
}

/// The `ContentComponent` element whose value so far is `x`, read on from `t[i..]`: up
/// to its end tag (or the end of the document), with where the reading
/// goes on.
pub open spec fn content_component_scan(t: Seq<TokenV>, i: int, x: ContentComponentV) -> Result<(ContentComponentV, int), ErrorKind>
    decreases t.len() - i,
{
    if i < 0 || i > t.len() {
        Err(ErrorKind::Xml)
    } else if i == t.len() {
        Ok((x, i))
    } else {
        match t[i] {
            TokenV::Error => Err(ErrorKind::Xml),
            TokenV::EndDocument => Ok((x, i)),
            TokenV::End(n) => if n == "ContentComponent"@ {
                Ok((x, i + 1))
            } else {
                content_component_scan(t, i + 1, x)
            },
            TokenV::Start(n, _, a) => if n == "Accessibility"@ {
                    proof {
                        lemma_skip_scan_pos(t, i + 1, 1);
                    }
                    match descriptor_start(a) {
                        Err(k) => Err(k),
                        Ok(v) => match skip_scan(t, i + 1, 1) {
                            Ok(j) => content_component_scan(t, j, ContentComponentV { accessibilities: x.accessibilities.push(v), ..x }),
                            Err(k) => Err(k),
                        },
                    }
                } else if n == "Role"@ {
                    proof {
                        lemma_skip_scan_pos(t, i + 1, 1);
                    }
                    match descriptor_start(a) {
                        Err(k) => Err(k),
                        Ok(v) => match skip_scan(t, i + 1, 1) {
                            Ok(j) => content_component_scan(t, j, ContentComponentV { roles: x.roles.push(v), ..x }),
                            Err(k) => Err(k),
                        },
                    }
                } else {
                    proof {
                        lemma_skip_scan_pos(t, i + 1, 1);
                    }
                    match skip_scan(t, i + 1, 1) {
                        Ok(j) => content_component_scan(t, j, x),
                        Err(k) => Err(k),
                    }
                },
            _ => content_component_scan(t, i + 1, x),
        }
    }
}

/// The `ContentComponent` element with the attributes `a`, whose content begins at
/// `t[i]`.
#[verifier::opaque]
pub open spec fn content_component_at(t: Seq<TokenV>, i: int, a: Seq<XmlAttrV>) -> Result<(ContentComponentV, int), ErrorKind> {
    match content_component_start(a) {
        Err(k) => Err(k),
        Ok(x) => content_component_scan(t, i, x),
    }
}

pub proof fn lemma_content_component_scan_pos(t: Seq<TokenV>, i: int, x: ContentComponentV)
    ensures
        content_component_scan(t, i, x) matches Ok((_, j)) ==> i <= j <= t.len(),
    decreases t.len() - i,
{
    if 0 <= i < t.len() {
        match t[i] {
            TokenV::End(n) => if n != "ContentComponent"@ {
                lemma_content_component_scan_pos(t, i + 1, x);
            },
            TokenV::Start(n, _, a) => if n == "Accessibility"@ {
                    lemma_skip_scan_pos(t, i + 1, 1);
                    if let Ok(v) = descriptor_start(a) {
                        if let Ok(j) = skip_scan(t, i + 1, 1) {
                            lemma_content_component_scan_pos(t, j, ContentComponentV { accessibilities: x.accessibilities.push(v), ..x });
                        }
                    }
                } else if n == "Role"@ {
                    lemma_skip_scan_pos(t, i + 1, 1);
                    if let Ok(v) = descriptor_start(a) {
                        if let Ok(j) = skip_scan(t, i + 1, 1) {
                            lemma_content_component_scan_pos(t, j, ContentComponentV { roles: x.roles.push(v), ..x });
                        }
                    }
                } else {
                    lemma_skip_scan_pos(t, i + 1, 1);
                    if let Ok(j) = skip_scan(t, i + 1, 1) {
                        lemma_content_component_scan_pos(t, j, x);
                    }
                },
            TokenV::Error => {},
            TokenV::EndDocument => {},
            _ => lemma_content_component_scan_pos(t, i + 1, x),
        }
    }
}


pub proof fn lemma_content_component_at_pos(t: Seq<TokenV>, i: int, a: Seq<XmlAttrV>)
    requires
        0 <= i <= t.len(),
    ensures
        content_component_at(t, i, a) matches Ok((_, j)) ==> i <= j <= t.len(),
{
    reveal(content_component_at);
    if let Ok(x) = content_component_start(a) {
        lemma_content_component_scan_pos(t, i, x);
    }
}

/// The value of a `ClientDataReporting` element with the attributes `a`, before its content.
#[verifier::opaque]
pub open spec fn client_data_reporting_start(a: Seq<XmlAttrV>) -> Result<ClientDataReportingV, ErrorKind> {
    Ok(
        ClientDataReportingV {
            service_locations: first_attr(a, "serviceLocations"@),
            adaptation_sets: first_attr(a, "adaptationSets"@),
            cmcd_parameters: None,
        },
    )
}

/// The `ClientDataReporting` element whose value so far is `x`, read on from `t[i..]`: up
/// to its end tag (or the end of the document), with where the reading
/// goes on.
pub open spec fn client_data_reporting_scan(t: Seq<TokenV>, i: int, x: ClientDataReportingV) -> Result<(ClientDataReportingV, int), ErrorKind>
    decreases t.len() - i,
{
    if i < 0 || i > t.len() {
        Err(ErrorKind::Xml)
    } else if i == t.len() {
        Ok((x, i))
    } else {
        match t[i] {
            TokenV::Error => Err(ErrorKind::Xml),
            TokenV::EndDocument => Ok((x, i)),
            TokenV::End(n) => if n == "ClientDataReporting"@ {
                Ok((x, i + 1))
            } else {
                client_data_reporting_scan(t, i + 1, x)
            },
            TokenV::Start(n, _, a) => if n == "CMCDParameters"@ {
                    proof {
                        lemma_skip_scan_pos(t, i + 1, 1);
                    }
                    match cmcd_parameters_start(a) {
                        Err(k) => Err(k),
                        Ok(v) => match skip_scan(t, i + 1, 1) {
                            Ok(j) => client_data_reporting_scan(t, j, ClientDataReportingV { cmcd_parameters: Some(v), ..x }),
                            Err(k) => Err(k),
                        },
                    }
                } else {
                    proof {
                        lemma_skip_scan_pos(t, i + 1, 1);
                    }
                    match skip_scan(t, i + 1, 1) {
                        Ok(j) => client_data_reporting_scan(t, j, x),
                        Err(k) => Err(k),
                    }
                },
            _ => client_data_reporting_scan(t, i + 1, x),
        }
    }
}

/// The `ClientDataReporting` element with the attributes `a`, whose content begins at
/// `t[i]`.
#[verifier::opaque]
pub open spec fn client_data_reporting_at(t: Seq<TokenV>, i: int, a: Seq<XmlAttrV>) -> Result<(ClientDataReportingV, int), ErrorKind> {
    match client_data_reporting_start(a) {
        Err(k) => Err(k),
        Ok(x) => client_data_reporting_scan(t, i, x),
    }
}

pub proof fn lemma_client_data_reporting_scan_pos(t: Seq<TokenV>, i: int, x: ClientDataReportingV)
    ensures
        client_data_reporting_scan(t, i, x) matches Ok((_, j)) ==> i <= j <= t.len(),
    decreases t.len() - i,
{
    if 0 <= i < t.len() {
        match t[i] {
            TokenV::End(n) => if n != "ClientDataReporting"@ {
                lemma_client_data_reporting_scan_pos(t, i + 1, x);
            },
            TokenV::Start(n, _, a) => if n == "CMCDParameters"@ {
                    lemma_skip_scan_pos(t, i + 1, 1);
                    if let Ok(v) = cmcd_parameters_start(a) {
                        if let Ok(j) = skip_scan(t, i + 1, 1) {
                            lemma_client_data_reporting_scan_pos(t, j, ClientDataReportingV { cmcd_parameters: Some(v), ..x });
                        }
                    }
                } else {
                    lemma_skip_scan_pos(t, i + 1, 1);
                    if let Ok(j) = skip_scan(t, i + 1, 1) {
                        lemma_client_data_reporting_scan_pos(t, j, x);
                    }
                },
            TokenV::Error => {},
            TokenV::EndDocument => {},
            _ => lemma_client_data_reporting_scan_pos(t, i + 1, x),
        }
    }
}


pub proof fn lemma_client_data_reporting_at_pos(t: Seq<TokenV>, i: int, a: Seq<XmlAttrV>)
    requires
        0 <= i <= t.len(),
    ensures
        client_data_reporting_at(t, i, a) matches Ok((_, j)) ==> i <= j <= t.len(),
{
    reveal(client_data_reporting_at);
    if let Ok(x) = client_data_reporting_start(a) {
        lemma_client_data_reporting_scan_pos(t, i, x);
    }
}

/// The value of a `ServiceDescription` element with the attributes `a`, before its content.
#[verifier::opaque]
pub open spec fn service_description_start(a: Seq<XmlAttrV>) -> Result<ServiceDescriptionV, ErrorKind> {
    Ok(
        ServiceDescriptionV {
            id: opt_u32(first_attr(a, "id"@)),
            scope: None,
            latency: None,
            playback_rate: None,
            operating_quality: None,
            operating_bandwidth: None,
            client_data_reporting: None,
        },
    )
}

/// The `ServiceDescription` element whose value so far is `x`, read on from `t[i..]`: up
/// to its end tag (or the end of the document), with where the reading
/// goes on.
pub open spec fn service_description_scan(t: Seq<TokenV>, i: int, x: ServiceDescriptionV) -> Result<(ServiceDescriptionV, int), ErrorKind>
    decreases t.len() - i,
{
    if i < 0 || i > t.len() {
        Err(ErrorKind::Xml)
    } else if i == t.len() {
        Ok((x, i))
    } else {
        match t[i] {
            TokenV::Error => Err(ErrorKind::Xml),
            TokenV::EndDocument => Ok((x, i)),
            TokenV::End(n) => if n == "ServiceDescription"@ {
                Ok((x, i + 1))
            } else {
                service_description_scan(t, i + 1, x)
            },
            TokenV::Start(n, _, a) => if n == "Scope"@ {
                    proof {
                        lemma_skip_scan_pos(t, i + 1, 1);
                    }
                    match descriptor_start(a) {
                        Err(k) => Err(k),
                        Ok(v) => match skip_scan(t, i + 1, 1) {
                            Ok(j) => service_description_scan(t, j, ServiceDescriptionV { scope: Some(v), ..x }),
                            Err(k) => Err(k),
                        },
                    }
                } else if n == "Latency"@ {
                    proof {
                        lemma_skip_scan_pos(t, i + 1, 1);
                    }
                    match latency_start(a) {
                        Err(k) => Err(k),
                        Ok(v) => match skip_scan(t, i + 1, 1) {
                            Ok(j) => service_description_scan(t, j, ServiceDescriptionV { latency: Some(v), ..x }),
                            Err(k) => Err(k),
                        },
                    }
                } else if n == "PlaybackRate"@ {
                    proof {
                        lemma_skip_scan_pos(t, i + 1, 1);
                    }
                    match playback_rate_start(a) {
                        Err(k) => Err(k),
                        Ok(v) => match skip_scan(t, i + 1, 1) {
                            Ok(j) => service_description_scan(t, j, ServiceDescriptionV { playback_rate: Some(v), ..x }),
                            Err(k) => Err(k),
                        },
                    }
                } else if n == "OperatingQuality"@ {
                    proof {
                        lemma_skip_scan_pos(t, i + 1, 1);
                    }
                    match operating_quality_start(a) {
                        Err(k) => Err(k),
                        Ok(v) => match skip_scan(t, i + 1, 1) {
                            Ok(j) => service_description_scan(t, j, ServiceDescriptionV { operating_quality: Some(v), ..x }),
                            Err(k) => Err(k),
                        },
                    }
                } else if n == "OperatingBandwidth"@ {
                    proof {
                        lemma_skip_scan_pos(t, i + 1, 1);
                    }
                    match operating_bandwidth_start(a) {
                        Err(k) => Err(k),
                        Ok(v) => match skip_scan(t, i + 1, 1) {
                            Ok(j) => service_description_scan(t, j, ServiceDescriptionV { operating_bandwidth: Some(v), ..x }),
                            Err(k) => Err(k),
                        },
                    }
                } else if n == "ClientDataReporting"@ {
                    proof {
                        lemma_client_data_reporting_at_pos(t, i + 1, a);
                    }
                    match client_data_reporting_at(t, i + 1, a) {
                        Ok((v, j)) => service_description_scan(t, j, ServiceDescriptionV { client_data_reporting: Some(v), ..x }),
                        Err(k) => Err(k),
                    }
                } else {
                    proof {
                        lemma_skip_scan_pos(t, i + 1, 1);
                    }
                    match skip_scan(t, i + 1, 1) {
                        Ok(j) => service_description_scan(t, j, x),
                        Err(k) => Err(k),
                    }
                },
            _ => service_description_scan(t, i + 1, x),
        }
    }
}

/// The `ServiceDescription` element with the attributes `a`, whose content begins at
/// `t[i]`.
#[verifier::opaque]
pub open spec fn service_description_at(t: Seq<TokenV>, i: int, a: Seq<XmlAttrV>) -> Result<(ServiceDescriptionV, int), ErrorKind> {
    match service_description_start(a) {
        Err(k) => Err(k),
        Ok(x) => service_description_scan(t, i, x),
    }
}

pub proof fn lemma_service_description_scan_pos(t: Seq<TokenV>, i: int, x: ServiceDescriptionV)
    ensures
        service_description_scan(t, i, x) matches Ok((_, j)) ==> i <= j <= t.len(),
    decreases t.len() - i,
{
    if 0 <= i < t.len() {
        match t[i] {
            TokenV::End(n) => if n != "ServiceDescription"@ {
                lemma_service_description_scan_pos(t, i + 1, x);
            },
            TokenV::Start(n, _, a) => if n == "Scope"@ {
                    lemma_skip_scan_pos(t, i + 1, 1);
                    if let Ok(v) = descriptor_start(a) {
                        if let Ok(j) = skip_scan(t, i + 1, 1) {
                            lemma_service_description_scan_pos(t, j, ServiceDescriptionV { scope: Some(v), ..x });
                        }
                    }
                } else if n == "Latency"@ {
                    lemma_skip_scan_pos(t, i + 1, 1);
                    if let Ok(v) = latency_start(a) {
                        if let Ok(j) = skip_scan(t, i + 1, 1) {
                            lemma_service_description_scan_pos(t, j, ServiceDescriptionV { latency: Some(v), ..x });
                        }
                    }
                } else if n == "PlaybackRate"@ {
                    lemma_skip_scan_pos(t, i + 1, 1);
                    if let Ok(v) = playback_rate_start(a) {
                        if let Ok(j) = skip_scan(t, i + 1, 1) {
                            lemma_service_description_scan_pos(t, j, ServiceDescriptionV { playback_rate: Some(v), ..x });
                        }
                    }
                } else if n == "OperatingQuality"@ {
                    lemma_skip_scan_pos(t, i + 1, 1);
                    if let Ok(v) = operating_quality_start(a) {
                        if let Ok(j) = skip_scan(t, i + 1, 1) {
                            lemma_service_description_scan_pos(t, j, ServiceDescriptionV { operating_quality: Some(v), ..x });
                        }
                    }
                } else if n == "OperatingBandwidth"@ {
                    lemma_skip_scan_pos(t, i + 1, 1);
                    if let Ok(v) = operating_bandwidth_start(a) {
                        if let Ok(j) = skip_scan(t, i + 1, 1) {
                            lemma_service_description_scan_pos(t, j, ServiceDescriptionV { operating_bandwidth: Some(v), ..x });
                        }
                    }
                } else if n == "ClientDataReporting"@ {
                    lemma_client_data_reporting_at_pos(t, i + 1, a);
                    if let Ok((v, j)) = client_data_reporting_at(t, i + 1, a) {
                        lemma_service_description_scan_pos(t, j, ServiceDescriptionV { client_data_reporting: Some(v), ..x });
                    }
                } else {
                    lemma_skip_scan_pos(t, i + 1, 1);
                    if let Ok(j) = skip_scan(t, i + 1, 1) {
                        lemma_service_description_scan_pos(t, j, x);
                    }
                },
            TokenV::Error => {},
            TokenV::EndDocument => {},
            _ => lemma_service_description_scan_pos(t, i + 1, x),
        }
    }
}


pub proof fn lemma_service_description_at_pos(t: Seq<TokenV>, i: int, a: Seq<XmlAttrV>)
    requires
        0 <= i <= t.len(),
    ensures
        service_description_at(t, i, a) matches Ok((_, j)) ==> i <= j <= t.len(),
{
    reveal(service_description_at);
    if let Ok(x) = service_description_start(a) {
        lemma_service_description_scan_pos(t, i, x);
    }
}

/// The value of a `Preselection` element with the attributes `a`, before its content.
#[verifier::opaque]
pub open spec fn preselection_start(a: Seq<XmlAttrV>) -> Result<PreselectionV, ErrorKind> {
    Ok(
        PreselectionV {
            id: first_attr(a, "id"@),
            preselection_components: first_attr(a, "preselectionComponents"@),
            lang: first_attr(a, "lang"@),
            tag: first_attr(a, "tag"@),
            order: opt_u32(first_attr(a, "order"@)),
            content_type: first_attr(a, "contentType"@),
            mime_type: first_attr(a, "mimeType"@),
            codecs: first_attr(a, "codecs"@),
            accessibilities: seq![],
            roles: seq![],
            viewpoints: seq![],
            labels: seq![],
            essential_properties: seq![],
            supplemental_properties: seq![],
        },
    )
}

/// The `Preselection` element whose value so far is `x`, read on from `t[i..]`: up
/// to its end tag (or the end of the document), with where the reading
/// goes on.
pub open spec fn preselection_scan(t: Seq<TokenV>, i: int, x: PreselectionV) -> Result<(PreselectionV, int), ErrorKind>
    decreases t.len() - i,
{
    if i < 0 || i > t.len() {
        Err(ErrorKind::Xml)
    } else if i == t.len() {
        Ok((x, i))
    } else {
        match t[i] {
            TokenV::Error => Err(ErrorKind::Xml),
            TokenV::EndDocument => Ok((x, i)),
            TokenV::End(n) => if n == "Preselection"@ {
                Ok((x, i + 1))
            } else {
                preselection_scan(t, i + 1, x)
            },
            TokenV::Start(n, _, a) => if n == "Accessibility"@ {
                    proof {
                        lemma_skip_scan_pos(t, i + 1, 1);
                    }
                    match descriptor_start(a) {
                        Err(k) => Err(k),
                        Ok(v) => match skip_scan(t, i + 1, 1) {
                            Ok(j) => preselection_scan(t, j, PreselectionV { accessibilities: x.accessibilities.push(v), ..x }),
                            Err(k) => Err(k),
                        },
                    }
                } else if n == "Role"@ {
                    proof {
                        lemma_skip_scan_pos(t, i + 1, 1);
                    }
                    match descriptor_start(a) {
                        Err(k) => Err(k),
                        Ok(v) => match skip_scan(t, i + 1, 1) {
                            Ok(j) => preselection_scan(t, j, PreselectionV { roles: x.roles.push(v), ..x }),
                            Err(k) => Err(k),
                        },
                    }
                } else if n == "Viewpoint"@ {
                    proof {
                        lemma_skip_scan_pos(t, i + 1, 1);
                    }
                    match descriptor_start(a) {
                        Err(k) => Err(k),
                        Ok(v) => match skip_scan(t, i + 1, 1) {
                            Ok(j) => preselection_scan(t, j, PreselectionV { viewpoints: x.viewpoints.push(v), ..x }),
                            Err(k) => Err(k),
                        },
                    }
                } else if n == "Label"@ {
                    proof {
                        lemma_text_scan_pos(t, i + 1, n, seq![]);
                    }
                    let (txt, j) = text_scan(t, i + 1, n, seq![]);
                    preselection_scan(t, j, match txt {
                        Some(s) => PreselectionV { labels: x.labels.push(LabelV { lang: first_attr(a, "lang"@), text: s }), ..x },
                        None => x,
                    })
                } else if n == "EssentialProperty"@ {
                    proof {
                        lemma_skip_scan_pos(t, i + 1, 1);
                    }
                    match descriptor_start(a) {
                        Err(k) => Err(k),
                        Ok(v) => match skip_scan(t, i + 1, 1) {
                            Ok(j) => preselection_scan(t, j, PreselectionV { essential_properties: x.essential_properties.push(v), ..x }),
                            Err(k) => Err(k),
                        },
                    }
                } else if n == "SupplementalProperty"@ {
                    proof {
                        lemma_skip_scan_pos(t, i + 1, 1);
                    }
                    match descriptor_start(a) {
                        Err(k) => Err(k),
                        Ok(v) => match skip_scan(t, i + 1, 1) {
                            Ok(j) => preselection_scan(t, j, PreselectionV { supplemental_properties: x.supplemental_properties.push(v), ..x }),
                            Err(k) => Err(k),
                        },
                    }
                } else {
                    proof {
                        lemma_skip_scan_pos(t, i + 1, 1);
                    }
                    match skip_scan(t, i + 1, 1) {
                        Ok(j) => preselection_scan(t, j, x),
                        Err(k) => Err(k),
                    }
                },
            _ => preselection_scan(t, i + 1, x),
        }
    }
}

/// The `Preselection` element with the attributes `a`, whose content begins at
/// `t[i]`.
#[verifier::opaque]
pub open spec fn preselection_at(t: Seq<TokenV>, i: int, a: Seq<XmlAttrV>) -> Result<(PreselectionV, int), ErrorKind> {
    match preselection_start(a) {
        Err(k) => Err(k),
        Ok(x) => preselection_scan(t, i, x),
    }
}

pub proof fn lemma_preselection_scan_pos(t: Seq<TokenV>, i: int, x: PreselectionV)
    ensures
        preselection_scan(t, i, x) matches Ok((_, j)) ==> i <= j <= t.len(),
    decreases t.len() - i,
{
    if 0 <= i < t.len() {
        match t[i] {
            TokenV::End(n) => if n != "Preselection"@ {
                lemma_preselection_scan_pos(t, i + 1, x);
            },
            TokenV::Start(n, _, a) => if n == "Accessibility"@ {
                    lemma_skip_scan_pos(t, i + 1, 1);
                    if let Ok(v) = descriptor_start(a) {
                        if let Ok(j) = skip_scan(t, i + 1, 1) {
                            lemma_preselection_scan_pos(t, j, PreselectionV { accessibilities: x.accessibilities.push(v), ..x });
                        }
                    }
                } else if n == "Role"@ {
                    lemma_skip_scan_pos(t, i + 1, 1);
                    if let Ok(v) = descriptor_start(a) {
                        if let Ok(j) = skip_scan(t, i + 1, 1) {
                            lemma_preselection_scan_pos(t, j, PreselectionV { roles: x.roles.push(v), ..x });
                        }
                    }
                } else if n == "Viewpoint"@ {
                    lemma_skip_scan_pos(t, i + 1, 1);
                    if let Ok(v) = descriptor_start(a) {
                        if let Ok(j) = skip_scan(t, i + 1, 1) {
                            lemma_preselection_scan_pos(t, j, PreselectionV { viewpoints: x.viewpoints.push(v), ..x });
                        }
                    }
                } else if n == "Label"@ {
                    lemma_text_scan_pos(t, i + 1, n, seq![]);
                    let (txt, j) = text_scan(t, i + 1, n, seq![]);
                    lemma_preselection_scan_pos(t, j, match txt {
                        Some(s) => PreselectionV { labels: x.labels.push(LabelV { lang: first_attr(a, "lang"@), text: s }), ..x },
                        None => x,
                    });
                } else if n == "EssentialProperty"@ {
                    lemma_skip_scan_pos(t, i + 1, 1);
                    if let Ok(v) = descriptor_start(a) {
                        if let Ok(j) = skip_scan(t, i + 1, 1) {
                            lemma_preselection_scan_pos(t, j, PreselectionV { essential_properties: x.essential_properties.push(v), ..x });
                        }
                    }
                } else if n == "SupplementalProperty"@ {
                    lemma_skip_scan_pos(t, i + 1, 1);
                    if let Ok(v) = descriptor_start(a) {
                        if let Ok(j) = skip_scan(t, i + 1, 1) {
                            lemma_preselection_scan_pos(t, j, PreselectionV { supplemental_properties: x.supplemental_properties.push(v), ..x });
                        }
                    }
                } else {
                    lemma_skip_scan_pos(t, i + 1, 1);
                    if let Ok(j) = skip_scan(t, i + 1, 1) {
                        lemma_preselection_scan_pos(t, j, x);
                    }
                },
            TokenV::Error => {},
            TokenV::EndDocument => {},
            _ => lemma_preselection_scan_pos(t, i + 1, x),
        }
    }
}


pub proof fn lemma_preselection_at_pos(t: Seq<TokenV>, i: int, a: Seq<XmlAttrV>)
    requires
        0 <= i <= t.len(),
    ensures
        preselection_at(t, i, a) matches Ok((_, j)) ==> i <= j <= t.len(),
{
    reveal(preselection_at);
    if let Ok(x) = preselection_start(a) {
        lemma_preselection_scan_pos(t, i, x);
    }
}

/// The value of a `SegmentBase` element with the attributes `a`, before its content.
#[verifier::opaque]
pub open spec fn segment_base_start(a: Seq<XmlAttrV>) -> Result<SegmentBaseV, ErrorKind> {
    Ok(
        SegmentBaseV {
            timescale: u64_or(first_attr(a, "timescale"@), 1),
            presentation_time_offset: u64_or(first_attr(a, "presentationTimeOffset"@), 0),
            index_range: first_attr(a, "indexRange"@),
            index_range_exact: opt_bool(first_attr(a, "indexRangeExact"@)),
            availability_time_offset: first_attr(a, "availabilityTimeOffset"@),
            availability_time_complete: opt_bool(first_attr(a, "availabilityTimeComplete"@)),
            initialization_source_url: None,
            initialization_range: None,
            representation_index_source_url: None,
            representation_index_range: None,
            bitstream_switching_source_url: None,
            bitstream_switching_range: None,
        },
    )
}

/// The `SegmentBase` element whose value so far is `x`, read on from `t[i..]`: up
/// to its end tag (or the end of the document), with where the reading
/// goes on.
pub open spec fn segment_base_scan(t: Seq<TokenV>, i: int, x: SegmentBaseV) -> Result<(SegmentBaseV, int), ErrorKind>
    decreases t.len() - i,
{
    if i < 0 || i > t.len() {
        Err(ErrorKind::Xml)
    } else if i == t.len() {
        Ok((x, i))
    } else {
        match t[i] {
            TokenV::Error => Err(ErrorKind::Xml),
            TokenV::EndDocument => Ok((x, i)),
            TokenV::End(n) => if n == "SegmentBase"@ {
                Ok((x, i + 1))
            } else {
                segment_base_scan(t, i + 1, x)
            },
            TokenV::Start(n, _, a) => if n == "Initialization"@ {
                    proof {
                        lemma_skip_scan_pos(t, i + 1, 1);
                    }
                    match skip_scan(t, i + 1, 1) {
                        Ok(j) => segment_base_scan(t, j, SegmentBaseV { initialization_source_url: first_attr(a, "sourceURL"@), initialization_range: first_attr(a, "range"@), ..x }),
                        Err(k) => Err(k),
                    }
                } else if n == "RepresentationIndex"@ {
                    proof {
                        lemma_skip_scan_pos(t, i + 1, 1);
                    }
                    match skip_scan(t, i + 1, 1) {
                        Ok(j) => segment_base_scan(t, j, SegmentBaseV { representation_index_source_url: first_attr(a, "sourceURL"@), representation_index_range: first_attr(a, "range"@), ..x }),
                        Err(k) => Err(k),
                    }
                } else if n == "BitstreamSwitching"@ {
                    proof {
                        lemma_skip_scan_pos(t, i + 1, 1);
                    }
                    match skip_scan(t, i + 1, 1) {
                        Ok(j) => segment_base_scan(t, j, SegmentBaseV { bitstream_switching_source_url: first_attr(a, "sourceURL"@), bitstream_switching_range: first_attr(a, "range"@), ..x }),
                        Err(k) => Err(k),
                    }
                } else {
                    proof {
                        lemma_skip_scan_pos(t, i + 1, 1);
                    }
                    match skip_scan(t, i + 1, 1) {
                        Ok(j) => segment_base_scan(t, j, x),
                        Err(k) => Err(k),
                    }
                },
            _ => segment_base_scan(t, i + 1, x),
        }
    }
}

/// The `SegmentBase` element with the attributes `a`, whose content begins at
/// `t[i]`.
#[verifier::opaque]
pub open spec fn segment_base_at(t: Seq<TokenV>, i: int, a: Seq<XmlAttrV>) -> Result<(SegmentBaseV, int), ErrorKind> {
    match segment_base_start(a) {
        Err(k) => Err(k),
        Ok(x) => segment_base_scan(t, i, x),
    }
}

pub proof fn lemma_segment_base_scan_pos(t: Seq<TokenV>, i: int, x: SegmentBaseV)
    ensures
        segment_base_scan(t, i, x) matches Ok((_, j)) ==> i <= j <= t.len(),
    decreases t.len() - i,
{
    if 0 <= i < t.len() {
        match t[i] {
            TokenV::End(n) => if n != "SegmentBase"@ {
                lemma_segment_base_scan_pos(t, i + 1, x);
            },
            TokenV::Start(n, _, a) => if n == "Initialization"@ {
                    lemma_skip_scan_pos(t, i + 1, 1);
                    if let Ok(j) = skip_scan(t, i + 1, 1) {
                        lemma_segment_base_scan_pos(t, j, SegmentBaseV { initialization_source_url: first_attr(a, "sourceURL"@), initialization_range: first_attr(a, "range"@), ..x });
                    }
                } else if n == "RepresentationIndex"@ {
                    lemma_skip_scan_pos(t, i + 1, 1);
                    if let Ok(j) = skip_scan(t, i + 1, 1) {
                        lemma_segment_base_scan_pos(t, j, SegmentBaseV { representation_index_source_url: first_attr(a, "sourceURL"@), representation_index_range: first_attr(a, "range"@), ..x });
                    }
                } else if n == "BitstreamSwitching"@ {
                    lemma_skip_scan_pos(t, i + 1, 1);
                    if let Ok(j) = skip_scan(t, i + 1, 1) {
                        lemma_segment_base_scan_pos(t, j, SegmentBaseV { bitstream_switching_source_url: first_attr(a, "sourceURL"@), bitstream_switching_range: first_attr(a, "range"@), ..x });
                    }
                } else {
                    lemma_skip_scan_pos(t, i + 1, 1);
                    if let Ok(j) = skip_scan(t, i + 1, 1) {
                        lemma_segment_base_scan_pos(t, j, x);
                    }
                },
            TokenV::Error => {},
            TokenV::EndDocument => {},
            _ => lemma_segment_base_scan_pos(t, i + 1, x),
        }
    }
}

/// Reading the content of a `SegmentBase` element changes only the fields that
/// its child elements fill: every value read from its attributes stays.
pub proof fn lemma_segment_base_scan_keeps_attributes(t: Seq<TokenV>, i: int, x: SegmentBaseV)
    ensures
        segment_base_scan(t, i, x) matches Ok((p, _)) ==> p == (SegmentBaseV { bitstream_switching_range: p.bitstream_switching_range, bitstream_switching_source_url: p.bitstream_switching_source_url, initialization_range: p.initialization_range, initialization_source_url: p.initialization_source_url, representation_index_range: p.representation_index_range, representation_index_source_url: p.representation_index_source_url, ..x }),
    decreases t.len() - i,
{
    if 0 <= i < t.len() {
        match t[i] {
            TokenV::End(n) => if n != "SegmentBase"@ {
                lemma_segment_base_scan_keeps_attributes(t, i + 1, x);
            },
            TokenV::Start(n, _, a) => if n == "Initialization"@ {
                    lemma_skip_scan_pos(t, i + 1, 1);
                    if let Ok(j) = skip_scan(t, i + 1, 1) {
                        lemma_segment_base_scan_keeps_attributes(t, j, SegmentBaseV { initialization_source_url: first_attr(a, "sourceURL"@), initialization_range: first_attr(a, "range"@), ..x });
                    }
                } else if n == "RepresentationIndex"@ {
                    lemma_skip_scan_pos(t, i + 1, 1);
                    if let Ok(j) = skip_scan(t, i + 1, 1) {
                        lemma_segment_base_scan_keeps_attributes(t, j, SegmentBaseV { representation_index_source_url: first_attr(a, "sourceURL"@), representation_index_range: first_attr(a, "range"@), ..x });
                    }
                } else if n == "BitstreamSwitching"@ {
                    lemma_skip_scan_pos(t, i + 1, 1);
                    if let Ok(j) = skip_scan(t, i + 1, 1) {
                        lemma_segment_base_scan_keeps_attributes(t, j, SegmentBaseV { bitstream_switching_source_url: first_attr(a, "sourceURL"@), bitstream_switching_range: first_attr(a, "range"@), ..x });
                    }
                } else {
                    lemma_skip_scan_pos(t, i + 1, 1);
                    if let Ok(j) = skip_scan(t, i + 1, 1) {
                        lemma_segment_base_scan_keeps_attributes(t, j, x);
                    }
                },
            TokenV::Error => {},
            TokenV::EndDocument => {},
            _ => lemma_segment_base_scan_keeps_attributes(t, i + 1, x),
        }
    }
}


pub proof fn lemma_segment_base_at_pos(t: Seq<TokenV>, i: int, a: Seq<XmlAttrV>)
    requires
        0 <= i <= t.len(),
    ensures
        segment_base_at(t, i, a) matches Ok((_, j)) ==> i <= j <= t.len(),
{
    reveal(segment_base_at);
    if let Ok(x) = segment_base_start(a) {
        lemma_segment_base_scan_pos(t, i, x);
    }
}

/// The value of a `SegmentList` element with the attributes `a`, before its content.
#[verifier::opaque]
pub open spec fn segment_list_start(a: Seq<XmlAttrV>) -> Result<SegmentListV, ErrorKind> {
    Ok(
        SegmentListV {
            xlink_href: first_xlink_attr(a, "href"@),
            xlink_actuate: first_xlink_attr(a, "actuate"@),
            timescale: u64_or(first_attr(a, "timescale"@), 1),
            duration: opt_u64(first_attr(a, "duration"@)),
            start_number: u64_or(first_attr(a, "startNumber"@), 1),
            end_number: opt_u64(first_attr(a, "endNumber"@)),
            presentation_time_offset: u64_or(first_attr(a, "presentationTimeOffset"@), 0),
            availability_time_offset: first_attr(a, "availabilityTimeOffset"@),
            availability_time_complete: opt_bool(first_attr(a, "availabilityTimeComplete"@)),
            initialization_source_url: None,
            initialization_range: None,
            representation_index_source_url: None,
            representation_index_range: None,
            bitstream_switching_source_url: None,
            bitstream_switching_range: None,
            segment_urls: seq![],
            segment_timeline: None,
        },
    )
}

/// The `SegmentList` element whose value so far is `x`, read on from `t[i..]`: up
/// to its end tag (or the end of the document), with where the reading
/// goes on.
pub open spec fn segment_list_scan(t: Seq<TokenV>, i: int, x: SegmentListV) -> Result<(SegmentListV, int), ErrorKind>
    decreases t.len() - i,
{
    if i < 0 || i > t.len() {
        Err(ErrorKind::Xml)
    } else if i == t.len() {
        Ok((x, i))
    } else {
        match t[i] {
            TokenV::Error => Err(ErrorKind::Xml),
            TokenV::EndDocument => Ok((x, i)),
            TokenV::End(n) => if n == "SegmentList"@ {
                Ok((x, i + 1))
            } else {
                segment_list_scan(t, i + 1, x)
            },
            TokenV::Start(n, _, a) => if n == "Initialization"@ {
                    proof {
                        lemma_skip_scan_pos(t, i + 1, 1);
                    }
                    match skip_scan(t, i + 1, 1) {
                        Ok(j) => segment_list_scan(t, j, SegmentListV { initialization_source_url: first_attr(a, "sourceURL"@), initialization_range: first_attr(a, "range"@), ..x }),
                        Err(k) => Err(k),
                    }
                } else if n == "RepresentationIndex"@ {
                    proof {
                        lemma_skip_scan_pos(t, i + 1, 1);
                    }
                    match skip_scan(t, i + 1, 1) {
                        Ok(j) => segment_list_scan(t, j, SegmentListV { representation_index_source_url: first_attr(a, "sourceURL"@), representation_index_range: first_attr(a, "range"@), ..x }),
                        Err(k) => Err(k),
                    }
                } else if n == "BitstreamSwitching"@ {
                    proof {
                        lemma_skip_scan_pos(t, i + 1, 1);
                    }
                    match skip_scan(t, i + 1, 1) {
                        Ok(j) => segment_list_scan(t, j, SegmentListV { bitstream_switching_source_url: first_attr(a, "sourceURL"@), bitstream_switching_range: first_attr(a, "range"@), ..x }),
                        Err(k) => Err(k),
                    }
                } else if n == "SegmentURL"@ {
                    proof {
                        lemma_skip_scan_pos(t, i + 1, 1);
                    }
                    match segment_url_start(a) {
                        Err(k) => Err(k),
                        Ok(v) => match skip_scan(t, i + 1, 1) {
                            Ok(j) => segment_list_scan(t, j, SegmentListV { segment_urls: x.segment_urls.push(v), ..x }),
                            Err(k) => Err(k),
                        },
                    }
                } else if n == "SegmentTimeline"@ {
                    proof {
                        lemma_timeline_scan_pos(t, i + 1, seq![]);
                    }
                    let (es, j) = timeline_scan(t, i + 1, seq![]);
                    segment_list_scan(t, j, SegmentListV { segment_timeline: Some(es), ..x })
                } else {
                    proof {
                        lemma_skip_scan_pos(t, i + 1, 1);
                    }
                    match skip_scan(t, i + 1, 1) {
                        Ok(j) => segment_list_scan(t, j, x),
                        Err(k) => Err(k),
                    }
                },
            _ => segment_list_scan(t, i + 1, x),
        }
    }
}

/// The `SegmentList` element with the attributes `a`, whose content begins at
/// `t[i]`.
#[verifier::opaque]
pub open spec fn segment_list_at(t: Seq<TokenV>, i: int, a: Seq<XmlAttrV>) -> Result<(SegmentListV, int), ErrorKind> {
    match segment_list_start(a) {
        Err(k) => Err(k),
        Ok(x) => segment_list_scan(t, i, x),
    }
}

pub proof fn lemma_segment_list_scan_pos(t: Seq<TokenV>, i: int, x: SegmentListV)
    ensures
        segment_list_scan(t, i, x) matches Ok((_, j)) ==> i <= j <= t.len(),
    decreases t.len() - i,
{
    if 0 <= i < t.len() {
        match t[i] {
            TokenV::End(n) => if n != "SegmentList"@ {
                lemma_segment_list_scan_pos(t, i + 1, x);
            },
            TokenV::Start(n, _, a) => if n == "Initialization"@ {
                    lemma_skip_scan_pos(t, i + 1, 1);
                    if let Ok(j) = skip_scan(t, i + 1, 1) {
                        lemma_segment_list_scan_pos(t, j, SegmentListV { initialization_source_url: first_attr(a, "sourceURL"@), initialization_range: first_attr(a, "range"@), ..x });
                    }
                } else if n == "RepresentationIndex"@ {
                    lemma_skip_scan_pos(t, i + 1, 1);
                    if let Ok(j) = skip_scan(t, i + 1, 1) {
                        lemma_segment_list_scan_pos(t, j, SegmentListV { representation_index_source_url: first_attr(a, "sourceURL"@), representation_index_range: first_attr(a, "range"@), ..x });
                    }
                } else if n == "BitstreamSwitching"@ {
                    lemma_skip_scan_pos(t, i + 1, 1);
                    if let Ok(j) = skip_scan(t, i + 1, 1) {
                        lemma_segment_list_scan_pos(t, j, SegmentListV { bitstream_switching_source_url: first_attr(a, "sourceURL"@), bitstream_switching_range: first_attr(a, "range"@), ..x });
                    }
                } else if n == "SegmentURL"@ {
                    lemma_skip_scan_pos(t, i + 1, 1);
                    if let Ok(v) = segment_url_start(a) {
                        if let Ok(j) = skip_scan(t, i + 1, 1) {
                            lemma_segment_list_scan_pos(t, j, SegmentListV { segment_urls: x.segment_urls.push(v), ..x });
                        }
                    }
                } else if n == "SegmentTimeline"@ {
                    lemma_timeline_scan_pos(t, i + 1, seq![]);
                    let (es, j) = timeline_scan(t, i + 1, seq![]);
                    lemma_segment_list_scan_pos(t, j, SegmentListV { segment_timeline: Some(es), ..x });
                } else {
                    lemma_skip_scan_pos(t, i + 1, 1);
                    if let Ok(j) = skip_scan(t, i + 1, 1) {
                        lemma_segment_list_scan_pos(t, j, x);
                    }
                },
            TokenV::Error => {},
            TokenV::EndDocument => {},
            _ => lemma_segment_list_scan_pos(t, i + 1, x),
        }
    }
}

/// Reading the content of a `SegmentList` element changes only the fields that
/// its child elements fill: every value read from its attributes stays.
pub proof fn lemma_segment_list_scan_keeps_attributes(t: Seq<TokenV>, i: int, x: SegmentListV)
    ensures
        segment_list_scan(t, i, x) matches Ok((p, _)) ==> p == (SegmentListV { bitstream_switching_range: p.bitstream_switching_range, bitstream_switching_source_url: p.bitstream_switching_source_url, initialization_range: p.initialization_range, initialization_source_url: p.initialization_source_url, representation_index_range: p.representation_index_range, representation_index_source_url: p.representation_index_source_url, segment_timeline: p.segment_timeline, segment_urls: p.segment_urls, ..x }),
    decreases t.len() - i,
{
    if 0 <= i < t.len() {
        match t[i] {
            TokenV::End(n) => if n != "SegmentList"@ {
                lemma_segment_list_scan_keeps_attributes(t, i + 1, x);
            },
            TokenV::Start(n, _, a) => if n == "Initialization"@ {
                    lemma_skip_scan_pos(t, i + 1, 1);
                    if let Ok(j) = skip_scan(t, i + 1, 1) {
                        lemma_segment_list_scan_keeps_attributes(t, j, SegmentListV { initialization_source_url: first_attr(a, "sourceURL"@), initialization_range: first_attr(a, "range"@), ..x });
                    }
                } else if n == "RepresentationIndex"@ {
                    lemma_skip_scan_pos(t, i + 1, 1);
                    if let Ok(j) = skip_scan(t, i + 1, 1) {
                        lemma_segment_list_scan_keeps_attributes(t, j, SegmentListV { representation_index_source_url: first_attr(a, "sourceURL"@), representation_index_range: first_attr(a, "range"@), ..x });
                    }
                } else if n == "BitstreamSwitching"@ {
                    lemma_skip_scan_pos(t, i + 1, 1);
                    if let Ok(j) = skip_scan(t, i + 1, 1) {
                        lemma_segment_list_scan_keeps_attributes(t, j, SegmentListV { bitstream_switching_source_url: first_attr(a, "sourceURL"@), bitstream_switching_range: first_attr(a, "range"@), ..x });
                    }
                } else if n == "SegmentURL"@ {
                    lemma_skip_scan_pos(t, i + 1, 1);
                    if let Ok(v) = segment_url_start(a) {
                        if let Ok(j) = skip_scan(t, i + 1, 1) {
                            lemma_segment_list_scan_keeps_attributes(t, j, SegmentListV { segment_urls: x.segment_urls.push(v), ..x });
                        }
                    }
                } else if n == "SegmentTimeline"@ {
                    lemma_timeline_scan_pos(t, i + 1, seq![]);
                    let (es, j) = timeline_scan(t, i + 1, seq![]);
                    lemma_segment_list_scan_keeps_attributes(t, j, SegmentListV { segment_timeline: Some(es), ..x });
                } else {
                    lemma_skip_scan_pos(t, i + 1, 1);
                    if let Ok(j) = skip_scan(t, i + 1, 1) {
                        lemma_segment_list_scan_keeps_attributes(t, j, x);
                    }
                },
            TokenV::Error => {},
            TokenV::EndDocument => {},
            _ => lemma_segment_list_scan_keeps_attributes(t, i + 1, x),
        }
    }
}


pub proof fn lemma_segment_list_at_pos(t: Seq<TokenV>, i: int, a: Seq<XmlAttrV>)
    requires
        0 <= i <= t.len(),
    ensures
        segment_list_at(t, i, a) matches Ok((_, j)) ==> i <= j <= t.len(),
{
    reveal(segment_list_at);
    if let Ok(x) = segment_list_start(a) {
        lemma_segment_list_scan_pos(t, i, x);
    }
}

/// The value of a `SegmentTemplate` element with the attributes `a`, before its content.
#[verifier::opaque]
pub open spec fn segment_template_start(a: Seq<XmlAttrV>) -> Result<SegmentTemplateV, ErrorKind> {
    Ok(
        SegmentTemplateV {
            media: first_attr(a, "media"@),
            initialization: first_attr(a, "initialization"@),
            index: first_attr(a, "index"@),
            timescale: u64_or(first_attr(a, "timescale"@), 1),
            duration: opt_u64(first_attr(a, "duration"@)),
            start_number: u64_or(first_attr(a, "startNumber"@), 1),
            end_number: opt_u64(first_attr(a, "endNumber"@)),
            presentation_time_offset: u64_or(first_attr(a, "presentationTimeOffset"@), 0),
            availability_time_offset: first_attr(a, "availabilityTimeOffset"@),
            availability_time_complete: opt_bool(first_attr(a, "availabilityTimeComplete"@)),
            bitstream_switching_source_url: None,
            bitstream_switching_range: None,
            segment_timeline: None,
        },
    )
}

/// The `SegmentTemplate` element whose value so far is `x`, read on from `t[i..]`: up
/// to its end tag (or the end of the document), with where the reading
/// goes on.
pub open spec fn segment_template_scan(t: Seq<TokenV>, i: int, x: SegmentTemplateV) -> Result<(SegmentTemplateV, int), ErrorKind>
    decreases t.len() - i,
{
    if i < 0 || i > t.len() {
        Err(ErrorKind::Xml)
    } else if i == t.len() {
        Ok((x, i))
    } else {
        match t[i] {
            TokenV::Error => Err(ErrorKind::Xml),
            TokenV::EndDocument => Ok((x, i)),
            TokenV::End(n) => if n == "SegmentTemplate"@ {
                Ok((x, i + 1))
            } else {
                segment_template_scan(t, i + 1, x)
            },
            TokenV::Start(n, _, a) => if n == "SegmentTimeline"@ {
                    proof {
                        lemma_timeline_scan_pos(t, i + 1, seq![]);
                    }
                    let (es, j) = timeline_scan(t, i + 1, seq![]);
                    segment_template_scan(t, j, SegmentTemplateV { segment_timeline: Some(es), ..x })
                } else if n == "BitstreamSwitching"@ {
                    proof {
                        lemma_skip_scan_pos(t, i + 1, 1);
                    }
                    match skip_scan(t, i + 1, 1) {
                        Ok(j) => segment_template_scan(t, j, SegmentTemplateV { bitstream_switching_source_url: first_attr(a, "sourceURL"@), bitstream_switching_range: first_attr(a, "range"@), ..x }),
                        Err(k) => Err(k),
                    }
                } else {
                    proof {
                        lemma_skip_scan_pos(t, i + 1, 1);
                    }
                    match skip_scan(t, i + 1, 1) {
                        Ok(j) => segment_template_scan(t, j, x),
                        Err(k) => Err(k),
                    }
                },
            _ => segment_template_scan(t, i + 1, x),
        }
    }
}

/// The `SegmentTemplate` element with the attributes `a`, whose content begins at
/// `t[i]`.
#[verifier::opaque]
pub open spec fn segment_template_at(t: Seq<TokenV>, i: int, a: Seq<XmlAttrV>) -> Result<(SegmentTemplateV, int), ErrorKind> {
    match segment_template_start(a) {
        Err(k) => Err(k),
        Ok(x) => segment_template_scan(t, i, x),
    }
}

pub proof fn lemma_segment_template_scan_pos(t: Seq<TokenV>, i: int, x: SegmentTemplateV)
    ensures
        segment_template_scan(t, i, x) matches Ok((_, j)) ==> i <= j <= t.len(),
    decreases t.len() - i,
{
    if 0 <= i < t.len() {
        match t[i] {
            TokenV::End(n) => if n != "SegmentTemplate"@ {
                lemma_segment_template_scan_pos(t, i + 1, x);
            },
            TokenV::Start(n, _, a) => if n == "SegmentTimeline"@ {
                    lemma_timeline_scan_pos(t, i + 1, seq![]);
                    let (es, j) = timeline_scan(t, i + 1, seq![]);
                    lemma_segment_template_scan_pos(t, j, SegmentTemplateV { segment_timeline: Some(es), ..x });
                } else if n == "BitstreamSwitching"@ {
                    lemma_skip_scan_pos(t, i + 1, 1);
                    if let Ok(j) = skip_scan(t, i + 1, 1) {
                        lemma_segment_template_scan_pos(t, j, SegmentTemplateV { bitstream_switching_source_url: first_attr(a, "sourceURL"@), bitstream_switching_range: first_attr(a, "range"@), ..x });
                    }
                } else {
                    lemma_skip_scan_pos(t, i + 1, 1);
                    if let Ok(j) = skip_scan(t, i + 1, 1) {
                        lemma_segment_template_scan_pos(t, j, x);
                    }
                },
            TokenV::Error => {},
            TokenV::EndDocument => {},
            _ => lemma_segment_template_scan_pos(t, i + 1, x),
        }
    }
}

/// Reading the content of a `SegmentTemplate` element changes only the fields that
/// its child elements fill: every value read from its attributes stays.
pub proof fn lemma_segment_template_scan_keeps_attributes(t: Seq<TokenV>, i: int, x: SegmentTemplateV)
    ensures
        segment_template_scan(t, i, x) matches Ok((p, _)) ==> p == (SegmentTemplateV { bitstream_switching_range: p.bitstream_switching_range, bitstream_switching_source_url: p.bitstream_switching_source_url, segment_timeline: p.segment_timeline, ..x }),
    decreases t.len() - i,
{
    if 0 <= i < t.len() {
        match t[i] {
            TokenV::End(n) => if n != "SegmentTemplate"@ {
                lemma_segment_template_scan_keeps_attributes(t, i + 1, x);
            },
            TokenV::Start(n, _, a) => if n == "SegmentTimeline"@ {
                    lemma_timeline_scan_pos(t, i + 1, seq![]);
                    let (es, j) = timeline_scan(t, i + 1, seq![]);
                    lemma_segment_template_scan_keeps_attributes(t, j, SegmentTemplateV { segment_timeline: Some(es), ..x });
                } else if n == "BitstreamSwitching"@ {
                    lemma_skip_scan_pos(t, i + 1, 1);
                    if let Ok(j) = skip_scan(t, i + 1, 1) {
                        lemma_segment_template_scan_keeps_attributes(t, j, SegmentTemplateV { bitstream_switching_source_url: first_attr(a, "sourceURL"@), bitstream_switching_range: first_attr(a, "range"@), ..x });
                    }
                } else {
                    lemma_skip_scan_pos(t, i + 1, 1);
                    if let Ok(j) = skip_scan(t, i + 1, 1) {
                        lemma_segment_template_scan_keeps_attributes(t, j, x);
                    }
                },
            TokenV::Error => {},
            TokenV::EndDocument => {},
            _ => lemma_segment_template_scan_keeps_attributes(t, i + 1, x),
        }
    }
}


pub proof fn lemma_segment_template_at_pos(t: Seq<TokenV>, i: int, a: Seq<XmlAttrV>)
    requires
        0 <= i <= t.len(),
    ensures
        segment_template_at(t, i, a) matches Ok((_, j)) ==> i <= j <= t.len(),
{
    reveal(segment_template_at);
    if let Ok(x) = segment_template_start(a) {
        lemma_segment_template_scan_pos(t, i, x);
    }
}

/// The value of a `SubRepresentation` element with the attributes `a`, before its content.
#[verifier::opaque]
pub open spec fn sub_representation_start(a: Seq<XmlAttrV>) -> Result<SubRepresentationV, ErrorKind> {
    match dur_attr(first_attr(a, "maximumSAPPeriod"@)) {
        Err(k) => Err(k),
        Ok(maximum_sap_period) => Ok(
        SubRepresentationV {
            level: opt_u32(first_attr(a, "level"@)),
            bandwidth: opt_u64(first_attr(a, "bandwidth"@)),
            content_component: first_attr(a, "contentComponent"@),
            codecs: first_attr(a, "codecs"@),
            dependency_level: first_attr(a, "dependencyLevel"@),
            width: opt_u32(first_attr(a, "width"@)),
            height: opt_u32(first_attr(a, "height"@)),
            mime_type: first_attr(a, "mimeType"@),
            frame_rate: first_attr(a, "frameRate"@),
            audio_sampling_rate: opt_u32(first_attr(a, "audioSamplingRate"@)),
            sar: first_attr(a, "sar"@),
            scan_type: first_attr(a, "scanType"@),
            profiles: first_attr(a, "profiles"@),
            start_with_sap: opt_u32(first_attr(a, "startWithSAP"@)),
            max_playout_rate: first_attr(a, "maxPlayoutRate"@),
            coding_dependency: opt_bool(first_attr(a, "codingDependency"@)),
            maximum_sap_period: maximum_sap_period,
            segment_profiles: first_attr(a, "segmentProfiles"@),
            content_protections: seq![],
            audio_channel_configurations: seq![],
            frame_packings: seq![],
            inband_event_streams: seq![],
            essential_properties: seq![],
            supplemental_properties: seq![],
            segment_sequence_properties: seq![],
        },
    ),
    }
}

/// The `SubRepresentation` element whose value so far is `x`, read on from `t[i..]`: up
/// to its end tag (or the end of the document), with where the reading
/// goes on.
pub open spec fn sub_representation_scan(t: Seq<TokenV>, i: int, x: SubRepresentationV) -> Result<(SubRepresentationV, int), ErrorKind>
    decreases t.len() - i,
{
    if i < 0 || i > t.len() {
        Err(ErrorKind::Xml)
    } else if i == t.len() {
        Ok((x, i))
    } else {
        match t[i] {
            TokenV::Error => Err(ErrorKind::Xml),
            TokenV::EndDocument => Ok((x, i)),
            TokenV::End(n) => if n == "SubRepresentation"@ {
                Ok((x, i + 1))
            } else {
                sub_representation_scan(t, i + 1, x)
            },
            TokenV::Start(n, _, a) => if n == "ContentProtection"@ {
                    proof {
                        lemma_content_protection_at_pos(t, i + 1, a);
                    }
                    match content_protection_at(t, i + 1, a) {
                        Ok((v, j)) => sub_representation_scan(t, j, SubRepresentationV { content_protections: x.content_protections.push(v), ..x }),
                        Err(k) => Err(k),
                    }
                } else if n == "AudioChannelConfiguration"@ {
                    proof {
                        lemma_skip_scan_pos(t, i + 1, 1);
                    }
                    match descriptor_start(a) {
                        Err(k) => Err(k),
                        Ok(v) => match skip_scan(t, i + 1, 1) {
                            Ok(j) => sub_representation_scan(t, j, SubRepresentationV { audio_channel_configurations: x.audio_channel_configurations.push(v), ..x }),
                            Err(k) => Err(k),
                        },
                    }
                } else if n == "FramePacking"@ {
                    proof {
                        lemma_skip_scan_pos(t, i + 1, 1);
                    }
                    match descriptor_start(a) {
                        Err(k) => Err(k),
                        Ok(v) => match skip_scan(t, i + 1, 1) {
                            Ok(j) => sub_representation_scan(t, j, SubRepresentationV { frame_packings: x.frame_packings.push(v), ..x }),
                            Err(k) => Err(k),
                        },
                    }
                } else if n == "InbandEventStream"@ {
                    proof {
                        lemma_skip_scan_pos(t, i + 1, 1);
                    }
                    match descriptor_start(a) {
                        Err(k) => Err(k),
                        Ok(v) => match skip_scan(t, i + 1, 1) {
                            Ok(j) => sub_representation_scan(t, j, SubRepresentationV { inband_event_streams: x.inband_event_streams.push(v), ..x }),
                            Err(k) => Err(k),
                        },
                    }
                } else if n == "EssentialProperty"@ {
                    proof {
                        lemma_skip_scan_pos(t, i + 1, 1);
                    }
                    match descriptor_start(a) {
                        Err(k) => Err(k),
                        Ok(v) => match skip_scan(t, i + 1, 1) {
                            Ok(j) => sub_representation_scan(t, j, SubRepresentationV { essential_properties: x.essential_properties.push(v), ..x }),
                            Err(k) => Err(k),
                        },
                    }
                } else if n == "SupplementalProperty"@ {
                    proof {
                        lemma_skip_scan_pos(t, i + 1, 1);
                    }
                    match descriptor_start(a) {
                        Err(k) => Err(k),
                        Ok(v) => match skip_scan(t, i + 1, 1) {
                            Ok(j) => sub_representation_scan(t, j, SubRepresentationV { supplemental_properties: x.supplemental_properties.push(v), ..x }),
                            Err(k) => Err(k),
                        },
                    }
                } else if n == "SegmentSequenceProperties"@ {
                    proof {
                        lemma_skip_scan_pos(t, i + 1, 1);
                    }
                    match segment_sequence_properties_start(a) {
                        Err(k) => Err(k),
                        Ok(v) => match skip_scan(t, i + 1, 1) {
                            Ok(j) => sub_representation_scan(t, j, SubRepresentationV { segment_sequence_properties: x.segment_sequence_properties.push(v), ..x }),
                            Err(k) => Err(k),
                        },
                    }
                } else {
                    proof {
                        lemma_skip_scan_pos(t, i + 1, 1);
                    }
                    match skip_scan(t, i + 1, 1) {
                        Ok(j) => sub_representation_scan(t, j, x),
                        Err(k) => Err(k),
                    }
                },
            _ => sub_representation_scan(t, i + 1, x),
        }
    }
}

/// The `SubRepresentation` element with the attributes `a`, whose content begins at
/// `t[i]`.
#[verifier::opaque]
pub open spec fn sub_representation_at(t: Seq<TokenV>, i: int, a: Seq<XmlAttrV>) -> Result<(SubRepresentationV, int), ErrorKind> {
    match sub_representation_start(a) {
        Err(k) => Err(k),
        Ok(x) => sub_representation_scan(t, i, x),
    }
}

pub proof fn lemma_sub_representation_scan_pos(t: Seq<TokenV>, i: int, x: SubRepresentationV)
    ensures
        sub_representation_scan(t, i, x) matches Ok((_, j)) ==> i <= j <= t.len(),
    decreases t.len() - i,
{
    if 0 <= i < t.len() {
        match t[i] {
            TokenV::End(n) => if n != "SubRepresentation"@ {
                lemma_sub_representation_scan_pos(t, i + 1, x);
            },
            TokenV::Start(n, _, a) => if n == "ContentProtection"@ {
                    lemma_content_protection_at_pos(t, i + 1, a);
                    if let Ok((v, j)) = content_protection_at(t, i + 1, a) {
                        lemma_sub_representation_scan_pos(t, j, SubRepresentationV { content_protections: x.content_protections.push(v), ..x });
                    }
                } else if n == "AudioChannelConfiguration"@ {
                    lemma_skip_scan_pos(t, i + 1, 1);
                    if let Ok(v) = descriptor_start(a) {
                        if let Ok(j) = skip_scan(t, i + 1, 1) {
                            lemma_sub_representation_scan_pos(t, j, SubRepresentationV { audio_channel_configurations: x.audio_channel_configurations.push(v), ..x });
                        }
                    }
                } else if n == "FramePacking"@ {
                    lemma_skip_scan_pos(t, i + 1, 1);
                    if let Ok(v) = descriptor_start(a) {
                        if let Ok(j) = skip_scan(t, i + 1, 1) {
                            lemma_sub_representation_scan_pos(t, j, SubRepresentationV { frame_packings: x.frame_packings.push(v), ..x });
                        }
                    }
                } else if n == "InbandEventStream"@ {
                    lemma_skip_scan_pos(t, i + 1, 1);
                    if let Ok(v) = descriptor_start(a) {
                        if let Ok(j) = skip_scan(t, i + 1, 1) {
                            lemma_sub_representation_scan_pos(t, j, SubRepresentationV { inband_event_streams: x.inband_event_streams.push(v), ..x });
                        }
                    }
                } else if n == "EssentialProperty"@ {
                    lemma_skip_scan_pos(t, i + 1, 1);
                    if let Ok(v) = descriptor_start(a) {
                        if let Ok(j) = skip_scan(t, i + 1, 1) {
                            lemma_sub_representation_scan_pos(t, j, SubRepresentationV { essential_properties: x.essential_properties.push(v), ..x });
                        }
                    }
                } else if n == "SupplementalProperty"@ {
                    lemma_skip_scan_pos(t, i + 1, 1);
                    if let Ok(v) = descriptor_start(a) {
                        if let Ok(j) = skip_scan(t, i + 1, 1) {
                            lemma_sub_representation_scan_pos(t, j, SubRepresentationV { supplemental_properties: x.supplemental_properties.push(v), ..x });
                        }
                    }
                } else if n == "SegmentSequenceProperties"@ {
                    lemma_skip_scan_pos(t, i + 1, 1);
                    if let Ok(v) = segment_sequence_properties_start(a) {
                        if let Ok(j) = skip_scan(t, i + 1, 1) {
                            lemma_sub_representation_scan_pos(t, j, SubRepresentationV { segment_sequence_properties: x.segment_sequence_properties.push(v), ..x });
                        }
                    }
                } else {
                    lemma_skip_scan_pos(t, i + 1, 1);
                    if let Ok(j) = skip_scan(t, i + 1, 1) {
                        lemma_sub_representation_scan_pos(t, j, x);
                    }
                },
            TokenV::Error => {},
            TokenV::EndDocument => {},
            _ => lemma_sub_representation_scan_pos(t, i + 1, x),
        }
    }
}


pub proof fn lemma_sub_representation_at_pos(t: Seq<TokenV>, i: int, a: Seq<XmlAttrV>)
    requires
        0 <= i <= t.len(),
    ensures
        sub_representation_at(t, i, a) matches Ok((_, j)) ==> i <= j <= t.len(),
{
    reveal(sub_representation_at);
    if let Ok(x) = sub_representation_start(a) {
        lemma_sub_representation_scan_pos(t, i, x);
    }
}

/// The value of a `Representation` element with the attributes `a`, before its content.
#[verifier::opaque]
pub open spec fn representation_start(a: Seq<XmlAttrV>) -> Result<RepresentationV, ErrorKind> {
    match first_attr(a, "id"@) {
        None => Err(ErrorKind::MissingAttribute { element: "Representation", attribute: "id" }),
        Some(id) => match first_attr(a, "bandwidth"@) {
        None => Err(ErrorKind::MissingAttribute { element: "Representation", attribute: "bandwidth" }),
        Some(bandwidth_text) => match u64_of(bandwidth_text) {
        None => Err(ErrorKind::InvalidAttributeValue { attribute: "bandwidth" }),
        Some(bandwidth) => match dur_attr(first_attr(a, "maximumSAPPeriod"@)) {
        Err(k) => Err(k),
        Ok(maximum_sap_period) => Ok(
        RepresentationV {
            id: id,
            bandwidth: bandwidth,
            width: opt_u32(first_attr(a, "width"@)),
            height: opt_u32(first_attr(a, "height"@)),
            codecs: first_attr(a, "codecs"@),
            frame_rate: first_attr(a, "frameRate"@),
            audio_sampling_rate: opt_u32(first_attr(a, "audioSamplingRate"@)),
            mime_type: first_attr(a, "mimeType"@),
            sar: first_attr(a, "sar"@),
            quality_ranking: opt_u32(first_attr(a, "qualityRanking"@)),
            dependency_id: first_attr(a, "dependencyId"@),
            max_playout_rate: first_attr(a, "maxPlayoutRate"@),
            scan_type: first_attr(a, "scanType"@),
            start_with_sap: opt_u32(first_attr(a, "startWithSAP"@)),
            profiles: first_attr(a, "profiles"@),
            coding_dependency: opt_bool(first_attr(a, "codingDependency"@)),
            supplemental_codecs: first_attr(a, "supplementalCodecs"@),
            codec_private_data: first_attr(a, "codecPrivateData"@),
            media_stream_structure_id: first_attr(a, "mediaStreamStructureId"@),
            maximum_sap_period: maximum_sap_period,
            segment_profiles: first_attr(a, "segmentProfiles"@),
            base_urls: seq![],
            audio_channel_configurations: seq![],
            essential_properties: seq![],
            supplemental_properties: seq![],
            frame_packings: seq![],
            inband_event_streams: seq![],
            producer_reference_times: seq![],
            segment_sequence_properties: seq![],
            sub_representations: seq![],
            segment_base: None,
            segment_list: None,
            segment_template: None,
            content_protections: seq![],
        },
    ),
    },
    },
    },
    }
}

/// The `Representation` element whose value so far is `x`, read on from `t[i..]`: up
/// to its end tag (or the end of the document), with where the reading
/// goes on.
pub open spec fn representation_scan(t: Seq<TokenV>, i: int, x: RepresentationV) -> Result<(RepresentationV, int), ErrorKind>
    decreases t.len() - i,
{
    if i < 0 || i > t.len() {
        Err(ErrorKind::Xml)
    } else if i == t.len() {
        Ok((x, i))
    } else {
        match t[i] {
            TokenV::Error => Err(ErrorKind::Xml),
            TokenV::EndDocument => Ok((x, i)),
            TokenV::End(n) => if n == "Representation"@ {
                Ok((x, i + 1))
            } else {
                representation_scan(t, i + 1, x)
            },
            TokenV::Start(n, _, a) => if n == "BaseURL"@ {
                    proof {
                        lemma_base_url_at_pos(t, i + 1, a);
                    }
                    match base_url_at(t, i + 1, a) {
                        Ok((v, j)) => representation_scan(t, j, RepresentationV { base_urls: x.base_urls.push(v), ..x }),
                        Err(k) => Err(k),
                    }
                } else if n == "AudioChannelConfiguration"@ {
                    proof {
                        lemma_skip_scan_pos(t, i + 1, 1);
                    }
                    match descriptor_start(a) {
                        Err(k) => Err(k),
                        Ok(v) => match skip_scan(t, i + 1, 1) {
                            Ok(j) => representation_scan(t, j, RepresentationV { audio_channel_configurations: x.audio_channel_configurations.push(v), ..x }),
                            Err(k) => Err(k),
                        },
                    }
                } else if n == "EssentialProperty"@ {
                    proof {
                        lemma_skip_scan_pos(t, i + 1, 1);
                    }
                    match descriptor_start(a) {
                        Err(k) => Err(k),
                        Ok(v) => match skip_scan(t, i + 1, 1) {
                            Ok(j) => representation_scan(t, j, RepresentationV { essential_properties: x.essential_properties.push(v), ..x }),
                            Err(k) => Err(k),
                        },
                    }
                } else if n == "SupplementalProperty"@ {
                    proof {
                        lemma_skip_scan_pos(t, i + 1, 1);
                    }
                    match descriptor_start(a) {
                        Err(k) => Err(k),
                        Ok(v) => match skip_scan(t, i + 1, 1) {
                            Ok(j) => representation_scan(t, j, RepresentationV { supplemental_properties: x.supplemental_properties.push(v), ..x }),
                            Err(k) => Err(k),
                        },
                    }
                } else if n == "FramePacking"@ {
                    proof {
                        lemma_skip_scan_pos(t, i + 1, 1);
                    }
                    match descriptor_start(a) {
                        Err(k) => Err(k),
                        Ok(v) => match skip_scan(t, i + 1, 1) {
                            Ok(j) => representation_scan(t, j, RepresentationV { frame_packings: x.frame_packings.push(v), ..x }),
                            Err(k) => Err(k),
                        },
                    }
                } else if n == "InbandEventStream"@ {
                    proof {
                        lemma_skip_scan_pos(t, i + 1, 1);
                    }
                    match descriptor_start(a) {
                        Err(k) => Err(k),
                        Ok(v) => match skip_scan(t, i + 1, 1) {
                            Ok(j) => representation_scan(t, j, RepresentationV { inband_event_streams: x.inband_event_streams.push(v), ..x }),
                            Err(k) => Err(k),
                        },
                    }
                } else if n == "ProducerReferenceTime"@ {
                    proof {
                        lemma_producer_reference_time_at_pos(t, i + 1, a);
                    }
                    match producer_reference_time_at(t, i + 1, a) {
                        Ok((v, j)) => representation_scan(t, j, RepresentationV { producer_reference_times: x.producer_reference_times.push(v), ..x }),
                        Err(k) => Err(k),
                    }
                } else if n == "SegmentSequenceProperties"@ {
                    proof {
                        lemma_skip_scan_pos(t, i + 1, 1);
                    }
                    match segment_sequence_properties_start(a) {
                        Err(k) => Err(k),
                        Ok(v) => match skip_scan(t, i + 1, 1) {
                            Ok(j) => representation_scan(t, j, RepresentationV { segment_sequence_properties: x.segment_sequence_properties.push(v), ..x }),
                            Err(k) => Err(k),
                        },
                    }
                } else if n == "SubRepresentation"@ {
                    proof {
                        lemma_sub_representation_at_pos(t, i + 1, a);
                    }
                    match sub_representation_at(t, i + 1, a) {
                        Ok((v, j)) => representation_scan(t, j, RepresentationV { sub_representations: x.sub_representations.push(v), ..x }),
                        Err(k) => Err(k),
                    }
                } else if n == "SegmentBase"@ {
                    proof {
                        lemma_segment_base_at_pos(t, i + 1, a);
                    }
                    match segment_base_at(t, i + 1, a) {
                        Ok((v, j)) => representation_scan(t, j, RepresentationV { segment_base: Some(v), ..x }),
                        Err(k) => Err(k),
                    }
                } else if n == "SegmentList"@ {
                    proof {
                        lemma_segment_list_at_pos(t, i + 1, a);
                    }
                    match segment_list_at(t, i + 1, a) {
                        Ok((v, j)) => representation_scan(t, j, RepresentationV { segment_list: Some(v), ..x }),
                        Err(k) => Err(k),
                    }
                } else if n == "SegmentTemplate"@ {
                    proof {
                        lemma_segment_template_at_pos(t, i + 1, a);
                    }
                    match segment_template_at(t, i + 1, a) {
                        Ok((v, j)) => representation_scan(t, j, RepresentationV { segment_template: Some(v), ..x }),
                        Err(k) => Err(k),
                    }
                } else if n == "ContentProtection"@ {
                    proof {
                        lemma_content_protection_at_pos(t, i + 1, a);
                    }
                    match content_protection_at(t, i + 1, a) {
                        Ok((v, j)) => representation_scan(t, j, RepresentationV { content_protections: x.content_protections.push(v), ..x }),
                        Err(k) => Err(k),
                    }
                } else {
                    proof {
                        lemma_skip_scan_pos(t, i + 1, 1);
                    }
                    match skip_scan(t, i + 1, 1) {
                        Ok(j) => representation_scan(t, j, x),
                        Err(k) => Err(k),
                    }
                },
            _ => representation_scan(t, i + 1, x),
        }
    }
}

/// The `Representation` element with the attributes `a`, whose content begins at
/// `t[i]`.
#[verifier::opaque]
pub open spec fn representation_at(t: Seq<TokenV>, i: int, a: Seq<XmlAttrV>) -> Result<(RepresentationV, int), ErrorKind> {
    match representation_start(a) {
        Err(k) => Err(k),
        Ok(x) => representation_scan(t, i, x),
    }
}

pub proof fn lemma_representation_scan_pos(t: Seq<TokenV>, i: int, x: RepresentationV)
    ensures
        representation_scan(t, i, x) matches Ok((_, j)) ==> i <= j <= t.len(),
    decreases t.len() - i,
{
    if 0 <= i < t.len() {
        match t[i] {
            TokenV::End(n) => if n != "Representation"@ {
                lemma_representation_scan_pos(t, i + 1, x);
            },
            TokenV::Start(n, _, a) => if n == "BaseURL"@ {
                    lemma_base_url_at_pos(t, i + 1, a);
                    if let Ok((v, j)) = base_url_at(t, i + 1, a) {
                        lemma_representation_scan_pos(t, j, RepresentationV { base_urls: x.base_urls.push(v), ..x });
                    }
                } else if n == "AudioChannelConfiguration"@ {
                    lemma_skip_scan_pos(t, i + 1, 1);
                    if let Ok(v) = descriptor_start(a) {
                        if let Ok(j) = skip_scan(t, i + 1, 1) {
                            lemma_representation_scan_pos(t, j, RepresentationV { audio_channel_configurations: x.audio_channel_configurations.push(v), ..x });
                        }
                    }
                } else if n == "EssentialProperty"@ {
                    lemma_skip_scan_pos(t, i + 1, 1);
                    if let Ok(v) = descriptor_start(a) {
                        if let Ok(j) = skip_scan(t, i + 1, 1) {
                            lemma_representation_scan_pos(t, j, RepresentationV { essential_properties: x.essential_properties.push(v), ..x });
                        }
                    }
                } else if n == "SupplementalProperty"@ {
                    lemma_skip_scan_pos(t, i + 1, 1);
                    if let Ok(v) = descriptor_start(a) {
                        if let Ok(j) = skip_scan(t, i + 1, 1) {
                            lemma_representation_scan_pos(t, j, RepresentationV { supplemental_properties: x.supplemental_properties.push(v), ..x });
                        }
                    }
                } else if n == "FramePacking"@ {
                    lemma_skip_scan_pos(t, i + 1, 1);
                    if let Ok(v) = descriptor_start(a) {
                        if let Ok(j) = skip_scan(t, i + 1, 1) {
                            lemma_representation_scan_pos(t, j, RepresentationV { frame_packings: x.frame_packings.push(v), ..x });
                        }
                    }
                } else if n == "InbandEventStream"@ {
                    lemma_skip_scan_pos(t, i + 1, 1);
                    if let Ok(v) = descriptor_start(a) {
                        if let Ok(j) = skip_scan(t, i + 1, 1) {
                            lemma_representation_scan_pos(t, j, RepresentationV { inband_event_streams: x.inband_event_streams.push(v), ..x });
                        }
                    }
                } else if n == "ProducerReferenceTime"@ {
                    lemma_producer_reference_time_at_pos(t, i + 1, a);
                    if let Ok((v, j)) = producer_reference_time_at(t, i + 1, a) {
                        lemma_representation_scan_pos(t, j, RepresentationV { producer_reference_times: x.producer_reference_times.push(v), ..x });
                    }
                } else if n == "SegmentSequenceProperties"@ {
                    lemma_skip_scan_pos(t, i + 1, 1);
                    if let Ok(v) = segment_sequence_properties_start(a) {
                        if let Ok(j) = skip_scan(t, i + 1, 1) {
                            lemma_representation_scan_pos(t, j, RepresentationV { segment_sequence_properties: x.segment_sequence_properties.push(v), ..x });
                        }
                    }
                } else if n == "SubRepresentation"@ {
                    lemma_sub_representation_at_pos(t, i + 1, a);
                    if let Ok((v, j)) = sub_representation_at(t, i + 1, a) {
                        lemma_representation_scan_pos(t, j, RepresentationV { sub_representations: x.sub_representations.push(v), ..x });
                    }
                } else if n == "SegmentBase"@ {
                    lemma_segment_base_at_pos(t, i + 1, a);
                    if let Ok((v, j)) = segment_base_at(t, i + 1, a) {
                        lemma_representation_scan_pos(t, j, RepresentationV { segment_base: Some(v), ..x });
                    }
                } else if n == "SegmentList"@ {
                    lemma_segment_list_at_pos(t, i + 1, a);
                    if let Ok((v, j)) = segment_list_at(t, i + 1, a) {
                        lemma_representation_scan_pos(t, j, RepresentationV { segment_list: Some(v), ..x });
                    }
                } else if n == "SegmentTemplate"@ {
                    lemma_segment_template_at_pos(t, i + 1, a);
                    if let Ok((v, j)) = segment_template_at(t, i + 1, a) {
                        lemma_representation_scan_pos(t, j, RepresentationV { segment_template: Some(v), ..x });
                    }
                } else if n == "ContentProtection"@ {
                    lemma_content_protection_at_pos(t, i + 1, a);
                    if let Ok((v, j)) = content_protection_at(t, i + 1, a) {
                        lemma_representation_scan_pos(t, j, RepresentationV { content_protections: x.content_protections.push(v), ..x });
                    }
                } else {
                    lemma_skip_scan_pos(t, i + 1, 1);
                    if let Ok(j) = skip_scan(t, i + 1, 1) {
                        lemma_representation_scan_pos(t, j, x);
                    }
                },
            TokenV::Error => {},
            TokenV::EndDocument => {},
            _ => lemma_representation_scan_pos(t, i + 1, x),
        }
    }
}

/// Reading the content of a `Representation` element changes only the fields that
/// its child elements fill: every value read from its attributes stays.
pub proof fn lemma_representation_scan_keeps_attributes(t: Seq<TokenV>, i: int, x: RepresentationV)
    ensures
        representation_scan(t, i, x) matches Ok((p, _)) ==> p == (RepresentationV { audio_channel_configurations: p.audio_channel_configurations, base_urls: p.base_urls, content_protections: p.content_protections, essential_properties: p.essential_properties, frame_packings: p.frame_packings, inband_event_streams: p.inband_event_streams, producer_reference_times: p.producer_reference_times, segment_base: p.segment_base, segment_list: p.segment_list, segment_sequence_properties: p.segment_sequence_properties, segment_template: p.segment_template, sub_representations: p.sub_representations, supplemental_properties: p.supplemental_properties, ..x }),
    decreases t.len() - i,
{
    if 0 <= i < t.len() {
        match t[i] {
            TokenV::End(n) => if n != "Representation"@ {
                lemma_representation_scan_keeps_attributes(t, i + 1, x);
            },
            TokenV::Start(n, _, a) => if n == "BaseURL"@ {
                    lemma_base_url_at_pos(t, i + 1, a);
                    if let Ok((v, j)) = base_url_at(t, i + 1, a) {
                        lemma_representation_scan_keeps_attributes(t, j, RepresentationV { base_urls: x.base_urls.push(v), ..x });
                    }
                } else if n == "AudioChannelConfiguration"@ {
                    lemma_skip_scan_pos(t, i + 1, 1);
                    if let Ok(v) = descriptor_start(a) {
                        if let Ok(j) = skip_scan(t, i + 1, 1) {
                            lemma_representation_scan_keeps_attributes(t, j, RepresentationV { audio_channel_configurations: x.audio_channel_configurations.push(v), ..x });
                        }
                    }
                } else if n == "EssentialProperty"@ {
                    lemma_skip_scan_pos(t, i + 1, 1);
                    if let Ok(v) = descriptor_start(a) {
                        if let Ok(j) = skip_scan(t, i + 1, 1) {
                            lemma_representation_scan_keeps_attributes(t, j, RepresentationV { essential_properties: x.essential_properties.push(v), ..x });
                        }
                    }
                } else if n == "SupplementalProperty"@ {
                    lemma_skip_scan_pos(t, i + 1, 1);
                    if let Ok(v) = descriptor_start(a) {
                        if let Ok(j) = skip_scan(t, i + 1, 1) {
                            lemma_representation_scan_keeps_attributes(t, j, RepresentationV { supplemental_properties: x.supplemental_properties.push(v), ..x });
                        }
                    }
                } else if n == "FramePacking"@ {
                    lemma_skip_scan_pos(t, i + 1, 1);
                    if let Ok(v) = descriptor_start(a) {
                        if let Ok(j) = skip_scan(t, i + 1, 1) {
                            lemma_representation_scan_keeps_attributes(t, j, RepresentationV { frame_packings: x.frame_packings.push(v), ..x });
                        }
                    }
                } else if n == "InbandEventStream"@ {
                    lemma_skip_scan_pos(t, i + 1, 1);
                    if let Ok(v) = descriptor_start(a) {
                        if let Ok(j) = skip_scan(t, i + 1, 1) {
                            lemma_representation_scan_keeps_attributes(t, j, RepresentationV { inband_event_streams: x.inband_event_streams.push(v), ..x });
                        }
                    }
                } else if n == "ProducerReferenceTime"@ {
                    lemma_producer_reference_time_at_pos(t, i + 1, a);
                    if let Ok((v, j)) = producer_reference_time_at(t, i + 1, a) {
                        lemma_representation_scan_keeps_attributes(t, j, RepresentationV { producer_reference_times: x.producer_reference_times.push(v), ..x });
                    }
                } else if n == "SegmentSequenceProperties"@ {
                    lemma_skip_scan_pos(t, i + 1, 1);
                    if let Ok(v) = segment_sequence_properties_start(a) {
                        if let Ok(j) = skip_scan(t, i + 1, 1) {
                            lemma_representation_scan_keeps_attributes(t, j, RepresentationV { segment_sequence_properties: x.segment_sequence_properties.push(v), ..x });
                        }
                    }
                } else if n == "SubRepresentation"@ {
                    lemma_sub_representation_at_pos(t, i + 1, a);
                    if let Ok((v, j)) = sub_representation_at(t, i + 1, a) {
                        lemma_representation_scan_keeps_attributes(t, j, RepresentationV { sub_representations: x.sub_representations.push(v), ..x });
                    }
                } else if n == "SegmentBase"@ {
                    lemma_segment_base_at_pos(t, i + 1, a);
                    if let Ok((v, j)) = segment_base_at(t, i + 1, a) {
                        lemma_representation_scan_keeps_attributes(t, j, RepresentationV { segment_base: Some(v), ..x });
                    }
                } else if n == "SegmentList"@ {
                    lemma_segment_list_at_pos(t, i + 1, a);
                    if let Ok((v, j)) = segment_list_at(t, i + 1, a) {
                        lemma_representation_scan_keeps_attributes(t, j, RepresentationV { segment_list: Some(v), ..x });
                    }
                } else if n == "SegmentTemplate"@ {
                    lemma_segment_template_at_pos(t, i + 1, a);
                    if let Ok((v, j)) = segment_template_at(t, i + 1, a) {
                        lemma_representation_scan_keeps_attributes(t, j, RepresentationV { segment_template: Some(v), ..x });
                    }
                } else if n == "ContentProtection"@ {
                    lemma_content_protection_at_pos(t, i + 1, a);
                    if let Ok((v, j)) = content_protection_at(t, i + 1, a) {
                        lemma_representation_scan_keeps_attributes(t, j, RepresentationV { content_protections: x.content_protections.push(v), ..x });
                    }
                } else {
                    lemma_skip_scan_pos(t, i + 1, 1);
                    if let Ok(j) = skip_scan(t, i + 1, 1) {
                        lemma_representation_scan_keeps_attributes(t, j, x);
                    }
                },
            TokenV::Error => {},
            TokenV::EndDocument => {},
            _ => lemma_representation_scan_keeps_attributes(t, i + 1, x),
        }
    }
}


pub proof fn lemma_representation_at_pos(t: Seq<TokenV>, i: int, a: Seq<XmlAttrV>)
    requires
        0 <= i <= t.len(),
    ensures
        representation_at(t, i, a) matches Ok((_, j)) ==> i <= j <= t.len(),
{
    reveal(representation_at);
    if let Ok(x) = representation_start(a) {
        lemma_representation_scan_pos(t, i, x);
    }
}

/// The value of a `AdaptationSet` element with the attributes `a`, before its content.
#[verifier::opaque]
pub open spec fn adaptation_set_start(a: Seq<XmlAttrV>) -> Result<AdaptationSetV, ErrorKind> {
    match dur_attr(first_attr(a, "maximumSAPPeriod"@)) {
        Err(k) => Err(k),
        Ok(maximum_sap_period) => Ok(
        AdaptationSetV {
            id: opt_u32(first_attr(a, "id"@)),
            mime_type: first_attr(a, "mimeType"@),
            codecs: first_attr(a, "codecs"@),
            content_type: content_type_of(first_attr(a, "contentType"@)),
            lang: first_attr(a, "lang"@),
            width: opt_u32(first_attr(a, "width"@)),
            height: opt_u32(first_attr(a, "height"@)),
            frame_rate: first_attr(a, "frameRate"@),
            min_width: opt_u32(first_attr(a, "minWidth"@)),
            min_height: opt_u32(first_attr(a, "minHeight"@)),
            min_frame_rate: first_attr(a, "minFrameRate"@),
            min_bandwidth: opt_u64(first_attr(a, "minBandwidth"@)),
            max_bandwidth: opt_u64(first_attr(a, "maxBandwidth"@)),
            max_width: opt_u32(first_attr(a, "maxWidth"@)),
            max_height: opt_u32(first_attr(a, "maxHeight"@)),
            max_frame_rate: first_attr(a, "maxFrameRate"@),
            par: first_attr(a, "par"@),
            audio_sampling_rate: opt_u32(first_attr(a, "audioSamplingRate"@)),
            sar: first_attr(a, "sar"@),
            profiles: first_attr(a, "profiles"@),
            scan_type: first_attr(a, "scanType"@),
            start_with_sap: opt_u32(first_attr(a, "startWithSAP"@)),
            max_playout_rate: first_attr(a, "maxPlayoutRate"@),
            selection_priority: opt_u32(first_attr(a, "selectionPriority"@)),
            coding_dependency: opt_bool(first_attr(a, "codingDependency"@)),
            supplemental_codecs: first_attr(a, "supplementalCodecs"@),
            maximum_sap_period: maximum_sap_period,
            segment_profiles: first_attr(a, "segmentProfiles"@),
            segment_alignment: bool_or_false(first_attr(a, "segmentAlignment"@)),
            subsegment_alignment: bool_or_false(first_attr(a, "subsegmentAlignment"@)),
            bitstream_switching: opt_bool(first_attr(a, "bitstreamSwitching"@)),
            base_urls: seq![],
            roles: seq![],
            accessibilities: seq![],
            audio_channel_configurations: seq![],
            labels: seq![],
            group_labels: seq![],
            essential_properties: seq![],
            supplemental_properties: seq![],
            viewpoints: seq![],
            frame_packings: seq![],
            inband_event_streams: seq![],
            producer_reference_times: seq![],
            content_components: seq![],
            segment_sequence_properties: seq![],
            segment_base: None,
            segment_list: None,
            segment_template: None,
            event_streams: seq![],
            content_protections: seq![],
            representations: seq![],
        },
    ),
    }
}

/// The `AdaptationSet` element whose value so far is `x`, read on from `t[i..]`: up
/// to its end tag (or the end of the document), with where the reading
/// goes on.
pub open spec fn adaptation_set_scan(t: Seq<TokenV>, i: int, x: AdaptationSetV) -> Result<(AdaptationSetV, int), ErrorKind>
    decreases t.len() - i,
{
    if i < 0 || i > t.len() {
        Err(ErrorKind::Xml)
    } else if i == t.len() {
        Ok((x, i))
    } else {
        match t[i] {
            TokenV::Error => Err(ErrorKind::Xml),
            TokenV::EndDocument => Ok((x, i)),
            TokenV::End(n) => if n == "AdaptationSet"@ {
                Ok((x, i + 1))
            } else {
                adaptation_set_scan(t, i + 1, x)
            },
            TokenV::Start(n, _, a) => if n == "BaseURL"@ {
                    proof {
                        lemma_base_url_at_pos(t, i + 1, a);
                    }
                    match base_url_at(t, i + 1, a) {
                        Ok((v, j)) => adaptation_set_scan(t, j, AdaptationSetV { base_urls: x.base_urls.push(v), ..x }),
                        Err(k) => Err(k),
                    }
                } else if n == "EventStream"@ {
                    proof {
                        lemma_event_stream_at_pos(t, i + 1, a);
                    }
                    match event_stream_at(t, i + 1, a) {
                        Ok((v, j)) => adaptation_set_scan(t, j, AdaptationSetV { event_streams: x.event_streams.push(v), ..x }),
                        Err(k) => Err(k),
                    }
                } else if n == "Role"@ {
                    proof {
                        lemma_skip_scan_pos(t, i + 1, 1);
                    }
                    match descriptor_start(a) {
                        Err(k) => Err(k),
                        Ok(v) => match skip_scan(t, i + 1, 1) {
                            Ok(j) => adaptation_set_scan(t, j, AdaptationSetV { roles: x.roles.push(v), ..x }),
                            Err(k) => Err(k),
                        },
                    }
                } else if n == "Accessibility"@ {
                    proof {
                        lemma_skip_scan_pos(t, i + 1, 1);
                    }
                    match descriptor_start(a) {
                        Err(k) => Err(k),
                        Ok(v) => match skip_scan(t, i + 1, 1) {
                            Ok(j) => adaptation_set_scan(t, j, AdaptationSetV { accessibilities: x.accessibilities.push(v), ..x }),
                            Err(k) => Err(k),
                        },
                    }
                } else if n == "AudioChannelConfiguration"@ {
                    proof {
                        lemma_skip_scan_pos(t, i + 1, 1);
                    }
                    match descriptor_start(a) {
                        Err(k) => Err(k),
                        Ok(v) => match skip_scan(t, i + 1, 1) {
                            Ok(j) => adaptation_set_scan(t, j, AdaptationSetV { audio_channel_configurations: x.audio_channel_configurations.push(v), ..x }),
                            Err(k) => Err(k),
                        },
                    }
                } else if n == "Label"@ {
                    proof {
                        lemma_text_scan_pos(t, i + 1, n, seq![]);
                    }
                    let (txt, j) = text_scan(t, i + 1, n, seq![]);
                    adaptation_set_scan(t, j, match txt {
                        Some(s) => AdaptationSetV { labels: x.labels.push(LabelV { lang: first_attr(a, "lang"@), text: s }), ..x },
                        None => x,
                    })
                } else if n == "GroupLabel"@ {
                    proof {
                        lemma_text_scan_pos(t, i + 1, n, seq![]);
                    }
                    let (txt, j) = text_scan(t, i + 1, n, seq![]);
                    adaptation_set_scan(t, j, match txt {
                        Some(s) => AdaptationSetV { group_labels: x.group_labels.push(LabelV { lang: first_attr(a, "lang"@), text: s }), ..x },
                        None => x,
                    })
                } else if n == "EssentialProperty"@ {
                    proof {
                        lemma_skip_scan_pos(t, i + 1, 1);
                    }
                    match descriptor_start(a) {
                        Err(k) => Err(k),
                        Ok(v) => match skip_scan(t, i + 1, 1) {
                            Ok(j) => adaptation_set_scan(t, j, AdaptationSetV { essential_properties: x.essential_properties.push(v), ..x }),
                            Err(k) => Err(k),
                        },
                    }
                } else if n == "SupplementalProperty"@ {
                    proof {
                        lemma_skip_scan_pos(t, i + 1, 1);
                    }
                    match descriptor_start(a) {
                        Err(k) => Err(k),
                        Ok(v) => match skip_scan(t, i + 1, 1) {
                            Ok(j) => adaptation_set_scan(t, j, AdaptationSetV { supplemental_properties: x.supplemental_properties.push(v), ..x }),
                            Err(k) => Err(k),
                        },
                    }
                } else if n == "Viewpoint"@ {
                    proof {
                        lemma_skip_scan_pos(t, i + 1, 1);
                    }
                    match descriptor_start(a) {
                        Err(k) => Err(k),
                        Ok(v) => match skip_scan(t, i + 1, 1) {
                            Ok(j) => adaptation_set_scan(t, j, AdaptationSetV { viewpoints: x.viewpoints.push(v), ..x }),
                            Err(k) => Err(k),
                        },
                    }
                } else if n == "FramePacking"@ {
                    proof {
                        lemma_skip_scan_pos(t, i + 1, 1);
                    }
                    match descriptor_start(a) {
                        Err(k) => Err(k),
                        Ok(v) => match skip_scan(t, i + 1, 1) {
                            Ok(j) => adaptation_set_scan(t, j, AdaptationSetV { frame_packings: x.frame_packings.push(v), ..x }),
                            Err(k) => Err(k),
                        },
                    }
                } else if n == "InbandEventStream"@ {
                    proof {
                        lemma_skip_scan_pos(t, i + 1, 1);
                    }
                    match descriptor_start(a) {
                        Err(k) => Err(k),
                        Ok(v) => match skip_scan(t, i + 1, 1) {
                            Ok(j) => adaptation_set_scan(t, j, AdaptationSetV { inband_event_streams: x.inband_event_streams.push(v), ..x }),
                            Err(k) => Err(k),
                        },
                    }
                } else if n == "ProducerReferenceTime"@ {
                    proof {
                        lemma_producer_reference_time_at_pos(t, i + 1, a);
                    }
                    match producer_reference_time_at(t, i + 1, a) {
                        Ok((v, j)) => adaptation_set_scan(t, j, AdaptationSetV { producer_reference_times: x.producer_reference_times.push(v), ..x }),
                        Err(k) => Err(k),
                    }
                } else if n == "ContentComponent"@ {
                    proof {
                        lemma_content_component_at_pos(t, i + 1, a);
                    }
                    match content_component_at(t, i + 1, a) {
                        Ok((v, j)) => adaptation_set_scan(t, j, AdaptationSetV { content_components: x.content_components.push(v), ..x }),
                        Err(k) => Err(k),
                    }
                } else if n == "SegmentSequenceProperties"@ {
                    proof {
                        lemma_skip_scan_pos(t, i + 1, 1);
                    }
                    match segment_sequence_properties_start(a) {
                        Err(k) => Err(k),
                        Ok(v) => match skip_scan(t, i + 1, 1) {
                            Ok(j) => adaptation_set_scan(t, j, AdaptationSetV { segment_sequence_properties: x.segment_sequence_properties.push(v), ..x }),
                            Err(k) => Err(k),
                        },
                    }
                } else if n == "SegmentBase"@ {
                    proof {
                        lemma_segment_base_at_pos(t, i + 1, a);
                    }
                    match segment_base_at(t, i + 1, a) {
                        Ok((v, j)) => adaptation_set_scan(t, j, AdaptationSetV { segment_base: Some(v), ..x }),
                        Err(k) => Err(k),
                    }
                } else if n == "SegmentList"@ {
                    proof {
                        lemma_segment_list_at_pos(t, i + 1, a);
                    }
                    match segment_list_at(t, i + 1, a) {
                        Ok((v, j)) => adaptation_set_scan(t, j, AdaptationSetV { segment_list: Some(v), ..x }),
                        Err(k) => Err(k),
                    }
                } else if n == "SegmentTemplate"@ {
                    proof {
                        lemma_segment_template_at_pos(t, i + 1, a);
                    }
                    match segment_template_at(t, i + 1, a) {
                        Ok((v, j)) => adaptation_set_scan(t, j, AdaptationSetV { segment_template: Some(v), ..x }),
                        Err(k) => Err(k),
                    }
                } else if n == "ContentProtection"@ {
                    proof {
                        lemma_content_protection_at_pos(t, i + 1, a);
                    }
                    match content_protection_at(t, i + 1, a) {
                        Ok((v, j)) => adaptation_set_scan(t, j, AdaptationSetV { content_protections: x.content_protections.push(v), ..x }),
                        Err(k) => Err(k),
                    }
                } else if n == "Representation"@ {
                    proof {
                        lemma_representation_at_pos(t, i + 1, a);
                    }
                    match representation_at(t, i + 1, a) {
                        Ok((v, j)) => adaptation_set_scan(t, j, AdaptationSetV { representations: x.representations.push(v), ..x }),
                        Err(k) => Err(k),
                    }
                } else {
                    proof {
                        lemma_skip_scan_pos(t, i + 1, 1);
                    }
                    match skip_scan(t, i + 1, 1) {
                        Ok(j) => adaptation_set_scan(t, j, x),
                        Err(k) => Err(k),
                    }
                },
            _ => adaptation_set_scan(t, i + 1, x),
        }
    }
}

/// The `AdaptationSet` element with the attributes `a`, whose content begins at
/// `t[i]`.
#[verifier::opaque]
pub open spec fn adaptation_set_at(t: Seq<TokenV>, i: int, a: Seq<XmlAttrV>) -> Result<(AdaptationSetV, int), ErrorKind> {
    match adaptation_set_start(a) {
        Err(k) => Err(k),
        Ok(x) => adaptation_set_scan(t, i, x),
    }
}

pub proof fn lemma_adaptation_set_scan_pos(t: Seq<TokenV>, i: int, x: AdaptationSetV)
    ensures
        adaptation_set_scan(t, i, x) matches Ok((_, j)) ==> i <= j <= t.len(),
    decreases t.len() - i,
{
    if 0 <= i < t.len() {
        match t[i] {
            TokenV::End(n) => if n != "AdaptationSet"@ {
                lemma_adaptation_set_scan_pos(t, i + 1, x);
            },
            TokenV::Start(n, _, a) => if n == "BaseURL"@ {
                    lemma_base_url_at_pos(t, i + 1, a);
                    if let Ok((v, j)) = base_url_at(t, i + 1, a) {
                        lemma_adaptation_set_scan_pos(t, j, AdaptationSetV { base_urls: x.base_urls.push(v), ..x });
                    }
                } else if n == "EventStream"@ {
                    lemma_event_stream_at_pos(t, i + 1, a);
                    if let Ok((v, j)) = event_stream_at(t, i + 1, a) {
                        lemma_adaptation_set_scan_pos(t, j, AdaptationSetV { event_streams: x.event_streams.push(v), ..x });
                    }
                } else if n == "Role"@ {
                    lemma_skip_scan_pos(t, i + 1, 1);
                    if let Ok(v) = descriptor_start(a) {
                        if let Ok(j) = skip_scan(t, i + 1, 1) {
                            lemma_adaptation_set_scan_pos(t, j, AdaptationSetV { roles: x.roles.push(v), ..x });
                        }
                    }
                } else if n == "Accessibility"@ {
                    lemma_skip_scan_pos(t, i + 1, 1);
                    if let Ok(v) = descriptor_start(a) {
                        if let Ok(j) = skip_scan(t, i + 1, 1) {
                            lemma_adaptation_set_scan_pos(t, j, AdaptationSetV { accessibilities: x.accessibilities.push(v), ..x });
                        }
                    }
                } else if n == "AudioChannelConfiguration"@ {
                    lemma_skip_scan_pos(t, i + 1, 1);
                    if let Ok(v) = descriptor_start(a) {
                        if let Ok(j) = skip_scan(t, i + 1, 1) {
                            lemma_adaptation_set_scan_pos(t, j, AdaptationSetV { audio_channel_configurations: x.audio_channel_configurations.push(v), ..x });
                        }
                    }
                } else if n == "Label"@ {
                    lemma_text_scan_pos(t, i + 1, n, seq![]);
                    let (txt, j) = text_scan(t, i + 1, n, seq![]);
                    lemma_adaptation_set_scan_pos(t, j, match txt {
                        Some(s) => AdaptationSetV { labels: x.labels.push(LabelV { lang: first_attr(a, "lang"@), text: s }), ..x },
                        None => x,
                    });
                } else if n == "GroupLabel"@ {
                    lemma_text_scan_pos(t, i + 1, n, seq![]);
                    let (txt, j) = text_scan(t, i + 1, n, seq![]);
                    lemma_adaptation_set_scan_pos(t, j, match txt {
                        Some(s) => AdaptationSetV { group_labels: x.group_labels.push(LabelV { lang: first_attr(a, "lang"@), text: s }), ..x },
                        None => x,
                    });
                } else if n == "EssentialProperty"@ {
                    lemma_skip_scan_pos(t, i + 1, 1);
                    if let Ok(v) = descriptor_start(a) {
                        if let Ok(j) = skip_scan(t, i + 1, 1) {
                            lemma_adaptation_set_scan_pos(t, j, AdaptationSetV { essential_properties: x.essential_properties.push(v), ..x });
                        }
                    }
                } else if n == "SupplementalProperty"@ {
                    lemma_skip_scan_pos(t, i + 1, 1);
                    if let Ok(v) = descriptor_start(a) {
                        if let Ok(j) = skip_scan(t, i + 1, 1) {
                            lemma_adaptation_set_scan_pos(t, j, AdaptationSetV { supplemental_properties: x.supplemental_properties.push(v), ..x });
                        }
                    }
                } else if n == "Viewpoint"@ {
                    lemma_skip_scan_pos(t, i + 1, 1);
                    if let Ok(v) = descriptor_start(a) {
                        if let Ok(j) = skip_scan(t, i + 1, 1) {
                            lemma_adaptation_set_scan_pos(t, j, AdaptationSetV { viewpoints: x.viewpoints.push(v), ..x });
                        }
                    }
                } else if n == "FramePacking"@ {
                    lemma_skip_scan_pos(t, i + 1, 1);
                    if let Ok(v) = descriptor_start(a) {
                        if let Ok(j) = skip_scan(t, i + 1, 1) {
                            lemma_adaptation_set_scan_pos(t, j, AdaptationSetV { frame_packings: x.frame_packings.push(v), ..x });
                        }
                    }
                } else if n == "InbandEventStream"@ {
                    lemma_skip_scan_pos(t, i + 1, 1);
                    if let Ok(v) = descriptor_start(a) {
                        if let Ok(j) = skip_scan(t, i + 1, 1) {
                            lemma_adaptation_set_scan_pos(t, j, AdaptationSetV { inband_event_streams: x.inband_event_streams.push(v), ..x });
                        }
                    }
                } else if n == "ProducerReferenceTime"@ {
                    lemma_producer_reference_time_at_pos(t, i + 1, a);
                    if let Ok((v, j)) = producer_reference_time_at(t, i + 1, a) {
                        lemma_adaptation_set_scan_pos(t, j, AdaptationSetV { producer_reference_times: x.producer_reference_times.push(v), ..x });
                    }
                } else if n == "ContentComponent"@ {
                    lemma_content_component_at_pos(t, i + 1, a);
                    if let Ok((v, j)) = content_component_at(t, i + 1, a) {
                        lemma_adaptation_set_scan_pos(t, j, AdaptationSetV { content_components: x.content_components.push(v), ..x });
                    }
                } else if n == "SegmentSequenceProperties"@ {
                    lemma_skip_scan_pos(t, i + 1, 1);
                    if let Ok(v) = segment_sequence_properties_start(a) {
                        if let Ok(j) = skip_scan(t, i + 1, 1) {
                            lemma_adaptation_set_scan_pos(t, j, AdaptationSetV { segment_sequence_properties: x.segment_sequence_properties.push(v), ..x });
                        }
                    }
                } else if n == "SegmentBase"@ {
                    lemma_segment_base_at_pos(t, i + 1, a);
                    if let Ok((v, j)) = segment_base_at(t, i + 1, a) {
                        lemma_adaptation_set_scan_pos(t, j, AdaptationSetV { segment_base: Some(v), ..x });
                    }
                } else if n == "SegmentList"@ {
                    lemma_segment_list_at_pos(t, i + 1, a);
                    if let Ok((v, j)) = segment_list_at(t, i + 1, a) {
                        lemma_adaptation_set_scan_pos(t, j, AdaptationSetV { segment_list: Some(v), ..x });
                    }
                } else if n == "SegmentTemplate"@ {
                    lemma_segment_template_at_pos(t, i + 1, a);
                    if let Ok((v, j)) = segment_template_at(t, i + 1, a) {
                        lemma_adaptation_set_scan_pos(t, j, AdaptationSetV { segment_template: Some(v), ..x });
                    }
                } else if n == "ContentProtection"@ {
                    lemma_content_protection_at_pos(t, i + 1, a);
                    if let Ok((v, j)) = content_protection_at(t, i + 1, a) {
                        lemma_adaptation_set_scan_pos(t, j, AdaptationSetV { content_protections: x.content_protections.push(v), ..x });
                    }
                } else if n == "Representation"@ {
                    lemma_representation_at_pos(t, i + 1, a);
                    if let Ok((v, j)) = representation_at(t, i + 1, a) {
                        lemma_adaptation_set_scan_pos(t, j, AdaptationSetV { representations: x.representations.push(v), ..x });
                    }
                } else {
                    lemma_skip_scan_pos(t, i + 1, 1);
                    if let Ok(j) = skip_scan(t, i + 1, 1) {
                        lemma_adaptation_set_scan_pos(t, j, x);
                    }
                },
            TokenV::Error => {},
            TokenV::EndDocument => {},
            _ => lemma_adaptation_set_scan_pos(t, i + 1, x),
        }
    }
}

/// Reading the content of a `AdaptationSet` element changes only the fields that
/// its child elements fill: every value read from its attributes stays.
pub proof fn lemma_adaptation_set_scan_keeps_attributes(t: Seq<TokenV>, i: int, x: AdaptationSetV)
    ensures
        adaptation_set_scan(t, i, x) matches Ok((p, _)) ==> p == (AdaptationSetV { accessibilities: p.accessibilities, audio_channel_configurations: p.audio_channel_configurations, base_urls: p.base_urls, content_components: p.content_components, content_protections: p.content_protections, essential_properties: p.essential_properties, event_streams: p.event_streams, frame_packings: p.frame_packings, group_labels: p.group_labels, inband_event_streams: p.inband_event_streams, labels: p.labels, producer_reference_times: p.producer_reference_times, representations: p.representations, roles: p.roles, segment_base: p.segment_base, segment_list: p.segment_list, segment_sequence_properties: p.segment_sequence_properties, segment_template: p.segment_template, supplemental_properties: p.supplemental_properties, viewpoints: p.viewpoints, ..x }),
    decreases t.len() - i,
{
    if 0 <= i < t.len() {
        match t[i] {
            TokenV::End(n) => if n != "AdaptationSet"@ {
                lemma_adaptation_set_scan_keeps_attributes(t, i + 1, x);
            },
            TokenV::Start(n, _, a) => if n == "BaseURL"@ {
                    lemma_base_url_at_pos(t, i + 1, a);
                    if let Ok((v, j)) = base_url_at(t, i + 1, a) {
                        lemma_adaptation_set_scan_keeps_attributes(t, j, AdaptationSetV { base_urls: x.base_urls.push(v), ..x });
                    }
                } else if n == "EventStream"@ {
                    lemma_event_stream_at_pos(t, i + 1, a);
                    if let Ok((v, j)) = event_stream_at(t, i + 1, a) {
                        lemma_adaptation_set_scan_keeps_attributes(t, j, AdaptationSetV { event_streams: x.event_streams.push(v), ..x });
                    }
                } else if n == "Role"@ {
                    lemma_skip_scan_pos(t, i + 1, 1);
                    if let Ok(v) = descriptor_start(a) {
                        if let Ok(j) = skip_scan(t, i + 1, 1) {
                            lemma_adaptation_set_scan_keeps_attributes(t, j, AdaptationSetV { roles: x.roles.push(v), ..x });
                        }
                    }
                } else if n == "Accessibility"@ {
                    lemma_skip_scan_pos(t, i + 1, 1);
                    if let Ok(v) = descriptor_start(a) {
                        if let Ok(j) = skip_scan(t, i + 1, 1) {
                            lemma_adaptation_set_scan_keeps_attributes(t, j, AdaptationSetV { accessibilities: x.accessibilities.push(v), ..x });
                        }
                    }
                } else if n == "AudioChannelConfiguration"@ {
                    lemma_skip_scan_pos(t, i + 1, 1);
                    if let Ok(v) = descriptor_start(a) {
                        if let Ok(j) = skip_scan(t, i + 1, 1) {
                            lemma_adaptation_set_scan_keeps_attributes(t, j, AdaptationSetV { audio_channel_configurations: x.audio_channel_configurations.push(v), ..x });
                        }
                    }
                } else if n == "Label"@ {
                    lemma_text_scan_pos(t, i + 1, n, seq![]);
                    let (txt, j) = text_scan(t, i + 1, n, seq![]);
                    lemma_adaptation_set_scan_keeps_attributes(t, j, match txt {
                        Some(s) => AdaptationSetV { labels: x.labels.push(LabelV { lang: first_attr(a, "lang"@), text: s }), ..x },
                        None => x,
                    });
                } else if n == "GroupLabel"@ {
                    lemma_text_scan_pos(t, i + 1, n, seq![]);
                    let (txt, j) = text_scan(t, i + 1, n, seq![]);
                    lemma_adaptation_set_scan_keeps_attributes(t, j, match txt {
                        Some(s) => AdaptationSetV { group_labels: x.group_labels.push(LabelV { lang: first_attr(a, "lang"@), text: s }), ..x },
                        None => x,
                    });
                } else if n == "EssentialProperty"@ {
                    lemma_skip_scan_pos(t, i + 1, 1);
                    if let Ok(v) = descriptor_start(a) {
                        if let Ok(j) = skip_scan(t, i + 1, 1) {
                            lemma_adaptation_set_scan_keeps_attributes(t, j, AdaptationSetV { essential_properties: x.essential_properties.push(v), ..x });
                        }
                    }
                } else if n == "SupplementalProperty"@ {
                    lemma_skip_scan_pos(t, i + 1, 1);
                    if let Ok(v) = descriptor_start(a) {
                        if let Ok(j) = skip_scan(t, i + 1, 1) {
                            lemma_adaptation_set_scan_keeps_attributes(t, j, AdaptationSetV { supplemental_properties: x.supplemental_properties.push(v), ..x });
                        }
                    }
                } else if n == "Viewpoint"@ {
                    lemma_skip_scan_pos(t, i + 1, 1);
                    if let Ok(v) = descriptor_start(a) {
                        if let Ok(j) = skip_scan(t, i + 1, 1) {
                            lemma_adaptation_set_scan_keeps_attributes(t, j, AdaptationSetV { viewpoints: x.viewpoints.push(v), ..x });
                        }
                    }
                } else if n == "FramePacking"@ {
                    lemma_skip_scan_pos(t, i + 1, 1);
                    if let Ok(v) = descriptor_start(a) {
                        if let Ok(j) = skip_scan(t, i + 1, 1) {
                            lemma_adaptation_set_scan_keeps_attributes(t, j, AdaptationSetV { frame_packings: x.frame_packings.push(v), ..x });
                        }
                    }
                } else if n == "InbandEventStream"@ {
                    lemma_skip_scan_pos(t, i + 1, 1);
                    if let Ok(v) = descriptor_start(a) {
                        if let Ok(j) = skip_scan(t, i + 1, 1) {
                            lemma_adaptation_set_scan_keeps_attributes(t, j, AdaptationSetV { inband_event_streams: x.inband_event_streams.push(v), ..x });
                        }
                    }
                } else if n == "ProducerReferenceTime"@ {
                    lemma_producer_reference_time_at_pos(t, i + 1, a);
                    if let Ok((v, j)) = producer_reference_time_at(t, i + 1, a) {
                        lemma_adaptation_set_scan_keeps_attributes(t, j, AdaptationSetV { producer_reference_times: x.producer_reference_times.push(v), ..x });
                    }
                } else if n == "ContentComponent"@ {
                    lemma_content_component_at_pos(t, i + 1, a);
                    if let Ok((v, j)) = content_component_at(t, i + 1, a) {
                        lemma_adaptation_set_scan_keeps_attributes(t, j, AdaptationSetV { content_components: x.content_components.push(v), ..x });
                    }
                } else if n == "SegmentSequenceProperties"@ {
                    lemma_skip_scan_pos(t, i + 1, 1);
                    if let Ok(v) = segment_sequence_properties_start(a) {
                        if let Ok(j) = skip_scan(t, i + 1, 1) {
                            lemma_adaptation_set_scan_keeps_attributes(t, j, AdaptationSetV { segment_sequence_properties: x.segment_sequence_properties.push(v), ..x });
                        }
                    }
                } else if n == "SegmentBase"@ {
                    lemma_segment_base_at_pos(t, i + 1, a);
                    if let Ok((v, j)) = segment_base_at(t, i + 1, a) {
                        lemma_adaptation_set_scan_keeps_attributes(t, j, AdaptationSetV { segment_base: Some(v), ..x });
                    }
                } else if n == "SegmentList"@ {
                    lemma_segment_list_at_pos(t, i + 1, a);
                    if let Ok((v, j)) = segment_list_at(t, i + 1, a) {
                        lemma_adaptation_set_scan_keeps_attributes(t, j, AdaptationSetV { segment_list: Some(v), ..x });
                    }
                } else if n == "SegmentTemplate"@ {
                    lemma_segment_template_at_pos(t, i + 1, a);
                    if let Ok((v, j)) = segment_template_at(t, i + 1, a) {
                        lemma_adaptation_set_scan_keeps_attributes(t, j, AdaptationSetV { segment_template: Some(v), ..x });
                    }
                } else if n == "ContentProtection"@ {
                    lemma_content_protection_at_pos(t, i + 1, a);
                    if let Ok((v, j)) = content_protection_at(t, i + 1, a) {
                        lemma_adaptation_set_scan_keeps_attributes(t, j, AdaptationSetV { content_protections: x.content_protections.push(v), ..x });
                    }
                } else if n == "Representation"@ {
                    lemma_representation_at_pos(t, i + 1, a);
                    if let Ok((v, j)) = representation_at(t, i + 1, a) {
                        lemma_adaptation_set_scan_keeps_attributes(t, j, AdaptationSetV { representations: x.representations.push(v), ..x });
                    }
                } else {
                    lemma_skip_scan_pos(t, i + 1, 1);
                    if let Ok(j) = skip_scan(t, i + 1, 1) {
                        lemma_adaptation_set_scan_keeps_attributes(t, j, x);
                    }
                },
            TokenV::Error => {},
            TokenV::EndDocument => {},
            _ => lemma_adaptation_set_scan_keeps_attributes(t, i + 1, x),
        }
    }
}


pub proof fn lemma_adaptation_set_at_pos(t: Seq<TokenV>, i: int, a: Seq<XmlAttrV>)
    requires
        0 <= i <= t.len(),
    ensures
        adaptation_set_at(t, i, a) matches Ok((_, j)) ==> i <= j <= t.len(),
{
    reveal(adaptation_set_at);
    if let Ok(x) = adaptation_set_start(a) {
        lemma_adaptation_set_scan_pos(t, i, x);
    }
}

/// The value of a `Period` element with the attributes `a`, before its content.
#[verifier::opaque]
pub open spec fn period_start(a: Seq<XmlAttrV>) -> Result<PeriodV, ErrorKind> {
    match dur_attr(first_attr(a, "start"@)) {
        Err(k) => Err(k),
        Ok(start) => match dur_attr(first_attr(a, "duration"@)) {
        Err(k) => Err(k),
        Ok(duration) => Ok(
        PeriodV {
            id: first_attr(a, "id"@),
            start: start,
            duration: duration,
            xlink_href: first_xlink_attr(a, "href"@),
            xlink_actuate: first_xlink_attr(a, "actuate"@),
            base_urls: seq![],
            supplemental_properties: seq![],
            essential_properties: seq![],
            asset_identifier: None,
            event_streams: seq![],
            preselections: seq![],
            segment_base: None,
            segment_list: None,
            segment_template: None,
            subsets: seq![],
            adaptation_sets: seq![],
        },
    ),
    },
    }
}

/// The `Period` element whose value so far is `x`, read on from `t[i..]`: up
/// to its end tag (or the end of the document), with where the reading
/// goes on.
pub open spec fn period_scan(t: Seq<TokenV>, i: int, x: PeriodV) -> Result<(PeriodV, int), ErrorKind>
    decreases t.len() - i,
{
    if i < 0 || i > t.len() {
        Err(ErrorKind::Xml)
    } else if i == t.len() {
        Ok((x, i))
    } else {
        match t[i] {
            TokenV::Error => Err(ErrorKind::Xml),
            TokenV::EndDocument => Ok((x, i)),
            TokenV::End(n) => if n == "Period"@ {
                Ok((x, i + 1))
            } else {
                period_scan(t, i + 1, x)
            },
            TokenV::Start(n, _, a) => if n == "BaseURL"@ {
                    proof {
                        lemma_base_url_at_pos(t, i + 1, a);
                    }
                    match base_url_at(t, i + 1, a) {
                        Ok((v, j)) => period_scan(t, j, PeriodV { base_urls: x.base_urls.push(v), ..x }),
                        Err(k) => Err(k),
                    }
                } else if n == "SupplementalProperty"@ {
                    proof {
                        lemma_skip_scan_pos(t, i + 1, 1);
                    }
                    match descriptor_start(a) {
                        Err(k) => Err(k),
                        Ok(v) => match skip_scan(t, i + 1, 1) {
                            Ok(j) => period_scan(t, j, PeriodV { supplemental_properties: x.supplemental_properties.push(v), ..x }),
                            Err(k) => Err(k),
                        },
                    }
                } else if n == "EssentialProperty"@ {
                    proof {
                        lemma_skip_scan_pos(t, i + 1, 1);
                    }
                    match descriptor_start(a) {
                        Err(k) => Err(k),
                        Ok(v) => match skip_scan(t, i + 1, 1) {
                            Ok(j) => period_scan(t, j, PeriodV { essential_properties: x.essential_properties.push(v), ..x }),
                            Err(k) => Err(k),
                        },
                    }
                } else if n == "AssetIdentifier"@ {
                    proof {
                        lemma_skip_scan_pos(t, i + 1, 1);
                    }
                    match descriptor_start(a) {
                        Err(k) => Err(k),
                        Ok(v) => match skip_scan(t, i + 1, 1) {
                            Ok(j) => period_scan(t, j, PeriodV { asset_identifier: Some(v), ..x }),
                            Err(k) => Err(k),
                        },
                    }
                } else if n == "EventStream"@ {
                    proof {
                        lemma_event_stream_at_pos(t, i + 1, a);
                    }
                    match event_stream_at(t, i + 1, a) {
                        Ok((v, j)) => period_scan(t, j, PeriodV { event_streams: x.event_streams.push(v), ..x }),
                        Err(k) => Err(k),
                    }
                } else if n == "Preselection"@ {
                    proof {
                        lemma_preselection_at_pos(t, i + 1, a);
                    }
                    match preselection_at(t, i + 1, a) {
                        Ok((v, j)) => period_scan(t, j, PeriodV { preselections: x.preselections.push(v), ..x }),
                        Err(k) => Err(k),
                    }
                } else if n == "SegmentBase"@ {
                    proof {
                        lemma_segment_base_at_pos(t, i + 1, a);
                    }
                    match segment_base_at(t, i + 1, a) {
                        Ok((v, j)) => period_scan(t, j, PeriodV { segment_base: Some(v), ..x }),
                        Err(k) => Err(k),
                    }
                } else if n == "SegmentList"@ {
                    proof {
                        lemma_segment_list_at_pos(t, i + 1, a);
                    }
                    match segment_list_at(t, i + 1, a) {
                        Ok((v, j)) => period_scan(t, j, PeriodV { segment_list: Some(v), ..x }),
                        Err(k) => Err(k),
                    }
                } else if n == "SegmentTemplate"@ {
                    proof {
                        lemma_segment_template_at_pos(t, i + 1, a);
                    }
                    match segment_template_at(t, i + 1, a) {
                        Ok((v, j)) => period_scan(t, j, PeriodV { segment_template: Some(v), ..x }),
                        Err(k) => Err(k),
                    }
                } else if n == "Subset"@ {
                    proof {
                        lemma_skip_scan_pos(t, i + 1, 1);
                    }
                    match subset_start(a) {
                        Err(k) => Err(k),
                        Ok(v) => match skip_scan(t, i + 1, 1) {
                            Ok(j) => period_scan(t, j, PeriodV { subsets: x.subsets.push(v), ..x }),
                            Err(k) => Err(k),
                        },
                    }
                } else if n == "AdaptationSet"@ {
                    proof {
                        lemma_adaptation_set_at_pos(t, i + 1, a);
                    }
                    match adaptation_set_at(t, i + 1, a) {
                        Ok((v, j)) => period_scan(t, j, PeriodV { adaptation_sets: x.adaptation_sets.push(v), ..x }),
                        Err(k) => Err(k),
                    }
                } else {
                    proof {
                        lemma_skip_scan_pos(t, i + 1, 1);
                    }
                    match skip_scan(t, i + 1, 1) {
                        Ok(j) => period_scan(t, j, x),
                        Err(k) => Err(k),
                    }
                },
            _ => period_scan(t, i + 1, x),
        }
    }
}

/// The `Period` element with the attributes `a`, whose content begins at
/// `t[i]`.
#[verifier::opaque]
pub open spec fn period_at(t: Seq<TokenV>, i: int, a: Seq<XmlAttrV>) -> Result<(PeriodV, int), ErrorKind> {
    match period_start(a) {
        Err(k) => Err(k),
        Ok(x) => period_scan(t, i, x),
    }
}

pub proof fn lemma_period_scan_pos(t: Seq<TokenV>, i: int, x: PeriodV)
    ensures
        period_scan(t, i, x) matches Ok((_, j)) ==> i <= j <= t.len(),
    decreases t.len() - i,
{
    if 0 <= i < t.len() {
        match t[i] {
            TokenV::End(n) => if n != "Period"@ {
                lemma_period_scan_pos(t, i + 1, x);
            },
            TokenV::Start(n, _, a) => if n == "BaseURL"@ {
                    lemma_base_url_at_pos(t, i + 1, a);
                    if let Ok((v, j)) = base_url_at(t, i + 1, a) {
                        lemma_period_scan_pos(t, j, PeriodV { base_urls: x.base_urls.push(v), ..x });
                    }
                } else if n == "SupplementalProperty"@ {
                    lemma_skip_scan_pos(t, i + 1, 1);
                    if let Ok(v) = descriptor_start(a) {
                        if let Ok(j) = skip_scan(t, i + 1, 1) {
                            lemma_period_scan_pos(t, j, PeriodV { supplemental_properties: x.supplemental_properties.push(v), ..x });
                        }
                    }
                } else if n == "EssentialProperty"@ {
                    lemma_skip_scan_pos(t, i + 1, 1);
                    if let Ok(v) = descriptor_start(a) {
                        if let Ok(j) = skip_scan(t, i + 1, 1) {
                            lemma_period_scan_pos(t, j, PeriodV { essential_properties: x.essential_properties.push(v), ..x });
                        }
                    }
                } else if n == "AssetIdentifier"@ {
                    lemma_skip_scan_pos(t, i + 1, 1);
                    if let Ok(v) = descriptor_start(a) {
                        if let Ok(j) = skip_scan(t, i + 1, 1) {
                            lemma_period_scan_pos(t, j, PeriodV { asset_identifier: Some(v), ..x });
                        }
                    }
                } else if n == "EventStream"@ {
                    lemma_event_stream_at_pos(t, i + 1, a);
                    if let Ok((v, j)) = event_stream_at(t, i + 1, a) {
                        lemma_period_scan_pos(t, j, PeriodV { event_streams: x.event_streams.push(v), ..x });
                    }
                } else if n == "Preselection"@ {
                    lemma_preselection_at_pos(t, i + 1, a);
                    if let Ok((v, j)) = preselection_at(t, i + 1, a) {
                        lemma_period_scan_pos(t, j, PeriodV { preselections: x.preselections.push(v), ..x });
                    }
                } else if n == "SegmentBase"@ {
                    lemma_segment_base_at_pos(t, i + 1, a);
                    if let Ok((v, j)) = segment_base_at(t, i + 1, a) {
                        lemma_period_scan_pos(t, j, PeriodV { segment_base: Some(v), ..x });
                    }
                } else if n == "SegmentList"@ {
                    lemma_segment_list_at_pos(t, i + 1, a);
                    if let Ok((v, j)) = segment_list_at(t, i + 1, a) {
                        lemma_period_scan_pos(t, j, PeriodV { segment_list: Some(v), ..x });
                    }
                } else if n == "SegmentTemplate"@ {
                    lemma_segment_template_at_pos(t, i + 1, a);
                    if let Ok((v, j)) = segment_template_at(t, i + 1, a) {
                        lemma_period_scan_pos(t, j, PeriodV { segment_template: Some(v), ..x });
                    }
                } else if n == "Subset"@ {
                    lemma_skip_scan_pos(t, i + 1, 1);
                    if let Ok(v) = subset_start(a) {
                        if let Ok(j) = skip_scan(t, i + 1, 1) {
                            lemma_period_scan_pos(t, j, PeriodV { subsets: x.subsets.push(v), ..x });
                        }
                    }
                } else if n == "AdaptationSet"@ {
                    lemma_adaptation_set_at_pos(t, i + 1, a);
                    if let Ok((v, j)) = adaptation_set_at(t, i + 1, a) {
                        lemma_period_scan_pos(t, j, PeriodV { adaptation_sets: x.adaptation_sets.push(v), ..x });
                    }
                } else {
                    lemma_skip_scan_pos(t, i + 1, 1);
                    if let Ok(j) = skip_scan(t, i + 1, 1) {
                        lemma_period_scan_pos(t, j, x);
                    }
                },
            TokenV::Error => {},
            TokenV::EndDocument => {},
            _ => lemma_period_scan_pos(t, i + 1, x),
        }
    }
}

/// Reading the content of a `Period` element changes only the fields that
/// its child elements fill: every value read from its attributes stays.
pub proof fn lemma_period_scan_keeps_attributes(t: Seq<TokenV>, i: int, x: PeriodV)
    ensures
        period_scan(t, i, x) matches Ok((p, _)) ==> p == (PeriodV { adaptation_sets: p.adaptation_sets, asset_identifier: p.asset_identifier, base_urls: p.base_urls, essential_properties: p.essential_properties, event_streams: p.event_streams, preselections: p.preselections, segment_base: p.segment_base, segment_list: p.segment_list, segment_template: p.segment_template, subsets: p.subsets, supplemental_properties: p.supplemental_properties, ..x }),
    decreases t.len() - i,
{
    if 0 <= i < t.len() {
        match t[i] {
            TokenV::End(n) => if n != "Period"@ {
                lemma_period_scan_keeps_attributes(t, i + 1, x);
            },
            TokenV::Start(n, _, a) => if n == "BaseURL"@ {
                    lemma_base_url_at_pos(t, i + 1, a);
                    if let Ok((v, j)) = base_url_at(t, i + 1, a) {
                        lemma_period_scan_keeps_attributes(t, j, PeriodV { base_urls: x.base_urls.push(v), ..x });
                    }
                } else if n == "SupplementalProperty"@ {
                    lemma_skip_scan_pos(t, i + 1, 1);
                    if let Ok(v) = descriptor_start(a) {
                        if let Ok(j) = skip_scan(t, i + 1, 1) {
                            lemma_period_scan_keeps_attributes(t, j, PeriodV { supplemental_properties: x.supplemental_properties.push(v), ..x });
                        }
                    }
                } else if n == "EssentialProperty"@ {
                    lemma_skip_scan_pos(t, i + 1, 1);
                    if let Ok(v) = descriptor_start(a) {
                        if let Ok(j) = skip_scan(t, i + 1, 1) {
                            lemma_period_scan_keeps_attributes(t, j, PeriodV { essential_properties: x.essential_properties.push(v), ..x });
                        }
                    }
                } else if n == "AssetIdentifier"@ {
                    lemma_skip_scan_pos(t, i + 1, 1);
                    if let Ok(v) = descriptor_start(a) {
                        if let Ok(j) = skip_scan(t, i + 1, 1) {
                            lemma_period_scan_keeps_attributes(t, j, PeriodV { asset_identifier: Some(v), ..x });
                        }
                    }
                } else if n == "EventStream"@ {
                    lemma_event_stream_at_pos(t, i + 1, a);
                    if let Ok((v, j)) = event_stream_at(t, i + 1, a) {
                        lemma_period_scan_keeps_attributes(t, j, PeriodV { event_streams: x.event_streams.push(v), ..x });
                    }
                } else if n == "Preselection"@ {
                    lemma_preselection_at_pos(t, i + 1, a);
                    if let Ok((v, j)) = preselection_at(t, i + 1, a) {
                        lemma_period_scan_keeps_attributes(t, j, PeriodV { preselections: x.preselections.push(v), ..x });
                    }
                } else if n == "SegmentBase"@ {
                    lemma_segment_base_at_pos(t, i + 1, a);
                    if let Ok((v, j)) = segment_base_at(t, i + 1, a) {
                        lemma_period_scan_keeps_attributes(t, j, PeriodV { segment_base: Some(v), ..x });
                    }
                } else if n == "SegmentList"@ {
                    lemma_segment_list_at_pos(t, i + 1, a);
                    if let Ok((v, j)) = segment_list_at(t, i + 1, a) {
                        lemma_period_scan_keeps_attributes(t, j, PeriodV { segment_list: Some(v), ..x });
                    }
                } else if n == "SegmentTemplate"@ {
                    lemma_segment_template_at_pos(t, i + 1, a);
                    if let Ok((v, j)) = segment_template_at(t, i + 1, a) {
                        lemma_period_scan_keeps_attributes(t, j, PeriodV { segment_template: Some(v), ..x });
                    }
                } else if n == "Subset"@ {
                    lemma_skip_scan_pos(t, i + 1, 1);
                    if let Ok(v) = subset_start(a) {
                        if let Ok(j) = skip_scan(t, i + 1, 1) {
                            lemma_period_scan_keeps_attributes(t, j, PeriodV { subsets: x.subsets.push(v), ..x });
                        }
                    }
                } else if n == "AdaptationSet"@ {
                    lemma_adaptation_set_at_pos(t, i + 1, a);
                    if let Ok((v, j)) = adaptation_set_at(t, i + 1, a) {
                        lemma_period_scan_keeps_attributes(t, j, PeriodV { adaptation_sets: x.adaptation_sets.push(v), ..x });
                    }
                } else {
                    lemma_skip_scan_pos(t, i + 1, 1);
                    if let Ok(j) = skip_scan(t, i + 1, 1) {
                        lemma_period_scan_keeps_attributes(t, j, x);
                    }
                },
            TokenV::Error => {},
            TokenV::EndDocument => {},
            _ => lemma_period_scan_keeps_attributes(t, i + 1, x),
        }
    }
}


pub proof fn lemma_period_at_pos(t: Seq<TokenV>, i: int, a: Seq<XmlAttrV>)
    requires
        0 <= i <= t.len(),
    ensures
        period_at(t, i, a) matches Ok((_, j)) ==> i <= j <= t.len(),
{
    reveal(period_at);
    if let Ok(x) = period_start(a) {
        lemma_period_scan_pos(t, i, x);
    }
}

/// The value of a `Metrics` element with the attributes `a`, before its content.
#[verifier::opaque]
pub open spec fn metrics_start(a: Seq<XmlAttrV>) -> Result<MetricsV, ErrorKind> {
    Ok(
        MetricsV {
            metrics: str_or_empty(first_attr(a, "metrics"@)),
            reportings: seq![],
            ranges: seq![],
        },
    )
}

/// The `Metrics` element whose value so far is `x`, read on from `t[i..]`: up
/// to its end tag (or the end of the document), with where the reading
/// goes on.
pub open spec fn metrics_scan(t: Seq<TokenV>, i: int, x: MetricsV) -> Result<(MetricsV, int), ErrorKind>
    decreases t.len() - i,
{
    if i < 0 || i > t.len() {
        Err(ErrorKind::Xml)
    } else if i == t.len() {
        Ok((x, i))
    } else {
        match t[i] {
            TokenV::Error => Err(ErrorKind::Xml),
            TokenV::EndDocument => Ok((x, i)),
            TokenV::End(n) => if n == "Metrics"@ {
                Ok((x, i + 1))
            } else {
                metrics_scan(t, i + 1, x)
            },
            TokenV::Start(n, _, a) => if n == "Reporting"@ {
                    proof {
                        lemma_skip_scan_pos(t, i + 1, 1);
                    }
                    match descriptor_start(a) {
                        Err(k) => Err(k),
                        Ok(v) => match skip_scan(t, i + 1, 1) {
                            Ok(j) => metrics_scan(t, j, MetricsV { reportings: x.reportings.push(v), ..x }),
                            Err(k) => Err(k),
                        },
                    }
                } else if n == "Range"@ {
                    proof {
                        lemma_skip_scan_pos(t, i + 1, 1);
                    }
                    match metrics_range_start(a) {
                        Err(k) => Err(k),
                        Ok(v) => match skip_scan(t, i + 1, 1) {
                            Ok(j) => metrics_scan(t, j, MetricsV { ranges: x.ranges.push(v), ..x }),
                            Err(k) => Err(k),
                        },
                    }
                } else {
                    proof {
                        lemma_skip_scan_pos(t, i + 1, 1);
                    }
                    match skip_scan(t, i + 1, 1) {
                        Ok(j) => metrics_scan(t, j, x),
                        Err(k) => Err(k),
                    }
                },
            _ => metrics_scan(t, i + 1, x),
        }
    }
}

/// The `Metrics` element with the attributes `a`, whose content begins at
/// `t[i]`.
#[verifier::opaque]
pub open spec fn metrics_at(t: Seq<TokenV>, i: int, a: Seq<XmlAttrV>) -> Result<(MetricsV, int), ErrorKind> {
    match metrics_start(a) {
        Err(k) => Err(k),
        Ok(x) => metrics_scan(t, i, x),
    }
}

pub proof fn lemma_metrics_scan_pos(t: Seq<TokenV>, i: int, x: MetricsV)
    ensures
        metrics_scan(t, i, x) matches Ok((_, j)) ==> i <= j <= t.len(),
    decreases t.len() - i,
{
    if 0 <= i < t.len() {
        match t[i] {
            TokenV::End(n) => if n != "Metrics"@ {
                lemma_metrics_scan_pos(t, i + 1, x);
            },
            TokenV::Start(n, _, a) => if n == "Reporting"@ {
                    lemma_skip_scan_pos(t, i + 1, 1);
                    if let Ok(v) = descriptor_start(a) {
                        if let Ok(j) = skip_scan(t, i + 1, 1) {
                            lemma_metrics_scan_pos(t, j, MetricsV { reportings: x.reportings.push(v), ..x });
                        }
                    }
                } else if n == "Range"@ {
                    lemma_skip_scan_pos(t, i + 1, 1);
                    if let Ok(v) = metrics_range_start(a) {
                        if let Ok(j) = skip_scan(t, i + 1, 1) {
                            lemma_metrics_scan_pos(t, j, MetricsV { ranges: x.ranges.push(v), ..x });
                        }
                    }
                } else {
                    lemma_skip_scan_pos(t, i + 1, 1);
                    if let Ok(j) = skip_scan(t, i + 1, 1) {
                        lemma_metrics_scan_pos(t, j, x);
                    }
                },
            TokenV::Error => {},
            TokenV::EndDocument => {},
            _ => lemma_metrics_scan_pos(t, i + 1, x),
        }
    }
}


pub proof fn lemma_metrics_at_pos(t: Seq<TokenV>, i: int, a: Seq<XmlAttrV>)
    requires
        0 <= i <= t.len(),
    ensures
        metrics_at(t, i, a) matches Ok((_, j)) ==> i <= j <= t.len(),
{
    reveal(metrics_at);
    if let Ok(x) = metrics_start(a) {
        lemma_metrics_scan_pos(t, i, x);
    }
}

/// The value of a `MPD` element with the attributes `a`, before its content.
#[verifier::opaque]
pub open spec fn mpd_start(a: Seq<XmlAttrV>) -> Result<MpdV, ErrorKind> {
    match dur_attr(first_attr(a, "mediaPresentationDuration"@)) {
        Err(k) => Err(k),
        Ok(media_presentation_duration) => match dur_attr(first_attr(a, "minBufferTime"@)) {
        Err(k) => Err(k),
        Ok(min_buffer_time) => match dur_attr(first_attr(a, "minimumUpdatePeriod"@)) {
        Err(k) => Err(k),
        Ok(minimum_update_period) => match dur_attr(first_attr(a, "timeShiftBufferDepth"@)) {
        Err(k) => Err(k),
        Ok(time_shift_buffer_depth) => match dur_attr(first_attr(a, "suggestedPresentationDelay"@)) {
        Err(k) => Err(k),
        Ok(suggested_presentation_delay) => match dur_attr(first_attr(a, "maxSegmentDuration"@)) {
        Err(k) => Err(k),
        Ok(max_segment_duration) => match dur_attr(first_attr(a, "maxSubsegmentDuration"@)) {
        Err(k) => Err(k),
        Ok(max_subsegment_duration) => Ok(
        MpdV {
            id: first_attr(a, "id"@),
            presentation_type: presentation_type_of(first_attr(a, "type"@)),
            media_presentation_duration: media_presentation_duration,
            min_buffer_time: match min_buffer_time {
                Some(v) => v,
                None => "PT0S"@,
            },
            minimum_update_period: minimum_update_period,
            availability_start_time: first_attr(a, "availabilityStartTime"@),
            availability_end_time: first_attr(a, "availabilityEndTime"@),
            time_shift_buffer_depth: time_shift_buffer_depth,
            suggested_presentation_delay: suggested_presentation_delay,
            publish_time: first_attr(a, "publishTime"@),
            max_segment_duration: max_segment_duration,
            max_subsegment_duration: max_subsegment_duration,
            profiles: str_or_empty(first_attr(a, "profiles"@)),
            base_urls: seq![],
            utc_timings: seq![],
            locations: seq![],
            service_descriptions: seq![],
            content_steering: None,
            patch_locations: seq![],
            essential_properties: seq![],
            supplemental_properties: seq![],
            metrics: seq![],
            periods: seq![],
        },
    ),
    },
    },
    },
    },
    },
    },
    }
}

/// The `MPD` element whose value so far is `x`, read on from `t[i..]`: up
/// to its end tag (or the end of the document), with where the reading
/// goes on.
pub open spec fn mpd_scan(t: Seq<TokenV>, i: int, x: MpdV) -> Result<(MpdV, int), ErrorKind>
    decreases t.len() - i,
{
    if i < 0 || i > t.len() {
        Err(ErrorKind::Xml)
    } else if i == t.len() {
        Ok((x, i))
    } else {
        match t[i] {
            TokenV::Error => Err(ErrorKind::Xml),
            TokenV::EndDocument => Ok((x, i)),
            TokenV::End(n) => if n == "MPD"@ {
                Ok((x, i + 1))
            } else {
                mpd_scan(t, i + 1, x)
            },
            TokenV::Start(n, _, a) => if n == "BaseURL"@ {
                    proof {
                        lemma_base_url_at_pos(t, i + 1, a);
                    }
                    match base_url_at(t, i + 1, a) {
                        Ok((v, j)) => mpd_scan(t, j, MpdV { base_urls: x.base_urls.push(v), ..x }),
                        Err(k) => Err(k),
                    }
                } else if n == "UTCTiming"@ {
                    proof {
                        lemma_skip_scan_pos(t, i + 1, 1);
                    }
                    match utc_timing_start(a) {
                        Err(k) => Err(k),
                        Ok(v) => match skip_scan(t, i + 1, 1) {
                            Ok(j) => mpd_scan(t, j, MpdV { utc_timings: x.utc_timings.push(v), ..x }),
                            Err(k) => Err(k),
                        },
                    }
                } else if n == "Location"@ {
                    proof {
                        lemma_location_at_pos(t, i + 1, a);
                    }
                    match location_at(t, i + 1, a) {
                        Ok((v, j)) => mpd_scan(t, j, MpdV { locations: x.locations.push(v), ..x }),
                        Err(k) => Err(k),
                    }
                } else if n == "PatchLocation"@ {
                    proof {
                        lemma_patch_location_at_pos(t, i + 1, a);
                    }
                    match patch_location_at(t, i + 1, a) {
                        Ok((v, j)) => mpd_scan(t, j, MpdV { patch_locations: x.patch_locations.push(v), ..x }),
                        Err(k) => Err(k),
                    }
                } else if n == "ServiceDescription"@ {
                    proof {
                        lemma_service_description_at_pos(t, i + 1, a);
                    }
                    match service_description_at(t, i + 1, a) {
                        Ok((v, j)) => mpd_scan(t, j, MpdV { service_descriptions: x.service_descriptions.push(v), ..x }),
                        Err(k) => Err(k),
                    }
                } else if n == "ContentSteering"@ {
                    proof {
                        lemma_content_steering_at_pos(t, i + 1, a);
                    }
                    match content_steering_at(t, i + 1, a) {
                        Ok((v, j)) => mpd_scan(t, j, MpdV { content_steering: Some(v), ..x }),
                        Err(k) => Err(k),
                    }
                } else if n == "EssentialProperty"@ {
                    proof {
                        lemma_skip_scan_pos(t, i + 1, 1);
                    }
                    match descriptor_start(a) {
                        Err(k) => Err(k),
                        Ok(v) => match skip_scan(t, i + 1, 1) {
                            Ok(j) => mpd_scan(t, j, MpdV { essential_properties: x.essential_properties.push(v), ..x }),
                            Err(k) => Err(k),
                        },
                    }
                } else if n == "SupplementalProperty"@ {
                    proof {
                        lemma_skip_scan_pos(t, i + 1, 1);
                    }
                    match descriptor_start(a) {
                        Err(k) => Err(k),
                        Ok(v) => match skip_scan(t, i + 1, 1) {
                            Ok(j) => mpd_scan(t, j, MpdV { supplemental_properties: x.supplemental_properties.push(v), ..x }),
                            Err(k) => Err(k),
                        },
                    }
                } else if n == "Metrics"@ {
                    proof {
                        lemma_metrics_at_pos(t, i + 1, a);
                    }
                    match metrics_at(t, i + 1, a) {
                        Ok((v, j)) => mpd_scan(t, j, MpdV { metrics: x.metrics.push(v), ..x }),
                        Err(k) => Err(k),
                    }
                } else if n == "Period"@ {
                    proof {
                        lemma_period_at_pos(t, i + 1, a);
                    }
                    match period_at(t, i + 1, a) {
                        Ok((v, j)) => mpd_scan(t, j, MpdV { periods: x.periods.push(v), ..x }),
                        Err(k) => Err(k),
                    }
                } else {
                    proof {
                        lemma_skip_scan_pos(t, i + 1, 1);
                    }
                    match skip_scan(t, i + 1, 1) {
                        Ok(j) => mpd_scan(t, j, x),
                        Err(k) => Err(k),
                    }
                },
            _ => mpd_scan(t, i + 1, x),
        }
    }
}

/// The `MPD` element with the attributes `a`, whose content begins at
/// `t[i]`.
#[verifier::opaque]
pub open spec fn mpd_at(t: Seq<TokenV>, i: int, a: Seq<XmlAttrV>) -> Result<(MpdV, int), ErrorKind> {
    match mpd_start(a) {
        Err(k) => Err(k),
        Ok(x) => mpd_scan(t, i, x),
    }
}

pub proof fn lemma_mpd_scan_pos(t: Seq<TokenV>, i: int, x: MpdV)
    ensures
        mpd_scan(t, i, x) matches Ok((_, j)) ==> i <= j <= t.len(),
    decreases t.len() - i,
{
    if 0 <= i < t.len() {
        match t[i] {
            TokenV::End(n) => if n != "MPD"@ {
                lemma_mpd_scan_pos(t, i + 1, x);
            },
            TokenV::Start(n, _, a) => if n == "BaseURL"@ {
                    lemma_base_url_at_pos(t, i + 1, a);
                    if let Ok((v, j)) = base_url_at(t, i + 1, a) {
                        lemma_mpd_scan_pos(t, j, MpdV { base_urls: x.base_urls.push(v), ..x });
                    }
                } else if n == "UTCTiming"@ {
                    lemma_skip_scan_pos(t, i + 1, 1);
                    if let Ok(v) = utc_timing_start(a) {
                        if let Ok(j) = skip_scan(t, i + 1, 1) {
                            lemma_mpd_scan_pos(t, j, MpdV { utc_timings: x.utc_timings.push(v), ..x });
                        }
                    }
                } else if n == "Location"@ {
                    lemma_location_at_pos(t, i + 1, a);
                    if let Ok((v, j)) = location_at(t, i + 1, a) {
                        lemma_mpd_scan_pos(t, j, MpdV { locations: x.locations.push(v), ..x });
                    }
                } else if n == "PatchLocation"@ {
                    lemma_patch_location_at_pos(t, i + 1, a);
                    if let Ok((v, j)) = patch_location_at(t, i + 1, a) {
                        lemma_mpd_scan_pos(t, j, MpdV { patch_locations: x.patch_locations.push(v), ..x });
                    }
                } else if n == "ServiceDescription"@ {
                    lemma_service_description_at_pos(t, i + 1, a);
                    if let Ok((v, j)) = service_description_at(t, i + 1, a) {
                        lemma_mpd_scan_pos(t, j, MpdV { service_descriptions: x.service_descriptions.push(v), ..x });
                    }
                } else if n == "ContentSteering"@ {
                    lemma_content_steering_at_pos(t, i + 1, a);
                    if let Ok((v, j)) = content_steering_at(t, i + 1, a) {
                        lemma_mpd_scan_pos(t, j, MpdV { content_steering: Some(v), ..x });
                    }
                } else if n == "EssentialProperty"@ {
                    lemma_skip_scan_pos(t, i + 1, 1);
                    if let Ok(v) = descriptor_start(a) {
                        if let Ok(j) = skip_scan(t, i + 1, 1) {
                            lemma_mpd_scan_pos(t, j, MpdV { essential_properties: x.essential_properties.push(v), ..x });
                        }
                    }
                } else if n == "SupplementalProperty"@ {
                    lemma_skip_scan_pos(t, i + 1, 1);
                    if let Ok(v) = descriptor_start(a) {
                        if let Ok(j) = skip_scan(t, i + 1, 1) {
                            lemma_mpd_scan_pos(t, j, MpdV { supplemental_properties: x.supplemental_properties.push(v), ..x });
                        }
                    }
                } else if n == "Metrics"@ {
                    lemma_metrics_at_pos(t, i + 1, a);
                    if let Ok((v, j)) = metrics_at(t, i + 1, a) {
                        lemma_mpd_scan_pos(t, j, MpdV { metrics: x.metrics.push(v), ..x });
                    }
                } else if n == "Period"@ {
                    lemma_period_at_pos(t, i + 1, a);
                    if let Ok((v, j)) = period_at(t, i + 1, a) {
                        lemma_mpd_scan_pos(t, j, MpdV { periods: x.periods.push(v), ..x });
                    }
                } else {
                    lemma_skip_scan_pos(t, i + 1, 1);
                    if let Ok(j) = skip_scan(t, i + 1, 1) {
                        lemma_mpd_scan_pos(t, j, x);
                    }
                },
            TokenV::Error => {},
            TokenV::EndDocument => {},
            _ => lemma_mpd_scan_pos(t, i + 1, x),
        }
    }
}

/// Reading the content of the `MPD` element changes only the fields that
/// its child elements fill: every value read from its attributes stays.
pub proof fn lemma_mpd_scan_keeps_attributes(t: Seq<TokenV>, i: int, x: MpdV)
    ensures
        mpd_scan(t, i, x) matches Ok((p, _)) ==> p == (MpdV { base_urls: p.base_urls, content_steering: p.content_steering, essential_properties: p.essential_properties, locations: p.locations, metrics: p.metrics, patch_locations: p.patch_locations, periods: p.periods, service_descriptions: p.service_descriptions, supplemental_properties: p.supplemental_properties, utc_timings: p.utc_timings, ..x }),
    decreases t.len() - i,
{
    if 0 <= i < t.len() {
        match t[i] {
            TokenV::End(n) => if n != "MPD"@ {
                lemma_mpd_scan_keeps_attributes(t, i + 1, x);
            },
            TokenV::Start(n, _, a) => if n == "BaseURL"@ {
                    lemma_base_url_at_pos(t, i + 1, a);
                    if let Ok((v, j)) = base_url_at(t, i + 1, a) {
                        lemma_mpd_scan_keeps_attributes(t, j, MpdV { base_urls: x.base_urls.push(v), ..x });
                    }
                } else if n == "UTCTiming"@ {
                    lemma_skip_scan_pos(t, i + 1, 1);
                    if let Ok(v) = utc_timing_start(a) {
                        if let Ok(j) = skip_scan(t, i + 1, 1) {
                            lemma_mpd_scan_keeps_attributes(t, j, MpdV { utc_timings: x.utc_timings.push(v), ..x });
                        }
                    }
                } else if n == "Location"@ {
                    lemma_location_at_pos(t, i + 1, a);
                    if let Ok((v, j)) = location_at(t, i + 1, a) {
                        lemma_mpd_scan_keeps_attributes(t, j, MpdV { locations: x.locations.push(v), ..x });
                    }
                } else if n == "PatchLocation"@ {
                    lemma_patch_location_at_pos(t, i + 1, a);
                    if let Ok((v, j)) = patch_location_at(t, i + 1, a) {
                        lemma_mpd_scan_keeps_attributes(t, j, MpdV { patch_locations: x.patch_locations.push(v), ..x });
                    }
                } else if n == "ServiceDescription"@ {
                    lemma_service_description_at_pos(t, i + 1, a);
                    if let Ok((v, j)) = service_description_at(t, i + 1, a) {
                        lemma_mpd_scan_keeps_attributes(t, j, MpdV { service_descriptions: x.service_descriptions.push(v), ..x });
                    }
                } else if n == "ContentSteering"@ {
                    lemma_content_steering_at_pos(t, i + 1, a);
                    if let Ok((v, j)) = content_steering_at(t, i + 1, a) {
                        lemma_mpd_scan_keeps_attributes(t, j, MpdV { content_steering: Some(v), ..x });
                    }
                } else if n == "EssentialProperty"@ {
                    lemma_skip_scan_pos(t, i + 1, 1);
                    if let Ok(v) = descriptor_start(a) {
                        if let Ok(j) = skip_scan(t, i + 1, 1) {
                            lemma_mpd_scan_keeps_attributes(t, j, MpdV { essential_properties: x.essential_properties.push(v), ..x });
                        }
                    }
                } else if n == "SupplementalProperty"@ {
                    lemma_skip_scan_pos(t, i + 1, 1);
                    if let Ok(v) = descriptor_start(a) {
                        if let Ok(j) = skip_scan(t, i + 1, 1) {
                            lemma_mpd_scan_keeps_attributes(t, j, MpdV { supplemental_properties: x.supplemental_properties.push(v), ..x });
                        }
                    }
                } else if n == "Metrics"@ {
                    lemma_metrics_at_pos(t, i + 1, a);
                    if let Ok((v, j)) = metrics_at(t, i + 1, a) {
                        lemma_mpd_scan_keeps_attributes(t, j, MpdV { metrics: x.metrics.push(v), ..x });
                    }
                } else if n == "Period"@ {
                    lemma_period_at_pos(t, i + 1, a);
                    if let Ok((v, j)) = period_at(t, i + 1, a) {
                        lemma_mpd_scan_keeps_attributes(t, j, MpdV { periods: x.periods.push(v), ..x });
                    }
                } else {
                    lemma_skip_scan_pos(t, i + 1, 1);
                    if let Ok(j) = skip_scan(t, i + 1, 1) {
                        lemma_mpd_scan_keeps_attributes(t, j, x);
                    }
                },
            TokenV::Error => {},
            TokenV::EndDocument => {},
            _ => lemma_mpd_scan_keeps_attributes(t, i + 1, x),
        }
    }
}


/// The value of a `Event` element with the attributes `a`, before its content.
#[verifier::opaque]
pub open spec fn event_start(a: Seq<XmlAttrV>) -> Result<EventV, ErrorKind> {
    Ok(
        EventV {
            presentation_time: u64_or(first_attr(a, "presentationTime"@), 0),
            duration: opt_u64(first_attr(a, "duration"@)),
            id: first_attr(a, "id"@),
            message_data: first_attr(a, "messageData"@),
            content: None,
            signal_binary: None,
        },
    )
}

/// The `Event` element with the attributes `a`, whose content begins at
/// `t[i]`.
#[verifier::opaque]
pub open spec fn event_at(t: Seq<TokenV>, i: int, a: Seq<XmlAttrV>) -> Result<(EventV, int), ErrorKind> {
    match event_start(a) {
        Err(k) => Err(k),
        Ok(x) => match event_body_scan(t, i, seq![], None) {
            Ok(((c, s), j)) => Ok((EventV { content: c, signal_binary: s, ..x }, j)),
            Err(k) => Err(k),
        },
    }
}

pub proof fn lemma_event_at_pos(t: Seq<TokenV>, i: int, a: Seq<XmlAttrV>)
    requires
        0 <= i <= t.len(),
    ensures
        event_at(t, i, a) matches Ok((_, j)) ==> i <= j <= t.len(),
{
    reveal(event_at);
    lemma_event_body_scan_pos(t, i, seq![], None);
}

/// Reads the attributes of a `descriptor` element.
fn start_descriptor(a: &Vec<XmlAttr>) -> (r: Result<Descriptor, Error>)
    ensures
        r matches Err(e) ==> reader_message_ok(e),
        result_is(r, descriptor_start(attrs_v(a@))),
{
    reveal(descriptor_start);
    
    let x = Descriptor {
        scheme_id_uri: attr_or_empty(a, "schemeIdUri"),
        value: get_attr(a, "value"),
        id: get_attr(a, "id"),
        dvb_url: get_attr(a, "url"),
        dvb_mime_type: get_attr(a, "mimeType"),
        dvb_font_family: get_attr(a, "fontFamily"),
    };
    Ok(x)
}

/// Reads the attributes of a `UTCTiming` element.
fn start_utc_timing(a: &Vec<XmlAttr>) -> (r: Result<UtcTiming, Error>)
    ensures
        r matches Err(e) ==> reader_message_ok(e),
        result_is(r, utc_timing_start(attrs_v(a@))),
{
    reveal(utc_timing_start);
    
    let x = UtcTiming {
        scheme_id_uri: attr_or_empty(a, "schemeIdUri"),
        value: get_attr(a, "value"),
        id: get_attr(a, "id"),
    };
    Ok(x)
}

/// Reads the attributes of a `SegmentURL` element.
fn start_segment_url(a: &Vec<XmlAttr>) -> (r: Result<SegmentUrl, Error>)
    ensures
        r matches Err(e) ==> reader_message_ok(e),
        result_is(r, segment_url_start(attrs_v(a@))),
{
    reveal(segment_url_start);
    
    let x = SegmentUrl {
        media: get_attr(a, "media"),
        media_range: get_attr(a, "mediaRange"),
        index_range: get_attr(a, "indexRange"),
    };
    Ok(x)
}

/// Reads the attributes of a `Subset` element.
fn start_subset(a: &Vec<XmlAttr>) -> (r: Result<Subset, Error>)
    ensures
        r matches Err(e) ==> reader_message_ok(e),
        result_is(r, subset_start(attrs_v(a@))),
{
    reveal(subset_start);
    
    let x = Subset {
        contains: attr_or_empty(a, "contains"),
        id: get_attr(a, "id"),
    };
    Ok(x)
}

/// Reads the attributes of a `SegmentSequenceProperties` element.
fn start_segment_sequence_properties(a: &Vec<XmlAttr>) -> (r: Result<SegmentSequenceProperties, Error>)
    ensures
        r matches Err(e) ==> reader_message_ok(e),
        result_is(r, segment_sequence_properties_start(attrs_v(a@))),
{
    reveal(segment_sequence_properties_start);
    
    let x = SegmentSequenceProperties {
        cadence: attr_u32(a, "cadence"),
        sap_type: attr_u32(a, "sapType"),
        event: attr_bool(a, "event"),
        alignment: get_attr(a, "alignment"),
    };
    Ok(x)
}

/// Reads the attributes of a `Latency` element.
fn start_latency(a: &Vec<XmlAttr>) -> (r: Result<Latency, Error>)
    ensures
        r matches Err(e) ==> reader_message_ok(e),
        result_is(r, latency_start(attrs_v(a@))),
{
    reveal(latency_start);
    
    let x = Latency {
        target: attr_u32(a, "target"),
        min: attr_u32(a, "min"),
        max: attr_u32(a, "max"),
        reference_id: attr_u32(a, "referenceId"),
    };
    Ok(x)
}

/// Reads the attributes of a `PlaybackRate` element.
fn start_playback_rate(a: &Vec<XmlAttr>) -> (r: Result<PlaybackRate, Error>)
    ensures
        r matches Err(e) ==> reader_message_ok(e),
        result_is(r, playback_rate_start(attrs_v(a@))),
{
    reveal(playback_rate_start);
    
    let x = PlaybackRate {
        min: get_attr(a, "min"),
        max: get_attr(a, "max"),
    };
    Ok(x)
}

/// Reads the attributes of a `OperatingQuality` element.
fn start_operating_quality(a: &Vec<XmlAttr>) -> (r: Result<OperatingQuality, Error>)
    ensures
        r matches Err(e) ==> reader_message_ok(e),
        result_is(r, operating_quality_start(attrs_v(a@))),
{
    reveal(operating_quality_start);
    
    let x = OperatingQuality {
        media_type: get_attr(a, "mediaType"),
        min: attr_u32(a, "min"),
        max: attr_u32(a, "max"),
        target: attr_u32(a, "target"),
        type_: get_attr(a, "type"),
        max_quality_difference: attr_u32(a, "maxQualityDifference"),
    };
    Ok(x)
}

/// Reads the attributes of a `OperatingBandwidth` element.
fn start_operating_bandwidth(a: &Vec<XmlAttr>) -> (r: Result<OperatingBandwidth, Error>)
    ensures
        r matches Err(e) ==> reader_message_ok(e),
        result_is(r, operating_bandwidth_start(attrs_v(a@))),
{
    reveal(operating_bandwidth_start);
    
    let x = OperatingBandwidth {
        media_type: get_attr(a, "mediaType"),
        min: attr_u32(a, "min"),
        max: attr_u32(a, "max"),
        target: attr_u32(a, "target"),
    };
    Ok(x)
}

/// Reads the attributes of a `CMCDParameters` element.
fn start_cmcd_parameters(a: &Vec<XmlAttr>) -> (r: Result<CmcdParameters, Error>)
    ensures
        r matches Err(e) ==> reader_message_ok(e),
        result_is(r, cmcd_parameters_start(attrs_v(a@))),
{
    reveal(cmcd_parameters_start);
    
    let x = CmcdParameters {
        scheme_id_uri: attr_or_empty(a, "schemeIdUri"),
        value: get_attr(a, "value"),
        id: get_attr(a, "id"),
        version: get_attr(a, "version"),
        session_id: get_attr(a, "sessionID"),
        content_id: get_attr(a, "contentID"),
        mode: get_attr(a, "mode"),
        keys: get_attr(a, "keys"),
        include_in_requests: get_attr(a, "includeInRequests"),
    };
    Ok(x)
}

/// Reads the attributes of a `Range` element.
fn start_metrics_range(a: &Vec<XmlAttr>) -> (r: Result<MetricsRange, Error>)
    ensures
        r matches Err(e) ==> reader_message_ok(e),
        result_is(r, metrics_range_start(attrs_v(a@))),
{
    reveal(metrics_range_start);
    let starttime = match attr_duration(a, "starttime") {
        Ok(v) => v,
        Err(e) => {
            return Err(e);
        },
    };
    let duration = match attr_duration(a, "duration") {
        Ok(v) => v,
        Err(e) => {
            return Err(e);
        },
    };
    let x = MetricsRange {
        starttime: starttime,
        duration: duration,
    };
    Ok(x)
}

/// Reads the attributes of a `BaseURL` element.
fn start_base_url(a: &Vec<XmlAttr>) -> (r: Result<BaseUrl, Error>)
    ensures
        r matches Err(e) ==> reader_message_ok(e),
        result_is(r, base_url_start(attrs_v(a@))),
{
    reveal(base_url_start);
    
    let x = BaseUrl {
        service_location: get_attr(a, "serviceLocation"),
        availability_time_offset: get_attr(a, "availabilityTimeOffset"),
        availability_time_complete: attr_bool(a, "availabilityTimeComplete"),
        byte_range: get_attr(a, "byteRange"),
        dvb_priority: attr_u32(a, "priority"),
        dvb_weight: attr_u32(a, "weight"),
        url: String::new(),
    };
    Ok(x)
}

/// Reads the `BaseURL` element whose start tag, with the attributes `a`, was
/// `t[start - 1]`; returns it with where the reading goes on.
fn parse_base_url(t: &Vec<XmlToken>, start: usize, a: &Vec<XmlAttr>) -> (r: Result<(BaseUrl, usize), Error>)
    requires
        start <= t@.len(),
    ensures
        r matches Err(e) ==> reader_message_ok(e),
        parsed_is(r, base_url_at(tokens_view(t@), start as int, attrs_v(a@))),
{
    reveal(base_url_at);
    let mut x = match start_base_url(a) {
        Ok(x) => x,
        Err(e) => {
            return Err(e);
        },
    };
    let (txt, j) = read_text_content(t, start, "BaseURL");
    x.url = match txt {
        Some(s) => s,
        None => String::new(),
    };
    Ok((x, j))
}

/// Reads the attributes of a `Location` element.
fn start_location(a: &Vec<XmlAttr>) -> (r: Result<Location, Error>)
    ensures
        r matches Err(e) ==> reader_message_ok(e),
        result_is(r, location_start(attrs_v(a@))),
{
    reveal(location_start);
    
    let x = Location {
        url: String::new(),
        service_location: get_attr(a, "serviceLocation"),
    };
    Ok(x)
}

/// Reads the `Location` element whose start tag, with the attributes `a`, was
/// `t[start - 1]`; returns it with where the reading goes on.
fn parse_location(t: &Vec<XmlToken>, start: usize, a: &Vec<XmlAttr>) -> (r: Result<(Location, usize), Error>)
    requires
        start <= t@.len(),
    ensures
        r matches Err(e) ==> reader_message_ok(e),
        parsed_is(r, location_at(tokens_view(t@), start as int, attrs_v(a@))),
{
    reveal(location_at);
    let mut x = match start_location(a) {
        Ok(x) => x,
        Err(e) => {
            return Err(e);
        },
    };
    let (txt, j) = read_text_content(t, start, "Location");
    x.url = match txt {
        Some(s) => s,
        None => String::new(),
    };
    Ok((x, j))
}

/// Reads the attributes of a `PatchLocation` element.
fn start_patch_location(a: &Vec<XmlAttr>) -> (r: Result<PatchLocation, Error>)
    ensures
        r matches Err(e) ==> reader_message_ok(e),
        result_is(r, patch_location_start(attrs_v(a@))),
{
    reveal(patch_location_start);
    
    let x = PatchLocation {
        url: String::new(),
        service_location: get_attr(a, "serviceLocation"),
        ttl: get_attr(a, "ttl"),
    };
    Ok(x)
}

/// Reads the `PatchLocation` element whose start tag, with the attributes `a`, was
/// `t[start - 1]`; returns it with where the reading goes on.
fn parse_patch_location(t: &Vec<XmlToken>, start: usize, a: &Vec<XmlAttr>) -> (r: Result<(PatchLocation, usize), Error>)
    requires
        start <= t@.len(),
    ensures
        r matches Err(e) ==> reader_message_ok(e),
        parsed_is(r, patch_location_at(tokens_view(t@), start as int, attrs_v(a@))),
{
    reveal(patch_location_at);
    let mut x = match start_patch_location(a) {
        Ok(x) => x,
        Err(e) => {
            return Err(e);
        },
    };
    let (txt, j) = read_text_content(t, start, "PatchLocation");
    x.url = match txt {
        Some(s) => s,
        None => String::new(),
    };
    Ok((x, j))
}

/// Reads the attributes of a `ContentSteering` element.
fn start_content_steering(a: &Vec<XmlAttr>) -> (r: Result<ContentSteering, Error>)
    ensures
        r matches Err(e) ==> reader_message_ok(e),
        result_is(r, content_steering_start(attrs_v(a@))),
{
    reveal(content_steering_start);
    
    let x = ContentSteering {
        server_url: String::new(),
        default_service_location: get_attr(a, "defaultServiceLocation"),
        query_before_start: attr_bool(a, "queryBeforeStart"),
        client_requirement: attr_bool(a, "clientRequirement"),
    };
    Ok(x)
}

/// Reads the `ContentSteering` element whose start tag, with the attributes `a`, was
/// `t[start - 1]`; returns it with where the reading goes on.
fn parse_content_steering(t: &Vec<XmlToken>, start: usize, a: &Vec<XmlAttr>) -> (r: Result<(ContentSteering, usize), Error>)
    requires
        start <= t@.len(),
    ensures
        r matches Err(e) ==> reader_message_ok(e),
        parsed_is(r, content_steering_at(tokens_view(t@), start as int, attrs_v(a@))),
{
    reveal(content_steering_at);
    let mut x = match start_content_steering(a) {
        Ok(x) => x,
        Err(e) => {
            return Err(e);
        },
    };
    let (txt, j) = read_text_content(t, start, "ContentSteering");
    x.server_url = match txt {
        Some(s) => s,
        None => String::new(),
    };
    Ok((x, j))
}

/// Reads the attributes of a `ContentProtection` element.
fn start_content_protection(a: &Vec<XmlAttr>) -> (r: Result<ContentProtection, Error>)
    ensures
        r matches Err(e) ==> reader_message_ok(e),
        result_is(r, content_protection_start(attrs_v(a@))),
{
    reveal(content_protection_start);
    
    let x = ContentProtection {
        scheme_id_uri: attr_or_empty(a, "schemeIdUri"),
        value: get_attr(a, "value"),
        default_kid: get_attr(a, "default_KID"),
        pssh: None,
        robustness: get_attr(a, "robustness"),
        ref_: get_attr(a, "ref"),
        ref_id: get_attr(a, "refId"),
        laurl: None,
        pro: None,
        certurls: Vec::new(),
    };
    assert(views(x.certurls@) =~= seq![]);
    Ok(x)
}

/// Reads the `ContentProtection` element whose start tag, with the attributes `a`, was
/// `t[start - 1]`; returns it with where the reading goes on.
fn parse_content_protection(t: &Vec<XmlToken>, start: usize, a: &Vec<XmlAttr>) -> (r: Result<(ContentProtection, usize), Error>)
    requires
        start <= t@.len(),
    ensures
        r matches Err(e) ==> reader_message_ok(e),
        parsed_is(r, content_protection_at(tokens_view(t@), start as int, attrs_v(a@))),
{
    reveal(content_protection_at);
    let ghost tv = tokens_view(t@);
    let ghost av = attrs_v(a@);
    let mut x = match start_content_protection(a) {
        Ok(x) => x,
        Err(e) => {
            return Err(e);
        },
    };
    let mut i = start;
    while i < t.len()
        invariant
            start <= i <= t@.len(),
            tv == tokens_view(t@),
            av == attrs_v(a@),
            content_protection_scan(tv, i as int, x@) == content_protection_at(tv, start as int, av),
        decreases t@.len() - i,
    {
        assert(tv[i as int] == t@[i as int]@);
        match &t[i] {
            XmlToken::Error(m) => {
                return Err(Error::with_text(ErrorKind::Xml, m.as_str()));
            },
            XmlToken::EndDocument => {
                return Ok((x, i));
            },
            XmlToken::End(n) => {
                if text_is(n.as_str(), "ContentProtection") {
                    return Ok((x, i + 1));
                }
                i = i + 1;
            },
            XmlToken::Start(n, _, ca) => {
                if text_is(n.as_str(), "pssh") {
                    proof {
                        lemma_text_scan_pos(tv, i + 1, n@, seq![]);
                    }
                    let (txt, j) = read_text_content(t, i + 1, n.as_str());
                    x.pssh = txt;
                    i = j;
                } else if text_is(n.as_str(), "Laurl") || text_is(n.as_str(), "laurl") {
                    proof {
                        lemma_text_scan_pos(tv, i + 1, n@, seq![]);
                    }
                    let (txt, j) = read_text_content(t, i + 1, n.as_str());
                    x.laurl = txt;
                    i = j;
                } else if text_is(n.as_str(), "pro") {
                    proof {
                        lemma_text_scan_pos(tv, i + 1, n@, seq![]);
                    }
                    let (txt, j) = read_text_content(t, i + 1, n.as_str());
                    x.pro = txt;
                    i = j;
                } else if text_is(n.as_str(), "Certurl") || text_is(n.as_str(), "certurl") {
                    proof {
                        lemma_text_scan_pos(tv, i + 1, n@, seq![]);
                    }
                    let (txt, j) = read_text_content(t, i + 1, n.as_str());
                    match txt {
                        Some(s) => {
                            let v = CertUrl { url: s, cert_type: get_attr(ca, "certType") };
                            let ghost prev = x.certurls@;
                                let ghost vv = v;
                                x.certurls.push(v);
                                proof {
                                    lemma_views_push(prev, vv);
                                }
                        },
                        None => {},
                    }
                    i = j;
                } else {
                    proof {
                        lemma_skip_scan_pos(tv, i + 1, 1);
                    }
                    match skip_dom_element(t, i + 1) {
                        Ok(j) => {
                            i = j;
                        },
                        Err(e) => {
                            return Err(e);
                        },
                    }
                }
            },
            _ => {
                i = i + 1;
            },
        }
    }
    Ok((x, i))
}

/// Reads the attributes of a `EventStream` element.
fn start_event_stream(a: &Vec<XmlAttr>) -> (r: Result<EventStream, Error>)
    ensures
        r matches Err(e) ==> reader_message_ok(e),
        result_is(r, event_stream_start(attrs_v(a@))),
{
    reveal(event_stream_start);
    
    let x = EventStream {
        scheme_id_uri: attr_or_empty(a, "schemeIdUri"),
        value: get_attr(a, "value"),
        timescale: attr_u64_or(a, "timescale", 1),
        presentation_time_offset: attr_u64_or(a, "presentationTimeOffset", 0),
        events: Vec::new(),
    };
    assert(views(x.events@) =~= seq![]);
    Ok(x)
}

/// Reads the `EventStream` element whose start tag, with the attributes `a`, was
/// `t[start - 1]`; returns it with where the reading goes on.
fn parse_event_stream(t: &Vec<XmlToken>, start: usize, a: &Vec<XmlAttr>) -> (r: Result<(EventStream, usize), Error>)
    requires
        start <= t@.len(),
    ensures
        r matches Err(e) ==> reader_message_ok(e),
        parsed_is(r, event_stream_at(tokens_view(t@), start as int, attrs_v(a@))),
{
    reveal(event_stream_at);
    let ghost tv = tokens_view(t@);
    let ghost av = attrs_v(a@);
    let mut x = match start_event_stream(a) {
        Ok(x) => x,
        Err(e) => {
            return Err(e);
        },
    };
    let mut i = start;
    while i < t.len()
        invariant
            start <= i <= t@.len(),
            tv == tokens_view(t@),
            av == attrs_v(a@),
            event_stream_scan(tv, i as int, x@) == event_stream_at(tv, start as int, av),
        decreases t@.len() - i,
    {
        assert(tv[i as int] == t@[i as int]@);
        match &t[i] {
            XmlToken::Error(m) => {
                return Err(Error::with_text(ErrorKind::Xml, m.as_str()));
            },
            XmlToken::EndDocument => {
                return Ok((x, i));
            },
            XmlToken::End(n) => {
                if text_is(n.as_str(), "EventStream") {
                    return Ok((x, i + 1));
                }
                i = i + 1;
            },
            XmlToken::Start(n, _, ca) => {
                if text_is(n.as_str(), "Event") {
                    proof {
                        lemma_event_at_pos(tv, i + 1, attrs_v(ca@));
                    }
                    match parse_event(t, i + 1, ca) {
                        Ok((v, j)) => {
                            let ghost prev = x.events@;
                                let ghost vv = v;
                                x.events.push(v);
                                proof {
                                    lemma_views_push(prev, vv);
                                }
                            i = j;
                        },
                        Err(e) => {
                            return Err(e);
                        },
                    }
                } else {
                    proof {
                        lemma_skip_scan_pos(tv, i + 1, 1);
                    }
                    match skip_dom_element(t, i + 1) {
                        Ok(j) => {
                            i = j;
                        },
                        Err(e) => {
                            return Err(e);
                        },
                    }
                }
            },
            _ => {
                i = i + 1;
            },
        }
    }
    Ok((x, i))
}

/// Reads the attributes of a `ProducerReferenceTime` element.
fn start_producer_reference_time(a: &Vec<XmlAttr>) -> (r: Result<ProducerReferenceTime, Error>)
    ensures
        r matches Err(e) ==> reader_message_ok(e),
        result_is(r, producer_reference_time_start(attrs_v(a@))),
{
    reveal(producer_reference_time_start);
    
    let x = ProducerReferenceTime {
        id: attr_u32_or(a, "id", 0),
        inband: attr_bool(a, "inband"),
        type_: get_attr(a, "type"),
        application_scheme: get_attr(a, "applicationScheme"),
        wall_clock_time: attr_or_empty(a, "wallClockTime"),
        presentation_time: attr_u64_or(a, "presentationTime", 0),
        utc_timing: None,
    };
    Ok(x)
}

/// Reads the `ProducerReferenceTime` element whose start tag, with the attributes `a`, was
/// `t[start - 1]`; returns it with where the reading goes on.
fn parse_producer_reference_time(t: &Vec<XmlToken>, start: usize, a: &Vec<XmlAttr>) -> (r: Result<(ProducerReferenceTime, usize), Error>)
    requires
        start <= t@.len(),
    ensures
        r matches Err(e) ==> reader_message_ok(e),
        parsed_is(r, producer_reference_time_at(tokens_view(t@), start as int, attrs_v(a@))),
{
    reveal(producer_reference_time_at);
    let ghost tv = tokens_view(t@);
    let ghost av = attrs_v(a@);
    let mut x = match start_producer_reference_time(a) {
        Ok(x) => x,
        Err(e) => {
            return Err(e);
        },
    };
    let mut i = start;
    while i < t.len()
        invariant
            start <= i <= t@.len(),
            tv == tokens_view(t@),
            av == attrs_v(a@),
            producer_reference_time_scan(tv, i as int, x@) == producer_reference_time_at(tv, start as int, av),
        decreases t@.len() - i,
    {
        assert(tv[i as int] == t@[i as int]@);
        match &t[i] {
            XmlToken::Error(m) => {
                return Err(Error::with_text(ErrorKind::Xml, m.as_str()));
            },
            XmlToken::EndDocument => {
                return Ok((x, i));
            },
            XmlToken::End(n) => {
                if text_is(n.as_str(), "ProducerReferenceTime") {
                    return Ok((x, i + 1));
                }
                i = i + 1;
            },
            XmlToken::Start(n, _, ca) => {
                if text_is(n.as_str(), "UTCTiming") {
                    proof {
                        lemma_skip_scan_pos(tv, i + 1, 1);
                    }
                    match start_utc_timing(ca) {
                        Ok(v) => match skip_dom_element(t, i + 1) {
                            Ok(j) => {
                                x.utc_timing = Some(v);
                                i = j;
                            },
                            Err(e) => {
                                return Err(e);
                            },
                        },
                        Err(e) => {
                            return Err(e);
                        },
                    }
                } else {
                    proof {
                        lemma_skip_scan_pos(tv, i + 1, 1);
                    }
                    match skip_dom_element(t, i + 1) {
                        Ok(j) => {
                            i = j;
                        },
                        Err(e) => {
                            return Err(e);
                        },
                    }
                }
            },
            _ => {
                i = i + 1;
            },
        }
    }
    Ok((x, i))
}

/// Reads the attributes of a `ContentComponent` element.
fn start_content_component(a: &Vec<XmlAttr>) -> (r: Result<ContentComponent, Error>)
    ensures
        r matches Err(e) ==> reader_message_ok(e),
        result_is(r, content_component_start(attrs_v(a@))),
{
    reveal(content_component_start);
    
    let x = ContentComponent {
        id: get_attr(a, "id"),
        content_type: get_attr(a, "contentType"),
        lang: get_attr(a, "lang"),
        accessibilities: Vec::new(),
        roles: Vec::new(),
    };
    assert(views(x.accessibilities@) =~= seq![]);
    assert(views(x.roles@) =~= seq![]);
    Ok(x)
}

/// Reads the `ContentComponent` element whose start tag, with the attributes `a`, was
/// `t[start - 1]`; returns it with where the reading goes on.
fn parse_content_component(t: &Vec<XmlToken>, start: usize, a: &Vec<XmlAttr>) -> (r: Result<(ContentComponent, usize), Error>)
    requires
        start <= t@.len(),
    ensures
        r matches Err(e) ==> reader_message_ok(e),
        parsed_is(r, content_component_at(tokens_view(t@), start as int, attrs_v(a@))),
{
    reveal(content_component_at);
    let ghost tv = tokens_view(t@);
    let ghost av = attrs_v(a@);
    let mut x = match start_content_component(a) {
        Ok(x) => x,
        Err(e) => {
            return Err(e);
        },
    };
    let mut i = start;
    while i < t.len()
        invariant
            start <= i <= t@.len(),
            tv == tokens_view(t@),
            av == attrs_v(a@),
            content_component_scan(tv, i as int, x@) == content_component_at(tv, start as int, av),
        decreases t@.len() - i,
    {
        assert(tv[i as int] == t@[i as int]@);
        match &t[i] {
            XmlToken::Error(m) => {
                return Err(Error::with_text(ErrorKind::Xml, m.as_str()));
            },
            XmlToken::EndDocument => {
                return Ok((x, i));
            },
            XmlToken::End(n) => {
                if text_is(n.as_str(), "ContentComponent") {
                    return Ok((x, i + 1));
                }
                i = i + 1;
            },
            XmlToken::Start(n, _, ca) => {
                if text_is(n.as_str(), "Accessibility") {
                    proof {
                        lemma_skip_scan_pos(tv, i + 1, 1);
                    }
                    match start_descriptor(ca) {
                        Ok(v) => match skip_dom_element(t, i + 1) {
                            Ok(j) => {
                                let ghost prev = x.accessibilities@;
                                let ghost vv = v;
                                x.accessibilities.push(v);
                                proof {
                                    lemma_views_push(prev, vv);
                                }
                                i = j;
                            },
                            Err(e) => {
                                return Err(e);
                            },
                        },
                        Err(e) => {
                            return Err(e);
                        },
                    }
                } else if text_is(n.as_str(), "Role") {
                    proof {
                        lemma_skip_scan_pos(tv, i + 1, 1);
                    }
                    match start_descriptor(ca) {
                        Ok(v) => match skip_dom_element(t, i + 1) {
                            Ok(j) => {
                                let ghost prev = x.roles@;
                                let ghost vv = v;
                                x.roles.push(v);
                                proof {
                                    lemma_views_push(prev, vv);
                                }
                                i = j;
                            },
                            Err(e) => {
                                return Err(e);
                            },
                        },
                        Err(e) => {
                            return Err(e);
                        },
                    }
                } else {
                    proof {
                        lemma_skip_scan_pos(tv, i + 1, 1);
                    }
                    match skip_dom_element(t, i + 1) {
                        Ok(j) => {
                            i = j;
                        },
                        Err(e) => {
                            return Err(e);
                        },
                    }
                }
            },
            _ => {
                i = i + 1;
            },
        }
    }
    Ok((x, i))
}

/// Reads the attributes of a `ClientDataReporting` element.
fn start_client_data_reporting(a: &Vec<XmlAttr>) -> (r: Result<ClientDataReporting, Error>)
    ensures
        r matches Err(e) ==> reader_message_ok(e),
        result_is(r, client_data_reporting_start(attrs_v(a@))),
{
    reveal(client_data_reporting_start);
    
    let x = ClientDataReporting {
        service_locations: get_attr(a, "serviceLocations"),
        adaptation_sets: get_attr(a, "adaptationSets"),
        cmcd_parameters: None,
    };
    Ok(x)
}

/// Reads the `ClientDataReporting` element whose start tag, with the attributes `a`, was
/// `t[start - 1]`; returns it with where the reading goes on.
fn parse_client_data_reporting(t: &Vec<XmlToken>, start: usize, a: &Vec<XmlAttr>) -> (r: Result<(ClientDataReporting, usize), Error>)
    requires
        start <= t@.len(),
    ensures
        r matches Err(e) ==> reader_message_ok(e),
        parsed_is(r, client_data_reporting_at(tokens_view(t@), start as int, attrs_v(a@))),
{
    reveal(client_data_reporting_at);
    let ghost tv = tokens_view(t@);
    let ghost av = attrs_v(a@);
    let mut x = match start_client_data_reporting(a) {
        Ok(x) => x,
        Err(e) => {
            return Err(e);
        },
    };
    let mut i = start;
    while i < t.len()
        invariant
            start <= i <= t@.len(),
            tv == tokens_view(t@),
            av == attrs_v(a@),
            client_data_reporting_scan(tv, i as int, x@) == client_data_reporting_at(tv, start as int, av),
        decreases t@.len() - i,
    {
        assert(tv[i as int] == t@[i as int]@);
        match &t[i] {
            XmlToken::Error(m) => {
                return Err(Error::with_text(ErrorKind::Xml, m.as_str()));
            },
            XmlToken::EndDocument => {
                return Ok((x, i));
            },
            XmlToken::End(n) => {
                if text_is(n.as_str(), "ClientDataReporting") {
                    return Ok((x, i + 1));
                }
                i = i + 1;
            },
            XmlToken::Start(n, _, ca) => {
                if text_is(n.as_str(), "CMCDParameters") {
                    proof {
                        lemma_skip_scan_pos(tv, i + 1, 1);
                    }
                    match start_cmcd_parameters(ca) {
                        Ok(v) => match skip_dom_element(t, i + 1) {
                            Ok(j) => {
                                x.cmcd_parameters = Some(v);
                                i = j;
                            },
                            Err(e) => {
                                return Err(e);
                            },
                        },
                        Err(e) => {
                            return Err(e);
                        },
                    }
                } else {
                    proof {
                        lemma_skip_scan_pos(tv, i + 1, 1);
                    }
                    match skip_dom_element(t, i + 1) {
                        Ok(j) => {
                            i = j;
                        },
                        Err(e) => {
                            return Err(e);
                        },
                    }
                }
            },
            _ => {
                i = i + 1;
            },
        }
    }
    Ok((x, i))
}

/// Reads the attributes of a `ServiceDescription` element.
fn start_service_description(a: &Vec<XmlAttr>) -> (r: Result<ServiceDescription, Error>)
    ensures
        r matches Err(e) ==> reader_message_ok(e),
        result_is(r, service_description_start(attrs_v(a@))),
{
    reveal(service_description_start);
    
    let x = ServiceDescription {
        id: attr_u32(a, "id"),
        scope: None,
        latency: None,
        playback_rate: None,
        operating_quality: None,
        operating_bandwidth: None,
        client_data_reporting: None,
    };
    Ok(x)
}

/// Reads the `ServiceDescription` element whose start tag, with the attributes `a`, was
/// `t[start - 1]`; returns it with where the reading goes on.
fn parse_service_description(t: &Vec<XmlToken>, start: usize, a: &Vec<XmlAttr>) -> (r: Result<(ServiceDescription, usize), Error>)
    requires
        start <= t@.len(),
    ensures
        r matches Err(e) ==> reader_message_ok(e),
        parsed_is(r, service_description_at(tokens_view(t@), start as int, attrs_v(a@))),
{
    reveal(service_description_at);
    let ghost tv = tokens_view(t@);
    let ghost av = attrs_v(a@);
    let mut x = match start_service_description(a) {
        Ok(x) => x,
        Err(e) => {
            return Err(e);
        },
    };
    let mut i = start;
    while i < t.len()
        invariant
            start <= i <= t@.len(),
            tv == tokens_view(t@),
            av == attrs_v(a@),
            service_description_scan(tv, i as int, x@) == service_description_at(tv, start as int, av),
        decreases t@.len() - i,
    {
        assert(tv[i as int] == t@[i as int]@);
        match &t[i] {
            XmlToken::Error(m) => {
                return Err(Error::with_text(ErrorKind::Xml, m.as_str()));
            },
            XmlToken::EndDocument => {
                return Ok((x, i));
            },
            XmlToken::End(n) => {
                if text_is(n.as_str(), "ServiceDescription") {
                    return Ok((x, i + 1));
                }
                i = i + 1;
            },
            XmlToken::Start(n, _, ca) => {
                if text_is(n.as_str(), "Scope") {
                    proof {
                        lemma_skip_scan_pos(tv, i + 1, 1);
                    }
                    match start_descriptor(ca) {
                        Ok(v) => match skip_dom_element(t, i + 1) {
                            Ok(j) => {
                                x.scope = Some(v);
                                i = j;
                            },
                            Err(e) => {
                                return Err(e);
                            },
                        },
                        Err(e) => {
                            return Err(e);
                        },
                    }
                } else if text_is(n.as_str(), "Latency") {
                    proof {
                        lemma_skip_scan_pos(tv, i + 1, 1);
                    }
                    match start_latency(ca) {
                        Ok(v) => match skip_dom_element(t, i + 1) {
                            Ok(j) => {
                                x.latency = Some(v);
                                i = j;
                            },
                            Err(e) => {
                                return Err(e);
                            },
                        },
                        Err(e) => {
                            return Err(e);
                        },
                    }
                } else if text_is(n.as_str(), "PlaybackRate") {
                    proof {
                        lemma_skip_scan_pos(tv, i + 1, 1);
                    }
                    match start_playback_rate(ca) {
                        Ok(v) => match skip_dom_element(t, i + 1) {
                            Ok(j) => {
                                x.playback_rate = Some(v);
                                i = j;
                            },
                            Err(e) => {
                                return Err(e);
                            },
                        },
                        Err(e) => {
                            return Err(e);
                        },
                    }
                } else if text_is(n.as_str(), "OperatingQuality") {
                    proof {
                        lemma_skip_scan_pos(tv, i + 1, 1);
                    }
                    match start_operating_quality(ca) {
                        Ok(v) => match skip_dom_element(t, i + 1) {
                            Ok(j) => {
                                x.operating_quality = Some(v);
                                i = j;
                            },
                            Err(e) => {
                                return Err(e);
                            },
                        },
                        Err(e) => {
                            return Err(e);
                        },
                    }
                } else if text_is(n.as_str(), "OperatingBandwidth") {
                    proof {
                        lemma_skip_scan_pos(tv, i + 1, 1);
                    }
                    match start_operating_bandwidth(ca) {
                        Ok(v) => match skip_dom_element(t, i + 1) {
                            Ok(j) => {
                                x.operating_bandwidth = Some(v);
                                i = j;
                            },
                            Err(e) => {
                                return Err(e);
                            },
                        },
                        Err(e) => {
                            return Err(e);
                        },
                    }
                } else if text_is(n.as_str(), "ClientDataReporting") {
                    proof {
                        lemma_client_data_reporting_at_pos(tv, i + 1, attrs_v(ca@));
                    }
                    match parse_client_data_reporting(t, i + 1, ca) {
                        Ok((v, j)) => {
                            x.client_data_reporting = Some(v);
                            i = j;
                        },
                        Err(e) => {
                            return Err(e);
                        },
                    }
                } else {
                    proof {
                        lemma_skip_scan_pos(tv, i + 1, 1);
                    }
                    match skip_dom_element(t, i + 1) {
                        Ok(j) => {
                            i = j;
                        },
                        Err(e) => {
                            return Err(e);
                        },
                    }
                }
            },
            _ => {
                i = i + 1;
            },
        }
    }
    Ok((x, i))
}

/// Reads the attributes of a `Preselection` element.
fn start_preselection(a: &Vec<XmlAttr>) -> (r: Result<Preselection, Error>)
    ensures
        r matches Err(e) ==> reader_message_ok(e),
        result_is(r, preselection_start(attrs_v(a@))),
{
    reveal(preselection_start);
    
    let x = Preselection {
        id: get_attr(a, "id"),
        preselection_components: get_attr(a, "preselectionComponents"),
        lang: get_attr(a, "lang"),
        tag: get_attr(a, "tag"),
        order: attr_u32(a, "order"),
        content_type: get_attr(a, "contentType"),
        mime_type: get_attr(a, "mimeType"),
        codecs: get_attr(a, "codecs"),
        accessibilities: Vec::new(),
        roles: Vec::new(),
        viewpoints: Vec::new(),
        labels: Vec::new(),
        essential_properties: Vec::new(),
        supplemental_properties: Vec::new(),
    };
    assert(views(x.accessibilities@) =~= seq![]);
    assert(views(x.roles@) =~= seq![]);
    assert(views(x.viewpoints@) =~= seq![]);
    assert(views(x.labels@) =~= seq![]);
    assert(views(x.essential_properties@) =~= seq![]);
    assert(views(x.supplemental_properties@) =~= seq![]);
    Ok(x)
}

/// Reads the `Preselection` element whose start tag, with the attributes `a`, was
/// `t[start - 1]`; returns it with where the reading goes on.
fn parse_preselection(t: &Vec<XmlToken>, start: usize, a: &Vec<XmlAttr>) -> (r: Result<(Preselection, usize), Error>)
    requires
        start <= t@.len(),
    ensures
        r matches Err(e) ==> reader_message_ok(e),
        parsed_is(r, preselection_at(tokens_view(t@), start as int, attrs_v(a@))),
{
    reveal(preselection_at);
    let ghost tv = tokens_view(t@);
    let ghost av = attrs_v(a@);
    let mut x = match start_preselection(a) {
        Ok(x) => x,
        Err(e) => {
            return Err(e);
        },
    };
    let mut i = start;
    while i < t.len()
        invariant
            start <= i <= t@.len(),
            tv == tokens_view(t@),
            av == attrs_v(a@),
            preselection_scan(tv, i as int, x@) == preselection_at(tv, start as int, av),
        decreases t@.len() - i,
    {
        assert(tv[i as int] == t@[i as int]@);
        match &t[i] {
            XmlToken::Error(m) => {
                return Err(Error::with_text(ErrorKind::Xml, m.as_str()));
            },
            XmlToken::EndDocument => {
                return Ok((x, i));
            },
            XmlToken::End(n) => {
                if text_is(n.as_str(), "Preselection") {
                    return Ok((x, i + 1));
                }
                i = i + 1;
            },
            XmlToken::Start(n, _, ca) => {
                if text_is(n.as_str(), "Accessibility") {
                    proof {
                        lemma_skip_scan_pos(tv, i + 1, 1);
                    }
                    match start_descriptor(ca) {
                        Ok(v) => match skip_dom_element(t, i + 1) {
                            Ok(j) => {
                                let ghost prev = x.accessibilities@;
                                let ghost vv = v;
                                x.accessibilities.push(v);
                                proof {
                                    lemma_views_push(prev, vv);
                                }
                                i = j;
                            },
                            Err(e) => {
                                return Err(e);
                            },
                        },
                        Err(e) => {
                            return Err(e);
                        },
                    }
                } else if text_is(n.as_str(), "Role") {
                    proof {
                        lemma_skip_scan_pos(tv, i + 1, 1);
                    }
                    match start_descriptor(ca) {
                        Ok(v) => match skip_dom_element(t, i + 1) {
                            Ok(j) => {
                                let ghost prev = x.roles@;
                                let ghost vv = v;
                                x.roles.push(v);
                                proof {
                                    lemma_views_push(prev, vv);
                                }
                                i = j;
                            },
                            Err(e) => {
                                return Err(e);
                            },
                        },
                        Err(e) => {
                            return Err(e);
                        },
                    }
                } else if text_is(n.as_str(), "Viewpoint") {
                    proof {
                        lemma_skip_scan_pos(tv, i + 1, 1);
                    }
                    match start_descriptor(ca) {
                        Ok(v) => match skip_dom_element(t, i + 1) {
                            Ok(j) => {
                                let ghost prev = x.viewpoints@;
                                let ghost vv = v;
                                x.viewpoints.push(v);
                                proof {
                                    lemma_views_push(prev, vv);
                                }
                                i = j;
                            },
                            Err(e) => {
                                return Err(e);
                            },
                        },
                        Err(e) => {
                            return Err(e);
                        },
                    }
                } else if text_is(n.as_str(), "Label") {
                    proof {
                        lemma_text_scan_pos(tv, i + 1, n@, seq![]);
                    }
                    let (txt, j) = read_text_content(t, i + 1, n.as_str());
                    match txt {
                        Some(s) => {
                            let v = Label { lang: get_attr(ca, "lang"), text: s };
                            let ghost prev = x.labels@;
                                let ghost vv = v;
                                x.labels.push(v);
                                proof {
                                    lemma_views_push(prev, vv);
                                }
                        },
                        None => {},
                    }
                    i = j;
                } else if text_is(n.as_str(), "EssentialProperty") {
                    proof {
                        lemma_skip_scan_pos(tv, i + 1, 1);
                    }
                    match start_descriptor(ca) {
                        Ok(v) => match skip_dom_element(t, i + 1) {
                            Ok(j) => {
                                let ghost prev = x.essential_properties@;
                                let ghost vv = v;
                                x.essential_properties.push(v);
                                proof {
                                    lemma_views_push(prev, vv);
                                }
                                i = j;
                            },
                            Err(e) => {
                                return Err(e);
                            },
                        },
                        Err(e) => {
                            return Err(e);
                        },
                    }
                } else if text_is(n.as_str(), "SupplementalProperty") {
                    proof {
                        lemma_skip_scan_pos(tv, i + 1, 1);
                    }
                    match start_descriptor(ca) {
                        Ok(v) => match skip_dom_element(t, i + 1) {
                            Ok(j) => {
                                let ghost prev = x.supplemental_properties@;
                                let ghost vv = v;
                                x.supplemental_properties.push(v);
                                proof {
                                    lemma_views_push(prev, vv);
                                }
                                i = j;
                            },
                            Err(e) => {
                                return Err(e);
                            },
                        },
                        Err(e) => {
                            return Err(e);
                        },
                    }
                } else {
                    proof {
                        lemma_skip_scan_pos(tv, i + 1, 1);
                    }
                    match skip_dom_element(t, i + 1) {
                        Ok(j) => {
                            i = j;
                        },
                        Err(e) => {
                            return Err(e);
                        },
                    }
                }
            },
            _ => {
                i = i + 1;
            },
        }
    }
    Ok((x, i))
}

/// Reads the attributes of a `SegmentBase` element.
fn start_segment_base(a: &Vec<XmlAttr>) -> (r: Result<SegmentBase, Error>)
    ensures
        r matches Err(e) ==> reader_message_ok(e),
        result_is(r, segment_base_start(attrs_v(a@))),
{
    reveal(segment_base_start);
    
    let x = SegmentBase {
        timescale: attr_u64_or(a, "timescale", 1),
        presentation_time_offset: attr_u64_or(a, "presentationTimeOffset", 0),
        index_range: get_attr(a, "indexRange"),
        index_range_exact: attr_bool(a, "indexRangeExact"),
        availability_time_offset: get_attr(a, "availabilityTimeOffset"),
        availability_time_complete: attr_bool(a, "availabilityTimeComplete"),
        initialization_source_url: None,
        initialization_range: None,
        representation_index_source_url: None,
        representation_index_range: None,
        bitstream_switching_source_url: None,
        bitstream_switching_range: None,
    };
    Ok(x)
}

/// Reads the `SegmentBase` element whose start tag, with the attributes `a`, was
/// `t[start - 1]`; returns it with where the reading goes on.
fn parse_segment_base(t: &Vec<XmlToken>, start: usize, a: &Vec<XmlAttr>) -> (r: Result<(SegmentBase, usize), Error>)
    requires
        start <= t@.len(),
    ensures
        r matches Err(e) ==> reader_message_ok(e),
        parsed_is(r, segment_base_at(tokens_view(t@), start as int, attrs_v(a@))),
{
    reveal(segment_base_at);
    let ghost tv = tokens_view(t@);
    let ghost av = attrs_v(a@);
    let mut x = match start_segment_base(a) {
        Ok(x) => x,
        Err(e) => {
            return Err(e);
        },
    };
    let mut i = start;
    while i < t.len()
        invariant
            start <= i <= t@.len(),
            tv == tokens_view(t@),
            av == attrs_v(a@),
            segment_base_scan(tv, i as int, x@) == segment_base_at(tv, start as int, av),
        decreases t@.len() - i,
    {
        assert(tv[i as int] == t@[i as int]@);
        match &t[i] {
            XmlToken::Error(m) => {
                return Err(Error::with_text(ErrorKind::Xml, m.as_str()));
            },
            XmlToken::EndDocument => {
                return Ok((x, i));
            },
            XmlToken::End(n) => {
                if text_is(n.as_str(), "SegmentBase") {
                    return Ok((x, i + 1));
                }
                i = i + 1;
            },
            XmlToken::Start(n, _, ca) => {
                if text_is(n.as_str(), "Initialization") {
                    proof {
                        lemma_skip_scan_pos(tv, i + 1, 1);
                    }
                    match skip_dom_element(t, i + 1) {
                        Ok(j) => {
                            x.initialization_source_url = get_attr(ca, "sourceURL");
                            x.initialization_range = get_attr(ca, "range");
                            i = j;
                        },
                        Err(e) => {
                            return Err(e);
                        },
                    }
                } else if text_is(n.as_str(), "RepresentationIndex") {
                    proof {
                        lemma_skip_scan_pos(tv, i + 1, 1);
                    }
                    match skip_dom_element(t, i + 1) {
                        Ok(j) => {
                            x.representation_index_source_url = get_attr(ca, "sourceURL");
                            x.representation_index_range = get_attr(ca, "range");
                            i = j;
                        },
                        Err(e) => {
                            return Err(e);
                        },
                    }
                } else if text_is(n.as_str(), "BitstreamSwitching") {
                    proof {
                        lemma_skip_scan_pos(tv, i + 1, 1);
                    }
                    match skip_dom_element(t, i + 1) {
                        Ok(j) => {
                            x.bitstream_switching_source_url = get_attr(ca, "sourceURL");
                            x.bitstream_switching_range = get_attr(ca, "range");
                            i = j;
                        },
                        Err(e) => {
                            return Err(e);
                        },
                    }
                } else {
                    proof {
                        lemma_skip_scan_pos(tv, i + 1, 1);
                    }
                    match skip_dom_element(t, i + 1) {
                        Ok(j) => {
                            i = j;
                        },
                        Err(e) => {
                            return Err(e);
                        },
                    }
                }
            },
            _ => {
                i = i + 1;
            },
        }
    }
    Ok((x, i))
}

/// Reads the attributes of a `SegmentList` element.
fn start_segment_list(a: &Vec<XmlAttr>) -> (r: Result<SegmentList, Error>)
    ensures
        r matches Err(e) ==> reader_message_ok(e),
        result_is(r, segment_list_start(attrs_v(a@))),
{
    reveal(segment_list_start);
    
    let x = SegmentList {
        xlink_href: get_xlink_attr(a, "href"),
        xlink_actuate: get_xlink_attr(a, "actuate"),
        timescale: attr_u64_or(a, "timescale", 1),
        duration: attr_u64(a, "duration"),
        start_number: attr_u64_or(a, "startNumber", 1),
        end_number: attr_u64(a, "endNumber"),
        presentation_time_offset: attr_u64_or(a, "presentationTimeOffset", 0),
        availability_time_offset: get_attr(a, "availabilityTimeOffset"),
        availability_time_complete: attr_bool(a, "availabilityTimeComplete"),
        initialization_source_url: None,
        initialization_range: None,
        representation_index_source_url: None,
        representation_index_range: None,
        bitstream_switching_source_url: None,
        bitstream_switching_range: None,
        segment_urls: Vec::new(),
        segment_timeline: None,
    };
    assert(views(x.segment_urls@) =~= seq![]);
    Ok(x)
}

/// Reads the `SegmentList` element whose start tag, with the attributes `a`, was
/// `t[start - 1]`; returns it with where the reading goes on.
fn parse_segment_list(t: &Vec<XmlToken>, start: usize, a: &Vec<XmlAttr>) -> (r: Result<(SegmentList, usize), Error>)
    requires
        start <= t@.len(),
    ensures
        r matches Err(e) ==> reader_message_ok(e),
        parsed_is(r, segment_list_at(tokens_view(t@), start as int, attrs_v(a@))),
{
    reveal(segment_list_at);
    let ghost tv = tokens_view(t@);
    let ghost av = attrs_v(a@);
    let mut x = match start_segment_list(a) {
        Ok(x) => x,
        Err(e) => {
            return Err(e);
        },
    };
    let mut i = start;
    while i < t.len()
        invariant
            start <= i <= t@.len(),
            tv == tokens_view(t@),
            av == attrs_v(a@),
            segment_list_scan(tv, i as int, x@) == segment_list_at(tv, start as int, av),
        decreases t@.len() - i,
    {
        assert(tv[i as int] == t@[i as int]@);
        match &t[i] {
            XmlToken::Error(m) => {
                return Err(Error::with_text(ErrorKind::Xml, m.as_str()));
            },
            XmlToken::EndDocument => {
                return Ok((x, i));
            },
            XmlToken::End(n) => {
                if text_is(n.as_str(), "SegmentList") {
                    return Ok((x, i + 1));
                }
                i = i + 1;
            },
            XmlToken::Start(n, _, ca) => {
                if text_is(n.as_str(), "Initialization") {
                    proof {
                        lemma_skip_scan_pos(tv, i + 1, 1);
                    }
                    match skip_dom_element(t, i + 1) {
                        Ok(j) => {
                            x.initialization_source_url = get_attr(ca, "sourceURL");
                            x.initialization_range = get_attr(ca, "range");
                            i = j;
                        },
                        Err(e) => {
                            return Err(e);
                        },
                    }
                } else if text_is(n.as_str(), "RepresentationIndex") {
                    proof {
                        lemma_skip_scan_pos(tv, i + 1, 1);
                    }
                    match skip_dom_element(t, i + 1) {
                        Ok(j) => {
                            x.representation_index_source_url = get_attr(ca, "sourceURL");
                            x.representation_index_range = get_attr(ca, "range");
                            i = j;
                        },
                        Err(e) => {
                            return Err(e);
                        },
                    }
                } else if text_is(n.as_str(), "BitstreamSwitching") {
                    proof {
                        lemma_skip_scan_pos(tv, i + 1, 1);
                    }
                    match skip_dom_element(t, i + 1) {
                        Ok(j) => {
                            x.bitstream_switching_source_url = get_attr(ca, "sourceURL");
                            x.bitstream_switching_range = get_attr(ca, "range");
                            i = j;
                        },
                        Err(e) => {
                            return Err(e);
                        },
                    }
                } else if text_is(n.as_str(), "SegmentURL") {
                    proof {
                        lemma_skip_scan_pos(tv, i + 1, 1);
                    }
                    match start_segment_url(ca) {
                        Ok(v) => match skip_dom_element(t, i + 1) {
                            Ok(j) => {
                                let ghost prev = x.segment_urls@;
                                let ghost vv = v;
                                x.segment_urls.push(v);
                                proof {
                                    lemma_views_push(prev, vv);
                                }
                                i = j;
                            },
                            Err(e) => {
                                return Err(e);
                            },
                        },
                        Err(e) => {
                            return Err(e);
                        },
                    }
                } else if text_is(n.as_str(), "SegmentTimeline") {
                    proof {
                        lemma_timeline_scan_pos(tv, i + 1, seq![]);
                    }
                    let (es, j) = parse_segment_timeline(t, i + 1);
                    x.segment_timeline = Some(es);
                    i = j;
                } else {
                    proof {
                        lemma_skip_scan_pos(tv, i + 1, 1);
                    }
                    match skip_dom_element(t, i + 1) {
                        Ok(j) => {
                            i = j;
                        },
                        Err(e) => {
                            return Err(e);
                        },
                    }
                }
            },
            _ => {
                i = i + 1;
            },
        }
    }
    Ok((x, i))
}

/// Reads the attributes of a `SegmentTemplate` element.
fn start_segment_template(a: &Vec<XmlAttr>) -> (r: Result<SegmentTemplate, Error>)
    ensures
        r matches Err(e) ==> reader_message_ok(e),
        result_is(r, segment_template_start(attrs_v(a@))),
{
    reveal(segment_template_start);
    
    let x = SegmentTemplate {
        media: get_attr(a, "media"),
        initialization: get_attr(a, "initialization"),
        index: get_attr(a, "index"),
        timescale: attr_u64_or(a, "timescale", 1),
        duration: attr_u64(a, "duration"),
        start_number: attr_u64_or(a, "startNumber", 1),
        end_number: attr_u64(a, "endNumber"),
        presentation_time_offset: attr_u64_or(a, "presentationTimeOffset", 0),
        availability_time_offset: get_attr(a, "availabilityTimeOffset"),
        availability_time_complete: attr_bool(a, "availabilityTimeComplete"),
        bitstream_switching_source_url: None,
        bitstream_switching_range: None,
        segment_timeline: None,
    };
    Ok(x)
}

/// Reads the `SegmentTemplate` element whose start tag, with the attributes `a`, was
/// `t[start - 1]`; returns it with where the reading goes on.
fn parse_segment_template(t: &Vec<XmlToken>, start: usize, a: &Vec<XmlAttr>) -> (r: Result<(SegmentTemplate, usize), Error>)
    requires
        start <= t@.len(),
    ensures
        r matches Err(e) ==> reader_message_ok(e),
        parsed_is(r, segment_template_at(tokens_view(t@), start as int, attrs_v(a@))),
{
    reveal(segment_template_at);
    let ghost tv = tokens_view(t@);
    let ghost av = attrs_v(a@);
    let mut x = match start_segment_template(a) {
        Ok(x) => x,
        Err(e) => {
            return Err(e);
        },
    };
    let mut i = start;
    while i < t.len()
        invariant
            start <= i <= t@.len(),
            tv == tokens_view(t@),
            av == attrs_v(a@),
            segment_template_scan(tv, i as int, x@) == segment_template_at(tv, start as int, av),
        decreases t@.len() - i,
    {
        assert(tv[i as int] == t@[i as int]@);
        match &t[i] {
            XmlToken::Error(m) => {
                return Err(Error::with_text(ErrorKind::Xml, m.as_str()));
            },
            XmlToken::EndDocument => {
                return Ok((x, i));
            },
            XmlToken::End(n) => {
                if text_is(n.as_str(), "SegmentTemplate") {
                    return Ok((x, i + 1));
                }
                i = i + 1;
            },
            XmlToken::Start(n, _, ca) => {
                if text_is(n.as_str(), "SegmentTimeline") {
                    proof {
                        lemma_timeline_scan_pos(tv, i + 1, seq![]);
                    }
                    let (es, j) = parse_segment_timeline(t, i + 1);
                    x.segment_timeline = Some(es);
                    i = j;
                } else if text_is(n.as_str(), "BitstreamSwitching") {
                    proof {
                        lemma_skip_scan_pos(tv, i + 1, 1);
                    }
                    match skip_dom_element(t, i + 1) {
                        Ok(j) => {
                            x.bitstream_switching_source_url = get_attr(ca, "sourceURL");
                            x.bitstream_switching_range = get_attr(ca, "range");
                            i = j;
                        },
                        Err(e) => {
                            return Err(e);
                        },
                    }
                } else {
                    proof {
                        lemma_skip_scan_pos(tv, i + 1, 1);
                    }
                    match skip_dom_element(t, i + 1) {
                        Ok(j) => {
                            i = j;
                        },
                        Err(e) => {
                            return Err(e);
                        },
                    }
                }
            },
            _ => {
                i = i + 1;
            },
        }
    }
    Ok((x, i))
}

/// Reads the attributes of a `SubRepresentation` element.
fn start_sub_representation(a: &Vec<XmlAttr>) -> (r: Result<SubRepresentation, Error>)
    ensures
        r matches Err(e) ==> reader_message_ok(e),
        result_is(r, sub_representation_start(attrs_v(a@))),
{
    reveal(sub_representation_start);
    let maximum_sap_period = match attr_duration(a, "maximumSAPPeriod") {
        Ok(v) => v,
        Err(e) => {
            return Err(e);
        },
    };
    let x = SubRepresentation {
        level: attr_u32(a, "level"),
        bandwidth: attr_u64(a, "bandwidth"),
        content_component: get_attr(a, "contentComponent"),
        codecs: get_attr(a, "codecs"),
        dependency_level: get_attr(a, "dependencyLevel"),
        width: attr_u32(a, "width"),
        height: attr_u32(a, "height"),
        mime_type: get_attr(a, "mimeType"),
        frame_rate: get_attr(a, "frameRate"),
        audio_sampling_rate: attr_u32(a, "audioSamplingRate"),
        sar: get_attr(a, "sar"),
        scan_type: get_attr(a, "scanType"),
        profiles: get_attr(a, "profiles"),
        start_with_sap: attr_u32(a, "startWithSAP"),
        max_playout_rate: get_attr(a, "maxPlayoutRate"),
        coding_dependency: attr_bool(a, "codingDependency"),
        maximum_sap_period: maximum_sap_period,
        segment_profiles: get_attr(a, "segmentProfiles"),
        content_protections: Vec::new(),
        audio_channel_configurations: Vec::new(),
        frame_packings: Vec::new(),
        inband_event_streams: Vec::new(),
        essential_properties: Vec::new(),
        supplemental_properties: Vec::new(),
        segment_sequence_properties: Vec::new(),
    };
    assert(views(x.content_protections@) =~= seq![]);
    assert(views(x.audio_channel_configurations@) =~= seq![]);
    assert(views(x.frame_packings@) =~= seq![]);
    assert(views(x.inband_event_streams@) =~= seq![]);
    assert(views(x.essential_properties@) =~= seq![]);
    assert(views(x.supplemental_properties@) =~= seq![]);
    assert(views(x.segment_sequence_properties@) =~= seq![]);
    Ok(x)
}

/// Reads the `SubRepresentation` element whose start tag, with the attributes `a`, was
/// `t[start - 1]`; returns it with where the reading goes on.
fn parse_sub_representation(t: &Vec<XmlToken>, start: usize, a: &Vec<XmlAttr>) -> (r: Result<(SubRepresentation, usize), Error>)
    requires
        start <= t@.len(),
    ensures
        r matches Err(e) ==> reader_message_ok(e),
        parsed_is(r, sub_representation_at(tokens_view(t@), start as int, attrs_v(a@))),
{
    reveal(sub_representation_at);
    let ghost tv = tokens_view(t@);
    let ghost av = attrs_v(a@);
    let mut x = match start_sub_representation(a) {
        Ok(x) => x,
        Err(e) => {
            return Err(e);
        },
    };
    let mut i = start;
    while i < t.len()
        invariant
            start <= i <= t@.len(),
            tv == tokens_view(t@),
            av == attrs_v(a@),
            sub_representation_scan(tv, i as int, x@) == sub_representation_at(tv, start as int, av),
        decreases t@.len() - i,
    {
        assert(tv[i as int] == t@[i as int]@);
        match &t[i] {
            XmlToken::Error(m) => {
                return Err(Error::with_text(ErrorKind::Xml, m.as_str()));
            },
            XmlToken::EndDocument => {
                return Ok((x, i));
            },
            XmlToken::End(n) => {
                if text_is(n.as_str(), "SubRepresentation") {
                    return Ok((x, i + 1));
                }
                i = i + 1;
            },
            XmlToken::Start(n, _, ca) => {
                if text_is(n.as_str(), "ContentProtection") {
                    proof {
                        lemma_content_protection_at_pos(tv, i + 1, attrs_v(ca@));
                    }
                    match parse_content_protection(t, i + 1, ca) {
                        Ok((v, j)) => {
                            let ghost prev = x.content_protections@;
                                let ghost vv = v;
                                x.content_protections.push(v);
                                proof {
                                    lemma_views_push(prev, vv);
                                }
                            i = j;
                        },
                        Err(e) => {
                            return Err(e);
                        },
                    }
                } else if text_is(n.as_str(), "AudioChannelConfiguration") {
                    proof {
                        lemma_skip_scan_pos(tv, i + 1, 1);
                    }
                    match start_descriptor(ca) {
                        Ok(v) => match skip_dom_element(t, i + 1) {
                            Ok(j) => {
                                let ghost prev = x.audio_channel_configurations@;
                                let ghost vv = v;
                                x.audio_channel_configurations.push(v);
                                proof {
                                    lemma_views_push(prev, vv);
                                }
                                i = j;
                            },
                            Err(e) => {
                                return Err(e);
                            },
                        },
                        Err(e) => {
                            return Err(e);
                        },
                    }
                } else if text_is(n.as_str(), "FramePacking") {
                    proof {
                        lemma_skip_scan_pos(tv, i + 1, 1);
                    }
                    match start_descriptor(ca) {
                        Ok(v) => match skip_dom_element(t, i + 1) {
                            Ok(j) => {
                                let ghost prev = x.frame_packings@;
                                let ghost vv = v;
                                x.frame_packings.push(v);
                                proof {
                                    lemma_views_push(prev, vv);
                                }
                                i = j;
                            },
                            Err(e) => {
                                return Err(e);
                            },
                        },
                        Err(e) => {
                            return Err(e);
                        },
                    }
                } else if text_is(n.as_str(), "InbandEventStream") {
                    proof {
                        lemma_skip_scan_pos(tv, i + 1, 1);
                    }
                    match start_descriptor(ca) {
                        Ok(v) => match skip_dom_element(t, i + 1) {
                            Ok(j) => {
                                let ghost prev = x.inband_event_streams@;
                                let ghost vv = v;
                                x.inband_event_streams.push(v);
                                proof {
                                    lemma_views_push(prev, vv);
                                }
                                i = j;
                            },
                            Err(e) => {
                                return Err(e);
                            },
                        },
                        Err(e) => {
                            return Err(e);
                        },
                    }
                } else if text_is(n.as_str(), "EssentialProperty") {
                    proof {
                        lemma_skip_scan_pos(tv, i + 1, 1);
                    }
                    match start_descriptor(ca) {
                        Ok(v) => match skip_dom_element(t, i + 1) {
                            Ok(j) => {
                                let ghost prev = x.essential_properties@;
                                let ghost vv = v;
                                x.essential_properties.push(v);
                                proof {
                                    lemma_views_push(prev, vv);
                                }
                                i = j;
                            },
                            Err(e) => {
                                return Err(e);
                            },
                        },
                        Err(e) => {
                            return Err(e);
                        },
                    }
                } else if text_is(n.as_str(), "SupplementalProperty") {
                    proof {
                        lemma_skip_scan_pos(tv, i + 1, 1);
                    }
                    match start_descriptor(ca) {
                        Ok(v) => match skip_dom_element(t, i + 1) {
                            Ok(j) => {
                                let ghost prev = x.supplemental_properties@;
                                let ghost vv = v;
                                x.supplemental_properties.push(v);
                                proof {
                                    lemma_views_push(prev, vv);
                                }
                                i = j;
                            },
                            Err(e) => {
                                return Err(e);
                            },
                        },
                        Err(e) => {
                            return Err(e);
                        },
                    }
                } else if text_is(n.as_str(), "SegmentSequenceProperties") {
                    proof {
                        lemma_skip_scan_pos(tv, i + 1, 1);
                    }
                    match start_segment_sequence_properties(ca) {
                        Ok(v) => match skip_dom_element(t, i + 1) {
                            Ok(j) => {
                                let ghost prev = x.segment_sequence_properties@;
                                let ghost vv = v;
                                x.segment_sequence_properties.push(v);
                                proof {
                                    lemma_views_push(prev, vv);
                                }
                                i = j;
                            },
                            Err(e) => {
                                return Err(e);
                            },
                        },
                        Err(e) => {
                            return Err(e);
                        },
                    }
                } else {
                    proof {
                        lemma_skip_scan_pos(tv, i + 1, 1);
                    }
                    match skip_dom_element(t, i + 1) {
                        Ok(j) => {
                            i = j;
                        },
                        Err(e) => {
                            return Err(e);
                        },
                    }
                }
            },
            _ => {
                i = i + 1;
            },
        }
    }
    Ok((x, i))
}

/// Reads the attributes of a `Representation` element.
fn start_representation(a: &Vec<XmlAttr>) -> (r: Result<Representation, Error>)
    ensures
        r matches Err(e) ==> reader_message_ok(e),
        result_is(r, representation_start(attrs_v(a@))),
{
    reveal(representation_start);
    let id = match get_attr(a, "id") {
        Some(v) => v,
        None => {
            return Err(Error::with_text(ErrorKind::MissingAttribute { element: "Representation", attribute: "id" }, "attribute 'id' is required on <Representation>"));
        },
    };
    let bandwidth_text = match get_attr(a, "bandwidth") {
        Some(v) => v,
        None => {
            return Err(Error::with_text(ErrorKind::MissingAttribute { element: "Representation", attribute: "bandwidth" }, "attribute 'bandwidth' is required on <Representation>"));
        },
    };
    let bandwidth = match parse_u64(bandwidth_text.as_str()) {
        Some(n) => n,
        None => {
            return Err(Error::with_text(ErrorKind::InvalidAttributeValue { attribute: "bandwidth" }, "bandwidth must be a positive integer"));
        },
    };
    let maximum_sap_period = match attr_duration(a, "maximumSAPPeriod") {
        Ok(v) => v,
        Err(e) => {
            return Err(e);
        },
    };
    let x = Representation {
        id: id,
        bandwidth: bandwidth,
        width: attr_u32(a, "width"),
        height: attr_u32(a, "height"),
        codecs: get_attr(a, "codecs"),
        frame_rate: get_attr(a, "frameRate"),
        audio_sampling_rate: attr_u32(a, "audioSamplingRate"),
        mime_type: get_attr(a, "mimeType"),
        sar: get_attr(a, "sar"),
        quality_ranking: attr_u32(a, "qualityRanking"),
        dependency_id: get_attr(a, "dependencyId"),
        max_playout_rate: get_attr(a, "maxPlayoutRate"),
        scan_type: get_attr(a, "scanType"),
        start_with_sap: attr_u32(a, "startWithSAP"),
        profiles: get_attr(a, "profiles"),
        coding_dependency: attr_bool(a, "codingDependency"),
        supplemental_codecs: get_attr(a, "supplementalCodecs"),
        codec_private_data: get_attr(a, "codecPrivateData"),
        media_stream_structure_id: get_attr(a, "mediaStreamStructureId"),
        maximum_sap_period: maximum_sap_period,
        segment_profiles: get_attr(a, "segmentProfiles"),
        base_urls: Vec::new(),
        audio_channel_configurations: Vec::new(),
        essential_properties: Vec::new(),
        supplemental_properties: Vec::new(),
        frame_packings: Vec::new(),
        inband_event_streams: Vec::new(),
        producer_reference_times: Vec::new(),
        segment_sequence_properties: Vec::new(),
        sub_representations: Vec::new(),
        segment_base: None,
        segment_list: None,
        segment_template: None,
        content_protections: Vec::new(),
    };
    assert(views(x.base_urls@) =~= seq![]);
    assert(views(x.audio_channel_configurations@) =~= seq![]);
    assert(views(x.essential_properties@) =~= seq![]);
    assert(views(x.supplemental_properties@) =~= seq![]);
    assert(views(x.frame_packings@) =~= seq![]);
    assert(views(x.inband_event_streams@) =~= seq![]);
    assert(views(x.producer_reference_times@) =~= seq![]);
    assert(views(x.segment_sequence_properties@) =~= seq![]);
    assert(views(x.sub_representations@) =~= seq![]);
    assert(views(x.content_protections@) =~= seq![]);
    Ok(x)
}

/// Reads the `Representation` element whose start tag, with the attributes `a`, was
/// `t[start - 1]`; returns it with where the reading goes on.
fn parse_representation(t: &Vec<XmlToken>, start: usize, a: &Vec<XmlAttr>) -> (r: Result<(Representation, usize), Error>)
    requires
        start <= t@.len(),
    ensures
        r matches Err(e) ==> reader_message_ok(e),
        parsed_is(r, representation_at(tokens_view(t@), start as int, attrs_v(a@))),
{
    reveal(representation_at);
    let ghost tv = tokens_view(t@);
    let ghost av = attrs_v(a@);
    let mut x = match start_representation(a) {
        Ok(x) => x,
        Err(e) => {
            return Err(e);
        },
    };
    let mut i = start;
    while i < t.len()
        invariant
            start <= i <= t@.len(),
            tv == tokens_view(t@),
            av == attrs_v(a@),
            representation_scan(tv, i as int, x@) == representation_at(tv, start as int, av),
        decreases t@.len() - i,
    {
        assert(tv[i as int] == t@[i as int]@);
        match &t[i] {
            XmlToken::Error(m) => {
                return Err(Error::with_text(ErrorKind::Xml, m.as_str()));
            },
            XmlToken::EndDocument => {
                return Ok((x, i));
            },
            XmlToken::End(n) => {
                if text_is(n.as_str(), "Representation") {
                    return Ok((x, i + 1));
                }
                i = i + 1;
            },
            XmlToken::Start(n, _, ca) => {
                if text_is(n.as_str(), "BaseURL") {
                    proof {
                        lemma_base_url_at_pos(tv, i + 1, attrs_v(ca@));
                    }
                    match parse_base_url(t, i + 1, ca) {
                        Ok((v, j)) => {
                            let ghost prev = x.base_urls@;
                                let ghost vv = v;
                                x.base_urls.push(v);
                                proof {
                                    lemma_views_push(prev, vv);
                                }
                            i = j;
                        },
                        Err(e) => {
                            return Err(e);
                        },
                    }
                } else if text_is(n.as_str(), "AudioChannelConfiguration") {
                    proof {
                        lemma_skip_scan_pos(tv, i + 1, 1);
                    }
                    match start_descriptor(ca) {
                        Ok(v) => match skip_dom_element(t, i + 1) {
                            Ok(j) => {
                                let ghost prev = x.audio_channel_configurations@;
                                let ghost vv = v;
                                x.audio_channel_configurations.push(v);
                                proof {
                                    lemma_views_push(prev, vv);
                                }
                                i = j;
                            },
                            Err(e) => {
                                return Err(e);
                            },
                        },
                        Err(e) => {
                            return Err(e);
                        },
                    }
                } else if text_is(n.as_str(), "EssentialProperty") {
                    proof {
                        lemma_skip_scan_pos(tv, i + 1, 1);
                    }
                    match start_descriptor(ca) {
                        Ok(v) => match skip_dom_element(t, i + 1) {
                            Ok(j) => {
                                let ghost prev = x.essential_properties@;
                                let ghost vv = v;
                                x.essential_properties.push(v);
                                proof {
                                    lemma_views_push(prev, vv);
                                }
                                i = j;
                            },
                            Err(e) => {
                                return Err(e);
                            },
                        },
                        Err(e) => {
                            return Err(e);
                        },
                    }
                } else if text_is(n.as_str(), "SupplementalProperty") {
                    proof {
                        lemma_skip_scan_pos(tv, i + 1, 1);
                    }
                    match start_descriptor(ca) {
                        Ok(v) => match skip_dom_element(t, i + 1) {
                            Ok(j) => {
                                let ghost prev = x.supplemental_properties@;
                                let ghost vv = v;
                                x.supplemental_properties.push(v);
                                proof {
                                    lemma_views_push(prev, vv);
                                }
                                i = j;
                            },
                            Err(e) => {
                                return Err(e);
                            },
                        },
                        Err(e) => {
                            return Err(e);
                        },
                    }
                } else if text_is(n.as_str(), "FramePacking") {
                    proof {
                        lemma_skip_scan_pos(tv, i + 1, 1);
                    }
                    match start_descriptor(ca) {
                        Ok(v) => match skip_dom_element(t, i + 1) {
                            Ok(j) => {
                                let ghost prev = x.frame_packings@;
                                let ghost vv = v;
                                x.frame_packings.push(v);
                                proof {
                                    lemma_views_push(prev, vv);
                                }
                                i = j;
                            },
                            Err(e) => {
                                return Err(e);
                            },
                        },
                        Err(e) => {
                            return Err(e);
                        },
                    }
                } else if text_is(n.as_str(), "InbandEventStream") {
                    proof {
                        lemma_skip_scan_pos(tv, i + 1, 1);
                    }
                    match start_descriptor(ca) {
                        Ok(v) => match skip_dom_element(t, i + 1) {
                            Ok(j) => {
                                let ghost prev = x.inband_event_streams@;
                                let ghost vv = v;
                                x.inband_event_streams.push(v);
                                proof {
                                    lemma_views_push(prev, vv);
                                }
                                i = j;
                            },
                            Err(e) => {
                                return Err(e);
                            },
                        },
                        Err(e) => {
                            return Err(e);
                        },
                    }
                } else if text_is(n.as_str(), "ProducerReferenceTime") {
                    proof {
                        lemma_producer_reference_time_at_pos(tv, i + 1, attrs_v(ca@));
                    }
                    match parse_producer_reference_time(t, i + 1, ca) {
                        Ok((v, j)) => {
                            let ghost prev = x.producer_reference_times@;
                                let ghost vv = v;
                                x.producer_reference_times.push(v);
                                proof {
                                    lemma_views_push(prev, vv);
                                }
                            i = j;
                        },
                        Err(e) => {
                            return Err(e);
                        },
                    }
                } else if text_is(n.as_str(), "SegmentSequenceProperties") {
                    proof {
                        lemma_skip_scan_pos(tv, i + 1, 1);
                    }
                    match start_segment_sequence_properties(ca) {
                        Ok(v) => match skip_dom_element(t, i + 1) {
                            Ok(j) => {
                                let ghost prev = x.segment_sequence_properties@;
                                let ghost vv = v;
                                x.segment_sequence_properties.push(v);
                                proof {
                                    lemma_views_push(prev, vv);
                                }
                                i = j;
                            },
                            Err(e) => {
                                return Err(e);
                            },
                        },
                        Err(e) => {
                            return Err(e);
                        },
                    }
                } else if text_is(n.as_str(), "SubRepresentation") {
                    proof {
                        lemma_sub_representation_at_pos(tv, i + 1, attrs_v(ca@));
                    }
                    match parse_sub_representation(t, i + 1, ca) {
                        Ok((v, j)) => {
                            let ghost prev = x.sub_representations@;
                                let ghost vv = v;
                                x.sub_representations.push(v);
                                proof {
                                    lemma_views_push(prev, vv);
                                }
                            i = j;
                        },
                        Err(e) => {
                            return Err(e);
                        },
                    }
                } else if text_is(n.as_str(), "SegmentBase") {
                    proof {
                        lemma_segment_base_at_pos(tv, i + 1, attrs_v(ca@));
                    }
                    match parse_segment_base(t, i + 1, ca) {
                        Ok((v, j)) => {
                            x.segment_base = Some(v);
                            i = j;
                        },
                        Err(e) => {
                            return Err(e);
                        },
                    }
                } else if text_is(n.as_str(), "SegmentList") {
                    proof {
                        lemma_segment_list_at_pos(tv, i + 1, attrs_v(ca@));
                    }
                    match parse_segment_list(t, i + 1, ca) {
                        Ok((v, j)) => {
                            x.segment_list = Some(v);
                            i = j;
                        },
                        Err(e) => {
                            return Err(e);
                        },
                    }
                } else if text_is(n.as_str(), "SegmentTemplate") {
                    proof {
                        lemma_segment_template_at_pos(tv, i + 1, attrs_v(ca@));
                    }
                    match parse_segment_template(t, i + 1, ca) {
                        Ok((v, j)) => {
                            x.segment_template = Some(v);
                            i = j;
                        },
                        Err(e) => {
                            return Err(e);
                        },
                    }
                } else if text_is(n.as_str(), "ContentProtection") {
                    proof {
                        lemma_content_protection_at_pos(tv, i + 1, attrs_v(ca@));
                    }
                    match parse_content_protection(t, i + 1, ca) {
                        Ok((v, j)) => {
                            let ghost prev = x.content_protections@;
                                let ghost vv = v;
                                x.content_protections.push(v);
                                proof {
                                    lemma_views_push(prev, vv);
                                }
                            i = j;
                        },
                        Err(e) => {
                            return Err(e);
                        },
                    }
                } else {
                    proof {
                        lemma_skip_scan_pos(tv, i + 1, 1);
                    }
                    match skip_dom_element(t, i + 1) {
                        Ok(j) => {
                            i = j;
                        },
                        Err(e) => {
                            return Err(e);
                        },
                    }
                }
            },
            _ => {
                i = i + 1;
            },
        }
    }
    Ok((x, i))
}

/// Reads the attributes of a `AdaptationSet` element.
fn start_adaptation_set(a: &Vec<XmlAttr>) -> (r: Result<AdaptationSet, Error>)
    ensures
        r matches Err(e) ==> reader_message_ok(e),
        result_is(r, adaptation_set_start(attrs_v(a@))),
{
    reveal(adaptation_set_start);
    let maximum_sap_period = match attr_duration(a, "maximumSAPPeriod") {
        Ok(v) => v,
        Err(e) => {
            return Err(e);
        },
    };
    let x = AdaptationSet {
        id: attr_u32(a, "id"),
        mime_type: get_attr(a, "mimeType"),
        codecs: get_attr(a, "codecs"),
        content_type: attr_content_type(a, "contentType"),
        lang: get_attr(a, "lang"),
        width: attr_u32(a, "width"),
        height: attr_u32(a, "height"),
        frame_rate: get_attr(a, "frameRate"),
        min_width: attr_u32(a, "minWidth"),
        min_height: attr_u32(a, "minHeight"),
        min_frame_rate: get_attr(a, "minFrameRate"),
        min_bandwidth: attr_u64(a, "minBandwidth"),
        max_bandwidth: attr_u64(a, "maxBandwidth"),
        max_width: attr_u32(a, "maxWidth"),
        max_height: attr_u32(a, "maxHeight"),
        max_frame_rate: get_attr(a, "maxFrameRate"),
        par: get_attr(a, "par"),
        audio_sampling_rate: attr_u32(a, "audioSamplingRate"),
        sar: get_attr(a, "sar"),
        profiles: get_attr(a, "profiles"),
        scan_type: get_attr(a, "scanType"),
        start_with_sap: attr_u32(a, "startWithSAP"),
        max_playout_rate: get_attr(a, "maxPlayoutRate"),
        selection_priority: attr_u32(a, "selectionPriority"),
        coding_dependency: attr_bool(a, "codingDependency"),
        supplemental_codecs: get_attr(a, "supplementalCodecs"),
        maximum_sap_period: maximum_sap_period,
        segment_profiles: get_attr(a, "segmentProfiles"),
        segment_alignment: attr_bool_or_false(a, "segmentAlignment"),
        subsegment_alignment: attr_bool_or_false(a, "subsegmentAlignment"),
        bitstream_switching: attr_bool(a, "bitstreamSwitching"),
        base_urls: Vec::new(),
        roles: Vec::new(),
        accessibilities: Vec::new(),
        audio_channel_configurations: Vec::new(),
        labels: Vec::new(),
        group_labels: Vec::new(),
        essential_properties: Vec::new(),
        supplemental_properties: Vec::new(),
        viewpoints: Vec::new(),
        frame_packings: Vec::new(),
        inband_event_streams: Vec::new(),
        producer_reference_times: Vec::new(),
        content_components: Vec::new(),
        segment_sequence_properties: Vec::new(),
        segment_base: None,
        segment_list: None,
        segment_template: None,
        event_streams: Vec::new(),
        content_protections: Vec::new(),
        representations: Vec::new(),
    };
    assert(views(x.base_urls@) =~= seq![]);
    assert(views(x.roles@) =~= seq![]);
    assert(views(x.accessibilities@) =~= seq![]);
    assert(views(x.audio_channel_configurations@) =~= seq![]);
    assert(views(x.labels@) =~= seq![]);
    assert(views(x.group_labels@) =~= seq![]);
    assert(views(x.essential_properties@) =~= seq![]);
    assert(views(x.supplemental_properties@) =~= seq![]);
    assert(views(x.viewpoints@) =~= seq![]);
    assert(views(x.frame_packings@) =~= seq![]);
    assert(views(x.inband_event_streams@) =~= seq![]);
    assert(views(x.producer_reference_times@) =~= seq![]);
    assert(views(x.content_components@) =~= seq![]);
    assert(views(x.segment_sequence_properties@) =~= seq![]);
    assert(views(x.event_streams@) =~= seq![]);
    assert(views(x.content_protections@) =~= seq![]);
    assert(views(x.representations@) =~= seq![]);
    Ok(x)
}

/// Reads the `AdaptationSet` element whose start tag, with the attributes `a`, was
/// `t[start - 1]`; returns it with where the reading goes on.
fn parse_adaptation_set(t: &Vec<XmlToken>, start: usize, a: &Vec<XmlAttr>) -> (r: Result<(AdaptationSet, usize), Error>)
    requires
        start <= t@.len(),
    ensures
        r matches Err(e) ==> reader_message_ok(e),
        parsed_is(r, adaptation_set_at(tokens_view(t@), start as int, attrs_v(a@))),
{
    reveal(adaptation_set_at);
    let ghost tv = tokens_view(t@);
    let ghost av = attrs_v(a@);
    let mut x = match start_adaptation_set(a) {
        Ok(x) => x,
        Err(e) => {
            return Err(e);
        },
    };
    let mut i = start;
    while i < t.len()
        invariant
            start <= i <= t@.len(),
            tv == tokens_view(t@),
            av == attrs_v(a@),
            adaptation_set_scan(tv, i as int, x@) == adaptation_set_at(tv, start as int, av),
        decreases t@.len() - i,
    {
        assert(tv[i as int] == t@[i as int]@);
        match &t[i] {
            XmlToken::Error(m) => {
                return Err(Error::with_text(ErrorKind::Xml, m.as_str()));
            },
            XmlToken::EndDocument => {
                return Ok((x, i));
            },
            XmlToken::End(n) => {
                if text_is(n.as_str(), "AdaptationSet") {
                    return Ok((x, i + 1));
                }
                i = i + 1;
            },
            XmlToken::Start(n, _, ca) => {
                if text_is(n.as_str(), "BaseURL") {
                    proof {
                        lemma_base_url_at_pos(tv, i + 1, attrs_v(ca@));
                    }
                    match parse_base_url(t, i + 1, ca) {
                        Ok((v, j)) => {
                            let ghost prev = x.base_urls@;
                                let ghost vv = v;
                                x.base_urls.push(v);
                                proof {
                                    lemma_views_push(prev, vv);
                                }
                            i = j;
                        },
                        Err(e) => {
                            return Err(e);
                        },
                    }
                } else if text_is(n.as_str(), "EventStream") {
                    proof {
                        lemma_event_stream_at_pos(tv, i + 1, attrs_v(ca@));
                    }
                    match parse_event_stream(t, i + 1, ca) {
                        Ok((v, j)) => {
                            let ghost prev = x.event_streams@;
                                let ghost vv = v;
                                x.event_streams.push(v);
                                proof {
                                    lemma_views_push(prev, vv);
                                }
                            i = j;
                        },
                        Err(e) => {
                            return Err(e);
                        },
                    }
                } else if text_is(n.as_str(), "Role") {
                    proof {
                        lemma_skip_scan_pos(tv, i + 1, 1);
                    }
                    match start_descriptor(ca) {
                        Ok(v) => match skip_dom_element(t, i + 1) {
                            Ok(j) => {
                                let ghost prev = x.roles@;
                                let ghost vv = v;
                                x.roles.push(v);
                                proof {
                                    lemma_views_push(prev, vv);
                                }
                                i = j;
                            },
                            Err(e) => {
                                return Err(e);
                            },
                        },
                        Err(e) => {
                            return Err(e);
                        },
                    }
                } else if text_is(n.as_str(), "Accessibility") {
                    proof {
                        lemma_skip_scan_pos(tv, i + 1, 1);
                    }
                    match start_descriptor(ca) {
                        Ok(v) => match skip_dom_element(t, i + 1) {
                            Ok(j) => {
                                let ghost prev = x.accessibilities@;
                                let ghost vv = v;
                                x.accessibilities.push(v);
                                proof {
                                    lemma_views_push(prev, vv);
                                }
                                i = j;
                            },
                            Err(e) => {
                                return Err(e);
                            },
                        },
                        Err(e) => {
                            return Err(e);
                        },
                    }
                } else if text_is(n.as_str(), "AudioChannelConfiguration") {
                    proof {
                        lemma_skip_scan_pos(tv, i + 1, 1);
                    }
                    match start_descriptor(ca) {
                        Ok(v) => match skip_dom_element(t, i + 1) {
                            Ok(j) => {
                                let ghost prev = x.audio_channel_configurations@;
                                let ghost vv = v;
                                x.audio_channel_configurations.push(v);
                                proof {
                                    lemma_views_push(prev, vv);
                                }
                                i = j;
                            },
                            Err(e) => {
                                return Err(e);
                            },
                        },
                        Err(e) => {
                            return Err(e);
                        },
                    }
                } else if text_is(n.as_str(), "Label") {
                    proof {
                        lemma_text_scan_pos(tv, i + 1, n@, seq![]);
                    }
                    let (txt, j) = read_text_content(t, i + 1, n.as_str());
                    match txt {
                        Some(s) => {
                            let v = Label { lang: get_attr(ca, "lang"), text: s };
                            let ghost prev = x.labels@;
                                let ghost vv = v;
                                x.labels.push(v);
                                proof {
                                    lemma_views_push(prev, vv);
                                }
                        },
                        None => {},
                    }
                    i = j;
                } else if text_is(n.as_str(), "GroupLabel") {
                    proof {
                        lemma_text_scan_pos(tv, i + 1, n@, seq![]);
                    }
                    let (txt, j) = read_text_content(t, i + 1, n.as_str());
                    match txt {
                        Some(s) => {
                            let v = Label { lang: get_attr(ca, "lang"), text: s };
                            let ghost prev = x.group_labels@;
                                let ghost vv = v;
                                x.group_labels.push(v);
                                proof {
                                    lemma_views_push(prev, vv);
                                }
                        },
                        None => {},
                    }
                    i = j;
                } else if text_is(n.as_str(), "EssentialProperty") {
                    proof {
                        lemma_skip_scan_pos(tv, i + 1, 1);
                    }
                    match start_descriptor(ca) {
                        Ok(v) => match skip_dom_element(t, i + 1) {
                            Ok(j) => {
                                let ghost prev = x.essential_properties@;
                                let ghost vv = v;
                                x.essential_properties.push(v);
                                proof {
                                    lemma_views_push(prev, vv);
                                }
                                i = j;
                            },
                            Err(e) => {
                                return Err(e);
                            },
                        },
                        Err(e) => {
                            return Err(e);
                        },
                    }
                } else if text_is(n.as_str(), "SupplementalProperty") {
                    proof {
                        lemma_skip_scan_pos(tv, i + 1, 1);
                    }
                    match start_descriptor(ca) {
                        Ok(v) => match skip_dom_element(t, i + 1) {
                            Ok(j) => {
                                let ghost prev = x.supplemental_properties@;
                                let ghost vv = v;
                                x.supplemental_properties.push(v);
                                proof {
                                    lemma_views_push(prev, vv);
                                }
                                i = j;
                            },
                            Err(e) => {
                                return Err(e);
                            },
                        },
                        Err(e) => {
                            return Err(e);
                        },
                    }
                } else if text_is(n.as_str(), "Viewpoint") {
                    proof {
                        lemma_skip_scan_pos(tv, i + 1, 1);
                    }
                    match start_descriptor(ca) {
                        Ok(v) => match skip_dom_element(t, i + 1) {
                            Ok(j) => {
                                let ghost prev = x.viewpoints@;
                                let ghost vv = v;
                                x.viewpoints.push(v);
                                proof {
                                    lemma_views_push(prev, vv);
                                }
                                i = j;
                            },
                            Err(e) => {
                                return Err(e);
                            },
                        },
                        Err(e) => {
                            return Err(e);
                        },
                    }
                } else if text_is(n.as_str(), "FramePacking") {
                    proof {
                        lemma_skip_scan_pos(tv, i + 1, 1);
                    }
                    match start_descriptor(ca) {
                        Ok(v) => match skip_dom_element(t, i + 1) {
                            Ok(j) => {
                                let ghost prev = x.frame_packings@;
                                let ghost vv = v;
                                x.frame_packings.push(v);
                                proof {
                                    lemma_views_push(prev, vv);
                                }
                                i = j;
                            },
                            Err(e) => {
                                return Err(e);
                            },
                        },
                        Err(e) => {
                            return Err(e);
                        },
                    }
                } else if text_is(n.as_str(), "InbandEventStream") {
                    proof {
                        lemma_skip_scan_pos(tv, i + 1, 1);
                    }
                    match start_descriptor(ca) {
                        Ok(v) => match skip_dom_element(t, i + 1) {
                            Ok(j) => {
                                let ghost prev = x.inband_event_streams@;
                                let ghost vv = v;
                                x.inband_event_streams.push(v);
                                proof {
                                    lemma_views_push(prev, vv);
                                }
                                i = j;
                            },
                            Err(e) => {
                                return Err(e);
                            },
                        },
                        Err(e) => {
                            return Err(e);
                        },
                    }
                } else if text_is(n.as_str(), "ProducerReferenceTime") {
                    proof {
                        lemma_producer_reference_time_at_pos(tv, i + 1, attrs_v(ca@));
                    }
                    match parse_producer_reference_time(t, i + 1, ca) {
                        Ok((v, j)) => {
                            let ghost prev = x.producer_reference_times@;
                                let ghost vv = v;
                                x.producer_reference_times.push(v);
                                proof {
                                    lemma_views_push(prev, vv);
                                }
                            i = j;
                        },
                        Err(e) => {
                            return Err(e);
                        },
                    }
                } else if text_is(n.as_str(), "ContentComponent") {
                    proof {
                        lemma_content_component_at_pos(tv, i + 1, attrs_v(ca@));
                    }
                    match parse_content_component(t, i + 1, ca) {
                        Ok((v, j)) => {
                            let ghost prev = x.content_components@;
                                let ghost vv = v;
                                x.content_components.push(v);
                                proof {
                                    lemma_views_push(prev, vv);
                                }
                            i = j;
                        },
                        Err(e) => {
                            return Err(e);
                        },
                    }
                } else if text_is(n.as_str(), "SegmentSequenceProperties") {
                    proof {
                        lemma_skip_scan_pos(tv, i + 1, 1);
                    }
                    match start_segment_sequence_properties(ca) {
                        Ok(v) => match skip_dom_element(t, i + 1) {
                            Ok(j) => {
                                let ghost prev = x.segment_sequence_properties@;
                                let ghost vv = v;
                                x.segment_sequence_properties.push(v);
                                proof {
                                    lemma_views_push(prev, vv);
                                }
                                i = j;
                            },
                            Err(e) => {
                                return Err(e);
                            },
                        },
                        Err(e) => {
                            return Err(e);
                        },
                    }
                } else if text_is(n.as_str(), "SegmentBase") {
                    proof {
                        lemma_segment_base_at_pos(tv, i + 1, attrs_v(ca@));
                    }
                    match parse_segment_base(t, i + 1, ca) {
                        Ok((v, j)) => {
                            x.segment_base = Some(v);
                            i = j;
                        },
                        Err(e) => {
                            return Err(e);
                        },
                    }
                } else if text_is(n.as_str(), "SegmentList") {
                    proof {
                        lemma_segment_list_at_pos(tv, i + 1, attrs_v(ca@));
                    }
                    match parse_segment_list(t, i + 1, ca) {
                        Ok((v, j)) => {
                            x.segment_list = Some(v);
                            i = j;
                        },
                        Err(e) => {
                            return Err(e);
                        },
                    }
                } else if text_is(n.as_str(), "SegmentTemplate") {
                    proof {
                        lemma_segment_template_at_pos(tv, i + 1, attrs_v(ca@));
                    }
                    match parse_segment_template(t, i + 1, ca) {
                        Ok((v, j)) => {
                            x.segment_template = Some(v);
                            i = j;
                        },
                        Err(e) => {
                            return Err(e);
                        },
                    }
                } else if text_is(n.as_str(), "ContentProtection") {
                    proof {
                        lemma_content_protection_at_pos(tv, i + 1, attrs_v(ca@));
                    }
                    match parse_content_protection(t, i + 1, ca) {
                        Ok((v, j)) => {
                            let ghost prev = x.content_protections@;
                                let ghost vv = v;
                                x.content_protections.push(v);
                                proof {
                                    lemma_views_push(prev, vv);
                                }
                            i = j;
                        },
                        Err(e) => {
                            return Err(e);
                        },
                    }
                } else if text_is(n.as_str(), "Representation") {
                    proof {
                        lemma_representation_at_pos(tv, i + 1, attrs_v(ca@));
                    }
                    match parse_representation(t, i + 1, ca) {
                        Ok((v, j)) => {
                            let ghost prev = x.representations@;
                                let ghost vv = v;
                                x.representations.push(v);
                                proof {
                                    lemma_views_push(prev, vv);
                                }
                            i = j;
                        },
                        Err(e) => {
                            return Err(e);
                        },
                    }
                } else {
                    proof {
                        lemma_skip_scan_pos(tv, i + 1, 1);
                    }
                    match skip_dom_element(t, i + 1) {
                        Ok(j) => {
                            i = j;
                        },
                        Err(e) => {
                            return Err(e);
                        },
                    }
                }
            },
            _ => {
                i = i + 1;
            },
        }
    }
    Ok((x, i))
}

/// Reads the attributes of a `Period` element.
fn start_period(a: &Vec<XmlAttr>) -> (r: Result<Period, Error>)
    ensures
        r matches Err(e) ==> reader_message_ok(e),
        result_is(r, period_start(attrs_v(a@))),
{
    reveal(period_start);
    let start = match attr_duration(a, "start") {
        Ok(v) => v,
        Err(e) => {
            return Err(e);
        },
    };
    let duration = match attr_duration(a, "duration") {
        Ok(v) => v,
        Err(e) => {
            return Err(e);
        },
    };
    let x = Period {
        id: get_attr(a, "id"),
        start: start,
        duration: duration,
        xlink_href: get_xlink_attr(a, "href"),
        xlink_actuate: get_xlink_attr(a, "actuate"),
        base_urls: Vec::new(),
        supplemental_properties: Vec::new(),
        essential_properties: Vec::new(),
        asset_identifier: None,
        event_streams: Vec::new(),
        preselections: Vec::new(),
        segment_base: None,
        segment_list: None,
        segment_template: None,
        subsets: Vec::new(),
        adaptation_sets: Vec::new(),
    };
    assert(views(x.base_urls@) =~= seq![]);
    assert(views(x.supplemental_properties@) =~= seq![]);
    assert(views(x.essential_properties@) =~= seq![]);
    assert(views(x.event_streams@) =~= seq![]);
    assert(views(x.preselections@) =~= seq![]);
    assert(views(x.subsets@) =~= seq![]);
    assert(views(x.adaptation_sets@) =~= seq![]);
    Ok(x)
}

/// Reads the `Period` element whose start tag, with the attributes `a`, was
/// `t[start - 1]`; returns it with where the reading goes on.
fn parse_period(t: &Vec<XmlToken>, start: usize, a: &Vec<XmlAttr>) -> (r: Result<(Period, usize), Error>)
    requires
        start <= t@.len(),
    ensures
        r matches Err(e) ==> reader_message_ok(e),
        parsed_is(r, period_at(tokens_view(t@), start as int, attrs_v(a@))),
{
    reveal(period_at);
    let ghost tv = tokens_view(t@);
    let ghost av = attrs_v(a@);
    let mut x = match start_period(a) {
        Ok(x) => x,
        Err(e) => {
            return Err(e);
        },
    };
    let mut i = start;
    while i < t.len()
        invariant
            start <= i <= t@.len(),
            tv == tokens_view(t@),
            av == attrs_v(a@),
            period_scan(tv, i as int, x@) == period_at(tv, start as int, av),
        decreases t@.len() - i,
    {
        assert(tv[i as int] == t@[i as int]@);
        match &t[i] {
            XmlToken::Error(m) => {
                return Err(Error::with_text(ErrorKind::Xml, m.as_str()));
            },
            XmlToken::EndDocument => {
                return Ok((x, i));
            },
            XmlToken::End(n) => {
                if text_is(n.as_str(), "Period") {
                    return Ok((x, i + 1));
                }
                i = i + 1;
            },
            XmlToken::Start(n, _, ca) => {
                if text_is(n.as_str(), "BaseURL") {
                    proof {
                        lemma_base_url_at_pos(tv, i + 1, attrs_v(ca@));
                    }
                    match parse_base_url(t, i + 1, ca) {
                        Ok((v, j)) => {
                            let ghost prev = x.base_urls@;
                                let ghost vv = v;
                                x.base_urls.push(v);
                                proof {
                                    lemma_views_push(prev, vv);
                                }
                            i = j;
                        },
                        Err(e) => {
                            return Err(e);
                        },
                    }
                } else if text_is(n.as_str(), "SupplementalProperty") {
                    proof {
                        lemma_skip_scan_pos(tv, i + 1, 1);
                    }
                    match start_descriptor(ca) {
                        Ok(v) => match skip_dom_element(t, i + 1) {
                            Ok(j) => {
                                let ghost prev = x.supplemental_properties@;
                                let ghost vv = v;
                                x.supplemental_properties.push(v);
                                proof {
                                    lemma_views_push(prev, vv);
                                }
                                i = j;
                            },
                            Err(e) => {
                                return Err(e);
                            },
                        },
                        Err(e) => {
                            return Err(e);
                        },
                    }
                } else if text_is(n.as_str(), "EssentialProperty") {
                    proof {
                        lemma_skip_scan_pos(tv, i + 1, 1);
                    }
                    match start_descriptor(ca) {
                        Ok(v) => match skip_dom_element(t, i + 1) {
                            Ok(j) => {
                                let ghost prev = x.essential_properties@;
                                let ghost vv = v;
                                x.essential_properties.push(v);
                                proof {
                                    lemma_views_push(prev, vv);
                                }
                                i = j;
                            },
                            Err(e) => {
                                return Err(e);
                            },
                        },
                        Err(e) => {
                            return Err(e);
                        },
                    }
                } else if text_is(n.as_str(), "AssetIdentifier") {
                    proof {
                        lemma_skip_scan_pos(tv, i + 1, 1);
                    }
                    match start_descriptor(ca) {
                        Ok(v) => match skip_dom_element(t, i + 1) {
                            Ok(j) => {
                                x.asset_identifier = Some(v);
                                i = j;
                            },
                            Err(e) => {
                                return Err(e);
                            },
                        },
                        Err(e) => {
                            return Err(e);
                        },
                    }
                } else if text_is(n.as_str(), "EventStream") {
                    proof {
                        lemma_event_stream_at_pos(tv, i + 1, attrs_v(ca@));
                    }
                    match parse_event_stream(t, i + 1, ca) {
                        Ok((v, j)) => {
                            let ghost prev = x.event_streams@;
                                let ghost vv = v;
                                x.event_streams.push(v);
                                proof {
                                    lemma_views_push(prev, vv);
                                }
                            i = j;
                        },
                        Err(e) => {
                            return Err(e);
                        },
                    }
                } else if text_is(n.as_str(), "Preselection") {
                    proof {
                        lemma_preselection_at_pos(tv, i + 1, attrs_v(ca@));
                    }
                    match parse_preselection(t, i + 1, ca) {
                        Ok((v, j)) => {
                            let ghost prev = x.preselections@;
                                let ghost vv = v;
                                x.preselections.push(v);
                                proof {
                                    lemma_views_push(prev, vv);
                                }
                            i = j;
                        },
                        Err(e) => {
                            return Err(e);
                        },
                    }
                } else if text_is(n.as_str(), "SegmentBase") {
                    proof {
                        lemma_segment_base_at_pos(tv, i + 1, attrs_v(ca@));
                    }
                    match parse_segment_base(t, i + 1, ca) {
                        Ok((v, j)) => {
                            x.segment_base = Some(v);
                            i = j;
                        },
                        Err(e) => {
                            return Err(e);
                        },
                    }
                } else if text_is(n.as_str(), "SegmentList") {
                    proof {
                        lemma_segment_list_at_pos(tv, i + 1, attrs_v(ca@));
                    }
                    match parse_segment_list(t, i + 1, ca) {
                        Ok((v, j)) => {
                            x.segment_list = Some(v);
                            i = j;
                        },
                        Err(e) => {
                            return Err(e);
                        },
                    }
                } else if text_is(n.as_str(), "SegmentTemplate") {
                    proof {
                        lemma_segment_template_at_pos(tv, i + 1, attrs_v(ca@));
                    }
                    match parse_segment_template(t, i + 1, ca) {
                        Ok((v, j)) => {
                            x.segment_template = Some(v);
                            i = j;
                        },
                        Err(e) => {
                            return Err(e);
                        },
                    }
                } else if text_is(n.as_str(), "Subset") {
                    proof {
                        lemma_skip_scan_pos(tv, i + 1, 1);
                    }
                    match start_subset(ca) {
                        Ok(v) => match skip_dom_element(t, i + 1) {
                            Ok(j) => {
                                let ghost prev = x.subsets@;
                                let ghost vv = v;
                                x.subsets.push(v);
                                proof {
                                    lemma_views_push(prev, vv);
                                }
                                i = j;
                            },
                            Err(e) => {
                                return Err(e);
                            },
                        },
                        Err(e) => {
                            return Err(e);
                        },
                    }
                } else if text_is(n.as_str(), "AdaptationSet") {
                    proof {
                        lemma_adaptation_set_at_pos(tv, i + 1, attrs_v(ca@));
                    }
                    match parse_adaptation_set(t, i + 1, ca) {
                        Ok((v, j)) => {
                            let ghost prev = x.adaptation_sets@;
                                let ghost vv = v;
                                x.adaptation_sets.push(v);
                                proof {
                                    lemma_views_push(prev, vv);
                                }
                            i = j;
                        },
                        Err(e) => {
                            return Err(e);
                        },
                    }
                } else {
                    proof {
                        lemma_skip_scan_pos(tv, i + 1, 1);
                    }
                    match skip_dom_element(t, i + 1) {
                        Ok(j) => {
                            i = j;
                        },
                        Err(e) => {
                            return Err(e);
                        },
                    }
                }
            },
            _ => {
                i = i + 1;
            },
        }
    }
    Ok((x, i))
}

/// Reads the attributes of a `Metrics` element.
fn start_metrics(a: &Vec<XmlAttr>) -> (r: Result<Metrics, Error>)
    ensures
        r matches Err(e) ==> reader_message_ok(e),
        result_is(r, metrics_start(attrs_v(a@))),
{
    reveal(metrics_start);
    
    let x = Metrics {
        metrics: attr_or_empty(a, "metrics"),
        reportings: Vec::new(),
        ranges: Vec::new(),
    };
    assert(views(x.reportings@) =~= seq![]);
    assert(views(x.ranges@) =~= seq![]);
    Ok(x)
}

/// Reads the `Metrics` element whose start tag, with the attributes `a`, was
/// `t[start - 1]`; returns it with where the reading goes on.
fn parse_metrics(t: &Vec<XmlToken>, start: usize, a: &Vec<XmlAttr>) -> (r: Result<(Metrics, usize), Error>)
    requires
        start <= t@.len(),
    ensures
        r matches Err(e) ==> reader_message_ok(e),
        parsed_is(r, metrics_at(tokens_view(t@), start as int, attrs_v(a@))),
{
    reveal(metrics_at);
    let ghost tv = tokens_view(t@);
    let ghost av = attrs_v(a@);
    let mut x = match start_metrics(a) {
        Ok(x) => x,
        Err(e) => {
            return Err(e);
        },
    };
    let mut i = start;
    while i < t.len()
        invariant
            start <= i <= t@.len(),
            tv == tokens_view(t@),
            av == attrs_v(a@),
            metrics_scan(tv, i as int, x@) == metrics_at(tv, start as int, av),
        decreases t@.len() - i,
    {
        assert(tv[i as int] == t@[i as int]@);
        match &t[i] {
            XmlToken::Error(m) => {
                return Err(Error::with_text(ErrorKind::Xml, m.as_str()));
            },
            XmlToken::EndDocument => {
                return Ok((x, i));
            },
            XmlToken::End(n) => {
                if text_is(n.as_str(), "Metrics") {
                    return Ok((x, i + 1));
                }
                i = i + 1;
            },
            XmlToken::Start(n, _, ca) => {
                if text_is(n.as_str(), "Reporting") {
                    proof {
                        lemma_skip_scan_pos(tv, i + 1, 1);
                    }
                    match start_descriptor(ca) {
                        Ok(v) => match skip_dom_element(t, i + 1) {
                            Ok(j) => {
                                let ghost prev = x.reportings@;
                                let ghost vv = v;
                                x.reportings.push(v);
                                proof {
                                    lemma_views_push(prev, vv);
                                }
                                i = j;
                            },
                            Err(e) => {
                                return Err(e);
                            },
                        },
                        Err(e) => {
                            return Err(e);
                        },
                    }
                } else if text_is(n.as_str(), "Range") {
                    proof {
                        lemma_skip_scan_pos(tv, i + 1, 1);
                    }
                    match start_metrics_range(ca) {
                        Ok(v) => match skip_dom_element(t, i + 1) {
                            Ok(j) => {
                                let ghost prev = x.ranges@;
                                let ghost vv = v;
                                x.ranges.push(v);
                                proof {
                                    lemma_views_push(prev, vv);
                                }
                                i = j;
                            },
                            Err(e) => {
                                return Err(e);
                            },
                        },
                        Err(e) => {
                            return Err(e);
                        },
                    }
                } else {
                    proof {
                        lemma_skip_scan_pos(tv, i + 1, 1);
                    }
                    match skip_dom_element(t, i + 1) {
                        Ok(j) => {
                            i = j;
                        },
                        Err(e) => {
                            return Err(e);
                        },
                    }
                }
            },
            _ => {
                i = i + 1;
            },
        }
    }
    Ok((x, i))
}

/// Reads the attributes of a `MPD` element.
fn start_mpd(a: &Vec<XmlAttr>) -> (r: Result<Mpd, Error>)
    ensures
        r matches Err(e) ==> reader_message_ok(e),
        result_is(r, mpd_start(attrs_v(a@))),
{
    reveal(mpd_start);
    let media_presentation_duration = match attr_duration(a, "mediaPresentationDuration") {
        Ok(v) => v,
        Err(e) => {
            return Err(e);
        },
    };
    let min_buffer_time = match attr_duration(a, "minBufferTime") {
        Ok(Some(v)) => v,
        Ok(None) => String::from_str("PT0S"),
        Err(e) => {
            return Err(e);
        },
    };
    let minimum_update_period = match attr_duration(a, "minimumUpdatePeriod") {
        Ok(v) => v,
        Err(e) => {
            return Err(e);
        },
    };
    let time_shift_buffer_depth = match attr_duration(a, "timeShiftBufferDepth") {
        Ok(v) => v,
        Err(e) => {
            return Err(e);
        },
    };
    let suggested_presentation_delay = match attr_duration(a, "suggestedPresentationDelay") {
        Ok(v) => v,
        Err(e) => {
            return Err(e);
        },
    };
    let max_segment_duration = match attr_duration(a, "maxSegmentDuration") {
        Ok(v) => v,
        Err(e) => {
            return Err(e);
        },
    };
    let max_subsegment_duration = match attr_duration(a, "maxSubsegmentDuration") {
        Ok(v) => v,
        Err(e) => {
            return Err(e);
        },
    };
    let x = Mpd {
        id: get_attr(a, "id"),
        presentation_type: attr_presentation_type(a, "type"),
        media_presentation_duration: media_presentation_duration,
        min_buffer_time: min_buffer_time,
        minimum_update_period: minimum_update_period,
        availability_start_time: get_attr(a, "availabilityStartTime"),
        availability_end_time: get_attr(a, "availabilityEndTime"),
        time_shift_buffer_depth: time_shift_buffer_depth,
        suggested_presentation_delay: suggested_presentation_delay,
        publish_time: get_attr(a, "publishTime"),
        max_segment_duration: max_segment_duration,
        max_subsegment_duration: max_subsegment_duration,
        profiles: attr_or_empty(a, "profiles"),
        base_urls: Vec::new(),
        utc_timings: Vec::new(),
        locations: Vec::new(),
        service_descriptions: Vec::new(),
        content_steering: None,
        patch_locations: Vec::new(),
        essential_properties: Vec::new(),
        supplemental_properties: Vec::new(),
        metrics: Vec::new(),
        periods: Vec::new(),
    };
    assert(views(x.base_urls@) =~= seq![]);
    assert(views(x.utc_timings@) =~= seq![]);
    assert(views(x.locations@) =~= seq![]);
    assert(views(x.service_descriptions@) =~= seq![]);
    assert(views(x.patch_locations@) =~= seq![]);
    assert(views(x.essential_properties@) =~= seq![]);
    assert(views(x.supplemental_properties@) =~= seq![]);
    assert(views(x.metrics@) =~= seq![]);
    assert(views(x.periods@) =~= seq![]);
    Ok(x)
}

/// Reads the `MPD` element whose start tag, with the attributes `a`, was
/// `t[start - 1]`; returns it with where the reading goes on.
fn parse_mpd(t: &Vec<XmlToken>, start: usize, a: &Vec<XmlAttr>) -> (r: Result<(Mpd, usize), Error>)
    requires
        start <= t@.len(),
    ensures
        r matches Err(e) ==> reader_message_ok(e),
        parsed_is(r, mpd_at(tokens_view(t@), start as int, attrs_v(a@))),
{
    reveal(mpd_at);
    let ghost tv = tokens_view(t@);
    let ghost av = attrs_v(a@);
    let mut x = match start_mpd(a) {
        Ok(x) => x,
        Err(e) => {
            return Err(e);
        },
    };
    let mut i = start;
    while i < t.len()
        invariant
            start <= i <= t@.len(),
            tv == tokens_view(t@),
            av == attrs_v(a@),
            mpd_scan(tv, i as int, x@) == mpd_at(tv, start as int, av),
        decreases t@.len() - i,
    {
        assert(tv[i as int] == t@[i as int]@);
        match &t[i] {
            XmlToken::Error(m) => {
                return Err(Error::with_text(ErrorKind::Xml, m.as_str()));
            },
            XmlToken::EndDocument => {
                return Ok((x, i));
            },
            XmlToken::End(n) => {
                if text_is(n.as_str(), "MPD") {
                    return Ok((x, i + 1));
                }
                i = i + 1;
            },
            XmlToken::Start(n, _, ca) => {
                if text_is(n.as_str(), "BaseURL") {
                    proof {
                        lemma_base_url_at_pos(tv, i + 1, attrs_v(ca@));
                    }
                    match parse_base_url(t, i + 1, ca) {
                        Ok((v, j)) => {
                            let ghost prev = x.base_urls@;
                                let ghost vv = v;
                                x.base_urls.push(v);
                                proof {
                                    lemma_views_push(prev, vv);
                                }
                            i = j;
                        },
                        Err(e) => {
                            return Err(e);
                        },
                    }
                } else if text_is(n.as_str(), "UTCTiming") {
                    proof {
                        lemma_skip_scan_pos(tv, i + 1, 1);
                    }
                    match start_utc_timing(ca) {
                        Ok(v) => match skip_dom_element(t, i + 1) {
                            Ok(j) => {
                                let ghost prev = x.utc_timings@;
                                let ghost vv = v;
                                x.utc_timings.push(v);
                                proof {
                                    lemma_views_push(prev, vv);
                                }
                                i = j;
                            },
                            Err(e) => {
                                return Err(e);
                            },
                        },
                        Err(e) => {
                            return Err(e);
                        },
                    }
                } else if text_is(n.as_str(), "Location") {
                    proof {
                        lemma_location_at_pos(tv, i + 1, attrs_v(ca@));
                    }
                    match parse_location(t, i + 1, ca) {
                        Ok((v, j)) => {
                            let ghost prev = x.locations@;
                                let ghost vv = v;
                                x.locations.push(v);
                                proof {
                                    lemma_views_push(prev, vv);
                                }
                            i = j;
                        },
                        Err(e) => {
                            return Err(e);
                        },
                    }
                } else if text_is(n.as_str(), "PatchLocation") {
                    proof {
                        lemma_patch_location_at_pos(tv, i + 1, attrs_v(ca@));
                    }
                    match parse_patch_location(t, i + 1, ca) {
                        Ok((v, j)) => {
                            let ghost prev = x.patch_locations@;
                                let ghost vv = v;
                                x.patch_locations.push(v);
                                proof {
                                    lemma_views_push(prev, vv);
                                }
                            i = j;
                        },
                        Err(e) => {
                            return Err(e);
                        },
                    }
                } else if text_is(n.as_str(), "ServiceDescription") {
                    proof {
                        lemma_service_description_at_pos(tv, i + 1, attrs_v(ca@));
                    }
                    match parse_service_description(t, i + 1, ca) {
                        Ok((v, j)) => {
                            let ghost prev = x.service_descriptions@;
                                let ghost vv = v;
                                x.service_descriptions.push(v);
                                proof {
                                    lemma_views_push(prev, vv);
                                }
                            i = j;
                        },
                        Err(e) => {
                            return Err(e);
                        },
                    }
                } else if text_is(n.as_str(), "ContentSteering") {
                    proof {
                        lemma_content_steering_at_pos(tv, i + 1, attrs_v(ca@));
                    }
                    match parse_content_steering(t, i + 1, ca) {
                        Ok((v, j)) => {
                            x.content_steering = Some(v);
                            i = j;
                        },
                        Err(e) => {
                            return Err(e);
                        },
                    }
                } else if text_is(n.as_str(), "EssentialProperty") {
                    proof {
                        lemma_skip_scan_pos(tv, i + 1, 1);
                    }
                    match start_descriptor(ca) {
                        Ok(v) => match skip_dom_element(t, i + 1) {
                            Ok(j) => {
                                let ghost prev = x.essential_properties@;
                                let ghost vv = v;
                                x.essential_properties.push(v);
                                proof {
                                    lemma_views_push(prev, vv);
                                }
                                i = j;
                            },
                            Err(e) => {
                                return Err(e);
                            },
                        },
                        Err(e) => {
                            return Err(e);
                        },
                    }
                } else if text_is(n.as_str(), "SupplementalProperty") {
                    proof {
                        lemma_skip_scan_pos(tv, i + 1, 1);
                    }
                    match start_descriptor(ca) {
                        Ok(v) => match skip_dom_element(t, i + 1) {
                            Ok(j) => {
                                let ghost prev = x.supplemental_properties@;
                                let ghost vv = v;
                                x.supplemental_properties.push(v);
                                proof {
                                    lemma_views_push(prev, vv);
                                }
                                i = j;
                            },
                            Err(e) => {
                                return Err(e);
                            },
                        },
                        Err(e) => {
                            return Err(e);
                        },
                    }
                } else if text_is(n.as_str(), "Metrics") {
                    proof {
                        lemma_metrics_at_pos(tv, i + 1, attrs_v(ca@));
                    }
                    match parse_metrics(t, i + 1, ca) {
                        Ok((v, j)) => {
                            let ghost prev = x.metrics@;
                                let ghost vv = v;
                                x.metrics.push(v);
                                proof {
                                    lemma_views_push(prev, vv);
                                }
                            i = j;
                        },
                        Err(e) => {
                            return Err(e);
                        },
                    }
                } else if text_is(n.as_str(), "Period") {
                    proof {
                        lemma_period_at_pos(tv, i + 1, attrs_v(ca@));
                    }
                    match parse_period(t, i + 1, ca) {
                        Ok((v, j)) => {
                            let ghost prev = x.periods@;
                                let ghost vv = v;
                                x.periods.push(v);
                                proof {
                                    lemma_views_push(prev, vv);
                                }
                            i = j;
                        },
                        Err(e) => {
                            return Err(e);
                        },
                    }
                } else {
                    proof {
                        lemma_skip_scan_pos(tv, i + 1, 1);
                    }
                    match skip_dom_element(t, i + 1) {
                        Ok(j) => {
                            i = j;
                        },
                        Err(e) => {
                            return Err(e);
                        },
                    }
                }
            },
            _ => {
                i = i + 1;
            },
        }
    }
    Ok((x, i))
}

/// Reads the attributes of a `Event` element.
fn start_event(a: &Vec<XmlAttr>) -> (r: Result<Event, Error>)
    ensures
        r matches Err(e) ==> reader_message_ok(e),
        result_is(r, event_start(attrs_v(a@))),
{
    reveal(event_start);
    
    let x = Event {
        presentation_time: attr_u64_or(a, "presentationTime", 0),
        duration: attr_u64(a, "duration"),
        id: get_attr(a, "id"),
        message_data: get_attr(a, "messageData"),
        content: None,
        signal_binary: None,
    };
    Ok(x)
}

/// Reads the `Event` element whose start tag, with the attributes `a`, was
/// `t[start - 1]`; returns it with where the reading goes on.
fn parse_event(t: &Vec<XmlToken>, start: usize, a: &Vec<XmlAttr>) -> (r: Result<(Event, usize), Error>)
    requires
        start <= t@.len(),
    ensures
        r matches Err(e) ==> reader_message_ok(e),
        parsed_is(r, event_at(tokens_view(t@), start as int, attrs_v(a@))),
{
    reveal(event_at);
    let mut x = match start_event(a) {
        Ok(x) => x,
        Err(e) => {
            return Err(e);
        },
    };
    match parse_event_body(t, start) {
        Ok(((c, s), j)) => {
            x.content = c;
            x.signal_binary = s;
            Ok((x, j))
        },
        Err(e) => Err(e),
    }
}

/// The attributes of the first `MPD` start tag in `t[i..]`, and where the
/// reading goes on after it.
pub open spec fn find_mpd_root(t: Seq<TokenV>, i: int) -> Result<(Seq<XmlAttrV>, int), ErrorKind>
    decreases t.len() - i,
{
    if i < 0 || i > t.len() {
        Err(ErrorKind::Xml)
    } else if i == t.len() {
        Err(ErrorKind::MissingElement { parent: "document", element: "MPD" })
    } else {
        match t[i] {
            TokenV::Error => Err(ErrorKind::Xml),
            TokenV::EndDocument => Err(ErrorKind::MissingElement { parent: "document", element: "MPD" }),
            TokenV::Start(n, _, a) => if n == "MPD"@ {
                Ok((a, i + 1))
            } else {
                find_mpd_root(t, i + 1)
            },
            _ => find_mpd_root(t, i + 1),
        }
    }
}

/// The MPD that the reader tokens `t` hold.
pub open spec fn mpd_of_tokens(t: Seq<TokenV>) -> Result<MpdV, ErrorKind> {
    match find_mpd_root(t, 0) {
        Err(k) => Err(k),
        Ok((a, i)) => match mpd_at(t, i, a) {
            Ok((m, _)) => Ok(m),
            Err(k) => Err(k),
        },
    }
}

/// The MPD of the XML text `input`.
pub open spec fn mpd_of(input: Seq<char>) -> Result<MpdV, ErrorKind> {
    mpd_of_tokens(xml_tokens(input))
}

/// The index of the first `MPD` start tag among the reader tokens `t`.
fn find_mpd_start(t: &Vec<XmlToken>) -> (r: Result<usize, Error>)
    ensures
        r matches Err(e) ==> reader_message_ok(e),
        match r {
            Ok(j) => j < t@.len() && j + 1 <= usize::MAX && (t@[j as int]@ matches TokenV::Start(_, _, a)
                && find_mpd_root(tokens_view(t@), 0) == Ok::<(Seq<XmlAttrV>, int), ErrorKind>((a, j + 1))),
            Err(e) => find_mpd_root(tokens_view(t@), 0) == Err::<(Seq<XmlAttrV>, int), ErrorKind>(
                e.spec_kind(),
            ),
        },
{
    let ghost tv = tokens_view(t@);
    let mut i: usize = 0;
    while i < t.len()
        invariant
            i <= t@.len(),
            tv == tokens_view(t@),
            find_mpd_root(tv, i as int) == find_mpd_root(tv, 0),
        decreases t@.len() - i,
    {
        assert(tv[i as int] == t@[i as int]@);
        match &t[i] {
            XmlToken::Error(m) => {
                return Err(Error::with_text(ErrorKind::Xml, m.as_str()));
            },
            XmlToken::EndDocument => {
                return Err(
                    Error::with_text(
                        ErrorKind::MissingElement { parent: "document", element: "MPD" },
                        "MPD root element not found",
                    ),
                );
            },
            XmlToken::Start(n, _, _) => {
                if text_is(n.as_str(), "MPD") {
                    return Ok(i);
                }
            },
            _ => {},
        }
        i = i + 1;
    }
    Err(
        Error::with_text(
            ErrorKind::MissingElement { parent: "document", element: "MPD" },
            "MPD root element not found",
        ),
    )
}

/// Reads an MPD from the tokens of the XML reader.
pub fn parse_tokens(t: &Vec<XmlToken>) -> (r: Result<Mpd, Error>)
    ensures
        r matches Err(e) ==> reader_message_ok(e),
        result_is(r, mpd_of_tokens(tokens_view(t@))),
{
    let j = match find_mpd_start(t) {
        Ok(j) => j,
        Err(e) => {
            return Err(e);
        },
    };
    let attrs = match &t[j] {
        XmlToken::Start(_, _, a) => a,
        _ => {
            proof {
                assert(false);
            }
            return Err(Error::with_text(ErrorKind::Xml, "MPD root element not found"));
        },
    };
    match parse_mpd(t, j + 1, attrs) {
        Ok((m, _)) => Ok(m),
        Err(e) => Err(e),
    }
}

/// Reads an MPD (XML text).
pub fn parse(input: &str) -> (r: Result<Mpd, Error>)
    ensures
        r matches Err(e) ==> reader_message_ok(e),
        result_is(r, mpd_of(input@)),
{
    let t = read_xml(input);
    parse_tokens(&t)
}

} // verus!
