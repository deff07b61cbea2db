//! Reading back what was written: the attributes that the writer gives an
//! element, named as a namespace-aware XML reader names them, are read by the
//! reader into the same values.
use vstd::prelude::*;

use crate::dom::opt_view;
use crate::duration::duration_ok;
use crate::error::ErrorKind;
use crate::model::{
    AdaptationSetV, BaseUrlV, ClientDataReportingV, CmcdParametersV, ContentComponentV,
    ContentProtectionV, ContentSteeringV, DescriptorV, EventStreamV, EventV, LatencyV,
    LocationV, MetricsRangeV, MetricsV, MpdV, OperatingBandwidthV, OperatingQualityV,
    PatchLocationV, PeriodV, PlaybackRateV, PreselectionV, ProducerReferenceTimeV,
    RepresentationV, SegmentBaseV, SegmentListV, SegmentSequencePropertiesV, SegmentTemplateV,
    SegmentUrlV, ServiceDescriptionV, SubRepresentationV, SubsetV, UtcTimingV
};
use crate::reader::{
    bool_or_false, content_type_of, first_attr, first_xlink_attr, opt_bool,
    presentation_type_of, adaptation_set_start, base_url_start, client_data_reporting_start,
    cmcd_parameters_start, content_component_start, content_protection_start,
    content_steering_start, descriptor_start, event_start, event_stream_start, latency_start,
    location_start, metrics_range_start, metrics_start, mpd_start, operating_bandwidth_start,
    operating_quality_start, patch_location_start, period_start, playback_rate_start,
    preselection_start, producer_reference_time_start, representation_start, segment_base_start,
    segment_list_start, segment_sequence_properties_start, segment_template_start,
    segment_url_start, service_description_start, sub_representation_start, subset_start,
    timeline_entry_of, utc_timing_start
};
use crate::text::{
    all_digits, decimal, digit_char, digit_value, digits_value, first_index, i64_of, u32_of,
    u64_of, unsigned_text_value
};
use crate::types::{
    ContentType, PresentationType, AdaptationSet, BaseUrl, CertUrl, ClientDataReporting,
    CmcdParameters, ContentComponent, ContentProtection, ContentSteering, Descriptor, Event,
    EventStream, Label, Latency, Location, Metrics, MetricsRange, Mpd, OperatingBandwidth,
    OperatingQuality, PatchLocation, Period, PlaybackRate, Preselection, ProducerReferenceTime,
    Representation, SegmentBase, SegmentList, SegmentSequenceProperties, SegmentTemplate,
    SegmentUrl, ServiceDescription, SubRepresentation, Subset, TimelineEntry, UtcTiming
};
use crate::writer::{
    bool_attr, bool_text, content_type_attr, content_type_text, nonzero_attr,
    nonzero_signed_attr, opt_attr, presentation_type_text, signed_decimal, true_attr, u32_attr,
    u64_attr, Attrs, adaptation_set_attrs, base_url_attrs, cert_url_attrs,
    client_data_reporting_attrs, cmcd_parameters_attrs, content_component_attrs,
    content_protection_attrs, content_steering_attrs, descriptor_attrs, event_attrs,
    event_stream_attrs, label_attrs, latency_attrs, location_attrs, metrics_attrs,
    metrics_range_attrs, mpd_attrs, operating_bandwidth_attrs, operating_quality_attrs,
    patch_location_attrs, period_attrs, playback_rate_attrs, preselection_attrs,
    producer_reference_time_attrs, representation_attrs, segment_base_attrs, segment_list_attrs,
    segment_sequence_properties_attrs, segment_template_attrs, segment_url_attrs,
    service_description_attrs, sub_representation_attrs, subset_attrs, timeline_entry_attrs,
    utc_timing_attrs
};
use crate::xml_io::XmlAttrV;
use vstd::seq_lib::lemma_concat_associative;

verus! {

/// How a namespace-aware XML reader names the attribute written as `p.0`
/// with the value `p.1`: what comes before the first colon is its prefix,
/// what follows it its local name.
pub open spec fn attr_as_read(p: (Seq<char>, Seq<char>)) -> XmlAttrV {
    let k = first_index(p.0, ':');
    if k < p.0.len() {
        XmlAttrV { prefix: Some(p.0.take(k)), local_name: p.0.skip(k + 1), value: p.1 }
    } else {
        XmlAttrV { prefix: None, local_name: p.0, value: p.1 }
    }
}

/// The attributes `a`, in order, as the reader names them.
#[verifier::opaque]
pub open spec fn attrs_as_read(a: Attrs) -> Seq<XmlAttrV> {
    a.map_values(|p: (Seq<char>, Seq<char>)| attr_as_read(p))
}

/// Looking an attribute up in two lists written one after the other finds it
/// in the first list, or else in the second.
proof fn lemma_first_attr_cat(a: Attrs, b: Attrs)
    ensures
        forall|n: Seq<char>| #[trigger] first_attr(attrs_as_read(a + b), n) == match first_attr(attrs_as_read(a), n) {
            Some(v) => Some(v),
            None => first_attr(attrs_as_read(b), n),
        },
        forall|n: Seq<char>| #[trigger] first_xlink_attr(attrs_as_read(a + b), n) == match first_xlink_attr(attrs_as_read(a), n) {
            Some(v) => Some(v),
            None => first_xlink_attr(attrs_as_read(b), n),
        },
    decreases a.len(),
{
    reveal(attrs_as_read);
    if a.len() == 0 {
        assert(a + b =~= b);
    } else {
        lemma_first_attr_cat(a.drop_first(), b);
        let ra = attrs_as_read(a);
        let rab = attrs_as_read(a + b);
        assert(rab.drop_first() =~= attrs_as_read(a.drop_first() + b)) by {
            assert((a + b).drop_first() =~= a.drop_first() + b);
        }
        assert(ra.drop_first() =~= attrs_as_read(a.drop_first()));
        assert(rab[0] == ra[0]);
        assert forall|n: Seq<char>| #[trigger] first_attr(attrs_as_read(a + b), n) == match first_attr(attrs_as_read(a), n) {
            Some(v) => Some(v),
            None => first_attr(attrs_as_read(b), n),
        } by {
            assert(first_attr(rab, n) == if rab[0].local_name == n { Some(rab[0].value) } else { first_attr(rab.drop_first(), n) });
            assert(first_attr(ra, n) == if ra[0].local_name == n { Some(ra[0].value) } else { first_attr(ra.drop_first(), n) });
            assert(first_attr(attrs_as_read(a.drop_first() + b), n) == match first_attr(attrs_as_read(a.drop_first()), n) {
                Some(v) => Some(v),
                None => first_attr(attrs_as_read(b), n),
            });
        }
        assert forall|n: Seq<char>| #[trigger] first_xlink_attr(attrs_as_read(a + b), n) == match first_xlink_attr(attrs_as_read(a), n) {
            Some(v) => Some(v),
            None => first_xlink_attr(attrs_as_read(b), n),
        } by {
            assert(first_xlink_attr(rab,
                n) == if rab[0].local_name == n && rab[0].prefix == Some("xlink"@) { Some(rab[0].value) } else { first_xlink_attr(rab.drop_first(),
                n) });
            assert(first_xlink_attr(ra,
                n) == if ra[0].local_name == n && ra[0].prefix == Some("xlink"@) { Some(ra[0].value) } else { first_xlink_attr(ra.drop_first(),
                n) });
            assert(first_xlink_attr(attrs_as_read(a.drop_first() + b), n) == match first_xlink_attr(attrs_as_read(a.drop_first()), n) {
                Some(v) => Some(v),
                None => first_xlink_attr(attrs_as_read(b), n),
            });
        }
    }
}

/// Looking up an attribute in a list of one.
proof fn lemma_first_attr_one(name: Seq<char>, v: Seq<char>)
    ensures
        forall|n: Seq<char>| #[trigger] first_attr(attrs_as_read(seq![(name, v)]), n) == if attr_as_read((name, v)).local_name == n {
            Some(v)
        } else {
            None
        },
        forall|n: Seq<char>| #[trigger] first_xlink_attr(attrs_as_read(seq![(name, v)]), n) == if attr_as_read((name, v)).local_name == n
            && attr_as_read((name, v)).prefix == Some("xlink"@) {
            Some(v)
        } else {
            None
        },
{
    reveal(attrs_as_read);
    let r = attrs_as_read(seq![(name, v)]);
    assert(r.drop_first() =~= Seq::<XmlAttrV>::empty());
    assert(r[0] == attr_as_read((name, v)));
    assert forall|n: Seq<char>| #[trigger] first_attr(attrs_as_read(seq![(name, v)]), n) == if attr_as_read((name, v)).local_name == n {
        Some(v)
    } else {
        None
    } by {
        assert(first_attr(r.drop_first(), n) == None::<Seq<char>>);
    }
    assert forall|n: Seq<char>| #[trigger] first_xlink_attr(attrs_as_read(seq![(name, v)]), n) == if attr_as_read((name, v)).local_name == n
        && attr_as_read((name, v)).prefix == Some("xlink"@) {
        Some(v)
    } else {
        None
    } by {
        assert(first_xlink_attr(r.drop_first(), n) == None::<Seq<char>>);
    }
}

/// Looking up an attribute in an empty list.
proof fn lemma_first_attr_none()
    ensures
        forall|n: Seq<char>| #[trigger] first_attr(attrs_as_read(Seq::<(Seq<char>, Seq<char>)>::empty()), n) == None::<Seq<char>>,
        forall|n: Seq<char>| #[trigger] first_xlink_attr(attrs_as_read(Seq::<(Seq<char>, Seq<char>)>::empty()), n) == None::<Seq<char>>,
{
    reveal(attrs_as_read);
}

pub proof fn lemma_decimal_digits(n: nat)
    ensures
        decimal(n).len() > 0,
        all_digits(decimal(n)),
        digits_value(decimal(n)) == n,
        decimal(n)[0] != '+',
        decimal(n)[0] != '-',
    decreases n,
{
    if n >= 10 {
        lemma_decimal_digits(n / 10);
        let d = decimal(n / 10);
        let s = d.push(digit_char(n % 10));
        assert(s.drop_last() =~= d);
        assert(s[0] == d[0]);
        let r = n % 10;
        assert(digit_value(digit_char(r)) == r);
        assert(digits_value(s) == digits_value(d) * 10 + digit_value(s.last()));
        assert(s.last() == digit_char(r));
        assert(n == (n / 10) * 10 + r);
        assert(decimal(n) == s);
    } else {
        let s = decimal(n);
        assert(s == seq![digit_char(n)]);
        assert(s.drop_last() =~= Seq::<char>::empty());
        assert(digits_value(s.drop_last()) == 0);
        assert(digit_value(digit_char(n)) == n);
    }
}

/// The decimal notation of a number is read back as that number.
pub proof fn lemma_decimal_read(n: nat)
    ensures
        unsigned_text_value(decimal(n)) == Some(n),
        n <= u32::MAX ==> u32_of(decimal(n)) == Some(n as u32),
        n <= u64::MAX ==> u64_of(decimal(n)) == Some(n as u64),
        n <= i64::MAX ==> i64_of(decimal(n)) == Some(n as i64),
{
    lemma_decimal_digits(n);
}


/// The local name that the reader gives the attribute written as `name`.
#[verifier::opaque]
pub open spec fn local_of(name: Seq<char>) -> Seq<char> {
    attr_as_read((name, seq![])).local_name
}

/// The prefix that the reader gives the attribute written as `name`.
#[verifier::opaque]
pub open spec fn prefix_of(name: Seq<char>) -> Option<Seq<char>> {
    attr_as_read((name, seq![])).prefix
}

/// What the lookup of an attribute by its local name finds in an attribute
/// list that has it, or not, once.
pub open spec fn found(name: Seq<char>, n: Seq<char>, v: Option<Seq<char>>) -> Option<Seq<char>> {
    if local_of(name) == n {
        v
    } else {
        None
    }
}

/// The same for a lookup that also asks for the `xlink` prefix.
pub open spec fn found_xlink(name: Seq<char>, n: Seq<char>, v: Option<Seq<char>>) -> Option<Seq<char>> {
    if local_of(name) == n && prefix_of(name) == Some("xlink"@) {
        v
    } else {
        None
    }
}

/// The value that the reader finds under the local name `n` among the
/// attributes written as `a`.
#[verifier::opaque]
pub open spec fn lookup_written(a: Attrs, n: Seq<char>) -> Option<Seq<char>> {
    first_attr(attrs_as_read(a), n)
}

/// The same for a lookup that also asks for the `xlink` prefix.
#[verifier::opaque]
pub open spec fn lookup_written_xlink(a: Attrs, n: Seq<char>) -> Option<Seq<char>> {
    first_xlink_attr(attrs_as_read(a), n)
}

/// A lookup in two lists written one after the other finds the attribute in
/// the first list, or else in the second.
pub proof fn lemma_lookup_cat(a: Attrs, b: Attrs)
    ensures
        forall|n: Seq<char>| #[trigger] lookup_written(a + b, n) == match lookup_written(a, n) {
            Some(v) => Some(v),
            None => lookup_written(b, n),
        },
        forall|n: Seq<char>| #[trigger] lookup_written_xlink(a + b, n) == match lookup_written_xlink(a, n) {
            Some(v) => Some(v),
            None => lookup_written_xlink(b, n),
        },
{
    reveal(lookup_written);
    reveal(lookup_written_xlink);
    lemma_first_attr_cat(a, b);
}

/// A lookup in a list of at most one attribute, `name`, with the value `v`
/// when present.
pub proof fn lemma_lookup_part(part: Attrs, name: Seq<char>, v: Option<Seq<char>>)
    requires
        part == (match v {
            Some(s) => seq![(name, s)],
            None => Seq::<(Seq<char>, Seq<char>)>::empty(),
        }),
    ensures
        forall|n: Seq<char>| #[trigger] lookup_written(part, n) == found(name, n, v),
        forall|n: Seq<char>| #[trigger] lookup_written_xlink(part, n) == found_xlink(name, n, v),
{
    reveal(lookup_written);
    reveal(lookup_written_xlink);
    reveal(local_of);
    reveal(prefix_of);
    lemma_first_attr_none();
    if let Some(s) = v {
        lemma_first_attr_one(name, s);
    }
}

/// The text of an optional unsigned attribute, when present.
pub open spec fn text_u32(v: Option<u32>) -> Option<Seq<char>> {
    match v {
        Some(n) => Some(decimal(n as nat)),
        None => None,
    }
}

pub open spec fn text_u64(v: Option<u64>) -> Option<Seq<char>> {
    match v {
        Some(n) => Some(decimal(n as nat)),
        None => None,
    }
}

/// The text of an attribute written only when it is not zero.
pub open spec fn text_nonzero(v: u64) -> Option<Seq<char>> {
    if v != 0 {
        Some(decimal(v as nat))
    } else {
        None
    }
}

pub open spec fn text_nonzero_signed(v: i64) -> Option<Seq<char>> {
    if v != 0 {
        Some(signed_decimal(v as int))
    } else {
        None
    }
}

pub open spec fn text_bool(v: Option<bool>) -> Option<Seq<char>> {
    match v {
        Some(b) => Some(bool_text(b)),
        None => None,
    }
}

/// The text of an attribute written as `true` only when it holds.
pub open spec fn text_true(b: bool) -> Option<Seq<char>> {
    if b {
        Some("true"@)
    } else {
        None
    }
}

pub open spec fn text_content_type(v: Option<ContentType>) -> Option<Seq<char>> {
    match v {
        Some(c) => Some(content_type_text(c)),
        None => None,
    }
}

/// A boolean as written is read back.
pub proof fn lemma_bool_read()
    ensures
        forall|b: bool| #[trigger] opt_bool(Some(bool_text(b))) == Some(b),
        forall|b: bool| #[trigger] bool_or_false(text_true(b)) == b,
{
    reveal_strlit("true");
    reveal_strlit("false");
    assert("true"@.len() == 4);
    assert("false"@.len() == 5);
}

/// A content type as written is read back.
pub proof fn lemma_content_type_read()
    ensures
        forall|c: ContentType| #[trigger] content_type_of(Some(content_type_text(c))) == Some(c),
{
    reveal_strlit("video");
    reveal_strlit("audio");
    reveal_strlit("text");
    reveal_strlit("image");
    reveal_strlit("muxed");
    assert("video"@.len() == 5);
    assert("audio"@.len() == 5);
    assert("text"@.len() == 4);
    assert("image"@.len() == 5);
    assert("muxed"@.len() == 5);
    assert("video"@[0] != "audio"@[0]);
    assert("video"@[0] != "image"@[0]);
    assert("video"@[0] != "muxed"@[0]);
    assert("audio"@[0] != "image"@[0]);
    assert("audio"@[0] != "muxed"@[0]);
    assert("image"@[0] != "muxed"@[0]);
}

/// A presentation type as written is read back.
pub proof fn lemma_presentation_type_read()
    ensures
        forall|t: PresentationType| #[trigger] presentation_type_of(Some(presentation_type_text(t))) == t,
{
    reveal_strlit("static");
    reveal_strlit("dynamic");
    assert("static"@.len() == 6);
    assert("dynamic"@.len() == 7);
}

/// The signed decimal notation of a number is read back as that number.
pub proof fn lemma_signed_decimal_read(v: i64)
    ensures
        i64_of(signed_decimal(v as int)) == Some(v),
{
    if v < 0 {
        let m = (-(v as int)) as nat;
        lemma_decimal_digits(m);
        let s = signed_decimal(v as int);
        assert(s == seq!['-'] + decimal(m));
        assert(s[0] == '-');
        assert(s.drop_first() =~= decimal(m));
    } else {
        lemma_decimal_digits(v as nat);
    }
}

/// How the reader names the attributes that the writer gives `descriptor`
/// values, and how those names differ.
proof fn lemma_names_descriptor()
    ensures
        local_of("schemeIdUri"@) == "schemeIdUri"@,
        local_of("value"@) == "value"@,
        local_of("id"@) == "id"@,
        local_of("dvb:url"@) == "url"@,
        prefix_of("dvb:url"@) == Some("dvb"@),
        local_of("dvb:mimeType"@) == "mimeType"@,
        prefix_of("dvb:mimeType"@) == Some("dvb"@),
        local_of("dvb:fontFamily"@) == "fontFamily"@,
        prefix_of("dvb:fontFamily"@) == Some("dvb"@),
        "fontFamily"@.len() == 10,
        "id"@.len() == 2,
        "mimeType"@.len() == 8,
        "schemeIdUri"@.len() == 11,
        "url"@.len() == 3,
        "value"@.len() == 5,
{
    reveal(local_of);
    reveal(prefix_of);
    reveal_with_fuel(first_index, 12);
    reveal_strlit("dvb");
    reveal_strlit("dvb:fontFamily");
    reveal_strlit("dvb:mimeType");
    reveal_strlit("dvb:url");
    reveal_strlit("fontFamily");
    reveal_strlit("id");
    reveal_strlit("mimeType");
    reveal_strlit("schemeIdUri");
    reveal_strlit("url");
    reveal_strlit("value");
    assert("dvb:url"@.skip(4) =~= "url"@);
    assert("dvb:url"@.take(3) =~= "dvb"@);
    assert("dvb:mimeType"@.skip(4) =~= "mimeType"@);
    assert("dvb:mimeType"@.take(3) =~= "dvb"@);
    assert("dvb:fontFamily"@.skip(4) =~= "fontFamily"@);
    assert("dvb:fontFamily"@.take(3) =~= "dvb"@);
    assert("fontFamily"@.len() == 10);
    assert("id"@.len() == 2);
    assert("mimeType"@.len() == 8);
    assert("schemeIdUri"@.len() == 11);
    assert("url"@.len() == 3);
    assert("value"@.len() == 5);
}

/// What the reader finds under each attribute name that the writer gives
/// a descriptor element.
proof fn lemma_descriptor_attrs_found(d: Descriptor)
    ensures
        lookup_written(descriptor_attrs(d), "schemeIdUri"@) == Some(d.scheme_id_uri@),
        lookup_written(descriptor_attrs(d), "value"@) == opt_view(d.value),
        lookup_written(descriptor_attrs(d), "id"@) == opt_view(d.id),
        lookup_written(descriptor_attrs(d), "url"@) == opt_view(d.dvb_url),
        lookup_written(descriptor_attrs(d), "mimeType"@) == opt_view(d.dvb_mime_type),
        lookup_written(descriptor_attrs(d), "fontFamily"@) == opt_view(d.dvb_font_family),
{
    reveal(descriptor_attrs);
    lemma_names_descriptor();
    let p0: Attrs = seq![("schemeIdUri"@, d.scheme_id_uri@)];
    let p1: Attrs = opt_attr("value"@, d.value);
    let p2: Attrs = opt_attr("id"@, d.id);
    let p3: Attrs = opt_attr("dvb:url"@, d.dvb_url);
    let p4: Attrs = opt_attr("dvb:mimeType"@, d.dvb_mime_type);
    let p5: Attrs = opt_attr("dvb:fontFamily"@, d.dvb_font_family);
    lemma_lookup_part(p0, "schemeIdUri"@, Some(d.scheme_id_uri@));
    lemma_lookup_part(p1, "value"@, opt_view(d.value));
    lemma_lookup_part(p2, "id"@, opt_view(d.id));
    lemma_lookup_part(p3, "dvb:url"@, opt_view(d.dvb_url));
    lemma_lookup_part(p4, "dvb:mimeType"@, opt_view(d.dvb_mime_type));
    lemma_lookup_part(p5, "dvb:fontFamily"@, opt_view(d.dvb_font_family));
    lemma_lookup_cat(p0, p1);
    let c1 = p0 + p1;
    lemma_lookup_cat(c1, p2);
    let c2 = c1 + p2;
    lemma_lookup_cat(c2, p3);
    let c3 = c2 + p3;
    lemma_lookup_cat(c3, p4);
    let c4 = c3 + p4;
    lemma_lookup_cat(c4, p5);
}

/// Every attribute that the writer gives a descriptor element, the reader reads back
/// as the value it was written from.
pub proof fn law_descriptor_attributes_read_back(d: Descriptor)
    ensures
        descriptor_start(attrs_as_read(descriptor_attrs(d))) == Ok::<DescriptorV, ErrorKind>(d@),
{
    reveal(descriptor_start);
    lemma_descriptor_attrs_found(d);
    reveal(lookup_written);
    reveal(lookup_written_xlink);
}

/// How the reader names the attributes that the writer gives `label`
/// values, and how those names differ.
proof fn lemma_names_label()
    ensures
        local_of("lang"@) == "lang"@,
        "lang"@.len() == 4,
{
    reveal(local_of);
    reveal(prefix_of);
    reveal_with_fuel(first_index, 5);
    reveal_strlit("lang");
    assert("lang"@.len() == 4);
}

/// What the reader finds under each attribute name that the writer gives
/// a label element.
proof fn lemma_label_attrs_found(l: Label)
    ensures
        lookup_written(label_attrs(l), "lang"@) == opt_view(l.lang),
{
    reveal(label_attrs);
    lemma_names_label();
    let p0: Attrs = opt_attr("lang"@, l.lang);
    lemma_lookup_part(p0, "lang"@, opt_view(l.lang));
}

/// Every attribute that the writer gives a label element, the reader reads back
/// as the value it was written from.
pub proof fn law_label_attributes_read_back(l: Label)
    ensures
        first_attr(attrs_as_read(label_attrs(l)), "lang"@) == opt_view(l.lang),
{
    lemma_label_attrs_found(l);
    reveal(lookup_written);
    reveal(lookup_written_xlink);
}

/// How the reader names the attributes that the writer gives `utc_timing`
/// values, and how those names differ.
proof fn lemma_names_utc_timing()
    ensures
        local_of("schemeIdUri"@) == "schemeIdUri"@,
        local_of("value"@) == "value"@,
        local_of("id"@) == "id"@,
        "id"@.len() == 2,
        "schemeIdUri"@.len() == 11,
        "value"@.len() == 5,
{
    reveal(local_of);
    reveal(prefix_of);
    reveal_with_fuel(first_index, 12);
    reveal_strlit("id");
    reveal_strlit("schemeIdUri");
    reveal_strlit("value");
    assert("id"@.len() == 2);
    assert("schemeIdUri"@.len() == 11);
    assert("value"@.len() == 5);
}

/// What the reader finds under each attribute name that the writer gives
/// a `UTCTiming` element.
proof fn lemma_utc_timing_attrs_found(u: UtcTiming)
    ensures
        lookup_written(utc_timing_attrs(u), "schemeIdUri"@) == Some(u.scheme_id_uri@),
        lookup_written(utc_timing_attrs(u), "value"@) == opt_view(u.value),
        lookup_written(utc_timing_attrs(u), "id"@) == opt_view(u.id),
{
    reveal(utc_timing_attrs);
    lemma_names_utc_timing();
    let p0: Attrs = seq![("schemeIdUri"@, u.scheme_id_uri@)];
    let p1: Attrs = opt_attr("value"@, u.value);
    let p2: Attrs = opt_attr("id"@, u.id);
    lemma_lookup_part(p0, "schemeIdUri"@, Some(u.scheme_id_uri@));
    lemma_lookup_part(p1, "value"@, opt_view(u.value));
    lemma_lookup_part(p2, "id"@, opt_view(u.id));
    lemma_lookup_cat(p0, p1);
    let c1 = p0 + p1;
    lemma_lookup_cat(c1, p2);
}

/// Every attribute that the writer gives a `UTCTiming` element, the reader reads back
/// as the value it was written from.
pub proof fn law_utc_timing_attributes_read_back(u: UtcTiming)
    ensures
        utc_timing_start(attrs_as_read(utc_timing_attrs(u))) == Ok::<UtcTimingV, ErrorKind>(u@),
{
    reveal(utc_timing_start);
    lemma_utc_timing_attrs_found(u);
    reveal(lookup_written);
    reveal(lookup_written_xlink);
}

/// How the reader names the attributes that the writer gives `location`
/// values, and how those names differ.
proof fn lemma_names_location()
    ensures
        local_of("serviceLocation"@) == "serviceLocation"@,
        "serviceLocation"@.len() == 15,
{
    reveal(local_of);
    reveal(prefix_of);
    reveal_with_fuel(first_index, 16);
    reveal_strlit("serviceLocation");
    assert("serviceLocation"@.len() == 15);
}

/// What the reader finds under each attribute name that the writer gives
/// a `Location` element.
proof fn lemma_location_attrs_found(l: Location)
    ensures
        lookup_written(location_attrs(l), "serviceLocation"@) == opt_view(l.service_location),
{
    reveal(location_attrs);
    lemma_names_location();
    let p0: Attrs = opt_attr("serviceLocation"@, l.service_location);
    lemma_lookup_part(p0, "serviceLocation"@, opt_view(l.service_location));
}

/// Every attribute that the writer gives a `Location` element, the reader reads back
/// as the value it was written from;
/// what the element holds inside is read apart from its attributes.
pub proof fn law_location_attributes_read_back(l: Location)
    ensures
        location_start(attrs_as_read(location_attrs(l))) == Ok::<LocationV, ErrorKind>(LocationV { url: seq![], ..l@ }),
{
    reveal(location_start);
    lemma_location_attrs_found(l);
    reveal(lookup_written);
    reveal(lookup_written_xlink);
}

/// How the reader names the attributes that the writer gives `base_url`
/// values, and how those names differ.
proof fn lemma_names_base_url()
    ensures
        local_of("serviceLocation"@) == "serviceLocation"@,
        local_of("availabilityTimeOffset"@) == "availabilityTimeOffset"@,
        local_of("availabilityTimeComplete"@) == "availabilityTimeComplete"@,
        local_of("byteRange"@) == "byteRange"@,
        local_of("dvb:priority"@) == "priority"@,
        prefix_of("dvb:priority"@) == Some("dvb"@),
        local_of("dvb:weight"@) == "weight"@,
        prefix_of("dvb:weight"@) == Some("dvb"@),
        "availabilityTimeComplete"@.len() == 24,
        "availabilityTimeOffset"@.len() == 22,
        "byteRange"@.len() == 9,
        "priority"@.len() == 8,
        "serviceLocation"@.len() == 15,
        "weight"@.len() == 6,
{
    reveal(local_of);
    reveal(prefix_of);
    reveal_with_fuel(first_index, 25);
    reveal_strlit("availabilityTimeComplete");
    reveal_strlit("availabilityTimeOffset");
    reveal_strlit("byteRange");
    reveal_strlit("dvb");
    reveal_strlit("dvb:priority");
    reveal_strlit("dvb:weight");
    reveal_strlit("priority");
    reveal_strlit("serviceLocation");
    reveal_strlit("weight");
    assert("dvb:priority"@.skip(4) =~= "priority"@);
    assert("dvb:priority"@.take(3) =~= "dvb"@);
    assert("dvb:weight"@.skip(4) =~= "weight"@);
    assert("dvb:weight"@.take(3) =~= "dvb"@);
    assert("availabilityTimeComplete"@.len() == 24);
    assert("availabilityTimeOffset"@.len() == 22);
    assert("byteRange"@.len() == 9);
    assert("priority"@.len() == 8);
    assert("serviceLocation"@.len() == 15);
    assert("weight"@.len() == 6);
}

/// What the reader finds under each attribute name that the writer gives
/// a `BaseURL` element.
proof fn lemma_base_url_attrs_found(b: BaseUrl)
    ensures
        lookup_written(base_url_attrs(b), "serviceLocation"@) == opt_view(b.service_location),
        lookup_written(base_url_attrs(b), "availabilityTimeOffset"@) == opt_view(b.availability_time_offset),
        lookup_written(base_url_attrs(b), "availabilityTimeComplete"@) == text_bool(b.availability_time_complete),
        lookup_written(base_url_attrs(b), "byteRange"@) == opt_view(b.byte_range),
        lookup_written(base_url_attrs(b), "priority"@) == text_u32(b.dvb_priority),
        lookup_written(base_url_attrs(b), "weight"@) == text_u32(b.dvb_weight),
{
    reveal(base_url_attrs);
    lemma_names_base_url();
    let p0: Attrs = opt_attr("serviceLocation"@, b.service_location);
    let p1: Attrs = opt_attr("availabilityTimeOffset"@, b.availability_time_offset);
    let p2: Attrs = bool_attr("availabilityTimeComplete"@, b.availability_time_complete);
    let p3: Attrs = opt_attr("byteRange"@, b.byte_range);
    let p4: Attrs = u32_attr("dvb:priority"@, b.dvb_priority);
    let p5: Attrs = u32_attr("dvb:weight"@, b.dvb_weight);
    lemma_lookup_part(p0, "serviceLocation"@, opt_view(b.service_location));
    lemma_lookup_part(p1, "availabilityTimeOffset"@, opt_view(b.availability_time_offset));
    lemma_lookup_part(p2, "availabilityTimeComplete"@, text_bool(b.availability_time_complete));
    lemma_lookup_part(p3, "byteRange"@, opt_view(b.byte_range));
    lemma_lookup_part(p4, "dvb:priority"@, text_u32(b.dvb_priority));
    lemma_lookup_part(p5, "dvb:weight"@, text_u32(b.dvb_weight));
    lemma_lookup_cat(p0, p1);
    let c1 = p0 + p1;
    lemma_lookup_cat(c1, p2);
    let c2 = c1 + p2;
    lemma_lookup_cat(c2, p3);
    let c3 = c2 + p3;
    lemma_lookup_cat(c3, p4);
    let c4 = c3 + p4;
    lemma_lookup_cat(c4, p5);
}

/// Every attribute that the writer gives a `BaseURL` element, the reader reads back
/// as the value it was written from;
/// what the element holds inside is read apart from its attributes.
pub proof fn law_base_url_attributes_read_back(b: BaseUrl)
    ensures
        base_url_start(attrs_as_read(base_url_attrs(b))) == Ok::<BaseUrlV, ErrorKind>(BaseUrlV { url: seq![], ..b@ }),
{
    reveal(base_url_start);
    lemma_base_url_attrs_found(b);
    reveal(lookup_written);
    reveal(lookup_written_xlink);
    lemma_bool_read();
    if let Some(n) = b.dvb_priority {
        lemma_decimal_read(n as nat);
    }
    if let Some(n) = b.dvb_weight {
        lemma_decimal_read(n as nat);
    }
}

/// How the reader names the attributes that the writer gives `patch_location`
/// values, and how those names differ.
proof fn lemma_names_patch_location()
    ensures
        local_of("serviceLocation"@) == "serviceLocation"@,
        local_of("ttl"@) == "ttl"@,
        "serviceLocation"@.len() == 15,
        "ttl"@.len() == 3,
{
    reveal(local_of);
    reveal(prefix_of);
    reveal_with_fuel(first_index, 16);
    reveal_strlit("serviceLocation");
    reveal_strlit("ttl");
    assert("serviceLocation"@.len() == 15);
    assert("ttl"@.len() == 3);
}

/// What the reader finds under each attribute name that the writer gives
/// a `PatchLocation` element.
proof fn lemma_patch_location_attrs_found(p: PatchLocation)
    ensures
        lookup_written(patch_location_attrs(p), "serviceLocation"@) == opt_view(p.service_location),
        lookup_written(patch_location_attrs(p), "ttl"@) == opt_view(p.ttl),
{
    reveal(patch_location_attrs);
    lemma_names_patch_location();
    let p0: Attrs = opt_attr("serviceLocation"@, p.service_location);
    let p1: Attrs = opt_attr("ttl"@, p.ttl);
    lemma_lookup_part(p0, "serviceLocation"@, opt_view(p.service_location));
    lemma_lookup_part(p1, "ttl"@, opt_view(p.ttl));
    lemma_lookup_cat(p0, p1);
}

/// Every attribute that the writer gives a `PatchLocation` element, the reader reads back
/// as the value it was written from;
/// what the element holds inside is read apart from its attributes.
pub proof fn law_patch_location_attributes_read_back(p: PatchLocation)
    ensures
        patch_location_start(attrs_as_read(patch_location_attrs(p))) == Ok::<PatchLocationV, ErrorKind>(PatchLocationV { url: seq![], ..p@ }),
{
    reveal(patch_location_start);
    lemma_patch_location_attrs_found(p);
    reveal(lookup_written);
    reveal(lookup_written_xlink);
}

/// How the reader names the attributes that the writer gives `latency`
/// values, and how those names differ.
proof fn lemma_names_latency()
    ensures
        local_of("target"@) == "target"@,
        local_of("min"@) == "min"@,
        local_of("max"@) == "max"@,
        local_of("referenceId"@) == "referenceId"@,
        "max"@.len() == 3,
        "min"@.len() == 3,
        "referenceId"@.len() == 11,
        "target"@.len() == 6,
        "max"@[1] == 'a',
        "min"@[1] == 'i',
{
    reveal(local_of);
    reveal(prefix_of);
    reveal_with_fuel(first_index, 12);
    reveal_strlit("max");
    reveal_strlit("min");
    reveal_strlit("referenceId");
    reveal_strlit("target");
    assert("max"@.len() == 3);
    assert("min"@.len() == 3);
    assert("referenceId"@.len() == 11);
    assert("target"@.len() == 6);
}

/// What the reader finds under each attribute name that the writer gives
/// a `Latency` element.
proof fn lemma_latency_attrs_found(l: Latency)
    ensures
        lookup_written(latency_attrs(l), "target"@) == text_u32(l.target),
        lookup_written(latency_attrs(l), "min"@) == text_u32(l.min),
        lookup_written(latency_attrs(l), "max"@) == text_u32(l.max),
        lookup_written(latency_attrs(l), "referenceId"@) == text_u32(l.reference_id),
{
    reveal(latency_attrs);
    lemma_names_latency();
    let p0: Attrs = u32_attr("target"@, l.target);
    let p1: Attrs = u32_attr("min"@, l.min);
    let p2: Attrs = u32_attr("max"@, l.max);
    let p3: Attrs = u32_attr("referenceId"@, l.reference_id);
    lemma_lookup_part(p0, "target"@, text_u32(l.target));
    lemma_lookup_part(p1, "min"@, text_u32(l.min));
    lemma_lookup_part(p2, "max"@, text_u32(l.max));
    lemma_lookup_part(p3, "referenceId"@, text_u32(l.reference_id));
    lemma_lookup_cat(p0, p1);
    let c1 = p0 + p1;
    lemma_lookup_cat(c1, p2);
    let c2 = c1 + p2;
    lemma_lookup_cat(c2, p3);
}

/// Every attribute that the writer gives a `Latency` element, the reader reads back
/// as the value it was written from.
pub proof fn law_latency_attributes_read_back(l: Latency)
    ensures
        latency_start(attrs_as_read(latency_attrs(l))) == Ok::<LatencyV, ErrorKind>(l@),
{
    reveal(latency_start);
    lemma_latency_attrs_found(l);
    reveal(lookup_written);
    reveal(lookup_written_xlink);
    if let Some(n) = l.target {
        lemma_decimal_read(n as nat);
    }
    if let Some(n) = l.min {
        lemma_decimal_read(n as nat);
    }
    if let Some(n) = l.max {
        lemma_decimal_read(n as nat);
    }
    if let Some(n) = l.reference_id {
        lemma_decimal_read(n as nat);
    }
}

/// How the reader names the attributes that the writer gives `playback_rate`
/// values, and how those names differ.
proof fn lemma_names_playback_rate()
    ensures
        local_of("min"@) == "min"@,
        local_of("max"@) == "max"@,
        "max"@.len() == 3,
        "min"@.len() == 3,
        "max"@[1] == 'a',
        "min"@[1] == 'i',
{
    reveal(local_of);
    reveal(prefix_of);
    reveal_with_fuel(first_index, 4);
    reveal_strlit("max");
    reveal_strlit("min");
    assert("max"@.len() == 3);
    assert("min"@.len() == 3);
}

/// What the reader finds under each attribute name that the writer gives
/// a `PlaybackRate` element.
proof fn lemma_playback_rate_attrs_found(p: PlaybackRate)
    ensures
        lookup_written(playback_rate_attrs(p), "min"@) == opt_view(p.min),
        lookup_written(playback_rate_attrs(p), "max"@) == opt_view(p.max),
{
    reveal(playback_rate_attrs);
    lemma_names_playback_rate();
    let p0: Attrs = opt_attr("min"@, p.min);
    let p1: Attrs = opt_attr("max"@, p.max);
    lemma_lookup_part(p0, "min"@, opt_view(p.min));
    lemma_lookup_part(p1, "max"@, opt_view(p.max));
    lemma_lookup_cat(p0, p1);
}

/// Every attribute that the writer gives a `PlaybackRate` element, the reader reads back
/// as the value it was written from.
pub proof fn law_playback_rate_attributes_read_back(p: PlaybackRate)
    ensures
        playback_rate_start(attrs_as_read(playback_rate_attrs(p))) == Ok::<PlaybackRateV, ErrorKind>(p@),
{
    reveal(playback_rate_start);
    lemma_playback_rate_attrs_found(p);
    reveal(lookup_written);
    reveal(lookup_written_xlink);
}

/// How the reader names the attributes that the writer gives `operating_quality`
/// values, and how those names differ.
proof fn lemma_names_operating_quality()
    ensures
        local_of("mediaType"@) == "mediaType"@,
        local_of("min"@) == "min"@,
        local_of("max"@) == "max"@,
        local_of("target"@) == "target"@,
        local_of("type"@) == "type"@,
        local_of("maxQualityDifference"@) == "maxQualityDifference"@,
        "max"@.len() == 3,
        "maxQualityDifference"@.len() == 20,
        "mediaType"@.len() == 9,
        "min"@.len() == 3,
        "target"@.len() == 6,
        "type"@.len() == 4,
        "max"@[1] == 'a',
        "min"@[1] == 'i',
{
    reveal(local_of);
    reveal(prefix_of);
    reveal_with_fuel(first_index, 21);
    reveal_strlit("max");
    reveal_strlit("maxQualityDifference");
    reveal_strlit("mediaType");
    reveal_strlit("min");
    reveal_strlit("target");
    reveal_strlit("type");
    assert("max"@.len() == 3);
    assert("maxQualityDifference"@.len() == 20);
    assert("mediaType"@.len() == 9);
    assert("min"@.len() == 3);
    assert("target"@.len() == 6);
    assert("type"@.len() == 4);
}

/// What the reader finds under each attribute name that the writer gives
/// an `OperatingQuality` element.
proof fn lemma_operating_quality_attrs_found(q: OperatingQuality)
    ensures
        lookup_written(operating_quality_attrs(q), "mediaType"@) == opt_view(q.media_type),
        lookup_written(operating_quality_attrs(q), "min"@) == text_u32(q.min),
        lookup_written(operating_quality_attrs(q), "max"@) == text_u32(q.max),
        lookup_written(operating_quality_attrs(q), "target"@) == text_u32(q.target),
        lookup_written(operating_quality_attrs(q), "type"@) == opt_view(q.type_),
        lookup_written(operating_quality_attrs(q), "maxQualityDifference"@) == text_u32(q.max_quality_difference),
{
    reveal(operating_quality_attrs);
    lemma_names_operating_quality();
    let p0: Attrs = opt_attr("mediaType"@, q.media_type);
    let p1: Attrs = u32_attr("min"@, q.min);
    let p2: Attrs = u32_attr("max"@, q.max);
    let p3: Attrs = u32_attr("target"@, q.target);
    let p4: Attrs = opt_attr("type"@, q.type_);
    let p5: Attrs = u32_attr("maxQualityDifference"@, q.max_quality_difference);
    lemma_lookup_part(p0, "mediaType"@, opt_view(q.media_type));
    lemma_lookup_part(p1, "min"@, text_u32(q.min));
    lemma_lookup_part(p2, "max"@, text_u32(q.max));
    lemma_lookup_part(p3, "target"@, text_u32(q.target));
    lemma_lookup_part(p4, "type"@, opt_view(q.type_));
    lemma_lookup_part(p5, "maxQualityDifference"@, text_u32(q.max_quality_difference));
    lemma_lookup_cat(p0, p1);
    let c1 = p0 + p1;
    lemma_lookup_cat(c1, p2);
    let c2 = c1 + p2;
    lemma_lookup_cat(c2, p3);
    let c3 = c2 + p3;
    lemma_lookup_cat(c3, p4);
    let c4 = c3 + p4;
    lemma_lookup_cat(c4, p5);
}

/// Every attribute that the writer gives an `OperatingQuality` element, the reader reads back
/// as the value it was written from.
pub proof fn law_operating_quality_attributes_read_back(q: OperatingQuality)
    ensures
        operating_quality_start(attrs_as_read(operating_quality_attrs(q))) == Ok::<OperatingQualityV, ErrorKind>(q@),
{
    reveal(operating_quality_start);
    lemma_operating_quality_attrs_found(q);
    reveal(lookup_written);
    reveal(lookup_written_xlink);
    if let Some(n) = q.min {
        lemma_decimal_read(n as nat);
    }
    if let Some(n) = q.max {
        lemma_decimal_read(n as nat);
    }
    if let Some(n) = q.target {
        lemma_decimal_read(n as nat);
    }
    if let Some(n) = q.max_quality_difference {
        lemma_decimal_read(n as nat);
    }
}

/// How the reader names the attributes that the writer gives `operating_bandwidth`
/// values, and how those names differ.
proof fn lemma_names_operating_bandwidth()
    ensures
        local_of("mediaType"@) == "mediaType"@,
        local_of("min"@) == "min"@,
        local_of("max"@) == "max"@,
        local_of("target"@) == "target"@,
        "max"@.len() == 3,
        "mediaType"@.len() == 9,
        "min"@.len() == 3,
        "target"@.len() == 6,
        "max"@[1] == 'a',
        "min"@[1] == 'i',
{
    reveal(local_of);
    reveal(prefix_of);
    reveal_with_fuel(first_index, 10);
    reveal_strlit("max");
    reveal_strlit("mediaType");
    reveal_strlit("min");
    reveal_strlit("target");
    assert("max"@.len() == 3);
    assert("mediaType"@.len() == 9);
    assert("min"@.len() == 3);
    assert("target"@.len() == 6);
}

/// What the reader finds under each attribute name that the writer gives
/// an `OperatingBandwidth` element.
proof fn lemma_operating_bandwidth_attrs_found(b: OperatingBandwidth)
    ensures
        lookup_written(operating_bandwidth_attrs(b), "mediaType"@) == opt_view(b.media_type),
        lookup_written(operating_bandwidth_attrs(b), "min"@) == text_u32(b.min),
        lookup_written(operating_bandwidth_attrs(b), "max"@) == text_u32(b.max),
        lookup_written(operating_bandwidth_attrs(b), "target"@) == text_u32(b.target),
{
    reveal(operating_bandwidth_attrs);
    lemma_names_operating_bandwidth();
    let p0: Attrs = opt_attr("mediaType"@, b.media_type);
    let p1: Attrs = u32_attr("min"@, b.min);
    let p2: Attrs = u32_attr("max"@, b.max);
    let p3: Attrs = u32_attr("target"@, b.target);
    lemma_lookup_part(p0, "mediaType"@, opt_view(b.media_type));
    lemma_lookup_part(p1, "min"@, text_u32(b.min));
    lemma_lookup_part(p2, "max"@, text_u32(b.max));
    lemma_lookup_part(p3, "target"@, text_u32(b.target));
    lemma_lookup_cat(p0, p1);
    let c1 = p0 + p1;
    lemma_lookup_cat(c1, p2);
    let c2 = c1 + p2;
    lemma_lookup_cat(c2, p3);
}

/// Every attribute that the writer gives an `OperatingBandwidth` element, the reader reads back
/// as the value it was written from.
pub proof fn law_operating_bandwidth_attributes_read_back(b: OperatingBandwidth)
    ensures
        operating_bandwidth_start(attrs_as_read(operating_bandwidth_attrs(b))) == Ok::<OperatingBandwidthV, ErrorKind>(b@),
{
    reveal(operating_bandwidth_start);
    lemma_operating_bandwidth_attrs_found(b);
    reveal(lookup_written);
    reveal(lookup_written_xlink);
    if let Some(n) = b.min {
        lemma_decimal_read(n as nat);
    }
    if let Some(n) = b.max {
        lemma_decimal_read(n as nat);
    }
    if let Some(n) = b.target {
        lemma_decimal_read(n as nat);
    }
}

/// How the reader names the attributes that the writer gives `cmcd_parameters`
/// values, and how those names differ.
proof fn lemma_names_cmcd_parameters()
    ensures
        local_of("schemeIdUri"@) == "schemeIdUri"@,
        local_of("value"@) == "value"@,
        local_of("id"@) == "id"@,
        local_of("version"@) == "version"@,
        local_of("sessionID"@) == "sessionID"@,
        local_of("contentID"@) == "contentID"@,
        local_of("mode"@) == "mode"@,
        local_of("keys"@) == "keys"@,
        local_of("includeInRequests"@) == "includeInRequests"@,
        "contentID"@.len() == 9,
        "id"@.len() == 2,
        "includeInRequests"@.len() == 17,
        "keys"@.len() == 4,
        "mode"@.len() == 4,
        "schemeIdUri"@.len() == 11,
        "sessionID"@.len() == 9,
        "value"@.len() == 5,
        "version"@.len() == 7,
        "contentID"@[0] == 'c',
        "keys"@[0] == 'k',
        "mode"@[0] == 'm',
        "sessionID"@[0] == 's',
{
    reveal(local_of);
    reveal(prefix_of);
    reveal_with_fuel(first_index, 18);
    reveal_strlit("contentID");
    reveal_strlit("id");
    reveal_strlit("includeInRequests");
    reveal_strlit("keys");
    reveal_strlit("mode");
    reveal_strlit("schemeIdUri");
    reveal_strlit("sessionID");
    reveal_strlit("value");
    reveal_strlit("version");
    assert("contentID"@.len() == 9);
    assert("id"@.len() == 2);
    assert("includeInRequests"@.len() == 17);
    assert("keys"@.len() == 4);
    assert("mode"@.len() == 4);
    assert("schemeIdUri"@.len() == 11);
    assert("sessionID"@.len() == 9);
    assert("value"@.len() == 5);
    assert("version"@.len() == 7);
}

/// What the reader finds under each attribute name that the writer gives
/// a `CMCDParameters` element.
proof fn lemma_cmcd_parameters_attrs_found(c: CmcdParameters)
    ensures
        lookup_written(cmcd_parameters_attrs(c), "schemeIdUri"@) == Some(c.scheme_id_uri@),
        lookup_written(cmcd_parameters_attrs(c), "value"@) == opt_view(c.value),
        lookup_written(cmcd_parameters_attrs(c), "id"@) == opt_view(c.id),
        lookup_written(cmcd_parameters_attrs(c), "version"@) == opt_view(c.version),
        lookup_written(cmcd_parameters_attrs(c), "sessionID"@) == opt_view(c.session_id),
        lookup_written(cmcd_parameters_attrs(c), "contentID"@) == opt_view(c.content_id),
        lookup_written(cmcd_parameters_attrs(c), "mode"@) == opt_view(c.mode),
        lookup_written(cmcd_parameters_attrs(c), "keys"@) == opt_view(c.keys),
        lookup_written(cmcd_parameters_attrs(c), "includeInRequests"@) == opt_view(c.include_in_requests),
{
    reveal(cmcd_parameters_attrs);
    lemma_names_cmcd_parameters();
    let p0: Attrs = seq![("schemeIdUri"@, c.scheme_id_uri@)];
    let p1: Attrs = opt_attr("value"@, c.value);
    let p2: Attrs = opt_attr("id"@, c.id);
    let p3: Attrs = opt_attr("version"@, c.version);
    let p4: Attrs = opt_attr("sessionID"@, c.session_id);
    let p5: Attrs = opt_attr("contentID"@, c.content_id);
    let p6: Attrs = opt_attr("mode"@, c.mode);
    let p7: Attrs = opt_attr("keys"@, c.keys);
    let p8: Attrs = opt_attr("includeInRequests"@, c.include_in_requests);
    lemma_lookup_part(p0, "schemeIdUri"@, Some(c.scheme_id_uri@));
    lemma_lookup_part(p1, "value"@, opt_view(c.value));
    lemma_lookup_part(p2, "id"@, opt_view(c.id));
    lemma_lookup_part(p3, "version"@, opt_view(c.version));
    lemma_lookup_part(p4, "sessionID"@, opt_view(c.session_id));
    lemma_lookup_part(p5, "contentID"@, opt_view(c.content_id));
    lemma_lookup_part(p6, "mode"@, opt_view(c.mode));
    lemma_lookup_part(p7, "keys"@, opt_view(c.keys));
    lemma_lookup_part(p8, "includeInRequests"@, opt_view(c.include_in_requests));
    lemma_lookup_cat(p0, p1);
    let c1 = p0 + p1;
    lemma_lookup_cat(c1, p2);
    let c2 = c1 + p2;
    lemma_lookup_cat(c2, p3);
    let c3 = c2 + p3;
    lemma_lookup_cat(c3, p4);
    let c4 = c3 + p4;
    lemma_lookup_cat(c4, p5);
    let c5 = c4 + p5;
    lemma_lookup_cat(c5, p6);
    let c6 = c5 + p6;
    lemma_lookup_cat(c6, p7);
    let c7 = c6 + p7;
    lemma_lookup_cat(c7, p8);
}

/// Every attribute that the writer gives a `CMCDParameters` element, the reader reads back
/// as the value it was written from.
pub proof fn law_cmcd_parameters_attributes_read_back(c: CmcdParameters)
    ensures
        cmcd_parameters_start(attrs_as_read(cmcd_parameters_attrs(c))) == Ok::<CmcdParametersV, ErrorKind>(c@),
{
    reveal(cmcd_parameters_start);
    lemma_cmcd_parameters_attrs_found(c);
    reveal(lookup_written);
    reveal(lookup_written_xlink);
}

/// How the reader names the attributes that the writer gives `client_data_reporting`
/// values, and how those names differ.
proof fn lemma_names_client_data_reporting()
    ensures
        local_of("serviceLocations"@) == "serviceLocations"@,
        local_of("adaptationSets"@) == "adaptationSets"@,
        "adaptationSets"@.len() == 14,
        "serviceLocations"@.len() == 16,
{
    reveal(local_of);
    reveal(prefix_of);
    reveal_with_fuel(first_index, 17);
    reveal_strlit("adaptationSets");
    reveal_strlit("serviceLocations");
    assert("adaptationSets"@.len() == 14);
    assert("serviceLocations"@.len() == 16);
}

/// What the reader finds under each attribute name that the writer gives
/// a `ClientDataReporting` element.
proof fn lemma_client_data_reporting_attrs_found(c: ClientDataReporting)
    ensures
        lookup_written(client_data_reporting_attrs(c), "serviceLocations"@) == opt_view(c.service_locations),
        lookup_written(client_data_reporting_attrs(c), "adaptationSets"@) == opt_view(c.adaptation_sets),
{
    reveal(client_data_reporting_attrs);
    lemma_names_client_data_reporting();
    let p0: Attrs = opt_attr("serviceLocations"@, c.service_locations);
    let p1: Attrs = opt_attr("adaptationSets"@, c.adaptation_sets);
    lemma_lookup_part(p0, "serviceLocations"@, opt_view(c.service_locations));
    lemma_lookup_part(p1, "adaptationSets"@, opt_view(c.adaptation_sets));
    lemma_lookup_cat(p0, p1);
}

/// Every attribute that the writer gives a `ClientDataReporting` element, the reader reads back
/// as the value it was written from;
/// what the element holds inside is read apart from its attributes.
pub proof fn law_client_data_reporting_attributes_read_back(c: ClientDataReporting)
    ensures
        client_data_reporting_start(attrs_as_read(client_data_reporting_attrs(c))) == Ok::<ClientDataReportingV,
            ErrorKind>(ClientDataReportingV { cmcd_parameters: None,
            ..c@ }),
{
    reveal(client_data_reporting_start);
    lemma_client_data_reporting_attrs_found(c);
    reveal(lookup_written);
    reveal(lookup_written_xlink);
}

/// How the reader names the attributes that the writer gives `service_description`
/// values, and how those names differ.
proof fn lemma_names_service_description()
    ensures
        local_of("id"@) == "id"@,
        "id"@.len() == 2,
{
    reveal(local_of);
    reveal(prefix_of);
    reveal_with_fuel(first_index, 3);
    reveal_strlit("id");
    assert("id"@.len() == 2);
}

/// What the reader finds under each attribute name that the writer gives
/// a `ServiceDescription` element.
proof fn lemma_service_description_attrs_found(s: ServiceDescription)
    ensures
        lookup_written(service_description_attrs(s), "id"@) == text_u32(s.id),
{
    reveal(service_description_attrs);
    lemma_names_service_description();
    let p0: Attrs = u32_attr("id"@, s.id);
    lemma_lookup_part(p0, "id"@, text_u32(s.id));
}

/// Every attribute that the writer gives a `ServiceDescription` element, the reader reads back
/// as the value it was written from;
/// what the element holds inside is read apart from its attributes.
pub proof fn law_service_description_attributes_read_back(s: ServiceDescription)
    ensures
        service_description_start(attrs_as_read(service_description_attrs(s))) == Ok::<ServiceDescriptionV,
            ErrorKind>(ServiceDescriptionV { scope: None,
            latency: None,
            playback_rate: None,
            operating_quality: None,
            operating_bandwidth: None,
            client_data_reporting: None,
            ..s@ }),
{
    reveal(service_description_start);
    lemma_service_description_attrs_found(s);
    reveal(lookup_written);
    reveal(lookup_written_xlink);
    if let Some(n) = s.id {
        lemma_decimal_read(n as nat);
    }
}

/// How the reader names the attributes that the writer gives `content_steering`
/// values, and how those names differ.
proof fn lemma_names_content_steering()
    ensures
        local_of("defaultServiceLocation"@) == "defaultServiceLocation"@,
        local_of("queryBeforeStart"@) == "queryBeforeStart"@,
        local_of("clientRequirement"@) == "clientRequirement"@,
        "clientRequirement"@.len() == 17,
        "defaultServiceLocation"@.len() == 22,
        "queryBeforeStart"@.len() == 16,
{
    reveal(local_of);
    reveal(prefix_of);
    reveal_with_fuel(first_index, 23);
    reveal_strlit("clientRequirement");
    reveal_strlit("defaultServiceLocation");
    reveal_strlit("queryBeforeStart");
    assert("clientRequirement"@.len() == 17);
    assert("defaultServiceLocation"@.len() == 22);
    assert("queryBeforeStart"@.len() == 16);
}

/// What the reader finds under each attribute name that the writer gives
/// a `ContentSteering` element.
proof fn lemma_content_steering_attrs_found(c: ContentSteering)
    ensures
        lookup_written(content_steering_attrs(c), "defaultServiceLocation"@) == opt_view(c.default_service_location),
        lookup_written(content_steering_attrs(c), "queryBeforeStart"@) == text_bool(c.query_before_start),
        lookup_written(content_steering_attrs(c), "clientRequirement"@) == text_bool(c.client_requirement),
{
    reveal(content_steering_attrs);
    lemma_names_content_steering();
    let p0: Attrs = opt_attr("defaultServiceLocation"@, c.default_service_location);
    let p1: Attrs = bool_attr("queryBeforeStart"@, c.query_before_start);
    let p2: Attrs = bool_attr("clientRequirement"@, c.client_requirement);
    lemma_lookup_part(p0, "defaultServiceLocation"@, opt_view(c.default_service_location));
    lemma_lookup_part(p1, "queryBeforeStart"@, text_bool(c.query_before_start));
    lemma_lookup_part(p2, "clientRequirement"@, text_bool(c.client_requirement));
    lemma_lookup_cat(p0, p1);
    let c1 = p0 + p1;
    lemma_lookup_cat(c1, p2);
}

/// Every attribute that the writer gives a `ContentSteering` element, the reader reads back
/// as the value it was written from;
/// what the element holds inside is read apart from its attributes.
pub proof fn law_content_steering_attributes_read_back(c: ContentSteering)
    ensures
        content_steering_start(attrs_as_read(content_steering_attrs(c))) == Ok::<ContentSteeringV, ErrorKind>(ContentSteeringV { server_url: seq![], ..c@ }),
{
    reveal(content_steering_start);
    lemma_content_steering_attrs_found(c);
    reveal(lookup_written);
    reveal(lookup_written_xlink);
    lemma_bool_read();
}

/// How the reader names the attributes that the writer gives `metrics_range`
/// values, and how those names differ.
proof fn lemma_names_metrics_range()
    ensures
        local_of("starttime"@) == "starttime"@,
        local_of("duration"@) == "duration"@,
        "duration"@.len() == 8,
        "starttime"@.len() == 9,
{
    reveal(local_of);
    reveal(prefix_of);
    reveal_with_fuel(first_index, 10);
    reveal_strlit("duration");
    reveal_strlit("starttime");
    assert("duration"@.len() == 8);
    assert("starttime"@.len() == 9);
}

/// What the reader finds under each attribute name that the writer gives
/// a `Range` element.
proof fn lemma_metrics_range_attrs_found(r: MetricsRange)
    ensures
        lookup_written(metrics_range_attrs(r), "starttime"@) == opt_view(r.starttime),
        lookup_written(metrics_range_attrs(r), "duration"@) == opt_view(r.duration),
{
    reveal(metrics_range_attrs);
    lemma_names_metrics_range();
    let p0: Attrs = opt_attr("starttime"@, r.starttime);
    let p1: Attrs = opt_attr("duration"@, r.duration);
    lemma_lookup_part(p0, "starttime"@, opt_view(r.starttime));
    lemma_lookup_part(p1, "duration"@, opt_view(r.duration));
    lemma_lookup_cat(p0, p1);
}

/// Every attribute that the writer gives a `Range` element, the reader reads back
/// as the value it was written from,
/// each duration among them being one that the reader accepts.
pub proof fn law_metrics_range_attributes_read_back(r: MetricsRange)
    requires
        r.starttime matches Some(s) ==> duration_ok(s@),
        r.duration matches Some(s) ==> duration_ok(s@),
    ensures
        metrics_range_start(attrs_as_read(metrics_range_attrs(r))) == Ok::<MetricsRangeV, ErrorKind>(r@),
{
    reveal(metrics_range_start);
    lemma_metrics_range_attrs_found(r);
    reveal(lookup_written);
    reveal(lookup_written_xlink);
}

/// How the reader names the attributes that the writer gives `metrics`
/// values, and how those names differ.
proof fn lemma_names_metrics()
    ensures
        local_of("metrics"@) == "metrics"@,
        "metrics"@.len() == 7,
{
    reveal(local_of);
    reveal(prefix_of);
    reveal_with_fuel(first_index, 8);
    reveal_strlit("metrics");
    assert("metrics"@.len() == 7);
}

/// What the reader finds under each attribute name that the writer gives
/// a `Metrics` element.
proof fn lemma_metrics_attrs_found(m: Metrics)
    ensures
        lookup_written(metrics_attrs(m), "metrics"@) == Some(m.metrics@),
{
    reveal(metrics_attrs);
    lemma_names_metrics();
    let p0: Attrs = seq![("metrics"@, m.metrics@)];
    lemma_lookup_part(p0, "metrics"@, Some(m.metrics@));
}

/// Every attribute that the writer gives a `Metrics` element, the reader reads back
/// as the value it was written from;
/// what the element holds inside is read apart from its attributes.
pub proof fn law_metrics_attributes_read_back(m: Metrics)
    ensures
        metrics_start(attrs_as_read(metrics_attrs(m))) == Ok::<MetricsV, ErrorKind>(MetricsV { reportings: seq![], ranges: seq![], ..m@ }),
{
    reveal(metrics_start);
    lemma_metrics_attrs_found(m);
    reveal(lookup_written);
    reveal(lookup_written_xlink);
}

/// How the reader names the attributes that the writer gives `event`
/// values, and how those names differ.
proof fn lemma_names_event()
    ensures
        local_of("presentationTime"@) == "presentationTime"@,
        local_of("duration"@) == "duration"@,
        local_of("id"@) == "id"@,
        local_of("messageData"@) == "messageData"@,
        "duration"@.len() == 8,
        "id"@.len() == 2,
        "messageData"@.len() == 11,
        "presentationTime"@.len() == 16,
{
    reveal(local_of);
    reveal(prefix_of);
    reveal_with_fuel(first_index, 17);
    reveal_strlit("duration");
    reveal_strlit("id");
    reveal_strlit("messageData");
    reveal_strlit("presentationTime");
    assert("duration"@.len() == 8);
    assert("id"@.len() == 2);
    assert("messageData"@.len() == 11);
    assert("presentationTime"@.len() == 16);
}

/// What the reader finds under each attribute name that the writer gives
/// an `Event` element.
proof fn lemma_event_attrs_found(e: Event)
    ensures
        lookup_written(event_attrs(e), "presentationTime"@) == Some(decimal(e.presentation_time as nat)),
        lookup_written(event_attrs(e), "duration"@) == text_u64(e.duration),
        lookup_written(event_attrs(e), "id"@) == opt_view(e.id),
        lookup_written(event_attrs(e), "messageData"@) == opt_view(e.message_data),
{
    reveal(event_attrs);
    lemma_names_event();
    let p0: Attrs = seq![("presentationTime"@, decimal(e.presentation_time as nat))];
    let p1: Attrs = u64_attr("duration"@, e.duration);
    let p2: Attrs = opt_attr("id"@, e.id);
    let p3: Attrs = opt_attr("messageData"@, e.message_data);
    lemma_lookup_part(p0, "presentationTime"@, Some(decimal(e.presentation_time as nat)));
    lemma_lookup_part(p1, "duration"@, text_u64(e.duration));
    lemma_lookup_part(p2, "id"@, opt_view(e.id));
    lemma_lookup_part(p3, "messageData"@, opt_view(e.message_data));
    lemma_lookup_cat(p0, p1);
    let c1 = p0 + p1;
    lemma_lookup_cat(c1, p2);
    let c2 = c1 + p2;
    lemma_lookup_cat(c2, p3);
}

/// Every attribute that the writer gives an `Event` element, the reader reads back
/// as the value it was written from;
/// what the element holds inside is read apart from its attributes.
pub proof fn law_event_attributes_read_back(e: Event)
    ensures
        event_start(attrs_as_read(event_attrs(e))) == Ok::<EventV, ErrorKind>(EventV { content: None, signal_binary: None, ..e@ }),
{
    reveal(event_start);
    lemma_event_attrs_found(e);
    reveal(lookup_written);
    reveal(lookup_written_xlink);
    lemma_decimal_read(e.presentation_time as nat);
    if let Some(n) = e.duration {
        lemma_decimal_read(n as nat);
    }
}

/// How the reader names the attributes that the writer gives `event_stream`
/// values, and how those names differ.
proof fn lemma_names_event_stream()
    ensures
        local_of("schemeIdUri"@) == "schemeIdUri"@,
        local_of("value"@) == "value"@,
        local_of("timescale"@) == "timescale"@,
        local_of("presentationTimeOffset"@) == "presentationTimeOffset"@,
        "presentationTimeOffset"@.len() == 22,
        "schemeIdUri"@.len() == 11,
        "timescale"@.len() == 9,
        "value"@.len() == 5,
{
    reveal(local_of);
    reveal(prefix_of);
    reveal_with_fuel(first_index, 23);
    reveal_strlit("presentationTimeOffset");
    reveal_strlit("schemeIdUri");
    reveal_strlit("timescale");
    reveal_strlit("value");
    assert("presentationTimeOffset"@.len() == 22);
    assert("schemeIdUri"@.len() == 11);
    assert("timescale"@.len() == 9);
    assert("value"@.len() == 5);
}

/// What the reader finds under each attribute name that the writer gives
/// an `EventStream` element.
proof fn lemma_event_stream_attrs_found(s: EventStream)
    ensures
        lookup_written(event_stream_attrs(s), "schemeIdUri"@) == Some(s.scheme_id_uri@),
        lookup_written(event_stream_attrs(s), "value"@) == opt_view(s.value),
        lookup_written(event_stream_attrs(s), "timescale"@) == Some(decimal(s.timescale as nat)),
        lookup_written(event_stream_attrs(s), "presentationTimeOffset"@) == text_nonzero(s.presentation_time_offset),
{
    reveal(event_stream_attrs);
    lemma_names_event_stream();
    let p0: Attrs = seq![("schemeIdUri"@, s.scheme_id_uri@)];
    let p1: Attrs = opt_attr("value"@, s.value);
    let p2: Attrs = seq![("timescale"@, decimal(s.timescale as nat))];
    let p3: Attrs = nonzero_attr("presentationTimeOffset"@, s.presentation_time_offset);
    lemma_lookup_part(p0, "schemeIdUri"@, Some(s.scheme_id_uri@));
    lemma_lookup_part(p1, "value"@, opt_view(s.value));
    lemma_lookup_part(p2, "timescale"@, Some(decimal(s.timescale as nat)));
    lemma_lookup_part(p3, "presentationTimeOffset"@, text_nonzero(s.presentation_time_offset));
    lemma_lookup_cat(p0, p1);
    let c1 = p0 + p1;
    lemma_lookup_cat(c1, p2);
    let c2 = c1 + p2;
    lemma_lookup_cat(c2, p3);
}

/// Every attribute that the writer gives an `EventStream` element, the reader reads back
/// as the value it was written from;
/// what the element holds inside is read apart from its attributes.
pub proof fn law_event_stream_attributes_read_back(s: EventStream)
    ensures
        event_stream_start(attrs_as_read(event_stream_attrs(s))) == Ok::<EventStreamV, ErrorKind>(EventStreamV { events: seq![], ..s@ }),
{
    reveal(event_stream_start);
    lemma_event_stream_attrs_found(s);
    reveal(lookup_written);
    reveal(lookup_written_xlink);
    lemma_decimal_read(s.timescale as nat);
    lemma_decimal_read(s.presentation_time_offset as nat);
}

/// How the reader names the attributes that the writer gives `producer_reference_time`
/// values, and how those names differ.
proof fn lemma_names_producer_reference_time()
    ensures
        local_of("id"@) == "id"@,
        local_of("wallClockTime"@) == "wallClockTime"@,
        local_of("presentationTime"@) == "presentationTime"@,
        local_of("inband"@) == "inband"@,
        local_of("type"@) == "type"@,
        local_of("applicationScheme"@) == "applicationScheme"@,
        "applicationScheme"@.len() == 17,
        "id"@.len() == 2,
        "inband"@.len() == 6,
        "presentationTime"@.len() == 16,
        "type"@.len() == 4,
        "wallClockTime"@.len() == 13,
{
    reveal(local_of);
    reveal(prefix_of);
    reveal_with_fuel(first_index, 18);
    reveal_strlit("applicationScheme");
    reveal_strlit("id");
    reveal_strlit("inband");
    reveal_strlit("presentationTime");
    reveal_strlit("type");
    reveal_strlit("wallClockTime");
    assert("applicationScheme"@.len() == 17);
    assert("id"@.len() == 2);
    assert("inband"@.len() == 6);
    assert("presentationTime"@.len() == 16);
    assert("type"@.len() == 4);
    assert("wallClockTime"@.len() == 13);
}

/// What the reader finds under each attribute name that the writer gives
/// a `ProducerReferenceTime` element.
proof fn lemma_producer_reference_time_attrs_found(p: ProducerReferenceTime)
    ensures
        lookup_written(producer_reference_time_attrs(p), "id"@) == Some(decimal(p.id as nat)),
        lookup_written(producer_reference_time_attrs(p), "wallClockTime"@) == Some(p.wall_clock_time@),
        lookup_written(producer_reference_time_attrs(p), "presentationTime"@) == Some(decimal(p.presentation_time as nat)),
        lookup_written(producer_reference_time_attrs(p), "inband"@) == text_bool(p.inband),
        lookup_written(producer_reference_time_attrs(p), "type"@) == opt_view(p.type_),
        lookup_written(producer_reference_time_attrs(p), "applicationScheme"@) == opt_view(p.application_scheme),
{
    reveal(producer_reference_time_attrs);
    lemma_names_producer_reference_time();
    let p0: Attrs = seq![("id"@, decimal(p.id as nat))];
    let p1: Attrs = seq![("wallClockTime"@, p.wall_clock_time@)];
    let p2: Attrs = seq![("presentationTime"@, decimal(p.presentation_time as nat))];
    let p3: Attrs = bool_attr("inband"@, p.inband);
    let p4: Attrs = opt_attr("type"@, p.type_);
    let p5: Attrs = opt_attr("applicationScheme"@, p.application_scheme);
    lemma_lookup_part(p0, "id"@, Some(decimal(p.id as nat)));
    lemma_lookup_part(p1, "wallClockTime"@, Some(p.wall_clock_time@));
    lemma_lookup_part(p2, "presentationTime"@, Some(decimal(p.presentation_time as nat)));
    lemma_lookup_part(p3, "inband"@, text_bool(p.inband));
    lemma_lookup_part(p4, "type"@, opt_view(p.type_));
    lemma_lookup_part(p5, "applicationScheme"@, opt_view(p.application_scheme));
    lemma_lookup_cat(p0, p1);
    let c1 = p0 + p1;
    lemma_lookup_cat(c1, p2);
    let c2 = c1 + p2;
    lemma_lookup_cat(c2, p3);
    let c3 = c2 + p3;
    lemma_lookup_cat(c3, p4);
    let c4 = c3 + p4;
    lemma_lookup_cat(c4, p5);
}

/// Every attribute that the writer gives a `ProducerReferenceTime` element, the reader reads back
/// as the value it was written from;
/// what the element holds inside is read apart from its attributes.
pub proof fn law_producer_reference_time_attributes_read_back(p: ProducerReferenceTime)
    ensures
        producer_reference_time_start(attrs_as_read(producer_reference_time_attrs(p))) == Ok::<ProducerReferenceTimeV,
            ErrorKind>(ProducerReferenceTimeV { utc_timing: None,
            ..p@ }),
{
    reveal(producer_reference_time_start);
    lemma_producer_reference_time_attrs_found(p);
    reveal(lookup_written);
    reveal(lookup_written_xlink);
    lemma_decimal_read(p.id as nat);
    lemma_decimal_read(p.presentation_time as nat);
    lemma_bool_read();
}

/// How the reader names the attributes that the writer gives `content_component`
/// values, and how those names differ.
proof fn lemma_names_content_component()
    ensures
        local_of("id"@) == "id"@,
        local_of("contentType"@) == "contentType"@,
        local_of("lang"@) == "lang"@,
        "contentType"@.len() == 11,
        "id"@.len() == 2,
        "lang"@.len() == 4,
{
    reveal(local_of);
    reveal(prefix_of);
    reveal_with_fuel(first_index, 12);
    reveal_strlit("contentType");
    reveal_strlit("id");
    reveal_strlit("lang");
    assert("contentType"@.len() == 11);
    assert("id"@.len() == 2);
    assert("lang"@.len() == 4);
}

/// What the reader finds under each attribute name that the writer gives
/// a `ContentComponent` element.
proof fn lemma_content_component_attrs_found(c: ContentComponent)
    ensures
        lookup_written(content_component_attrs(c), "id"@) == opt_view(c.id),
        lookup_written(content_component_attrs(c), "contentType"@) == opt_view(c.content_type),
        lookup_written(content_component_attrs(c), "lang"@) == opt_view(c.lang),
{
    reveal(content_component_attrs);
    lemma_names_content_component();
    let p0: Attrs = opt_attr("id"@, c.id);
    let p1: Attrs = opt_attr("contentType"@, c.content_type);
    let p2: Attrs = opt_attr("lang"@, c.lang);
    lemma_lookup_part(p0, "id"@, opt_view(c.id));
    lemma_lookup_part(p1, "contentType"@, opt_view(c.content_type));
    lemma_lookup_part(p2, "lang"@, opt_view(c.lang));
    lemma_lookup_cat(p0, p1);
    let c1 = p0 + p1;
    lemma_lookup_cat(c1, p2);
}

/// Every attribute that the writer gives a `ContentComponent` element, the reader reads back
/// as the value it was written from;
/// what the element holds inside is read apart from its attributes.
pub proof fn law_content_component_attributes_read_back(c: ContentComponent)
    ensures
        content_component_start(attrs_as_read(content_component_attrs(c))) == Ok::<ContentComponentV,
            ErrorKind>(ContentComponentV { accessibilities: seq![],
            roles: seq![],
            ..c@ }),
{
    reveal(content_component_start);
    lemma_content_component_attrs_found(c);
    reveal(lookup_written);
    reveal(lookup_written_xlink);
}

/// How the reader names the attributes that the writer gives `segment_sequence_properties`
/// values, and how those names differ.
proof fn lemma_names_segment_sequence_properties()
    ensures
        local_of("cadence"@) == "cadence"@,
        local_of("sapType"@) == "sapType"@,
        local_of("event"@) == "event"@,
        local_of("alignment"@) == "alignment"@,
        "alignment"@.len() == 9,
        "cadence"@.len() == 7,
        "event"@.len() == 5,
        "sapType"@.len() == 7,
        "cadence"@[0] == 'c',
        "sapType"@[0] == 's',
{
    reveal(local_of);
    reveal(prefix_of);
    reveal_with_fuel(first_index, 10);
    reveal_strlit("alignment");
    reveal_strlit("cadence");
    reveal_strlit("event");
    reveal_strlit("sapType");
    assert("alignment"@.len() == 9);
    assert("cadence"@.len() == 7);
    assert("event"@.len() == 5);
    assert("sapType"@.len() == 7);
}

/// What the reader finds under each attribute name that the writer gives
/// a `SegmentSequenceProperties` element.
proof fn lemma_segment_sequence_properties_attrs_found(s: SegmentSequenceProperties)
    ensures
        lookup_written(segment_sequence_properties_attrs(s), "cadence"@) == text_u32(s.cadence),
        lookup_written(segment_sequence_properties_attrs(s), "sapType"@) == text_u32(s.sap_type),
        lookup_written(segment_sequence_properties_attrs(s), "event"@) == text_bool(s.event),
        lookup_written(segment_sequence_properties_attrs(s), "alignment"@) == opt_view(s.alignment),
{
    reveal(segment_sequence_properties_attrs);
    lemma_names_segment_sequence_properties();
    let p0: Attrs = u32_attr("cadence"@, s.cadence);
    let p1: Attrs = u32_attr("sapType"@, s.sap_type);
    let p2: Attrs = bool_attr("event"@, s.event);
    let p3: Attrs = opt_attr("alignment"@, s.alignment);
    lemma_lookup_part(p0, "cadence"@, text_u32(s.cadence));
    lemma_lookup_part(p1, "sapType"@, text_u32(s.sap_type));
    lemma_lookup_part(p2, "event"@, text_bool(s.event));
    lemma_lookup_part(p3, "alignment"@, opt_view(s.alignment));
    lemma_lookup_cat(p0, p1);
    let c1 = p0 + p1;
    lemma_lookup_cat(c1, p2);
    let c2 = c1 + p2;
    lemma_lookup_cat(c2, p3);
}

/// Every attribute that the writer gives a `SegmentSequenceProperties` element, the reader reads back
/// as the value it was written from.
pub proof fn law_segment_sequence_properties_attributes_read_back(s: SegmentSequenceProperties)
    ensures
        segment_sequence_properties_start(attrs_as_read(segment_sequence_properties_attrs(s))) == Ok::<SegmentSequencePropertiesV, ErrorKind>(s@),
{
    reveal(segment_sequence_properties_start);
    lemma_segment_sequence_properties_attrs_found(s);
    reveal(lookup_written);
    reveal(lookup_written_xlink);
    if let Some(n) = s.cadence {
        lemma_decimal_read(n as nat);
    }
    if let Some(n) = s.sap_type {
        lemma_decimal_read(n as nat);
    }
    lemma_bool_read();
}

/// How the reader names the attributes that the writer gives `cert_url`
/// values, and how those names differ.
proof fn lemma_names_cert_url()
    ensures
        local_of("certType"@) == "certType"@,
        "certType"@.len() == 8,
{
    reveal(local_of);
    reveal(prefix_of);
    reveal_with_fuel(first_index, 9);
    reveal_strlit("certType");
    assert("certType"@.len() == 8);
}

/// What the reader finds under each attribute name that the writer gives
/// a `Certurl` element.
proof fn lemma_cert_url_attrs_found(c: CertUrl)
    ensures
        lookup_written(cert_url_attrs(c), "certType"@) == opt_view(c.cert_type),
{
    reveal(cert_url_attrs);
    lemma_names_cert_url();
    let p0: Attrs = opt_attr("certType"@, c.cert_type);
    lemma_lookup_part(p0, "certType"@, opt_view(c.cert_type));
}

/// Every attribute that the writer gives a `Certurl` element, the reader reads back
/// as the value it was written from.
pub proof fn law_cert_url_attributes_read_back(c: CertUrl)
    ensures
        first_attr(attrs_as_read(cert_url_attrs(c)), "certType"@) == opt_view(c.cert_type),
{
    lemma_cert_url_attrs_found(c);
    reveal(lookup_written);
    reveal(lookup_written_xlink);
}

/// How the reader names the attributes that the writer gives `content_protection`
/// values, and how those names differ.
proof fn lemma_names_content_protection()
    ensures
        local_of("schemeIdUri"@) == "schemeIdUri"@,
        local_of("value"@) == "value"@,
        local_of("cenc:default_KID"@) == "default_KID"@,
        prefix_of("cenc:default_KID"@) == Some("cenc"@),
        local_of("robustness"@) == "robustness"@,
        local_of("ref"@) == "ref"@,
        local_of("refId"@) == "refId"@,
        "default_KID"@.len() == 11,
        "ref"@.len() == 3,
        "refId"@.len() == 5,
        "robustness"@.len() == 10,
        "schemeIdUri"@.len() == 11,
        "value"@.len() == 5,
        "default_KID"@[0] == 'd',
        "refId"@[0] == 'r',
        "schemeIdUri"@[0] == 's',
        "value"@[0] == 'v',
{
    reveal(local_of);
    reveal(prefix_of);
    reveal_with_fuel(first_index, 12);
    reveal_strlit("cenc");
    reveal_strlit("cenc:default_KID");
    reveal_strlit("default_KID");
    reveal_strlit("ref");
    reveal_strlit("refId");
    reveal_strlit("robustness");
    reveal_strlit("schemeIdUri");
    reveal_strlit("value");
    assert("cenc:default_KID"@.skip(5) =~= "default_KID"@);
    assert("cenc:default_KID"@.take(4) =~= "cenc"@);
    assert("default_KID"@.len() == 11);
    assert("ref"@.len() == 3);
    assert("refId"@.len() == 5);
    assert("robustness"@.len() == 10);
    assert("schemeIdUri"@.len() == 11);
    assert("value"@.len() == 5);
}

/// What the reader finds under each attribute name that the writer gives
/// a `ContentProtection` element.
proof fn lemma_content_protection_attrs_found(c: ContentProtection)
    ensures
        lookup_written(content_protection_attrs(c), "schemeIdUri"@) == Some(c.scheme_id_uri@),
        lookup_written(content_protection_attrs(c), "value"@) == opt_view(c.value),
        lookup_written(content_protection_attrs(c), "default_KID"@) == opt_view(c.default_kid),
        lookup_written(content_protection_attrs(c), "robustness"@) == opt_view(c.robustness),
        lookup_written(content_protection_attrs(c), "ref"@) == opt_view(c.ref_),
        lookup_written(content_protection_attrs(c), "refId"@) == opt_view(c.ref_id),
{
    reveal(content_protection_attrs);
    lemma_names_content_protection();
    let p0: Attrs = seq![("schemeIdUri"@, c.scheme_id_uri@)];
    let p1: Attrs = opt_attr("value"@, c.value);
    let p2: Attrs = opt_attr("cenc:default_KID"@, c.default_kid);
    let p3: Attrs = opt_attr("robustness"@, c.robustness);
    let p4: Attrs = opt_attr("ref"@, c.ref_);
    let p5: Attrs = opt_attr("refId"@, c.ref_id);
    lemma_lookup_part(p0, "schemeIdUri"@, Some(c.scheme_id_uri@));
    lemma_lookup_part(p1, "value"@, opt_view(c.value));
    lemma_lookup_part(p2, "cenc:default_KID"@, opt_view(c.default_kid));
    lemma_lookup_part(p3, "robustness"@, opt_view(c.robustness));
    lemma_lookup_part(p4, "ref"@, opt_view(c.ref_));
    lemma_lookup_part(p5, "refId"@, opt_view(c.ref_id));
    lemma_lookup_cat(p0, p1);
    let c1 = p0 + p1;
    lemma_lookup_cat(c1, p2);
    let c2 = c1 + p2;
    lemma_lookup_cat(c2, p3);
    let c3 = c2 + p3;
    lemma_lookup_cat(c3, p4);
    let c4 = c3 + p4;
    lemma_lookup_cat(c4, p5);
}

/// Every attribute that the writer gives a `ContentProtection` element, the reader reads back
/// as the value it was written from;
/// what the element holds inside is read apart from its attributes.
pub proof fn law_content_protection_attributes_read_back(c: ContentProtection)
    ensures
        content_protection_start(attrs_as_read(content_protection_attrs(c))) == Ok::<ContentProtectionV,
            ErrorKind>(ContentProtectionV { pssh: None,
            laurl: None,
            pro: None,
            certurls: seq![],
            ..c@ }),
{
    reveal(content_protection_start);
    lemma_content_protection_attrs_found(c);
    reveal(lookup_written);
    reveal(lookup_written_xlink);
}

/// How the reader names the attributes that the writer gives `timeline_entry`
/// values, and how those names differ.
proof fn lemma_names_timeline_entry()
    ensures
        local_of("d"@) == "d"@,
        local_of("t"@) == "t"@,
        local_of("r"@) == "r"@,
        local_of("k"@) == "k"@,
        "d"@.len() == 1,
        "k"@.len() == 1,
        "r"@.len() == 1,
        "t"@.len() == 1,
        "d"@[0] == 'd',
        "k"@[0] == 'k',
        "r"@[0] == 'r',
        "t"@[0] == 't',
{
    reveal(local_of);
    reveal(prefix_of);
    reveal_with_fuel(first_index, 2);
    reveal_strlit("d");
    reveal_strlit("k");
    reveal_strlit("r");
    reveal_strlit("t");
    assert("d"@.len() == 1);
    assert("k"@.len() == 1);
    assert("r"@.len() == 1);
    assert("t"@.len() == 1);
}

/// What the reader finds under each attribute name that the writer gives
/// an `S` element of a segment timeline.
proof fn lemma_timeline_entry_attrs_found(e: TimelineEntry)
    ensures
        lookup_written(timeline_entry_attrs(e), "d"@) == Some(decimal(e.d as nat)),
        lookup_written(timeline_entry_attrs(e), "t"@) == text_u64(e.t),
        lookup_written(timeline_entry_attrs(e), "r"@) == text_nonzero_signed(e.r),
        lookup_written(timeline_entry_attrs(e), "k"@) == text_u64(e.k),
{
    reveal(timeline_entry_attrs);
    lemma_names_timeline_entry();
    let p0: Attrs = seq![("d"@, decimal(e.d as nat))];
    let p1: Attrs = u64_attr("t"@, e.t);
    let p2: Attrs = nonzero_signed_attr("r"@, e.r);
    let p3: Attrs = u64_attr("k"@, e.k);
    lemma_lookup_part(p0, "d"@, Some(decimal(e.d as nat)));
    lemma_lookup_part(p1, "t"@, text_u64(e.t));
    lemma_lookup_part(p2, "r"@, text_nonzero_signed(e.r));
    lemma_lookup_part(p3, "k"@, text_u64(e.k));
    lemma_lookup_cat(p0, p1);
    let c1 = p0 + p1;
    lemma_lookup_cat(c1, p2);
    let c2 = c1 + p2;
    lemma_lookup_cat(c2, p3);
}

/// Every attribute that the writer gives an `S` element of a segment timeline, the reader reads back
/// as the value it was written from.
pub proof fn law_timeline_entry_attributes_read_back(e: TimelineEntry)
    ensures
        timeline_entry_of(attrs_as_read(timeline_entry_attrs(e))) == e,
{
    lemma_timeline_entry_attrs_found(e);
    reveal(lookup_written);
    reveal(lookup_written_xlink);
    lemma_decimal_read(e.d as nat);
    if let Some(n) = e.t {
        lemma_decimal_read(n as nat);
    }
    lemma_signed_decimal_read(e.r);
    if let Some(n) = e.k {
        lemma_decimal_read(n as nat);
    }
}

/// How the reader names the attributes that the writer gives `segment_url`
/// values, and how those names differ.
proof fn lemma_names_segment_url()
    ensures
        local_of("media"@) == "media"@,
        local_of("mediaRange"@) == "mediaRange"@,
        local_of("indexRange"@) == "indexRange"@,
        "indexRange"@.len() == 10,
        "media"@.len() == 5,
        "mediaRange"@.len() == 10,
        "indexRange"@[0] == 'i',
        "mediaRange"@[0] == 'm',
{
    reveal(local_of);
    reveal(prefix_of);
    reveal_with_fuel(first_index, 11);
    reveal_strlit("indexRange");
    reveal_strlit("media");
    reveal_strlit("mediaRange");
    assert("indexRange"@.len() == 10);
    assert("media"@.len() == 5);
    assert("mediaRange"@.len() == 10);
}

/// What the reader finds under each attribute name that the writer gives
/// a `SegmentURL` element.
proof fn lemma_segment_url_attrs_found(u: SegmentUrl)
    ensures
        lookup_written(segment_url_attrs(u), "media"@) == opt_view(u.media),
        lookup_written(segment_url_attrs(u), "mediaRange"@) == opt_view(u.media_range),
        lookup_written(segment_url_attrs(u), "indexRange"@) == opt_view(u.index_range),
{
    reveal(segment_url_attrs);
    lemma_names_segment_url();
    let p0: Attrs = opt_attr("media"@, u.media);
    let p1: Attrs = opt_attr("mediaRange"@, u.media_range);
    let p2: Attrs = opt_attr("indexRange"@, u.index_range);
    lemma_lookup_part(p0, "media"@, opt_view(u.media));
    lemma_lookup_part(p1, "mediaRange"@, opt_view(u.media_range));
    lemma_lookup_part(p2, "indexRange"@, opt_view(u.index_range));
    lemma_lookup_cat(p0, p1);
    let c1 = p0 + p1;
    lemma_lookup_cat(c1, p2);
}

/// Every attribute that the writer gives a `SegmentURL` element, the reader reads back
/// as the value it was written from.
pub proof fn law_segment_url_attributes_read_back(u: SegmentUrl)
    ensures
        segment_url_start(attrs_as_read(segment_url_attrs(u))) == Ok::<SegmentUrlV, ErrorKind>(u@),
{
    reveal(segment_url_start);
    lemma_segment_url_attrs_found(u);
    reveal(lookup_written);
    reveal(lookup_written_xlink);
}

/// How the reader names the attributes that the writer gives `segment_base`
/// values, and how those names differ.
proof fn lemma_names_segment_base()
    ensures
        local_of("timescale"@) == "timescale"@,
        local_of("indexRange"@) == "indexRange"@,
        local_of("indexRangeExact"@) == "indexRangeExact"@,
        local_of("presentationTimeOffset"@) == "presentationTimeOffset"@,
        local_of("availabilityTimeOffset"@) == "availabilityTimeOffset"@,
        local_of("availabilityTimeComplete"@) == "availabilityTimeComplete"@,
        "availabilityTimeComplete"@.len() == 24,
        "availabilityTimeOffset"@.len() == 22,
        "indexRange"@.len() == 10,
        "indexRangeExact"@.len() == 15,
        "presentationTimeOffset"@.len() == 22,
        "timescale"@.len() == 9,
        "availabilityTimeOffset"@[0] == 'a',
        "presentationTimeOffset"@[0] == 'p',
{
    reveal(local_of);
    reveal(prefix_of);
    reveal_with_fuel(first_index, 25);
    reveal_strlit("availabilityTimeComplete");
    reveal_strlit("availabilityTimeOffset");
    reveal_strlit("indexRange");
    reveal_strlit("indexRangeExact");
    reveal_strlit("presentationTimeOffset");
    reveal_strlit("timescale");
    assert("availabilityTimeComplete"@.len() == 24);
    assert("availabilityTimeOffset"@.len() == 22);
    assert("indexRange"@.len() == 10);
    assert("indexRangeExact"@.len() == 15);
    assert("presentationTimeOffset"@.len() == 22);
    assert("timescale"@.len() == 9);
}

/// What the reader finds under each attribute name that the writer gives
/// a `SegmentBase` element.
proof fn lemma_segment_base_attrs_found(b: SegmentBase)
    ensures
        lookup_written(segment_base_attrs(b), "timescale"@) == Some(decimal(b.timescale as nat)),
        lookup_written(segment_base_attrs(b), "indexRange"@) == opt_view(b.index_range),
        lookup_written(segment_base_attrs(b), "indexRangeExact"@) == text_bool(b.index_range_exact),
        lookup_written(segment_base_attrs(b), "presentationTimeOffset"@) == text_nonzero(b.presentation_time_offset),
        lookup_written(segment_base_attrs(b), "availabilityTimeOffset"@) == opt_view(b.availability_time_offset),
        lookup_written(segment_base_attrs(b), "availabilityTimeComplete"@) == text_bool(b.availability_time_complete),
{
    reveal(segment_base_attrs);
    lemma_names_segment_base();
    let p0: Attrs = seq![("timescale"@, decimal(b.timescale as nat))];
    let p1: Attrs = opt_attr("indexRange"@, b.index_range);
    let p2: Attrs = bool_attr("indexRangeExact"@, b.index_range_exact);
    let p3: Attrs = nonzero_attr("presentationTimeOffset"@, b.presentation_time_offset);
    let p4: Attrs = opt_attr("availabilityTimeOffset"@, b.availability_time_offset);
    let p5: Attrs = bool_attr("availabilityTimeComplete"@, b.availability_time_complete);
    lemma_lookup_part(p0, "timescale"@, Some(decimal(b.timescale as nat)));
    lemma_lookup_part(p1, "indexRange"@, opt_view(b.index_range));
    lemma_lookup_part(p2, "indexRangeExact"@, text_bool(b.index_range_exact));
    lemma_lookup_part(p3, "presentationTimeOffset"@, text_nonzero(b.presentation_time_offset));
    lemma_lookup_part(p4, "availabilityTimeOffset"@, opt_view(b.availability_time_offset));
    lemma_lookup_part(p5, "availabilityTimeComplete"@, text_bool(b.availability_time_complete));
    lemma_lookup_cat(p0, p1);
    let c1 = p0 + p1;
    lemma_lookup_cat(c1, p2);
    let c2 = c1 + p2;
    lemma_lookup_cat(c2, p3);
    let c3 = c2 + p3;
    lemma_lookup_cat(c3, p4);
    let c4 = c3 + p4;
    lemma_lookup_cat(c4, p5);
}

/// Every attribute that the writer gives a `SegmentBase` element, the reader reads back
/// as the value it was written from;
/// what the element holds inside is read apart from its attributes.
pub proof fn law_segment_base_attributes_read_back(b: SegmentBase)
    ensures
        segment_base_start(attrs_as_read(segment_base_attrs(b))) == Ok::<SegmentBaseV,
            ErrorKind>(SegmentBaseV { initialization_source_url: None,
            initialization_range: None,
            representation_index_source_url: None,
            representation_index_range: None,
            bitstream_switching_source_url: None,
            bitstream_switching_range: None,
            ..b@ }),
{
    reveal(segment_base_start);
    lemma_segment_base_attrs_found(b);
    reveal(lookup_written);
    reveal(lookup_written_xlink);
    lemma_decimal_read(b.timescale as nat);
    lemma_bool_read();
    lemma_decimal_read(b.presentation_time_offset as nat);
}

/// How the reader names the attributes that the writer gives `segment_list`
/// values, and how those names differ.
proof fn lemma_names_segment_list()
    ensures
        local_of("timescale"@) == "timescale"@,
        local_of("startNumber"@) == "startNumber"@,
        local_of("xlink:href"@) == "href"@,
        prefix_of("xlink:href"@) == Some("xlink"@),
        local_of("xlink:actuate"@) == "actuate"@,
        prefix_of("xlink:actuate"@) == Some("xlink"@),
        local_of("endNumber"@) == "endNumber"@,
        local_of("duration"@) == "duration"@,
        local_of("presentationTimeOffset"@) == "presentationTimeOffset"@,
        local_of("availabilityTimeOffset"@) == "availabilityTimeOffset"@,
        local_of("availabilityTimeComplete"@) == "availabilityTimeComplete"@,
        "actuate"@.len() == 7,
        "availabilityTimeComplete"@.len() == 24,
        "availabilityTimeOffset"@.len() == 22,
        "duration"@.len() == 8,
        "endNumber"@.len() == 9,
        "href"@.len() == 4,
        "presentationTimeOffset"@.len() == 22,
        "startNumber"@.len() == 11,
        "timescale"@.len() == 9,
        "availabilityTimeOffset"@[0] == 'a',
        "endNumber"@[0] == 'e',
        "presentationTimeOffset"@[0] == 'p',
        "timescale"@[0] == 't',
{
    reveal(local_of);
    reveal(prefix_of);
    reveal_with_fuel(first_index, 25);
    reveal_strlit("actuate");
    reveal_strlit("availabilityTimeComplete");
    reveal_strlit("availabilityTimeOffset");
    reveal_strlit("duration");
    reveal_strlit("endNumber");
    reveal_strlit("href");
    reveal_strlit("presentationTimeOffset");
    reveal_strlit("startNumber");
    reveal_strlit("timescale");
    reveal_strlit("xlink");
    reveal_strlit("xlink:actuate");
    reveal_strlit("xlink:href");
    assert("xlink:href"@.skip(6) =~= "href"@);
    assert("xlink:href"@.take(5) =~= "xlink"@);
    assert("xlink:actuate"@.skip(6) =~= "actuate"@);
    assert("xlink:actuate"@.take(5) =~= "xlink"@);
    assert("actuate"@.len() == 7);
    assert("availabilityTimeComplete"@.len() == 24);
    assert("availabilityTimeOffset"@.len() == 22);
    assert("duration"@.len() == 8);
    assert("endNumber"@.len() == 9);
    assert("href"@.len() == 4);
    assert("presentationTimeOffset"@.len() == 22);
    assert("startNumber"@.len() == 11);
    assert("timescale"@.len() == 9);
}

/// What the reader finds under each attribute name that the writer gives
/// a `SegmentList` element.
proof fn lemma_segment_list_attrs_found(l: SegmentList)
    ensures
        lookup_written(segment_list_attrs(l), "timescale"@) == Some(decimal(l.timescale as nat)),
        lookup_written(segment_list_attrs(l), "startNumber"@) == Some(decimal(l.start_number as nat)),
        lookup_written_xlink(segment_list_attrs(l), "href"@) == opt_view(l.xlink_href),
        lookup_written_xlink(segment_list_attrs(l), "actuate"@) == opt_view(l.xlink_actuate),
        lookup_written(segment_list_attrs(l), "endNumber"@) == text_u64(l.end_number),
        lookup_written(segment_list_attrs(l), "duration"@) == text_u64(l.duration),
        lookup_written(segment_list_attrs(l), "presentationTimeOffset"@) == text_nonzero(l.presentation_time_offset),
        lookup_written(segment_list_attrs(l), "availabilityTimeOffset"@) == opt_view(l.availability_time_offset),
        lookup_written(segment_list_attrs(l), "availabilityTimeComplete"@) == text_bool(l.availability_time_complete),
{
    reveal(segment_list_attrs);
    lemma_names_segment_list();
    let p0: Attrs = seq![("timescale"@, decimal(l.timescale as nat))];
    let p1: Attrs = seq![("startNumber"@, decimal(l.start_number as nat))];
    let p2: Attrs = opt_attr("xlink:href"@, l.xlink_href);
    let p3: Attrs = opt_attr("xlink:actuate"@, l.xlink_actuate);
    let p4: Attrs = u64_attr("endNumber"@, l.end_number);
    let p5: Attrs = u64_attr("duration"@, l.duration);
    let p6: Attrs = nonzero_attr("presentationTimeOffset"@, l.presentation_time_offset);
    let p7: Attrs = opt_attr("availabilityTimeOffset"@, l.availability_time_offset);
    let p8: Attrs = bool_attr("availabilityTimeComplete"@, l.availability_time_complete);
    lemma_lookup_part(p0, "timescale"@, Some(decimal(l.timescale as nat)));
    lemma_lookup_part(p1, "startNumber"@, Some(decimal(l.start_number as nat)));
    lemma_lookup_part(p2, "xlink:href"@, opt_view(l.xlink_href));
    lemma_lookup_part(p3, "xlink:actuate"@, opt_view(l.xlink_actuate));
    lemma_lookup_part(p4, "endNumber"@, text_u64(l.end_number));
    lemma_lookup_part(p5, "duration"@, text_u64(l.duration));
    lemma_lookup_part(p6, "presentationTimeOffset"@, text_nonzero(l.presentation_time_offset));
    lemma_lookup_part(p7, "availabilityTimeOffset"@, opt_view(l.availability_time_offset));
    lemma_lookup_part(p8, "availabilityTimeComplete"@, text_bool(l.availability_time_complete));
    lemma_lookup_cat(p0, p1);
    let c1 = p0 + p1;
    lemma_lookup_cat(c1, p2);
    let c2 = c1 + p2;
    lemma_lookup_cat(c2, p3);
    let c3 = c2 + p3;
    lemma_lookup_cat(c3, p4);
    let c4 = c3 + p4;
    lemma_lookup_cat(c4, p5);
    let c5 = c4 + p5;
    lemma_lookup_cat(c5, p6);
    let c6 = c5 + p6;
    lemma_lookup_cat(c6, p7);
    let c7 = c6 + p7;
    lemma_lookup_cat(c7, p8);
}

/// Every attribute that the writer gives a `SegmentList` element, the reader reads back
/// as the value it was written from;
/// what the element holds inside is read apart from its attributes.
pub proof fn law_segment_list_attributes_read_back(l: SegmentList)
    ensures
        segment_list_start(attrs_as_read(segment_list_attrs(l))) == Ok::<SegmentListV,
            ErrorKind>(SegmentListV { initialization_source_url: None,
            initialization_range: None,
            representation_index_source_url: None,
            representation_index_range: None,
            bitstream_switching_source_url: None,
            bitstream_switching_range: None,
            segment_urls: seq![],
            segment_timeline: None,
            ..l@ }),
{
    reveal(segment_list_start);
    lemma_segment_list_attrs_found(l);
    reveal(lookup_written);
    reveal(lookup_written_xlink);
    lemma_decimal_read(l.timescale as nat);
    lemma_decimal_read(l.start_number as nat);
    if let Some(n) = l.end_number {
        lemma_decimal_read(n as nat);
    }
    if let Some(n) = l.duration {
        lemma_decimal_read(n as nat);
    }
    lemma_decimal_read(l.presentation_time_offset as nat);
    lemma_bool_read();
}

/// How the reader names the attributes that the writer gives `segment_template`
/// values, and how those names differ.
proof fn lemma_names_segment_template()
    ensures
        local_of("timescale"@) == "timescale"@,
        local_of("startNumber"@) == "startNumber"@,
        local_of("media"@) == "media"@,
        local_of("initialization"@) == "initialization"@,
        local_of("index"@) == "index"@,
        local_of("duration"@) == "duration"@,
        local_of("endNumber"@) == "endNumber"@,
        local_of("presentationTimeOffset"@) == "presentationTimeOffset"@,
        local_of("availabilityTimeOffset"@) == "availabilityTimeOffset"@,
        local_of("availabilityTimeComplete"@) == "availabilityTimeComplete"@,
        "availabilityTimeComplete"@.len() == 24,
        "availabilityTimeOffset"@.len() == 22,
        "duration"@.len() == 8,
        "endNumber"@.len() == 9,
        "index"@.len() == 5,
        "initialization"@.len() == 14,
        "media"@.len() == 5,
        "presentationTimeOffset"@.len() == 22,
        "startNumber"@.len() == 11,
        "timescale"@.len() == 9,
        "availabilityTimeOffset"@[0] == 'a',
        "endNumber"@[0] == 'e',
        "index"@[0] == 'i',
        "media"@[0] == 'm',
        "presentationTimeOffset"@[0] == 'p',
        "timescale"@[0] == 't',
{
    reveal(local_of);
    reveal(prefix_of);
    reveal_with_fuel(first_index, 25);
    reveal_strlit("availabilityTimeComplete");
    reveal_strlit("availabilityTimeOffset");
    reveal_strlit("duration");
    reveal_strlit("endNumber");
    reveal_strlit("index");
    reveal_strlit("initialization");
    reveal_strlit("media");
    reveal_strlit("presentationTimeOffset");
    reveal_strlit("startNumber");
    reveal_strlit("timescale");
    assert("availabilityTimeComplete"@.len() == 24);
    assert("availabilityTimeOffset"@.len() == 22);
    assert("duration"@.len() == 8);
    assert("endNumber"@.len() == 9);
    assert("index"@.len() == 5);
    assert("initialization"@.len() == 14);
    assert("media"@.len() == 5);
    assert("presentationTimeOffset"@.len() == 22);
    assert("startNumber"@.len() == 11);
    assert("timescale"@.len() == 9);
}

/// What the reader finds under each attribute name that the writer gives
/// a `SegmentTemplate` element.
proof fn lemma_segment_template_attrs_found(t: SegmentTemplate)
    ensures
        lookup_written(segment_template_attrs(t), "timescale"@) == Some(decimal(t.timescale as nat)),
        lookup_written(segment_template_attrs(t), "startNumber"@) == Some(decimal(t.start_number as nat)),
        lookup_written(segment_template_attrs(t), "media"@) == opt_view(t.media),
        lookup_written(segment_template_attrs(t), "initialization"@) == opt_view(t.initialization),
        lookup_written(segment_template_attrs(t), "index"@) == opt_view(t.index),
        lookup_written(segment_template_attrs(t), "duration"@) == text_u64(t.duration),
        lookup_written(segment_template_attrs(t), "endNumber"@) == text_u64(t.end_number),
        lookup_written(segment_template_attrs(t), "presentationTimeOffset"@) == text_nonzero(t.presentation_time_offset),
        lookup_written(segment_template_attrs(t), "availabilityTimeOffset"@) == opt_view(t.availability_time_offset),
        lookup_written(segment_template_attrs(t), "availabilityTimeComplete"@) == text_bool(t.availability_time_complete),
{
    reveal(segment_template_attrs);
    lemma_names_segment_template();
    let p0: Attrs = seq![("timescale"@, decimal(t.timescale as nat))];
    let p1: Attrs = seq![("startNumber"@, decimal(t.start_number as nat))];
    let p2: Attrs = opt_attr("media"@, t.media);
    let p3: Attrs = opt_attr("initialization"@, t.initialization);
    let p4: Attrs = opt_attr("index"@, t.index);
    let p5: Attrs = u64_attr("duration"@, t.duration);
    let p6: Attrs = u64_attr("endNumber"@, t.end_number);
    let p7: Attrs = nonzero_attr("presentationTimeOffset"@, t.presentation_time_offset);
    let p8: Attrs = opt_attr("availabilityTimeOffset"@, t.availability_time_offset);
    let p9: Attrs = bool_attr("availabilityTimeComplete"@, t.availability_time_complete);
    lemma_lookup_part(p0, "timescale"@, Some(decimal(t.timescale as nat)));
    lemma_lookup_part(p1, "startNumber"@, Some(decimal(t.start_number as nat)));
    lemma_lookup_part(p2, "media"@, opt_view(t.media));
    lemma_lookup_part(p3, "initialization"@, opt_view(t.initialization));
    lemma_lookup_part(p4, "index"@, opt_view(t.index));
    lemma_lookup_part(p5, "duration"@, text_u64(t.duration));
    lemma_lookup_part(p6, "endNumber"@, text_u64(t.end_number));
    lemma_lookup_part(p7, "presentationTimeOffset"@, text_nonzero(t.presentation_time_offset));
    lemma_lookup_part(p8, "availabilityTimeOffset"@, opt_view(t.availability_time_offset));
    lemma_lookup_part(p9, "availabilityTimeComplete"@, text_bool(t.availability_time_complete));
    lemma_lookup_cat(p0, p1);
    let c1 = p0 + p1;
    lemma_lookup_cat(c1, p2);
    let c2 = c1 + p2;
    lemma_lookup_cat(c2, p3);
    let c3 = c2 + p3;
    lemma_lookup_cat(c3, p4);
    let c4 = c3 + p4;
    lemma_lookup_cat(c4, p5);
    let c5 = c4 + p5;
    lemma_lookup_cat(c5, p6);
    let c6 = c5 + p6;
    lemma_lookup_cat(c6, p7);
    let c7 = c6 + p7;
    lemma_lookup_cat(c7, p8);
    let c8 = c7 + p8;
    lemma_lookup_cat(c8, p9);
}

/// Every attribute that the writer gives a `SegmentTemplate` element, the reader reads back
/// as the value it was written from;
/// what the element holds inside is read apart from its attributes.
pub proof fn law_segment_template_attributes_read_back(t: SegmentTemplate)
    ensures
        segment_template_start(attrs_as_read(segment_template_attrs(t))) == Ok::<SegmentTemplateV,
            ErrorKind>(SegmentTemplateV { bitstream_switching_source_url: None,
            bitstream_switching_range: None,
            segment_timeline: None,
            ..t@ }),
{
    reveal(segment_template_start);
    lemma_segment_template_attrs_found(t);
    reveal(lookup_written);
    reveal(lookup_written_xlink);
    lemma_decimal_read(t.timescale as nat);
    lemma_decimal_read(t.start_number as nat);
    if let Some(n) = t.duration {
        lemma_decimal_read(n as nat);
    }
    if let Some(n) = t.end_number {
        lemma_decimal_read(n as nat);
    }
    lemma_decimal_read(t.presentation_time_offset as nat);
    lemma_bool_read();
}

/// How the reader names the attributes that the writer gives `preselection`
/// values, and how those names differ.
proof fn lemma_names_preselection()
    ensures
        local_of("id"@) == "id"@,
        local_of("preselectionComponents"@) == "preselectionComponents"@,
        local_of("lang"@) == "lang"@,
        local_of("tag"@) == "tag"@,
        local_of("order"@) == "order"@,
        local_of("contentType"@) == "contentType"@,
        local_of("mimeType"@) == "mimeType"@,
        local_of("codecs"@) == "codecs"@,
        "codecs"@.len() == 6,
        "contentType"@.len() == 11,
        "id"@.len() == 2,
        "lang"@.len() == 4,
        "mimeType"@.len() == 8,
        "order"@.len() == 5,
        "preselectionComponents"@.len() == 22,
        "tag"@.len() == 3,
{
    reveal(local_of);
    reveal(prefix_of);
    reveal_with_fuel(first_index, 23);
    reveal_strlit("codecs");
    reveal_strlit("contentType");
    reveal_strlit("id");
    reveal_strlit("lang");
    reveal_strlit("mimeType");
    reveal_strlit("order");
    reveal_strlit("preselectionComponents");
    reveal_strlit("tag");
    assert("codecs"@.len() == 6);
    assert("contentType"@.len() == 11);
    assert("id"@.len() == 2);
    assert("lang"@.len() == 4);
    assert("mimeType"@.len() == 8);
    assert("order"@.len() == 5);
    assert("preselectionComponents"@.len() == 22);
    assert("tag"@.len() == 3);
}

/// What the reader finds under each attribute name that the writer gives
/// a `Preselection` element.
proof fn lemma_preselection_attrs_found(p: Preselection)
    ensures
        lookup_written(preselection_attrs(p), "id"@) == opt_view(p.id),
        lookup_written(preselection_attrs(p), "preselectionComponents"@) == opt_view(p.preselection_components),
        lookup_written(preselection_attrs(p), "lang"@) == opt_view(p.lang),
        lookup_written(preselection_attrs(p), "tag"@) == opt_view(p.tag),
        lookup_written(preselection_attrs(p), "order"@) == text_u32(p.order),
        lookup_written(preselection_attrs(p), "contentType"@) == opt_view(p.content_type),
        lookup_written(preselection_attrs(p), "mimeType"@) == opt_view(p.mime_type),
        lookup_written(preselection_attrs(p), "codecs"@) == opt_view(p.codecs),
{
    reveal(preselection_attrs);
    lemma_names_preselection();
    let p0: Attrs = opt_attr("id"@, p.id);
    let p1: Attrs = opt_attr("preselectionComponents"@, p.preselection_components);
    let p2: Attrs = opt_attr("lang"@, p.lang);
    let p3: Attrs = opt_attr("tag"@, p.tag);
    let p4: Attrs = u32_attr("order"@, p.order);
    let p5: Attrs = opt_attr("contentType"@, p.content_type);
    let p6: Attrs = opt_attr("mimeType"@, p.mime_type);
    let p7: Attrs = opt_attr("codecs"@, p.codecs);
    lemma_lookup_part(p0, "id"@, opt_view(p.id));
    lemma_lookup_part(p1, "preselectionComponents"@, opt_view(p.preselection_components));
    lemma_lookup_part(p2, "lang"@, opt_view(p.lang));
    lemma_lookup_part(p3, "tag"@, opt_view(p.tag));
    lemma_lookup_part(p4, "order"@, text_u32(p.order));
    lemma_lookup_part(p5, "contentType"@, opt_view(p.content_type));
    lemma_lookup_part(p6, "mimeType"@, opt_view(p.mime_type));
    lemma_lookup_part(p7, "codecs"@, opt_view(p.codecs));
    lemma_lookup_cat(p0, p1);
    let c1 = p0 + p1;
    lemma_lookup_cat(c1, p2);
    let c2 = c1 + p2;
    lemma_lookup_cat(c2, p3);
    let c3 = c2 + p3;
    lemma_lookup_cat(c3, p4);
    let c4 = c3 + p4;
    lemma_lookup_cat(c4, p5);
    let c5 = c4 + p5;
    lemma_lookup_cat(c5, p6);
    let c6 = c5 + p6;
    lemma_lookup_cat(c6, p7);
}

/// Every attribute that the writer gives a `Preselection` element, the reader reads back
/// as the value it was written from;
/// what the element holds inside is read apart from its attributes.
pub proof fn law_preselection_attributes_read_back(p: Preselection)
    ensures
        preselection_start(attrs_as_read(preselection_attrs(p))) == Ok::<PreselectionV,
            ErrorKind>(PreselectionV { accessibilities: seq![],
            roles: seq![],
            viewpoints: seq![],
            labels: seq![],
            essential_properties: seq![],
            supplemental_properties: seq![],
            ..p@ }),
{
    reveal(preselection_start);
    lemma_preselection_attrs_found(p);
    reveal(lookup_written);
    reveal(lookup_written_xlink);
    if let Some(n) = p.order {
        lemma_decimal_read(n as nat);
    }
}

/// How the reader names the attributes that the writer gives `subset`
/// values, and how those names differ.
proof fn lemma_names_subset()
    ensures
        local_of("contains"@) == "contains"@,
        local_of("id"@) == "id"@,
        "contains"@.len() == 8,
        "id"@.len() == 2,
{
    reveal(local_of);
    reveal(prefix_of);
    reveal_with_fuel(first_index, 9);
    reveal_strlit("contains");
    reveal_strlit("id");
    assert("contains"@.len() == 8);
    assert("id"@.len() == 2);
}

/// What the reader finds under each attribute name that the writer gives
/// a `Subset` element.
proof fn lemma_subset_attrs_found(s: Subset)
    ensures
        lookup_written(subset_attrs(s), "contains"@) == Some(s.contains@),
        lookup_written(subset_attrs(s), "id"@) == opt_view(s.id),
{
    reveal(subset_attrs);
    lemma_names_subset();
    let p0: Attrs = seq![("contains"@, s.contains@)];
    let p1: Attrs = opt_attr("id"@, s.id);
    lemma_lookup_part(p0, "contains"@, Some(s.contains@));
    lemma_lookup_part(p1, "id"@, opt_view(s.id));
    lemma_lookup_cat(p0, p1);
}

/// Every attribute that the writer gives a `Subset` element, the reader reads back
/// as the value it was written from.
pub proof fn law_subset_attributes_read_back(s: Subset)
    ensures
        subset_start(attrs_as_read(subset_attrs(s))) == Ok::<SubsetV, ErrorKind>(s@),
{
    reveal(subset_start);
    lemma_subset_attrs_found(s);
    reveal(lookup_written);
    reveal(lookup_written_xlink);
}

/// How the reader names the attributes that the writer gives `sub_representation`
/// values, and how those names differ.
proof fn lemma_names_sub_representation()
    ensures
        local_of("level"@) == "level"@,
        local_of("bandwidth"@) == "bandwidth"@,
        local_of("contentComponent"@) == "contentComponent"@,
        local_of("codecs"@) == "codecs"@,
        local_of("dependencyLevel"@) == "dependencyLevel"@,
        local_of("width"@) == "width"@,
        local_of("height"@) == "height"@,
        local_of("mimeType"@) == "mimeType"@,
        local_of("frameRate"@) == "frameRate"@,
        local_of("audioSamplingRate"@) == "audioSamplingRate"@,
        local_of("sar"@) == "sar"@,
        local_of("scanType"@) == "scanType"@,
        local_of("profiles"@) == "profiles"@,
        local_of("startWithSAP"@) == "startWithSAP"@,
        local_of("maxPlayoutRate"@) == "maxPlayoutRate"@,
        local_of("codingDependency"@) == "codingDependency"@,
        local_of("maximumSAPPeriod"@) == "maximumSAPPeriod"@,
        local_of("segmentProfiles"@) == "segmentProfiles"@,
        "audioSamplingRate"@.len() == 17,
        "bandwidth"@.len() == 9,
        "codecs"@.len() == 6,
        "codingDependency"@.len() == 16,
        "contentComponent"@.len() == 16,
        "dependencyLevel"@.len() == 15,
        "frameRate"@.len() == 9,
        "height"@.len() == 6,
        "level"@.len() == 5,
        "maxPlayoutRate"@.len() == 14,
        "maximumSAPPeriod"@.len() == 16,
        "mimeType"@.len() == 8,
        "profiles"@.len() == 8,
        "sar"@.len() == 3,
        "scanType"@.len() == 8,
        "segmentProfiles"@.len() == 15,
        "startWithSAP"@.len() == 12,
        "width"@.len() == 5,
        "bandwidth"@[0] == 'b',
        "codecs"@[0] == 'c',
        "codingDependency"@[0] == 'c',
        "codingDependency"@[2] == 'd',
        "contentComponent"@[0] == 'c',
        "contentComponent"@[2] == 'n',
        "dependencyLevel"@[0] == 'd',
        "frameRate"@[0] == 'f',
        "height"@[0] == 'h',
        "level"@[0] == 'l',
        "maximumSAPPeriod"@[0] == 'm',
        "mimeType"@[0] == 'm',
        "profiles"@[0] == 'p',
        "scanType"@[0] == 's',
        "segmentProfiles"@[0] == 's',
        "width"@[0] == 'w',
{
    reveal(local_of);
    reveal(prefix_of);
    reveal_with_fuel(first_index, 18);
    reveal_strlit("audioSamplingRate");
    reveal_strlit("bandwidth");
    reveal_strlit("codecs");
    reveal_strlit("codingDependency");
    reveal_strlit("contentComponent");
    reveal_strlit("dependencyLevel");
    reveal_strlit("frameRate");
    reveal_strlit("height");
    reveal_strlit("level");
    reveal_strlit("maxPlayoutRate");
    reveal_strlit("maximumSAPPeriod");
    reveal_strlit("mimeType");
    reveal_strlit("profiles");
    reveal_strlit("sar");
    reveal_strlit("scanType");
    reveal_strlit("segmentProfiles");
    reveal_strlit("startWithSAP");
    reveal_strlit("width");
    assert("audioSamplingRate"@.len() == 17);
    assert("bandwidth"@.len() == 9);
    assert("codecs"@.len() == 6);
    assert("codingDependency"@.len() == 16);
    assert("contentComponent"@.len() == 16);
    assert("dependencyLevel"@.len() == 15);
    assert("frameRate"@.len() == 9);
    assert("height"@.len() == 6);
    assert("level"@.len() == 5);
    assert("maxPlayoutRate"@.len() == 14);
    assert("maximumSAPPeriod"@.len() == 16);
    assert("mimeType"@.len() == 8);
    assert("profiles"@.len() == 8);
    assert("sar"@.len() == 3);
    assert("scanType"@.len() == 8);
    assert("segmentProfiles"@.len() == 15);
    assert("startWithSAP"@.len() == 12);
    assert("width"@.len() == 5);
}

/// The attributes 0 to 7 (counted from zero) that the writer
/// gives a `SubRepresentation` element.
pub open spec fn sub_representation_attrs_part_0(s: SubRepresentation) -> Attrs {
    u32_attr("level"@, s.level)
        + u64_attr("bandwidth"@, s.bandwidth)
        + opt_attr("contentComponent"@, s.content_component)
        + opt_attr("codecs"@, s.codecs)
        + opt_attr("dependencyLevel"@, s.dependency_level)
        + u32_attr("width"@, s.width)
        + u32_attr("height"@, s.height)
        + opt_attr("mimeType"@, s.mime_type)
}

/// What the reader finds in the attributes 0 to 7 (counted from zero) that
/// the writer gives a `SubRepresentation` element.
proof fn lemma_sub_representation_attrs_found_0(s: SubRepresentation)
    ensures
        lookup_written(sub_representation_attrs_part_0(s), "level"@) == text_u32(s.level),
        lookup_written(sub_representation_attrs_part_0(s), "bandwidth"@) == text_u64(s.bandwidth),
        lookup_written(sub_representation_attrs_part_0(s), "contentComponent"@) == opt_view(s.content_component),
        lookup_written(sub_representation_attrs_part_0(s), "codecs"@) == opt_view(s.codecs),
        lookup_written(sub_representation_attrs_part_0(s), "dependencyLevel"@) == opt_view(s.dependency_level),
        lookup_written(sub_representation_attrs_part_0(s), "width"@) == text_u32(s.width),
        lookup_written(sub_representation_attrs_part_0(s), "height"@) == text_u32(s.height),
        lookup_written(sub_representation_attrs_part_0(s), "mimeType"@) == opt_view(s.mime_type),
        lookup_written(sub_representation_attrs_part_0(s), "frameRate"@) == None::<Seq<char>>,
        lookup_written(sub_representation_attrs_part_0(s), "audioSamplingRate"@) == None::<Seq<char>>,
        lookup_written(sub_representation_attrs_part_0(s), "sar"@) == None::<Seq<char>>,
        lookup_written(sub_representation_attrs_part_0(s), "scanType"@) == None::<Seq<char>>,
        lookup_written(sub_representation_attrs_part_0(s), "profiles"@) == None::<Seq<char>>,
        lookup_written(sub_representation_attrs_part_0(s), "startWithSAP"@) == None::<Seq<char>>,
        lookup_written(sub_representation_attrs_part_0(s), "maxPlayoutRate"@) == None::<Seq<char>>,
        lookup_written(sub_representation_attrs_part_0(s), "codingDependency"@) == None::<Seq<char>>,
        lookup_written(sub_representation_attrs_part_0(s), "maximumSAPPeriod"@) == None::<Seq<char>>,
        lookup_written(sub_representation_attrs_part_0(s), "segmentProfiles"@) == None::<Seq<char>>,
{
    lemma_names_sub_representation();
    let p0: Attrs = u32_attr("level"@, s.level);
    let p1: Attrs = u64_attr("bandwidth"@, s.bandwidth);
    let p2: Attrs = opt_attr("contentComponent"@, s.content_component);
    let p3: Attrs = opt_attr("codecs"@, s.codecs);
    let p4: Attrs = opt_attr("dependencyLevel"@, s.dependency_level);
    let p5: Attrs = u32_attr("width"@, s.width);
    let p6: Attrs = u32_attr("height"@, s.height);
    let p7: Attrs = opt_attr("mimeType"@, s.mime_type);
    lemma_lookup_part(p0, "level"@, text_u32(s.level));
    lemma_lookup_part(p1, "bandwidth"@, text_u64(s.bandwidth));
    lemma_lookup_part(p2, "contentComponent"@, opt_view(s.content_component));
    lemma_lookup_part(p3, "codecs"@, opt_view(s.codecs));
    lemma_lookup_part(p4, "dependencyLevel"@, opt_view(s.dependency_level));
    lemma_lookup_part(p5, "width"@, text_u32(s.width));
    lemma_lookup_part(p6, "height"@, text_u32(s.height));
    lemma_lookup_part(p7, "mimeType"@, opt_view(s.mime_type));
    lemma_lookup_cat(p0, p1);
    let c1 = p0 + p1;
    lemma_lookup_cat(c1, p2);
    let c2 = c1 + p2;
    lemma_lookup_cat(c2, p3);
    let c3 = c2 + p3;
    lemma_lookup_cat(c3, p4);
    let c4 = c3 + p4;
    lemma_lookup_cat(c4, p5);
    let c5 = c4 + p5;
    lemma_lookup_cat(c5, p6);
    let c6 = c5 + p6;
    lemma_lookup_cat(c6, p7);
}

/// The attributes 8 to 15 (counted from zero) that the writer
/// gives a `SubRepresentation` element.
pub open spec fn sub_representation_attrs_part_1(s: SubRepresentation) -> Attrs {
    opt_attr("frameRate"@, s.frame_rate)
        + u32_attr("audioSamplingRate"@, s.audio_sampling_rate)
        + opt_attr("sar"@, s.sar)
        + opt_attr("scanType"@, s.scan_type)
        + opt_attr("profiles"@, s.profiles)
        + u32_attr("startWithSAP"@, s.start_with_sap)
        + opt_attr("maxPlayoutRate"@, s.max_playout_rate)
        + bool_attr("codingDependency"@, s.coding_dependency)
}

/// What the reader finds in the attributes 8 to 15 (counted from zero) that
/// the writer gives a `SubRepresentation` element.
proof fn lemma_sub_representation_attrs_found_1(s: SubRepresentation)
    ensures
        lookup_written(sub_representation_attrs_part_1(s), "level"@) == None::<Seq<char>>,
        lookup_written(sub_representation_attrs_part_1(s), "bandwidth"@) == None::<Seq<char>>,
        lookup_written(sub_representation_attrs_part_1(s), "contentComponent"@) == None::<Seq<char>>,
        lookup_written(sub_representation_attrs_part_1(s), "codecs"@) == None::<Seq<char>>,
        lookup_written(sub_representation_attrs_part_1(s), "dependencyLevel"@) == None::<Seq<char>>,
        lookup_written(sub_representation_attrs_part_1(s), "width"@) == None::<Seq<char>>,
        lookup_written(sub_representation_attrs_part_1(s), "height"@) == None::<Seq<char>>,
        lookup_written(sub_representation_attrs_part_1(s), "mimeType"@) == None::<Seq<char>>,
        lookup_written(sub_representation_attrs_part_1(s), "frameRate"@) == opt_view(s.frame_rate),
        lookup_written(sub_representation_attrs_part_1(s), "audioSamplingRate"@) == text_u32(s.audio_sampling_rate),
        lookup_written(sub_representation_attrs_part_1(s), "sar"@) == opt_view(s.sar),
        lookup_written(sub_representation_attrs_part_1(s), "scanType"@) == opt_view(s.scan_type),
        lookup_written(sub_representation_attrs_part_1(s), "profiles"@) == opt_view(s.profiles),
        lookup_written(sub_representation_attrs_part_1(s), "startWithSAP"@) == text_u32(s.start_with_sap),
        lookup_written(sub_representation_attrs_part_1(s), "maxPlayoutRate"@) == opt_view(s.max_playout_rate),
        lookup_written(sub_representation_attrs_part_1(s), "codingDependency"@) == text_bool(s.coding_dependency),
        lookup_written(sub_representation_attrs_part_1(s), "maximumSAPPeriod"@) == None::<Seq<char>>,
        lookup_written(sub_representation_attrs_part_1(s), "segmentProfiles"@) == None::<Seq<char>>,
{
    lemma_names_sub_representation();
    let p8: Attrs = opt_attr("frameRate"@, s.frame_rate);
    let p9: Attrs = u32_attr("audioSamplingRate"@, s.audio_sampling_rate);
    let p10: Attrs = opt_attr("sar"@, s.sar);
    let p11: Attrs = opt_attr("scanType"@, s.scan_type);
    let p12: Attrs = opt_attr("profiles"@, s.profiles);
    let p13: Attrs = u32_attr("startWithSAP"@, s.start_with_sap);
    let p14: Attrs = opt_attr("maxPlayoutRate"@, s.max_playout_rate);
    let p15: Attrs = bool_attr("codingDependency"@, s.coding_dependency);
    lemma_lookup_part(p8, "frameRate"@, opt_view(s.frame_rate));
    lemma_lookup_part(p9, "audioSamplingRate"@, text_u32(s.audio_sampling_rate));
    lemma_lookup_part(p10, "sar"@, opt_view(s.sar));
    lemma_lookup_part(p11, "scanType"@, opt_view(s.scan_type));
    lemma_lookup_part(p12, "profiles"@, opt_view(s.profiles));
    lemma_lookup_part(p13, "startWithSAP"@, text_u32(s.start_with_sap));
    lemma_lookup_part(p14, "maxPlayoutRate"@, opt_view(s.max_playout_rate));
    lemma_lookup_part(p15, "codingDependency"@, text_bool(s.coding_dependency));
    lemma_lookup_cat(p8, p9);
    let c1 = p8 + p9;
    lemma_lookup_cat(c1, p10);
    let c2 = c1 + p10;
    lemma_lookup_cat(c2, p11);
    let c3 = c2 + p11;
    lemma_lookup_cat(c3, p12);
    let c4 = c3 + p12;
    lemma_lookup_cat(c4, p13);
    let c5 = c4 + p13;
    lemma_lookup_cat(c5, p14);
    let c6 = c5 + p14;
    lemma_lookup_cat(c6, p15);
}

/// The attributes 16 to 17 (counted from zero) that the writer
/// gives a `SubRepresentation` element.
pub open spec fn sub_representation_attrs_part_2(s: SubRepresentation) -> Attrs {
    opt_attr("maximumSAPPeriod"@, s.maximum_sap_period) + opt_attr("segmentProfiles"@, s.segment_profiles)
}

/// What the reader finds in the attributes 16 to 17 (counted from zero) that
/// the writer gives a `SubRepresentation` element.
proof fn lemma_sub_representation_attrs_found_2(s: SubRepresentation)
    ensures
        lookup_written(sub_representation_attrs_part_2(s), "level"@) == None::<Seq<char>>,
        lookup_written(sub_representation_attrs_part_2(s), "bandwidth"@) == None::<Seq<char>>,
        lookup_written(sub_representation_attrs_part_2(s), "contentComponent"@) == None::<Seq<char>>,
        lookup_written(sub_representation_attrs_part_2(s), "codecs"@) == None::<Seq<char>>,
        lookup_written(sub_representation_attrs_part_2(s), "dependencyLevel"@) == None::<Seq<char>>,
        lookup_written(sub_representation_attrs_part_2(s), "width"@) == None::<Seq<char>>,
        lookup_written(sub_representation_attrs_part_2(s), "height"@) == None::<Seq<char>>,
        lookup_written(sub_representation_attrs_part_2(s), "mimeType"@) == None::<Seq<char>>,
        lookup_written(sub_representation_attrs_part_2(s), "frameRate"@) == None::<Seq<char>>,
        lookup_written(sub_representation_attrs_part_2(s), "audioSamplingRate"@) == None::<Seq<char>>,
        lookup_written(sub_representation_attrs_part_2(s), "sar"@) == None::<Seq<char>>,
        lookup_written(sub_representation_attrs_part_2(s), "scanType"@) == None::<Seq<char>>,
        lookup_written(sub_representation_attrs_part_2(s), "profiles"@) == None::<Seq<char>>,
        lookup_written(sub_representation_attrs_part_2(s), "startWithSAP"@) == None::<Seq<char>>,
        lookup_written(sub_representation_attrs_part_2(s), "maxPlayoutRate"@) == None::<Seq<char>>,
        lookup_written(sub_representation_attrs_part_2(s), "codingDependency"@) == None::<Seq<char>>,
        lookup_written(sub_representation_attrs_part_2(s), "maximumSAPPeriod"@) == opt_view(s.maximum_sap_period),
        lookup_written(sub_representation_attrs_part_2(s), "segmentProfiles"@) == opt_view(s.segment_profiles),
{
    lemma_names_sub_representation();
    let p16: Attrs = opt_attr("maximumSAPPeriod"@, s.maximum_sap_period);
    let p17: Attrs = opt_attr("segmentProfiles"@, s.segment_profiles);
    lemma_lookup_part(p16, "maximumSAPPeriod"@, opt_view(s.maximum_sap_period));
    lemma_lookup_part(p17, "segmentProfiles"@, opt_view(s.segment_profiles));
    lemma_lookup_cat(p16, p17);
}

/// What the reader finds under each attribute name that the writer gives
/// a `SubRepresentation` element.
proof fn lemma_sub_representation_attrs_found(s: SubRepresentation)
    ensures
        lookup_written(sub_representation_attrs(s), "level"@) == text_u32(s.level),
        lookup_written(sub_representation_attrs(s), "bandwidth"@) == text_u64(s.bandwidth),
        lookup_written(sub_representation_attrs(s), "contentComponent"@) == opt_view(s.content_component),
        lookup_written(sub_representation_attrs(s), "codecs"@) == opt_view(s.codecs),
        lookup_written(sub_representation_attrs(s), "dependencyLevel"@) == opt_view(s.dependency_level),
        lookup_written(sub_representation_attrs(s), "width"@) == text_u32(s.width),
        lookup_written(sub_representation_attrs(s), "height"@) == text_u32(s.height),
        lookup_written(sub_representation_attrs(s), "mimeType"@) == opt_view(s.mime_type),
        lookup_written(sub_representation_attrs(s), "frameRate"@) == opt_view(s.frame_rate),
        lookup_written(sub_representation_attrs(s), "audioSamplingRate"@) == text_u32(s.audio_sampling_rate),
        lookup_written(sub_representation_attrs(s), "sar"@) == opt_view(s.sar),
        lookup_written(sub_representation_attrs(s), "scanType"@) == opt_view(s.scan_type),
        lookup_written(sub_representation_attrs(s), "profiles"@) == opt_view(s.profiles),
        lookup_written(sub_representation_attrs(s), "startWithSAP"@) == text_u32(s.start_with_sap),
        lookup_written(sub_representation_attrs(s), "maxPlayoutRate"@) == opt_view(s.max_playout_rate),
        lookup_written(sub_representation_attrs(s), "codingDependency"@) == text_bool(s.coding_dependency),
        lookup_written(sub_representation_attrs(s), "maximumSAPPeriod"@) == opt_view(s.maximum_sap_period),
        lookup_written(sub_representation_attrs(s), "segmentProfiles"@) == opt_view(s.segment_profiles),
{
    reveal(sub_representation_attrs);
    let p0: Attrs = u32_attr("level"@, s.level);
    let p1: Attrs = u64_attr("bandwidth"@, s.bandwidth);
    let p2: Attrs = opt_attr("contentComponent"@, s.content_component);
    let p3: Attrs = opt_attr("codecs"@, s.codecs);
    let p4: Attrs = opt_attr("dependencyLevel"@, s.dependency_level);
    let p5: Attrs = u32_attr("width"@, s.width);
    let p6: Attrs = u32_attr("height"@, s.height);
    let p7: Attrs = opt_attr("mimeType"@, s.mime_type);
    let p8: Attrs = opt_attr("frameRate"@, s.frame_rate);
    let p9: Attrs = u32_attr("audioSamplingRate"@, s.audio_sampling_rate);
    let p10: Attrs = opt_attr("sar"@, s.sar);
    let p11: Attrs = opt_attr("scanType"@, s.scan_type);
    let p12: Attrs = opt_attr("profiles"@, s.profiles);
    let p13: Attrs = u32_attr("startWithSAP"@, s.start_with_sap);
    let p14: Attrs = opt_attr("maxPlayoutRate"@, s.max_playout_rate);
    let p15: Attrs = bool_attr("codingDependency"@, s.coding_dependency);
    let p16: Attrs = opt_attr("maximumSAPPeriod"@, s.maximum_sap_period);
    let p17: Attrs = opt_attr("segmentProfiles"@, s.segment_profiles);
    lemma_sub_representation_attrs_found_0(s);
    lemma_sub_representation_attrs_found_1(s);
    lemma_sub_representation_attrs_found_2(s);
    let b1 = sub_representation_attrs_part_0(s);
    lemma_concat_associative(b1, p8, p9);
    let w1_1 = p8 + p9;
    lemma_concat_associative(b1, w1_1, p10);
    let w1_2 = w1_1 + p10;
    lemma_concat_associative(b1, w1_2, p11);
    let w1_3 = w1_2 + p11;
    lemma_concat_associative(b1, w1_3, p12);
    let w1_4 = w1_3 + p12;
    lemma_concat_associative(b1, w1_4, p13);
    let w1_5 = w1_4 + p13;
    lemma_concat_associative(b1, w1_5, p14);
    let w1_6 = w1_5 + p14;
    lemma_concat_associative(b1, w1_6, p15);
    let w1_7 = w1_6 + p15;
    lemma_lookup_cat(b1, sub_representation_attrs_part_1(s));
    let b2 = b1 + sub_representation_attrs_part_1(s);
    lemma_concat_associative(b2, p16, p17);
    let w2_1 = p16 + p17;
    lemma_lookup_cat(b2, sub_representation_attrs_part_2(s));
    let b3 = b2 + sub_representation_attrs_part_2(s);
    assert(sub_representation_attrs(s) == b3);
}

/// Every attribute that the writer gives a `SubRepresentation` element, the reader reads back
/// as the value it was written from,
/// each duration among them being one that the reader accepts;
/// what the element holds inside is read apart from its attributes.
pub proof fn law_sub_representation_attributes_read_back(s: SubRepresentation)
    requires
        s.maximum_sap_period matches Some(s) ==> duration_ok(s@),
    ensures
        sub_representation_start(attrs_as_read(sub_representation_attrs(s))) == Ok::<SubRepresentationV,
            ErrorKind>(SubRepresentationV { content_protections: seq![],
            audio_channel_configurations: seq![],
            frame_packings: seq![],
            inband_event_streams: seq![],
            essential_properties: seq![],
            supplemental_properties: seq![],
            segment_sequence_properties: seq![],
            ..s@ }),
{
    reveal(sub_representation_start);
    lemma_sub_representation_attrs_found(s);
    reveal(lookup_written);
    reveal(lookup_written_xlink);
    if let Some(n) = s.level {
        lemma_decimal_read(n as nat);
    }
    if let Some(n) = s.bandwidth {
        lemma_decimal_read(n as nat);
    }
    if let Some(n) = s.width {
        lemma_decimal_read(n as nat);
    }
    if let Some(n) = s.height {
        lemma_decimal_read(n as nat);
    }
    if let Some(n) = s.audio_sampling_rate {
        lemma_decimal_read(n as nat);
    }
    if let Some(n) = s.start_with_sap {
        lemma_decimal_read(n as nat);
    }
    lemma_bool_read();
}

/// How the reader names the attributes that the writer gives `representation`
/// values, and how those names differ.
proof fn lemma_names_representation()
    ensures
        local_of("id"@) == "id"@,
        local_of("bandwidth"@) == "bandwidth"@,
        local_of("mimeType"@) == "mimeType"@,
        local_of("codecs"@) == "codecs"@,
        local_of("width"@) == "width"@,
        local_of("height"@) == "height"@,
        local_of("frameRate"@) == "frameRate"@,
        local_of("audioSamplingRate"@) == "audioSamplingRate"@,
        local_of("sar"@) == "sar"@,
        local_of("qualityRanking"@) == "qualityRanking"@,
        local_of("dependencyId"@) == "dependencyId"@,
        local_of("maxPlayoutRate"@) == "maxPlayoutRate"@,
        local_of("scanType"@) == "scanType"@,
        local_of("startWithSAP"@) == "startWithSAP"@,
        local_of("profiles"@) == "profiles"@,
        local_of("scte214:supplementalCodecs"@) == "supplementalCodecs"@,
        prefix_of("scte214:supplementalCodecs"@) == Some("scte214"@),
        local_of("codingDependency"@) == "codingDependency"@,
        local_of("codecPrivateData"@) == "codecPrivateData"@,
        local_of("mediaStreamStructureId"@) == "mediaStreamStructureId"@,
        local_of("maximumSAPPeriod"@) == "maximumSAPPeriod"@,
        local_of("segmentProfiles"@) == "segmentProfiles"@,
        "audioSamplingRate"@.len() == 17,
        "bandwidth"@.len() == 9,
        "codecPrivateData"@.len() == 16,
        "codecs"@.len() == 6,
        "codingDependency"@.len() == 16,
        "dependencyId"@.len() == 12,
        "frameRate"@.len() == 9,
        "height"@.len() == 6,
        "id"@.len() == 2,
        "maxPlayoutRate"@.len() == 14,
        "maximumSAPPeriod"@.len() == 16,
        "mediaStreamStructureId"@.len() == 22,
        "mimeType"@.len() == 8,
        "profiles"@.len() == 8,
        "qualityRanking"@.len() == 14,
        "sar"@.len() == 3,
        "scanType"@.len() == 8,
        "segmentProfiles"@.len() == 15,
        "startWithSAP"@.len() == 12,
        "supplementalCodecs"@.len() == 18,
        "width"@.len() == 5,
        "bandwidth"@[0] == 'b',
        "codecPrivateData"@[0] == 'c',
        "codecPrivateData"@[3] == 'e',
        "codecs"@[0] == 'c',
        "codingDependency"@[0] == 'c',
        "codingDependency"@[3] == 'i',
        "dependencyId"@[0] == 'd',
        "frameRate"@[0] == 'f',
        "height"@[0] == 'h',
        "maxPlayoutRate"@[0] == 'm',
        "maximumSAPPeriod"@[0] == 'm',
        "mimeType"@[0] == 'm',
        "profiles"@[0] == 'p',
        "qualityRanking"@[0] == 'q',
        "scanType"@[0] == 's',
        "startWithSAP"@[0] == 's',
{
    reveal(local_of);
    reveal(prefix_of);
    reveal_with_fuel(first_index, 23);
    reveal_strlit("audioSamplingRate");
    reveal_strlit("bandwidth");
    reveal_strlit("codecPrivateData");
    reveal_strlit("codecs");
    reveal_strlit("codingDependency");
    reveal_strlit("dependencyId");
    reveal_strlit("frameRate");
    reveal_strlit("height");
    reveal_strlit("id");
    reveal_strlit("maxPlayoutRate");
    reveal_strlit("maximumSAPPeriod");
    reveal_strlit("mediaStreamStructureId");
    reveal_strlit("mimeType");
    reveal_strlit("profiles");
    reveal_strlit("qualityRanking");
    reveal_strlit("sar");
    reveal_strlit("scanType");
    reveal_strlit("scte214");
    reveal_strlit("scte214:supplementalCodecs");
    reveal_strlit("segmentProfiles");
    reveal_strlit("startWithSAP");
    reveal_strlit("supplementalCodecs");
    reveal_strlit("width");
    assert("scte214:supplementalCodecs"@.skip(8) =~= "supplementalCodecs"@);
    assert("scte214:supplementalCodecs"@.take(7) =~= "scte214"@);
    assert("audioSamplingRate"@.len() == 17);
    assert("bandwidth"@.len() == 9);
    assert("codecPrivateData"@.len() == 16);
    assert("codecs"@.len() == 6);
    assert("codingDependency"@.len() == 16);
    assert("dependencyId"@.len() == 12);
    assert("frameRate"@.len() == 9);
    assert("height"@.len() == 6);
    assert("id"@.len() == 2);
    assert("maxPlayoutRate"@.len() == 14);
    assert("maximumSAPPeriod"@.len() == 16);
    assert("mediaStreamStructureId"@.len() == 22);
    assert("mimeType"@.len() == 8);
    assert("profiles"@.len() == 8);
    assert("qualityRanking"@.len() == 14);
    assert("sar"@.len() == 3);
    assert("scanType"@.len() == 8);
    assert("segmentProfiles"@.len() == 15);
    assert("startWithSAP"@.len() == 12);
    assert("supplementalCodecs"@.len() == 18);
    assert("width"@.len() == 5);
}

/// The attributes 0 to 7 (counted from zero) that the writer
/// gives a `Representation` element.
pub open spec fn representation_attrs_part_0(r: Representation) -> Attrs {
    seq![("id"@, r.id@)]
        + seq![("bandwidth"@, decimal(r.bandwidth as nat))]
        + opt_attr("mimeType"@, r.mime_type)
        + opt_attr("codecs"@, r.codecs)
        + u32_attr("width"@, r.width)
        + u32_attr("height"@, r.height)
        + opt_attr("frameRate"@, r.frame_rate)
        + u32_attr("audioSamplingRate"@, r.audio_sampling_rate)
}

/// What the reader finds in the attributes 0 to 7 (counted from zero) that
/// the writer gives a `Representation` element.
proof fn lemma_representation_attrs_found_0(r: Representation)
    ensures
        lookup_written(representation_attrs_part_0(r), "id"@) == Some(r.id@),
        lookup_written(representation_attrs_part_0(r), "bandwidth"@) == Some(decimal(r.bandwidth as nat)),
        lookup_written(representation_attrs_part_0(r), "mimeType"@) == opt_view(r.mime_type),
        lookup_written(representation_attrs_part_0(r), "codecs"@) == opt_view(r.codecs),
        lookup_written(representation_attrs_part_0(r), "width"@) == text_u32(r.width),
        lookup_written(representation_attrs_part_0(r), "height"@) == text_u32(r.height),
        lookup_written(representation_attrs_part_0(r), "frameRate"@) == opt_view(r.frame_rate),
        lookup_written(representation_attrs_part_0(r), "audioSamplingRate"@) == text_u32(r.audio_sampling_rate),
        lookup_written(representation_attrs_part_0(r), "sar"@) == None::<Seq<char>>,
        lookup_written(representation_attrs_part_0(r), "qualityRanking"@) == None::<Seq<char>>,
        lookup_written(representation_attrs_part_0(r), "dependencyId"@) == None::<Seq<char>>,
        lookup_written(representation_attrs_part_0(r), "maxPlayoutRate"@) == None::<Seq<char>>,
        lookup_written(representation_attrs_part_0(r), "scanType"@) == None::<Seq<char>>,
        lookup_written(representation_attrs_part_0(r), "startWithSAP"@) == None::<Seq<char>>,
        lookup_written(representation_attrs_part_0(r), "profiles"@) == None::<Seq<char>>,
        lookup_written(representation_attrs_part_0(r), "supplementalCodecs"@) == None::<Seq<char>>,
        lookup_written(representation_attrs_part_0(r), "codingDependency"@) == None::<Seq<char>>,
        lookup_written(representation_attrs_part_0(r), "codecPrivateData"@) == None::<Seq<char>>,
        lookup_written(representation_attrs_part_0(r), "mediaStreamStructureId"@) == None::<Seq<char>>,
        lookup_written(representation_attrs_part_0(r), "maximumSAPPeriod"@) == None::<Seq<char>>,
        lookup_written(representation_attrs_part_0(r), "segmentProfiles"@) == None::<Seq<char>>,
{
    lemma_names_representation();
    let p0: Attrs = seq![("id"@, r.id@)];
    let p1: Attrs = seq![("bandwidth"@, decimal(r.bandwidth as nat))];
    let p2: Attrs = opt_attr("mimeType"@, r.mime_type);
    let p3: Attrs = opt_attr("codecs"@, r.codecs);
    let p4: Attrs = u32_attr("width"@, r.width);
    let p5: Attrs = u32_attr("height"@, r.height);
    let p6: Attrs = opt_attr("frameRate"@, r.frame_rate);
    let p7: Attrs = u32_attr("audioSamplingRate"@, r.audio_sampling_rate);
    lemma_lookup_part(p0, "id"@, Some(r.id@));
    lemma_lookup_part(p1, "bandwidth"@, Some(decimal(r.bandwidth as nat)));
    lemma_lookup_part(p2, "mimeType"@, opt_view(r.mime_type));
    lemma_lookup_part(p3, "codecs"@, opt_view(r.codecs));
    lemma_lookup_part(p4, "width"@, text_u32(r.width));
    lemma_lookup_part(p5, "height"@, text_u32(r.height));
    lemma_lookup_part(p6, "frameRate"@, opt_view(r.frame_rate));
    lemma_lookup_part(p7, "audioSamplingRate"@, text_u32(r.audio_sampling_rate));
    lemma_lookup_cat(p0, p1);
    let c1 = p0 + p1;
    lemma_lookup_cat(c1, p2);
    let c2 = c1 + p2;
    lemma_lookup_cat(c2, p3);
    let c3 = c2 + p3;
    lemma_lookup_cat(c3, p4);
    let c4 = c3 + p4;
    lemma_lookup_cat(c4, p5);
    let c5 = c4 + p5;
    lemma_lookup_cat(c5, p6);
    let c6 = c5 + p6;
    lemma_lookup_cat(c6, p7);
}

/// The attributes 8 to 15 (counted from zero) that the writer
/// gives a `Representation` element.
pub open spec fn representation_attrs_part_1(r: Representation) -> Attrs {
    opt_attr("sar"@, r.sar)
        + u32_attr("qualityRanking"@, r.quality_ranking)
        + opt_attr("dependencyId"@, r.dependency_id)
        + opt_attr("maxPlayoutRate"@, r.max_playout_rate)
        + opt_attr("scanType"@, r.scan_type)
        + u32_attr("startWithSAP"@, r.start_with_sap)
        + opt_attr("profiles"@, r.profiles)
        + opt_attr("scte214:supplementalCodecs"@, r.supplemental_codecs)
}

/// What the reader finds in the attributes 8 to 15 (counted from zero) that
/// the writer gives a `Representation` element.
proof fn lemma_representation_attrs_found_1(r: Representation)
    ensures
        lookup_written(representation_attrs_part_1(r), "id"@) == None::<Seq<char>>,
        lookup_written(representation_attrs_part_1(r), "bandwidth"@) == None::<Seq<char>>,
        lookup_written(representation_attrs_part_1(r), "mimeType"@) == None::<Seq<char>>,
        lookup_written(representation_attrs_part_1(r), "codecs"@) == None::<Seq<char>>,
        lookup_written(representation_attrs_part_1(r), "width"@) == None::<Seq<char>>,
        lookup_written(representation_attrs_part_1(r), "height"@) == None::<Seq<char>>,
        lookup_written(representation_attrs_part_1(r), "frameRate"@) == None::<Seq<char>>,
        lookup_written(representation_attrs_part_1(r), "audioSamplingRate"@) == None::<Seq<char>>,
        lookup_written(representation_attrs_part_1(r), "sar"@) == opt_view(r.sar),
        lookup_written(representation_attrs_part_1(r), "qualityRanking"@) == text_u32(r.quality_ranking),
        lookup_written(representation_attrs_part_1(r), "dependencyId"@) == opt_view(r.dependency_id),
        lookup_written(representation_attrs_part_1(r), "maxPlayoutRate"@) == opt_view(r.max_playout_rate),
        lookup_written(representation_attrs_part_1(r), "scanType"@) == opt_view(r.scan_type),
        lookup_written(representation_attrs_part_1(r), "startWithSAP"@) == text_u32(r.start_with_sap),
        lookup_written(representation_attrs_part_1(r), "profiles"@) == opt_view(r.profiles),
        lookup_written(representation_attrs_part_1(r), "supplementalCodecs"@) == opt_view(r.supplemental_codecs),
        lookup_written(representation_attrs_part_1(r), "codingDependency"@) == None::<Seq<char>>,
        lookup_written(representation_attrs_part_1(r), "codecPrivateData"@) == None::<Seq<char>>,
        lookup_written(representation_attrs_part_1(r), "mediaStreamStructureId"@) == None::<Seq<char>>,
        lookup_written(representation_attrs_part_1(r), "maximumSAPPeriod"@) == None::<Seq<char>>,
        lookup_written(representation_attrs_part_1(r), "segmentProfiles"@) == None::<Seq<char>>,
{
    lemma_names_representation();
    let p8: Attrs = opt_attr("sar"@, r.sar);
    let p9: Attrs = u32_attr("qualityRanking"@, r.quality_ranking);
    let p10: Attrs = opt_attr("dependencyId"@, r.dependency_id);
    let p11: Attrs = opt_attr("maxPlayoutRate"@, r.max_playout_rate);
    let p12: Attrs = opt_attr("scanType"@, r.scan_type);
    let p13: Attrs = u32_attr("startWithSAP"@, r.start_with_sap);
    let p14: Attrs = opt_attr("profiles"@, r.profiles);
    let p15: Attrs = opt_attr("scte214:supplementalCodecs"@, r.supplemental_codecs);
    lemma_lookup_part(p8, "sar"@, opt_view(r.sar));
    lemma_lookup_part(p9, "qualityRanking"@, text_u32(r.quality_ranking));
    lemma_lookup_part(p10, "dependencyId"@, opt_view(r.dependency_id));
    lemma_lookup_part(p11, "maxPlayoutRate"@, opt_view(r.max_playout_rate));
    lemma_lookup_part(p12, "scanType"@, opt_view(r.scan_type));
    lemma_lookup_part(p13, "startWithSAP"@, text_u32(r.start_with_sap));
    lemma_lookup_part(p14, "profiles"@, opt_view(r.profiles));
    lemma_lookup_part(p15, "scte214:supplementalCodecs"@, opt_view(r.supplemental_codecs));
    lemma_lookup_cat(p8, p9);
    let c1 = p8 + p9;
    lemma_lookup_cat(c1, p10);
    let c2 = c1 + p10;
    lemma_lookup_cat(c2, p11);
    let c3 = c2 + p11;
    lemma_lookup_cat(c3, p12);
    let c4 = c3 + p12;
    lemma_lookup_cat(c4, p13);
    let c5 = c4 + p13;
    lemma_lookup_cat(c5, p14);
    let c6 = c5 + p14;
    lemma_lookup_cat(c6, p15);
}

/// The attributes 16 to 20 (counted from zero) that the writer
/// gives a `Representation` element.
pub open spec fn representation_attrs_part_2(r: Representation) -> Attrs {
    bool_attr("codingDependency"@, r.coding_dependency)
        + opt_attr("codecPrivateData"@, r.codec_private_data)
        + opt_attr("mediaStreamStructureId"@, r.media_stream_structure_id)
        + opt_attr("maximumSAPPeriod"@, r.maximum_sap_period)
        + opt_attr("segmentProfiles"@, r.segment_profiles)
}

/// What the reader finds in the attributes 16 to 20 (counted from zero) that
/// the writer gives a `Representation` element.
proof fn lemma_representation_attrs_found_2(r: Representation)
    ensures
        lookup_written(representation_attrs_part_2(r), "id"@) == None::<Seq<char>>,
        lookup_written(representation_attrs_part_2(r), "bandwidth"@) == None::<Seq<char>>,
        lookup_written(representation_attrs_part_2(r), "mimeType"@) == None::<Seq<char>>,
        lookup_written(representation_attrs_part_2(r), "codecs"@) == None::<Seq<char>>,
        lookup_written(representation_attrs_part_2(r), "width"@) == None::<Seq<char>>,
        lookup_written(representation_attrs_part_2(r), "height"@) == None::<Seq<char>>,
        lookup_written(representation_attrs_part_2(r), "frameRate"@) == None::<Seq<char>>,
        lookup_written(representation_attrs_part_2(r), "audioSamplingRate"@) == None::<Seq<char>>,
        lookup_written(representation_attrs_part_2(r), "sar"@) == None::<Seq<char>>,
        lookup_written(representation_attrs_part_2(r), "qualityRanking"@) == None::<Seq<char>>,
        lookup_written(representation_attrs_part_2(r), "dependencyId"@) == None::<Seq<char>>,
        lookup_written(representation_attrs_part_2(r), "maxPlayoutRate"@) == None::<Seq<char>>,
        lookup_written(representation_attrs_part_2(r), "scanType"@) == None::<Seq<char>>,
        lookup_written(representation_attrs_part_2(r), "startWithSAP"@) == None::<Seq<char>>,
        lookup_written(representation_attrs_part_2(r), "profiles"@) == None::<Seq<char>>,
        lookup_written(representation_attrs_part_2(r), "supplementalCodecs"@) == None::<Seq<char>>,
        lookup_written(representation_attrs_part_2(r), "codingDependency"@) == text_bool(r.coding_dependency),
        lookup_written(representation_attrs_part_2(r), "codecPrivateData"@) == opt_view(r.codec_private_data),
        lookup_written(representation_attrs_part_2(r), "mediaStreamStructureId"@) == opt_view(r.media_stream_structure_id),
        lookup_written(representation_attrs_part_2(r), "maximumSAPPeriod"@) == opt_view(r.maximum_sap_period),
        lookup_written(representation_attrs_part_2(r), "segmentProfiles"@) == opt_view(r.segment_profiles),
{
    lemma_names_representation();
    let p16: Attrs = bool_attr("codingDependency"@, r.coding_dependency);
    let p17: Attrs = opt_attr("codecPrivateData"@, r.codec_private_data);
    let p18: Attrs = opt_attr("mediaStreamStructureId"@, r.media_stream_structure_id);
    let p19: Attrs = opt_attr("maximumSAPPeriod"@, r.maximum_sap_period);
    let p20: Attrs = opt_attr("segmentProfiles"@, r.segment_profiles);
    lemma_lookup_part(p16, "codingDependency"@, text_bool(r.coding_dependency));
    lemma_lookup_part(p17, "codecPrivateData"@, opt_view(r.codec_private_data));
    lemma_lookup_part(p18, "mediaStreamStructureId"@, opt_view(r.media_stream_structure_id));
    lemma_lookup_part(p19, "maximumSAPPeriod"@, opt_view(r.maximum_sap_period));
    lemma_lookup_part(p20, "segmentProfiles"@, opt_view(r.segment_profiles));
    lemma_lookup_cat(p16, p17);
    let c1 = p16 + p17;
    lemma_lookup_cat(c1, p18);
    let c2 = c1 + p18;
    lemma_lookup_cat(c2, p19);
    let c3 = c2 + p19;
    lemma_lookup_cat(c3, p20);
}

/// What the reader finds under each attribute name that the writer gives
/// a `Representation` element.
proof fn lemma_representation_attrs_found(r: Representation)
    ensures
        lookup_written(representation_attrs(r), "id"@) == Some(r.id@),
        lookup_written(representation_attrs(r), "bandwidth"@) == Some(decimal(r.bandwidth as nat)),
        lookup_written(representation_attrs(r), "mimeType"@) == opt_view(r.mime_type),
        lookup_written(representation_attrs(r), "codecs"@) == opt_view(r.codecs),
        lookup_written(representation_attrs(r), "width"@) == text_u32(r.width),
        lookup_written(representation_attrs(r), "height"@) == text_u32(r.height),
        lookup_written(representation_attrs(r), "frameRate"@) == opt_view(r.frame_rate),
        lookup_written(representation_attrs(r), "audioSamplingRate"@) == text_u32(r.audio_sampling_rate),
        lookup_written(representation_attrs(r), "sar"@) == opt_view(r.sar),
        lookup_written(representation_attrs(r), "qualityRanking"@) == text_u32(r.quality_ranking),
        lookup_written(representation_attrs(r), "dependencyId"@) == opt_view(r.dependency_id),
        lookup_written(representation_attrs(r), "maxPlayoutRate"@) == opt_view(r.max_playout_rate),
        lookup_written(representation_attrs(r), "scanType"@) == opt_view(r.scan_type),
        lookup_written(representation_attrs(r), "startWithSAP"@) == text_u32(r.start_with_sap),
        lookup_written(representation_attrs(r), "profiles"@) == opt_view(r.profiles),
        lookup_written(representation_attrs(r), "supplementalCodecs"@) == opt_view(r.supplemental_codecs),
        lookup_written(representation_attrs(r), "codingDependency"@) == text_bool(r.coding_dependency),
        lookup_written(representation_attrs(r), "codecPrivateData"@) == opt_view(r.codec_private_data),
        lookup_written(representation_attrs(r), "mediaStreamStructureId"@) == opt_view(r.media_stream_structure_id),
        lookup_written(representation_attrs(r), "maximumSAPPeriod"@) == opt_view(r.maximum_sap_period),
        lookup_written(representation_attrs(r), "segmentProfiles"@) == opt_view(r.segment_profiles),
{
    reveal(representation_attrs);
    let p0: Attrs = seq![("id"@, r.id@)];
    let p1: Attrs = seq![("bandwidth"@, decimal(r.bandwidth as nat))];
    let p2: Attrs = opt_attr("mimeType"@, r.mime_type);
    let p3: Attrs = opt_attr("codecs"@, r.codecs);
    let p4: Attrs = u32_attr("width"@, r.width);
    let p5: Attrs = u32_attr("height"@, r.height);
    let p6: Attrs = opt_attr("frameRate"@, r.frame_rate);
    let p7: Attrs = u32_attr("audioSamplingRate"@, r.audio_sampling_rate);
    let p8: Attrs = opt_attr("sar"@, r.sar);
    let p9: Attrs = u32_attr("qualityRanking"@, r.quality_ranking);
    let p10: Attrs = opt_attr("dependencyId"@, r.dependency_id);
    let p11: Attrs = opt_attr("maxPlayoutRate"@, r.max_playout_rate);
    let p12: Attrs = opt_attr("scanType"@, r.scan_type);
    let p13: Attrs = u32_attr("startWithSAP"@, r.start_with_sap);
    let p14: Attrs = opt_attr("profiles"@, r.profiles);
    let p15: Attrs = opt_attr("scte214:supplementalCodecs"@, r.supplemental_codecs);
    let p16: Attrs = bool_attr("codingDependency"@, r.coding_dependency);
    let p17: Attrs = opt_attr("codecPrivateData"@, r.codec_private_data);
    let p18: Attrs = opt_attr("mediaStreamStructureId"@, r.media_stream_structure_id);
    let p19: Attrs = opt_attr("maximumSAPPeriod"@, r.maximum_sap_period);
    let p20: Attrs = opt_attr("segmentProfiles"@, r.segment_profiles);
    lemma_representation_attrs_found_0(r);
    lemma_representation_attrs_found_1(r);
    lemma_representation_attrs_found_2(r);
    let b1 = representation_attrs_part_0(r);
    lemma_concat_associative(b1, p8, p9);
    let w1_1 = p8 + p9;
    lemma_concat_associative(b1, w1_1, p10);
    let w1_2 = w1_1 + p10;
    lemma_concat_associative(b1, w1_2, p11);
    let w1_3 = w1_2 + p11;
    lemma_concat_associative(b1, w1_3, p12);
    let w1_4 = w1_3 + p12;
    lemma_concat_associative(b1, w1_4, p13);
    let w1_5 = w1_4 + p13;
    lemma_concat_associative(b1, w1_5, p14);
    let w1_6 = w1_5 + p14;
    lemma_concat_associative(b1, w1_6, p15);
    let w1_7 = w1_6 + p15;
    lemma_lookup_cat(b1, representation_attrs_part_1(r));
    let b2 = b1 + representation_attrs_part_1(r);
    lemma_concat_associative(b2, p16, p17);
    let w2_1 = p16 + p17;
    lemma_concat_associative(b2, w2_1, p18);
    let w2_2 = w2_1 + p18;
    lemma_concat_associative(b2, w2_2, p19);
    let w2_3 = w2_2 + p19;
    lemma_concat_associative(b2, w2_3, p20);
    let w2_4 = w2_3 + p20;
    lemma_lookup_cat(b2, representation_attrs_part_2(r));
    let b3 = b2 + representation_attrs_part_2(r);
    assert(representation_attrs(r) == b3);
}

/// Every attribute that the writer gives a `Representation` element, the reader reads back
/// as the value it was written from,
/// each duration among them being one that the reader accepts;
/// what the element holds inside is read apart from its attributes.
pub proof fn law_representation_attributes_read_back(r: Representation)
    requires
        r.maximum_sap_period matches Some(s) ==> duration_ok(s@),
    ensures
        representation_start(attrs_as_read(representation_attrs(r))) == Ok::<RepresentationV,
            ErrorKind>(RepresentationV { base_urls: seq![],
            audio_channel_configurations: seq![],
            essential_properties: seq![],
            supplemental_properties: seq![],
            frame_packings: seq![],
            inband_event_streams: seq![],
            producer_reference_times: seq![],
            segment_sequence_properties: seq![],
            sub_representations: seq![],
            segment_base: None,
            segment_list: None,
            segment_template: None,
            content_protections: seq![],
            ..r@ }),
{
    reveal(representation_start);
    lemma_representation_attrs_found(r);
    reveal(lookup_written);
    reveal(lookup_written_xlink);
    lemma_decimal_read(r.bandwidth as nat);
    if let Some(n) = r.width {
        lemma_decimal_read(n as nat);
    }
    if let Some(n) = r.height {
        lemma_decimal_read(n as nat);
    }
    if let Some(n) = r.audio_sampling_rate {
        lemma_decimal_read(n as nat);
    }
    if let Some(n) = r.quality_ranking {
        lemma_decimal_read(n as nat);
    }
    if let Some(n) = r.start_with_sap {
        lemma_decimal_read(n as nat);
    }
    lemma_bool_read();
}

/// How the reader names the attributes that the writer gives `adaptation_set`
/// values, and how those names differ.
proof fn lemma_names_adaptation_set()
    ensures
        local_of("id"@) == "id"@,
        local_of("mimeType"@) == "mimeType"@,
        local_of("codecs"@) == "codecs"@,
        local_of("contentType"@) == "contentType"@,
        local_of("lang"@) == "lang"@,
        local_of("width"@) == "width"@,
        local_of("height"@) == "height"@,
        local_of("frameRate"@) == "frameRate"@,
        local_of("minWidth"@) == "minWidth"@,
        local_of("minHeight"@) == "minHeight"@,
        local_of("minFrameRate"@) == "minFrameRate"@,
        local_of("minBandwidth"@) == "minBandwidth"@,
        local_of("maxBandwidth"@) == "maxBandwidth"@,
        local_of("maxWidth"@) == "maxWidth"@,
        local_of("maxHeight"@) == "maxHeight"@,
        local_of("maxFrameRate"@) == "maxFrameRate"@,
        local_of("par"@) == "par"@,
        local_of("audioSamplingRate"@) == "audioSamplingRate"@,
        local_of("sar"@) == "sar"@,
        local_of("profiles"@) == "profiles"@,
        local_of("scanType"@) == "scanType"@,
        local_of("startWithSAP"@) == "startWithSAP"@,
        local_of("maxPlayoutRate"@) == "maxPlayoutRate"@,
        local_of("selectionPriority"@) == "selectionPriority"@,
        local_of("scte214:supplementalCodecs"@) == "supplementalCodecs"@,
        prefix_of("scte214:supplementalCodecs"@) == Some("scte214"@),
        local_of("codingDependency"@) == "codingDependency"@,
        local_of("maximumSAPPeriod"@) == "maximumSAPPeriod"@,
        local_of("segmentProfiles"@) == "segmentProfiles"@,
        local_of("segmentAlignment"@) == "segmentAlignment"@,
        local_of("subsegmentAlignment"@) == "subsegmentAlignment"@,
        local_of("bitstreamSwitching"@) == "bitstreamSwitching"@,
        "audioSamplingRate"@.len() == 17,
        "bitstreamSwitching"@.len() == 18,
        "codecs"@.len() == 6,
        "codingDependency"@.len() == 16,
        "contentType"@.len() == 11,
        "frameRate"@.len() == 9,
        "height"@.len() == 6,
        "id"@.len() == 2,
        "lang"@.len() == 4,
        "maxBandwidth"@.len() == 12,
        "maxFrameRate"@.len() == 12,
        "maxHeight"@.len() == 9,
        "maxPlayoutRate"@.len() == 14,
        "maxWidth"@.len() == 8,
        "maximumSAPPeriod"@.len() == 16,
        "mimeType"@.len() == 8,
        "minBandwidth"@.len() == 12,
        "minFrameRate"@.len() == 12,
        "minHeight"@.len() == 9,
        "minWidth"@.len() == 8,
        "par"@.len() == 3,
        "profiles"@.len() == 8,
        "sar"@.len() == 3,
        "scanType"@.len() == 8,
        "segmentAlignment"@.len() == 16,
        "segmentProfiles"@.len() == 15,
        "selectionPriority"@.len() == 17,
        "startWithSAP"@.len() == 12,
        "subsegmentAlignment"@.len() == 19,
        "supplementalCodecs"@.len() == 18,
        "width"@.len() == 5,
        "audioSamplingRate"@[0] == 'a',
        "bitstreamSwitching"@[0] == 'b',
        "codecs"@[0] == 'c',
        "codingDependency"@[0] == 'c',
        "frameRate"@[0] == 'f',
        "height"@[0] == 'h',
        "maxBandwidth"@[0] == 'm',
        "maxBandwidth"@[1] == 'a',
        "maxBandwidth"@[3] == 'B',
        "maxFrameRate"@[0] == 'm',
        "maxFrameRate"@[1] == 'a',
        "maxFrameRate"@[3] == 'F',
        "maxHeight"@[0] == 'm',
        "maxHeight"@[1] == 'a',
        "maxWidth"@[0] == 'm',
        "maxWidth"@[1] == 'a',
        "maximumSAPPeriod"@[0] == 'm',
        "mimeType"@[0] == 'm',
        "mimeType"@[1] == 'i',
        "mimeType"@[2] == 'm',
        "minBandwidth"@[0] == 'm',
        "minBandwidth"@[1] == 'i',
        "minBandwidth"@[3] == 'B',
        "minFrameRate"@[0] == 'm',
        "minFrameRate"@[1] == 'i',
        "minFrameRate"@[3] == 'F',
        "minHeight"@[0] == 'm',
        "minHeight"@[1] == 'i',
        "minWidth"@[0] == 'm',
        "minWidth"@[1] == 'i',
        "minWidth"@[2] == 'n',
        "par"@[0] == 'p',
        "profiles"@[0] == 'p',
        "sar"@[0] == 's',
        "scanType"@[0] == 's',
        "segmentAlignment"@[0] == 's',
        "selectionPriority"@[0] == 's',
        "startWithSAP"@[0] == 's',
        "supplementalCodecs"@[0] == 's',
{
    reveal(local_of);
    reveal(prefix_of);
    reveal_with_fuel(first_index, 20);
    reveal_strlit("audioSamplingRate");
    reveal_strlit("bitstreamSwitching");
    reveal_strlit("codecs");
    reveal_strlit("codingDependency");
    reveal_strlit("contentType");
    reveal_strlit("frameRate");
    reveal_strlit("height");
    reveal_strlit("id");
    reveal_strlit("lang");
    reveal_strlit("maxBandwidth");
    reveal_strlit("maxFrameRate");
    reveal_strlit("maxHeight");
    reveal_strlit("maxPlayoutRate");
    reveal_strlit("maxWidth");
    reveal_strlit("maximumSAPPeriod");
    reveal_strlit("mimeType");
    reveal_strlit("minBandwidth");
    reveal_strlit("minFrameRate");
    reveal_strlit("minHeight");
    reveal_strlit("minWidth");
    reveal_strlit("par");
    reveal_strlit("profiles");
    reveal_strlit("sar");
    reveal_strlit("scanType");
    reveal_strlit("scte214");
    reveal_strlit("scte214:supplementalCodecs");
    reveal_strlit("segmentAlignment");
    reveal_strlit("segmentProfiles");
    reveal_strlit("selectionPriority");
    reveal_strlit("startWithSAP");
    reveal_strlit("subsegmentAlignment");
    reveal_strlit("supplementalCodecs");
    reveal_strlit("width");
    assert("scte214:supplementalCodecs"@.skip(8) =~= "supplementalCodecs"@);
    assert("scte214:supplementalCodecs"@.take(7) =~= "scte214"@);
    assert("audioSamplingRate"@.len() == 17);
    assert("bitstreamSwitching"@.len() == 18);
    assert("codecs"@.len() == 6);
    assert("codingDependency"@.len() == 16);
    assert("contentType"@.len() == 11);
    assert("frameRate"@.len() == 9);
    assert("height"@.len() == 6);
    assert("id"@.len() == 2);
    assert("lang"@.len() == 4);
    assert("maxBandwidth"@.len() == 12);
    assert("maxFrameRate"@.len() == 12);
    assert("maxHeight"@.len() == 9);
    assert("maxPlayoutRate"@.len() == 14);
    assert("maxWidth"@.len() == 8);
    assert("maximumSAPPeriod"@.len() == 16);
    assert("mimeType"@.len() == 8);
    assert("minBandwidth"@.len() == 12);
    assert("minFrameRate"@.len() == 12);
    assert("minHeight"@.len() == 9);
    assert("minWidth"@.len() == 8);
    assert("par"@.len() == 3);
    assert("profiles"@.len() == 8);
    assert("sar"@.len() == 3);
    assert("scanType"@.len() == 8);
    assert("segmentAlignment"@.len() == 16);
    assert("segmentProfiles"@.len() == 15);
    assert("selectionPriority"@.len() == 17);
    assert("startWithSAP"@.len() == 12);
    assert("subsegmentAlignment"@.len() == 19);
    assert("supplementalCodecs"@.len() == 18);
    assert("width"@.len() == 5);
}

/// The attributes 0 to 7 (counted from zero) that the writer
/// gives an `AdaptationSet` element.
pub open spec fn adaptation_set_attrs_part_0(a: AdaptationSet) -> Attrs {
    u32_attr("id"@, a.id)
        + opt_attr("mimeType"@, a.mime_type)
        + opt_attr("codecs"@, a.codecs)
        + content_type_attr("contentType"@, a.content_type)
        + opt_attr("lang"@, a.lang)
        + u32_attr("width"@, a.width)
        + u32_attr("height"@, a.height)
        + opt_attr("frameRate"@, a.frame_rate)
}

/// What the reader finds in the attributes 0 to 7 (counted from zero) that
/// the writer gives an `AdaptationSet` element.
proof fn lemma_adaptation_set_attrs_found_0(a: AdaptationSet)
    ensures
        lookup_written(adaptation_set_attrs_part_0(a), "id"@) == text_u32(a.id),
        lookup_written(adaptation_set_attrs_part_0(a), "mimeType"@) == opt_view(a.mime_type),
        lookup_written(adaptation_set_attrs_part_0(a), "codecs"@) == opt_view(a.codecs),
        lookup_written(adaptation_set_attrs_part_0(a), "contentType"@) == text_content_type(a.content_type),
        lookup_written(adaptation_set_attrs_part_0(a), "lang"@) == opt_view(a.lang),
        lookup_written(adaptation_set_attrs_part_0(a), "width"@) == text_u32(a.width),
        lookup_written(adaptation_set_attrs_part_0(a), "height"@) == text_u32(a.height),
        lookup_written(adaptation_set_attrs_part_0(a), "frameRate"@) == opt_view(a.frame_rate),
        lookup_written(adaptation_set_attrs_part_0(a), "minWidth"@) == None::<Seq<char>>,
        lookup_written(adaptation_set_attrs_part_0(a), "minHeight"@) == None::<Seq<char>>,
        lookup_written(adaptation_set_attrs_part_0(a), "minFrameRate"@) == None::<Seq<char>>,
        lookup_written(adaptation_set_attrs_part_0(a), "minBandwidth"@) == None::<Seq<char>>,
        lookup_written(adaptation_set_attrs_part_0(a), "maxBandwidth"@) == None::<Seq<char>>,
        lookup_written(adaptation_set_attrs_part_0(a), "maxWidth"@) == None::<Seq<char>>,
        lookup_written(adaptation_set_attrs_part_0(a), "maxHeight"@) == None::<Seq<char>>,
        lookup_written(adaptation_set_attrs_part_0(a), "maxFrameRate"@) == None::<Seq<char>>,
        lookup_written(adaptation_set_attrs_part_0(a), "par"@) == None::<Seq<char>>,
        lookup_written(adaptation_set_attrs_part_0(a), "audioSamplingRate"@) == None::<Seq<char>>,
        lookup_written(adaptation_set_attrs_part_0(a), "sar"@) == None::<Seq<char>>,
        lookup_written(adaptation_set_attrs_part_0(a), "profiles"@) == None::<Seq<char>>,
        lookup_written(adaptation_set_attrs_part_0(a), "scanType"@) == None::<Seq<char>>,
        lookup_written(adaptation_set_attrs_part_0(a), "startWithSAP"@) == None::<Seq<char>>,
        lookup_written(adaptation_set_attrs_part_0(a), "maxPlayoutRate"@) == None::<Seq<char>>,
        lookup_written(adaptation_set_attrs_part_0(a), "selectionPriority"@) == None::<Seq<char>>,
        lookup_written(adaptation_set_attrs_part_0(a), "supplementalCodecs"@) == None::<Seq<char>>,
        lookup_written(adaptation_set_attrs_part_0(a), "codingDependency"@) == None::<Seq<char>>,
        lookup_written(adaptation_set_attrs_part_0(a), "maximumSAPPeriod"@) == None::<Seq<char>>,
        lookup_written(adaptation_set_attrs_part_0(a), "segmentProfiles"@) == None::<Seq<char>>,
        lookup_written(adaptation_set_attrs_part_0(a), "segmentAlignment"@) == None::<Seq<char>>,
        lookup_written(adaptation_set_attrs_part_0(a), "subsegmentAlignment"@) == None::<Seq<char>>,
        lookup_written(adaptation_set_attrs_part_0(a), "bitstreamSwitching"@) == None::<Seq<char>>,
{
    lemma_names_adaptation_set();
    let p0: Attrs = u32_attr("id"@, a.id);
    let p1: Attrs = opt_attr("mimeType"@, a.mime_type);
    let p2: Attrs = opt_attr("codecs"@, a.codecs);
    let p3: Attrs = content_type_attr("contentType"@, a.content_type);
    let p4: Attrs = opt_attr("lang"@, a.lang);
    let p5: Attrs = u32_attr("width"@, a.width);
    let p6: Attrs = u32_attr("height"@, a.height);
    let p7: Attrs = opt_attr("frameRate"@, a.frame_rate);
    lemma_lookup_part(p0, "id"@, text_u32(a.id));
    lemma_lookup_part(p1, "mimeType"@, opt_view(a.mime_type));
    lemma_lookup_part(p2, "codecs"@, opt_view(a.codecs));
    lemma_lookup_part(p3, "contentType"@, text_content_type(a.content_type));
    lemma_lookup_part(p4, "lang"@, opt_view(a.lang));
    lemma_lookup_part(p5, "width"@, text_u32(a.width));
    lemma_lookup_part(p6, "height"@, text_u32(a.height));
    lemma_lookup_part(p7, "frameRate"@, opt_view(a.frame_rate));
    lemma_lookup_cat(p0, p1);
    let c1 = p0 + p1;
    lemma_lookup_cat(c1, p2);
    let c2 = c1 + p2;
    lemma_lookup_cat(c2, p3);
    let c3 = c2 + p3;
    lemma_lookup_cat(c3, p4);
    let c4 = c3 + p4;
    lemma_lookup_cat(c4, p5);
    let c5 = c4 + p5;
    lemma_lookup_cat(c5, p6);
    let c6 = c5 + p6;
    lemma_lookup_cat(c6, p7);
}

/// The attributes 8 to 15 (counted from zero) that the writer
/// gives an `AdaptationSet` element.
pub open spec fn adaptation_set_attrs_part_1(a: AdaptationSet) -> Attrs {
    u32_attr("minWidth"@, a.min_width)
        + u32_attr("minHeight"@, a.min_height)
        + opt_attr("minFrameRate"@, a.min_frame_rate)
        + u64_attr("minBandwidth"@, a.min_bandwidth)
        + u64_attr("maxBandwidth"@, a.max_bandwidth)
        + u32_attr("maxWidth"@, a.max_width)
        + u32_attr("maxHeight"@, a.max_height)
        + opt_attr("maxFrameRate"@, a.max_frame_rate)
}

/// What the reader finds in the attributes 8 to 15 (counted from zero) that
/// the writer gives an `AdaptationSet` element.
proof fn lemma_adaptation_set_attrs_found_1(a: AdaptationSet)
    ensures
        lookup_written(adaptation_set_attrs_part_1(a), "id"@) == None::<Seq<char>>,
        lookup_written(adaptation_set_attrs_part_1(a), "mimeType"@) == None::<Seq<char>>,
        lookup_written(adaptation_set_attrs_part_1(a), "codecs"@) == None::<Seq<char>>,
        lookup_written(adaptation_set_attrs_part_1(a), "contentType"@) == None::<Seq<char>>,
        lookup_written(adaptation_set_attrs_part_1(a), "lang"@) == None::<Seq<char>>,
        lookup_written(adaptation_set_attrs_part_1(a), "width"@) == None::<Seq<char>>,
        lookup_written(adaptation_set_attrs_part_1(a), "height"@) == None::<Seq<char>>,
        lookup_written(adaptation_set_attrs_part_1(a), "frameRate"@) == None::<Seq<char>>,
        lookup_written(adaptation_set_attrs_part_1(a), "minWidth"@) == text_u32(a.min_width),
        lookup_written(adaptation_set_attrs_part_1(a), "minHeight"@) == text_u32(a.min_height),
        lookup_written(adaptation_set_attrs_part_1(a), "minFrameRate"@) == opt_view(a.min_frame_rate),
        lookup_written(adaptation_set_attrs_part_1(a), "minBandwidth"@) == text_u64(a.min_bandwidth),
        lookup_written(adaptation_set_attrs_part_1(a), "maxBandwidth"@) == text_u64(a.max_bandwidth),
        lookup_written(adaptation_set_attrs_part_1(a), "maxWidth"@) == text_u32(a.max_width),
        lookup_written(adaptation_set_attrs_part_1(a), "maxHeight"@) == text_u32(a.max_height),
        lookup_written(adaptation_set_attrs_part_1(a), "maxFrameRate"@) == opt_view(a.max_frame_rate),
        lookup_written(adaptation_set_attrs_part_1(a), "par"@) == None::<Seq<char>>,
        lookup_written(adaptation_set_attrs_part_1(a), "audioSamplingRate"@) == None::<Seq<char>>,
        lookup_written(adaptation_set_attrs_part_1(a), "sar"@) == None::<Seq<char>>,
        lookup_written(adaptation_set_attrs_part_1(a), "profiles"@) == None::<Seq<char>>,
        lookup_written(adaptation_set_attrs_part_1(a), "scanType"@) == None::<Seq<char>>,
        lookup_written(adaptation_set_attrs_part_1(a), "startWithSAP"@) == None::<Seq<char>>,
        lookup_written(adaptation_set_attrs_part_1(a), "maxPlayoutRate"@) == None::<Seq<char>>,
        lookup_written(adaptation_set_attrs_part_1(a), "selectionPriority"@) == None::<Seq<char>>,
        lookup_written(adaptation_set_attrs_part_1(a), "supplementalCodecs"@) == None::<Seq<char>>,
        lookup_written(adaptation_set_attrs_part_1(a), "codingDependency"@) == None::<Seq<char>>,
        lookup_written(adaptation_set_attrs_part_1(a), "maximumSAPPeriod"@) == None::<Seq<char>>,
        lookup_written(adaptation_set_attrs_part_1(a), "segmentProfiles"@) == None::<Seq<char>>,
        lookup_written(adaptation_set_attrs_part_1(a), "segmentAlignment"@) == None::<Seq<char>>,
        lookup_written(adaptation_set_attrs_part_1(a), "subsegmentAlignment"@) == None::<Seq<char>>,
        lookup_written(adaptation_set_attrs_part_1(a), "bitstreamSwitching"@) == None::<Seq<char>>,
{
    lemma_names_adaptation_set();
    let p8: Attrs = u32_attr("minWidth"@, a.min_width);
    let p9: Attrs = u32_attr("minHeight"@, a.min_height);
    let p10: Attrs = opt_attr("minFrameRate"@, a.min_frame_rate);
    let p11: Attrs = u64_attr("minBandwidth"@, a.min_bandwidth);
    let p12: Attrs = u64_attr("maxBandwidth"@, a.max_bandwidth);
    let p13: Attrs = u32_attr("maxWidth"@, a.max_width);
    let p14: Attrs = u32_attr("maxHeight"@, a.max_height);
    let p15: Attrs = opt_attr("maxFrameRate"@, a.max_frame_rate);
    lemma_lookup_part(p8, "minWidth"@, text_u32(a.min_width));
    lemma_lookup_part(p9, "minHeight"@, text_u32(a.min_height));
    lemma_lookup_part(p10, "minFrameRate"@, opt_view(a.min_frame_rate));
    lemma_lookup_part(p11, "minBandwidth"@, text_u64(a.min_bandwidth));
    lemma_lookup_part(p12, "maxBandwidth"@, text_u64(a.max_bandwidth));
    lemma_lookup_part(p13, "maxWidth"@, text_u32(a.max_width));
    lemma_lookup_part(p14, "maxHeight"@, text_u32(a.max_height));
    lemma_lookup_part(p15, "maxFrameRate"@, opt_view(a.max_frame_rate));
    lemma_lookup_cat(p8, p9);
    let c1 = p8 + p9;
    lemma_lookup_cat(c1, p10);
    let c2 = c1 + p10;
    lemma_lookup_cat(c2, p11);
    let c3 = c2 + p11;
    lemma_lookup_cat(c3, p12);
    let c4 = c3 + p12;
    lemma_lookup_cat(c4, p13);
    let c5 = c4 + p13;
    lemma_lookup_cat(c5, p14);
    let c6 = c5 + p14;
    lemma_lookup_cat(c6, p15);
}

/// The attributes 16 to 23 (counted from zero) that the writer
/// gives an `AdaptationSet` element.
pub open spec fn adaptation_set_attrs_part_2(a: AdaptationSet) -> Attrs {
    opt_attr("par"@, a.par)
        + u32_attr("audioSamplingRate"@, a.audio_sampling_rate)
        + opt_attr("sar"@, a.sar)
        + opt_attr("profiles"@, a.profiles)
        + opt_attr("scanType"@, a.scan_type)
        + u32_attr("startWithSAP"@, a.start_with_sap)
        + opt_attr("maxPlayoutRate"@, a.max_playout_rate)
        + u32_attr("selectionPriority"@, a.selection_priority)
}

/// What the reader finds in the attributes 16 to 23 (counted from zero) that
/// the writer gives an `AdaptationSet` element.
proof fn lemma_adaptation_set_attrs_found_2(a: AdaptationSet)
    ensures
        lookup_written(adaptation_set_attrs_part_2(a), "id"@) == None::<Seq<char>>,
        lookup_written(adaptation_set_attrs_part_2(a), "mimeType"@) == None::<Seq<char>>,
        lookup_written(adaptation_set_attrs_part_2(a), "codecs"@) == None::<Seq<char>>,
        lookup_written(adaptation_set_attrs_part_2(a), "contentType"@) == None::<Seq<char>>,
        lookup_written(adaptation_set_attrs_part_2(a), "lang"@) == None::<Seq<char>>,
        lookup_written(adaptation_set_attrs_part_2(a), "width"@) == None::<Seq<char>>,
        lookup_written(adaptation_set_attrs_part_2(a), "height"@) == None::<Seq<char>>,
        lookup_written(adaptation_set_attrs_part_2(a), "frameRate"@) == None::<Seq<char>>,
        lookup_written(adaptation_set_attrs_part_2(a), "minWidth"@) == None::<Seq<char>>,
        lookup_written(adaptation_set_attrs_part_2(a), "minHeight"@) == None::<Seq<char>>,
        lookup_written(adaptation_set_attrs_part_2(a), "minFrameRate"@) == None::<Seq<char>>,
        lookup_written(adaptation_set_attrs_part_2(a), "minBandwidth"@) == None::<Seq<char>>,
        lookup_written(adaptation_set_attrs_part_2(a), "maxBandwidth"@) == None::<Seq<char>>,
        lookup_written(adaptation_set_attrs_part_2(a), "maxWidth"@) == None::<Seq<char>>,
        lookup_written(adaptation_set_attrs_part_2(a), "maxHeight"@) == None::<Seq<char>>,
        lookup_written(adaptation_set_attrs_part_2(a), "maxFrameRate"@) == None::<Seq<char>>,
        lookup_written(adaptation_set_attrs_part_2(a), "par"@) == opt_view(a.par),
        lookup_written(adaptation_set_attrs_part_2(a), "audioSamplingRate"@) == text_u32(a.audio_sampling_rate),
        lookup_written(adaptation_set_attrs_part_2(a), "sar"@) == opt_view(a.sar),
        lookup_written(adaptation_set_attrs_part_2(a), "profiles"@) == opt_view(a.profiles),
        lookup_written(adaptation_set_attrs_part_2(a), "scanType"@) == opt_view(a.scan_type),
        lookup_written(adaptation_set_attrs_part_2(a), "startWithSAP"@) == text_u32(a.start_with_sap),
        lookup_written(adaptation_set_attrs_part_2(a), "maxPlayoutRate"@) == opt_view(a.max_playout_rate),
        lookup_written(adaptation_set_attrs_part_2(a), "selectionPriority"@) == text_u32(a.selection_priority),
        lookup_written(adaptation_set_attrs_part_2(a), "supplementalCodecs"@) == None::<Seq<char>>,
        lookup_written(adaptation_set_attrs_part_2(a), "codingDependency"@) == None::<Seq<char>>,
        lookup_written(adaptation_set_attrs_part_2(a), "maximumSAPPeriod"@) == None::<Seq<char>>,
        lookup_written(adaptation_set_attrs_part_2(a), "segmentProfiles"@) == None::<Seq<char>>,
        lookup_written(adaptation_set_attrs_part_2(a), "segmentAlignment"@) == None::<Seq<char>>,
        lookup_written(adaptation_set_attrs_part_2(a), "subsegmentAlignment"@) == None::<Seq<char>>,
        lookup_written(adaptation_set_attrs_part_2(a), "bitstreamSwitching"@) == None::<Seq<char>>,
{
    lemma_names_adaptation_set();
    let p16: Attrs = opt_attr("par"@, a.par);
    let p17: Attrs = u32_attr("audioSamplingRate"@, a.audio_sampling_rate);
    let p18: Attrs = opt_attr("sar"@, a.sar);
    let p19: Attrs = opt_attr("profiles"@, a.profiles);
    let p20: Attrs = opt_attr("scanType"@, a.scan_type);
    let p21: Attrs = u32_attr("startWithSAP"@, a.start_with_sap);
    let p22: Attrs = opt_attr("maxPlayoutRate"@, a.max_playout_rate);
    let p23: Attrs = u32_attr("selectionPriority"@, a.selection_priority);
    lemma_lookup_part(p16, "par"@, opt_view(a.par));
    lemma_lookup_part(p17, "audioSamplingRate"@, text_u32(a.audio_sampling_rate));
    lemma_lookup_part(p18, "sar"@, opt_view(a.sar));
    lemma_lookup_part(p19, "profiles"@, opt_view(a.profiles));
    lemma_lookup_part(p20, "scanType"@, opt_view(a.scan_type));
    lemma_lookup_part(p21, "startWithSAP"@, text_u32(a.start_with_sap));
    lemma_lookup_part(p22, "maxPlayoutRate"@, opt_view(a.max_playout_rate));
    lemma_lookup_part(p23, "selectionPriority"@, text_u32(a.selection_priority));
    lemma_lookup_cat(p16, p17);
    let c1 = p16 + p17;
    lemma_lookup_cat(c1, p18);
    let c2 = c1 + p18;
    lemma_lookup_cat(c2, p19);
    let c3 = c2 + p19;
    lemma_lookup_cat(c3, p20);
    let c4 = c3 + p20;
    lemma_lookup_cat(c4, p21);
    let c5 = c4 + p21;
    lemma_lookup_cat(c5, p22);
    let c6 = c5 + p22;
    lemma_lookup_cat(c6, p23);
}

/// The attributes 24 to 30 (counted from zero) that the writer
/// gives an `AdaptationSet` element.
pub open spec fn adaptation_set_attrs_part_3(a: AdaptationSet) -> Attrs {
    opt_attr("scte214:supplementalCodecs"@, a.supplemental_codecs)
        + bool_attr("codingDependency"@, a.coding_dependency)
        + opt_attr("maximumSAPPeriod"@, a.maximum_sap_period)
        + opt_attr("segmentProfiles"@, a.segment_profiles)
        + true_attr("segmentAlignment"@, a.segment_alignment)
        + true_attr("subsegmentAlignment"@, a.subsegment_alignment)
        + bool_attr("bitstreamSwitching"@, a.bitstream_switching)
}

/// What the reader finds in the attributes 24 to 30 (counted from zero) that
/// the writer gives an `AdaptationSet` element.
proof fn lemma_adaptation_set_attrs_found_3(a: AdaptationSet)
    ensures
        lookup_written(adaptation_set_attrs_part_3(a), "id"@) == None::<Seq<char>>,
        lookup_written(adaptation_set_attrs_part_3(a), "mimeType"@) == None::<Seq<char>>,
        lookup_written(adaptation_set_attrs_part_3(a), "codecs"@) == None::<Seq<char>>,
        lookup_written(adaptation_set_attrs_part_3(a), "contentType"@) == None::<Seq<char>>,
        lookup_written(adaptation_set_attrs_part_3(a), "lang"@) == None::<Seq<char>>,
        lookup_written(adaptation_set_attrs_part_3(a), "width"@) == None::<Seq<char>>,
        lookup_written(adaptation_set_attrs_part_3(a), "height"@) == None::<Seq<char>>,
        lookup_written(adaptation_set_attrs_part_3(a), "frameRate"@) == None::<Seq<char>>,
        lookup_written(adaptation_set_attrs_part_3(a), "minWidth"@) == None::<Seq<char>>,
        lookup_written(adaptation_set_attrs_part_3(a), "minHeight"@) == None::<Seq<char>>,
        lookup_written(adaptation_set_attrs_part_3(a), "minFrameRate"@) == None::<Seq<char>>,
        lookup_written(adaptation_set_attrs_part_3(a), "minBandwidth"@) == None::<Seq<char>>,
        lookup_written(adaptation_set_attrs_part_3(a), "maxBandwidth"@) == None::<Seq<char>>,
        lookup_written(adaptation_set_attrs_part_3(a), "maxWidth"@) == None::<Seq<char>>,
        lookup_written(adaptation_set_attrs_part_3(a), "maxHeight"@) == None::<Seq<char>>,
        lookup_written(adaptation_set_attrs_part_3(a), "maxFrameRate"@) == None::<Seq<char>>,
        lookup_written(adaptation_set_attrs_part_3(a), "par"@) == None::<Seq<char>>,
        lookup_written(adaptation_set_attrs_part_3(a), "audioSamplingRate"@) == None::<Seq<char>>,
        lookup_written(adaptation_set_attrs_part_3(a), "sar"@) == None::<Seq<char>>,
        lookup_written(adaptation_set_attrs_part_3(a), "profiles"@) == None::<Seq<char>>,
        lookup_written(adaptation_set_attrs_part_3(a), "scanType"@) == None::<Seq<char>>,
        lookup_written(adaptation_set_attrs_part_3(a), "startWithSAP"@) == None::<Seq<char>>,
        lookup_written(adaptation_set_attrs_part_3(a), "maxPlayoutRate"@) == None::<Seq<char>>,
        lookup_written(adaptation_set_attrs_part_3(a), "selectionPriority"@) == None::<Seq<char>>,
        lookup_written(adaptation_set_attrs_part_3(a), "supplementalCodecs"@) == opt_view(a.supplemental_codecs),
        lookup_written(adaptation_set_attrs_part_3(a), "codingDependency"@) == text_bool(a.coding_dependency),
        lookup_written(adaptation_set_attrs_part_3(a), "maximumSAPPeriod"@) == opt_view(a.maximum_sap_period),
        lookup_written(adaptation_set_attrs_part_3(a), "segmentProfiles"@) == opt_view(a.segment_profiles),
        lookup_written(adaptation_set_attrs_part_3(a), "segmentAlignment"@) == text_true(a.segment_alignment),
        lookup_written(adaptation_set_attrs_part_3(a), "subsegmentAlignment"@) == text_true(a.subsegment_alignment),
        lookup_written(adaptation_set_attrs_part_3(a), "bitstreamSwitching"@) == text_bool(a.bitstream_switching),
{
    lemma_names_adaptation_set();
    let p24: Attrs = opt_attr("scte214:supplementalCodecs"@, a.supplemental_codecs);
    let p25: Attrs = bool_attr("codingDependency"@, a.coding_dependency);
    let p26: Attrs = opt_attr("maximumSAPPeriod"@, a.maximum_sap_period);
    let p27: Attrs = opt_attr("segmentProfiles"@, a.segment_profiles);
    let p28: Attrs = true_attr("segmentAlignment"@, a.segment_alignment);
    let p29: Attrs = true_attr("subsegmentAlignment"@, a.subsegment_alignment);
    let p30: Attrs = bool_attr("bitstreamSwitching"@, a.bitstream_switching);
    lemma_lookup_part(p24, "scte214:supplementalCodecs"@, opt_view(a.supplemental_codecs));
    lemma_lookup_part(p25, "codingDependency"@, text_bool(a.coding_dependency));
    lemma_lookup_part(p26, "maximumSAPPeriod"@, opt_view(a.maximum_sap_period));
    lemma_lookup_part(p27, "segmentProfiles"@, opt_view(a.segment_profiles));
    lemma_lookup_part(p28, "segmentAlignment"@, text_true(a.segment_alignment));
    lemma_lookup_part(p29, "subsegmentAlignment"@, text_true(a.subsegment_alignment));
    lemma_lookup_part(p30, "bitstreamSwitching"@, text_bool(a.bitstream_switching));
    lemma_lookup_cat(p24, p25);
    let c1 = p24 + p25;
    lemma_lookup_cat(c1, p26);
    let c2 = c1 + p26;
    lemma_lookup_cat(c2, p27);
    let c3 = c2 + p27;
    lemma_lookup_cat(c3, p28);
    let c4 = c3 + p28;
    lemma_lookup_cat(c4, p29);
    let c5 = c4 + p29;
    lemma_lookup_cat(c5, p30);
}

/// What the reader finds under each attribute name that the writer gives
/// an `AdaptationSet` element.
proof fn lemma_adaptation_set_attrs_found(a: AdaptationSet)
    ensures
        lookup_written(adaptation_set_attrs(a), "id"@) == text_u32(a.id),
        lookup_written(adaptation_set_attrs(a), "mimeType"@) == opt_view(a.mime_type),
        lookup_written(adaptation_set_attrs(a), "codecs"@) == opt_view(a.codecs),
        lookup_written(adaptation_set_attrs(a), "contentType"@) == text_content_type(a.content_type),
        lookup_written(adaptation_set_attrs(a), "lang"@) == opt_view(a.lang),
        lookup_written(adaptation_set_attrs(a), "width"@) == text_u32(a.width),
        lookup_written(adaptation_set_attrs(a), "height"@) == text_u32(a.height),
        lookup_written(adaptation_set_attrs(a), "frameRate"@) == opt_view(a.frame_rate),
        lookup_written(adaptation_set_attrs(a), "minWidth"@) == text_u32(a.min_width),
        lookup_written(adaptation_set_attrs(a), "minHeight"@) == text_u32(a.min_height),
        lookup_written(adaptation_set_attrs(a), "minFrameRate"@) == opt_view(a.min_frame_rate),
        lookup_written(adaptation_set_attrs(a), "minBandwidth"@) == text_u64(a.min_bandwidth),
        lookup_written(adaptation_set_attrs(a), "maxBandwidth"@) == text_u64(a.max_bandwidth),
        lookup_written(adaptation_set_attrs(a), "maxWidth"@) == text_u32(a.max_width),
        lookup_written(adaptation_set_attrs(a), "maxHeight"@) == text_u32(a.max_height),
        lookup_written(adaptation_set_attrs(a), "maxFrameRate"@) == opt_view(a.max_frame_rate),
        lookup_written(adaptation_set_attrs(a), "par"@) == opt_view(a.par),
        lookup_written(adaptation_set_attrs(a), "audioSamplingRate"@) == text_u32(a.audio_sampling_rate),
        lookup_written(adaptation_set_attrs(a), "sar"@) == opt_view(a.sar),
        lookup_written(adaptation_set_attrs(a), "profiles"@) == opt_view(a.profiles),
        lookup_written(adaptation_set_attrs(a), "scanType"@) == opt_view(a.scan_type),
        lookup_written(adaptation_set_attrs(a), "startWithSAP"@) == text_u32(a.start_with_sap),
        lookup_written(adaptation_set_attrs(a), "maxPlayoutRate"@) == opt_view(a.max_playout_rate),
        lookup_written(adaptation_set_attrs(a), "selectionPriority"@) == text_u32(a.selection_priority),
        lookup_written(adaptation_set_attrs(a), "supplementalCodecs"@) == opt_view(a.supplemental_codecs),
        lookup_written(adaptation_set_attrs(a), "codingDependency"@) == text_bool(a.coding_dependency),
        lookup_written(adaptation_set_attrs(a), "maximumSAPPeriod"@) == opt_view(a.maximum_sap_period),
        lookup_written(adaptation_set_attrs(a), "segmentProfiles"@) == opt_view(a.segment_profiles),
        lookup_written(adaptation_set_attrs(a), "segmentAlignment"@) == text_true(a.segment_alignment),
        lookup_written(adaptation_set_attrs(a), "subsegmentAlignment"@) == text_true(a.subsegment_alignment),
        lookup_written(adaptation_set_attrs(a), "bitstreamSwitching"@) == text_bool(a.bitstream_switching),
{
    reveal(adaptation_set_attrs);
    let p0: Attrs = u32_attr("id"@, a.id);
    let p1: Attrs = opt_attr("mimeType"@, a.mime_type);
    let p2: Attrs = opt_attr("codecs"@, a.codecs);
    let p3: Attrs = content_type_attr("contentType"@, a.content_type);
    let p4: Attrs = opt_attr("lang"@, a.lang);
    let p5: Attrs = u32_attr("width"@, a.width);
    let p6: Attrs = u32_attr("height"@, a.height);
    let p7: Attrs = opt_attr("frameRate"@, a.frame_rate);
    let p8: Attrs = u32_attr("minWidth"@, a.min_width);
    let p9: Attrs = u32_attr("minHeight"@, a.min_height);
    let p10: Attrs = opt_attr("minFrameRate"@, a.min_frame_rate);
    let p11: Attrs = u64_attr("minBandwidth"@, a.min_bandwidth);
    let p12: Attrs = u64_attr("maxBandwidth"@, a.max_bandwidth);
    let p13: Attrs = u32_attr("maxWidth"@, a.max_width);
    let p14: Attrs = u32_attr("maxHeight"@, a.max_height);
    let p15: Attrs = opt_attr("maxFrameRate"@, a.max_frame_rate);
    let p16: Attrs = opt_attr("par"@, a.par);
    let p17: Attrs = u32_attr("audioSamplingRate"@, a.audio_sampling_rate);
    let p18: Attrs = opt_attr("sar"@, a.sar);
    let p19: Attrs = opt_attr("profiles"@, a.profiles);
    let p20: Attrs = opt_attr("scanType"@, a.scan_type);
    let p21: Attrs = u32_attr("startWithSAP"@, a.start_with_sap);
    let p22: Attrs = opt_attr("maxPlayoutRate"@, a.max_playout_rate);
    let p23: Attrs = u32_attr("selectionPriority"@, a.selection_priority);
    let p24: Attrs = opt_attr("scte214:supplementalCodecs"@, a.supplemental_codecs);
    let p25: Attrs = bool_attr("codingDependency"@, a.coding_dependency);
    let p26: Attrs = opt_attr("maximumSAPPeriod"@, a.maximum_sap_period);
    let p27: Attrs = opt_attr("segmentProfiles"@, a.segment_profiles);
    let p28: Attrs = true_attr("segmentAlignment"@, a.segment_alignment);
    let p29: Attrs = true_attr("subsegmentAlignment"@, a.subsegment_alignment);
    let p30: Attrs = bool_attr("bitstreamSwitching"@, a.bitstream_switching);
    lemma_adaptation_set_attrs_found_0(a);
    lemma_adaptation_set_attrs_found_1(a);
    lemma_adaptation_set_attrs_found_2(a);
    lemma_adaptation_set_attrs_found_3(a);
    let b1 = adaptation_set_attrs_part_0(a);
    lemma_concat_associative(b1, p8, p9);
    let w1_1 = p8 + p9;
    lemma_concat_associative(b1, w1_1, p10);
    let w1_2 = w1_1 + p10;
    lemma_concat_associative(b1, w1_2, p11);
    let w1_3 = w1_2 + p11;
    lemma_concat_associative(b1, w1_3, p12);
    let w1_4 = w1_3 + p12;
    lemma_concat_associative(b1, w1_4, p13);
    let w1_5 = w1_4 + p13;
    lemma_concat_associative(b1, w1_5, p14);
    let w1_6 = w1_5 + p14;
    lemma_concat_associative(b1, w1_6, p15);
    let w1_7 = w1_6 + p15;
    lemma_lookup_cat(b1, adaptation_set_attrs_part_1(a));
    let b2 = b1 + adaptation_set_attrs_part_1(a);
    lemma_concat_associative(b2, p16, p17);
    let w2_1 = p16 + p17;
    lemma_concat_associative(b2, w2_1, p18);
    let w2_2 = w2_1 + p18;
    lemma_concat_associative(b2, w2_2, p19);
    let w2_3 = w2_2 + p19;
    lemma_concat_associative(b2, w2_3, p20);
    let w2_4 = w2_3 + p20;
    lemma_concat_associative(b2, w2_4, p21);
    let w2_5 = w2_4 + p21;
    lemma_concat_associative(b2, w2_5, p22);
    let w2_6 = w2_5 + p22;
    lemma_concat_associative(b2, w2_6, p23);
    let w2_7 = w2_6 + p23;
    lemma_lookup_cat(b2, adaptation_set_attrs_part_2(a));
    let b3 = b2 + adaptation_set_attrs_part_2(a);
    lemma_concat_associative(b3, p24, p25);
    let w3_1 = p24 + p25;
    lemma_concat_associative(b3, w3_1, p26);
    let w3_2 = w3_1 + p26;
    lemma_concat_associative(b3, w3_2, p27);
    let w3_3 = w3_2 + p27;
    lemma_concat_associative(b3, w3_3, p28);
    let w3_4 = w3_3 + p28;
    lemma_concat_associative(b3, w3_4, p29);
    let w3_5 = w3_4 + p29;
    lemma_concat_associative(b3, w3_5, p30);
    let w3_6 = w3_5 + p30;
    lemma_lookup_cat(b3, adaptation_set_attrs_part_3(a));
    let b4 = b3 + adaptation_set_attrs_part_3(a);
    assert(adaptation_set_attrs(a) == b4);
}

/// Every attribute that the writer gives an `AdaptationSet` element, the reader reads back
/// as the value it was written from,
/// each duration among them being one that the reader accepts;
/// what the element holds inside is read apart from its attributes.
#[verifier::spinoff_prover]
#[verifier::rlimit(40)]
pub proof fn law_adaptation_set_attributes_read_back(a: AdaptationSet)
    requires
        a.maximum_sap_period matches Some(s) ==> duration_ok(s@),
    ensures
        adaptation_set_start(attrs_as_read(adaptation_set_attrs(a))) == Ok::<AdaptationSetV,
            ErrorKind>(AdaptationSetV { base_urls: seq![],
            roles: seq![],
            accessibilities: seq![],
            audio_channel_configurations: seq![],
            labels: seq![],
            group_labels: seq![],
            essential_properties: seq![],
            supplemental_properties: seq![],
            viewpoints: seq![],
            frame_packings: seq![],
            inband_event_streams: seq![],
            producer_reference_times: seq![],
            content_components: seq![],
            segment_sequence_properties: seq![],
            segment_base: None,
            segment_list: None,
            segment_template: None,
            event_streams: seq![],
            content_protections: seq![],
            representations: seq![],
            ..a@ }),
{
    reveal(adaptation_set_start);
    lemma_adaptation_set_attrs_found(a);
    reveal(lookup_written);
    reveal(lookup_written_xlink);
    if let Some(n) = a.id {
        lemma_decimal_read(n as nat);
    }
    lemma_content_type_read();
    if let Some(n) = a.width {
        lemma_decimal_read(n as nat);
    }
    if let Some(n) = a.height {
        lemma_decimal_read(n as nat);
    }
    if let Some(n) = a.min_width {
        lemma_decimal_read(n as nat);
    }
    if let Some(n) = a.min_height {
        lemma_decimal_read(n as nat);
    }
    if let Some(n) = a.min_bandwidth {
        lemma_decimal_read(n as nat);
    }
    if let Some(n) = a.max_bandwidth {
        lemma_decimal_read(n as nat);
    }
    if let Some(n) = a.max_width {
        lemma_decimal_read(n as nat);
    }
    if let Some(n) = a.max_height {
        lemma_decimal_read(n as nat);
    }
    if let Some(n) = a.audio_sampling_rate {
        lemma_decimal_read(n as nat);
    }
    if let Some(n) = a.start_with_sap {
        lemma_decimal_read(n as nat);
    }
    if let Some(n) = a.selection_priority {
        lemma_decimal_read(n as nat);
    }
    lemma_bool_read();
}

/// How the reader names the attributes that the writer gives `period`
/// values, and how those names differ.
proof fn lemma_names_period()
    ensures
        local_of("id"@) == "id"@,
        local_of("start"@) == "start"@,
        local_of("duration"@) == "duration"@,
        local_of("xlink:href"@) == "href"@,
        prefix_of("xlink:href"@) == Some("xlink"@),
        local_of("xlink:actuate"@) == "actuate"@,
        prefix_of("xlink:actuate"@) == Some("xlink"@),
        "actuate"@.len() == 7,
        "duration"@.len() == 8,
        "href"@.len() == 4,
        "id"@.len() == 2,
        "start"@.len() == 5,
{
    reveal(local_of);
    reveal(prefix_of);
    reveal_with_fuel(first_index, 9);
    reveal_strlit("actuate");
    reveal_strlit("duration");
    reveal_strlit("href");
    reveal_strlit("id");
    reveal_strlit("start");
    reveal_strlit("xlink");
    reveal_strlit("xlink:actuate");
    reveal_strlit("xlink:href");
    assert("xlink:href"@.skip(6) =~= "href"@);
    assert("xlink:href"@.take(5) =~= "xlink"@);
    assert("xlink:actuate"@.skip(6) =~= "actuate"@);
    assert("xlink:actuate"@.take(5) =~= "xlink"@);
    assert("actuate"@.len() == 7);
    assert("duration"@.len() == 8);
    assert("href"@.len() == 4);
    assert("id"@.len() == 2);
    assert("start"@.len() == 5);
}

/// What the reader finds under each attribute name that the writer gives
/// a `Period` element.
proof fn lemma_period_attrs_found(p: Period)
    ensures
        lookup_written(period_attrs(p), "id"@) == opt_view(p.id),
        lookup_written(period_attrs(p), "start"@) == opt_view(p.start),
        lookup_written(period_attrs(p), "duration"@) == opt_view(p.duration),
        lookup_written_xlink(period_attrs(p), "href"@) == opt_view(p.xlink_href),
        lookup_written_xlink(period_attrs(p), "actuate"@) == opt_view(p.xlink_actuate),
{
    reveal(period_attrs);
    lemma_names_period();
    let p0: Attrs = opt_attr("id"@, p.id);
    let p1: Attrs = opt_attr("start"@, p.start);
    let p2: Attrs = opt_attr("duration"@, p.duration);
    let p3: Attrs = opt_attr("xlink:href"@, p.xlink_href);
    let p4: Attrs = opt_attr("xlink:actuate"@, p.xlink_actuate);
    lemma_lookup_part(p0, "id"@, opt_view(p.id));
    lemma_lookup_part(p1, "start"@, opt_view(p.start));
    lemma_lookup_part(p2, "duration"@, opt_view(p.duration));
    lemma_lookup_part(p3, "xlink:href"@, opt_view(p.xlink_href));
    lemma_lookup_part(p4, "xlink:actuate"@, opt_view(p.xlink_actuate));
    lemma_lookup_cat(p0, p1);
    let c1 = p0 + p1;
    lemma_lookup_cat(c1, p2);
    let c2 = c1 + p2;
    lemma_lookup_cat(c2, p3);
    let c3 = c2 + p3;
    lemma_lookup_cat(c3, p4);
}

/// Every attribute that the writer gives a `Period` element, the reader reads back
/// as the value it was written from,
/// each duration among them being one that the reader accepts;
/// what the element holds inside is read apart from its attributes.
pub proof fn law_period_attributes_read_back(p: Period)
    requires
        p.start matches Some(s) ==> duration_ok(s@),
        p.duration matches Some(s) ==> duration_ok(s@),
    ensures
        period_start(attrs_as_read(period_attrs(p))) == Ok::<PeriodV,
            ErrorKind>(PeriodV { base_urls: seq![],
            supplemental_properties: seq![],
            essential_properties: seq![],
            asset_identifier: None,
            event_streams: seq![],
            preselections: seq![],
            segment_base: None,
            segment_list: None,
            segment_template: None,
            subsets: seq![],
            adaptation_sets: seq![],
            ..p@ }),
{
    reveal(period_start);
    lemma_period_attrs_found(p);
    reveal(lookup_written);
    reveal(lookup_written_xlink);
}

/// How the reader names the attributes that the writer gives `mpd`
/// values, and how those names differ.
proof fn lemma_names_mpd()
    ensures
        local_of("type"@) == "type"@,
        local_of("profiles"@) == "profiles"@,
        local_of("id"@) == "id"@,
        local_of("minBufferTime"@) == "minBufferTime"@,
        local_of("mediaPresentationDuration"@) == "mediaPresentationDuration"@,
        local_of("minimumUpdatePeriod"@) == "minimumUpdatePeriod"@,
        local_of("availabilityStartTime"@) == "availabilityStartTime"@,
        local_of("availabilityEndTime"@) == "availabilityEndTime"@,
        local_of("timeShiftBufferDepth"@) == "timeShiftBufferDepth"@,
        local_of("suggestedPresentationDelay"@) == "suggestedPresentationDelay"@,
        local_of("publishTime"@) == "publishTime"@,
        local_of("maxSegmentDuration"@) == "maxSegmentDuration"@,
        local_of("maxSubsegmentDuration"@) == "maxSubsegmentDuration"@,
        "availabilityEndTime"@.len() == 19,
        "availabilityStartTime"@.len() == 21,
        "id"@.len() == 2,
        "maxSegmentDuration"@.len() == 18,
        "maxSubsegmentDuration"@.len() == 21,
        "mediaPresentationDuration"@.len() == 25,
        "minBufferTime"@.len() == 13,
        "minimumUpdatePeriod"@.len() == 19,
        "profiles"@.len() == 8,
        "publishTime"@.len() == 11,
        "suggestedPresentationDelay"@.len() == 26,
        "timeShiftBufferDepth"@.len() == 20,
        "type"@.len() == 4,
        "availabilityEndTime"@[0] == 'a',
        "availabilityStartTime"@[0] == 'a',
        "maxSubsegmentDuration"@[0] == 'm',
        "minimumUpdatePeriod"@[0] == 'm',
{
    reveal(local_of);
    reveal(prefix_of);
    reveal_with_fuel(first_index, 27);
    reveal_strlit("availabilityEndTime");
    reveal_strlit("availabilityStartTime");
    reveal_strlit("id");
    reveal_strlit("maxSegmentDuration");
    reveal_strlit("maxSubsegmentDuration");
    reveal_strlit("mediaPresentationDuration");
    reveal_strlit("minBufferTime");
    reveal_strlit("minimumUpdatePeriod");
    reveal_strlit("profiles");
    reveal_strlit("publishTime");
    reveal_strlit("suggestedPresentationDelay");
    reveal_strlit("timeShiftBufferDepth");
    reveal_strlit("type");
    assert("availabilityEndTime"@.len() == 19);
    assert("availabilityStartTime"@.len() == 21);
    assert("id"@.len() == 2);
    assert("maxSegmentDuration"@.len() == 18);
    assert("maxSubsegmentDuration"@.len() == 21);
    assert("mediaPresentationDuration"@.len() == 25);
    assert("minBufferTime"@.len() == 13);
    assert("minimumUpdatePeriod"@.len() == 19);
    assert("profiles"@.len() == 8);
    assert("publishTime"@.len() == 11);
    assert("suggestedPresentationDelay"@.len() == 26);
    assert("timeShiftBufferDepth"@.len() == 20);
    assert("type"@.len() == 4);
}

/// The attributes 0 to 7 (counted from zero) that the writer
/// gives an `MPD` element.
pub open spec fn mpd_attrs_part_0(m: Mpd) -> Attrs {
    seq![("type"@, presentation_type_text(m.presentation_type))]
        + seq![("profiles"@, m.profiles@)]
        + opt_attr("id"@, m.id)
        + seq![("minBufferTime"@, m.min_buffer_time@)]
        + opt_attr("mediaPresentationDuration"@, m.media_presentation_duration)
        + opt_attr("minimumUpdatePeriod"@, m.minimum_update_period)
        + opt_attr("availabilityStartTime"@, m.availability_start_time)
        + opt_attr("availabilityEndTime"@, m.availability_end_time)
}

/// What the reader finds in the attributes 0 to 7 (counted from zero) that
/// the writer gives an `MPD` element.
proof fn lemma_mpd_attrs_found_0(m: Mpd)
    ensures
        lookup_written(mpd_attrs_part_0(m), "type"@) == Some(presentation_type_text(m.presentation_type)),
        lookup_written(mpd_attrs_part_0(m), "profiles"@) == Some(m.profiles@),
        lookup_written(mpd_attrs_part_0(m), "id"@) == opt_view(m.id),
        lookup_written(mpd_attrs_part_0(m), "minBufferTime"@) == Some(m.min_buffer_time@),
        lookup_written(mpd_attrs_part_0(m), "mediaPresentationDuration"@) == opt_view(m.media_presentation_duration),
        lookup_written(mpd_attrs_part_0(m), "minimumUpdatePeriod"@) == opt_view(m.minimum_update_period),
        lookup_written(mpd_attrs_part_0(m), "availabilityStartTime"@) == opt_view(m.availability_start_time),
        lookup_written(mpd_attrs_part_0(m), "availabilityEndTime"@) == opt_view(m.availability_end_time),
        lookup_written(mpd_attrs_part_0(m), "timeShiftBufferDepth"@) == None::<Seq<char>>,
        lookup_written(mpd_attrs_part_0(m), "suggestedPresentationDelay"@) == None::<Seq<char>>,
        lookup_written(mpd_attrs_part_0(m), "publishTime"@) == None::<Seq<char>>,
        lookup_written(mpd_attrs_part_0(m), "maxSegmentDuration"@) == None::<Seq<char>>,
        lookup_written(mpd_attrs_part_0(m), "maxSubsegmentDuration"@) == None::<Seq<char>>,
{
    lemma_names_mpd();
    let p0: Attrs = seq![("type"@, presentation_type_text(m.presentation_type))];
    let p1: Attrs = seq![("profiles"@, m.profiles@)];
    let p2: Attrs = opt_attr("id"@, m.id);
    let p3: Attrs = seq![("minBufferTime"@, m.min_buffer_time@)];
    let p4: Attrs = opt_attr("mediaPresentationDuration"@, m.media_presentation_duration);
    let p5: Attrs = opt_attr("minimumUpdatePeriod"@, m.minimum_update_period);
    let p6: Attrs = opt_attr("availabilityStartTime"@, m.availability_start_time);
    let p7: Attrs = opt_attr("availabilityEndTime"@, m.availability_end_time);
    lemma_lookup_part(p0, "type"@, Some(presentation_type_text(m.presentation_type)));
    lemma_lookup_part(p1, "profiles"@, Some(m.profiles@));
    lemma_lookup_part(p2, "id"@, opt_view(m.id));
    lemma_lookup_part(p3, "minBufferTime"@, Some(m.min_buffer_time@));
    lemma_lookup_part(p4, "mediaPresentationDuration"@, opt_view(m.media_presentation_duration));
    lemma_lookup_part(p5, "minimumUpdatePeriod"@, opt_view(m.minimum_update_period));
    lemma_lookup_part(p6, "availabilityStartTime"@, opt_view(m.availability_start_time));
    lemma_lookup_part(p7, "availabilityEndTime"@, opt_view(m.availability_end_time));
    lemma_lookup_cat(p0, p1);
    let c1 = p0 + p1;
    lemma_lookup_cat(c1, p2);
    let c2 = c1 + p2;
    lemma_lookup_cat(c2, p3);
    let c3 = c2 + p3;
    lemma_lookup_cat(c3, p4);
    let c4 = c3 + p4;
    lemma_lookup_cat(c4, p5);
    let c5 = c4 + p5;
    lemma_lookup_cat(c5, p6);
    let c6 = c5 + p6;
    lemma_lookup_cat(c6, p7);
}

/// The attributes 8 to 12 (counted from zero) that the writer
/// gives an `MPD` element.
pub open spec fn mpd_attrs_part_1(m: Mpd) -> Attrs {
    opt_attr("timeShiftBufferDepth"@, m.time_shift_buffer_depth)
        + opt_attr("suggestedPresentationDelay"@, m.suggested_presentation_delay)
        + opt_attr("publishTime"@, m.publish_time)
        + opt_attr("maxSegmentDuration"@, m.max_segment_duration)
        + opt_attr("maxSubsegmentDuration"@, m.max_subsegment_duration)
}

/// What the reader finds in the attributes 8 to 12 (counted from zero) that
/// the writer gives an `MPD` element.
proof fn lemma_mpd_attrs_found_1(m: Mpd)
    ensures
        lookup_written(mpd_attrs_part_1(m), "type"@) == None::<Seq<char>>,
        lookup_written(mpd_attrs_part_1(m), "profiles"@) == None::<Seq<char>>,
        lookup_written(mpd_attrs_part_1(m), "id"@) == None::<Seq<char>>,
        lookup_written(mpd_attrs_part_1(m), "minBufferTime"@) == None::<Seq<char>>,
        lookup_written(mpd_attrs_part_1(m), "mediaPresentationDuration"@) == None::<Seq<char>>,
        lookup_written(mpd_attrs_part_1(m), "minimumUpdatePeriod"@) == None::<Seq<char>>,
        lookup_written(mpd_attrs_part_1(m), "availabilityStartTime"@) == None::<Seq<char>>,
        lookup_written(mpd_attrs_part_1(m), "availabilityEndTime"@) == None::<Seq<char>>,
        lookup_written(mpd_attrs_part_1(m), "timeShiftBufferDepth"@) == opt_view(m.time_shift_buffer_depth),
        lookup_written(mpd_attrs_part_1(m), "suggestedPresentationDelay"@) == opt_view(m.suggested_presentation_delay),
        lookup_written(mpd_attrs_part_1(m), "publishTime"@) == opt_view(m.publish_time),
        lookup_written(mpd_attrs_part_1(m), "maxSegmentDuration"@) == opt_view(m.max_segment_duration),
        lookup_written(mpd_attrs_part_1(m), "maxSubsegmentDuration"@) == opt_view(m.max_subsegment_duration),
{
    lemma_names_mpd();
    let p8: Attrs = opt_attr("timeShiftBufferDepth"@, m.time_shift_buffer_depth);
    let p9: Attrs = opt_attr("suggestedPresentationDelay"@, m.suggested_presentation_delay);
    let p10: Attrs = opt_attr("publishTime"@, m.publish_time);
    let p11: Attrs = opt_attr("maxSegmentDuration"@, m.max_segment_duration);
    let p12: Attrs = opt_attr("maxSubsegmentDuration"@, m.max_subsegment_duration);
    lemma_lookup_part(p8, "timeShiftBufferDepth"@, opt_view(m.time_shift_buffer_depth));
    lemma_lookup_part(p9, "suggestedPresentationDelay"@, opt_view(m.suggested_presentation_delay));
    lemma_lookup_part(p10, "publishTime"@, opt_view(m.publish_time));
    lemma_lookup_part(p11, "maxSegmentDuration"@, opt_view(m.max_segment_duration));
    lemma_lookup_part(p12, "maxSubsegmentDuration"@, opt_view(m.max_subsegment_duration));
    lemma_lookup_cat(p8, p9);
    let c1 = p8 + p9;
    lemma_lookup_cat(c1, p10);
    let c2 = c1 + p10;
    lemma_lookup_cat(c2, p11);
    let c3 = c2 + p11;
    lemma_lookup_cat(c3, p12);
}

/// What the reader finds under each attribute name that the writer gives
/// an `MPD` element.
proof fn lemma_mpd_attrs_found(m: Mpd)
    ensures
        lookup_written(mpd_attrs(m), "type"@) == Some(presentation_type_text(m.presentation_type)),
        lookup_written(mpd_attrs(m), "profiles"@) == Some(m.profiles@),
        lookup_written(mpd_attrs(m), "id"@) == opt_view(m.id),
        lookup_written(mpd_attrs(m), "minBufferTime"@) == Some(m.min_buffer_time@),
        lookup_written(mpd_attrs(m), "mediaPresentationDuration"@) == opt_view(m.media_presentation_duration),
        lookup_written(mpd_attrs(m), "minimumUpdatePeriod"@) == opt_view(m.minimum_update_period),
        lookup_written(mpd_attrs(m), "availabilityStartTime"@) == opt_view(m.availability_start_time),
        lookup_written(mpd_attrs(m), "availabilityEndTime"@) == opt_view(m.availability_end_time),
        lookup_written(mpd_attrs(m), "timeShiftBufferDepth"@) == opt_view(m.time_shift_buffer_depth),
        lookup_written(mpd_attrs(m), "suggestedPresentationDelay"@) == opt_view(m.suggested_presentation_delay),
        lookup_written(mpd_attrs(m), "publishTime"@) == opt_view(m.publish_time),
        lookup_written(mpd_attrs(m), "maxSegmentDuration"@) == opt_view(m.max_segment_duration),
        lookup_written(mpd_attrs(m), "maxSubsegmentDuration"@) == opt_view(m.max_subsegment_duration),
{
    reveal(mpd_attrs);
    let p0: Attrs = seq![("type"@, presentation_type_text(m.presentation_type))];
    let p1: Attrs = seq![("profiles"@, m.profiles@)];
    let p2: Attrs = opt_attr("id"@, m.id);
    let p3: Attrs = seq![("minBufferTime"@, m.min_buffer_time@)];
    let p4: Attrs = opt_attr("mediaPresentationDuration"@, m.media_presentation_duration);
    let p5: Attrs = opt_attr("minimumUpdatePeriod"@, m.minimum_update_period);
    let p6: Attrs = opt_attr("availabilityStartTime"@, m.availability_start_time);
    let p7: Attrs = opt_attr("availabilityEndTime"@, m.availability_end_time);
    let p8: Attrs = opt_attr("timeShiftBufferDepth"@, m.time_shift_buffer_depth);
    let p9: Attrs = opt_attr("suggestedPresentationDelay"@, m.suggested_presentation_delay);
    let p10: Attrs = opt_attr("publishTime"@, m.publish_time);
    let p11: Attrs = opt_attr("maxSegmentDuration"@, m.max_segment_duration);
    let p12: Attrs = opt_attr("maxSubsegmentDuration"@, m.max_subsegment_duration);
    lemma_mpd_attrs_found_0(m);
    lemma_mpd_attrs_found_1(m);
    let b1 = mpd_attrs_part_0(m);
    lemma_concat_associative(b1, p8, p9);
    let w1_1 = p8 + p9;
    lemma_concat_associative(b1, w1_1, p10);
    let w1_2 = w1_1 + p10;
    lemma_concat_associative(b1, w1_2, p11);
    let w1_3 = w1_2 + p11;
    lemma_concat_associative(b1, w1_3, p12);
    let w1_4 = w1_3 + p12;
    lemma_lookup_cat(b1, mpd_attrs_part_1(m));
    let b2 = b1 + mpd_attrs_part_1(m);
    assert(mpd_attrs(m) == b2);
}

/// Every attribute that the writer gives an `MPD` element, the reader reads back
/// as the value it was written from,
/// each duration among them being one that the reader accepts;
/// what the element holds inside is read apart from its attributes.
pub proof fn law_mpd_attributes_read_back(m: Mpd)
    requires
        duration_ok(m.min_buffer_time@),
        m.media_presentation_duration matches Some(s) ==> duration_ok(s@),
        m.minimum_update_period matches Some(s) ==> duration_ok(s@),
        m.time_shift_buffer_depth matches Some(s) ==> duration_ok(s@),
        m.suggested_presentation_delay matches Some(s) ==> duration_ok(s@),
        m.max_segment_duration matches Some(s) ==> duration_ok(s@),
        m.max_subsegment_duration matches Some(s) ==> duration_ok(s@),
    ensures
        mpd_start(attrs_as_read(mpd_attrs(m))) == Ok::<MpdV,
            ErrorKind>(MpdV { base_urls: seq![],
            utc_timings: seq![],
            locations: seq![],
            service_descriptions: seq![],
            content_steering: None,
            patch_locations: seq![],
            essential_properties: seq![],
            supplemental_properties: seq![],
            metrics: seq![],
            periods: seq![],
            ..m@ }),
{
    reveal(mpd_start);
    lemma_mpd_attrs_found(m);
    reveal(lookup_written);
    reveal(lookup_written_xlink);
    lemma_presentation_type_read();
}

} // verus!
