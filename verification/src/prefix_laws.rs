//! Which fields of the model make the writer use a namespace prefix: the
//! elements that carry extension attributes or children use `cenc:` or
//! `dvb:` exactly when those fields are present.
use vstd::prelude::*;

use crate::types::{AdaptationSet, BaseUrl, CertUrl, ContentProtection, Descriptor, Representation};
use crate::writer::{
    attr_uses_prefix, base_url_attrs, base_url_events, base_url_inner, bool_attr, cert_url_attrs,
    cert_url_events, cert_url_fn, cert_url_inner, content_protection_attrs,
    content_protection_events, content_protection_inner, descriptor_attrs, descriptor_events,
    descriptor_inner, each_events, element_events, event_uses_prefix, opt_attr, prefix_used,
    text_element_events, u32_attr, Attrs, adaptation_set_attrs, representation_attrs, u64_attr,
    content_type_attr, true_attr,
};
use crate::text::decimal;
use crate::xml_io::WriteEventV;

verus! {

proof fn lemma_prefix_used_cat(a: Seq<WriteEventV>, b: Seq<WriteEventV>, p: Seq<char>)
    ensures
        prefix_used(a + b, p) == (prefix_used(a, p) || prefix_used(b, p)),
{
    let ab = a + b;
    if prefix_used(ab, p) {
        let i = choose|i: int| 0 <= i < ab.len() && event_uses_prefix(#[trigger] ab[i], p);
        if i < a.len() {
            assert(ab[i] == a[i]);
        } else {
            assert(ab[i] == b[i - a.len()]);
        }
    }
    if prefix_used(a, p) {
        let i = choose|i: int| 0 <= i < a.len() && event_uses_prefix(#[trigger] a[i], p);
        assert(ab[i] == a[i]);
    }
    if prefix_used(b, p) {
        let i = choose|i: int| 0 <= i < b.len() && event_uses_prefix(#[trigger] b[i], p);
        assert(ab[i + a.len()] == b[i]);
    }
}

proof fn lemma_attr_uses_cat(a: Attrs, b: Attrs, p: Seq<char>)
    ensures
        attr_uses_prefix(a + b, p) == (attr_uses_prefix(a, p) || attr_uses_prefix(b, p)),
{
    let ab = a + b;
    if attr_uses_prefix(ab, p) {
        let j = choose|j: int| 0 <= j < ab.len() && p.is_prefix_of(#[trigger] ab[j].0);
        if j < a.len() {
            assert(ab[j] == a[j]);
        } else {
            assert(ab[j] == b[j - a.len()]);
        }
    }
    if attr_uses_prefix(a, p) {
        let j = choose|j: int| 0 <= j < a.len() && p.is_prefix_of(#[trigger] a[j].0);
        assert(ab[j] == a[j]);
    }
    if attr_uses_prefix(b, p) {
        let j = choose|j: int| 0 <= j < b.len() && p.is_prefix_of(#[trigger] b[j].0);
        assert(ab[j + a.len()] == b[j]);
    }
}

proof fn lemma_one_attr(name: Seq<char>, v: Seq<char>, p: Seq<char>)
    ensures
        attr_uses_prefix(seq![(name, v)], p) == p.is_prefix_of(name),
{
    let a = seq![(name, v)];
    if p.is_prefix_of(name) {
        assert(p.is_prefix_of(a[0].0));
    }
}

proof fn lemma_no_attr(p: Seq<char>)
    ensures
        !attr_uses_prefix(Seq::<(Seq<char>, Seq<char>)>::empty(), p),
{
}

proof fn lemma_opt_attr(name: Seq<char>, v: Option<String>, p: Seq<char>)
    ensures
        attr_uses_prefix(opt_attr(name, v), p) == (v is Some && p.is_prefix_of(name)),
{
    if let Some(s) = v {
        lemma_one_attr(name, s@, p);
    }
}

proof fn lemma_u32_attr(name: Seq<char>, v: Option<u32>, p: Seq<char>)
    ensures
        attr_uses_prefix(u32_attr(name, v), p) == (v is Some && p.is_prefix_of(name)),
{
    if let Some(n) = v {
        lemma_one_attr(name, u32_attr(name, v)[0].1, p);
        assert(u32_attr(name, v) == seq![(name, u32_attr(name, v)[0].1)]);
    }
}

proof fn lemma_bool_attr(name: Seq<char>, v: Option<bool>, p: Seq<char>)
    ensures
        attr_uses_prefix(bool_attr(name, v), p) == (v is Some && p.is_prefix_of(name)),
{
    if let Some(b) = v {
        lemma_one_attr(name, bool_attr(name, v)[0].1, p);
        assert(bool_attr(name, v) == seq![(name, bool_attr(name, v)[0].1)]);
    }
}

proof fn lemma_element_prefix(
    n: Seq<char>,
    ns: Seq<(Seq<char>, Seq<char>)>,
    at: Attrs,
    inner: Seq<WriteEventV>,
    p: Seq<char>,
)
    ensures
        prefix_used(element_events(n, ns, at, inner), p) == (p.is_prefix_of(n) || attr_uses_prefix(at, p)
            || prefix_used(inner, p)),
{
    let s = seq![WriteEventV::Start(n, ns, at)];
    let e = seq![WriteEventV::End];
    lemma_prefix_used_cat(s, inner, p);
    lemma_prefix_used_cat(s + inner, e, p);
    assert(prefix_used(s, p) == event_uses_prefix(s[0], p));
    assert(!prefix_used(e, p)) by {
        assert(!event_uses_prefix(e[0], p));
    }
}

proof fn lemma_characters_unprefixed(t: Seq<char>, p: Seq<char>)
    ensures
        !prefix_used(seq![WriteEventV::Characters(t)], p),
{
    assert(!event_uses_prefix(seq![WriteEventV::Characters(t)][0], p));
}

proof fn lemma_empty_unprefixed(p: Seq<char>)
    ensures
        !prefix_used(Seq::<WriteEventV>::empty(), p),
{
}

/// `p` does not begin `s`: they differ at index `k`, or `s` ends before it.
proof fn lemma_not_prefix(p: Seq<char>, s: Seq<char>, k: int)
    requires
        0 <= k < p.len(),
        k >= s.len() || p[k] != s[k],
    ensures
        !p.is_prefix_of(s),
{
    if p.is_prefix_of(s) {
        assert(s.subrange(0, p.len() as int)[k] == s[k]);
    }
}

proof fn lemma_is_prefix(p: Seq<char>, s: Seq<char>)
    requires
        p.len() <= s.len(),
        forall|k: int| 0 <= k < p.len() ==> p[k] == s[k],
    ensures
        p.is_prefix_of(s),
{
    assert(p =~= s.subrange(0, p.len() as int));
}

proof fn lemma_text_element_prefix(name: Seq<char>, v: Option<String>, p: Seq<char>)
    ensures
        prefix_used(text_element_events(name, v), p) == (v is Some && p.is_prefix_of(name)),
{
    match v {
        Some(s) => {
            lemma_element_prefix(name, seq![], seq![], seq![WriteEventV::Characters(s@)], p);
            lemma_no_attr(p);
            lemma_characters_unprefixed(s@, p);
        },
        None => {
            lemma_empty_unprefixed(p);
        },
    }
}

proof fn lemma_cert_urls_without_cenc(s: Seq<CertUrl>)
    ensures
        !prefix_used(each_events(s, cert_url_fn()), "cenc:"@),
    decreases s.len(),
{
    reveal(each_events);
    reveal_strlit("cenc:");
    if s.len() == 0 {
        lemma_empty_unprefixed("cenc:"@);
    } else {
        lemma_cert_urls_without_cenc(s.drop_last());
        let c = s.last();
        reveal(cert_url_attrs);
        reveal(cert_url_inner);
        reveal_strlit("Certurl");
        reveal_strlit("certType");
        lemma_element_prefix("Certurl"@, seq![], cert_url_attrs(c), cert_url_inner(c), "cenc:"@);
        lemma_not_prefix("cenc:"@, "Certurl"@, 0);
        lemma_not_prefix("cenc:"@, "certType"@, 2);
        lemma_opt_attr("certType"@, c.cert_type, "cenc:"@);
        lemma_characters_unprefixed(c.url@, "cenc:"@);
        lemma_prefix_used_cat(each_events(s.drop_last(), cert_url_fn()), cert_url_events(c), "cenc:"@);
    }
}

/// A `ContentProtection` is written with a name in the `cenc` namespace
/// exactly when it has a default KID (`cenc:default_KID`) or a `cenc:pssh`.
pub proof fn law_content_protection_uses_cenc_iff(c: ContentProtection)
    ensures
        prefix_used(content_protection_events(c), "cenc:"@) == (c.default_kid is Some || c.pssh is Some),
{
    let p = "cenc:"@;
    reveal_strlit("cenc:");
    reveal_strlit("ContentProtection");
    reveal_strlit("schemeIdUri");
    reveal_strlit("value");
    reveal_strlit("cenc:default_KID");
    reveal_strlit("robustness");
    reveal_strlit("ref");
    reveal_strlit("refId");
    reveal_strlit("cenc:pssh");
    reveal_strlit("Laurl");
    reveal_strlit("pro");
    reveal(content_protection_attrs);
    reveal(content_protection_inner);
    lemma_element_prefix("ContentProtection"@, seq![], content_protection_attrs(c), content_protection_inner(c), p);
    lemma_not_prefix(p, "ContentProtection"@, 0);
    let a1 = seq![("schemeIdUri"@, c.scheme_id_uri@)];
    let a2 = opt_attr("value"@, c.value);
    let a3 = opt_attr("cenc:default_KID"@, c.default_kid);
    let a4 = opt_attr("robustness"@, c.robustness);
    let a5 = opt_attr("ref"@, c.ref_);
    let a6 = opt_attr("refId"@, c.ref_id);
    lemma_one_attr("schemeIdUri"@, c.scheme_id_uri@, p);
    lemma_not_prefix(p, "schemeIdUri"@, 0);
    lemma_opt_attr("value"@, c.value, p);
    lemma_not_prefix(p, "value"@, 0);
    lemma_opt_attr("cenc:default_KID"@, c.default_kid, p);
    lemma_is_prefix(p, "cenc:default_KID"@);
    lemma_opt_attr("robustness"@, c.robustness, p);
    lemma_not_prefix(p, "robustness"@, 0);
    lemma_opt_attr("ref"@, c.ref_, p);
    lemma_not_prefix(p, "ref"@, 0);
    lemma_opt_attr("refId"@, c.ref_id, p);
    lemma_not_prefix(p, "refId"@, 0);
    lemma_attr_uses_cat(a1, a2, p);
    lemma_attr_uses_cat(a1 + a2, a3, p);
    lemma_attr_uses_cat(a1 + a2 + a3, a4, p);
    lemma_attr_uses_cat(a1 + a2 + a3 + a4, a5, p);
    lemma_attr_uses_cat(a1 + a2 + a3 + a4 + a5, a6, p);
    let i1 = text_element_events("cenc:pssh"@, c.pssh);
    let i2 = text_element_events("Laurl"@, c.laurl);
    let i3 = text_element_events("pro"@, c.pro);
    let i4 = each_events(c.certurls@, cert_url_fn());
    lemma_text_element_prefix("cenc:pssh"@, c.pssh, p);
    lemma_is_prefix(p, "cenc:pssh"@);
    lemma_text_element_prefix("Laurl"@, c.laurl, p);
    lemma_not_prefix(p, "Laurl"@, 0);
    lemma_text_element_prefix("pro"@, c.pro, p);
    lemma_not_prefix(p, "pro"@, 0);
    lemma_cert_urls_without_cenc(c.certurls@);
    lemma_prefix_used_cat(i1, i2, p);
    lemma_prefix_used_cat(i1 + i2, i3, p);
    lemma_prefix_used_cat(i1 + i2 + i3, i4, p);
}

/// A descriptor element whose own name is not in the `dvb` namespace is
/// written with a name in that namespace exactly when it has one of the DVB
/// extension attributes (`dvb:url`, `dvb:mimeType`, `dvb:fontFamily`).
pub proof fn law_descriptor_uses_dvb_iff(name: Seq<char>, d: Descriptor)
    requires
        !"dvb:"@.is_prefix_of(name),
    ensures
        prefix_used(descriptor_events(name, d), "dvb:"@) == (d.dvb_url is Some || d.dvb_mime_type is Some
            || d.dvb_font_family is Some),
{
    let p = "dvb:"@;
    reveal_strlit("dvb:");
    reveal_strlit("schemeIdUri");
    reveal_strlit("value");
    reveal_strlit("id");
    reveal_strlit("dvb:url");
    reveal_strlit("dvb:mimeType");
    reveal_strlit("dvb:fontFamily");
    reveal(descriptor_attrs);
    reveal(descriptor_inner);
    lemma_element_prefix(name, seq![], descriptor_attrs(d), descriptor_inner(d), p);
    lemma_empty_unprefixed(p);
    let a1 = seq![("schemeIdUri"@, d.scheme_id_uri@)];
    let a2 = opt_attr("value"@, d.value);
    let a3 = opt_attr("id"@, d.id);
    let a4 = opt_attr("dvb:url"@, d.dvb_url);
    let a5 = opt_attr("dvb:mimeType"@, d.dvb_mime_type);
    let a6 = opt_attr("dvb:fontFamily"@, d.dvb_font_family);
    lemma_one_attr("schemeIdUri"@, d.scheme_id_uri@, p);
    lemma_not_prefix(p, "schemeIdUri"@, 0);
    lemma_opt_attr("value"@, d.value, p);
    lemma_not_prefix(p, "value"@, 0);
    lemma_opt_attr("id"@, d.id, p);
    lemma_not_prefix(p, "id"@, 0);
    lemma_opt_attr("dvb:url"@, d.dvb_url, p);
    lemma_is_prefix(p, "dvb:url"@);
    lemma_opt_attr("dvb:mimeType"@, d.dvb_mime_type, p);
    lemma_is_prefix(p, "dvb:mimeType"@);
    lemma_opt_attr("dvb:fontFamily"@, d.dvb_font_family, p);
    lemma_is_prefix(p, "dvb:fontFamily"@);
    lemma_attr_uses_cat(a1, a2, p);
    lemma_attr_uses_cat(a1 + a2, a3, p);
    lemma_attr_uses_cat(a1 + a2 + a3, a4, p);
    lemma_attr_uses_cat(a1 + a2 + a3 + a4, a5, p);
    lemma_attr_uses_cat(a1 + a2 + a3 + a4 + a5, a6, p);
}

/// A `BaseURL` is written with a name in the `dvb` namespace exactly when it
/// has a DVB priority or weight.
pub proof fn law_base_url_uses_dvb_iff(b: BaseUrl)
    ensures
        prefix_used(base_url_events(b), "dvb:"@) == (b.dvb_priority is Some || b.dvb_weight is Some),
{
    let p = "dvb:"@;
    reveal_strlit("dvb:");
    reveal_strlit("BaseURL");
    reveal_strlit("serviceLocation");
    reveal_strlit("availabilityTimeOffset");
    reveal_strlit("availabilityTimeComplete");
    reveal_strlit("byteRange");
    reveal_strlit("dvb:priority");
    reveal_strlit("dvb:weight");
    reveal(base_url_attrs);
    reveal(base_url_inner);
    lemma_element_prefix("BaseURL"@, seq![], base_url_attrs(b), base_url_inner(b), p);
    lemma_not_prefix(p, "BaseURL"@, 0);
    lemma_characters_unprefixed(b.url@, p);
    let a1 = opt_attr("serviceLocation"@, b.service_location);
    let a2 = opt_attr("availabilityTimeOffset"@, b.availability_time_offset);
    let a3 = bool_attr("availabilityTimeComplete"@, b.availability_time_complete);
    let a4 = opt_attr("byteRange"@, b.byte_range);
    let a5 = u32_attr("dvb:priority"@, b.dvb_priority);
    let a6 = u32_attr("dvb:weight"@, b.dvb_weight);
    lemma_opt_attr("serviceLocation"@, b.service_location, p);
    lemma_not_prefix(p, "serviceLocation"@, 0);
    lemma_opt_attr("availabilityTimeOffset"@, b.availability_time_offset, p);
    lemma_not_prefix(p, "availabilityTimeOffset"@, 0);
    lemma_bool_attr("availabilityTimeComplete"@, b.availability_time_complete, p);
    lemma_not_prefix(p, "availabilityTimeComplete"@, 0);
    lemma_opt_attr("byteRange"@, b.byte_range, p);
    lemma_not_prefix(p, "byteRange"@, 0);
    lemma_u32_attr("dvb:priority"@, b.dvb_priority, p);
    lemma_is_prefix(p, "dvb:priority"@);
    lemma_u32_attr("dvb:weight"@, b.dvb_weight, p);
    lemma_is_prefix(p, "dvb:weight"@);
    lemma_attr_uses_cat(a1, a2, p);
    lemma_attr_uses_cat(a1 + a2, a3, p);
    lemma_attr_uses_cat(a1 + a2 + a3, a4, p);
    lemma_attr_uses_cat(a1 + a2 + a3 + a4, a5, p);
    lemma_attr_uses_cat(a1 + a2 + a3 + a4 + a5, a6, p);
}

proof fn lemma_at_most_one(a: Attrs, name: Seq<char>, p: Seq<char>)
    requires
        a.len() <= 1,
        a.len() == 1 ==> a[0].0 == name,
    ensures
        attr_uses_prefix(a, p) == (a.len() == 1 && p.is_prefix_of(name)),
{
    if a.len() == 1 && p.is_prefix_of(name) {
        assert(p.is_prefix_of(a[0].0));
    }
}

/// The start tag of an `AdaptationSet` has an attribute in the `scte214`
/// namespace exactly when the set has supplemental codecs.
pub proof fn law_adaptation_set_start_uses_scte214_iff(a: AdaptationSet)
    ensures
        attr_uses_prefix(adaptation_set_attrs(a), "scte214:"@) == (a.supplemental_codecs is Some),
{
    let p = "scte214:"@;
    reveal_strlit("scte214:");
    reveal(adaptation_set_attrs);
    reveal_strlit("audioSamplingRate");
    reveal_strlit("bitstreamSwitching");
    reveal_strlit("codecs");
    reveal_strlit("codingDependency");
    reveal_strlit("contentType");
    reveal_strlit("frameRate");
    reveal_strlit("height");
    reveal_strlit("id");
    reveal_strlit("lang");
    reveal_strlit("maxBandwidth");
    reveal_strlit("maxFrameRate");
    reveal_strlit("maxHeight");
    reveal_strlit("maxPlayoutRate");
    reveal_strlit("maxWidth");
    reveal_strlit("maximumSAPPeriod");
    reveal_strlit("mimeType");
    reveal_strlit("minBandwidth");
    reveal_strlit("minFrameRate");
    reveal_strlit("minHeight");
    reveal_strlit("minWidth");
    reveal_strlit("par");
    reveal_strlit("profiles");
    reveal_strlit("sar");
    reveal_strlit("scanType");
    reveal_strlit("scte214:supplementalCodecs");
    reveal_strlit("segmentAlignment");
    reveal_strlit("segmentProfiles");
    reveal_strlit("selectionPriority");
    reveal_strlit("startWithSAP");
    reveal_strlit("subsegmentAlignment");
    reveal_strlit("width");
    let a0 = u32_attr("id"@, a.id);
    lemma_at_most_one(a0, "id"@, p);
    lemma_not_prefix(p, "id"@, 0);
    let s0 = a0;
    let a1 = opt_attr("mimeType"@, a.mime_type);
    lemma_at_most_one(a1, "mimeType"@, p);
    lemma_not_prefix(p, "mimeType"@, 0);
    lemma_attr_uses_cat(s0, a1, p);
    let s1 = s0 + a1;
    let a2 = opt_attr("codecs"@, a.codecs);
    lemma_at_most_one(a2, "codecs"@, p);
    lemma_not_prefix(p, "codecs"@, 0);
    lemma_attr_uses_cat(s1, a2, p);
    let s2 = s1 + a2;
    let a3 = content_type_attr("contentType"@, a.content_type);
    lemma_at_most_one(a3, "contentType"@, p);
    lemma_not_prefix(p, "contentType"@, 0);
    lemma_attr_uses_cat(s2, a3, p);
    let s3 = s2 + a3;
    let a4 = opt_attr("lang"@, a.lang);
    lemma_at_most_one(a4, "lang"@, p);
    lemma_not_prefix(p, "lang"@, 0);
    lemma_attr_uses_cat(s3, a4, p);
    let s4 = s3 + a4;
    let a5 = u32_attr("width"@, a.width);
    lemma_at_most_one(a5, "width"@, p);
    lemma_not_prefix(p, "width"@, 0);
    lemma_attr_uses_cat(s4, a5, p);
    let s5 = s4 + a5;
    let a6 = u32_attr("height"@, a.height);
    lemma_at_most_one(a6, "height"@, p);
    lemma_not_prefix(p, "height"@, 0);
    lemma_attr_uses_cat(s5, a6, p);
    let s6 = s5 + a6;
    let a7 = opt_attr("frameRate"@, a.frame_rate);
    lemma_at_most_one(a7, "frameRate"@, p);
    lemma_not_prefix(p, "frameRate"@, 0);
    lemma_attr_uses_cat(s6, a7, p);
    let s7 = s6 + a7;
    let a8 = u32_attr("minWidth"@, a.min_width);
    lemma_at_most_one(a8, "minWidth"@, p);
    lemma_not_prefix(p, "minWidth"@, 0);
    lemma_attr_uses_cat(s7, a8, p);
    let s8 = s7 + a8;
    let a9 = u32_attr("minHeight"@, a.min_height);
    lemma_at_most_one(a9, "minHeight"@, p);
    lemma_not_prefix(p, "minHeight"@, 0);
    lemma_attr_uses_cat(s8, a9, p);
    let s9 = s8 + a9;
    let a10 = opt_attr("minFrameRate"@, a.min_frame_rate);
    lemma_at_most_one(a10, "minFrameRate"@, p);
    lemma_not_prefix(p, "minFrameRate"@, 0);
    lemma_attr_uses_cat(s9, a10, p);
    let s10 = s9 + a10;
    let a11 = u64_attr("minBandwidth"@, a.min_bandwidth);
    lemma_at_most_one(a11, "minBandwidth"@, p);
    lemma_not_prefix(p, "minBandwidth"@, 0);
    lemma_attr_uses_cat(s10, a11, p);
    let s11 = s10 + a11;
    let a12 = u64_attr("maxBandwidth"@, a.max_bandwidth);
    lemma_at_most_one(a12, "maxBandwidth"@, p);
    lemma_not_prefix(p, "maxBandwidth"@, 0);
    lemma_attr_uses_cat(s11, a12, p);
    let s12 = s11 + a12;
    let a13 = u32_attr("maxWidth"@, a.max_width);
    lemma_at_most_one(a13, "maxWidth"@, p);
    lemma_not_prefix(p, "maxWidth"@, 0);
    lemma_attr_uses_cat(s12, a13, p);
    let s13 = s12 + a13;
    let a14 = u32_attr("maxHeight"@, a.max_height);
    lemma_at_most_one(a14, "maxHeight"@, p);
    lemma_not_prefix(p, "maxHeight"@, 0);
    lemma_attr_uses_cat(s13, a14, p);
    let s14 = s13 + a14;
    let a15 = opt_attr("maxFrameRate"@, a.max_frame_rate);
    lemma_at_most_one(a15, "maxFrameRate"@, p);
    lemma_not_prefix(p, "maxFrameRate"@, 0);
    lemma_attr_uses_cat(s14, a15, p);
    let s15 = s14 + a15;
    let a16 = opt_attr("par"@, a.par);
    lemma_at_most_one(a16, "par"@, p);
    lemma_not_prefix(p, "par"@, 0);
    lemma_attr_uses_cat(s15, a16, p);
    let s16 = s15 + a16;
    let a17 = u32_attr("audioSamplingRate"@, a.audio_sampling_rate);
    lemma_at_most_one(a17, "audioSamplingRate"@, p);
    lemma_not_prefix(p, "audioSamplingRate"@, 0);
    lemma_attr_uses_cat(s16, a17, p);
    let s17 = s16 + a17;
    let a18 = opt_attr("sar"@, a.sar);
    lemma_at_most_one(a18, "sar"@, p);
    lemma_not_prefix(p, "sar"@, 1);
    lemma_attr_uses_cat(s17, a18, p);
    let s18 = s17 + a18;
    let a19 = opt_attr("profiles"@, a.profiles);
    lemma_at_most_one(a19, "profiles"@, p);
    lemma_not_prefix(p, "profiles"@, 0);
    lemma_attr_uses_cat(s18, a19, p);
    let s19 = s18 + a19;
    let a20 = opt_attr("scanType"@, a.scan_type);
    lemma_at_most_one(a20, "scanType"@, p);
    lemma_not_prefix(p, "scanType"@, 2);
    lemma_attr_uses_cat(s19, a20, p);
    let s20 = s19 + a20;
    let a21 = u32_attr("startWithSAP"@, a.start_with_sap);
    lemma_at_most_one(a21, "startWithSAP"@, p);
    lemma_not_prefix(p, "startWithSAP"@, 1);
    lemma_attr_uses_cat(s20, a21, p);
    let s21 = s20 + a21;
    let a22 = opt_attr("maxPlayoutRate"@, a.max_playout_rate);
    lemma_at_most_one(a22, "maxPlayoutRate"@, p);
    lemma_not_prefix(p, "maxPlayoutRate"@, 0);
    lemma_attr_uses_cat(s21, a22, p);
    let s22 = s21 + a22;
    let a23 = u32_attr("selectionPriority"@, a.selection_priority);
    lemma_at_most_one(a23, "selectionPriority"@, p);
    lemma_not_prefix(p, "selectionPriority"@, 1);
    lemma_attr_uses_cat(s22, a23, p);
    let s23 = s22 + a23;
    let a24 = opt_attr("scte214:supplementalCodecs"@, a.supplemental_codecs);
    lemma_at_most_one(a24, "scte214:supplementalCodecs"@, p);
    lemma_is_prefix(p, "scte214:supplementalCodecs"@);
    lemma_attr_uses_cat(s23, a24, p);
    let s24 = s23 + a24;
    let a25 = bool_attr("codingDependency"@, a.coding_dependency);
    lemma_at_most_one(a25, "codingDependency"@, p);
    lemma_not_prefix(p, "codingDependency"@, 0);
    lemma_attr_uses_cat(s24, a25, p);
    let s25 = s24 + a25;
    let a26 = opt_attr("maximumSAPPeriod"@, a.maximum_sap_period);
    lemma_at_most_one(a26, "maximumSAPPeriod"@, p);
    lemma_not_prefix(p, "maximumSAPPeriod"@, 0);
    lemma_attr_uses_cat(s25, a26, p);
    let s26 = s25 + a26;
    let a27 = opt_attr("segmentProfiles"@, a.segment_profiles);
    lemma_at_most_one(a27, "segmentProfiles"@, p);
    lemma_not_prefix(p, "segmentProfiles"@, 1);
    lemma_attr_uses_cat(s26, a27, p);
    let s27 = s26 + a27;
    let a28 = true_attr("segmentAlignment"@, a.segment_alignment);
    lemma_at_most_one(a28, "segmentAlignment"@, p);
    lemma_not_prefix(p, "segmentAlignment"@, 1);
    lemma_attr_uses_cat(s27, a28, p);
    let s28 = s27 + a28;
    let a29 = true_attr("subsegmentAlignment"@, a.subsegment_alignment);
    lemma_at_most_one(a29, "subsegmentAlignment"@, p);
    lemma_not_prefix(p, "subsegmentAlignment"@, 1);
    lemma_attr_uses_cat(s28, a29, p);
    let s29 = s28 + a29;
    let a30 = bool_attr("bitstreamSwitching"@, a.bitstream_switching);
    lemma_at_most_one(a30, "bitstreamSwitching"@, p);
    lemma_not_prefix(p, "bitstreamSwitching"@, 0);
    lemma_attr_uses_cat(s29, a30, p);
    let s30 = s29 + a30;
    assert(adaptation_set_attrs(a) == s30);
}

/// The start tag of a `Representation` has an attribute in the `scte214`
/// namespace exactly when it has supplemental codecs.
pub proof fn law_representation_start_uses_scte214_iff(r: Representation)
    ensures
        attr_uses_prefix(representation_attrs(r), "scte214:"@) == (r.supplemental_codecs is Some),
{
    let p = "scte214:"@;
    reveal_strlit("scte214:");
    reveal(representation_attrs);
    reveal_strlit("audioSamplingRate");
    reveal_strlit("bandwidth");
    reveal_strlit("codecPrivateData");
    reveal_strlit("codecs");
    reveal_strlit("codingDependency");
    reveal_strlit("dependencyId");
    reveal_strlit("frameRate");
    reveal_strlit("height");
    reveal_strlit("id");
    reveal_strlit("maxPlayoutRate");
    reveal_strlit("maximumSAPPeriod");
    reveal_strlit("mediaStreamStructureId");
    reveal_strlit("mimeType");
    reveal_strlit("profiles");
    reveal_strlit("qualityRanking");
    reveal_strlit("sar");
    reveal_strlit("scanType");
    reveal_strlit("scte214:supplementalCodecs");
    reveal_strlit("segmentProfiles");
    reveal_strlit("startWithSAP");
    reveal_strlit("width");
    let a0 = seq![("id"@, r.id@)];
    lemma_at_most_one(a0, "id"@, p);
    lemma_not_prefix(p, "id"@, 0);
    let s0 = a0;
    let a1 = seq![("bandwidth"@, decimal(r.bandwidth as nat))];
    lemma_at_most_one(a1, "bandwidth"@, p);
    lemma_not_prefix(p, "bandwidth"@, 0);
    lemma_attr_uses_cat(s0, a1, p);
    let s1 = s0 + a1;
    let a2 = opt_attr("mimeType"@, r.mime_type);
    lemma_at_most_one(a2, "mimeType"@, p);
    lemma_not_prefix(p, "mimeType"@, 0);
    lemma_attr_uses_cat(s1, a2, p);
    let s2 = s1 + a2;
    let a3 = opt_attr("codecs"@, r.codecs);
    lemma_at_most_one(a3, "codecs"@, p);
    lemma_not_prefix(p, "codecs"@, 0);
    lemma_attr_uses_cat(s2, a3, p);
    let s3 = s2 + a3;
    let a4 = u32_attr("width"@, r.width);
    lemma_at_most_one(a4, "width"@, p);
    lemma_not_prefix(p, "width"@, 0);
    lemma_attr_uses_cat(s3, a4, p);
    let s4 = s3 + a4;
    let a5 = u32_attr("height"@, r.height);
    lemma_at_most_one(a5, "height"@, p);
    lemma_not_prefix(p, "height"@, 0);
    lemma_attr_uses_cat(s4, a5, p);
    let s5 = s4 + a5;
    let a6 = opt_attr("frameRate"@, r.frame_rate);
    lemma_at_most_one(a6, "frameRate"@, p);
    lemma_not_prefix(p, "frameRate"@, 0);
    lemma_attr_uses_cat(s5, a6, p);
    let s6 = s5 + a6;
    let a7 = u32_attr("audioSamplingRate"@, r.audio_sampling_rate);
    lemma_at_most_one(a7, "audioSamplingRate"@, p);
    lemma_not_prefix(p, "audioSamplingRate"@, 0);
    lemma_attr_uses_cat(s6, a7, p);
    let s7 = s6 + a7;
    let a8 = opt_attr("sar"@, r.sar);
    lemma_at_most_one(a8, "sar"@, p);
    lemma_not_prefix(p, "sar"@, 1);
    lemma_attr_uses_cat(s7, a8, p);
    let s8 = s7 + a8;
    let a9 = u32_attr("qualityRanking"@, r.quality_ranking);
    lemma_at_most_one(a9, "qualityRanking"@, p);
    lemma_not_prefix(p, "qualityRanking"@, 0);
    lemma_attr_uses_cat(s8, a9, p);
    let s9 = s8 + a9;
    let a10 = opt_attr("dependencyId"@, r.dependency_id);
    lemma_at_most_one(a10, "dependencyId"@, p);
    lemma_not_prefix(p, "dependencyId"@, 0);
    lemma_attr_uses_cat(s9, a10, p);
    let s10 = s9 + a10;
    let a11 = opt_attr("maxPlayoutRate"@, r.max_playout_rate);
    lemma_at_most_one(a11, "maxPlayoutRate"@, p);
    lemma_not_prefix(p, "maxPlayoutRate"@, 0);
    lemma_attr_uses_cat(s10, a11, p);
    let s11 = s10 + a11;
    let a12 = opt_attr("scanType"@, r.scan_type);
    lemma_at_most_one(a12, "scanType"@, p);
    lemma_not_prefix(p, "scanType"@, 2);
    lemma_attr_uses_cat(s11, a12, p);
    let s12 = s11 + a12;
    let a13 = u32_attr("startWithSAP"@, r.start_with_sap);
    lemma_at_most_one(a13, "startWithSAP"@, p);
    lemma_not_prefix(p, "startWithSAP"@, 1);
    lemma_attr_uses_cat(s12, a13, p);
    let s13 = s12 + a13;
    let a14 = opt_attr("profiles"@, r.profiles);
    lemma_at_most_one(a14, "profiles"@, p);
    lemma_not_prefix(p, "profiles"@, 0);
    lemma_attr_uses_cat(s13, a14, p);
    let s14 = s13 + a14;
    let a15 = opt_attr("scte214:supplementalCodecs"@, r.supplemental_codecs);
    lemma_at_most_one(a15, "scte214:supplementalCodecs"@, p);
    lemma_is_prefix(p, "scte214:supplementalCodecs"@);
    lemma_attr_uses_cat(s14, a15, p);
    let s15 = s14 + a15;
    let a16 = bool_attr("codingDependency"@, r.coding_dependency);
    lemma_at_most_one(a16, "codingDependency"@, p);
    lemma_not_prefix(p, "codingDependency"@, 0);
    lemma_attr_uses_cat(s15, a16, p);
    let s16 = s15 + a16;
    let a17 = opt_attr("codecPrivateData"@, r.codec_private_data);
    lemma_at_most_one(a17, "codecPrivateData"@, p);
    lemma_not_prefix(p, "codecPrivateData"@, 0);
    lemma_attr_uses_cat(s16, a17, p);
    let s17 = s16 + a17;
    let a18 = opt_attr("mediaStreamStructureId"@, r.media_stream_structure_id);
    lemma_at_most_one(a18, "mediaStreamStructureId"@, p);
    lemma_not_prefix(p, "mediaStreamStructureId"@, 0);
    lemma_attr_uses_cat(s17, a18, p);
    let s18 = s17 + a18;
    let a19 = opt_attr("maximumSAPPeriod"@, r.maximum_sap_period);
    lemma_at_most_one(a19, "maximumSAPPeriod"@, p);
    lemma_not_prefix(p, "maximumSAPPeriod"@, 0);
    lemma_attr_uses_cat(s18, a19, p);
    let s19 = s18 + a19;
    let a20 = opt_attr("segmentProfiles"@, r.segment_profiles);
    lemma_at_most_one(a20, "segmentProfiles"@, p);
    lemma_not_prefix(p, "segmentProfiles"@, 1);
    lemma_attr_uses_cat(s19, a20, p);
    let s20 = s19 + a20;
    assert(representation_attrs(r) == s20);
}

} // verus!
