use shiguredo_mpd::duration::check_duration;
use shiguredo_mpd::types::{ContentType, Descriptor, PresentationType};
use shiguredo_mpd::{parse, ErrorKind};

const README_MPD: &str = r#"<?xml version="1.0" encoding="UTF-8"?>
<MPD xmlns="urn:mpeg:dash:schema:mpd:2011"
     type="static"
     mediaPresentationDuration="PT30S"
     minBufferTime="PT2S"
     profiles="urn:mpeg:dash:profile:isoff-on-demand:2011">
  <Period>
    <AdaptationSet mimeType="video/mp4" codecs="avc1.640028">
      <Representation id="1" bandwidth="5000000" width="1920" height="1080" />
    </AdaptationSet>
  </Period>
</MPD>"#;

#[test]
fn readme_parse_example() {
    let mpd = parse(README_MPD).unwrap();
    assert_eq!(mpd.presentation_type, PresentationType::Static);
    assert_eq!(mpd.media_presentation_duration.as_deref(), Some("PT30S"));
    assert_eq!(mpd.min_buffer_time, "PT2S");
    assert_eq!(mpd.profiles, "urn:mpeg:dash:profile:isoff-on-demand:2011");
    let set = &mpd.periods[0].adaptation_sets[0];
    assert_eq!(set.mime_type.as_deref(), Some("video/mp4"));
    assert_eq!(set.codecs.as_deref(), Some("avc1.640028"));
    let rep = &set.representations[0];
    assert_eq!(rep.id, "1");
    assert_eq!(rep.bandwidth, 5000000);
    assert_eq!(rep.width, Some(1920));
    assert_eq!(rep.height, Some(1080));
}

#[test]
fn readme_roundtrip_example() {
    let parsed = parse(README_MPD).unwrap();
    let written = shiguredo_mpd::writer::write(&parsed);
    let reparsed = parse(&written).unwrap();
    assert_eq!(parsed, reparsed);
}

#[test]
fn written_mpd_has_declaration_and_namespace() {
    let parsed = parse(README_MPD).unwrap();
    let written = shiguredo_mpd::writer::write(&parsed);
    assert!(written.starts_with("<?xml"));
    assert!(written.contains("xmlns=\"urn:mpeg:dash:schema:mpd:2011\""));
    assert!(written.contains("type=\"static\""));
    assert!(written.contains("bandwidth=\"5000000\""));
    assert!(!written.contains("xmlns:xlink"));
}

#[test]
fn minimum_buffer_time_defaults_to_zero() {
    let mpd = parse(r#"<MPD><Period/></MPD>"#).unwrap();
    assert_eq!(mpd.min_buffer_time, "PT0S");
    assert_eq!(mpd.profiles, "");
    assert_eq!(mpd.presentation_type, PresentationType::Static);
}

#[test]
fn dynamic_presentation() {
    let mpd = parse(r#"<MPD type="dynamic" minimumUpdatePeriod="PT2S"/>"#).unwrap();
    assert_eq!(mpd.presentation_type, PresentationType::Dynamic);
    assert_eq!(mpd.minimum_update_period.as_deref(), Some("PT2S"));
}

#[test]
fn missing_root_is_reported() {
    assert_eq!(
        parse("<Foo/>").unwrap_err().kind(),
        &ErrorKind::MissingElement { parent: "document", element: "MPD" }
    );
}

#[test]
fn malformed_xml_is_reported() {
    assert_eq!(parse("<MPD><Period></MPD>").unwrap_err().kind(), &ErrorKind::Xml);
    assert_eq!(parse("").unwrap_err().kind(), &ErrorKind::Xml);
}

#[test]
fn representation_requires_id_and_bandwidth() {
    let no_id = r#"<MPD><Period><AdaptationSet><Representation bandwidth="1"/></AdaptationSet></Period></MPD>"#;
    assert_eq!(
        parse(no_id).unwrap_err().kind(),
        &ErrorKind::MissingAttribute { element: "Representation", attribute: "id" }
    );
    let no_bw = r#"<MPD><Period><AdaptationSet><Representation id="a"/></AdaptationSet></Period></MPD>"#;
    assert_eq!(
        parse(no_bw).unwrap_err().kind(),
        &ErrorKind::MissingAttribute { element: "Representation", attribute: "bandwidth" }
    );
    let bad_bw = r#"<MPD><Period><AdaptationSet><Representation id="a" bandwidth="-1"/></AdaptationSet></Period></MPD>"#;
    assert_eq!(
        parse(bad_bw).unwrap_err().kind(),
        &ErrorKind::InvalidAttributeValue { attribute: "bandwidth" }
    );
}

#[test]
fn invalid_duration_is_reported() {
    assert_eq!(
        parse(r#"<MPD mediaPresentationDuration="30S"/>"#).unwrap_err().kind(),
        &ErrorKind::InvalidDuration
    );
    assert_eq!(
        parse(r#"<MPD><Period start="PTxS"/></MPD>"#).unwrap_err().kind(),
        &ErrorKind::InvalidDuration
    );
}

#[test]
fn attributes_that_do_not_parse_are_dropped() {
    let mpd = parse(
        r#"<MPD><Period><AdaptationSet id="x" width="12" contentType="audio" segmentAlignment="true" bitstreamSwitching="false"/></Period></MPD>"#,
    )
    .unwrap();
    let set = &mpd.periods[0].adaptation_sets[0];
    assert_eq!(set.id, None);
    assert_eq!(set.width, Some(12));
    assert_eq!(set.content_type, Some(ContentType::Audio));
    assert!(set.segment_alignment);
    assert!(!set.subsegment_alignment);
    assert_eq!(set.bitstream_switching, Some(false));
}

#[test]
fn segment_template_and_timeline() {
    let mpd = parse(
        r#"<MPD><Period><AdaptationSet>
  <SegmentTemplate timescale="90000" media="seg_$Number$.m4s" startNumber="5">
    <SegmentTimeline>
      <S t="0" d="180000" r="2"/>
      <S d="90000" r="-1"/>
    </SegmentTimeline>
  </SegmentTemplate>
</AdaptationSet></Period></MPD>"#,
    )
    .unwrap();
    let st = mpd.periods[0].adaptation_sets[0].segment_template.as_ref().unwrap();
    assert_eq!(st.timescale, 90000);
    assert_eq!(st.start_number, 5);
    assert_eq!(st.presentation_time_offset, 0);
    let tl = st.segment_timeline.as_ref().unwrap();
    assert_eq!(tl.len(), 2);
    assert_eq!(tl[0].t, Some(0));
    assert_eq!(tl[0].d, 180000);
    assert_eq!(tl[0].r, 2);
    assert_eq!(tl[1].t, None);
    assert_eq!(tl[1].r, -1);
}

#[test]
fn content_protection_children() {
    let mpd = parse(
        r#"<MPD xmlns:cenc="urn:mpeg:cenc:2013"><Period><AdaptationSet>
  <ContentProtection schemeIdUri="urn:uuid:1" cenc:default_KID="k">
    <cenc:pssh> AAAA </cenc:pssh>
    <laurl>http://license</laurl>
    <Certurl certType="x">http://cert</Certurl>
    <Certurl></Certurl>
  </ContentProtection>
</AdaptationSet></Period></MPD>"#,
    )
    .unwrap();
    let cp = &mpd.periods[0].adaptation_sets[0].content_protections[0];
    assert_eq!(cp.scheme_id_uri, "urn:uuid:1");
    assert_eq!(cp.default_kid.as_deref(), Some("k"));
    assert_eq!(cp.pssh.as_deref(), Some("AAAA"));
    assert_eq!(cp.laurl.as_deref(), Some("http://license"));
    assert_eq!(cp.certurls.len(), 1);
    assert_eq!(cp.certurls[0].cert_type.as_deref(), Some("x"));
}

#[test]
fn event_stream_with_signal() {
    let mpd = parse(
        r#"<MPD><Period>
  <EventStream schemeIdUri="urn:scte:scte35:2014:xml+bin" timescale="90000">
    <Event presentationTime="10" duration="5" id="1"><Signal><Binary>/DA=</Binary></Signal></Event>
    <Event>hello</Event>
  </EventStream>
</Period></MPD>"#,
    )
    .unwrap();
    let es = &mpd.periods[0].event_streams[0];
    assert_eq!(es.timescale, 90000);
    assert_eq!(es.events.len(), 2);
    assert_eq!(es.events[0].presentation_time, 10);
    assert_eq!(es.events[0].duration, Some(5));
    assert_eq!(es.events[0].signal_binary.as_deref(), Some("/DA="));
    assert_eq!(es.events[0].content, None);
    assert_eq!(es.events[1].content.as_deref(), Some("hello"));
    assert_eq!(es.events[1].presentation_time, 0);
}

#[test]
fn unknown_elements_are_skipped() {
    let mpd = parse(
        r#"<MPD><Foo><Period id="hidden"/></Foo><Period id="p"><Bar><AdaptationSet/></Bar></Period></MPD>"#,
    )
    .unwrap();
    assert_eq!(mpd.periods.len(), 1);
    assert_eq!(mpd.periods[0].id.as_deref(), Some("p"));
    assert_eq!(mpd.periods[0].adaptation_sets.len(), 0);
}

#[test]
fn labels_without_text_are_dropped() {
    let mpd = parse(
        r#"<MPD><Period><AdaptationSet><Label lang="en">Main</Label><Label lang="fr"/><GroupLabel>G</GroupLabel></AdaptationSet></Period></MPD>"#,
    )
    .unwrap();
    let set = &mpd.periods[0].adaptation_sets[0];
    assert_eq!(set.labels.len(), 1);
    assert_eq!(set.labels[0].lang.as_deref(), Some("en"));
    assert_eq!(set.labels[0].text, "Main");
    assert_eq!(set.group_labels[0].text, "G");
}

#[test]
fn descriptor_dvb_extension() {
    let mpd = parse(
        r#"<MPD xmlns:dvb="urn:dvb:dash:dash-extensions:2014-1"><SupplementalProperty schemeIdUri="s" dvb:url="u"/><EssentialProperty schemeIdUri="e" value="v"/></MPD>"#,
    )
    .unwrap();
    assert!(mpd.supplemental_properties[0].has_dvb_extension());
    assert!(!mpd.essential_properties[0].has_dvb_extension());
    assert_eq!(mpd.supplemental_properties[0].dvb_url.as_deref(), Some("u"));
    let plain = Descriptor {
        scheme_id_uri: "x".to_string(),
        value: None,
        id: None,
        dvb_url: None,
        dvb_mime_type: None,
        dvb_font_family: Some("f".to_string()),
    };
    assert!(plain.has_dvb_extension());
}

#[test]
fn duration_grammar() {
    assert!(check_duration("PT30S").is_ok());
    assert!(check_duration("PT0.5S").is_ok());
    assert!(check_duration("PT1H2M3.4S").is_ok());
    assert!(check_duration("P1DT12H").is_ok());
    assert!(check_duration("  PT30S  ").is_ok());
    assert!(check_duration("P1Y2W").is_ok());
    assert!(check_duration("").is_err());
    assert!(check_duration("30S").is_err());
    assert!(check_duration("PT").is_err());
    assert!(check_duration("PTS").is_err());
    assert!(check_duration("PT1H2").is_err());
    assert!(check_duration("PTxS").is_err());
    assert!(check_duration("P1H").is_err());
    assert!(check_duration("PT1.2.3S").is_err());
    assert_eq!(check_duration("P").unwrap_err().kind(), &ErrorKind::InvalidDuration);
}

#[test]
fn error_descriptions() {
    assert_eq!(
        ErrorKind::MissingAttribute { element: "Patch", attribute: "mpdId" }.describe(),
        "missing required attribute 'mpdId' on <Patch>"
    );
    assert_eq!(ErrorKind::InvalidDuration.describe(), "invalid ISO 8601 duration");
    let e = parse("<Foo/>").unwrap_err();
    assert_eq!(
        e.describe(),
        "missing required element <MPD> in <document>: MPD root element not found"
    );
}

const RICH_MPD: &str = r#"<?xml version="1.0" encoding="UTF-8"?>
<MPD xmlns="urn:mpeg:dash:schema:mpd:2011" xmlns:xlink="http://www.w3.org/1999/xlink"
     xmlns:dvb="urn:dvb:dash:dash-extensions:2014-1" xmlns:scte214="urn:scte:dash:scte214-extensions"
     type="dynamic" id="live" minBufferTime="PT4S" availabilityStartTime="2024-01-01T00:00:00Z"
     timeShiftBufferDepth="PT1M" profiles="urn:mpeg:dash:profile:isoff-live:2011">
  <BaseURL dvb:priority="1" dvb:weight="10" serviceLocation="a" availabilityTimeComplete="false">https://cdn.example/</BaseURL>
  <Period id="p0" start="PT0S" xlink:href="https://example/period" xlink:actuate="onLoad">
    <AdaptationSet id="3" contentType="audio" lang="ja" segmentAlignment="true" maxBandwidth="128000"
                   scte214:supplementalCodecs="ec-3" codingDependency="true">
      <SegmentTemplate timescale="48000" startNumber="5" media="$Number$.m4s" presentationTimeOffset="7">
        <SegmentTimeline>
          <S t="0" d="96000" r="-1" />
        </SegmentTimeline>
      </SegmentTemplate>
      <Representation id="a1" bandwidth="128000" audioSamplingRate="48000" />
    </AdaptationSet>
  </Period>
</MPD>"#;

#[test]
fn attributes_read_back_after_writing() {
    let parsed = parse(RICH_MPD).unwrap();
    let written = shiguredo_mpd::writer::write(&parsed);
    let reparsed = parse(&written).unwrap();
    assert_eq!(parsed, reparsed);
    assert_eq!(reparsed.presentation_type, PresentationType::Dynamic);
    assert_eq!(reparsed.id.as_deref(), Some("live"));
    assert_eq!(reparsed.time_shift_buffer_depth.as_deref(), Some("PT1M"));
    let base = &reparsed.base_urls[0];
    assert_eq!(base.dvb_priority, Some(1));
    assert_eq!(base.dvb_weight, Some(10));
    assert_eq!(base.availability_time_complete, Some(false));
    let period = &reparsed.periods[0];
    assert_eq!(period.xlink_href.as_deref(), Some("https://example/period"));
    assert_eq!(period.xlink_actuate.as_deref(), Some("onLoad"));
    let set = &period.adaptation_sets[0];
    assert_eq!(set.id, Some(3));
    assert_eq!(set.content_type, Some(ContentType::Audio));
    assert!(set.segment_alignment);
    assert!(!set.subsegment_alignment);
    assert_eq!(set.max_bandwidth, Some(128000));
    assert_eq!(set.supplemental_codecs.as_deref(), Some("ec-3"));
    assert_eq!(set.coding_dependency, Some(true));
    let template = set.segment_template.as_ref().unwrap();
    assert_eq!(template.timescale, 48000);
    assert_eq!(template.start_number, 5);
    assert_eq!(template.presentation_time_offset, 7);
    let timeline = template.segment_timeline.as_ref().unwrap();
    assert_eq!(timeline[0].t, Some(0));
    assert_eq!(timeline[0].d, 96000);
    assert_eq!(timeline[0].r, -1);
}
