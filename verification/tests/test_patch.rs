use shiguredo_mpd::types::{PatchAction, PatchPosition};
use shiguredo_mpd::xpath::parse_xpath;
use shiguredo_mpd::{apply_patch, parse, parse_patch, ErrorKind};

// Selectors.

#[test]
fn xpath_simple_element() {
    let xpath = parse_xpath("/MPD").unwrap();
    assert_eq!(xpath.components.len(), 1);
    assert_eq!(xpath.components[0].name, "MPD");
}

#[test]
fn xpath_nested_path() {
    let xpath = parse_xpath("/MPD/Period/AdaptationSet").unwrap();
    assert_eq!(xpath.components.len(), 3);
    assert_eq!(xpath.components[0].name, "MPD");
    assert_eq!(xpath.components[1].name, "Period");
    assert_eq!(xpath.components[2].name, "AdaptationSet");
}

#[test]
fn xpath_with_position() {
    let xpath = parse_xpath("/MPD/Period[2]").unwrap();
    assert_eq!(xpath.components[1].name, "Period");
    assert_eq!(xpath.components[1].position, Some(2));
}

#[test]
fn xpath_with_attribute_match() {
    let xpath = parse_xpath("/MPD/Period[@id=\"p0\"]").unwrap();
    assert_eq!(xpath.components[1].name, "Period");
    assert_eq!(
        xpath.components[1].attribute_match,
        Some(("id".to_string(), "p0".to_string()))
    );
}

#[test]
fn xpath_attribute_target() {
    let xpath = parse_xpath("/MPD/@publishTime").unwrap();
    assert_eq!(xpath.components.len(), 2);
    assert_eq!(xpath.components[1].name, "@publishTime");
}

#[test]
fn xpath_text_target() {
    let xpath = parse_xpath("/MPD/Period/text()").unwrap();
    assert_eq!(xpath.components[2].name, "text()");
}

#[test]
fn xpath_rejects_relative() {
    assert!(parse_xpath("MPD/Period").is_err());
}

#[test]
fn xpath_rejects_empty() {
    assert!(parse_xpath("/").is_err());
}

// Patch documents.

#[test]
fn parse_patch_document() {
    let xml = r#"<?xml version="1.0" encoding="UTF-8"?>
<Patch xmlns="urn:mpeg:dash:schema:mpd-patch:2020"
   mpdId="test-id"
   originalPublishTime="2024-01-01T00:00:00Z"
   publishTime="2024-01-01T00:00:05Z">
  <replace sel="/MPD/@publishTime">2024-01-01T00:00:05Z</replace>
  <add sel="/MPD/Period[@id='p0']/AdaptationSet[@id='1']/SegmentTemplate/SegmentTimeline">
<S t="720000" d="180000"/>
  </add>
  <remove sel="/MPD/Period[@id='p0']/AdaptationSet[@id='2']"/>
</Patch>"#;

    let patch = parse_patch(xml).unwrap();
    assert_eq!(patch.mpd_id, "test-id");
    assert_eq!(patch.original_publish_time, "2024-01-01T00:00:00Z");
    assert_eq!(patch.publish_time, "2024-01-01T00:00:05Z");
    assert_eq!(patch.operations.len(), 3);

    assert_eq!(patch.operations[0].action, PatchAction::Replace);
    assert_eq!(patch.operations[0].selector, "/MPD/@publishTime");
    assert_eq!(
        patch.operations[0].value.as_deref(),
        Some("2024-01-01T00:00:05Z")
    );

    assert_eq!(patch.operations[1].action, PatchAction::Add);
    assert!(patch.operations[1].value.is_some());

    assert_eq!(patch.operations[2].action, PatchAction::Remove);
    assert!(patch.operations[2].value.is_none());
}

#[test]
fn parse_patch_missing_mpd_id() {
    let xml = r#"<?xml version="1.0"?>
<Patch xmlns="urn:mpeg:dash:schema:mpd-patch:2020"
   originalPublishTime="2024-01-01T00:00:00Z"
   publishTime="2024-01-01T00:00:05Z">
</Patch>"#;
    assert!(parse_patch(xml).is_err());
}

// Applying patches.

#[test]
fn apply_replace_attribute() {
    let mpd = parse(
        r#"<?xml version="1.0"?>
<MPD xmlns="urn:mpeg:dash:schema:mpd:2011"
 type="dynamic"
 id="test-id"
 profiles="urn:mpeg:dash:profile:isoff-live:2011"
 minBufferTime="PT2S"
 publishTime="2024-01-01T00:00:00Z">
  <Period id="p0">
<AdaptationSet mimeType="video/mp4">
  <Representation id="v0" bandwidth="5000000"/>
</AdaptationSet>
  </Period>
</MPD>"#,
    )
    .unwrap();

    let patch = parse_patch(
        r#"<?xml version="1.0"?>
<Patch xmlns="urn:mpeg:dash:schema:mpd-patch:2020"
   mpdId="test-id"
   originalPublishTime="2024-01-01T00:00:00Z"
   publishTime="2024-01-01T00:00:05Z">
  <replace sel="/MPD/@publishTime">2024-01-01T00:00:05Z</replace>
</Patch>"#,
    )
    .unwrap();

    let patched = apply_patch(&mpd, &patch).unwrap();
    assert_eq!(
        patched.publish_time.as_deref(),
        Some("2024-01-01T00:00:05Z")
    );
}

#[test]
fn apply_remove_element() {
    let mpd = parse(
        r#"<?xml version="1.0"?>
<MPD xmlns="urn:mpeg:dash:schema:mpd:2011"
 type="dynamic"
 id="test-id"
 profiles="urn:mpeg:dash:profile:isoff-live:2011"
 minBufferTime="PT2S"
 publishTime="2024-01-01T00:00:00Z">
  <Period id="p0">
<AdaptationSet mimeType="video/mp4" id="1">
  <Representation id="v0" bandwidth="5000000"/>
</AdaptationSet>
<AdaptationSet mimeType="audio/mp4" id="2">
  <Representation id="a0" bandwidth="128000"/>
</AdaptationSet>
  </Period>
</MPD>"#,
    )
    .unwrap();

    let patch = parse_patch(
        r#"<?xml version="1.0"?>
<Patch xmlns="urn:mpeg:dash:schema:mpd-patch:2020"
   mpdId="test-id"
   originalPublishTime="2024-01-01T00:00:00Z"
   publishTime="2024-01-01T00:00:05Z">
  <remove sel="/MPD/Period[@id='p0']/AdaptationSet[@id='2']"/>
</Patch>"#,
    )
    .unwrap();

    let patched = apply_patch(&mpd, &patch).unwrap();
    assert_eq!(patched.periods[0].adaptation_sets.len(), 1);
    assert_eq!(patched.periods[0].adaptation_sets[0].id, Some(1));
}

#[test]
fn apply_add_element() {
    let mpd = parse(
        r#"<?xml version="1.0"?>
<MPD xmlns="urn:mpeg:dash:schema:mpd:2011"
 type="dynamic"
 id="test-id"
 profiles="urn:mpeg:dash:profile:isoff-live:2011"
 minBufferTime="PT2S"
 publishTime="2024-01-01T00:00:00Z">
  <Period id="p0">
<AdaptationSet mimeType="video/mp4" id="1">
  <SegmentTemplate timescale="90000" media="seg_$Number$.m4s"
                   initialization="init.mp4" startNumber="1">
    <SegmentTimeline>
      <S t="0" d="180000"/>
    </SegmentTimeline>
  </SegmentTemplate>
  <Representation id="v0" bandwidth="5000000"/>
</AdaptationSet>
  </Period>
</MPD>"#,
    )
    .unwrap();

    let patch = parse_patch(
        r#"<?xml version="1.0"?>
<Patch xmlns="urn:mpeg:dash:schema:mpd-patch:2020"
   mpdId="test-id"
   originalPublishTime="2024-01-01T00:00:00Z"
   publishTime="2024-01-01T00:00:05Z">
  <add sel="/MPD/Period[@id='p0']/AdaptationSet[@id='1']/SegmentTemplate/SegmentTimeline">
<S t="180000" d="180000"/>
  </add>
</Patch>"#,
    )
    .unwrap();

    let patched = apply_patch(&mpd, &patch).unwrap();
    let timeline = patched.periods[0].adaptation_sets[0]
        .segment_template
        .as_ref()
        .unwrap()
        .segment_timeline
        .as_ref()
        .unwrap();
    assert_eq!(timeline.len(), 2);
    assert_eq!(timeline[1].t, Some(180000));
    assert_eq!(timeline[1].d, 180000);
}

#[test]
fn apply_patch_mpd_id_mismatch() {
    let mpd = parse(
        r#"<?xml version="1.0"?>
<MPD xmlns="urn:mpeg:dash:schema:mpd:2011"
 type="static"
 id="correct-id"
 profiles="urn:mpeg:dash:profile:isoff-on-demand:2011"
 minBufferTime="PT2S">
  <Period>
<AdaptationSet mimeType="video/mp4">
  <Representation id="v0" bandwidth="5000000"/>
</AdaptationSet>
  </Period>
</MPD>"#,
    )
    .unwrap();

    let patch = parse_patch(
        r#"<?xml version="1.0"?>
<Patch xmlns="urn:mpeg:dash:schema:mpd-patch:2020"
   mpdId="wrong-id"
   originalPublishTime="2024-01-01T00:00:00Z"
   publishTime="2024-01-01T00:00:05Z">
</Patch>"#,
    )
    .unwrap();

    assert!(apply_patch(&mpd, &patch).is_err());
}

#[test]
fn parse_patch_positions_and_type_attribute() {
    let xml = r#"<Patch mpdId="m" originalPublishTime="a" publishTime="b">
  <add sel="/MPD/Period" pos="before"><Period id="x"/></add>
  <add sel="/MPD/Period" pos="prepend" type="@start">PT1S</add>
  <add sel="/MPD/Period" pos="sideways"/>
  <unknown sel="/MPD"><deep><deeper/></deep></unknown>
  <remove sel="/MPD/Period[1]"/>
</Patch>"#;
    let patch = parse_patch(xml).unwrap();
    assert_eq!(patch.operations.len(), 4);
    assert_eq!(patch.operations[0].position, Some(PatchPosition::Before));
    assert_eq!(patch.operations[0].value.as_deref(), Some("<Period id=\"x\"></Period>"));
    assert_eq!(patch.operations[1].position, Some(PatchPosition::Prepend));
    assert_eq!(patch.operations[1].selector, "/MPD/Period/@start");
    assert_eq!(patch.operations[1].value.as_deref(), Some("PT1S"));
    assert_eq!(patch.operations[2].position, None);
    assert_eq!(patch.operations[2].value, None);
    assert_eq!(patch.operations[3].action, PatchAction::Remove);
}

#[test]
fn parse_patch_value_escapes_attributes() {
    let xml = r#"<Patch mpdId="m" originalPublishTime="a" publishTime="b">
  <add sel="/MPD"><BaseURL serviceLocation="a&amp;b&quot;c&lt;&gt;">  u  </BaseURL></add>
</Patch>"#;
    let patch = parse_patch(xml).unwrap();
    assert_eq!(
        patch.operations[0].value.as_deref(),
        Some("<BaseURL serviceLocation=\"a&amp;b&quot;c&lt;&gt;\">u</BaseURL>")
    );
}

#[test]
fn parse_patch_missing_attributes_are_reported() {
    let missing_publish = r#"<Patch mpdId="m" originalPublishTime="a"/>"#;
    assert_eq!(
        parse_patch(missing_publish).unwrap_err().kind(),
        &ErrorKind::MissingAttribute { element: "Patch", attribute: "publishTime" }
    );
    let missing_sel = r#"<Patch mpdId="m" originalPublishTime="a" publishTime="b"><remove/></Patch>"#;
    assert_eq!(
        parse_patch(missing_sel).unwrap_err().kind(),
        &ErrorKind::MissingAttribute { element: "patch operation", attribute: "sel" }
    );
}

#[test]
fn parse_patch_without_root_fails() {
    assert_eq!(parse_patch("<MPD/>").unwrap_err().kind(), &ErrorKind::PatchFailed);
    assert_eq!(parse_patch("<Patch").unwrap_err().kind(), &ErrorKind::Xml);
}

#[test]
fn apply_patch_publish_time_mismatch() {
    let mpd = parse(
        r#"<MPD type="dynamic" id="m" minBufferTime="PT2S" publishTime="2024-01-01T00:00:00Z"><Period id="p0"/></MPD>"#,
    )
    .unwrap();
    let patch = parse_patch(
        r#"<Patch mpdId="m" originalPublishTime="2023-01-01T00:00:00Z" publishTime="2024-01-01T00:00:05Z"/>"#,
    )
    .unwrap();
    assert_eq!(apply_patch(&mpd, &patch).unwrap_err().kind(), &ErrorKind::PatchFailed);
}

#[test]
fn apply_patch_bad_selector_fails() {
    let mpd = parse(r#"<MPD id="m" minBufferTime="PT2S"><Period id="p0"/></MPD>"#).unwrap();
    let patch = parse_patch(
        r#"<Patch mpdId="m" originalPublishTime="a" publishTime="b"><remove sel="MPD/Period"/></Patch>"#,
    )
    .unwrap();
    assert_eq!(apply_patch(&mpd, &patch).unwrap_err().kind(), &ErrorKind::InvalidXPath);
    let patch = parse_patch(
        r#"<Patch mpdId="m" originalPublishTime="a" publishTime="b"><remove sel="/MPD/Period[5]"/></Patch>"#,
    )
    .unwrap();
    assert_eq!(apply_patch(&mpd, &patch).unwrap_err().kind(), &ErrorKind::PatchFailed);
}

#[test]
fn apply_patch_replace_and_add_attribute() {
    let mpd = parse(r#"<MPD id="m" minBufferTime="PT2S"><Period id="p0"/></MPD>"#).unwrap();
    let patch = parse_patch(
        r#"<Patch mpdId="m" originalPublishTime="a" publishTime="b">
  <replace sel="/MPD/@minBufferTime">PT4S</replace>
  <add sel="/MPD/Period" type="@start">PT10S</add>
</Patch>"#,
    )
    .unwrap();
    let patched = apply_patch(&mpd, &patch).unwrap();
    assert_eq!(patched.min_buffer_time, "PT4S");
    assert_eq!(patched.periods[0].start.as_deref(), Some("PT10S"));
}

#[test]
fn apply_patch_prepend_and_before() {
    let mpd = parse(
        r#"<MPD id="m" minBufferTime="PT2S"><Period id="p1"/></MPD>"#,
    )
    .unwrap();
    let patch = parse_patch(
        r#"<Patch mpdId="m" originalPublishTime="a" publishTime="b">
  <add sel="/MPD/Period[@id='p1']" pos="before"><Period id="p0"/></add>
  <add sel="/MPD" pos="prepend"><BaseURL>http://example.com/</BaseURL></add>
</Patch>"#,
    )
    .unwrap();
    let patched = apply_patch(&mpd, &patch).unwrap();
    assert_eq!(patched.periods.len(), 2);
    assert_eq!(patched.periods[0].id.as_deref(), Some("p0"));
    assert_eq!(patched.periods[1].id.as_deref(), Some("p1"));
    assert_eq!(patched.base_urls[0].url, "http://example.com/");
}

#[test]
fn xpath_rejects_bad_position() {
    assert_eq!(parse_xpath("/MPD/Period[x]").unwrap_err().kind(), &ErrorKind::InvalidXPath);
}
