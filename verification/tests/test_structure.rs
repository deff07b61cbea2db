//! Element order, namespace declarations and deep trees.

use shiguredo_mpd::dom::{dismantle, locate_target, parse_xml_to_dom, serialize_dom};
use shiguredo_mpd::duration::check_duration;
use shiguredo_mpd::xpath::parse_xpath;
use shiguredo_mpd::{apply_patch, parse, parse_patch};
use std::io::Cursor;

fn assert_namespace_well_formed(xml: &str) {
    let reader = xml::reader::EventReader::new(Cursor::new(xml.as_bytes()));
    for event in reader {
        event.expect("every prefix that is written is declared");
    }
}

fn position(xml: &str, tag: &str) -> usize {
    xml.find(tag).unwrap_or_else(|| panic!("{tag} is written"))
}

#[test]
fn mpd_children_are_written_in_schema_order() {
    let mpd = parse(
        r#"<MPD>
  <ContentSteering>http://example.com/steer</ContentSteering>
  <UTCTiming schemeIdUri="urn:mpeg:dash:utc:http-iso:2014" value="http://time"/>
  <SupplementalProperty schemeIdUri="urn:s"/>
  <EssentialProperty schemeIdUri="urn:e"/>
  <Metrics metrics="BufferLevel"/>
  <Period id="p0"/>
  <PatchLocation>http://example.com/patch</PatchLocation>
  <Location>http://example.com/mpd</Location>
  <BaseURL>http://example.com/</BaseURL>
</MPD>"#,
    )
    .unwrap();
    let xml = shiguredo_mpd::writer::write(&mpd);
    let order = [
        "<BaseURL",
        "<Location",
        "<PatchLocation",
        "<Period",
        "<Metrics",
        "<EssentialProperty",
        "<SupplementalProperty",
        "<UTCTiming",
        "<ContentSteering",
    ];
    for w in order.windows(2) {
        assert!(position(&xml, w[0]) < position(&xml, w[1]), "{} before {}", w[0], w[1]);
    }
    assert_eq!(parse(&xml).unwrap(), mpd);
}

#[test]
fn period_children_are_written_in_schema_order() {
    let mpd = parse(
        r#"<MPD>
  <Period id="p0">
    <SupplementalProperty schemeIdUri="urn:s"/>
    <Subset contains="1 2"/>
    <AdaptationSet id="1"><Representation id="r" bandwidth="1"/></AdaptationSet>
    <SegmentTemplate media="$Number$.m4s"/>
    <BaseURL>http://example.com/</BaseURL>
  </Period>
</MPD>"#,
    )
    .unwrap();
    let xml = shiguredo_mpd::writer::write(&mpd);
    let order = [
        "<BaseURL",
        "<SegmentTemplate",
        "<AdaptationSet",
        "<Subset",
        "<SupplementalProperty",
    ];
    for w in order.windows(2) {
        assert!(position(&xml, w[0]) < position(&xml, w[1]), "{} before {}", w[0], w[1]);
    }
    assert_eq!(parse(&xml).unwrap(), mpd);
}

#[test]
fn xlink_actuate_alone_declares_xlink() {
    let mpd = parse(
        r#"<MPD xmlns:xlink="http://www.w3.org/1999/xlink">
  <Period id="p0" xlink:actuate="onRequest"/>
</MPD>"#,
    )
    .unwrap();
    assert_eq!(mpd.periods[0].xlink_actuate.as_deref(), Some("onRequest"));
    assert_eq!(mpd.periods[0].xlink_href, None);
    let xml = shiguredo_mpd::writer::write(&mpd);
    assert!(xml.contains("xmlns:xlink=\"http://www.w3.org/1999/xlink\""));
    assert_namespace_well_formed(&xml);
    assert_eq!(parse(&xml).unwrap(), mpd);
}

#[test]
fn no_xlink_attribute_means_no_xlink_declaration() {
    let mpd = parse(r#"<MPD><Period id="p0"/></MPD>"#).unwrap();
    let xml = shiguredo_mpd::writer::write(&mpd);
    assert!(!xml.contains("xmlns:xlink"));
}

#[test]
fn serialized_tree_declares_the_prefixes_it_writes() {
    let input = r#"<MPD xmlns="urn:mpeg:dash:schema:mpd:2011" xmlns:cenc="urn:mpeg:cenc:2013" xmlns:xlink="http://www.w3.org/1999/xlink">
  <Period xlink:href="http://example.com/p">
    <ContentProtection schemeIdUri="urn:mpeg:dash:mp4protection:2011" cenc:default_KID="abc"/>
  </Period>
</MPD>"#;
    let tree = parse_xml_to_dom(input).unwrap();
    let xml = serialize_dom(&tree);
    assert!(xml.contains("xmlns:cenc=\"urn:mpeg:cenc:2013\""));
    assert!(xml.contains("xmlns:xlink=\"http://www.w3.org/1999/xlink\""));
    assert!(!xml.contains("xmlns:dvb"));
    assert_namespace_well_formed(&xml);
    assert!(parse_xml_to_dom(&xml).is_ok());
}

#[test]
fn serialized_tree_survives_deep_nesting() {
    let depth = 5000;
    let mut input = String::from("<MPD>");
    for _ in 0..depth {
        input.push_str("<a>");
    }
    for _ in 0..depth {
        input.push_str("</a>");
    }
    input.push_str("</MPD>");
    let tree = parse_xml_to_dom(&input).unwrap();
    let xml = serialize_dom(&tree);
    assert_eq!(xml.matches("<a").count(), depth);
    dismantle(tree);
}

#[test]
fn apply_patch_keeps_extension_namespaces() {
    let mpd = parse(
        r#"<MPD xmlns="urn:mpeg:dash:schema:mpd:2011" xmlns:cenc="urn:mpeg:cenc:2013" xmlns:xlink="http://www.w3.org/1999/xlink"
 id="m" type="dynamic" publishTime="2024-01-01T00:00:00Z">
  <Period id="p0" xlink:actuate="onLoad">
    <AdaptationSet mimeType="video/mp4">
      <ContentProtection schemeIdUri="urn:mpeg:dash:mp4protection:2011" cenc:default_KID="abc"/>
      <Representation id="v0" bandwidth="1"/>
    </AdaptationSet>
  </Period>
</MPD>"#,
    )
    .unwrap();
    let patch = parse_patch(
        r#"<Patch mpdId="m" originalPublishTime="2024-01-01T00:00:00Z" publishTime="2024-01-01T00:00:05Z">
  <replace sel="/MPD/@publishTime">2024-01-01T00:00:05Z</replace>
</Patch>"#,
    )
    .unwrap();
    let patched = apply_patch(&mpd, &patch).unwrap();
    assert_eq!(patched.publish_time.as_deref(), Some("2024-01-01T00:00:05Z"));
    assert_eq!(patched.periods[0].xlink_actuate.as_deref(), Some("onLoad"));
    let kid = patched.periods[0].adaptation_sets[0].content_protections[0]
        .default_kid
        .as_deref();
    assert_eq!(kid, Some("abc"));
}

#[test]
fn duration_errors_name_the_fault_and_the_input() {
    let cases = [
        ("1H", "duration must start with 'P': 1H"),
        ("P", "empty duration: P"),
        ("P1H", "'H' without 'T': P1H"),
        ("PT5", "trailing number without unit: PT5"),
        ("PTS", "unit without number: PTS"),
        ("PT1.2.3S", "invalid number '1.2.3': PT1.2.3S"),
        ("PT1X", "unexpected character 'X': PT1X"),
        ("PT", "no duration components: PT"),
    ];
    for (input, message) in cases {
        let e = check_duration(input).unwrap_err();
        assert_eq!(e.describe(), format!("invalid ISO 8601 duration: {message}"));
    }
    assert!(check_duration("PT1H2M3.4S").is_ok());
}

#[test]
fn xpath_errors_name_the_offending_text() {
    let cases = [
        ("MPD", "XPath must be absolute: MPD"),
        ("/", "XPath must not be empty"),
        ("/MPD/Period[1", "unclosed bracket in XPath: Period[1"),
        ("/MPD/Period[last()]", "unsupported predicate in XPath: last()"),
        ("//", "XPath must have at least one component"),
    ];
    for (input, message) in cases {
        let e = parse_xpath(input).unwrap_err();
        assert_eq!(e.describe(), format!("invalid XPath selector: {message}"));
    }
}

#[test]
fn refused_patch_names_the_values_that_differ() {
    let mpd = parse(r#"<MPD id="a" publishTime="t0"/>"#).unwrap();
    let other_id = parse_patch(r#"<Patch mpdId="b" originalPublishTime="t0" publishTime="t1"/>"#).unwrap();
    let e = apply_patch(&mpd, &other_id).unwrap_err();
    assert_eq!(
        e.describe(),
        "patch operation failed: MPD id 'a' does not match patch mpdId 'b'"
    );
    let other_time = parse_patch(r#"<Patch mpdId="a" originalPublishTime="t9" publishTime="t1"/>"#).unwrap();
    let e = apply_patch(&mpd, &other_time).unwrap_err();
    assert_eq!(
        e.describe(),
        "patch operation failed: MPD publishTime 't0' does not match patch originalPublishTime 't9'"
    );
}

#[test]
fn number_width_pads_but_never_truncates() {
    use_template_cases();
}

fn use_template_cases() {
    let cases = [
        ("$Number%05d$", 42u64, "00042"),
        ("$Number%03d$", 12345u64, "12345"),
        ("$Number%03d$", 123u64, "123"),
        ("$Number%01d$", 0u64, "0"),
    ];
    for (template, number, expected) in cases {
        assert_eq!(shiguredo_mpd::resolve_template(template, number, 0, 0, "r"), expected);
    }
}

#[test]
fn selector_errors_name_what_was_looked_for() {
    let tree = parse_xml_to_dom(r#"<MPD><Period id="p0"/></MPD>"#).unwrap();
    let cases = [
        ("/Patch/Period", "patch operation failed: XPath root 'Patch' does not match document root 'MPD'"),
        ("/MPD/AdaptationSet", "patch operation failed: XPath target not found: element 'AdaptationSet' in 'MPD'"),
        ("/MPD/Period/Foo", "patch operation failed: XPath target not found: element 'Foo' in 'Period'"),
        ("/MPD/@id/Period", "invalid XPath selector: attribute selector must be last in XPath"),
        ("/MPD/text()/Period", "invalid XPath selector: text() selector must be last in XPath"),
    ];
    for (selector, message) in cases {
        let x = parse_xpath(selector).unwrap();
        let e = match locate_target(&tree, &x.components) {
            Err(e) => e,
            Ok(_) => panic!("{selector} is refused"),
        };
        assert_eq!(e.describe(), message);
    }
}

#[test]
fn reader_errors_carry_their_messages() {
    let e = parse(r#"<MPD><Period><AdaptationSet><Representation bandwidth="1"/></AdaptationSet></Period></MPD>"#)
        .unwrap_err();
    assert_eq!(
        e.describe(),
        "missing required attribute 'id' on <Representation>: attribute 'id' is required on <Representation>"
    );
    let e = parse(r#"<MPD><Period><AdaptationSet><Representation id="v"/></AdaptationSet></Period></MPD>"#)
        .unwrap_err();
    assert_eq!(
        e.describe(),
        "missing required attribute 'bandwidth' on <Representation>: attribute 'bandwidth' is required on <Representation>"
    );
    let e = parse(r#"<MPD><Period><AdaptationSet><Representation id="v" bandwidth="x"/></AdaptationSet></Period></MPD>"#)
        .unwrap_err();
    assert_eq!(
        e.describe(),
        "invalid value for attribute 'bandwidth': bandwidth must be a positive integer"
    );
    let e = parse(r#"<MPD><Period><AdaptationSet maximumSAPPeriod="1S"/></Period></MPD>"#).unwrap_err();
    assert_eq!(
        e.describe(),
        "invalid ISO 8601 duration: duration must start with 'P': 1S"
    );
    let e = parse("<Other/>").unwrap_err();
    assert_eq!(
        e.describe(),
        "missing required element <MPD> in <document>: MPD root element not found"
    );
}

#[test]
fn patch_reader_errors_carry_their_messages() {
    let e = parse_patch(r#"<Patch originalPublishTime="a" publishTime="b"/>"#).unwrap_err();
    assert_eq!(
        e.describe(),
        "missing required attribute 'mpdId' on <Patch>: mpdId attribute is required on <Patch>"
    );
    let e = parse_patch(r#"<Patch mpdId="m" originalPublishTime="a" publishTime="b"><replace>x</replace></Patch>"#)
        .unwrap_err();
    assert_eq!(
        e.describe(),
        "missing required attribute 'sel' on <patch operation>: sel attribute is required on patch operations"
    );
    let e = parse_patch("<Other/>").unwrap_err();
    assert_eq!(e.describe(), "patch operation failed: Patch root element not found");
}

#[test]
fn adaptation_set_attributes_that_do_not_parse_are_absent() {
    let mpd = parse(
        r#"<MPD><Period><AdaptationSet id="x" width="wide" contentType="hologram" segmentAlignment="true" subsegmentAlignment="yes"/></Period></MPD>"#,
    )
    .unwrap();
    let a = &mpd.periods[0].adaptation_sets[0];
    assert_eq!(a.id, None);
    assert_eq!(a.width, None);
    assert_eq!(a.content_type, None);
    assert!(a.segment_alignment);
    assert!(!a.subsegment_alignment);
}

#[test]
fn period_link_is_kept_as_written() {
    let mpd = parse(
        r#"<MPD xmlns:xlink="http://www.w3.org/1999/xlink"><Period id="p" xlink:href="http://example.com/remote.xml" xlink:actuate="onLoad"><AdaptationSet/></Period></MPD>"#,
    )
    .unwrap();
    let p = &mpd.periods[0];
    assert_eq!(p.xlink_href.as_deref(), Some("http://example.com/remote.xml"));
    assert_eq!(p.xlink_actuate.as_deref(), Some("onLoad"));
    assert_eq!(p.adaptation_sets.len(), 1);
}

#[test]
fn representations_are_written_last_in_their_adaptation_set() {
    let mpd = parse(
        r#"<MPD><Period><AdaptationSet><Representation id="v" bandwidth="1"/><Role schemeIdUri="urn:r" value="main"/><SegmentTemplate media="m"/></AdaptationSet></Period></MPD>"#,
    )
    .unwrap();
    let xml = shiguredo_mpd::writer::write(&mpd);
    assert!(position(&xml, "<Role") < position(&xml, "<SegmentTemplate"));
    assert!(position(&xml, "<SegmentTemplate") < position(&xml, "<Representation"));
    assert!(position(&xml, "<Representation") < position(&xml, "</AdaptationSet>"));
}
