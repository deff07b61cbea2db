use shiguredo_mpd::resolve_template;

#[test]
fn test_number() {
    assert_eq!(
        resolve_template("seg_$Number$.m4s", 42, 0, 0, ""),
        "seg_42.m4s"
    );
}

#[test]
fn test_number_with_format() {
    assert_eq!(
        resolve_template("seg_$Number%05d$.m4s", 1, 0, 0, ""),
        "seg_00001.m4s"
    );
}

#[test]
fn test_time() {
    assert_eq!(
        resolve_template("seg_$Time$.m4s", 0, 90000, 0, ""),
        "seg_90000.m4s"
    );
}

#[test]
fn test_bandwidth() {
    assert_eq!(
        resolve_template("$Bandwidth$/seg.m4s", 0, 0, 2000000, ""),
        "2000000/seg.m4s"
    );
}

#[test]
fn test_representation_id() {
    assert_eq!(
        resolve_template("$RepresentationID$/init.mp4", 0, 0, 0, "video_1"),
        "video_1/init.mp4"
    );
}

#[test]
fn test_multiple_variables() {
    assert_eq!(
        resolve_template("$RepresentationID$/seg_$Number%03d$.m4s", 7, 0, 0, "v1"),
        "v1/seg_007.m4s"
    );
}

#[test]
fn test_dollar_escape() {
    assert_eq!(
        resolve_template("price_$$_$Number$.m4s", 1, 0, 0, ""),
        "price_$_1.m4s"
    );
}

#[test]
fn test_no_variables() {
    assert_eq!(resolve_template("init.mp4", 0, 0, 0, ""), "init.mp4");
}

#[test]
fn readme_template_example() {
    let url = resolve_template(
        "$RepresentationID$/seg_$Number%05d$.m4s",
        42,
        0,
        5000000,
        "video1",
    );
    assert_eq!(url, "video1/seg_00042.m4s");
}

#[test]
fn unknown_variable_is_kept() {
    assert_eq!(
        resolve_template("a_$Foo$_b", 1, 2, 3, "r"),
        "a_$Foo$_b"
    );
}

#[test]
fn time_and_bandwidth_with_width() {
    assert_eq!(
        resolve_template("$Time%08d$_$Bandwidth%03d$", 0, 1234, 5, ""),
        "00001234_005"
    );
}

#[test]
fn width_narrower_than_number_keeps_all_digits() {
    assert_eq!(resolve_template("$Number%02d$", 12345, 0, 0, ""), "12345");
}
