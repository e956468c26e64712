use sunderclip_core::listing::{
    build_encoder_list_args, build_hwaccel_list_args, build_probe_args, field_at, parse_encoders,
    parse_hwaccels,
};
use sunderclip_core::text::{
    contains_sub, millis_to_seconds_text, parse_u32_dec, parse_u32_failure, trim_ascii, u64_to_dec,
};

#[test]
fn decimal_rendering() {
    assert_eq!(u64_to_dec(0), "0");
    assert_eq!(u64_to_dec(7), "7");
    assert_eq!(u64_to_dec(1203), "1203");
    assert_eq!(u64_to_dec(u64::MAX), "18446744073709551615");
}

#[test]
fn millis_rendering() {
    assert_eq!(millis_to_seconds_text(0), "0");
    assert_eq!(millis_to_seconds_text(5000), "5");
    assert_eq!(millis_to_seconds_text(1500), "1.5");
    assert_eq!(millis_to_seconds_text(1050), "1.05");
    assert_eq!(millis_to_seconds_text(1234), "1.234");
    assert_eq!(millis_to_seconds_text(999), "0.999");
}

#[test]
fn decimal_parsing() {
    assert_eq!(parse_u32_dec("0"), Some(0));
    assert_eq!(parse_u32_dec("42"), Some(42));
    assert_eq!(parse_u32_dec("4294967295"), Some(u32::MAX));
    assert_eq!(parse_u32_dec("4294967296"), None);
    assert_eq!(parse_u32_dec(""), None);
    assert_eq!(parse_u32_dec("1a"), None);
    assert_eq!(parse_u32_dec("-1"), None);
}

#[test]
fn decimal_parse_failure_wording() {
    assert_eq!(parse_u32_failure(""), "cannot parse integer from empty string");
    assert_eq!(parse_u32_failure("1a"), "invalid digit found in string");
    assert_eq!(parse_u32_failure("4294967296"), "number too large to fit in target type");
    assert_eq!(parse_u32_failure("99999999999a"), "number too large to fit in target type");
    assert_eq!(parse_u32_failure("42"), "");
}

#[test]
fn substring_search() {
    assert!(contains_sub("abc progress=end xyz", "progress=end"));
    assert!(!contains_sub("progress=en", "progress=end"));
    assert!(contains_sub("anything", ""));
}

#[test]
fn trimming() {
    assert_eq!(trim_ascii("  cuda\r\n"), "cuda");
    assert_eq!(trim_ascii("vaapi"), "vaapi");
    assert_eq!(trim_ascii(" \t \r\n"), "");
    assert_eq!(trim_ascii(""), "");
}

#[test]
fn fields_by_position() {
    assert_eq!(field_at(" V....D h264 H.264 encoder", 2), Some(String::from("h264")));
    assert_eq!(field_at("a b", 1), Some(String::from("b")));
    assert_eq!(field_at("a b", 2), None);
    assert_eq!(field_at("", 0), Some(String::from("")));
}

#[test]
fn probe_and_listing_arguments() {
    let probe: Vec<String> = build_probe_args("movie.mkv");
    let got: Vec<&str> = probe.iter().map(|s| s.as_str()).collect();
    assert_eq!(
        got,
        vec!["-v", "quiet", "-print_format", "json", "-show_format", "-show_streams", "movie.mkv"],
    );
    let enc = build_encoder_list_args();
    assert_eq!(enc, vec![String::from("-hide_banner"), String::from("-encoders")]);
    let hw = build_hwaccel_list_args();
    assert_eq!(hw, vec![String::from("-hide_banner"), String::from("-hwaccels")]);
}

#[test]
fn encoder_listing_parses_names() {
    let lines = vec![
        String::from("Encoders:"),
        String::from(" V..... = Video"),
        String::from(" ------"),
        String::from(" V....D h264 H.264 encoder"),
        String::from(" A....D aac AAC encoder"),
    ];
    let names = parse_encoders(&lines).unwrap();
    assert_eq!(names, vec![String::from("h264"), String::from("aac")]);
}

#[test]
fn encoder_listing_rejects_short_line() {
    let lines = vec![String::from(" ------"), String::from("lonely")];
    let err = parse_encoders(&lines).unwrap_err();
    assert_eq!(err, "Invalid output from FFMPEG: lonely");
}

#[test]
fn encoder_listing_without_break_is_empty() {
    let lines = vec![String::from("just a banner"), String::from("no separator here")];
    assert_eq!(parse_encoders(&lines).unwrap(), Vec::<String>::new());
}

#[test]
fn hwaccel_listing_trims_names() {
    let lines = vec![
        String::from("Hardware acceleration methods:"),
        String::from("cuda\r"),
        String::from("  vaapi"),
    ];
    let names = parse_hwaccels(&lines);
    assert_eq!(names, vec![String::from("cuda"), String::from("vaapi")]);
}

#[test]
fn hwaccel_listing_without_break_is_empty() {
    let lines = vec![String::from("nothing here")];
    assert_eq!(parse_hwaccels(&lines), Vec::<String>::new());
}
