use sunderclip_core::protocol::{
    ExtractAudioParams, InvalidUrlError, build_extract_audio_args, content_range_text,
};

#[test]
fn well_formed_path_parses() {
    let p = ExtractAudioParams::from_str("/video.mp4/3").unwrap();
    assert_eq!(p.video_source, "video.mp4");
    assert_eq!(p.audio_track_index, 3);
}

#[test]
fn encoded_source_is_percent_decoded() {
    let p = ExtractAudioParams::from_str("/my%20clip.mkv/0").unwrap();
    assert_eq!(p.video_source, "my clip.mkv");
    assert_eq!(p.audio_track_index, 0);
}

#[test]
fn missing_leading_slash_is_unrecognized() {
    let e = ExtractAudioParams::from_str("video.mp4/3").unwrap_err();
    assert!(matches!(e, InvalidUrlError::UnrecognizedFormat { .. }));
    assert_eq!(e.message(), "Unrecognized format in \"video.mp4/3\"");
    let e = ExtractAudioParams::from_str("").unwrap_err();
    assert!(matches!(e, InvalidUrlError::UnrecognizedFormat { .. }));
    assert_eq!(e.message(), "Unrecognized format in \"\"");
}

#[test]
fn missing_second_delimiter_is_rejected() {
    let e = ExtractAudioParams::from_str("/video.mp4").unwrap_err();
    assert!(matches!(e, InvalidUrlError::MissingDelimiter { .. }));
    assert_eq!(e.message(), "Missing delimiter in \"/video.mp4\"");
}

#[test]
fn extra_delimiter_is_rejected_with_offset() {
    let e = ExtractAudioParams::from_str("/a/b/c").unwrap_err();
    match &e {
        InvalidUrlError::UnexpectedDelimiter { string, offset } => {
            assert_eq!(string, "/a/b/c");
            assert_eq!(*offset, 4);
        }
        _ => panic!("expected the extra-delimiter rejection"),
    }
    assert_eq!(e.message(), "Unexpected delimiter in \"/a/b/c\" at 4");
}

#[test]
fn undecodable_source_is_rejected() {
    let e = ExtractAudioParams::from_str("/bad%FF/0").unwrap_err();
    match &e {
        InvalidUrlError::InvalidVideoSource { encoded, cause } => {
            assert_eq!(encoded, "bad%FF");
            assert!(cause.contains("utf-8"));
        }
        _ => panic!("expected the undecodable-source rejection"),
    }
    let message = e.message();
    assert!(message.starts_with("Invalid video source provided in \"bad%FF\": "));
    assert!(message.contains("utf-8"));
}

#[test]
fn non_numeric_track_is_rejected() {
    let e = ExtractAudioParams::from_str("/video.mp4/x1").unwrap_err();
    assert!(matches!(e, InvalidUrlError::InvalidAudioTrack { .. }));
    assert_eq!(
        e.message(),
        "Invalid audio track index provided in \"/video.mp4/x1\": invalid digit found in string",
    );
    let e = ExtractAudioParams::from_str("/video.mp4/").unwrap_err();
    assert_eq!(
        e.message(),
        "Invalid audio track index provided in \"/video.mp4/\": cannot parse integer from empty string",
    );
}

#[test]
fn oversized_track_index_is_rejected() {
    assert!(ExtractAudioParams::from_str("/v/4294967295").is_ok());
    let e = ExtractAudioParams::from_str("/v/4294967296").unwrap_err();
    assert_eq!(
        e.message(),
        "Invalid audio track index provided in \"/v/4294967296\": number too large to fit in target type",
    );
}

#[test]
fn extraction_arguments() {
    let p = ExtractAudioParams { video_source: String::from("clip.mp4"), audio_track_index: 2 };
    let args = build_extract_audio_args(&p);
    let got: Vec<&str> = args.iter().map(|s| s.as_str()).collect();
    assert_eq!(
        got,
        vec!["-i", "clip.mp4", "-v", "quiet", "-map", "0:2", "-f", "mp3", "pipe:2"],
    );
}

#[test]
fn content_range_header_value() {
    assert_eq!(content_range_text(0), "bytes */0");
    assert_eq!(content_range_text(123456), "bytes */123456");
}
