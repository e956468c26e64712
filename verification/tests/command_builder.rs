use sunderclip_core::command::build_render_args;
use sunderclip_core::request::RenderRequest;

fn sample_request() -> RenderRequest {
    RenderRequest {
        input_path: String::from("in.mp4"),
        output_path: String::from("out.mp4"),
        video_codec: String::from("libx264"),
        audio_codec: String::from("aac"),
        overwrite: false,
        audio_tracks: vec![],
        rate_control: vec![],
        trim_start_ms: 0,
        trim_end_ms: 5000,
    }
}

#[test]
fn single_track_uses_direct_map() {
    let mut req = sample_request();
    req.input_path = String::from("X");
    req.audio_tracks = vec![0];
    let args = build_render_args(&req);
    let mut found_direct_map = false;
    for w in args.windows(2) {
        if w[0] == "-map" && w[1] == "0:0" {
            found_direct_map = true;
        }
    }
    assert!(found_direct_map);
    assert!(args.iter().all(|a| a != "-filter_complex"));
}

#[test]
fn three_tracks_build_one_merge_filter() {
    let mut req = sample_request();
    req.audio_tracks = vec![0, 1, 2];
    let args = build_render_args(&req);
    let filters: Vec<usize> = (0..args.len()).filter(|&i| args[i] == "-filter_complex").collect();
    assert_eq!(filters.len(), 1);
    let f = filters[0];
    assert_eq!(args[f + 1], "[0:0][0:1][0:2]amerge=inputs=3[a]");
    assert_eq!(args[f + 2], "-map");
    assert_eq!(args[f + 3], "[a]");
    assert_eq!(args[f + 4], "-ac");
    assert_eq!(args[f + 5], "2");
}

#[test]
fn zero_tracks_emit_only_video_map() {
    let req = sample_request();
    let args = build_render_args(&req);
    let maps: Vec<usize> = (0..args.len()).filter(|&i| args[i] == "-map").collect();
    assert_eq!(maps.len(), 1);
    assert_eq!(args[maps[0] + 1], "0:v");
    assert!(args.iter().all(|a| a != "-filter_complex"));
}

#[test]
fn duration_is_exact_difference() {
    let mut req = sample_request();
    req.trim_start_ms = 1500;
    req.trim_end_ms = 5000;
    let args = build_render_args(&req);
    assert_eq!(args[6], "-ss");
    assert_eq!(args[7], "1.5");
    assert_eq!(args[8], "-t");
    assert_eq!(args[9], "3.5");
}

#[test]
fn overwrite_flag_precedes_output_path() {
    let mut req = sample_request();
    req.overwrite = true;
    let args = build_render_args(&req);
    assert_eq!(args[args.len() - 2], "-y");
    assert_eq!(args[args.len() - 1], "out.mp4");
}

#[test]
fn no_overwrite_flag_unless_requested() {
    let req = sample_request();
    let args = build_render_args(&req);
    assert!(args.iter().all(|a| a != "-y"));
    assert_eq!(args[args.len() - 1], "out.mp4");
}

#[test]
fn rate_control_tokens_pass_through_in_order() {
    let mut req = sample_request();
    req.rate_control = vec![String::from("-b:v"), String::from("2M")];
    let args = build_render_args(&req);
    let i = (0..args.len()).find(|&i| args[i] == "-b:v").unwrap();
    assert_eq!(args[i + 1], "2M");
    assert_eq!(args[i + 2], "-progress");
    assert_eq!(args[i + 3], "pipe:1");
}

#[test]
fn full_argument_order() {
    let mut req = sample_request();
    req.audio_tracks = vec![1];
    req.overwrite = true;
    req.trim_start_ms = 0;
    req.trim_end_ms = 1050;
    let args = build_render_args(&req);
    let expect = vec![
        "-i", "in.mp4", "-c:v", "libx264", "-c:a", "aac", "-ss", "0", "-t", "1.05", "-map", "0:v",
        "-map", "0:1", "-progress", "pipe:1", "-y", "out.mp4",
    ];
    let got: Vec<&str> = args.iter().map(|s| s.as_str()).collect();
    assert_eq!(got, expect);
}
