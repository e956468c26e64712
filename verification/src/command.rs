//! The command builder: turns a `RenderRequest` into the full ordered
//! argument vector for the external transcoder, including the audio
//! merge filter graph when more than one track is selected.

use vstd::prelude::*;
use vstd::string::*;

use crate::request::RenderRequest;
use crate::text::{dec_digits, millis_text, push_u64_dec, millis_to_seconds_text};

verus! {

/// The direct stream-map argument for audio track `t`: `0:<t>`.
pub open spec fn track_map_text(t: int) -> Seq<char> {
    "0:"@ + dec_digits(t)
}

/// The input-stream references of the merge filter, one `[0:<t>]` per
/// selected track, in request order.
pub open spec fn track_refs_text(tracks: Seq<u32>) -> Seq<char>
    decreases tracks.len(),
{
    if tracks.len() == 0 {
        Seq::empty()
    } else {
        track_refs_text(tracks.drop_last()) + "[0:"@ + dec_digits(tracks.last() as int) + "]"@
    }
}

/// The whole merge filter expression: every selected track referenced in
/// order, merged with a count equal to the number of selected tracks, into
/// the output pad `[a]`.
pub open spec fn merge_filter_text(tracks: Seq<u32>) -> Seq<char> {
    track_refs_text(tracks) + "amerge=inputs="@ + dec_digits(tracks.len() as int) + "[a]"@
}

/// The audio section of the argument list. No track: empty. One track: a
/// direct stream map. Two or more: the merge filter graph, a map of its
/// output pad, and a forced two-channel output.
pub open spec fn audio_args_text(tracks: Seq<u32>) -> Seq<Seq<char>> {
    if tracks.len() == 0 {
        Seq::empty()
    } else if tracks.len() == 1 {
        seq!["-map"@, track_map_text(tracks[0] as int)]
    } else {
        seq![
            "-filter_complex"@,
            merge_filter_text(tracks),
            "-map"@,
            "[a]"@,
            "-ac"@,
            "2"@,
        ]
    }
}

/// The fixed head of the argument list: input, codecs, trim window and the
/// explicit video-stream map. The duration is exactly the difference of the
/// two trim points.
pub open spec fn base_args_text(req: RenderRequest) -> Seq<Seq<char>> {
    seq![
        "-i"@,
        req.input_path@,
        "-c:v"@,
        req.video_codec@,
        "-c:a"@,
        req.audio_codec@,
        "-ss"@,
        millis_text(req.trim_start_ms as int),
        "-t"@,
        millis_text(req.trim_end_ms - req.trim_start_ms),
        "-map"@,
        "0:v"@,
    ]
}

/// The fixed tail: machine-readable progress on the known stream, the
/// overwrite flag only when requested, and the output path last.
pub open spec fn tail_args_text(req: RenderRequest) -> Seq<Seq<char>> {
    seq!["-progress"@, "pipe:1"@] + (if req.overwrite {
        seq!["-y"@]
    } else {
        Seq::<Seq<char>>::empty()
    }) + seq![req.output_path@]
}

/// The full ordered argument list for one render.
pub open spec fn render_args_text(req: RenderRequest) -> Seq<Seq<char>> {
    base_args_text(req) + audio_args_text(req.audio_tracks@) + req.rate_control.deep_view()
        + tail_args_text(req)
}

/// Builds the complete transcoder argument list for `req`.
pub fn build_render_args(req: &RenderRequest) -> (args: Vec<String>)
    requires
        req.valid(),
    ensures
        args.deep_view() == render_args_text(*req),
{
    let mut args: Vec<String> = Vec::new();
    args.push(String::from_str("-i"));
    args.push(req.input_path.clone());
    args.push(String::from_str("-c:v"));
    args.push(req.video_codec.clone());
    args.push(String::from_str("-c:a"));
    args.push(req.audio_codec.clone());
    args.push(String::from_str("-ss"));
    args.push(millis_to_seconds_text(req.trim_start_ms));
    args.push(String::from_str("-t"));
    args.push(millis_to_seconds_text(req.trim_end_ms - req.trim_start_ms));
    args.push(String::from_str("-map"));
    args.push(String::from_str("0:v"));
    proof {
        assert(args.deep_view() =~= base_args_text(*req));
    }

    let n_tracks = req.audio_tracks.len();
    if n_tracks == 1 {
        args.push(String::from_str("-map"));
        let mut m = String::from_str("0:");
        push_u64_dec(&mut m, req.audio_tracks[0] as u64);
        args.push(m);
    } else if n_tracks >= 2 {
        args.push(String::from_str("-filter_complex"));
        args.push(build_merge_filter(&req.audio_tracks));
        args.push(String::from_str("-map"));
        args.push(String::from_str("[a]"));
        args.push(String::from_str("-ac"));
        args.push(String::from_str("2"));
    }
    proof {
        assert(args.deep_view() =~= base_args_text(*req) + audio_args_text(
            req.audio_tracks@,
        ));
    }
    let ghost with_audio = args.deep_view();

    let mut j: usize = 0;
    while j < req.rate_control.len()
        invariant
            0 <= j <= req.rate_control.len(),
            args.deep_view() =~= with_audio + req.rate_control.deep_view().subrange(0, j as int),
        decreases req.rate_control.len() - j,
    {
        let ghost prev = args.deep_view();
        args.push(req.rate_control[j].clone());
        proof {
            let dv = req.rate_control.deep_view();
            assert(args.deep_view() =~= prev.push(dv[j as int]));
            assert(dv.subrange(0, j as int).push(dv[j as int]) =~= dv.subrange(0, j + 1));
            assert(args.deep_view() =~= with_audio + dv.subrange(0, j + 1));
        }
        j = j + 1;
    }
    proof {
        assert(req.rate_control.deep_view().subrange(0, req.rate_control@.len() as int)
            =~= req.rate_control.deep_view());
    }

    args.push(String::from_str("-progress"));
    args.push(String::from_str("pipe:1"));
    if req.overwrite {
        args.push(String::from_str("-y"));
    }
    args.push(req.output_path.clone());
    proof {
        assert(args.deep_view() =~= render_args_text(*req));
    }
    args
}

/// Two character sequences that differ at one position are different.
proof fn lemma_chars_differ(s: Seq<char>, t: Seq<char>, i: int)
    requires
        0 <= i < s.len(),
        0 <= i < t.len(),
        s[i] != t[i],
    ensures
        s != t,
{
}

proof fn lemma_dec_digits_first(n: int)
    ensures
        dec_digits(n).len() >= 1,
        crate::text::is_dec_digit(dec_digits(n)[0]),
    decreases n,
{
    if n >= 10 {
        lemma_dec_digits_first(n / 10);
    }
}

proof fn lemma_millis_text_first(ms: int)
    ensures
        millis_text(ms).len() >= 1,
        crate::text::is_dec_digit(millis_text(ms)[0]),
{
    lemma_dec_digits_first(ms / 1000);
}

proof fn lemma_track_refs_first(tracks: Seq<u32>)
    requires
        tracks.len() >= 1,
    ensures
        track_refs_text(tracks).len() >= 1,
        track_refs_text(tracks)[0] == '[',
    decreases tracks.len(),
{
    reveal_strlit("[0:");
    reveal_strlit("]");
    if tracks.len() > 1 {
        lemma_track_refs_first(tracks.drop_last());
    } else {
        assert(track_refs_text(tracks.drop_last()) =~= Seq::empty());
    }
}

proof fn lemma_track_map_first(t: int)
    ensures
        track_map_text(t).len() >= 1,
        track_map_text(t)[0] == '0',
{
    reveal_strlit("0:");
}

proof fn lemma_merge_filter_first(tracks: Seq<u32>)
    requires
        tracks.len() >= 1,
    ensures
        merge_filter_text(tracks).len() >= 1,
        merge_filter_text(tracks)[0] == '[',
{
    lemma_track_refs_first(tracks);
}

/// The trim window is passed downstream exactly: the seek argument renders
/// the trim start, and the duration argument renders precisely
/// `trim_end - trim_start`, which is positive for every valid request.
/// The rendering determines the count, by
/// `crate::text::lemma_millis_text_injective`.
pub proof fn lemma_trim_window(req: RenderRequest)
    requires
        req.valid(),
    ensures
        render_args_text(req).len() >= 12,
        render_args_text(req)[6] == "-ss"@,
        render_args_text(req)[7] == millis_text(req.trim_start_ms as int),
        render_args_text(req)[8] == "-t"@,
        render_args_text(req)[9] == millis_text(req.trim_end_ms - req.trim_start_ms),
        req.trim_end_ms - req.trim_start_ms > 0,
{
}

/// The overwrite flag appears in the built argument list exactly when the
/// request asks for it, and when it appears it stands immediately before the
/// output path, which is always the final argument. The free-form strings of
/// the request must not themselves spell the flag for the "only when" half
/// to hold.
pub proof fn lemma_overwrite_flag(req: RenderRequest)
    requires
        req.valid(),
        req.input_path@ != "-y"@,
        req.output_path@ != "-y"@,
        req.video_codec@ != "-y"@,
        req.audio_codec@ != "-y"@,
        forall|k: int|
            0 <= k < req.rate_control.deep_view().len()
                ==> #[trigger] req.rate_control.deep_view()[k] != "-y"@,
    ensures
        ({
            let args = render_args_text(req);
            &&& args.len() >= 2
            &&& args[args.len() - 1] == req.output_path@
            &&& req.overwrite ==> args[args.len() - 2] == "-y"@
            &&& (exists|i: int| 0 <= i < args.len() && args[i] == "-y"@) <==> req.overwrite
            &&& forall|i: int|
                0 <= i < args.len() && #[trigger] args[i] == "-y"@ ==> i == args.len() - 2
        }),
{
    let args = render_args_text(req);
    let base = base_args_text(req);
    let audio = audio_args_text(req.audio_tracks@);
    let rc = req.rate_control.deep_view();
    let tail = tail_args_text(req);
    reveal_strlit("-y");
    reveal_strlit("-i");
    reveal_strlit("-c:v");
    reveal_strlit("-c:a");
    reveal_strlit("-ss");
    reveal_strlit("-t");
    reveal_strlit("-map");
    reveal_strlit("0:v");
    reveal_strlit("-progress");
    reveal_strlit("pipe:1");
    reveal_strlit("-filter_complex");
    reveal_strlit("[a]");
    reveal_strlit("-ac");
    reveal_strlit("2");
    lemma_millis_text_first(req.trim_start_ms as int);
    lemma_millis_text_first(req.trim_end_ms - req.trim_start_ms);
    lemma_chars_differ("-i"@, "-y"@, 1);
    lemma_chars_differ("-c:v"@, "-y"@, 1);
    lemma_chars_differ("-c:a"@, "-y"@, 1);
    lemma_chars_differ("-ss"@, "-y"@, 1);
    lemma_chars_differ("-t"@, "-y"@, 1);
    lemma_chars_differ("-map"@, "-y"@, 1);
    lemma_chars_differ("0:v"@, "-y"@, 0);
    lemma_chars_differ("-progress"@, "-y"@, 1);
    lemma_chars_differ("pipe:1"@, "-y"@, 0);
    lemma_chars_differ("-filter_complex"@, "-y"@, 1);
    lemma_chars_differ("[a]"@, "-y"@, 0);
    lemma_chars_differ("-ac"@, "-y"@, 1);
    lemma_chars_differ("2"@, "-y"@, 0);
    lemma_chars_differ(millis_text(req.trim_start_ms as int), "-y"@, 0);
    lemma_chars_differ(millis_text(req.trim_end_ms - req.trim_start_ms), "-y"@, 0);
    if req.audio_tracks@.len() == 1 {
        lemma_track_map_first(req.audio_tracks@[0] as int);
        lemma_chars_differ(track_map_text(req.audio_tracks@[0] as int), "-y"@, 0);
    }
    if req.audio_tracks@.len() >= 2 {
        lemma_merge_filter_first(req.audio_tracks@);
        lemma_chars_differ(merge_filter_text(req.audio_tracks@), "-y"@, 0);
    }
    assert forall|i: int| 0 <= i < args.len() && #[trigger] args[i] == "-y"@ implies i
        == args.len() - 2 by {
        if i < base.len() {
            assert(args[i] == base[i]);
        } else if i < base.len() + audio.len() {
            assert(args[i] == audio[i - base.len()]);
        } else if i < base.len() + audio.len() + rc.len() {
            assert(args[i] == rc[i - base.len() - audio.len()]);
        } else {
            assert(args[i] == tail[i - base.len() - audio.len() - rc.len()]);
        }
    }
    assert(args[args.len() - 2] == tail[tail.len() - 2]);
    assert(args[args.len() - 1] == tail[tail.len() - 1]);
}

/// The audio-track selection policy. With no selected track the audio
/// section is empty: the only stream map is the video map. With one track,
/// exactly one further map argument appears, a direct reference to that
/// track, and no filter graph. With two or more, exactly one filter-graph
/// argument appears, merging every selected track in request order with a
/// merge count equal to the selection's length, and the following map
/// references the filter's output pad rather than a raw track. The free-form
/// strings of the request must not themselves spell the two flags for the
/// uniqueness halves to hold.
pub proof fn lemma_audio_selection(req: RenderRequest)
    requires
        req.valid(),
        req.input_path@ != "-map"@ && req.input_path@ != "-filter_complex"@,
        req.output_path@ != "-map"@ && req.output_path@ != "-filter_complex"@,
        req.video_codec@ != "-map"@ && req.video_codec@ != "-filter_complex"@,
        req.audio_codec@ != "-map"@ && req.audio_codec@ != "-filter_complex"@,
        forall|k: int|
            0 <= k < req.rate_control.deep_view().len()
                ==> #[trigger] req.rate_control.deep_view()[k] != "-map"@
                && req.rate_control.deep_view()[k] != "-filter_complex"@,
    ensures
        ({
            let args = render_args_text(req);
            let tracks = req.audio_tracks@;
            &&& args[10] == "-map"@ && args[11] == "0:v"@
            &&& tracks.len() == 0 ==> {
                &&& forall|i: int|
                    0 <= i < args.len() ==> #[trigger] args[i] != "-filter_complex"@
                &&& forall|i: int|
                    0 <= i < args.len() && #[trigger] args[i] == "-map"@ ==> i == 10
            }
            &&& tracks.len() == 1 ==> {
                &&& forall|i: int|
                    0 <= i < args.len() ==> #[trigger] args[i] != "-filter_complex"@
                &&& args[12] == "-map"@
                &&& args[13] == track_map_text(tracks[0] as int)
                &&& forall|i: int|
                    0 <= i < args.len() && #[trigger] args[i] == "-map"@ ==> i == 10 || i == 12
            }
            &&& tracks.len() >= 2 ==> {
                &&& args[12] == "-filter_complex"@
                &&& args[13] == merge_filter_text(tracks)
                &&& args[14] == "-map"@ && args[15] == "[a]"@
                &&& args[16] == "-ac"@ && args[17] == "2"@
                &&& forall|i: int|
                    0 <= i < args.len() && #[trigger] args[i] == "-filter_complex"@ ==> i == 12
                &&& forall|i: int|
                    0 <= i < args.len() && #[trigger] args[i] == "-map"@ ==> i == 10 || i == 14
            }
        }),
{
    let args = render_args_text(req);
    let base = base_args_text(req);
    let audio = audio_args_text(req.audio_tracks@);
    let rc = req.rate_control.deep_view();
    let tail = tail_args_text(req);
    reveal_strlit("-y");
    reveal_strlit("-i");
    reveal_strlit("-c:v");
    reveal_strlit("-c:a");
    reveal_strlit("-ss");
    reveal_strlit("-t");
    reveal_strlit("-map");
    reveal_strlit("0:v");
    reveal_strlit("-progress");
    reveal_strlit("pipe:1");
    reveal_strlit("-filter_complex");
    reveal_strlit("[a]");
    reveal_strlit("-ac");
    reveal_strlit("2");
    lemma_millis_text_first(req.trim_start_ms as int);
    lemma_millis_text_first(req.trim_end_ms - req.trim_start_ms);
    lemma_chars_differ("-i"@, "-map"@, 1);
    lemma_chars_differ("-c:v"@, "-map"@, 1);
    lemma_chars_differ("-c:a"@, "-map"@, 1);
    lemma_chars_differ("-ss"@, "-map"@, 1);
    lemma_chars_differ("-t"@, "-map"@, 1);
    lemma_chars_differ("0:v"@, "-map"@, 0);
    lemma_chars_differ("-progress"@, "-map"@, 1);
    lemma_chars_differ("pipe:1"@, "-map"@, 0);
    lemma_chars_differ("-y"@, "-map"@, 1);
    lemma_chars_differ("[a]"@, "-map"@, 0);
    lemma_chars_differ("-ac"@, "-map"@, 1);
    lemma_chars_differ("2"@, "-map"@, 0);
    lemma_chars_differ("-i"@, "-filter_complex"@, 1);
    lemma_chars_differ("-c:v"@, "-filter_complex"@, 1);
    lemma_chars_differ("-c:a"@, "-filter_complex"@, 1);
    lemma_chars_differ("-ss"@, "-filter_complex"@, 1);
    lemma_chars_differ("-t"@, "-filter_complex"@, 1);
    lemma_chars_differ("-map"@, "-filter_complex"@, 1);
    lemma_chars_differ("0:v"@, "-filter_complex"@, 0);
    lemma_chars_differ("-progress"@, "-filter_complex"@, 1);
    lemma_chars_differ("pipe:1"@, "-filter_complex"@, 0);
    lemma_chars_differ("-y"@, "-filter_complex"@, 1);
    lemma_chars_differ("[a]"@, "-filter_complex"@, 0);
    lemma_chars_differ("-ac"@, "-filter_complex"@, 1);
    lemma_chars_differ("2"@, "-filter_complex"@, 0);
    lemma_chars_differ(millis_text(req.trim_start_ms as int), "-map"@, 0);
    lemma_chars_differ(millis_text(req.trim_end_ms - req.trim_start_ms), "-map"@, 0);
    lemma_chars_differ(millis_text(req.trim_start_ms as int), "-filter_complex"@, 0);
    lemma_chars_differ(millis_text(req.trim_end_ms - req.trim_start_ms), "-filter_complex"@, 0);
    if req.audio_tracks@.len() == 1 {
        lemma_track_map_first(req.audio_tracks@[0] as int);
        lemma_chars_differ(track_map_text(req.audio_tracks@[0] as int), "-map"@, 0);
        lemma_chars_differ(track_map_text(req.audio_tracks@[0] as int), "-filter_complex"@, 0);
    }
    if req.audio_tracks@.len() >= 2 {
        lemma_merge_filter_first(req.audio_tracks@);
        lemma_chars_differ(merge_filter_text(req.audio_tracks@), "-map"@, 0);
        lemma_chars_differ(merge_filter_text(req.audio_tracks@), "-filter_complex"@, 0);
    }
    assert forall|i: int|
        0 <= i < args.len() && (#[trigger] args[i] == "-map"@ || args[i]
            == "-filter_complex"@) implies (args[i] == "-map"@ && (i == 10 || (audio.len() >= 2
        && i == 12 && audio[0] == "-map"@) || (audio.len() == 6 && i == 14))) || (args[i]
        == "-filter_complex"@ && audio.len() == 6 && i == 12) by {
        if i < base.len() {
            assert(args[i] == base[i]);
        } else if i < base.len() + audio.len() {
            assert(args[i] == audio[i - base.len()]);
        } else if i < base.len() + audio.len() + rc.len() {
            assert(args[i] == rc[i - base.len() - audio.len()]);
        } else {
            assert(args[i] == tail[i - base.len() - audio.len() - rc.len()]);
        }
    }
    assert(args[10] == base[10]);
    assert(args[11] == base[11]);
    if req.audio_tracks@.len() == 1 {
        assert(args[12] == audio[0]);
        assert(args[13] == audio[1]);
    }
    if req.audio_tracks@.len() >= 2 {
        assert(args[12] == audio[0]);
        assert(args[13] == audio[1]);
        assert(args[14] == audio[2]);
        assert(args[15] == audio[3]);
        assert(args[16] == audio[4]);
        assert(args[17] == audio[5]);
    }
}

/// Builds the merge filter expression for two or more tracks.
fn build_merge_filter(tracks: &Vec<u32>) -> (filter: String)
    ensures
        filter@ == merge_filter_text(tracks@),
{
    let mut filter = String::new();
    let mut i: usize = 0;
    while i < tracks.len()
        invariant
            0 <= i <= tracks@.len(),
            filter@ == track_refs_text(tracks@.subrange(0, i as int)),
        decreases tracks@.len() - i,
    {
        filter.append("[0:");
        push_u64_dec(&mut filter, tracks[i] as u64);
        filter.append("]");
        proof {
            let sub = tracks@.subrange(0, i + 1);
            assert(sub.drop_last() =~= tracks@.subrange(0, i as int));
            assert(sub.last() == tracks@[i as int]);
            assert(filter@ =~= track_refs_text(sub));
        }
        i = i + 1;
    }
    proof {
        assert(tracks@.subrange(0, tracks@.len() as int) =~= tracks@);
    }
    filter.append("amerge=inputs=");
    push_u64_dec(&mut filter, tracks.len() as u64);
    filter.append("[a]");
    proof {
        assert(filter@ =~= merge_filter_text(tracks@));
    }
    filter
}

} // verus!
