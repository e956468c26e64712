//! The audio-extraction resource protocol: its path grammar
//! `/<url-encoded video source>/<audio track index>`, the parser that
//! decodes a request path into parameters, the argument list for the
//! one-shot extraction run, and the response header values. The HTTP
//! plumbing around these lives in the surrounding application.

use vstd::prelude::*;
use vstd::string::*;

use crate::command::track_map_text;
use crate::text::{
    all_dec_digits, dec_digits, dec_val, no_char_in, find_char_from, parse_u32_dec,
    parse_u32_failure, push_u64_dec, u32_parse_failure_text,
};

verus! {

/// The parsed form of an audio-extraction request path.
#[derive(Debug)]
pub struct ExtractAudioParams {
    pub video_source: String,
    pub audio_track_index: u32,
}

/// Why a request path was rejected. Each variant carries the rejected
/// input, and the decode and parse failures carry the underlying cause,
/// so the description can name them.
#[derive(Debug)]
pub enum InvalidUrlError {
    /// The path does not begin with a slash.
    UnrecognizedFormat { string: String },
    /// No second slash separates the source from the track index.
    MissingDelimiter { string: String },
    /// A further slash follows the track index, at character `offset` of
    /// the path.
    UnexpectedDelimiter { string: String, offset: usize },
    /// The percent-encoded source does not decode to text.
    InvalidVideoSource { encoded: String, cause: String },
    /// The track index is not an unsigned decimal number in range.
    InvalidAudioTrack { string: String, cause: String },
}

/// What `urlencoding::decode` returns for a given input, named only: the
/// decoding is a pure function of the input characters. `Err` carries the
/// failure's description, itself determined by the decoded bytes.
pub uninterp spec fn percent_decoded(s: Seq<char>) -> Result<Seq<char>, Seq<char>>;

/// Relies on urlencoding::decode: percent-decodes `%XX` escapes, leaving
/// malformed escapes as they stand; the result depends on the input
/// characters alone, and the call fails exactly when the decoded bytes are
/// not valid UTF-8, with the rendered error as the failure's description.
/// An input without a percent sign decodes to itself.
#[verifier::external_body]
fn percent_decode(s: &str) -> (r: Result<String, String>)
    ensures
        match r {
            Ok(d) => percent_decoded(s@) == Ok::<Seq<char>, Seq<char>>(d@) && (no_char_in(
                s@,
                '%',
                0,
                s@.len() as int,
            ) ==> d@ == s@),
            Err(cause) => percent_decoded(s@) == Err::<Seq<char>, Seq<char>>(cause@)
                && !no_char_in(s@, '%', 0, s@.len() as int),
        },
{
    match urlencoding::decode(s) {
        Ok(decoded) => Ok(decoded.into_owned()),
        Err(e) => Err(e.to_string()),
    }
}

/// Whether `k` is the position of the separating slash: the first slash
/// after the leading one.
pub open spec fn is_separator(s: Seq<char>, k: int) -> bool {
    1 <= k < s.len() && s[k] == '/' && no_char_in(s, '/', 1, k)
}

impl ExtractAudioParams {
    /// Parses a request path. The grammar is a leading slash, the
    /// percent-encoded video source up to the next slash, and the decimal
    /// audio track index to the end, with no further slash permitted. Each
    /// rejection names the first rule the path breaks, in the order the
    /// rules are stated here, and carries the rejected input (and, for the
    /// decode and parse failures, the underlying cause).
    pub fn from_str(s: &str) -> (r: Result<ExtractAudioParams, InvalidUrlError>)
        ensures
            ({
                let sv = s@;
                let n = sv.len() as int;
                &&& (r matches Err(e) && e is UnrecognizedFormat <==> n == 0 || sv[0] != '/')
                &&& (r matches Err(e) && e is MissingDelimiter <==> n >= 1 && sv[0] == '/'
                    && no_char_in(sv, '/', 1, n))
                &&& match r {
                    Err(InvalidUrlError::UnrecognizedFormat { string }) => string@ == sv,
                    Err(InvalidUrlError::MissingDelimiter { string }) => string@ == sv,
                    Err(InvalidUrlError::UnexpectedDelimiter { string, offset }) => string@ == sv,
                    Err(InvalidUrlError::InvalidAudioTrack { string, cause }) => string@ == sv,
                    _ => true,
                }
                &&& forall|k: int|
                    n >= 1 && sv[0] == '/' && #[trigger] is_separator(sv, k) ==> {
                        let src = sv.subrange(1, k);
                        let idx = sv.subrange(k + 1, n);
                        &&& (r matches Err(e) && e is UnexpectedDelimiter <==> !no_char_in(
                            sv,
                            '/',
                            k + 1,
                            n,
                        ))
                        &&& match r {
                            Err(InvalidUrlError::UnexpectedDelimiter { string, offset }) => k
                                < offset < n && sv[offset as int] == '/' && no_char_in(
                                sv,
                                '/',
                                k + 1,
                                offset as int,
                            ),
                            _ => true,
                        }
                        &&& no_char_in(sv, '/', k + 1, n) ==> {
                            &&& (r matches Err(e) && e is InvalidVideoSource <==> percent_decoded(
                                src,
                            ) is Err)
                            &&& match r {
                                Err(InvalidUrlError::InvalidVideoSource { encoded, cause }) => encoded@
                                    == src && Err::<Seq<char>, Seq<char>>(cause@)
                                    == percent_decoded(src),
                                _ => true,
                            }
                            &&& percent_decoded(src) is Ok ==> {
                                &&& (r is Ok <==> idx.len() > 0 && all_dec_digits(idx) && dec_val(
                                    idx,
                                ) <= u32::MAX)
                                &&& match r {
                                    Err(InvalidUrlError::InvalidAudioTrack { string, cause }) => cause@
                                        == u32_parse_failure_text(idx),
                                    Err(_) => false,
                                    Ok(p) => Ok::<Seq<char>, Seq<char>>(p.video_source@)
                                        == percent_decoded(src) && p.audio_track_index as int
                                        == dec_val(idx),
                                }
                            }
                        }
                    }
            }),
    {
        let n = s.unicode_len();
        if n == 0 || s.get_char(0) != '/' {
            return Err(InvalidUrlError::UnrecognizedFormat { string: String::from_str(s) });
        }
        let sep = match find_char_from(s, '/', 1) {
            Some(k) => k,
            None => {
                return Err(InvalidUrlError::MissingDelimiter { string: String::from_str(s) });
            },
        };
        proof {
            assert(is_separator(s@, sep as int));
            assert forall|k: int| #[trigger] is_separator(s@, k) implies k == sep as int by {
                if k < sep as int {
                    assert(s@[k] != '/');
                } else if k > sep as int {
                    assert(s@[sep as int] != '/');
                }
            }
        }
        if let Some(extra) = find_char_from(s, '/', sep + 1) {
            return Err(InvalidUrlError::UnexpectedDelimiter {
                string: String::from_str(s),
                offset: extra,
            });
        }
        let src_str = s.substring_char(1, sep);
        let idx_str = s.substring_char(sep + 1, n);
        let video_source = match percent_decode(src_str) {
            Ok(decoded) => decoded,
            Err(cause) => {
                return Err(InvalidUrlError::InvalidVideoSource {
                    encoded: String::from_str(src_str),
                    cause,
                });
            },
        };
        let audio_track_index = match parse_u32_dec(idx_str) {
            Some(v) => v,
            None => {
                return Err(InvalidUrlError::InvalidAudioTrack {
                    string: String::from_str(s),
                    cause: parse_u32_failure(idx_str),
                });
            },
        };
        Ok(ExtractAudioParams { video_source, audio_track_index })
    }
}

/// The rejected text, quoted. No escaping is applied to special
/// characters inside the quotes: the text stands between them as it is.
pub open spec fn quoted_text(s: Seq<char>) -> Seq<char> {
    seq!['"'] + s + seq!['"']
}

/// The description of one rejection, for the failure response's body: it
/// names the rejected input and, where one exists, the underlying cause.
pub open spec fn error_message_text(e: InvalidUrlError) -> Seq<char> {
    match e {
        InvalidUrlError::UnrecognizedFormat { string } => "Unrecognized format in "@
            + quoted_text(string@),
        InvalidUrlError::MissingDelimiter { string } => "Missing delimiter in "@ + quoted_text(
            string@,
        ),
        InvalidUrlError::UnexpectedDelimiter { string, offset } => "Unexpected delimiter in "@
            + quoted_text(string@) + " at "@ + dec_digits(offset as int),
        InvalidUrlError::InvalidVideoSource { encoded, cause } => "Invalid video source provided in "@
            + quoted_text(encoded@) + ": "@ + cause@,
        InvalidUrlError::InvalidAudioTrack { string, cause } => "Invalid audio track index provided in "@
            + quoted_text(string@) + ": "@ + cause@,
    }
}

impl InvalidUrlError {
    /// Renders the rejection for the failure response's body, per
    /// `error_message_text`.
    pub fn message(&self) -> (s: String)
        ensures
            s@ == error_message_text(*self),
    {
        let mut m: String;
        match self {
            InvalidUrlError::UnrecognizedFormat { string } => {
                m = String::from_str("Unrecognized format in \"");
                m.append(string.as_str());
                m.append("\"");
            },
            InvalidUrlError::MissingDelimiter { string } => {
                m = String::from_str("Missing delimiter in \"");
                m.append(string.as_str());
                m.append("\"");
            },
            InvalidUrlError::UnexpectedDelimiter { string, offset } => {
                m = String::from_str("Unexpected delimiter in \"");
                m.append(string.as_str());
                m.append("\" at ");
                push_u64_dec(&mut m, *offset as u64);
            },
            InvalidUrlError::InvalidVideoSource { encoded, cause } => {
                m = String::from_str("Invalid video source provided in \"");
                m.append(encoded.as_str());
                m.append("\": ");
                m.append(cause.as_str());
            },
            InvalidUrlError::InvalidAudioTrack { string, cause } => {
                m = String::from_str("Invalid audio track index provided in \"");
                m.append(string.as_str());
                m.append("\": ");
                m.append(cause.as_str());
            },
        }
        proof {
            reveal_strlit("Unrecognized format in ");
            reveal_strlit("Unrecognized format in \"");
            reveal_strlit("Missing delimiter in ");
            reveal_strlit("Missing delimiter in \"");
            reveal_strlit("Unexpected delimiter in ");
            reveal_strlit("Unexpected delimiter in \"");
            reveal_strlit("Invalid video source provided in ");
            reveal_strlit("Invalid video source provided in \"");
            reveal_strlit("Invalid audio track index provided in ");
            reveal_strlit("Invalid audio track index provided in \"");
            reveal_strlit("\"");
            reveal_strlit(" at ");
            reveal_strlit("\" at ");
            reveal_strlit(": ");
            reveal_strlit("\": ");
            assert(m@ =~= error_message_text(*self));
        }
        m
    }
}

/// The argument list for the one-shot extraction run: remux the selected
/// track of the source to a compressed audio stream on the error pipe.
pub open spec fn extract_args_text(source: Seq<char>, track: int) -> Seq<Seq<char>> {
    seq![
        "-i"@,
        source,
        "-v"@,
        "quiet"@,
        "-map"@,
        track_map_text(track),
        "-f"@,
        "mp3"@,
        "pipe:2"@,
    ]
}

/// Builds the extraction argument list for `params`.
pub fn build_extract_audio_args(params: &ExtractAudioParams) -> (args: Vec<String>)
    ensures
        args.deep_view() == extract_args_text(
            params.video_source@,
            params.audio_track_index as int,
        ),
{
    let mut args: Vec<String> = Vec::new();
    args.push(String::from_str("-i"));
    args.push(params.video_source.clone());
    args.push(String::from_str("-v"));
    args.push(String::from_str("quiet"));
    args.push(String::from_str("-map"));
    let mut m = String::from_str("0:");
    push_u64_dec(&mut m, params.audio_track_index as u64);
    args.push(m);
    args.push(String::from_str("-f"));
    args.push(String::from_str("mp3"));
    args.push(String::from_str("pipe:2"));
    proof {
        assert(args.deep_view() =~= extract_args_text(
            params.video_source@,
            params.audio_track_index as int,
        ));
    }
    args
}

/// The Content-Range header value for a whole resource of `len` bytes.
pub open spec fn content_range_value_text(len: int) -> Seq<char> {
    "bytes */"@ + dec_digits(len)
}

/// Renders the Content-Range header value, per `content_range_value_text`.
pub fn content_range_text(len: u64) -> (s: String)
    ensures
        s@ == content_range_value_text(len as int),
{
    let mut s = String::from_str("bytes */");
    push_u64_dec(&mut s, len);
    s
}

} // verus!
