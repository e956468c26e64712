//! The compute halves of the one-shot listing commands: the argument lists
//! for probing a file and listing encoders or hardware accelerators, and
//! the parsers that turn the tool's captured output lines into names. The
//! application reads the lines and strips their endings before handing
//! them in.

use vstd::prelude::*;
use vstd::string::*;

use crate::text::{no_char_in, find_char_from};

verus! {

/// The argument list for probing one media file.
pub open spec fn probe_args_text(filepath: Seq<char>) -> Seq<Seq<char>> {
    seq![
        "-v"@,
        "quiet"@,
        "-print_format"@,
        "json"@,
        "-show_format"@,
        "-show_streams"@,
        filepath,
    ]
}

/// Builds the probe argument list for `filepath`.
pub fn build_probe_args(filepath: &str) -> (args: Vec<String>)
    ensures
        args.deep_view() == probe_args_text(filepath@),
{
    let mut args: Vec<String> = Vec::new();
    args.push(String::from_str("-v"));
    args.push(String::from_str("quiet"));
    args.push(String::from_str("-print_format"));
    args.push(String::from_str("json"));
    args.push(String::from_str("-show_format"));
    args.push(String::from_str("-show_streams"));
    args.push(String::from_str(filepath));
    proof {
        assert(args.deep_view() =~= probe_args_text(filepath@));
    }
    args
}

/// The argument list that asks the transcoder for its encoders.
pub open spec fn encoder_list_args_text() -> Seq<Seq<char>> {
    seq!["-hide_banner"@, "-encoders"@]
}

/// Builds the encoder-listing argument list.
pub fn build_encoder_list_args() -> (args: Vec<String>)
    ensures
        args.deep_view() == encoder_list_args_text(),
{
    let mut args: Vec<String> = Vec::new();
    args.push(String::from_str("-hide_banner"));
    args.push(String::from_str("-encoders"));
    proof {
        assert(args.deep_view() =~= encoder_list_args_text());
    }
    args
}

/// The argument list that asks the transcoder for its hardware
/// accelerators.
pub open spec fn hwaccel_list_args_text() -> Seq<Seq<char>> {
    seq!["-hide_banner"@, "-hwaccels"@]
}

/// Builds the accelerator-listing argument list.
pub fn build_hwaccel_list_args() -> (args: Vec<String>)
    ensures
        args.deep_view() == hwaccel_list_args_text(),
{
    let mut args: Vec<String> = Vec::new();
    args.push(String::from_str("-hide_banner"));
    args.push(String::from_str("-hwaccels"));
    proof {
        assert(args.deep_view() =~= hwaccel_list_args_text());
    }
    args
}

/// The space-separated fields of a line, empty fields included, as
/// `split(' ')` yields them. There is always at least one field.
pub open spec fn fields(s: Seq<char>) -> Seq<Seq<char>>
    decreases s.len(),
{
    if s.len() == 0 {
        seq![s]
    } else if s[0] == ' ' {
        seq![Seq::<char>::empty()] + fields(s.drop_first())
    } else {
        let rest = fields(s.drop_first());
        seq![seq![s[0]] + rest[0]] + rest.drop_first()
    }
}

proof fn lemma_fields_len(s: Seq<char>)
    ensures
        fields(s).len() >= 1,
    decreases s.len(),
{
    if s.len() > 0 {
        lemma_fields_len(s.drop_first());
    }
}

/// Splitting at the first space: the first field is everything before it,
/// and the remaining fields are those of everything after it.
proof fn lemma_fields_split(s: Seq<char>, i: int)
    requires
        0 <= i < s.len(),
        s[i] == ' ',
        no_char_in(s, ' ', 0, i),
    ensures
        fields(s) =~= seq![s.subrange(0, i)] + fields(s.subrange(i + 1, s.len() as int)),
    decreases i,
{
    lemma_fields_len(s.subrange(i + 1, s.len() as int));
    if i == 0 {
        assert(s.drop_first() =~= s.subrange(1, s.len() as int));
        assert(s.subrange(0, 0) =~= Seq::<char>::empty());
    } else {
        let t = s.drop_first();
        assert(forall|j: int| 0 <= j < i - 1 ==> t[j] == s[j + 1]);
        lemma_fields_split(t, i - 1);
        lemma_fields_len(t.subrange(i, t.len() as int));
        assert(t.subrange(i, t.len() as int) =~= s.subrange(i + 1, s.len() as int));
        assert(seq![s[0]] + t.subrange(0, i - 1) =~= s.subrange(0, i));
    }
}

/// A line without a space is a single field.
proof fn lemma_fields_whole(s: Seq<char>)
    requires
        no_char_in(s, ' ', 0, s.len() as int),
    ensures
        fields(s) =~= seq![s],
    decreases s.len(),
{
    if s.len() > 0 {
        let t = s.drop_first();
        lemma_fields_whole(t);
        assert(seq![s[0]] + t =~= s);
    }
}

/// The field of `line` at position `k`, when the line has that many
/// fields.
pub fn field_at(line: &str, k: usize) -> (r: Option<String>)
    ensures
        r is Some <==> (k as int) < fields(line@).len(),
        r matches Some(v) ==> v@ == fields(line@)[k as int],
    decreases line@.len(),
{
    let n = line.unicode_len();
    match find_char_from(line, ' ', 0) {
        None => {
            proof {
                lemma_fields_whole(line@);
            }
            if k == 0 {
                Some(String::from_str(line))
            } else {
                None
            }
        },
        Some(i) => {
            proof {
                lemma_fields_split(line@, i as int);
            }
            if k == 0 {
                Some(String::from_str(line.substring_char(0, i)))
            } else {
                let rest = line.substring_char(i + 1, n);
                field_at(rest, k - 1)
            }
        },
    }
}

/// Whether a line's last character is `d`.
pub open spec fn ends_with_char(s: Seq<char>, d: char) -> bool {
    s.len() > 0 && s[s.len() - 1] == d
}

fn line_ends_with(line: &str, d: char) -> (r: bool)
    ensures
        r == ends_with_char(line@, d),
{
    let n = line.unicode_len();
    n > 0 && line.get_char(n - 1) == d
}

/// Whether `i` is the first line that ends with `d`: the break between the
/// tool's banner section and the listing that follows.
pub open spec fn is_section_break(lv: Seq<Seq<char>>, d: char, i: int) -> bool {
    0 <= i < lv.len() && ends_with_char(lv[i], d) && forall|j: int|
        0 <= j < i ==> !ends_with_char(#[trigger] lv[j], d)
}

/// The error text for a listing line with too few fields.
pub open spec fn invalid_line_text(line: Seq<char>) -> Seq<char> {
    "Invalid output from FFMPEG: "@ + line
}

/// Parses the captured encoder listing. Everything up to and including the
/// first line that ends with a dash is the banner; each later line names
/// its encoder in its third space-separated field. A later line with fewer
/// fields fails the parse with a message naming the first such line; a
/// listing with no banner break yields no encoders.
pub fn parse_encoders(lines: &Vec<String>) -> (r: Result<Vec<String>, String>)
    ensures
        ({
            let lv = lines.deep_view();
            &&& (forall|i: int| 0 <= i < lv.len() ==> !ends_with_char(#[trigger] lv[i], '-'))
                ==> (r matches Ok(v) && v@.len() == 0)
            &&& forall|b: int|
                #[trigger] is_section_break(lv, '-', b) ==> {
                    let body = lv.subrange(b + 1, lv.len() as int);
                    &&& (r is Ok <==> forall|i: int|
                        0 <= i < body.len() ==> fields(#[trigger] body[i]).len() >= 3)
                    &&& (r matches Ok(v) ==> v.deep_view().len() == body.len() && forall|i: int|
                        0 <= i < body.len() ==> v.deep_view()[i] == fields(#[trigger] body[i])[2])
                    &&& (r matches Err(m) ==> exists|i: int|
                        0 <= i < body.len() && fields(#[trigger] body[i]).len() < 3 && m@
                            == invalid_line_text(body[i]))
                }
        }),
{
    let n = lines.len();
    let mut b: usize = 0;
    while b < n && !line_ends_with(lines[b].as_str(), '-')
        invariant
            n == lines@.len(),
            0 <= b <= n,
            forall|j: int| 0 <= j < b ==> !ends_with_char(#[trigger] lines.deep_view()[j], '-'),
        decreases n - b,
    {
        b = b + 1;
    }
    let mut out: Vec<String> = Vec::new();
    if b == n {
        return Ok(out);
    }
    proof {
        assert(is_section_break(lines.deep_view(), '-', b as int));
        assert forall|b2: int| #[trigger] is_section_break(lines.deep_view(), '-', b2) implies b2
            == b as int by {
            if b2 < b as int {
                assert(!ends_with_char(lines.deep_view()[b2], '-'));
            } else if b2 > b as int {
                assert(!ends_with_char(lines.deep_view()[b as int], '-'));
            }
        }
    }
    let ghost body = lines.deep_view().subrange(b + 1, n as int);
    let mut i: usize = b + 1;
    while i < n
        invariant
            n == lines@.len(),
            b < i <= n,
            is_section_break(lines.deep_view(), '-', b as int),
            forall|b2: int|
                #[trigger] is_section_break(lines.deep_view(), '-', b2) ==> b2 == b as int,
            body == lines.deep_view().subrange(b + 1, n as int),
            out.deep_view().len() == i - b - 1,
            forall|j: int|
                0 <= j < i - b - 1 ==> fields(#[trigger] body[j]).len() >= 3
                    && out.deep_view()[j] == fields(body[j])[2],
        decreases n - i,
    {
        match field_at(lines[i].as_str(), 2) {
            Some(name) => {
                out.push(name);
            },
            None => {
                let mut msg = String::from_str("Invalid output from FFMPEG: ");
                msg.append(lines[i].as_str());
                proof {
                    assert(body[i - b - 1] == lines.deep_view()[i as int]);
                    assert(fields(body[i - b - 1]).len() < 3);
                }
                return Err(msg);
            },
        }
        i = i + 1;
    }
    Ok(out)
}

/// Parses the captured accelerator listing. Everything up to and including
/// the first line that ends with a colon is the banner; each later line,
/// trimmed of surrounding whitespace, names one accelerator. A listing
/// with no banner break yields no names.
pub fn parse_hwaccels(lines: &Vec<String>) -> (r: Vec<String>)
    ensures
        ({
            let lv = lines.deep_view();
            &&& (forall|i: int| 0 <= i < lv.len() ==> !ends_with_char(#[trigger] lv[i], ':'))
                ==> r@.len() == 0
            &&& forall|b: int|
                #[trigger] is_section_break(lv, ':', b) ==> {
                    let body = lv.subrange(b + 1, lv.len() as int);
                    &&& r.deep_view().len() == body.len()
                    &&& forall|i: int|
                        0 <= i < body.len() ==> r.deep_view()[i] == crate::text::trim_text(
                            #[trigger] body[i],
                        )
                }
        }),
{
    let n = lines.len();
    let mut b: usize = 0;
    while b < n && !line_ends_with(lines[b].as_str(), ':')
        invariant
            n == lines@.len(),
            0 <= b <= n,
            forall|j: int| 0 <= j < b ==> !ends_with_char(#[trigger] lines.deep_view()[j], ':'),
        decreases n - b,
    {
        b = b + 1;
    }
    let mut out: Vec<String> = Vec::new();
    if b == n {
        return out;
    }
    proof {
        assert(is_section_break(lines.deep_view(), ':', b as int));
        assert forall|b2: int| #[trigger] is_section_break(lines.deep_view(), ':', b2) implies b2
            == b as int by {
            if b2 < b as int {
                assert(!ends_with_char(lines.deep_view()[b2], ':'));
            } else if b2 > b as int {
                assert(!ends_with_char(lines.deep_view()[b as int], ':'));
            }
        }
    }
    let ghost body = lines.deep_view().subrange(b + 1, n as int);
    let mut i: usize = b + 1;
    while i < n
        invariant
            n == lines@.len(),
            b < i <= n,
            body == lines.deep_view().subrange(b + 1, n as int),
            out.deep_view().len() == i - b - 1,
            forall|j: int|
                0 <= j < i - b - 1 ==> out.deep_view()[j] == crate::text::trim_text(
                    #[trigger] body[j],
                ),
        decreases n - i,
    {
        let trimmed = crate::text::trim_ascii(lines[i].as_str());
        out.push(trimmed);
        proof {
            assert(body[i - b - 1] == lines.deep_view()[i as int]);
        }
        i = i + 1;
    }
    out
}

} // verus!
