use vstd::prelude::*;

use crate::codec::{codec_name, CodecPreference};
use crate::sanitize::{sanitize_title, sanitized_name};
use crate::text::{first_two_fields, split_field, trim_text, trimmed};

verus! {

/// The characters of each text in `v`.
pub open spec fn views_of(v: Seq<String>) -> Seq<Seq<char>> {
    v.map_values(|s: String| s@)
}

/// The arguments given to ffmpeg to turn `input` into `output` in `codec`.
/// With `quiet`, an MP3 conversion only logs errors.
pub open spec fn ffmpeg_conversion_args(
    codec: CodecPreference,
    input: Seq<char>,
    output: Seq<char>,
    quiet: bool,
) -> Seq<Seq<char>> {
    match codec {
        CodecPreference::MP3 => (if quiet {
            seq!["-loglevel"@, "error"@]
        } else {
            Seq::empty()
        }) + seq![
            "-i"@,
            input,
            "-f"@,
            "mp3"@,
            "-acodec"@,
            "libmp3lame"@,
            "-q:a"@,
            "2"@,
            output,
        ],
        CodecPreference::OGG => seq![
            "-i"@,
            input,
            "-f"@,
            "ogg"@,
            "-acodec"@,
            "libvorbis"@,
            "-q:a"@,
            "6"@,
            output,
        ],
        CodecPreference::FLAC => seq!["-i"@, input, "-f"@, "flac"@, "-acodec"@, "flac"@, output],
        CodecPreference::WAV => seq!["-i"@, input, "-f"@, "wav"@, "-acodec"@, "pcm_s16le"@, output],
        CodecPreference::AAC => seq![
            "-i"@,
            input,
            "-f"@,
            "adts"@,
            "-acodec"@,
            "aac"@,
            "-b:a"@,
            "192k"@,
            output,
        ],
    }
}

/// The ffmpeg arguments that turn a downloaded `.m4a` stream into `codec`.
pub open spec fn stream_conversion_args_spec(
    codec: CodecPreference,
    input: Seq<char>,
    output: Seq<char>,
) -> Seq<Seq<char>> {
    seq!["-i"@, input, "-c:a"@, codec_name(codec), "-compression_level"@, "5"@, output]
}

/// The yt-dlp arguments that print a track's information as JSON.
pub open spec fn fetch_info_args_spec(url: Seq<char>) -> Seq<Seq<char>> {
    seq![
        "-f ba"@,
        "--print-json"@,
        "-x"@,
        "--audio-format opus"@,
        "-embed-metadata --embed-thumbnail --convert-thumbnails jpg"@,
        url,
    ]
}

/// The yt-dlp arguments that download the best audio of `url` to `template`
/// and print `title|path` once the file is in place.
pub open spec fn download_music_args_spec(template: Seq<char>, url: Seq<char>) -> Seq<Seq<char>> {
    seq!["-f"@, "ba"@, "-o"@, template, "--print"@, "after_move:\"%(title)s|%(filepath)s\""@, url]
}

/// The (title, path) that a download report names: the trimmed report split
/// at `|`, with an empty text for a piece that is missing.
pub open spec fn download_report_fields(report: Seq<char>) -> (Seq<char>, Seq<char>) {
    let t = trimmed(report);
    let title = match split_field(t, '|', 0) {
        Some(f) => f,
        None => Seq::empty(),
    };
    let path = match split_field(t, '|', 1) {
        Some(f) => f,
        None => Seq::empty(),
    };
    (title, path)
}

fn push_text(v: &mut Vec<String>, s: &str)
    ensures
        views_of(final(v)@) == views_of(old(v)@).push(s@),
{
    v.push(String::from_str(s));
    assert(views_of(final(v)@) =~= views_of(old(v)@).push(s@));
}

fn conversion_args(codec: CodecPreference, input: &str, output: &str, quiet: bool) -> (args: Vec<
    String,
>)
    ensures
        views_of(args@) == ffmpeg_conversion_args(codec, input@, output@, quiet),
{
    let mut args: Vec<String> = Vec::new();
    assert(views_of(args@) =~= Seq::empty());
    match codec {
        CodecPreference::MP3 => {
            if quiet {
                push_text(&mut args, "-loglevel");
                push_text(&mut args, "error");
            }
            push_text(&mut args, "-i");
            push_text(&mut args, input);
            push_text(&mut args, "-f");
            push_text(&mut args, "mp3");
            push_text(&mut args, "-acodec");
            push_text(&mut args, "libmp3lame");
            push_text(&mut args, "-q:a");
            push_text(&mut args, "2");
            push_text(&mut args, output);
        },
        CodecPreference::OGG => {
            push_text(&mut args, "-i");
            push_text(&mut args, input);
            push_text(&mut args, "-f");
            push_text(&mut args, "ogg");
            push_text(&mut args, "-acodec");
            push_text(&mut args, "libvorbis");
            push_text(&mut args, "-q:a");
            push_text(&mut args, "6");
            push_text(&mut args, output);
        },
        CodecPreference::FLAC => {
            push_text(&mut args, "-i");
            push_text(&mut args, input);
            push_text(&mut args, "-f");
            push_text(&mut args, "flac");
            push_text(&mut args, "-acodec");
            push_text(&mut args, "flac");
            push_text(&mut args, output);
        },
        CodecPreference::WAV => {
            push_text(&mut args, "-i");
            push_text(&mut args, input);
            push_text(&mut args, "-f");
            push_text(&mut args, "wav");
            push_text(&mut args, "-acodec");
            push_text(&mut args, "pcm_s16le");
            push_text(&mut args, output);
        },
        CodecPreference::AAC => {
            push_text(&mut args, "-i");
            push_text(&mut args, input);
            push_text(&mut args, "-f");
            push_text(&mut args, "adts");
            push_text(&mut args, "-acodec");
            push_text(&mut args, "aac");
            push_text(&mut args, "-b:a");
            push_text(&mut args, "192k");
            push_text(&mut args, output);
        },
    }
    assert(views_of(args@) =~= ffmpeg_conversion_args(codec, input@, output@, quiet));
    args
}

/// The ffmpeg arguments with which the song downloader converts the
/// downloaded `input` file into `output` (an MP3 conversion logs errors only).
pub fn music_conversion_args(codec: CodecPreference, input: &str, output: &str) -> (args: Vec<
    String,
>)
    ensures
        views_of(args@) == ffmpeg_conversion_args(codec, input@, output@, true),
{
    conversion_args(codec, input, output, true)
}

/// The ffmpeg arguments with which the YouTube downloader converts the
/// downloaded `input` file into `output`.
pub fn youtube_conversion_args(codec: CodecPreference, input: &str, output: &str) -> (args: Vec<
    String,
>)
    ensures
        views_of(args@) == ffmpeg_conversion_args(codec, input@, output@, false),
{
    conversion_args(codec, input, output, false)
}

/// The ffmpeg arguments that convert a downloaded `.m4a` stream to `codec`;
/// `None` for AAC, which that stream already is.
pub fn stream_conversion_args(codec: CodecPreference, input: &str, output: &str) -> (args: Option<
    Vec<String>,
>)
    ensures
        match args {
            None => codec == CodecPreference::AAC,
            Some(a) => codec != CodecPreference::AAC && views_of(a@)
                == stream_conversion_args_spec(codec, input@, output@),
        },
{
    if codec == CodecPreference::AAC {
        return None;
    }
    let name = codec.to_string();
    let mut args: Vec<String> = Vec::new();
    assert(views_of(args@) =~= Seq::empty());
    push_text(&mut args, "-i");
    push_text(&mut args, input);
    push_text(&mut args, "-c:a");
    push_text(&mut args, name.as_str());
    push_text(&mut args, "-compression_level");
    push_text(&mut args, "5");
    push_text(&mut args, output);
    assert(views_of(args@) =~= stream_conversion_args_spec(codec, input@, output@));
    Some(args)
}

/// The yt-dlp arguments with which a track's information is fetched.
pub fn fetch_info_args(url: &str) -> (args: Vec<String>)
    ensures
        views_of(args@) == fetch_info_args_spec(url@),
{
    let mut args: Vec<String> = Vec::new();
    assert(views_of(args@) =~= Seq::empty());
    push_text(&mut args, "-f ba");
    push_text(&mut args, "--print-json");
    push_text(&mut args, "-x");
    push_text(&mut args, "--audio-format opus");
    push_text(&mut args, "-embed-metadata --embed-thumbnail --convert-thumbnails jpg");
    push_text(&mut args, url);
    assert(views_of(args@) =~= fetch_info_args_spec(url@));
    args
}

/// The yt-dlp arguments with which a track is downloaded to `template`.
pub fn download_music_args(template: &str, url: &str) -> (args: Vec<String>)
    ensures
        views_of(args@) == download_music_args_spec(template@, url@),
{
    let mut args: Vec<String> = Vec::new();
    assert(views_of(args@) =~= Seq::empty());
    push_text(&mut args, "-f");
    push_text(&mut args, "ba");
    push_text(&mut args, "-o");
    push_text(&mut args, template);
    push_text(&mut args, "--print");
    push_text(&mut args, "after_move:\"%(title)s|%(filepath)s\"");
    push_text(&mut args, url);
    assert(views_of(args@) =~= download_music_args_spec(template@, url@));
    args
}

/// The file-name template, relative to the output directory, under which
/// yt-dlp stores a downloaded track.
pub fn output_template() -> (t: &'static str)
    ensures
        t@ == "%(uploader)s - %(title)s.%(ext)s"@,
{
    "%(uploader)s - %(title)s.%(ext)s"
}

/// The title and path that yt-dlp reported after moving a download in place.
pub fn parse_download_report(report: &str) -> (r: (String, String))
    ensures
        (r.0@, r.1@) == download_report_fields(report@),
{
    let t = trim_text(report);
    let (title, rest) = first_two_fields(t.as_str(), '|');
    let path = match rest {
        Some(p) => p,
        None => String::new(),
    };
    (title, path)
}

/// The name under which the raw download of `title` (a title already fit to
/// name a file) is stored.
pub fn download_file_name(title: &str) -> (n: String)
    ensures
        n@ == title@ + ".webm"@,
{
    String::from_str(title).concat(".webm")
}

/// The name of `title` (a title already fit to name a file) once converted to
/// `codec`.
pub fn converted_file_name(title: &str, codec: CodecPreference) -> (n: String)
    ensures
        n@ == title@ + "."@ + codec_name(codec),
{
    let name = codec.to_string();
    String::from_str(title).concat(".").concat(name.as_str())
}

/// The names of the audio stream of a video titled `video_title` and of its
/// conversion to `codec`: `<title>.m4a` and `<title>.<codec>`, where the title
/// is sanitized (with Windows rules when `windows` holds).
pub fn stream_file_names(video_title: &str, codec: CodecPreference, windows: bool) -> (r: (
    String,
    String,
))
    ensures
        r.0@ == sanitized_name(video_title@, windows) + ".m4a"@,
        r.1@ == sanitized_name(video_title@, windows) + "."@ + codec_name(codec),
{
    let title = sanitize_title(video_title, windows);
    let stream = String::from_str(title.as_str()).concat(".m4a");
    (stream, converted_file_name(title.as_str(), codec))
}

} // verus!
