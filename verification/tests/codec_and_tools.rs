use music_downloader::codec::CodecPreference;
use music_downloader::tools::{
    converted_file_name, download_file_name, download_music_args, fetch_info_args,
    music_conversion_args, output_template, parse_download_report, stream_conversion_args,
    stream_file_names, youtube_conversion_args,
};

const ALL: [CodecPreference; 5] = [
    CodecPreference::FLAC,
    CodecPreference::MP3,
    CodecPreference::AAC,
    CodecPreference::WAV,
    CodecPreference::OGG,
];

#[test]
fn codec_names() {
    assert_eq!(CodecPreference::FLAC.to_string(), "flac");
    assert_eq!(CodecPreference::MP3.to_string(), "mp3");
    assert_eq!(CodecPreference::AAC.to_string(), "aac");
    assert_eq!(CodecPreference::WAV.to_string(), "wav");
    assert_eq!(CodecPreference::OGG.to_string(), "ogg");
}

#[test]
fn codec_from_known_names() {
    assert_eq!(CodecPreference::to_codec("flac"), CodecPreference::FLAC);
    assert_eq!(CodecPreference::to_codec("mp3"), CodecPreference::MP3);
    assert_eq!(CodecPreference::to_codec("aac"), CodecPreference::AAC);
    assert_eq!(CodecPreference::to_codec("wav"), CodecPreference::WAV);
    assert_eq!(CodecPreference::to_codec("ogg"), CodecPreference::OGG);
}

#[test]
fn codec_from_unknown_name_is_mp3() {
    assert_eq!(CodecPreference::to_codec(""), CodecPreference::MP3);
    assert_eq!(CodecPreference::to_codec("FLAC"), CodecPreference::MP3);
    assert_eq!(CodecPreference::to_codec("opus"), CodecPreference::MP3);
    assert_eq!(CodecPreference::to_codec(" wav"), CodecPreference::MP3);
}

#[test]
fn codec_name_round_trip() {
    for c in ALL {
        assert_eq!(CodecPreference::to_codec(&c.to_string()), c);
    }
}

#[test]
fn codec_default_is_mp3() {
    assert_eq!(CodecPreference::default(), CodecPreference::MP3);
}

#[test]
fn music_mp3_conversion_is_quiet() {
    let args = music_conversion_args(CodecPreference::MP3, "in.webm", "out.mp3");
    assert_eq!(
        args,
        vec![
            "-loglevel", "error", "-i", "in.webm", "-f", "mp3", "-acodec", "libmp3lame", "-q:a",
            "2", "out.mp3"
        ]
    );
}

#[test]
fn youtube_mp3_conversion_logs_normally() {
    let args = youtube_conversion_args(CodecPreference::MP3, "in.webm", "out.mp3");
    assert_eq!(
        args,
        vec!["-i", "in.webm", "-f", "mp3", "-acodec", "libmp3lame", "-q:a", "2", "out.mp3"]
    );
}

#[test]
fn conversion_args_for_other_codecs() {
    for quiet in [true, false] {
        let conv = |c| {
            if quiet {
                music_conversion_args(c, "a", "b")
            } else {
                youtube_conversion_args(c, "a", "b")
            }
        };
        assert_eq!(
            conv(CodecPreference::OGG),
            vec!["-i", "a", "-f", "ogg", "-acodec", "libvorbis", "-q:a", "6", "b"]
        );
        assert_eq!(
            conv(CodecPreference::FLAC),
            vec!["-i", "a", "-f", "flac", "-acodec", "flac", "b"]
        );
        assert_eq!(
            conv(CodecPreference::WAV),
            vec!["-i", "a", "-f", "wav", "-acodec", "pcm_s16le", "b"]
        );
        assert_eq!(
            conv(CodecPreference::AAC),
            vec!["-i", "a", "-f", "adts", "-acodec", "aac", "-b:a", "192k", "b"]
        );
    }
}

#[test]
fn stream_conversion() {
    assert_eq!(stream_conversion_args(CodecPreference::AAC, "x.m4a", "x.aac"), None);
    assert_eq!(
        stream_conversion_args(CodecPreference::FLAC, "x.m4a", "x.flac"),
        Some(
            vec!["-i", "x.m4a", "-c:a", "flac", "-compression_level", "5", "x.flac"]
                .into_iter()
                .map(String::from)
                .collect()
        )
    );
    assert_eq!(
        stream_file_names("Song", CodecPreference::FLAC, false),
        ("Song.m4a".to_string(), "Song.flac".to_string())
    );
    assert_eq!(
        stream_file_names("AC/DC: Live?", CodecPreference::MP3, false),
        ("ACDC Live.m4a".to_string(), "ACDC Live.mp3".to_string())
    );
}

#[test]
fn yt_dlp_arguments() {
    assert_eq!(
        fetch_info_args("https://x/y"),
        vec![
            "-f ba",
            "--print-json",
            "-x",
            "--audio-format opus",
            "-embed-metadata --embed-thumbnail --convert-thumbnails jpg",
            "https://x/y"
        ]
    );
    assert_eq!(
        download_music_args("out/%(title)s", "u"),
        vec!["-f", "ba", "-o", "out/%(title)s", "--print", "after_move:\"%(title)s|%(filepath)s\"", "u"]
    );
    assert_eq!(output_template(), "%(uploader)s - %(title)s.%(ext)s");
}

#[test]
fn download_report_parsing() {
    assert_eq!(
        parse_download_report("  Title|/music/Title.opus\n"),
        ("Title".to_string(), "/music/Title.opus".to_string())
    );
    assert_eq!(parse_download_report("only a title"), ("only a title".to_string(), String::new()));
    assert_eq!(parse_download_report(""), (String::new(), String::new()));
    assert_eq!(parse_download_report("\t\n "), (String::new(), String::new()));
    assert_eq!(parse_download_report("a|b|c"), ("a".to_string(), "b".to_string()));
    assert_eq!(parse_download_report("|b"), (String::new(), "b".to_string()));
    assert_eq!(parse_download_report("\u{3000}x|y\u{a0}"), ("x".to_string(), "y".to_string()));
}

#[test]
fn file_names() {
    assert_eq!(download_file_name("A song"), "A song.webm");
    assert_eq!(converted_file_name("A song", CodecPreference::WAV), "A song.wav");
    for c in ALL {
        assert_eq!(converted_file_name("t", c), format!("t.{}", c.to_string()));
    }
}
