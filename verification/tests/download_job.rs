use music_downloader::codec::CodecPreference;
use music_downloader::flow::{
    DownloadJob, DownloadOutcome, DownloaderKind, JobAction, JobEvent, JobStage,
};

#[test]
fn music_job_sanitizes_title() {
    let job = DownloadJob::for_music("AC/DC: Back <In> Black?", CodecPreference::MP3, false);
    assert_eq!(job.title, "ACDC Back In Black");
    assert_eq!(job.converted_file_name(), "ACDC Back In Black.mp3");
    assert_eq!(job.download_file_name(), "ACDC Back In Black.webm");
    let long = "x".repeat(300);
    assert_eq!(DownloadJob::for_music(&long, CodecPreference::MP3, false).title.len(), 255);
    assert_eq!(DownloadJob::for_music("con.txt", CodecPreference::MP3, true).title, "");
    assert_eq!(DownloadJob::for_music("song. ", CodecPreference::MP3, true).title, "song");
}

#[test]
fn youtube_job_sanitizes_title() {
    let job = DownloadJob::for_youtube("A/B", CodecPreference::OGG, false);
    assert_eq!(job.title, "AB");
    assert_eq!(job.converted_file_name(), "AB.ogg");
    assert_eq!(job.download_file_name(), "AB.webm");
    assert_eq!(DownloadJob::for_youtube("lpt1", CodecPreference::OGG, true).title, "");
}

#[test]
fn existing_song_is_not_downloaded() {
    let mut job = DownloadJob::for_music("t", CodecPreference::WAV, false);
    assert_eq!(job.step(JobEvent::ExistingChecked { exists: true }), JobAction::Succeed);
    assert_eq!(job.stage, JobStage::Finished);
    assert_eq!(
        job.step(JobEvent::DownloadEnded { outcome: DownloadOutcome::Saved }),
        JobAction::Ignore
    );
}

#[test]
fn music_job_retries_once_on_missing_format() {
    let mut job = DownloadJob::new("t".to_string(), CodecPreference::FLAC, DownloaderKind::Music);
    assert_eq!(job.step(JobEvent::ExistingChecked { exists: false }), JobAction::Download);
    let missing = JobEvent::DownloadEnded { outcome: DownloadOutcome::FormatNotAvailable };
    assert_eq!(job.step(missing), JobAction::Download);
    assert_eq!(job.step(missing), JobAction::Convert);
    assert_eq!(job.step(JobEvent::ConversionEnded { succeeded: true }), JobAction::Succeed);
}

#[test]
fn failed_download_is_still_converted() {
    let mut job = DownloadJob::new("t".to_string(), CodecPreference::FLAC, DownloaderKind::Music);
    job.step(JobEvent::ExistingChecked { exists: false });
    assert_eq!(
        job.step(JobEvent::DownloadEnded { outcome: DownloadOutcome::Failed }),
        JobAction::Convert
    );
    assert_eq!(job.step(JobEvent::ConversionEnded { succeeded: false }), JobAction::Fail);
}

#[test]
fn youtube_job_never_retries() {
    let mut job = DownloadJob::for_youtube("t", CodecPreference::AAC, false);
    job.step(JobEvent::ExistingChecked { exists: false });
    assert_eq!(
        job.step(JobEvent::DownloadEnded { outcome: DownloadOutcome::FormatNotAvailable }),
        JobAction::Convert
    );
}

#[test]
fn events_out_of_turn_are_ignored() {
    let mut job = DownloadJob::for_youtube("t", CodecPreference::AAC, false);
    assert_eq!(job.step(JobEvent::ConversionEnded { succeeded: true }), JobAction::Ignore);
    assert_eq!(job.stage, JobStage::CheckingExisting);
}

#[test]
fn job_conversion_args_follow_kind() {
    let music = DownloadJob::new("t".to_string(), CodecPreference::MP3, DownloaderKind::Music);
    assert_eq!(music.conversion_args("i", "o")[0], "-loglevel");
    let yt = DownloadJob::new("t".to_string(), CodecPreference::MP3, DownloaderKind::Youtube);
    assert_eq!(yt.conversion_args("i", "o")[0], "-i");
}

#[test]
fn sanitizing_rules() {
    let t = |s: &str, w: bool| DownloadJob::for_music(s, CodecPreference::MP3, w).title;
    assert_eq!(t("song", true), "song");
    assert_eq!(t("....", false), "");
    assert_eq!(t("..a", false), "..a");
    assert_eq!(t("a\u{85}b\u{9f}c\u{a0}", false), "abc\u{a0}");
    assert_eq!(t("CON", true), "");
    assert_eq!(t("Com1.mp3", true), "");
    assert_eq!(t("com10", true), "com10");
    assert_eq!(t("con", false), "con");
    assert_eq!(t("name. . ", true), "name");
    assert_eq!(t("name. . ", false), "name. . ");
    let accented = "é".repeat(200);
    assert_eq!(t(&accented, false), "é".repeat(127));
    assert_eq!(t(&format!("{}x", "a".repeat(254)), false).len(), 255);
}

#[test]
fn dot_names_never_stay_dot_or_dot_dot() {
    let t = |s: &str, w: bool| DownloadJob::for_music(s, CodecPreference::MP3, w).title;
    assert_eq!(t(".", false), "");
    assert_eq!(t("..", true), "");
    assert_eq!(t("./", false), "");
    assert_eq!(t(". .", true), "");
    // a long name can be cut down to dots only, but never to `.` or `..`
    assert_eq!(t(&format!("{}x", ".".repeat(255)), false), ".".repeat(255));
}
