use vstd::prelude::*;

use crate::codec::{codec_name, CodecPreference};
use crate::sanitize::{
    is_forbidden_in_file_name, is_plain_file_name, lemma_sanitized_name_is_plain, sanitize_title,
    sanitized_name,
};
use crate::tools::{
    converted_file_name, download_file_name, ffmpeg_conversion_args, music_conversion_args,
    views_of, youtube_conversion_args,
};

verus! {

/// Which downloader runs the job: the song downloader (one retry when the
/// wanted format is missing, quiet MP3 conversion) or the YouTube downloader
/// (no retry).
#[derive(Debug, Clone, Copy, PartialEq, Eq, Structural)]
pub enum DownloaderKind {
    Music,
    Youtube,
}

/// Where a download job stands.
#[derive(Debug, Clone, Copy, PartialEq, Eq, Structural)]
pub enum JobStage {
    CheckingExisting,
    Downloading { retried: bool },
    Converting,
    Finished,
}

/// How an attempt to download the audio stream ended.
#[derive(Debug, Clone, Copy, PartialEq, Eq, Structural)]
pub enum DownloadOutcome {
    Saved,
    FormatNotAvailable,
    Failed,
}

/// What the caller reports back to the job.
#[derive(Debug, Clone, Copy, PartialEq, Eq, Structural)]
pub enum JobEvent {
    ExistingChecked { exists: bool },
    DownloadEnded { outcome: DownloadOutcome },
    ConversionEnded { succeeded: bool },
}

/// What the job asks the caller to do next.
#[derive(Debug, Clone, Copy, PartialEq, Eq, Structural)]
pub enum JobAction {
    Download,
    Convert,
    Succeed,
    Fail,
    Ignore,
}

/// The next stage and action of a job of `kind` in `stage` on `event`. A song
/// already converted is not fetched again; a missing format earns the song
/// downloader one more attempt; the conversion follows the download whatever
/// its outcome; the job succeeds exactly when the conversion does. An event
/// that does not fit the stage is ignored.
pub open spec fn job_next(stage: JobStage, kind: DownloaderKind, event: JobEvent) -> (
    JobStage,
    JobAction,
) {
    match (stage, event) {
        (JobStage::CheckingExisting, JobEvent::ExistingChecked { exists }) => if exists {
            (JobStage::Finished, JobAction::Succeed)
        } else {
            (JobStage::Downloading { retried: false }, JobAction::Download)
        },
        (JobStage::Downloading { retried }, JobEvent::DownloadEnded { outcome }) => if kind
            == DownloaderKind::Music && !retried && outcome == DownloadOutcome::FormatNotAvailable {
            (JobStage::Downloading { retried: true }, JobAction::Download)
        } else {
            (JobStage::Converting, JobAction::Convert)
        },
        (JobStage::Converting, JobEvent::ConversionEnded { succeeded }) => if succeeded {
            (JobStage::Finished, JobAction::Succeed)
        } else {
            (JobStage::Finished, JobAction::Fail)
        },
        _ => (stage, JobAction::Ignore),
    }
}

/// How many steps a job in `stage` has left at most.
pub open spec fn stage_rank(stage: JobStage) -> nat {
    match stage {
        JobStage::CheckingExisting => 4,
        JobStage::Downloading { retried } => if retried {
            2
        } else {
            3
        },
        JobStage::Converting => 1,
        JobStage::Finished => 0,
    }
}

/// The stage and the actions of a job of `kind` that starts in `stage` and
/// receives `events` in order.
pub open spec fn run_job(stage: JobStage, kind: DownloaderKind, events: Seq<JobEvent>) -> (
    JobStage,
    Seq<JobAction>,
)
    decreases events.len(),
{
    if events.len() == 0 {
        (stage, Seq::empty())
    } else {
        let (next, action) = job_next(stage, kind, events[0]);
        let (last, rest) = run_job(next, kind, events.drop_first());
        (last, seq![action] + rest)
    }
}

/// How many of `actions` ask for a download.
pub open spec fn download_count(actions: Seq<JobAction>) -> nat
    decreases actions.len(),
{
    if actions.len() == 0 {
        0
    } else {
        (if actions[0] == JobAction::Download {
            1nat
        } else {
            0nat
        }) + download_count(actions.drop_first())
    }
}

/// How many of `actions` are not ignored.
pub open spec fn taken_count(actions: Seq<JobAction>) -> nat
    decreases actions.len(),
{
    if actions.len() == 0 {
        0
    } else {
        (if actions[0] == JobAction::Ignore {
            0nat
        } else {
            1nat
        }) + taken_count(actions.drop_first())
    }
}

/// How many downloads a job in `stage` may still ask for.
pub open spec fn downloads_left(stage: JobStage, kind: DownloaderKind) -> nat {
    match stage {
        JobStage::CheckingExisting => if kind == DownloaderKind::Music {
            2
        } else {
            1
        },
        JobStage::Downloading { retried } => if kind == DownloaderKind::Music && !retried {
            1
        } else {
            0
        },
        _ => 0,
    }
}

/// One song download, from the check for an already converted file to the
/// conversion. The caller does the work each action asks for and reports how
/// it went.
#[derive(Debug)]
pub struct DownloadJob {
    pub title: String,
    pub codec: CodecPreference,
    pub kind: DownloaderKind,
    pub stage: JobStage,
}

impl DownloadJob {
    /// A job for the song stored as `title`, about to check for an existing
    /// conversion.
    pub fn new(title: String, codec: CodecPreference, kind: DownloaderKind) -> (j: DownloadJob)
        ensures
            j.title == title,
            j.codec == codec,
            j.kind == kind,
            j.stage == JobStage::CheckingExisting,
    {
        DownloadJob { title, codec, kind, stage: JobStage::CheckingExisting }
    }

    /// The song downloader's job for a video titled `video_title`: the title
    /// is sanitized (with Windows rules when `windows` holds) before it names
    /// any file.
    pub fn for_music(video_title: &str, codec: CodecPreference, windows: bool) -> (j: DownloadJob)
        ensures
            j.title@ == sanitized_name(video_title@, windows),
            j.title@.len() <= 255,
            is_plain_file_name(j.title@),
            j.codec == codec,
            j.kind == DownloaderKind::Music,
            j.stage == JobStage::CheckingExisting,
    {
        let title = sanitize_title(video_title, windows);
        proof {
            lemma_sanitized_name_is_plain(video_title@, windows);
        }
        DownloadJob::new(title, codec, DownloaderKind::Music)
    }

    /// The YouTube downloader's job for a video titled `video_title`: the
    /// title is sanitized (with Windows rules when `windows` holds) before it
    /// names any file.
    pub fn for_youtube(video_title: &str, codec: CodecPreference, windows: bool) -> (j: DownloadJob)
        ensures
            j.title@ == sanitized_name(video_title@, windows),
            j.title@.len() <= 255,
            is_plain_file_name(j.title@),
            j.codec == codec,
            j.kind == DownloaderKind::Youtube,
            j.stage == JobStage::CheckingExisting,
    {
        let title = sanitize_title(video_title, windows);
        proof {
            lemma_sanitized_name_is_plain(video_title@, windows);
        }
        DownloadJob::new(title, codec, DownloaderKind::Youtube)
    }

    /// The file whose presence means the song is already there, and which the
    /// conversion writes: `<title>.<codec>`.
    pub fn converted_file_name(&self) -> (n: String)
        ensures
            n@ == self.title@ + "."@ + codec_name(self.codec),
    {
        converted_file_name(self.title.as_str(), self.codec)
    }

    /// The file that the audio stream is downloaded to: `<title>.webm`.
    pub fn download_file_name(&self) -> (n: String)
        ensures
            n@ == self.title@ + ".webm"@,
    {
        download_file_name(self.title.as_str())
    }

    /// The ffmpeg arguments that convert the downloaded `input` into `output`.
    pub fn conversion_args(&self, input: &str, output: &str) -> (args: Vec<String>)
        ensures
            views_of(args@) == ffmpeg_conversion_args(
                self.codec,
                input@,
                output@,
                self.kind == DownloaderKind::Music,
            ),
    {
        match self.kind {
            DownloaderKind::Music => music_conversion_args(self.codec, input, output),
            DownloaderKind::Youtube => youtube_conversion_args(self.codec, input, output),
        }
    }

    /// Takes in how the last action went and returns the next one.
    pub fn step(&mut self, event: JobEvent) -> (a: JobAction)
        ensures
            (final(self).stage, a) == job_next(old(self).stage, old(self).kind, event),
            final(self).title == old(self).title,
            final(self).codec == old(self).codec,
            final(self).kind == old(self).kind,
            a == JobAction::Ignore ==> final(self).stage == old(self).stage,
            a != JobAction::Ignore ==> stage_rank(final(self).stage) < stage_rank(old(self).stage),
            (old(self).stage matches JobStage::Downloading { retried } && event matches JobEvent::DownloadEnded {
                outcome,
            } && !(old(self).kind == DownloaderKind::Music && !retried && outcome
                == DownloadOutcome::FormatNotAvailable)) ==> (final(self).stage == JobStage::Converting
                && a == JobAction::Convert),
            a == JobAction::Succeed ==> ((old(self).stage == JobStage::CheckingExisting && event == (
            JobEvent::ExistingChecked { exists: true })) || (old(self).stage == JobStage::Converting
                && event == (JobEvent::ConversionEnded { succeeded: true }))),
    {
        let (next, action) = match (self.stage, event) {
            (JobStage::CheckingExisting, JobEvent::ExistingChecked { exists }) => if exists {
                (JobStage::Finished, JobAction::Succeed)
            } else {
                (JobStage::Downloading { retried: false }, JobAction::Download)
            },
            (JobStage::Downloading { retried }, JobEvent::DownloadEnded { outcome }) => {
                let missing_format = match outcome {
                    DownloadOutcome::FormatNotAvailable => true,
                    _ => false,
                };
                let music = match self.kind {
                    DownloaderKind::Music => true,
                    DownloaderKind::Youtube => false,
                };
                if music && !retried && missing_format {
                    (JobStage::Downloading { retried: true }, JobAction::Download)
                } else {
                    (JobStage::Converting, JobAction::Convert)
                }
            },
            (JobStage::Converting, JobEvent::ConversionEnded { succeeded }) => if succeeded {
                (JobStage::Finished, JobAction::Succeed)
            } else {
                (JobStage::Finished, JobAction::Fail)
            },
            _ => (self.stage, JobAction::Ignore),
        };
        self.stage = next;
        action
    }
}

/// A job never asks for more downloads than its stage allows: at most two
/// for the song downloader (the second only after a missing format) and one
/// for the YouTube downloader, whatever is reported.
pub proof fn lemma_download_limit(stage: JobStage, kind: DownloaderKind, events: Seq<JobEvent>)
    ensures
        download_count(run_job(stage, kind, events).1) <= downloads_left(stage, kind),
    decreases events.len(),
{
    if events.len() > 0 {
        let (next, action) = job_next(stage, kind, events[0]);
        lemma_download_limit(next, kind, events.drop_first());
        let rest = run_job(next, kind, events.drop_first()).1;
        assert((seq![action] + rest).drop_first() =~= rest);
        assert((seq![action] + rest)[0] == action);
    }
}

/// Every action a job carries out brings it closer to its end: the actions
/// taken plus the steps still possible never exceed the steps it started with,
/// whatever is reported, so a job ends after at most four actions.
pub proof fn lemma_job_ends(stage: JobStage, kind: DownloaderKind, events: Seq<JobEvent>)
    ensures
        taken_count(run_job(stage, kind, events).1) + stage_rank(run_job(stage, kind, events).0)
            <= stage_rank(stage),
    decreases events.len(),
{
    if events.len() > 0 {
        let (next, action) = job_next(stage, kind, events[0]);
        lemma_job_ends(next, kind, events.drop_first());
        let rest = run_job(next, kind, events.drop_first()).1;
        assert((seq![action] + rest).drop_first() =~= rest);
        assert((seq![action] + rest)[0] == action);
    }
}

/// A song whose converted file is already there is never downloaded.
pub proof fn lemma_existing_song_not_downloaded(kind: DownloaderKind, events: Seq<JobEvent>)
    requires
        events.len() > 0,
        events[0] == (JobEvent::ExistingChecked { exists: true }),
    ensures
        download_count(run_job(JobStage::CheckingExisting, kind, events).1) == 0,
        run_job(JobStage::CheckingExisting, kind, events).1[0] == JobAction::Succeed,
{
    lemma_download_limit(JobStage::Finished, kind, events.drop_first());
    let rest = run_job(JobStage::Finished, kind, events.drop_first()).1;
    assert((seq![JobAction::Succeed] + rest).drop_first() =~= rest);
}


/// A job's titles are sanitized, so the files it downloads and converts to
/// have plain names: none of them escapes the output directory.
pub proof fn lemma_job_file_names_are_plain(title: Seq<char>, codec: CodecPreference)
    requires
        is_plain_file_name(title),
    ensures
        is_plain_file_name(title + ".webm"@),
        is_plain_file_name(title + "."@ + codec_name(codec)),
{
    reveal_strlit(".webm");
    reveal_strlit(".");
    reveal_strlit("flac");
    reveal_strlit("mp3");
    reveal_strlit("aac");
    reveal_strlit("wav");
    reveal_strlit("ogg");
    let a = title + ".webm"@;
    assert forall|i: int| 0 <= i < a.len() implies !is_forbidden_in_file_name(#[trigger] a[i]) by {
        if i >= title.len() {
            assert(a[i] == ".webm"@[i - title.len()]);
        }
    }
    assert(a.len() >= 5 && seq!['.'].len() == 1 && seq!['.', '.'].len() == 2);
    let b = title + "."@ + codec_name(codec);
    assert(b.len() >= 4);
    assert forall|i: int| 0 <= i < b.len() implies !is_forbidden_in_file_name(#[trigger] b[i]) by {
        if i == title.len() {
            assert(b[i] == '.');
        } else if i > title.len() {
            assert(b[i] == codec_name(codec)[i - title.len() - 1]);
        }
    }
}


/// Every download that is not the song downloader's first attempt on a
/// missing format is followed by the conversion: whatever the download's
/// outcome, the job moves on to converting and asks for it.
pub proof fn lemma_download_is_followed_by_conversion(
    kind: DownloaderKind,
    retried: bool,
    outcome: DownloadOutcome,
)
    requires
        !(kind == DownloaderKind::Music && !retried && outcome == DownloadOutcome::FormatNotAvailable),
    ensures
        job_next(JobStage::Downloading { retried }, kind, JobEvent::DownloadEnded { outcome }) == (
            JobStage::Converting,
            JobAction::Convert,
        ),
{
}

/// The song downloader's first attempt on a missing format is retried once.
pub proof fn lemma_missing_format_is_retried_once()
    ensures
        job_next(
            JobStage::Downloading { retried: false },
            DownloaderKind::Music,
            JobEvent::DownloadEnded { outcome: DownloadOutcome::FormatNotAvailable },
        ) == (JobStage::Downloading { retried: true }, JobAction::Download),
{
}

/// A job succeeds only when the converted file was already there or the
/// conversion went well, and fails only when the conversion did not.
pub proof fn lemma_success_only_after_conversion(stage: JobStage, kind: DownloaderKind, event: JobEvent)
    ensures
        job_next(stage, kind, event).1 == JobAction::Succeed ==> ((stage == JobStage::CheckingExisting
            && event == (JobEvent::ExistingChecked { exists: true })) || (stage == JobStage::Converting
            && event == (JobEvent::ConversionEnded { succeeded: true }))),
        job_next(stage, kind, event).1 == JobAction::Fail ==> (stage == JobStage::Converting && event
            == (JobEvent::ConversionEnded { succeeded: false })),
        job_next(stage, kind, event).1 == JobAction::Convert ==> stage is Downloading,
{
}

/// Over any run of a job that had to download: once it asked for a
/// download, it asks for no success before it asked for the conversion.
pub proof fn lemma_no_success_between_download_and_conversion(
    stage: JobStage,
    kind: DownloaderKind,
    events: Seq<JobEvent>,
)
    requires
        stage is Downloading,
    ensures
        forall|j: int|
            0 <= j < run_job(stage, kind, events).1.len() && #[trigger] run_job(
                stage,
                kind,
                events,
            ).1[j] == JobAction::Succeed ==> exists|k: int|
                0 <= k < j && run_job(stage, kind, events).1[k] == JobAction::Convert,
    decreases events.len(),
{
    if events.len() > 0 {
        let (next, action) = job_next(stage, kind, events[0]);
        let rest = run_job(next, kind, events.drop_first()).1;
        let all = run_job(stage, kind, events).1;
        assert(all == seq![action] + rest);
        if next is Downloading {
            lemma_no_success_between_download_and_conversion(next, kind, events.drop_first());
            assert forall|j: int| 0 <= j < all.len() && #[trigger] all[j] == JobAction::Succeed implies exists|
                k: int,
            | 0 <= k < j && all[k] == JobAction::Convert by {
                assert(j != 0);
                assert(rest[j - 1] == JobAction::Succeed);
                let k = choose|k: int| 0 <= k < j - 1 && rest[k] == JobAction::Convert;
                assert(all[k + 1] == JobAction::Convert);
            }
        } else if action == JobAction::Convert {
            assert(all[0] == JobAction::Convert);
            assert forall|j: int| 0 <= j < all.len() && #[trigger] all[j] == JobAction::Succeed implies exists|
                k: int,
            | 0 <= k < j && all[k] == JobAction::Convert by {
                assert(j != 0);
            }
        } else {
            // an ignored event keeps the stage
            assert(next == stage);
        }
    }
}

} // verus!
