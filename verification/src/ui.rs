use vstd::prelude::*;

use crate::config::PlaylistEntry;
use crate::media::{sort_newest_first, stably_sorted_newest_first, MusicFile};
use crate::text::{decimal_string, decimal_text};

verus! {

/// A line of the song list: the title, whether it is still downloading, and
/// the name under which its download reports (empty once done).
#[derive(Debug, Clone)]
pub struct Song {
    pub title: String,
    pub is_downloading: bool,
    pub download_id: String,
}

/// What a song list line holds, as characters.
pub ghost struct SongLine {
    pub title: Seq<char>,
    pub is_downloading: bool,
    pub download_id: Seq<char>,
}

/// The kinds of download event that the song list reacts to.
#[derive(Debug, Clone, Copy, PartialEq, Eq, Structural)]
pub enum DownloadEventKind {
    Started,
    Completed,
    Failed,
    Progress { download_id: u64 },
    Other,
}

/// A download event together with the title of the song it concerns.
#[derive(Debug, Clone)]
pub struct CustomDownloadEvent {
    pub download_event: DownloadEventKind,
    pub music_title: String,
}

/// The lines of a song list.
pub open spec fn song_lines(s: Seq<Song>) -> Seq<SongLine> {
    s.map_values(
        |x: Song| SongLine { title: x.title@, is_downloading: x.is_downloading, download_id: x.download_id@ },
    )
}

/// The line of a song whose download has just begun.
pub open spec fn downloading_line(title: Seq<char>) -> SongLine {
    SongLine { title: title, is_downloading: true, download_id: title }
}

/// Index of the first line at or after `from` whose download name is `id`, or
/// the length of `s`.
pub open spec fn download_index(s: Seq<SongLine>, id: Seq<char>, from: int) -> int
    decreases s.len() - from,
{
    if from < 0 || from >= s.len() {
        s.len() as int
    } else if s[from].download_id == id {
        from
    } else {
        download_index(s, id, from + 1)
    }
}

/// Whether a progress report for download `id` of `title` is already shown.
pub open spec fn progress_shown(s: Seq<SongLine>, id: u64, title: Seq<char>) -> bool {
    exists|k: int|
        0 <= k < s.len() && ((#[trigger] s[k]).download_id == decimal_text(id as nat) || s[k].title
            == title)
}

/// The song list after an event about `title`: a started download is shown
/// first; a completed one clears the first line downloading under that name;
/// a progress report shows the song first unless a line already has its
/// download number or its title; other events change nothing.
pub open spec fn lines_after_event(
    s: Seq<SongLine>,
    kind: DownloadEventKind,
    title: Seq<char>,
) -> Seq<SongLine> {
    match kind {
        DownloadEventKind::Started => seq![downloading_line(title)] + s,
        DownloadEventKind::Completed => {
            let i = download_index(s, title, 0);
            if i < s.len() {
                s.update(
                    i,
                    SongLine { title: s[i].title, is_downloading: false, download_id: Seq::empty() },
                )
            } else {
                s
            }
        },
        DownloadEventKind::Progress { download_id } => if progress_shown(s, download_id, title) {
            s
        } else {
            seq![downloading_line(title)] + s
        },
        _ => s,
    }
}

/// The line of a song file found on disk.
pub open spec fn found_line(f: MusicFile) -> SongLine {
    SongLine { title: f.title@, is_downloading: false, download_id: Seq::empty() }
}

fn find_download(songs: &Vec<Song>, id: &String) -> (i: usize)
    ensures
        i == download_index(song_lines(songs@), id@, 0),
        i <= songs@.len(),
{
    let ghost lines = song_lines(songs@);
    let mut i: usize = 0;
    while i < songs.len() && songs[i].download_id != *id
        invariant
            i <= songs@.len(),
            lines == song_lines(songs@),
            download_index(lines, id@, 0) == download_index(lines, id@, i as int),
        decreases songs@.len() - i,
    {
        i = i + 1;
    }
    i
}

/// Updates the song list for one download event, as the list view does when
/// an event comes in.
pub fn apply_download_event(songs: &mut Vec<Song>, event: &CustomDownloadEvent)
    ensures
        song_lines(final(songs)@) == lines_after_event(
            song_lines(old(songs)@),
            event.download_event,
            event.music_title@,
        ),
{
    let ghost before = song_lines(songs@);
    match event.download_event {
        DownloadEventKind::Started => {
            let line = Song {
                title: event.music_title.clone(),
                is_downloading: true,
                download_id: event.music_title.clone(),
            };
            songs.insert(0, line);
            assert(song_lines(songs@) =~= seq![downloading_line(event.music_title@)] + before);
        },
        DownloadEventKind::Completed => {
            let i = find_download(songs, &event.music_title);
            if i < songs.len() {
                let t = songs[i].title.clone();
                let line = Song { title: t, is_downloading: false, download_id: String::new() };
                songs.set(i, line);
                assert(song_lines(songs@) =~= before.update(
                    i as int,
                    SongLine { title: before[i as int].title, is_downloading: false, download_id: Seq::empty() },
                ));
            }
        },
        DownloadEventKind::Progress { download_id } => {
            let number = decimal_string(download_id);
            let mut shown = false;
            let mut k: usize = 0;
            while k < songs.len()
                invariant
                    k <= songs@.len(),
                    before == song_lines(songs@),
                    number@ == decimal_text(download_id as nat),
                    shown == exists|j: int|
                        0 <= j < k && ((#[trigger] before[j]).download_id == number@ || before[j].title
                            == event.music_title@),
                decreases songs@.len() - k,
            {
                if songs[k].download_id == number || songs[k].title == event.music_title {
                    shown = true;
                }
                assert(before[k as int].download_id == songs@[k as int].download_id@);
                k = k + 1;
            }
            if !shown {
                let line = Song {
                    title: event.music_title.clone(),
                    is_downloading: true,
                    download_id: event.music_title.clone(),
                };
                songs.insert(0, line);
                assert(song_lines(songs@) =~= seq![downloading_line(event.music_title@)] + before);
            }
        },
        _ => {},
    }
}

/// The song list once the songs found on disk are added: the lines already
/// there, then the found songs newest first (songs of the same date in the
/// order they were found), none of them downloading.
pub fn add_found_songs(songs: &mut Vec<Song>, files: &Vec<MusicFile>)
    ensures
        exists|sorted: Seq<MusicFile>|
            stably_sorted_newest_first(sorted, files@) && song_lines(final(songs)@) == song_lines(
                old(songs)@,
            ) + sorted.map_values(|f: MusicFile| found_line(f)),
{
    let sorted = sort_newest_first(files);
    let ghost before = song_lines(songs@);
    let mut i: usize = 0;
    while i < sorted.len()
        invariant
            i <= sorted@.len(),
            song_lines(songs@) == before + sorted@.take(i as int).map_values(
                |f: MusicFile| found_line(f),
            ),
        decreases sorted@.len() - i,
    {
        let f = &sorted[i];
        let ghost prev = song_lines(songs@);
        songs.push(Song { title: f.title.clone(), is_downloading: false, download_id: String::new() });
        assert(song_lines(songs@) =~= prev.push(found_line(sorted@[i as int])));
        assert(sorted@.take((i + 1) as int) =~= sorted@.take(i as int).push(sorted@[i as int]));
        assert(sorted@.take((i + 1) as int).map_values(|f: MusicFile| found_line(f)) =~= sorted@.take(
            i as int,
        ).map_values(|f: MusicFile| found_line(f)).push(found_line(sorted@[i as int])));
        assert(song_lines(songs@) =~= before + sorted@.take((i + 1) as int).map_values(
            |f: MusicFile| found_line(f),
        ));
        i = i + 1;
    }
    assert(sorted@.take(sorted@.len() as int) =~= sorted@);
}

/// What a playlist panel entry holds, as characters.
pub open spec fn entry_texts(s: Seq<PlaylistEntry>) -> Seq<(Seq<char>, Seq<char>)> {
    s.map_values(|e: PlaylistEntry| (e.id@, e.title@))
}

/// The entries of `s` whose identifier text is not `id`, in order.
pub open spec fn entries_without(s: Seq<(Seq<char>, Seq<char>)>, id: Seq<char>) -> Seq<
    (Seq<char>, Seq<char>),
>
    decreases s.len(),
{
    if s.len() == 0 {
        s
    } else {
        let rest = entries_without(s.drop_last(), id);
        if s.last().0 == id {
            rest
        } else {
            rest.push(s.last())
        }
    }
}

/// Adds `playlist` at the end of the playlist panel, or, when `add_playlist`
/// is false, takes out every entry with its identifier text.
pub fn update_playlist_layout(
    entries: &mut Vec<PlaylistEntry>,
    playlist: PlaylistEntry,
    add_playlist: bool,
)
    ensures
        add_playlist ==> entry_texts(final(entries)@) == entry_texts(old(entries)@).push(
            (playlist.id@, playlist.title@),
        ),
        !add_playlist ==> entry_texts(final(entries)@) == entries_without(
            entry_texts(old(entries)@),
            playlist.id@,
        ),
{
    let ghost before = entry_texts(entries@);
    if add_playlist {
        entries.push(playlist);
        assert(entry_texts(entries@) =~= before.push((playlist.id@, playlist.title@)));
    } else {
        let mut kept: Vec<PlaylistEntry> = Vec::new();
        let n = entries.len();
        let mut i: usize = 0;
        while i < n
            invariant
                n == entries@.len(),
                i <= n,
                before == entry_texts(entries@),
                entry_texts(kept@) == entries_without(before.take(i as int), playlist.id@),
            decreases n - i,
        {
            let e = &entries[i];
            let ghost kept_before = entry_texts(kept@);
            assert(before.take((i + 1) as int).drop_last() =~= before.take(i as int));
            if e.id != playlist.id {
                kept.push(PlaylistEntry { id: e.id.clone(), title: e.title.clone() });
                assert(entry_texts(kept@) =~= kept_before.push((e.id@, e.title@)));
            }
            i = i + 1;
        }
        assert(before.take(n as int) =~= before);
        *entries = kept;
    }
}

/// Index of the first panel entry whose identifier text is `id`.
pub fn find_playlist_entry(entries: &Vec<PlaylistEntry>, id: &str) -> (r: Option<usize>)
    ensures
        match r {
            Some(i) => i < entries@.len() && entries@[i as int].id@ == id@ && forall|k: int|
                0 <= k < i ==> (#[trigger] entries@[k]).id@ != id@,
            None => forall|k: int| 0 <= k < entries@.len() ==> (#[trigger] entries@[k]).id@ != id@,
        },
{
    let target = String::from_str(id);
    let mut i: usize = 0;
    while i < entries.len()
        invariant
            i <= entries@.len(),
            target@ == id@,
            forall|k: int| 0 <= k < i ==> (#[trigger] entries@[k]).id@ != id@,
        decreases entries@.len() - i,
    {
        if entries[i].id == target {
            return Some(i);
        }
        i = i + 1;
    }
    None
}


/// A download that starts and then completes leaves one finished line for
/// its song at the top of the list, above the lines that were there.
pub proof fn lemma_started_then_completed(s: Seq<SongLine>, title: Seq<char>)
    ensures
        lines_after_event(
            lines_after_event(s, DownloadEventKind::Started, title),
            DownloadEventKind::Completed,
            title,
        ) == seq![SongLine { title: title, is_downloading: false, download_id: Seq::empty() }] + s,
{
    let s1 = lines_after_event(s, DownloadEventKind::Started, title);
    assert(s1[0] == downloading_line(title));
    assert(download_index(s1, title, 0) == 0);
    assert(s1.update(
        0,
        SongLine { title: s1[0].title, is_downloading: false, download_id: Seq::empty() },
    ) =~= seq![SongLine { title: title, is_downloading: false, download_id: Seq::empty() }] + s);
}

/// Progress reports about a song whose start was shown add no line.
pub proof fn lemma_progress_after_started(s: Seq<SongLine>, title: Seq<char>, id: u64)
    ensures
        lines_after_event(
            lines_after_event(s, DownloadEventKind::Started, title),
            DownloadEventKind::Progress { download_id: id },
            title,
        ) == lines_after_event(s, DownloadEventKind::Started, title),
{
    let s1 = lines_after_event(s, DownloadEventKind::Started, title);
    assert(s1[0].title == title);
    assert(progress_shown(s1, id, title));
}

/// A second progress report about the same song changes nothing more.
pub proof fn lemma_progress_idempotent(s: Seq<SongLine>, title: Seq<char>, id: u64)
    ensures
        lines_after_event(
            lines_after_event(s, DownloadEventKind::Progress { download_id: id }, title),
            DownloadEventKind::Progress { download_id: id },
            title,
        ) == lines_after_event(s, DownloadEventKind::Progress { download_id: id }, title),
{
    let s1 = lines_after_event(s, DownloadEventKind::Progress { download_id: id }, title);
    if !progress_shown(s, id, title) {
        assert(s1[0].title == title);
        assert(progress_shown(s1, id, title));
    }
}

/// Failures and events the list does not follow leave it as it is.
pub proof fn lemma_other_events_keep_list(s: Seq<SongLine>, title: Seq<char>)
    ensures
        lines_after_event(s, DownloadEventKind::Failed, title) == s,
        lines_after_event(s, DownloadEventKind::Other, title) == s,
{
}


/// Taking out an identifier that no panel entry carries changes nothing.
pub proof fn lemma_entries_without_absent(s: Seq<(Seq<char>, Seq<char>)>, id: Seq<char>)
    requires
        forall|k: int| 0 <= k < s.len() ==> (#[trigger] s[k]).0 != id,
    ensures
        entries_without(s, id) == s,
    decreases s.len(),
{
    if s.len() > 0 {
        let init = s.drop_last();
        assert forall|k: int| 0 <= k < init.len() implies (#[trigger] init[k]).0 != id by {
            assert(init[k] == s[k]);
        }
        lemma_entries_without_absent(init, id);
        assert(s[s.len() - 1].0 != id);
        assert(init.push(s.last()) =~= s);
    }
}

/// Deleting a playlist that was just added to the panel under a fresh
/// identifier gives the panel back as it was.
pub proof fn lemma_panel_remove_undoes_add(
    s: Seq<(Seq<char>, Seq<char>)>,
    entry: (Seq<char>, Seq<char>),
)
    requires
        forall|k: int| 0 <= k < s.len() ==> (#[trigger] s[k]).0 != entry.0,
    ensures
        entries_without(s.push(entry), entry.0) == s,
{
    assert(s.push(entry).drop_last() =~= s);
    lemma_entries_without_absent(s, entry.0);
}


proof fn lemma_download_index_at(s: Seq<SongLine>, id: Seq<char>, from: int, i: int)
    requires
        0 <= from <= i < s.len(),
        s[i].download_id == id,
        forall|j: int| from <= j < i ==> (#[trigger] s[j]).download_id != id,
    ensures
        download_index(s, id, from) == i,
    decreases i - from,
{
    if from < i {
        lemma_download_index_at(s, id, from + 1, i);
    }
}

proof fn lemma_download_index_none(s: Seq<SongLine>, id: Seq<char>, from: int)
    requires
        0 <= from <= s.len(),
        forall|j: int| from <= j < s.len() ==> (#[trigger] s[j]).download_id != id,
    ensures
        download_index(s, id, from) == s.len(),
    decreases s.len() - from,
{
    if from < s.len() {
        lemma_download_index_none(s, id, from + 1);
    }
}

/// A completed download clears the first line that downloads under its
/// title, `i`: that line keeps its title and is shown finished with no
/// download name, and every other line stays exactly as it was.
pub proof fn lemma_completed_clears_first_match(s: Seq<SongLine>, title: Seq<char>, i: int)
    requires
        0 <= i < s.len(),
        s[i].download_id == title,
        forall|j: int| 0 <= j < i ==> (#[trigger] s[j]).download_id != title,
    ensures
        lines_after_event(s, DownloadEventKind::Completed, title).len() == s.len(),
        lines_after_event(s, DownloadEventKind::Completed, title)[i] == (SongLine {
            title: s[i].title,
            is_downloading: false,
            download_id: Seq::empty(),
        }),
        forall|k: int|
            0 <= k < s.len() && k != i ==> #[trigger] lines_after_event(
                s,
                DownloadEventKind::Completed,
                title,
            )[k] == s[k],
{
    lemma_download_index_at(s, title, 0, i);
}

/// A completed download that no line downloads under leaves the list as it
/// is.
pub proof fn lemma_completed_without_match(s: Seq<SongLine>, title: Seq<char>)
    requires
        forall|j: int| 0 <= j < s.len() ==> (#[trigger] s[j]).download_id != title,
    ensures
        lines_after_event(s, DownloadEventKind::Completed, title) == s,
{
    lemma_download_index_none(s, title, 0);
}

/// Membership after a removal from the panel: an entry stays exactly when it
/// was there and carries another identifier.
pub proof fn lemma_entries_without_members(
    s: Seq<(Seq<char>, Seq<char>)>,
    id: Seq<char>,
    e: (Seq<char>, Seq<char>),
)
    ensures
        entries_without(s, id).contains(e) <==> (s.contains(e) && e.0 != id),
    decreases s.len(),
{
    if s.len() > 0 {
        let init = s.drop_last();
        lemma_entries_without_members(init, id, e);
        assert(s =~= init.push(s.last()));
        if s.contains(e) && e != s.last() {
            let k = choose|k: int| 0 <= k < s.len() && s[k] == e;
            assert(init[k] == e);
        }
        if init.contains(e) {
            let k = choose|k: int| 0 <= k < init.len() && init[k] == e;
            assert(s[k] == e);
        }
        if s.last() == e {
            assert(s[s.len() - 1] == e);
        }
        let r = entries_without(init, id);
        if s.last().0 != id {
            assert(r.push(s.last())[r.len() as int] == s.last());
            if r.contains(e) {
                let k = choose|k: int| 0 <= k < r.len() && r[k] == e;
                assert(r.push(s.last())[k] == e);
            }
            if r.push(s.last()).contains(e) && e != s.last() {
                let k = choose|k: int| 0 <= k < r.len() + 1 && r.push(s.last())[k] == e;
                assert(r[k] == e);
            }
        }
    }
}

/// Removal from the panel keeps the order of what it keeps: removing from two
/// runs of entries one after the other is removing from each run.
pub proof fn lemma_entries_without_concat(
    a: Seq<(Seq<char>, Seq<char>)>,
    b: Seq<(Seq<char>, Seq<char>)>,
    id: Seq<char>,
)
    ensures
        entries_without(a + b, id) == entries_without(a, id) + entries_without(b, id),
    decreases b.len(),
{
    if b.len() == 0 {
        assert(a + b =~= a);
        assert(entries_without(a, id) + entries_without(b, id) =~= entries_without(a, id));
    } else {
        let bi = b.drop_last();
        lemma_entries_without_concat(a, bi, id);
        assert((a + b).drop_last() =~= a + bi);
        assert((a + b).last() == b.last());
        let ra = entries_without(a, id);
        let rb = entries_without(bi, id);
        if b.last().0 != id {
            assert((ra + rb).push(b.last()) =~= ra + rb.push(b.last()));
        }
    }
}

/// A single entry is taken out exactly when it carries the identifier.
pub proof fn lemma_entries_without_single(entry: (Seq<char>, Seq<char>), id: Seq<char>)
    ensures
        entries_without(seq![entry], id) == (if entry.0 == id {
            Seq::<(Seq<char>, Seq<char>)>::empty()
        } else {
            seq![entry]
        }),
{
    let none = Seq::<(Seq<char>, Seq<char>)>::empty();
    assert(seq![entry].drop_last() =~= none);
    assert(entries_without(none, id) == none);
    assert(seq![entry].last() == entry);
    assert(none.push(entry) =~= seq![entry]);
}

} // verus!
