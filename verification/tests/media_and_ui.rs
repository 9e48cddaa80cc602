use music_downloader::config::PlaylistEntry;
use music_downloader::media::{sort_newest_first, DirEntryInfo, MusicFile, MusicScan};
use music_downloader::ui::{
    add_found_songs, apply_download_event, find_playlist_entry, update_playlist_layout,
    CustomDownloadEvent, DownloadEventKind, Song,
};

fn file(title: &str, date: i128) -> MusicFile {
    MusicFile { title: title.to_string(), date_added: date }
}

fn titles(v: &[MusicFile]) -> Vec<&str> {
    v.iter().map(|f| f.title.as_str()).collect()
}

fn entry(path: &str, dir: bool, stem: &str, ext: Option<&str>, created: Option<i128>) -> DirEntryInfo {
    DirEntryInfo {
        path: path.to_string(),
        is_dir: dir,
        is_file: !dir,
        stem: stem.to_string(),
        extension: ext.map(String::from),
        created,
    }
}

#[test]
fn sort_is_newest_first_and_stable() {
    let files = vec![file("a", 1), file("b", 3), file("c", 1), file("d", 2), file("e", 3), file("f", -4)];
    let sorted = sort_newest_first(&files);
    assert_eq!(titles(&sorted), vec!["b", "e", "d", "a", "c", "f"]);
    assert!(sort_newest_first(&Vec::new()).is_empty());
}

#[test]
fn scan_walks_breadth_first() {
    let mut scan = MusicScan::new("/root");
    assert_eq!(scan.next_directory(), Some("/root".to_string()));
    scan.record_listing(&vec![
        entry("/root/sub", true, "sub", None, None),
        entry("/root/a.mp3", false, "a", Some("mp3"), Some(5)),
        entry("/root/notes.txt", false, "notes", Some("txt"), None),
        entry("/root/other", true, "other", None, None),
        entry("/root/b.flac", false, "b", Some("flac"), Some(9)),
    ]);
    assert_eq!(scan.next_directory(), Some("/root/sub".to_string()));
    scan.record_listing(&vec![entry("/root/sub/c.wav", false, "c", Some("wav"), Some(1))]);
    assert_eq!(scan.next_directory(), Some("/root/other".to_string()));
    scan.record_listing(&vec![entry("/root/other/d.MP3", false, "d", Some("MP3"), Some(2))]);
    assert_eq!(scan.next_directory(), None);
    let found = scan.music_files();
    assert_eq!(titles(&found), vec!["a", "b", "c"]);
    assert_eq!(found[1].date_added, 9);
}

#[test]
fn scan_failure_gives_nothing() {
    let mut scan = MusicScan::new("/root");
    scan.next_directory();
    scan.record_listing(&vec![
        entry("/root/a.mp3", false, "a", Some("mp3"), Some(5)),
        entry("/root/sub", true, "sub", None, None),
    ]);
    scan.next_directory();
    scan.record_failure();
    assert_eq!(scan.next_directory(), None);
    assert!(scan.music_files().is_empty());
}

#[test]
fn unreadable_song_metadata_fails_scan() {
    let mut scan = MusicScan::new("/r");
    scan.next_directory();
    scan.record_listing(&vec![
        entry("/r/x.txt", false, "x", Some("txt"), None),
        entry("/r/y.wav", false, "y", Some("wav"), Some(3)),
    ]);
    assert_eq!(titles(&scan.music_files()), vec!["y"]);
    scan.record_listing(&vec![entry("/r/z.mp3", false, "z", Some("mp3"), None)]);
    assert!(scan.music_files().is_empty());
}

fn song(title: &str, downloading: bool, id: &str) -> Song {
    Song { title: title.to_string(), is_downloading: downloading, download_id: id.to_string() }
}

fn lines(songs: &[Song]) -> Vec<(String, bool, String)> {
    songs.iter().map(|s| (s.title.clone(), s.is_downloading, s.download_id.clone())).collect()
}

fn event(kind: DownloadEventKind, title: &str) -> CustomDownloadEvent {
    CustomDownloadEvent { download_event: kind, music_title: title.to_string() }
}

#[test]
fn found_songs_are_appended_newest_first() {
    let mut songs = vec![song("old", false, "")];
    add_found_songs(&mut songs, &vec![file("x", 1), file("y", 7)]);
    assert_eq!(
        lines(&songs),
        vec![
            ("old".to_string(), false, String::new()),
            ("y".to_string(), false, String::new()),
            ("x".to_string(), false, String::new())
        ]
    );
}

#[test]
fn started_then_completed() {
    let mut songs = vec![song("old", false, "")];
    apply_download_event(&mut songs, &event(DownloadEventKind::Started, "New"));
    assert_eq!(lines(&songs)[0], ("New".to_string(), true, "New".to_string()));
    apply_download_event(&mut songs, &event(DownloadEventKind::Progress { download_id: 3 }, "New"));
    assert_eq!(songs.len(), 2);
    apply_download_event(&mut songs, &event(DownloadEventKind::Completed, "New"));
    assert_eq!(
        lines(&songs),
        vec![("New".to_string(), false, String::new()), ("old".to_string(), false, String::new())]
    );
}

#[test]
fn progress_adds_unknown_song_once() {
    let mut songs = vec![song("a", false, "")];
    apply_download_event(&mut songs, &event(DownloadEventKind::Progress { download_id: 12 }, "b"));
    apply_download_event(&mut songs, &event(DownloadEventKind::Progress { download_id: 12 }, "b"));
    assert_eq!(
        lines(&songs),
        vec![("b".to_string(), true, "b".to_string()), ("a".to_string(), false, String::new())]
    );
    // a line carrying the download number counts as shown
    let mut songs = vec![song("z", true, "12")];
    apply_download_event(&mut songs, &event(DownloadEventKind::Progress { download_id: 12 }, "c"));
    assert_eq!(songs.len(), 1);
}

#[test]
fn other_events_change_nothing() {
    let mut songs = vec![song("a", true, "a")];
    apply_download_event(&mut songs, &event(DownloadEventKind::Failed, "a"));
    apply_download_event(&mut songs, &event(DownloadEventKind::Other, "a"));
    apply_download_event(&mut songs, &event(DownloadEventKind::Completed, "missing"));
    assert_eq!(lines(&songs), vec![("a".to_string(), true, "a".to_string())]);
}

fn pe(id: &str, title: &str) -> PlaylistEntry {
    PlaylistEntry { id: id.to_string(), title: title.to_string() }
}

#[test]
fn playlist_layout_add_and_remove() {
    let mut entries = vec![pe("1", "one"), pe("2", "two")];
    update_playlist_layout(&mut entries, pe("3", "three"), true);
    assert_eq!(entries.len(), 3);
    assert_eq!(entries[2].title, "three");
    assert_eq!(find_playlist_entry(&entries, "3"), Some(2));
    update_playlist_layout(&mut entries, pe("3", "three"), false);
    let ids: Vec<&str> = entries.iter().map(|e| e.id.as_str()).collect();
    assert_eq!(ids, vec!["1", "2"]);
    assert_eq!(find_playlist_entry(&entries, "3"), None);
}
