use music_downloader::clock::{now_utc, timestamp_from_reading, Timestamp};
use music_downloader::codec::CodecPreference;
use music_downloader::config::{
    choose_output_dir, output_dir_name, playlist_id_text, Config, PlaylistInfo,
};

fn sample_config() -> Config {
    let mut c = Config::default();
    let t = Timestamp { secs: 1_700_000_000, nanos: 5 };
    c.add_playlist(0x11, "https://a", "A", t);
    c.add_playlist(0x22, "https://b", "B", t);
    c.add_playlist(0x11, "https://c", "C", t);
    c
}

fn ids(c: &Config) -> Vec<u128> {
    c.playlists.iter().map(|p: &PlaylistInfo| p.id).collect()
}

#[test]
fn default_config() {
    let c = Config::default();
    assert_eq!(c.saved_directory, None);
    assert!(c.playlists.is_empty());
    assert_eq!(c.codec, CodecPreference::MP3);
    assert_eq!(c.max_concurrent_downloads, 5);
}

#[test]
fn add_playlist_appends() {
    let c = sample_config();
    assert_eq!(ids(&c), vec![0x11, 0x22, 0x11]);
    assert_eq!(c.playlists[1].url, "https://b");
    assert_eq!(c.playlists[1].name, "B");
    assert_eq!(c.playlists[1].last_updated, Timestamp { secs: 1_700_000_000, nanos: 5 });
}

#[test]
fn update_playlist_draws_a_version_4_id() {
    let mut c = Config::default();
    let id = c.update_playlist("https://list", "Mix").unwrap();
    assert_eq!((id >> 76) & 0xf, 4);
    assert_eq!((id >> 62) & 0x3, 2);
    assert_eq!(c.playlists.len(), 1);
    assert_eq!(c.playlists[0].id, id);
    assert_eq!(c.playlists[0].url, "https://list");
    assert_eq!(c.playlists[0].name, "Mix");
    // the clock is read: the record is stamped after 2023-11-14
    assert!(c.playlists[0].last_updated.secs > 1_700_000_000);
    assert!(c.playlists[0].last_updated.nanos < 1_000_000_000);
    let other = c.update_playlist("https://list", "Mix").unwrap();
    assert_ne!(other, id);
}

#[test]
fn remove_playlist_takes_out_every_match() {
    let mut c = sample_config();
    assert_eq!(c.remove_playlist(0x11), 0x11);
    assert_eq!(ids(&c), vec![0x22]);
    assert_eq!(c.playlists[0].name, "B");
    // removing again changes nothing
    c.remove_playlist(0x11);
    assert_eq!(ids(&c), vec![0x22]);
    c.remove_playlist(0x99);
    assert_eq!(ids(&c), vec![0x22]);
}

#[test]
fn remove_undoes_add() {
    let mut c = sample_config();
    let before = ids(&c);
    let id = c.update_playlist("u", "n").unwrap();
    c.remove_playlist(id);
    assert_eq!(ids(&c), before);
}

#[test]
fn find_playlist_gives_first_match() {
    let c = sample_config();
    assert_eq!(c.find_playlist(0x11), Some(0));
    assert_eq!(c.find_playlist(0x22), Some(1));
    assert_eq!(c.find_playlist(0x33), None);
}

#[test]
fn playlist_id_text_is_hyphenated_lower_hex() {
    assert_eq!(
        playlist_id_text(0x67e5504410b1426f9247bb680e5fe0c8),
        "67e55044-10b1-426f-9247-bb680e5fe0c8"
    );
    assert_eq!(playlist_id_text(0), "00000000-0000-0000-0000-000000000000");
}

#[test]
fn shown_id_finds_its_playlist() {
    let mut c = sample_config();
    let id = c.update_playlist("u", "New").unwrap();
    let entries = c.playlist_entries();
    assert_eq!(entries.len(), 4);
    assert_eq!(entries[3].title, "New");
    assert_eq!(c.find_playlist_by_text(&entries[3].id), Some(3));
    assert_eq!(c.find_playlist_by_text(&entries[3].id.to_uppercase()), Some(3));
    assert_eq!(c.remove_playlist_by_text(&entries[3].id), Some(id));
    assert_eq!(ids(&c), vec![0x11, 0x22, 0x11]);
}

#[test]
fn bad_id_text_changes_nothing() {
    let mut c = sample_config();
    assert_eq!(c.find_playlist_by_text("not an id"), None);
    assert_eq!(c.remove_playlist_by_text("not an id"), None);
    assert_eq!(ids(&c), vec![0x11, 0x22, 0x11]);
    assert_eq!(
        c.find_playlist_by_text("00000000000000000000000000000022"),
        Some(1)
    );
    assert_eq!(
        c.find_playlist_by_text("{00000000-0000-0000-0000-000000000011}"),
        Some(0)
    );
    assert_eq!(
        c.find_playlist_by_text("URN:uuid:00000000-0000-0000-0000-000000000022"),
        Some(1)
    );
    assert_eq!(c.find_playlist_by_text("{00000000-0000-0000-0000-000000000011"), None);
    assert_eq!(c.find_playlist_by_text("0000000000000000000000000000002é"), None);
    assert_eq!(c.find_playlist_by_text("00000000-0000-0000-0000-00000000002g"), None);
}

#[test]
fn settings_follow_saved_directory() {
    let mut c = Config::default();
    assert!(c.settings().is_none());
    c.saved_directory = Some("/home/me/MusicDL".to_string());
    c.codec = CodecPreference::FLAC;
    c.max_concurrent_downloads = 3;
    let s = c.settings().unwrap();
    assert_eq!(s.save_directory, "/home/me/MusicDL");
    assert_eq!(s.codec, "flac");
    assert_eq!(s.max_concurrent_download, 3);
}

#[test]
fn directories() {
    let mut c = Config::default();
    assert_eq!(c.music_directory(), "");
    assert_eq!(c.download_root(), "output");
    c.saved_directory = Some("/m".to_string());
    assert_eq!(c.music_directory(), "/m");
    assert_eq!(c.download_root(), "/m");
    assert_eq!(output_dir_name(""), "MusicDL");
    assert_eq!(output_dir_name("Songs"), "Songs");
    assert_eq!(choose_output_dir(Some("own"), Some("saved")), "own");
    assert_eq!(choose_output_dir(None, Some("saved")), "saved");
    assert_eq!(choose_output_dir(None, None), "output");
}

#[test]
fn clock_reads_current_time() {
    let t = now_utc().unwrap();
    let reference = std::time::SystemTime::now()
        .duration_since(std::time::UNIX_EPOCH)
        .unwrap()
        .as_secs() as i64;
    assert!(t.secs > 1_700_000_000);
    assert!((reference - t.secs).abs() <= 5);
    assert!(t.nanos < 1_000_000_000);
}

#[test]
fn timestamps_from_clock_readings() {
    assert_eq!(timestamp_from_reading(None), None);
    assert_eq!(
        timestamp_from_reading(Some((1_700_000_000, 42))),
        Some(Timestamp { secs: 1_700_000_000, nanos: 42 })
    );
    assert_eq!(timestamp_from_reading(Some((0, 0))), Some(Timestamp { secs: 0, nanos: 0 }));
    assert_eq!(timestamp_from_reading(Some((u64::MAX, 0))), None);
    assert_eq!(timestamp_from_reading(Some((1 << 63, 0))), None);
    // beyond chrono's last year
    assert_eq!(timestamp_from_reading(Some((9_000_000_000_000, 0))), None);
    // nanoseconds of a leap second are only accepted at a minute's last second
    assert_eq!(timestamp_from_reading(Some((0, 1_500_000_000))), None);
}
