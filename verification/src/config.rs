use vstd::prelude::*;

use crate::clock::{now_utc, Timestamp};
use crate::codec::{codec_name, CodecPreference};
use crate::ids::{
    format_uuid, parse_uuid, random_uuid, uuid_parse, uuid_text,
};

verus! {

/// A playlist that the user follows.
#[derive(Debug, Clone)]
pub struct PlaylistInfo {
    pub id: u128,
    pub url: String,
    pub name: String,
    pub last_updated: Timestamp,
}

/// The settings that the application keeps between runs.
#[derive(Debug, Clone)]
pub struct Config {
    pub saved_directory: Option<String>,
    pub playlists: Vec<PlaylistInfo>,
    pub codec: CodecPreference,
    pub max_concurrent_downloads: i32,
}

/// The settings panel's fields, filled from the configuration.
#[derive(Debug)]
pub struct Settings {
    pub save_directory: String,
    pub codec: String,
    pub max_concurrent_download: i32,
}

/// A playlist as the playlist panel lists it: its identifier as text and its
/// title.
#[derive(Debug)]
pub struct PlaylistEntry {
    pub id: String,
    pub title: String,
}

/// `s` with every playlist whose identifier is `id` taken out, the others kept
/// in order.
pub open spec fn without_id(s: Seq<PlaylistInfo>, id: u128) -> Seq<PlaylistInfo>
    decreases s.len(),
{
    if s.len() == 0 {
        s
    } else {
        let rest = without_id(s.drop_last(), id);
        if s.last().id == id {
            rest
        } else {
            rest.push(s.last())
        }
    }
}

/// Whether some playlist of `s` has the identifier `id`.
pub open spec fn has_id(s: Seq<PlaylistInfo>, id: u128) -> bool {
    exists|k: int| 0 <= k < s.len() && (#[trigger] s[k]).id == id
}

/// Whether `r` names the first playlist of `s` whose identifier is `id`, or is
/// `None` when there is none.
pub open spec fn is_first_with_id(s: Seq<PlaylistInfo>, id: u128, r: Option<usize>) -> bool {
    match r {
        Some(i) => i < s.len() && s[i as int].id == id && forall|k: int|
            0 <= k < i ==> (#[trigger] s[k]).id != id,
        None => !has_id(s, id),
    }
}

/// Whether `p` is the playlist record made of these parts.
pub open spec fn is_record(
    p: PlaylistInfo,
    id: u128,
    url: Seq<char>,
    name: Seq<char>,
    last_updated: Timestamp,
) -> bool {
    p.id == id && p.url@ == url && p.name@ == name && p.last_updated == last_updated
}

impl Default for Config {
    /// No saved directory, no playlist, MP3, and five downloads at a time.
    fn default() -> (c: Config)
        ensures
            c.saved_directory is None,
            c.playlists@.len() == 0,
            c.codec == CodecPreference::MP3,
            c.max_concurrent_downloads == 5,
    {
        Config {
            saved_directory: None,
            playlists: Vec::new(),
            codec: CodecPreference::MP3,
            max_concurrent_downloads: 5,
        }
    }
}

impl Config {
    /// Appends the playlist `id` found at `playlist_url`, named
    /// `playlist_name` and last updated at `last_updated`.
    pub fn add_playlist(
        &mut self,
        id: u128,
        playlist_url: &str,
        playlist_name: &str,
        last_updated: Timestamp,
    )
        ensures
            final(self).playlists@.len() == old(self).playlists@.len() + 1,
            final(self).playlists@.drop_last() == old(self).playlists@,
            is_record(final(self).playlists@.last(), id, playlist_url@, playlist_name@, last_updated),
            final(self).saved_directory == old(self).saved_directory,
            final(self).codec == old(self).codec,
            final(self).max_concurrent_downloads == old(self).max_concurrent_downloads,
    {
        let p = PlaylistInfo {
            id,
            url: String::from_str(playlist_url),
            name: String::from_str(playlist_name),
            last_updated,
        };
        self.playlists.push(p);
        assert(self.playlists@.drop_last() =~= old(self).playlists@);
    }

    /// Records a new playlist under a fresh random identifier, stamped with
    /// the current time, and returns that identifier (a version-4 uuid).
    /// When the system clock cannot be read as a time after 1970, nothing is
    /// recorded and `None` comes back.
    pub fn update_playlist(&mut self, playlist_url: &str, playlist_name: &str) -> (r: Option<u128>)
        ensures
            match r {
                Some(id) => {
                    &&& (id >> 76u128) & 0xfu128 == 4
                    &&& (id >> 62u128) & 0x3u128 == 2
                    &&& final(self).playlists@.len() == old(self).playlists@.len() + 1
                    &&& final(self).playlists@.drop_last() == old(self).playlists@
                    &&& final(self).playlists@.last().id == id
                    &&& final(self).playlists@.last().url@ == playlist_url@
                    &&& final(self).playlists@.last().name@ == playlist_name@
                    &&& final(self).playlists@.last().last_updated.secs >= 0
                    &&& final(self).playlists@.last().last_updated.nanos < 1_000_000_000
                },
                None => final(self).playlists@ == old(self).playlists@,
            },
            final(self).saved_directory == old(self).saved_directory,
            final(self).codec == old(self).codec,
            final(self).max_concurrent_downloads == old(self).max_concurrent_downloads,
    {
        self.update_playlist_at(playlist_url, playlist_name, now_utc())
    }

    /// Records a new playlist under a fresh random identifier, stamped with
    /// the clock reading `now`, and returns that identifier (a version-4
    /// uuid). Whatever playlists are already followed, the playlist is
    /// recorded exactly when there is a reading; without one nothing changes
    /// and `None` comes back.
    pub fn update_playlist_at(
        &mut self,
        playlist_url: &str,
        playlist_name: &str,
        now: Option<Timestamp>,
    ) -> (r: Option<u128>)
        ensures
            r is Some <==> now is Some,
            match r {
                Some(id) => {
                    &&& (id >> 76u128) & 0xfu128 == 4
                    &&& (id >> 62u128) & 0x3u128 == 2
                    &&& final(self).playlists@.len() == old(self).playlists@.len() + 1
                    &&& final(self).playlists@.drop_last() == old(self).playlists@
                    &&& is_record(
                        final(self).playlists@.last(),
                        id,
                        playlist_url@,
                        playlist_name@,
                        now.unwrap(),
                    )
                },
                None => final(self).playlists@ == old(self).playlists@,
            },
            final(self).saved_directory == old(self).saved_directory,
            final(self).codec == old(self).codec,
            final(self).max_concurrent_downloads == old(self).max_concurrent_downloads,
    {
        match now {
            Some(t) => {
                let id = random_uuid();
                self.add_playlist(id, playlist_url, playlist_name, t);
                Some(id)
            },
            None => None,
        }
    }

    /// Forgets every playlist whose identifier is `playlist_id`, keeping the
    /// others in order, and returns that identifier.
    pub fn remove_playlist(&mut self, playlist_id: u128) -> (r: u128)
        ensures
            r == playlist_id,
            final(self).playlists@ == without_id(old(self).playlists@, playlist_id),
            final(self).saved_directory == old(self).saved_directory,
            final(self).codec == old(self).codec,
            final(self).max_concurrent_downloads == old(self).max_concurrent_downloads,
    {
        let mut old_list: Vec<PlaylistInfo> = Vec::new();
        std::mem::swap(&mut old_list, &mut self.playlists);
        let ghost original = old_list@;
        let mut kept: Vec<PlaylistInfo> = Vec::new();
        let mut rest: Vec<PlaylistInfo> = Vec::new();
        // Move the records out back to front, then keep the wanted ones.
        while old_list.len() > 0
            invariant
                old_list@ + rest@.reverse() == original,
            decreases old_list@.len(),
        {
            let p = old_list.pop().unwrap();
            let ghost before = rest@;
            rest.push(p);
            proof {
                assert(rest@.reverse() =~= seq![p] + before.reverse());
                assert(old_list@ + rest@.reverse() =~= original);
            }
        }
        assert(rest@.reverse() =~= original);
        let n = rest.len();
        let mut i: usize = 0;
        while i < n
            invariant
                n == original.len(),
                rest@.len() == n - i,
                i <= n,
                forall|k: int| 0 <= k < rest@.len() ==> #[trigger] rest@[k] == original[n - 1 - k],
                kept@ == without_id(original.take(i as int), playlist_id),
            decreases n - i,
        {
            let p = rest.pop().unwrap();
            let ghost pp = p;
            assert(pp == original[i as int]);
            assert(original.take((i + 1) as int).drop_last() =~= original.take(i as int));
            if p.id != playlist_id {
                kept.push(p);
            }
            i = i + 1;
        }
        assert(original.take(n as int) =~= original);
        self.playlists = kept;
        playlist_id
    }

    /// Index of the first playlist whose identifier is `playlist_id`.
    pub fn find_playlist(&self, playlist_id: u128) -> (r: Option<usize>)
        ensures
            is_first_with_id(self.playlists@, playlist_id, r),
    {
        let mut i: usize = 0;
        while i < self.playlists.len()
            invariant
                i <= self.playlists@.len(),
                forall|k: int| 0 <= k < i ==> (#[trigger] self.playlists@[k]).id != playlist_id,
            decreases self.playlists@.len() - i,
        {
            if self.playlists[i].id == playlist_id {
                return Some(i);
            }
            i = i + 1;
        }
        None
    }

    /// The playlist that the text `playlist_id` names, as the refresh button
    /// hands it over: `None` when the text is no identifier or no playlist has
    /// it, else the index of the first playlist with that identifier.
    pub fn find_playlist_by_text(&self, playlist_id: &str) -> (r: Option<usize>)
        ensures
            match uuid_parse(playlist_id@) {
                Some(id) => is_first_with_id(self.playlists@, id, r),
                None => r is None,
            },
    {
        match parse_uuid(playlist_id) {
            Some(id) => self.find_playlist(id),
            None => None,
        }
    }

    /// Forgets the playlist that the text `playlist_id` names, as the delete
    /// button hands it over. A text that is no identifier changes nothing and
    /// gives `None`; otherwise every playlist with that identifier goes and the
    /// identifier is returned.
    pub fn remove_playlist_by_text(&mut self, playlist_id: &str) -> (r: Option<u128>)
        ensures
            r == uuid_parse(playlist_id@),
            match r {
                Some(id) => final(self).playlists@ == without_id(old(self).playlists@, id),
                None => final(self).playlists@ == old(self).playlists@,
            },
            final(self).saved_directory == old(self).saved_directory,
            final(self).codec == old(self).codec,
            final(self).max_concurrent_downloads == old(self).max_concurrent_downloads,
    {
        match parse_uuid(playlist_id) {
            Some(id) => Some(self.remove_playlist(id)),
            None => None,
        }
    }

    /// The playlists as the playlist panel lists them, in order.
    pub fn playlist_entries(&self) -> (r: Vec<PlaylistEntry>)
        ensures
            r@.len() == self.playlists@.len(),
            forall|k: int|
                0 <= k < r@.len() ==> (#[trigger] r@[k]).id@ == uuid_text(self.playlists@[k].id)
                    && r@[k].title@ == self.playlists@[k].name@,
    {
        let mut r: Vec<PlaylistEntry> = Vec::new();
        let mut i: usize = 0;
        while i < self.playlists.len()
            invariant
                i <= self.playlists@.len(),
                r@.len() == i,
                forall|k: int|
                    0 <= k < i ==> (#[trigger] r@[k]).id@ == uuid_text(self.playlists@[k].id)
                        && r@[k].title@ == self.playlists@[k].name@,
            decreases self.playlists@.len() - i,
        {
            let p = &self.playlists[i];
            r.push(PlaylistEntry { id: playlist_id_text(p.id), title: p.name.clone() });
            i = i + 1;
        }
        r
    }

    /// The settings panel's fields; `None` while no directory is saved, in
    /// which case the panel keeps its defaults.
    pub fn settings(&self) -> (r: Option<Settings>)
        ensures
            match self.saved_directory {
                None => r is None,
                Some(d) => r matches Some(s) && s.save_directory@ == d@ && s.codec@ == codec_name(
                    self.codec,
                ) && s.max_concurrent_download == self.max_concurrent_downloads,
            },
    {
        match &self.saved_directory {
            None => None,
            Some(d) => Some(
                Settings {
                    save_directory: d.clone(),
                    codec: self.codec.to_string(),
                    max_concurrent_download: self.max_concurrent_downloads,
                },
            ),
        }
    }

    /// The directory where songs are looked for: the saved one, or the empty
    /// path while none is saved.
    pub fn music_directory(&self) -> (r: String)
        ensures
            match self.saved_directory {
                None => r@ == Seq::<char>::empty(),
                Some(d) => r@ == d@,
            },
    {
        match &self.saved_directory {
            None => String::new(),
            Some(d) => d.clone(),
        }
    }

    /// The directory under which playlists are downloaded: the saved one, or
    /// `output` while none is saved.
    pub fn download_root(&self) -> (r: String)
        ensures
            match self.saved_directory {
                None => r@ == "output"@,
                Some(d) => r@ == d@,
            },
    {
        match &self.saved_directory {
            None => String::from_str("output"),
            Some(d) => d.clone(),
        }
    }
}

/// The text under which the playlist panel shows the identifier `id`: its
/// hyphenated lower-case hex form.
pub fn playlist_id_text(id: u128) -> (s: String)
    ensures
        s@ == uuid_text(id),
        uuid_parse(s@) == Some(id),
{
    proof {
        crate::ids::lemma_uuid_text_round_trip(id);
    }
    format_uuid(id)
}

/// The directory, relative to the user's home, where songs go: `path`, or
/// `MusicDL` when `path` is empty.
pub fn output_dir_name(path: &str) -> (r: String)
    ensures
        path@.len() == 0 ==> r@ == "MusicDL"@,
        path@.len() != 0 ==> r@ == path@,
{
    if path.unicode_len() == 0 {
        String::from_str("MusicDL")
    } else {
        String::from_str(path)
    }
}

/// Where a single track is downloaded: the downloader's own directory when it
/// has one, else the saved directory, else `output`.
pub fn choose_output_dir(own_directory: Option<&str>, saved_directory: Option<&str>) -> (r: String)
    ensures
        match (own_directory, saved_directory) {
            (Some(d), _) => r@ == d@,
            (None, Some(s)) => r@ == s@,
            (None, None) => r@ == "output"@,
        },
{
    match own_directory {
        Some(d) => String::from_str(d),
        None => match saved_directory {
            Some(s) => String::from_str(s),
            None => String::from_str("output"),
        },
    }
}


/// Membership after removal: a record stays exactly when it was there and
/// carries another identifier.
pub proof fn lemma_without_id_members(s: Seq<PlaylistInfo>, id: u128, q: PlaylistInfo)
    ensures
        without_id(s, id).contains(q) <==> (s.contains(q) && q.id != id),
    decreases s.len(),
{
    if s.len() > 0 {
        let init = s.drop_last();
        lemma_without_id_members(init, id, q);
        assert(s =~= init.push(s.last()));
        if s.contains(q) && q != s.last() {
            let k = choose|k: int| 0 <= k < s.len() && s[k] == q;
            assert(init[k] == q);
        }
        if init.contains(q) {
            let k = choose|k: int| 0 <= k < init.len() && init[k] == q;
            assert(s[k] == q);
        }
        if s.last() == q {
            assert(s[s.len() - 1] == q);
        }
        let r = without_id(init, id);
        if s.last().id != id {
            assert(r.push(s.last())[r.len() as int] == s.last());
            if r.contains(q) {
                let k = choose|k: int| 0 <= k < r.len() && r[k] == q;
                assert(r.push(s.last())[k] == q);
            }
            if r.push(s.last()).contains(q) && q != s.last() {
                let k = choose|k: int| 0 <= k < r.len() + 1 && r.push(s.last())[k] == q;
                assert(r[k] == q);
            }
        }
    }
}

/// After a removal no playlist carries the removed identifier.
pub proof fn lemma_removed_id_is_gone(s: Seq<PlaylistInfo>, id: u128)
    ensures
        !has_id(without_id(s, id), id),
{
    let r = without_id(s, id);
    if has_id(r, id) {
        let k = choose|k: int| 0 <= k < r.len() && (#[trigger] r[k]).id == id;
        lemma_without_id_members(s, id, r[k]);
        assert(r.contains(r[k]));
    }
}

/// Removing an identifier that no playlist carries changes nothing.
pub proof fn lemma_remove_absent_id(s: Seq<PlaylistInfo>, id: u128)
    requires
        !has_id(s, id),
    ensures
        without_id(s, id) == s,
    decreases s.len(),
{
    if s.len() > 0 {
        let init = s.drop_last();
        assert forall|k: int| 0 <= k < init.len() implies (#[trigger] init[k]).id != id by {
            assert(s[k] == init[k]);
        }
        lemma_remove_absent_id(init, id);
        assert(s[s.len() - 1].id != id);
        assert(init.push(s.last()) =~= s);
    }
}

/// Removing the same identifier twice is the same as removing it once.
pub proof fn lemma_remove_idempotent(s: Seq<PlaylistInfo>, id: u128)
    ensures
        without_id(without_id(s, id), id) == without_id(s, id),
{
    lemma_removed_id_is_gone(s, id);
    lemma_remove_absent_id(without_id(s, id), id);
}

/// Removing a playlist that was just added under a fresh identifier gives the
/// list back as it was.
pub proof fn lemma_remove_undoes_add(s: Seq<PlaylistInfo>, p: PlaylistInfo)
    requires
        !has_id(s, p.id),
    ensures
        without_id(s.push(p), p.id) == s,
{
    assert(s.push(p).drop_last() =~= s);
    lemma_remove_absent_id(s, p.id);
}

/// A playlist added under a fresh identifier is the one found by that
/// identifier.
pub proof fn lemma_find_after_add(s: Seq<PlaylistInfo>, p: PlaylistInfo)
    requires
        !has_id(s, p.id),
        s.len() < usize::MAX,
    ensures
        is_first_with_id(s.push(p), p.id, Some(s.len() as usize)),
{
    assert forall|k: int| 0 <= k < s.len() implies (#[trigger] s.push(p)[k]).id != p.id by {
        assert(s.push(p)[k] == s[k]);
    }
}


/// Removal keeps the order of the playlists it keeps: removing from two runs
/// of playlists one after the other is removing from each run.
pub proof fn lemma_without_id_concat(a: Seq<PlaylistInfo>, b: Seq<PlaylistInfo>, id: u128)
    ensures
        without_id(a + b, id) == without_id(a, id) + without_id(b, id),
    decreases b.len(),
{
    if b.len() == 0 {
        assert(a + b =~= a);
        assert(without_id(a, id) + without_id(b, id) =~= without_id(a, id));
    } else {
        let bi = b.drop_last();
        lemma_without_id_concat(a, bi, id);
        assert((a + b).drop_last() =~= a + bi);
        assert((a + b).last() == b.last());
        let ra = without_id(a, id);
        let rb = without_id(bi, id);
        if b.last().id != id {
            assert((ra + rb).push(b.last()) =~= ra + rb.push(b.last()));
        }
    }
}

/// A single playlist is taken out exactly when it carries the identifier.
pub proof fn lemma_without_id_single(p: PlaylistInfo, id: u128)
    ensures
        without_id(seq![p], id) == (if p.id == id {
            Seq::<PlaylistInfo>::empty()
        } else {
            seq![p]
        }),
{
    let none = Seq::<PlaylistInfo>::empty();
    assert(seq![p].drop_last() =~= none);
    assert(without_id(none, id) == none);
    assert(seq![p].last() == p);
    assert(none.push(p) =~= seq![p]);
}

} // verus!
