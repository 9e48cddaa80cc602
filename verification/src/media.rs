use vstd::prelude::*;

use crate::text::same_text;
use std::collections::VecDeque;

verus! {

/// A song file found on disk: its title (the file name without extension) and
/// when it was created, in nanoseconds relative to the Unix epoch.
#[derive(Debug)]
pub struct MusicFile {
    pub title: String,
    pub date_added: i128,
}

/// Whether `s` lists newer files before older ones.
pub open spec fn newest_first(s: Seq<MusicFile>) -> bool {
    forall|i: int, j: int| 0 <= i < j < s.len() ==> s[i].date_added >= s[j].date_added
}

/// The files of `s` created at `d`, in their order in `s`.
pub open spec fn dated(s: Seq<MusicFile>, d: i128) -> Seq<MusicFile>
    decreases s.len(),
{
    if s.len() == 0 {
        s
    } else {
        let rest = dated(s.drop_last(), d);
        if s.last().date_added == d {
            rest.push(s.last())
        } else {
            rest
        }
    }
}

/// Whether `out` is `inp` sorted newest first by a stable sort: ordered by
/// date, and for each date holding the same files in the same order as `inp`.
pub open spec fn stably_sorted_newest_first(out: Seq<MusicFile>, inp: Seq<MusicFile>) -> bool {
    newest_first(out) && forall|d: i128| #[trigger] dated(out, d) == dated(inp, d)
}

proof fn lemma_dated_concat(a: Seq<MusicFile>, b: Seq<MusicFile>, d: i128)
    ensures
        dated(a + b, d) == dated(a, d) + dated(b, d),
    decreases b.len(),
{
    if b.len() == 0 {
        assert(a + b =~= a);
        assert(dated(a, d) + dated(b, d) =~= dated(a, d));
    } else {
        lemma_dated_concat(a, b.drop_last(), d);
        assert((a + b).drop_last() =~= a + b.drop_last());
        assert((a + b).last() == b.last());
        if b.last().date_added == d {
            assert(dated(a, d) + dated(b.drop_last(), d).push(b.last()) =~= (dated(a, d) + dated(
                b.drop_last(),
                d,
            )).push(b.last()));
        }
    }
}

proof fn lemma_dated_absent(b: Seq<MusicFile>, d: i128)
    requires
        forall|k: int| 0 <= k < b.len() ==> (#[trigger] b[k]).date_added != d,
    ensures
        dated(b, d) == Seq::<MusicFile>::empty(),
    decreases b.len(),
{
    if b.len() > 0 {
        assert forall|k: int| 0 <= k < b.drop_last().len() implies (#[trigger] b.drop_last()[k]).date_added
            != d by {
            assert(b.drop_last()[k] == b[k]);
        }
        lemma_dated_absent(b.drop_last(), d);
        assert(b[b.len() - 1].date_added != d);
    }
}

proof fn lemma_dated_single(x: MusicFile, d: i128)
    ensures
        dated(seq![x], d) == (if x.date_added == d {
            seq![x]
        } else {
            Seq::<MusicFile>::empty()
        }),
{
    assert(seq![x].drop_last() =~= Seq::<MusicFile>::empty());
    assert(dated(Seq::<MusicFile>::empty(), d) == Seq::<MusicFile>::empty());
    assert(Seq::<MusicFile>::empty().push(x) =~= seq![x]);
}

/// Inserting `x` before the first strictly older file keeps a newest-first
/// list sorted, and puts `x` last among the files of its date.
proof fn lemma_insert_newest_first(s: Seq<MusicFile>, p: int, x: MusicFile)
    requires
        newest_first(s),
        0 <= p <= s.len(),
        forall|k: int| 0 <= k < p ==> (#[trigger] s[k]).date_added >= x.date_added,
        p < s.len() ==> s[p].date_added < x.date_added,
    ensures
        newest_first(s.insert(p, x)),
        forall|d: i128|
            #[trigger] dated(s.insert(p, x), d) == if x.date_added == d {
                dated(s, d).push(x)
            } else {
                dated(s, d)
            },
{
    let t = s.insert(p, x);
    assert forall|k: int| p <= k < s.len() implies (#[trigger] s[k]).date_added < x.date_added by {
        if k > p {
            assert(s[p].date_added >= s[k].date_added);
        }
    }
    assert forall|i: int, j: int| 0 <= i < j < t.len() implies t[i].date_added
        >= t[j].date_added by {
        if j < p {
            assert(t[i] == s[i] && t[j] == s[j]);
        } else if j == p {
            assert(t[i] == s[i]);
        } else if i < p {
            assert(t[i] == s[i] && t[j] == s[j - 1]);
        } else if i == p {
            assert(t[j] == s[j - 1]);
        } else {
            assert(t[i] == s[i - 1] && t[j] == s[j - 1]);
        }
    }
    let a = s.take(p);
    let b = s.skip(p);
    assert(s =~= a + b);
    assert(t =~= a + seq![x] + b);
    assert forall|k: int| 0 <= k < b.len() implies (#[trigger] b[k]).date_added < x.date_added by {
        assert(b[k] == s[p + k]);
    }
    assert forall|d: i128|
        #[trigger] dated(t, d) == if x.date_added == d {
            dated(s, d).push(x)
        } else {
            dated(s, d)
        } by {
        lemma_dated_concat(a + seq![x], b, d);
        lemma_dated_concat(a, seq![x], d);
        lemma_dated_concat(a, b, d);
        lemma_dated_single(x, d);
        if x.date_added == d {
            lemma_dated_absent(b, d);
            assert(dated(a, d) + seq![x] + Seq::<MusicFile>::empty() =~= (dated(a, d)
                + Seq::<MusicFile>::empty()).push(x));
        } else {
            assert(dated(a, d) + Seq::<MusicFile>::empty() =~= dated(a, d));
        }
    }
}

/// The files sorted newest first; files of the same date keep their order.
pub fn sort_newest_first(files: &Vec<MusicFile>) -> (r: Vec<MusicFile>)
    ensures
        stably_sorted_newest_first(r@, files@),
{
    let mut r: Vec<MusicFile> = Vec::new();
    let mut i: usize = 0;
    assert(r@ =~= files@.take(0));
    while i < files.len()
        invariant
            i <= files@.len(),
            stably_sorted_newest_first(r@, files@.take(i as int)),
            r@.len() == i,
        decreases files@.len() - i,
    {
        let f = &files[i];
        let x = MusicFile { title: f.title.clone(), date_added: f.date_added };
        assert(x == files@[i as int]);
        let mut p: usize = 0;
        while p < r.len() && r[p].date_added >= x.date_added
            invariant
                p <= r@.len(),
                forall|k: int| 0 <= k < p ==> (#[trigger] r@[k]).date_added >= x.date_added,
            decreases r@.len() - p,
        {
            p = p + 1;
        }
        let ghost before = r@;
        proof {
            lemma_insert_newest_first(before, p as int, x);
        }
        r.insert(p, x);
        proof {
            let prefix = files@.take((i + 1) as int);
            assert(prefix.drop_last() =~= files@.take(i as int));
            assert(prefix.last() == x);
            assert forall|d: i128| #[trigger] dated(r@, d) == dated(prefix, d) by {
                assert(dated(before.insert(p as int, x), d) == if x.date_added == d {
                    dated(before, d).push(x)
                } else {
                    dated(before, d)
                });
            }
        }
        i = i + 1;
    }
    assert(files@.take(files@.len() as int) =~= files@);
    r
}


/// One entry of a directory listing, as the file system reports it: its full
/// path, its kind, its file name without extension and its extension (both as
/// `Path::file_stem` and `Path::extension` give them), and its creation time
/// (nanoseconds relative to the Unix epoch; `None` when its metadata could not
/// be read).
#[derive(Debug)]
pub struct DirEntryInfo {
    pub path: String,
    pub is_dir: bool,
    pub is_file: bool,
    pub stem: String,
    pub extension: Option<String>,
    pub created: Option<i128>,
}

/// The extensions of the files that count as songs.
pub open spec fn is_music_extension(ext: Seq<char>) -> bool {
    ext == "mp3"@ || ext == "flac"@ || ext == "wav"@
}

/// Whether the entry is a song file (a file, not a directory, with a song
/// extension).
pub open spec fn is_song_entry(e: DirEntryInfo) -> bool {
    !e.is_dir && e.is_file && (e.extension matches Some(x) && is_music_extension(x@))
}

/// The paths of the directories among `es`, in order.
pub open spec fn listing_dirs(es: Seq<DirEntryInfo>) -> Seq<Seq<char>>
    decreases es.len(),
{
    if es.len() == 0 {
        Seq::empty()
    } else {
        let rest = listing_dirs(es.drop_last());
        if es.last().is_dir {
            rest.push(es.last().path@)
        } else {
            rest
        }
    }
}

/// The songs among `es` whose creation time is known, in order.
pub open spec fn listing_songs(es: Seq<DirEntryInfo>) -> Seq<MusicFile>
    decreases es.len(),
{
    if es.len() == 0 {
        Seq::empty()
    } else {
        let rest = listing_songs(es.drop_last());
        let e = es.last();
        if is_song_entry(e) && e.created is Some {
            rest.push(MusicFile { title: e.stem, date_added: e.created.unwrap() })
        } else {
            rest
        }
    }
}

/// Whether some song among `es` has metadata that could not be read.
pub open spec fn listing_unreadable(es: Seq<DirEntryInfo>) -> bool {
    exists|k: int| 0 <= k < es.len() && is_song_entry(#[trigger] es[k]) && es[k].created is None
}

/// What a library scan has seen so far: the directories still to list, in
/// the order they will be listed, the songs found, and whether a listing
/// failed.
pub ghost struct ScanState {
    pub pending: Seq<Seq<char>>,
    pub found: Seq<MusicFile>,
    pub failed: bool,
}

/// A breadth-first walk of the song directory that collects the song files.
/// The caller lists each directory that `next_directory` hands out and
/// reports the listing (or its failure); any failure makes the whole scan
/// come back empty.
pub struct MusicScan {
    pending: VecDeque<String>,
    found: Vec<MusicFile>,
    failed: bool,
}

impl View for MusicScan {
    type V = ScanState;

    closed spec fn view(&self) -> ScanState {
        ScanState {
            pending: self.pending@.map_values(|d: String| d@),
            found: self.found@,
            failed: self.failed,
        }
    }
}

impl MusicScan {
    /// A scan that starts at `root`.
    pub fn new(root: &str) -> (s: MusicScan)
        ensures
            s@.pending == seq![root@],
            s@.found == Seq::<MusicFile>::empty(),
            !s@.failed,
    {
        let mut pending: VecDeque<String> = VecDeque::new();
        pending.push_back(String::from_str(root));
        let s = MusicScan { pending, found: Vec::new(), failed: false };
        assert(s@.pending =~= seq![root@]);
        s
    }

    /// The next directory to list, first in first out; `None` once every
    /// directory is listed or a listing failed.
    pub fn next_directory(&mut self) -> (r: Option<String>)
        ensures
            match r {
                Some(d) => !old(self)@.failed && old(self)@.pending.len() > 0 && d@
                    == old(self)@.pending[0] && final(self)@.pending == old(self)@.pending.drop_first()
                    && final(self)@.found == old(self)@.found && !final(self)@.failed,
                None => (old(self)@.failed || old(self)@.pending.len() == 0) && final(self)@
                    == old(self)@,
            },
    {
        if self.failed {
            return None;
        }
        match self.pending.pop_front() {
            Some(d) => {
                assert(self@.pending =~= old(self)@.pending.drop_first());
                Some(d)
            },
            None => None,
        }
    }

    /// Records that listing a directory failed.
    pub fn record_failure(&mut self)
        ensures
            final(self)@.failed,
            final(self)@.pending == old(self)@.pending,
            final(self)@.found == old(self)@.found,
    {
        self.failed = true;
    }

    /// Records the listing of the directory last handed out: its
    /// subdirectories are queued in order and its songs collected in order; a
    /// song whose metadata could not be read fails the scan.
    pub fn record_listing(&mut self, entries: &Vec<DirEntryInfo>)
        ensures
            final(self)@.failed == (old(self)@.failed || listing_unreadable(entries@)),
            final(self)@.pending == old(self)@.pending + listing_dirs(entries@),
            final(self)@.found == old(self)@.found + listing_songs(entries@),
    {
        let ghost old_pending = old(self)@.pending;
        let ghost old_found = old(self)@.found;
        let ghost old_failed = old(self)@.failed;
        let mut i: usize = 0;
        while i < entries.len()
            invariant
                i <= entries@.len(),
                self@.pending == old_pending + listing_dirs(entries@.take(i as int)),
                self@.found == old_found + listing_songs(entries@.take(i as int)),
                self@.failed == (old_failed || listing_unreadable(entries@.take(i as int))),
            decreases entries@.len() - i,
        {
            let e = &entries[i];
            let ghost pre = entries@.take(i as int);
            let ghost cur = entries@.take((i + 1) as int);
            assert(cur.drop_last() =~= pre);
            assert(cur.last() == *e);
            let ghost pending_before = self.pending@;
            if e.is_dir {
                self.pending.push_back(e.path.clone());
                assert(self.pending@.map_values(|d: String| d@) =~= pending_before.map_values(
                    |d: String| d@,
                ).push(e.path@));
                assert(self@.pending =~= old_pending + listing_dirs(cur));
            } else if e.is_file {
                let music = match &e.extension {
                    Some(x) => same_text(x.as_str(), "mp3") || same_text(x.as_str(), "flac")
                        || same_text(x.as_str(), "wav"),
                    None => false,
                };
                if music {
                    match e.created {
                        Some(t) => {
                            self.found.push(MusicFile { title: e.stem.clone(), date_added: t });
                        },
                        None => {
                            self.failed = true;
                        },
                    }
                }
            }
            proof {
                assert(self@.pending =~= old_pending + listing_dirs(cur));
                assert(self@.found =~= old_found + listing_songs(cur));
                if listing_unreadable(pre) {
                    let k = choose|k: int|
                        0 <= k < pre.len() && is_song_entry(#[trigger] pre[k]) && pre[k].created is None;
                    assert(cur[k] == pre[k]);
                }
                if listing_unreadable(cur) && !(is_song_entry(*e) && e.created is None) {
                    let k = choose|k: int|
                        0 <= k < cur.len() && is_song_entry(#[trigger] cur[k]) && cur[k].created is None;
                    assert(k != i as int);
                    assert(pre[k] == cur[k]);
                }
                if is_song_entry(*e) && e.created is None {
                    assert(cur[i as int] == *e);
                }
            }
            i = i + 1;
        }
        assert(entries@.take(entries@.len() as int) =~= entries@);
    }

    /// The songs the scan found, in the order found; none when a listing
    /// failed.
    pub fn music_files(&self) -> (r: Vec<MusicFile>)
        ensures
            self@.failed ==> r@ == Seq::<MusicFile>::empty(),
            !self@.failed ==> r@ == self@.found,
    {
        let mut r: Vec<MusicFile> = Vec::new();
        if self.failed {
            return r;
        }
        let mut i: usize = 0;
        while i < self.found.len()
            invariant
                i <= self.found@.len(),
                r@ == self.found@.take(i as int),
            decreases self.found@.len() - i,
        {
            let f = &self.found[i];
            r.push(MusicFile { title: f.title.clone(), date_added: f.date_added });
            assert(r@ =~= self.found@.take((i + 1) as int));
            i = i + 1;
        }
        assert(self.found@.take(self.found@.len() as int) =~= self.found@);
        r
    }
}

} // verus!
