//! The records of the library: collections, entries and musics, the
//! documents the UI sends, and the rows the store keeps.
//!
//! Loudness and the scoring values are held in thousandths: a loudness of
//! `-14.3` dB is `-14300`, a boost of `0.9` is `900`.

use vstd::prelude::*;
use vstd::std_specs::convert::FromSpecImpl;
use crate::ids::fresh_id;
use crate::journal::{clone_opt_text, opt_text};
use crate::pipeline::{is_unprobed, Location, ProcessResult};
use crate::table::{KeyView, RecordKey, Table};

verus! {

/// A single audio file. Its path is its identity.
#[derive(Debug)]
pub struct Music {
    pub path: String,
    pub title: String,
    pub avg_db: Option<i32>,
    pub base_bias: i32,
    pub user_boost: i32,
    pub fatigue: i32,
    pub diversity: i32,
}

/// A music, by its text.
pub struct MusicView {
    pub path: Seq<char>,
    pub title: Seq<char>,
    pub avg_db: Option<i32>,
    pub base_bias: i32,
    pub user_boost: i32,
    pub fatigue: i32,
    pub diversity: i32,
}

impl View for Music {
    type V = MusicView;

    open spec fn view(&self) -> MusicView {
        MusicView {
            path: self.path@,
            title: self.title@,
            avg_db: self.avg_db,
            base_bias: self.base_bias,
            user_boost: self.user_boost,
            fatigue: self.fatigue,
            diversity: self.diversity,
        }
    }
}

/// The row of a music in the store.
#[derive(Debug)]
pub struct DbMusic {
    pub id: RecordKey,
    pub path: String,
    pub title: String,
    pub avg_db: Option<i32>,
    pub base_bias: i32,
    pub user_boost: i32,
    pub fatigue: i32,
    pub diversity: i32,
}

impl DbMusic {
    /// The music that the row holds. The row's identity adds nothing to
    /// it: by `keyed` it is the path again.
    pub open spec fn music(self) -> MusicView {
        MusicView {
            path: self.path@,
            title: self.title@,
            avg_db: self.avg_db,
            base_bias: self.base_bias,
            user_boost: self.user_boost,
            fatigue: self.fatigue,
            diversity: self.diversity,
        }
    }

    /// The row's identity is the one derived from its path.
    pub open spec fn keyed(self) -> bool {
        self.id@ == (KeyView { table: Table::Music, key: self.path@ })
    }

    /// Whether the row's identity is the one derived from its path.
    pub fn is_keyed(&self) -> (b: bool)
        ensures
            b == self.keyed(),
    {
        self.id.same(&crate::table::record_id_for(Table::Music, self.path.as_str()))
    }

    /// A copy with the same values.
    pub fn copy(&self) -> (r: DbMusic)
        ensures
            r.music() == self.music(),
            r.id@ == self.id@,
    {
        DbMusic {
            id: self.id.copy(),
            path: self.path.clone(),
            title: self.title.clone(),
            avg_db: self.avg_db,
            base_bias: self.base_bias,
            user_boost: self.user_boost,
            fatigue: self.fatigue,
            diversity: self.diversity,
        }
    }
}

impl Music {
    /// A music as a scan first records it: measured, with all scoring
    /// values at zero.
    pub fn measured(path: &str, title: &str, avg_db: Option<i32>) -> (m: Music)
        ensures
            m@ == (MusicView {
                path: path@,
                title: title@,
                avg_db,
                base_bias: 0,
                user_boost: 0,
                fatigue: 0,
                diversity: 0,
            }),
    {
        Music {
            path: path.to_owned(),
            title: title.to_owned(),
            avg_db,
            base_bias: 0,
            user_boost: 0,
            fatigue: 0,
            diversity: 0,
        }
    }

    /// A copy with the same values.
    pub fn copy(&self) -> (r: Music)
        ensures
            r@ == self@,
    {
        Music {
            path: self.path.clone(),
            title: self.title.clone(),
            avg_db: self.avg_db,
            base_bias: self.base_bias,
            user_boost: self.user_boost,
            fatigue: self.fatigue,
            diversity: self.diversity,
        }
    }
}

impl From<Music> for DbMusic {
    fn from(e: Music) -> (r: DbMusic) {
        DbMusic {
            id: RecordKey { table: Table::Music, key: e.path.clone() },
            path: e.path,
            title: e.title,
            avg_db: e.avg_db,
            base_bias: e.base_bias,
            user_boost: e.user_boost,
            fatigue: e.fatigue,
            diversity: e.diversity,
        }
    }
}

impl FromSpecImpl<Music> for DbMusic {
    open spec fn obeys_from_spec() -> bool {
        true
    }

    /// The row of a music: the same values under the identity derived
    /// from the path.
    open spec fn from_spec(e: Music) -> DbMusic {
        DbMusic {
            id: RecordKey { table: Table::Music, key: e.path },
            path: e.path,
            title: e.title,
            avg_db: e.avg_db,
            base_bias: e.base_bias,
            user_boost: e.user_boost,
            fatigue: e.fatigue,
            diversity: e.diversity,
        }
    }
}

impl From<DbMusic> for Music {
    fn from(e: DbMusic) -> (r: Music) {
        Music {
            path: e.path,
            title: e.title,
            avg_db: e.avg_db,
            base_bias: e.base_bias,
            user_boost: e.user_boost,
            fatigue: e.fatigue,
            diversity: e.diversity,
        }
    }
}

impl FromSpecImpl<DbMusic> for Music {
    open spec fn obeys_from_spec() -> bool {
        true
    }

    /// The music that a row holds.
    open spec fn from_spec(e: DbMusic) -> Music {
        Music {
            path: e.path,
            title: e.title,
            avg_db: e.avg_db,
            base_bias: e.base_bias,
            user_boost: e.user_boost,
            fatigue: e.fatigue,
            diversity: e.diversity,
        }
    }
}

/// The views of a sequence of musics.
pub open spec fn music_views(s: Seq<Music>) -> Seq<MusicView> {
    Seq::new(s.len(), |i: int| s[i]@)
}

/// A copy of a list of musics.
pub fn copy_musics(v: &Vec<Music>) -> (r: Vec<Music>)
    ensures
        music_views(r@) == music_views(v@),
{
    let mut r: Vec<Music> = Vec::new();
    let mut i: usize = 0;
    while i < v.len()
        invariant
            i <= v.len(),
            r@.len() == i,
            forall|j: int| 0 <= j < i ==> (#[trigger] r@[j])@ == v@[j]@,
        decreases v.len() - i,
    {
        r.push(v[i].copy());
        i += 1;
    }
    assert(music_views(r@) =~= music_views(v@));
    r
}

/// What an entry was made from.
#[derive(Debug, Clone, Copy, PartialEq, Eq, Structural)]
pub enum EntryType {
    Local,
    WebList,
    WebVideo,
    Unknown,
}

/// An ingestion unit of a collection, with its musics. Its name is its
/// identity.
#[derive(Debug)]
pub struct Entry {
    pub path: Option<String>,
    pub name: String,
    pub musics: Vec<Music>,
    pub avg_db: Option<i32>,
    pub url: Option<String>,
    pub downloaded_ok: Option<bool>,
    pub tracking: Option<bool>,
    pub entry_type: EntryType,
}

/// The row of an entry in the store: the entry without its musics.
#[derive(Debug)]
pub struct DbEntry {
    pub id: RecordKey,
    pub path: Option<String>,
    pub name: String,
    pub avg_db: Option<i32>,
    pub url: Option<String>,
    pub downloaded_ok: Option<bool>,
    pub tracking: Option<bool>,
    pub entry_type: EntryType,
}

/// What an entry's row holds, by its text.
pub struct RowView {
    pub name: Seq<char>,
    pub path: Option<Seq<char>>,
    pub avg_db: Option<i32>,
    pub url: Option<Seq<char>>,
    pub downloaded_ok: Option<bool>,
    pub tracking: Option<bool>,
    pub entry_type: EntryType,
}

impl Entry {
    /// What the entry's row holds: the entry without its musics, which
    /// the store keeps as rows of their own (see `entry_view` of the store).
    pub open spec fn row(self) -> RowView {
        RowView {
            name: self.name@,
            path: opt_text(self.path),
            avg_db: self.avg_db,
            url: opt_text(self.url),
            downloaded_ok: self.downloaded_ok,
            tracking: self.tracking,
            entry_type: self.entry_type,
        }
    }
}

impl DbEntry {
    /// What the row holds. The row's identity adds nothing to it: by
    /// `keyed` it is the name again.
    pub open spec fn row(self) -> RowView {
        RowView {
            name: self.name@,
            path: opt_text(self.path),
            avg_db: self.avg_db,
            url: opt_text(self.url),
            downloaded_ok: self.downloaded_ok,
            tracking: self.tracking,
            entry_type: self.entry_type,
        }
    }

    /// The row's identity is the one derived from its name.
    pub open spec fn keyed(self) -> bool {
        self.id@ == (KeyView { table: Table::Entry, key: self.name@ })
    }

    /// Whether the row's identity is the one derived from its name.
    pub fn is_keyed(&self) -> (b: bool)
        ensures
            b == self.keyed(),
    {
        self.id.same(&crate::table::record_id_for(Table::Entry, self.name.as_str()))
    }

    /// A copy with the same values.
    pub fn copy(&self) -> (r: DbEntry)
        ensures
            r.row() == self.row(),
            r.id@ == self.id@,
    {
        DbEntry {
            id: self.id.copy(),
            path: clone_opt_text(&self.path),
            name: self.name.clone(),
            avg_db: self.avg_db,
            url: clone_opt_text(&self.url),
            downloaded_ok: self.downloaded_ok,
            tracking: self.tracking,
            entry_type: self.entry_type,
        }
    }
}

impl From<Entry> for DbEntry {
    fn from(e: Entry) -> (r: DbEntry) {
        DbEntry {
            id: RecordKey { table: Table::Entry, key: e.name.clone() },
            path: e.path,
            name: e.name,
            avg_db: e.avg_db,
            url: e.url,
            downloaded_ok: e.downloaded_ok,
            tracking: e.tracking,
            entry_type: e.entry_type,
        }
    }
}

impl FromSpecImpl<Entry> for DbEntry {
    open spec fn obeys_from_spec() -> bool {
        true
    }

    /// The row of an entry: the entry's values, its musics apart, under the
    /// identity derived from its name.
    open spec fn from_spec(e: Entry) -> DbEntry {
        DbEntry {
            id: RecordKey { table: Table::Entry, key: e.name },
            path: e.path,
            name: e.name,
            avg_db: e.avg_db,
            url: e.url,
            downloaded_ok: e.downloaded_ok,
            tracking: e.tracking,
            entry_type: e.entry_type,
        }
    }
}

/// A user-named playlist and the musics it leaves out.
#[derive(Debug)]
pub struct Collection {
    pub name: String,
    pub exclude: Vec<Music>,
}

/// The read model: a collection joined with its entries and their musics.
#[derive(Debug)]
pub struct Playlist {
    pub name: String,
    pub avg_db: Option<i32>,
    pub entries: Vec<Entry>,
    pub exclude: Vec<Music>,
}

/// A local folder of a mission, with the audio files found in it.
#[derive(Debug)]
pub struct FolderSample {
    pub path: String,
    pub items: Vec<String>,
}

/// Whether a link could be probed when the mission was made.
#[derive(Debug, Clone, Copy, PartialEq, Eq, Structural)]
pub enum LinkStatus {
    /// The probe answered.
    Reached,
    /// The probe failed.
    Unreached,
}

/// A web link of a mission.
#[derive(Debug)]
pub struct LinkSample {
    pub url: String,
    pub title_or_msg: String,
    pub entry_type: EntryType,
    pub count: Option<u32>,
    pub status: Option<LinkStatus>,
    pub tracking: bool,
}

/// What the user asks for: a collection with folders and links to ingest,
/// the entries it is to hold and the musics it leaves out.
#[derive(Debug)]
pub struct CollectMission {
    pub name: String,
    pub folders: Vec<FolderSample>,
    pub links: Vec<LinkSample>,
    pub entries: Vec<Entry>,
    pub exclude: Vec<Music>,
}

/// The scoring values of a music within one collection.
#[derive(Debug)]
pub struct MusicCtx {
    pub collection: RecordKey,
    pub base_bias: i32,
    pub user_boost: i32,
    pub fatigue: i32,
    pub diversity: i32,
}

/// What the queue hands on when a download is done.
#[derive(Debug)]
pub struct DownloadAnswer {
    pub path: Location,
    pub name: String,
    pub playlist: String,
}

impl From<ProcessResult> for DownloadAnswer {
    fn from(d: ProcessResult) -> (r: DownloadAnswer) {
        DownloadAnswer { path: d.saved_path, name: d.name, playlist: d.playlist }
    }
}

impl FromSpecImpl<ProcessResult> for DownloadAnswer {
    open spec fn obeys_from_spec() -> bool {
        true
    }

    /// The answer names what was saved, under the node's title and label.
    open spec fn from_spec(d: ProcessResult) -> DownloadAnswer {
        DownloadAnswer { path: d.saved_path, name: d.name, playlist: d.playlist }
    }
}

impl LinkSample {
    /// The pipeline node that is queued for this link: not yet probed,
    /// under the link's URL and title and the given label.
    pub fn into_ytdlp_entry(self, playlist: String) -> (e: crate::pipeline::Entry)
        ensures
            is_unprobed(e, e.id, self.url@, self.title_or_msg@),
            e.playlist == playlist,
            e.error is None,
    {
        crate::pipeline::Entry {
            id: fresh_id(),
            url: self.url,
            playlist,
            title: self.title_or_msg,
            retries: 0,
            error: None,
            kind: None,
        }
    }
}

impl Entry {
    /// The pipeline node that is queued for this entry: not yet probed,
    /// under the entry's URL (empty where it has none) and name and the
    /// given label.
    pub fn into_ytdlp_entry(self, playlist: String) -> (e: crate::pipeline::Entry)
        ensures
            is_unprobed(e, e.id, crate::probe::text_or_empty(self.url), self.name@),
            e.playlist == playlist,
            e.error is None,
    {
        let url = match self.url {
            Some(u) => u,
            None => String::new(),
        };
        crate::pipeline::Entry {
            id: fresh_id(),
            url,
            playlist,
            title: self.name,
            retries: 0,
            error: None,
            kind: None,
        }
    }
}

} // verus!
