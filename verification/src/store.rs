//! The graph store in memory: rows and edges in vectors, searched by
//! key. Every operation does to the vectors what the step of the same name
//! does to the graph as a mathematical value.

use vstd::prelude::*;
use crate::errors::ErrorKind;
use crate::graph::{
    averaged, by_ends, by_entry_name, by_name, by_path, downloaded, excluding, from_not, joins,
    lemma_targets, levels_of, renamed, replaced_by, repointed, sources, targets, to_not,
    view_levels, CollectionView, EntryView, GraphView, Link, PlaylistView,
};
use crate::loudness::{entry_average, entry_levels, music_average, music_levels};
use crate::graph_laws::{
    lemma_create_collection_wf, lemma_delete_collection_wf, lemma_delete_music_wf,
    lemma_insert_entry_wf, lemma_insert_music_wf, lemma_patch_entry_wf,
    lemma_refresh_average_wf, lemma_relate_wf, lemma_rename_collection_wf, lemma_set_exclude_wf,
    lemma_unrelate_wf, lemma_update_music_wf,
};
use crate::journal::clone_opt_text;
use crate::model::{
    copy_musics, music_views, Collection, DbEntry, DbMusic, Entry, Music, MusicView, Playlist,
    RowView,
};
use crate::pipeline::texts;
use crate::plan::{rows_keyed, step_views, Step};
use crate::seqs::{
    has_key, lemma_filter_step, lemma_with_changed_absent, lemma_with_changed_at,
    lemma_without_key_absent, lemma_without_key_removes,
};
use crate::table::{record_id_for, KeyView, RecordKey, Rel, Table};
use crate::text::same_text;

verus! {

/// An edge of the store, by the keys of its ends.
#[derive(Debug)]
pub struct Edge {
    pub from: String,
    pub to: String,
}

impl View for Edge {
    type V = Link;

    open spec fn view(&self) -> Link {
        Link { from: self.from@, to: self.to@ }
    }
}

/// The views of a sequence of collections.
pub open spec fn collection_views(s: Seq<Collection>) -> Seq<CollectionView> {
    Seq::new(s.len(), |i: int| s[i]@)
}

/// What a sequence of entry rows holds.
pub open spec fn row_views(s: Seq<DbEntry>) -> Seq<RowView> {
    Seq::new(s.len(), |i: int| s[i].row())
}

/// What a sequence of music rows holds.
pub open spec fn stored_musics(s: Seq<DbMusic>) -> Seq<MusicView> {
    Seq::new(s.len(), |i: int| s[i].music())
}

/// The views of a sequence of edges.
pub open spec fn links(s: Seq<Edge>) -> Seq<Link> {
    Seq::new(s.len(), |i: int| s[i]@)
}

/// An entry with its musics, by its text.
pub open spec fn entry_view(e: Entry) -> EntryView {
    EntryView { row: e.row(), musics: music_views(e.musics@) }
}

/// The views of a sequence of entries.
pub open spec fn entry_views(s: Seq<Entry>) -> Seq<EntryView> {
    Seq::new(s.len(), |i: int| entry_view(s[i]))
}

/// A playlist, by its text.
pub open spec fn playlist_view(p: Playlist) -> PlaylistView {
    PlaylistView {
        name: p.name@,
        avg_db: p.avg_db,
        entries: entry_views(p.entries@),
        exclude: music_views(p.exclude@),
    }
}

/// The graph store.
#[derive(Debug)]
pub struct Graph {
    collections: Vec<Collection>,
    entries: Vec<DbEntry>,
    musics: Vec<DbMusic>,
    collect: Vec<Edge>,
    has_music: Vec<Edge>,
}

impl View for Graph {
    type V = GraphView;

    closed spec fn view(&self) -> GraphView {
        GraphView {
            collections: collection_views(self.collections@),
            entries: row_views(self.entries@),
            musics: stored_musics(self.musics@),
            collect: links(self.collect@),
            has_music: links(self.has_music@),
        }
    }
}

fn find_edge(edges: &Vec<Edge>, from: &str, to: &str) -> (r: Option<usize>)
    ensures
        match r {
            Some(i) => i < edges@.len() && edges@[i as int]@ == (Link { from: from@, to: to@ }),
            None => !has_key(links(edges@), by_ends(), Link { from: from@, to: to@ }),
        },
{
    let mut i: usize = 0;
    while i < edges.len()
        invariant
            i <= edges.len(),
            forall|j: int| 0 <= j < i ==> links(edges@)[j] != (Link { from: from@, to: to@ }),
        decreases edges.len() - i,
    {
        if same_text(edges[i].from.as_str(), from) && same_text(edges[i].to.as_str(), to) {
            return Some(i);
        }
        i += 1;
    }
    proof {
        let l = Link { from: from@, to: to@ };
        if has_key(links(edges@), by_ends(), l) {
            let j = choose|j: int|
                0 <= j < links(edges@).len() && #[trigger] by_ends()(links(edges@)[j]) == l;
            assert(links(edges@)[j] == l);
        }
    }
    None
}

fn edges_from_not(edges: &Vec<Edge>, name: &str) -> (kept: Vec<Edge>)
    ensures
        links(kept@) == links(edges@).filter(from_not(name@)),
{
    let ghost p = from_not(name@);
    let ghost all = links(edges@);
    let mut kept: Vec<Edge> = Vec::new();
    let mut i: usize = 0;
    proof {
        reveal(Seq::filter);
        assert(all.take(0).filter(p) =~= links(kept@));
    }
    while i < edges.len()
        invariant
            i <= edges.len(),
            p == from_not(name@),
            all == links(edges@),
            links(kept@) == all.take(i as int).filter(p),
        decreases edges.len() - i,
    {
        proof {
            lemma_filter_step(all, p, i as int);
        }
        if !same_text(edges[i].from.as_str(), name) {
            kept.push(Edge { from: edges[i].from.clone(), to: edges[i].to.clone() });
            assert(links(kept@) =~= all.take(i as int).filter(p).push(all[i as int]));
        }
        i += 1;
    }
    assert(all.take(all.len() as int) =~= all);
    kept
}

fn edges_to_not(edges: &Vec<Edge>, name: &str) -> (kept: Vec<Edge>)
    ensures
        links(kept@) == links(edges@).filter(to_not(name@)),
{
    let ghost p = to_not(name@);
    let ghost all = links(edges@);
    let mut kept: Vec<Edge> = Vec::new();
    let mut i: usize = 0;
    proof {
        reveal(Seq::filter);
        assert(all.take(0).filter(p) =~= links(kept@));
    }
    while i < edges.len()
        invariant
            i <= edges.len(),
            p == to_not(name@),
            all == links(edges@),
            links(kept@) == all.take(i as int).filter(p),
        decreases edges.len() - i,
    {
        proof {
            lemma_filter_step(all, p, i as int);
        }
        if !same_text(edges[i].to.as_str(), name) {
            kept.push(Edge { from: edges[i].from.clone(), to: edges[i].to.clone() });
            assert(links(kept@) =~= all.take(i as int).filter(p).push(all[i as int]));
        }
        i += 1;
    }
    assert(all.take(all.len() as int) =~= all);
    kept
}

fn edges_repointed(edges: &Vec<Edge>, from: &str, to: &str) -> (out: Vec<Edge>)
    ensures
        links(out@) == repointed(links(edges@), from@, to@),
{
    let mut out: Vec<Edge> = Vec::new();
    let mut i: usize = 0;
    while i < edges.len()
        invariant
            i <= edges.len(),
            out@.len() == i,
            forall|j: int|
                0 <= j < i ==> (#[trigger] out@[j])@ == repointed(links(edges@), from@, to@)[j],
        decreases edges.len() - i,
    {
        if same_text(edges[i].from.as_str(), from) {
            out.push(Edge { from: to.to_owned(), to: edges[i].to.clone() });
        } else {
            out.push(Edge { from: edges[i].from.clone(), to: edges[i].to.clone() });
        }
        i += 1;
    }
    assert(links(out@) =~= repointed(links(edges@), from@, to@));
    out
}

fn ends_of(edges: &Vec<Edge>, from: &str) -> (out: Vec<String>)
    ensures
        texts(out@) == targets(links(edges@), from@, edges@.len() as int),
{
    let mut out: Vec<String> = Vec::new();
    let mut i: usize = 0;
    assert(texts(out@) =~= targets(links(edges@), from@, 0));
    while i < edges.len()
        invariant
            i <= edges.len(),
            texts(out@) == targets(links(edges@), from@, i as int),
        decreases edges.len() - i,
    {
        if same_text(edges[i].from.as_str(), from) {
            out.push(edges[i].to.clone());
            assert(texts(out@) =~= targets(links(edges@), from@, i as int).push(edges@[i as int].to@));
        }
        i += 1;
    }
    out
}

fn starts_of(edges: &Vec<Edge>, to: &str) -> (out: Vec<String>)
    ensures
        texts(out@) == sources(links(edges@), to@, edges@.len() as int),
{
    let mut out: Vec<String> = Vec::new();
    let mut i: usize = 0;
    assert(texts(out@) =~= sources(links(edges@), to@, 0));
    while i < edges.len()
        invariant
            i <= edges.len(),
            texts(out@) == sources(links(edges@), to@, i as int),
        decreases edges.len() - i,
    {
        if same_text(edges[i].to.as_str(), to) {
            out.push(edges[i].from.clone());
            assert(texts(out@) =~= sources(links(edges@), to@, i as int).push(
                edges@[i as int].from@,
            ));
        }
        i += 1;
    }
    out
}

impl Graph {
    /// The identities of the rows of the entries, in the rows' order.
    pub closed spec fn entry_ids(&self) -> Seq<KeyView> {
        Seq::new(self.entries@.len(), |i: int| self.entries@[i].id@)
    }

    /// The identities of the rows of the musics, in the rows' order.
    pub closed spec fn music_ids(&self) -> Seq<KeyView> {
        Seq::new(self.musics@.len(), |i: int| self.musics@[i].id@)
    }

    /// Every row carries the identity derived from its key: an entry from
    /// its name, a music from its path.
    pub open spec fn keyed(&self) -> bool {
        &&& self.entry_ids().len() == self@.entries.len()
        &&& self.music_ids().len() == self@.musics.len()
        &&& forall|i: int|
            0 <= i < self@.entries.len() ==> #[trigger] self.entry_ids()[i] == (KeyView {
                table: Table::Entry,
                key: self@.entries[i].name,
            })
        &&& forall|i: int|
            0 <= i < self@.musics.len() ==> #[trigger] self.music_ids()[i] == (KeyView {
                table: Table::Music,
                key: self@.musics[i].path,
            })
    }

    /// What every graph that the store can come to satisfies: at most one
    /// row per key, each under the identity derived from its key, at most
    /// one edge per pair of ends, no edge dangling.
    pub open spec fn inv(&self) -> bool {
        self@.wf() && self.keyed()
    }

    /// A store is never in another state.
    pub proof fn lemma_inv(&self)
        requires
            self.inv(),
        ensures
            self@.unique(),
            self@.closed(),
            self.keyed(),
    {
    }

    proof fn lemma_rows_keyed(&self)
        requires
            self.keyed(),
        ensures
            forall|i: int| 0 <= i < self.entries@.len() ==> (#[trigger] self.entries@[i]).keyed(),
            forall|i: int| 0 <= i < self.musics@.len() ==> (#[trigger] self.musics@[i]).keyed(),
    {
        assert forall|i: int| 0 <= i < self.entries@.len() implies (
        #[trigger] self.entries@[i]).keyed() by {
            assert(self.entry_ids()[i] == self.entries@[i].id@);
            assert(self@.entries[i].name == self.entries@[i].name@);
        }
        assert forall|i: int| 0 <= i < self.musics@.len() implies (
        #[trigger] self.musics@[i]).keyed() by {
            assert(self.music_ids()[i] == self.musics@[i].id@);
            assert(self@.musics[i].path == self.musics@[i].path@);
        }
    }

    proof fn lemma_keyed_rows(&self)
        requires
            forall|i: int| 0 <= i < self.entries@.len() ==> (#[trigger] self.entries@[i]).keyed(),
            forall|i: int| 0 <= i < self.musics@.len() ==> (#[trigger] self.musics@[i]).keyed(),
        ensures
            self.keyed(),
    {
        assert forall|i: int| 0 <= i < self@.entries.len() implies #[trigger] self.entry_ids()[i]
            == (KeyView { table: Table::Entry, key: self@.entries[i].name }) by {
            assert(self.entries@[i].keyed());
        }
        assert forall|i: int| 0 <= i < self@.musics.len() implies #[trigger] self.music_ids()[i]
            == (KeyView { table: Table::Music, key: self@.musics[i].path }) by {
            assert(self.musics@[i].keyed());
        }
    }

    /// The empty store.
    pub fn new() -> (g: Graph)
        ensures
            g@ == GraphView::empty(),
            g.inv(),
    {
        let g = Graph {
            collections: Vec::new(),
            entries: Vec::new(),
            musics: Vec::new(),
            collect: Vec::new(),
            has_music: Vec::new(),
        };
        assert(g@.collections =~= GraphView::empty().collections);
        assert(g@.entries =~= GraphView::empty().entries);
        assert(g@.musics =~= GraphView::empty().musics);
        assert(g@.collect =~= GraphView::empty().collect);
        assert(g@.has_music =~= GraphView::empty().has_music);
        g
    }

    fn find_collection(&self, name: &str) -> (r: Option<usize>)
        ensures
            match r {
                Some(i) => i < self.collections@.len() && self.collections@[i as int].name@
                    == name@,
                None => !self@.has_collection(name@),
            },
    {
        let mut i: usize = 0;
        while i < self.collections.len()
            invariant
                i <= self.collections.len(),
                forall|j: int| 0 <= j < i ==> self.collections@[j].name@ != name@,
            decreases self.collections.len() - i,
        {
            if same_text(self.collections[i].name.as_str(), name) {
                return Some(i);
            }
            i += 1;
        }
        proof {
            if self@.has_collection(name@) {
                let j = choose|j: int|
                    0 <= j < self@.collections.len() && #[trigger] by_name()(self@.collections[j])
                        == name@;
                assert(self.collections@[j].name@ == name@);
            }
        }
        None
    }

    fn find_entry(&self, name: &str) -> (r: Option<usize>)
        ensures
            match r {
                Some(i) => i < self.entries@.len() && self.entries@[i as int].name@ == name@,
                None => !self@.has_entry(name@),
            },
    {
        let mut i: usize = 0;
        while i < self.entries.len()
            invariant
                i <= self.entries.len(),
                forall|j: int| 0 <= j < i ==> self.entries@[j].name@ != name@,
            decreases self.entries.len() - i,
        {
            if same_text(self.entries[i].name.as_str(), name) {
                return Some(i);
            }
            i += 1;
        }
        proof {
            if self@.has_entry(name@) {
                let j = choose|j: int|
                    0 <= j < self@.entries.len() && #[trigger] by_entry_name()(self@.entries[j])
                        == name@;
                assert(self.entries@[j].name@ == name@);
            }
        }
        None
    }

    fn find_music(&self, path: &str) -> (r: Option<usize>)
        ensures
            match r {
                Some(i) => i < self.musics@.len() && self.musics@[i as int].path@ == path@,
                None => !self@.has_music_row(path@),
            },
    {
        let mut i: usize = 0;
        while i < self.musics.len()
            invariant
                i <= self.musics.len(),
                forall|j: int| 0 <= j < i ==> self.musics@[j].path@ != path@,
            decreases self.musics.len() - i,
        {
            if same_text(self.musics[i].path.as_str(), path) {
                return Some(i);
            }
            i += 1;
        }
        proof {
            if self@.has_music_row(path@) {
                let j = choose|j: int|
                    0 <= j < self@.musics.len() && #[trigger] by_path()(self@.musics[j]) == path@;
                assert(self.musics@[j].path@ == path@);
            }
        }
        None
    }

    /// Whether the store holds a collection of that name.
    pub fn has_collection(&self, name: &str) -> (b: bool)
        ensures
            b == self@.has_collection(name@),
    {
        match self.find_collection(name) {
            Some(i) => {
                assert(by_name()(self@.collections[i as int]) == name@);
                true
            },
            None => false,
        }
    }

    /// Whether the store holds an entry of that name.
    pub fn has_entry(&self, name: &str) -> (b: bool)
        ensures
            b == self@.has_entry(name@),
    {
        match self.find_entry(name) {
            Some(i) => {
                assert(by_entry_name()(self@.entries[i as int]) == name@);
                true
            },
            None => false,
        }
    }

    /// Whether the store holds a music of that path.
    pub fn has_music(&self, path: &str) -> (b: bool)
        ensures
            b == self@.has_music_row(path@),
    {
        match self.find_music(path) {
            Some(i) => {
                assert(by_path()(self@.musics[i as int]) == path@);
                true
            },
            None => false,
        }
    }

    /// Writes a new collection. Where one of that name is there, nothing
    /// is written and the answer is `false`.
    pub fn create_collection(&mut self, c: Collection) -> (created: bool)
        requires
            old(self).inv(),
        ensures
            final(self)@ == old(self)@.create_collection(c@),
            created == !old(self)@.has_collection(c.name@),
            final(self).inv(),
    {
        proof {
            lemma_create_collection_wf(self@, c@);
        }
        if self.has_collection(c.name.as_str()) {
            false
        } else {
            self.collections.push(c);
            assert(self@.collections =~= old(self)@.collections.push(c@));
            true
        }
    }

    /// Upsert-ignore of an entry: one of that name is left as it is.
    pub fn insert_entry(&mut self, row: DbEntry)
        requires
            old(self).inv(),
            row.keyed(),
        ensures
            final(self)@ == old(self)@.insert_entry(row.row()),
            final(self).inv(),
    {
        proof {
            self.lemma_rows_keyed();
        }
        proof {
            lemma_insert_entry_wf(self@, row.row());
        }
        if !self.has_entry(row.name.as_str()) {
            self.entries.push(row);
            assert(self@.entries =~= old(self)@.entries.push(row.row()));
        }
        proof {
            self.lemma_keyed_rows();
        }
    }

    /// Upsert-ignore of a music: one of that path is left as it is.
    pub fn insert_music(&mut self, row: DbMusic)
        requires
            old(self).inv(),
            row.keyed(),
        ensures
            final(self)@ == old(self)@.insert_music(row.music()),
            final(self).inv(),
    {
        proof {
            self.lemma_rows_keyed();
        }
        proof {
            lemma_insert_music_wf(self@, row.music());
        }
        if !self.has_music(row.path.as_str()) {
            self.musics.push(row);
            assert(self@.musics =~= old(self)@.musics.push(row.music()));
        }
        proof {
            self.lemma_keyed_rows();
        }
    }

    /// Writes a music's values over the music of its path, or adds the
    /// music where the store holds none of that path.
    pub fn update_music(&mut self, row: DbMusic)
        requires
            old(self).inv(),
            row.keyed(),
        ensures
            final(self)@ == old(self)@.update_music(row.music()),
            final(self).inv(),
    {
        proof {
            self.lemma_rows_keyed();
        }
        proof {
            lemma_update_music_wf(self@, row.music());
        }
        match self.find_music(row.path.as_str()) {
            Some(i) => {
                proof {
                    assert(by_path()(self@.musics[i as int]) == row.path@);
                    lemma_with_changed_at(
                        self@.musics,
                        by_path(),
                        i as int,
                        replaced_by(row.music()),
                    );
                }
                self.musics.set(i, row);
                assert(self@.musics =~= old(self)@.musics.update(i as int, row.music()));
            },
            None => {
                self.musics.push(row);
                assert(self@.musics =~= old(self)@.musics.push(row.music()));
            },
        }
        proof {
            self.lemma_keyed_rows();
        }
    }

    /// Marks an entry as downloaded, at the given path and with the given
    /// average loudness. Nothing happens where there is no such entry.
    pub fn patch_entry(&mut self, name: &str, avg_db: Option<i32>, path: &str)
        requires
            old(self).inv(),
        ensures
            final(self)@ == old(self)@.patch_entry(name@, avg_db, path@),
            final(self).inv(),
    {
        proof {
            self.lemma_rows_keyed();
        }
        proof {
            lemma_patch_entry_wf(self@, name@, avg_db, path@);
        }
        match self.find_entry(name) {
            Some(i) => {
                let row = DbEntry {
                    id: self.entries[i].id.copy(),
                    path: Some(path.to_owned()),
                    name: self.entries[i].name.clone(),
                    avg_db,
                    url: clone_opt_text(&self.entries[i].url),
                    downloaded_ok: Some(true),
                    tracking: self.entries[i].tracking,
                    entry_type: self.entries[i].entry_type,
                };
                proof {
                    assert(by_entry_name()(self@.entries[i as int]) == name@);
                    lemma_with_changed_at(
                        self@.entries,
                        by_entry_name(),
                        i as int,
                        downloaded(avg_db, path@),
                    );
                    assert(row.row() == downloaded(avg_db, path@)(self@.entries[i as int]));
                }
                self.entries.set(i, row);
                assert(self@.entries =~= old(self)@.entries.update(i as int, row.row()));
            },
            None => {
                proof {
                    lemma_with_changed_absent(
                        self@.entries,
                        by_entry_name(),
                        name@,
                        downloaded(avg_db, path@),
                    );
                }
            },
        }
        proof {
            self.lemma_keyed_rows();
        }
    }

    /// Writes over an entry's average loudness the mean of the known
    /// loudnesses of the musics linked to it. Nothing happens where there
    /// is no such entry.
    pub fn refresh_average(&mut self, name: &str)
        requires
            old(self).inv(),
        ensures
            final(self)@ == old(self)@.refresh_average(name@),
            final(self).inv(),
    {
        proof {
            self.lemma_rows_keyed();
        }
        proof {
            lemma_refresh_average_wf(self@, name@);
        }
        match self.find_entry(name) {
            Some(i) => {
                let musics = self.musics_of(name);
                let avg_db = music_average(&musics);
                assert(music_levels(musics@) =~= levels_of(music_views(musics@)));
                let row = DbEntry {
                    id: self.entries[i].id.copy(),
                    path: clone_opt_text(&self.entries[i].path),
                    name: self.entries[i].name.clone(),
                    avg_db,
                    url: clone_opt_text(&self.entries[i].url),
                    downloaded_ok: self.entries[i].downloaded_ok,
                    tracking: self.entries[i].tracking,
                    entry_type: self.entries[i].entry_type,
                };
                proof {
                    assert(by_entry_name()(self@.entries[i as int]) == name@);
                    lemma_with_changed_at(
                        self@.entries,
                        by_entry_name(),
                        i as int,
                        averaged(avg_db),
                    );
                    assert(row.row() == averaged(avg_db)(self@.entries[i as int]));
                }
                self.entries.set(i, row);
                assert(self@.entries =~= old(self)@.entries.update(i as int, row.row()));
            },
            None => {
                proof {
                    lemma_with_changed_absent(
                        self@.entries,
                        by_entry_name(),
                        name@,
                        averaged(self@.entry_mean(name@)),
                    );
                }
            },
        }
        proof {
            self.lemma_keyed_rows();
        }
    }

    /// Rewrites a collection's exclude list. Nothing happens where there
    /// is no such collection.
    pub fn set_exclude(&mut self, name: &str, exclude: Vec<Music>)
        requires
            old(self).inv(),
        ensures
            final(self)@ == old(self)@.set_exclude(name@, music_views(exclude@)),
            final(self).inv(),
    {
        proof {
            lemma_set_exclude_wf(self@, name@, music_views(exclude@));
        }
        match self.find_collection(name) {
            Some(i) => {
                let c = Collection { name: self.collections[i].name.clone(), exclude };
                proof {
                    assert(by_name()(self@.collections[i as int]) == name@);
                    lemma_with_changed_at(
                        self@.collections,
                        by_name(),
                        i as int,
                        excluding(music_views(exclude@)),
                    );
                    assert(c@ == excluding(music_views(exclude@))(self@.collections[i as int]));
                }
                self.collections.set(i, c);
                assert(self@.collections =~= old(self)@.collections.update(i as int, c@));
            },
            None => {
                proof {
                    lemma_with_changed_absent(
                        self@.collections,
                        by_name(),
                        name@,
                        excluding(music_views(exclude@)),
                    );
                }
            },
        }
    }

    /// Gives a collection a new name; its edges follow. Nothing happens,
    /// and the answer is `false`, where there is no such collection or the
    /// new name is taken.
    pub fn rename_collection(&mut self, from: &str, to: &str) -> (renamed_it: bool)
        requires
            old(self).inv(),
        ensures
            final(self)@ == old(self)@.rename_collection(from@, to@),
            renamed_it == (old(self)@.has_collection(from@) && !old(self)@.has_collection(to@)),
            final(self).inv(),
    {
        proof {
            lemma_rename_collection_wf(self@, from@, to@);
        }
        if self.has_collection(to) {
            return false;
        }
        match self.find_collection(from) {
            Some(i) => {
                let c = Collection {
                    name: to.to_owned(),
                    exclude: copy_musics(&self.collections[i].exclude),
                };
                proof {
                    assert(by_name()(self@.collections[i as int]) == from@);
                    lemma_with_changed_at(self@.collections, by_name(), i as int, renamed(to@));
                    assert(c@ == renamed(to@)(self@.collections[i as int]));
                }
                self.collections.set(i, c);
                assert(self@.collections =~= old(self)@.collections.update(i as int, c@));
                self.collect = edges_repointed(&self.collect, from, to);
                true
            },
            None => false,
        }
    }

    /// Deletes a collection and its `collect` edges. Its entries and
    /// musics stay.
    pub fn delete_collection(&mut self, name: &str)
        requires
            old(self).inv(),
        ensures
            final(self)@ == old(self)@.delete_collection(name@),
            final(self)@.entries == old(self)@.entries,
            final(self)@.musics == old(self)@.musics,
            final(self)@.has_music == old(self)@.has_music,
            final(self).inv(),
    {
        proof {
            lemma_delete_collection_wf(self@, name@);
        }
        match self.find_collection(name) {
            Some(i) => {
                proof {
                    assert(by_name()(self@.collections[i as int]) == name@);
                    lemma_without_key_removes(self@.collections, by_name(), i as int);
                }
                self.collections.remove(i);
                assert(self@.collections =~= old(self)@.collections.remove(i as int));
            },
            None => {
                proof {
                    lemma_without_key_absent(self@.collections, by_name(), name@);
                }
            },
        }
        self.collect = edges_from_not(&self.collect, name);
    }

    /// Deletes a music and the edges that lead to it.
    pub fn delete_music(&mut self, path: &str)
        requires
            old(self).inv(),
        ensures
            final(self)@ == old(self)@.delete_music(path@),
            final(self).inv(),
    {
        proof {
            self.lemma_rows_keyed();
        }
        proof {
            lemma_delete_music_wf(self@, path@);
        }
        match self.find_music(path) {
            Some(i) => {
                proof {
                    assert(by_path()(self@.musics[i as int]) == path@);
                    lemma_without_key_removes(self@.musics, by_path(), i as int);
                }
                self.musics.remove(i);
                assert(self@.musics =~= old(self)@.musics.remove(i as int));
            },
            None => {
                proof {
                    lemma_without_key_absent(self@.musics, by_path(), path@);
                }
            },
        }
        self.has_music = edges_to_not(&self.has_music, path);
        proof {
            self.lemma_keyed_rows();
        }
    }

    /// Lays an edge, unless it is there. An edge whose ends are not both
    /// there, in the tables that the kind asks for, is refused: the answer
    /// is `false` and nothing is written.
    pub fn relate(&mut self, kind: Rel, from: &str, to: &str) -> (accepted: bool)
        requires
            old(self).inv(),
        ensures
            final(self)@ == old(self)@.relate(kind, Link { from: from@, to: to@ }),
            accepted == old(self)@.relatable(kind, Link { from: from@, to: to@ }),
            final(self).inv(),
    {
        let ghost link = Link { from: from@, to: to@ };
        proof {
            lemma_relate_wf(self@, kind, link);
        }
        match kind {
            Rel::Collect => {
                if self.has_collection(from) && self.has_entry(to) {
                    match find_edge(&self.collect, from, to) {
                        Some(i) => {
                            assert(by_ends()(self@.collect[i as int]) == link);
                        },
                        None => {
                            self.collect.push(Edge { from: from.to_owned(), to: to.to_owned() });
                            assert(self@.collect =~= old(self)@.collect.push(link));
                        },
                    }
                    true
                } else {
                    false
                }
            },
            Rel::HasMusic => {
                if self.has_entry(from) && self.has_music(to) {
                    match find_edge(&self.has_music, from, to) {
                        Some(i) => {
                            assert(by_ends()(self@.has_music[i as int]) == link);
                        },
                        None => {
                            self.has_music.push(Edge { from: from.to_owned(), to: to.to_owned() });
                            assert(self@.has_music =~= old(self)@.has_music.push(link));
                        },
                    }
                    true
                } else {
                    false
                }
            },
            Rel::SignIn => false,
        }
    }

    /// Takes an edge away.
    pub fn unrelate(&mut self, kind: Rel, from: &str, to: &str)
        requires
            old(self).inv(),
        ensures
            final(self)@ == old(self)@.unrelate(kind, Link { from: from@, to: to@ }),
            final(self).inv(),
    {
        let ghost link = Link { from: from@, to: to@ };
        proof {
            lemma_unrelate_wf(self@, kind, link);
        }
        match kind {
            Rel::Collect => {
                match find_edge(&self.collect, from, to) {
                    Some(i) => {
                        proof {
                            assert(by_ends()(self@.collect[i as int]) == link);
                            lemma_without_key_removes(self@.collect, by_ends(), i as int);
                        }
                        self.collect.remove(i);
                        assert(self@.collect =~= old(self)@.collect.remove(i as int));
                    },
                    None => {
                        proof {
                            lemma_without_key_absent(self@.collect, by_ends(), link);
                        }
                    },
                }
            },
            Rel::HasMusic => {
                match find_edge(&self.has_music, from, to) {
                    Some(i) => {
                        proof {
                            assert(by_ends()(self@.has_music[i as int]) == link);
                            lemma_without_key_removes(self@.has_music, by_ends(), i as int);
                        }
                        self.has_music.remove(i);
                        assert(self@.has_music =~= old(self)@.has_music.remove(i as int));
                    },
                    None => {
                        proof {
                            lemma_without_key_absent(self@.has_music, by_ends(), link);
                        }
                    },
                }
            },
            Rel::SignIn => {},
        }
    }

    /// Does one step to the store. A job for the queue changes nothing
    /// here.
    pub fn apply(&mut self, step: &Step)
        requires
            old(self).inv(),
            step.keyed(),
        ensures
            final(self)@ == old(self)@.apply(step@),
            final(self).inv(),
    {
        match step {
            Step::CreateCollection(c) => {
                let copy = Collection { name: c.name.clone(), exclude: copy_musics(&c.exclude) };
                self.create_collection(copy);
            },
            Step::DeleteCollection { name } => {
                self.delete_collection(name.as_str());
            },
            Step::RenameCollection { from, to } => {
                self.rename_collection(from.as_str(), to.as_str());
            },
            Step::SetExclude { collection, exclude } => {
                self.set_exclude(collection.as_str(), copy_musics(exclude));
            },
            Step::InsertEntry(r) => {
                self.insert_entry(r.copy());
            },
            Step::PatchEntry { name, avg_db, path } => {
                self.patch_entry(name.as_str(), *avg_db, path.as_str());
            },
            Step::RefreshAverage { name } => {
                self.refresh_average(name.as_str());
            },
            Step::InsertMusic(m) => {
                self.insert_music(m.copy());
            },
            Step::UpdateMusic(m) => {
                self.update_music(m.copy());
            },
            Step::DeleteMusic { path } => {
                self.delete_music(path.as_str());
            },
            Step::Relate { kind, from, to } => {
                self.relate(*kind, from.as_str(), to.as_str());
            },
            Step::Unrelate { kind, from, to } => {
                self.unrelate(*kind, from.as_str(), to.as_str());
            },
            Step::Enqueue(_) => {},
        }
    }

    /// Does all the steps to the store, in order.
    pub fn run(&mut self, plan: &Vec<Step>)
        requires
            old(self).inv(),
            rows_keyed(plan@),
        ensures
            final(self)@ == old(self)@.run_all(step_views(plan@)),
            final(self).inv(),
    {
        let mut i: usize = 0;
        while i < plan.len()
            invariant
                i <= plan.len(),
                self.inv(),
                rows_keyed(plan@),
                self@ == old(self)@.run(step_views(plan@), i as int),
            decreases plan.len() - i,
        {
            self.apply(&plan[i]);
            i += 1;
        }
    }

    /// The names of the entries that a collection collects, in the order
    /// in which the edges were laid.
    pub fn collected(&self, collection: &str) -> (names: Vec<String>)
        ensures
            texts(names@) == self@.collected(collection@),
    {
        ends_of(&self.collect, collection)
    }

    /// The paths of the musics that an entry has, in the order in which
    /// the edges were laid.
    pub fn music_paths_of(&self, entry: &str) -> (paths: Vec<String>)
        ensures
            texts(paths@) == self@.music_paths_of(entry@),
    {
        ends_of(&self.has_music, entry)
    }

    /// The names of the collections that collect an entry, in the order
    /// in which the edges were laid.
    pub fn collectors_of(&self, entry: &str) -> (names: Vec<String>)
        ensures
            texts(names@) == sources(self@.collect, entry@, self@.collect.len() as int),
    {
        starts_of(&self.collect, entry)
    }

    /// The names of the entries that have a music, in the order in which
    /// the edges were laid.
    pub fn holders_of(&self, path: &str) -> (names: Vec<String>)
        ensures
            texts(names@) == sources(self@.has_music, path@, self@.has_music.len() as int),
    {
        starts_of(&self.has_music, path)
    }

    /// The number of rows and edges: collections, entries, musics,
    /// `collect` edges, `has_music` edges.
    pub fn sizes(&self) -> (n: (usize, usize, usize, usize, usize))
        ensures
            n.0 == self@.collections.len(),
            n.1 == self@.entries.len(),
            n.2 == self@.musics.len(),
            n.3 == self@.collect.len(),
            n.4 == self@.has_music.len(),
    {
        (
            self.collections.len(),
            self.entries.len(),
            self.musics.len(),
            self.collect.len(),
            self.has_music.len(),
        )
    }

    fn musics_of(&self, entry: &str) -> (musics: Vec<Music>)
        requires
            self.inv(),
        ensures
            music_views(musics@) == self@.entry_with_musics(entry@).musics,
    {
        let paths = self.music_paths_of(entry);
        let ghost want = self@.entry_with_musics(entry@).musics;
        let mut musics: Vec<Music> = Vec::new();
        let mut k: usize = 0;
        proof {
            lemma_targets(self@.has_music, entry@, self@.has_music.len() as int);
        }
        while k < paths.len()
            invariant
                k <= paths.len(),
                self.inv(),
                texts(paths@) == self@.music_paths_of(entry@),
                want == self@.entry_with_musics(entry@).musics,
                musics@.len() == k,
                forall|j: int| 0 <= j < k ==> (#[trigger] musics@[j])@ == want[j],
                forall|j: int|
                    0 <= j < paths@.len() ==> joins(
                        self@.has_music,
                        self@.has_music.len() as int,
                        entry@,
                        #[trigger] self@.music_paths_of(entry@)[j],
                    ),
            decreases paths.len() - k,
        {
            let ghost path = texts(paths@)[k as int];
            proof {
                assert(path == self@.music_paths_of(entry@)[k as int]);
                assert(joins(self@.has_music, self@.has_music.len() as int, entry@, path));
                let x = choose|x: int|
                    0 <= x < self@.has_music.len() && #[trigger] self@.has_music[x] == (Link {
                        from: entry@,
                        to: path,
                    });
                assert(self@.has_music_row(self@.has_music[x].to));
            }
            match self.find_music(paths[k].as_str()) {
                Some(i) => {
                    proof {
                        let c = choose|c: int|
                            0 <= c < self@.musics.len() && #[trigger] self@.musics[c].path == path;
                        assert(self@.musics[i as int].path == path);
                        assert(by_path()(self@.musics[c]) == by_path()(self@.musics[i as int]));
                        assert(c == i);
                    }
                    musics.push(Music::from(self.musics[i].copy()));
                },
                None => {
                    // No edge dangles: the music at the end of the edge is there.
                    assert(false);
                },
            }
            k += 1;
        }
        assert(music_views(musics@) =~= want);
        musics
    }

    /// The entry of that name with the musics linked to it; `None` where
    /// the store holds no such entry.
    pub fn entry(&self, name: &str) -> (r: Option<Entry>)
        requires
            self.inv(),
        ensures
            match r {
                Some(e) => self@.has_entry(name@) && entry_view(e) == self@.entry_with_musics(
                    name@,
                ),
                None => !self@.has_entry(name@),
            },
    {
        match self.find_entry(name) {
            Some(i) => {
                proof {
                    assert(by_entry_name()(self@.entries[i as int]) == name@);
                    let c = choose|c: int|
                        0 <= c < self@.entries.len() && #[trigger] self@.entries[c].name == name@;
                    assert(by_entry_name()(self@.entries[c]) == by_entry_name()(
                        self@.entries[i as int],
                    ));
                    assert(c == i);
                }
                let musics = self.musics_of(name);
                let row = self.entries[i].copy();
                Some(
                    Entry {
                        path: row.path,
                        name: row.name,
                        musics,
                        avg_db: row.avg_db,
                        url: row.url,
                        downloaded_ok: row.downloaded_ok,
                        tracking: row.tracking,
                        entry_type: row.entry_type,
                    },
                )
            },
            None => None,
        }
    }

    /// All musics of the store, in the order in which they came.
    pub fn all_musics(&self) -> (rows: Vec<DbMusic>)
        requires
            self.inv(),
        ensures
            stored_musics(rows@) == self@.musics,
            forall|j: int| 0 <= j < rows@.len() ==> (#[trigger] rows@[j]).keyed(),
    {
        proof {
            self.lemma_rows_keyed();
        }
        let mut rows: Vec<DbMusic> = Vec::new();
        let mut i: usize = 0;
        while i < self.musics.len()
            invariant
                i <= self.musics.len(),
                rows@.len() == i,
                forall|j: int| 0 <= j < self.musics@.len() ==> (#[trigger] self.musics@[j]).keyed(),
                forall|j: int| 0 <= j < i ==> (#[trigger] rows@[j]).music() == self.musics@[j].music(),
                forall|j: int| 0 <= j < i ==> (#[trigger] rows@[j]).keyed(),
            decreases self.musics.len() - i,
        {
            rows.push(self.musics[i].copy());
            i += 1;
        }
        assert(stored_musics(rows@) =~= self@.musics);
        rows
    }

    /// The read model of a collection: its entries, in the order in which
    /// they were collected, each with its musics in the order in which they
    /// were linked; as average loudness the mean of the entries' known
    /// averages. A name that no collection has is answered `NotFound`.
    pub fn read(&self, name: &str) -> (r: Result<Playlist, ErrorKind>)
        requires
            self.inv(),
        ensures
            match r {
                Ok(p) => self@.has_collection(name@) && playlist_view(p) == self@.playlist(name@),
                Err(e) => e == ErrorKind::NotFound && !self@.has_collection(name@),
            },
    {
        let ci = match self.find_collection(name) {
            Some(i) => i,
            None => {
                return Err(ErrorKind::NotFound);
            },
        };
        proof {
            assert(by_name()(self@.collections[ci as int]) == name@);
            let c = choose|c: int|
                0 <= c < self@.collections.len() && #[trigger] self@.collections[c].name == name@;
            assert(by_name()(self@.collections[c]) == by_name()(self@.collections[ci as int]));
            assert(c == ci);
            lemma_targets(self@.collect, name@, self@.collect.len() as int);
        }
        let names = self.collected(name);
        let ghost want = self@.playlist(name@).entries;
        let mut entries: Vec<Entry> = Vec::new();
        let mut j: usize = 0;
        while j < names.len()
            invariant
                j <= names.len(),
                self.inv(),
                texts(names@) == self@.collected(name@),
                want == self@.playlist(name@).entries,
                entries@.len() == j,
                forall|m: int| 0 <= m < j ==> entry_view(#[trigger] entries@[m]) == want[m],
                forall|m: int|
                    0 <= m < names@.len() ==> joins(
                        self@.collect,
                        self@.collect.len() as int,
                        name@,
                        #[trigger] self@.collected(name@)[m],
                    ),
            decreases names.len() - j,
        {
            let ghost n = texts(names@)[j as int];
            proof {
                assert(n == self@.collected(name@)[j as int]);
                assert(joins(self@.collect, self@.collect.len() as int, name@, n));
                let x = choose|x: int|
                    0 <= x < self@.collect.len() && #[trigger] self@.collect[x] == (Link {
                        from: name@,
                        to: n,
                    });
                assert(self@.has_entry(self@.collect[x].to));
            }
            match self.find_entry(names[j].as_str()) {
                Some(i) => {
                    proof {
                        let c = choose|c: int|
                            0 <= c < self@.entries.len() && #[trigger] self@.entries[c].name == n;
                        assert(self@.entries[i as int].name == n);
                        assert(by_entry_name()(self@.entries[c]) == by_entry_name()(
                            self@.entries[i as int],
                        ));
                        assert(c == i);
                    }
                    let musics = self.musics_of(names[j].as_str());
                    let row = self.entries[i].copy();
                    entries.push(
                        Entry {
                            path: row.path,
                            name: row.name,
                            musics,
                            avg_db: row.avg_db,
                            url: row.url,
                            downloaded_ok: row.downloaded_ok,
                            tracking: row.tracking,
                            entry_type: row.entry_type,
                        },
                    );
                },
                None => {
                    // No edge dangles: the entry at the end of the edge is there.
                    assert(false);
                },
            }
            j += 1;
        }
        assert(entry_views(entries@) =~= want);
        assert(entry_levels(entries@) =~= view_levels(want));
        let avg = entry_average(&entries);
        Ok(
            Playlist {
                name: name.to_owned(),
                avg_db: avg,
                entries,
                exclude: copy_musics(&self.collections[ci].exclude),
            },
        )
    }

    /// The read models of all collections, in the order in which the
    /// collections were created.
    pub fn read_all(&self) -> (lists: Vec<Playlist>)
        requires
            self.inv(),
        ensures
            lists@.len() == self@.collections.len(),
            forall|i: int|
                0 <= i < lists@.len() ==> playlist_view(#[trigger] lists@[i]) == self@.playlist(
                    self@.collections[i].name,
                ),
    {
        let mut lists: Vec<Playlist> = Vec::new();
        let mut i: usize = 0;
        while i < self.collections.len()
            invariant
                i <= self.collections.len(),
                self.inv(),
                lists@.len() == i,
                forall|j: int|
                    0 <= j < i ==> playlist_view(#[trigger] lists@[j]) == self@.playlist(
                        self@.collections[j].name,
                    ),
            decreases self.collections.len() - i,
        {
            match self.read(self.collections[i].name.as_str()) {
                Ok(p) => {
                    lists.push(p);
                },
                Err(_) => {
                    // The name is that of a collection of the store.
                    assert(by_name()(self@.collections[i as int]) == self.collections@[i as int].name@);
                    assert(false);
                },
            }
            i += 1;
        }
        lists
    }
}

impl DbEntry {
    /// The identity of the entry: the one derived from its name.
    pub fn id(&self) -> (id: RecordKey)
        ensures
            id@ == (KeyView { table: Table::Entry, key: self.name@ }),
    {
        record_id_for(Table::Entry, self.name.as_str())
    }

    /// The musics that the store links to the entry, in the order in
    /// which the edges were laid.
    pub fn musics(&self, store: &Graph) -> (musics: Vec<Music>)
        requires
            store.inv(),
        ensures
            music_views(musics@) == store@.entry_with_musics(self.name@).musics,
    {
        store.musics_of(self.name.as_str())
    }
}

impl DbMusic {
    /// The names of the entries that the store links to the music.
    pub fn entries(&self, store: &Graph) -> (names: Vec<String>)
        ensures
            texts(names@) == sources(store@.has_music, self.path@, store@.has_music.len() as int),
    {
        store.holders_of(self.path.as_str())
    }
}

impl Entry {
    /// The identity of the entry: the one derived from its name.
    pub fn id(&self) -> (id: RecordKey)
        ensures
            id@ == (KeyView { table: Table::Entry, key: self.name@ }),
    {
        record_id_for(Table::Entry, self.name.as_str())
    }
}

impl Collection {
    /// The identity of the collection: the one derived from its name.
    pub fn id(&self) -> (id: RecordKey)
        ensures
            id@ == (KeyView { table: Table::Collection, key: self.name@ }),
    {
        record_id_for(Table::Collection, self.name.as_str())
    }
}

} // verus!
