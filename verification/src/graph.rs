//! The graph of collections, entries and musics as a mathematical value,
//! the steps that change it, and what holds of every graph that the steps
//! lead to.

use vstd::prelude::*;
use crate::model::{MusicView, RowView};
use crate::seqs::{distinct_by, has_key, with_changed, with_new, without_key};
use crate::table::Rel;

verus! {

/// A collection, by its text.
pub struct CollectionView {
    pub name: Seq<char>,
    pub exclude: Seq<MusicView>,
}

/// An edge, by the keys of its two ends: a collection's name and an
/// entry's name for `collect`, an entry's name and a music's path for
/// `has_music`.
pub struct Link {
    pub from: Seq<char>,
    pub to: Seq<char>,
}

/// The graph: its rows in the order in which they came, and its edges.
pub struct GraphView {
    pub collections: Seq<CollectionView>,
    pub entries: Seq<RowView>,
    pub musics: Seq<MusicView>,
    pub collect: Seq<Link>,
    pub has_music: Seq<Link>,
}

/// One change of the graph, or a job for the download queue.
pub enum StepView {
    CreateCollection(CollectionView),
    DeleteCollection { name: Seq<char> },
    RenameCollection { from: Seq<char>, to: Seq<char> },
    SetExclude { collection: Seq<char>, exclude: Seq<MusicView> },
    InsertEntry(RowView),
    PatchEntry { name: Seq<char>, avg_db: Option<i32>, path: Seq<char> },
    RefreshAverage { name: Seq<char> },
    InsertMusic(MusicView),
    UpdateMusic(MusicView),
    DeleteMusic { path: Seq<char> },
    Relate { kind: Rel, link: Link },
    Unrelate { kind: Rel, link: Link },
    Enqueue,
}

/// A collection's key: its name.
pub open spec fn by_name() -> spec_fn(CollectionView) -> Seq<char> {
    |c: CollectionView| c.name
}

/// An entry's key: its name.
pub open spec fn by_entry_name() -> spec_fn(RowView) -> Seq<char> {
    |r: RowView| r.name
}

/// A music's key: its path.
pub open spec fn by_path() -> spec_fn(MusicView) -> Seq<char> {
    |m: MusicView| m.path
}

/// An edge's key: its two ends.
pub open spec fn by_ends() -> spec_fn(Link) -> Link {
    |l: Link| l
}

/// The collection `c` under the name `to`.
pub open spec fn renamed(to: Seq<char>) -> spec_fn(CollectionView) -> CollectionView {
    |c: CollectionView| CollectionView { name: to, ..c }
}

/// The collection `c` leaving out `exclude`.
pub open spec fn excluding(exclude: Seq<MusicView>) -> spec_fn(CollectionView) -> CollectionView {
    |c: CollectionView| CollectionView { exclude, ..c }
}

/// The entry `r` once its download is done.
pub open spec fn downloaded(avg_db: Option<i32>, path: Seq<char>) -> spec_fn(RowView) -> RowView {
    |r: RowView| RowView { downloaded_ok: Some(true), avg_db, path: Some(path), ..r }
}

/// The entry `r` with the average loudness given.
pub open spec fn averaged(avg_db: Option<i32>) -> spec_fn(RowView) -> RowView {
    |r: RowView| RowView { avg_db, ..r }
}

/// The loudnesses of a sequence of musics.
pub open spec fn levels_of(s: Seq<MusicView>) -> Seq<Option<i32>> {
    Seq::new(s.len(), |i: int| s[i].avg_db)
}

/// The test "does not start at `name`", as a value.
pub open spec fn from_not(name: Seq<char>) -> spec_fn(Link) -> bool {
    |l: Link| l.from != name
}

/// The test "does not end at `name`", as a value.
pub open spec fn to_not(name: Seq<char>) -> spec_fn(Link) -> bool {
    |l: Link| l.to != name
}

/// The music `m`, whatever stood there.
pub open spec fn replaced_by(m: MusicView) -> spec_fn(MusicView) -> MusicView {
    |x: MusicView| m
}

/// The edges of `s`, those that start at `from` starting at `to` instead.
pub open spec fn repointed(s: Seq<Link>, from: Seq<char>, to: Seq<char>) -> Seq<Link> {
    Seq::new(
        s.len(),
        |i: int|
            if s[i].from == from {
                Link { from: to, to: s[i].to }
            } else {
                s[i]
            },
    )
}

impl GraphView {
    /// The graph without rows and edges.
    pub open spec fn empty() -> GraphView {
        GraphView {
            collections: Seq::empty(),
            entries: Seq::empty(),
            musics: Seq::empty(),
            collect: Seq::empty(),
            has_music: Seq::empty(),
        }
    }

    /// Whether the graph holds a collection of that name.
    pub open spec fn has_collection(self, name: Seq<char>) -> bool {
        has_key(self.collections, by_name(), name)
    }

    /// Whether the graph holds an entry of that name.
    pub open spec fn has_entry(self, name: Seq<char>) -> bool {
        has_key(self.entries, by_entry_name(), name)
    }

    /// Whether the graph holds a music of that path.
    pub open spec fn has_music_row(self, path: Seq<char>) -> bool {
        has_key(self.musics, by_path(), path)
    }

    /// At most one collection per name, one entry per name, one music per
    /// path, and one edge per pair of ends and kind.
    pub open spec fn unique(self) -> bool {
        &&& distinct_by(self.collections, by_name())
        &&& distinct_by(self.entries, by_entry_name())
        &&& distinct_by(self.musics, by_path())
        &&& distinct_by(self.collect, by_ends())
        &&& distinct_by(self.has_music, by_ends())
    }

    /// No edge dangles: every `collect` edge leads from a collection to an
    /// entry, every `has_music` edge from an entry to a music.
    pub open spec fn closed(self) -> bool {
        &&& forall|i: int|
            0 <= i < self.collect.len() ==> self.has_collection((#[trigger] self.collect[i]).from)
                && self.has_entry(self.collect[i].to)
        &&& forall|i: int|
            0 <= i < self.has_music.len() ==> self.has_entry((#[trigger] self.has_music[i]).from)
                && self.has_music_row(self.has_music[i].to)
    }

    /// Rows and edges are unique, and no edge dangles.
    pub open spec fn wf(self) -> bool {
        self.unique() && self.closed()
    }

    /// A new collection; one of that name is left as it is.
    pub open spec fn create_collection(self, c: CollectionView) -> GraphView {
        GraphView { collections: with_new(self.collections, by_name(), c), ..self }
    }

    /// The collection leaves, and with it its `collect` edges. Entries and
    /// musics stay.
    pub open spec fn delete_collection(self, name: Seq<char>) -> GraphView {
        GraphView {
            collections: without_key(self.collections, by_name(), name),
            collect: self.collect.filter(from_not(name)),
            ..self
        }
    }

    /// The collection gets a new name, and its edges start at that name.
    /// Nothing happens where there is no such collection or the new name
    /// is taken.
    pub open spec fn rename_collection(self, from: Seq<char>, to: Seq<char>) -> GraphView {
        if self.has_collection(from) && !self.has_collection(to) {
            GraphView {
                collections: with_changed(self.collections, by_name(), from, renamed(to)),
                collect: repointed(self.collect, from, to),
                ..self
            }
        } else {
            self
        }
    }

    /// The collection of that name leaves out `exclude`.
    pub open spec fn set_exclude(self, name: Seq<char>, exclude: Seq<MusicView>) -> GraphView {
        GraphView {
            collections: with_changed(self.collections, by_name(), name, excluding(exclude)),
            ..self
        }
    }

    /// A new entry; one of that name is left as it is.
    pub open spec fn insert_entry(self, r: RowView) -> GraphView {
        GraphView { entries: with_new(self.entries, by_entry_name(), r), ..self }
    }

    /// The entry of that name is downloaded: it has the path and the
    /// average loudness given.
    pub open spec fn patch_entry(self, name: Seq<char>, avg_db: Option<i32>, path: Seq<char>)
        -> GraphView {
        GraphView {
            entries: with_changed(self.entries, by_entry_name(), name, downloaded(avg_db, path)),
            ..self
        }
    }

    /// The mean of the known loudnesses of the musics that the entry has.
    pub open spec fn entry_mean(self, name: Seq<char>) -> Option<i32> {
        crate::loudness::mean_known(levels_of(self.entry_with_musics(name).musics))
    }

    /// The entry of that name takes as its average loudness the mean of
    /// the known loudnesses of the musics it has; nothing else changes.
    pub open spec fn refresh_average(self, name: Seq<char>) -> GraphView {
        GraphView {
            entries: with_changed(
                self.entries,
                by_entry_name(),
                name,
                averaged(self.entry_mean(name)),
            ),
            ..self
        }
    }

    /// A new music; one of that path is left as it is.
    pub open spec fn insert_music(self, m: MusicView) -> GraphView {
        GraphView { musics: with_new(self.musics, by_path(), m), ..self }
    }

    /// The music of that path takes the given values; where there is none
    /// yet, the music is added.
    pub open spec fn update_music(self, m: MusicView) -> GraphView {
        if self.has_music_row(m.path) {
            GraphView {
                musics: with_changed(self.musics, by_path(), m.path, replaced_by(m)),
                ..self
            }
        } else {
            GraphView { musics: self.musics.push(m), ..self }
        }
    }

    /// The music leaves, and with it the edges that lead to it.
    pub open spec fn delete_music(self, path: Seq<char>) -> GraphView {
        GraphView {
            musics: without_key(self.musics, by_path(), path),
            has_music: self.has_music.filter(to_not(path)),
            ..self
        }
    }

    /// Whether an edge of this kind may be laid between these ends: both
    /// must be there, in the tables that the kind asks for. This keeps the
    /// graph free of cycles: edges lead from collections to entries and
    /// from entries to musics only.
    pub open spec fn relatable(self, kind: Rel, link: Link) -> bool {
        match kind {
            Rel::Collect => self.has_collection(link.from) && self.has_entry(link.to),
            Rel::HasMusic => self.has_entry(link.from) && self.has_music_row(link.to),
            Rel::SignIn => false,
        }
    }

    /// A new edge; one with the same ends and kind is left as it is, and
    /// an edge that may not be laid is not.
    pub open spec fn relate(self, kind: Rel, link: Link) -> GraphView {
        if self.relatable(kind, link) {
            match kind {
                Rel::Collect => GraphView {
                    collect: with_new(self.collect, by_ends(), link),
                    ..self
                },
                _ => GraphView { has_music: with_new(self.has_music, by_ends(), link), ..self },
            }
        } else {
            self
        }
    }

    /// The edge of that kind between those ends leaves.
    pub open spec fn unrelate(self, kind: Rel, link: Link) -> GraphView {
        match kind {
            Rel::Collect => GraphView {
                collect: without_key(self.collect, by_ends(), link),
                ..self
            },
            Rel::HasMusic => GraphView {
                has_music: without_key(self.has_music, by_ends(), link),
                ..self
            },
            Rel::SignIn => self,
        }
    }

    /// The graph after one step.
    pub open spec fn apply(self, step: StepView) -> GraphView {
        match step {
            StepView::CreateCollection(c) => self.create_collection(c),
            StepView::DeleteCollection { name } => self.delete_collection(name),
            StepView::RenameCollection { from, to } => self.rename_collection(from, to),
            StepView::SetExclude { collection, exclude } => self.set_exclude(collection, exclude),
            StepView::InsertEntry(r) => self.insert_entry(r),
            StepView::PatchEntry { name, avg_db, path } => self.patch_entry(name, avg_db, path),
            StepView::RefreshAverage { name } => self.refresh_average(name),
            StepView::InsertMusic(m) => self.insert_music(m),
            StepView::UpdateMusic(m) => self.update_music(m),
            StepView::DeleteMusic { path } => self.delete_music(path),
            StepView::Relate { kind, link } => self.relate(kind, link),
            StepView::Unrelate { kind, link } => self.unrelate(kind, link),
            StepView::Enqueue => self,
        }
    }

    /// The graph after the first `n` of the steps, in order.
    pub open spec fn run(self, steps: Seq<StepView>, n: int) -> GraphView
        decreases n,
    {
        if n <= 0 {
            self
        } else {
            self.run(steps, n - 1).apply(steps[n - 1])
        }
    }

    /// The graph after all the steps.
    pub open spec fn run_all(self, steps: Seq<StepView>) -> GraphView {
        self.run(steps, steps.len() as int)
    }
}

/// The ends of the edges among the first `n` of `edges` that start at
/// `from`, in the edges' order.
pub open spec fn targets(edges: Seq<Link>, from: Seq<char>, n: int) -> Seq<Seq<char>>
    decreases n,
{
    if n <= 0 {
        Seq::empty()
    } else if edges[n - 1].from == from {
        targets(edges, from, n - 1).push(edges[n - 1].to)
    } else {
        targets(edges, from, n - 1)
    }
}

/// The starts of the edges among the first `n` of `edges` that end at
/// `to`, in the edges' order.
pub open spec fn sources(edges: Seq<Link>, to: Seq<char>, n: int) -> Seq<Seq<char>>
    decreases n,
{
    if n <= 0 {
        Seq::empty()
    } else if edges[n - 1].to == to {
        sources(edges, to, n - 1).push(edges[n - 1].from)
    } else {
        sources(edges, to, n - 1)
    }
}

/// An entry with its musics, by its text.
pub struct EntryView {
    pub row: RowView,
    pub musics: Seq<MusicView>,
}

/// A playlist, by its text.
pub struct PlaylistView {
    pub name: Seq<char>,
    pub avg_db: Option<i32>,
    pub entries: Seq<EntryView>,
    pub exclude: Seq<MusicView>,
}

/// The averages of a sequence of entries.
pub open spec fn view_levels(s: Seq<EntryView>) -> Seq<Option<i32>> {
    Seq::new(s.len(), |i: int| s[i].row.avg_db)
}

impl GraphView {
    /// The names of the entries that the collection collects, in the
    /// order in which the edges were laid.
    pub open spec fn collected(self, collection: Seq<char>) -> Seq<Seq<char>> {
        targets(self.collect, collection, self.collect.len() as int)
    }

    /// The paths of the musics that the entry has, in the order in which
    /// the edges were laid.
    pub open spec fn music_paths_of(self, entry: Seq<char>) -> Seq<Seq<char>> {
        targets(self.has_music, entry, self.has_music.len() as int)
    }

    /// The collection of that name.
    pub open spec fn collection_named(self, name: Seq<char>) -> CollectionView {
        self.collections[choose|i: int|
            0 <= i < self.collections.len() && #[trigger] self.collections[i].name == name]
    }

    /// The entry of that name.
    pub open spec fn row_named(self, name: Seq<char>) -> RowView {
        self.entries[choose|i: int|
            0 <= i < self.entries.len() && #[trigger] self.entries[i].name == name]
    }

    /// The music of that path.
    pub open spec fn music_at(self, path: Seq<char>) -> MusicView {
        self.musics[choose|i: int|
            0 <= i < self.musics.len() && #[trigger] self.musics[i].path == path]
    }

    /// The entry of that name with the musics linked to it.
    pub open spec fn entry_with_musics(self, name: Seq<char>) -> EntryView {
        let paths = self.music_paths_of(name);
        EntryView {
            row: self.row_named(name),
            musics: Seq::new(paths.len(), |j: int| self.music_at(paths[j])),
        }
    }

    /// The read model of a collection: the entries linked to it by
    /// `collect`, each with the musics linked to it by `has_music`, and as
    /// average loudness the mean of the entries' known averages.
    pub open spec fn playlist(self, name: Seq<char>) -> PlaylistView {
        let names = self.collected(name);
        let entries = Seq::new(names.len(), |i: int| self.entry_with_musics(names[i]));
        PlaylistView {
            name,
            avg_db: crate::loudness::mean_known(view_levels(entries)),
            entries,
            exclude: self.collection_named(name).exclude,
        }
    }
}

/// Whether one of the first `n` edges leads from `from` to `to`.
pub open spec fn joins(edges: Seq<Link>, n: int, from: Seq<char>, to: Seq<char>) -> bool {
    exists|i: int| 0 <= i < n && #[trigger] edges[i] == (Link { from, to })
}

/// Every name among the targets is the end of an edge that starts at
/// `from`, and every such edge's end is among them.
pub proof fn lemma_targets(edges: Seq<Link>, from: Seq<char>, n: int)
    requires
        0 <= n <= edges.len(),
    ensures
        forall|j: int|
            0 <= j < targets(edges, from, n).len() ==> joins(
                edges,
                n,
                from,
                #[trigger] targets(edges, from, n)[j],
            ),
        forall|i: int|
            0 <= i < n && (#[trigger] edges[i]).from == from ==> targets(edges, from, n).contains(
                edges[i].to,
            ),
    decreases n,
{
    if n > 0 {
        lemma_targets(edges, from, n - 1);
        let t = targets(edges, from, n);
        let u = targets(edges, from, n - 1);
        assert forall|j: int| 0 <= j < t.len() implies joins(edges, n, from, #[trigger] t[j]) by {
            if j < u.len() {
                assert(joins(edges, n - 1, from, u[j]));
                let i = choose|i: int|
                    0 <= i < n - 1 && #[trigger] edges[i] == (Link { from, to: u[j] });
                assert(edges[i] == (Link { from, to: t[j] }));
            } else {
                assert(edges[n - 1] == (Link { from, to: t[j] }));
            }
        }
        assert forall|i: int| 0 <= i < n && (#[trigger] edges[i]).from == from implies t.contains(
            edges[i].to,
        ) by {
            if i < n - 1 {
                assert(u.contains(edges[i].to));
                let j = choose|j: int| 0 <= j < u.len() && u[j] == edges[i].to;
                assert(t[j] == edges[i].to);
            } else {
                assert(t[t.len() - 1] == edges[i].to);
            }
        }
    }
}

/// Reading gives back what is linked: the entries of a collection's
/// playlist are exactly the entries that `collect` edges lead to from the
/// collection, one per edge, and the musics of each are exactly the musics
/// that `has_music` edges lead to from the entry.
pub proof fn lemma_read_round_trip(g: GraphView, name: Seq<char>)
    requires
        g.wf(),
    ensures
        g.playlist(name).entries.len() == g.collected(name).len(),
        forall|j: int|
            0 <= j < g.playlist(name).entries.len() ==> {
                let e = #[trigger] g.playlist(name).entries[j];
                &&& e.row.name == g.collected(name)[j]
                &&& g.has_entry(e.row.name)
                &&& joins(g.collect, g.collect.len() as int, name, e.row.name)
                &&& e.musics.len() == g.music_paths_of(e.row.name).len()
                &&& forall|k: int|
                    0 <= k < e.musics.len() ==> (#[trigger] e.musics[k]).path == g.music_paths_of(
                        e.row.name,
                    )[k]
            },
        forall|i: int|
            0 <= i < g.collect.len() && (#[trigger] g.collect[i]).from == name ==> g.collected(
                name,
            ).contains(g.collect[i].to),
{
    lemma_targets(g.collect, name, g.collect.len() as int);
    let names = g.collected(name);
    assert forall|j: int| 0 <= j < g.playlist(name).entries.len() implies {
        let e = #[trigger] g.playlist(name).entries[j];
        &&& e.row.name == names[j]
        &&& g.has_entry(e.row.name)
        &&& joins(g.collect, g.collect.len() as int, name, e.row.name)
        &&& e.musics.len() == g.music_paths_of(e.row.name).len()
        &&& forall|k: int|
            0 <= k < e.musics.len() ==> (#[trigger] e.musics[k]).path == g.music_paths_of(
                e.row.name,
            )[k]
    } by {
        let e = g.playlist(name).entries[j];
        assert(joins(g.collect, g.collect.len() as int, name, names[j]));
        let i = choose|i: int|
            0 <= i < g.collect.len() && #[trigger] g.collect[i] == (Link { from: name, to: names[j] });
        assert(g.has_entry(g.collect[i].to));
        let w = choose|w: int|
            0 <= w < g.entries.len() && #[trigger] by_entry_name()(g.entries[w]) == names[j];
        assert(g.entries[w].name == names[j]);
        assert(e.row.name == names[j]);
        let paths = g.music_paths_of(names[j]);
        lemma_targets(g.has_music, names[j], g.has_music.len() as int);
        assert forall|k: int| 0 <= k < e.musics.len() implies (#[trigger] e.musics[k]).path
            == paths[k] by {
            assert(joins(g.has_music, g.has_music.len() as int, names[j], paths[k]));
            let x = choose|x: int|
                0 <= x < g.has_music.len() && #[trigger] g.has_music[x] == (Link {
                    from: names[j],
                    to: paths[k],
                });
            assert(g.has_music_row(g.has_music[x].to));
            let y = choose|y: int|
                0 <= y < g.musics.len() && #[trigger] by_path()(g.musics[y]) == paths[k];
            assert(g.musics[y].path == paths[k]);
        }
    }
}

} // verus!
