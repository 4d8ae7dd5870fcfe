//! Resumption leaves the graph of an uninterrupted run: what `download_ok`
//! makes of the graph, and why finishing a download in two parts, or
//! finishing it twice, makes the same of it as finishing it once.

use vstd::prelude::*;
use crate::coordinator::download_plan;
use crate::graph::{by_ends, by_entry_name, by_path, downloaded, GraphView, Link, StepView};
use crate::ingest::{
    has_music_steps, music_steps, placed_in, track_levels, track_music, FolderView, TrackView,
};
use crate::loudness::mean_known;
use crate::model::MusicView;
use crate::seqs::{has_key, lemma_push_has_key, lemma_with_changed, with_changed, with_new};
use crate::table::Rel;

verus! {

/// The musics `ms` and those of the first `n` tracks, each added unless a
/// music of its path is there.
pub open spec fn musics_with(ms: Seq<MusicView>, tracks: Seq<TrackView>, n: int) -> Seq<MusicView>
    decreases n,
{
    if n <= 0 {
        ms
    } else {
        with_new(musics_with(ms, tracks, n - 1), by_path(), track_music(tracks[n - 1]))
    }
}

/// The edges `es` and one from `name` to each of the first `n` tracks,
/// each added unless it is there.
pub open spec fn edges_with(es: Seq<Link>, name: Seq<char>, tracks: Seq<TrackView>, n: int) -> Seq<
    Link,
>
    decreases n,
{
    if n <= 0 {
        es
    } else {
        with_new(
            edges_with(es, name, tracks, n - 1),
            by_ends(),
            Link { from: name, to: tracks[n - 1].path },
        )
    }
}

/// The graph once the download of the entry `name` is finalized with the
/// tracks given: their musics are in the store; where the entry is there,
/// it has each of them, is downloaded, at `path`, and carries the mean of
/// the known loudnesses of the musics it then has; collections and `collect`
/// edges are as they were.
pub open spec fn after_download(
    g: GraphView,
    name: Seq<char>,
    path: Seq<char>,
    tracks: Seq<TrackView>,
) -> GraphView {
    let linked = GraphView {
        musics: musics_with(g.musics, tracks, tracks.len() as int),
        has_music: if g.has_entry(name) {
            edges_with(g.has_music, name, tracks, tracks.len() as int)
        } else {
            g.has_music
        },
        ..g
    };
    GraphView {
        entries: with_changed(
            g.entries,
            by_entry_name(),
            name,
            downloaded(linked.entry_mean(name), path),
        ),
        ..linked
    }
}

/// Running two lists of steps one after the other is running the one
/// list that they make.
pub proof fn lemma_run_append(g: GraphView, a: Seq<StepView>, b: Seq<StepView>, k: int)
    requires
        0 <= k <= b.len(),
    ensures
        g.run(a + b, a.len() + k) == g.run_all(a).run(b, k),
    decreases k,
{
    if k > 0 {
        lemma_run_append(g, a, b, k - 1);
        assert((a + b)[a.len() + k - 1] == b[k - 1]);
    } else {
        lemma_run_prefix(g, a, a + b, a.len() as int);
    }
}

/// A run reads only the steps it takes.
pub proof fn lemma_run_prefix(g: GraphView, a: Seq<StepView>, b: Seq<StepView>, n: int)
    requires
        0 <= n <= a.len(),
        n <= b.len(),
        forall|i: int| 0 <= i < n ==> a[i] == b[i],
    ensures
        g.run(a, n) == g.run(b, n),
    decreases n,
{
    if n > 0 {
        lemma_run_prefix(g, a, b, n - 1);
    }
}

/// Every music that was there, and the music of every track taken, is
/// there.
pub proof fn lemma_musics_with_has(ms: Seq<MusicView>, tracks: Seq<TrackView>, n: int, p: Seq<char>)
    requires
        0 <= n <= tracks.len(),
    ensures
        has_key(ms, by_path(), p) ==> has_key(musics_with(ms, tracks, n), by_path(), p),
        forall|i: int|
            0 <= i < n ==> has_key(musics_with(ms, tracks, n), by_path(), (#[trigger] tracks[i]).path),
    decreases n,
{
    if n > 0 {
        let before = musics_with(ms, tracks, n - 1);
        let m = track_music(tracks[n - 1]);
        lemma_musics_with_has(ms, tracks, n - 1, p);
        lemma_push_has_key(before, by_path(), m, p);
        assert(by_path()(m) == tracks[n - 1].path);
        assert forall|i: int| 0 <= i < n implies has_key(
            musics_with(ms, tracks, n),
            by_path(),
            (#[trigger] tracks[i]).path,
        ) by {
            lemma_push_has_key(before, by_path(), m, tracks[i].path);
        }
    }
}

/// The steps that write the musics of the tracks change the musics and
/// nothing else.
pub proof fn lemma_run_musics(g: GraphView, name: Seq<char>, path: Seq<char>, tracks: Seq<TrackView>, n: int)
    requires
        0 <= n <= tracks.len(),
    ensures
        g.run(music_steps(placed_in(FolderView { path, name, tracks })), n) == (GraphView {
            musics: musics_with(g.musics, tracks, n),
            ..g
        }),
    decreases n,
{
    if n > 0 {
        lemma_run_musics(g, name, path, tracks, n - 1);
    }
}

/// The steps that lay the `has_music` edges, on a graph that holds the
/// musics of the tracks, change the edges of an entry that is there and
/// nothing else; and nothing at all where the entry is not there.
pub proof fn lemma_run_edges(g: GraphView, name: Seq<char>, path: Seq<char>, tracks: Seq<TrackView>, n: int)
    requires
        0 <= n <= tracks.len(),
        forall|i: int| 0 <= i < tracks.len() ==> g.has_music_row((#[trigger] tracks[i]).path),
    ensures
        g.run(has_music_steps(placed_in(FolderView { path, name, tracks })), n) == (GraphView {
            has_music: if g.has_entry(name) {
                edges_with(g.has_music, name, tracks, n)
            } else {
                g.has_music
            },
            ..g
        }),
    decreases n,
{
    if n > 0 {
        lemma_run_edges(g, name, path, tracks, n - 1);
        let steps = has_music_steps(placed_in(FolderView { path, name, tracks }));
        let before = g.run(steps, n - 1);
        let link = Link { from: name, to: tracks[n - 1].path };
        assert(steps[n - 1] == StepView::Relate { kind: Rel::HasMusic, link });
        assert(before.has_entry(name) == g.has_entry(name));
        assert(before.has_music_row(tracks[n - 1].path));
    }
}

/// The average of an entry depends on its edges and on the musics, not
/// on the rows of the entries.
pub proof fn lemma_entry_mean(g: GraphView, h: GraphView, name: Seq<char>)
    requires
        h.musics == g.musics,
        h.has_music == g.has_music,
    ensures
        h.entry_mean(name) == g.entry_mean(name),
{
    assert(h.entry_with_musics(name).musics =~= g.entry_with_musics(name).musics);
}

/// What `download_ok` makes of the graph: running its steps gives
/// `after_download`, whatever loudnesses the caller held for the musics
/// that the entry had.
pub proof fn lemma_download_plan_runs(
    g: GraphView,
    name: Seq<char>,
    path: Seq<char>,
    existing: Seq<Option<i32>>,
    tracks: Seq<TrackView>,
)
    ensures
        g.run_all(download_plan(name, path, existing, tracks)) == after_download(
            g,
            name,
            path,
            tracks,
        ),
{
    let placed = placed_in(FolderView { path, name, tracks });
    let m = music_steps(placed);
    let e = has_music_steps(placed);
    let avg_db = mean_known(existing + track_levels(tracks));
    let p = seq![StepView::PatchEntry { name, avg_db, path }, StepView::RefreshAverage { name }];
    let n = tracks.len() as int;
    lemma_run_musics(g, name, path, tracks, n);
    let g1 = g.run_all(m);
    assert forall|i: int| 0 <= i < tracks.len() implies g1.has_music_row(
        (#[trigger] tracks[i]).path,
    ) by {
        lemma_musics_with_has(g.musics, tracks, n, tracks[i].path);
    }
    lemma_run_edges(g1, name, path, tracks, n);
    lemma_run_append(g, m, e, n);
    let g2 = g.run_all(m + e);
    assert(g2 == g1.run_all(e));
    lemma_run_append(g, m + e, p, 2);
    assert(g2.run(p, 1) == g2.run(p, 0).apply(p[0]));
    assert(g2.run(p, 2) == g2.run(p, 1).apply(p[1]));
    let g3 = g2.patch_entry(name, avg_db, path);
    let g4 = g3.refresh_average(name);
    lemma_entry_mean(g2, g3, name);
    assert(g4.entries =~= with_changed(
        g.entries,
        by_entry_name(),
        name,
        downloaded(g2.entry_mean(name), path),
    ));
    assert(download_plan(name, path, existing, tracks) =~= (m + e) + p);
}

/// Taking the tracks in two parts is taking them at once.
pub proof fn lemma_musics_with_parts(ms: Seq<MusicView>, a: Seq<TrackView>, b: Seq<TrackView>, k: int)
    requires
        0 <= k <= b.len(),
    ensures
        musics_with(musics_with(ms, a, a.len() as int), b, k) == musics_with(
            ms,
            a + b,
            a.len() + k,
        ),
    decreases k,
{
    if k > 0 {
        lemma_musics_with_parts(ms, a, b, k - 1);
        assert((a + b)[a.len() + k - 1] == b[k - 1]);
    } else {
        lemma_musics_with_prefix(ms, a, a + b, a.len() as int);
    }
}

/// Only the tracks taken count.
pub proof fn lemma_musics_with_prefix(ms: Seq<MusicView>, a: Seq<TrackView>, b: Seq<TrackView>, n: int)
    requires
        0 <= n <= a.len(),
        n <= b.len(),
        forall|i: int| 0 <= i < n ==> a[i] == b[i],
    ensures
        musics_with(ms, a, n) == musics_with(ms, b, n),
    decreases n,
{
    if n > 0 {
        lemma_musics_with_prefix(ms, a, b, n - 1);
    }
}

/// Laying the edges in two parts is laying them at once.
pub proof fn lemma_edges_with_parts(
    es: Seq<Link>,
    name: Seq<char>,
    a: Seq<TrackView>,
    b: Seq<TrackView>,
    k: int,
)
    requires
        0 <= k <= b.len(),
    ensures
        edges_with(edges_with(es, name, a, a.len() as int), name, b, k) == edges_with(
            es,
            name,
            a + b,
            a.len() + k,
        ),
    decreases k,
{
    if k > 0 {
        lemma_edges_with_parts(es, name, a, b, k - 1);
        assert((a + b)[a.len() + k - 1] == b[k - 1]);
    } else {
        lemma_edges_with_prefix(es, name, a, a + b, a.len() as int);
    }
}

/// Only the edges laid count.
pub proof fn lemma_edges_with_prefix(
    es: Seq<Link>,
    name: Seq<char>,
    a: Seq<TrackView>,
    b: Seq<TrackView>,
    n: int,
)
    requires
        0 <= n <= a.len(),
        n <= b.len(),
        forall|i: int| 0 <= i < n ==> a[i] == b[i],
    ensures
        edges_with(es, name, a, n) == edges_with(es, name, b, n),
    decreases n,
{
    if n > 0 {
        lemma_edges_with_prefix(es, name, a, b, n - 1);
    }
}

/// Resumption leaves the graph of the uninterrupted run. A run that is
/// killed after it has finalized part of an entry's tracks, and on restart
/// finalizes the rest, leaves the very graph that one run finalizing all the
/// tracks leaves, whatever loudnesses each call was handed for the musics
/// that the entry had: no music and no edge comes twice, and the entry
/// carries the average over all its musics.
pub proof fn lemma_download_in_parts(
    g: GraphView,
    name: Seq<char>,
    path: Seq<char>,
    before: Seq<Option<i32>>,
    between: Seq<Option<i32>>,
    whole: Seq<Option<i32>>,
    first: Seq<TrackView>,
    rest: Seq<TrackView>,
)
    requires
        g.wf(),
    ensures
        g.run_all(download_plan(name, path, before, first)).run_all(
            download_plan(name, path, between, rest),
        ) == g.run_all(download_plan(name, path, whole, first + rest)),
{
    lemma_download_plan_runs(g, name, path, before, first);
    let h = after_download(g, name, path, first);
    lemma_download_plan_runs(h, name, path, between, rest);
    lemma_download_plan_runs(g, name, path, whole, first + rest);
    let two = after_download(h, name, path, rest);
    let one = after_download(g, name, path, first + rest);
    lemma_musics_with_parts(g.musics, first, rest, rest.len() as int);
    lemma_edges_with_parts(g.has_music, name, first, rest, rest.len() as int);
    let first_mean = (GraphView { entries: g.entries, ..h }).entry_mean(name);
    lemma_with_changed(g.entries, by_entry_name(), name, downloaded(first_mean, path));
    assert(h.has_entry(name) == g.has_entry(name));
    assert(two.musics == one.musics);
    assert(two.has_music == one.has_music);
    lemma_entry_mean(
        GraphView { entries: g.entries, ..one },
        GraphView { entries: h.entries, ..two },
        name,
    );
    assert(two.entries =~= one.entries);
}

/// Finalizing a download again changes nothing: a run that is killed
/// after the graph was written, and on restart finds every track linked,
/// leaves the graph as the first run left it.
pub proof fn lemma_download_twice_is_once(
    g: GraphView,
    name: Seq<char>,
    path: Seq<char>,
    before: Seq<Option<i32>>,
    again: Seq<Option<i32>>,
    tracks: Seq<TrackView>,
)
    requires
        g.wf(),
    ensures
        g.run_all(download_plan(name, path, before, tracks)).run_all(
            download_plan(name, path, again, Seq::empty()),
        ) == g.run_all(download_plan(name, path, before, tracks)),
{
    lemma_download_in_parts(g, name, path, before, again, before, tracks, Seq::empty());
    assert(tracks + Seq::<TrackView>::empty() =~= tracks);
}

/// After a download is finalized the entry's stored average is the mean
/// of the known loudnesses of the musics that the entry has, and the entry
/// is downloaded, at the saved path.
pub proof fn lemma_download_average(
    g: GraphView,
    name: Seq<char>,
    path: Seq<char>,
    existing: Seq<Option<i32>>,
    tracks: Seq<TrackView>,
)
    requires
        g.wf(),
        g.has_entry(name),
    ensures
        ({
            let h = g.run_all(download_plan(name, path, existing, tracks));
            &&& h.has_entry(name)
            &&& h.row_named(name).avg_db == h.entry_mean(name)
            &&& h.row_named(name).downloaded_ok == Some(true)
            &&& h.row_named(name).path == Some(path)
        }),
{
    lemma_download_plan_runs(g, name, path, existing, tracks);
    let h = after_download(g, name, path, tracks);
    let linked = GraphView { entries: g.entries, ..h };
    lemma_entry_mean(linked, h, name);
    let f = downloaded(linked.entry_mean(name), path);
    lemma_with_changed(g.entries, by_entry_name(), name, f);
    let c = choose|c: int| 0 <= c < h.entries.len() && #[trigger] h.entries[c].name == name;
    let i = choose|i: int|
        0 <= i < g.entries.len() && #[trigger] by_entry_name()(g.entries[i]) == name;
    assert(by_entry_name()(h.entries[i]) == name);
    assert(h.entries[i].name == name);
    assert(by_entry_name()(g.entries[c]) == name);
    assert(h.entries[c] == f(g.entries[c]));
}

} // verus!
