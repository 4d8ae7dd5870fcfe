//! What holds of every graph that the steps lead to.

use vstd::prelude::*;
use crate::graph::{
    averaged, by_ends, by_entry_name, by_name, by_path, downloaded, excluding, from_not,
    replaced_by, to_not, CollectionView, GraphView, Link, StepView,
};
use crate::model::{MusicView, RowView};
use crate::seqs::{
    has_key, lemma_filter_keeps, lemma_push_has_key, lemma_with_changed, lemma_with_new, not_key,
};
use crate::table::Rel;

verus! {

/// Every edge that a filter keeps is an edge of the sequence filtered,
/// and passes the filter.
pub proof fn lemma_filter_member(s: Seq<Link>, p: spec_fn(Link) -> bool, i: int)
    requires
        0 <= i < s.filter(p).len(),
    ensures
        p(s.filter(p)[i]),
        exists|j: int| 0 <= j < s.len() && #[trigger] s[j] == s.filter(p)[i],
{
    let t = s.filter(p);
    lemma_filter_keeps(s, p, by_ends());
    assert(by_ends()(t[i]) == t[i]);
    assert(has_key(t, by_ends(), t[i]));
    let j = choose|j: int| 0 <= j < s.len() && p(s[j]) && #[trigger] by_ends()(s[j]) == t[i];
    assert(s[j] == t[i]);
}

/// Creating a collection keeps the graph well-formed.
pub proof fn lemma_create_collection_wf(g: GraphView, c: CollectionView)
    requires
        g.wf(),
    ensures
        g.create_collection(c).wf(),
{
    lemma_with_new(g.collections, by_name(), c);
}

/// Inserting an entry keeps the graph well-formed.
pub proof fn lemma_insert_entry_wf(g: GraphView, r: RowView)
    requires
        g.wf(),
    ensures
        g.insert_entry(r).wf(),
{
    lemma_with_new(g.entries, by_entry_name(), r);
}

/// Inserting a music keeps the graph well-formed.
pub proof fn lemma_insert_music_wf(g: GraphView, m: MusicView)
    requires
        g.wf(),
    ensures
        g.insert_music(m).wf(),
{
    lemma_with_new(g.musics, by_path(), m);
}

/// Rewriting an exclude list keeps the graph well-formed.
pub proof fn lemma_set_exclude_wf(g: GraphView, name: Seq<char>, exclude: Seq<MusicView>)
    requires
        g.wf(),
    ensures
        g.set_exclude(name, exclude).wf(),
{
    lemma_with_changed(g.collections, by_name(), name, excluding(exclude));
}

/// Patching an entry keeps the graph well-formed.
pub proof fn lemma_patch_entry_wf(
    g: GraphView,
    name: Seq<char>,
    avg_db: Option<i32>,
    path: Seq<char>,
)
    requires
        g.wf(),
    ensures
        g.patch_entry(name, avg_db, path).wf(),
{
    lemma_with_changed(g.entries, by_entry_name(), name, downloaded(avg_db, path));
}

/// Refreshing an entry's average keeps the graph well-formed.
pub proof fn lemma_refresh_average_wf(g: GraphView, name: Seq<char>)
    requires
        g.wf(),
    ensures
        g.refresh_average(name).wf(),
{
    lemma_with_changed(g.entries, by_entry_name(), name, averaged(g.entry_mean(name)));
}

/// Updating a music keeps the graph well-formed.
pub proof fn lemma_update_music_wf(g: GraphView, m: MusicView)
    requires
        g.wf(),
    ensures
        g.update_music(m).wf(),
{
    if g.has_music_row(m.path) {
        lemma_with_changed(g.musics, by_path(), m.path, replaced_by(m));
    } else {
        lemma_with_new(g.musics, by_path(), m);
    }
}

/// Deleting a collection keeps the graph well-formed: its edges leave
/// with it.
pub proof fn lemma_delete_collection_wf(g: GraphView, name: Seq<char>)
    requires
        g.wf(),
    ensures
        g.delete_collection(name).wf(),
{
    let h = g.delete_collection(name);
    let keep_row = not_key(by_name(), name);
    let keep_edge = from_not(name);
    lemma_filter_keeps(g.collections, keep_row, by_name());
    lemma_filter_keeps(g.collect, keep_edge, by_ends());
    assert forall|i: int| 0 <= i < h.collect.len() implies h.has_collection(
        (#[trigger] h.collect[i]).from,
    ) && h.has_entry(h.collect[i].to) by {
        lemma_filter_member(g.collect, keep_edge, i);
        let j = choose|j: int| 0 <= j < g.collect.len() && #[trigger] g.collect[j] == h.collect[i];
        assert(g.has_collection(g.collect[j].from));
        let k = choose|k: int|
            0 <= k < g.collections.len() && #[trigger] by_name()(g.collections[k])
                == g.collect[j].from;
        assert(keep_row(g.collections[k]));
    }
}

/// Deleting a music keeps the graph well-formed: the edges that lead to
/// it leave with it.
pub proof fn lemma_delete_music_wf(g: GraphView, path: Seq<char>)
    requires
        g.wf(),
    ensures
        g.delete_music(path).wf(),
{
    let h = g.delete_music(path);
    let keep_row = not_key(by_path(), path);
    let keep_edge = to_not(path);
    lemma_filter_keeps(g.musics, keep_row, by_path());
    lemma_filter_keeps(g.has_music, keep_edge, by_ends());
    assert forall|i: int| 0 <= i < h.has_music.len() implies h.has_entry(
        (#[trigger] h.has_music[i]).from,
    ) && h.has_music_row(h.has_music[i].to) by {
        lemma_filter_member(g.has_music, keep_edge, i);
        let j = choose|j: int|
            0 <= j < g.has_music.len() && #[trigger] g.has_music[j] == h.has_music[i];
        assert(g.has_music_row(g.has_music[j].to));
        let k = choose|k: int|
            0 <= k < g.musics.len() && #[trigger] by_path()(g.musics[k]) == g.has_music[j].to;
        assert(keep_row(g.musics[k]));
    }
}

/// Renaming a collection keeps the graph well-formed: no edge starts at
/// the new name before, since no collection has it.
pub proof fn lemma_rename_collection_wf(g: GraphView, from: Seq<char>, to: Seq<char>)
    requires
        g.wf(),
    ensures
        g.rename_collection(from, to).wf(),
{
    if g.has_collection(from) && !g.has_collection(to) {
        let h = g.rename_collection(from, to);
        let rows = g.collections;
        let rows2 = h.collections;
        assert forall|i: int| 0 <= i < rows.len() implies #[trigger] by_name()(rows2[i]) == (if by_name()(
            rows[i],
        ) == from {
            to
        } else {
            by_name()(rows[i])
        }) by {}
        assert forall|i: int, j: int| 0 <= i < j < rows2.len() implies by_name()(rows2[i])
            != by_name()(rows2[j]) by {
            assert(by_name()(rows[i]) != by_name()(rows[j]));
            if by_name()(rows[i]) != from {
                assert(has_key(rows, by_name(), by_name()(rows[i])));
            }
            if by_name()(rows[j]) != from {
                assert(has_key(rows, by_name(), by_name()(rows[j])));
            }
        }
        let w = choose|w: int| 0 <= w < rows.len() && #[trigger] by_name()(rows[w]) == from;
        assert(by_name()(rows2[w]) == to);
        assert forall|i: int| 0 <= i < h.collect.len() implies h.has_collection(
            (#[trigger] h.collect[i]).from,
        ) && h.has_entry(h.collect[i].to) by {
            let l = g.collect[i];
            assert(g.has_collection(l.from) && g.has_entry(l.to));
            if l.from != from {
                let k = choose|k: int|
                    0 <= k < rows.len() && #[trigger] by_name()(rows[k]) == l.from;
                assert(by_name()(rows2[k]) == l.from);
            }
        }
        assert forall|i: int, j: int| 0 <= i < j < h.collect.len() implies by_ends()(h.collect[i])
            != by_ends()(h.collect[j]) by {
            let a = g.collect[i];
            let b = g.collect[j];
            assert(by_ends()(a) != by_ends()(b));
            assert(g.has_collection(a.from) && g.has_collection(b.from));
        }
    }
}

/// Laying an edge keeps the graph well-formed.
pub proof fn lemma_relate_wf(g: GraphView, kind: Rel, link: Link)
    requires
        g.wf(),
    ensures
        g.relate(kind, link).wf(),
{
    if g.relatable(kind, link) {
        let h = g.relate(kind, link);
        match kind {
            Rel::Collect => {
                lemma_with_new(g.collect, by_ends(), link);
                assert forall|i: int| 0 <= i < h.collect.len() implies h.has_collection(
                    (#[trigger] h.collect[i]).from,
                ) && h.has_entry(h.collect[i].to) by {
                    if i < g.collect.len() {
                        assert(h.collect[i] == g.collect[i]);
                    }
                }
            },
            _ => {
                lemma_with_new(g.has_music, by_ends(), link);
                assert forall|i: int| 0 <= i < h.has_music.len() implies h.has_entry(
                    (#[trigger] h.has_music[i]).from,
                ) && h.has_music_row(h.has_music[i].to) by {
                    if i < g.has_music.len() {
                        assert(h.has_music[i] == g.has_music[i]);
                    }
                }
            },
        }
    }
}

/// Taking an edge away keeps the graph well-formed.
pub proof fn lemma_unrelate_wf(g: GraphView, kind: Rel, link: Link)
    requires
        g.wf(),
    ensures
        g.unrelate(kind, link).wf(),
{
    let h = g.unrelate(kind, link);
    let keep = not_key(by_ends(), link);
    match kind {
        Rel::Collect => {
            lemma_filter_keeps(g.collect, keep, by_ends());
            assert forall|i: int| 0 <= i < h.collect.len() implies h.has_collection(
                (#[trigger] h.collect[i]).from,
            ) && h.has_entry(h.collect[i].to) by {
                lemma_filter_member(g.collect, keep, i);
            }
        },
        Rel::HasMusic => {
            lemma_filter_keeps(g.has_music, keep, by_ends());
            assert forall|i: int| 0 <= i < h.has_music.len() implies h.has_entry(
                (#[trigger] h.has_music[i]).from,
            ) && h.has_music_row(h.has_music[i].to) by {
                lemma_filter_member(g.has_music, keep, i);
            }
        },
        Rel::SignIn => {},
    }
}

/// No step breaks the graph: after it there is still at most one
/// collection per name, one entry per name, one music per path and one
/// edge per pair of ends and kind, and no edge dangles.
pub proof fn lemma_apply_wf(g: GraphView, step: StepView)
    requires
        g.wf(),
    ensures
        g.apply(step).wf(),
{
    match step {
        StepView::CreateCollection(c) => lemma_create_collection_wf(g, c),
        StepView::DeleteCollection { name } => lemma_delete_collection_wf(g, name),
        StepView::RenameCollection { from, to } => lemma_rename_collection_wf(g, from, to),
        StepView::SetExclude { collection, exclude } => lemma_set_exclude_wf(
            g,
            collection,
            exclude,
        ),
        StepView::InsertEntry(r) => lemma_insert_entry_wf(g, r),
        StepView::PatchEntry { name, avg_db, path } => lemma_patch_entry_wf(g, name, avg_db, path),
        StepView::RefreshAverage { name } => lemma_refresh_average_wf(g, name),
        StepView::InsertMusic(m) => lemma_insert_music_wf(g, m),
        StepView::UpdateMusic(m) => lemma_update_music_wf(g, m),
        StepView::DeleteMusic { path } => lemma_delete_music_wf(g, path),
        StepView::Relate { kind, link } => lemma_relate_wf(g, kind, link),
        StepView::Unrelate { kind, link } => lemma_unrelate_wf(g, kind, link),
        StepView::Enqueue => {},
    }
}

/// Whether a step leaves the rows of the entries as they are: every step
/// does but those that insert, patch or refresh an entry.
pub open spec fn leaves_entries(step: StepView) -> bool {
    !(step is InsertEntry) && !(step is PatchEntry) && !(step is RefreshAverage)
}

/// A run of steps that leave the entries alone leaves them alone.
pub proof fn lemma_run_leaves_entries(g: GraphView, steps: Seq<StepView>, n: int)
    requires
        0 <= n <= steps.len(),
        forall|i: int| 0 <= i < n ==> leaves_entries(#[trigger] steps[i]),
    ensures
        g.run(steps, n).entries == g.entries,
    decreases n,
{
    if n > 0 {
        lemma_run_leaves_entries(g, steps, n - 1);
        assert(leaves_entries(steps[n - 1]));
    }
}

/// What refreshing an entry's average changes: the rows of the entries
/// of that name carry the mean of the known loudnesses of the musics that
/// the entry has, before the step as after it; every other row, every
/// music and every edge is as it was.
pub proof fn lemma_refresh_average(g: GraphView, name: Seq<char>)
    ensures
        g.refresh_average(name).entry_mean(name) == g.entry_mean(name),
        g.refresh_average(name).has_entry(name) == g.has_entry(name),
        g.has_entry(name) ==> g.refresh_average(name).row_named(name).avg_db == g.entry_mean(name),
        g.has_entry(name) ==> g.refresh_average(name).row_named(name).name == name,
{
    let h = g.refresh_average(name);
    let f = averaged(g.entry_mean(name));
    assert(h.entry_with_musics(name).musics =~= g.entry_with_musics(name).musics);
    assert forall|i: int| 0 <= i < g.entries.len() implies by_entry_name()(#[trigger] h.entries[i])
        == by_entry_name()(g.entries[i]) by {}
    if g.has_entry(name) {
        let i = choose|i: int|
            0 <= i < g.entries.len() && #[trigger] by_entry_name()(g.entries[i]) == name;
        assert(by_entry_name()(h.entries[i]) == name);
        assert(h.entries[i].name == name);
        assert(h.has_entry(name));
        let c = choose|c: int| 0 <= c < h.entries.len() && #[trigger] h.entries[c].name == name;
        assert(by_entry_name()(h.entries[c]) == by_entry_name()(g.entries[c]));
        assert(h.entries[c] == f(g.entries[c]));
    }
    if h.has_entry(name) {
        let i = choose|i: int|
            0 <= i < h.entries.len() && #[trigger] by_entry_name()(h.entries[i]) == name;
        assert(by_entry_name()(g.entries[i]) == name);
    }
}

/// No run of steps breaks the graph.
pub proof fn lemma_run_wf(g: GraphView, steps: Seq<StepView>, n: int)
    requires
        g.wf(),
        0 <= n <= steps.len(),
    ensures
        g.run(steps, n).wf(),
    decreases n,
{
    if n > 0 {
        lemma_run_wf(g, steps, n - 1);
        lemma_apply_wf(g.run(steps, n - 1), steps[n - 1]);
    }
}

/// Uniqueness holds of every graph that can be reached: whatever steps
/// are taken from the empty graph, there is at most one collection per
/// name, one entry per name, one music per path, and one edge per pair of
/// ends and kind.
pub proof fn lemma_reachable_is_unique(steps: Seq<StepView>)
    ensures
        GraphView::empty().run_all(steps).unique(),
        GraphView::empty().run_all(steps).closed(),
{
    lemma_run_wf(GraphView::empty(), steps, steps.len() as int);
}

/// The steps of an ingestion: they add rows and edges and change nothing
/// that is there.
pub open spec fn is_ingest(step: StepView) -> bool {
    match step {
        StepView::CreateCollection(_) => true,
        StepView::InsertEntry(_) => true,
        StepView::InsertMusic(_) => true,
        StepView::Relate { kind, link } => true,
        StepView::Enqueue => true,
        _ => false,
    }
}

/// What an ingestion step adds is there.
pub open spec fn done(g: GraphView, step: StepView) -> bool {
    match step {
        StepView::CreateCollection(c) => g.has_collection(c.name),
        StepView::InsertEntry(r) => g.has_entry(r.name),
        StepView::InsertMusic(m) => g.has_music_row(m.path),
        StepView::Relate { kind, link } => match kind {
            Rel::Collect => has_key(g.collect, by_ends(), link),
            Rel::HasMusic => has_key(g.has_music, by_ends(), link),
            Rel::SignIn => false,
        },
        _ => true,
    }
}

/// Every edge of the steps can be laid when its turn comes: the rows it
/// joins are there by then.
pub open spec fn edges_accepted(g: GraphView, steps: Seq<StepView>) -> bool {
    forall|n: int|
        0 <= n < steps.len() ==> match #[trigger] steps[n] {
            StepView::Relate { kind, link } => g.run(steps, n).relatable(kind, link),
            _ => true,
        }
}

/// A step whose addition is there changes nothing.
pub proof fn lemma_done_is_settled(g: GraphView, step: StepView)
    requires
        is_ingest(step),
        done(g, step),
    ensures
        g.apply(step) == g,
{
}

/// After an ingestion step its addition is there, provided its edge
/// could be laid.
pub proof fn lemma_done_after(g: GraphView, step: StepView)
    requires
        g.unique(),
        is_ingest(step),
        step matches StepView::Relate { kind, link } ==> g.relatable(kind, link),
    ensures
        done(g.apply(step), step),
{
    match step {
        StepView::CreateCollection(c) => lemma_with_new(g.collections, by_name(), c),
        StepView::InsertEntry(r) => lemma_with_new(g.entries, by_entry_name(), r),
        StepView::InsertMusic(m) => lemma_with_new(g.musics, by_path(), m),
        StepView::Relate { kind, link } => {
            match kind {
                Rel::Collect => {
                    lemma_with_new(g.collect, by_ends(), link);
                    assert(by_ends()(link) == link);
                },
                _ => {
                    lemma_with_new(g.has_music, by_ends(), link);
                    assert(by_ends()(link) == link);
                },
            }
        },
        _ => {},
    }
}

/// What is there stays there through an ingestion step.
pub proof fn lemma_done_stays(g: GraphView, t: StepView, step: StepView)
    requires
        g.unique(),
        is_ingest(t),
        is_ingest(step),
        done(g, step),
    ensures
        done(g.apply(t), step),
{
    match t {
        StepView::CreateCollection(c) => lemma_with_new(g.collections, by_name(), c),
        StepView::InsertEntry(r) => lemma_with_new(g.entries, by_entry_name(), r),
        StepView::InsertMusic(m) => lemma_with_new(g.musics, by_path(), m),
        StepView::Relate { kind, link } => {
            lemma_with_new(g.collect, by_ends(), link);
            lemma_with_new(g.has_music, by_ends(), link);
        },
        _ => {},
    }
}

/// After a run of ingestion steps the addition of each of them is
/// there.
pub proof fn lemma_all_done_after_run(g: GraphView, steps: Seq<StepView>, n: int, k: int)
    requires
        g.wf(),
        0 <= k < n <= steps.len(),
        forall|i: int| 0 <= i < steps.len() ==> is_ingest(#[trigger] steps[i]),
        edges_accepted(g, steps),
    ensures
        done(g.run(steps, n), steps[k]),
    decreases n,
{
    lemma_run_wf(g, steps, n - 1);
    if k == n - 1 {
        lemma_done_after(g.run(steps, n - 1), steps[n - 1]);
    } else {
        lemma_all_done_after_run(g, steps, n - 1, k);
        lemma_done_stays(g.run(steps, n - 1), steps[n - 1], steps[k]);
    }
}

/// A run of steps whose additions are all there changes nothing.
pub proof fn lemma_rerun_is_settled(h: GraphView, steps: Seq<StepView>, n: int)
    requires
        0 <= n <= steps.len(),
        forall|i: int| 0 <= i < steps.len() ==> is_ingest(#[trigger] steps[i]),
        forall|i: int| 0 <= i < steps.len() ==> done(h, #[trigger] steps[i]),
    ensures
        h.run(steps, n) == h,
    decreases n,
{
    if n > 0 {
        lemma_rerun_is_settled(h, steps, n - 1);
        lemma_done_is_settled(h, steps[n - 1]);
    }
}

/// Ingestion is idempotent: running the steps of an ingestion a second
/// time leaves the graph as the first run left it, so no row and no edge
/// comes twice. It holds of steps that lay each edge after the rows it
/// joins.
pub proof fn lemma_ingest_twice_is_once(g: GraphView, steps: Seq<StepView>)
    requires
        g.wf(),
        forall|i: int| 0 <= i < steps.len() ==> is_ingest(#[trigger] steps[i]),
        edges_accepted(g, steps),
    ensures
        g.run_all(steps).run_all(steps) == g.run_all(steps),
{
    let h = g.run_all(steps);
    assert forall|i: int| 0 <= i < steps.len() implies done(h, #[trigger] steps[i]) by {
        lemma_all_done_after_run(g, steps, steps.len() as int, i);
    }
    lemma_rerun_is_settled(h, steps, steps.len() as int);
}

/// An update of a music that the store does not hold adds it.
pub proof fn lemma_update_inserts_missing(g: GraphView, m: MusicView)
    requires
        !g.has_music_row(m.path),
    ensures
        g.update_music(m).musics == g.musics.push(m),
        g.update_music(m).has_music_row(m.path),
{
    lemma_push_has_key(g.musics, by_path(), m, m.path);
}

/// Renaming a collection leaves every entry and every music as it is; the
/// collection answers to its new name, and each of its edges leads from
/// the new name to the entry it led to.
pub proof fn lemma_rename_keeps_rows(g: GraphView, from: Seq<char>, to: Seq<char>)
    requires
        g.wf(),
        g.has_collection(from),
        !g.has_collection(to),
    ensures
        g.rename_collection(from, to).entries == g.entries,
        g.rename_collection(from, to).musics == g.musics,
        g.rename_collection(from, to).has_music == g.has_music,
        g.rename_collection(from, to).has_collection(to),
        !g.rename_collection(from, to).has_collection(from),
        g.rename_collection(from, to).collect.len() == g.collect.len(),
        forall|i: int|
            0 <= i < g.collect.len() ==> (#[trigger] g.rename_collection(from, to).collect[i]).to
                == g.collect[i].to && g.rename_collection(from, to).collect[i].from == if g.collect[i].from
                == from {
                to
            } else {
                g.collect[i].from
            },
{
    let h = g.rename_collection(from, to);
    let w = choose|w: int|
        0 <= w < g.collections.len() && #[trigger] by_name()(g.collections[w]) == from;
    assert(by_name()(h.collections[w]) == to);
    if h.has_collection(from) {
        let k = choose|k: int|
            0 <= k < h.collections.len() && #[trigger] by_name()(h.collections[k]) == from;
        assert(by_name()(g.collections[k]) == from || by_name()(g.collections[k]) == by_name()(
            h.collections[k],
        ));
        if by_name()(g.collections[k]) != from {
            assert(false);
        } else {
            assert(by_name()(h.collections[k]) == to);
            assert(g.has_collection(to)) by {
                assert(to == from);
                assert(by_name()(g.collections[k]) == to);
            }
        }
    }
}

} // verus!
