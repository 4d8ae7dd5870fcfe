//! Ingestion is idempotent: what the steps of an ingestion add is added
//! once, however often the steps are run.

use vstd::prelude::*;
use crate::graph::{CollectionView, GraphView, StepView};
use crate::graph_laws::{
    done, edges_accepted, is_ingest, lemma_done_after, lemma_done_stays,
    lemma_ingest_twice_is_once, lemma_run_wf,
};
use crate::ingest::{
    collect_steps, enqueue_steps, entry_steps, folder_row, has_music_steps, ingest_plan,
    ingest_rows, music_steps, placed_in, placed_tracks, FolderView, LinkView,
};

verus! {

/// What is there stays there while ingestion steps run.
pub proof fn lemma_done_persists(
    g: GraphView,
    steps: Seq<StepView>,
    m: int,
    n: int,
    step: StepView,
)
    requires
        g.wf(),
        0 <= m <= n <= steps.len(),
        forall|i: int| 0 <= i < steps.len() ==> is_ingest(#[trigger] steps[i]),
        is_ingest(step),
        done(g.run(steps, m), step),
    ensures
        done(g.run(steps, n), step),
    decreases n - m,
{
    if m < n {
        lemma_done_persists(g, steps, m, n - 1, step);
        lemma_run_wf(g, steps, n - 1);
        lemma_done_stays(g.run(steps, n - 1), steps[n - 1], step);
    }
}

/// Every track lies in one of the folders.
pub proof fn lemma_placed_folder(folders: Seq<FolderView>, n: int, i: int)
    requires
        0 <= n <= folders.len(),
        0 <= i < placed_tracks(folders, n).len(),
    ensures
        exists|k: int| 0 <= k < n && #[trigger] folders[k].name == placed_tracks(folders, n)[i].folder,
    decreases n,
{
    if n > 0 {
        let before = placed_tracks(folders, n - 1);
        if i < before.len() {
            lemma_placed_folder(folders, n - 1, i);
            let k = choose|k: int|
                0 <= k < n - 1 && #[trigger] folders[k].name == before[i].folder;
            assert(folders[k].name == placed_tracks(folders, n)[i].folder);
        } else {
            assert(placed_tracks(folders, n)[i] == placed_in(folders[n - 1])[i - before.len()]);
            assert(folders[n - 1].name == placed_tracks(folders, n)[i].folder);
        }
    }
}

/// The steps of an ingestion add rows and edges, nothing else.
pub proof fn lemma_plan_is_ingest(name: Seq<char>, folders: Seq<FolderView>, links: Seq<LinkView>)
    ensures
        forall|i: int|
            0 <= i < ingest_plan(name, folders, links).len() ==> is_ingest(
                #[trigger] ingest_plan(name, folders, links)[i],
            ),
{
    let plan = ingest_plan(name, folders, links);
    let rows = ingest_rows(folders, links);
    let placed = placed_tracks(folders, folders.len() as int);
    let a = entry_steps(rows);
    let b = music_steps(placed);
    let c = collect_steps(name, rows);
    let d = has_music_steps(placed);
    let e = enqueue_steps(links.len());
    assert forall|i: int| 0 <= i < plan.len() implies is_ingest(#[trigger] plan[i]) by {
        if i < a.len() {
            assert(plan[i] == a[i]);
        } else if i < a.len() + b.len() {
            assert(plan[i] == b[i - a.len()]);
        } else if i < a.len() + b.len() + c.len() {
            assert(plan[i] == c[i - a.len() - b.len()]);
        } else if i < a.len() + b.len() + c.len() + d.len() {
            assert(plan[i] == d[i - a.len() - b.len() - c.len()]);
        } else {
            assert(plan[i] == e[i - a.len() - b.len() - c.len() - d.len()]);
        }
    }
}

/// In the steps of an ingestion every edge comes after the rows it joins:
/// run on a graph that holds the collection, each edge can be laid when
/// its turn comes.
pub proof fn lemma_plan_edges_accepted(
    g: GraphView,
    name: Seq<char>,
    folders: Seq<FolderView>,
    links: Seq<LinkView>,
)
    requires
        g.wf(),
        g.has_collection(name),
    ensures
        edges_accepted(g, ingest_plan(name, folders, links)),
{
    let plan = ingest_plan(name, folders, links);
    let rows = ingest_rows(folders, links);
    let placed = placed_tracks(folders, folders.len() as int);
    let a = entry_steps(rows);
    let b = music_steps(placed);
    let c = collect_steps(name, rows);
    let d = has_music_steps(placed);
    let e = enqueue_steps(links.len());
    lemma_plan_is_ingest(name, folders, links);
    let col = StepView::CreateCollection(CollectionView { name, exclude: Seq::empty() });
    assert forall|n: int| 0 <= n < plan.len() implies match #[trigger] plan[n] {
        StepView::Relate { kind, link } => g.run(plan, n).relatable(kind, link),
        _ => true,
    } by {
        if n < a.len() {
            assert(plan[n] == a[n]);
        } else if n < a.len() + b.len() {
            assert(plan[n] == b[n - a.len()]);
        } else if n < a.len() + b.len() + c.len() {
            let i = n - a.len() - b.len();
            assert(plan[n] == c[i]);
            assert(plan[i] == a[i]);
            lemma_done_persists(g, plan, 0, n, col);
            lemma_run_wf(g, plan, i);
            lemma_done_after(g.run(plan, i), plan[i]);
            lemma_done_persists(g, plan, i + 1, n, plan[i]);
        } else if n < a.len() + b.len() + c.len() + d.len() {
            let i = n - a.len() - b.len() - c.len();
            assert(plan[n] == d[i]);
            lemma_placed_folder(folders, folders.len() as int, i);
            let k = choose|k: int|
                0 <= k < folders.len() && #[trigger] folders[k].name == placed[i].folder;
            assert(plan[k] == a[k]);
            assert(rows[k] == folder_row(folders[k]));
            lemma_run_wf(g, plan, k);
            lemma_done_after(g.run(plan, k), plan[k]);
            lemma_done_persists(g, plan, k + 1, n, plan[k]);
            let at = a.len() + i;
            assert(plan[at] == b[i]);
            lemma_run_wf(g, plan, at);
            lemma_done_after(g.run(plan, at), plan[at]);
            lemma_done_persists(g, plan, at + 1, n, plan[at]);
        } else {
            assert(plan[n] == e[n - a.len() - b.len() - c.len() - d.len()]);
        }
    }
}

/// Idempotent ingestion: on a graph that holds the collection, running
/// the steps of an ingestion twice yields the graph that running them once
/// yields. No music and no `has_music` edge comes twice.
pub proof fn lemma_ingest_is_idempotent(
    g: GraphView,
    name: Seq<char>,
    folders: Seq<FolderView>,
    links: Seq<LinkView>,
)
    requires
        g.wf(),
        g.has_collection(name),
    ensures
        g.run_all(ingest_plan(name, folders, links)).run_all(ingest_plan(name, folders, links))
            == g.run_all(ingest_plan(name, folders, links)),
        g.run_all(ingest_plan(name, folders, links)).unique(),
{
    let plan = ingest_plan(name, folders, links);
    lemma_plan_is_ingest(name, folders, links);
    lemma_plan_edges_accepted(g, name, folders, links);
    lemma_ingest_twice_is_once(g, plan);
    lemma_run_wf(g, plan, plan.len() as int);
}

} // verus!
