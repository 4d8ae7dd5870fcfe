//! The coordinator's decisions: what `create`, `update`, `download_ok`,
//! `recheck_folder`, `read` and the exclude commands make of what they are
//! given. Reading files, measuring and writing the store are the caller's.

use vstd::prelude::*;
use crate::graph::{averaged, by_entry_name, levels_of, CollectionView, GraphView, Link, StepView};
use crate::graph_laws::{
    leaves_entries, lemma_refresh_average, lemma_run_leaves_entries, lemma_run_wf,
};
use crate::ingest::{
    collect_steps, has_music_steps, music_steps, placed_in, track_levels, track_row, track_views,
    FolderView, Track,
};
use crate::errors::ErrorKind;
use crate::journal::opt_text;
use crate::loudness::{average, entry_average, entry_levels, mean_known, music_levels};
use crate::model::{
    copy_musics, music_views, CollectMission, Collection, Entry, Music, MusicView, Playlist,
    RowView,
};
use crate::pipeline::{is_unprobed, texts};
use crate::plan::{rows_keyed, step_views, Step};
use crate::seqs::{lemma_filter_step, with_changed};
use crate::table::Rel;

verus! {

/// The test "is none of `others`", as a value.
pub open spec fn not_among<A>(others: Seq<A>) -> spec_fn(A) -> bool {
    |x: A| !others.contains(x)
}

/// The test "has a path that is none of `paths`", as a value.
pub open spec fn path_not_among(paths: Seq<Seq<char>>) -> spec_fn(MusicView) -> bool {
    |m: MusicView| !paths.contains(m.path)
}

/// The test "has a path that no row of `rows` has", as a value.
pub open spec fn row_path_not_among(rows: Seq<RowView>) -> spec_fn(RowView) -> bool {
    |r: RowView| !row_paths(rows).contains(r.path)
}

/// The paths of a sequence of musics.
pub open spec fn music_paths(s: Seq<Music>) -> Seq<Seq<char>> {
    Seq::new(s.len(), |i: int| s[i].path@)
}

/// The rows of a sequence of entries.
pub open spec fn entry_rows(s: Seq<Entry>) -> Seq<RowView> {
    Seq::new(s.len(), |i: int| s[i].row())
}

/// The paths of a sequence of rows.
pub open spec fn row_paths(s: Seq<RowView>) -> Seq<Option<Seq<char>>> {
    Seq::new(s.len(), |i: int| s[i].path)
}

fn same_opt_text(a: &Option<String>, b: &Option<String>) -> (r: bool)
    ensures
        r == (opt_text(*a) == opt_text(*b)),
{
    match (a, b) {
        (Some(x), Some(y)) => *x == *y,
        (None, None) => true,
        _ => false,
    }
}

/// Whether `x` is one of `items`. The list is searched in order, for the
/// reason that the module `diff` gives.
fn is_among(items: &Vec<String>, x: &str) -> (r: bool)
    ensures
        r == texts(items@).contains(x@),
{
    let mut i: usize = 0;
    while i < items.len()
        invariant
            i <= items.len(),
            forall|j: int| 0 <= j < i ==> texts(items@)[j] != x@,
        decreases items.len() - i,
    {
        if crate::text::same_text(items[i].as_str(), x) {
            assert(texts(items@)[i as int] == x@);
            return true;
        }
        i += 1;
    }
    false
}

fn has_path(musics: &Vec<Music>, x: &str) -> (r: bool)
    ensures
        r == music_paths(musics@).contains(x@),
{
    let mut i: usize = 0;
    while i < musics.len()
        invariant
            i <= musics.len(),
            forall|j: int| 0 <= j < i ==> music_paths(musics@)[j] != x@,
        decreases musics.len() - i,
    {
        if crate::text::same_text(musics[i].path.as_str(), x) {
            assert(music_paths(musics@)[i as int] == x@);
            return true;
        }
        i += 1;
    }
    false
}

fn has_row_path(entries: &Vec<Entry>, p: &Option<String>) -> (r: bool)
    ensures
        r == row_paths(entry_rows(entries@)).contains(opt_text(*p)),
{
    let mut i: usize = 0;
    while i < entries.len()
        invariant
            i <= entries.len(),
            forall|j: int| 0 <= j < i ==> row_paths(entry_rows(entries@))[j] != opt_text(*p),
        decreases entries.len() - i,
    {
        if same_opt_text(&entries[i].path, p) {
            assert(row_paths(entry_rows(entries@))[i as int] == opt_text(*p));
            return true;
        }
        i += 1;
    }
    false
}

/// The files that are not yet musics of the entry: those of `items`
/// whose path none of `existing` has, in the order of `items`.
pub fn unlinked(items: &Vec<String>, existing: &Vec<Music>) -> (fresh: Vec<String>)
    ensures
        texts(fresh@) == texts(items@).filter(not_among(music_paths(existing@))),
{
    let ghost p = not_among(music_paths(existing@));
    let mut fresh: Vec<String> = Vec::new();
    let mut i: usize = 0;
    proof {
        reveal(Seq::filter);
        assert(texts(items@).take(0).filter(p) =~= texts(fresh@));
    }
    while i < items.len()
        invariant
            i <= items.len(),
            p == not_among(music_paths(existing@)),
            texts(fresh@) == texts(items@).take(i as int).filter(p),
        decreases items.len() - i,
    {
        proof {
            lemma_filter_step(texts(items@), p, i as int);
        }
        if !has_path(existing, items[i].as_str()) {
            fresh.push(items[i].clone());
            assert(texts(fresh@) =~= texts(items@).take(i as int).filter(p).push(
                texts(items@)[i as int],
            ));
        }
        i += 1;
    }
    assert(texts(items@).take(items@.len() as int) =~= texts(items@));
    fresh
}

/// The musics whose file is gone: those of `musics` whose path is none
/// of `found`, in the order of `musics`.
pub fn vanished(musics: &Vec<Music>, found: &Vec<String>) -> (gone: Vec<Music>)
    ensures
        music_views(gone@) == music_views(musics@).filter(path_not_among(texts(found@))),
{
    let ghost p = path_not_among(texts(found@));
    let mut gone: Vec<Music> = Vec::new();
    let mut i: usize = 0;
    proof {
        reveal(Seq::filter);
        assert(music_views(musics@).take(0).filter(p) =~= music_views(gone@));
    }
    while i < musics.len()
        invariant
            i <= musics.len(),
            p == path_not_among(texts(found@)),
            music_views(gone@) == music_views(musics@).take(i as int).filter(p),
        decreases musics.len() - i,
    {
        proof {
            lemma_filter_step(music_views(musics@), p, i as int);
        }
        if !is_among(found, musics[i].path.as_str()) {
            gone.push(musics[i].copy());
            assert(music_views(gone@) =~= music_views(musics@).take(i as int).filter(p).push(
                music_views(musics@)[i as int],
            ));
        }
        i += 1;
    }
    assert(music_views(musics@).take(musics@.len() as int) =~= music_views(musics@));
    gone
}

/// What a recheck of a tracked folder finds: the files to add (on disk,
/// not in the graph) and the musics to remove (in the graph, not on
/// disk), by path.
pub fn recheck_diff(musics: &Vec<Music>, found: &Vec<String>) -> (r: (Vec<String>, Vec<Music>))
    ensures
        texts(r.0@) == texts(found@).filter(not_among(music_paths(musics@))),
        music_views(r.1@) == music_views(musics@).filter(path_not_among(texts(found@))),
{
    (unlinked(found, musics), vanished(musics, found))
}

/// A plan that grows by one step grows by that step's view.
proof fn lemma_grown(
    before: Seq<Step>,
    after: Seq<Step>,
    part: Seq<StepView>,
    grown: Seq<StepView>,
    step: Step,
)
    requires
        after == before.push(step),
        step_views(before) == part,
        grown == part.push(step@),
    ensures
        step_views(after) == grown,
{
    assert(step_views(after) =~= step_views(before).push(step@));
}

/// One step per row: the collection `name` lets go of the entry.
pub open spec fn release_steps(name: Seq<char>, rows: Seq<RowView>) -> Seq<StepView> {
    Seq::new(
        rows.len(),
        |i: int|
            StepView::Unrelate { kind: Rel::Collect, link: Link { from: name, to: rows[i].name } },
    )
}

/// What `create` writes at once: the collection, with nothing left out,
/// and one `collect` edge to each entry that the mission passes through.
pub open spec fn create_plan(name: Seq<char>, rows: Seq<RowView>) -> Seq<StepView> {
    seq![StepView::CreateCollection(CollectionView { name, exclude: Seq::empty() })]
        + collect_steps(name, rows)
}

/// The steps of `create`, the ingestion of folders and links apart.
pub fn create(mission: &CollectMission) -> (plan: Vec<Step>)
    ensures
        step_views(plan@) == create_plan(mission.name@, entry_rows(mission.entries@)),
{
    let ghost rows = entry_rows(mission.entries@);
    let ghost name = mission.name@;
    let mut plan: Vec<Step> = Vec::new();
    let first = Step::CreateCollection(
        Collection { name: mission.name.clone(), exclude: Vec::new() },
    );
    assert(music_views(Seq::<Music>::empty()) =~= Seq::<MusicView>::empty());
    plan.push(first);
    assert(step_views(plan@) =~= create_plan(name, rows.take(0)));
    let mut i: usize = 0;
    while i < mission.entries.len()
        invariant
            i <= mission.entries.len(),
            rows == entry_rows(mission.entries@),
            name == mission.name@,
            step_views(plan@) == create_plan(name, rows.take(i as int)),
        decreases mission.entries.len() - i,
    {
        let ghost before = plan@;
        let step = Step::Relate {
            kind: Rel::Collect,
            from: mission.name.clone(),
            to: mission.entries[i].name.clone(),
        };
        proof {
            assert(create_plan(name, rows.take(i + 1)) =~= create_plan(
                name,
                rows.take(i as int),
            ).push(step@));
            lemma_grown(
                before,
                before.push(step),
                create_plan(name, rows.take(i as int)),
                create_plan(name, rows.take(i + 1)),
                step,
            );
        }
        plan.push(step);
        i += 1;
    }
    assert(rows.take(rows.len() as int) =~= rows);
    plan
}

/// The renaming of `update`: one step where the mission's name is not
/// the anchor's.
pub open spec fn rename_part(new_name: Seq<char>, old_name: Seq<char>) -> Seq<StepView> {
    if new_name != old_name {
        seq![StepView::RenameCollection { from: old_name, to: new_name }]
    } else {
        Seq::empty()
    }
}

/// The exclude list of `update`: rewritten where it is not the anchor's.
pub open spec fn exclude_part(
    name: Seq<char>,
    exclude: Seq<MusicView>,
    anchor_exclude: Seq<MusicView>,
) -> Seq<StepView> {
    if exclude != anchor_exclude {
        seq![StepView::SetExclude { collection: name, exclude }]
    } else {
        Seq::empty()
    }
}

fn same_music(a: &Music, b: &Music) -> (r: bool)
    ensures
        r == (a@ == b@),
{
    a.path == b.path && a.title == b.title && a.avg_db == b.avg_db && a.base_bias == b.base_bias
        && a.user_boost == b.user_boost && a.fatigue == b.fatigue && a.diversity == b.diversity
}

fn same_musics(a: &Vec<Music>, b: &Vec<Music>) -> (r: bool)
    ensures
        r == (music_views(a@) == music_views(b@)),
{
    if a.len() != b.len() {
        assert(music_views(a@).len() != music_views(b@).len());
        return false;
    }
    let mut i: usize = 0;
    while i < a.len()
        invariant
            i <= a.len(),
            a@.len() == b@.len(),
            forall|j: int| 0 <= j < i ==> a@[j]@ == b@[j]@,
        decreases a.len() - i,
    {
        if !same_music(&a[i], &b[i]) {
            assert(music_views(a@)[i as int] != music_views(b@)[i as int]);
            return false;
        }
        i += 1;
    }
    assert(music_views(a@) =~= music_views(b@));
    true
}

/// What `update` writes at once. The collection takes the mission's
/// name and, where it changed, the mission's exclude list. Entries are compared by
/// path: the anchor's entries whose path the mission does not hold are
/// let go, the mission's entries whose path the anchor does not hold are
/// collected.
pub open spec fn update_plan(
    name: Seq<char>,
    exclude: Seq<MusicView>,
    rows: Seq<RowView>,
    anchor_name: Seq<char>,
    anchor_exclude: Seq<MusicView>,
    anchor_rows: Seq<RowView>,
) -> Seq<StepView> {
    rename_part(name, anchor_name) + exclude_part(name, exclude, anchor_exclude)
        + release_steps(name, anchor_rows.filter(row_path_not_among(rows))) + collect_steps(
        name,
        rows.filter(row_path_not_among(anchor_rows)),
    )
}

/// The steps of `update`, the ingestion of folders and links apart. The
/// steps behind the renaming name the collection by the mission's name:
/// they are for a store in which that name is the anchor's or is free.
pub fn update(mission: &CollectMission, anchor: &Playlist) -> (plan: Vec<Step>)
    ensures
        step_views(plan@) == update_plan(
            mission.name@,
            music_views(mission.exclude@),
            entry_rows(mission.entries@),
            anchor.name@,
            music_views(anchor.exclude@),
            entry_rows(anchor.entries@),
        ),
{
    let ghost name = mission.name@;
    let ghost rows = entry_rows(mission.entries@);
    let ghost old_rows = entry_rows(anchor.entries@);
    let ghost gone = row_path_not_among(rows);
    let ghost fresh = row_path_not_among(old_rows);
    let mut plan: Vec<Step> = Vec::new();
    if !(mission.name == anchor.name) {
        plan.push(
            Step::RenameCollection { from: anchor.name.clone(), to: mission.name.clone() },
        );
    }
    assert(step_views(plan@) =~= rename_part(name, anchor.name@));
    if !same_musics(&mission.exclude, &anchor.exclude) {
        plan.push(
            Step::SetExclude {
                collection: mission.name.clone(),
                exclude: copy_musics(&mission.exclude),
            },
        );
    }
    let ghost head = rename_part(name, anchor.name@) + exclude_part(
        name,
        music_views(mission.exclude@),
        music_views(anchor.exclude@),
    );
    assert(step_views(plan@) =~= head);
    proof {
        reveal(Seq::filter);
        assert(step_views(plan@) =~= head + release_steps(name, old_rows.take(0).filter(gone)));
    }
    let mut i: usize = 0;
    while i < anchor.entries.len()
        invariant
            i <= anchor.entries.len(),
            name == mission.name@,
            rows == entry_rows(mission.entries@),
            old_rows == entry_rows(anchor.entries@),
            gone == row_path_not_among(rows),
            step_views(plan@) == head + release_steps(name, old_rows.take(i as int).filter(gone)),
        decreases anchor.entries.len() - i,
    {
        proof {
            lemma_filter_step(old_rows, gone, i as int);
        }
        if !has_row_path(&mission.entries, &anchor.entries[i].path) {
            let ghost before = plan@;
            let step = Step::Unrelate {
                kind: Rel::Collect,
                from: mission.name.clone(),
                to: anchor.entries[i].name.clone(),
            };
            proof {
                let part = head + release_steps(name, old_rows.take(i as int).filter(gone));
                let grown = head + release_steps(name, old_rows.take(i + 1).filter(gone));
                assert(grown =~= part.push(step@));
                lemma_grown(before, before.push(step), part, grown, step);
            }
            plan.push(step);
        }
        i += 1;
    }
    assert(old_rows.take(old_rows.len() as int) =~= old_rows);
    let ghost mid = head + release_steps(name, old_rows.filter(gone));
    proof {
        reveal(Seq::filter);
        assert(step_views(plan@) =~= mid + collect_steps(name, rows.take(0).filter(fresh)));
    }
    let mut j: usize = 0;
    while j < mission.entries.len()
        invariant
            j <= mission.entries.len(),
            name == mission.name@,
            rows == entry_rows(mission.entries@),
            old_rows == entry_rows(anchor.entries@),
            fresh == row_path_not_among(old_rows),
            step_views(plan@) == mid + collect_steps(name, rows.take(j as int).filter(fresh)),
        decreases mission.entries.len() - j,
    {
        proof {
            lemma_filter_step(rows, fresh, j as int);
        }
        if !has_row_path(&anchor.entries, &mission.entries[j].path) {
            let ghost before = plan@;
            let step = Step::Relate {
                kind: Rel::Collect,
                from: mission.name.clone(),
                to: mission.entries[j].name.clone(),
            };
            proof {
                let part = mid + collect_steps(name, rows.take(j as int).filter(fresh));
                let grown = mid + collect_steps(name, rows.take(j + 1).filter(fresh));
                assert(grown =~= part.push(step@));
                lemma_grown(before, before.push(step), part, grown, step);
            }
            plan.push(step);
        }
        j += 1;
    }
    assert(rows.take(rows.len() as int) =~= rows);
    plan
}

/// What `download_ok` writes for an entry whose download is done: the
/// musics of the new tracks, one `has_music` edge to each, then the entry
/// itself: downloaded, at the saved path, with the mean of the known
/// loudnesses of all its musics, old and new, as they were measured; and
/// last the entry's average is recomputed from the musics that the store
/// holds for it, which differ from the measured ones where a track's path
/// had a music before.
pub open spec fn download_plan(
    name: Seq<char>,
    path: Seq<char>,
    existing: Seq<Option<i32>>,
    tracks: Seq<crate::ingest::TrackView>,
) -> Seq<StepView> {
    let placed = placed_in(FolderView { path, name, tracks });
    music_steps(placed) + has_music_steps(placed) + seq![
        StepView::PatchEntry { name, avg_db: mean_known(existing + track_levels(tracks)), path },
        StepView::RefreshAverage { name },
    ]
}

fn push_track_rows(plan: &mut Vec<Step>, name: &str, path: &str, tracks: &Vec<Track>)
    requires
        rows_keyed(old(plan)@),
    ensures
        step_views(final(plan)@) == step_views(old(plan)@) + music_steps(
            placed_in(FolderView { path: path@, name: name@, tracks: track_views(tracks@) }),
        ) + has_music_steps(
            placed_in(FolderView { path: path@, name: name@, tracks: track_views(tracks@) }),
        ),
        rows_keyed(final(plan)@),
{
    let ghost base = step_views(plan@);
    let ghost placed = placed_in(
        FolderView { path: path@, name: name@, tracks: track_views(tracks@) },
    );
    let mut i: usize = 0;
    assert(step_views(plan@) =~= base + music_steps(placed.take(0)));
    while i < tracks.len()
        invariant
            rows_keyed(plan@),
            i <= tracks.len(),
            placed == placed_in(
                FolderView { path: path@, name: name@, tracks: track_views(tracks@) },
            ),
            step_views(plan@) == base + music_steps(placed.take(i as int)),
        decreases tracks.len() - i,
    {
        let ghost before = plan@;
        let step = Step::InsertMusic(track_row(&tracks[i]));
        proof {
            let part = base + music_steps(placed.take(i as int));
            let grown = base + music_steps(placed.take(i + 1));
            assert(placed[i as int].track == tracks@[i as int]@);
            assert(grown =~= part.push(step@));
            lemma_grown(before, before.push(step), part, grown, step);
        }
        plan.push(step);
        i += 1;
    }
    assert(placed.take(placed.len() as int) =~= placed);
    let ghost mid = base + music_steps(placed);
    let mut j: usize = 0;
    assert(step_views(plan@) =~= mid + has_music_steps(placed.take(0)));
    while j < tracks.len()
        invariant
            rows_keyed(plan@),
            j <= tracks.len(),
            placed == placed_in(
                FolderView { path: path@, name: name@, tracks: track_views(tracks@) },
            ),
            step_views(plan@) == mid + has_music_steps(placed.take(j as int)),
        decreases tracks.len() - j,
    {
        let ghost before = plan@;
        let step = Step::Relate {
            kind: Rel::HasMusic,
            from: name.to_owned(),
            to: tracks[j].path.clone(),
        };
        proof {
            let part = mid + has_music_steps(placed.take(j as int));
            let grown = mid + has_music_steps(placed.take(j + 1));
            assert(placed[j as int].track == tracks@[j as int]@);
            assert(grown =~= part.push(step@));
            lemma_grown(before, before.push(step), part, grown, step);
        }
        plan.push(step);
        j += 1;
    }
}

/// The steps of `download_ok`. `name` is the entry's name, `path` the
/// place its audio was saved at, `existing` the musics it already has and
/// `tracks` the newly measured ones.
pub fn download_ok(name: &str, path: &str, existing: &Vec<Music>, tracks: &Vec<Track>) -> (plan:
    Vec<Step>)
    ensures
        step_views(plan@) == download_plan(
            name@,
            path@,
            music_levels(existing@),
            track_views(tracks@),
        ),
        rows_keyed(plan@),
{
    let mut plan: Vec<Step> = Vec::new();
    assert(step_views(plan@) =~= Seq::<StepView>::empty());
    push_track_rows(&mut plan, name, path, tracks);
    let mut levels: Vec<Option<i32>> = Vec::new();
    let mut i: usize = 0;
    while i < existing.len()
        invariant
            i <= existing.len(),
            levels@ =~= music_levels(existing@).take(i as int),
        decreases existing.len() - i,
    {
        levels.push(existing[i].avg_db);
        i += 1;
    }
    let mut j: usize = 0;
    while j < tracks.len()
        invariant
            j <= tracks.len(),
            levels@ =~= music_levels(existing@) + track_levels(track_views(tracks@)).take(j as int),
        decreases tracks.len() - j,
    {
        levels.push(tracks[j].loudness);
        j += 1;
    }
    assert(levels@ =~= music_levels(existing@) + track_levels(track_views(tracks@)));
    let ghost before = plan@;
    let step = Step::PatchEntry {
        name: name.to_owned(),
        avg_db: average(&levels),
        path: path.to_owned(),
    };
    let last = Step::RefreshAverage { name: name.to_owned() };
    proof {
        let part = step_views(before);
        let grown = download_plan(
            name@,
            path@,
            music_levels(existing@),
            track_views(tracks@),
        );
        assert(grown =~= part.push(step@).push(last@));
        lemma_grown(before, before.push(step), part, part.push(step@), step);
        lemma_grown(before.push(step), before.push(step).push(last), part.push(step@), grown, last);
    }
    plan.push(step);
    plan.push(last);
    plan
}

/// One step per music: it leaves the store.
pub open spec fn delete_steps(gone: Seq<MusicView>) -> Seq<StepView> {
    Seq::new(gone.len(), |i: int| StepView::DeleteMusic { path: gone[i].path })
}

/// What a recheck writes: the vanished musics leave, the new tracks come
/// in, the entry has each of them, and last the entry's average loudness
/// is recomputed from the musics it then has.
pub open spec fn recheck_plan(
    name: Seq<char>,
    path: Seq<char>,
    gone: Seq<MusicView>,
    tracks: Seq<crate::ingest::TrackView>,
) -> Seq<StepView> {
    let placed = placed_in(FolderView { path, name, tracks });
    delete_steps(gone) + music_steps(placed) + has_music_steps(placed) + seq![
        StepView::RefreshAverage { name },
    ]
}

/// The steps of `recheck_folder`, once the new files are measured; the
/// store recomputes the entry's average in the last of them.
pub fn recheck_folder(name: &str, path: &str, gone: &Vec<Music>, tracks: &Vec<Track>) -> (plan:
    Vec<Step>)
    ensures
        step_views(plan@) == recheck_plan(name@, path@, music_views(gone@), track_views(tracks@)),
        rows_keyed(plan@),
{
    let ghost g = music_views(gone@);
    let mut plan: Vec<Step> = Vec::new();
    assert(step_views(plan@) =~= delete_steps(g.take(0)));
    let mut i: usize = 0;
    while i < gone.len()
        invariant
            i <= gone.len(),
            g == music_views(gone@),
            rows_keyed(plan@),
            step_views(plan@) == delete_steps(g.take(i as int)),
        decreases gone.len() - i,
    {
        let ghost before = plan@;
        let step = Step::DeleteMusic { path: gone[i].path.clone() };
        proof {
            let part = delete_steps(g.take(i as int));
            let grown = delete_steps(g.take(i + 1));
            assert(grown =~= part.push(step@));
            lemma_grown(before, before.push(step), part, grown, step);
        }
        plan.push(step);
        i += 1;
    }
    assert(g.take(g.len() as int) =~= g);
    push_track_rows(&mut plan, name, path, tracks);
    let ghost before = plan@;
    let step = Step::RefreshAverage { name: name.to_owned() };
    proof {
        let part = step_views(before);
        let grown = recheck_plan(name@, path@, g, track_views(tracks@));
        assert(grown =~= part.push(step@));
        lemma_grown(before, before.push(step), part, grown, step);
    }
    plan.push(step);
    plan
}

/// A recheck recomputes the entry's average. After the steps of
/// `recheck_folder` the graph is well-formed; the row of the entry carries
/// the mean of the known loudnesses of the musics that the entry then has,
/// and is in all else as it was; and every other entry is as it was.
pub proof fn lemma_recheck_recomputes_average(
    g: GraphView,
    name: Seq<char>,
    path: Seq<char>,
    gone: Seq<MusicView>,
    tracks: Seq<crate::ingest::TrackView>,
)
    requires
        g.wf(),
    ensures
        ({
            let h = g.run_all(recheck_plan(name, path, gone, tracks));
            &&& h.wf()
            &&& h.entries == with_changed(
                g.entries,
                by_entry_name(),
                name,
                averaged(h.entry_mean(name)),
            )
            &&& h.has_entry(name) == g.has_entry(name)
            &&& g.has_entry(name) ==> h.row_named(name).avg_db == mean_known(
                levels_of(h.entry_with_musics(name).musics),
            )
        }),
{
    let plan = recheck_plan(name, path, gone, tracks);
    let n = plan.len() - 1;
    let p = g.run(plan, n);
    lemma_run_wf(g, plan, plan.len() as int);
    assert forall|i: int| 0 <= i < n implies leaves_entries(
        #[trigger] plan[i],
    ) by {}
    lemma_run_leaves_entries(g, plan, n);
    assert(plan[n] == StepView::RefreshAverage { name });
    assert(g.run_all(plan) == p.refresh_average(name));
    lemma_refresh_average(p, name);
    assert(p.has_entry(name) == g.has_entry(name));
}

/// An entry as it is answered after its musics were read anew: the
/// musics given, and their mean loudness; the rest as it was.
pub fn refreshed_entry(entry: Entry, musics: Vec<Music>) -> (e: Entry)
    ensures
        e.musics == musics,
        e.avg_db == mean_known(music_levels(musics@)),
        e.name == entry.name,
        e.path == entry.path,
        e.url == entry.url,
        e.downloaded_ok == entry.downloaded_ok,
        e.tracking == entry.tracking,
        e.entry_type == entry.entry_type,
{
    let avg = crate::loudness::music_average(&musics);
    Entry {
        path: entry.path,
        name: entry.name,
        musics,
        avg_db: avg,
        url: entry.url,
        downloaded_ok: entry.downloaded_ok,
        tracking: entry.tracking,
        entry_type: entry.entry_type,
    }
}

/// The playlist that `read` answers for a collection and the entries
/// linked to it. Its average loudness is the mean of the entries' known
/// averages, and is absent where no entry has one.
pub fn read(col: Collection, entries: Vec<Entry>) -> (p: Playlist)
    ensures
        p.name == col.name,
        p.exclude == col.exclude,
        p.entries == entries,
        p.avg_db == mean_known(entry_levels(entries@)),
{
    let avg = entry_average(&entries);
    Playlist { name: col.name, avg_db: avg, entries, exclude: col.exclude }
}

/// A music is left out of a collection: it comes last in the exclude
/// list.
pub fn unstar(col: Collection, music: Music) -> (c: Collection)
    ensures
        c.name == col.name,
        c.exclude@ == col.exclude@.push(music),
{
    let mut exclude = col.exclude;
    exclude.push(music);
    Collection { name: col.name, exclude }
}

/// A music is let in again: the exclude list loses every music of its
/// path, and nothing is added.
pub fn rmexclude(col: Collection, music: &Music) -> (c: Collection)
    ensures
        c.name == col.name,
        music_views(c.exclude@) == music_views(col.exclude@).filter(
            path_not_among(seq![music.path@]),
        ),
{
    let ghost p = path_not_among(seq![music.path@]);
    let ghost all = music_views(col.exclude@);
    let mut kept: Vec<Music> = Vec::new();
    let mut i: usize = 0;
    proof {
        reveal(Seq::filter);
        assert(all.take(0).filter(p) =~= music_views(kept@));
    }
    while i < col.exclude.len()
        invariant
            i <= col.exclude.len(),
            p == path_not_among(seq![music.path@]),
            all == music_views(col.exclude@),
            music_views(kept@) == all.take(i as int).filter(p),
        decreases col.exclude.len() - i,
    {
        proof {
            lemma_filter_step(all, p, i as int);
            assert(seq![music.path@].contains(all[i as int].path) <==> all[i as int].path
                == music.path@) by {
                if all[i as int].path == music.path@ {
                    assert(seq![music.path@][0] == all[i as int].path);
                }
            }
        }
        if !(col.exclude[i].path == music.path) {
            kept.push(col.exclude[i].copy());
            assert(music_views(kept@) =~= all.take(i as int).filter(p).push(all[i as int]));
        }
        i += 1;
    }
    assert(all.take(all.len() as int) =~= all);
    Collection { name: col.name, exclude: kept }
}

/// Whether `create` goes on: the store takes no second collection of a
/// name, so a name that is taken is answered `StoreFailed`.
pub open spec fn create_admitted(name_taken: bool) -> Result<(), ErrorKind> {
    if name_taken {
        Err(ErrorKind::StoreFailed)
    } else {
        Ok(())
    }
}

/// Whether `update` goes on. The anchor's collection must be there, else
/// the answer is `NotFound`; and where the mission renames it, the new name
/// must be free, else the answer is `StoreFailed`.
pub open spec fn update_admitted(anchor_there: bool, renamed: bool, name_taken: bool) -> Result<
    (),
    ErrorKind,
> {
    if !anchor_there {
        Err(ErrorKind::NotFound)
    } else if renamed && name_taken {
        Err(ErrorKind::StoreFailed)
    } else {
        Ok(())
    }
}

/// Whether `delete` goes on: a collection that is not there is answered
/// `NotFound`.
pub open spec fn delete_admitted(there: bool) -> Result<(), ErrorKind> {
    if there {
        Ok(())
    } else {
        Err(ErrorKind::NotFound)
    }
}

/// Whether `create` goes on, given whether the store holds a collection
/// of the mission's name.
pub fn admit_create(name_taken: bool) -> (r: Result<(), ErrorKind>)
    ensures
        r == create_admitted(name_taken),
{
    if name_taken {
        Err(ErrorKind::StoreFailed)
    } else {
        Ok(())
    }
}

/// Whether `update` goes on, given whether the store holds the anchor's
/// collection, whether the mission renames it, and whether the store holds a
/// collection of the new name.
pub fn admit_update(anchor_there: bool, renamed: bool, name_taken: bool) -> (r: Result<
    (),
    ErrorKind,
>)
    ensures
        r == update_admitted(anchor_there, renamed, name_taken),
{
    if !anchor_there {
        Err(ErrorKind::NotFound)
    } else if renamed && name_taken {
        Err(ErrorKind::StoreFailed)
    } else {
        Ok(())
    }
}

/// Whether `delete` goes on, given whether the store holds the collection.
pub fn admit_delete(there: bool) -> (r: Result<(), ErrorKind>)
    ensures
        r == delete_admitted(there),
{
    if there {
        Ok(())
    } else {
        Err(ErrorKind::NotFound)
    }
}

/// The step of `delete`: the collection leaves; its entries and musics
/// stay for reuse.
pub fn delete(name: String) -> (plan: Vec<Step>)
    ensures
        step_views(plan@) == seq![StepView::DeleteCollection { name: name@ }],
{
    let mut plan: Vec<Step> = Vec::new();
    plan.push(Step::DeleteCollection { name });
    assert(step_views(plan@) =~= seq![StepView::DeleteCollection { name: name@ }]);
    plan
}

/// The step of `delete_music`.
pub fn delete_music(music: Music) -> (plan: Vec<Step>)
    ensures
        step_views(plan@) == seq![StepView::DeleteMusic { path: music.path@ }],
{
    let mut plan: Vec<Step> = Vec::new();
    plan.push(Step::DeleteMusic { path: music.path });
    assert(step_views(plan@) =~= seq![StepView::DeleteMusic { path: music.path@ }]);
    plan
}

/// The job with which `update_weblist` runs the pipeline anew on a web
/// entry. An entry without URL, or with an empty one, is refused.
pub fn update_weblist(entry: Entry, playlist: String) -> (r: Result<crate::pipeline::Entry, String>)
    ensures
        match r {
            Ok(e) => {
                &&& entry.url is Some
                &&& entry.url->0@.len() > 0
                &&& is_unprobed(e, e.id, entry.url->0@, entry.name@)
                &&& e.playlist == playlist
                &&& e.error is None
            },
            Err(msg) => {
                &&& entry.url is None || entry.url->0@.len() == 0
                &&& msg@ == "url is empty"@
            },
        },
{
    let empty = match &entry.url {
        Some(u) => u.as_str().unicode_len() == 0,
        None => true,
    };
    if empty {
        Err("url is empty".to_owned())
    } else {
        Ok(entry.into_ytdlp_entry(playlist))
    }
}

} // verus!
