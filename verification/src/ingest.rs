//! The ingestion of folders and links: the rows and edges that a mission
//! brings into the graph, in the order in which they are written.

use vstd::prelude::*;
use crate::graph::{Link, StepView};

use crate::loudness::{average, mean_known};
use crate::files::{path_file_name, path_file_stem};
use crate::model::{DbEntry, DbMusic, EntryType, FolderSample, LinkSample, MusicView, RowView};
use crate::pipeline::{texts, Location, ProcessMsg, ProcessResult};
use crate::text::{holds, joined};
use crate::pipeline::is_unprobed;
use crate::plan::{rows_keyed, step_views, Step};
use crate::table::{RecordKey, Rel, Table};

verus! {

/// How many files of a folder are measured at once.
pub const CONC_LIMIT: usize = 8;

/// An audio file that was measured: its path, its title (the file name
/// without extension) and its loudness, where the measurement gave one.
#[derive(Debug)]
pub struct Track {
    pub path: String,
    pub title: String,
    pub loudness: Option<i32>,
}

/// A folder that was scanned: its path, its name (the last component of
/// the path) and its tracks.
#[derive(Debug)]
pub struct FolderScan {
    pub path: String,
    pub name: String,
    pub tracks: Vec<Track>,
}

/// A track, by its text.
pub struct TrackView {
    pub path: Seq<char>,
    pub title: Seq<char>,
    pub loudness: Option<i32>,
}

/// A scanned folder, by its text.
pub struct FolderView {
    pub path: Seq<char>,
    pub name: Seq<char>,
    pub tracks: Seq<TrackView>,
}

/// A link, by the text that the ingestion reads.
pub struct LinkView {
    pub url: Seq<char>,
    pub title: Seq<char>,
    pub entry_type: EntryType,
    pub tracking: bool,
}

impl View for Track {
    type V = TrackView;

    open spec fn view(&self) -> TrackView {
        TrackView { path: self.path@, title: self.title@, loudness: self.loudness }
    }
}

/// The views of a sequence of tracks.
pub open spec fn track_views(s: Seq<Track>) -> Seq<TrackView> {
    Seq::new(s.len(), |i: int| s[i]@)
}

impl View for FolderScan {
    type V = FolderView;

    open spec fn view(&self) -> FolderView {
        FolderView { path: self.path@, name: self.name@, tracks: track_views(self.tracks@) }
    }
}

/// The views of a sequence of scanned folders.
pub open spec fn folder_views(s: Seq<FolderScan>) -> Seq<FolderView> {
    Seq::new(s.len(), |i: int| s[i]@)
}

/// What the ingestion reads of a link: its URL, its title, its type and
/// whether it is tracked. The count and the status that the UI shows beside
/// a link are not read, and no step depends on them.
pub open spec fn link_view(l: LinkSample) -> LinkView {
    LinkView { url: l.url@, title: l.title_or_msg@, entry_type: l.entry_type, tracking: l.tracking }
}

/// The views of a sequence of links.
pub open spec fn link_views(s: Seq<LinkSample>) -> Seq<LinkView> {
    Seq::new(s.len(), |i: int| link_view(s[i]))
}

/// The music that a measured track is first recorded as: all scoring
/// values at zero.
pub open spec fn track_music(t: TrackView) -> MusicView {
    MusicView {
        path: t.path,
        title: t.title,
        avg_db: t.loudness,
        base_bias: 0,
        user_boost: 0,
        fatigue: 0,
        diversity: 0,
    }
}

/// The loudnesses of a folder's tracks.
pub open spec fn track_levels(s: Seq<TrackView>) -> Seq<Option<i32>> {
    Seq::new(s.len(), |i: int| s[i].loudness)
}

/// The entry that a scanned folder becomes: local, named after the
/// folder, downloaded, with the mean of its tracks' known loudnesses.
pub open spec fn folder_row(f: FolderView) -> RowView {
    RowView {
        name: f.name,
        path: Some(f.path),
        avg_db: mean_known(track_levels(f.tracks)),
        url: None,
        downloaded_ok: Some(true),
        tracking: None,
        entry_type: EntryType::Local,
    }
}

/// The entry that stands for a link until its download is done: named by
/// the link's title, with no path, no loudness and no verdict yet.
pub open spec fn link_row(l: LinkView) -> RowView {
    RowView {
        name: l.title,
        path: None,
        avg_db: None,
        url: Some(l.url),
        downloaded_ok: None,
        tracking: Some(l.tracking),
        entry_type: l.entry_type,
    }
}

/// A track with the name of the folder it lies in.
pub struct Placed {
    pub folder: Seq<char>,
    pub track: TrackView,
}

/// The tracks of the first `n` folders, folder by folder.
pub open spec fn placed_tracks(folders: Seq<FolderView>, n: int) -> Seq<Placed>
    decreases n,
{
    if n <= 0 {
        Seq::empty()
    } else {
        placed_tracks(folders, n - 1) + placed_in(folders[n - 1])
    }
}

/// The entries of an ingestion: one per folder, then one per link.
pub open spec fn ingest_rows(folders: Seq<FolderView>, links: Seq<LinkView>) -> Seq<RowView> {
    Seq::new(folders.len(), |i: int| folder_row(folders[i])) + Seq::new(
        links.len(),
        |i: int| link_row(links[i]),
    )
}

/// One step per entry: the entry is written unless it is there.
pub open spec fn entry_steps(rows: Seq<RowView>) -> Seq<StepView> {
    Seq::new(rows.len(), |i: int| StepView::InsertEntry(rows[i]))
}

/// One step per track: its music is written unless it is there.
pub open spec fn music_steps(placed: Seq<Placed>) -> Seq<StepView> {
    Seq::new(placed.len(), |i: int| StepView::InsertMusic(track_music(placed[i].track)))
}

/// One step per entry: the collection `name` collects it.
pub open spec fn collect_steps(name: Seq<char>, rows: Seq<RowView>) -> Seq<StepView> {
    Seq::new(
        rows.len(),
        |i: int| StepView::Relate { kind: Rel::Collect, link: Link { from: name, to: rows[i].name } },
    )
}

/// One step per track: the entry of its folder has its music.
pub open spec fn has_music_steps(placed: Seq<Placed>) -> Seq<StepView> {
    Seq::new(
        placed.len(),
        |i: int|
            StepView::Relate {
                kind: Rel::HasMusic,
                link: Link { from: placed[i].folder, to: placed[i].track.path },
            },
    )
}

/// One step per link: its download is queued.
pub open spec fn enqueue_steps(n: nat) -> Seq<StepView> {
    Seq::new(n, |i: int| StepView::Enqueue)
}

/// The steps of an ingestion into the collection `name`, in the order
/// that keeps every edge behind the rows it joins: the entries, the
/// musics, the `collect` edges, the `has_music` edges, and last one job
/// per link.
pub open spec fn ingest_plan(name: Seq<char>, folders: Seq<FolderView>, links: Seq<LinkView>)
    -> Seq<StepView> {
    let rows = ingest_rows(folders, links);
    let placed = placed_tracks(folders, folders.len() as int);
    entry_steps(rows) + music_steps(placed) + collect_steps(name, rows) + has_music_steps(placed)
        + enqueue_steps(links.len())
}

/// The row of a measured track.
pub fn track_row(t: &Track) -> (m: DbMusic)
    ensures
        m.music() == track_music(t@),
        m.keyed(),
{
    DbMusic {
        id: RecordKey { table: Table::Music, key: t.path.clone() },
        path: t.path.clone(),
        title: t.title.clone(),
        avg_db: t.loudness,
        base_bias: 0,
        user_boost: 0,
        fatigue: 0,
        diversity: 0,
    }
}

/// The mean loudness of a folder's tracks.
pub fn track_average(tracks: &Vec<Track>) -> (m: Option<i32>)
    ensures
        m == mean_known(track_levels(track_views(tracks@))),
{
    let mut values: Vec<Option<i32>> = Vec::new();
    let mut i: usize = 0;
    while i < tracks.len()
        invariant
            i <= tracks.len(),
            values@.len() == i,
            forall|j: int| 0 <= j < i ==> values@[j] == tracks@[j].loudness,
        decreases tracks.len() - i,
    {
        values.push(tracks[i].loudness);
        i += 1;
    }
    assert(values@ =~= track_levels(track_views(tracks@)));
    average(&values)
}

/// The entry of a scanned folder.
pub fn folder_entry(scan: &FolderScan) -> (r: DbEntry)
    ensures
        r.row() == folder_row(scan@),
        r.keyed(),
{
    DbEntry {
        id: RecordKey { table: Table::Entry, key: scan.name.clone() },
        path: Some(scan.path.clone()),
        name: scan.name.clone(),
        avg_db: track_average(&scan.tracks),
        url: None,
        downloaded_ok: Some(true),
        tracking: None,
        entry_type: EntryType::Local,
    }
}

/// The entry that stands for a link.
pub fn link_entry(link: &LinkSample) -> (r: DbEntry)
    ensures
        r.row() == link_row(link_view(*link)),
        r.keyed(),
{
    DbEntry {
        id: RecordKey { table: Table::Entry, key: link.title_or_msg.clone() },
        path: None,
        name: link.title_or_msg.clone(),
        avg_db: None,
        url: Some(link.url.clone()),
        downloaded_ok: None,
        tracking: Some(link.tracking),
        entry_type: link.entry_type,
    }
}

/// A plan that grows by one step grows by that step's view.
proof fn lemma_pushed(
    before: Seq<Step>,
    after: Seq<Step>,
    base: Seq<StepView>,
    part: Seq<StepView>,
    grown: Seq<StepView>,
    step: Step,
)
    requires
        after == before.push(step),
        step_views(before) == base + part,
        grown == part.push(step@),
    ensures
        step_views(after) == base + grown,
{
    assert(step_views(after) =~= step_views(before).push(step@));
    assert((base + part).push(step@) =~= base + part.push(step@));
}

fn push_entries(plan: &mut Vec<Step>, folders: &Vec<FolderScan>, links: &Vec<LinkSample>)
    requires
        rows_keyed(old(plan)@),
    ensures
        step_views(final(plan)@) == step_views(old(plan)@) + entry_steps(
            ingest_rows(folder_views(folders@), link_views(links@)),
        ),
        rows_keyed(final(plan)@),
{
    let ghost base = step_views(plan@);
    let ghost rows = ingest_rows(folder_views(folders@), link_views(links@));
    let mut i: usize = 0;
    assert(step_views(plan@) =~= base + entry_steps(rows.take(0)));
    while i < folders.len()
        invariant
            rows_keyed(plan@),
            i <= folders.len(),
            rows == ingest_rows(folder_views(folders@), link_views(links@)),
            step_views(plan@) == base + entry_steps(rows.take(i as int)),
        decreases folders.len() - i,
    {
        let ghost before = plan@;
        let step = Step::InsertEntry(folder_entry(&folders[i]));
        proof {
            assert(rows[i as int] == folder_row(folders@[i as int]@));
            assert(entry_steps(rows.take(i + 1)) =~= entry_steps(rows.take(i as int)).push(step@));
            lemma_pushed(
                before,
                before.push(step),
                base,
                entry_steps(rows.take(i as int)),
                entry_steps(rows.take(i + 1)),
                step,
            );
        }
        plan.push(step);
        i += 1;
    }
    let mut j: usize = 0;
    while j < links.len()
        invariant
            rows_keyed(plan@),
            j <= links.len(),
            rows == ingest_rows(folder_views(folders@), link_views(links@)),
            step_views(plan@) == base + entry_steps(rows.take(folders@.len() + j)),
        decreases links.len() - j,
    {
        let ghost before = plan@;
        let step = Step::InsertEntry(link_entry(&links[j]));
        proof {
            let at = folders@.len() + j;
            assert(rows[at] == link_row(link_view(links@[j as int])));
            assert(entry_steps(rows.take(at + 1)) =~= entry_steps(rows.take(at)).push(step@));
            lemma_pushed(
                before,
                before.push(step),
                base,
                entry_steps(rows.take(at)),
                entry_steps(rows.take(at + 1)),
                step,
            );
        }
        plan.push(step);
        j += 1;
    }
    assert(rows.take(rows.len() as int) =~= rows);
}

fn push_collects(
    plan: &mut Vec<Step>,
    name: &str,
    folders: &Vec<FolderScan>,
    links: &Vec<LinkSample>,
)
    requires
        rows_keyed(old(plan)@),
    ensures
        step_views(final(plan)@) == step_views(old(plan)@) + collect_steps(
            name@,
            ingest_rows(folder_views(folders@), link_views(links@)),
        ),
        rows_keyed(final(plan)@),
{
    let ghost base = step_views(plan@);
    let ghost rows = ingest_rows(folder_views(folders@), link_views(links@));
    let mut i: usize = 0;
    assert(step_views(plan@) =~= base + collect_steps(name@, rows.take(0)));
    while i < folders.len()
        invariant
            rows_keyed(plan@),
            i <= folders.len(),
            rows == ingest_rows(folder_views(folders@), link_views(links@)),
            step_views(plan@) == base + collect_steps(name@, rows.take(i as int)),
        decreases folders.len() - i,
    {
        let ghost before = plan@;
        let step = Step::Relate {
            kind: Rel::Collect,
            from: name.to_owned(),
            to: folders[i].name.clone(),
        };
        proof {
            assert(rows[i as int] == folder_row(folders@[i as int]@));
            assert(collect_steps(name@, rows.take(i + 1)) =~= collect_steps(
                name@,
                rows.take(i as int),
            ).push(step@));
            lemma_pushed(
                before,
                before.push(step),
                base,
                collect_steps(name@, rows.take(i as int)),
                collect_steps(name@, rows.take(i + 1)),
                step,
            );
        }
        plan.push(step);
        i += 1;
    }
    let mut j: usize = 0;
    while j < links.len()
        invariant
            rows_keyed(plan@),
            j <= links.len(),
            rows == ingest_rows(folder_views(folders@), link_views(links@)),
            step_views(plan@) == base + collect_steps(name@, rows.take(folders@.len() + j)),
        decreases links.len() - j,
    {
        let ghost before = plan@;
        let step = Step::Relate {
            kind: Rel::Collect,
            from: name.to_owned(),
            to: links[j].title_or_msg.clone(),
        };
        proof {
            let at = folders@.len() + j;
            assert(rows[at] == link_row(link_view(links@[j as int])));
            assert(collect_steps(name@, rows.take(at + 1)) =~= collect_steps(
                name@,
                rows.take(at),
            ).push(step@));
            lemma_pushed(
                before,
                before.push(step),
                base,
                collect_steps(name@, rows.take(at)),
                collect_steps(name@, rows.take(at + 1)),
                step,
            );
        }
        plan.push(step);
        j += 1;
    }
    assert(rows.take(rows.len() as int) =~= rows);
}

/// The tracks of one folder, each with the folder's name.
pub open spec fn placed_in(f: FolderView) -> Seq<Placed> {
    Seq::new(f.tracks.len(), |j: int| Placed { folder: f.name, track: f.tracks[j] })
}

fn push_musics(plan: &mut Vec<Step>, folders: &Vec<FolderScan>)
    requires
        rows_keyed(old(plan)@),
    ensures
        step_views(final(plan)@) == step_views(old(plan)@) + music_steps(
            placed_tracks(folder_views(folders@), folders@.len() as int),
        ),
        rows_keyed(final(plan)@),
{
    let ghost base = step_views(plan@);
    let ghost fv = folder_views(folders@);
    let mut i: usize = 0;
    assert(step_views(plan@) =~= base + music_steps(placed_tracks(fv, 0)));
    while i < folders.len()
        invariant
            rows_keyed(plan@),
            i <= folders.len(),
            fv == folder_views(folders@),
            step_views(plan@) == base + music_steps(placed_tracks(fv, i as int)),
        decreases folders.len() - i,
    {
        let tracks = &folders[i].tracks;
        let ghost done = placed_tracks(fv, i as int);
        let ghost mine = placed_in(fv[i as int]);
        let mut j: usize = 0;
        assert(done + mine.take(0) =~= done);
        while j < tracks.len()
            invariant
            rows_keyed(plan@),
                j <= tracks.len(),
                i < folders.len(),
                fv == folder_views(folders@),
                *tracks == folders@[i as int].tracks,
                mine == placed_in(fv[i as int]),
                step_views(plan@) == base + music_steps(done + mine.take(j as int)),
            decreases tracks.len() - j,
        {
            let ghost before = plan@;
            let step = Step::InsertMusic(track_row(&tracks[j]));
            proof {
                assert(mine[j as int].track == tracks@[j as int]@);
                assert(music_steps(done + mine.take(j + 1)) =~= music_steps(
                    done + mine.take(j as int),
                ).push(step@));
                lemma_pushed(
                    before,
                    before.push(step),
                    base,
                    music_steps(done + mine.take(j as int)),
                    music_steps(done + mine.take(j + 1)),
                    step,
                );
            }
            plan.push(step);
            j += 1;
        }
        assert(mine.take(tracks@.len() as int) =~= mine);
        assert(placed_tracks(fv, i + 1) =~= done + mine);
        i += 1;
    }
}

fn push_has_musics(plan: &mut Vec<Step>, folders: &Vec<FolderScan>)
    requires
        rows_keyed(old(plan)@),
    ensures
        step_views(final(plan)@) == step_views(old(plan)@) + has_music_steps(
            placed_tracks(folder_views(folders@), folders@.len() as int),
        ),
        rows_keyed(final(plan)@),
{
    let ghost base = step_views(plan@);
    let ghost fv = folder_views(folders@);
    let mut i: usize = 0;
    assert(step_views(plan@) =~= base + has_music_steps(placed_tracks(fv, 0)));
    while i < folders.len()
        invariant
            rows_keyed(plan@),
            i <= folders.len(),
            fv == folder_views(folders@),
            step_views(plan@) == base + has_music_steps(placed_tracks(fv, i as int)),
        decreases folders.len() - i,
    {
        let tracks = &folders[i].tracks;
        let ghost done = placed_tracks(fv, i as int);
        let ghost mine = placed_in(fv[i as int]);
        let mut j: usize = 0;
        assert(done + mine.take(0) =~= done);
        while j < tracks.len()
            invariant
            rows_keyed(plan@),
                j <= tracks.len(),
                i < folders.len(),
                fv == folder_views(folders@),
                *tracks == folders@[i as int].tracks,
                mine == placed_in(fv[i as int]),
                step_views(plan@) == base + has_music_steps(done + mine.take(j as int)),
            decreases tracks.len() - j,
        {
            let ghost before = plan@;
            let step = Step::Relate {
                kind: Rel::HasMusic,
                from: folders[i].name.clone(),
                to: tracks[j].path.clone(),
            };
            proof {
                assert(mine[j as int].track == tracks@[j as int]@);
                assert(mine[j as int].folder == folders@[i as int].name@);
                assert(has_music_steps(done + mine.take(j + 1)) =~= has_music_steps(
                    done + mine.take(j as int),
                ).push(step@));
                lemma_pushed(
                    before,
                    before.push(step),
                    base,
                    has_music_steps(done + mine.take(j as int)),
                    has_music_steps(done + mine.take(j + 1)),
                    step,
                );
            }
            plan.push(step);
            j += 1;
        }
        assert(mine.take(tracks@.len() as int) =~= mine);
        assert(placed_tracks(fv, i + 1) =~= done + mine);
        i += 1;
    }
}

/// The node that is queued for a link: not yet probed, under the link's
/// URL and title and the given label.
pub open spec fn is_link_job(e: crate::pipeline::Entry, label: Seq<char>, l: LinkView) -> bool {
    &&& is_unprobed(e, e.id, l.url, l.title)
    &&& e.playlist@ == label
    &&& e.error is None
}

/// The jobs of an ingestion: one node per link, in the links' order,
/// under the collection's name as label.
pub open spec fn link_jobs(
    jobs: Seq<crate::pipeline::Entry>,
    name: Seq<char>,
    links: Seq<LinkView>,
) -> bool {
    &&& jobs.len() == links.len()
    &&& forall|i: int| 0 <= i < jobs.len() ==> is_link_job(#[trigger] jobs[i], name, links[i])
}

/// The pipeline node for a link.
pub fn link_job(link: &LinkSample, label: &str) -> (e: crate::pipeline::Entry)
    ensures
        is_link_job(e, label@, link_view(*link)),
{
    crate::pipeline::Entry {
        id: crate::ids::fresh_id(),
        url: link.url.clone(),
        playlist: label.to_owned(),
        title: link.title_or_msg.clone(),
        retries: 0,
        error: None,
        kind: None,
    }
}

/// The steps that bring scanned folders and links into the collection
/// `name`. The entries are written first, then the musics, then the
/// `collect` edges, then the `has_music` edges; the downloads are queued
/// last.
pub fn plan_ingest(name: &str, folders: &Vec<FolderScan>, links: &Vec<LinkSample>) -> (plan: Vec<
    Step,
>)
    ensures
        step_views(plan@) == ingest_plan(name@, folder_views(folders@), link_views(links@)),
        link_jobs(crate::plan::jobs(plan@, plan@.len() as int), name@, link_views(links@)),
        rows_keyed(plan@),
{
    let mut plan: Vec<Step> = Vec::new();
    assert(step_views(plan@) =~= Seq::<StepView>::empty());
    push_entries(&mut plan, folders, links);
    push_musics(&mut plan, folders);
    push_collects(&mut plan, name, folders, links);
    push_has_musics(&mut plan, folders);
    let ghost head = plan@;
    let ghost lv = link_views(links@);
    proof {
        let rows = ingest_rows(folder_views(folders@), lv);
        let placed = placed_tracks(folder_views(folders@), folders@.len() as int);
        let a = entry_steps(rows);
        let b = music_steps(placed);
        let c = collect_steps(name@, rows);
        let d = has_music_steps(placed);
        assert(step_views(head) =~= a + b + c + d);
        assert forall|i: int| 0 <= i < head.len() implies !((#[trigger] head[i]) is Enqueue) by {
            assert(step_views(head)[i] == head[i]@);
            if i < a.len() {
                assert(step_views(head)[i] == a[i]);
            } else if i < a.len() + b.len() {
                assert(step_views(head)[i] == b[i - a.len()]);
            } else if i < a.len() + b.len() + c.len() {
                assert(step_views(head)[i] == c[i - a.len() - b.len()]);
            } else {
                assert(step_views(head)[i] == d[i - a.len() - b.len() - c.len()]);
            }
        }
        lemma_no_jobs(head, head.len() as int);
        assert(step_views(plan@) =~= step_views(head) + enqueue_steps(0));
    }
    let mut k: usize = 0;
    while k < links.len()
        invariant
            rows_keyed(plan@),
            k <= links.len(),
            lv == link_views(links@),
            plan@.len() == head.len() + k,
            step_views(plan@) == step_views(head) + enqueue_steps(k as nat),
            crate::plan::jobs(plan@, plan@.len() as int).len() == k,
            forall|j: int|
                0 <= j < k ==> is_link_job(
                    #[trigger] crate::plan::jobs(plan@, plan@.len() as int)[j],
                    name@,
                    lv[j],
                ),
        decreases links.len() - k,
    {
        let ghost before = plan@;
        let step = Step::Enqueue(link_job(&links[k], name));
        proof {
            assert(enqueue_steps((k + 1) as nat) =~= enqueue_steps(k as nat).push(step@));
            lemma_pushed(
                before,
                before.push(step),
                step_views(head),
                enqueue_steps(k as nat),
                enqueue_steps((k + 1) as nat),
                step,
            );
            lemma_jobs_prefix(before.push(step), before, before.len() as int);
        }
        plan.push(step);
        k += 1;
    }
    plan
}

/// Steps that change the store hand nothing to the queue.
pub proof fn lemma_no_jobs(s: Seq<Step>, n: int)
    requires
        0 <= n <= s.len(),
        forall|i: int| 0 <= i < n ==> !((#[trigger] s[i]) is Enqueue),
    ensures
        crate::plan::jobs(s, n).len() == 0,
    decreases n,
{
    if n > 0 {
        lemma_no_jobs(s, n - 1);
    }
}

/// The jobs of the first steps depend on those steps alone.
pub proof fn lemma_jobs_prefix(s: Seq<Step>, t: Seq<Step>, n: int)
    requires
        0 <= n <= t.len() <= s.len(),
        forall|i: int| 0 <= i < n ==> s[i] == t[i],
    ensures
        crate::plan::jobs(s, n) == crate::plan::jobs(t, n),
    decreases n,
{
    if n > 0 {
        lemma_jobs_prefix(s, t, n - 1);
    }
}

/// A measured file as a track. Its title is the file's stem, which the
/// platform tells: it stands in the path. A path without a stem gives no
/// track; `titled_track` says what becomes of each answer of the platform.
pub fn measured_track(path: &str, loudness: Option<i32>) -> (t: Option<Track>)
    ensures
        t matches Some(track) ==> track.path@ == path@ && track.loudness == loudness && holds(
            path@,
            track.title@,
        ),
{
    let stem = path_file_stem(path);
    titled_track(path, stem, loudness)
}

/// A folder of a mission as a scanned folder, given the loudness of each
/// of its items in order. The folder's name is the last component of its
/// path, which the platform tells; a folder or an item without a name
/// gives nothing, and so do loudnesses that are not one per item. The
/// platform is asked for the folder's name and for the stem of each item;
/// `folder_scan` says what becomes of each of its answers.
pub fn scan_folder(sample: &FolderSample, loudness: &Vec<Option<i32>>) -> (r: Option<FolderScan>)
    ensures
        loudness@.len() != sample.items@.len() ==> r is None,
        r matches Some(scan) ==> {
            &&& loudness@.len() == sample.items@.len()
            &&& scan.path@ == sample.path@
            &&& holds(sample.path@, scan.name@)
            &&& scan.tracks@.len() == sample.items@.len()
            &&& forall|i: int|
                0 <= i < scan.tracks@.len() ==> {
                    &&& (#[trigger] scan.tracks@[i]).path@ == sample.items@[i]@
                    &&& scan.tracks@[i].loudness == loudness@[i]
                    &&& holds(sample.items@[i]@, scan.tracks@[i].title@)
                }
        },
{
    if loudness.len() != sample.items.len() {
        return None;
    }
    let name = path_file_name(sample.path.as_str());
    let mut stems: Vec<Option<String>> = Vec::new();
    let mut i: usize = 0;
    while i < sample.items.len()
        invariant
            i <= sample.items.len(),
            stems@.len() == i,
            forall|j: int|
                0 <= j < i ==> ((#[trigger] stems@[j]) matches Some(s) ==> holds(
                    sample.items@[j]@,
                    s@,
                )),
        decreases sample.items.len() - i,
    {
        stems.push(path_file_stem(sample.items[i].as_str()));
        i += 1;
    }
    folder_scan(sample, loudness, name, stems)
}

/// What is shown for a measured track: its title and, where it was
/// measured, its loudness in dB with three decimal places.
pub open spec fn track_text(title: Seq<char>, loudness: Option<i32>) -> Seq<char> {
    match loudness {
        Some(v) => title + " ("@ + crate::ffmpeg::seconds_text(v as int) + "db)"@,
        None => title,
    }
}

/// The line of progress for a measured track.
pub fn track_message(playlist: &str, track: &Track) -> (m: ProcessMsg)
    ensures
        m.playlist@ == playlist@,
        m.str@ == track_text(track.title@, track.loudness),
{
    let text = match track.loudness {
        Some(v) => {
            let mut t = joined(track.title.as_str(), " (");
            t.append(crate::ffmpeg::seconds(v as i64).as_str());
            t.append("db)");
            t
        },
        None => track.title.clone(),
    };
    ProcessMsg { playlist: playlist.to_owned(), str: text }
}

/// What is shown when a folder is done: the folder itself is where it
/// was worked on and where it is saved.
pub fn folder_result(scan: &FolderScan, playlist: &str) -> (r: ProcessResult)
    ensures
        texts(r.working_path@) == seq![scan.path@],
        r.saved_path matches Location::File(p) && p@ == scan.path@,
        r.playlist@ == playlist@,
        r.name@ == scan.name@,
{
    let mut working: Vec<String> = Vec::new();
    working.push(scan.path.clone());
    assert(texts(working@) =~= seq![scan.path@]);
    ProcessResult {
        working_path: working,
        saved_path: Location::File(scan.path.clone()),
        playlist: playlist.to_owned(),
        name: scan.name.clone(),
    }
}

/// The line of progress that carries a failure of the background work.
pub fn error_message(text: &str) -> (m: ProcessMsg)
    ensures
        m.playlist@ == "__error__"@,
        m.str@ == text@,
{
    ProcessMsg { playlist: "__error__".to_owned(), str: text.to_owned() }
}

/// The track of a measured file, given what the platform told of its
/// stem: with a stem, the track of that path, title and loudness; without
/// one, no track.
pub open spec fn track_of(
    path: Seq<char>,
    stem: Option<String>,
    loudness: Option<i32>,
    t: Option<Track>,
) -> bool {
    match stem {
        Some(s) => t matches Some(track) && track@ == (TrackView { path, title: s@, loudness }),
        None => t is None,
    }
}

/// Makes the track of a measured file from the stem of its path.
pub fn titled_track(path: &str, stem: Option<String>, loudness: Option<i32>) -> (t: Option<Track>)
    ensures
        track_of(path@, stem, loudness, t),
{
    match stem {
        Some(title) => Some(Track { path: path.to_owned(), title, loudness }),
        None => None,
    }
}

/// Whether a folder can be scanned, given what the platform told of the
/// folder's name and of the stem of each item: the folder has a name, every
/// item has a stem, and there is one loudness and one stem per item.
pub open spec fn scannable(
    sample: FolderSample,
    loudness: Seq<Option<i32>>,
    name: Option<String>,
    stems: Seq<Option<String>>,
) -> bool {
    &&& name is Some
    &&& loudness.len() == sample.items@.len()
    &&& stems.len() == sample.items@.len()
    &&& forall|i: int| 0 <= i < stems.len() ==> (#[trigger] stems[i]) is Some
}

/// The scanned folder: under the sample's path and the name given, one
/// track per item in the items' order, each with the item as its path, the
/// item's stem as its title and the item's loudness.
pub open spec fn scan_of(
    sample: FolderSample,
    loudness: Seq<Option<i32>>,
    name: Option<String>,
    stems: Seq<Option<String>>,
    scan: FolderScan,
) -> bool {
    &&& scan.path@ == sample.path@
    &&& name matches Some(n) && scan.name@ == n@
    &&& scan.tracks@.len() == sample.items@.len()
    &&& forall|i: int|
        0 <= i < scan.tracks@.len() ==> track_of(
            sample.items@[i]@,
            stems[i],
            loudness[i],
            Some(#[trigger] scan.tracks@[i]),
        )
}

/// Makes the scanned folder from what the platform told of the names.
/// A folder that cannot be scanned gives nothing.
pub fn folder_scan(
    sample: &FolderSample,
    loudness: &Vec<Option<i32>>,
    name: Option<String>,
    stems: Vec<Option<String>>,
) -> (r: Option<FolderScan>)
    ensures
        match r {
            Some(scan) => scannable(*sample, loudness@, name, stems@) && scan_of(
                *sample,
                loudness@,
                name,
                stems@,
                scan,
            ),
            None => !scannable(*sample, loudness@, name, stems@),
        },
{
    let n = sample.items.len();
    if loudness.len() != n || stems.len() != n {
        return None;
    }
    let folder = match &name {
        Some(f) => f.clone(),
        None => {
            return None;
        },
    };
    let mut tracks: Vec<Track> = Vec::new();
    let mut i: usize = 0;
    while i < n
        invariant
            i <= n,
            n == sample.items@.len(),
            loudness@.len() == n,
            stems@.len() == n,
            tracks@.len() == i,
            forall|j: int| 0 <= j < i ==> (#[trigger] stems@[j]) is Some,
            forall|j: int|
                0 <= j < i ==> track_of(
                    sample.items@[j]@,
                    stems@[j],
                    loudness@[j],
                    Some(#[trigger] tracks@[j]),
                ),
        decreases n - i,
    {
        let stem = crate::journal::clone_opt_text(&stems[i]);
        match titled_track(sample.items[i].as_str(), stem, loudness[i]) {
            Some(t) => {
                tracks.push(t);
            },
            None => {
                assert(stems@[i as int] is None);
                return None;
            },
        }
        i += 1;
    }
    Some(FolderScan { path: sample.path.clone(), name: folder, tracks })
}

} // verus!
