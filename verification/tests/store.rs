use slisic::coordinator::{
    delete, delete_music, download_ok, create, update, read, recheck_diff,
    recheck_folder, refreshed_entry, rmexclude, unlinked, unstar, update_weblist,
};
use slisic::errors::ErrorKind;
use slisic::ingest::{
    error_message, folder_entry, folder_result, folder_scan, link_entry, measured_track,
    plan_ingest, scan_folder, titled_track, track_message, FolderScan, Track, CONC_LIMIT,
};
use slisic::model::{
    CollectMission, Collection, DbMusic, Entry, EntryType, FolderSample, LinkSample, LinkStatus,
    Music, Playlist,
};
use slisic::pipeline::Location;
use slisic::plan::Step;
use slisic::scoring::fatigue;
use slisic::store::Graph;
use slisic::table::Rel;

fn track(path: &str, title: &str, loudness: Option<i32>) -> Track {
    Track { path: path.to_string(), title: title.to_string(), loudness }
}

fn folder(path: &str, name: &str, tracks: Vec<Track>) -> FolderScan {
    FolderScan { path: path.to_string(), name: name.to_string(), tracks }
}

fn link(url: &str, title: &str) -> LinkSample {
    LinkSample {
        url: url.to_string(),
        title_or_msg: title.to_string(),
        entry_type: EntryType::WebList,
        count: Some(2),
        status: Some(LinkStatus::Reached),
        tracking: true,
    }
}

fn mission(name: &str) -> CollectMission {
    CollectMission { name: name.to_string(), folders: vec![], links: vec![], entries: vec![], exclude: vec![] }
}

fn music(path: &str, avg: Option<i32>) -> Music {
    Music::measured(path, path, avg)
}

fn entry(name: &str, path: Option<&str>, musics: Vec<Music>) -> Entry {
    Entry {
        path: path.map(|p| p.to_string()),
        name: name.to_string(),
        musics,
        avg_db: None,
        url: None,
        downloaded_ok: None,
        tracking: None,
        entry_type: EntryType::Local,
    }
}

fn paths(ms: &[Music]) -> Vec<&str> {
    ms.iter().map(|m| m.path.as_str()).collect()
}

#[test]
fn local_folder_single_track() {
    let mut g = Graph::new();
    g.run(&create(&mission("A")));
    let scan = folder("/x", "x", vec![track("/x/1.m4a", "1", Some(-14300))]);
    let plan = plan_ingest("A", &vec![scan], &vec![]);
    assert_eq!(plan.len(), 4);
    assert!(matches!(&plan[0], Step::InsertEntry(r) if r.name == "x"));
    assert!(matches!(&plan[1], Step::InsertMusic(m) if m.path == "/x/1.m4a"));
    assert!(matches!(&plan[2], Step::Relate { kind: Rel::Collect, from, to } if from == "A" && to == "x"));
    assert!(matches!(&plan[3], Step::Relate { kind: Rel::HasMusic, from, to } if from == "x" && to == "/x/1.m4a"));
    g.run(&plan);
    assert_eq!(g.sizes(), (1, 1, 1, 1, 1));
    let list = g.read("A").unwrap();
    assert_eq!(list.name, "A");
    assert_eq!(list.entries.len(), 1);
    let e = &list.entries[0];
    assert_eq!(e.name, "x");
    assert_eq!(e.path.as_deref(), Some("/x"));
    assert_eq!(e.entry_type, EntryType::Local);
    assert_eq!(e.downloaded_ok, Some(true));
    assert_eq!(e.avg_db, Some(-14300));
    assert_eq!(e.musics.len(), 1);
    assert_eq!(e.musics[0].path, "/x/1.m4a");
    assert_eq!(e.musics[0].title, "1");
    assert_eq!(e.musics[0].avg_db, Some(-14300));
    assert_eq!((e.musics[0].base_bias, e.musics[0].user_boost, e.musics[0].fatigue, e.musics[0].diversity), (0, 0, 0, 0));
    assert_eq!(list.avg_db, Some(-14300));
}

#[test]
fn ingestion_writes_rows_before_edges_and_enqueues_last() {
    let folders = vec![
        folder("/a", "a", vec![track("/a/1.mp3", "1", Some(-10000)), track("/a/2.mp3", "2", None)]),
        folder("/b", "b", vec![track("/b/3.mp3", "3", Some(-20000))]),
    ];
    let links = vec![link("u", "L")];
    let plan = plan_ingest("C", &folders, &links);
    let kinds: Vec<&str> = plan
        .iter()
        .map(|s| match s {
            Step::InsertEntry(_) => "entry",
            Step::InsertMusic(_) => "music",
            Step::Relate { kind: Rel::Collect, .. } => "collect",
            Step::Relate { kind: Rel::HasMusic, .. } => "has_music",
            Step::Enqueue(_) => "enqueue",
            _ => "other",
        })
        .collect();
    assert_eq!(
        kinds,
        vec![
            "entry", "entry", "entry", "music", "music", "music", "collect", "collect", "collect",
            "has_music", "has_music", "has_music", "enqueue"
        ]
    );
    assert!(matches!(&plan[0], Step::InsertEntry(r) if r.name == "a" && r.avg_db == Some(-10000)));
    assert!(matches!(&plan[2], Step::InsertEntry(r) if r.name == "L" && r.url.as_deref() == Some("u") && r.downloaded_ok.is_none() && r.tracking == Some(true) && r.path.is_none() && r.entry_type == EntryType::WebList));
    assert!(matches!(&plan[11], Step::Relate { from, to, .. } if from == "b" && to == "/b/3.mp3"));
    assert!(matches!(&plan[12], Step::Enqueue(e) if e.url == "u" && e.title == "L" && e.playlist == "C" && e.kind.is_none() && e.retries == 0));
    assert_eq!(CONC_LIMIT, 8);
}

#[test]
fn ingesting_twice_is_ingesting_once() {
    let mut once = Graph::new();
    once.run(&create(&mission("A")));
    let folders = vec![folder("/x", "x", vec![track("/x/1.m4a", "1", Some(-14000)), track("/x/2.m4a", "2", Some(-16000))])];
    once.run(&plan_ingest("A", &folders, &vec![link("u", "L")]));
    let mut twice = Graph::new();
    twice.run(&create(&mission("A")));
    twice.run(&plan_ingest("A", &folders, &vec![link("u", "L")]));
    twice.run(&create(&mission("A")));
    twice.run(&plan_ingest("A", &folders, &vec![link("u", "L")]));
    assert_eq!(once.sizes(), (1, 2, 2, 2, 2));
    assert_eq!(twice.sizes(), once.sizes());
    let a = once.read("A").unwrap();
    let b = twice.read("A").unwrap();
    assert_eq!(format!("{:?}", a), format!("{:?}", b));
}

#[test]
fn overlapping_folders_keep_one_music_per_path() {
    let mut g = Graph::new();
    g.run(&create(&mission("A")));
    g.run(&plan_ingest("A", &vec![folder("/x", "x", vec![track("/x/1.m4a", "1", Some(-14000))])], &vec![]));
    g.run(&plan_ingest("A", &vec![folder("/x", "x", vec![track("/x/1.m4a", "other", Some(-1))])], &vec![]));
    assert_eq!(g.sizes(), (1, 1, 1, 1, 1));
    assert_eq!(g.read("A").unwrap().entries[0].musics[0].title, "1");
}

#[test]
fn web_playlist_of_two_videos_ends_with_two_musics() {
    let mut g = Graph::new();
    g.run(&create(&mission("A")));
    let plan = plan_ingest("A", &vec![], &vec![link("u", "L")]);
    g.run(&plan);
    let before = g.read("A").unwrap();
    assert_eq!(before.entries.len(), 1);
    assert_eq!(before.entries[0].name, "L");
    assert_eq!(before.entries[0].downloaded_ok, None);
    assert!(before.entries[0].musics.is_empty());
    assert_eq!(before.avg_db, None);

    let first = download_ok("L", "/save/L", &vec![], &vec![track("/save/L/C1.m4a", "C1", Some(-12000))]);
    assert_eq!(first.len(), 4);
    assert!(matches!(&first[2], Step::PatchEntry { name, avg_db: Some(-12000), path } if name == "L" && path == "/save/L"));
    assert!(matches!(&first[3], Step::RefreshAverage { name } if name == "L"));
    g.run(&first);
    let have = g.read("A").unwrap().entries.remove(0).musics;
    let items = vec!["/save/L/C1.m4a".to_string(), "/save/L/C2.m4a".to_string()];
    assert_eq!(unlinked(&items, &have), vec!["/save/L/C2.m4a".to_string()]);
    g.run(&download_ok("L", "/save/L", &have, &vec![track("/save/L/C2.m4a", "C2", Some(-15001))]));

    let after = g.read("A").unwrap();
    let e = &after.entries[0];
    assert_eq!(e.downloaded_ok, Some(true));
    assert_eq!(e.path.as_deref(), Some("/save/L"));
    assert_eq!(paths(&e.musics), vec!["/save/L/C1.m4a", "/save/L/C2.m4a"]);
    assert_eq!(e.avg_db, Some(-13500));
    assert_eq!(after.avg_db, Some(-13500));
}

#[test]
fn recheck_folder_reconciles_graph_with_disk() {
    let mut g = Graph::new();
    g.run(&create(&mission("A")));
    g.run(&plan_ingest(
        "A",
        &vec![folder("/x", "x", vec![track("/x/a", "a", Some(-10000)), track("/x/b", "b", Some(-20000))])],
        &vec![],
    ));
    let e = g.read("A").unwrap().entries.remove(0);
    assert_eq!(e.avg_db, Some(-15000));
    let found = vec!["/x/b".to_string(), "/x/c".to_string()];
    let (to_add, to_remove) = recheck_diff(&e.musics, &found);
    assert_eq!(to_add, vec!["/x/c".to_string()]);
    assert_eq!(paths(&to_remove), vec!["/x/a"]);
    let plan = recheck_folder("x", "/x", &to_remove, &vec![track("/x/c", "c", Some(-30000))]);
    assert!(matches!(&plan[0], Step::DeleteMusic { path } if path == "/x/a"));
    assert!(matches!(plan.last(), Some(Step::RefreshAverage { name }) if name == "x"));
    g.run(&plan);
    assert_eq!(g.sizes(), (1, 1, 2, 1, 2));
    let stored = g.entry("x").unwrap();
    assert_eq!(stored.avg_db, Some(-25000));
    assert_eq!(stored.path.as_deref(), Some("/x"));
    assert_eq!(g.read("A").unwrap().avg_db, Some(-25000));
    let musics = g.read("A").unwrap().entries.remove(0).musics;
    assert_eq!(paths(&musics), vec!["/x/b", "/x/c"]);
    let fresh = refreshed_entry(e, musics);
    assert_eq!(fresh.avg_db, Some(-25000));
    assert_eq!(fresh.name, "x");
    assert_eq!(paths(&fresh.musics), vec!["/x/b", "/x/c"]);
}

#[test]
fn recheck_of_an_emptied_folder_leaves_no_average() {
    let mut g = Graph::new();
    g.run(&create(&mission("A")));
    g.run(&plan_ingest("A", &vec![folder("/x", "x", vec![track("/x/a", "a", Some(-10000))])], &vec![]));
    let e = g.entry("x").unwrap();
    let (to_add, to_remove) = recheck_diff(&e.musics, &vec![]);
    assert!(to_add.is_empty());
    g.run(&recheck_folder("x", "/x", &to_remove, &vec![]));
    let stored = g.entry("x").unwrap();
    assert!(stored.musics.is_empty());
    assert_eq!(stored.avg_db, None);
}

#[test]
fn refreshing_an_average_reads_the_stored_musics() {
    let mut g = Graph::new();
    g.run(&plan_ingest(
        "A",
        &vec![folder("/x", "x", vec![track("/x/a", "a", Some(-10000)), track("/x/b", "b", None), track("/x/c", "c", Some(-15001))])],
        &vec![],
    ));
    g.refresh_average("x");
    assert_eq!(g.entry("x").unwrap().avg_db, Some(-12500));
    g.refresh_average("none");
    assert_eq!(g.sizes(), (0, 1, 3, 0, 3));
}

#[test]
fn rows_carry_the_identity_of_their_key() {
    let plan = plan_ingest("A", &vec![folder("/x", "x", vec![track("/x/a", "a", None)])], &vec![]);
    assert!(slisic::plan::all_keyed(&plan));
    assert!(plan.iter().all(|s| s.is_keyed()));
    let mut row = fatigue(music("/x/a", None));
    assert!(row.is_keyed());
    row.id = slisic::table::record_id_for(slisic::table::Table::Music, "/x/other");
    assert!(!row.is_keyed());
    assert!(!slisic::plan::all_keyed(&vec![Step::UpdateMusic(row)]));
    let mut g = Graph::new();
    g.run(&plan);
    assert!(g.all_musics().iter().all(|m| m.is_keyed()));
}

#[test]
fn a_download_finalized_in_two_parts_is_one_finalized_at_once() {
    let c1 = track("/save/L/C1.m4a", "C1", Some(-12000));
    let c2 = track("/save/L/C2.m4a", "C2", Some(-15001));
    let copy = |t: &Track| track(&t.path, &t.title, t.loudness);
    let start = || {
        let mut g = Graph::new();
        g.run(&create(&mission("A")));
        g.run(&plan_ingest("A", &vec![], &vec![link("u", "L")]));
        g
    };
    let mut whole = start();
    whole.run(&download_ok("L", "/save/L", &vec![], &vec![copy(&c1), copy(&c2)]));

    let mut parts = start();
    parts.run(&download_ok("L", "/save/L", &vec![], &vec![copy(&c1)]));
    let have = parts.entry("L").unwrap().musics;
    assert_eq!(paths(&have), vec!["/save/L/C1.m4a"]);
    let items = vec!["/save/L/C1.m4a".to_string(), "/save/L/C2.m4a".to_string()];
    assert_eq!(unlinked(&items, &have), vec!["/save/L/C2.m4a".to_string()]);
    parts.run(&download_ok("L", "/save/L", &have, &vec![copy(&c2)]));
    assert_eq!(format!("{:?}", parts), format!("{:?}", whole));

    let have = parts.entry("L").unwrap().musics;
    assert!(unlinked(&items, &have).is_empty());
    parts.run(&download_ok("L", "/save/L", &have, &vec![]));
    assert_eq!(format!("{:?}", parts), format!("{:?}", whole));
    let e = whole.entry("L").unwrap();
    assert_eq!(e.avg_db, Some(-13500));
    assert_eq!(e.downloaded_ok, Some(true));
    assert_eq!(whole.sizes(), (1, 1, 2, 1, 2));
}

#[test]
fn a_download_takes_its_average_from_the_stored_musics() {
    let mut g = Graph::new();
    g.run(&create(&mission("A")));
    g.run(&plan_ingest(
        "A",
        &vec![folder("/save/L", "other", vec![track("/save/L/C1.m4a", "C1", Some(-20000))])],
        &vec![link("u", "L")],
    ));
    let plan = download_ok(
        "L",
        "/save/L",
        &vec![],
        &vec![track("/save/L/C1.m4a", "C1", Some(-12000)), track("/save/L/C2.m4a", "C2", Some(-10000))],
    );
    assert!(matches!(&plan[4], Step::PatchEntry { avg_db: Some(-11000), .. }));
    g.run(&plan);
    let e = g.entry("L").unwrap();
    assert_eq!(paths(&e.musics), vec!["/save/L/C1.m4a", "/save/L/C2.m4a"]);
    assert_eq!(e.musics[0].avg_db, Some(-20000));
    assert_eq!(e.avg_db, Some(-15000));
    assert_eq!(e.downloaded_ok, Some(true));
}

#[test]
fn a_download_handed_other_loudnesses_leaves_the_same_graph() {
    let start = || {
        let mut g = Graph::new();
        g.run(&create(&mission("A")));
        g.run(&plan_ingest("A", &vec![], &vec![link("u", "L")]));
        g
    };
    let mut one = start();
    one.run(&download_ok("L", "/save/L", &vec![], &vec![track("/save/L/C1.m4a", "C1", Some(-12000))]));
    let mut other = start();
    other.run(&download_ok(
        "L",
        "/save/L",
        &vec![music("/elsewhere", Some(-1))],
        &vec![track("/save/L/C1.m4a", "C1", Some(-12000))],
    ));
    assert_eq!(format!("{:?}", one), format!("{:?}", other));
    assert_eq!(one.entry("L").unwrap().avg_db, Some(-12000));
}

#[test]
fn rename_collection_keeps_entries_and_musics() {
    let mut g = Graph::new();
    g.run(&create(&mission("A")));
    g.run(&plan_ingest("A", &vec![folder("/x", "x", vec![track("/x/1", "1", Some(-1000))])], &vec![]));
    let anchor = g.read("A").unwrap();
    let before = format!("{:?}", anchor.entries);
    let mut m = mission("A2");
    m.entries = g.read("A").unwrap().entries;
    let plan = update(&m, &anchor);
    assert_eq!(plan.len(), 1);
    assert!(matches!(&plan[0], Step::RenameCollection { from, to } if from == "A" && to == "A2"));
    g.run(&plan);
    assert_eq!(g.sizes(), (1, 1, 1, 1, 1));
    assert_eq!(g.read("A").unwrap_err(), ErrorKind::NotFound);
    let renamed = g.read("A2").unwrap();
    assert_eq!(renamed.name, "A2");
    assert_eq!(format!("{:?}", renamed.entries), before);
    assert_eq!(g.collected("A2"), vec!["x".to_string()]);
    assert!(g.collected("A").is_empty());
}

#[test]
fn rename_onto_a_taken_name_changes_nothing() {
    let mut g = Graph::new();
    assert!(g.create_collection(Collection { name: "A".to_string(), exclude: vec![] }));
    assert!(g.create_collection(Collection { name: "B".to_string(), exclude: vec![] }));
    assert!(!g.create_collection(Collection { name: "A".to_string(), exclude: vec![music("/m", None)] }));
    assert!(!g.rename_collection("A", "B"));
    assert!(!g.rename_collection("Z", "Y"));
    assert!(g.rename_collection("A", "C"));
    assert!(g.has_collection("C") && g.has_collection("B") && !g.has_collection("A"));
    assert_eq!(g.sizes().0, 2);
}

#[test]
fn update_diffs_entries_by_path() {
    let keep = entry("keep", Some("/k"), vec![]);
    let gone = entry("gone", Some("/g"), vec![]);
    let fresh = entry("fresh", Some("/f"), vec![]);
    let anchor = Playlist {
        name: "A".to_string(),
        avg_db: None,
        entries: vec![entry("keep", Some("/k"), vec![]), gone],
        exclude: vec![],
    };
    let mut m = mission("A");
    m.entries = vec![keep, fresh];
    m.exclude = vec![music("/x", None)];
    let plan = update(&m, &anchor);
    assert_eq!(plan.len(), 3);
    assert!(matches!(&plan[0], Step::SetExclude { collection, exclude } if collection == "A" && exclude.len() == 1 && exclude[0].path == "/x"));
    assert!(matches!(&plan[1], Step::Unrelate { kind: Rel::Collect, from, to } if from == "A" && to == "gone"));
    assert!(matches!(&plan[2], Step::Relate { kind: Rel::Collect, from, to } if from == "A" && to == "fresh"));

    let mut g = Graph::new();
    g.create_collection(Collection { name: "A".to_string(), exclude: vec![] });
    for n in ["keep", "gone", "fresh"] {
        g.insert_entry(slisic::model::DbEntry::from(entry(n, Some(n), vec![])));
    }
    assert!(g.relate(Rel::Collect, "A", "keep"));
    assert!(g.relate(Rel::Collect, "A", "gone"));
    g.run(&plan);
    assert_eq!(g.collected("A"), vec!["keep".to_string(), "fresh".to_string()]);
    assert_eq!(g.read("A").unwrap().exclude.len(), 1);
    assert_eq!(g.sizes().1, 3);
}

#[test]
fn update_rewrites_an_exclude_list_that_changed_at_the_same_length() {
    let anchor = Playlist { name: "A".to_string(), avg_db: None, entries: vec![], exclude: vec![music("/1", None)] };
    let mut m = mission("A");
    m.exclude = vec![music("/2", None)];
    let plan = update(&m, &anchor);
    assert_eq!(plan.len(), 1);
    assert!(matches!(&plan[0], Step::SetExclude { collection, exclude } if collection == "A" && exclude[0].path == "/2"));
    m.exclude = vec![music("/1", None)];
    assert!(update(&m, &anchor).is_empty());
    m.exclude = vec![music("/1", Some(-1))];
    assert_eq!(update(&m, &anchor).len(), 1);
}

#[test]
fn update_without_changes_plans_nothing() {
    let anchor = Playlist { name: "A".to_string(), avg_db: None, entries: vec![entry("e", Some("/e"), vec![])], exclude: vec![] };
    let mut m = mission("A");
    m.entries = vec![entry("e", Some("/e"), vec![])];
    assert!(update(&m, &anchor).is_empty());
}

#[test]
fn create_relates_passed_entries() {
    let mut m = mission("A");
    m.entries = vec![entry("e1", None, vec![]), entry("e2", None, vec![])];
    let plan = create(&m);
    assert_eq!(plan.len(), 3);
    assert!(matches!(&plan[0], Step::CreateCollection(c) if c.name == "A" && c.exclude.is_empty()));
    assert!(matches!(&plan[2], Step::Relate { kind: Rel::Collect, from, to } if from == "A" && to == "e2"));
}

#[test]
fn edges_need_both_ends_and_the_right_tables() {
    let mut g = Graph::new();
    g.create_collection(Collection { name: "A".to_string(), exclude: vec![] });
    assert!(!g.relate(Rel::Collect, "A", "missing"));
    g.insert_entry(slisic::model::DbEntry::from(entry("e", None, vec![])));
    assert!(!g.relate(Rel::Collect, "e", "A"));
    assert!(!g.relate(Rel::HasMusic, "A", "e"));
    assert!(!g.relate(Rel::SignIn, "A", "e"));
    assert!(!g.relate(Rel::HasMusic, "e", "/nope"));
    assert!(g.relate(Rel::Collect, "A", "e"));
    assert!(g.relate(Rel::Collect, "A", "e"));
    g.insert_music(DbMusic::from(music("/m", None)));
    assert!(g.relate(Rel::HasMusic, "e", "/m"));
    assert_eq!(g.sizes(), (1, 1, 1, 1, 1));
    g.unrelate(Rel::Collect, "A", "e");
    g.unrelate(Rel::Collect, "A", "e");
    assert_eq!(g.sizes(), (1, 1, 1, 0, 1));
}

#[test]
fn deleting_a_collection_keeps_entries_and_musics() {
    let mut g = Graph::new();
    for name in ["A", "B"] {
        g.run(&create(&mission(name)));
        g.run(&plan_ingest(name, &vec![folder("/x", "x", vec![track("/x/1", "1", None)])], &vec![]));
    }
    assert_eq!(g.sizes(), (2, 1, 1, 2, 1));
    assert_eq!(g.collectors_of("x"), vec!["A".to_string(), "B".to_string()]);
    assert_eq!(g.holders_of("/x/1"), vec!["x".to_string()]);
    assert!(g.holders_of("/nope").is_empty());
    let row = slisic::model::DbEntry::from(entry("x", None, vec![]));
    assert_eq!(paths(&row.musics(&g)), vec!["/x/1"]);
    assert_eq!(row.id().key, "x");
    assert_eq!(DbMusic::from(music("/x/1", None)).entries(&g), vec!["x".to_string()]);
    assert_eq!(Collection { name: "A".to_string(), exclude: vec![] }.id().key, "A");
    assert_eq!(entry("x", None, vec![]).id().table, slisic::table::Table::Entry);
    g.run(&delete("A".to_string()));
    assert_eq!(g.sizes(), (1, 1, 1, 1, 1));
    assert_eq!(g.read("A").unwrap_err(), ErrorKind::NotFound);
    assert_eq!(g.read("B").unwrap().entries[0].musics.len(), 1);
    g.run(&delete("nope".to_string()));
    assert_eq!(g.sizes(), (1, 1, 1, 1, 1));
}

#[test]
fn deleting_a_music_removes_its_edges() {
    let mut g = Graph::new();
    g.run(&create(&mission("A")));
    g.run(&plan_ingest("A", &vec![folder("/x", "x", vec![track("/x/1", "1", None), track("/x/2", "2", None)])], &vec![]));
    g.run(&delete_music(music("/x/1", None)));
    assert_eq!(g.sizes(), (1, 1, 1, 1, 1));
    assert!(!g.has_music("/x/1"));
    assert_eq!(g.music_paths_of("x"), vec!["/x/2".to_string()]);
}

#[test]
fn fatigue_on_unknown_music_inserts_it() {
    let mut g = Graph::new();
    assert!(!g.has_music("/new.mp3"));
    g.update_music(fatigue(music("/new.mp3", Some(-9000))));
    assert!(g.has_music("/new.mp3"));
    assert_eq!(g.sizes().2, 1);
    g.update_music(fatigue(music("/new.mp3", Some(-9000))));
    assert_eq!(g.sizes().2, 1);
}

#[test]
fn update_music_overwrites_values() {
    let mut g = Graph::new();
    g.run(&create(&mission("A")));
    g.run(&plan_ingest("A", &vec![folder("/x", "x", vec![track("/x/1", "1", Some(-5000))])], &vec![]));
    let m = g.read("A").unwrap().entries.remove(0).musics.remove(0);
    g.update_music(fatigue(m));
    let m = g.read("A").unwrap().entries.remove(0).musics.remove(0);
    assert_eq!(m.fatigue, 100);
    g.insert_music(DbMusic::from(music("/x/1", None)));
    assert_eq!(g.read("A").unwrap().entries[0].musics[0].fatigue, 100);
}

#[test]
fn read_all_lists_every_collection() {
    let mut g = Graph::new();
    assert!(g.read_all().is_empty());
    g.run(&create(&mission("A")));
    g.run(&create(&mission("B")));
    g.run(&plan_ingest("B", &vec![folder("/x", "x", vec![track("/x/1", "1", Some(-7000))])], &vec![]));
    let all = g.read_all();
    assert_eq!(all.len(), 2);
    assert_eq!(all[0].name, "A");
    assert!(all[0].entries.is_empty());
    assert_eq!(all[0].avg_db, None);
    assert_eq!(all[1].name, "B");
    assert_eq!(all[1].avg_db, Some(-7000));
}

#[test]
fn read_joins_and_averages() {
    let col = Collection { name: "A".to_string(), exclude: vec![music("/ex", None)] };
    let mut e1 = entry("e1", None, vec![]);
    e1.avg_db = Some(-10000);
    let e2 = entry("e2", None, vec![]);
    let mut e3 = entry("e3", None, vec![]);
    e3.avg_db = Some(-20001);
    let p = read(col, vec![e1, e2, e3]);
    assert_eq!(p.name, "A");
    assert_eq!(p.entries.len(), 3);
    assert_eq!(p.exclude.len(), 1);
    assert_eq!(p.avg_db, Some(-15000));
    let p = read(Collection { name: "B".to_string(), exclude: vec![] }, vec![entry("e", None, vec![])]);
    assert_eq!(p.avg_db, None);
}

#[test]
fn exclude_list_commands() {
    let col = Collection { name: "A".to_string(), exclude: vec![music("/1", None)] };
    let col = unstar(col, music("/2", None));
    let col = unstar(col, music("/1", None));
    assert_eq!(paths(&col.exclude), vec!["/1", "/2", "/1"]);
    let col = rmexclude(col, &music("/1", None));
    assert_eq!(paths(&col.exclude), vec!["/2"]);
    let col = rmexclude(col, &music("/none", None));
    assert_eq!(paths(&col.exclude), vec!["/2"]);
    assert_eq!(col.name, "A");
}

#[test]
fn update_weblist_needs_a_url() {
    let mut e = entry("L", None, vec![]);
    assert_eq!(update_weblist(entry("L", None, vec![]), "P".to_string()).unwrap_err(), "url is empty");
    e.url = Some(String::new());
    assert_eq!(update_weblist(e, "P".to_string()).unwrap_err(), "url is empty");
    let mut e = entry("L", None, vec![]);
    e.url = Some("https://x".to_string());
    let job = update_weblist(e, "P".to_string()).unwrap();
    assert_eq!(job.url, "https://x");
    assert_eq!(job.title, "L");
    assert_eq!(job.playlist, "P");
    assert!(job.kind.is_none());
}

#[test]
fn entries_for_folders_and_links() {
    let f = folder_entry(&folder("/music/rock", "rock", vec![track("a", "a", Some(-3)), track("b", "b", Some(-4))]));
    assert_eq!(f.name, "rock");
    assert_eq!(f.id.key, "rock");
    assert_eq!(f.path.as_deref(), Some("/music/rock"));
    assert_eq!(f.avg_db, Some(-3));
    assert_eq!(f.url, None);
    let l = link_entry(&link("u", "T"));
    assert_eq!((l.name.as_str(), l.url.as_deref(), l.path.as_deref()), ("T", Some("u"), None));
    assert_eq!(l.id.key, "T");
}

#[test]
fn scanning_uses_the_names_of_the_platform() {
    let t = measured_track("/x/Some Song.m4a", Some(-1)).unwrap();
    assert_eq!(t.title, "Some Song");
    assert_eq!(t.path, "/x/Some Song.m4a");
    assert!(measured_track("/", None).is_none());
    let sample = FolderSample { path: "/music/rock".to_string(), items: vec!["/music/rock/a.mp3".to_string()] };
    let scan = scan_folder(&sample, &vec![Some(-5000)]).unwrap();
    assert_eq!(scan.name, "rock");
    assert_eq!(scan.tracks[0].title, "a");
    assert_eq!(scan.tracks[0].loudness, Some(-5000));
    assert!(scan_folder(&sample, &vec![]).is_none());
}

#[test]
fn progress_messages() {
    let m = track_message("A", &track("/p", "Song", Some(-14300)));
    assert_eq!((m.playlist.as_str(), m.str.as_str()), ("A", "Song (-14.300db)"));
    let m = track_message("A", &track("/p", "Song", None));
    assert_eq!(m.str, "Song");
    let m = error_message("boom");
    assert_eq!((m.playlist.as_str(), m.str.as_str()), ("__error__", "boom"));
    let r = folder_result(&folder("/x", "x", vec![]), "A");
    assert_eq!(r.working_path, vec!["/x".to_string()]);
    assert!(matches!(&r.saved_path, Location::File(p) if p == "/x"));
    assert_eq!((r.playlist.as_str(), r.name.as_str()), ("A", "x"));
}

#[test]
fn read_gives_back_exactly_what_is_linked() {
    let mut g = Graph::new();
    g.run(&create(&mission("A")));
    g.run(&create(&mission("B")));
    g.run(&plan_ingest(
        "A",
        &vec![
            folder("/x", "x", vec![track("/x/1", "1", None), track("/x/2", "2", None)]),
            folder("/y", "y", vec![track("/y/1", "1", None)]),
        ],
        &vec![link("u", "L")],
    ));
    g.run(&plan_ingest("B", &vec![folder("/y", "y", vec![track("/y/1", "1", None)])], &vec![]));
    let a = g.read("A").unwrap();
    let names: Vec<&str> = a.entries.iter().map(|e| e.name.as_str()).collect();
    assert_eq!(names, vec!["x", "y", "L"]);
    assert_eq!(g.collected("A"), vec!["x".to_string(), "y".to_string(), "L".to_string()]);
    for e in &a.entries {
        let linked = g.music_paths_of(&e.name);
        assert_eq!(paths(&e.musics), linked.iter().map(|s| s.as_str()).collect::<Vec<_>>());
    }
    let b = g.read("B").unwrap();
    assert_eq!(b.entries.len(), 1);
    assert_eq!(paths(&b.entries[0].musics), vec!["/y/1"]);
    assert_eq!(g.sizes(), (2, 3, 3, 4, 3));
    let x = g.entry("x").unwrap();
    assert_eq!(paths(&x.musics), vec!["/x/1", "/x/2"]);
    assert!(g.entry("zzz").is_none());
    assert_eq!(g.all_musics().len(), 3);
}

#[test]
fn chapter_split_video_ends_with_three_musics() {
    let mut g = Graph::new();
    g.run(&create(&mission("A")));
    let mut l = link("u", "Album");
    l.entry_type = EntryType::WebVideo;
    g.run(&plan_ingest("A", &vec![], &vec![l]));
    let tracks = vec![
        track("/save/Album/Intro.m4a", "Intro", Some(-10000)),
        track("/save/Album/Middle.m4a", "Middle", Some(-11000)),
        track("/save/Album/End.m4a", "End", None),
    ];
    g.run(&download_ok("Album", "/save/Album", &vec![], &tracks));
    let e = g.read("A").unwrap().entries.remove(0);
    assert_eq!(paths(&e.musics), vec!["/save/Album/Intro.m4a", "/save/Album/Middle.m4a", "/save/Album/End.m4a"]);
    assert_eq!(e.downloaded_ok, Some(true));
    assert_eq!(e.avg_db, Some(-10500));
    assert_eq!(e.path.as_deref(), Some("/save/Album"));
    assert_eq!(e.entry_type, EntryType::WebVideo);
}

#[test]
fn tracks_and_folders_from_the_names_that_the_platform_told() {
    let t = titled_track("/x/a.mp3", Some("a".to_string()), Some(-7)).unwrap();
    assert_eq!((t.path.as_str(), t.title.as_str(), t.loudness), ("/x/a.mp3", "a", Some(-7)));
    assert!(titled_track("/x/a.mp3", None, Some(-7)).is_none());

    let sample = FolderSample {
        path: "/music/rock".to_string(),
        items: vec!["/music/rock/a.mp3".to_string(), "/music/rock/b.flac".to_string()],
    };
    let s = |t: &str| Some(t.to_string());
    let loud = vec![Some(-5000), None];
    let scan = folder_scan(&sample, &loud, s("rock"), vec![s("a"), s("b")]).unwrap();
    assert_eq!((scan.path.as_str(), scan.name.as_str()), ("/music/rock", "rock"));
    assert_eq!(scan.tracks.len(), 2);
    assert_eq!((scan.tracks[0].path.as_str(), scan.tracks[0].title.as_str(), scan.tracks[0].loudness), ("/music/rock/a.mp3", "a", Some(-5000)));
    assert_eq!((scan.tracks[1].path.as_str(), scan.tracks[1].title.as_str(), scan.tracks[1].loudness), ("/music/rock/b.flac", "b", None));
    assert!(folder_scan(&sample, &loud, None, vec![s("a"), s("b")]).is_none());
    assert!(folder_scan(&sample, &loud, s("rock"), vec![s("a"), None]).is_none());
    assert!(folder_scan(&sample, &loud, s("rock"), vec![s("a")]).is_none());
    assert!(folder_scan(&sample, &vec![None], s("rock"), vec![s("a"), s("b")]).is_none());
    let empty = FolderSample { path: "/e".to_string(), items: vec![] };
    let scan = folder_scan(&empty, &vec![], s("e"), vec![]).unwrap();
    assert!(scan.tracks.is_empty());

    let scanned = scan_folder(&sample, &loud).unwrap();
    assert_eq!(scanned.name, "rock");
    assert_eq!(scanned.tracks[1].title, "b");
    assert!(scan_folder(&sample, &vec![None]).is_none());
}
