use slisic::engine::{Action, Engine, Event, Phase, CHILD_LIMIT};
use slisic::journal::{JournalOp, NodeStatus, WorkState};
use slisic::pipeline::{
    chapter_candidates, chapters_are_settled, chapters_mostly_ready, collect_leaf_files,
    enough_chapters, expand_children, own_dir, reconstruct_entry_minimal, save_dir, DownloadStatus,
    Entry, EntryKind, Location, ProcessResult,
};
use slisic::probe::{
    extract_chapters, look_media, ProbeChapter, ProbeDoc, ProbeEntries, ProbeItem,
};

fn done(name: &str, file: &str) -> ProcessResult {
    ProcessResult {
        working_path: vec!["w".to_string(), name.to_string()],
        saved_path: Location::File(file.to_string()),
        playlist: "L".to_string(),
        name: name.to_string(),
    }
}

fn node(url: &str, title: &str) -> Entry {
    Entry {
        id: 0x11,
        url: url.to_string(),
        playlist: "L".to_string(),
        title: title.to_string(),
        retries: 0,
        error: None,
        kind: None,
    }
}

fn single_doc(title: Option<&str>, chapters: Option<Vec<ProbeChapter>>) -> ProbeDoc {
    ProbeDoc { title: title.map(|t| t.to_string()), kind: None, entries: ProbeEntries::Absent, chapters }
}

fn item(url: &str, title: &str) -> ProbeItem {
    ProbeItem { url: Some(url.to_string()), title: Some(title.to_string()) }
}

fn chapter(title: &str, start: i64, end: i64) -> ProbeChapter {
    ProbeChapter { title: Some(title.to_string()), start_ms: Some(start), end_ms: Some(end) }
}

fn apply_journal(st: &mut WorkState, actions: &[Action], now: u64) {
    for a in actions {
        if let Action::Journal(op) = a {
            let copy = match op {
                JournalOp::Begin { url, title } => JournalOp::Begin { url: url.clone(), title: title.clone() },
                JournalOp::Rename { title } => JournalOp::Rename { title: title.clone() },
                JournalOp::SetTotal { total } => JournalOp::SetTotal { total: *total },
                JournalOp::ChildDone => JournalOp::ChildDone,
                JournalOp::ChildFailed { message } => JournalOp::ChildFailed { message: message.clone() },
                JournalOp::ClosePlaylist => JournalOp::ClosePlaylist,
                JournalOp::CompleteLeaf { id, url, title, file } => JournalOp::CompleteLeaf {
                    id: *id,
                    url: url.clone(),
                    title: title.clone(),
                    file: file.clone(),
                },
                JournalOp::Settle => JournalOp::Settle,
                JournalOp::Fail { message } => JournalOp::Fail { message: message.clone() },
            };
            st.apply(copy, now);
        }
    }
}

#[test]
fn start_announces_begins_and_probes() {
    let mut e = Engine::new(node("u", "T"), vec![], vec![]);
    let acts = e.start();
    assert_eq!(e.phase, Phase::LeafLookup);
    assert_eq!(acts.len(), 2);
    assert!(matches!(&acts[0], Action::Notify(m) if m.playlist == "L" && m.str == "Processing T"));
    assert!(matches!(&acts[1], Action::LookupLeaf));
    let acts = e.on_leaf_lookup(None);
    assert_eq!(e.phase, Phase::Probing);
    assert!(e.earlier.is_none());
    assert_eq!(acts.len(), 2);
    assert!(matches!(&acts[0], Action::Journal(JournalOp::Begin { url, title }) if url == "u" && title == "T"));
    assert!(matches!(&acts[1], Action::Probe { url } if url == "u"));
}

#[test]
fn probe_failure_fails_the_node() {
    let mut e = Engine::new(node("u", "T"), vec![], vec![]);
    e.start();
    e.on_leaf_lookup(None);
    let acts = e.on_probed(Err("no such video".to_string()));
    assert_eq!(e.phase, Phase::Failed);
    assert_eq!(acts.len(), 3);
    assert!(matches!(&acts[0], Action::Journal(JournalOp::Fail { message }) if message == "no such video"));
    assert!(matches!(&acts[1], Action::Notify(m) if m.playlist == "__error__" && m.str == "no such video"));
    assert!(matches!(&acts[2], Action::Abort { message } if message == "no such video"));
    let mut st = WorkState::initial(0x11, "u", "T", 0);
    apply_journal(&mut st, &acts, 1);
    assert_eq!(st.status, NodeStatus::Failed);
    assert!(st.should_resume(true));
}

#[test]
fn web_playlist_of_two_videos_runs_two_children() {
    let mut st = WorkState::initial(0x11, "u", "L", 0);
    let mut e = Engine::new(node("u", "L"), vec![], vec![]);
    e.start();
    apply_journal(&mut st, &e.on_leaf_lookup(None), 1);
    let doc = ProbeDoc {
        title: Some("List".to_string()),
        kind: Some("playlist".to_string()),
        entries: ProbeEntries::List(vec![item("c1", "C1"), item("c2", "C2")]),
        chapters: None,
    };
    let acts = e.on_probed(Ok(doc));
    apply_journal(&mut st, &acts, 2);
    assert_eq!(e.phase, Phase::Children);
    assert_eq!(e.node.title, "List");
    assert_eq!(e.pending, 2);
    assert_eq!(acts.len(), 3);
    assert!(matches!(&acts[0], Action::Journal(JournalOp::Rename { title }) if title == "List"));
    assert!(matches!(&acts[1], Action::Journal(JournalOp::SetTotal { total: 2 })));
    assert!(matches!(&acts[2], Action::RunChildren { count: 2, limit } if *limit == CHILD_LIMIT));
    assert_eq!(CHILD_LIMIT, 16);
    assert_eq!(st.progress_total, 2);
    assert_eq!(st.title, "List");

    let c1 = e.child(0).unwrap();
    assert_eq!(c1.node.url, "c1");
    assert_eq!(c1.node.title, "C1");
    assert_eq!(c1.node.playlist, "L");
    assert_eq!(c1.titles, vec!["List".to_string()]);
    assert_eq!(c1.ids, vec![0x11]);
    assert_eq!(c1.phase, Phase::Created);
    let c2 = e.child(1).unwrap();
    assert_eq!(c2.node.url, "c2");
    assert_ne!(c1.node.id, c2.node.id);
    assert!(e.child(2).is_none());

    let mut handed: Vec<String> = Vec::new();
    let acts = e.on_child(Ok(done("C1", "/save/List/C1.m4a")));
    apply_journal(&mut st, &acts, 3);
    assert_eq!(acts.len(), 2);
    assert!(matches!(&acts[0], Action::Report(r) if r.name == "C1" && r.playlist == "L"
        && r.working_path == vec!["w".to_string(), "C1".to_string()]
        && matches!(&r.saved_path, Location::File(f) if f == "/save/List/C1.m4a")));
    assert!(matches!(&acts[1], Action::Journal(JournalOp::ChildDone)));
    handed.extend(acts.iter().filter_map(|a| match a {
        Action::Report(r) => Some(r.name.clone()),
        _ => None,
    }));
    assert_eq!(e.phase, Phase::Children);
    let acts = e.on_child(Ok(done("C2", "/save/List/C2.m4a")));
    apply_journal(&mut st, &acts, 4);
    assert_eq!(e.phase, Phase::Finished);
    assert_eq!(acts.len(), 4);
    handed.extend(acts.iter().filter_map(|a| match a {
        Action::Report(r) => Some(r.name.clone()),
        _ => None,
    }));
    assert_eq!(handed, vec!["C1".to_string(), "C2".to_string()]);
    assert!(matches!(&acts[1], Action::Journal(JournalOp::ChildDone)));
    assert!(matches!(&acts[2], Action::Journal(JournalOp::ClosePlaylist)));
    match &acts[3] {
        Action::Finish(r) => {
            assert_eq!(r.name, "List");
            assert_eq!(r.playlist, "L");
            assert_eq!(r.working_path, vec!["00000000-0000-0000-0000-000000000011".to_string()]);
            assert!(matches!(&r.saved_path, Location::Under(d) if d == &vec!["List".to_string()]));
        }
        other => panic!("unexpected {:?}", other),
    }
    assert_eq!(st.status, NodeStatus::Done);
    assert_eq!(st.progress_done, 2);
}

#[test]
fn failed_child_leaves_the_playlist_unfinished_in_the_journal() {
    let mut st = WorkState::initial(0x11, "u", "L", 0);
    let mut e = Engine::new(node("u", "L"), vec![], vec![]);
    e.start();
    apply_journal(&mut st, &e.on_leaf_lookup(None), 1);
    let doc = ProbeDoc {
        title: None,
        kind: Some("playlist".to_string()),
        entries: ProbeEntries::List(vec![item("c1", "C1"), item("c2", "C2")]),
        chapters: None,
    };
    apply_journal(&mut st, &e.on_probed(Ok(doc)), 2);
    let acts = e.on_child(Err("child broke".to_string()));
    assert!(matches!(&acts[0], Action::Journal(JournalOp::ChildFailed { message }) if message == "child broke"));
    assert!(!acts.iter().any(|a| matches!(a, Action::Report(_))));
    apply_journal(&mut st, &acts, 3);
    let acts = e.on_child(Ok(done("C2", "/save/L/C2.m4a")));
    apply_journal(&mut st, &acts, 4);
    assert_eq!(e.phase, Phase::Finished);
    assert!(matches!(&acts[0], Action::Report(r) if r.name == "C2"));
    assert!(matches!(acts.last(), Some(Action::Finish(_))));
    assert_eq!(st.progress_done, 1);
    assert_eq!(st.status, NodeStatus::Downloading);
    assert_eq!(st.error.as_deref(), Some("child broke"));
    assert!(st.should_resume(true));
}

#[test]
fn playlist_with_zero_entries_has_no_children_and_is_done() {
    let mut st = WorkState::initial(0x11, "u", "L", 0);
    let mut e = Engine::new(node("u", "L"), vec![], vec![]);
    e.start();
    apply_journal(&mut st, &e.on_leaf_lookup(None), 1);
    let doc = ProbeDoc {
        title: None,
        kind: Some("playlist".to_string()),
        entries: ProbeEntries::List(vec![]),
        chapters: None,
    };
    let acts = e.on_probed(Ok(doc));
    apply_journal(&mut st, &acts, 2);
    assert_eq!(e.phase, Phase::Finished);
    assert_eq!(acts.len(), 3);
    assert!(matches!(&acts[0], Action::Journal(JournalOp::SetTotal { total: 0 })));
    assert!(matches!(&acts[1], Action::Journal(JournalOp::ClosePlaylist)));
    assert!(matches!(&acts[2], Action::Finish(_)));
    assert!(matches!(&e.node.kind, Some(EntryKind::Playlist { children, expanded: true }) if children.is_empty()));
    assert_eq!(st.status, NodeStatus::Done);
    assert!(st.children.is_empty());
}

#[test]
fn entries_member_alone_makes_a_playlist() {
    let doc = ProbeDoc { title: None, kind: None, entries: ProbeEntries::NotAList, chapters: None };
    assert!(doc.is_playlist());
    assert!(!doc.is_tagged_playlist());
    assert!(expand_children(&doc, "L").is_empty());
    let doc = ProbeDoc { title: None, kind: Some("video".to_string()), entries: ProbeEntries::Absent, chapters: None };
    assert!(!doc.is_playlist());
}

#[test]
fn children_take_empty_text_for_missing_members() {
    let doc = ProbeDoc {
        title: None,
        kind: None,
        entries: ProbeEntries::List(vec![ProbeItem { url: None, title: None }, item("u2", "T2")]),
        chapters: None,
    };
    let kids = expand_children(&doc, "P");
    assert_eq!(kids.len(), 2);
    assert_eq!(kids[0].url, "");
    assert_eq!(kids[0].title, "");
    assert_eq!(kids[0].playlist, "P");
    assert_eq!(kids[1].url, "u2");
    assert_eq!(kids[1].title, "T2");
    for k in &kids {
        assert_eq!(k.retries, 0);
        assert!(k.error.is_none());
        assert!(matches!(&k.kind, Some(EntryKind::Single { file: None, chapters: None, status: DownloadStatus::Pending })));
    }
}

#[test]
fn plain_single_is_downloaded_and_saved_as_its_file() {
    let mut st = WorkState::initial(0x11, "u", "", 0);
    let mut e = Engine::new(node("u", ""), vec!["My: List".to_string()], vec![0x10]);
    assert!(matches!(e.start().last(), Some(Action::LookupLeaf)));
    assert!(st.earlier_result(true).is_none());
    let found = st.earlier_result(true);
    apply_journal(&mut st, &e.on_leaf_lookup(found), 1);
    assert_eq!(st.status, NodeStatus::Downloading);
    let acts = e.on_probed(Ok(single_doc(Some("Song?"), None)));
    apply_journal(&mut st, &acts, 2);
    assert_eq!(e.phase, Phase::CandidateCheck);
    assert_eq!(acts.len(), 2);
    assert!(matches!(&acts[0], Action::Journal(JournalOp::Rename { title }) if title == "Song?"));
    assert!(matches!(&acts[1], Action::LookFor { dir, name } if dir == &vec!["My_ List".to_string()] && name == "Song_.m4a"));
    let acts = e.on_candidate(None);
    assert_eq!(e.phase, Phase::Fetching);
    assert!(matches!(&acts[0], Action::Download { url, dir } if url == "u" && dir == &vec!["My_ List".to_string()]));
    let acts = e.on_downloaded(Ok("/save/My_ List/Song_.m4a".to_string()));
    apply_journal(&mut st, &acts, 3);
    assert_eq!(e.phase, Phase::Finished);
    assert_eq!(acts.len(), 2);
    match &acts[1] {
        Action::Finish(r) => {
            assert!(matches!(&r.saved_path, Location::File(f) if f == "/save/My_ List/Song_.m4a"));
            assert_eq!(r.name, "Song?");
            assert_eq!(
                r.working_path,
                vec![
                    "00000000-0000-0000-0000-000000000010".to_string(),
                    "00000000-0000-0000-0000-000000000011".to_string()
                ]
            );
        }
        other => panic!("unexpected {:?}", other),
    }
    assert!(matches!(&e.node.kind, Some(EntryKind::Single { file: Some(f), chapters: None, status: DownloadStatus::Done }) if f == "/save/My_ List/Song_.m4a"));
    assert_eq!(st.status, NodeStatus::Done);
    assert_eq!(st.progress_done, 1);
    assert_eq!(st.progress_total, 1);
    assert_eq!(st.finished_file().map(|s| s.as_str()), Some("/save/My_ List/Song_.m4a"));
    let mut files = Vec::new();
    collect_leaf_files(&e.node, &mut files);
    assert_eq!(files, vec!["/save/My_ List/Song_.m4a".to_string()]);
}

#[test]
fn finished_leaf_is_answered_from_the_journal() {
    let mut st = WorkState::initial(0x11, "u", "Song", 0);
    st.apply(JournalOp::Begin { url: "u".to_string(), title: "Song".to_string() }, 1);
    st.apply(
        JournalOp::CompleteLeaf {
            id: 0x11,
            url: "u".to_string(),
            title: "Song".to_string(),
            file: Some("/save/Song.m4a".to_string()),
        },
        2,
    );
    assert_eq!(st.status, NodeStatus::Done);

    let mut e = Engine::new(node("u", "Song"), vec![], vec![0x10]);
    let mut all: Vec<Action> = Vec::new();
    all.extend(e.start());
    let found = st.earlier_result(true);
    assert_eq!(found.as_deref(), Some("/save/Song.m4a"));
    let acts = e.on_leaf_lookup(found);
    apply_journal(&mut st, &acts, 3);
    assert_eq!(st.status, NodeStatus::Downloading);
    assert_eq!(e.earlier.as_deref(), Some("/save/Song.m4a"));
    all.extend(acts);
    let acts = e.on_probed(Ok(single_doc(Some("Song"), None)));
    apply_journal(&mut st, &acts, 4);
    assert_eq!(e.phase, Phase::Finished);
    assert_eq!(acts.len(), 3);
    assert!(matches!(&acts[0], Action::Journal(JournalOp::Rename { title }) if title == "Song"));
    assert!(matches!(&acts[1], Action::Journal(JournalOp::Settle)));
    match &acts[2] {
        Action::Finish(r) => {
            assert!(matches!(&r.saved_path, Location::File(f) if f == "/save/Song.m4a"));
            assert_eq!(
                r.working_path,
                vec![
                    "00000000-0000-0000-0000-000000000010".to_string(),
                    "00000000-0000-0000-0000-000000000011".to_string()
                ]
            );
        }
        other => panic!("unexpected {:?}", other),
    }
    all.extend(acts);
    assert!(!all.iter().any(|a| matches!(
        a,
        Action::Download { .. } | Action::Split { .. } | Action::Measure { .. } | Action::Remove { .. }
    )));
    assert_eq!(st.status, NodeStatus::Done);
    assert_eq!(st.children.len(), 1);
    assert_eq!(st.finished_file().map(|s| s.as_str()), Some("/save/Song.m4a"));
    assert!(!st.should_resume(true));
}

#[test]
fn a_finished_leaf_whose_file_is_gone_is_made_again() {
    let mut st = WorkState::initial(0x11, "u", "Song", 0);
    st.apply(
        JournalOp::CompleteLeaf {
            id: 0x11,
            url: "u".to_string(),
            title: "Song".to_string(),
            file: Some("/save/Song.m4a".to_string()),
        },
        1,
    );
    assert!(st.earlier_result(false).is_none());
    assert!(st.should_resume(false));
    let mut e = Engine::new(node("u", "Song"), vec![], vec![]);
    e.start();
    e.on_leaf_lookup(st.earlier_result(false));
    let acts = e.on_probed(Ok(single_doc(None, None)));
    assert_eq!(e.phase, Phase::CandidateCheck);
    assert!(matches!(&acts[0], Action::LookFor { name, .. } if name == "Song.m4a"));
}

#[test]
fn an_earlier_file_does_not_stop_a_playlist() {
    let mut e = Engine::new(node("u", "L"), vec![], vec![]);
    e.start();
    e.on_leaf_lookup(Some("/save/L.m4a".to_string()));
    let doc = ProbeDoc {
        title: None,
        kind: Some("playlist".to_string()),
        entries: ProbeEntries::List(vec![item("c1", "C1")]),
        chapters: None,
    };
    let acts = e.on_probed(Ok(doc));
    assert_eq!(e.phase, Phase::Children);
    assert!(matches!(acts.last(), Some(Action::RunChildren { count: 1, .. })));
}

#[test]
fn existing_file_is_reused() {
    let mut e = Engine::new(node("u", "Song"), vec![], vec![]);
    e.start();
    e.on_leaf_lookup(None);
    e.on_probed(Ok(single_doc(None, None)));
    let acts = e.on_candidate(Some("/save/Song.m4a".to_string()));
    assert_eq!(e.phase, Phase::Finished);
    assert!(matches!(&acts[0], Action::Journal(JournalOp::CompleteLeaf { file: Some(f), .. }) if f == "/save/Song.m4a"));
    assert!(matches!(&acts[1], Action::Finish(_)));
}

#[test]
fn download_failure_fails_the_single() {
    let mut e = Engine::new(node("u", "Song"), vec![], vec![]);
    e.start();
    e.on_leaf_lookup(None);
    e.on_probed(Ok(single_doc(None, None)));
    e.on_candidate(None);
    let acts = e.on_downloaded(Err("network".to_string()));
    assert_eq!(e.phase, Phase::Failed);
    assert!(matches!(&acts[0], Action::Journal(JournalOp::Fail { message }) if message == "network"));
    assert!(matches!(&acts[2], Action::Abort { message } if message == "network"));
}

#[test]
fn chapter_split_video_yields_a_directory_and_drops_the_whole_file() {
    let mut st = WorkState::initial(0x11, "u", "Album", 0);
    let mut e = Engine::new(node("u", "Album"), vec![], vec![]);
    e.start();
    apply_journal(&mut st, &e.on_leaf_lookup(None), 1);
    let doc = single_doc(
        Some("Album"),
        Some(vec![chapter("Intro", 0, 1000), chapter("Middle", 1000, 2500), chapter("End", 2500, 4000)]),
    );
    let acts = e.on_probed(Ok(doc));
    apply_journal(&mut st, &acts, 2);
    assert_eq!(e.chapters.as_ref().map(|c| c.len()), Some(3));
    assert_eq!(e.phase, Phase::ChapterCheck);
    assert!(matches!(acts.last(), Some(Action::InspectChapters { dir, expected: 3 }) if dir == &vec!["Album".to_string()]));
    let acts = e.on_chapters(0, 0);
    assert_eq!(e.phase, Phase::Fetching);
    assert!(matches!(&acts[0], Action::Download { .. }));
    let acts = e.on_downloaded(Ok("/save/Album.m4a".to_string()));
    assert_eq!(e.phase, Phase::Measuring);
    assert_eq!(acts.len(), 1);
    assert!(matches!(&acts[0], Action::Measure { file } if file == "/save/Album.m4a"));
    let acts = e.on_measured(Some(-14300));
    assert_eq!(e.phase, Phase::Splitting);
    assert_eq!(acts.len(), 2);
    assert!(matches!(&acts[0], Action::Notify(m) if m.str == "split audio Album (-14.300db)" && m.playlist == "L"));
    match &acts[1] {
        Action::Split { source, chapters, out_dir } => {
            assert_eq!(source, "/save/Album.m4a");
            assert_eq!(out_dir, &vec!["Album".to_string()]);
            let titles: Vec<&str> = chapters.iter().map(|c| c.title.as_str()).collect();
            assert_eq!(titles, vec!["Intro", "Middle", "End"]);
            assert_eq!((chapters[1].start_ms, chapters[1].end_ms), (1000, 2500));
        }
        other => panic!("unexpected {:?}", other),
    }
    let acts = e.on_split(Ok(()));
    apply_journal(&mut st, &acts, 3);
    assert_eq!(e.phase, Phase::Finished);
    assert_eq!(acts.len(), 3);
    assert!(matches!(&acts[0], Action::Remove { file } if file == "/save/Album.m4a"));
    assert!(matches!(&acts[1], Action::Journal(JournalOp::CompleteLeaf { file: Some(f), .. }) if f == "/save/Album.m4a"));
    assert!(matches!(&acts[2], Action::Finish(r) if matches!(&r.saved_path, Location::Under(d) if d == &vec!["Album".to_string()])));
    assert_eq!(st.status, NodeStatus::Done);
}

#[test]
fn settled_chapter_directory_is_not_downloaded_again() {
    let mut e = Engine::new(node("u", "Album"), vec![], vec![]);
    e.start();
    e.on_leaf_lookup(None);
    e.on_probed(Ok(single_doc(None, Some(vec![chapter("A", 0, 1), chapter("B", 1, 2)]))));
    let acts = e.on_chapters(2, 0);
    assert_eq!(e.phase, Phase::Finished);
    assert!(matches!(&acts[0], Action::Journal(JournalOp::CompleteLeaf { file: None, .. })));
    assert!(matches!(&acts[1], Action::Finish(r) if matches!(&r.saved_path, Location::Under(_))));
    assert!(matches!(&e.node.kind, Some(EntryKind::Single { file: None, chapters: Some(c), status: DownloadStatus::Done }) if c.len() == 2));
}

#[test]
fn split_failure_fails_the_leaf() {
    let mut e = Engine::new(node("u", "Album"), vec![], vec![]);
    e.start();
    e.on_leaf_lookup(None);
    e.on_probed(Ok(single_doc(None, Some(vec![chapter("A", 0, 1)]))));
    e.on_chapters(5, 0);
    e.on_downloaded(Ok("/w.m4a".to_string()));
    let acts = e.on_measured(None);
    assert!(matches!(&acts[0], Action::Notify(m) if m.str == "split audio Album"));
    let acts = e.on_split(Err("ffmpeg split failed".to_string()));
    assert_eq!(e.phase, Phase::Failed);
    assert!(matches!(&acts[0], Action::Journal(JournalOp::Fail { .. })));
}

#[test]
fn step_follows_the_phases_and_ignores_stray_events() {
    let mut e = Engine::new(node("u", "Song"), vec![], vec![]);
    assert!(e.step(Event::Looked(None)).is_empty());
    assert_eq!(e.phase, Phase::Created);
    assert_eq!(e.step(Event::Start).len(), 2);
    assert!(e.step(Event::Start).is_empty());
    assert!(e.step(Event::Probed(Ok(single_doc(None, None)))).is_empty());
    assert_eq!(e.step(Event::LeafLooked(None)).len(), 2);
    assert!(e.step(Event::LeafLooked(None)).is_empty());
    assert_eq!(e.step(Event::Probed(Ok(single_doc(None, None)))).len(), 1);
    assert!(e.step(Event::ChildFinished(Ok(done("x", "/x")))).is_empty());
    assert_eq!(e.step(Event::Looked(None)).len(), 1);
    assert_eq!(e.step(Event::Downloaded(Ok("/f".to_string()))).len(), 2);
    assert_eq!(e.phase, Phase::Finished);
    assert!(e.step(Event::SplitDone(Ok(()))).is_empty());
    assert!(e.step(Event::Measured(None)).is_empty());
    assert!(e.step(Event::ChaptersInspected { count: 0, hits: 0 }).is_empty());
}

#[test]
fn chapters_are_read_with_defaults() {
    let doc = single_doc(
        None,
        Some(vec![
            ProbeChapter { title: None, start_ms: None, end_ms: None },
            ProbeChapter { title: Some("B".to_string()), start_ms: Some(5000), end_ms: None },
        ]),
    );
    let chs = extract_chapters(&doc).unwrap();
    assert_eq!(chs.len(), 2);
    assert_eq!((chs[0].title.as_str(), chs[0].start_ms, chs[0].end_ms), ("", 0, 0));
    assert_eq!((chs[1].title.as_str(), chs[1].start_ms, chs[1].end_ms), ("B", 5000, 5000));
    assert!(extract_chapters(&single_doc(None, Some(vec![]))).is_none());
    assert!(extract_chapters(&single_doc(None, None)).is_none());
}

#[test]
fn look_media_summarises_a_probe() {
    let doc = ProbeDoc {
        title: Some("T".to_string()),
        kind: Some("playlist".to_string()),
        entries: ProbeEntries::List(vec![item("a", "A"), item("b", "B"), item("c", "C")]),
        chapters: None,
    };
    let info = look_media(&doc).unwrap();
    assert_eq!(info.title, "T");
    assert_eq!(info.item_type, "playlist");
    assert_eq!(info.entries_count, Some(3));
    let info = look_media(&single_doc(Some("V"), None)).unwrap();
    assert_eq!(info.item_type, "unknown");
    assert_eq!(info.entries_count, None);
    let doc = ProbeDoc { title: Some("T".to_string()), kind: Some("playlist".to_string()), entries: ProbeEntries::NotAList, chapters: None };
    assert_eq!(look_media(&doc).unwrap().entries_count, None);
    let doc = ProbeDoc { title: Some("T".to_string()), kind: Some("video".to_string()), entries: ProbeEntries::List(vec![item("a", "A")]), chapters: None };
    assert_eq!(look_media(&doc).unwrap().entries_count, None);
    assert_eq!(look_media(&single_doc(None, None)).unwrap_err(), "title filed not found");
}

#[test]
fn directories_are_sanitised_titles() {
    assert_eq!(save_dir(&vec!["A/B".to_string(), " C. ".to_string()]), vec!["A_B".to_string(), "C".to_string()]);
    assert_eq!(own_dir(&vec!["P".to_string()], "x|y"), vec!["P".to_string(), "x_y".to_string()]);
    assert!(save_dir(&vec![]).is_empty());
}

#[test]
fn chapter_coverage_needs_four_fifths() {
    assert!(enough_chapters(4, 5));
    assert!(!enough_chapters(3, 5));
    assert!(enough_chapters(8, 10));
    assert!(!enough_chapters(7, 10));
    assert!(enough_chapters(usize::MAX, usize::MAX));
    assert!(chapters_mostly_ready(0, 0, true));
    assert!(!chapters_mostly_ready(0, 0, false));
    assert!(chapters_mostly_ready(4, 5, false));
    assert!(chapters_are_settled(3, 0, 3));
    assert!(chapters_are_settled(7, 4, 5));
    assert!(!chapters_are_settled(7, 3, 5));
}

#[test]
fn chapter_candidates_carry_position_and_title() {
    assert_eq!(chapter_candidates(1, "In: tro"), ("01 In_ tro.m4a".to_string(), "01 In_ tro.flac".to_string()));
    assert_eq!(chapter_candidates(12, "x").0, "12 x.m4a");
    assert_eq!(chapter_candidates(123, "x").1, "123 x.flac");
}

#[test]
fn reconstructed_node_is_unprobed() {
    let mut st = WorkState::initial(77, "u", "T", 0);
    st.fail("old error");
    let e = reconstruct_entry_minimal(&st, "label");
    assert_eq!(e.id, 77);
    assert_eq!(e.url, "u");
    assert_eq!(e.title, "T");
    assert_eq!(e.playlist, "label");
    assert_eq!(e.retries, 0);
    assert_eq!(e.error.as_deref(), Some("old error"));
    assert!(e.kind.is_none());
}

#[test]
fn leaf_files_are_collected_in_order() {
    let leaf = |f: Option<&str>, status| Entry {
        id: 1,
        url: String::new(),
        playlist: String::new(),
        title: String::new(),
        retries: 0,
        error: None,
        kind: Some(EntryKind::Single { file: f.map(|s| s.to_string()), chapters: None, status }),
    };
    let inner = Entry {
        kind: Some(EntryKind::Playlist {
            children: vec![leaf(Some("b"), DownloadStatus::Done), leaf(Some("x"), DownloadStatus::Failed)],
            expanded: true,
        }),
        ..leaf(None, DownloadStatus::Pending)
    };
    let root = Entry {
        kind: Some(EntryKind::Playlist {
            children: vec![leaf(Some("a"), DownloadStatus::Done), inner, leaf(None, DownloadStatus::Done), leaf(Some("c"), DownloadStatus::Done)],
            expanded: true,
        }),
        ..leaf(None, DownloadStatus::Pending)
    };
    let mut out = vec!["first".to_string()];
    collect_leaf_files(&root, &mut out);
    assert_eq!(out, vec!["first", "a", "b", "c"]);
}
