use slisic::journal::{
    lock_file_name, mutate, node_dir, save_state, select_resumable, state_file_name, tally,
    ChildLeaf, JournalOp, NodeStatus, WorkState,
};

fn leaf(file: Option<&str>) -> ChildLeaf {
    ChildLeaf {
        id: 7,
        url: "u".to_string(),
        title: "t".to_string(),
        status: NodeStatus::Done,
        file: file.map(|f| f.to_string()),
        error: None,
    }
}

fn state(status: NodeStatus, children: Vec<ChildLeaf>) -> WorkState {
    WorkState {
        root_id: 1,
        url: "u".to_string(),
        title: "t".to_string(),
        status,
        progress_done: 0,
        progress_total: 0,
        error: None,
        updated_ms: 0,
        children,
    }
}

#[test]
fn initial_snapshot_is_pending_and_empty() {
    let st = WorkState::initial(42, "https://e.x/v", "Title", 1000);
    assert_eq!(st.root_id, 42);
    assert_eq!(st.url, "https://e.x/v");
    assert_eq!(st.title, "Title");
    assert_eq!(st.status, NodeStatus::Pending);
    assert_eq!(st.progress_done, 0);
    assert_eq!(st.progress_total, 0);
    assert!(st.error.is_none());
    assert_eq!(st.updated_ms, 1000);
    assert!(st.children.is_empty());
}

#[test]
fn begin_marks_downloading_and_keeps_title_when_given_empty() {
    let mut st = WorkState::initial(1, "old", "Kept", 0);
    st.begin("new", "");
    assert_eq!(st.status, NodeStatus::Downloading);
    assert_eq!(st.url, "new");
    assert_eq!(st.title, "Kept");
    st.begin("new", "Fresh");
    assert_eq!(st.title, "Fresh");
}

#[test]
fn playlist_counts_children_and_closes_when_all_done() {
    let mut st = WorkState::initial(1, "u", "t", 0);
    st.apply(JournalOp::Begin { url: "u".to_string(), title: "t".to_string() }, 1);
    st.apply(JournalOp::SetTotal { total: 2 }, 2);
    assert_eq!(st.progress_total, 2);
    st.apply(JournalOp::ChildDone, 3);
    st.apply(JournalOp::ClosePlaylist, 4);
    assert_eq!(st.status, NodeStatus::Downloading);
    st.apply(JournalOp::ChildDone, 5);
    st.apply(JournalOp::ClosePlaylist, 6);
    assert_eq!(st.status, NodeStatus::Done);
    assert_eq!(st.progress_done, 2);
    assert_eq!(st.updated_ms, 6);
    assert!(st.error.is_none());
}

#[test]
fn child_failure_is_noted_and_not_counted() {
    let mut st = WorkState::initial(1, "u", "t", 0);
    st.set_total(2);
    st.child_done();
    st.child_failed("boom");
    assert_eq!(st.progress_done, 1);
    assert_eq!(st.error.as_deref(), Some("boom"));
    st.close_playlist();
    assert_eq!(st.status, NodeStatus::Pending);
    assert_eq!(st.error.as_deref(), Some("boom"));
}

#[test]
fn empty_playlist_is_done_when_closed() {
    let mut st = WorkState::initial(1, "u", "t", 0);
    st.begin("u", "t");
    st.set_total(0);
    st.close_playlist();
    assert_eq!(st.status, NodeStatus::Done);
    assert!(st.children.is_empty());
}

#[test]
fn child_done_saturates() {
    let mut st = state(NodeStatus::Downloading, vec![]);
    st.progress_done = u64::MAX;
    st.child_done();
    assert_eq!(st.progress_done, u64::MAX);
}

#[test]
fn complete_leaf_records_the_leaf_last() {
    let mut st = WorkState::initial(9, "u", "t", 0);
    st.begin("u", "t");
    st.complete_leaf(9, "u", "Song", Some("/save/Song.m4a".to_string()));
    assert_eq!(st.status, NodeStatus::Done);
    assert_eq!(st.progress_total, 1);
    assert_eq!(st.progress_done, 1);
    assert_eq!(st.children.len(), 1);
    let last = st.children.last().unwrap();
    assert_eq!(last.id, 9);
    assert_eq!(last.title, "Song");
    assert_eq!(last.status, NodeStatus::Done);
    assert_eq!(last.file.as_deref(), Some("/save/Song.m4a"));
    assert_eq!(st.last_file().map(|s| s.as_str()), Some("/save/Song.m4a"));
    assert_eq!(st.finished_file().map(|s| s.as_str()), Some("/save/Song.m4a"));
    st.complete_leaf(9, "u", "Song", None);
    assert_eq!(st.progress_done, 1);
    assert_eq!(st.children.len(), 2);
    assert!(st.last_file().is_none());
}

#[test]
fn fail_marks_failed_with_message() {
    let mut st = WorkState::initial(1, "u", "t", 0);
    st.fail("probe failed");
    assert_eq!(st.status, NodeStatus::Failed);
    assert_eq!(st.error.as_deref(), Some("probe failed"));
    assert!(st.finished_file().is_none());
}

#[test]
fn resume_rule_by_status() {
    assert_eq!(state(NodeStatus::Pending, vec![]).should_resume_with_reason(true), (true, "pending"));
    assert_eq!(
        state(NodeStatus::Downloading, vec![]).should_resume_with_reason(true),
        (true, "downloading")
    );
    assert_eq!(
        state(NodeStatus::Failed, vec![]).should_resume_with_reason(true),
        (true, "last_run_error")
    );
    assert_eq!(
        state(NodeStatus::Done, vec![leaf(Some("/f"))]).should_resume_with_reason(true),
        (false, "already_ok")
    );
    assert_eq!(
        state(NodeStatus::Done, vec![leaf(Some("/f"))]).should_resume_with_reason(false),
        (true, "ok_but_file_missing")
    );
    assert_eq!(
        state(NodeStatus::Done, vec![leaf(None)]).should_resume_with_reason(false),
        (false, "already_ok")
    );
    assert_eq!(state(NodeStatus::Done, vec![]).should_resume_with_reason(false), (false, "already_ok"));
}

#[test]
fn done_leaf_is_present_or_resumed() {
    let st = state(NodeStatus::Done, vec![leaf(Some("/f"))]);
    for present in [true, false] {
        assert!(present || st.should_resume(present));
    }
}

#[test]
fn resume_after_crash_takes_up_only_the_unfinished_node() {
    let states = vec![
        state(NodeStatus::Done, vec![leaf(Some("/save/C1.m4a"))]),
        state(NodeStatus::Downloading, vec![]),
    ];
    let t = tally(&states);
    assert_eq!((t.pending, t.downloading, t.err, t.ok), (0, 1, 0, 1));
    assert_eq!(select_resumable(&states, &vec![true, false]), vec![1]);
}

#[test]
fn scan_selects_in_order() {
    let states = vec![
        state(NodeStatus::Failed, vec![]),
        state(NodeStatus::Done, vec![leaf(Some("/a"))]),
        state(NodeStatus::Done, vec![leaf(Some("/b"))]),
        state(NodeStatus::Pending, vec![]),
    ];
    assert_eq!(select_resumable(&states, &vec![true, true, false, true]), vec![0, 2, 3]);
    assert!(select_resumable(&vec![], &vec![]).is_empty());
}

#[test]
fn node_dir_is_ancestors_then_node_in_hyphenated_form() {
    let dir = node_dir(&vec![0xa1a2a3a4b1b2c1c2d1d2d3d4d5d6d7d8u128, 0], 255);
    assert_eq!(
        dir,
        vec![
            "a1a2a3a4-b1b2-c1c2-d1d2-d3d4d5d6d7d8".to_string(),
            "00000000-0000-0000-0000-000000000000".to_string(),
            "00000000-0000-0000-0000-0000000000ff".to_string(),
        ]
    );
    assert_eq!(state_file_name(), "state.json");
    assert_eq!(lock_file_name(), "lock");
}

#[test]
fn save_state_stamps_and_keeps_the_rest() {
    let mut st = WorkState::initial(3, "u", "t", 0);
    st.set_total(5);
    save_state(&mut st);
    assert!(st.updated_ms > 1_600_000_000_000);
    assert_eq!(st.progress_total, 5);
    assert_eq!(st.status, NodeStatus::Pending);
}

#[test]
fn mutate_starts_from_the_initial_snapshot_when_none_is_loaded() {
    let st = mutate(None, 5, "u", "t", JournalOp::Begin { url: "u2".to_string(), title: String::new() });
    assert_eq!(st.root_id, 5);
    assert_eq!(st.status, NodeStatus::Downloading);
    assert_eq!(st.url, "u2");
    assert_eq!(st.title, "t");
    let st2 = mutate(Some(st), 5, "x", "y", JournalOp::Fail { message: "e".to_string() });
    assert_eq!(st2.status, NodeStatus::Failed);
    assert_eq!(st2.url, "u2");
}

#[test]
fn earlier_result_needs_a_done_node_and_its_file() {
    let done = state(NodeStatus::Done, vec![leaf(Some("/save/a.m4a"))]);
    assert_eq!(done.earlier_result(true).as_deref(), Some("/save/a.m4a"));
    assert!(done.earlier_result(false).is_none());
    let running = state(NodeStatus::Downloading, vec![leaf(Some("/save/a.m4a"))]);
    assert!(running.earlier_result(true).is_none());
    let failed = state(NodeStatus::Failed, vec![leaf(Some("/save/a.m4a"))]);
    assert!(failed.earlier_result(true).is_none());
    let bare = state(NodeStatus::Done, vec![leaf(None)]);
    assert!(bare.earlier_result(true).is_none());
    assert!(state(NodeStatus::Done, vec![]).earlier_result(true).is_none());
}

#[test]
fn settling_restores_a_done_node_after_begin() {
    let mut st = state(NodeStatus::Done, vec![leaf(Some("/save/a.m4a"))]);
    st.progress_done = 1;
    st.progress_total = 1;
    st.apply(JournalOp::Begin { url: "u".to_string(), title: String::new() }, 5);
    assert_eq!(st.status, NodeStatus::Downloading);
    assert!(st.should_resume(true));
    st.error = Some("old".to_string());
    st.apply(JournalOp::Settle, 6);
    assert_eq!(st.status, NodeStatus::Done);
    assert!(st.error.is_none());
    assert_eq!(st.updated_ms, 6);
    assert_eq!((st.progress_done, st.progress_total), (1, 1));
    assert_eq!(st.children.len(), 1);
    assert_eq!(st.finished_file().map(|s| s.as_str()), Some("/save/a.m4a"));
    assert!(!st.should_resume(true));
    assert!(st.should_resume(false));
}
