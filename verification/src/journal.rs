//! The per-node job journal: one snapshot per pipeline node, the
//! mutations the pipeline applies to it, and the rule that decides on
//! start-up which nodes are taken up again.

use vstd::prelude::*;
use crate::ids::{id_text, uuid_text};

verus! {

/// Where a journal node stands.
#[derive(Debug, Clone, Copy, PartialEq, Eq, Structural)]
pub enum NodeStatus {
    Pending,
    Downloading,
    /// Finished; the journal file spells it `ok`.
    Done,
    /// Failed in the last run; the journal file spells it `err`.
    Failed,
}

/// A finished leaf, as a journal node records it.
#[derive(Debug)]
pub struct ChildLeaf {
    pub id: u128,
    pub url: String,
    pub title: String,
    pub status: NodeStatus,
    pub file: Option<String>,
    pub error: Option<String>,
}

/// The full snapshot of one journal node.
#[derive(Debug)]
pub struct WorkState {
    pub root_id: u128,
    pub url: String,
    pub title: String,
    pub status: NodeStatus,
    pub progress_done: u64,
    pub progress_total: u64,
    pub error: Option<String>,
    pub updated_ms: u64,
    pub children: Vec<ChildLeaf>,
}

/// The text held by an optional string.
pub open spec fn opt_text(o: Option<String>) -> Option<Seq<char>> {
    match o {
        Some(s) => Some(s@),
        None => None,
    }
}

/// A copy of an optional string.
pub fn clone_opt_text(o: &Option<String>) -> (r: Option<String>)
    ensures
        r == *o,
{
    match o {
        Some(s) => Some(s.clone()),
        None => None,
    }
}

/// The file that the node's last recorded leaf names, if any.
pub open spec fn recorded_file(st: WorkState) -> Option<String> {
    if st.children@.len() > 0 {
        st.children@.last().file
    } else {
        None
    }
}

/// The file that a finished leaf can be answered with: the one that a
/// `Done` node records, while it is on disk.
pub open spec fn earlier_file(st: WorkState, file_present: bool) -> Option<String> {
    if st.status == NodeStatus::Done && file_present {
        recorded_file(st)
    } else {
        None
    }
}

/// The resume rule: every node that is not `Done` is taken up again, and a
/// `Done` node too where it records a file that is no longer on disk.
pub open spec fn resumable(st: WorkState, file_present: bool) -> bool {
    match st.status {
        NodeStatus::Pending | NodeStatus::Downloading | NodeStatus::Failed => true,
        NodeStatus::Done => recorded_file(st) is Some && !file_present,
    }
}

/// The word that the start-up log gives as the reason for the decision.
pub open spec fn resume_reason(st: WorkState, file_present: bool) -> Seq<char> {
    match st.status {
        NodeStatus::Pending => "pending"@,
        NodeStatus::Downloading => "downloading"@,
        NodeStatus::Failed => "last_run_error"@,
        NodeStatus::Done => if recorded_file(st) is Some && !file_present {
            "ok_but_file_missing"@
        } else {
            "already_ok"@
        },
    }
}

impl WorkState {
    /// The snapshot of a node that the journal has not seen yet.
    pub fn initial(id: u128, url: &str, title: &str, now: u64) -> (st: WorkState)
        ensures
            st.root_id == id,
            st.url@ == url@,
            st.title@ == title@,
            st.status == NodeStatus::Pending,
            st.progress_done == 0,
            st.progress_total == 0,
            st.error is None,
            st.updated_ms == now,
            st.children@.len() == 0,
    {
        WorkState {
            root_id: id,
            url: url.to_owned(),
            title: title.to_owned(),
            status: NodeStatus::Pending,
            progress_done: 0,
            progress_total: 0,
            error: None,
            updated_ms: now,
            children: Vec::new(),
        }
    }

    /// The pipeline takes the node up: it is `Downloading`, under the
    /// given URL, and under the given title unless that is empty.
    pub fn begin(&mut self, url: &str, title: &str)
        ensures
            final(self).status == NodeStatus::Downloading,
            final(self).url@ == url@,
            final(self).title@ == if title@.len() > 0 {
                title@
            } else {
                old(self).title@
            },
            final(self).root_id == old(self).root_id,
            final(self).progress_done == old(self).progress_done,
            final(self).progress_total == old(self).progress_total,
            final(self).error == old(self).error,
            final(self).updated_ms == old(self).updated_ms,
            final(self).children == old(self).children,
    {
        self.status = NodeStatus::Downloading;
        self.url = url.to_owned();
        if title.unicode_len() > 0 {
            self.title = title.to_owned();
        }
    }

    /// The probe gave the node a title.
    pub fn rename(&mut self, title: &str)
        ensures
            final(self).title@ == title@,
            final(self).root_id == old(self).root_id,
            final(self).url == old(self).url,
            final(self).status == old(self).status,
            final(self).progress_done == old(self).progress_done,
            final(self).progress_total == old(self).progress_total,
            final(self).error == old(self).error,
            final(self).updated_ms == old(self).updated_ms,
            final(self).children == old(self).children,
    {
        self.title = title.to_owned();
    }

    /// A playlist was expanded into `n` children.
    pub fn set_total(&mut self, n: usize)
        ensures
            final(self).progress_total == n,
            final(self).root_id == old(self).root_id,
            final(self).url == old(self).url,
            final(self).title == old(self).title,
            final(self).status == old(self).status,
            final(self).progress_done == old(self).progress_done,
            final(self).error == old(self).error,
            final(self).updated_ms == old(self).updated_ms,
            final(self).children == old(self).children,
    {
        self.progress_total = n as u64;
    }

    /// One child of a playlist has succeeded.
    pub fn child_done(&mut self)
        ensures
            final(self).progress_done == if old(self).progress_done < u64::MAX {
                old(self).progress_done + 1
            } else {
                u64::MAX as int
            },
            final(self).root_id == old(self).root_id,
            final(self).url == old(self).url,
            final(self).title == old(self).title,
            final(self).status == old(self).status,
            final(self).progress_total == old(self).progress_total,
            final(self).error == old(self).error,
            final(self).updated_ms == old(self).updated_ms,
            final(self).children == old(self).children,
    {
        if self.progress_done < u64::MAX {
            self.progress_done = self.progress_done + 1;
        }
    }

    /// One child of a playlist has failed: the node keeps the child's
    /// message, and its count of finished children stays as it is.
    pub fn child_failed(&mut self, message: &str)
        ensures
            opt_text(final(self).error) == Some(message@),
            final(self).root_id == old(self).root_id,
            final(self).url == old(self).url,
            final(self).title == old(self).title,
            final(self).status == old(self).status,
            final(self).progress_done == old(self).progress_done,
            final(self).progress_total == old(self).progress_total,
            final(self).updated_ms == old(self).updated_ms,
            final(self).children == old(self).children,
    {
        self.error = Some(message.to_owned());
    }

    /// All children of a playlist have been handled: the node is `Done`, with
    /// no error, where as many have succeeded as it has children (so at
    /// once where it has none); else it stays as it is.
    pub fn close_playlist(&mut self)
        ensures
            old(self).progress_done >= old(self).progress_total ==> final(self).status
                == NodeStatus::Done && final(self).error is None,
            old(self).progress_done < old(self).progress_total ==> final(self).status == old(
                self,
            ).status && final(self).error == old(self).error,
            final(self).root_id == old(self).root_id,
            final(self).url == old(self).url,
            final(self).title == old(self).title,
            final(self).progress_done == old(self).progress_done,
            final(self).progress_total == old(self).progress_total,
            final(self).updated_ms == old(self).updated_ms,
            final(self).children == old(self).children,
    {
        if self.progress_done >= self.progress_total {
            self.status = NodeStatus::Done;
            self.error = None;
        }
    }

    /// A single has been fetched: the node is `Done` with no error, counts
    /// one leaf more out of at least one, and records the leaf last.
    pub fn complete_leaf(&mut self, id: u128, url: &str, title: &str, file: Option<String>)
        ensures
            final(self).status == NodeStatus::Done,
            final(self).error is None,
            final(self).progress_total == if old(self).progress_total >= 1 {
                old(self).progress_total
            } else {
                1
            },
            final(self).progress_done == if old(self).progress_done < final(self).progress_total {
                (old(self).progress_done + 1) as u64
            } else {
                final(self).progress_total
            },
            final(self).children@.len() == old(self).children@.len() + 1,
            final(self).children@.drop_last() == old(self).children@,
            final(self).children@.last().id == id,
            final(self).children@.last().url@ == url@,
            final(self).children@.last().title@ == title@,
            final(self).children@.last().status == NodeStatus::Done,
            final(self).children@.last().file == file,
            final(self).children@.last().error is None,
            final(self).root_id == old(self).root_id,
            final(self).url == old(self).url,
            final(self).title == old(self).title,
            final(self).updated_ms == old(self).updated_ms,
    {
        if self.progress_total < 1 {
            self.progress_total = 1;
        }
        if self.progress_done < self.progress_total {
            self.progress_done = self.progress_done + 1;
        } else {
            self.progress_done = self.progress_total;
        }
        self.status = NodeStatus::Done;
        self.error = None;
        self.children.push(
            ChildLeaf {
                id,
                url: url.to_owned(),
                title: title.to_owned(),
                status: NodeStatus::Done,
                file,
                error: None,
            },
        );
        assert(self.children@.drop_last() =~= old(self).children@);
    }

    /// The node has failed: it is `Failed` and keeps the message.
    pub fn fail(&mut self, message: &str)
        ensures
            final(self).status == NodeStatus::Failed,
            opt_text(final(self).error) == Some(message@),
            final(self).root_id == old(self).root_id,
            final(self).url == old(self).url,
            final(self).title == old(self).title,
            final(self).progress_done == old(self).progress_done,
            final(self).progress_total == old(self).progress_total,
            final(self).updated_ms == old(self).updated_ms,
            final(self).children == old(self).children,
    {
        self.status = NodeStatus::Failed;
        self.error = Some(message.to_owned());
    }

    /// An earlier result of the node stands: the node is `Done` again,
    /// with no error, and records what it recorded.
    pub fn settle(&mut self)
        ensures
            final(self).status == NodeStatus::Done,
            final(self).error is None,
            final(self).root_id == old(self).root_id,
            final(self).url == old(self).url,
            final(self).title == old(self).title,
            final(self).progress_done == old(self).progress_done,
            final(self).progress_total == old(self).progress_total,
            final(self).updated_ms == old(self).updated_ms,
            final(self).children == old(self).children,
    {
        self.status = NodeStatus::Done;
        self.error = None;
    }

    /// Every write of a snapshot carries the time of the write.
    pub fn stamp(&mut self, now: u64)
        ensures
            final(self).updated_ms == now,
            final(self).root_id == old(self).root_id,
            final(self).url == old(self).url,
            final(self).title == old(self).title,
            final(self).status == old(self).status,
            final(self).progress_done == old(self).progress_done,
            final(self).progress_total == old(self).progress_total,
            final(self).error == old(self).error,
            final(self).children == old(self).children,
    {
        self.updated_ms = now;
    }

    /// The file that the last recorded leaf names, if any: the one whose
    /// presence on disk the resume rule asks for.
    pub fn last_file(&self) -> (f: Option<&String>)
        ensures
            match f {
                Some(s) => recorded_file(*self) == Some(*s),
                None => recorded_file(*self) is None,
            },
    {
        let n = self.children.len();
        if n == 0 {
            None
        } else {
            match &self.children[n - 1].file {
                Some(s) => Some(s),
                None => None,
            }
        }
    }

    /// The file with which a single can be answered at once: the one its
    /// last leaf records, where the node is `Done`.
    pub fn finished_file(&self) -> (f: Option<&String>)
        ensures
            match f {
                Some(s) => self.status == NodeStatus::Done && recorded_file(*self) == Some(*s),
                None => self.status != NodeStatus::Done || recorded_file(*self) is None,
            },
    {
        match self.status {
            NodeStatus::Done => self.last_file(),
            _ => None,
        }
    }

    /// The earlier result with which a single is answered at once: the
    /// file that the node records as finished, where that file is still on
    /// disk. `file_present` says whether the file of `finished_file` is
    /// there; it is read only where the node is `Done` and records a file.
    pub fn earlier_result(&self, file_present: bool) -> (f: Option<String>)
        ensures
            f == earlier_file(*self, file_present),
    {
        if file_present {
            match self.finished_file() {
                Some(s) => Some(s.clone()),
                None => None,
            }
        } else {
            None
        }
    }

    /// Whether the node is taken up again on start-up. `file_present` says
    /// whether the file of `last_file` is on disk; it is read only where
    /// the node is `Done` and records a file.
    pub fn should_resume(&self, file_present: bool) -> (r: bool)
        ensures
            r == resumable(*self, file_present),
    {
        match self.status {
            NodeStatus::Pending | NodeStatus::Downloading | NodeStatus::Failed => true,
            NodeStatus::Done => {
                match self.last_file() {
                    Some(_) => !file_present,
                    None => false,
                }
            },
        }
    }

    /// The same decision, with the word that explains it.
    pub fn should_resume_with_reason(&self, file_present: bool) -> (r: (bool, &'static str))
        ensures
            r.0 == resumable(*self, file_present),
            r.1@ == resume_reason(*self, file_present),
    {
        match self.status {
            NodeStatus::Pending => (true, "pending"),
            NodeStatus::Downloading => (true, "downloading"),
            NodeStatus::Failed => (true, "last_run_error"),
            NodeStatus::Done => {
                let missing = match self.last_file() {
                    Some(_) => !file_present,
                    None => false,
                };
                if missing {
                    (true, "ok_but_file_missing")
                } else {
                    (false, "already_ok")
                }
            },
        }
    }
}

/// One mutation of a journal node, as the pipeline asks for it. Whoever
/// holds the node's lock loads the snapshot (or makes the initial one),
/// applies the mutation and writes the snapshot back.
#[derive(Debug)]
pub enum JournalOp {
    Begin { url: String, title: String },
    Rename { title: String },
    SetTotal { total: usize },
    ChildDone,
    ChildFailed { message: String },
    ClosePlaylist,
    CompleteLeaf { id: u128, url: String, title: String, file: Option<String> },
    Settle,
    Fail { message: String },
}

/// What a mutation makes of a snapshot, the time stamp apart.
pub open spec fn effect(a: WorkState, op: JournalOp, b: WorkState) -> bool {
    &&& b.root_id == a.root_id
    &&& match op {
        JournalOp::Begin { url, title } => {
            &&& b.status == NodeStatus::Downloading
            &&& b.url@ == url@
            &&& b.title@ == if title@.len() > 0 {
                title@
            } else {
                a.title@
            }
            &&& b.progress_done == a.progress_done
            &&& b.progress_total == a.progress_total
            &&& b.error == a.error
            &&& b.children == a.children
        },
        JournalOp::Rename { title } => {
            &&& b.title@ == title@
            &&& b.url == a.url
            &&& b.status == a.status
            &&& b.progress_done == a.progress_done
            &&& b.progress_total == a.progress_total
            &&& b.error == a.error
            &&& b.children == a.children
        },
        JournalOp::SetTotal { total } => {
            &&& b.progress_total == total
            &&& b.url == a.url
            &&& b.title == a.title
            &&& b.status == a.status
            &&& b.progress_done == a.progress_done
            &&& b.error == a.error
            &&& b.children == a.children
        },
        JournalOp::ChildDone => {
            &&& b.progress_done == if a.progress_done < u64::MAX {
                a.progress_done + 1
            } else {
                u64::MAX as int
            }
            &&& b.url == a.url
            &&& b.title == a.title
            &&& b.status == a.status
            &&& b.progress_total == a.progress_total
            &&& b.error == a.error
            &&& b.children == a.children
        },
        JournalOp::ChildFailed { message } => {
            &&& opt_text(b.error) == Some(message@)
            &&& b.url == a.url
            &&& b.title == a.title
            &&& b.status == a.status
            &&& b.progress_done == a.progress_done
            &&& b.progress_total == a.progress_total
            &&& b.children == a.children
        },
        JournalOp::ClosePlaylist => {
            &&& a.progress_done >= a.progress_total ==> b.status == NodeStatus::Done && b.error
                is None
            &&& a.progress_done < a.progress_total ==> b.status == a.status && b.error == a.error
            &&& b.url == a.url
            &&& b.title == a.title
            &&& b.progress_done == a.progress_done
            &&& b.progress_total == a.progress_total
            &&& b.children == a.children
        },
        JournalOp::CompleteLeaf { id, url, title, file } => {
            &&& b.status == NodeStatus::Done
            &&& b.error is None
            &&& b.progress_total == if a.progress_total >= 1 {
                a.progress_total
            } else {
                1
            }
            &&& b.progress_done == if a.progress_done < b.progress_total {
                (a.progress_done + 1) as u64
            } else {
                b.progress_total
            }
            &&& b.children@.len() == a.children@.len() + 1
            &&& b.children@.drop_last() == a.children@
            &&& b.children@.last().id == id
            &&& b.children@.last().url@ == url@
            &&& b.children@.last().title@ == title@
            &&& b.children@.last().status == NodeStatus::Done
            &&& b.children@.last().file == file
            &&& b.children@.last().error is None
            &&& b.url == a.url
            &&& b.title == a.title
        },
        JournalOp::Settle => {
            &&& b.status == NodeStatus::Done
            &&& b.error is None
            &&& b.url == a.url
            &&& b.title == a.title
            &&& b.progress_done == a.progress_done
            &&& b.progress_total == a.progress_total
            &&& b.children == a.children
        },
        JournalOp::Fail { message } => {
            &&& b.status == NodeStatus::Failed
            &&& opt_text(b.error) == Some(message@)
            &&& b.url == a.url
            &&& b.title == a.title
            &&& b.progress_done == a.progress_done
            &&& b.progress_total == a.progress_total
            &&& b.children == a.children
        },
    }
}

impl WorkState {
    /// Applies one mutation and stamps the snapshot with the time of the
    /// write.
    pub fn apply(&mut self, op: JournalOp, now: u64)
        ensures
            effect(*old(self), op, *final(self)),
            final(self).updated_ms == now,
    {
        match op {
            JournalOp::Begin { url, title } => {
                self.begin(url.as_str(), title.as_str());
            },
            JournalOp::Rename { title } => {
                self.rename(title.as_str());
            },
            JournalOp::SetTotal { total } => {
                self.set_total(total);
            },
            JournalOp::ChildDone => {
                self.child_done();
            },
            JournalOp::ChildFailed { message } => {
                self.child_failed(message.as_str());
            },
            JournalOp::ClosePlaylist => {
                self.close_playlist();
            },
            JournalOp::CompleteLeaf { id, url, title, file } => {
                self.complete_leaf(id, url.as_str(), title.as_str(), file);
            },
            JournalOp::Settle => {
                self.settle();
            },
            JournalOp::Fail { message } => {
                self.fail(message.as_str());
            },
        }
        self.stamp(now);
    }
}

/// A playlist without elements is finished as soon as it is closed: on a
/// snapshot that counts no child of none, closing gives `Done`.
pub proof fn lemma_empty_playlist_closes(a: WorkState, b: WorkState)
    requires
        a.progress_total == 0,
        effect(a, JournalOp::ClosePlaylist, b),
    ensures
        b.status == NodeStatus::Done,
        b.error is None,
{
}

/// A point in time of the system clock, as std holds it.
#[verifier::external_type_specification]
#[verifier::external_body]
pub struct ExSystemTime(std::time::SystemTime);

/// Calls `std::time::SystemTime::now`. Nothing is claimed of the value.
#[verifier::external_body]
pub(crate) fn system_time() -> (t: std::time::SystemTime) {
    std::time::SystemTime::now()
}

/// Calls `std::time::SystemTime::duration_since` with the Unix epoch:
/// the time that has passed since, or nothing where the clock stands before
/// the epoch. Nothing is claimed of the value.
#[verifier::external_body]
pub(crate) fn since_epoch(t: &std::time::SystemTime) -> (d: Option<std::time::Duration>) {
    match t.duration_since(std::time::UNIX_EPOCH) {
        Ok(d) => Some(d),
        Err(_) => None,
    }
}

/// `Duration::as_millis` gives the whole milliseconds of a duration.
/// Nothing is claimed of the value.
pub assume_specification[ std::time::Duration::as_millis ](d: &std::time::Duration) -> (ms: u128);

/// The time of the system clock in milliseconds since the Unix epoch, cut
/// to 64 bits; 0 where the clock stands before the epoch.
pub(crate) fn now_ms() -> (ms: u64) {
    let t = system_time();
    match since_epoch(&t) {
        Some(d) => {
            let ms: u128 = d.as_millis();
            (ms & 0xffff_ffff_ffff_ffffu128) as u64
        },
        None => 0,
    }
}

/// Makes a snapshot ready to be written: it carries the time of the
/// write, and is otherwise as it was.
pub fn save_state(st: &mut WorkState)
    ensures
        final(st).root_id == old(st).root_id,
        final(st).url == old(st).url,
        final(st).title == old(st).title,
        final(st).status == old(st).status,
        final(st).progress_done == old(st).progress_done,
        final(st).progress_total == old(st).progress_total,
        final(st).error == old(st).error,
        final(st).children == old(st).children,
{
    st.stamp(now_ms());
}

/// Applies one mutation to a snapshot, or to the initial snapshot of the
/// node where the journal holds none, and stamps it with the time of the
/// write.
pub fn mutate(
    loaded: Option<WorkState>,
    id: u128,
    url: &str,
    title: &str,
    op: JournalOp,
) -> (st: WorkState)
    ensures
        match loaded {
            Some(a) => effect(a, op, st),
            None => exists|a: WorkState|
                {
                    &&& a.root_id == id
                    &&& a.url@ == url@
                    &&& a.title@ == title@
                    &&& a.status == NodeStatus::Pending
                    &&& a.progress_done == 0
                    &&& a.progress_total == 0
                    &&& a.error is None
                    &&& a.children@.len() == 0
                    &&& #[trigger] effect(a, op, st)
                },
        },
{
    let now = now_ms();
    let mut st = match loaded {
        Some(a) => a,
        None => WorkState::initial(id, url, title, now),
    };
    st.apply(op, now);
    st
}

/// How many snapshots of a scan stand in each status.
#[derive(Debug, Clone, Copy, PartialEq, Eq, Structural)]
pub struct StatusTally {
    pub pending: usize,
    pub downloading: usize,
    pub err: usize,
    pub ok: usize,
}

/// The number of snapshots among the first `n` of `s` with status `status`.
pub open spec fn count_status(s: Seq<WorkState>, status: NodeStatus, n: int) -> int
    decreases n,
{
    if n <= 0 {
        0
    } else {
        count_status(s, status, n - 1) + if s[n - 1].status == status {
            1int
        } else {
            0int
        }
    }
}

/// Among `n` snapshots at most `n` stand in a status.
pub proof fn lemma_count_status_bound(s: Seq<WorkState>, status: NodeStatus, n: int)
    requires
        0 <= n,
    ensures
        0 <= count_status(s, status, n) <= n,
    decreases n,
{
    if n > 0 {
        lemma_count_status_bound(s, status, n - 1);
    }
}

/// The status distribution of a scan.
pub fn tally(states: &Vec<WorkState>) -> (t: StatusTally)
    ensures
        t.pending == count_status(states@, NodeStatus::Pending, states@.len() as int),
        t.downloading == count_status(states@, NodeStatus::Downloading, states@.len() as int),
        t.err == count_status(states@, NodeStatus::Failed, states@.len() as int),
        t.ok == count_status(states@, NodeStatus::Done, states@.len() as int),
{
    let mut t = StatusTally { pending: 0, downloading: 0, err: 0, ok: 0 };
    let mut i: usize = 0;
    while i < states.len()
        invariant
            i <= states.len(),
            t.pending == count_status(states@, NodeStatus::Pending, i as int),
            t.downloading == count_status(states@, NodeStatus::Downloading, i as int),
            t.err == count_status(states@, NodeStatus::Failed, i as int),
            t.ok == count_status(states@, NodeStatus::Done, i as int),
        decreases states.len() - i,
    {
        proof {
            lemma_count_status_bound(states@, NodeStatus::Pending, i as int);
            lemma_count_status_bound(states@, NodeStatus::Downloading, i as int);
            lemma_count_status_bound(states@, NodeStatus::Failed, i as int);
            lemma_count_status_bound(states@, NodeStatus::Done, i as int);
        }
        match states[i].status {
            NodeStatus::Pending => {
                t.pending = t.pending + 1;
            },
            NodeStatus::Downloading => {
                t.downloading = t.downloading + 1;
            },
            NodeStatus::Failed => {
                t.err = t.err + 1;
            },
            NodeStatus::Done => {
                t.ok = t.ok + 1;
            },
        }
        i += 1;
    }
    t
}

/// The positions, in scan order, of the snapshots that are taken up again.
/// `present[i]` says whether the file that `states[i]` records is on disk.
pub fn select_resumable(states: &Vec<WorkState>, present: &Vec<bool>) -> (picked: Vec<usize>)
    requires
        present@.len() == states@.len(),
    ensures
        forall|k: int| 0 <= k < picked@.len() ==> picked@[k] < states@.len() && resumable(
            states@[#[trigger] picked@[k] as int],
            present@[picked@[k] as int],
        ),
        forall|k: int, l: int| 0 <= k < l < picked@.len() ==> picked@[k] < picked@[l],
        forall|i: int|
            0 <= i < states@.len() && resumable(#[trigger] states@[i], present@[i])
                ==> picked@.contains(i as usize),
{
    let mut picked: Vec<usize> = Vec::new();
    let mut i: usize = 0;
    while i < states.len()
        invariant
            i <= states.len(),
            present@.len() == states@.len(),
            forall|k: int| 0 <= k < picked@.len() ==> picked@[k] < i && resumable(
                states@[#[trigger] picked@[k] as int],
                present@[picked@[k] as int],
            ),
            forall|k: int, l: int| 0 <= k < l < picked@.len() ==> picked@[k] < picked@[l],
            forall|j: int|
                0 <= j < i && resumable(#[trigger] states@[j], present@[j]) ==> picked@.contains(
                    j as usize,
                ),
        decreases states.len() - i,
    {
        if states[i].should_resume(present[i]) {
            let ghost before = picked@;
            picked.push(i);
            proof {
                assert forall|j: int|
                    0 <= j < i + 1 && resumable(
                        #[trigger] states@[j],
                        present@[j],
                    ) implies picked@.contains(j as usize) by {
                    if j < i {
                        let k = choose|k: int| 0 <= k < before.len() && before[k] == j as usize;
                        assert(picked@[k] == j as usize);
                    } else {
                        assert(picked@[picked@.len() - 1] == i);
                    }
                }
            }
        }
        i += 1;
    }
    picked
}

/// A `Done` node whose recorded file is gone does not stay `Done` in silence:
/// for every snapshot with status `Done` that records a file, either the file
/// is on disk or the next scan takes the node up again.
pub proof fn lemma_ok_leaf_present_or_resumed(st: WorkState, file_present: bool)
    requires
        st.status == NodeStatus::Done,
        recorded_file(st) is Some,
    ensures
        file_present || resumable(st, file_present),
{
}

/// A run that is cut short leaves a node that is taken up again. Of the
/// mutations of the journal only three finish a node: closing a playlist,
/// completing a leaf, and settling a leaf on its earlier result. Whatever
/// other mutation was the last one written
/// for an unfinished node, the snapshot it left is not finished either, and
/// the next scan resumes it; and a node that was just begun is resumed
/// whatever it was before.
pub proof fn lemma_interrupted_is_resumed(
    a: WorkState,
    op: JournalOp,
    b: WorkState,
    file_present: bool,
)
    requires
        effect(a, op, b),
        !(op is ClosePlaylist),
        !(op is CompleteLeaf),
        !(op is Settle),
        a.status != NodeStatus::Done || op is Begin || op is Fail,
    ensures
        b.status != NodeStatus::Done,
        resumable(b, file_present),
{
}

/// A finished leaf is not fetched again: once a leaf is recorded, the
/// node is `Done` and names the leaf's file as the one to look for, and
/// while that file is on disk the next scan leaves the node alone.
pub proof fn lemma_completed_leaf_is_settled(a: WorkState, op: JournalOp, b: WorkState)
    requires
        effect(a, op, b),
        op is CompleteLeaf,
    ensures
        b.status == NodeStatus::Done,
        recorded_file(b) == op->file,
        !resumable(b, true),
{
}

/// A leaf that is settled on its earlier result is what it was before
/// the pipeline took it up: after `Begin`, any renaming and `Settle`, a node
/// that was `Done` is `Done` again and records the same file, and while that
/// file is on disk the next scan leaves the node alone.
pub proof fn lemma_settled_leaf_is_as_before(
    a: WorkState,
    begin: JournalOp,
    b: WorkState,
    rename: JournalOp,
    c: WorkState,
    d: WorkState,
    e: WorkState,
)
    requires
        a.status == NodeStatus::Done,
        begin is Begin,
        rename is Rename,
        effect(a, begin, b),
        effect(b, rename, c),
        effect(b, JournalOp::Settle, d),
        effect(c, JournalOp::Settle, e),
    ensures
        d.status == NodeStatus::Done && e.status == NodeStatus::Done,
        recorded_file(d) == recorded_file(a) && recorded_file(e) == recorded_file(a),
        forall|present: bool| earlier_file(d, present) == earlier_file(a, present),
        forall|present: bool| earlier_file(e, present) == earlier_file(a, present),
        !resumable(d, true) && !resumable(e, true),
{
}

/// A node that the pipeline has taken up and not finished is taken up
/// again, whatever is on disk.
pub proof fn lemma_unfinished_is_resumed(st: WorkState, file_present: bool)
    requires
        st.status != NodeStatus::Done,
    ensures
        resumable(st, file_present),
{
}

/// The hyphenated identifiers of a node's ancestors, outermost first, then
/// the node's own.
pub open spec fn node_dir_texts(ancestors: Seq<u128>, id: u128) -> Seq<Seq<char>> {
    Seq::new(
        ancestors.len() + 1,
        |i: int|
            if i < ancestors.len() {
                uuid_text(ancestors[i])
            } else {
                uuid_text(id)
            },
    )
}

/// The journal directory of a node, as path segments below the working
/// root: one directory per ancestor, named by its identifier, then the
/// node's own.
pub fn node_dir(ancestors: &Vec<u128>, id: u128) -> (segments: Vec<String>)
    ensures
        segments@.len() == ancestors@.len() + 1,
        forall|i: int| 0 <= i < segments@.len() ==> (#[trigger] segments@[i])@ == node_dir_texts(
            ancestors@,
            id,
        )[i],
{
    let mut segments: Vec<String> = Vec::new();
    let mut i: usize = 0;
    while i < ancestors.len()
        invariant
            i <= ancestors.len(),
            segments@.len() == i,
            forall|j: int| 0 <= j < i ==> (#[trigger] segments@[j])@ == uuid_text(ancestors@[j]),
        decreases ancestors.len() - i,
    {
        segments.push(id_text(ancestors[i]));
        i += 1;
    }
    segments.push(id_text(id));
    segments
}

/// The name of the snapshot file inside a node's journal directory.
pub fn state_file_name() -> (name: &'static str)
    ensures
        name@ == "state.json"@,
{
    "state.json"
}

/// The name of the lock file inside a node's journal directory.
pub fn lock_file_name() -> (name: &'static str)
    ensures
        name@ == "lock"@,
{
    "lock"
}

} // verus!
