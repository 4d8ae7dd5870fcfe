//! The pipeline engine: what is done next for one node, given what the
//! last step brought. The engine decides; the caller probes, downloads,
//! splits, writes the journal and comes back with the outcome.

use vstd::prelude::*;
use crate::journal::{
    clone_opt_text, earlier_file, node_dir, node_dir_texts, recorded_file, JournalOp, NodeStatus,
    WorkState,
};
use crate::pipeline::{
    chapters_are_settled, chapters_settled, children_match, clone_chapters, clone_texts,
    expand_children, own_dir, sanitized_all, save_dir, texts, DownloadStatus, Entry, EntryKind,
    Location, ProcessMsg, ProcessResult,
};
use crate::probe::{chapters_match, extract_chapters, Chapter, ProbeDoc};
use crate::sanitize::{sanitize_segment, sanitized};
use crate::text::joined;

verus! {

/// How many children of a playlist are worked on at once.
pub const CHILD_LIMIT: usize = 16;

/// What the engine waits for.
#[derive(Debug, Clone, Copy, PartialEq, Eq, Structural)]
pub enum Phase {
    Created,
    LeafLookup,
    Probing,
    Children,
    ChapterCheck,
    CandidateCheck,
    Fetching,
    Measuring,
    Splitting,
    Finished,
    Failed,
}

/// What the caller is asked to do, in the order given.
#[derive(Debug)]
pub enum Action {
    /// Show a line of progress.
    Notify(ProcessMsg),
    /// Mutate the node's journal snapshot under its lock.
    Journal(JournalOp),
    /// Probe the URL and come back with `Event::Probed`.
    Probe { url: String },
    /// Run the engine on each child, at most `limit` at a time, and come
    /// back with one `Event::ChildFinished` per child: with the result that
    /// the child's engine finished with, or the message it was given up with.
    RunChildren { count: usize, limit: usize },
    /// A child is complete: hand its result on, as the completion of a
    /// download is handed on.
    Report(ProcessResult),
    /// Load the journal snapshot of the node as the last run left it, and
    /// come back with its `earlier_result` in `Event::LeafLooked`, with
    /// `None` where the journal holds no snapshot.
    LookupLeaf,
    /// Count the files in `dir` and, with `ffmpeg::chapter_hits`, how many
    /// of the chapters have their file there; come back with
    /// `Event::ChaptersInspected`.
    InspectChapters { dir: Vec<String>, expected: usize },
    /// Look for the file `name` in `dir`; come back with `Event::Looked`.
    LookFor { dir: Vec<String>, name: String },
    /// Download the audio of `url` into `dir`; come back with
    /// `Event::Downloaded`.
    Download { url: String, dir: Vec<String> },
    /// Measure the loudness of `file`; come back with `Event::Measured`.
    Measure { file: String },
    /// Split `source` by `chapters` into `out_dir`; come back with
    /// `Event::SplitDone`.
    Split { source: String, chapters: Vec<Chapter>, out_dir: Vec<String> },
    /// Delete the file.
    Remove { file: String },
    /// The node is done.
    Finish(ProcessResult),
    /// The node has failed.
    Abort { message: String },
}

/// What the caller comes back with.
#[derive(Debug)]
pub enum Event {
    Start,
    Probed(Result<ProbeDoc, String>),
    ChildFinished(Result<ProcessResult, String>),
    LeafLooked(Option<String>),
    ChaptersInspected { count: usize, hits: usize },
    Looked(Option<String>),
    Downloaded(Result<String, String>),
    /// The loudness in thousandths of a dB, where the measurement gave one.
    Measured(Option<i32>),
    SplitDone(Result<(), String>),
}

/// The state of the pipeline for one node.
#[derive(Debug)]
pub struct Engine {
    pub node: Entry,
    /// The titles of the node's ancestors, outermost first.
    pub titles: Vec<String>,
    /// The identifiers of the node's ancestors, outermost first.
    pub ids: Vec<u128>,
    pub phase: Phase,
    /// The chapters of a single, once it is probed.
    pub chapters: Option<Vec<Chapter>>,
    /// The downloaded file that is being split.
    pub whole: Option<String>,
    /// How many children have not come back yet.
    pub pending: usize,
    /// The file with which an earlier run finished the node, where the
    /// journal said so on entry and the file was still on disk.
    pub earlier: Option<String>,
}

/// A place, by its texts.
pub enum Place {
    Under(Seq<Seq<char>>),
    File(Seq<char>),
}

/// The place that a location names.
pub open spec fn place_of(l: Location) -> Place {
    match l {
        Location::Under(v) => Place::Under(texts(v@)),
        Location::File(f) => Place::File(f@),
    }
}

/// The label under which failures are shown.
pub open spec fn error_label() -> Seq<char> {
    "__error__"@
}

/// The action shows `text` under `label`.
pub open spec fn act_notify(a: Action, label: Seq<char>, text: Seq<char>) -> bool {
    a matches Action::Notify(m) && m.playlist@ == label && m.str@ == text
}

/// The action takes the node up in the journal, under its URL and title.
pub open spec fn act_begin(a: Action, n: Entry) -> bool {
    a matches Action::Journal(JournalOp::Begin { url, title }) && url@ == n.url@ && title@
        == n.title@
}

/// The action gives the journal node the title `t`.
pub open spec fn act_rename(a: Action, t: Seq<char>) -> bool {
    a matches Action::Journal(JournalOp::Rename { title }) && title@ == t
}

/// The action tells the journal of `n` children.
pub open spec fn act_total(a: Action, n: nat) -> bool {
    a matches Action::Journal(JournalOp::SetTotal { total }) && total == n
}

/// The action records the node as a finished leaf with the file `f`.
pub open spec fn act_complete(a: Action, n: Entry, f: Option<String>) -> bool {
    a matches Action::Journal(JournalOp::CompleteLeaf { id, url, title, file }) && id == n.id
        && url@ == n.url@ && title@ == n.title@ && file == f
}

/// The action marks the journal node as failed, with the message.
pub open spec fn act_fail(a: Action, msg: Seq<char>) -> bool {
    a matches Action::Journal(JournalOp::Fail { message }) && message@ == msg
}

/// The action gives the node up, with the message.
pub open spec fn act_abort(a: Action, msg: Seq<char>) -> bool {
    a matches Action::Abort { message } && message@ == msg
}

/// The action probes the node's URL.
pub open spec fn act_probe(a: Action, n: Entry) -> bool {
    a matches Action::Probe { url } && url@ == n.url@
}

/// The action downloads the node's URL into the node's save directory.
pub open spec fn act_download(a: Action, e: Engine) -> bool {
    a matches Action::Download { url, dir } && url@ == e.node.url@ && texts(dir@) == sanitized_all(
        e.titles@,
    )
}

/// The directory named after the node, below its save directory.
pub open spec fn own_dir_texts(e: Engine) -> Seq<Seq<char>> {
    sanitized_all(e.titles@).push(sanitized(e.node.title@))
}

/// The action finishes the node: under its journal directory, saved at
/// `place`, with the node's label and title.
pub open spec fn act_finish(a: Action, e: Engine, place: Place) -> bool {
    &&& a matches Action::Finish(r)
    &&& texts(r.working_path@) == node_dir_texts(e.ids@, e.node.id)
    &&& place_of(r.saved_path) == place
    &&& r.playlist@ == e.node.playlist@
    &&& r.name@ == e.node.title@
}

/// The three steps of every failure: the journal node becomes `Failed`
/// with the message, the message is shown under the error label, and the
/// node is given up.
pub open spec fn failure(actions: Seq<Action>, msg: Seq<char>) -> bool {
    &&& actions.len() == 3
    &&& act_fail(actions[0], msg)
    &&& act_notify(actions[1], error_label(), msg)
    &&& act_abort(actions[2], msg)
}

/// The chapters held by an optional list.
pub open spec fn chapter_seq(o: Option<Vec<Chapter>>) -> Option<Seq<Chapter>> {
    match o {
        Some(v) => Some(v@),
        None => None,
    }
}

/// A single's kind once it is fetched.
pub open spec fn fetched_kind(k: Option<EntryKind>, f: Option<String>, chs: Option<Vec<Chapter>>)
    -> bool {
    &&& k matches Some(EntryKind::Single { file, chapters, status })
    &&& file == f
    &&& chapter_seq(chapters) == chapter_seq(chs)
    &&& status == DownloadStatus::Done
}

/// What no step changes: who the node is and where it hangs.
pub open spec fn same_frame(a: Engine, b: Engine) -> bool {
    &&& b.node.id == a.node.id
    &&& b.node.url == a.node.url
    &&& b.node.playlist == a.node.playlist
    &&& b.node.retries == a.node.retries
    &&& b.node.error == a.node.error
    &&& b.titles == a.titles
    &&& b.ids == a.ids
}

/// What a step changes only where its contract says so.
pub open spec fn same_rest(a: Engine, b: Engine) -> bool {
    &&& b.node.title == a.node.title
    &&& b.node.kind == a.node.kind
    &&& b.chapters == a.chapters
    &&& b.whole == a.whole
    &&& b.pending == a.pending
    &&& b.earlier == a.earlier
}

/// After the first step the node is announced, and the engine waits for
/// what the journal holds of an earlier run.
pub open spec fn after_start(a: Engine, b: Engine, acts: Seq<Action>) -> bool {
    &&& b.phase == Phase::LeafLookup
    &&& same_frame(a, b)
    &&& same_rest(a, b)
    &&& acts.len() == 2
    &&& act_notify(acts[0], a.node.playlist@, "Processing "@ + a.node.title@)
    &&& acts[1] matches Action::LookupLeaf
}

/// After the journal was asked. The engine keeps the earlier result, the
/// journal node is taken up, and the URL is probed.
pub open spec fn after_leaf_lookup(a: Engine, found: Option<String>, b: Engine, acts: Seq<Action>)
    -> bool {
    &&& b.phase == Phase::Probing
    &&& same_frame(a, b)
    &&& b.node.title == a.node.title
    &&& b.node.kind == a.node.kind
    &&& b.chapters == a.chapters
    &&& b.whole == a.whole
    &&& b.pending == a.pending
    &&& b.earlier == found
    &&& acts.len() == 2
    &&& act_begin(acts[0], a.node)
    &&& act_probe(acts[1], a.node)
}

/// The name under which a single without chapters is saved: its
/// sanitised title with `.m4a`.
pub open spec fn usual_name(title: Seq<char>) -> Seq<char> {
    sanitized(title) + ".m4a"@
}

/// What is asked where a single has to be made: with chapters its chapter
/// directory is inspected, without them its usual file is looked for in the
/// save directory.
pub open spec fn asks_for_single(b: Engine, a: Action) -> bool {
    match b.chapters {
        Some(chs) => {
            &&& b.phase == Phase::ChapterCheck
            &&& a matches Action::InspectChapters { dir, expected }
            &&& texts(dir@) == own_dir_texts(b)
            &&& expected == chs@.len()
        },
        None => {
            &&& b.phase == Phase::CandidateCheck
            &&& a matches Action::LookFor { dir, name }
            &&& texts(dir@) == sanitized_all(b.titles@)
            &&& name@ == usual_name(b.node.title@)
        },
    }
}

/// Whether the probe gives the node a title: it has one, and not the
/// empty one.
pub open spec fn renames(doc: ProbeDoc) -> bool {
    doc.title matches Some(t) && t@.len() > 0
}

/// After a failed step the node is given up, and nothing else changes.
pub open spec fn after_failure(a: Engine, msg: Seq<char>, b: Engine, acts: Seq<Action>) -> bool {
    &&& b.phase == Phase::Failed
    &&& same_frame(a, b)
    &&& same_rest(a, b)
    &&& failure(acts, msg)
}

/// After the probe. A failed probe fails the node. Else the node takes
/// the probed title and the journal is told of it. A playlist is expanded:
/// the journal gets the number of children, and the children are run, or,
/// where there is none, the playlist is closed and finished at once. A
/// single with an earlier result is finished at once with that file: the
/// journal node is settled, and nothing is fetched. Any other single
/// notes its chapters and has its chapter directory inspected or its usual
/// file looked for.
pub open spec fn after_probed(
    a: Engine,
    result: Result<ProbeDoc, String>,
    b: Engine,
    acts: Seq<Action>,
) -> bool {
    match result {
        Err(e) => after_failure(a, e@, b, acts),
        Ok(doc) => {
            let k: int = if renames(doc) {
                1
            } else {
                0
            };
            let n = doc.items().len();
            &&& same_frame(a, b)
            &&& b.whole == a.whole
            &&& b.earlier == a.earlier
            &&& b.node.title@ == if renames(doc) {
                doc.title->0@
            } else {
                a.node.title@
            }
            &&& renames(doc) ==> acts.len() > 0 && act_rename(acts[0], doc.title->0@)
            &&& if doc.playlist() {
                &&& b.node.kind matches Some(EntryKind::Playlist { children, expanded })
                &&& expanded
                &&& children_match(doc, children@, a.node.playlist@)
                &&& b.pending == n
                &&& b.chapters == a.chapters
                &&& acts.len() >= k + 2
                &&& act_total(acts[k], n)
                &&& if n == 0 {
                    &&& b.phase == Phase::Finished
                    &&& acts.len() == k + 3
                    &&& acts[k + 1] matches Action::Journal(JournalOp::ClosePlaylist)
                    &&& act_finish(acts[k + 2], b, Place::Under(own_dir_texts(b)))
                } else {
                    &&& b.phase == Phase::Children
                    &&& acts.len() == k + 2
                    &&& acts[k + 1] matches Action::RunChildren { count, limit }
                    &&& count == n
                    &&& limit == CHILD_LIMIT
                }
            } else {
                &&& b.node.kind == a.node.kind
                &&& b.pending == a.pending
                &&& match a.earlier {
                    Some(f) => {
                        &&& b.phase == Phase::Finished
                        &&& b.chapters == a.chapters
                        &&& acts.len() == k + 2
                        &&& acts[k] matches Action::Journal(JournalOp::Settle)
                        &&& act_finish(acts[k + 1], b, Place::File(f@))
                    },
                    None => {
                        &&& chapters_match(doc, b.chapters)
                        &&& acts.len() == k + 1
                        &&& asks_for_single(b, acts[k])
                    },
                }
            }
        },
    }
}

/// After a child has come back. The result of a child that succeeded is
/// handed on, and its success is counted in the journal; the failure of one
/// that failed is noted there. With the last child the playlist is closed and
/// finished, whatever became of the children.
pub open spec fn after_child(
    a: Engine,
    result: Result<ProcessResult, String>,
    b: Engine,
    acts: Seq<Action>,
) -> bool {
    let k: int = if result is Ok {
        2
    } else {
        1
    };
    &&& same_frame(a, b)
    &&& b.node.title == a.node.title
    &&& b.node.kind == a.node.kind
    &&& b.chapters == a.chapters
    &&& b.whole == a.whole
    &&& b.earlier == a.earlier
    &&& b.pending == a.pending - 1
    &&& acts.len() >= k
    &&& match result {
        Ok(r) => {
            &&& acts[0] matches Action::Report(handed)
            &&& handed == r
            &&& acts[1] matches Action::Journal(JournalOp::ChildDone)
        },
        Err(e) => acts[0] matches Action::Journal(JournalOp::ChildFailed { message }) && message@
            == e@,
    }
    &&& if a.pending == 1 {
        &&& b.phase == Phase::Finished
        &&& acts.len() == k + 2
        &&& acts[k] matches Action::Journal(JournalOp::ClosePlaylist)
        &&& act_finish(acts[k + 1], b, Place::Under(own_dir_texts(b)))
    } else {
        &&& b.phase == Phase::Children
        &&& acts.len() == k
    }
}

/// After the chapter directory was inspected. Where it can stand as it
/// is, the single is complete without a file of its own; else the whole
/// audio is downloaded.
pub open spec fn after_chapters(a: Engine, count: usize, hits: usize, b: Engine, acts: Seq<Action>)
    -> bool {
    &&& same_frame(a, b)
    &&& b.node.title == a.node.title
    &&& b.chapters == a.chapters
    &&& b.whole == a.whole
    &&& b.pending == a.pending
    &&& b.earlier == a.earlier
    &&& if chapters_settled(count as nat, hits as nat, a.chapters->0@.len()) {
        &&& b.phase == Phase::Finished
        &&& fetched_kind(b.node.kind, None, a.chapters)
        &&& acts.len() == 2
        &&& act_complete(acts[0], a.node, None)
        &&& act_finish(acts[1], b, Place::Under(own_dir_texts(b)))
    } else {
        &&& b.phase == Phase::Fetching
        &&& b.node.kind == a.node.kind
        &&& acts.len() == 1
        &&& act_download(acts[0], a)
    }
}

/// After the usual file was looked for. Where it is there it is taken as
/// the single's file; else the audio is downloaded.
pub open spec fn after_candidate(a: Engine, found: Option<String>, b: Engine, acts: Seq<Action>)
    -> bool {
    &&& same_frame(a, b)
    &&& b.node.title == a.node.title
    &&& b.chapters == a.chapters
    &&& b.whole == a.whole
    &&& b.pending == a.pending
    &&& b.earlier == a.earlier
    &&& match found {
        Some(f) => {
            &&& b.phase == Phase::Finished
            &&& fetched_kind(b.node.kind, Some(f), None)
            &&& acts.len() == 2
            &&& act_complete(acts[0], a.node, Some(f))
            &&& act_finish(acts[1], b, Place::File(f@))
        },
        None => {
            &&& b.phase == Phase::Fetching
            &&& b.node.kind == a.node.kind
            &&& acts.len() == 1
            &&& act_download(acts[0], a)
        },
    }
}

/// After the download. A failed download fails the single. A single
/// with chapters has the downloaded file measured; one without is complete
/// with the downloaded file.
pub open spec fn after_downloaded(
    a: Engine,
    result: Result<String, String>,
    b: Engine,
    acts: Seq<Action>,
) -> bool {
    match result {
        Err(e) => after_failure(a, e@, b, acts),
        Ok(f) => {
            &&& same_frame(a, b)
            &&& b.node.title == a.node.title
            &&& b.chapters == a.chapters
            &&& b.pending == a.pending
            &&& b.earlier == a.earlier
            &&& match a.chapters {
                Some(chs) => {
                    &&& b.phase == Phase::Measuring
                    &&& b.node.kind == a.node.kind
                    &&& b.whole == Some(f)
                    &&& acts.len() == 1
                    &&& acts[0] matches Action::Measure { file }
                    &&& file == f
                },
                None => {
                    &&& b.phase == Phase::Finished
                    &&& b.whole == a.whole
                    &&& fetched_kind(b.node.kind, Some(f), None)
                    &&& acts.len() == 2
                    &&& act_complete(acts[0], a.node, Some(f))
                    &&& act_finish(acts[1], b, Place::File(f@))
                },
            }
        },
    }
}

/// What is shown before a file is split: the node's title and, where it
/// was measured, its loudness in dB.
pub open spec fn split_text(title: Seq<char>, loudness: Option<i32>) -> Seq<char> {
    "split audio "@ + crate::ingest::track_text(title, loudness)
}

/// After the measurement. The loudness of the whole file is shown with
/// the node's title, and the file is split by the chapters into the node's
/// own directory.
pub open spec fn after_measured(a: Engine, loudness: Option<i32>, b: Engine, acts: Seq<Action>)
    -> bool {
    &&& same_frame(a, b)
    &&& same_rest(a, b)
    &&& b.phase == Phase::Splitting
    &&& acts.len() == 2
    &&& act_notify(acts[0], a.node.playlist@, split_text(a.node.title@, loudness))
    &&& acts[1] matches Action::Split { source, chapters, out_dir }
    &&& Some(source) == a.whole
    &&& Some(chapters@) == chapter_seq(a.chapters)
    &&& texts(out_dir@) == own_dir_texts(a)
}

/// After the split. A failed split fails the single. Else the whole
/// file is deleted, and the single is complete: it records the whole file
/// and is saved as its chapter directory.
pub open spec fn after_split(a: Engine, result: Result<(), String>, b: Engine, acts: Seq<Action>)
    -> bool {
    match result {
        Err(e) => after_failure(a, e@, b, acts),
        Ok(_) => {
            &&& same_frame(a, b)
            &&& b.node.title == a.node.title
            &&& b.chapters == a.chapters
            &&& b.whole == a.whole
            &&& b.pending == a.pending
            &&& b.earlier == a.earlier
            &&& b.phase == Phase::Finished
            &&& fetched_kind(b.node.kind, a.whole, a.chapters)
            &&& acts.len() == 3
            &&& acts[0] matches Action::Remove { file }
            &&& Some(file) == a.whole
            &&& act_complete(acts[1], a.node, a.whole)
            &&& act_finish(acts[2], b, Place::Under(own_dir_texts(b)))
        },
    }
}

/// Whether the engine, as it stands, waits for this event.
pub open spec fn awaited(a: Engine, ev: Event) -> bool {
    match (a.phase, ev) {
        (Phase::Created, Event::Start) => true,
        (Phase::LeafLookup, Event::LeafLooked(_)) => true,
        (Phase::Probing, Event::Probed(_)) => true,
        (Phase::Children, Event::ChildFinished(_)) => a.pending > 0,
        (Phase::ChapterCheck, Event::ChaptersInspected { count, hits }) => a.chapters is Some,
        (Phase::CandidateCheck, Event::Looked(_)) => true,
        (Phase::Fetching, Event::Downloaded(_)) => true,
        (Phase::Measuring, Event::Measured(_)) => a.chapters is Some && a.whole is Some,
        (Phase::Splitting, Event::SplitDone(_)) => a.chapters is Some && a.whole is Some,
        _ => false,
    }
}

/// What one step makes of the engine and asks of the caller. An event
/// that the engine does not wait for changes nothing and asks nothing.
pub open spec fn after_step(a: Engine, ev: Event, b: Engine, acts: Seq<Action>) -> bool {
    if awaited(a, ev) {
        match ev {
            Event::Start => after_start(a, b, acts),
            Event::LeafLooked(f) => after_leaf_lookup(a, f, b, acts),
            Event::Probed(r) => after_probed(a, r, b, acts),
            Event::ChildFinished(r) => after_child(a, r, b, acts),
            Event::ChaptersInspected { count, hits } => after_chapters(a, count, hits, b, acts),
            Event::Looked(f) => after_candidate(a, f, b, acts),
            Event::Downloaded(r) => after_downloaded(a, r, b, acts),
            Event::Measured(l) => after_measured(a, l, b, acts),
            Event::SplitDone(r) => after_split(a, r, b, acts),
        }
    } else {
        b == a && acts.len() == 0
    }
}

/// The engine that runs one child of an expanded playlist: the child
/// hangs below the playlist's title and identifier.
pub open spec fn child_of(a: Engine, index: int, c: Engine) -> bool {
    &&& a.node.kind matches Some(EntryKind::Playlist { children, expanded })
    &&& 0 <= index < children@.len()
    &&& c.node.id == children@[index].id
    &&& c.node.url == children@[index].url
    &&& c.node.title == children@[index].title
    &&& c.node.playlist == children@[index].playlist
    &&& c.node.retries == 0
    &&& c.node.error is None
    &&& pending_single(c.node.kind)
    &&& c.titles@ == a.titles@.push(a.node.title)
    &&& c.ids@ == a.ids@.push(a.node.id)
    &&& c.phase == Phase::Created
    &&& c.chapters is None
    &&& c.whole is None
    &&& c.pending == 0
    &&& c.earlier is None
}

/// A pending single.
pub open spec fn pending_single(k: Option<EntryKind>) -> bool {
    &&& k matches Some(EntryKind::Single { file, chapters, status })
    &&& file is None
    &&& chapters is None
    &&& status == DownloadStatus::Pending
}

impl Engine {
    /// The phases that need a value hold it.
    pub open spec fn wf(self) -> bool {
        &&& self.phase == Phase::Children ==> self.pending > 0
        &&& self.phase == Phase::ChapterCheck ==> self.chapters is Some
        &&& self.phase == Phase::Measuring ==> self.chapters is Some && self.whole is Some
        &&& self.phase == Phase::Splitting ==> self.chapters is Some && self.whole is Some
    }

    /// An engine for a node below the given ancestors.
    pub fn new(node: Entry, titles: Vec<String>, ids: Vec<u128>) -> (e: Engine)
        ensures
            e.node == node,
            e.titles == titles,
            e.ids == ids,
            e.phase == Phase::Created,
            e.chapters is None,
            e.whole is None,
            e.pending == 0,
            e.earlier is None,
            e.wf(),
    {
        Engine {
            node,
            titles,
            ids,
            phase: Phase::Created,
            chapters: None,
            whole: None,
            pending: 0,
            earlier: None,
        }
    }

    fn finish(&self, saved: Location) -> (a: Action)
        ensures
            act_finish(a, *self, place_of(saved)),
    {
        let working = node_dir(&self.ids, self.node.id);
        assert(texts(working@) =~= node_dir_texts(self.ids@, self.node.id));
        Action::Finish(
            ProcessResult {
                working_path: working,
                saved_path: saved,
                playlist: self.node.playlist.clone(),
                name: self.node.title.clone(),
            },
        )
    }

    fn complete(&self, file: Option<String>) -> (a: Action)
        ensures
            act_complete(a, self.node, file),
    {
        Action::Journal(
            JournalOp::CompleteLeaf {
                id: self.node.id,
                url: self.node.url.clone(),
                title: self.node.title.clone(),
                file,
            },
        )
    }

    fn download(&self) -> (a: Action)
        ensures
            act_download(a, *self),
    {
        Action::Download { url: self.node.url.clone(), dir: save_dir(&self.titles) }
    }

    fn give_up(&mut self, message: String) -> (actions: Vec<Action>)
        ensures
            failure(actions@, message@),
            final(self).phase == Phase::Failed,
            same_frame(*old(self), *final(self)),
            same_rest(*old(self), *final(self)),
    {
        self.phase = Phase::Failed;
        let mut actions: Vec<Action> = Vec::new();
        actions.push(Action::Journal(JournalOp::Fail { message: message.clone() }));
        actions.push(
            Action::Notify(ProcessMsg { playlist: "__error__".to_owned(), str: message.clone() }),
        );
        actions.push(Action::Abort { message });
        actions
    }

    /// The first step: the node is announced, and the journal is asked
    /// for what an earlier run left of it.
    pub fn start(&mut self) -> (actions: Vec<Action>)
        requires
            old(self).phase == Phase::Created,
        ensures
            after_start(*old(self), *final(self), actions@),
            final(self).wf(),
    {
        self.phase = Phase::LeafLookup;
        let mut actions: Vec<Action> = Vec::new();
        actions.push(
            Action::Notify(
                ProcessMsg {
                    playlist: self.node.playlist.clone(),
                    str: joined("Processing ", self.node.title.as_str()),
                },
            ),
        );
        actions.push(Action::LookupLeaf);
        actions
    }

    /// The step after the journal was asked for an earlier result.
    pub fn on_leaf_lookup(&mut self, found: Option<String>) -> (actions: Vec<Action>)
        requires
            old(self).phase == Phase::LeafLookup,
        ensures
            after_leaf_lookup(*old(self), found, *final(self), actions@),
            final(self).wf(),
    {
        self.earlier = found;
        self.phase = Phase::Probing;
        let mut actions: Vec<Action> = Vec::new();
        actions.push(
            Action::Journal(
                JournalOp::Begin { url: self.node.url.clone(), title: self.node.title.clone() },
            ),
        );
        actions.push(Action::Probe { url: self.node.url.clone() });
        actions
    }

    fn ask_for_single(&mut self) -> (a: Action)
        requires
            old(self).phase == Phase::Probing,
        ensures
            asks_for_single(*final(self), a),
            same_frame(*old(self), *final(self)),
            same_rest(*old(self), *final(self)),
            final(self).wf(),
    {
        match &self.chapters {
            Some(chs) => {
                let expected = chs.len();
                let dir = own_dir(&self.titles, self.node.title.as_str());
                self.phase = Phase::ChapterCheck;
                Action::InspectChapters { dir, expected }
            },
            None => {
                let dir = save_dir(&self.titles);
                let mut name = sanitize_segment(self.node.title.as_str());
                name.append(".m4a");
                self.phase = Phase::CandidateCheck;
                Action::LookFor { dir, name }
            },
        }
    }

    /// The step after the probe.
    pub fn on_probed(&mut self, result: Result<ProbeDoc, String>) -> (actions: Vec<Action>)
        requires
            old(self).phase == Phase::Probing,
        ensures
            after_probed(*old(self), result, *final(self), actions@),
            final(self).wf(),
    {
        match result {
            Err(e) => self.give_up(e),
            Ok(doc) => {
                let mut actions: Vec<Action> = Vec::new();
                match &doc.title {
                    Some(t) => {
                        if t.as_str().unicode_len() > 0 {
                            self.node.title = t.clone();
                            actions.push(Action::Journal(JournalOp::Rename { title: t.clone() }));
                        }
                    },
                    None => {},
                }
                if doc.is_playlist() {
                    let children = expand_children(&doc, self.node.playlist.as_str());
                    let n = children.len();
                    self.node.kind = Some(EntryKind::Playlist { children, expanded: true });
                    self.pending = n;
                    actions.push(Action::Journal(JournalOp::SetTotal { total: n }));
                    if n == 0 {
                        self.phase = Phase::Finished;
                        actions.push(Action::Journal(JournalOp::ClosePlaylist));
                        let dir = own_dir(&self.titles, self.node.title.as_str());
                        let fin = self.finish(Location::Under(dir));
                        actions.push(fin);
                    } else {
                        self.phase = Phase::Children;
                        actions.push(Action::RunChildren { count: n, limit: CHILD_LIMIT });
                    }
                } else {
                    match clone_opt_text(&self.earlier) {
                        Some(f) => {
                            self.phase = Phase::Finished;
                            actions.push(Action::Journal(JournalOp::Settle));
                            let fin = self.finish(Location::File(f));
                            actions.push(fin);
                        },
                        None => {
                            self.chapters = extract_chapters(&doc);
                            let ask = self.ask_for_single();
                            actions.push(ask);
                        },
                    }
                }
                actions
            },
        }
    }

    /// The step after one child has come back.
    pub fn on_child(&mut self, result: Result<ProcessResult, String>) -> (actions: Vec<Action>)
        requires
            old(self).phase == Phase::Children,
            old(self).pending > 0,
        ensures
            after_child(*old(self), result, *final(self), actions@),
            final(self).wf(),
    {
        let mut actions: Vec<Action> = Vec::new();
        match result {
            Ok(r) => {
                actions.push(Action::Report(r));
                actions.push(Action::Journal(JournalOp::ChildDone));
            },
            Err(e) => {
                actions.push(Action::Journal(JournalOp::ChildFailed { message: e }));
            },
        }
        self.pending = self.pending - 1;
        if self.pending == 0 {
            self.phase = Phase::Finished;
            actions.push(Action::Journal(JournalOp::ClosePlaylist));
            let dir = own_dir(&self.titles, self.node.title.as_str());
            let fin = self.finish(Location::Under(dir));
            actions.push(fin);
        }
        actions
    }

    /// The step after the chapter directory was inspected.
    pub fn on_chapters(&mut self, count: usize, hits: usize) -> (actions: Vec<Action>)
        requires
            old(self).phase == Phase::ChapterCheck,
            old(self).chapters is Some,
        ensures
            after_chapters(*old(self), count, hits, *final(self), actions@),
            final(self).wf(),
    {
        let mut actions: Vec<Action> = Vec::new();
        let (expected, copy) = match &self.chapters {
            Some(chs) => (chs.len(), Some(clone_chapters(chs))),
            None => (0, None),
        };
        if chapters_are_settled(count, hits, expected) {
            let done = self.complete(None);
            actions.push(done);
            self.node.kind = Some(
                EntryKind::Single { file: None, chapters: copy, status: DownloadStatus::Done },
            );
            self.phase = Phase::Finished;
            let dir = own_dir(&self.titles, self.node.title.as_str());
            let fin = self.finish(Location::Under(dir));
            actions.push(fin);
        } else {
            let get = self.download();
            actions.push(get);
            self.phase = Phase::Fetching;
        }
        actions
    }

    /// The step after the single's usual file was looked for.
    pub fn on_candidate(&mut self, found: Option<String>) -> (actions: Vec<Action>)
        requires
            old(self).phase == Phase::CandidateCheck,
        ensures
            after_candidate(*old(self), found, *final(self), actions@),
            final(self).wf(),
    {
        let mut actions: Vec<Action> = Vec::new();
        match found {
            Some(f) => {
                let done = self.complete(Some(f.clone()));
                actions.push(done);
                self.node.kind = Some(
                    EntryKind::Single {
                        file: Some(f.clone()),
                        chapters: None,
                        status: DownloadStatus::Done,
                    },
                );
                self.phase = Phase::Finished;
                let fin = self.finish(Location::File(f));
                actions.push(fin);
            },
            None => {
                let get = self.download();
                actions.push(get);
                self.phase = Phase::Fetching;
            },
        }
        actions
    }

    /// The step after the download.
    pub fn on_downloaded(&mut self, result: Result<String, String>) -> (actions: Vec<Action>)
        requires
            old(self).phase == Phase::Fetching,
        ensures
            after_downloaded(*old(self), result, *final(self), actions@),
            final(self).wf(),
    {
        match result {
            Err(e) => self.give_up(e),
            Ok(f) => {
                let mut actions: Vec<Action> = Vec::new();
                let copy = match &self.chapters {
                    Some(chs) => Some(clone_chapters(chs)),
                    None => None,
                };
                match copy {
                    Some(_) => {
                        actions.push(Action::Measure { file: f.clone() });
                        self.whole = Some(f);
                        self.phase = Phase::Measuring;
                    },
                    None => {
                        let done = self.complete(Some(f.clone()));
                        actions.push(done);
                        self.node.kind = Some(
                            EntryKind::Single {
                                file: Some(f.clone()),
                                chapters: None,
                                status: DownloadStatus::Done,
                            },
                        );
                        self.phase = Phase::Finished;
                        let fin = self.finish(Location::File(f));
                        actions.push(fin);
                    },
                }
                actions
            },
        }
    }

    /// The step after the downloaded file was measured.
    pub fn on_measured(&mut self, loudness: Option<i32>) -> (actions: Vec<Action>)
        requires
            old(self).phase == Phase::Measuring,
            old(self).chapters is Some,
            old(self).whole is Some,
        ensures
            after_measured(*old(self), loudness, *final(self), actions@),
            final(self).wf(),
    {
        let mut actions: Vec<Action> = Vec::new();
        let mut text = joined("split audio ", self.node.title.as_str());
        match loudness {
            Some(v) => {
                text.append(" (");
                text.append(crate::ffmpeg::seconds(v as i64).as_str());
                text.append("db)");
            },
            None => {},
        }
        assert(text@ =~= split_text(self.node.title@, loudness));
        actions.push(
            Action::Notify(ProcessMsg { playlist: self.node.playlist.clone(), str: text }),
        );
        let out_dir = own_dir(&self.titles, self.node.title.as_str());
        match (clone_opt_text(&self.whole), &self.chapters) {
            (Some(source), Some(chs)) => {
                actions.push(Action::Split { source, chapters: clone_chapters(chs), out_dir });
            },
            _ => {},
        }
        self.phase = Phase::Splitting;
        actions
    }

    /// The step after the split.
    pub fn on_split(&mut self, result: Result<(), String>) -> (actions: Vec<Action>)
        requires
            old(self).phase == Phase::Splitting,
            old(self).chapters is Some,
            old(self).whole is Some,
        ensures
            after_split(*old(self), result, *final(self), actions@),
            final(self).wf(),
    {
        match result {
            Err(e) => self.give_up(e),
            Ok(_) => {
                let mut actions: Vec<Action> = Vec::new();
                let copy = match &self.chapters {
                    Some(chs) => Some(clone_chapters(chs)),
                    None => None,
                };
                let whole = clone_opt_text(&self.whole);
                match clone_opt_text(&self.whole) {
                    Some(file) => {
                        actions.push(Action::Remove { file });
                    },
                    None => {},
                }
                let done = self.complete(clone_opt_text(&self.whole));
                actions.push(done);
                self.node.kind = Some(
                    EntryKind::Single { file: whole, chapters: copy, status: DownloadStatus::Done },
                );
                self.phase = Phase::Finished;
                let dir = own_dir(&self.titles, self.node.title.as_str());
                let fin = self.finish(Location::Under(dir));
                actions.push(fin);
                actions
            },
        }
    }

    /// One step of the pipeline: takes what the caller comes back with and
    /// says what to do next.
    pub fn step(&mut self, event: Event) -> (actions: Vec<Action>)
        ensures
            after_step(*old(self), event, *final(self), actions@),
            old(self).wf() ==> final(self).wf(),
    {
        match event {
            Event::Start => {
                if self.phase == Phase::Created {
                    return self.start();
                }
            },
            Event::LeafLooked(f) => {
                if self.phase == Phase::LeafLookup {
                    return self.on_leaf_lookup(f);
                }
            },
            Event::Probed(r) => {
                if self.phase == Phase::Probing {
                    return self.on_probed(r);
                }
            },
            Event::ChildFinished(r) => {
                if self.phase == Phase::Children && self.pending > 0 {
                    return self.on_child(r);
                }
            },
            Event::ChaptersInspected { count, hits } => {
                if self.phase == Phase::ChapterCheck && self.chapters.is_some() {
                    return self.on_chapters(count, hits);
                }
            },
            Event::Looked(f) => {
                if self.phase == Phase::CandidateCheck {
                    return self.on_candidate(f);
                }
            },
            Event::Downloaded(r) => {
                if self.phase == Phase::Fetching {
                    return self.on_downloaded(r);
                }
            },
            Event::Measured(l) => {
                if self.phase == Phase::Measuring && self.chapters.is_some()
                    && self.whole.is_some() {
                    return self.on_measured(l);
                }
            },
            Event::SplitDone(r) => {
                if self.phase == Phase::Splitting && self.chapters.is_some()
                    && self.whole.is_some() {
                    return self.on_split(r);
                }
            },
        }
        Vec::new()
    }

    /// The engine for the child at `index` of an expanded playlist; `None`
    /// where the node is no expanded playlist or has no such child.
    pub fn child(&self, index: usize) -> (r: Option<Engine>)
        ensures
            match r {
                Some(c) => child_of(*self, index as int, c),
                None => !(self.node.kind matches Some(EntryKind::Playlist { children, expanded })
                    && index < children@.len()),
            },
    {
        match &self.node.kind {
            Some(EntryKind::Playlist { children, expanded }) => {
                if index < children.len() {
                    let c = &children[index];
                    let node = Entry {
                        id: c.id,
                        url: c.url.clone(),
                        playlist: c.playlist.clone(),
                        title: c.title.clone(),
                        retries: 0,
                        error: None,
                        kind: Some(
                            EntryKind::Single {
                                file: None,
                                chapters: None,
                                status: DownloadStatus::Pending,
                            },
                        ),
                    };
                    let mut titles = clone_texts(&self.titles);
                    titles.push(self.node.title.clone());
                    let mut ids: Vec<u128> = Vec::new();
                    let mut i: usize = 0;
                    while i < self.ids.len()
                        invariant
                            i <= self.ids.len(),
                            ids@ == self.ids@.take(i as int),
                        decreases self.ids.len() - i,
                    {
                        ids.push(self.ids[i]);
                        i += 1;
                        assert(ids@ =~= self.ids@.take(i as int));
                    }
                    assert(self.ids@.take(self.ids@.len() as int) =~= self.ids@);
                    ids.push(self.node.id);
                    Some(Engine::new(node, titles, ids))
                } else {
                    None
                }
            },
            _ => None,
        }
    }
}

/// How many of the first `n` actions hand a child's result on.
pub open spec fn reports(acts: Seq<Action>, n: int) -> int
    decreases n,
{
    if n <= 0 {
        0
    } else {
        reports(acts, n - 1) + if acts[n - 1] is Report {
            1int
        } else {
            0int
        }
    }
}

/// One completion per leaf: the step after a child that succeeded hands
/// on exactly one result, the child's, and the step after a child that
/// failed hands on none.
pub proof fn lemma_one_report_per_child(
    a: Engine,
    result: Result<ProcessResult, String>,
    b: Engine,
    acts: Seq<Action>,
)
    requires
        a.phase == Phase::Children,
        a.pending > 0,
        after_step(a, Event::ChildFinished(result), b, acts),
    ensures
        reports(acts, acts.len() as int) == if result is Ok {
            1int
        } else {
            0int
        },
        result matches Ok(r) ==> acts[0] == Action::Report(r),
{
    let n = acts.len() as int;
    assert(n <= 4);
    reveal_with_fuel(reports, 5);
}

/// Whether an action fetches or cuts audio.
pub open spec fn fetches(a: Action) -> bool {
    a is Download || a is Measure || a is Split || a is Remove
}

/// A finished leaf is not fetched again. Where the journal holds a `Done`
/// snapshot of the node that records a file, and the file is on disk, a run
/// whose probe finds a single ends with the probe: the journal node is
/// settled, the node is finished with the recorded file, under the node's
/// journal directory, and no step of the run fetches or cuts anything.
pub proof fn lemma_finished_leaf_is_kept(
    a: Engine,
    st: WorkState,
    b: Engine,
    first: Seq<Action>,
    c: Engine,
    second: Seq<Action>,
    doc: ProbeDoc,
    d: Engine,
    third: Seq<Action>,
)
    requires
        a.phase == Phase::Created,
        st.status == NodeStatus::Done,
        recorded_file(st) is Some,
        !doc.playlist(),
        after_step(a, Event::Start, b, first),
        after_step(b, Event::LeafLooked(earlier_file(st, true)), c, second),
        after_step(c, Event::Probed(Ok(doc)), d, third),
    ensures
        d.phase == Phase::Finished,
        third.len() >= 2,
        third[third.len() - 2] matches Action::Journal(JournalOp::Settle),
        act_finish(third.last(), d, Place::File(recorded_file(st)->0@)),
        forall|i: int| 0 <= i < first.len() ==> !fetches(#[trigger] first[i]),
        forall|i: int| 0 <= i < second.len() ==> !fetches(#[trigger] second[i]),
        forall|i: int| 0 <= i < third.len() ==> !fetches(#[trigger] third[i]),
{
    assert forall|i: int| 0 <= i < third.len() implies !fetches(#[trigger] third[i]) by {
        if renames(doc) && i == 0 {
            assert(act_rename(third[0], doc.title->0@));
        }
    }
}

/// A leaf without an earlier result is made: where the journal holds no
/// finished snapshot of the node, or the recorded file is gone, the probe of
/// a single is followed by the inspection of its chapter directory or the
/// search for its usual file.
pub proof fn lemma_unfinished_leaf_is_made(
    b: Engine,
    st: WorkState,
    present: bool,
    c: Engine,
    second: Seq<Action>,
    doc: ProbeDoc,
    d: Engine,
    third: Seq<Action>,
)
    requires
        b.phase == Phase::LeafLookup,
        st.status != NodeStatus::Done || recorded_file(st) is None || !present,
        !doc.playlist(),
        after_step(b, Event::LeafLooked(earlier_file(st, present)), c, second),
        after_step(c, Event::Probed(Ok(doc)), d, third),
    ensures
        d.phase == Phase::ChapterCheck || d.phase == Phase::CandidateCheck,
        third.len() >= 1,
        asks_for_single(d, third.last()),
{
}

} // verus!
