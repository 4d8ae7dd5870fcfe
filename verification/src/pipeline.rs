//! The nodes that the download pipeline works on, the places it saves
//! to, and the rules on chapters.

use vstd::prelude::*;
use crate::ids::fresh_id;
use crate::journal::{clone_opt_text, WorkState};
use crate::probe::{owned_or_empty, text_or_empty, Chapter, ProbeDoc, ProbeEntries, ProbeItem};
use crate::sanitize::{sanitize_segment, sanitized};

verus! {

/// Where the download of a single stands.
#[derive(Debug, Clone, Copy, PartialEq, Eq, Structural)]
pub enum DownloadStatus {
    Pending,
    Downloading,
    /// Fetched.
    Done,
    /// Failed.
    Failed,
}

/// What a pipeline node is, once the probe has told.
#[derive(Debug)]
pub enum EntryKind {
    /// An inner node: a playlist with its elements.
    Playlist { children: Vec<Entry>, expanded: bool },
    /// A leaf: one resource.
    Single { file: Option<String>, chapters: Option<Vec<Chapter>>, status: DownloadStatus },
}

/// A pipeline node. `playlist` is the label under which its progress is
/// shown; `kind` is `None` until the node has been probed.
#[derive(Debug)]
pub struct Entry {
    pub id: u128,
    pub url: String,
    pub playlist: String,
    pub title: String,
    pub retries: u32,
    pub error: Option<String>,
    pub kind: Option<EntryKind>,
}

/// A forest of pipeline nodes.
#[derive(Debug)]
pub struct Mission {
    pub version: String,
    pub entries: Vec<Entry>,
}

/// A place that the pipeline names: a chain of directory names below the
/// save root, or a file under the path that the downloader gave.
#[derive(Debug)]
pub enum Location {
    Under(Vec<String>),
    File(String),
}

/// What the pipeline answers for a node: its journal directory (segments
/// below the working root), where its audio was saved, the label it ran
/// under and its title.
#[derive(Debug)]
pub struct ProcessResult {
    pub working_path: Vec<String>,
    pub saved_path: Location,
    pub playlist: String,
    pub name: String,
}

/// One line of progress for the UI.
#[derive(Debug)]
pub struct ProcessMsg {
    pub playlist: String,
    pub str: String,
}

/// The texts of a sequence of strings.
pub open spec fn texts(v: Seq<String>) -> Seq<Seq<char>> {
    Seq::new(v.len(), |i: int| v[i]@)
}

/// The sanitised forms of a sequence of titles.
pub open spec fn sanitized_all(titles: Seq<String>) -> Seq<Seq<char>> {
    Seq::new(titles.len(), |i: int| sanitized(titles[i]@))
}

/// A node as the journal's resume scan rebuilds it, or as a link is first
/// queued: not yet probed, never retried.
pub open spec fn is_unprobed(e: Entry, id: u128, url: Seq<char>, title: Seq<char>) -> bool {
    &&& e.id == id
    &&& e.url@ == url
    &&& e.title@ == title
    &&& e.retries == 0
    &&& e.kind is None
}

/// A child as a playlist's expansion makes it: a pending single.
pub open spec fn is_pending_leaf(e: Entry, url: Seq<char>, title: Seq<char>, label: Seq<char>)
    -> bool {
    &&& e.url@ == url
    &&& e.title@ == title
    &&& e.playlist@ == label
    &&& e.retries == 0
    &&& e.error is None
    &&& e.kind matches Some(EntryKind::Single { file, chapters, status })
    &&& file is None
    &&& chapters is None
    &&& status == DownloadStatus::Pending
}

/// The files of the fetched singles below a node, in the node's order.
pub open spec fn leaf_files(e: Entry) -> Seq<Seq<char>>
    decreases e,
{
    match e.kind {
        Some(EntryKind::Single { file: Some(f), chapters, status: DownloadStatus::Done }) => seq![
            f@,
        ],
        Some(EntryKind::Playlist { children, expanded }) => leaf_files_upto(
            children@,
            children@.len() as int,
        ),
        _ => Seq::empty(),
    }
}

/// The files of the fetched singles below the first `n` nodes of `s`.
pub open spec fn leaf_files_upto(s: Seq<Entry>, n: int) -> Seq<Seq<char>>
    decreases s, n,
{
    if n <= 0 || n > s.len() {
        Seq::empty()
    } else {
        leaf_files_upto(s, n - 1) + leaf_files(s[n - 1])
    }
}

/// Appends to `out` the files of all fetched singles below `e`.
#[verifier::loop_isolation(false)]
pub fn collect_leaf_files(e: &Entry, out: &mut Vec<String>)
    ensures
        texts(final(out)@) == texts(old(out)@) + leaf_files(*e),
    decreases e,
{
    match &e.kind {
        Some(EntryKind::Single { file, chapters, status }) => {
            match status {
                DownloadStatus::Done => {
                    if let Some(f) = file {
                        out.push(f.clone());
                        assert(texts(out@) =~= texts(old(out)@) + leaf_files(*e));
                    } else {
                        assert(texts(out@) =~= texts(old(out)@) + leaf_files(*e));
                    }
                },
                _ => {
                    assert(texts(out@) =~= texts(old(out)@) + leaf_files(*e));
                },
            }
        },
        Some(EntryKind::Playlist { children, expanded }) => {
            let mut i: usize = 0;
            assert(texts(out@) =~= texts(old(out)@) + leaf_files_upto(children@, 0));
            while i < children.len()
                invariant
                    i <= children.len(),
                    texts(out@) == texts(old(out)@) + leaf_files_upto(children@, i as int),
                decreases children.len() - i,
            {
                let ghost before = out@;
                collect_leaf_files(&children[i], out);
                i += 1;
                assert(texts(out@) =~= texts(old(out)@) + leaf_files_upto(children@, i as int));
            }
        },
        None => {
            assert(texts(out@) =~= texts(old(out)@) + leaf_files(*e));
        },
    }
}

/// A copy of a list of strings.
pub fn clone_texts(v: &Vec<String>) -> (r: Vec<String>)
    ensures
        r@ == v@,
{
    let mut r: Vec<String> = Vec::new();
    let mut i: usize = 0;
    while i < v.len()
        invariant
            i <= v.len(),
            r@ == v@.take(i as int),
        decreases v.len() - i,
    {
        r.push(v[i].clone());
        i += 1;
        assert(r@ =~= v@.take(i as int));
    }
    assert(v@.take(v@.len() as int) =~= v@);
    r
}

/// A copy of a list of chapters.
pub fn clone_chapters(v: &Vec<Chapter>) -> (r: Vec<Chapter>)
    ensures
        r@ == v@,
{
    let mut r: Vec<Chapter> = Vec::new();
    let mut i: usize = 0;
    while i < v.len()
        invariant
            i <= v.len(),
            r@ == v@.take(i as int),
        decreases v.len() - i,
    {
        r.push(Chapter { title: v[i].title.clone(), start_ms: v[i].start_ms, end_ms: v[i].end_ms });
        i += 1;
        assert(r@ =~= v@.take(i as int));
    }
    assert(v@.take(v@.len() as int) =~= v@);
    r
}

/// The save directory of a node: the sanitised titles of its ancestors,
/// outermost first, as segments below the save root.
pub fn save_dir(ancestor_titles: &Vec<String>) -> (dir: Vec<String>)
    ensures
        texts(dir@) == sanitized_all(ancestor_titles@),
{
    let mut dir: Vec<String> = Vec::new();
    let mut i: usize = 0;
    while i < ancestor_titles.len()
        invariant
            i <= ancestor_titles.len(),
            dir@.len() == i,
            forall|j: int| 0 <= j < i ==> (#[trigger] dir@[j])@ == sanitized(ancestor_titles@[j]@),
        decreases ancestor_titles.len() - i,
    {
        dir.push(sanitize_segment(ancestor_titles[i].as_str()));
        i += 1;
    }
    assert(texts(dir@) =~= sanitized_all(ancestor_titles@));
    dir
}

/// The directory that holds what a node with this title saves under a
/// name of its own (a playlist's elements, a single's chapters): the
/// node's save directory and, below it, the sanitised title.
pub fn own_dir(ancestor_titles: &Vec<String>, title: &str) -> (dir: Vec<String>)
    ensures
        texts(dir@) == sanitized_all(ancestor_titles@).push(sanitized(title@)),
{
    let mut dir = save_dir(ancestor_titles);
    dir.push(sanitize_segment(title));
    assert(texts(dir@) =~= sanitized_all(ancestor_titles@).push(sanitized(title@)));
    dir
}

/// The children that a probed playlist expands into: one pending single
/// per element, in the document's order, under the parent's label. An
/// element without URL or title gets the empty text. The identifiers are
/// fresh: nothing is said of them.
pub open spec fn children_match(doc: ProbeDoc, children: Seq<Entry>, label: Seq<char>) -> bool {
    &&& children.len() == doc.items().len()
    &&& forall|i: int|
        0 <= i < children.len() ==> is_pending_leaf(
            #[trigger] children[i],
            text_or_empty(doc.items()[i].url),
            text_or_empty(doc.items()[i].title),
            label,
        )
}

/// Expands a probed playlist into its children.
pub fn expand_children(doc: &ProbeDoc, label: &str) -> (children: Vec<Entry>)
    ensures
        children_match(*doc, children@, label@),
{
    let mut children: Vec<Entry> = Vec::new();
    match &doc.entries {
        ProbeEntries::List(items) => {
            let mut i: usize = 0;
            while i < items.len()
                invariant
                    i <= items.len(),
                    children@.len() == i,
                    forall|j: int|
                        0 <= j < i ==> is_pending_leaf(
                            #[trigger] children@[j],
                            text_or_empty(items@[j].url),
                            text_or_empty(items@[j].title),
                            label@,
                        ),
                decreases items.len() - i,
            {
                let item: &ProbeItem = &items[i];
                children.push(
                    Entry {
                        id: fresh_id(),
                        url: owned_or_empty(&item.url),
                        playlist: label.to_owned(),
                        title: owned_or_empty(&item.title),
                        retries: 0,
                        error: None,
                        kind: Some(
                            EntryKind::Single {
                                file: None,
                                chapters: None,
                                status: DownloadStatus::Pending,
                            },
                        ),
                    },
                );
                i += 1;
            }
        },
        _ => {},
    }
    children
}

/// Four fifths of the expected chapter files are enough.
pub open spec fn mostly(hits: nat, expected: nat) -> bool {
    hits * 5 >= expected * 4
}

/// Whether `hits` of `expected` chapter files are enough: at least 80%.
pub fn enough_chapters(hits: usize, expected: usize) -> (ready: bool)
    ensures
        ready == mostly(hits as nat, expected as nat),
{
    (hits as u128) * 5 >= (expected as u128) * 4
}

/// Whether the chapters of a single count as already split: `hits` of the
/// `expected` chapter files are there, and at least 80% must be. Where no
/// chapter is expected, a chapter directory that holds anything counts.
pub fn chapters_mostly_ready(hits: usize, expected: usize, dir_nonempty: bool) -> (ready: bool)
    ensures
        ready == if expected == 0 {
            dir_nonempty
        } else {
            mostly(hits as nat, expected as nat)
        },
{
    if expected == 0 {
        dir_nonempty
    } else {
        enough_chapters(hits, expected)
    }
}

/// A number in at least two digits.
pub open spec fn two_digits(n: nat) -> Seq<char> {
    if n < 10 {
        seq!['0'] + crate::text::decimal_text(n)
    } else {
        crate::text::decimal_text(n)
    }
}

/// The two numbered names of the chapter at position `number` (counted
/// from 1): the position in two digits, a blank, the sanitised title, and
/// `.m4a` or `.flac`. The split writes its files without the number; which
/// chapters a directory holds is counted by `ffmpeg::chapter_hits`.
pub fn chapter_candidates(number: u64, title: &str) -> (names: (String, String))
    ensures
        names.0@ == two_digits(number as nat) + seq![' '] + sanitized(title@) + ".m4a"@,
        names.1@ == two_digits(number as nat) + seq![' '] + sanitized(title@) + ".flac"@,
{
    let mut base = String::new();
    if number < 10 {
        crate::text::push_one(&mut base, '0');
    }
    crate::text::push_decimal(number, &mut base);
    crate::text::push_one(&mut base, ' ');
    base.append(sanitize_segment(title).as_str());
    assert(base@ =~= two_digits(number as nat) + seq![' '] + sanitized(title@));
    let m4a = crate::text::joined(base.as_str(), ".m4a");
    let flac = crate::text::joined(base.as_str(), ".flac");
    (m4a, flac)
}

/// Whether a chapter directory can stand as it is: it holds exactly as
/// many files as there are chapters, or at least 80% of the expected
/// chapter files.
pub open spec fn chapters_settled(count: nat, hits: nat, expected: nat) -> bool {
    count == expected || mostly(hits, expected)
}

/// Whether a chapter directory can stand as it is.
pub fn chapters_are_settled(count: usize, hits: usize, expected: usize) -> (settled: bool)
    ensures
        settled == chapters_settled(count as nat, hits as nat, expected as nat),
{
    count == expected || enough_chapters(hits, expected)
}

/// How many interrupted nodes are taken up at once on start-up.
pub const RESUME_LIMIT: usize = 8;

/// The node that a journal snapshot is taken up as: the snapshot's
/// identifier, URL and title, not yet probed, under the given label. The
/// pipeline probes it anew.
pub fn reconstruct_entry_minimal(st: &WorkState, label: &str) -> (e: Entry)
    ensures
        is_unprobed(e, st.root_id, st.url@, st.title@),
        e.playlist@ == label@,
        e.error == st.error,
{
    Entry {
        id: st.root_id,
        url: st.url.clone(),
        playlist: label.to_owned(),
        title: st.title.clone(),
        retries: 0,
        error: clone_opt_text(&st.error),
        kind: None,
    }
}

} // verus!
