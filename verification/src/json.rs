//! JSON documents of the external tools: the downloader's probe and the
//! record of the installed version. A document is looked into by JSON
//! Pointer.
//!
//! The contracts know a document by the text that `serde_json` writes for
//! it: what is read from a text is stated over the document that the text
//! holds, and what a pointer finds over the document and the pointer.

use vstd::prelude::*;
use crate::ffmpeg::{milli_of, parse_milli};
use crate::journal::opt_text;
use crate::probe::{ProbeChapter, ProbeDoc, ProbeEntries, ProbeItem};
use crate::text::{decimal_text, joined, push_decimal};

verus! {

/// A parsed JSON document, as `serde_json` holds it.
#[verifier::external_type_specification]
#[verifier::external_body]
pub struct ExValue(serde_json::Value);

/// A document as `serde_json` writes it, in its compact form (`Display`
/// of `serde_json::Value`). Documents that are written alike hold the same
/// strings, numbers and lists in the same places.
pub uninterp spec fn json_written(v: serde_json::Value) -> Seq<char>;

/// What `serde_json::from_str` reads in a text: the document, as it is
/// written back; nothing where the text is no JSON document.
pub uninterp spec fn json_of(text: Seq<char>) -> Option<Seq<char>>;

/// What `serde_json::Value::pointer` finds by a JSON Pointer in the
/// document that is written so: nothing, a string, a number, a list or
/// something else.
pub uninterp spec fn json_leaf(written: Seq<char>, pointer: Seq<char>) -> LeafView;

/// What a JSON Pointer leads to.
#[derive(Debug)]
pub enum Leaf {
    /// Nothing.
    Missing,
    /// A string.
    Text(String),
    /// A number, as the document's library prints it.
    Number(String),
    /// A list of this length.
    List(usize),
    /// Anything else: an object, a boolean, null.
    Other,
}

/// Calls `serde_json::from_str` for a `serde_json::Value`: there is a
/// document exactly where the text is one, and it is the one that the
/// text holds. It is read through `leaf_at`.
#[verifier::external_body]
pub(crate) fn parse(text: &str) -> (v: Option<serde_json::Value>)
    ensures
        v is Some <==> json_of(text@) is Some,
        v matches Some(x) ==> json_of(text@) == Some(json_written(x)),
{
    match serde_json::from_str::<serde_json::Value>(text) {
        Ok(v) => Some(v),
        Err(_) => None,
    }
}

/// Calls `serde_json::Value::pointer` and tells the variants of what it
/// finds apart: a string with its text, a number with the text that
/// `Display` of `serde_json::Number` gives it, a list with its length.
/// What it finds depends on the document and the pointer alone.
#[verifier::external_body]
pub(crate) fn leaf_at(v: &serde_json::Value, pointer: &str) -> (l: Leaf)
    ensures
        l@ == json_leaf(json_written(*v), pointer@),
{
    match v.pointer(pointer) {
        None => Leaf::Missing,
        Some(serde_json::Value::String(s)) => Leaf::Text(s.clone()),
        Some(serde_json::Value::Number(n)) => Leaf::Number(n.to_string()),
        Some(serde_json::Value::Array(a)) => Leaf::List(a.len()),
        Some(_) => Leaf::Other,
    }
}

/// The string that a pointer leads to in a document.
pub open spec fn text_member(doc: Seq<char>, p: Seq<char>) -> Option<Seq<char>> {
    match json_leaf(doc, p) {
        LeafView::Text(s) => Some(s),
        _ => None,
    }
}

/// The time, in milliseconds, that a pointer leads to: the number there,
/// written in seconds as a plain decimal. A number in another notation
/// counts as missing.
pub open spec fn time_member(doc: Seq<char>, p: Seq<char>) -> Option<i64> {
    match json_leaf(doc, p) {
        LeafView::Number(s) => match milli_of(s) {
            Some(n) => Some(n as i64),
            None => None,
        },
        _ => None,
    }
}

/// The length of the list that a pointer leads to.
pub open spec fn list_member(doc: Seq<char>, p: Seq<char>) -> Option<nat> {
    match json_leaf(doc, p) {
        LeafView::List(n) => Some(n),
        _ => None,
    }
}

/// The pointer to a member of the element at `i` of a list.
pub open spec fn item_pointer(list: Seq<char>, i: nat, member: Seq<char>) -> Seq<char> {
    list + "/"@ + decimal_text(i) + "/"@ + member
}

fn text_of_leaf(v: &serde_json::Value, pointer: &str) -> (r: Option<String>)
    ensures
        opt_text(r) == text_member(json_written(*v), pointer@),
{
    match leaf_at(v, pointer) {
        Leaf::Text(s) => Some(s),
        _ => None,
    }
}

fn time_of_leaf(v: &serde_json::Value, pointer: &str) -> (r: Option<i64>)
    ensures
        r == time_member(json_written(*v), pointer@),
{
    match leaf_at(v, pointer) {
        Leaf::Number(s) => match parse_milli(s.as_str()) {
            Some(n) => Some(n as i64),
            None => None,
        },
        _ => None,
    }
}

fn pointer_to(list: &str, i: usize, member: &str) -> (p: String)
    ensures
        p@ == item_pointer(list@, i as nat, member@),
{
    let mut p = joined(list, "/");
    push_decimal(i as u64, &mut p);
    p.append("/");
    p.append(member);
    p
}

/// The element of a probed playlist that the document holds at `i`.
pub open spec fn item_of(doc: Seq<char>, i: nat, it: ProbeItem) -> bool {
    &&& opt_text(it.url) == text_member(doc, item_pointer("/entries"@, i, "url"@))
    &&& opt_text(it.title) == text_member(doc, item_pointer("/entries"@, i, "title"@))
}

/// The chapter that the document holds at `i`.
pub open spec fn chapter_of(doc: Seq<char>, i: nat, c: ProbeChapter) -> bool {
    &&& opt_text(c.title) == text_member(doc, item_pointer("/chapters"@, i, "title"@))
    &&& c.start_ms == time_member(doc, item_pointer("/chapters"@, i, "start_time"@))
    &&& c.end_ms == time_member(doc, item_pointer("/chapters"@, i, "end_time"@))
}

/// What the pipeline reads of a probe document: its title, its
/// discriminator `_type`, the URL and title of each element of `entries`,
/// and title, start and end of each element of `chapters`.
pub open spec fn doc_of(doc: Seq<char>, d: ProbeDoc) -> bool {
    &&& opt_text(d.title) == text_member(doc, "/title"@)
    &&& opt_text(d.kind) == text_member(doc, "/_type"@)
    &&& match d.entries {
        ProbeEntries::Absent => json_leaf(doc, "/entries"@) is Missing,
        ProbeEntries::NotAList => !(json_leaf(doc, "/entries"@) is Missing) && list_member(
            doc,
            "/entries"@,
        ) is None,
        ProbeEntries::List(items) => {
            &&& list_member(doc, "/entries"@) == Some(items@.len())
            &&& forall|i: int| 0 <= i < items@.len() ==> item_of(doc, i as nat, #[trigger] items@[i])
        },
    }
    &&& match d.chapters {
        None => list_member(doc, "/chapters"@) is None,
        Some(list) => {
            &&& list_member(doc, "/chapters"@) == Some(list@.len())
            &&& forall|i: int| 0 <= i < list@.len() ==> chapter_of(doc, i as nat, #[trigger] list@[i])
        },
    }
}

/// Reads a probe document.
pub fn probe_doc(v: &serde_json::Value) -> (d: ProbeDoc)
    ensures
        doc_of(json_written(*v), d),
{
    let entries = match leaf_at(v, "/entries") {
        Leaf::Missing => ProbeEntries::Absent,
        Leaf::List(n) => {
            let mut items: Vec<ProbeItem> = Vec::new();
            let mut i: usize = 0;
            while i < n
                invariant
                    i <= n,
                    items@.len() == i,
                    forall|j: int| 0 <= j < i ==> item_of(json_written(*v), j as nat, #[trigger] items@[j]),
                decreases n - i,
            {
                let url = text_of_leaf(v, pointer_to("/entries", i, "url").as_str());
                let title = text_of_leaf(v, pointer_to("/entries", i, "title").as_str());
                items.push(ProbeItem { url, title });
                i += 1;
            }
            ProbeEntries::List(items)
        },
        _ => ProbeEntries::NotAList,
    };
    let chapters = match leaf_at(v, "/chapters") {
        Leaf::List(n) => {
            let mut list: Vec<ProbeChapter> = Vec::new();
            let mut i: usize = 0;
            while i < n
                invariant
                    i <= n,
                    list@.len() == i,
                    forall|j: int| 0 <= j < i ==> chapter_of(json_written(*v), j as nat, #[trigger] list@[j]),
                decreases n - i,
            {
                let title = text_of_leaf(v, pointer_to("/chapters", i, "title").as_str());
                let start_ms = time_of_leaf(v, pointer_to("/chapters", i, "start_time").as_str());
                let end_ms = time_of_leaf(v, pointer_to("/chapters", i, "end_time").as_str());
                list.push(ProbeChapter { title, start_ms, end_ms });
                i += 1;
            }
            Some(list)
        },
        _ => None,
    };
    ProbeDoc {
        title: text_of_leaf(v, "/title"),
        kind: text_of_leaf(v, "/_type"),
        entries,
        chapters,
    }
}

/// Reads what the downloader printed for a probe: a probe document
/// exactly where the text is a JSON document, read as `probe_doc` reads it.
pub fn flat_data(stdout: &str) -> (r: Option<ProbeDoc>)
    ensures
        r is Some <==> json_of(stdout@) is Some,
        r matches Some(d) ==> json_of(stdout@) matches Some(doc) && doc_of(doc, d),
{
    match parse(stdout) {
        Some(v) => Some(probe_doc(&v)),
        None => None,
    }
}

/// The version that a record of the installed downloader names.
pub fn read_installed_version(text: &str) -> (r: Option<String>)
    ensures
        opt_text(r) == version_in(text@),
{
    match parse(text) {
        Some(v) => installed_version(&v),
        None => None,
    }
}

/// The version that a text names: the string member `version` of the
/// JSON document that the text is, if it is one and has that member.
pub open spec fn version_in(text: Seq<char>) -> Option<Seq<char>> {
    match json_of(text) {
        Some(doc) => text_member(doc, "/version"@),
        None => None,
    }
}

/// The version that a document names: its string member `version`, if it
/// has one.
pub fn installed_version(v: &serde_json::Value) -> (r: Option<String>)
    ensures
        opt_text(r) == text_member(json_written(*v), "/version"@),
{
    text_of_leaf(v, "/version")
}

/// What a JSON Pointer leads to, as a value: see `Leaf`.
pub enum LeafView {
    Missing,
    Text(Seq<char>),
    Number(Seq<char>),
    List(nat),
    Other,
}

impl View for Leaf {
    type V = LeafView;

    open spec fn view(&self) -> LeafView {
        match *self {
            Leaf::Missing => LeafView::Missing,
            Leaf::Text(s) => LeafView::Text(s@),
            Leaf::Number(s) => LeafView::Number(s@),
            Leaf::List(n) => LeafView::List(n as nat),
            Leaf::Other => LeafView::Other,
        }
    }
}

} // verus!
