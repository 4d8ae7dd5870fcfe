//! What the downloader's metadata probe says of a URL, and what the
//! pipeline reads out of it.

use vstd::prelude::*;
use crate::text::same_text;

verus! {

/// One element of a probed playlist.
#[derive(Debug)]
pub struct ProbeItem {
    pub url: Option<String>,
    pub title: Option<String>,
}

/// One chapter of a probed video; times in milliseconds.
#[derive(Debug)]
pub struct ProbeChapter {
    pub title: Option<String>,
    pub start_ms: Option<i64>,
    pub end_ms: Option<i64>,
}

/// The `entries` member of a probe document.
#[derive(Debug)]
pub enum ProbeEntries {
    /// The document has no such member.
    Absent,
    /// The member is there and is no list.
    NotAList,
    /// The member is a list.
    List(Vec<ProbeItem>),
}

/// The members of a probe document that the pipeline reads. `kind` is the
/// discriminator (`_type`); `chapters` is `None` where the member is
/// missing or is no list.
#[derive(Debug)]
pub struct ProbeDoc {
    pub title: Option<String>,
    pub kind: Option<String>,
    pub entries: ProbeEntries,
    pub chapters: Option<Vec<ProbeChapter>>,
}

/// What the UI is shown of a URL before it is added.
#[derive(Debug)]
pub struct MediaInfo {
    pub title: String,
    pub item_type: String,
    pub entries_count: Option<u32>,
}

/// A chapter of a single: a titled span of its audio, in milliseconds.
#[derive(Debug)]
pub struct Chapter {
    pub title: String,
    pub start_ms: i64,
    pub end_ms: i64,
}

/// The text of an optional string, the empty text where there is none.
pub open spec fn text_or_empty(o: Option<String>) -> Seq<char> {
    match o {
        Some(s) => s@,
        None => Seq::empty(),
    }
}

/// The chapter that the pipeline makes of a probed one: a missing title is
/// empty, a missing start is 0, a missing end is the start.
pub open spec fn chapter_matches(c: Chapter, p: ProbeChapter) -> bool {
    &&& c.title@ == text_or_empty(p.title)
    &&& c.start_ms == match p.start_ms {
        Some(t) => t,
        None => 0,
    }
    &&& c.end_ms == match p.end_ms {
        Some(t) => t,
        None => c.start_ms,
    }
}

/// The text of an optional string as a string of its own.
pub fn owned_or_empty(o: &Option<String>) -> (s: String)
    ensures
        s@ == text_or_empty(*o),
{
    match o {
        Some(t) => t.clone(),
        None => String::new(),
    }
}

impl ProbeDoc {
    /// Whether the discriminator is the word `playlist`.
    pub open spec fn tagged_playlist(self) -> bool {
        match self.kind {
            Some(k) => k@ == "playlist"@,
            None => false,
        }
    }

    /// A document stands for a playlist where its discriminator says so or
    /// where it has an `entries` member at all.
    pub open spec fn playlist(self) -> bool {
        self.tagged_playlist() || !(self.entries is Absent)
    }

    /// The elements of the playlist; none where `entries` is no list.
    pub open spec fn items(self) -> Seq<ProbeItem> {
        match self.entries {
            ProbeEntries::List(v) => v@,
            _ => Seq::empty(),
        }
    }

    /// Whether the discriminator is the word `playlist`.
    pub fn is_tagged_playlist(&self) -> (b: bool)
        ensures
            b == self.tagged_playlist(),
    {
        match &self.kind {
            Some(k) => same_text(k.as_str(), "playlist"),
            None => false,
        }
    }

    /// Whether the document stands for a playlist.
    pub fn is_playlist(&self) -> (b: bool)
        ensures
            b == self.playlist(),
    {
        let tagged = self.is_tagged_playlist();
        let has_entries = match &self.entries {
            ProbeEntries::Absent => false,
            _ => true,
        };
        tagged || has_entries
    }
}

/// The chapters that the pipeline reads out of a document: one per probed
/// chapter, in the document's order; none at all where the document has no
/// chapter list or an empty one.
pub open spec fn chapters_match(doc: ProbeDoc, out: Option<Vec<Chapter>>) -> bool {
    match out {
        None => doc.chapters is None || doc.chapters->0@.len() == 0,
        Some(v) => {
            &&& doc.chapters is Some
            &&& v@.len() == doc.chapters->0@.len()
            &&& v@.len() > 0
            &&& forall|i: int|
                0 <= i < v@.len() ==> chapter_matches(#[trigger] v@[i], doc.chapters->0@[i])
        },
    }
}

/// The chapters of a single.
pub fn extract_chapters(doc: &ProbeDoc) -> (out: Option<Vec<Chapter>>)
    ensures
        chapters_match(*doc, out),
{
    match &doc.chapters {
        None => None,
        Some(list) => {
            let mut out: Vec<Chapter> = Vec::new();
            let mut i: usize = 0;
            while i < list.len()
                invariant
                    i <= list.len(),
                    out@.len() == i,
                    forall|j: int| 0 <= j < i ==> chapter_matches(#[trigger] out@[j], list@[j]),
                decreases list.len() - i,
            {
                let p = &list[i];
                let start: i64 = match p.start_ms {
                    Some(t) => t,
                    None => 0,
                };
                let end: i64 = match p.end_ms {
                    Some(t) => t,
                    None => start,
                };
                out.push(Chapter { title: owned_or_empty(&p.title), start_ms: start, end_ms: end });
                i += 1;
            }
            if out.len() == 0 {
                None
            } else {
                Some(out)
            }
        },
    }
}

/// The number of elements shown for a playlist: the length of its list,
/// capped at the largest `u32`.
pub open spec fn shown_count(n: nat) -> u32 {
    if n <= u32::MAX {
        n as u32
    } else {
        u32::MAX
    }
}

/// What `look_media` answers for a document that has a title.
pub open spec fn media_info_of(doc: ProbeDoc, m: MediaInfo) -> bool {
    &&& doc.title is Some
    &&& m.title@ == doc.title->0@
    &&& m.item_type@ == match doc.kind {
        Some(k) => k@,
        None => "unknown"@,
    }
    &&& m.entries_count == if doc.tagged_playlist() {
        match doc.entries {
            ProbeEntries::List(v) => Some(shown_count(v@.len())),
            _ => None,
        }
    } else {
        None
    }
}

/// The summary of a probed URL. A document without a title is refused;
/// elements are counted only where the discriminator says `playlist`.
pub fn look_media(doc: &ProbeDoc) -> (r: Result<MediaInfo, String>)
    ensures
        match r {
            Ok(m) => media_info_of(*doc, m),
            Err(e) => doc.title is None && e@ == "title filed not found"@,
        },
{
    match &doc.title {
        None => Err("title filed not found".to_owned()),
        Some(t) => {
            let item_type = match &doc.kind {
                Some(k) => k.clone(),
                None => "unknown".to_owned(),
            };
            let entries_count = if doc.is_tagged_playlist() {
                match &doc.entries {
                    ProbeEntries::List(v) => {
                        let n = v.len();
                        if n <= 0xffff_ffff {
                            Some(n as u32)
                        } else {
                            Some(0xffff_ffffu32)
                        }
                    },
                    _ => None,
                }
            } else {
                None
            };
            Ok(MediaInfo { title: t.clone(), item_type, entries_count })
        },
    }
}

} // verus!
