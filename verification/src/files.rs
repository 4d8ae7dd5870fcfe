//! Files on disk, by name: which are audio, and what a path is made of.

use vstd::prelude::*;
use crate::pipeline::texts;
use crate::text::{chars_of, holds, joined, lower, lowered, occurs_at, same_text, text_of};

verus! {

/// The extensions of audio files, in lower case.
pub open spec fn audio_exts() -> Seq<Seq<char>> {
    seq!["mp3"@, "flac"@, "wav"@, "aac"@, "m4a"@, "ogg"@, "opus"@, "aiff"@, "webm"@]
}

/// The extensions under which a download is looked for, in lower case.
pub open spec fn download_exts() -> Seq<Seq<char>> {
    seq!["m4a"@, "mp3"@, "opus"@, "aac"@, "flac"@, "wav"@, "ogg"@, "webm"@]
}

/// Whether an extension is one of an audio file, whatever its case.
pub fn is_audio_ext(ext: &str) -> (b: bool)
    ensures
        b == audio_exts().contains(lowered(ext@)),
{
    let e = text_of(&lower(&chars_of(ext)));
    let e = e.as_str();
    let b = same_text(e, "mp3") || same_text(e, "flac") || same_text(e, "wav") || same_text(
        e,
        "aac",
    ) || same_text(e, "m4a") || same_text(e, "ogg") || same_text(e, "opus") || same_text(e, "aiff")
        || same_text(e, "webm");
    proof {
        let s = audio_exts();
        if b {
            assert(s[0] == "mp3"@ && s[1] == "flac"@ && s[2] == "wav"@ && s[3] == "aac"@ && s[4]
                == "m4a"@ && s[5] == "ogg"@ && s[6] == "opus"@ && s[7] == "aiff"@ && s[8]
                == "webm"@);
        }
    }
    b
}

/// Whether an extension is one under which a download is looked for,
/// whatever its case.
pub fn is_download_ext(ext: &str) -> (b: bool)
    ensures
        b == download_exts().contains(lowered(ext@)),
{
    let e = text_of(&lower(&chars_of(ext)));
    let e = e.as_str();
    let b = same_text(e, "m4a") || same_text(e, "mp3") || same_text(e, "opus") || same_text(
        e,
        "aac",
    ) || same_text(e, "flac") || same_text(e, "wav") || same_text(e, "ogg") || same_text(e, "webm");
    proof {
        let s = download_exts();
        if b {
            assert(s[0] == "m4a"@ && s[1] == "mp3"@ && s[2] == "opus"@ && s[3] == "aac"@ && s[4]
                == "flac"@ && s[5] == "wav"@ && s[6] == "ogg"@ && s[7] == "webm"@);
        }
    }
    b
}

/// Calls `std::path::Path::extension` on the path and hands back the
/// extension where it is valid Unicode. What counts as the file name
/// depends on the platform's separators; on every platform the extension
/// is the part of the file name behind its last point, so it stands in the
/// path behind a point.
#[verifier::external_body]
pub(crate) fn path_extension(path: &str) -> (ext: Option<String>)
    ensures
        ext matches Some(e) ==> holds(path@, seq!['.'] + e@),
{
    match std::path::Path::new(path).extension() {
        Some(e) => match e.to_str() {
            Some(s) => Some(s.to_owned()),
            None => None,
        },
        None => None,
    }
}

/// Calls `std::path::Path::file_stem` on the path and hands back the stem
/// where it is valid Unicode. The stem is a part of the file name, so it
/// stands in the path.
#[verifier::external_body]
pub(crate) fn path_file_stem(path: &str) -> (stem: Option<String>)
    ensures
        stem matches Some(s) ==> holds(path@, s@),
{
    match std::path::Path::new(path).file_stem() {
        Some(e) => match e.to_str() {
            Some(s) => Some(s.to_owned()),
            None => None,
        },
        None => None,
    }
}

/// Calls `std::path::Path::file_name` on the path and hands back the name
/// where it is valid Unicode. The name is the last component of the path,
/// so it stands in the path.
#[verifier::external_body]
pub(crate) fn path_file_name(path: &str) -> (name: Option<String>)
    ensures
        name matches Some(s) ==> holds(path@, s@),
{
    match std::path::Path::new(path).file_name() {
        Some(e) => match e.to_str() {
            Some(s) => Some(s.to_owned()),
            None => None,
        },
        None => None,
    }
}

/// Calls `std::path::Path::with_file_name`: the path with its last
/// component replaced by `name`. Nothing is claimed of the result.
#[verifier::external_body]
pub(crate) fn path_with_file_name(path: &str, name: &str) -> (out: String) {
    std::path::Path::new(path).with_file_name(name).to_string_lossy().into_owned()
}

/// Whether a path names an audio file: it has an extension, and that is
/// one of an audio file. The extension is the platform's to tell: a path
/// that is taken for an audio file holds a point and, behind it, one of
/// the audio extensions in some case.
pub fn is_audio(path: &str) -> (b: bool)
    ensures
        b ==> exists|ext: Seq<char>|
            audio_exts().contains(lowered(ext)) && #[trigger] holds(path@, seq!['.'] + ext),
        !holds(path@, seq!['.']) ==> !b,
{
    match path_extension(path) {
        Some(ext) => {
            proof {
                lemma_holds_head(path@, seq!['.'], ext@);
            }
            is_audio_ext(ext.as_str())
        },
        None => false,
    }
}

/// The names under which an unfinished download of `path` lies beside
/// it.
pub open spec fn part_names(path: Seq<char>) -> Seq<Seq<char>> {
    seq![path + ".part"@, path + ".tmp"@, path + ".download"@]
}

/// The paths at which the part files of a download would lie.
pub fn part_siblings(path: &str) -> (names: Vec<String>)
    ensures
        texts(names@) == part_names(path@),
{
    let mut names: Vec<String> = Vec::new();
    names.push(joined(path, ".part"));
    names.push(joined(path, ".tmp"));
    names.push(joined(path, ".download"));
    assert(texts(names@) =~= part_names(path@));
    names
}

/// Whether a download is unfinished: one of its part files is there.
pub fn has_part_siblings(present: &Vec<bool>) -> (any: bool)
    ensures
        any == exists|i: int| 0 <= i < present@.len() && present@[i],
{
    let mut i: usize = 0;
    while i < present.len()
        invariant
            i <= present.len(),
            forall|j: int| 0 <= j < i ==> !present@[j],
        decreases present.len() - i,
    {
        if present[i] {
            return true;
        }
        i += 1;
    }
    false
}

/// A text that holds `head` followed by `rest` holds `head`.
pub proof fn lemma_holds_head(hay: Seq<char>, head: Seq<char>, rest: Seq<char>)
    requires
        holds(hay, head + rest),
    ensures
        holds(hay, head),
{
    let i = choose|i: int| occurs_at(hay, head + rest, i);
    assert(hay.subrange(i, i + head.len()) =~= (head + rest).subrange(0, head.len() as int));
    assert((head + rest).subrange(0, head.len() as int) =~= head);
    assert(occurs_at(hay, head, i));
}

} // verus!
