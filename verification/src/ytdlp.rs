//! The downloader: how it is called, and what is read out of what it
//! prints.

use vstd::prelude::*;
use crate::journal::opt_text;
use crate::pipeline::texts;
use crate::text::{
    chars_of, contains_text, holds, joined, lemma_lead_count_is, lemma_tail_count_is, lines,
    lines_of, remove_all, strip_lead, strip_tail, text_of, trim, trimmed, without_all,
};

verus! {

fn arg(list: &mut Vec<String>, a: &str)
    ensures
        texts(final(list)@) == texts(old(list)@).push(a@),
{
    list.push(a.to_owned());
    assert(texts(list@) =~= texts(old(list)@).push(a@));
}

/// The arguments of a probe: metadata only, playlists flat.
pub open spec fn probe_args_of(url: Seq<char>) -> Seq<Seq<char>> {
    seq!["-J"@, "--skip-download"@, "--flat-playlist"@, url]
}

/// The arguments of a probe of `url`.
pub fn probe_args(url: &str) -> (args: Vec<String>)
    ensures
        texts(args@) == probe_args_of(url@),
{
    let mut args: Vec<String> = Vec::new();
    assert(texts(args@) =~= Seq::<Seq<char>>::empty());
    arg(&mut args, "-J");
    arg(&mut args, "--skip-download");
    arg(&mut args, "--flat-playlist");
    arg(&mut args, url);
    assert(texts(args@) =~= probe_args_of(url@));
    args
}

/// The arguments of a download: the best audio of exactly one stream,
/// resumed where it was begun, never written over a finished file, on eight
/// connections, under portable file names; the path of the file is printed
/// when it is known and again when it is final.
pub open spec fn download_args_of(url: Seq<char>, template: Seq<char>) -> Seq<Seq<char>> {
    seq![
        "--windows-filenames"@,
        "-f"@,
        "bestaudio"@,
        "--no-playlist"@,
        "--continue"@,
        "--no-overwrites"@,
        "-N"@,
        "8"@,
        "-o"@,
        template,
        "--print"@,
        "after_move:filepath"@,
        "--print"@,
        "before_dl:filepath"@,
        url,
    ]
}

/// The name pattern of downloaded files, to be joined to the save
/// directory.
pub const OUTPUT_TEMPLATE: &'static str = "%(title)s.%(ext)s";

/// The arguments of a download of `url` under the name pattern
/// `template`.
pub fn download_args(url: &str, template: &str) -> (args: Vec<String>)
    ensures
        texts(args@) == download_args_of(url@, template@),
{
    let mut args: Vec<String> = Vec::new();
    assert(texts(args@) =~= Seq::<Seq<char>>::empty());
    arg(&mut args, "--windows-filenames");
    arg(&mut args, "-f");
    arg(&mut args, "bestaudio");
    arg(&mut args, "--no-playlist");
    arg(&mut args, "--continue");
    arg(&mut args, "--no-overwrites");
    arg(&mut args, "-N");
    arg(&mut args, "8");
    arg(&mut args, "-o");
    arg(&mut args, template);
    arg(&mut args, "--print");
    arg(&mut args, "after_move:filepath");
    arg(&mut args, "--print");
    arg(&mut args, "before_dl:filepath");
    arg(&mut args, url);
    assert(texts(args@) =~= download_args_of(url@, template@));
    args
}

/// The last of the first `n` lines that holds `needle`.
pub open spec fn last_holding(all: Seq<Seq<char>>, needle: Seq<char>, n: int) -> Option<Seq<char>>
    decreases n,
{
    if n <= 0 {
        None
    } else if holds(all[n - 1], needle) {
        Some(all[n - 1])
    } else {
        last_holding(all, needle, n - 1)
    }
}

/// What the UI is told when the downloader fails: its last line that
/// holds `ERROR:`, without the words `ERROR: ` and without the URL behind
/// a colon; where it printed no such line, all it printed.
pub open spec fn tool_error_of(stderr: Seq<char>, url: Seq<char>) -> Seq<char> {
    match last_holding(lines_of(stderr), "ERROR:"@, lines_of(stderr).len() as int) {
        Some(line) => without_all(without_all(line, "ERROR: "@), ": "@ + url),
        None => "yt-dlp failed: "@ + stderr,
    }
}

/// The message for a failed downloader run.
pub fn tool_error(stderr: &str, url: &str) -> (msg: String)
    ensures
        msg@ == tool_error_of(stderr@, url@),
{
    let text = chars_of(stderr);
    let all = lines(&text);
    let needle = chars_of("ERROR:");
    let mut n: usize = all.len();
    while n > 0
        invariant
            n <= all.len(),
            needle@ == "ERROR:"@,
            all@.len() == lines_of(stderr@).len(),
            forall|i: int| 0 <= i < all@.len() ==> (#[trigger] all@[i])@ == lines_of(stderr@)[i],
            last_holding(lines_of(stderr@), needle@, all@.len() as int) == last_holding(
                lines_of(stderr@),
                needle@,
                n as int,
            ),
        decreases n,
    {
        if contains_text(&all[n - 1], &needle) {
            let first = chars_of("ERROR: ");
            let mut second = chars_of(": ");
            let u = chars_of(url);
            let mut k: usize = 0;
            while k < u.len()
                invariant
                    k <= u.len(),
                    u@ == url@,
                    second@ == ": "@ + url@.take(k as int),
                decreases u.len() - k,
            {
                second.push(u[k]);
                k += 1;
                assert(second@ =~= ": "@ + url@.take(k as int));
            }
            assert(url@.take(u@.len() as int) =~= url@);
            let once = remove_all(&all[n - 1], &first);
            let twice = remove_all(&once, &second);
            return text_of(&twice);
        }
        n -= 1;
    }
    joined("yt-dlp failed: ", stderr)
}

/// The last of the first `n` lines that holds more than white space,
/// trimmed.
pub open spec fn last_inked(all: Seq<Seq<char>>, n: int) -> Option<Seq<char>>
    decreases n,
{
    if n <= 0 {
        None
    } else if trimmed(all[n - 1]).len() > 0 {
        Some(trimmed(all[n - 1]))
    } else {
        last_inked(all, n - 1)
    }
}

/// The test "is a quotation mark", as a value.
pub open spec fn quote_pred() -> spec_fn(char) -> bool {
    |c: char| c == '"' || c == '\''
}

/// The path that the downloader printed: its last line that is not
/// blank, trimmed, without quotation marks at its ends.
pub open spec fn printed_path_of(stdout: Seq<char>) -> Option<Seq<char>> {
    match last_inked(lines_of(stdout), lines_of(stdout).len() as int) {
        Some(line) => Some(strip_tail(strip_lead(line, quote_pred()), quote_pred())),
        None => None,
    }
}

/// The path of the downloaded file, as the downloader printed it; `None`
/// where it printed none.
pub fn printed_path(stdout: &str) -> (path: Option<String>)
    ensures
        opt_text(path) == printed_path_of(stdout@),
{
    let text = chars_of(stdout);
    let all = lines(&text);
    let mut n: usize = all.len();
    while n > 0
        invariant
            n <= all.len(),
            all@.len() == lines_of(stdout@).len(),
            forall|i: int| 0 <= i < all@.len() ==> (#[trigger] all@[i])@ == lines_of(stdout@)[i],
            last_inked(lines_of(stdout@), all@.len() as int) == last_inked(
                lines_of(stdout@),
                n as int,
            ),
        decreases n,
    {
        let t = trim(&all[n - 1]);
        if t.len() > 0 {
            let mut a: usize = 0;
            while a < t.len() && (t[a] == '"' || t[a] == '\'')
                invariant
                    a <= t.len(),
                    forall|j: int| 0 <= j < a ==> quote_pred()(#[trigger] t@[j]),
                decreases t.len() - a,
            {
                a += 1;
            }
            proof {
                lemma_lead_count_is(t@, quote_pred(), a as int);
            }
            let ghost mid = t@.skip(a as int);
            let mut b: usize = t.len();
            while b > a && (t[b - 1] == '"' || t[b - 1] == '\'')
                invariant
                    a <= b <= t.len(),
                    mid == t@.skip(a as int),
                    forall|j: int| b - a <= j < mid.len() ==> quote_pred()(#[trigger] mid[j]),
                decreases b,
            {
                b -= 1;
            }
            proof {
                lemma_tail_count_is(mid, quote_pred(), t.len() - b);
                assert(strip_tail(strip_lead(t@, quote_pred()), quote_pred()) =~= t@.subrange(
                    a as int,
                    b as int,
                ));
            }
            return Some(crate::text::text_of_range(&t, a, b));
        }
        n -= 1;
    }
    None
}

/// The position of the newest file: the first of those with the latest
/// time of change. `None` for no file.
pub fn newest_in_dir(changed: &Vec<u64>) -> (at: Option<usize>)
    ensures
        match at {
            None => changed@.len() == 0,
            Some(i) => {
                &&& i < changed@.len()
                &&& forall|j: int| 0 <= j < changed@.len() ==> changed@[j] <= changed@[i as int]
                &&& forall|j: int| 0 <= j < i ==> changed@[j] < changed@[i as int]
            },
        },
{
    if changed.len() == 0 {
        return None;
    }
    let mut best: usize = 0;
    let mut j: usize = 1;
    while j < changed.len()
        invariant
            1 <= j <= changed.len(),
            best < j,
            forall|m: int| 0 <= m < j ==> changed@[m] <= changed@[best as int],
            forall|m: int| 0 <= m < best ==> changed@[m] < changed@[best as int],
        decreases changed.len() - j,
    {
        if changed[j] > changed[best] {
            best = j;
        }
        j += 1;
    }
    Some(best)
}

} // verus!
