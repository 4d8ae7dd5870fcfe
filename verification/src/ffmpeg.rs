//! The transcoder: how it is called, and what is read out of what it
//! prints.

use vstd::prelude::*;
use crate::errors::ErrorKind;
use crate::journal::opt_text;
use crate::numbers::{all_digits, digits_value, read_digits};
use crate::pipeline::texts;
use crate::probe::Chapter;
use crate::sanitize::{sanitize_segment, sanitized};
use crate::text::{
    absent_from, chars_of, decimal_text, digit_char, find_from, first_at, is_digit, joined,
    lead_count, lemma_lead_count_is, lowered, lower, matches_at, occurs_at, push_decimal,
    same_text, text_of, text_of_range,
};

verus! {

/// The line of the loudness summary that gives the integrated loudness.
pub const LUFS_PATTERN: &'static str = "(?m)^\\s*I:\\s*(-?\\d+(?:\\.\\d+)?)\\s*LUFS\\s*$";

/// The line that reports a silence starting at time 0.
pub const SILENCE_START_PATTERN: &'static str =
    "(?m)^\\s*\\[(?:Parsed_)?silencedetect(?:_\\d+)?[^\\]]*\\]\\s*silence_start:\\s*0(?:\\.0+)?\\s*$";

/// The line that reports the end of a silence.
pub const SILENCE_END_PATTERN: &'static str =
    "(?m)^\\s*\\[(?:Parsed_)?silencedetect(?:_\\d+)?[^\\]]*\\]\\s*silence_end:\\s*([0-9]+(?:\\.[0-9]+)?)\\b";

/// What the first capture group holds in the first match of a regular
/// expression in a text; `None` where the expression does not match, the
/// group took no part, or the expression is no valid one.
pub uninterp spec fn regex_group(pattern: Seq<char>, text: Seq<char>) -> Option<Seq<char>>;

/// What follows the first match of a regular expression in a text; `None`
/// where the expression does not match or is no valid one.
pub uninterp spec fn regex_rest(pattern: Seq<char>, text: Seq<char>) -> Option<Seq<char>>;

/// Calls `regex::Regex::captures` on the expression that `Regex::new`
/// makes of `pattern`, and hands back the text of group 1 of the first
/// match.
#[verifier::external_body]
pub(crate) fn first_group(pattern: &str, text: &str) -> (r: Option<String>)
    ensures
        opt_text(r) == regex_group(pattern@, text@),
{
    match regex::Regex::new(pattern) {
        Ok(re) => match re.captures(text) {
            Some(caps) => match caps.get(1) {
                Some(m) => Some(m.as_str().to_owned()),
                None => None,
            },
            None => None,
        },
        Err(_) => None,
    }
}

/// Calls `regex::Regex::find` on the expression that `Regex::new` makes
/// of `pattern`, and hands back the text behind the end of the first match.
#[verifier::external_body]
pub(crate) fn after_match(pattern: &str, text: &str) -> (r: Option<String>)
    ensures
        opt_text(r) == regex_rest(pattern@, text@),
{
    match regex::Regex::new(pattern) {
        Ok(re) => match re.find(text) {
            Some(m) => Some(text[m.end()..].to_owned()),
            None => None,
        },
        Err(_) => None,
    }
}

/// The first position at or after `from` where `needle` stands in `hay`.
pub open spec fn first_index(hay: Seq<char>, needle: Seq<char>, from: int) -> Option<int> {
    if exists|i: int| first_at(hay, needle, from, i) {
        Some(choose|i: int| first_at(hay, needle, from, i))
    } else {
        None
    }
}

/// A first position found is the first position.
pub proof fn lemma_first_index(hay: Seq<char>, needle: Seq<char>, from: int, i: int)
    requires
        first_at(hay, needle, from, i),
    ensures
        first_index(hay, needle, from) == Some(i),
{
    let c = choose|c: int| first_at(hay, needle, from, c);
    if c < i {
        assert(!occurs_at(hay, needle, c));
    }
    if i < c {
        assert(!occurs_at(hay, needle, i));
    }
}

/// Where the needle is absent there is no first position.
pub proof fn lemma_no_first_index(hay: Seq<char>, needle: Seq<char>, from: int)
    requires
        absent_from(hay, needle, from),
    ensures
        first_index(hay, needle, from) is None,
{
    if exists|i: int| first_at(hay, needle, from, i) {
        let c = choose|c: int| first_at(hay, needle, from, c);
        assert(!occurs_at(hay, needle, c));
    }
}

/// The summary section of the transcoder's log: what stands between the
/// first `Summary:` and the next one (or the end); the whole log where it
/// has no such heading.
pub open spec fn summary_of(log: Seq<char>) -> Seq<char> {
    let head = "Summary:"@;
    match first_index(log, head, 0) {
        None => log,
        Some(i) => {
            let start = i + head.len();
            match first_index(log, head, start) {
                None => log.skip(start),
                Some(j) => log.subrange(start, j),
            }
        },
    }
}

/// The summary section of the transcoder's log.
pub fn summary(log: &str) -> (s: String)
    ensures
        s@ == summary_of(log@),
{
    let text = chars_of(log);
    let head = chars_of("Summary:");
    match find_from(&text, &head, 0) {
        None => {
            proof {
                lemma_no_first_index(text@, head@, 0);
            }
            text_of(&text)
        },
        Some(i) => {
            proof {
                lemma_first_index(text@, head@, 0, i as int);
                assert(occurs_at(text@, head@, i as int));
            }
            assert(i + head.len() <= text.len());
            let start = i + head.len();
            match find_from(&text, &head, start) {
                None => {
                    proof {
                        lemma_no_first_index(text@, head@, start as int);
                        assert(text@.skip(start as int) =~= text@.subrange(
                            start as int,
                            text@.len() as int,
                        ));
                    }
                    text_of_range(&text, start, text.len())
                },
                Some(j) => {
                    proof {
                        lemma_first_index(text@, head@, start as int, j as int);
                    }
                    text_of_range(&text, start, j)
                },
            }
        },
    }
}

/// The test "is a decimal digit", as a value.
pub open spec fn digit_pred() -> spec_fn(char) -> bool {
    |c: char| is_digit(c)
}

/// The thousandths that the digits behind a decimal point stand for: the
/// first three digits count, further ones are dropped.
pub open spec fn thousandths(frac: Seq<char>) -> int {
    if frac.len() >= 3 {
        digits_value(frac.take(3))
    } else if frac.len() == 2 {
        digits_value(frac) * 10
    } else if frac.len() == 1 {
        digits_value(frac) * 100
    } else {
        0
    }
}

/// The number, in thousandths, that a decimal text stands for: an
/// optional minus sign, at least one digit, and optionally a point with at
/// least one digit behind it. Digits behind the third decimal place are
/// dropped. A text of another shape, or a number whose thousandths no
/// `i32` holds, stands for nothing.
pub open spec fn milli_of(t: Seq<char>) -> Option<int> {
    let neg = t.len() > 0 && t[0] == '-';
    let body = if neg {
        t.skip(1)
    } else {
        t
    };
    let k = lead_count(body, digit_pred()) as int;
    if k == 0 {
        None
    } else {
        let whole = digits_value(body.take(k));
        let frac = body.skip(k + 1);
        if k < body.len() && !(body[k] == '.' && frac.len() > 0 && all_digits(frac)) {
            None
        } else {
            let size = whole * 1000 + if k < body.len() {
                thousandths(frac)
            } else {
                0
            };
            if size > 2147483647 {
                None
            } else if neg {
                Some(-size)
            } else {
                Some(size)
            }
        }
    }
}

fn only_digits(v: &Vec<char>, from: usize, to: usize) -> (b: bool)
    requires
        from <= to <= v.len(),
    ensures
        b == all_digits(v@.subrange(from as int, to as int)),
{
    let ghost s = v@.subrange(from as int, to as int);
    let mut i: usize = from;
    while i < to
        invariant
            from <= i <= to <= v.len(),
            s == v@.subrange(from as int, to as int),
            forall|j: int| 0 <= j < i - from ==> is_digit(#[trigger] s[j]),
        decreases to - i,
    {
        if !('0' <= v[i] && v[i] <= '9') {
            assert(!is_digit(s[i - from]));
            return false;
        }
        i += 1;
    }
    true
}

/// Reads the digits behind a decimal point, from `from` to the end.
fn read_thousandths(v: &Vec<char>, from: usize) -> (r: Option<u64>)
    requires
        from <= v.len(),
    ensures
        match r {
            Some(f) => {
                &&& v@.len() > from
                &&& all_digits(v@.subrange(from as int, v@.len() as int))
                &&& f == thousandths(v@.subrange(from as int, v@.len() as int))
                &&& f <= 999
            },
            None => !(v@.len() > from && all_digits(v@.subrange(from as int, v@.len() as int))),
        },
{
    let ghost frac = v@.subrange(from as int, v@.len() as int);
    if from >= v.len() || !only_digits(v, from, v.len()) {
        return None;
    }
    let n = v.len() - from;
    let stop = if n >= 3 {
        from + 3
    } else {
        v.len()
    };
    proof {
        let head = frac.take(stop - from);
        assert(v@.subrange(from as int, stop as int) =~= head);
        assert(all_digits(head)) by {
            assert forall|j: int| 0 <= j < head.len() implies is_digit(#[trigger] head[j]) by {
                assert(head[j] == frac[j]);
            }
        }
        lemma_short_digits(head);
        if n < 3 {
            assert(head =~= frac);
        }
    }
    match read_digits(v, from, stop, 999) {
        Some(d) => {
            if n >= 3 {
                Some(d)
            } else if n == 2 {
                Some(d * 10)
            } else {
                Some(d * 100)
            }
        },
        None => {
            // Up to three digits never exceed 999.
            assert(false);
            None
        },
    }
}

/// Reads a decimal text as a number of thousandths.
pub fn parse_milli(text: &str) -> (r: Option<i32>)
    ensures
        match r {
            Some(v) => milli_of(text@) == Some(v as int),
            None => milli_of(text@) is None,
        },
{
    let t = chars_of(text);
    let neg = t.len() > 0 && t[0] == '-';
    let start: usize = if neg {
        1
    } else {
        0
    };
    let ghost body = t@.skip(start as int);
    let mut e: usize = start;
    while e < t.len() && '0' <= t[e] && t[e] <= '9'
        invariant
            start <= e <= t.len(),
            body == t@.skip(start as int),
            forall|j: int| 0 <= j < e - start ==> is_digit(#[trigger] body[j]),
        decreases t.len() - e,
    {
        e += 1;
    }
    let ghost k = e - start;
    proof {
        lemma_lead_count_is(body, digit_pred(), k);
        assert(t@.skip(0) =~= t@);
        assert(body.take(k) =~= t@.subrange(start as int, e as int));
        assert(all_digits(body.take(k))) by {
            assert forall|j: int| 0 <= j < k implies is_digit(#[trigger] body.take(k)[j]) by {
                assert(body.take(k)[j] == body[j]);
            }
        }
        if e < t.len() {
            assert(body[k] == t@[e as int]);
            assert(body.skip(k + 1) =~= t@.subrange(e + 1, t@.len() as int));
        }
    }
    if e == start {
        return None;
    }
    let part: Option<u64> = if e < t.len() {
        if t[e] != '.' {
            return None;
        }
        match read_thousandths(&t, e + 1) {
            Some(f) => Some(f),
            None => {
                return None;
            },
        }
    } else {
        None
    };
    let whole = match read_digits(&t, start, e, 2147483) {
        Some(w) => w,
        None => {
            return None;
        },
    };
    let milli: u64 = whole * 1000 + match part {
        Some(f) => f,
        None => 0,
    };
    if milli > 2147483647 {
        return None;
    }
    if neg {
        Some(-(milli as i64) as i32)
    } else {
        Some(milli as i32)
    }
}

/// Up to three digits write a number below 1000.
pub proof fn lemma_short_digits(s: Seq<char>)
    requires
        all_digits(s),
        s.len() <= 3,
    ensures
        0 <= digits_value(s) <= 999,
        s.len() <= 2 ==> digits_value(s) <= 99,
        s.len() <= 1 ==> digits_value(s) <= 9,
    decreases s.len(),
{
    if s.len() > 0 {
        let r = s.drop_last();
        assert(all_digits(r)) by {
            assert forall|i: int| 0 <= i < r.len() implies is_digit(#[trigger] r[i]) by {
                assert(r[i] == s[i]);
            }
        }
        lemma_short_digits(r);
        assert(is_digit(s.last()));
    }
}

/// What a measurement comes to, given what the summary's loudness line
/// held: nothing measured where there is no such line, an unreadable
/// output where the line holds no number, else the loudness.
pub open spec fn loudness_result(capture: Option<Seq<char>>) -> Result<i32, ErrorKind> {
    match capture {
        None => Err(ErrorKind::MeasurementUnavailable),
        Some(t) => match milli_of(t) {
            Some(v) => Ok(v as i32),
            None => Err(ErrorKind::ToolchainUnparseable),
        },
    }
}

/// The loudness that the captured number stands for.
pub fn loudness_of_capture(capture: &Option<String>) -> (r: Result<i32, ErrorKind>)
    ensures
        r == loudness_result(opt_text(*capture)),
{
    match capture {
        None => Err(ErrorKind::MeasurementUnavailable),
        Some(t) => match parse_milli(t.as_str()) {
            Some(v) => Ok(v),
            None => Err(ErrorKind::ToolchainUnparseable),
        },
    }
}

/// The integrated loudness that the transcoder's log reports, in
/// thousandths of a dB: the number of the first line of the form
/// `I: <number> LUFS` in the summary section.
pub fn integrated_lufs(log: &str) -> (r: Result<i32, ErrorKind>)
    ensures
        r == loudness_result(regex_group(LUFS_PATTERN@, summary_of(log@))),
{
    let section = summary(log);
    let capture = first_group(LUFS_PATTERN, section.as_str());
    loudness_of_capture(&capture)
}

/// Where a leading silence ends, as the log of the silence detection
/// tells: the time of the first `silence_end` behind the line that reports
/// a silence starting at 0. `None` where no silence starts at 0.
pub open spec fn silence_cut(log: Seq<char>) -> Option<Seq<char>> {
    match regex_rest(SILENCE_START_PATTERN@, log) {
        Some(rest) => regex_group(SILENCE_END_PATTERN@, rest),
        None => None,
    }
}

/// The time, as the transcoder printed it, at which the leading silence
/// of a file ends.
pub fn leading_silence_end(log: &str) -> (cut: Option<String>)
    ensures
        opt_text(cut) == silence_cut(log@),
{
    match after_match(SILENCE_START_PATTERN, log) {
        Some(rest) => first_group(SILENCE_END_PATTERN, rest.as_str()),
        None => None,
    }
}

fn arg(list: &mut Vec<String>, a: &str)
    ensures
        texts(final(list)@) == texts(old(list)@).push(a@),
{
    list.push(a.to_owned());
    assert(texts(list@) =~= texts(old(list)@).push(a@));
}

/// The arguments of a loudness measurement: the EBU R128 filter over the
/// file, nothing written.
pub open spec fn loudness_args_of(path: Seq<char>) -> Seq<Seq<char>> {
    seq![
        "-hide_banner"@,
        "-nostats"@,
        "-i"@,
        path,
        "-filter:a"@,
        "ebur128=peak=true"@,
        "-f"@,
        "null"@,
        "-"@,
    ]
}

/// The arguments of a loudness measurement of the file at `path`.
pub fn loudness_args(path: &str) -> (args: Vec<String>)
    ensures
        texts(args@) == loudness_args_of(path@),
{
    let mut args: Vec<String> = Vec::new();
    assert(texts(args@) =~= Seq::<Seq<char>>::empty());
    arg(&mut args, "-hide_banner");
    arg(&mut args, "-nostats");
    arg(&mut args, "-i");
    arg(&mut args, path);
    arg(&mut args, "-filter:a");
    arg(&mut args, "ebur128=peak=true");
    arg(&mut args, "-f");
    arg(&mut args, "null");
    arg(&mut args, "-");
    assert(texts(args@) =~= loudness_args_of(path@));
    args
}

/// The arguments of a silence detection: noise floor -60 dB, at least
/// half a second, nothing written.
pub open spec fn silence_args_of(path: Seq<char>) -> Seq<Seq<char>> {
    seq![
        "-hide_banner"@,
        "-nostats"@,
        "-i"@,
        path,
        "-af"@,
        "silencedetect=noise=-60dB:d=0.5"@,
        "-f"@,
        "null"@,
        "-"@,
    ]
}

/// The arguments of a silence detection on the file at `path`.
pub fn silence_args(path: &str) -> (args: Vec<String>)
    ensures
        texts(args@) == silence_args_of(path@),
{
    let mut args: Vec<String> = Vec::new();
    assert(texts(args@) =~= Seq::<Seq<char>>::empty());
    arg(&mut args, "-hide_banner");
    arg(&mut args, "-nostats");
    arg(&mut args, "-i");
    arg(&mut args, path);
    arg(&mut args, "-af");
    arg(&mut args, "silencedetect=noise=-60dB:d=0.5");
    arg(&mut args, "-f");
    arg(&mut args, "null");
    arg(&mut args, "-");
    assert(texts(args@) =~= silence_args_of(path@));
    args
}

/// The name of the file that a trim writes before it replaces the
/// source: the stem, `.trim.tmp`, and the extension where there is one.
pub open spec fn trim_temp_name_of(stem: Seq<char>, ext: Seq<char>) -> Seq<char> {
    if ext.len() == 0 {
        stem + ".trim.tmp"@
    } else {
        stem + ".trim.tmp."@ + ext
    }
}

/// The name of the temporary file of a trim.
pub fn trim_temp_name(stem: &str, ext: &str) -> (name: String)
    ensures
        name@ == trim_temp_name_of(stem@, ext@),
{
    if ext.unicode_len() == 0 {
        joined(stem, ".trim.tmp")
    } else {
        let mut name = joined(stem, ".trim.tmp.");
        name.append(ext);
        name
    }
}

/// What the container asks for, by the file's extension in lower case:
/// `m4a` and `mp4` are made to start fast, `aac` is written as ADTS.
pub open spec fn container_args(ext: Seq<char>) -> Seq<Seq<char>> {
    let e = lowered(ext);
    if e == "m4a"@ || e == "mp4"@ {
        seq!["-movflags"@, "+faststart"@]
    } else if e == "aac"@ {
        seq!["-f"@, "adts"@]
    } else {
        Seq::empty()
    }
}

/// The arguments of a trim: the audio from `cut` on is copied, never
/// encoded anew, into `temp`.
pub open spec fn trim_args_of(
    path: Seq<char>,
    cut: Seq<char>,
    ext: Seq<char>,
    temp: Seq<char>,
) -> Seq<Seq<char>> {
    seq![
        "-hide_banner"@,
        "-nostats"@,
        "-y"@,
        "-ss"@,
        cut,
        "-i"@,
        path,
        "-c"@,
        "copy"@,
        "-map"@,
        "0:a"@,
    ] + container_args(ext) + seq![temp]
}

/// The transcoder call that trims the leading silence of a file, where
/// there is one. With no silence at the start nothing is called, so the
/// file stays as it is.
pub fn trim_leading_zero(path: &str, cut: &Option<String>, ext: &str, temp: &str) -> (args: Option<
    Vec<String>,
>)
    ensures
        match args {
            Some(a) => cut is Some && texts(a@) == trim_args_of(path@, cut->0@, ext@, temp@),
            None => cut is None,
        },
{
    match cut {
        None => None,
        Some(time) => {
            let mut args: Vec<String> = Vec::new();
            assert(texts(args@) =~= Seq::<Seq<char>>::empty());
            arg(&mut args, "-hide_banner");
            arg(&mut args, "-nostats");
            arg(&mut args, "-y");
            arg(&mut args, "-ss");
            arg(&mut args, time.as_str());
            arg(&mut args, "-i");
            arg(&mut args, path);
            arg(&mut args, "-c");
            arg(&mut args, "copy");
            arg(&mut args, "-map");
            arg(&mut args, "0:a");
            let e = text_of(&lower(&chars_of(ext)));
            if same_text(e.as_str(), "m4a") || same_text(e.as_str(), "mp4") {
                arg(&mut args, "-movflags");
                arg(&mut args, "+faststart");
            } else if same_text(e.as_str(), "aac") {
                arg(&mut args, "-f");
                arg(&mut args, "adts");
            }
            arg(&mut args, temp);
            assert(texts(args@) =~= trim_args_of(path@, time@, ext@, temp@));
            Some(args)
        },
    }
}

/// How chapters are encoded to FLAC.
#[derive(Debug, Clone, Copy)]
pub struct FlacOpts {
    pub compression_level: u8,
    pub copy_metadata: bool,
}

/// One transcoder call of a split: the name of the file it writes in the
/// chapter directory, and its arguments up to that file.
#[derive(Debug)]
pub struct SplitJob {
    pub file_name: String,
    pub args: Vec<String>,
}

/// Three decimal digits for a number below 1000.
pub open spec fn three_digits(n: int) -> Seq<char> {
    seq![digit_char(n / 100), digit_char((n / 10) % 10), digit_char(n % 10)]
}

/// A time in milliseconds as seconds with three decimal places.
pub open spec fn seconds_text(ms: int) -> Seq<char> {
    let size = if ms < 0 {
        -ms
    } else {
        ms
    };
    let sign = if ms < 0 {
        seq!['-']
    } else {
        Seq::<char>::empty()
    };
    sign + decimal_text((size / 1000) as nat) + seq!['.'] + three_digits(size % 1000)
}

fn digit(d: u64) -> (c: char)
    requires
        d < 10,
    ensures
        c == digit_char(d as int),
{
    if d == 0 {
        '0'
    } else if d == 1 {
        '1'
    } else if d == 2 {
        '2'
    } else if d == 3 {
        '3'
    } else if d == 4 {
        '4'
    } else if d == 5 {
        '5'
    } else if d == 6 {
        '6'
    } else if d == 7 {
        '7'
    } else if d == 8 {
        '8'
    } else {
        '9'
    }
}

/// A time in milliseconds as the transcoder takes it.
pub fn seconds(ms: i64) -> (s: String)
    ensures
        s@ == seconds_text(ms as int),
{
    let size: u64 = if ms < 0 {
        ((-(ms + 1)) as u64) + 1
    } else {
        ms as u64
    };
    let mut s = String::new();
    if ms < 0 {
        s.push('-');
    }
    let ghost sign = s@;
    push_decimal(size / 1000, &mut s);
    s.push('.');
    let r = size % 1000;
    s.push(digit(r / 100));
    s.push(digit((r / 10) % 10));
    s.push(digit(r % 10));
    assert(s@ =~= seconds_text(ms as int));
    s
}

/// The extension of a chapter file: `flac` where the chapters are
/// encoded, else the source's.
pub open spec fn chapter_ext(source_ext: Seq<char>, flac: Option<FlacOpts>) -> Seq<char> {
    if flac is Some {
        "flac"@
    } else {
        source_ext
    }
}

/// The name of a chapter file: the sanitised chapter title, a point, the
/// extension.
pub open spec fn chapter_file_name(c: Chapter, source_ext: Seq<char>, flac: Option<FlacOpts>)
    -> Seq<char> {
    sanitized(c.title@) + "."@ + chapter_ext(source_ext, flac)
}

/// Whether `name` is a name under which the split writes the chapter:
/// the sanitised chapter title, a point, and whatever extension.
pub open spec fn names_chapter(name: Seq<char>, c: Chapter) -> bool {
    occurs_at(name, sanitized(c.title@) + "."@, 0)
}

/// Whether one of the names is a name of the chapter's file.
pub open spec fn chapter_found(names: Seq<Seq<char>>, c: Chapter) -> bool {
    exists|j: int| 0 <= j < names.len() && names_chapter(#[trigger] names[j], c)
}

/// How many of the first `n` chapters have their file among the names.
pub open spec fn hits_among(names: Seq<Seq<char>>, chapters: Seq<Chapter>, n: int) -> int
    decreases n,
{
    if n <= 0 {
        0
    } else {
        hits_among(names, chapters, n - 1) + if chapter_found(names, chapters[n - 1]) {
            1int
        } else {
            0int
        }
    }
}

/// The file that the split writes for a chapter is counted as the
/// chapter's, whatever the extension of the source and whether or not it is
/// encoded anew.
pub proof fn lemma_written_name_is_counted(c: Chapter, source_ext: Seq<char>, flac: Option<FlacOpts>)
    ensures
        names_chapter(chapter_file_name(c, source_ext, flac), c),
{
    let head = sanitized(c.title@) + "."@;
    let name = chapter_file_name(c, source_ext, flac);
    assert(name.subrange(0, head.len() as int) =~= head);
}

/// Whether a file of that name is the chapter's.
pub fn is_chapter_file(name: &str, c: &Chapter) -> (b: bool)
    ensures
        b == names_chapter(name@, *c),
{
    let stem = sanitize_segment(c.title.as_str());
    let head = joined(stem.as_str(), ".");
    matches_at(&chars_of(name), &chars_of(head.as_str()), 0)
}

fn chapter_is_there(names: &Vec<String>, c: &Chapter) -> (b: bool)
    ensures
        b == chapter_found(texts(names@), *c),
{
    let mut j: usize = 0;
    while j < names.len()
        invariant
            j <= names.len(),
            forall|k: int| 0 <= k < j ==> !names_chapter(#[trigger] texts(names@)[k], *c),
        decreases names.len() - j,
    {
        if is_chapter_file(names[j].as_str(), c) {
            assert(names_chapter(texts(names@)[j as int], *c));
            return true;
        }
        j += 1;
    }
    false
}

/// How many of the chapters have their file among the files of the
/// chapter directory, given by name.
pub fn chapter_hits(names: &Vec<String>, chapters: &Vec<Chapter>) -> (hits: usize)
    ensures
        hits == hits_among(texts(names@), chapters@, chapters@.len() as int),
{
    let mut hits: usize = 0;
    let mut i: usize = 0;
    while i < chapters.len()
        invariant
            i <= chapters.len(),
            hits <= i,
            hits == hits_among(texts(names@), chapters@, i as int),
        decreases chapters.len() - i,
    {
        if chapter_is_there(names, &chapters[i]) {
            hits += 1;
        }
        i += 1;
    }
    hits
}

/// How the audio of a chapter is written: copied as it is, or encoded to
/// FLAC with or without the source's metadata.
pub open spec fn codec_args(flac: Option<FlacOpts>) -> Seq<Seq<char>> {
    match flac {
        Some(o) => seq![
            "-map_metadata"@,
            if o.copy_metadata {
                "0"@
            } else {
                "-1"@
            },
            "-c:a"@,
            "flac"@,
            "-compression_level"@,
            decimal_text(o.compression_level as nat),
        ],
        None => seq!["-c"@, "copy"@],
    }
}

/// The arguments that cut one chapter out of the source, up to the file
/// that is written.
pub open spec fn chapter_args(source: Seq<char>, c: Chapter, flac: Option<FlacOpts>) -> Seq<
    Seq<char>,
> {
    seq![
        "-y"@,
        "-nostdin"@,
        "-i"@,
        source,
        "-ss"@,
        seconds_text(c.start_ms as int),
        "-to"@,
        seconds_text(c.end_ms as int),
        "-map"@,
        "0:a:0?"@,
        "-vn"@,
    ] + codec_args(flac)
}

fn chapter_job(source: &str, source_ext: &str, c: &Chapter, flac: Option<FlacOpts>) -> (job:
    SplitJob)
    ensures
        job.file_name@ == chapter_file_name(*c, source_ext@, flac),
        texts(job.args@) == chapter_args(source@, *c, flac),
{
    let stem = sanitize_segment(c.title.as_str());
    let mut file_name = joined(stem.as_str(), ".");
    match flac {
        Some(_) => {
            file_name.append("flac");
        },
        None => {
            file_name.append(source_ext);
        },
    }
    let mut args: Vec<String> = Vec::new();
    assert(texts(args@) =~= Seq::<Seq<char>>::empty());
    arg(&mut args, "-y");
    arg(&mut args, "-nostdin");
    arg(&mut args, "-i");
    arg(&mut args, source);
    arg(&mut args, "-ss");
    let from = seconds(c.start_ms);
    arg(&mut args, from.as_str());
    arg(&mut args, "-to");
    let to = seconds(c.end_ms);
    arg(&mut args, to.as_str());
    arg(&mut args, "-map");
    arg(&mut args, "0:a:0?");
    arg(&mut args, "-vn");
    match flac {
        Some(o) => {
            arg(&mut args, "-map_metadata");
            if o.copy_metadata {
                arg(&mut args, "0");
            } else {
                arg(&mut args, "-1");
            }
            arg(&mut args, "-c:a");
            arg(&mut args, "flac");
            arg(&mut args, "-compression_level");
            let mut level = String::new();
            push_decimal(o.compression_level as u64, &mut level);
            assert(level@ =~= decimal_text(o.compression_level as nat));
            arg(&mut args, level.as_str());
        },
        None => {
            arg(&mut args, "-c");
            arg(&mut args, "copy");
        },
    }
    assert(texts(args@) =~= chapter_args(source@, *c, flac));
    SplitJob { file_name, args }
}

/// The transcoder calls that split a source by its chapters: one per
/// chapter, in the chapters' order, each writing a file named after the
/// sanitised chapter title. `source_ext` is the source's extension (`m4a`
/// where it has none).
pub fn split_audio_by_chapters(
    source: &str,
    source_ext: &str,
    chapters: &Vec<Chapter>,
    flac: Option<FlacOpts>,
) -> (jobs: Vec<SplitJob>)
    ensures
        jobs@.len() == chapters@.len(),
        forall|i: int|
            0 <= i < jobs@.len() ==> (#[trigger] jobs@[i]).file_name@ == chapter_file_name(
                chapters@[i],
                source_ext@,
                flac,
            ) && texts(jobs@[i].args@) == chapter_args(source@, chapters@[i], flac),
{
    let mut jobs: Vec<SplitJob> = Vec::new();
    let mut i: usize = 0;
    while i < chapters.len()
        invariant
            i <= chapters.len(),
            jobs@.len() == i,
            forall|j: int|
                0 <= j < i ==> (#[trigger] jobs@[j]).file_name@ == chapter_file_name(
                    chapters@[j],
                    source_ext@,
                    flac,
                ) && texts(jobs@[j].args@) == chapter_args(source@, chapters@[j], flac),
        decreases chapters.len() - i,
    {
        jobs.push(chapter_job(source, source_ext, &chapters[i], flac));
        i += 1;
    }
    jobs
}

/// The transcoder call that trims the leading silence of the file at
/// `path`, given where the silence ends. The file's stem and extension and
/// the path of the temporary file beside it are the platform's to tell.
/// With no silence at the start nothing is called.
pub fn trim_call(path: &str, cut: &Option<String>) -> (args: Option<Vec<String>>)
    ensures
        match args {
            Some(a) => cut is Some && exists|ext: Seq<char>, temp: Seq<char>| #[trigger]
                trim_args_of(path@, cut->0@, ext, temp) == texts(a@),
            None => cut is None,
        },
{
    let ext = match crate::files::path_extension(path) {
        Some(e) => e,
        None => String::new(),
    };
    let stem = match crate::files::path_file_stem(path) {
        Some(s) => s,
        None => "out".to_owned(),
    };
    let name = trim_temp_name(stem.as_str(), ext.as_str());
    let temp = crate::files::path_with_file_name(path, name.as_str());
    trim_leading_zero(path, cut, ext.as_str(), temp.as_str())
}

} // verus!
