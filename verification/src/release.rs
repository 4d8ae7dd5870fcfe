//! Releases of the external tools: which asset fits a platform, whether
//! a version is newer, and the check sums of downloads.

use vstd::prelude::*;
use crate::ids::{hex_char, hex_digit};
use crate::numbers::{int_of, parse_i32};
use crate::text::{
    char_is_hex_digit, char_is_space, chars_of, ends_with, has_suffix, is_hex_digit, is_space,
    joined, lead_count, lemma_lead_count_is, lines, lines_of, lower, lowered, other_than, push_one,
    same_text, strip_lead, strip_tail, lemma_tail_count_is, text_of, trim, trimmed, char_pred,
};

verus! {

/// Where the downloader's latest release is described.
pub const GH_API_LATEST: &'static str =
    "https://api.github.com/repos/yt-dlp/yt-dlp/releases/latest";

/// Where the downloader's assets are fetched from.
pub const GH_DL_BASE: &'static str =
    "https://xget.grahlnn.com/gh/yt-dlp/yt-dlp/releases/latest/download";

/// Where the check sums of the downloader's assets are fetched from.
pub const GH_SUMS: &'static str =
    "https://xget.grahlnn.com/gh/yt-dlp/yt-dlp/releases/latest/download/SHA2-256SUMS";

/// The downloader's asset for a platform: the name of the file to fetch
/// and the name it is installed under.
#[derive(Debug)]
pub struct AssetSpec {
    pub asset_name: String,
    pub install_name: String,
}

/// An installed tool.
#[derive(Debug)]
pub struct InstallResult {
    pub installed_path: String,
    pub installed_version: String,
}

/// What a check for a newer downloader found.
#[derive(Debug)]
pub struct CheckResult {
    pub installed_path: Option<String>,
    pub installed_version: Option<String>,
    pub latest_version: Option<String>,
    pub needs_update: bool,
    pub asset_name: String,
    pub download_url: String,
}

/// What a check for the transcoder found.
#[derive(Debug)]
pub struct FfCheck {
    pub installed_path: Option<String>,
    pub latest_tag: Option<String>,
    pub needs_install: bool,
    pub asset_name: Option<String>,
    pub download_url: Option<String>,
    pub note: Option<String>,
}

/// The downloader was upgraded to this version.
#[derive(Debug)]
pub struct YtdlpVersionChanged {
    pub str: String,
}

/// The names of the downloader's asset for an operating system and an
/// architecture, as the build names them: the file to fetch, then the name
/// to install it under.
pub open spec fn asset_for(os: Seq<char>, arch: Seq<char>) -> (Seq<char>, Seq<char>) {
    if os == "windows"@ {
        if arch == "x86"@ {
            ("yt-dlp_x86.exe"@, "yt-dlp.exe"@)
        } else {
            ("yt-dlp.exe"@, "yt-dlp.exe"@)
        }
    } else if os == "macos"@ {
        ("yt-dlp_macos"@, "yt-dlp"@)
    } else if os == "linux"@ && arch == "x86_64"@ {
        ("yt-dlp_linux"@, "yt-dlp"@)
    } else if os == "linux"@ && arch == "aarch64"@ {
        ("yt-dlp_linux_aarch64"@, "yt-dlp"@)
    } else if os == "linux"@ && (arch == "arm"@ || arch == "armv7"@) {
        ("yt-dlp_linux_armv7l"@, "yt-dlp"@)
    } else {
        ("yt-dlp"@, "yt-dlp"@)
    }
}

fn asset(asset_name: &str, install_name: &str) -> (a: AssetSpec)
    ensures
        a.asset_name@ == asset_name@,
        a.install_name@ == install_name@,
{
    AssetSpec { asset_name: asset_name.to_owned(), install_name: install_name.to_owned() }
}

/// The downloader's asset for a platform. A platform without a build of
/// its own gets the script.
pub fn select_asset(os: &str, arch: &str) -> (a: AssetSpec)
    ensures
        (a.asset_name@, a.install_name@) == asset_for(os@, arch@),
{
    if same_text(os, "windows") {
        if same_text(arch, "x86") {
            asset("yt-dlp_x86.exe", "yt-dlp.exe")
        } else {
            asset("yt-dlp.exe", "yt-dlp.exe")
        }
    } else if same_text(os, "macos") {
        asset("yt-dlp_macos", "yt-dlp")
    } else if same_text(os, "linux") && same_text(arch, "x86_64") {
        asset("yt-dlp_linux", "yt-dlp")
    } else if same_text(os, "linux") && same_text(arch, "aarch64") {
        asset("yt-dlp_linux_aarch64", "yt-dlp")
    } else if same_text(os, "linux") && (same_text(arch, "arm") || same_text(arch, "armv7")) {
        asset("yt-dlp_linux_armv7l", "yt-dlp")
    } else {
        asset("yt-dlp", "yt-dlp")
    }
}

/// The address of an asset: the base, a slash, the asset's name.
pub fn download_url(base: &str, asset_name: &str) -> (url: String)
    ensures
        url@ == base@ + "/"@ + asset_name@,
{
    let mut url = joined(base, "/");
    url.append(asset_name);
    url
}

/// Whether an update is due: always where nothing is installed, never
/// where the latest version is unknown, else where the latest is newer.
pub open spec fn update_due(installed: Option<Seq<char>>, latest: Option<Seq<char>>) -> bool {
    match (installed, latest) {
        (None, _) => true,
        (Some(_), None) => false,
        (Some(cur), Some(lat)) => is_newer(lat, cur),
    }
}

/// Whether an update of the downloader is due.
pub fn needs_update(installed: &Option<String>, latest: &Option<String>) -> (due: bool)
    ensures
        due == update_due(
            crate::journal::opt_text(*installed),
            crate::journal::opt_text(*latest),
        ),
{
    match installed {
        None => true,
        Some(cur) => match latest {
            None => false,
            Some(lat) => newer(lat.as_str(), cur.as_str()),
        },
    }
}

/// `a` comes after `b` in the order of strings: at the first place where
/// they differ `a` has the larger character, or `b` ends first.
pub open spec fn text_after(a: Seq<char>, b: Seq<char>) -> bool
    decreases a.len(),
{
    if a.len() == 0 {
        false
    } else if b.len() == 0 {
        true
    } else if a[0] != b[0] {
        (a[0] as u32) > (b[0] as u32)
    } else {
        text_after(a.skip(1), b.skip(1))
    }
}

fn comes_after(a: &Vec<char>, b: &Vec<char>) -> (r: bool)
    ensures
        r == text_after(a@, b@),
{
    let mut i: usize = 0;
    assert(a@.skip(0) =~= a@ && b@.skip(0) =~= b@);
    while i < a.len() && i < b.len()
        invariant
            i <= a.len(),
            i <= b.len(),
            text_after(a@, b@) == text_after(a@.skip(i as int), b@.skip(i as int)),
        decreases a.len() - i,
    {
        if a[i] != b[i] {
            return a[i] as u32 > b[i] as u32;
        }
        assert(a@.skip(i as int).skip(1) =~= a@.skip(i + 1));
        assert(b@.skip(i as int).skip(1) =~= b@.skip(i + 1));
        i += 1;
    }
    i < a.len()
}

/// The number that a version of three dotted parts stands for: with the
/// letters `v` at both ends dropped, `a.b.c` stands for `a * 10000 + b *
/// 100 + c`. Each part must read as an `i32`. A text of another shape
/// stands for no number.
pub open spec fn version_number(v: Seq<char>) -> Option<int> {
    let t = strip_tail(strip_lead(v, char_pred('v')), char_pred('v'));
    let i = lead_count(t, other_than('.')) as int;
    if i >= t.len() {
        None
    } else {
        let rest = t.skip(i + 1);
        let j = lead_count(rest, other_than('.')) as int;
        if j >= rest.len() {
            None
        } else {
            let last = rest.skip(j + 1);
            if lead_count(last, other_than('.')) < last.len() {
                None
            } else {
                match (int_of(t.take(i)), int_of(rest.take(j)), int_of(last)) {
                    (Some(a), Some(b), Some(c)) => Some(a * 10000 + b * 100 + c),
                    _ => None,
                }
            }
        }
    }
}

/// Whether `latest` is a newer version than `current`: by their numbers
/// where both stand for one, else by the order of strings.
pub open spec fn is_newer(latest: Seq<char>, current: Seq<char>) -> bool {
    match (version_number(latest), version_number(current)) {
        (Some(a), Some(b)) => a > b,
        _ => text_after(latest, current),
    }
}

fn next_dot(v: &Vec<char>, from: usize, to: usize) -> (r: usize)
    requires
        from <= to <= v.len(),
    ensures
        from <= r <= to,
        r - from == lead_count(v@.subrange(from as int, to as int), other_than('.')),
{
    let ghost s = v@.subrange(from as int, to as int);
    let mut i: usize = from;
    while i < to && v[i] != '.'
        invariant
            from <= i <= to <= v.len(),
            s == v@.subrange(from as int, to as int),
            forall|j: int| 0 <= j < i - from ==> #[trigger] s[j] != '.',
        decreases to - i,
    {
        i += 1;
    }
    proof {
        lemma_lead_count_is(s, other_than('.'), i - from);
    }
    i
}

fn to_num(v: &Vec<char>) -> (r: Option<i64>)
    ensures
        match r {
            Some(n) => version_number(v@) == Some(n as int),
            None => version_number(v@) is None,
        },
{
    let mut a: usize = 0;
    while a < v.len() && v[a] == 'v'
        invariant
            a <= v.len(),
            forall|j: int| 0 <= j < a ==> #[trigger] v@[j] == 'v',
        decreases v.len() - a,
    {
        a += 1;
    }
    proof {
        lemma_lead_count_is(v@, char_pred('v'), a as int);
    }
    let ghost mid = v@.skip(a as int);
    let mut b: usize = v.len();
    while b > a && v[b - 1] == 'v'
        invariant
            a <= b <= v.len(),
            mid == v@.skip(a as int),
            forall|j: int| b - a <= j < mid.len() ==> #[trigger] mid[j] == 'v',
        decreases b,
    {
        b -= 1;
    }
    let ghost t = v@.subrange(a as int, b as int);
    proof {
        lemma_tail_count_is(mid, char_pred('v'), v.len() - b);
        assert(strip_tail(strip_lead(v@, char_pred('v')), char_pred('v')) =~= t);
    }
    let i = next_dot(v, a, b);
    if i >= b {
        return None;
    }
    let ghost rest = t.skip(i - a + 1);
    assert(rest =~= v@.subrange(i + 1, b as int));
    let j = next_dot(v, i + 1, b);
    if j >= b {
        return None;
    }
    let ghost last = rest.skip(j - (i + 1) + 1);
    assert(last =~= v@.subrange(j + 1, b as int));
    let k = next_dot(v, j + 1, b);
    if k < b {
        return None;
    }
    assert(t.take(i - a) =~= v@.subrange(a as int, i as int));
    assert(rest.take(j - (i + 1)) =~= v@.subrange(i + 1, j as int));
    let x = parse_i32(v, a, i);
    let y = parse_i32(v, i + 1, j);
    let z = parse_i32(v, j + 1, b);
    match (x, y, z) {
        (Some(x), Some(y), Some(z)) => Some((x as i64) * 10000 + (y as i64) * 100 + (z as i64)),
        _ => None,
    }
}

/// Whether `latest` is a newer version than `current`.
pub fn newer(latest: &str, current: &str) -> (r: bool)
    ensures
        r == is_newer(latest@, current@),
{
    let l = chars_of(latest);
    let c = chars_of(current);
    match (to_num(&l), to_num(&c)) {
        (Some(a), Some(b)) => a > b,
        _ => comes_after(&l, &c),
    }
}

/// Whether every character of `s` is a hexadecimal digit.
pub open spec fn all_hex(s: Seq<char>) -> bool {
    forall|i: int| 0 <= i < s.len() ==> is_hex_digit(#[trigger] s[i])
}

/// The test "is no white space", as a value.
pub open spec fn ink_pred() -> spec_fn(char) -> bool {
    |c: char| !is_space(c)
}

/// The check sum that one line of a sums file gives for an asset. The
/// line, trimmed, must end with the asset's name and hold white space; what
/// stands before the first white space must be 64 hexadecimal digits. The
/// sum is given in lower case.
pub open spec fn sum_of_line(line: Seq<char>, asset: Seq<char>) -> Option<Seq<char>> {
    let t = trimmed(line);
    let k = lead_count(t, ink_pred()) as int;
    if t.len() > 0 && ends_with(t, asset) && k < t.len() && k == 64 && all_hex(t.take(k)) {
        Some(lowered(t.take(k)))
    } else {
        None
    }
}

/// The sum of the first line at or after `from` that gives one.
pub open spec fn first_sum(all: Seq<Seq<char>>, asset: Seq<char>, from: int) -> Option<Seq<char>>
    decreases all.len() - from,
{
    if from < 0 || from >= all.len() {
        None
    } else {
        match sum_of_line(all[from], asset) {
            Some(h) => Some(h),
            None => first_sum(all, asset, from + 1),
        }
    }
}

fn line_sum(line: &Vec<char>, asset: &Vec<char>) -> (r: Option<Vec<char>>)
    ensures
        match r {
            Some(h) => sum_of_line(line@, asset@) == Some(h@),
            None => sum_of_line(line@, asset@) is None,
        },
{
    let t = trim(line);
    if t.len() == 0 || !has_suffix(&t, asset) {
        return None;
    }
    let mut k: usize = 0;
    while k < t.len() && !char_is_space(t[k])
        invariant
            k <= t.len(),
            forall|j: int| 0 <= j < k ==> !is_space(#[trigger] t@[j]),
        decreases t.len() - k,
    {
        k += 1;
    }
    proof {
        lemma_lead_count_is(t@, ink_pred(), k as int);
    }
    if k >= t.len() || k != 64 {
        return None;
    }
    let mut i: usize = 0;
    while i < k
        invariant
            i <= k <= t.len(),
            t@ == trimmed(line@),
            k == lead_count(t@, ink_pred()),
            forall|j: int| 0 <= j < i ==> is_hex_digit(#[trigger] t@.take(k as int)[j]),
        decreases k - i,
    {
        if !char_is_hex_digit(t[i]) {
            assert(t@.take(k as int)[i as int] == t@[i as int]);
            assert(!all_hex(t@.take(k as int)));
            return None;
        }
        i += 1;
    }
    let head = crate::text::slice_of(&t, 0, k);
    assert(head@ =~= t@.take(k as int));
    Some(lower(&head))
}

/// The SHA-256 that a sums file gives for an asset: the sum of the first
/// line that gives one.
pub fn parse_sha256(sums: &str, asset: &str) -> (r: Option<String>)
    ensures
        crate::journal::opt_text(r) == first_sum(lines_of(sums@), asset@, 0),
{
    let text = chars_of(sums);
    let want = chars_of(asset);
    let all = lines(&text);
    let ghost spec_lines = lines_of(sums@);
    let mut i: usize = 0;
    while i < all.len()
        invariant
            i <= all.len(),
            want@ == asset@,
            spec_lines == lines_of(sums@),
            all@.len() == spec_lines.len(),
            forall|j: int| 0 <= j < all@.len() ==> (#[trigger] all@[j])@ == spec_lines[j],
            first_sum(spec_lines, asset@, 0) == first_sum(spec_lines, asset@, i as int),
        decreases all.len() - i,
    {
        match line_sum(&all[i], &want) {
            Some(h) => {
                return Some(text_of(&h));
            },
            None => {},
        }
        i += 1;
    }
    None
}

/// The 32 bytes that SHA-256 gives for `data`.
pub uninterp spec fn sha256_of(data: Seq<u8>) -> Seq<u8>;

/// Calls `Digest::digest` of `sha2::Sha256`: the SHA-256 of `data`, which
/// is 32 bytes long.
#[verifier::external_body]
pub(crate) fn sha256(data: &[u8]) -> (out: Vec<u8>)
    ensures
        out@ == sha256_of(data@),
        out@.len() == 32,
{
    <sha2::Sha256 as sha2::Digest>::digest(data).to_vec()
}

/// Bytes in hexadecimal: two lower-case digits per byte, the high half
/// first.
pub open spec fn hex_text(bytes: Seq<u8>) -> Seq<char> {
    Seq::new(
        2 * bytes.len(),
        |i: int|
            if i % 2 == 0 {
                hex_digit(bytes[i / 2] as int / 16)
            } else {
                hex_digit(bytes[i / 2] as int % 16)
            },
    )
}

/// Bytes in hexadecimal: two lower-case digits per byte, the high half
/// first.
pub fn hex_encode(bytes: &[u8]) -> (s: String)
    ensures
        s@ == hex_text(bytes@),
{
    let mut s = String::new();
    let mut i: usize = 0;
    while i < bytes.len()
        invariant
            i <= bytes.len(),
            s@.len() == 2 * i,
            forall|k: int| 0 <= k < 2 * i ==> s@[k] == hex_text(bytes@)[k],
        decreases bytes.len() - i,
    {
        let b = bytes[i];
        push_one(&mut s, hex_char(b / 16));
        push_one(&mut s, hex_char(b % 16));
        i += 1;
    }
    assert(s@ =~= hex_text(bytes@));
    s
}

/// The SHA-256 of `data` in hexadecimal.
pub fn sha256_hex(data: &[u8]) -> (s: String)
    ensures
        s@ == hex_text(sha256_of(data@)),
        s@.len() == 64,
{
    let digest = sha256(data);
    hex_encode(digest.as_slice())
}

/// Whether a check sum in hexadecimal, as computed, is the expected one.
/// The expected sum may be written in either case.
pub fn sum_matches(got: &str, expected: &str) -> (ok: bool)
    ensures
        ok == (got@ == lowered(expected@)),
{
    let e = lower(&chars_of(expected));
    let g = chars_of(got);
    let s = text_of(&e);
    same_text(got, s.as_str())
}

/// Checks a download against its expected SHA-256. A download with
/// another sum is refused, with both sums in the message.
pub fn verify_sha256(data: &[u8], expected: &str) -> (r: Result<(), String>)
    ensures
        r is Ok <==> hex_text(sha256_of(data@)) == lowered(expected@),
        r matches Err(msg) ==> msg@ == "sha256 mismatch: expected "@ + expected@ + ", got "@
            + hex_text(sha256_of(data@)),
{
    let got = sha256_hex(data);
    if sum_matches(got.as_str(), expected) {
        Ok(())
    } else {
        let mut msg = joined("sha256 mismatch: expected ", expected);
        msg.append(", got ");
        msg.append(got.as_str());
        Err(msg)
    }
}

} // verus!
