//! Builds of the transcoder: which asset fits a platform, the check sum
//! of an asset, and what an installed transcoder says of its version.

use vstd::prelude::*;
use crate::journal::opt_text;
use crate::release::{all_hex, FfCheck};
use crate::text::{
    char_is_hex_digit, char_is_space, chars_of, contains_text, ends_with, find_from, has_suffix,
    holds, is_hex_digit, is_space, joined, lines, lines_of, lower, lowered, matches_at, occurs_at,
    same_text, slice_of, text_of, trim, trimmed,
};

verus! {

/// Where the transcoder's latest release is described.
pub const FF_API_LATEST: &'static str =
    "https://api.github.com/repos/BtbN/FFmpeg-Builds/releases/latest";

/// Where the transcoder's assets are fetched from.
pub const FF_DL_BASE: &'static str =
    "https://xget.r2g2.org/gh/BtbN/FFmpeg-Builds/releases/latest/download";

/// Where the check sums of the transcoder's assets are fetched from.
pub const FF_SUMS: &'static str =
    "https://xget.r2g2.org/gh/BtbN/FFmpeg-Builds/releases/latest/download/sha256sums.sha256";

/// The transcoder's build for a platform: an asset of the release, or a
/// full address, and the name it is installed under.
#[derive(Debug)]
pub struct FfAssetSpec {
    pub asset_name: Option<String>,
    pub direct_url: Option<String>,
    pub install_name: String,
}

/// The build for a platform, by the text of its three members; `None`
/// for a platform without a build.
pub open spec fn ff_asset_for(os: Seq<char>, arch: Seq<char>) -> Option<
    (Option<Seq<char>>, Option<Seq<char>>, Seq<char>),
> {
    if os == "windows"@ && (arch == "x86_64"@ || arch == "x86"@ || arch == "aarch64"@) {
        Some((Some("ffmpeg-master-latest-win64-gpl.zip"@), None, "ffmpeg.exe"@))
    } else if os == "linux"@ && arch == "x86_64"@ {
        Some((Some("ffmpeg-master-latest-linux64-gpl.tar.xz"@), None, "ffmpeg"@))
    } else if os == "linux"@ && arch == "aarch64"@ {
        Some((Some("ffmpeg-master-latest-linuxarm64-gpl.tar.xz"@), None, "ffmpeg"@))
    } else if os == "linux"@ && (arch == "arm"@ || arch == "armv7"@) {
        Some((Some("ffmpeg-master-latest-linuxarmhf-gpl.tar.xz"@), None, "ffmpeg"@))
    } else if os == "macos"@ && arch == "aarch64"@ {
        Some(
            (
                None,
                Some(
                    "https://ffmpeg.martin-riedl.de/redirect/latest/macos/arm64/snapshot/ffmpeg.zip"@,
                ),
                "ffmpeg"@,
            ),
        )
    } else if os == "macos"@ && arch == "x86_64"@ {
        Some((None, Some("https://evermeet.cx/ffmpeg/get/zip"@), "ffmpeg"@))
    } else {
        None
    }
}

/// The name of the build's asset in the release, where it has one.
pub open spec fn ff_asset_name(os: Seq<char>, arch: Seq<char>) -> Option<Seq<char>> {
    match ff_asset_for(os, arch) {
        Some(members) => members.0,
        None => None,
    }
}

/// The members of a build, by their text.
pub open spec fn ff_members(s: FfAssetSpec) -> (Option<Seq<char>>, Option<Seq<char>>, Seq<char>) {
    (opt_text(s.asset_name), opt_text(s.direct_url), s.install_name@)
}

fn from_release(asset_name: &str, install_name: &str) -> (s: FfAssetSpec)
    ensures
        ff_members(s) == (Some(asset_name@), None::<Seq<char>>, install_name@),
{
    FfAssetSpec {
        asset_name: Some(asset_name.to_owned()),
        direct_url: None,
        install_name: install_name.to_owned(),
    }
}

fn from_address(url: &str) -> (s: FfAssetSpec)
    ensures
        ff_members(s) == (None::<Seq<char>>, Some(url@), "ffmpeg"@),
{
    FfAssetSpec {
        asset_name: None,
        direct_url: Some(url.to_owned()),
        install_name: "ffmpeg".to_owned(),
    }
}

/// The transcoder's build for a platform.
pub fn ffmpeg_select_asset(os: &str, arch: &str) -> (r: Option<FfAssetSpec>)
    ensures
        match r {
            Some(s) => ff_asset_for(os@, arch@) == Some(ff_members(s)),
            None => ff_asset_for(os@, arch@) is None,
        },
{
    if same_text(os, "windows") && (same_text(arch, "x86_64") || same_text(arch, "x86")
        || same_text(arch, "aarch64")) {
        Some(from_release("ffmpeg-master-latest-win64-gpl.zip", "ffmpeg.exe"))
    } else if same_text(os, "linux") && same_text(arch, "x86_64") {
        Some(from_release("ffmpeg-master-latest-linux64-gpl.tar.xz", "ffmpeg"))
    } else if same_text(os, "linux") && same_text(arch, "aarch64") {
        Some(from_release("ffmpeg-master-latest-linuxarm64-gpl.tar.xz", "ffmpeg"))
    } else if same_text(os, "linux") && (same_text(arch, "arm") || same_text(arch, "armv7")) {
        Some(from_release("ffmpeg-master-latest-linuxarmhf-gpl.tar.xz", "ffmpeg"))
    } else if same_text(os, "macos") && same_text(arch, "aarch64") {
        Some(
            from_address(
                "https://ffmpeg.martin-riedl.de/redirect/latest/macos/arm64/snapshot/ffmpeg.zip",
            ),
        )
    } else if same_text(os, "macos") && same_text(arch, "x86_64") {
        Some(from_address("https://evermeet.cx/ffmpeg/get/zip"))
    } else {
        None
    }
}

/// The name under which the transcoder is installed.
pub fn ensure_ffmpeg(windows: bool) -> (name: &'static str)
    ensures
        name@ == if windows {
            "ffmpeg.exe"@
        } else {
            "ffmpeg"@
        },
{
    if windows {
        "ffmpeg.exe"
    } else {
        "ffmpeg"
    }
}

/// The address of a build: its own where it has one, else that of its
/// asset below the base.
pub open spec fn ff_address(s: FfAssetSpec) -> Option<Seq<char>> {
    match s.direct_url {
        Some(u) => Some(u@),
        None => match s.asset_name {
            Some(n) => Some(FF_DL_BASE@ + "/"@ + n@),
            None => None,
        },
    }
}

/// The address to download a build from.
pub fn ffmpeg_download_url(s: &FfAssetSpec) -> (url: Option<String>)
    ensures
        opt_text(url) == ff_address(*s),
{
    match &s.direct_url {
        Some(u) => Some(u.clone()),
        None => match &s.asset_name {
            Some(n) => Some(crate::release::download_url(FF_DL_BASE, n.as_str())),
            None => None,
        },
    }
}

/// The address of the build for a platform.
pub open spec fn ff_url_for(os: Seq<char>, arch: Seq<char>) -> Option<Seq<char>> {
    match ff_asset_for(os, arch) {
        Some(members) => match members.1 {
            Some(u) => Some(u),
            None => match members.0 {
                Some(n) => Some(FF_DL_BASE@ + "/"@ + n),
                None => None,
            },
        },
        None => None,
    }
}

/// What the user is told on macOS.
pub open spec fn brew_note() -> Seq<char> {
    "建议使用 Homebrew 安装: brew install ffmpeg"@
}

/// What the user is told on a platform without a build.
pub open spec fn no_build_note() -> Seq<char> {
    "当前平台未内置 FFmpeg 构建，请改用系统包管理器或自备二进制"@
}

/// What a check for the transcoder answers, by its text. On macOS the
/// user is sent to the package manager; on a platform without a build the
/// user is told so and nothing counts as installed; elsewhere the build's
/// asset and address are named. The transcoder needs installing where it
/// is not there.
pub open spec fn ff_check_of(
    os: Seq<char>,
    arch: Seq<char>,
    installed_path: Option<String>,
    latest_tag: Option<String>,
    c: FfCheck,
) -> bool {
    if os == "macos"@ {
        &&& c.installed_path == installed_path
        &&& c.needs_install == (installed_path is None)
        &&& c.latest_tag is None
        &&& c.asset_name is None
        &&& c.download_url is None
        &&& opt_text(c.note) == Some(brew_note())
    } else if ff_asset_for(os, arch) is None {
        &&& c.installed_path is None
        &&& c.needs_install
        &&& c.latest_tag is None
        &&& c.asset_name is None
        &&& c.download_url is None
        &&& opt_text(c.note) == Some(no_build_note())
    } else {
        &&& c.installed_path == installed_path
        &&& c.needs_install == (installed_path is None)
        &&& c.latest_tag == latest_tag
        &&& opt_text(c.asset_name) == ff_asset_name(os, arch)
        &&& opt_text(c.download_url) == ff_url_for(os, arch)
        &&& c.note is None
    }
}

/// The answer of a check for the transcoder, given what is installed and
/// the tag of the latest release.
pub fn ffmpeg_check_update(
    os: &str,
    arch: &str,
    installed_path: Option<String>,
    latest_tag: Option<String>,
) -> (c: FfCheck)
    ensures
        ff_check_of(os@, arch@, installed_path, latest_tag, c),
{
    if same_text(os, "macos") {
        let needs_install = installed_path.is_none();
        return FfCheck {
            installed_path,
            latest_tag: None,
            needs_install,
            asset_name: None,
            download_url: None,
            note: Some("建议使用 Homebrew 安装: brew install ffmpeg".to_owned()),
        };
    }
    match ffmpeg_select_asset(os, arch) {
        None => FfCheck {
            installed_path: None,
            latest_tag: None,
            needs_install: true,
            asset_name: None,
            download_url: None,
            note: Some("当前平台未内置 FFmpeg 构建，请改用系统包管理器或自备二进制".to_owned()),
        },
        Some(spec) => {
            let needs_install = installed_path.is_none();
            let download_url = ffmpeg_download_url(&spec);
            FfCheck {
                installed_path,
                latest_tag,
                needs_install,
                asset_name: spec.asset_name,
                download_url,
                note: None,
            }
        },
    }
}

/// How an archive is unpacked, by its name.
#[derive(Debug, Clone, Copy, PartialEq, Eq, Structural)]
pub enum ArchiveKind {
    Zip,
    TarXz,
    Unknown,
}

/// The kind of an archive: `.zip` is a zip, `.tar.xz` and `.txz` are
/// compressed tar files.
pub fn archive_kind(name: &str) -> (k: ArchiveKind)
    ensures
        k == if ends_with(name@, ".zip"@) {
            ArchiveKind::Zip
        } else if ends_with(name@, ".tar.xz"@) || ends_with(name@, ".txz"@) {
            ArchiveKind::TarXz
        } else {
            ArchiveKind::Unknown
        },
{
    let n = chars_of(name);
    if has_suffix(&n, &chars_of(".zip")) {
        ArchiveKind::Zip
    } else if has_suffix(&n, &chars_of(".tar.xz")) || has_suffix(&n, &chars_of(".txz")) {
        ArchiveKind::TarXz
    } else {
        ArchiveKind::Unknown
    }
}

/// The name of the FLAC file for `stem` at the given attempt: first the
/// stem with `.flac`, then the stem with the attempt's number in brackets.
pub open spec fn flac_name_of(stem: Seq<char>, attempt: nat) -> Seq<char> {
    if attempt == 0 {
        stem + ".flac"@
    } else {
        stem + " ("@ + crate::text::decimal_text(attempt) + ").flac"@
    }
}

/// The largest attempt for which a numbered name is tried.
pub const FLAC_ATTEMPTS: u64 = 999;

/// The name to try for a FLAC file beside its source, until one is free.
pub fn unique_flac_path(stem: &str, attempt: u64) -> (name: String)
    ensures
        name@ == flac_name_of(stem@, attempt as nat),
{
    if attempt == 0 {
        joined(stem, ".flac")
    } else {
        let mut name = joined(stem, " (");
        crate::text::push_decimal(attempt, &mut name);
        name.append(").flac");
        name
    }
}

/// The `n`-th word of `s` (counted from 0), words being set apart by
/// white space; `None` where there are fewer words.
pub open spec fn word_at(s: Seq<char>, n: nat) -> Option<Seq<char>>
    decreases s.len(),
{
    let lead = crate::text::lead_count(s, crate::text::space_pred()) as int;
    let rest = s.skip(lead);
    let len = crate::text::lead_count(rest, crate::release::ink_pred()) as int;
    if len == 0 {
        None
    } else if n == 0 {
        Some(rest.take(len))
    } else {
        proof {
            crate::text::lemma_lead_count(s, crate::text::space_pred());
            crate::text::lemma_lead_count(rest, crate::release::ink_pred());
        }
        word_at(rest.skip(len), (n - 1) as nat)
    }
}

fn nth_word(v: &Vec<char>, n: usize) -> (r: Option<Vec<char>>)
    ensures
        match r {
            Some(w) => word_at(v@, n as nat) == Some(w@),
            None => word_at(v@, n as nat) is None,
        },
{
    let mut pos: usize = 0;
    let mut left: usize = n;
    assert(v@.skip(0) =~= v@);
    loop
        invariant
            pos <= v.len(),
            word_at(v@, n as nat) == word_at(v@.skip(pos as int), left as nat),
        decreases v.len() - pos,
    {
        let ghost s = v@.skip(pos as int);
        let mut a: usize = pos;
        while a < v.len() && char_is_space(v[a])
            invariant
                pos <= a <= v.len(),
                s == v@.skip(pos as int),
                forall|j: int| 0 <= j < a - pos ==> is_space(#[trigger] s[j]),
            decreases v.len() - a,
        {
            a += 1;
        }
        proof {
            crate::text::lemma_lead_count_is(s, crate::text::space_pred(), a - pos);
        }
        let ghost rest = s.skip(a - pos);
        assert(rest =~= v@.skip(a as int));
        let mut b: usize = a;
        while b < v.len() && !char_is_space(v[b])
            invariant
                a <= b <= v.len(),
                rest == v@.skip(a as int),
                forall|j: int| 0 <= j < b - a ==> !is_space(#[trigger] rest[j]),
            decreases v.len() - b,
        {
            b += 1;
        }
        proof {
            crate::text::lemma_lead_count_is(rest, crate::release::ink_pred(), b - a);
        }
        if b == a {
            return None;
        }
        if left == 0 {
            let w = slice_of(v, a, b);
            assert(w@ =~= rest.take(b - a));
            return Some(w);
        }
        assert(rest.skip(b - a) =~= v@.skip(b as int));
        left -= 1;
        pos = b;
    }
}

/// The version that the transcoder's `-version` output names: the third
/// word of its first line, `unknown` where there is none.
pub open spec fn version_of(stdout: Seq<char>) -> Seq<char> {
    if lines_of(stdout).len() == 0 {
        "unknown"@
    } else {
        match word_at(lines_of(stdout)[0], 2) {
            Some(w) => w,
            None => "unknown"@,
        }
    }
}

/// The version of an installed transcoder, from what it prints.
pub fn ffmpeg_check_exists(stdout: &str) -> (version: String)
    ensures
        version@ == version_of(stdout@),
{
    let all = lines(&chars_of(stdout));
    if all.len() == 0 {
        return "unknown".to_owned();
    }
    match nth_word(&all[0], 2) {
        Some(w) => text_of(&w),
        None => "unknown".to_owned(),
    }
}

/// The first `n` lines of a text, joined by line feeds.
pub open spec fn head_lines(all: Seq<Seq<char>>, n: int) -> Seq<char>
    decreases n,
{
    if n <= 0 || all.len() == 0 {
        Seq::empty()
    } else if n == 1 || all.len() == 1 {
        all[0]
    } else {
        all[0] + seq!['\n'] + head_lines(all.skip(1), n - 1)
    }
}

/// What `ffmpeg_version` shows: the first three lines of the `-version`
/// output.
pub fn ffmpeg_version(stdout: &str) -> (shown: String)
    ensures
        shown@ == head_lines(lines_of(stdout@), 3),
{
    let all = lines(&chars_of(stdout));
    let ghost spec_all = lines_of(stdout@);
    let mut out: Vec<char> = Vec::new();
    let n = if all.len() < 3 {
        all.len()
    } else {
        3
    };
    if n == 0 {
        return String::new();
    }
    let mut k: usize = 0;
    while k < all[0].len()
        invariant
            all@.len() > 0,
            k <= all@[0]@.len(),
            out@ == all@[0]@.take(k as int),
        decreases all[0].len() - k,
    {
        out.push(all[0][k]);
        k += 1;
        assert(out@ =~= all@[0]@.take(k as int));
    }
    assert(all@[0]@.take(all@[0]@.len() as int) =~= all@[0]@);
    if n >= 2 {
        out.push('\n');
        let mut k: usize = 0;
        while k < all[1].len()
            invariant
                all@.len() > 1,
                k <= all@[1]@.len(),
                out@ == all@[0]@ + seq!['\n'] + all@[1]@.take(k as int),
            decreases all[1].len() - k,
        {
            out.push(all[1][k]);
            k += 1;
            assert(out@ =~= all@[0]@ + seq!['\n'] + all@[1]@.take(k as int));
        }
        assert(all@[1]@.take(all@[1]@.len() as int) =~= all@[1]@);
    }
    if n >= 3 {
        out.push('\n');
        let mut k: usize = 0;
        while k < all[2].len()
            invariant
                all@.len() > 2,
                k <= all@[2]@.len(),
                out@ == all@[0]@ + seq!['\n'] + all@[1]@ + seq!['\n'] + all@[2]@.take(k as int),
            decreases all[2].len() - k,
        {
            out.push(all[2][k]);
            k += 1;
            assert(out@ =~= all@[0]@ + seq!['\n'] + all@[1]@ + seq!['\n'] + all@[2]@.take(
                k as int,
            ));
        }
        assert(all@[2]@.take(all@[2]@.len() as int) =~= all@[2]@);
    }
    proof {
        assert(spec_all[0] == all@[0]@);
        if spec_all.len() >= 2 {
            assert(spec_all.skip(1)[0] == all@[1]@);
            if spec_all.len() >= 3 {
                assert(spec_all.skip(1).skip(1)[0] == all@[2]@);
                assert(head_lines(spec_all.skip(1).skip(1), 1) == all@[2]@);
                assert(head_lines(spec_all.skip(1), 2) == all@[1]@ + seq!['\n'] + all@[2]@);
                assert(out@ =~= head_lines(spec_all, 3));
            } else {
                assert(head_lines(spec_all.skip(1), 2) == all@[1]@);
                assert(out@ =~= head_lines(spec_all, 3));
            }
        }
    }
    text_of(&out)
}

/// Whether `i` is the last position where `needle` stands in `hay`.
pub open spec fn last_at(hay: Seq<char>, needle: Seq<char>, i: int) -> bool {
    occurs_at(hay, needle, i) && forall|j: int| i < j ==> !occurs_at(hay, needle, j)
}

/// The last position where `needle` stands in `hay`.
pub open spec fn last_index(hay: Seq<char>, needle: Seq<char>) -> Option<int> {
    if exists|i: int| last_at(hay, needle, i) {
        Some(choose|i: int| last_at(hay, needle, i))
    } else {
        None
    }
}

fn find_last(hay: &Vec<char>, needle: &Vec<char>) -> (r: Option<usize>)
    ensures
        match r {
            Some(i) => last_index(hay@, needle@) == Some(i as int),
            None => last_index(hay@, needle@) is None && !holds(hay@, needle@),
        },
{
    if needle.len() > hay.len() {
        assert forall|i: int| !occurs_at(hay@, needle@, i) by {}
        assert(!exists|i: int| last_at(hay@, needle@, i));
        return None;
    }
    let mut i: usize = hay.len() - needle.len();
    loop
        invariant
            i + needle.len() <= hay.len(),
            forall|j: int| i < j ==> !occurs_at(hay@, needle@, j),
        decreases i,
    {
        if matches_at(hay, needle, i) {
            proof {
                assert(last_at(hay@, needle@, i as int));
                let c = choose|c: int| last_at(hay@, needle@, c);
                if c < i {
                    assert(!occurs_at(hay@, needle@, i as int));
                }
                if i < c {
                    assert(!occurs_at(hay@, needle@, c));
                }
            }
            return Some(i);
        }
        if i == 0 {
            proof {
                assert forall|j: int| !occurs_at(hay@, needle@, j) by {}
                if exists|c: int| last_at(hay@, needle@, c) {
                    let c = choose|c: int| last_at(hay@, needle@, c);
                    assert(occurs_at(hay@, needle@, c));
                }
            }
            return None;
        }
        i -= 1;
    }
}

/// `t` without the copies of `pat` that it begins with.
pub open spec fn strip_prefixes(t: Seq<char>, pat: Seq<char>) -> Seq<char>
    decreases t.len(),
{
    if pat.len() > 0 && occurs_at(t, pat, 0) {
        strip_prefixes(t.skip(pat.len() as int), pat)
    } else {
        t
    }
}

/// Whether `h` is a SHA-256 in hexadecimal.
pub open spec fn is_sum(h: Seq<char>) -> bool {
    h.len() == 64 && all_hex(h)
}

/// The sum that a line of the form `<sum>  <file>` gives for an asset:
/// the file must end with the asset's name.
pub open spec fn plain_sum(s: Seq<char>, asset: Seq<char>) -> Option<Seq<char>> {
    match crate::ffmpeg::first_index(s, "  "@, 0) {
        Some(i) => if ends_with(s.skip(i + 2), asset) && is_sum(s.take(i)) {
            Some(lowered(s.take(i)))
        } else {
            None
        },
        None => None,
    }
}

/// The sum that a line of the form `SHA256 ( <file> ) = <sum>` gives for
/// an asset: what stands before the last ` = ` must hold the asset's name.
pub open spec fn tagged_sum(s: Seq<char>, asset: Seq<char>) -> Option<Seq<char>> {
    if holds(s, "( "@) && holds(s, " ) = "@) {
        match last_index(s, " = "@) {
            Some(pos) => {
                let h = trimmed(strip_prefixes(s.skip(pos), " = "@));
                if holds(s.take(pos), asset) && is_sum(h) {
                    Some(lowered(h))
                } else {
                    None
                }
            },
            None => None,
        }
    } else {
        None
    }
}

/// The sum that one line gives for an asset, in either form.
pub open spec fn ff_sum_of_line(line: Seq<char>, asset: Seq<char>) -> Option<Seq<char>> {
    let s = trimmed(line);
    if s.len() == 0 {
        None
    } else {
        match plain_sum(s, asset) {
            Some(h) => Some(h),
            None => tagged_sum(s, asset),
        }
    }
}

/// The sum of the first line at or after `from` that gives one.
pub open spec fn first_ff_sum(all: Seq<Seq<char>>, asset: Seq<char>, from: int) -> Option<
    Seq<char>,
>
    decreases all.len() - from,
{
    if from < 0 || from >= all.len() {
        None
    } else {
        match ff_sum_of_line(all[from], asset) {
            Some(h) => Some(h),
            None => first_ff_sum(all, asset, from + 1),
        }
    }
}

fn check_sum(h: &Vec<char>) -> (ok: bool)
    ensures
        ok == is_sum(h@),
{
    if h.len() != 64 {
        return false;
    }
    let mut i: usize = 0;
    while i < h.len()
        invariant
            i <= h.len(),
            forall|j: int| 0 <= j < i ==> is_hex_digit(#[trigger] h@[j]),
        decreases h.len() - i,
    {
        if !char_is_hex_digit(h[i]) {
            return false;
        }
        i += 1;
    }
    true
}

fn plain(s: &Vec<char>, asset: &Vec<char>) -> (r: Option<Vec<char>>)
    ensures
        match r {
            Some(h) => plain_sum(s@, asset@) == Some(h@),
            None => plain_sum(s@, asset@) is None,
        },
{
    let gap = chars_of("  ");
    match find_from(s, &gap, 0) {
        None => {
            proof {
                crate::ffmpeg::lemma_no_first_index(s@, gap@, 0);
            }
            None
        },
        Some(i) => {
            proof {
                crate::ffmpeg::lemma_first_index(s@, gap@, 0, i as int);
                assert(occurs_at(s@, gap@, i as int));
                reveal_strlit("  ");
                assert(gap@.len() == 2);
            }
            assert(i + 2 <= s.len());
            let h = slice_of(s, 0, i);
            let f = slice_of(s, i + 2, s.len());
            assert(h@ =~= s@.take(i as int));
            assert(f@ =~= s@.skip(i + 2));
            if has_suffix(&f, asset) && check_sum(&h) {
                Some(lower(&h))
            } else {
                None
            }
        },
    }
}

fn without_prefixes(t: &Vec<char>, pat: &Vec<char>) -> (r: Vec<char>)
    ensures
        r@ == strip_prefixes(t@, pat@),
{
    if pat.len() == 0 {
        return slice_of(t, 0, t.len());
    }
    let mut pos: usize = 0;
    assert(t@.skip(0) =~= t@);
    while pos <= t.len() && t.len() - pos >= pat.len() && matches_at(t, pat, pos)
        invariant
            pos <= t.len(),
            pat@.len() > 0,
            strip_prefixes(t@, pat@) == strip_prefixes(t@.skip(pos as int), pat@),
        decreases t.len() - pos,
    {
        proof {
            let rest = t@.skip(pos as int);
            assert(rest.subrange(0, pat@.len() as int) =~= t@.subrange(
                pos as int,
                pos + pat@.len(),
            ));
            assert(rest.skip(pat@.len() as int) =~= t@.skip(pos + pat@.len()));
        }
        pos = pos + pat.len();
    }
    proof {
        let rest = t@.skip(pos as int);
        if rest.len() >= pat@.len() {
            assert(rest.subrange(0, pat@.len() as int) =~= t@.subrange(
                pos as int,
                pos + pat@.len(),
            ));
        }
        assert(rest =~= t@.subrange(pos as int, t@.len() as int));
    }
    slice_of(t, pos, t.len())
}

fn tagged(s: &Vec<char>, asset: &Vec<char>) -> (r: Option<Vec<char>>)
    ensures
        match r {
            Some(h) => tagged_sum(s@, asset@) == Some(h@),
            None => tagged_sum(s@, asset@) is None,
        },
{
    if !(contains_text(s, &chars_of("( ")) && contains_text(s, &chars_of(" ) = "))) {
        return None;
    }
    let eq = chars_of(" = ");
    match find_last(s, &eq) {
        None => None,
        Some(pos) => {
            let left = slice_of(s, 0, pos);
            let right = slice_of(s, pos, s.len());
            assert(left@ =~= s@.take(pos as int));
            assert(right@ =~= s@.skip(pos as int));
            let h = trim(&without_prefixes(&right, &eq));
            if contains_text(&left, asset) && check_sum(&h) {
                Some(lower(&h))
            } else {
                None
            }
        },
    }
}

/// The SHA-256 that the sums file of the transcoder's builds gives for an
/// asset: the sum of the first line that gives one, in lower case.
pub fn ffmpeg_fetch_sum(sums: &str, asset: &str) -> (r: Option<String>)
    ensures
        opt_text(r) == first_ff_sum(lines_of(sums@), asset@, 0),
{
    let want = chars_of(asset);
    let all = lines(&chars_of(sums));
    let ghost spec_lines = lines_of(sums@);
    let mut i: usize = 0;
    while i < all.len()
        invariant
            i <= all.len(),
            want@ == asset@,
            spec_lines == lines_of(sums@),
            all@.len() == spec_lines.len(),
            forall|j: int| 0 <= j < all@.len() ==> (#[trigger] all@[j])@ == spec_lines[j],
            first_ff_sum(spec_lines, asset@, 0) == first_ff_sum(spec_lines, asset@, i as int),
        decreases all.len() - i,
    {
        let s = trim(&all[i]);
        if s.len() > 0 {
            match plain(&s, &want) {
                Some(h) => {
                    return Some(text_of(&h));
                },
                None => {},
            }
            match tagged(&s, &want) {
                Some(h) => {
                    return Some(text_of(&h));
                },
                None => {},
            }
        }
        i += 1;
    }
    None
}

} // verus!
