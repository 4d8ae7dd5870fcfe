use slisic::ffmpeg_release::{
    archive_kind, ensure_ffmpeg, ffmpeg_check_exists, ffmpeg_check_update, ffmpeg_download_url,
    ffmpeg_fetch_sum, ffmpeg_select_asset, ffmpeg_version, unique_flac_path, ArchiveKind,
    FF_DL_BASE, FLAC_ATTEMPTS,
};

const ABC: &str = "ba7816bf8f01cfea414140de5dae2223b00361a396177a9cb410ff61f20015ad";

#[test]
fn builds_by_platform() {
    let members = |os: &str, arch: &str| ffmpeg_select_asset(os, arch).map(|s| (s.asset_name, s.direct_url, s.install_name));
    let release = |a: &str, i: &str| Some((Some(a.to_string()), None, i.to_string()));
    for arch in ["x86_64", "x86", "aarch64"] {
        assert_eq!(members("windows", arch), release("ffmpeg-master-latest-win64-gpl.zip", "ffmpeg.exe"));
    }
    assert_eq!(members("linux", "x86_64"), release("ffmpeg-master-latest-linux64-gpl.tar.xz", "ffmpeg"));
    assert_eq!(members("linux", "aarch64"), release("ffmpeg-master-latest-linuxarm64-gpl.tar.xz", "ffmpeg"));
    assert_eq!(members("linux", "arm"), release("ffmpeg-master-latest-linuxarmhf-gpl.tar.xz", "ffmpeg"));
    assert_eq!(members("linux", "armv7"), release("ffmpeg-master-latest-linuxarmhf-gpl.tar.xz", "ffmpeg"));
    assert_eq!(
        members("macos", "aarch64"),
        Some((None, Some("https://ffmpeg.martin-riedl.de/redirect/latest/macos/arm64/snapshot/ffmpeg.zip".to_string()), "ffmpeg".to_string()))
    );
    assert_eq!(members("macos", "x86_64"), Some((None, Some("https://evermeet.cx/ffmpeg/get/zip".to_string()), "ffmpeg".to_string())));
    assert_eq!(members("linux", "riscv64"), None);
    assert_eq!(members("windows", "arm"), None);
    assert_eq!(members("freebsd", "x86_64"), None);
    assert_eq!(ensure_ffmpeg(true), "ffmpeg.exe");
    assert_eq!(ensure_ffmpeg(false), "ffmpeg");
}

#[test]
fn build_addresses() {
    let linux = ffmpeg_select_asset("linux", "x86_64").unwrap();
    assert_eq!(ffmpeg_download_url(&linux), Some(format!("{}/ffmpeg-master-latest-linux64-gpl.tar.xz", FF_DL_BASE)));
    let mac = ffmpeg_select_asset("macos", "x86_64").unwrap();
    assert_eq!(ffmpeg_download_url(&mac).as_deref(), Some("https://evermeet.cx/ffmpeg/get/zip"));
}

#[test]
fn check_answers_by_platform() {
    let c = ffmpeg_check_update("linux", "x86_64", None, Some("tag".to_string()));
    assert!(c.needs_install);
    assert_eq!(c.latest_tag.as_deref(), Some("tag"));
    assert_eq!(c.asset_name.as_deref(), Some("ffmpeg-master-latest-linux64-gpl.tar.xz"));
    assert!(c.download_url.unwrap().ends_with("/ffmpeg-master-latest-linux64-gpl.tar.xz"));
    assert!(c.note.is_none());
    let c = ffmpeg_check_update("linux", "x86_64", Some("/bin/ffmpeg".to_string()), None);
    assert!(!c.needs_install);
    assert_eq!(c.installed_path.as_deref(), Some("/bin/ffmpeg"));
    let c = ffmpeg_check_update("macos", "aarch64", None, Some("tag".to_string()));
    assert!(c.needs_install && c.latest_tag.is_none() && c.asset_name.is_none() && c.download_url.is_none());
    assert_eq!(c.note.as_deref(), Some("建议使用 Homebrew 安装: brew install ffmpeg"));
    let c = ffmpeg_check_update("macos", "aarch64", Some("/p".to_string()), None);
    assert!(!c.needs_install);
    let c = ffmpeg_check_update("plan9", "x86_64", Some("/p".to_string()), Some("tag".to_string()));
    assert!(c.needs_install && c.installed_path.is_none() && c.latest_tag.is_none());
    assert_eq!(c.note.as_deref(), Some("当前平台未内置 FFmpeg 构建，请改用系统包管理器或自备二进制"));
}

#[test]
fn archives_by_name() {
    assert_eq!(archive_kind("ffmpeg.zip"), ArchiveKind::Zip);
    assert_eq!(archive_kind("a.tar.xz"), ArchiveKind::TarXz);
    assert_eq!(archive_kind("a.txz"), ArchiveKind::TarXz);
    assert_eq!(archive_kind("a.tar.gz"), ArchiveKind::Unknown);
    assert_eq!(archive_kind("zip"), ArchiveKind::Unknown);
    assert_eq!(archive_kind(""), ArchiveKind::Unknown);
    assert_eq!(archive_kind("a.zip.tmp"), ArchiveKind::Unknown);
}

#[test]
fn flac_names_until_one_is_free() {
    assert_eq!(unique_flac_path("song", 0), "song.flac");
    assert_eq!(unique_flac_path("song", 1), "song (1).flac");
    assert_eq!(unique_flac_path("song", 999), "song (999).flac");
    assert_eq!(FLAC_ATTEMPTS, 999);
}

#[test]
fn version_is_the_third_word_of_the_first_line() {
    assert_eq!(ffmpeg_check_exists("ffmpeg version n7.1-184-gdc07f98934 Copyright (c) 2000-2025\nbuilt with gcc\n"), "n7.1-184-gdc07f98934");
    assert_eq!(ffmpeg_check_exists("  ffmpeg\tversion \u{a0} 6.0  \n"), "6.0");
    assert_eq!(ffmpeg_check_exists("ffmpeg version\nthird words here\n"), "unknown");
    assert_eq!(ffmpeg_check_exists(""), "unknown");
    assert_eq!(ffmpeg_check_exists("\nffmpeg version 1\n"), "unknown");
}

#[test]
fn version_shows_three_lines() {
    assert_eq!(ffmpeg_version("a\nb\nc\nd\n"), "a\nb\nc");
    assert_eq!(ffmpeg_version("a\r\nb\r\nc\r\nd"), "a\nb\nc");
    assert_eq!(ffmpeg_version("a\nb"), "a\nb");
    assert_eq!(ffmpeg_version("a"), "a");
    assert_eq!(ffmpeg_version(""), "");
    assert_eq!(ffmpeg_version("\n\n\n\n"), "\n\n");
}

#[test]
fn sums_in_both_forms() {
    let plain = format!("{}  other.zip\n{}  ffmpeg-master-latest-win64-gpl.zip\n", "00".repeat(32), ABC.to_uppercase());
    assert_eq!(ffmpeg_fetch_sum(&plain, "ffmpeg-master-latest-win64-gpl.zip").as_deref(), Some(ABC));
    assert_eq!(ffmpeg_fetch_sum(&plain, "other.zip"), Some("00".repeat(32)));
    assert_eq!(ffmpeg_fetch_sum(&plain, "missing.zip"), None);
    let tagged = format!("SHA256 ( asset.tar.xz ) = {}\n", ABC);
    assert_eq!(ffmpeg_fetch_sum(&tagged, "asset.tar.xz").as_deref(), Some(ABC));
    assert_eq!(ffmpeg_fetch_sum(&tagged, "other"), None);
    let tight = format!("SHA256 (asset.tar.xz) = {}\n", ABC);
    assert_eq!(ffmpeg_fetch_sum(&tight, "asset.tar.xz"), None);
    let single_blank = format!("{} asset\n", ABC);
    assert_eq!(ffmpeg_fetch_sum(&single_blank, "asset"), None);
    let short = format!("{}  asset\n", &ABC[..60]);
    assert_eq!(ffmpeg_fetch_sum(&short, "asset"), None);
    assert_eq!(ffmpeg_fetch_sum("", "asset"), None);
}
