use slisic::release::{
    download_url, needs_update, newer, parse_sha256, select_asset, sha256_hex, sum_matches,
    verify_sha256, GH_API_LATEST, GH_DL_BASE, GH_SUMS,
};

const EMPTY: &str = "e3b0c44298fc1c149afbf4c8996fb92427ae41e4649b934ca495991b7852b855";
const ABC: &str = "ba7816bf8f01cfea414140de5dae2223b00361a396177a9cb410ff61f20015ad";

#[test]
fn sha256_in_lower_case_hexadecimal() {
    assert_eq!(sha256_hex(b""), EMPTY);
    assert_eq!(sha256_hex(b"abc"), ABC);
    assert_eq!(sha256_hex(&[0u8, 255, 16]).len(), 64);
}

#[test]
fn downloads_are_checked_against_their_sum() {
    assert_eq!(verify_sha256(b"abc", ABC), Ok(()));
    assert_eq!(verify_sha256(b"abc", &ABC.to_uppercase()), Ok(()));
    let err = verify_sha256(b"abc", EMPTY).unwrap_err();
    assert_eq!(err, format!("sha256 mismatch: expected {}, got {}", EMPTY, ABC));
    assert!(verify_sha256(b"abc", "").is_err());
    assert!(sum_matches("ab", "AB"));
    assert!(!sum_matches("AB", "ab"));
    assert!(!sum_matches("ab", "abc"));
}

#[test]
fn sums_file_gives_the_sum_of_the_asset() {
    let sums = format!("{}  yt-dlp\n{}  yt-dlp.exe\r\n\n{} *yt-dlp_linux\n", EMPTY, ABC.to_uppercase(), ABC);
    assert_eq!(parse_sha256(&sums, "yt-dlp.exe").as_deref(), Some(ABC));
    assert_eq!(parse_sha256(&sums, "yt-dlp").as_deref(), Some(EMPTY));
    assert_eq!(parse_sha256(&sums, "yt-dlp_linux").as_deref(), Some(ABC));
    assert_eq!(parse_sha256(&sums, "yt-dlp_macos"), None);
    assert_eq!(parse_sha256("", "x"), None);
}

#[test]
fn malformed_sum_lines_are_passed_over() {
    let short = format!("{}  asset\n", &ABC[..63]);
    assert_eq!(parse_sha256(&short, "asset"), None);
    let not_hex = format!("{}g  asset\n", &ABC[..63]);
    assert_eq!(parse_sha256(&not_hex, "asset"), None);
    assert_eq!(parse_sha256(ABC, ABC), None);
    let second = format!("zz  asset\n   {}\tasset  \n", ABC);
    assert_eq!(parse_sha256(&second, "asset").as_deref(), Some(ABC));
    let tail = format!("{}  other-asset\n", ABC);
    assert_eq!(parse_sha256(&tail, "asset").as_deref(), Some(ABC));
}

#[test]
fn versions_compare_by_their_numbers() {
    assert!(newer("2025.01.15", "2024.12.31"));
    assert!(!newer("2024.12.31", "2025.01.15"));
    assert!(!newer("2025.01.15", "2025.01.15"));
    assert!(newer("v1.2.3", "1.2.2"));
    assert!(newer("1.10.0", "1.9.0"));
    assert!(newer("0.0.10", "0.0.9"));
    assert!(!newer("1.0.0", "0.99.100"));
    assert!(newer("1.0.1", "1.0.-1"));
    assert!(newer("+2.0.0", "1.0.0"));
    assert!(newer("2147483647.0.0", "2147483646.99.99"));
}

#[test]
fn other_versions_compare_as_strings() {
    assert!(newer("b", "a"));
    assert!(!newer("a", "b"));
    assert!(newer("1.2", "1.10"));
    assert!(newer("1.2.3.4", "1.2.3"));
    assert!(!newer("", ""));
    assert!(newer("a", ""));
    assert!(newer("2025.01.15", "nightly") == ("2025.01.15" > "nightly"));
    assert!(newer("1.2.x", "1.2.3"));
    assert!(newer("2147483648.0.0", "1.0.0") == ("2147483648.0.0" > "1.0.0"));
    assert!(newer("é", "z"));
}

#[test]
fn update_is_due_when_nothing_is_installed_or_latest_is_newer() {
    let s = |t: &str| Some(t.to_string());
    assert!(needs_update(&None, &None));
    assert!(needs_update(&None, &s("1.0.0")));
    assert!(!needs_update(&s("1.0.0"), &None));
    assert!(needs_update(&s("1.0.0"), &s("1.0.1")));
    assert!(!needs_update(&s("1.0.1"), &s("1.0.1")));
}

#[test]
fn assets_by_platform() {
    let names = |os: &str, arch: &str| {
        let a = select_asset(os, arch);
        (a.asset_name, a.install_name)
    };
    let pair = |a: &str, b: &str| (a.to_string(), b.to_string());
    assert_eq!(names("windows", "x86"), pair("yt-dlp_x86.exe", "yt-dlp.exe"));
    assert_eq!(names("windows", "x86_64"), pair("yt-dlp.exe", "yt-dlp.exe"));
    assert_eq!(names("windows", "aarch64"), pair("yt-dlp.exe", "yt-dlp.exe"));
    assert_eq!(names("macos", "aarch64"), pair("yt-dlp_macos", "yt-dlp"));
    assert_eq!(names("linux", "x86_64"), pair("yt-dlp_linux", "yt-dlp"));
    assert_eq!(names("linux", "aarch64"), pair("yt-dlp_linux_aarch64", "yt-dlp"));
    assert_eq!(names("linux", "arm"), pair("yt-dlp_linux_armv7l", "yt-dlp"));
    assert_eq!(names("linux", "armv7"), pair("yt-dlp_linux_armv7l", "yt-dlp"));
    assert_eq!(names("linux", "riscv64"), pair("yt-dlp", "yt-dlp"));
    assert_eq!(names("freebsd", "x86_64"), pair("yt-dlp", "yt-dlp"));
}

#[test]
fn addresses() {
    assert_eq!(download_url(GH_DL_BASE, "yt-dlp_linux"), "https://xget.grahlnn.com/gh/yt-dlp/yt-dlp/releases/latest/download/yt-dlp_linux");
    assert!(GH_SUMS.ends_with("/SHA2-256SUMS"));
    assert!(GH_API_LATEST.starts_with("https://api.github.com/"));
}

#[test]
fn hexadecimal_text_is_that_of_the_hex_crate() {
    let all: Vec<u8> = (0..=255u8).collect();
    for bytes in [&[][..], &[0u8][..], &[0x0f, 0xf0, 0xab][..], &all[..]] {
        assert_eq!(slisic::release::hex_encode(bytes), hex::encode(bytes));
    }
    assert_eq!(slisic::release::hex_encode(&[0, 255, 16]), "00ff10");
}
