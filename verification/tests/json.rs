use slisic::json::{flat_data, read_installed_version};
use slisic::pipeline::expand_children;
use slisic::probe::{extract_chapters, look_media, ProbeEntries};
use slisic::schedule::wait_for_next_run;

#[test]
fn probe_of_a_playlist_is_read() {
    let doc = flat_data(
        r#"{"_type":"playlist","title":"List","entries":[{"url":"u1","title":"C1"},{"url":"u2"},{"title":7,"url":null}],"other":{"title":"no"}}"#,
    )
    .unwrap();
    assert_eq!(doc.title.as_deref(), Some("List"));
    assert_eq!(doc.kind.as_deref(), Some("playlist"));
    assert!(doc.chapters.is_none());
    match &doc.entries {
        ProbeEntries::List(items) => {
            assert_eq!(items.len(), 3);
            assert_eq!((items[0].url.as_deref(), items[0].title.as_deref()), (Some("u1"), Some("C1")));
            assert_eq!((items[1].url.as_deref(), items[1].title.as_deref()), (Some("u2"), None));
            assert_eq!((items[2].url.as_deref(), items[2].title.as_deref()), (None, None));
        }
        other => panic!("unexpected {:?}", other),
    }
    assert!(doc.is_playlist());
    assert_eq!(look_media(&doc).unwrap().entries_count, Some(3));
    let kids = expand_children(&doc, "L");
    assert_eq!(kids[2].url, "");
}

#[test]
fn probe_of_a_video_with_chapters_is_read() {
    let doc = flat_data(
        r#"{"title":"Album","chapters":[{"title":"Intro","start_time":0.0,"end_time":61.5},{"title":"Two","start_time":61.5,"end_time":120},{"start_time":"x","end_time":1e-7}]}"#,
    )
    .unwrap();
    assert!(matches!(doc.entries, ProbeEntries::Absent));
    assert!(!doc.is_playlist());
    let raw = doc.chapters.as_ref().unwrap();
    assert_eq!((raw[0].start_ms, raw[0].end_ms), (Some(0), Some(61500)));
    assert_eq!((raw[1].start_ms, raw[1].end_ms), (Some(61500), Some(120000)));
    assert_eq!((raw[2].title.as_deref(), raw[2].start_ms, raw[2].end_ms), (None, None, None));
    let chapters = extract_chapters(&doc).unwrap();
    assert_eq!(chapters.len(), 3);
    assert_eq!((chapters[2].title.as_str(), chapters[2].start_ms, chapters[2].end_ms), ("", 0, 0));
}

#[test]
fn entries_that_are_no_list_still_make_a_playlist() {
    let doc = flat_data(r#"{"entries":null,"chapters":{}}"#).unwrap();
    assert!(matches!(doc.entries, ProbeEntries::NotAList));
    assert!(doc.chapters.is_none());
    assert!(doc.is_playlist());
    let doc = flat_data(r#"{"entries":[]}"#).unwrap();
    assert!(matches!(&doc.entries, ProbeEntries::List(items) if items.is_empty()));
    let doc = flat_data("[1,2]").unwrap();
    assert!(matches!(doc.entries, ProbeEntries::Absent));
    assert!(doc.title.is_none());
}

#[test]
fn what_is_no_json_is_no_probe() {
    assert!(flat_data("").is_none());
    assert!(flat_data("ERROR: not json").is_none());
    assert!(flat_data("{\"title\":").is_none());
}

#[test]
fn installed_version_is_the_version_member() {
    assert_eq!(read_installed_version("{\n  \"version\": \"2025.01.15\"\n}").as_deref(), Some("2025.01.15"));
    assert_eq!(read_installed_version(r#"{"version": 3}"#), None);
    assert_eq!(read_installed_version(r#"{"other": "x"}"#), None);
    assert_eq!(read_installed_version("nonsense"), None);
}

#[test]
fn next_run_is_within_a_day() {
    let wait = wait_for_next_run();
    assert!(0 < wait && wait <= 86400);
}

#[test]
fn version_is_read_from_a_document() {
    let doc: serde_json::Value = serde_json::from_str(r#"{"version":"2025.01.15","n":1}"#).unwrap();
    assert_eq!(slisic::json::installed_version(&doc).as_deref(), Some("2025.01.15"));
    let doc: serde_json::Value = serde_json::from_str(r#"{"version":["x"]}"#).unwrap();
    assert_eq!(slisic::json::installed_version(&doc), None);
    let doc: serde_json::Value = serde_json::from_str("[]").unwrap();
    assert_eq!(slisic::json::installed_version(&doc), None);
}

#[test]
fn a_probe_is_read_exactly_where_the_text_is_json() {
    for text in ["{}", "[]", "null", "1", "\"x\"", " {\"a\":[1,{\"b\":null}]} "] {
        assert!(serde_json::from_str::<serde_json::Value>(text).is_ok());
        assert!(flat_data(text).is_some(), "{:?}", text);
    }
    for text in ["", "{", "{\"a\":}", "nul", "[1,]", "{} x"] {
        assert!(serde_json::from_str::<serde_json::Value>(text).is_err());
        assert!(flat_data(text).is_none(), "{:?}", text);
        assert!(read_installed_version(text).is_none(), "{:?}", text);
    }
}
