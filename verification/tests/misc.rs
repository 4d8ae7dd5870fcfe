use slisic::config::{
    default_version, load_or_init_config, save_path_message, update_save_path, AppConfig, Found,
    SavePathStep, CONFIG_FILE, DEFAULT_FOLDER,
};
use slisic::diff::diff_by_key;
use slisic::errors::ErrorKind;
use slisic::files::{has_part_siblings, is_audio, is_audio_ext, is_download_ext, part_siblings};
use slisic::model::{DownloadAnswer, Entry, EntryType, LinkSample};
use slisic::pipeline::{Location, ProcessResult};
use slisic::queue::{finalize_process, queue_message, try_enqueue, QueueError, WorkerStep, QUEUE_CAPACITY, WORKERS};
use slisic::schedule::{duration_until_next_9am_local, update_ytdlp, DAY, NINE};
use slisic::table::{record_id_for, Rel, Table, TableName};

#[test]
fn table_and_relation_names() {
    assert_eq!(Table::User.as_str(), "user");
    assert_eq!(Table::Collection.as_str(), "collection");
    assert_eq!(Table::Entry.as_str(), "entry");
    assert_eq!(Table::Music.as_str(), "music");
    assert_eq!(Rel::SignIn.as_str(), "sign_in");
    assert_eq!(Rel::Collect.as_str(), "collect");
    assert_eq!(Rel::HasMusic.as_str(), "has_music");
    assert_eq!(Table::Music.table_name(), "music");
    assert_eq!(Rel::Collect.table_name(), "collect");
}

#[test]
fn record_identity_depends_on_table_and_key_alone() {
    let a = record_id_for(Table::Music, "/x/1.m4a");
    let b = record_id_for(Table::Music, "/x/1.m4a");
    assert!(a.same(&b));
    assert!(a.same(&a.copy()));
    assert!(!a.same(&record_id_for(Table::Entry, "/x/1.m4a")));
    assert!(!a.same(&record_id_for(Table::Music, "/x/2.m4a")));
    assert_eq!(a.key, "/x/1.m4a");
    assert_eq!(a.table, Table::Music);
}

#[test]
fn diff_by_key_gives_additions_and_removals() {
    let new = [(1, "a"), (2, "b"), (3, "c")];
    let old = [(2, "x"), (4, "d"), (5, "e")];
    let (add, remove) = diff_by_key(&new, &old, |p: &(i32, &str)| p.0);
    assert_eq!(add, vec![&(1, "a"), &(3, "c")]);
    assert_eq!(remove, vec![&(4, "d"), &(5, "e")]);
    let none: [(i32, &str); 0] = [];
    let (add, remove) = diff_by_key(&new, &none, |p: &(i32, &str)| p.0);
    assert_eq!(add.len(), 3);
    assert!(remove.is_empty());
    let (add, remove) = diff_by_key(&new, &new, |p: &(i32, &str)| p.0);
    assert!(add.is_empty() && remove.is_empty());
    let (add, _) = diff_by_key(&[1, 1, 2], &[2], |x: &i32| *x);
    assert_eq!(add, vec![&1, &1]);
}

#[test]
fn audio_files_by_extension() {
    for ext in ["mp3", "flac", "wav", "aac", "m4a", "ogg", "opus", "aiff", "webm", "MP3", "Flac", "M4A"] {
        assert!(is_audio_ext(ext), "{}", ext);
    }
    for ext in ["", "txt", "mp4", "m4", "m4aa", "jpg", "mp3 "] {
        assert!(!is_audio_ext(ext), "{}", ext);
    }
    assert!(is_download_ext("WEBM"));
    assert!(!is_download_ext("aiff"));
    assert!(is_audio("/music/a.b/Song.One.FLAC"));
    assert!(is_audio("song.opus"));
    assert!(!is_audio("/music/a.mp3/readme"));
    assert!(!is_audio("/music/.mp3"));
    assert!(!is_audio("/music/cover.jpg"));
    assert!(!is_audio(""));
}

#[test]
fn part_files_of_a_download() {
    assert_eq!(part_siblings("/s/a.m4a"), vec!["/s/a.m4a.part", "/s/a.m4a.tmp", "/s/a.m4a.download"]);
    assert!(!has_part_siblings(&vec![false, false, false]));
    assert!(has_part_siblings(&vec![false, false, true]));
    assert!(!has_part_siblings(&vec![]));
}

#[test]
fn configuration_defaults() {
    assert_eq!(default_version(), 1);
    assert_eq!(DEFAULT_FOLDER, "slisic");
    assert_eq!(CONFIG_FILE, "config.json");
    let (cfg, write) = load_or_init_config(Found::Missing, "/docs/slisic".to_string());
    assert_eq!((cfg.save_path.as_str(), cfg.version, write), ("/docs/slisic", 1, true));
    let empty = AppConfig { save_path: String::new(), version: 3 };
    let (cfg, write) = load_or_init_config(Found::Loaded(empty), "/docs/slisic".to_string());
    assert_eq!((cfg.save_path.as_str(), cfg.version, write), ("/docs/slisic", 3, true));
    let set = AppConfig { save_path: "/mine".to_string(), version: 2 };
    let (cfg, write) = load_or_init_config(Found::Loaded(set), "/docs/slisic".to_string());
    assert_eq!((cfg.save_path.as_str(), cfg.version, write), ("/mine", 2, false));
}

#[test]
fn save_path_must_be_a_directory() {
    assert_eq!(update_save_path(false, false), Ok(SavePathStep::Create));
    assert_eq!(update_save_path(false, true), Ok(SavePathStep::Create));
    assert_eq!(update_save_path(true, true), Ok(SavePathStep::Take));
    assert_eq!(update_save_path(true, false), Err(ErrorKind::InvalidInput));
    assert_eq!(save_path_message(), "save_path must be a directory");
}

#[test]
fn queue_admission() {
    assert_eq!((QUEUE_CAPACITY, WORKERS), (1024, 4));
    assert_eq!(try_enqueue(false, 0, 1024), Err(QueueError::NotInitialized));
    assert_eq!(try_enqueue(true, 1023, 1024), Ok(()));
    assert_eq!(try_enqueue(true, 1024, 1024), Err(QueueError::Busy));
    assert_eq!(try_enqueue(true, 0, 0), Err(QueueError::Busy));
    assert_eq!(queue_message(QueueError::NotInitialized), "download queue not initialized");
    assert_eq!(queue_message(QueueError::Busy), "no available capacity");
    assert_eq!(queue_message(QueueError::Closed), "channel closed");
}

fn result() -> ProcessResult {
    ProcessResult {
        working_path: vec!["w1".to_string(), "w2".to_string()],
        saved_path: Location::File("/save/a.m4a".to_string()),
        playlist: "L".to_string(),
        name: "a".to_string(),
    }
}

#[test]
fn worker_finalizes_or_logs() {
    match finalize_process(Ok(result())) {
        WorkerStep::Finalize { working_path, answer } => {
            assert_eq!(working_path, vec!["w1", "w2"]);
            assert_eq!(answer.name, "a");
            assert_eq!(answer.playlist, "L");
            assert!(matches!(answer.path, Location::File(p) if p == "/save/a.m4a"));
        }
        other => panic!("unexpected {:?}", other),
    }
    assert!(matches!(finalize_process(Err("boom".to_string())), WorkerStep::Log { message } if message == "download error: boom"));
    let answer = DownloadAnswer::from(result());
    assert_eq!((answer.name.as_str(), answer.playlist.as_str()), ("a", "L"));
}

#[test]
fn next_run_is_at_nine() {
    assert_eq!((DAY, NINE), (86400, 32400));
    assert_eq!(duration_until_next_9am_local(0), 32400);
    assert_eq!(duration_until_next_9am_local(32399), 1);
    assert_eq!(duration_until_next_9am_local(32400), 86400);
    assert_eq!(duration_until_next_9am_local(32401), 86399);
    assert_eq!(duration_until_next_9am_local(86399), 32401);
    assert!(update_ytdlp(true));
    assert!(!update_ytdlp(false));
}

#[test]
fn queued_nodes_for_links_and_entries() {
    let link = LinkSample {
        url: "u".to_string(),
        title_or_msg: "T".to_string(),
        entry_type: EntryType::WebVideo,
        count: None,
        status: None,
        tracking: false,
    };
    let a = link.into_ytdlp_entry("P".to_string());
    assert_eq!((a.url.as_str(), a.title.as_str(), a.playlist.as_str(), a.retries), ("u", "T", "P", 0));
    assert!(a.kind.is_none() && a.error.is_none());
    let entry = Entry {
        path: None,
        name: "E".to_string(),
        musics: vec![],
        avg_db: None,
        url: None,
        downloaded_ok: None,
        tracking: None,
        entry_type: EntryType::Unknown,
    };
    let b = entry.into_ytdlp_entry("P".to_string());
    assert_eq!((b.url.as_str(), b.title.as_str()), ("", "E"));
    assert_ne!(a.id, b.id);
    assert_eq!((a.id >> 76) & 0xf, 4);
}

#[test]
fn every_kind_of_failure_has_its_words() {
    let kinds = [
        ErrorKind::ToolchainUnavailable,
        ErrorKind::ToolchainFailed,
        ErrorKind::ToolchainUnparseable,
        ErrorKind::MeasurementUnavailable,
        ErrorKind::StoreFailed,
        ErrorKind::NotFound,
        ErrorKind::JournalIO,
        ErrorKind::NetworkFailed,
        ErrorKind::ChecksumMismatch,
        ErrorKind::InvalidInput,
    ];
    let words: Vec<&str> = kinds.iter().map(|k| k.describe()).collect();
    for (i, w) in words.iter().enumerate() {
        assert!(!w.is_empty());
        assert!(!words[..i].contains(w));
    }
    assert_eq!(ErrorKind::NotFound.describe(), "not found");
    assert_eq!(ErrorKind::MeasurementUnavailable.describe(), "Integrated LUFS not found in ffmpeg output");
}

#[test]
fn a_count_beyond_a_day_is_taken_within_the_day() {
    assert_eq!(duration_until_next_9am_local(86400), 32400);
    assert_eq!(duration_until_next_9am_local(86400 + 32400), 86400);
}

#[test]
fn identifier_text_is_that_of_the_uuid_crate() {
    let ids = [
        0u128,
        1,
        u128::MAX,
        0x0123_4567_89ab_cdef_fedc_ba98_7654_3210,
        0xdead_beef_0000_0000_0000_0000_0000_000f,
        1 << 127,
    ];
    for id in ids {
        assert_eq!(slisic::ids::id_text(id), uuid::Uuid::from_u128(id).to_string());
    }
    assert_eq!(slisic::ids::id_text(0x0123_4567_89ab_cdef_fedc_ba98_7654_3210), "01234567-89ab-cdef-fedc-ba9876543210");
}

#[test]
fn a_leaf_is_finalized_for_the_entry_of_its_playlist() {
    let leaf = ProcessResult {
        working_path: vec!["root".to_string(), "leaf".to_string()],
        saved_path: Location::File("/save/L/C1.m4a".to_string()),
        playlist: "A".to_string(),
        name: "C1".to_string(),
    };
    let answer = slisic::queue::leaf_answer("L", leaf);
    assert_eq!(answer.name, "L");
    assert_eq!(answer.playlist, "A");
    assert!(matches!(answer.path, Location::File(p) if p == "/save/L/C1.m4a"));
}

#[test]
fn commands_are_admitted_by_what_the_store_holds() {
    assert_eq!(slisic::coordinator::admit_create(false), Ok(()));
    assert_eq!(slisic::coordinator::admit_create(true), Err(ErrorKind::StoreFailed));
    assert_eq!(slisic::coordinator::admit_update(false, false, false), Err(ErrorKind::NotFound));
    assert_eq!(slisic::coordinator::admit_update(false, true, true), Err(ErrorKind::NotFound));
    assert_eq!(slisic::coordinator::admit_update(true, true, true), Err(ErrorKind::StoreFailed));
    assert_eq!(slisic::coordinator::admit_update(true, false, true), Ok(()));
    assert_eq!(slisic::coordinator::admit_update(true, true, false), Ok(()));
    assert_eq!(slisic::coordinator::admit_delete(true), Ok(()));
    assert_eq!(slisic::coordinator::admit_delete(false), Err(ErrorKind::NotFound));
}
