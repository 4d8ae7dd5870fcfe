use slisic::errors::ErrorKind;
use slisic::ffmpeg::{
    integrated_lufs, leading_silence_end, loudness_args, loudness_of_capture, parse_milli,
    seconds, silence_args, split_audio_by_chapters, summary, trim_call, trim_leading_zero,
    trim_temp_name, FlacOpts,
};
use slisic::probe::Chapter;

const LOG: &str = "Input #0, mov,mp4,m4a\n[Parsed_ebur128_0 @ 0x55] t: 0.1 TARGET:-23 LUFS    M: -30.1 S:-120.7     I: -70.0 LUFS       LRA:   0.0 LU\n[Parsed_ebur128_0 @ 0x55] Summary:\n\n  Integrated loudness:\n    I:         -14.3 LUFS\n    Threshold: -24.5 LUFS\n\n  Loudness range:\n    LRA:         5.4 LU\n";

#[test]
fn loudness_is_read_from_the_summary() {
    assert_eq!(integrated_lufs(LOG), Ok(-14300));
}

#[test]
fn loudness_without_summary_line_is_unavailable() {
    assert_eq!(integrated_lufs(""), Err(ErrorKind::MeasurementUnavailable));
    assert_eq!(integrated_lufs("Output file is empty, nothing was encoded\n"), Err(ErrorKind::MeasurementUnavailable));
    assert_eq!(integrated_lufs("x Summary:\n  Threshold: -24.5 LUFS\n"), Err(ErrorKind::MeasurementUnavailable));
    assert_eq!(loudness_of_capture(&None), Err(ErrorKind::MeasurementUnavailable));
}

#[test]
fn loudness_line_before_the_summary_does_not_count() {
    let log = "    I: -5.0 LUFS\nSummary:\n    I: -9.5 LUFS\n";
    assert_eq!(integrated_lufs(log), Ok(-9500));
    assert_eq!(integrated_lufs("    I: -5.0 LUFS\n"), Ok(-5000));
}

#[test]
fn unreadable_number_is_unparseable() {
    assert_eq!(loudness_of_capture(&Some("abc".to_string())), Err(ErrorKind::ToolchainUnparseable));
    assert_eq!(loudness_of_capture(&Some("99999999".to_string())), Err(ErrorKind::ToolchainUnparseable));
    assert_eq!(loudness_of_capture(&Some("-23".to_string())), Ok(-23000));
}

#[test]
fn summary_is_between_the_first_two_headings() {
    assert_eq!(summary("a Summary: b Summary: c"), " b ");
    assert_eq!(summary("a Summary: b"), " b");
    assert_eq!(summary("no heading"), "no heading");
    assert_eq!(summary("Summary:"), "");
    assert_eq!(summary(""), "");
}

#[test]
fn decimal_text_as_thousandths() {
    assert_eq!(parse_milli("-14.3"), Some(-14300));
    assert_eq!(parse_milli("0"), Some(0));
    assert_eq!(parse_milli("-0.0"), Some(0));
    assert_eq!(parse_milli("12"), Some(12000));
    assert_eq!(parse_milli("1.5"), Some(1500));
    assert_eq!(parse_milli("1.05"), Some(1050));
    assert_eq!(parse_milli("1.005"), Some(1005));
    assert_eq!(parse_milli("1.0059"), Some(1005));
    assert_eq!(parse_milli("0.12345678901234567890123"), Some(123));
    assert_eq!(parse_milli("007.5"), Some(7500));
    assert_eq!(parse_milli("2147483.647"), Some(2147483647));
    assert_eq!(parse_milli("-2147483.647"), Some(-2147483647));
    assert_eq!(parse_milli("2147483.648"), None);
    assert_eq!(parse_milli("2147484"), None);
    assert_eq!(parse_milli("99999999999999999999999999"), None);
    for bad in ["", "-", ".", "1.", ".5", "+1", "1.2.3", "1e3", " 1", "1 ", "--1", "1.-5", "١٢"] {
        assert_eq!(parse_milli(bad), None, "{:?}", bad);
    }
}

#[test]
fn leading_silence_is_found_only_at_zero() {
    let log = "[silencedetect @ 0x1] silence_start: 0\n[silencedetect @ 0x1] silence_end: 1.25 | silence_duration: 1.25\n[silencedetect @ 0x1] silence_start: 30\n[silencedetect @ 0x1] silence_end: 31.5 | silence_duration: 1.5\n";
    assert_eq!(leading_silence_end(log).as_deref(), Some("1.25"));
    let log = "[Parsed_silencedetect_0 @ 0x1] silence_start: 0.000\n[Parsed_silencedetect_0 @ 0x1] silence_end: 0.7\n";
    assert_eq!(leading_silence_end(log).as_deref(), Some("0.7"));
    let log = "[silencedetect @ 0x1] silence_start: 12.5\n[silencedetect @ 0x1] silence_end: 14 | silence_duration: 1.5\n";
    assert_eq!(leading_silence_end(log), None);
    assert_eq!(leading_silence_end("[silencedetect @ 0x1] silence_start: 0\n"), None);
    assert_eq!(leading_silence_end(""), None);
}

#[test]
fn no_leading_silence_means_no_call() {
    assert!(trim_leading_zero("/x/a.m4a", &None, "m4a", "/x/a.trim.tmp.m4a").is_none());
    assert!(trim_call("/x/a.m4a", &None).is_none());
}

#[test]
fn trim_copies_from_the_cut_into_a_temporary_file() {
    let args = trim_leading_zero("/x/a.M4A", &Some("1.25".to_string()), "M4A", "/x/a.trim.tmp.M4A").unwrap();
    assert_eq!(
        args,
        vec![
            "-hide_banner", "-nostats", "-y", "-ss", "1.25", "-i", "/x/a.M4A", "-c", "copy", "-map",
            "0:a", "-movflags", "+faststart", "/x/a.trim.tmp.M4A"
        ]
    );
    let args = trim_leading_zero("a.aac", &Some("2".to_string()), "aac", "t").unwrap();
    assert_eq!(&args[11..], ["-f", "adts", "t"]);
    let args = trim_leading_zero("a.mp4", &Some("2".to_string()), "mp4", "t").unwrap();
    assert_eq!(&args[11..], ["-movflags", "+faststart", "t"]);
    let args = trim_leading_zero("a.opus", &Some("2".to_string()), "opus", "t").unwrap();
    assert_eq!(&args[11..], ["t"]);
    assert!(args.contains(&"copy".to_string()));
}

#[test]
fn trim_call_names_the_temporary_file_beside_the_source() {
    let args = trim_call("/music/My Song.m4a", &Some("0.7".to_string())).unwrap();
    assert_eq!(args.last().map(|s| s.as_str()), Some("/music/My Song.trim.tmp.m4a"));
    assert_eq!(args[4], "0.7");
    assert_eq!(args[6], "/music/My Song.m4a");
    assert_eq!(&args[11..13], ["-movflags", "+faststart"]);
    let args = trim_call("/music/raw", &Some("1".to_string())).unwrap();
    assert_eq!(args.last().map(|s| s.as_str()), Some("/music/raw.trim.tmp"));
}

#[test]
fn temporary_names() {
    assert_eq!(trim_temp_name("song", "m4a"), "song.trim.tmp.m4a");
    assert_eq!(trim_temp_name("song", ""), "song.trim.tmp");
}

#[test]
fn measurement_arguments() {
    assert_eq!(
        loudness_args("/a b.mp3"),
        vec!["-hide_banner", "-nostats", "-i", "/a b.mp3", "-filter:a", "ebur128=peak=true", "-f", "null", "-"]
    );
    assert_eq!(
        silence_args("f"),
        vec!["-hide_banner", "-nostats", "-i", "f", "-af", "silencedetect=noise=-60dB:d=0.5", "-f", "null", "-"]
    );
}

#[test]
fn times_are_seconds_with_three_places() {
    assert_eq!(seconds(0), "0.000");
    assert_eq!(seconds(12500), "12.500");
    assert_eq!(seconds(1005), "1.005");
    assert_eq!(seconds(999), "0.999");
    assert_eq!(seconds(-1), "-0.001");
    assert_eq!(seconds(-14300), "-14.300");
    assert_eq!(seconds(i64::MAX), "9223372036854775.807");
    assert_eq!(seconds(i64::MIN), "-9223372036854775.808");
}

fn chapter(title: &str, start_ms: i64, end_ms: i64) -> Chapter {
    Chapter { title: title.to_string(), start_ms, end_ms }
}

#[test]
fn split_makes_one_call_per_chapter_in_order() {
    let chapters = vec![chapter("Intro", 0, 61500), chapter("Part 2: Go?", 61500, 120000), chapter("End.", 120000, 200250)];
    let jobs = split_audio_by_chapters("/save/Album.webm", "webm", &chapters, None);
    let names: Vec<&str> = jobs.iter().map(|j| j.file_name.as_str()).collect();
    assert_eq!(names, vec!["Intro.webm", "Part 2_ Go_.webm", "End.webm"]);
    assert_eq!(
        jobs[1].args,
        vec!["-y", "-nostdin", "-i", "/save/Album.webm", "-ss", "61.500", "-to", "120.000", "-map", "0:a:0?", "-vn", "-c", "copy"]
    );
    assert!(split_audio_by_chapters("s", "m4a", &vec![], None).is_empty());
}

#[test]
fn split_to_flac_carries_or_drops_metadata() {
    let chapters = vec![chapter("A", 0, 1000)];
    let jobs = split_audio_by_chapters("s.m4a", "m4a", &chapters, Some(FlacOpts { compression_level: 8, copy_metadata: true }));
    assert_eq!(jobs[0].file_name, "A.flac");
    assert_eq!(&jobs[0].args[11..], ["-map_metadata", "0", "-c:a", "flac", "-compression_level", "8"]);
    let jobs = split_audio_by_chapters("s.m4a", "m4a", &chapters, Some(FlacOpts { compression_level: 12, copy_metadata: false }));
    assert_eq!(&jobs[0].args[11..], ["-map_metadata", "-1", "-c:a", "flac", "-compression_level", "12"]);
}

#[test]
fn chapter_files_are_counted_by_the_names_that_the_split_writes() {
    let chapters = vec![chapter("In: tro", 0, 1000), chapter("Middle.", 1000, 2000), chapter("End", 2000, 3000)];
    let jobs = split_audio_by_chapters("s.webm", "webm", &chapters, None);
    let written: Vec<String> = jobs.iter().map(|j| j.file_name.clone()).collect();
    assert_eq!(written, vec!["In_ tro.webm", "Middle.webm", "End.webm"]);
    assert_eq!(slisic::ffmpeg::chapter_hits(&written, &chapters), 3);
    let flac = split_audio_by_chapters("s.webm", "webm", &chapters, Some(FlacOpts { compression_level: 5, copy_metadata: true }));
    let encoded: Vec<String> = flac.iter().map(|j| j.file_name.clone()).collect();
    assert_eq!(slisic::ffmpeg::chapter_hits(&encoded, &chapters), 3);

    let some = vec!["End.m4a".to_string(), "cover.jpg".to_string(), "01 In_ tro.m4a".to_string(), "Endless.m4a".to_string()];
    assert_eq!(slisic::ffmpeg::chapter_hits(&some, &chapters), 1);
    assert_eq!(slisic::ffmpeg::chapter_hits(&vec![], &chapters), 0);
    assert_eq!(slisic::ffmpeg::chapter_hits(&some, &vec![]), 0);
    assert!(slisic::ffmpeg::is_chapter_file("End.flac", &chapters[2]));
    assert!(!slisic::ffmpeg::is_chapter_file("End", &chapters[2]));
    assert!(!slisic::ffmpeg::is_chapter_file("The End.m4a", &chapters[2]));
}
