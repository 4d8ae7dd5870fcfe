use slisic::sanitize::sanitize_segment;

#[test]
fn sanitize_replaces_illegal_characters() {
    assert_eq!(sanitize_segment("a<b>c:d"), "a_b_c_d");
    assert_eq!(sanitize_segment("x/y\\z|w?v*u\"t"), "x_y_z_w_v_u_t");
}

#[test]
fn sanitize_replaces_control_characters() {
    assert_eq!(sanitize_segment("a\tb\u{7f}c\u{85}d"), "a_b_c_d");
}

#[test]
fn sanitize_trims_white_space_and_trailing_dots() {
    assert_eq!(sanitize_segment("  title...  "), "title");
    assert_eq!(sanitize_segment("\u{3000}title\u{a0}"), "title");
    assert_eq!(sanitize_segment(".hidden"), ".hidden");
    assert_eq!(sanitize_segment(".."), "");
    assert_eq!(sanitize_segment(""), "");
}

#[test]
fn sanitize_twice_is_sanitize_once() {
    for s in ["a<b", "  x. ", "Intro: Part 1?", "日本語 / タイトル", "tab\there", "a .", "a. .", " . a . ", ". ."] {
        let once = sanitize_segment(s);
        assert_eq!(sanitize_segment(&once), once);
    }
}

#[test]
fn dots_and_blanks_at_the_end_are_dropped_together() {
    assert_eq!(sanitize_segment("a ."), "a");
    assert_eq!(sanitize_segment("a. ."), "a");
    assert_eq!(sanitize_segment(" . a . "), ". a");
    assert_eq!(sanitize_segment(". ."), "");
    assert_eq!(sanitize_segment(" a\tb<c>. "), "a_b_c_");
}
