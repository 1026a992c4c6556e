use rtrax::info::{first_lines, meta_lines};
use rtrax::info::{format_clock, format_minutes_seconds, resolve_name, truncate};
use rtrax::paths::{label_for, make_absolute, paths_equal, theme_dir};
use rtrax::sorting::stable_order;

#[test]
fn label_uses_file_name() {
    assert_eq!(label_for("/music/songs/cool.xm"), "cool.xm");
    assert_eq!(label_for("bare.mod"), "bare.mod");
    assert_eq!(label_for("/"), "/");
}

#[test]
fn paths_equal_is_case_insensitive() {
    assert!(paths_equal("/A/Song.XM", "/a/song.xm"));
    assert!(!paths_equal("/a/one.xm", "/a/two.xm"));
    assert!(paths_equal("/a//b.xm", "/a/b.xm"));
}

#[test]
fn make_absolute_joins_relative_paths() {
    assert_eq!(make_absolute("/x.xm", Some("/w")), "/x.xm");
    assert_eq!(make_absolute("x.xm", Some("/w")), "/w/x.xm");
    assert_eq!(make_absolute("x.xm", Some("/w/")), "/w/x.xm");
    assert_eq!(make_absolute("x.xm", None), "x.xm");
    assert_eq!(theme_dir(Some("/c")), Some("/c/themes".to_string()));
    assert_eq!(theme_dir(None), None);
}

#[test]
fn resolve_name_prefers_instruments_then_samples() {
    let ins = vec!["piano".to_string(), "  ".to_string()];
    let smp = vec!["s1".to_string(), "s2".to_string(), "s3".to_string()];
    assert_eq!(resolve_name(1, &ins, &smp), "piano");
    assert_eq!(resolve_name(2, &ins, &smp), "s2");
    assert_eq!(resolve_name(0, &ins, &smp), "piano");
    assert_eq!(resolve_name(9, &ins, &smp), "—");
}

#[test]
fn truncate_marks_the_cut() {
    assert_eq!(truncate("hello", 0), "");
    assert_eq!(truncate("hello", 5), "hello");
    assert_eq!(truncate("hello", 1), "…");
    assert_eq!(truncate("hello", 3), "he…");
    assert_eq!(truncate("héllo", 4), "hél…");
}

#[test]
fn clock_texts() {
    assert_eq!(format_minutes_seconds(0), "0:00");
    assert_eq!(format_minutes_seconds(125), "2:05");
    assert_eq!(format_minutes_seconds(3600), "60:00");
    assert_eq!(format_clock(59), "00:59");
    assert_eq!(format_clock(754), "12:34");
}

#[test]
fn stable_order_keeps_ties_in_place() {
    let keys: Vec<Vec<char>> = ["b", "a", "b", "a", ""].iter().map(|s| s.chars().collect()).collect();
    assert_eq!(stable_order(&keys), vec![4, 1, 3, 0, 2]);
}

fn pair(k: &str, v: &str) -> (String, String) {
    (k.to_string(), v.to_string())
}

#[test]
fn meta_lines_show_only_known_fields() {
    let got = meta_lines("", 4, 31, 0, "3:05", "", "", "", 10);
    assert_eq!(
        got,
        vec![pair("channels", "4"), pair("samples", "31"), pair("duration", "3:05")]
    );
}

#[test]
fn meta_lines_with_everything_and_a_fitted_message() {
    let got = meta_lines(
        "FastTracker 2",
        -1,
        12,
        3,
        "0:42",
        "someone",
        "MPT",
        "line one\r\nline two\nline three\n",
        9,
    );
    assert_eq!(
        got,
        vec![
            pair("format", "FastTracker 2"),
            pair("channels", "-1"),
            pair("samples", "12 (3 inst)"),
            pair("duration", "0:42"),
            pair("artist", "someone"),
            pair("tracker", "MPT"),
            pair("message", "line one\nline two"),
        ]
    );
}

#[test]
fn meta_lines_drop_the_message_without_room() {
    let got = meta_lines("", 8, 1, 0, "1:00", "", "", "hello", 4);
    assert_eq!(got.len(), 3);
    let got = meta_lines("", 8, 1, 0, "1:00", "", "", "hello", 5);
    assert_eq!(got.last(), Some(&pair("message", "hello")));
}

#[test]
fn first_lines_follow_str_lines() {
    let text = "a\r\nb\n\nc\r";
    let all: Vec<&str> = text.lines().collect();
    assert_eq!(first_lines(text, 10), all.join("\n"));
    assert_eq!(first_lines(text, 2), "a\nb");
    assert_eq!(first_lines("", 3), "");
    assert_eq!(first_lines("x\n", 0), "");
}
