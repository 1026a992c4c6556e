use rtrax::playlist::{append_text, m3u_lists, Playlist};
use rtrax::rng::Rng;

fn cwd() -> String {
    "/work".to_string()
}

#[test]
fn from_files_absolute_stays_absolute() {
    let abs = "/tmp/song.mod".to_string();
    let pl = Playlist::from_files(vec![abs.clone()], Some(&cwd()));
    assert_eq!(pl.entries[0], abs);
    assert!(pl.path.is_none());
}

#[test]
fn from_files_relative_becomes_absolute() {
    let pl = Playlist::from_files(vec!["song.mod".to_string()], Some(&cwd()));
    assert!(pl.entries[0].starts_with('/'));
    assert_eq!(pl.entries[0], "/work/song.mod");
}

#[test]
fn is_empty_reflects_entries() {
    let empty = Playlist::from_files(vec![], None);
    assert!(empty.is_empty());
    let nonempty = Playlist::from_files(vec!["/a.mod".to_string()], None);
    assert!(!nonempty.is_empty());
}

#[test]
fn load_skips_comments_and_blank_lines() {
    let pl = Playlist::from_m3u(
        "#EXTM3U\n# a comment\n\n/abs/song.mod\n\n# another\n/abs/other.xm\n",
        "/lists/list.m3u",
    );
    assert_eq!(pl.entries.len(), 2);
    assert_eq!(pl.entries[0], "/abs/song.mod");
    assert_eq!(pl.entries[1], "/abs/other.xm");
}

#[test]
fn load_resolves_relative_paths_against_playlist_dir() {
    let pl = Playlist::from_m3u("song.mod\n", "/lists/list.m3u");
    assert_eq!(pl.entries[0], "/lists/song.mod");
    assert_eq!(pl.path, Some("/lists/list.m3u".to_string()));
}

#[test]
fn load_keeps_absolute_paths() {
    let pl = Playlist::from_m3u("/music/song.mod\n", "/lists/list.m3u");
    assert_eq!(pl.entries[0], "/music/song.mod");
}

#[test]
fn load_trims_lines_and_handles_crlf() {
    let pl = Playlist::from_m3u("  /a.mod  \r\n\r\n#x\r\nb.xm", "list.m3u");
    assert_eq!(pl.entries, vec!["/a.mod".to_string(), "b.xm".to_string()]);
}

fn three_entry_playlist() -> Playlist {
    Playlist::from_files(
        vec!["/a.mod".to_string(), "/b.mod".to_string(), "/c.mod".to_string()],
        None,
    )
}

#[test]
fn next_after_returns_following_entry() {
    let pl = three_entry_playlist();
    assert_eq!(pl.next_after("/a.mod"), Some(pl.entries[1].clone()));
    assert_eq!(pl.next_after("/b.mod"), Some(pl.entries[2].clone()));
}

#[test]
fn next_after_returns_none_at_last_entry() {
    let pl = three_entry_playlist();
    assert_eq!(pl.next_after(&pl.entries[2].clone()), None);
}

#[test]
fn next_after_returns_none_when_not_found() {
    let pl = three_entry_playlist();
    assert_eq!(pl.next_after("/not-in-list.mod"), None);
}

#[test]
fn prev_before_returns_preceding_entry() {
    let pl = three_entry_playlist();
    assert_eq!(pl.prev_before("/b.mod"), Some(pl.entries[0].clone()));
    assert_eq!(pl.prev_before("/c.mod"), Some(pl.entries[1].clone()));
}

#[test]
fn prev_before_returns_none_at_first_entry() {
    let pl = three_entry_playlist();
    assert_eq!(pl.prev_before(&pl.entries[0].clone()), None);
}

#[test]
fn prev_before_returns_none_when_not_found() {
    let pl = three_entry_playlist();
    assert_eq!(pl.prev_before("/not-in-list.mod"), None);
}

#[test]
fn first_returns_first_entry() {
    let pl = three_entry_playlist();
    assert_eq!(pl.first(), Some(&pl.entries[0]));
    let empty = Playlist::from_files(vec![], None);
    assert_eq!(empty.first(), None);
}

#[test]
fn navigation_ignores_case() {
    let pl = three_entry_playlist();
    assert_eq!(pl.next_after("/A.MOD"), Some("/b.mod".to_string()));
}

#[test]
fn file_contains_returns_false_for_missing_file() {
    // An unreadable playlist file lists nothing: the caller has no text.
    let pl = Playlist::from_m3u("", "/nowhere/list.m3u");
    assert!(pl.is_empty());
}

#[test]
fn file_contains_detects_absolute_entry() {
    let text = "#EXTM3U\n/music/song.mod\n";
    assert!(m3u_lists(text, "/tmp/list.m3u", "/music/song.mod"));
    assert!(!m3u_lists(text, "/tmp/list.m3u", "/music/other.mod"));
}

#[test]
fn file_contains_resolves_relative_entries_against_playlist_dir() {
    assert!(m3u_lists("song.mod\n", "/tmp/list.m3u", "/tmp/song.mod"));
}

#[test]
fn file_contains_skips_comments_and_blank_lines() {
    let text = "#EXTM3U\n# /commented.mod\n\n/real.mod\n";
    assert!(!m3u_lists(text, "/tmp/list.m3u", "/commented.mod"));
    assert!(m3u_lists(text, "/tmp/list.m3u", "/real.mod"));
}

#[test]
fn comment_lines_never_match_even_verbatim() {
    assert!(!m3u_lists("#/music/a.xm\n\n", "/lists/list.m3u", "/music/a.xm"));
    assert!(!m3u_lists("# /music/a.xm\n", "/lists/list.m3u", "# /music/a.xm"));
}

#[test]
fn shuffle_on_keeps_every_entry_and_anchor_first() {
    let files: Vec<String> = (0..20).map(|i| format!("/{i}.xm")).collect();
    let mut pl = Playlist::from_files(files.clone(), None);
    let mut rng = Rng::new(7);
    pl.set_shuffle_with(true, Some("/13.xm"), &mut rng);
    assert!(pl.is_shuffled());
    assert_eq!(pl.start(), Some(&"/13.xm".to_string()));
    // Walking the play order from the start visits every entry once.
    let mut seen = vec![pl.start().unwrap().clone()];
    let mut cur = seen[0].clone();
    while let Some(n) = pl.next_after(&cur) {
        seen.push(n.clone());
        cur = n;
    }
    let mut sorted = seen.clone();
    sorted.sort();
    let mut expected = files.clone();
    expected.sort();
    assert_eq!(sorted, expected);
    // Shuffle off restores the file order.
    pl.set_shuffle_with(false, None, &mut rng);
    assert!(!pl.is_shuffled());
    assert_eq!(pl.start(), Some(&"/0.xm".to_string()));
    assert_eq!(pl.next_after("/0.xm"), Some("/1.xm".to_string()));
}

#[test]
fn push_entry_adds_once() {
    let mut pl = three_entry_playlist();
    pl.push_entry("/d.mod".to_string());
    assert_eq!(pl.len(), 4);
    pl.push_entry("/d.mod".to_string());
    assert_eq!(pl.len(), 4);
    assert_eq!(pl.next_after("/c.mod"), Some("/d.mod".to_string()));
}

#[test]
fn position_finds_first_match() {
    let pl = three_entry_playlist();
    assert_eq!(pl.position("/b.mod"), Some(1));
    assert_eq!(pl.position("/zz.mod"), None);
    assert_eq!(pl.get(2), Some(&"/c.mod".to_string()));
    assert_eq!(pl.get(3), None);
}

#[test]
fn append_writes_the_header_only_for_a_new_file() {
    assert_eq!(append_text(false, "/music/a.xm"), "#EXTM3U\n/music/a.xm\n");
    assert_eq!(append_text(true, "/music/a.xm"), "/music/a.xm\n");
}

#[test]
fn each_press_appends_one_entry_even_when_listed() {
    let mut file = append_text(false, "/music/a.xm");
    file.push_str(&append_text(true, "/music/a.xm"));
    assert_eq!(file, "#EXTM3U\n/music/a.xm\n/music/a.xm\n");
}
