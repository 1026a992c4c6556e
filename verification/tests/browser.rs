use rtrax::browser::{Activation, Browser};
use rtrax::files::{is_module, modules_in_listing, Listed};
use rtrax::rng::Rng;

fn file(path: &str) -> Listed {
    Listed { path: path.to_string(), is_dir: false, is_file: true }
}

fn dir(path: &str) -> Listed {
    Listed { path: path.to_string(), is_dir: true, is_file: false }
}

fn labels(b: &Browser) -> Vec<String> {
    b.entries.iter().map(|e| e.label.clone()).collect()
}

#[test]
fn browser_module_extension_matching_is_case_insensitive() {
    assert!(is_module("song.XM"));
    assert!(is_module("song.mod"));
    assert!(!is_module("song.txt"));
    assert!(!is_module("song"));
}

#[test]
fn files_module_extension_matching_is_case_insensitive() {
    assert!(is_module("song.xm"));
    assert!(is_module("SONG.XM"));
    assert!(is_module("song.It"));
    assert!(!is_module("song.txt"));
    assert!(!is_module("song"));
}

#[test]
fn modules_in_dir_filters_and_sorts() {
    let listing = vec![
        file("/d/b.xm"),
        file("/d/A.mod"),
        file("/d/notes.txt"),
        file("/d/c.s3m"),
        dir("/d/sub.xm"),
    ];
    let got = modules_in_listing(&listing);
    assert_eq!(got, vec!["/d/A.mod".to_string(), "/d/b.xm".to_string(), "/d/c.s3m".to_string()]);
}

#[test]
fn modules_in_dir_unreadable_is_empty() {
    assert!(modules_in_listing(&Vec::new()).is_empty());
}

#[test]
fn refresh_lists_dirs_first_then_modules() {
    let listing = vec![
        dir("/root/z-dir"),
        dir("/root/a-dir"),
        dir("/root/.hidden"),
        file("/root/b.xm"),
        file("/root/A.MOD"),
        file("/root/notes.txt"),
    ];
    let browser = Browser::new("/root".to_string(), Some(listing));
    assert_eq!(labels(&browser), ["..", "a-dir/", "z-dir/", "A.MOD", "b.xm"]);
    assert_eq!(browser.selected_index(), Some(0));
}

#[test]
fn selection_wraps_in_both_directions() {
    let mut browser = Browser::new("/".to_string(), Some(vec![file("a.xm"), file("b.xm")]));
    assert_eq!(browser.selected_index(), Some(0));
    browser.select_delta(-1);
    assert_eq!(browser.selected_index(), Some(1));
    browser.select_delta(1);
    assert_eq!(browser.selected_index(), Some(0));
    browser.select_delta(10);
    assert_eq!(browser.selected_index(), Some(0));
    browser.select_delta(-3);
    assert_eq!(browser.selected_index(), Some(1));
}

#[test]
fn next_and_previous_skip_directories() {
    let mut browser =
        Browser::new("/".to_string(), Some(vec![dir("dir"), file("a.xm"), file("b.xm")]));
    assert_eq!(labels(&browser), ["dir/", "a.xm", "b.xm"]);
    assert_eq!(browser.next_module(Some("a.xm")), Some("b.xm".to_string()));
    assert_eq!(browser.prev_module(Some("a.xm")), Some("b.xm".to_string()));
    assert_eq!(browser.selected_index(), Some(2));
}

#[test]
fn unreadable_directory_lists_only_parent() {
    let browser = Browser::new("/music/x".to_string(), None);
    assert_eq!(labels(&browser), [".."]);
    assert_eq!(browser.entries[0].path, "/music");
    let mut empty = Browser::new("/".to_string(), None);
    assert!(empty.entries.is_empty());
    assert_eq!(empty.selected_index(), None);
    assert_eq!(empty.next_module(None), None);
    assert!(matches!(empty.activate(), Activation::Nothing));
}

#[test]
fn activate_enters_directories_and_plays_modules() {
    let mut browser =
        Browser::new("/".to_string(), Some(vec![dir("/songs"), file("/a.xm")]));
    match browser.activate() {
        Activation::EnterDir(p) => assert_eq!(p, "/songs"),
        _ => panic!("expected a directory"),
    }
    let mut rng = Rng::new(3);
    browser.open_dir("/songs".to_string(), Some(vec![file("/songs/z.it")]), &mut rng);
    assert_eq!(browser.root, "/songs");
    assert_eq!(labels(&browser), ["..", "z.it"]);
    browser.select_delta(1);
    match browser.activate() {
        Activation::Play(p) => assert_eq!(p, "/songs/z.it"),
        _ => panic!("expected a module"),
    }
}

#[test]
fn stepping_from_the_selection_and_back_returns() {
    let mut browser = Browser::new(
        "/".to_string(),
        Some(vec![file("a.xm"), file("b.xm"), file("c.xm")]),
    );
    assert_eq!(browser.next_module(None), Some("b.xm".to_string()));
    assert_eq!(browser.prev_module(None), Some("a.xm".to_string()));
    assert_eq!(browser.selected_index(), Some(0));
}

#[test]
fn shuffled_folder_visits_every_module() {
    let names: Vec<Listed> = (0..12).map(|i| file(&format!("{i:02}.xm"))).collect();
    let mut browser = Browser::new("/".to_string(), Some(names));
    let mut rng = Rng::new(11);
    browser.set_shuffle(true, &mut rng);
    assert!(browser.is_shuffled());
    let first = browser.next_module(None).unwrap();
    let mut seen = vec![first.clone()];
    let mut cur = first;
    for _ in 0..11 {
        cur = browser.next_module(Some(&cur)).unwrap();
        seen.push(cur.clone());
    }
    seen.sort();
    let expected: Vec<String> = (0..12).map(|i| format!("{i:02}.xm")).collect();
    assert_eq!(seen, expected);
}

#[test]
fn refresh_moves_a_selection_past_the_end_to_the_last_entry() {
    let mut rng = rtrax::rng::Rng::new(7);
    let mut b = Browser::new(
        "/".to_string(),
        Some(vec![file("/a.xm"), file("/b.xm"), file("/c.xm")]),
    );
    b.select_delta(2);
    assert_eq!(b.selected_index(), Some(2));
    b.refresh(Some(vec![file("/a.xm")]), &mut rng);
    assert_eq!(b.selected_index(), Some(0));
    b.refresh(Some(vec![]), &mut rng);
    assert_eq!(b.selected_index(), None);
}

#[test]
fn module_extension_is_after_the_last_dot() {
    assert!(is_module("/music/a.b.xm"));
    assert!(!is_module("/music/.xm"));
    assert!(!is_module("/music/song."));
    assert!(!is_module("/music/xm"));
}
