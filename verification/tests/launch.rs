use rtrax::files::Listed;
use rtrax::launch::{browse_target, build_queue, resolve_queue, resolve_sources, LaunchError, PlayMode, QueueArg};
use rtrax::rng::Rng;

fn listed(path: &str) -> Listed {
    Listed { path: path.to_string(), is_dir: false, is_file: true }
}

fn arg(path: &str, is_file: bool, is_dir: bool, listing: Option<Vec<Listed>>) -> QueueArg {
    QueueArg { path: path.to_string(), is_file, is_dir, listing }
}

#[test]
fn playlist_alone_plays_as_a_queue() {
    let pl = "/lists/list.m3u".to_string();
    let text = "#EXTM3U\n/music/a.xm\n/music/b.xm\n".to_string();
    let mut rng = Rng::new(1);
    let launch =
        resolve_sources(vec![], Some(pl.clone()), Some(text), false, None, false, &mut rng).unwrap();
    assert_eq!(launch.mode, PlayMode::Queue);
    assert!(launch.queue.is_some());
    assert!(!launch.shuffle);
    assert_eq!(launch.save_target, Some(pl));
    assert_eq!(launch.initial_path, Some("/music/a.xm".to_string()));
    assert!(launch.browse_root.is_none());
}

#[test]
fn unreadable_playlist_is_an_error() {
    let mut rng = Rng::new(1);
    let r = resolve_sources(vec![], Some("/x.m3u".to_string()), None, false, None, false, &mut rng);
    assert_eq!(r.err(), Some(LaunchError::PlaylistUnreadable("/x.m3u".to_string())));
}

#[test]
fn playlist_plus_directory_is_browse_mode_with_save_target() {
    let pl = "/lists/list.m3u".to_string();
    let browse = "/lists/songs".to_string();
    let mut rng = Rng::new(1);
    let launch = resolve_sources(
        vec![browse.clone()],
        Some(pl.clone()),
        Some("#EXTM3U\n".to_string()),
        true,
        None,
        false,
        &mut rng,
    )
    .unwrap();
    assert_eq!(launch.mode, PlayMode::Browse);
    assert!(launch.queue.is_none());
    assert_eq!(launch.save_target, Some(pl));
    assert_eq!(launch.browse_root, Some(browse));
    assert!(launch.initial_path.is_none());
}

#[test]
fn single_file_is_browse_mode_rooted_at_its_folder() {
    let mut rng = Rng::new(1);
    let launch =
        resolve_sources(vec!["/music/song.xm".to_string()], None, None, false, None, false, &mut rng)
            .unwrap();
    assert_eq!(launch.mode, PlayMode::Browse);
    assert!(launch.queue.is_none());
    assert!(launch.save_target.is_none());
    assert_eq!(launch.initial_path, Some("/music/song.xm".to_string()));
    assert_eq!(launch.browse_root, Some("/music".to_string()));
}

#[test]
fn single_directory_is_browse_mode_with_no_initial_track() {
    let mut rng = Rng::new(1);
    let launch =
        resolve_sources(vec!["/tmp/songs".to_string()], None, None, true, None, false, &mut rng)
            .unwrap();
    assert_eq!(launch.mode, PlayMode::Browse);
    assert!(launch.initial_path.is_none());
    assert_eq!(launch.browse_root, Some("/tmp/songs".to_string()));
}

#[test]
fn multiple_files_form_an_inline_queue() {
    let mut rng = Rng::new(1);
    let launch = resolve_sources(
        vec!["/a.xm".to_string(), "/b.xm".to_string()],
        None,
        None,
        false,
        None,
        false,
        &mut rng,
    )
    .unwrap();
    assert_eq!(launch.mode, PlayMode::Queue);
    assert_eq!(launch.queue.as_ref().map(|q| q.len()), Some(2));
    assert!(launch.save_target.is_none());
    assert_eq!(launch.initial_path, Some("/a.xm".to_string()));
}

#[test]
fn no_arguments_is_browse_mode() {
    let mut rng = Rng::new(1);
    let launch = resolve_sources(vec![], None, None, false, None, false, &mut rng).unwrap();
    assert_eq!(launch.mode, PlayMode::Browse);
    assert!(launch.queue.is_none());
    assert!(launch.initial_path.is_none());
    assert!(launch.save_target.is_none());
    assert!(launch.browse_root.is_none());
}

#[test]
fn shuffle_flag_marks_the_launch_and_queue() {
    let mut rng = Rng::new(1);
    let launch = resolve_sources(
        (0..16).map(|i| format!("/{i}.xm")).collect(),
        None,
        None,
        false,
        None,
        true,
        &mut rng,
    )
    .unwrap();
    assert!(launch.shuffle);
    let queue = launch.queue.as_ref().unwrap();
    assert!(queue.is_shuffled());
    assert_eq!(launch.initial_path.as_ref(), queue.start());
}

#[test]
fn browse_target_of_a_file_and_a_directory() {
    assert_eq!(
        browse_target(vec!["/m/a.xm".to_string()], false),
        (Some("/m/a.xm".to_string()), Some("/m".to_string()))
    );
    assert_eq!(browse_target(vec!["/m".to_string()], true), (None, Some("/m".to_string())));
    assert_eq!(browse_target(vec![], false), (None, None));
}

#[test]
fn single_file_expands_to_its_folder() {
    let folder = vec![listed("/d/a.xm"), listed("/d/b.mod"), listed("/d/c.it"), listed("/d/cover.png")];
    let (queue, initial) = build_queue(vec![arg("/d/b.mod", true, false, Some(folder))], None);
    assert_eq!(queue.len(), 3);
    assert_eq!(initial.as_deref(), Some("/d/b.mod"));
    assert!(queue.get(0).unwrap().ends_with("a.xm"));
}

#[test]
fn directory_expands_to_its_modules() {
    let listing = vec![listed("/d/y.xm"), listed("/d/x.s3m")];
    let (queue, initial) = build_queue(vec![arg("/d", false, true, Some(listing))], None);
    assert_eq!(queue.len(), 2);
    assert!(initial.unwrap().ends_with("x.s3m"));
}

#[test]
fn multiple_files_stay_as_given() {
    let (queue, initial) = build_queue(
        vec![arg("/d/c.xm", true, false, None), arg("/d/a.xm", true, false, None)],
        None,
    );
    assert_eq!(queue.len(), 2);
    assert_eq!(initial.as_deref(), Some("/d/c.xm"));
    assert_eq!(queue.get(0), Some(&"/d/c.xm".to_string()));
}

#[test]
fn unrecognized_single_file_queues_alone() {
    let folder = vec![listed("/d/song.weird"), listed("/d/other.xm")];
    let (queue, initial) = build_queue(vec![arg("/d/song.weird", true, false, Some(folder))], None);
    assert_eq!(queue.len(), 1);
    assert_eq!(initial.as_deref(), Some("/d/song.weird"));
}

#[test]
fn empty_input_is_empty_queue() {
    let (queue, initial) = build_queue(vec![], None);
    assert!(queue.is_empty());
    assert!(initial.is_none());
}

#[test]
fn relative_arguments_are_resolved_against_the_working_directory() {
    let (queue, initial) = build_queue(
        vec![arg("a.xm", false, false, None), arg("b.xm", false, false, None)],
        Some("/w"),
    );
    assert_eq!(queue.get(1), Some(&"/w/b.xm".to_string()));
    assert_eq!(initial.as_deref(), Some("/w/a.xm"));
}

#[test]
fn gui_queue_shuffle_keeps_the_chosen_track_first() {
    let folder: Vec<Listed> = (0..10).map(|i| listed(&format!("/d/{i}.xm"))).collect();
    let mut rng = Rng::new(4);
    let (queue, initial) = resolve_queue(
        vec![arg("/d/7.xm", true, false, Some(folder))],
        None,
        None,
        None,
        true,
        &mut rng,
    )
    .unwrap();
    let queue = queue.unwrap();
    assert!(queue.is_shuffled());
    assert_eq!(initial.as_deref(), Some("/d/7.xm"));
    assert_eq!(queue.start(), Some(&"/d/7.xm".to_string()));
    let (none, nothing) = resolve_queue(vec![], None, None, None, false, &mut rng).unwrap();
    assert!(none.is_none() && nothing.is_none());
}
