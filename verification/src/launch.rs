//! What a frontend needs to know at startup: which collection drives playback
//! and where to start, decided from the command-line arguments (or a GUI's
//! open dialog) before the frontend's main loop is constructed.
//!
//! The caller inspects the file system (is an argument a directory, what a
//! folder lists, what a playlist file holds) and hands over what it found.

use crate::files::{modules_in_listing, module_files, name_key, sorted_as, Listed};
use crate::paths::{
    absolutized, absolutized_all, cwd_view, make_absolute, parent, same_components, spec_parent,
    spec_same_components,
};
use crate::playlist::{anchor_in, first_match, lists_path, m3u_tracks, Playlist};
use crate::rng::{shuffle_of, Rng};
use crate::text::views;
use vstd::prelude::*;

verus! {

/// Which collection drives playback, decided once at launch.
#[derive(Debug, Clone, Copy, PartialEq, Eq, Structural)]
pub enum PlayMode {
    /// "Play the playlist": next/prev and auto-advance walk the loaded
    /// playlist, and the frontend shows it as a queue.
    Queue,
    /// "Build / browse": next/prev and auto-advance walk the browsed
    /// directory, and additions append to a save target.
    Browse,
}

/// Everything resolved before constructing the frontend's app loop.
pub struct Launch {
    /// Track to start playing, if any.
    pub initial_path: Option<String>,
    /// Playback/navigation mode.
    pub mode: PlayMode,
    /// The playlist that drives navigation in queue mode. `None` in browse
    /// mode.
    pub queue: Option<Playlist>,
    /// Where playlist additions append. `None` falls back to the default
    /// playlist file.
    pub save_target: Option<String>,
    /// Explicit browser root (e.g. a directory passed on the command line).
    pub browse_root: Option<String>,
    /// Start with shuffled play order.
    pub shuffle: bool,
}

/// Why a launch could not be resolved.
#[derive(Debug, Clone, PartialEq, Eq)]
pub enum LaunchError {
    /// The playlist file to play could not be read.
    PlaylistUnreadable(String),
}

/// The text views of an optional path.
pub open spec fn opt_view(p: Option<String>) -> Option<Seq<char>> {
    match p {
        Some(s) => Some(s@),
        None => None,
    }
}

/// A positional argument's initial track and browser root: a directory roots
/// the browser there with nothing playing yet; a file plays immediately and
/// roots the browser at its parent folder.
pub open spec fn browse_choice(first: Option<Seq<char>>, first_is_dir: bool) -> (
    Option<Seq<char>>,
    Option<Seq<char>>,
) {
    match first {
        None => (None, None),
        Some(p) => if first_is_dir {
            (None, Some(p))
        } else {
            (Some(p), spec_parent(p))
        },
    }
}

/// Resolve the first positional argument into an initial track and a browser
/// root. `first_is_dir` says whether it names a directory.
pub fn browse_target(files: Vec<String>, first_is_dir: bool) -> (r: (Option<String>, Option<String>))
    ensures
        (opt_view(r.0), opt_view(r.1)) == browse_choice(
            if files@.len() > 0 {
                Some(files@[0]@)
            } else {
                None
            },
            first_is_dir,
        ),
{
    if files.len() == 0 {
        return (None, None);
    }
    let p = files[0].clone();
    if first_is_dir {
        (None, Some(p))
    } else {
        let root = parent(p.as_str());
        (Some(p), root)
    }
}

/// A queue launch: the queue is shuffled (or not) up front, and playback
/// starts at the head of its play order.
fn queue_launch(queue: Playlist, save_target: Option<String>, shuffle: bool, rng: &mut Rng) -> (r:
    Launch)
    requires
        queue.wf(),
    ensures
        r.mode == PlayMode::Queue,
        r.shuffle == shuffle,
        r.save_target == save_target,
        r.browse_root is None,
        is_queue_launch(r, queue.tracks(), queue.backing(), save_target, shuffle),
        r.queue matches Some(q) && (shuffle ==> q.order_view() == shuffle_of(
            queue.tracks().len(),
            old(rng).state(),
        ).0) && (!shuffle ==> q.play_order() == q.tracks()),
{
    let mut queue = queue;
    queue.set_shuffle_with(shuffle, None, rng);
    let initial_path = match queue.start() {
        Some(s) => Some(s.clone()),
        None => None,
    };
    Launch {
        initial_path,
        mode: PlayMode::Queue,
        queue: Some(queue),
        save_target,
        browse_root: None,
        shuffle,
    }
}

/// Decide the playback mode, the initial track, and the playlist/save target
/// from the command-line arguments:
///
/// - a playlist alone → queue mode: play the playlist (its `text`, as read
///   from the file; `None` when it could not be read, which is an error);
/// - a playlist and a file/directory → browse mode on the given path, with
///   the playlist as the save target;
/// - two or more files → queue mode with an inline playlist (relative paths
///   made absolute against `cwd`);
/// - one file → browse mode rooted at its folder, playing it;
/// - one directory → browse mode rooted there, nothing playing;
/// - no arguments → browse mode at the default/working directory.
///
/// `first_is_dir` says whether the first file argument is a directory.
pub fn resolve_sources(
    files: Vec<String>,
    playlist_path: Option<String>,
    playlist_text: Option<String>,
    first_is_dir: bool,
    cwd: Option<&str>,
    shuffle: bool,
    rng: &mut Rng,
) -> (r: Result<Launch, LaunchError>)
    ensures
        match playlist_path {
            Some(pl) => if files@.len() == 0 {
                match playlist_text {
                    None => r == Err::<Launch, LaunchError>(LaunchError::PlaylistUnreadable(pl)),
                    Some(t) => r matches Ok(l) && is_queue_launch(
                        l,
                        m3u_tracks(t@, pl@),
                        Some(pl@),
                        Some(pl),
                        shuffle,
                    ),
                }
            } else {
                r matches Ok(l) && is_browse_launch(
                    l,
                    Some(pl),
                    shuffle,
                    browse_choice(Some(files@[0]@), first_is_dir),
                )
            },
            None => if files@.len() <= 1 {
                r matches Ok(l) && is_browse_launch(
                    l,
                    None,
                    shuffle,
                    browse_choice(
                        if files@.len() == 1 {
                            Some(files@[0]@)
                        } else {
                            None
                        },
                        first_is_dir,
                    ),
                )
            } else {
                r matches Ok(l) && is_queue_launch(
                    l,
                    absolutized_all(views(files@), cwd_view(cwd)),
                    None,
                    None,
                    shuffle,
                )
            },
        },
{
    match playlist_path {
        Some(pl) => {
            if files.len() == 0 {
                match playlist_text {
                    None => Err(LaunchError::PlaylistUnreadable(pl)),
                    Some(t) => {
                        let queue = Playlist::from_m3u(t.as_str(), pl.as_str());
                        Ok(queue_launch(queue, Some(pl), shuffle, rng))
                    },
                }
            } else {
                let (initial_path, browse_root) = browse_target(files, first_is_dir);
                Ok(
                    Launch {
                        initial_path,
                        mode: PlayMode::Browse,
                        queue: None,
                        save_target: Some(pl),
                        browse_root,
                        shuffle,
                    },
                )
            }
        },
        None => {
            if files.len() <= 1 {
                let (initial_path, browse_root) = browse_target(files, first_is_dir);
                Ok(
                    Launch {
                        initial_path,
                        mode: PlayMode::Browse,
                        queue: None,
                        save_target: None,
                        browse_root,
                        shuffle,
                    },
                )
            } else {
                let queue = Playlist::from_files(files, cwd);
                Ok(queue_launch(queue, None, shuffle, rng))
            }
        },
    }
}

/// `l` plays `tracks` as a queue: queue mode, with the queue holding
/// `tracks` (backed by `backing`), shuffled as asked, and playback starting at
/// the head of its play order.
pub open spec fn is_queue_launch(
    l: Launch,
    tracks: Seq<Seq<char>>,
    backing: Option<Seq<char>>,
    save: Option<String>,
    shuffle: bool,
) -> bool {
    &&& l.mode == PlayMode::Queue
    &&& l.save_target == save
    &&& l.browse_root is None
    &&& l.shuffle == shuffle
    &&& match l.queue {
        Some(q) => {
            &&& q.wf()
            &&& q.tracks() == tracks
            &&& q.backing() == backing
            &&& q.shuffled_view() == shuffle
            &&& opt_view(l.initial_path) == (if tracks.len() > 0 {
                Some(q.play_order()[0])
            } else {
                None
            })
        },
        None => false,
    }
}

/// `l` browses: browse mode, no queue, the initial track and root chosen.
pub open spec fn is_browse_launch(
    l: Launch,
    save: Option<String>,
    shuffle: bool,
    choice: (Option<Seq<char>>, Option<Seq<char>>),
) -> bool {
    &&& l.mode == PlayMode::Browse
    &&& l.queue is None
    &&& l.save_target == save
    &&& l.shuffle == shuffle
    &&& (opt_view(l.initial_path), opt_view(l.browse_root)) == choice
}

/// One path handed to the GUI's open action, with what the file system says
/// about it (after it was made absolute): whether it is a regular file,
/// whether it is a directory, and the listing that matters for it — its own
/// listing for a directory, its folder's listing for a single file (`None`
/// when it could not be read, or is not needed).
pub struct QueueArg {
    pub path: String,
    pub is_file: bool,
    pub is_dir: bool,
    pub listing: Option<Vec<Listed>>,
}

/// The module files of a listing that could not be read: none.
pub open spec fn listed_modules(listing: Option<Vec<Listed>>, out: Seq<Seq<char>>) -> bool {
    match listing {
        Some(ls) => sorted_as(
            module_files(ls@),
            module_files(ls@).map_values(|p: Seq<char>| name_key(p)),
            out,
        ),
        None => out.len() == 0,
    }
}

/// The module files of a listing (none when it could not be read).
fn listing_modules(listing: &Option<Vec<Listed>>) -> (r: Vec<String>)
    ensures
        listed_modules(*listing, views(r@)),
{
    match listing {
        Some(ls) => modules_in_listing(ls),
        None => Vec::new(),
    }
}

/// Build a queue from files and/or directories:
/// - a single file expands to all modules in its folder (so auto-advance walks
///   the folder), starting at that file — or, when the folder scan does not
///   list it, a queue of just that file;
/// - directories expand to the modules directly inside them;
/// - multiple explicit files stay exactly as given.
///
/// Returns the queue plus the track to start on (`None` when the caller
/// should fall back to the queue's play-order head).
pub fn build_queue(args: Vec<QueueArg>, cwd: Option<&str>) -> (r: (Playlist, Option<String>))
    ensures
        r.0.wf(),
        !r.0.shuffled_view(),
        r.0.backing() is None,
        is_built_queue(args@, cwd_view(cwd), r.0.tracks(), opt_view(r.1)),
{
    if args.len() == 1 && args[0].is_file {
        let single = make_absolute(args[0].path.as_str(), cwd);
        let folder = listing_modules(&args[0].listing);
        let ghost fv = views(folder@);
        let mut found = false;
        let mut i: usize = 0;
        while i < folder.len()
            invariant
                i <= folder@.len(),
                fv == views(folder@),
                found == exists|k: int| 0 <= k < i && spec_same_components(#[trigger] fv[k], single@),
            decreases folder@.len() - i,
        {
            assert(fv[i as int] == folder@[i as int]@);
            if same_components(folder[i].as_str(), single.as_str()) {
                found = true;
            }
            i = i + 1;
        }
        assert(listed_modules(args@[0].listing, fv));
        assert(found == lists_path(fv, single@));
        if found {
            let q = Playlist::from_files(folder, cwd);
            assert(single_file_queue(single@, args@[0].listing, cwd_view(cwd), q.tracks()));
            (q, Some(single))
        } else {
            let mut one: Vec<String> = Vec::new();
            one.push(single.clone());
            let ghost one_v = one@;
            let q = Playlist::from_files(one, cwd);
            proof {
                assert(views(one_v) =~= seq![single@]);
                assert(absolutized_all(seq![single@], cwd_view(cwd)) =~= seq![
                    absolutized(single@, cwd_view(cwd)),
                ]);
                assert(!lists_path(fv, single@));
                assert(single_file_queue(single@, args@[0].listing, cwd_view(cwd), q.tracks()));
            }
            (q, Some(single))
        }
    } else {
        let mut out: Vec<String> = Vec::new();
        let ghost mut mods: Seq<Seq<Seq<char>>> = Seq::empty();
        let mut i: usize = 0;
        while i < args.len()
            invariant
                i <= args@.len(),
                dir_modules(args@.subrange(0, i as int), mods),
                views(out@) == expansion(args@.subrange(0, i as int), cwd_view(cwd), mods),
            decreases args@.len() - i,
        {
            let a = &args[i];
            let p = make_absolute(a.path.as_str(), cwd);
            let ghost before = views(out@);
            let ghost pre = args@.subrange(0, i as int);
            let ghost next = args@.subrange(0, i + 1);
            assert(next.drop_last() =~= pre);
            assert(next.last() == args@[i as int]);
            if a.is_dir {
                let listed = listing_modules(&a.listing);
                let ghost m = views(listed@);
                let mut listed = listed;
                out.append(&mut listed);
                proof {
                    assert(views(out@) =~= before + m);
                    lemma_expansion_prefix(pre, cwd_view(cwd), mods, mods.push(m));
                    mods = mods.push(m);
                    assert(dir_modules(next, mods));
                }
            } else {
                out.push(p);
                proof {
                    assert(views(out@) =~= before.push(absolutized(a.path@, cwd_view(cwd))));
                    lemma_expansion_prefix(pre, cwd_view(cwd), mods, mods.push(Seq::empty()));
                    mods = mods.push(Seq::empty());
                    assert(dir_modules(next, mods));
                }
            }
            i = i + 1;
        }
        assert(args@.subrange(0, args@.len() as int) =~= args@);
        let initial = if out.len() > 0 {
            Some(out[0].clone())
        } else {
            None
        };
        let ghost o = views(out@);
        let q = Playlist::from_files(out, cwd);
        assert(dir_modules(args@, mods));
        assert(is_built_queue(args@, cwd_view(cwd), q.tracks(), opt_view(initial)));
        (q, initial)
    }
}

/// `tracks` and `initial` are the queue and starting track the open action
/// builds from `args`: for a single file, its folder's module files (or the
/// file alone) starting at the file; otherwise the expansion of the
/// arguments, starting at its first path (none when it is empty).
pub open spec fn is_built_queue(
    args: Seq<QueueArg>,
    cwd: Option<Seq<char>>,
    tracks: Seq<Seq<char>>,
    initial: Option<Seq<char>>,
) -> bool {
    if args.len() == 1 && args[0].is_file {
        &&& initial == Some(absolutized(args[0].path@, cwd))
        &&& single_file_queue(absolutized(args[0].path@, cwd), args[0].listing, cwd, tracks)
    } else {
        exists|mods: Seq<Seq<Seq<char>>>|
            #[trigger] dir_modules(args, mods) && tracks == absolutized_all(
                expansion(args, cwd, mods),
                cwd,
            ) && initial == (if expansion(args, cwd, mods).len() > 0 {
                Some(expansion(args, cwd, mods)[0])
            } else {
                None
            })
    }
}

/// The queue a single file opens: the module files of its folder when that
/// scan lists it, otherwise the file alone.
pub open spec fn single_file_queue(
    single: Seq<char>,
    listing: Option<Vec<Listed>>,
    cwd: Option<Seq<char>>,
    tracks: Seq<Seq<char>>,
) -> bool {
    exists|folder: Seq<Seq<char>>|
        #[trigger] listed_modules(listing, folder) && if lists_path(folder, single) {
            tracks == absolutized_all(folder, cwd)
        } else {
            tracks == seq![absolutized(single, cwd)]
        }
}

/// What the arguments expand to, in order, when the directories among them
/// list the module files `mods` (by position): each directory becomes its
/// module files, every other path stays (made absolute).
pub open spec fn expansion(args: Seq<QueueArg>, cwd: Option<Seq<char>>, mods: Seq<Seq<Seq<char>>>) -> Seq<
    Seq<char>,
>
    decreases args.len(),
{
    if args.len() == 0 {
        Seq::empty()
    } else {
        let k = args.len() - 1;
        let rest = expansion(args.drop_last(), cwd, mods);
        if args[k].is_dir {
            rest + mods[k]
        } else {
            rest.push(absolutized(args[k].path@, cwd))
        }
    }
}

/// The expansion of `args` reads only the first `args.len()` module lists.
proof fn lemma_expansion_prefix(
    args: Seq<QueueArg>,
    cwd: Option<Seq<char>>,
    mods: Seq<Seq<Seq<char>>>,
    more: Seq<Seq<Seq<char>>>,
)
    requires
        mods.len() >= args.len(),
        more.len() >= args.len(),
        forall|i: int| 0 <= i < args.len() ==> mods[i] == more[i],
    ensures
        expansion(args, cwd, mods) == expansion(args, cwd, more),
    decreases args.len(),
{
    if args.len() > 0 {
        lemma_expansion_prefix(args.drop_last(), cwd, mods, more);
    }
}

/// `mods` holds, for every directory among `args`, its module files.
pub open spec fn dir_modules(args: Seq<QueueArg>, mods: Seq<Seq<Seq<char>>>) -> bool {
    &&& mods.len() == args.len()
    &&& forall|i: int|
        0 <= i < args.len() && args[i].is_dir ==> listed_modules(args[i].listing, #[trigger] mods[i])
}

/// Decide the GUI's starting queue and track. Files (or directories) win over
/// a playlist: the queue they build is shuffled as asked, anchored on the
/// explicit initial track so that track still plays first, and with no such
/// track playback starts at the head of the play order. A playlist alone (its
/// `text` as read; `None` when unreadable, an error) is shuffled as asked and
/// starts at its head. Nothing at all gives no queue.
pub fn resolve_queue(
    args: Vec<QueueArg>,
    playlist_path: Option<String>,
    playlist_text: Option<String>,
    cwd: Option<&str>,
    shuffle: bool,
    rng: &mut Rng,
) -> (r: Result<(Option<Playlist>, Option<String>), LaunchError>)
    ensures
        args@.len() > 0 ==> (r matches Ok((Some(q), init)) && q.wf() && q.shuffled_view() == shuffle
            && exists|tracks: Seq<Seq<char>>, first: Option<Seq<char>>|
            #[trigger] is_built_queue(args@, cwd_view(cwd), tracks, first) && q.tracks() == tracks
                && opt_view(init) == match first {
                Some(f) => Some(f),
                None => if tracks.len() > 0 {
                    Some(q.play_order()[0])
                } else {
                    None
                },
            } && (shuffle && first is Some && anchor_view_in(tracks, first) is Some ==> q.play_order()[0]
                == q.tracks()[anchor_view_in(tracks, first)->0])),
        args@.len() == 0 && playlist_path is None ==> r == Ok::<
            (Option<Playlist>, Option<String>),
            LaunchError,
        >((None, None)),
        args@.len() == 0 && playlist_path is Some && playlist_text is None ==> r == Err::<
            (Option<Playlist>, Option<String>),
            LaunchError,
        >(LaunchError::PlaylistUnreadable(playlist_path->0)),
        args@.len() == 0 && playlist_path is Some && playlist_text is Some ==> (r matches Ok(
            (Some(q), init),
        ) && q.wf() && q.shuffled_view() == shuffle && q.tracks() == m3u_tracks(
            playlist_text->0@,
            playlist_path->0@,
        ) && q.backing() == Some(playlist_path->0@) && opt_view(init) == (if q.tracks().len() > 0 {
            Some(q.play_order()[0])
        } else {
            None
        })),
{
    if args.len() > 0 {
        let (mut queue, initial) = build_queue(args, cwd);
        let ghost tracks = queue.tracks();
        let ghost first = opt_view(initial);
        match &initial {
            Some(a) => queue.set_shuffle_with(shuffle, Some(a.as_str()), rng),
            None => queue.set_shuffle_with(shuffle, None, rng),
        }
        let init = match initial {
            Some(a) => Some(a),
            None => match queue.start() {
                Some(s) => Some(s.clone()),
                None => None,
            },
        };
        return Ok((Some(queue), init));
    }
    match playlist_path {
        Some(pl) => match playlist_text {
            None => Err(LaunchError::PlaylistUnreadable(pl)),
            Some(t) => {
                let mut queue = Playlist::from_m3u(t.as_str(), pl.as_str());
                queue.set_shuffle_with(shuffle, None, rng);
                let init = match queue.start() {
                    Some(s) => Some(s.clone()),
                    None => None,
                };
                Ok((Some(queue), init))
            },
        },
        None => Ok((None, None)),
    }
}

/// Where the anchor path first stands among `tracks`, as the shuffle anchors
/// it.
pub open spec fn anchor_view_in(tracks: Seq<Seq<char>>, anchor: Option<Seq<char>>) -> Option<int> {
    match anchor {
        Some(a) => first_match(tracks, a),
        None => None,
    }
}

} // verus!
