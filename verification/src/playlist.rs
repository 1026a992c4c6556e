//! M3U playlist — a list of module file paths with an optional backing file
//! and a play order that can be shuffled.
//!
//! The format is plain-text M3U: one path per line, lines starting with `#`
//! are treated as comments/metadata and ignored when reading. Relative paths
//! in a loaded file are resolved against the playlist's parent directory.

use crate::paths::{
    absolutized, absolutized_all, cwd_view, is_absolute, join, join_chars, make_absolute, parent, paths_equal, same_components,
    same_file, spec_parent, spec_same_components,
};
use crate::rng::{identity, is_permutation_of_range, permutation, shuffle_of, swapped, Rng};
use crate::text::{char_views, chars_of, split_chars, split_on, push_str, string_from_chars, trim, trim_chars, views};
use vstd::prelude::*;

verus! {

/// A trimmed line names a track when it is not blank and not a `#` comment.
pub open spec fn is_track_line(l: Seq<char>) -> bool {
    l.len() > 0 && l[0] != '#'
}

/// The track paths listed by `lines`, relative ones resolved against `base`.
pub open spec fn track_paths(lines: Seq<Seq<char>>, base: Seq<char>) -> Seq<Seq<char>>
    decreases lines.len(),
{
    if lines.len() == 0 {
        Seq::empty()
    } else {
        let rest = track_paths(lines.drop_last(), base);
        let l = trim(lines.last());
        if is_track_line(l) {
            rest.push(join(base, l))
        } else {
            rest
        }
    }
}

/// The directory relative entries of the playlist file at `path` resolve
/// against: its parent, or `.` when it has none.
pub open spec fn playlist_base(path: Seq<char>) -> Seq<char> {
    match spec_parent(path) {
        Some(d) => d,
        None => "."@,
    }
}

/// The tracks an M3U text stored at `path` lists, in file order.
pub open spec fn m3u_tracks(text: Seq<char>, path: Seq<char>) -> Seq<Seq<char>> {
    track_paths(split_on(text, '\n'), playlist_base(path))
}

/// The index of the first element of `s` that names the same file as `c`.
pub open spec fn first_match(s: Seq<Seq<char>>, c: Seq<char>) -> Option<int>
    decreases s.len(),
{
    if s.len() == 0 {
        None
    } else {
        match first_match(s.drop_last(), c) {
            Some(k) => Some(k),
            None => if same_file(s.last(), c) {
                Some(s.len() - 1)
            } else {
                None
            },
        }
    }
}

pub struct Playlist {
    pub entries: Vec<String>,
    /// Backing file path, if this playlist was loaded from or targeted at a file.
    pub path: Option<String>,
    /// Play order: indices into `entries`.
    order: Vec<usize>,
    shuffled: bool,
}

impl Playlist {
    /// The entries' paths, in file order.
    pub closed spec fn tracks(&self) -> Seq<Seq<char>> {
        views(self.entries@)
    }

    /// The backing file's path, if there is one.
    pub closed spec fn backing(&self) -> Option<Seq<char>> {
        match self.path {
            Some(p) => Some(p@),
            None => None,
        }
    }

    pub closed spec fn order_view(&self) -> Seq<usize> {
        self.order@
    }

    pub closed spec fn shuffled_view(&self) -> bool {
        self.shuffled
    }

    /// The entries' paths in play order.
    pub open spec fn play_order(&self) -> Seq<Seq<char>> {
        self.order_view().map_values(|i: usize| self.tracks()[i as int])
    }

    /// The play order covers every entry exactly once, and is the file order
    /// unless shuffled.
    pub closed spec fn wf(&self) -> bool {
        &&& self.entries@.len() <= usize::MAX
        &&& is_permutation_of_range(self.order_view(), self.entries@.len())
        &&& !self.shuffled_view() ==> self.order_view() == identity(self.entries@.len())
    }

    /// A playlist that is not shuffled plays its entries in file order.
    pub proof fn unshuffled_plays_in_file_order(&self)
        requires
            self.wf(),
            !self.shuffled_view(),
        ensures
            self.play_order() == self.tracks(),
    {
        let n = self.entries@.len();
        assert(self.tracks().len() == n);
        assert forall|i: int| 0 <= i < n implies #[trigger] self.play_order()[i]
            == self.tracks()[i] by {
            assert(self.order_view()[i] == i as usize);
        }
        assert(self.play_order() =~= self.tracks());
    }

    /// Build an in-memory playlist from a list of paths (no backing file).
    /// Relative paths are made absolute against the working directory `cwd`
    /// when it is known.
    pub fn from_files(files: Vec<String>, cwd: Option<&str>) -> (r: Playlist)
        ensures
            r.wf(),
            !r.shuffled_view(),
            r.backing() is None,
            r.tracks() == absolutized_all(views(files@), cwd_view(cwd)),
    {
        let ghost cwdv = cwd_view(cwd);
        let mut entries: Vec<String> = Vec::new();
        let mut i: usize = 0;
        while i < files.len()
            invariant
                i <= files@.len(),
                cwdv == cwd_view(cwd),
                entries@.len() == i,
                forall|k: int| 0 <= k < i ==> #[trigger] entries@[k]@ == absolutized(files@[k]@, cwdv),
            decreases files@.len() - i,
        {
            let e = make_absolute(files[i].as_str(), cwd);
            entries.push(e);
            i = i + 1;
        }
        assert(views(entries@) =~= absolutized_all(views(files@), cwdv));
        let order = natural_order(entries.len());
        Playlist { entries, path: None, order, shuffled: false }
    }

    /// A playlist read from the M3U `text` of the file at `path`. Comment lines
    /// (`#`-prefixed) and blank lines are skipped; relative paths are resolved
    /// against the playlist file's parent directory.
    pub fn from_m3u(text: &str, path: &str) -> (r: Playlist)
        ensures
            r.wf(),
            !r.shuffled_view(),
            r.backing() == Some(path@),
            r.tracks() == m3u_tracks(text@, path@),
    {
        let base = match parent(path) {
            Some(d) => chars_of(d.as_str()),
            None => chars_of("."),
        };
        let t = chars_of(text);
        let entries = m3u_lines_to_tracks(t.as_slice(), base.as_slice());
        let order = natural_order(entries.len());
        Playlist { entries, path: Some(path.to_owned()), order, shuffled: false }
    }

    /// The backing file's path, if there is one.
    pub fn backing_path(&self) -> (r: Option<String>)
        ensures
            crate::launch::opt_view(r) == self.backing(),
    {
        match &self.path {
            Some(p) => Some(p.clone()),
            None => None,
        }
    }

    pub fn is_empty(&self) -> (r: bool)
        ensures
            r == (self.tracks().len() == 0),
    {
        self.entries.len() == 0
    }

    pub fn len(&self) -> (r: usize)
        ensures
            r == self.tracks().len(),
    {
        self.entries.len()
    }

    /// The entry at file position `i`.
    pub fn get(&self, i: usize) -> (r: Option<&String>)
        ensures
            i < self.tracks().len() ==> (r matches Some(s) && s@ == self.tracks()[i as int]),
            i >= self.tracks().len() ==> r is None,
    {
        if i < self.entries.len() {
            Some(&self.entries[i])
        } else {
            None
        }
    }

    /// The first entry in file order.
    pub fn first(&self) -> (r: Option<&String>)
        ensures
            self.tracks().len() > 0 ==> (r matches Some(s) && s@ == self.tracks()[0]),
            self.tracks().len() == 0 ==> r is None,
    {
        self.get(0)
    }

    /// The first entry in play order — where playback starts.
    pub fn start(&self) -> (r: Option<&String>)
        requires
            self.wf(),
        ensures
            self.tracks().len() > 0 ==> (r matches Some(s) && s@ == self.play_order()[0]),
            self.tracks().len() == 0 ==> r is None,
    {
        if self.entries.len() == 0 {
            None
        } else {
            let k = self.order[0];
            Some(&self.entries[k])
        }
    }

    pub fn is_shuffled(&self) -> (r: bool)
        ensures
            r == self.shuffled_view(),
    {
        self.shuffled
    }

    /// File position of the first entry naming the same file as `p`.
    pub fn position(&self, p: &str) -> (r: Option<usize>)
        ensures
            r matches Some(k) ==> first_match(self.tracks(), p@) == Some(k as int),
            r is None ==> first_match(self.tracks(), p@) is None,
    {
        find_in(&self.entries, p)
    }

    /// Entry immediately after `current` in play order, or `None`.
    pub fn next_after(&self, current: &str) -> (r: Option<String>)
        requires
            self.wf(),
        ensures
            r matches Some(s) ==> (first_match(self.play_order(), current@) matches Some(k) && k + 1
                < self.play_order().len() && s@ == self.play_order()[k + 1]),
            r is None ==> !(first_match(self.play_order(), current@) matches Some(k) && k + 1
                < self.play_order().len()),
    {
        let (seq, pos) = self.locate(current);
        match pos {
            Some(k) => {
                if k + 1 < seq.len() {
                    Some(seq[k + 1].clone())
                } else {
                    None
                }
            },
            None => None,
        }
    }

    /// Entry immediately before `current` in play order, or `None`.
    pub fn prev_before(&self, current: &str) -> (r: Option<String>)
        requires
            self.wf(),
        ensures
            r matches Some(s) ==> (first_match(self.play_order(), current@) matches Some(k) && k
                >= 1 && s@ == self.play_order()[k - 1]),
            r is None ==> !(first_match(self.play_order(), current@) matches Some(k) && k >= 1),
    {
        let (seq, pos) = self.locate(current);
        match pos {
            Some(k) => {
                if k >= 1 {
                    Some(seq[k - 1].clone())
                } else {
                    None
                }
            },
            None => None,
        }
    }

    /// The entries in play order, and where `current` first stands in it.
    fn locate(&self, current: &str) -> (r: (Vec<String>, Option<usize>))
        requires
            self.wf(),
        ensures
            views(r.0@) == self.play_order(),
            r.1 matches Some(k) ==> k < r.0@.len() && first_match(self.play_order(), current@)
                == Some(k as int),
            r.1 is None ==> first_match(self.play_order(), current@) is None,
    {
        let mut seq: Vec<String> = Vec::new();
        let mut i: usize = 0;
        while i < self.order.len()
            invariant
                self.wf(),
                i <= self.order@.len(),
                seq@.len() == i,
                forall|q: int| 0 <= q < i ==> #[trigger] seq@[q]@ == self.play_order()[q],
            decreases self.order@.len() - i,
        {
            let k = self.order[i];
            proof {
                assert((k as int) < self.entries@.len());
            }
            let e = self.entries[k].clone();
            seq.push(e);
            i = i + 1;
        }
        assert(views(seq@) =~= self.play_order());
        let pos = find_in(&seq, current);
        (seq, pos)
    }

    /// Turn shuffle on or off. Off restores the file order. On draws a fresh
    /// shuffle from `rng`; when `anchor` names an entry, that entry is moved to
    /// the front of the play order so the current track keeps playing first.
    pub fn set_shuffle_with(&mut self, on: bool, anchor: Option<&str>, rng: &mut Rng)
        requires
            old(self).wf(),
        ensures
            final(self).wf(),
            final(self).tracks() == old(self).tracks(),
            final(self).backing() == old(self).backing(),
            final(self).shuffled_view() == on,
            !on ==> final(self).play_order() == final(self).tracks(),
            on ==> final(self).order_view() == anchored_shuffle(
                shuffle_of(old(self).tracks().len(), old(rng).state()).0,
                anchor_in(old(self).tracks(), anchor),
            ),
            on ==> match anchor_in(old(self).tracks(), anchor) {
                Some(k) => final(self).play_order()[0] == final(self).tracks()[k],
                None => true,
            },
    {
        let n = self.entries.len();
        if !on {
            self.order = natural_order(n);
            self.shuffled = false;
            proof {
                self.unshuffled_plays_in_file_order();
            }
            return;
        }
        let perm = permutation(n, rng);
        let pos = match anchor {
            Some(a) => find_in(&self.entries, a),
            None => None,
        };
        let order = match pos {
            Some(k) => bring_to_front(perm, k),
            None => perm,
        };
        self.order = order;
        self.shuffled = true;
    }

    /// Turn shuffle on or off with a generator seeded from the clock.
    pub fn set_shuffle(&mut self, on: bool, anchor: Option<&str>)
        requires
            old(self).wf(),
        ensures
            final(self).wf(),
            final(self).tracks() == old(self).tracks(),
            final(self).backing() == old(self).backing(),
            final(self).shuffled_view() == on,
            !on ==> final(self).play_order() == final(self).tracks(),
            on ==> match anchor_in(old(self).tracks(), anchor) {
                Some(k) => final(self).play_order()[0] == final(self).tracks()[k],
                None => true,
            },
    {
        let mut rng = Rng::from_clock();
        self.set_shuffle_with(on, anchor, &mut rng);
    }

    /// Adds `p` at the end (of the file order and of the play order) unless an
    /// entry with exactly this path is already present.
    pub fn push_entry(&mut self, p: String)
        requires
            old(self).wf(),
        ensures
            final(self).wf(),
            final(self).backing() == old(self).backing(),
            final(self).shuffled_view() == old(self).shuffled_view(),
            lists_path(old(self).tracks(), p@) ==> *final(self) == *old(self),
            !lists_path(old(self).tracks(), p@) ==> final(self).tracks() == old(self).tracks().push(
                p@,
            ),
            !lists_path(old(self).tracks(), p@) ==> final(self).order_view() == old(
                self,
            ).order_view().push(old(self).tracks().len() as usize),
            !lists_path(old(self).tracks(), p@) ==> final(self).play_order() == old(
                self,
            ).play_order().push(p@),
    {
        let n = self.entries.len();
        let mut i: usize = 0;
        while i < n
            invariant
                n == self.entries@.len(),
                i <= n,
                self.wf(),
                *self == *old(self),
                forall|k: int| 0 <= k < i ==> !spec_same_components(#[trigger] self.tracks()[k], p@),
            decreases n - i,
        {
            if same_components(self.entries[i].as_str(), p.as_str()) {
                assert(spec_same_components(self.tracks()[i as int], p@));
                return;
            }
            i = i + 1;
        }
        let ghost old_order = self.order@;
        self.entries.push(p);
        self.order.push(n);
        let total = self.entries.len();
        proof {
            assert(total == n + 1);
            assert(self.tracks() =~= old(self).tracks().push(p@));
            lemma_extend_permutation(old_order, n as nat);
            if !self.shuffled {
                assert(self.order@ =~= identity((n + 1) as nat));
            }
            assert forall|k: int| 0 <= k < old_order.len() implies (old_order[k] as int) < n by {}
            assert(self.play_order() =~= old(self).play_order().push(p@));
        }
    }
}

/// Whether `tracks` holds a path equal to `p` component by component.
pub open spec fn lists_path(tracks: Seq<Seq<char>>, p: Seq<char>) -> bool {
    exists|i: int| 0 <= i < tracks.len() && spec_same_components(#[trigger] tracks[i], p)
}

/// Where the entry named by `anchor` first stands among `tracks`, if it is given
/// and found.
pub open spec fn anchor_in(tracks: Seq<Seq<char>>, anchor: Option<&str>) -> Option<int> {
    match anchor {
        Some(a) => first_match(tracks, a@),
        None => None,
    }
}

/// A shuffle `p` with the entry at file position `anchor` (if any) exchanged
/// into the first slot.
pub open spec fn anchored_shuffle(p: Seq<usize>, anchor: Option<int>) -> Seq<usize> {
    match anchor {
        Some(k) => swapped(p, 0, p.index_of(k as usize)),
        None => p,
    }
}

proof fn lemma_extend_permutation(v: Seq<usize>, n: nat)
    requires
        is_permutation_of_range(v, n),
        n <= usize::MAX,
    ensures
        is_permutation_of_range(v.push(n as usize), n + 1),
{
    let w = v.push(n as usize);
    assert forall|k: int| 0 <= k < w.len() implies (#[trigger] w[k] as int) < n + 1 by {
        if k < v.len() {
            assert(w[k] == v[k]);
        }
    }
    assert forall|a: int, b: int| 0 <= a < w.len() && 0 <= b < w.len() && a != b implies w[a]
        != w[b] by {
        if a < v.len() && b < v.len() {
            assert(w[a] == v[a] && w[b] == v[b]);
        } else if a < v.len() {
            assert((w[a] as int) < n);
        } else {
            assert((w[b] as int) < n);
        }
    }
    assert forall|x: usize| (x as int) < n + 1 implies #[trigger] w.contains(x) by {
        if (x as int) < n {
            assert(v.contains(x));
            let p = choose|p: int| 0 <= p < v.len() && v[p] == x;
            assert(w[p] == x);
        } else {
            assert(w[v.len() as int] == x);
        }
    }
}

/// `0, 1, ..., n - 1` as a vector.
fn natural_order(n: usize) -> (r: Vec<usize>)
    ensures
        r@ == identity(n as nat),
        is_permutation_of_range(r@, n as nat),
{
    let mut v: Vec<usize> = Vec::new();
    let mut k: usize = 0;
    while k < n
        invariant
            k <= n,
            v@ == identity(k as nat),
        decreases n - k,
    {
        v.push(k);
        proof {
            assert(v@ =~= identity((k + 1) as nat));
        }
        k = k + 1;
    }
    proof {
        crate::rng::shuffle_is_bijection(0, 0);
        lemma_identity_permutation(n as nat);
    }
    v
}

proof fn lemma_identity_permutation(n: nat)
    requires
        n <= usize::MAX,
    ensures
        is_permutation_of_range(identity(n), n),
{
    crate::rng::lemma_identity_is_permutation(n);
}

/// Moves the value `k` of a permutation of `0..n` to the front by exchanging
/// it with the first element.
fn bring_to_front(p: Vec<usize>, k: usize) -> (r: Vec<usize>)
    requires
        is_permutation_of_range(p@, p@.len()),
        (k as int) < p@.len(),
    ensures
        r@ == swapped(p@, 0, p@.index_of(k)),
        is_permutation_of_range(r@, p@.len()),
        r@[0] == k,
{
    let mut p = p;
    let ghost p0 = p@;
    assert(p0.contains(k));
    let mut j: usize = 0;
    while j < p.len() && p[j] != k
        invariant
            p@ == p0,
            j <= p0.len(),
            p0.contains(k),
            forall|q: int| 0 <= q < j ==> p0[q] != k,
        decreases p0.len() - j,
    {
        j = j + 1;
    }
    proof {
        if j == p0.len() {
            let w = choose|q: int| 0 <= q < p0.len() && p0[q] == k;
            assert(p0[w] != k);
        }
    }
    proof {
        let w = p0.index_of(k);
        assert(0 <= w < p0.len() && p0[w] == k);
        assert(w == j as int) by {
            if w != j as int {
                assert(p0.no_duplicates());
            }
        }
        crate::rng::lemma_swap_keeps_permutation(p0, p0.len(), 0, j as int);
    }
    let a = p[0];
    let b = p[j];
    p.set(0, b);
    p.set(j, a);
    assert(p@ =~= swapped(p0, 0, j as int));
    p
}

/// Position of the first of `list` naming the same file as `p`.
fn find_in(list: &Vec<String>, p: &str) -> (r: Option<usize>)
    ensures
        r matches Some(k) ==> k < list@.len() && first_match(views(list@), p@) == Some(k as int),
        r is None ==> first_match(views(list@), p@) is None,
{
    let mut i: usize = 0;
    while i < list.len()
        invariant
            i <= list@.len(),
            first_match(views(list@).subrange(0, i as int), p@) is None,
        decreases list@.len() - i,
    {
        let hit = paths_equal(list[i].as_str(), p);
        proof {
            assert(views(list@).subrange(0, i + 1).drop_last() =~= views(list@).subrange(
                0,
                i as int,
            ));
        }
        if hit {
            proof {
                lemma_first_match_prefix(views(list@), p@, (i + 1) as int);
            }
            return Some(i);
        }
        i = i + 1;
    }
    assert(views(list@).subrange(0, list@.len() as int) =~= views(list@));
    None
}

proof fn lemma_first_match_prefix(s: Seq<Seq<char>>, c: Seq<char>, n: int)
    requires
        0 <= n <= s.len(),
        first_match(s.subrange(0, n), c) is Some,
    ensures
        first_match(s, c) == first_match(s.subrange(0, n), c),
    decreases s.len() - n,
{
    if n < s.len() {
        assert(s.subrange(0, n + 1).drop_last() =~= s.subrange(0, n));
        lemma_first_match_prefix(s, c, n + 1);
    } else {
        assert(s.subrange(0, n) =~= s);
    }
}

/// Splits the M3U text `t` into lines and keeps the track paths, resolving
/// relative ones against `base`.
fn m3u_lines_to_tracks(t: &[char], base: &[char]) -> (r: Vec<String>)
    ensures
        views(r@) == track_paths(split_on(t@, '\n'), base@),
{
    let lines = split_chars(t, '\n');
    let ghost ls = split_on(t@, '\n');
    let mut done: Vec<String> = Vec::new();
    let mut i: usize = 0;
    while i < lines.len()
        invariant
            char_views(lines@) == ls,
            i <= lines@.len(),
            views(done@) == track_paths(ls.subrange(0, i as int), base@),
        decreases lines@.len() - i,
    {
        proof {
            assert(ls.subrange(0, i + 1).drop_last() =~= ls.subrange(0, i as int));
            assert(ls.subrange(0, i + 1).last() == lines@[i as int]@);
        }
        push_track(&mut done, lines[i].as_slice(), base);
        i = i + 1;
    }
    assert(ls.subrange(0, lines@.len() as int) =~= ls);
    done
}

/// Appends the track a raw line names, if it names one.
fn push_track(done: &mut Vec<String>, line: &[char], base: &[char])
    ensures
        views(final(done)@) == if is_track_line(trim(line@)) {
            views(old(done)@).push(join(base@, trim(line@)))
        } else {
            views(old(done)@)
        },
{
    let l = trim_chars(line);
    if l.len() > 0 && l[0] != '#' {
        let full = join_chars(base, l.as_slice());
        done.push(string_from_chars(full.as_slice()));
        proof {
            assert(views(done@) =~= views(old(done)@).push(join(base@, trim(line@))));
        }
    }
}

/// Whether the M3U `text` of the playlist file at `path` already lists
/// `entry`. Relative lines are resolved against the playlist's directory
/// before comparing.
pub fn m3u_lists(text: &str, path: &str, entry: &str) -> (r: bool)
    ensures
        r == (first_match(m3u_tracks(text@, path@), entry@) is Some),
{
    let pl = Playlist::from_m3u(text, path);
    find_in(&pl.entries, entry).is_some()
}

/// The text one press of "add to playlist" appends to a playlist file: the
/// `#EXTM3U` header when the file does not exist yet, then the entry on a
/// line of its own. Every press appends the entry, whether or not the file
/// already lists it.
pub open spec fn appended_text(file_exists: bool, entry: Seq<char>) -> Seq<char> {
    (if file_exists {
        Seq::empty()
    } else {
        "#EXTM3U\n"@
    }) + entry + "\n"@
}

/// What to append to a playlist file for one press of "add to playlist".
pub fn append_text(file_exists: bool, entry: &str) -> (r: String)
    ensures
        r@ == appended_text(file_exists, entry@),
{
    let mut v: Vec<char> = Vec::new();
    if !file_exists {
        push_str(&mut v, "#EXTM3U\n");
    }
    push_str(&mut v, entry);
    push_str(&mut v, "\n");
    proof {
        reveal_strlit("#EXTM3U\n");
        reveal_strlit("\n");
    }
    string_from_chars(v.as_slice())
}

} // verus!
