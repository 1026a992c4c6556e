//! File browser model: the listing of one directory (its parent, its
//! sub-directories, then its module files), the selection, and the play order
//! over the module files that next/previous step through.
//!
//! Reading the directory is the caller's part: it hands over what it read as
//! `Listed` items, and `None` when the directory could not be read.

use crate::files::{is_module, is_module_path, Listed};
use crate::paths::{
    file_name, lowercase, parent, same_components, spec_file_name, spec_lowercase, spec_parent,
    spec_same_components,
};
use crate::rng::{identity, is_permutation_of_range, permutation, shuffle_of, Rng};
use crate::sorting::{sorted_stably, stable_order};
use crate::text::{char_views, chars_of};
use vstd::prelude::*;

verus! {

#[derive(Debug)]
pub struct Entry {
    pub path: String,
    pub is_dir: bool,
    pub label: String,
}

/// What an entry shows and leads to.
pub struct EntryView {
    pub path: Seq<char>,
    pub is_dir: bool,
    pub label: Seq<char>,
}

impl View for Entry {
    type V = EntryView;

    open spec fn view(&self) -> EntryView {
        EntryView { path: self.path@, is_dir: self.is_dir, label: self.label@ }
    }
}

impl Clone for Entry {
    fn clone(&self) -> (r: Entry)
        ensures
            r@ == self@,
    {
        Entry { path: self.path.clone(), is_dir: self.is_dir, label: self.label.clone() }
    }
}

pub open spec fn entry_views(es: Seq<Entry>) -> Seq<EntryView> {
    es.map_values(|e: Entry| e@)
}

/// A directory whose name starts with `.` is hidden.
pub open spec fn is_hidden(p: Seq<char>) -> bool {
    match spec_file_name(p) {
        Some(n) => n.len() > 0 && n[0] == '.',
        None => false,
    }
}

/// The entry a listed sub-directory becomes, unless it is hidden: its label
/// is its name followed by `/`.
pub open spec fn dir_entry(d: Listed) -> Option<EntryView> {
    if d.is_dir && !is_hidden(d.path@) {
        Some(
            EntryView {
                path: d.path@,
                is_dir: true,
                label: match spec_file_name(d.path@) {
                    Some(n) => n.push('/'),
                    None => Seq::empty(),
                },
            },
        )
    } else {
        None
    }
}

/// The entry a listed module file becomes: its label is its name.
pub open spec fn file_entry(d: Listed) -> Option<EntryView> {
    if !d.is_dir && is_module_path(d.path@) {
        Some(
            EntryView {
                path: d.path@,
                is_dir: false,
                label: match spec_file_name(d.path@) {
                    Some(n) => n,
                    None => Seq::empty(),
                },
            },
        )
    } else {
        None
    }
}

/// The entries the visible sub-directories among `ls` become, in listing order.
pub open spec fn listed_dirs(ls: Seq<Listed>) -> Seq<EntryView> {
    ls.filter_map(|d: Listed| dir_entry(d))
}

/// The entries the module files among `ls` become, in listing order.
pub open spec fn listed_files(ls: Seq<Listed>) -> Seq<EntryView> {
    ls.filter_map(|d: Listed| file_entry(d))
}

/// Directories sort by label.
pub open spec fn dir_keys(es: Seq<EntryView>) -> Seq<Seq<char>> {
    es.map_values(|e: EntryView| e.label)
}

/// Module files sort by lower-cased label.
pub open spec fn file_keys(es: Seq<EntryView>) -> Seq<Seq<char>> {
    es.map_values(|e: EntryView| spec_lowercase(e.label))
}

/// `out` is `es` sorted stably by `keys`.
pub open spec fn entries_sorted_as(es: Seq<EntryView>, keys: Seq<Seq<char>>, out: Seq<EntryView>) -> bool {
    exists|o: Seq<usize>| sorted_stably(keys, o) && out == o.map_values(|i: usize| es[i as int])
}

/// Sorting entries stably by their keys has one outcome.
pub proof fn entries_sorted_as_is_unique(
    es: Seq<EntryView>,
    keys: Seq<Seq<char>>,
    out1: Seq<EntryView>,
    out2: Seq<EntryView>,
)
    requires
        entries_sorted_as(es, keys, out1),
        entries_sorted_as(es, keys, out2),
    ensures
        out1 == out2,
{
    let o1 = choose|o: Seq<usize>|
        sorted_stably(keys, o) && out1 == o.map_values(|i: usize| es[i as int]);
    let o2 = choose|o: Seq<usize>|
        sorted_stably(keys, o) && out2 == o.map_values(|i: usize| es[i as int]);
    crate::sorting::stable_order_is_unique(keys, o1, o2);
}

/// The entry `..` for the parent directory of `root`, if it has one.
pub open spec fn parent_entry(root: Seq<char>) -> Seq<EntryView> {
    match spec_parent(root) {
        Some(p) => seq![EntryView { path: p, is_dir: true, label: ".."@ }],
        None => Seq::empty(),
    }
}

/// `out` is `up`, then the visible sub-directories among `ls` sorted by label,
/// then the module files among `ls` sorted by lower-cased label.
pub open spec fn read_listing(up: Seq<EntryView>, ls: Seq<Listed>, out: Seq<EntryView>) -> bool {
    exists|sd: Seq<EntryView>, sf: Seq<EntryView>|
        #![trigger entries_sorted_as(listed_dirs(ls), dir_keys(listed_dirs(ls)), sd), entries_sorted_as(listed_files(ls), file_keys(listed_files(ls)), sf)]
        entries_sorted_as(listed_dirs(ls), dir_keys(listed_dirs(ls)), sd) && entries_sorted_as(
            listed_files(ls),
            file_keys(listed_files(ls)),
            sf,
        ) && out == up + sd + sf
}

/// The listing of the directory `root` whose contents are `items`: an entry
/// `..` for the parent directory if there is one, then the visible
/// sub-directories sorted by label, then the module files sorted by
/// lower-cased label. A directory that could not be read lists only `..`.
pub open spec fn is_listing(root: Seq<char>, items: Option<Seq<Listed>>, out: Seq<EntryView>) -> bool {
    match items {
        None => out == parent_entry(root),
        Some(ls) => read_listing(parent_entry(root), ls, out),
    }
}

/// The positions of the module (non-directory) entries, in listing order.
pub open spec fn file_positions(es: Seq<EntryView>) -> Seq<usize>
    decreases es.len(),
{
    if es.len() == 0 {
        Seq::empty()
    } else if es.last().is_dir {
        file_positions(es.drop_last())
    } else {
        file_positions(es.drop_last()).push((es.len() - 1) as usize)
    }
}

/// The first non-directory entry whose path is `p` (component-wise).
pub open spec fn module_entry_at(es: Seq<EntryView>, p: Seq<char>) -> Option<int>
    decreases es.len(),
{
    if es.len() == 0 {
        None
    } else {
        match module_entry_at(es.drop_last(), p) {
            Some(k) => Some(k),
            None => if !es.last().is_dir && spec_same_components(es.last().path, p) {
                Some(es.len() - 1)
            } else {
                None
            },
        }
    }
}

/// What activating the selection asks for.
pub enum Activation {
    /// Nothing is selected.
    Nothing,
    /// A directory was chosen: list it and open it with `open_dir`.
    EnterDir(String),
    /// A module was chosen: play it.
    Play(String),
}

pub struct Browser {
    pub root: String,
    pub entries: Vec<Entry>,
    /// Index of the highlighted entry.
    selected: Option<usize>,
    /// Play order over the module entries (indices into `entries`, skipping
    /// directories). Natural order when not shuffled.
    order: Vec<usize>,
    /// Whether `order` is shuffled. Preserved across directory changes.
    shuffle: bool,
}

impl Browser {
    pub closed spec fn listing(&self) -> Seq<EntryView> {
        entry_views(self.entries@)
    }

    pub closed spec fn root_view(&self) -> Seq<char> {
        self.root@
    }

    pub closed spec fn selection(&self) -> Option<usize> {
        self.selected
    }

    pub closed spec fn order_view(&self) -> Seq<usize> {
        self.order@
    }

    pub closed spec fn shuffled_view(&self) -> bool {
        self.shuffle
    }

    /// The module entries in play order.
    pub open spec fn play_order(&self) -> Seq<EntryView> {
        self.order_view().map_values(|i: usize| self.listing()[i as int])
    }

    /// The selection is an entry; the play order holds each module entry once,
    /// in listing order unless shuffled.
    pub closed spec fn wf(&self) -> bool {
        let fp = file_positions(entry_views(self.entries@));
        &&& self.entries@.len() <= usize::MAX
        &&& self.selected matches Some(s) ==> (s as int) < self.entries@.len()
        &&& self.order@.len() == fp.len()
        &&& self.order@.no_duplicates()
        &&& forall|k: int| 0 <= k < self.order@.len() ==> #[trigger] fp.contains(self.order@[k])
        &&& !self.shuffle ==> self.order@ == fp
    }
}

impl Browser {
    /// A browser on `root`, listing what was read there, with the first entry
    /// selected and the module files in listing order.
    pub fn new(root: String, listing: Option<Vec<Listed>>) -> (r: Browser)
        ensures
            r.wf(),
            r.root_view() == root@,
            is_listing(root@, listed_view(listing), r.listing()),
            !r.shuffled_view(),
            r.order_view() == file_positions(r.listing()),
            r.selection() == (if r.listing().len() > 0 {
                Some(0usize)
            } else {
                None
            }),
    {
        let entries = list_dir(root.as_str(), listing);
        let order = module_positions(&entries);
        let selected = if entries.len() > 0 {
            Some(0)
        } else {
            None
        };
        let b = Browser { root, entries, selected, order, shuffle: false };
        proof {
            lemma_file_positions(entry_views(b.entries@));
        }
        b
    }

    /// Re-list the directory from what was read there. The play order is
    /// rebuilt (drawing a fresh shuffle from `rng` when shuffled) — also when
    /// the directory could not be read (`listing` is `None`): the listing is
    /// then only the parent entry and the play order is empty, where keeping
    /// the previous order would leave it naming entries that are gone; the
    /// selection keeps its position while the new listing is long enough to
    /// hold it, and otherwise moves to the last entry (none when the listing
    /// is empty) — where a list widget puts a selection past its end.
    pub fn refresh(&mut self, listing: Option<Vec<Listed>>, rng: &mut Rng)
        requires
            old(self).wf(),
        ensures
            final(self).wf(),
            final(self).root_view() == old(self).root_view(),
            is_listing(old(self).root_view(), listed_view(listing), final(self).listing()),
            final(self).shuffled_view() == old(self).shuffled_view(),
            final(self).order_view() == rebuilt_order(
                final(self).listing(),
                old(self).shuffled_view(),
                old(rng).state(),
            ),
            final(self).selection() == match old(self).selection() {
                Some(s) => if (s as int) < final(self).listing().len() {
                    Some(s)
                } else if final(self).listing().len() > 0 {
                    Some((final(self).listing().len() - 1) as usize)
                } else {
                    None
                },
                None => None,
            },
    {
        self.entries = list_dir(self.root.as_str(), listing);
        let n = self.entries.len();
        if let Some(s) = self.selected {
            if s >= n {
                self.selected = if n > 0 {
                    Some(n - 1)
                } else {
                    None
                };
            }
        }
        self.rebuild_order(rng);
    }

    /// Rebuild the module play order from the current entries, honoring the
    /// shuffle flag.
    fn rebuild_order(&mut self, rng: &mut Rng)
        requires
            old(self).entries@.len() <= usize::MAX,
            old(self).selected matches Some(s) ==> (s as int) < old(self).entries@.len(),
        ensures
            final(self).wf(),
            final(self).entries@ == old(self).entries@,
            final(self).root == old(self).root,
            final(self).selected == old(self).selected,
            final(self).shuffle == old(self).shuffle,
            final(self).order@ == rebuilt_order(
                entry_views(old(self).entries@),
                old(self).shuffle,
                old(rng).state(),
            ),
    {
        let fp = module_positions(&self.entries);
        proof {
            lemma_file_positions(entry_views(self.entries@));
        }
        if self.shuffle {
            let perm = permutation(fp.len(), rng);
            let mut order: Vec<usize> = Vec::new();
            let mut k: usize = 0;
            while k < perm.len()
                invariant
                    k <= perm@.len(),
                    is_permutation_of_range(perm@, fp@.len()),
                    order@ == perm@.subrange(0, k as int).map_values(|i: usize| fp@[i as int]),
                decreases perm@.len() - k,
            {
                let i = perm[k];
                order.push(fp[i]);
                proof {
                    assert(order@ =~= perm@.subrange(0, k + 1).map_values(
                        |i: usize| fp@[i as int],
                    ));
                }
                k = k + 1;
            }
            proof {
                assert(perm@.subrange(0, perm@.len() as int) =~= perm@);
                lemma_compose_permutation(perm@, fp@, order@);
            }
            self.order = order;
        } else {
            self.order = fp;
        }
    }

    /// Toggle shuffle for folder playback; rebuilds the order in place.
    pub fn set_shuffle(&mut self, on: bool, rng: &mut Rng)
        requires
            old(self).wf(),
        ensures
            final(self).wf(),
            final(self).listing() == old(self).listing(),
            final(self).root_view() == old(self).root_view(),
            final(self).selection() == old(self).selection(),
            final(self).shuffled_view() == on,
            final(self).order_view() == rebuilt_order(old(self).listing(), on, old(rng).state()),
    {
        self.shuffle = on;
        self.rebuild_order(rng);
    }

    pub fn is_shuffled(&self) -> (r: bool)
        ensures
            r == self.shuffled_view(),
    {
        self.shuffle
    }

    /// A well-formed browser's selection is one of its entries.
    pub proof fn lemma_selection_in_listing(&self)
        requires
            self.wf(),
        ensures
            self.selection() matches Some(s) ==> (s as int) < self.listing().len(),
    {
    }

    /// The index of the highlighted entry.
    pub fn selected_index(&self) -> (r: Option<usize>)
        ensures
            r == self.selection(),
    {
        self.selected
    }

    /// The highlighted entry.
    pub fn selected(&self) -> (r: Option<&Entry>)
        requires
            self.wf(),
        ensures
            match self.selection() {
                Some(i) => r matches Some(e) && e@ == self.listing()[i as int],
                None => r is None,
            },
    {
        match self.selected {
            Some(i) => Some(&self.entries[i]),
            None => None,
        }
    }
}

/// The listing as read, by value.
pub open spec fn listed_view(listing: Option<Vec<Listed>>) -> Option<Seq<Listed>> {
    match listing {
        Some(v) => Some(v@),
        None => None,
    }
}

/// The play order over the module entries of `es`: listing order, or when
/// shuffled the shuffle a generator in `state` draws, applied to it.
pub open spec fn rebuilt_order(es: Seq<EntryView>, shuffled: bool, state: u64) -> Seq<usize> {
    let fp = file_positions(es);
    if shuffled {
        shuffle_of(fp.len(), state).0.map_values(|i: usize| fp[i as int])
    } else {
        fp
    }
}

proof fn lemma_file_positions(es: Seq<EntryView>)
    requires
        es.len() <= usize::MAX,
    ensures
        file_positions(es).len() <= es.len(),
        forall|k: int|
            0 <= k < file_positions(es).len() ==> (#[trigger] file_positions(es)[k] as int)
                < es.len() && !es[file_positions(es)[k] as int].is_dir,
        forall|a: int, b: int|
            0 <= a < b < file_positions(es).len() ==> (#[trigger] file_positions(es)[a] as int)
                < (#[trigger] file_positions(es)[b] as int),
        file_positions(es).no_duplicates(),
        forall|i: int| 0 <= i < es.len() && !es[i].is_dir ==> #[trigger] file_positions(es).contains(
            i as usize,
        ),
    decreases es.len(),
{
    if es.len() > 0 {
        let pre = es.drop_last();
        lemma_file_positions(pre);
        let fp = file_positions(es);
        let fq = file_positions(pre);
        assert forall|i: int| 0 <= i < es.len() && !es[i].is_dir implies #[trigger] fp.contains(
            i as usize,
        ) by {
            if i < es.len() - 1 {
                assert(pre[i] == es[i]);
                assert(fq.contains(i as usize));
                let w = choose|w: int| 0 <= w < fq.len() && fq[w] == i as usize;
                assert(fp[w] == fq[w]);
            } else {
                assert(fp[fp.len() - 1] == i as usize);
            }
        }
        assert forall|k: int| 0 <= k < fp.len() implies (#[trigger] fp[k] as int) < es.len()
            && !es[fp[k] as int].is_dir by {
            if k < fq.len() {
                assert(fp[k] == fq[k]);
                assert(pre[fq[k] as int] == es[fq[k] as int]);
            }
        }
        assert forall|a: int, b: int| 0 <= a < b < fp.len() implies (#[trigger] fp[a] as int) < (
        #[trigger] fp[b] as int) by {
            if b < fq.len() {
                assert(fp[a] == fq[a] && fp[b] == fq[b]);
            } else {
                assert(fp[a] == fq[a]);
            }
        }
    }
}

/// A permutation of the positions of `fp` applied to `fp`, when `fp` holds no
/// value twice, holds each value of `fp` once.
proof fn lemma_compose_permutation(perm: Seq<usize>, fp: Seq<usize>, o: Seq<usize>)
    requires
        is_permutation_of_range(perm, fp.len()),
        fp.no_duplicates(),
        o.len() == perm.len(),
        forall|k: int| 0 <= k < o.len() ==> #[trigger] o[k] == fp[perm[k] as int],
    ensures
        o.len() == fp.len(),
        o.no_duplicates(),
        forall|k: int| 0 <= k < o.len() ==> #[trigger] fp.contains(o[k]),
{
    assert forall|a: int, b: int| 0 <= a < o.len() && 0 <= b < o.len() && a != b implies o[a]
        != o[b] by {
        assert(perm[a] != perm[b]);
        assert((perm[a] as int) < fp.len() && (perm[b] as int) < fp.len());
    }
    assert forall|k: int| 0 <= k < o.len() implies #[trigger] fp.contains(o[k]) by {
        assert((perm[k] as int) < fp.len());
        assert(fp[perm[k] as int] == o[k]);
    }
}

/// The positions of the module entries, in listing order.
fn module_positions(es: &Vec<Entry>) -> (r: Vec<usize>)
    ensures
        r@ == file_positions(entry_views(es@)),
{
    let mut out: Vec<usize> = Vec::new();
    let mut i: usize = 0;
    while i < es.len()
        invariant
            i <= es@.len(),
            out@ == file_positions(entry_views(es@).subrange(0, i as int)),
        decreases es@.len() - i,
    {
        proof {
            let pre = entry_views(es@).subrange(0, i as int);
            let next = entry_views(es@).subrange(0, i + 1);
            assert(next.drop_last() =~= pre);
        }
        if !es[i].is_dir {
            out.push(i);
        }
        i = i + 1;
    }
    assert(entry_views(es@).subrange(0, es@.len() as int) =~= entry_views(es@));
    out
}

/// The entry for the parent directory, labelled `..`.
fn up_entry(p: String) -> (r: Entry)
    ensures
        r@ == (EntryView { path: p@, is_dir: true, label: ".."@ }),
{
    Entry { path: p, is_dir: true, label: "..".to_owned() }
}

/// The entries the visible sub-directories of the listing become, in listing
/// order, with their sort keys (their labels).
fn collect_dirs(items: &Vec<Listed>) -> (r: (Vec<Entry>, Vec<Vec<char>>))
    ensures
        entry_views(r.0@) == listed_dirs(items@),
        char_views(r.1@) == dir_keys(entry_views(r.0@)),
{
    let mut es: Vec<Entry> = Vec::new();
    let mut keys: Vec<Vec<char>> = Vec::new();
    let mut i: usize = 0;
    while i < items.len()
        invariant
            i <= items@.len(),
            entry_views(es@) == listed_dirs(items@.subrange(0, i as int)),
            char_views(keys@) == dir_keys(entry_views(es@)),
        decreases items@.len() - i,
    {
        let ghost pre = items@.subrange(0, i as int);
        let ghost next = items@.subrange(0, i + 1);
        assert(next.drop_last() =~= pre);
        let it = &items[i];
        if it.is_dir {
            let name = file_name(it.path.as_str());
            let hidden = match &name {
                Some(n) => {
                    let c = chars_of(n.as_str());
                    c.len() > 0 && c[0] == '.'
                },
                None => false,
            };
            if !hidden {
                let mut label = match &name {
                    Some(n) => chars_of(n.as_str()),
                    None => Vec::new(),
                };
                if name.is_some() {
                    label.push('/');
                }
                let ghost e0 = es@;
                let ghost k0 = keys@;
                let text = crate::text::string_from_chars(label.as_slice());
                es.push(Entry { path: it.path.clone(), is_dir: true, label: text });
                keys.push(label);
                proof {
                    assert(entry_views(es@) =~= entry_views(e0).push(dir_entry(*it)->0));
                    assert(char_views(keys@) =~= char_views(k0).push(dir_entry(*it)->0.label));
                    assert(dir_keys(entry_views(es@)) =~= dir_keys(entry_views(e0)).push(
                        dir_entry(*it)->0.label,
                    ));
                    assert(listed_dirs(next) =~= listed_dirs(pre).push(dir_entry(*it)->0));
                }
            } else {
                assert(listed_dirs(next) == listed_dirs(pre));
            }
        } else {
            assert(listed_dirs(next) == listed_dirs(pre));
        }
        i = i + 1;
    }
    assert(items@.subrange(0, items@.len() as int) =~= items@);
    (es, keys)
}

/// The entries the module files of the listing become, in listing order, with
/// their sort keys (their labels, lower-cased).
fn collect_files(items: &Vec<Listed>) -> (r: (Vec<Entry>, Vec<Vec<char>>))
    ensures
        entry_views(r.0@) == listed_files(items@),
        char_views(r.1@) == file_keys(entry_views(r.0@)),
{
    let mut es: Vec<Entry> = Vec::new();
    let mut keys: Vec<Vec<char>> = Vec::new();
    let mut i: usize = 0;
    while i < items.len()
        invariant
            i <= items@.len(),
            entry_views(es@) == listed_files(items@.subrange(0, i as int)),
            char_views(keys@) == file_keys(entry_views(es@)),
        decreases items@.len() - i,
    {
        let ghost pre = items@.subrange(0, i as int);
        let ghost next = items@.subrange(0, i + 1);
        assert(next.drop_last() =~= pre);
        let it = &items[i];
        if !it.is_dir && is_module(it.path.as_str()) {
            let label = match file_name(it.path.as_str()) {
                Some(n) => n,
                None => String::new(),
            };
            let low = lowercase(label.as_str());
            let key = chars_of(low.as_str());
            let ghost e0 = es@;
            let ghost k0 = keys@;
            es.push(Entry { path: it.path.clone(), is_dir: false, label });
            keys.push(key);
            proof {
                assert(entry_views(es@) =~= entry_views(e0).push(file_entry(*it)->0));
                assert(file_keys(entry_views(es@)) =~= file_keys(entry_views(e0)).push(
                    spec_lowercase(file_entry(*it)->0.label),
                ));
                assert(listed_files(next) =~= listed_files(pre).push(file_entry(*it)->0));
            }
        } else {
            assert(listed_files(next) == listed_files(pre));
        }
        i = i + 1;
    }
    assert(items@.subrange(0, items@.len() as int) =~= items@);
    (es, keys)
}

/// `es` sorted stably by `keys`.
fn sort_entries(es: Vec<Entry>, keys: &Vec<Vec<char>>) -> (r: Vec<Entry>)
    requires
        keys@.len() == es@.len(),
    ensures
        entries_sorted_as(entry_views(es@), char_views(keys@), entry_views(r@)),
{
    let order = stable_order(keys);
    let mut out: Vec<Entry> = Vec::new();
    let mut k: usize = 0;
    while k < order.len()
        invariant
            k <= order@.len(),
            is_permutation_of_range(order@, es@.len()),
            out@.len() == k,
            forall|q: int| 0 <= q < k ==> #[trigger] out@[q]@ == es@[order@[q] as int]@,
        decreases order@.len() - k,
    {
        let j = order[k];
        out.push(es[j].clone());
        k = k + 1;
    }
    proof {
        let o = order@;
        assert(entry_views(out@) =~= o.map_values(|i: usize| entry_views(es@)[i as int]));
    }
    out
}

/// The listing of `root` from what was read there.
fn list_dir(root: &str, listing: Option<Vec<Listed>>) -> (r: Vec<Entry>)
    ensures
        is_listing(root@, listed_view(listing), entry_views(r@)),
{
    let mut entries: Vec<Entry> = Vec::new();
    if let Some(p) = parent(root) {
        entries.push(up_entry(p));
        assert(entry_views(entries@) =~= seq![EntryView { path: p@, is_dir: true, label: ".."@ }]);
    } else {
        assert(entry_views(entries@) =~= Seq::<EntryView>::empty());
    }
    let ghost up = entry_views(entries@);
    assert(up == parent_entry(root@));
    match listing {
        None => {
            assert(is_listing(root@, None, entry_views(entries@)));
            entries
        },
        Some(items) => {
            let ghost ls = items@;
            let ghost dirs_v = listed_dirs(ls);
            let ghost files_v = listed_files(ls);
            let (dirs, dkeys) = collect_dirs(&items);
            assert(dkeys@.len() == char_views(dkeys@).len());
            assert(dirs@.len() == entry_views(dirs@).len());
            let sd = sort_entries(dirs, &dkeys);
            let (files, fkeys) = collect_files(&items);
            assert(fkeys@.len() == char_views(fkeys@).len());
            assert(files@.len() == entry_views(files@).len());
            let sf = sort_entries(files, &fkeys);
            let ghost vd = entry_views(sd@);
            let ghost vf = entry_views(sf@);
            assert(entries_sorted_as(dirs_v, dir_keys(dirs_v), vd));
            assert(entries_sorted_as(files_v, file_keys(files_v), vf));
            let mut sd = sd;
            let mut sf = sf;
            entries.append(&mut sd);
            entries.append(&mut sf);
            proof {
                assert(entry_views(entries@) =~= up + vd + vf);
                assert(listed_view(Some(items)) == Some(ls));
                assert(entries_sorted_as(listed_dirs(ls), dir_keys(listed_dirs(ls)), vd));
                assert(entries_sorted_as(listed_files(ls), file_keys(listed_files(ls)), vf));
                assert(read_listing(up, ls, entry_views(entries@)));
            }
            entries
        },
    }
}

/// The wrapped position computed from the magnitude of a negative offset is
/// its Euclidean remainder.
proof fn lemma_wrap(sum: int, len: int, new: int)
    requires
        len > 0,
        sum >= 0 ==> new == sum % len,
        sum < 0 ==> new == (if (-sum) % len == 0 {
            0
        } else {
            len - (-sum) % len
        }),
    ensures
        new == sum % len,
{
    if sum < 0 {
        let q = (-sum) / len;
        let r = (-sum) % len;
        assert(-sum == q * len + r && 0 <= r < len) by (nonlinear_arith)
            requires
                len > 0,
                q == (-sum) / len,
                r == (-sum) % len,
        ;
        if r == 0 {
            assert(sum == (-q) * len) by (nonlinear_arith)
                requires
                    -sum == q * len,
            ;
            assert(sum % len == 0) by (nonlinear_arith)
                requires
                    sum == (-q) * len,
                    len > 0,
            ;
        } else {
            assert(sum == (-q - 1) * len + (len - r)) by (nonlinear_arith)
                requires
                    -sum == q * len + r,
            ;
            assert(sum % len == len - r) by (nonlinear_arith)
                requires
                    sum == (-q - 1) * len + (len - r),
                    0 < len - r < len,
            ;
        }
    }
}

/// One step forward or back from a position wraps around at the ends.
proof fn lemma_step_wrap(pos: int, len: int)
    requires
        0 <= pos < len,
    ensures
        (pos + 1) % len == if pos + 1 == len {
            0
        } else {
            pos + 1
        },
        (pos - 1) % len == if pos == 0 {
            len - 1
        } else {
            pos - 1
        },
{
    if pos + 1 == len {
        assert((pos + 1) % len == 0) by (nonlinear_arith)
            requires
                pos + 1 == len,
                len > 0,
        ;
    } else {
        assert((pos + 1) % len == pos + 1) by (nonlinear_arith)
            requires
                0 <= pos + 1 < len,
        ;
    }
    if pos == 0 {
        assert((pos - 1) % len == len - 1) by (nonlinear_arith)
            requires
                pos == 0,
                len > 0,
        ;
    } else {
        assert((pos - 1) % len == pos - 1) by (nonlinear_arith)
            requires
                0 <= pos - 1 < len,
        ;
    }
}

/// Where the entry `e` first stands in `order`.
pub open spec fn first_index(order: Seq<usize>, e: int) -> Option<int>
    decreases order.len(),
{
    if order.len() == 0 {
        None
    } else {
        match first_index(order.drop_last(), e) {
            Some(k) => Some(k),
            None => if order.last() as int == e {
                Some(order.len() - 1)
            } else {
                None
            },
        }
    }
}

/// The position in `order` one step from the anchor entry (forward or back,
/// wrapping around); a missing anchor, or one not in the order, counts as the
/// first position.
pub open spec fn step_position(order: Seq<usize>, anchor: Option<int>, forward: bool) -> int {
    let pos = match anchor {
        Some(e) => match first_index(order, e) {
            Some(p) => p,
            None => 0,
        },
        None => 0,
    };
    if forward {
        (pos + 1) % (order.len() as int)
    } else {
        (pos - 1) % (order.len() as int)
    }
}

/// The selection after moving it by `delta` entries, wrapping around the
/// listing in both directions; an empty selection counts as the first entry.
pub open spec fn moved_selection(sel: Option<usize>, delta: int, len: nat) -> int {
    let cur = match sel {
        Some(s) => s as int,
        None => 0,
    };
    (cur + delta) % (len as int)
}

impl Browser {
    /// Move the selection by `delta` entries, wrapping around the listing.
    pub fn select_delta(&mut self, delta: i32)
        requires
            old(self).wf(),
            old(self).listing().len() <= i32::MAX,
            i32::MIN <= match old(self).selection() {
                Some(s) => s as int,
                None => 0,
            } + delta <= i32::MAX,
        ensures
            final(self).wf(),
            final(self).listing() == old(self).listing(),
            final(self).root_view() == old(self).root_view(),
            final(self).order_view() == old(self).order_view(),
            final(self).shuffled_view() == old(self).shuffled_view(),
            old(self).listing().len() == 0 ==> final(self).selection() == old(self).selection(),
            old(self).listing().len() > 0 ==> final(self).selection() == Some(
                moved_selection(old(self).selection(), delta as int, old(self).listing().len())
                    as usize,
            ),
    {
        let n = self.entries.len();
        if n == 0 {
            return;
        }
        let cur: i32 = match self.selected {
            Some(s) => s as i32,
            None => 0,
        };
        let sum: i32 = cur + delta;
        let len: u64 = n as u64;
        let new: u64 = if sum >= 0 {
            (sum as u64) % len
        } else {
            let neg: u64 = (-(sum as i64)) as u64;
            let rem: u64 = neg % len;
            if rem == 0 {
                0
            } else {
                len - rem
            }
        };
        proof {
            lemma_wrap(sum as int, len as int, new as int);
        }
        self.selected = Some(new as usize);
    }

    /// Where the non-directory entry with path `p` first stands in the listing.
    fn module_entry(&self, p: &str) -> (r: Option<usize>)
        ensures
            r matches Some(i) ==> module_entry_at(self.listing(), p@) == Some(i as int),
            r is None ==> module_entry_at(self.listing(), p@) is None,
    {
        let mut i: usize = 0;
        while i < self.entries.len()
            invariant
                i <= self.entries@.len(),
                module_entry_at(self.listing().subrange(0, i as int), p@) is None,
            decreases self.entries@.len() - i,
        {
            proof {
                assert(self.listing().subrange(0, i + 1).drop_last() =~= self.listing().subrange(
                    0,
                    i as int,
                ));
            }
            if !self.entries[i].is_dir && same_components(self.entries[i].path.as_str(), p) {
                proof {
                    lemma_module_entry_prefix(self.listing(), p@, i + 1);
                }
                return Some(i);
            }
            i = i + 1;
        }
        assert(self.listing().subrange(0, self.entries@.len() as int) =~= self.listing());
        None
    }

    /// Step one position forward or back through the module play order,
    /// anchored on the module `from` (the playing track) or else the current
    /// selection, and select and return the module landed on.
    fn step_module(&mut self, from: Option<&str>, forward: bool) -> (r: Option<String>)
        requires
            old(self).wf(),
        ensures
            final(self).wf(),
            final(self).listing() == old(self).listing(),
            final(self).root_view() == old(self).root_view(),
            final(self).order_view() == old(self).order_view(),
            final(self).shuffled_view() == old(self).shuffled_view(),
            old(self).order_view().len() == 0 ==> r is None && *final(self) == *old(self),
            old(self).order_view().len() > 0 ==> {
                let t = old(self).order_view()[step_position(
                    old(self).order_view(),
                    step_anchor(old(self).listing(), old(self).selection(), from),
                    forward,
                )];
                &&& final(self).selection() == Some(t)
                &&& r matches Some(p) && p@ == old(self).listing()[t as int].path
            },
    {
        let len = self.order.len();
        if len == 0 {
            return None;
        }
        let entry_idx = match from {
            Some(p) => self.module_entry(p),
            None => self.selected,
        };
        let pos = match entry_idx {
            Some(ei) => match position_in(&self.order, ei) {
                Some(k) => k,
                None => 0,
            },
            None => 0,
        };
        let next_pos = if forward {
            if pos + 1 == len {
                0
            } else {
                pos + 1
            }
        } else {
            if pos == 0 {
                len - 1
            } else {
                pos - 1
            }
        };
        proof {
            lemma_step_wrap(pos as int, len as int);
            lemma_file_positions(self.listing());
            let fp = file_positions(self.listing());
            assert(fp.contains(self.order@[next_pos as int]));
        }
        let idx = self.order[next_pos];
        self.selected = Some(idx);
        Some(self.entries[idx].path.clone())
    }

    /// Next module in play order (shuffled or natural), wrapping around the
    /// folder. Returns `None` only when the folder has no modules.
    pub fn next_module(&mut self, after: Option<&str>) -> (r: Option<String>)
        requires
            old(self).wf(),
        ensures
            final(self).wf(),
            final(self).listing() == old(self).listing(),
            final(self).order_view() == old(self).order_view(),
            old(self).order_view().len() == 0 ==> r is None && *final(self) == *old(self),
            old(self).order_view().len() > 0 ==> {
                let t = old(self).order_view()[step_position(
                    old(self).order_view(),
                    step_anchor(old(self).listing(), old(self).selection(), after),
                    true,
                )];
                &&& final(self).selection() == Some(t)
                &&& r matches Some(p) && p@ == old(self).listing()[t as int].path
            },
    {
        self.step_module(after, true)
    }

    /// Previous module in play order, wrapping around the folder.
    pub fn prev_module(&mut self, before: Option<&str>) -> (r: Option<String>)
        requires
            old(self).wf(),
        ensures
            final(self).wf(),
            final(self).listing() == old(self).listing(),
            final(self).order_view() == old(self).order_view(),
            old(self).order_view().len() == 0 ==> r is None && *final(self) == *old(self),
            old(self).order_view().len() > 0 ==> {
                let t = old(self).order_view()[step_position(
                    old(self).order_view(),
                    step_anchor(old(self).listing(), old(self).selection(), before),
                    false,
                )];
                &&& final(self).selection() == Some(t)
                &&& r matches Some(p) && p@ == old(self).listing()[t as int].path
            },
    {
        self.step_module(before, false)
    }

    /// What activating the current selection asks for: entering a directory,
    /// playing a module, or nothing when nothing is selected.
    pub fn activate(&self) -> (r: Activation)
        requires
            self.wf(),
        ensures
            match self.selection() {
                None => r is Nothing,
                Some(i) => if self.listing()[i as int].is_dir {
                    r matches Activation::EnterDir(p) && p@ == self.listing()[i as int].path
                } else {
                    r matches Activation::Play(p) && p@ == self.listing()[i as int].path
                },
            },
    {
        match self.selected {
            None => Activation::Nothing,
            Some(i) => {
                let e = &self.entries[i];
                if e.is_dir {
                    Activation::EnterDir(e.path.clone())
                } else {
                    Activation::Play(e.path.clone())
                }
            },
        }
    }

    /// Open the directory `dir` (what activating a directory entry asks for),
    /// listing what was read there and selecting its first entry.
    pub fn open_dir(&mut self, dir: String, listing: Option<Vec<Listed>>, rng: &mut Rng)
        requires
            old(self).wf(),
        ensures
            final(self).wf(),
            final(self).root_view() == dir@,
            is_listing(dir@, listed_view(listing), final(self).listing()),
            final(self).shuffled_view() == old(self).shuffled_view(),
            final(self).order_view() == rebuilt_order(
                final(self).listing(),
                old(self).shuffled_view(),
                old(rng).state(),
            ),
            final(self).selection() == (if final(self).listing().len() > 0 {
                Some(0usize)
            } else {
                None
            }),
    {
        self.root = dir;
        self.selected = None;
        self.refresh(listing, rng);
        if self.entries.len() > 0 {
            self.selected = Some(0);
        }
    }
}

/// The entry a step starts from: the module `from` when given, else the
/// selection.
pub open spec fn step_anchor(es: Seq<EntryView>, sel: Option<usize>, from: Option<&str>) -> Option<int> {
    match from {
        Some(p) => module_entry_at(es, p@),
        None => match sel {
            Some(s) => Some(s as int),
            None => None,
        },
    }
}

proof fn lemma_module_entry_prefix(es: Seq<EntryView>, p: Seq<char>, n: int)
    requires
        0 <= n <= es.len(),
        module_entry_at(es.subrange(0, n), p) is Some,
    ensures
        module_entry_at(es, p) == module_entry_at(es.subrange(0, n), p),
    decreases es.len() - n,
{
    if n < es.len() {
        assert(es.subrange(0, n + 1).drop_last() =~= es.subrange(0, n));
        lemma_module_entry_prefix(es, p, n + 1);
    } else {
        assert(es.subrange(0, n) =~= es);
    }
}

proof fn lemma_first_index_prefix(s: Seq<usize>, e: int, n: int)
    requires
        0 <= n <= s.len(),
        first_index(s.subrange(0, n), e) is Some,
    ensures
        first_index(s, e) == first_index(s.subrange(0, n), e),
    decreases s.len() - n,
{
    if n < s.len() {
        assert(s.subrange(0, n + 1).drop_last() =~= s.subrange(0, n));
        lemma_first_index_prefix(s, e, n + 1);
    } else {
        assert(s.subrange(0, n) =~= s);
    }
}

/// Where `e` first stands in `order`.
fn position_in(order: &Vec<usize>, e: usize) -> (r: Option<usize>)
    ensures
        match first_index(order@, e as int) {
            Some(k) => r == Some(k as usize) && 0 <= k < order@.len(),
            None => r is None,
        },
{
    let mut i: usize = 0;
    while i < order.len()
        invariant
            i <= order@.len(),
            first_index(order@.subrange(0, i as int), e as int) is None,
        decreases order@.len() - i,
    {
        proof {
            assert(order@.subrange(0, i + 1).drop_last() =~= order@.subrange(0, i as int));
        }
        if order[i] == e {
            proof {
                lemma_first_index_prefix(order@, e as int, i + 1);
            }
            return Some(i);
        }
        i = i + 1;
    }
    assert(order@.subrange(0, order@.len() as int) =~= order@);
    None
}

/// Moving the selection by `delta` and then by `-delta` returns to where it
/// was, in a listing of `len` entries.
pub proof fn selection_moves_undo(sel: usize, delta: int, len: nat)
    requires
        (sel as int) < len,
        len <= usize::MAX,
    ensures
        moved_selection(Some(moved_selection(Some(sel), delta, len) as usize), -delta, len) == sel,
{
    let l = len as int;
    let m = (sel + delta) % l;
    assert(0 <= m < l) by (nonlinear_arith)
        requires
            l > 0,
            m == (sel + delta) % l,
    ;
    let q = (sel + delta) / l;
    vstd::arithmetic::div_mod::lemma_fundamental_div_mod(sel + delta, l);
    assert((-q) * l == -(l * q)) by (nonlinear_arith);
    vstd::arithmetic::div_mod::lemma_fundamental_div_mod_converse_mod(m - delta, l, -q, sel as int);
}

/// Stepping to the next module from the selection and then to the previous
/// one returns to the selection, when the selection is a module of the play
/// order.
pub proof fn step_forward_then_back(order: Seq<usize>, sel: usize)
    requires
        order.no_duplicates(),
        order.contains(sel),
    ensures
        order[step_position(
            order,
            Some(order[step_position(order, Some(sel as int), true)] as int),
            false,
        )] == sel,
{
    let w = choose|w: int| 0 <= w < order.len() && order[w] == sel;
    lemma_first_index_unique(order, w);
    let p = w;
    let n = order.len() as int;
    let q = step_position(order, Some(sel as int), true);
    assert(q == (p + 1) % n);
    assert(0 <= q < n) by (nonlinear_arith)
        requires
            q == (p + 1) % n,
            n > 0,
    ;
    lemma_first_index_unique(order, q);
    assert(first_index(order, order[q] as int) == Some(q));
    assert((q - 1) % n == p) by (nonlinear_arith)
        requires
            q == (p + 1) % n,
            0 <= p < n,
    ;
}

proof fn lemma_first_index_unique(order: Seq<usize>, q: int)
    requires
        order.no_duplicates(),
        0 <= q < order.len(),
    ensures
        first_index(order, order[q] as int) == Some(q),
    decreases order.len(),
{
    if q < order.len() - 1 {
        lemma_first_index_unique(order.drop_last(), q);
        assert(order.drop_last()[q] == order[q]);
    } else {
        lemma_first_index_absent(order.drop_last(), order[q] as int);
    }
}

proof fn lemma_first_index_absent(s: Seq<usize>, e: int)
    requires
        forall|i: int| 0 <= i < s.len() ==> s[i] as int != e,
    ensures
        first_index(s, e) is None,
    decreases s.len(),
{
    if s.len() > 0 {
        lemma_first_index_absent(s.drop_last(), e);
    }
}

} // verus!
