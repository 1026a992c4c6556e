//! Module-file discovery: which files are playable, and the module files of a
//! directory listing.

use crate::paths::{extension, file_name, lowercase, spec_extension, spec_file_name, spec_lowercase};
use crate::rng::is_permutation_of_range;
use crate::sorting::{sorted_stably, stable_order};
use crate::text::{ascii_lower_seq, char_views, chars_are, chars_of, views};
use crate::config::ascii_lower_chars;
use vstd::prelude::*;

verus! {

/// The extensions of the formats worth showing by default (lower case).
pub open spec fn is_module_ext(e: Seq<char>) -> bool {
    ||| e == "mod"@
    ||| e == "xm"@
    ||| e == "it"@
    ||| e == "s3m"@
    ||| e == "mtm"@
    ||| e == "mptm"@
    ||| e == "stm"@
    ||| e == "ult"@
}

/// Whether the path looks like a module file: its extension, ASCII
/// lower-cased, is one of the module extensions.
pub open spec fn is_module_path(p: Seq<char>) -> bool {
    match spec_extension(p) {
        Some(e) => is_module_ext(ascii_lower_seq(e)),
        None => false,
    }
}

/// The module formats shown are exactly eight: a path is a module file
/// precisely when it has an extension and that extension, ASCII
/// lower-cased, is `mod`, `xm`, `it`, `s3m`, `mtm`, `mptm`, `stm` or `ult`.
pub proof fn module_formats_are_the_eight_extensions(p: Seq<char>)
    ensures
        is_module_path(p) <==> (spec_extension(p) matches Some(e) && set![
            "mod"@,
            "xm"@,
            "it"@,
            "s3m"@,
            "mtm"@,
            "mptm"@,
            "stm"@,
            "ult"@,
        ].contains(ascii_lower_seq(e))),
{
}

/// Whether `path` looks like a module file, by extension (case-insensitive).
pub fn is_module(path: &str) -> (r: bool)
    ensures
        r == is_module_path(path@),
{
    let ext = match extension(path) {
        Some(e) => e,
        None => return false,
    };
    let raw = chars_of(ext.as_str());
    let e = ascii_lower_chars(raw.as_slice());
    let e = e.as_slice();
    chars_are(e, "mod") || chars_are(e, "xm") || chars_are(e, "it") || chars_are(e, "s3m")
        || chars_are(e, "mtm") || chars_are(e, "mptm") || chars_are(e, "stm") || chars_are(e, "ult")
}

/// One entry of a directory listing: its path, whether the entry itself is a
/// directory, and whether the path leads to a regular file (links followed).
pub struct Listed {
    pub path: String,
    pub is_dir: bool,
    pub is_file: bool,
}

/// The key module files are ordered by: the file name, lower-cased.
pub open spec fn name_key(p: Seq<char>) -> Seq<char> {
    match spec_file_name(p) {
        Some(n) => spec_lowercase(n),
        None => Seq::empty(),
    }
}

/// The paths of the module files among `items`, in listing order.
pub open spec fn module_files(items: Seq<Listed>) -> Seq<Seq<char>> {
    items.filter_map(
        |d: Listed|
            if d.is_file && is_module_path(d.path@) {
                Some(d.path@)
            } else {
                None
            },
    )
}

/// `out` is `items` sorted stably by `keys`.
pub open spec fn sorted_as(items: Seq<Seq<char>>, keys: Seq<Seq<char>>, out: Seq<Seq<char>>) -> bool {
    exists|o: Seq<usize>|
        sorted_stably(keys, o) && out == o.map_values(|i: usize| items[i as int])
}

/// Sorting items stably by their keys has one outcome: two sequences that
/// are both `items` sorted stably by `keys` are the same.
pub proof fn sorted_as_is_unique(
    items: Seq<Seq<char>>,
    keys: Seq<Seq<char>>,
    out1: Seq<Seq<char>>,
    out2: Seq<Seq<char>>,
)
    requires
        sorted_as(items, keys, out1),
        sorted_as(items, keys, out2),
    ensures
        out1 == out2,
{
    let o1 = choose|o: Seq<usize>|
        sorted_stably(keys, o) && out1 == o.map_values(|i: usize| items[i as int]);
    let o2 = choose|o: Seq<usize>|
        sorted_stably(keys, o) && out2 == o.map_values(|i: usize| items[i as int]);
    crate::sorting::stable_order_is_unique(keys, o1, o2);
}

/// The sort key of a path, computed.
fn key_of(p: &str) -> (r: Vec<char>)
    ensures
        r@ == name_key(p@),
{
    match file_name(p) {
        Some(n) => {
            let l = lowercase(n.as_str());
            chars_of(l.as_str())
        },
        None => Vec::new(),
    }
}

/// All module files of a directory listing (regular files with a module
/// extension), sorted by case-insensitive file name; files whose names compare
/// equal keep their listing order.
pub fn modules_in_listing(items: &Vec<Listed>) -> (r: Vec<String>)
    ensures
        sorted_as(
            module_files(items@),
            module_files(items@).map_values(|p: Seq<char>| name_key(p)),
            views(r@),
        ),
{
    let ghost mf = module_files(items@);
    let mut found: Vec<String> = Vec::new();
    let mut keys: Vec<Vec<char>> = Vec::new();
    let mut i: usize = 0;
    while i < items.len()
        invariant
            i <= items@.len(),
            mf == module_files(items@),
            views(found@) == module_files(items@.subrange(0, i as int)),
            char_views(keys@) == module_files(items@.subrange(0, i as int)).map_values(
                |p: Seq<char>| name_key(p),
            ),
        decreases items@.len() - i,
    {
        let ghost pre = items@.subrange(0, i as int);
        let ghost next = items@.subrange(0, i + 1);
        assert(next.drop_last() =~= pre);
        let it = &items[i];
        if it.is_file && is_module(it.path.as_str()) {
            let ghost f0 = found@;
            let ghost k0 = keys@;
            found.push(it.path.clone());
            keys.push(key_of(it.path.as_str()));
            proof {
                assert(module_files(next) == module_files(pre) + seq![it.path@]);
                assert(views(found@) =~= views(f0).push(it.path@));
                assert(char_views(keys@) =~= char_views(k0).push(name_key(it.path@)));
                assert(module_files(next) =~= module_files(pre).push(it.path@));
                assert(module_files(next).map_values(|p: Seq<char>| name_key(p)) =~= module_files(
                    pre,
                ).map_values(|p: Seq<char>| name_key(p)).push(name_key(it.path@)));
            }
        } else {
            proof {
                assert(module_files(next) == module_files(pre));
            }
        }
        i = i + 1;
    }
    assert(items@.subrange(0, items@.len() as int) =~= items@);
    let order = stable_order(&keys);
    let mut out: Vec<String> = Vec::new();
    let mut k: usize = 0;
    while k < order.len()
        invariant
            k <= order@.len(),
            is_permutation_of_range(order@, found@.len()),
            out@.len() == k,
            forall|q: int| 0 <= q < k ==> #[trigger] out@[q]@ == found@[order@[q] as int]@,
        decreases order@.len() - k,
    {
        let j = order[k];
        out.push(found[j].clone());
        k = k + 1;
    }
    proof {
        let o = order@;
        assert(views(out@) =~= o.map_values(|i: usize| mf[i as int]));
    }
    out
}

} // verus!
