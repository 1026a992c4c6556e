//! File-system paths, held as UTF-8 strings with `/` separators.
//!
//! Joining and absoluteness follow `std::path` exactly and are written out
//! here; the component-level operations (parent, file name, extension,
//! equality) and Unicode lower-casing are taken from the standard library.

use crate::text::{all_ascii, ascii_lower_seq, chars_of, string_from_chars};
use vstd::prelude::*;

verus! {

/// A path is absolute when it begins with the root `/`.
pub open spec fn is_absolute(p: Seq<char>) -> bool {
    p.len() > 0 && p[0] == '/'
}

/// `base.join(rel)`: an absolute `rel` replaces `base`; otherwise `rel` is
/// appended, with a `/` in between unless `base` is empty or already ends in
/// one.
pub open spec fn join(base: Seq<char>, rel: Seq<char>) -> Seq<char> {
    if is_absolute(rel) {
        rel
    } else if base.len() > 0 && base.last() != '/' {
        base + seq!['/'] + rel
    } else {
        base + rel
    }
}

/// A relative path resolved against `cwd` when one is known.
pub open spec fn absolutized(p: Seq<char>, cwd: Option<Seq<char>>) -> Seq<char> {
    if is_absolute(p) {
        p
    } else {
        match cwd {
            Some(d) => join(d, p),
            None => p,
        }
    }
}

/// Every path of `ps` resolved against `cwd`.
pub open spec fn absolutized_all(ps: Seq<Seq<char>>, cwd: Option<Seq<char>>) -> Seq<Seq<char>> {
    ps.map_values(|p: Seq<char>| absolutized(p, cwd))
}

/// The working directory, by value.
pub open spec fn cwd_view(cwd: Option<&str>) -> Option<Seq<char>> {
    match cwd {
        Some(d) => Some(d@),
        None => None,
    }
}

/// `Path::parent`: the path without its final component, if it has one.
pub uninterp spec fn spec_parent(p: Seq<char>) -> Option<Seq<char>>;

/// `Path::file_name`: the final component, unless the path ends in `..`.
pub uninterp spec fn spec_file_name(p: Seq<char>) -> Option<Seq<char>>;

/// The position of the last `.` in a file name.
pub open spec fn last_dot(n: Seq<char>) -> Option<int>
    decreases n.len(),
{
    if n.len() == 0 {
        None
    } else if n.last() == '.' {
        Some(n.len() - 1)
    } else {
        last_dot(n.drop_last())
    }
}

/// Where a file name divides into stem and extension: at its last `.`,
/// unless there is none, it is the name's first character, or the name is
/// `..`.
pub open spec fn dot_split(n: Seq<char>) -> Option<int> {
    if n == ".."@ {
        None
    } else {
        match last_dot(n) {
            Some(k) => if k > 0 {
                Some(k)
            } else {
                None
            },
            None => None,
        }
    }
}

/// `Path::file_stem`: the file name before its last `.`; the whole file name
/// when it has no `.` other than a leading one; none without a file name.
pub open spec fn spec_file_stem(p: Seq<char>) -> Option<Seq<char>> {
    match spec_file_name(p) {
        Some(n) => Some(
            match dot_split(n) {
                Some(k) => n.subrange(0, k),
                None => n,
            },
        ),
        None => None,
    }
}

/// `Path::extension`: the file name after its last `.`, when it has a `.`
/// other than a leading one; none otherwise.
pub open spec fn spec_extension(p: Seq<char>) -> Option<Seq<char>> {
    match spec_file_name(p) {
        Some(n) => match dot_split(n) {
            Some(k) => Some(n.subrange(k + 1, n.len() as int)),
            None => None,
        },
        None => None,
    }
}

/// `Path == Path`: equality of the paths' components.
pub uninterp spec fn spec_same_components(a: Seq<char>, b: Seq<char>) -> bool;

/// `str::to_lowercase`: the full Unicode lower-case mapping.
pub uninterp spec fn spec_lowercase(s: Seq<char>) -> Seq<char>;

/// Two paths name the same file for playlist purposes: their components are
/// equal, or their texts are equal ignoring case (case-insensitive file
/// systems).
pub open spec fn same_file(a: Seq<char>, b: Seq<char>) -> bool {
    spec_same_components(a, b) || spec_lowercase(a) == spec_lowercase(b)
}

pub fn is_absolute_path(p: &str) -> (r: bool)
    ensures
        r == is_absolute(p@),
{
    if p.unicode_len() == 0 {
        false
    } else {
        p.get_char(0) == '/'
    }
}

/// `base.join(rel)` (see [`join`]).
pub fn join_path(base: &str, rel: &str) -> (r: String)
    ensures
        r@ == join(base@, rel@),
{
    let b = chars_of(base);
    let r = chars_of(rel);
    let out = join_chars(b.as_slice(), r.as_slice());
    string_from_chars(out.as_slice())
}

/// `base.join(rel)` on character vectors.
pub fn join_chars(base: &[char], rel: &[char]) -> (r: Vec<char>)
    ensures
        r@ == join(base@, rel@),
{
    let mut out: Vec<char> = Vec::new();
    if rel.len() > 0 && rel[0] == '/' {
        crate::text::push_all(&mut out, rel);
        assert(out@ =~= rel@);
        return out;
    }
    crate::text::push_all(&mut out, base);
    let n = base.len();
    if n > 0 && base[n - 1] != '/' {
        out.push('/');
    }
    crate::text::push_all(&mut out, rel);
    assert(out@ =~= join(base@, rel@));
    out
}

/// A relative path made absolute against the working directory `cwd`; kept
/// as given when it is already absolute or no working directory is known.
pub fn make_absolute(p: &str, cwd: Option<&str>) -> (r: String)
    ensures
        r@ == absolutized(p@, cwd_view(cwd)),
{
    if is_absolute_path(p) {
        p.to_owned()
    } else {
        match cwd {
            Some(d) => join_path(d, p),
            None => p.to_owned(),
        }
    }
}

/// The directory of `p`, by `Path::parent`.
#[verifier::external_body]
pub(crate) fn parent(p: &str) -> (r: Option<String>)
    ensures
        r matches Some(s) ==> spec_parent(p@) == Some(s@),
        r is None ==> spec_parent(p@) is None,
{
    std::path::Path::new(p).parent().map(|d| d.to_string_lossy().into_owned())
}

/// The final component of `p`, by `Path::file_name`.
#[verifier::external_body]
pub(crate) fn file_name(p: &str) -> (r: Option<String>)
    ensures
        r matches Some(s) ==> spec_file_name(p@) == Some(s@),
        r is None ==> spec_file_name(p@) is None,
{
    std::path::Path::new(p).file_name().map(|n| n.to_string_lossy().into_owned())
}

/// Where the file name `n` divides into stem and extension (see
/// `dot_split`).
fn split_point(n: &[char]) -> (r: Option<usize>)
    ensures
        r matches Some(k) ==> dot_split(n@) == Some(k as int) && k < n@.len(),
        r is None ==> dot_split(n@) is None,
{
    proof {
        reveal_strlit("..");
    }
    if n.len() == 2 && n[0] == '.' && n[1] == '.' {
        assert(n@ =~= ".."@);
        return None;
    }
    assert(n@ != ".."@ ==> dot_split(n@) == match last_dot(n@) {
        Some(k) => if k > 0 { Some(k) } else { None },
        None => None,
    });
    assert(n@ != ".."@) by {
        if n@ == ".."@ {
            assert(n@.len() == 2 && n@[0] == '.' && n@[1] == '.');
        }
    }
    let mut found: Option<usize> = None;
    let mut i: usize = 0;
    assert(n@.subrange(0, 0) =~= Seq::<char>::empty());
    while i < n.len()
        invariant
            i <= n@.len(),
            found matches Some(k) ==> k < i,
            match found {
                Some(k) => last_dot(n@.subrange(0, i as int)) == Some(k as int),
                None => last_dot(n@.subrange(0, i as int)) is None,
            },
        decreases n@.len() - i,
    {
        assert(n@.subrange(0, i + 1).drop_last() =~= n@.subrange(0, i as int));
        if n[i] == '.' {
            found = Some(i);
        }
        i = i + 1;
    }
    assert(n@.subrange(0, n@.len() as int) =~= n@);
    match found {
        Some(k) => if k > 0 {
            Some(k)
        } else {
            None
        },
        None => None,
    }
}

/// `n[lo..hi]` as a vector.
fn copy_range(n: &[char], lo: usize, hi: usize) -> (r: Vec<char>)
    requires
        lo <= hi <= n@.len(),
    ensures
        r@ == n@.subrange(lo as int, hi as int),
{
    let mut out: Vec<char> = Vec::new();
    let mut i: usize = lo;
    while i < hi
        invariant
            lo <= i <= hi,
            hi <= n@.len(),
            out@ == n@.subrange(lo as int, i as int),
        decreases hi - i,
    {
        out.push(n[i]);
        i = i + 1;
        assert(out@ =~= n@.subrange(lo as int, i as int));
    }
    out
}

/// The extension of `p`, as `Path::extension` gives it: the file name after
/// its last `.`.
pub(crate) fn extension(p: &str) -> (r: Option<String>)
    ensures
        r matches Some(s) ==> spec_extension(p@) == Some(s@),
        r is None ==> spec_extension(p@) is None,
{
    let name = file_name(p)?;
    let c = chars_of(name.as_str());
    match split_point(c.as_slice()) {
        Some(k) => {
            let sl = c.as_slice();
            let len: usize = sl.len();
            assert(k < len);
            let e = copy_range(sl, k + 1, len);
            Some(string_from_chars(e.as_slice()))
        },
        None => None,
    }
}

/// The file stem of `p`, as `Path::file_stem` gives it: the file name before
/// its last `.`.
pub(crate) fn file_stem(p: &str) -> (r: Option<String>)
    ensures
        r matches Some(s) ==> spec_file_stem(p@) == Some(s@),
        r is None ==> spec_file_stem(p@) is None,
{
    let name = file_name(p)?;
    let c = chars_of(name.as_str());
    match split_point(c.as_slice()) {
        Some(k) => {
            let st = copy_range(c.as_slice(), 0, k);
            Some(string_from_chars(st.as_slice()))
        },
        None => Some(name),
    }
}

/// Component equality of two paths, by `Path`'s `==`. Equal texts are equal
/// paths (`Path` is `Eq`).
#[verifier::external_body]
pub(crate) fn same_components(a: &str, b: &str) -> (r: bool)
    ensures
        r == spec_same_components(a@, b@),
        a@ == b@ ==> r,
{
    std::path::Path::new(a) == std::path::Path::new(b)
}

/// Unicode lower-casing, by `str::to_lowercase`. On ASCII text it is ASCII
/// lower-casing: capitals become lower case and every other ASCII character
/// stays as it is.
#[verifier::external_body]
pub(crate) fn lowercase(s: &str) -> (r: String)
    ensures
        r@ == spec_lowercase(s@),
        all_ascii(s@) ==> r@ == ascii_lower_seq(s@),
{
    s.to_lowercase()
}

/// Path equality that tolerates case differences on case-insensitive file
/// systems: exact component match, or equal after lower-casing both texts.
pub fn paths_equal(a: &str, b: &str) -> (r: bool)
    ensures
        r == same_file(a@, b@),
{
    if same_components(a, b) {
        return true;
    }
    let la = lowercase(a);
    let lb = lowercase(b);
    let x = chars_of(la.as_str());
    let y = chars_of(lb.as_str());
    crate::text::chars_eq(x.as_slice(), y.as_slice())
}

/// Where custom themes live: the `themes` directory inside the configuration
/// directory, when there is one.
pub fn theme_dir(config_dir: Option<&str>) -> (r: Option<String>)
    ensures
        match config_dir {
            Some(d) => r matches Some(t) && t@ == join(d@, "themes"@),
            None => r is None,
        },
{
    match config_dir {
        Some(d) => Some(join_path(d, "themes")),
        None => None,
    }
}

/// Short display label for a queue entry — the file name, falling back to the
/// full path if there's no file name component.
pub fn label_for(p: &str) -> (r: String)
    ensures
        r@ == match spec_file_name(p@) {
            Some(n) => n,
            None => p@,
        },
{
    match file_name(p) {
        Some(n) => n,
        None => p.to_owned(),
    }
}

} // verus!
