//! Module paths and file paths, both as plain text.
//!
//! A module path is a run of names joined by `::`; the root module has the
//! reserved path `crate`, and a module declared in the root is known by its
//! bare name. A file path is a run of names joined by `/`, as the caller
//! spells it; nothing is looked up on disk.
use vstd::prelude::*;
use crate::text::{chars_of, push_all, push_str, slice_of, string_of};

verus! {

/// The path of the root module.
pub open spec fn root_path() -> Seq<char> {
    seq!['c', 'r', 'a', 't', 'e']
}

/// What joins the names of a module path.
pub open spec fn path_separator() -> Seq<char> {
    seq![':', ':']
}

/// The path of a module named `name` that is nested in the module `parent`:
/// the two joined by `::`.
pub open spec fn nested_path(parent: Seq<char>, name: Seq<char>) -> Seq<char> {
    parent + path_separator() + name
}

/// The path of a module named `name` that is declared in the module `parent`:
/// the bare name under the root, else the two joined by `::`.
pub open spec fn child_path(parent: Seq<char>, name: Seq<char>) -> Seq<char> {
    if parent == root_path() {
        name
    } else {
        nested_path(parent, name)
    }
}

/// Where the last name of a module path begins, looking at its first `n`
/// characters only: just behind the last `::`, or at 0.
pub open spec fn last_name_start(path: Seq<char>, n: int) -> int
    decreases n,
{
    if n < 2 {
        0
    } else if path[n - 2] == ':' && path[n - 1] == ':' {
        n
    } else {
        last_name_start(path, n - 1)
    }
}

/// The last name of a module path.
pub open spec fn last_name(path: Seq<char>) -> Seq<char> {
    path.skip(last_name_start(path, path.len() as int))
}

/// The length of the directory part of the first `n` characters of a file
/// path: up to and including the last `/`, or 0.
pub open spec fn dir_len(path: Seq<char>, n: int) -> int
    decreases n,
{
    if n <= 0 {
        0
    } else if path[n - 1] == '/' {
        n
    } else {
        dir_len(path, n - 1)
    }
}

/// The directory part of a file path, with its closing `/`; empty for a bare
/// file name.
pub open spec fn dir_prefix(path: Seq<char>) -> Seq<char> {
    path.take(dir_len(path, path.len() as int))
}

/// The part of a file path behind its last `/`.
pub open spec fn file_name(path: Seq<char>) -> Seq<char> {
    path.skip(dir_len(path, path.len() as int))
}

/// A directory path made ready to have a name appended: a `/` is added unless
/// the path is empty or ends in one.
pub open spec fn with_slash(dir: Seq<char>) -> Seq<char> {
    if dir.len() == 0 || dir.last() == '/' {
        dir
    } else {
        dir.push('/')
    }
}

/// The path of `name` inside the directory `dir`. A `name` that begins with
/// `/` stands for itself.
pub open spec fn joined(dir: Seq<char>, name: Seq<char>) -> Seq<char> {
    if name.len() > 0 && name[0] == '/' {
        name
    } else {
        with_slash(dir) + name
    }
}

/// A file path relative to the directory `root`, if it lies under it.
pub open spec fn relative_to(root: Seq<char>, path: Seq<char>) -> Option<Seq<char>> {
    let dir = with_slash(root);
    if dir.is_prefix_of(path) {
        Some(path.skip(dir.len() as int))
    } else {
        None
    }
}

/// The three places where the file of a module `name` is looked for, in the
/// order in which they are tried. The module is declared in the file
/// `file_path`, inside a module whose own name is `parent_name`.
pub open spec fn module_file_candidates(
    file_path: Seq<char>,
    parent_name: Seq<char>,
    name: Seq<char>,
) -> Seq<Seq<char>> {
    let dir = dir_prefix(file_path);
    seq![
        dir + name + seq!['/', 'm', 'o', 'd', '.', 'r', 's'],
        dir + parent_name + seq!['/'] + name + seq!['.', 'r', 's'],
        dir + name + seq!['.', 'r', 's'],
    ]
}

/// Where the extension of a file name begins, looking at its first `n`
/// characters only: at the last `.` that is not the first character, or at
/// the end of the name if there is none.
pub open spec fn stem_len(name: Seq<char>, n: int) -> int
    decreases n,
{
    if n <= 1 {
        name.len() as int
    } else if name[n - 1] == '.' {
        n - 1
    } else {
        stem_len(name, n - 1)
    }
}

/// A file path with its extension replaced by `rs`, or with `.rs` added if
/// its file name has no extension. A path without a file name, or whose file
/// name is `..`, is left as it is.
pub open spec fn with_rs_extension(path: Seq<char>) -> Seq<char> {
    let name = file_name(path);
    if name.len() == 0 || name == seq!['.', '.'] {
        path
    } else {
        path.take(dir_len(path, path.len() as int) + stem_len(name, name.len() as int)) + seq![
            '.',
            'r',
            's',
        ]
    }
}

/// The file that a merged package is written to: `<package_name>.rs` inside
/// `output_dir`.
pub open spec fn output_file(output_dir: Seq<char>, package_name: Seq<char>) -> Seq<char> {
    with_rs_extension(joined(output_dir, package_name))
}

/// `last_name_start` stays inside the part it looks at.
pub proof fn lemma_last_name_start_bounds(path: Seq<char>, n: int)
    requires
        0 <= n <= path.len(),
    ensures
        0 <= last_name_start(path, n) <= n,
    decreases n,
{
    if n >= 2 && !(path[n - 2] == ':' && path[n - 1] == ':') {
        lemma_last_name_start_bounds(path, n - 1);
    }
}

/// `dir_len` stays inside the part it looks at.
pub proof fn lemma_dir_len_bounds(path: Seq<char>, n: int)
    requires
        0 <= n <= path.len(),
    ensures
        0 <= dir_len(path, n) <= n,
    decreases n,
{
    if n > 0 && path[n - 1] != '/' {
        lemma_dir_len_bounds(path, n - 1);
    }
}

/// `stem_len` stays inside the name.
pub proof fn lemma_stem_len_bounds(name: Seq<char>, n: int)
    requires
        0 <= n <= name.len(),
    ensures
        0 <= stem_len(name, n) <= name.len(),
    decreases n,
{
    if n > 1 && name[n - 1] != '.' {
        lemma_stem_len_bounds(name, n - 1);
    }
}

/// Computes [`dir_len`] for a whole path.
pub fn dir_len_of(path: &Vec<char>) -> (n: usize)
    ensures
        n == dir_len(path@, path.len() as int),
        n <= path.len(),
{
    let mut n: usize = path.len();
    while n > 0 && path[n - 1] != '/'
        invariant
            n <= path.len(),
            dir_len(path@, n as int) == dir_len(path@, path.len() as int),
        decreases n,
    {
        n = n - 1;
    }
    proof {
        lemma_dir_len_bounds(path@, n as int);
    }
    n
}

/// Computes [`last_name_start`] for a whole path.
pub fn last_name_start_of(path: &Vec<char>) -> (n: usize)
    ensures
        n == last_name_start(path@, path.len() as int),
        n <= path.len(),
{
    let mut n: usize = path.len();
    while n >= 2 && !(path[n - 2] == ':' && path[n - 1] == ':')
        invariant
            n <= path.len(),
            last_name_start(path@, n as int) == last_name_start(path@, path.len() as int),
        decreases n,
    {
        n = n - 1;
    }
    proof {
        lemma_last_name_start_bounds(path@, n as int);
    }
    if n < 2 {
        0
    } else {
        n
    }
}

/// The last name of a module path.
pub fn last_name_of(path: &str) -> (r: String)
    ensures
        r@ == last_name(path@),
{
    let chars = chars_of(path);
    let start = last_name_start_of(&chars);
    let tail = slice_of(&chars, start, chars.len());
    string_of(&tail)
}

/// The path of a module named `name` nested in the module `parent`.
pub fn nested_path_of(parent: &str, name: &str) -> (r: String)
    ensures
        r@ == nested_path(parent@, name@),
{
    let mut out = chars_of(parent);
    out.push(':');
    out.push(':');
    push_str(&mut out, name);
    assert(out@ =~= nested_path(parent@, name@));
    string_of(&out)
}

/// Tests whether a module path is the root's.
pub fn is_root_path(path: &str) -> (r: bool)
    ensures
        r == (path@ == root_path()),
{
    proof {
        reveal_strlit("crate");
        assert("crate"@ =~= root_path());
    }
    crate::text::str_eq(path, "crate")
}

/// The path of a module named `name` declared in the module `parent`.
pub fn child_path_of(parent: &str, name: &str) -> (r: String)
    ensures
        r@ == child_path(parent@, name@),
{
    if is_root_path(parent) {
        name.to_owned()
    } else {
        nested_path_of(parent, name)
    }
}

/// Appends `/` to `dir` unless it is empty or already ends in one.
pub fn add_slash(dir: &mut Vec<char>)
    ensures
        final(dir)@ == with_slash(old(dir)@),
{
    if dir.len() > 0 && dir[dir.len() - 1] != '/' {
        dir.push('/');
    }
}

/// The path of `name` inside the directory `dir`.
pub fn join_path(dir: &str, name: &str) -> (r: String)
    ensures
        r@ == joined(dir@, name@),
{
    let name_chars = chars_of(name);
    if name_chars.len() > 0 && name_chars[0] == '/' {
        return name.to_owned();
    }
    let mut out = chars_of(dir);
    add_slash(&mut out);
    push_all(&mut out, &name_chars);
    string_of(&out)
}

/// A file path relative to the directory `root`, if it lies under it.
pub fn relative_path(root: &str, path: &str) -> (r: Option<String>)
    ensures
        r.deep_view() == relative_to(root@, path@),
{
    let mut dir = chars_of(root);
    add_slash(&mut dir);
    let chars = chars_of(path);
    if crate::text::is_at(&chars, 0, &dir) {
        let rest = slice_of(&chars, dir.len(), chars.len());
        Some(string_of(&rest))
    } else {
        proof {
            if dir@.is_prefix_of(chars@) {
                assert(chars@.subrange(0, dir@.len() as int) =~= dir@);
            }
        }
        None
    }
}

/// The part of a file path behind its last `/`.
pub fn file_name_of(path: &str) -> (r: String)
    ensures
        r@ == file_name(path@),
{
    let chars = chars_of(path);
    let start = dir_len_of(&chars);
    let tail = slice_of(&chars, start, chars.len());
    string_of(&tail)
}

/// The places where the file of the module `name` is looked for, in order.
pub fn candidate_files(file_path: &str, parent_name: &str, name: &str) -> (r: Vec<String>)
    ensures
        r.deep_view() == module_file_candidates(file_path@, parent_name@, name@),
{
    let chars = chars_of(file_path);
    let n = dir_len_of(&chars);
    let dir = slice_of(&chars, 0, n);
    proof {
        reveal_strlit("/mod.rs");
        reveal_strlit("/");
        reveal_strlit(".rs");
        assert("/mod.rs"@ =~= seq!['/', 'm', 'o', 'd', '.', 'r', 's']);
        assert("/"@ =~= seq!['/']);
        assert(".rs"@ =~= seq!['.', 'r', 's']);
    }
    let mut first = slice_of(&dir, 0, n);
    push_str(&mut first, name);
    push_str(&mut first, "/mod.rs");
    let mut second = slice_of(&dir, 0, n);
    push_str(&mut second, parent_name);
    push_str(&mut second, "/");
    push_str(&mut second, name);
    push_str(&mut second, ".rs");
    let mut third = slice_of(&dir, 0, n);
    push_str(&mut third, name);
    push_str(&mut third, ".rs");
    let mut r: Vec<String> = Vec::new();
    r.push(string_of(&first));
    r.push(string_of(&second));
    r.push(string_of(&third));
    proof {
        assert(dir@.subrange(0, n as int) =~= dir@);
        assert(dir@ == dir_prefix(file_path@));
        assert(r.deep_view() =~= module_file_candidates(file_path@, parent_name@, name@));
    }
    r
}

/// Computes [`stem_len`] for a whole file name.
pub fn stem_len_of(name: &Vec<char>) -> (n: usize)
    ensures
        n == stem_len(name@, name.len() as int),
        n <= name.len(),
{
    let mut n: usize = name.len();
    while n > 1 && name[n - 1] != '.'
        invariant
            n <= name.len(),
            stem_len(name@, n as int) == stem_len(name@, name.len() as int),
        decreases n,
    {
        n = n - 1;
    }
    proof {
        lemma_stem_len_bounds(name@, n as int);
    }
    if n <= 1 {
        name.len()
    } else {
        n - 1
    }
}

/// The file that a merged package is written to: `<package_name>.rs` inside
/// `output_dir`.
pub fn create_output_file(output_dir: &str, package_name: &str) -> (r: String)
    ensures
        r@ == output_file(output_dir@, package_name@),
{
    let path = join_path(output_dir, package_name);
    let chars = chars_of(path.as_str());
    let start = dir_len_of(&chars);
    let name = slice_of(&chars, start, chars.len());
    let is_dots = name.len() == 2 && name[0] == '.' && name[1] == '.';
    proof {
        if is_dots {
            assert(name@ =~= seq!['.', '.']);
        }
    }
    if name.len() == 0 || is_dots {
        return path;
    }
    let stem = stem_len_of(&name);
    let mut out = slice_of(&chars, 0, start + stem);
    out.push('.');
    out.push('r');
    out.push('s');
    proof {
        assert(out@ =~= chars@.take(start + stem) + seq!['.', 'r', 's']);
    }
    string_of(&out)
}

} // verus!
