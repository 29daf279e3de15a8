//! Which paths of a project tree hold source files to analyse: the build
//! output directory, hidden paths, the package cache and paths outside the
//! project are pruned.

use vstd::prelude::*;
use vstd::string::{StrSliceExecFns, StringExecFns};
use crate::text::chars_of;

verus! {

/// A filesystem path as its components: whether it starts at the root
/// directory, then the names that follow (`.` and `..` included as written).
pub struct FsPath {
    pub absolute: bool,
    pub parts: Vec<String>,
}

/// The plain value of a path.
pub struct PathView {
    pub absolute: bool,
    pub parts: Seq<Seq<char>>,
}

/// The names of a sequence of strings.
pub open spec fn names(v: Seq<String>) -> Seq<Seq<char>> {
    v.map_values(|s: String| s@)
}

proof fn lemma_names_push(v: Seq<String>, x: String)
    ensures
        names(v.push(x)) == names(v).push(x@),
{
    assert(names(v.push(x)) =~= names(v).push(x@));
}

impl View for FsPath {
    type V = PathView;

    open spec fn view(&self) -> PathView {
        PathView { absolute: self.absolute, parts: names(self.parts@) }
    }
}

/// `base`'s components are a prefix of `p`'s (`Path::starts_with`): the root
/// directory is a component of its own, so a relative path with at least one
/// name never starts an absolute one, nor the other way round.
pub open spec fn path_starts_with(p: PathView, base: PathView) -> bool {
    &&& base.absolute ==> p.absolute
    &&& !base.absolute && base.parts.len() > 0 ==> !p.absolute
    &&& base.parts.len() <= p.parts.len()
    &&& p.parts.subrange(0, base.parts.len() as int) == base.parts
}

/// `other` appended to `base` (`Path::join`): an absolute `other` replaces it.
pub open spec fn path_join(base: PathView, other: PathView) -> PathView {
    if other.absolute {
        other
    } else {
        PathView { absolute: base.absolute, parts: base.parts + other.parts }
    }
}

/// A name that starts with a dot.
pub open spec fn is_dot_name(name: Seq<char>) -> bool {
    name.len() > 0 && name[0] == '.'
}

/// Some name of `parts` starts with a dot.
pub open spec fn any_dot_name(parts: Seq<Seq<char>>) -> bool {
    exists|k: int| 0 <= k < parts.len() && is_dot_name(#[trigger] parts[k])
}

/// `entry` is hidden: a name in it, after the root prefix if it starts with
/// `root`, starts with a dot.
pub open spec fn hidden(entry: PathView, root: PathView) -> bool {
    if path_starts_with(entry, root) {
        any_dot_name(entry.parts.subrange(root.parts.len() as int, entry.parts.len() as int))
    } else {
        any_dot_name(entry.parts)
    }
}

/// `entry` lies in the package cache named by `cache` (the value of the
/// cache environment variable, if set): under it if it is absolute, else
/// under `root` joined with it.
pub open spec fn in_cache(entry: PathView, root: PathView, cache: Option<PathView>) -> bool {
    match cache {
        Some(c) => (c.absolute && path_starts_with(entry, c)) || path_starts_with(
            entry,
            path_join(root, c),
        ),
        None => false,
    }
}

/// `entry` belongs to the project at `root`; `joined_is_file` tells whether
/// `root` joined with `entry` names an existing regular file.
pub open spec fn part_of_project(entry: PathView, root: PathView, joined_is_file: bool) -> bool {
    if entry.absolute && root.absolute {
        path_starts_with(entry, root)
    } else if root.absolute {
        joined_is_file
    } else {
        true
    }
}

/// The traversal keeps `entry` (and descends into it, for a directory).
pub open spec fn coverable(
    entry: PathView,
    root: PathView,
    target: PathView,
    cache: Option<PathView>,
    joined_is_file: bool,
) -> bool {
    !(path_starts_with(entry, target) || hidden(entry, root) || in_cache(entry, root, cache))
        && part_of_project(entry, root, joined_is_file)
}

/// The last name of the path ends in `.rs` with something before the dot.
pub open spec fn source_file(p: PathView) -> bool {
    p.parts.len() > 0 && {
        let name = p.parts.last();
        name.len() > 3 && name.subrange(name.len() - 3, name.len() as int) == seq!['.', 'r', 's']
    }
}

/// The build output directory of the project at `root`.
pub open spec fn target_of(root: PathView) -> PathView {
    PathView { absolute: root.absolute, parts: root.parts.push(seq!['t', 'a', 'r', 'g', 'e', 't']) }
}

/// The walk over `root` yields `entry`: it is kept, it is a regular file
/// (`is_file`), and it is a source file.
pub open spec fn yielded(
    entry: PathView,
    root: PathView,
    cache: Option<PathView>,
    joined_is_file: bool,
    is_file: bool,
) -> bool {
    is_file && coverable(entry, root, target_of(root), cache, joined_is_file) && source_file(entry)
}

/// Nothing under the build output directory `root/target` is ever yielded:
/// the directory itself and everything below it is pruned.
pub proof fn lemma_target_never_yielded(
    entry: PathView,
    root: PathView,
    cache: Option<PathView>,
    joined_is_file: bool,
    is_file: bool,
)
    requires
        path_starts_with(entry, target_of(root)),
    ensures
        !coverable(entry, root, target_of(root), cache, joined_is_file),
        !yielded(entry, root, cache, joined_is_file, is_file),
{
}

/// A path with a name that starts with a dot, once the root prefix is
/// stripped where it can be, is never yielded.
pub proof fn lemma_hidden_never_yielded(
    entry: PathView,
    root: PathView,
    cache: Option<PathView>,
    joined_is_file: bool,
    is_file: bool,
)
    requires
        hidden(entry, root),
    ensures
        !coverable(entry, root, target_of(root), cache, joined_is_file),
        !yielded(entry, root, cache, joined_is_file, is_file),
{
}

/// A file whose name does not end in the source extension is never yielded,
/// however coverable it is; nor is anything but a regular file.
pub proof fn lemma_non_source_never_yielded(
    entry: PathView,
    root: PathView,
    cache: Option<PathView>,
    joined_is_file: bool,
    is_file: bool,
)
    requires
        !source_file(entry) || !is_file,
    ensures
        !yielded(entry, root, cache, joined_is_file, is_file),
{
}

pub open spec fn opt_view(p: Option<&FsPath>) -> Option<PathView> {
    match p {
        Some(q) => Some(q@),
        None => None,
    }
}

impl FsPath {
    /// This path with `other` appended.
    pub fn join(&self, other: &FsPath) -> (r: FsPath)
        ensures
            r@ == path_join(self@, other@),
    {
        if other.absolute {
            let r = FsPath { absolute: true, parts: clone_parts(&other.parts) };
            assert(r@.parts =~= other@.parts);
            r
        } else {
            let mut parts = clone_parts(&self.parts);
            let mut i: usize = 0;
            while i < other.parts.len()
                invariant
                    i <= other.parts@.len(),
                    names(parts@) == self@.parts + other@.parts.subrange(0, i as int),
                decreases other.parts@.len() - i,
            {
                let ghost before = parts@;
                parts.push(other.parts[i].clone());
                assert(parts@ =~= before.push(other.parts@[i as int]));
                proof { lemma_names_push(before, other.parts@[i as int]); }
                assert(other@.parts.subrange(0, i + 1) =~= other@.parts.subrange(0, i as int).push(other@.parts[i as int]));
                assert(names(parts@) =~= self@.parts + other@.parts.subrange(0, i + 1));
                i = i + 1;
            }
            assert(other@.parts.subrange(0, i as int) =~= other@.parts);
            FsPath { absolute: self.absolute, parts }
        }
    }

    /// Whether `base`'s components are a prefix of this path's.
    pub fn starts_with(&self, base: &FsPath) -> (r: bool)
        ensures
            r == path_starts_with(self@, base@),
    {
        if base.absolute && !self.absolute {
            return false;
        }
        if !base.absolute && base.parts.len() > 0 && self.absolute {
            return false;
        }
        if base.parts.len() > self.parts.len() {
            return false;
        }
        let mut i: usize = 0;
        while i < base.parts.len()
            invariant
                base.parts@.len() <= self.parts@.len(),
                i <= base.parts@.len(),
                forall|k: int| 0 <= k < i ==> self@.parts[k] == base@.parts[k],
            decreases base.parts@.len() - i,
        {
            if !self.parts[i].eq(&base.parts[i]) {
                assert(self@.parts.subrange(0, base@.parts.len() as int)[i as int] != base@.parts[i as int]);
                return false;
            }
            i = i + 1;
        }
        assert(self@.parts.subrange(0, base@.parts.len() as int) =~= base@.parts);
        true
    }
}

fn clone_parts(v: &Vec<String>) -> (r: Vec<String>)
    ensures
        names(r@) == names(v@),
{
    let mut r: Vec<String> = Vec::new();
    let mut i: usize = 0;
    while i < v.len()
        invariant
            i <= v@.len(),
            names(r@) == names(v@.subrange(0, i as int)),
        decreases v@.len() - i,
    {
        let ghost before = r@;
        r.push(v[i].clone());
        assert(r@ =~= before.push(v@[i as int]));
        proof { lemma_names_push(before, v@[i as int]); }
        assert(v@.subrange(0, i + 1) =~= v@.subrange(0, i as int).push(v@[i as int]));
        proof { lemma_names_push(v@.subrange(0, i as int), v@[i as int]); }
        assert(names(r@) =~= names(v@.subrange(0, i + 1)));
        i = i + 1;
    }
    assert(v@.subrange(0, i as int) =~= v@);
    r
}

fn is_dot_name_exec(name: &String) -> (r: bool)
    ensures
        r == is_dot_name(name@),
{
    let s = name.as_str();
    s.unicode_len() > 0 && s.get_char(0) == '.'
}

/// Whether some name of `parts` from index `from` on starts with a dot.
fn any_dot_name_from(parts: &Vec<String>, from: usize) -> (r: bool)
    requires
        from <= parts@.len(),
    ensures
        r == any_dot_name(names(parts@).subrange(from as int, parts@.len() as int)),
{
    let ghost tail = names(parts@).subrange(from as int, parts@.len() as int);
    let mut i: usize = from;
    while i < parts.len()
        invariant
            from <= i <= parts@.len(),
            tail == names(parts@).subrange(from as int, parts@.len() as int),
            forall|k: int| 0 <= k < i - from ==> !is_dot_name(#[trigger] tail[k]),
        decreases parts@.len() - i,
    {
        if is_dot_name_exec(&parts[i]) {
            assert(is_dot_name(tail[i - from]));
            return true;
        }
        i = i + 1;
    }
    false
}

/// Returns true if the file is a rust source file: its name ends in `.rs`.
pub fn is_source_file(entry: &FsPath) -> (r: bool)
    ensures
        r == source_file(entry@),
{
    let n = entry.parts.len();
    if n == 0 {
        return false;
    }
    let name = chars_of(entry.parts[n - 1].as_str());
    let m = name.len();
    m > 3 && name[m - 3] == '.' && name[m - 2] == 'r' && name[m - 1] == 's' && {
        assert(name@.subrange(m - 3, m as int) =~= seq!['.', 'r', 's']);
        true
    }
}

/// Returns true if the path lies in the build output directory `target`.
pub fn is_target_folder(entry: &FsPath, target: &FsPath) -> (r: bool)
    ensures
        r == path_starts_with(entry@, target@),
{
    entry.starts_with(target)
}

/// Returns true if the file or folder is hidden.
pub fn is_hidden(entry: &FsPath, root: &FsPath) -> (r: bool)
    ensures
        r == hidden(entry@, root@),
{
    if entry.starts_with(root) {
        any_dot_name_from(&entry.parts, root.parts.len())
    } else {
        let r = any_dot_name_from(&entry.parts, 0);
        assert(entry@.parts.subrange(0, entry@.parts.len() as int) =~= entry@.parts);
        r
    }
}

/// Returns true if the path lies in the package cache directory
/// `cargo_home`, when that is set.
pub fn is_cargo_home(entry: &FsPath, root: &FsPath, cargo_home: Option<&FsPath>) -> (r: bool)
    ensures
        r == in_cache(entry@, root@, opt_view(cargo_home)),
{
    match cargo_home {
        Some(path) => {
            if path.absolute && entry.starts_with(path) {
                true
            } else {
                let home = root.join(path);
                entry.starts_with(&home)
            }
        },
        None => false,
    }
}

/// Returns true if the path belongs to the project at `root`;
/// `joined_is_file` tells whether `root` joined with `entry` names an
/// existing regular file.
pub fn is_part_of_project(entry: &FsPath, root: &FsPath, joined_is_file: bool) -> (r: bool)
    ensures
        r == part_of_project(entry@, root@, joined_is_file),
{
    if entry.absolute && root.absolute {
        entry.starts_with(root)
    } else if root.absolute {
        joined_is_file
    } else {
        true
    }
}

/// Returns true if the walk keeps the path: it is not in the build output
/// directory, not hidden, not in the package cache, and part of the project.
pub fn is_coverable_file_path(
    path: &FsPath,
    root: &FsPath,
    target: &FsPath,
    cargo_home: Option<&FsPath>,
    joined_is_file: bool,
) -> (r: bool)
    ensures
        r == coverable(path@, root@, target@, opt_view(cargo_home), joined_is_file),
{
    let ignorable_paths = !(is_target_folder(path, target) || is_hidden(path, root) || is_cargo_home(
        path,
        root,
        cargo_home,
    ));
    ignorable_paths && is_part_of_project(path, root, joined_is_file)
}

/// The build output directory of the project at `root`: `root/target`.
pub fn target_folder(root: &FsPath) -> (r: FsPath)
    ensures
        r@ == target_of(root@),
{
    let mut parts = clone_parts(&root.parts);
    let name = String::from_str("target");
    proof {
        reveal_strlit("target");
    }
    assert(name@ =~= seq!['t', 'a', 'r', 'g', 'e', 't']);
    parts.push(name);
    let r = FsPath { absolute: root.absolute, parts };
    assert(r@.parts =~= root@.parts.push(seq!['t', 'a', 'r', 'g', 'e', 't']));
    r
}

/// Whether the walk over `root` yields `entry`: the walk keeps it, it is a
/// regular file (`is_file`, what the filesystem says of it) and a source file.
pub fn is_walked_source_file(
    entry: &FsPath,
    root: &FsPath,
    cargo_home: Option<&FsPath>,
    joined_is_file: bool,
    is_file: bool,
) -> (r: bool)
    ensures
        r == yielded(entry@, root@, opt_view(cargo_home), joined_is_file, is_file),
{
    let target = target_folder(root);
    is_file && is_coverable_file_path(entry, root, &target, cargo_home, joined_is_file)
        && is_source_file(entry)
}

} // verus!
