//! Root-relative paths: segments, ancestors, joins and the targets of moves.
//!
//! A path is a text whose segments are separated by `/`. The worktree root is
//! the empty path.

use vstd::prelude::*;

use crate::protocol::EntryKind;
use crate::text;

verus! {

// ---------------------------------------------------------------------------
// Model
// ---------------------------------------------------------------------------

/// `path` lies below the directory `dir`, at any depth.
pub open spec fn under(dir: Seq<char>, path: Seq<char>) -> bool {
    dir.push('/').is_prefix_of(path)
}

/// The position of the last separator of `path`, or -1.
pub open spec fn last_slash(path: Seq<char>) -> int
    decreases path.len(),
{
    if path.len() == 0 {
        -1
    } else if path.last() == '/' {
        path.len() - 1
    } else {
        last_slash(path.drop_last())
    }
}

/// What stands before the last separator; empty at the top level.
pub open spec fn parent_of(path: Seq<char>) -> Seq<char> {
    if last_slash(path) < 0 {
        Seq::empty()
    } else {
        path.take(last_slash(path))
    }
}

/// The final segment: what stands behind the last separator.
pub open spec fn leaf_of(path: Seq<char>) -> Seq<char> {
    path.skip(last_slash(path) + 1)
}

/// The number of separators in `path`: its nesting depth.
pub open spec fn slash_count(path: Seq<char>) -> nat
    decreases path.len(),
{
    if path.len() == 0 {
        0
    } else {
        slash_count(path.drop_last()) + if path.last() == '/' {
            1nat
        } else {
            0nat
        }
    }
}

/// Every proper prefix of `path` that ends right before a separator,
/// shallowest first.
pub open spec fn ancestors(path: Seq<char>) -> Seq<Seq<char>>
    decreases path.len(),
{
    if path.len() == 0 {
        Seq::empty()
    } else if path.last() == '/' {
        ancestors(path.drop_last()).push(path.drop_last())
    } else {
        ancestors(path.drop_last())
    }
}

/// `name` as an entry of the directory `dir`, which may be the root.
pub open spec fn joined(dir: Seq<char>, name: Seq<char>) -> Seq<char> {
    if dir.len() == 0 {
        name
    } else {
        dir.push('/') + name
    }
}

/// `rel` below the absolute directory `root`, with a single separator between.
pub open spec fn absolute(root: Seq<char>, rel: Seq<char>) -> Seq<char> {
    if root.len() > 0 && root.last() == '/' {
        root + rel
    } else {
        root.push('/') + rel
    }
}

/// `path` with its final segment replaced by `name`.
pub open spec fn renamed(path: Seq<char>, name: Seq<char>) -> Seq<char> {
    if last_slash(path) < 0 {
        name
    } else {
        parent_of(path).push('/') + name
    }
}

// ---------------------------------------------------------------------------
// Facts about the model
// ---------------------------------------------------------------------------

/// The last separator is where [`last_slash`] says it is.
pub proof fn lemma_last_slash(path: Seq<char>)
    ensures
        -1 <= last_slash(path) < path.len(),
        last_slash(path) >= 0 ==> path[last_slash(path)] == '/',
        forall|i: int| last_slash(path) < i < path.len() ==> path[i] != '/',
    decreases path.len(),
{
    if path.len() > 0 && path.last() != '/' {
        lemma_last_slash(path.drop_last());
        let k = last_slash(path);
        assert forall|i: int| k < i < path.len() implies path[i] != '/' by {
            if i < path.len() - 1 {
                assert(path.drop_last()[i] == path[i]);
            }
        }
    }
}

/// A path is at most as deep as it is long.
pub proof fn lemma_slash_count(path: Seq<char>)
    ensures
        slash_count(path) <= path.len(),
    decreases path.len(),
{
    if path.len() > 0 {
        lemma_slash_count(path.drop_last());
    }
}

/// A separator with none behind it is the last one.
pub proof fn lemma_last_slash_is(path: Seq<char>, at: int)
    requires
        -1 <= at < path.len(),
        at >= 0 ==> path[at] == '/',
        forall|i: int| at < i < path.len() ==> path[i] != '/',
    ensures
        last_slash(path) == at,
{
    lemma_last_slash(path);
}

/// The ancestors of a path are exactly the paths that it lies under.
pub proof fn lemma_ancestors_are_under(path: Seq<char>, dir: Seq<char>)
    ensures
        ancestors(path).contains(dir) <==> under(dir, path),
    decreases path.len(),
{
    if path.len() == 0 {
        assert(!under(dir, path));
        assert(!ancestors(path).contains(dir));
    } else {
        let rest = path.drop_last();
        lemma_ancestors_are_under(rest, dir);
        let deeper = ancestors(rest);
        if path.last() == '/' {
            assert(ancestors(path) == deeper.push(rest));
            if ancestors(path).contains(dir) {
                let i = choose|i: int| 0 <= i < ancestors(path).len() && ancestors(path)[i] == dir;
                if i < deeper.len() {
                    assert(deeper[i] == dir);
                    assert(dir.push('/').is_prefix_of(path));
                } else {
                    assert(dir == rest);
                    assert(dir.push('/') =~= path);
                }
            }
            if under(dir, path) {
                if dir.len() == rest.len() {
                    assert(dir =~= rest) by {
                        assert forall|i: int| 0 <= i < dir.len() implies dir[i] == rest[i] by {
                            assert(dir.push('/')[i] == path.subrange(
                                0,
                                dir.push('/').len() as int,
                            )[i]);
                        }
                    }
                    assert(ancestors(path)[deeper.len() as int] == dir);
                } else {
                    assert(dir.push('/') =~= rest.subrange(0, dir.push('/').len() as int));
                    assert(deeper.contains(dir));
                    let i = choose|i: int| 0 <= i < deeper.len() && deeper[i] == dir;
                    assert(ancestors(path)[i] == dir);
                }
            }
        } else {
            if under(dir, path) {
                let q = dir.push('/');
                if q.len() == path.len() {
                    assert(q[q.len() - 1] == path.subrange(0, q.len() as int)[q.len() - 1]);
                }
                assert(q =~= rest.subrange(0, q.len() as int));
            }
            if under(dir, rest) {
                assert(dir.push('/') =~= path.subrange(0, dir.push('/').len() as int));
            }
        }
    }
}

/// A directory sorts before everything below it.
pub proof fn lemma_under_sorts_after(dir: Seq<char>, path: Seq<char>)
    requires
        under(dir, path),
    ensures
        text::text_lt(dir, path),
{
    assert forall|i: int| 0 <= i < dir.len() implies dir[i] == path[i] by {
        assert(dir.push('/')[i] == path.subrange(0, dir.push('/').len() as int)[i]);
    }
    assert(text::differs_below(dir, path, dir.len() as int));
}

/// In ascending order, once a path has moved past the texts with a given
/// prefix, no later path has that prefix.
pub proof fn lemma_past_prefix(prefix: Seq<char>, b: Seq<char>, c: Seq<char>)
    requires
        !prefix.is_prefix_of(b),
        !text::text_lt(b, prefix),
        text::text_lt(b, c),
    ensures
        !prefix.is_prefix_of(c),
{
    text::lemma_text_lt_total(b, prefix);
    if b == prefix {
        assert(prefix =~= b.subrange(0, prefix.len() as int));
    }
    let i = choose|i: int| text::differs_below(prefix, b, i);
    if i == prefix.len() {
        assert(prefix =~= b.subrange(0, prefix.len() as int));
    }
    let k = choose|k: int| text::differs_below(b, c, k);
    if prefix.is_prefix_of(c) {
        let at = if k < i { k } else { i };
        assert(prefix[at] == c.subrange(0, prefix.len() as int)[at]);
        if k < i {
            assert(prefix[k] == b[k]);
        }
    }
}

// ---------------------------------------------------------------------------
// Operations
// ---------------------------------------------------------------------------

/// Whether `path` lies below the directory `dir`.
pub fn is_under(dir: &str, path: &str) -> (below: bool)
    ensures
        below == under(dir@, path@),
{
    let mut prefix = dir.to_owned();
    prefix.push('/');
    text::starts_with(path, prefix.as_str())
}

/// The position of the last separator of `path`.
fn find_last_slash(path: &str) -> (at: Option<usize>)
    ensures
        at is None <==> last_slash(path@) < 0,
        at matches Some(i) ==> i == last_slash(path@) && i < path@.len(),
{
    let chars = text::characters(path);
    let mut i: usize = chars.len();
    while i > 0
        invariant
            i <= chars.len(),
            chars@ == path@,
            forall|k: int| i <= k < chars.len() ==> path@[k] != '/',
        decreases i,
    {
        if chars[i - 1] == '/' {
            proof {
                lemma_last_slash_is(path@, i - 1);
            }
            return Some(i - 1);
        }
        i = i - 1;
    }
    proof {
        lemma_last_slash_is(path@, -1);
    }
    None
}

/// The directory that holds `path`; empty at the top level.
pub fn parent_dir(path: &str) -> (parent: &str)
    ensures
        parent@ == parent_of(path@),
{
    match find_last_slash(path) {
        Some(i) => path.substring_char(0, i),
        None => {
            let empty = path.substring_char(0, 0);
            assert(empty@ =~= Seq::<char>::empty());
            empty
        },
    }
}

/// The final segment of `path`.
pub fn leaf_name(path: &str) -> (leaf: &str)
    ensures
        leaf@ == leaf_of(path@),
{
    let n: usize = path.unicode_len();
    let from: usize = match find_last_slash(path) {
        Some(i) => i + 1,
        None => 0,
    };
    proof {
        lemma_last_slash(path@);
        assert(path@.subrange(from as int, n as int) =~= leaf_of(path@));
    }
    path.substring_char(from, n)
}

/// The nesting depth of `path`: its number of separators.
pub fn path_depth(path: &str) -> (depth: usize)
    ensures
        depth == slash_count(path@),
{
    let chars = text::characters(path);
    let mut depth: usize = 0;
    let mut i: usize = 0;
    while i < chars.len()
        invariant
            i <= chars.len(),
            chars@ == path@,
            depth <= i,
            depth == slash_count(path@.take(i as int)),
        decreases chars.len() - i,
    {
        proof {
            assert(path@.take(i + 1).drop_last() =~= path@.take(i as int));
        }
        if chars[i] == '/' {
            depth = depth + 1;
        }
        i = i + 1;
    }
    proof {
        assert(path@.take(i as int) =~= path@);
    }
    depth
}

/// Every ancestor directory of `path`, shallowest first: the directories that
/// must be expanded for the row of `path` to show.
pub fn ancestor_dirs(path: &str) -> (dirs: Vec<String>)
    ensures
        dirs@.len() == ancestors(path@).len(),
        forall|i: int| 0 <= i < dirs@.len() ==> (#[trigger] dirs@[i])@ == ancestors(path@)[i],
{
    let chars = text::characters(path);
    let mut dirs: Vec<String> = Vec::new();
    let mut i: usize = 0;
    while i < chars.len()
        invariant
            i <= chars.len(),
            chars@ == path@,
            dirs@.len() == ancestors(path@.take(i as int)).len(),
            forall|k: int|
                0 <= k < dirs@.len() ==> (#[trigger] dirs@[k])@ == ancestors(
                    path@.take(i as int),
                )[k],
        decreases chars.len() - i,
    {
        proof {
            assert(path@.take(i + 1).drop_last() =~= path@.take(i as int));
        }
        if chars[i] == '/' {
            let dir = path.substring_char(0, i).to_owned();
            proof {
                assert(path@.subrange(0, i as int) =~= path@.take(i as int));
            }
            dirs.push(dir);
        }
        i = i + 1;
    }
    proof {
        assert(path@.take(i as int) =~= path@);
    }
    dirs
}

/// Joins the worktree root and a root-relative path into an absolute path. The
/// root may end in a separator or not; the join never doubles it.
pub fn absolute_path(root: &str, rel: &str) -> (path: String)
    ensures
        path@ == absolute(root@, rel@),
{
    let n: usize = root.unicode_len();
    let mut path = root.to_owned();
    if !(n > 0 && root.get_char(n - 1) == '/') {
        path.push('/');
    }
    path.append(rel);
    path
}

/// Joins a target directory, empty for the worktree root, and a typed name.
pub fn join_dir(parent: &str, name: &str) -> (path: String)
    ensures
        path@ == joined(parent@, name@),
{
    if parent.is_empty() {
        name.to_owned()
    } else {
        let mut path = parent.to_owned();
        path.push('/');
        path.append(name);
        path
    }
}

/// The path of `path` after an inline rename to `new_name`: the parent stays.
pub fn rename_target(path: &str, new_name: &str) -> (to: String)
    ensures
        to@ == renamed(path@, new_name@),
{
    match find_last_slash(path) {
        Some(i) => {
            let mut to = path.substring_char(0, i).to_owned();
            to.push('/');
            to.append(new_name);
            to
        },
        None => new_name.to_owned(),
    }
}

/// The directory a row stands for: its own path, or the parent of a file.
pub open spec fn directory_of(kind: EntryKind, path: Seq<char>) -> Seq<char> {
    match kind {
        EntryKind::Dir => path,
        EntryKind::File => parent_of(path),
    }
}

/// The absolute directory that "Reveal in terminal" opens.
pub open spec fn terminal_dir(root: Seq<char>, kind: EntryKind, path: Seq<char>) -> Seq<char> {
    if kind == EntryKind::File && last_slash(path) < 0 {
        root
    } else {
        absolute(root, directory_of(kind, path))
    }
}

/// The absolute directory that "Reveal in terminal" opens: a directory itself,
/// a file's parent, and the root for a file at the top level.
pub fn reveal_in_terminal_dir(root: &str, kind: EntryKind, path: &str) -> (dir: String)
    ensures
        dir@ == terminal_dir(root@, kind, path@),
{
    match kind {
        EntryKind::Dir => absolute_path(root, path),
        EntryKind::File => match find_last_slash(path) {
            Some(i) => {
                let parent = path.substring_char(0, i);
                absolute_path(root, parent)
            },
            None => root.to_owned(),
        },
    }
}

/// The directory that a drop onto a row resolves to.
pub fn drop_target_dir<'a>(target_kind: EntryKind, target_path: &'a str) -> (dir: &'a str)
    ensures
        dir@ == directory_of(target_kind, target_path@),
{
    match target_kind {
        EntryKind::Dir => target_path,
        EntryKind::File => parent_dir(target_path),
    }
}

/// `target_dir` is the dragged directory or lies below it.
pub open spec fn own_subtree(
    dragged_path: Seq<char>,
    dragged_kind: EntryKind,
    target_dir: Seq<char>,
) -> bool {
    dragged_kind == EntryKind::Dir && (target_dir == dragged_path || under(
        dragged_path,
        target_dir,
    ))
}

/// Whether a dragged directory would land in itself or below itself.
pub fn drops_into_own_subtree(
    dragged_path: &str,
    dragged_kind: EntryKind,
    target_dir: &str,
) -> (own: bool)
    ensures
        own == own_subtree(dragged_path@, dragged_kind, target_dir@),
{
    dragged_kind == EntryKind::Dir && (text::same_text(target_dir, dragged_path) || is_under(
        dragged_path,
        target_dir,
    ))
}

/// Where a drop moves the dragged entry, or `None` where it is refused: the
/// entry is there already, or a directory would land in its own subtree.
pub open spec fn drop_move(
    dragged_path: Seq<char>,
    dragged_kind: EntryKind,
    target_kind: EntryKind,
    target_path: Seq<char>,
) -> Option<Seq<char>> {
    let dir = directory_of(target_kind, target_path);
    if parent_of(dragged_path) == dir || own_subtree(dragged_path, dragged_kind, dir) {
        None
    } else {
        Some(joined(dir, leaf_of(dragged_path)))
    }
}

/// Resolves a drop of one row onto another into a rename from the dragged path
/// to its path below the target directory.
pub fn resolve_drop(
    dragged_path: &str,
    dragged_kind: EntryKind,
    target_kind: EntryKind,
    target_path: &str,
) -> (resolved: Option<(String, String)>)
    ensures
        match (resolved, drop_move(dragged_path@, dragged_kind, target_kind, target_path@)) {
            (None, None) => true,
            (Some((from, to)), Some(path)) => from@ == dragged_path@ && to@ == path,
            _ => false,
        },
{
    let target_dir = drop_target_dir(target_kind, target_path);
    let current_parent = parent_dir(dragged_path);
    if text::same_text(current_parent, target_dir) || drops_into_own_subtree(
        dragged_path,
        dragged_kind,
        target_dir,
    ) {
        return None;
    }
    let to = join_dir(target_dir, leaf_name(dragged_path));
    Some((dragged_path.to_owned(), to))
}

/// The final non-empty segment of an absolute path, or the whole path where it
/// has none (the filesystem root).
pub open spec fn root_leaf_of(root: Seq<char>) -> Seq<char> {
    if last_non_slash(root) < 0 {
        root
    } else {
        leaf_of(root.take(last_non_slash(root) + 1))
    }
}

/// The position of the last character of `path` that is no separator, or -1.
pub open spec fn last_non_slash(path: Seq<char>) -> int
    decreases path.len(),
{
    if path.len() == 0 {
        -1
    } else if path.last() != '/' {
        path.len() - 1
    } else {
        last_non_slash(path.drop_last())
    }
}

/// The label of the workspace-root row before it is uppercased.
pub fn root_leaf(root: &str) -> (leaf: &str)
    ensures
        leaf@ == root_leaf_of(root@),
{
    let chars = text::characters(root);
    let mut n: usize = chars.len();
    proof {
        assert(root@.take(n as int) =~= root@);
    }
    while n > 0 && chars[n - 1] == '/'
        invariant
            n <= chars.len(),
            chars@ == root@,
            last_non_slash(root@) == last_non_slash(root@.take(n as int)),
        decreases n,
    {
        proof {
            assert(root@.take(n as int).drop_last() =~= root@.take(n - 1));
        }
        n = n - 1;
    }
    if n == 0 {
        return root;
    }
    let body = root.substring_char(0, n);
    proof {
        assert(body@ =~= root@.take(n as int));
        assert(body@.last() == root@[n - 1]);
    }
    leaf_name(body)
}

// ---------------------------------------------------------------------------
// Laws
// ---------------------------------------------------------------------------

/// A rename keeps the parent and gives the entry exactly the new name.
pub proof fn law_rename_keeps_parent(path: Seq<char>, name: Seq<char>)
    requires
        !name.contains('/'),
    ensures
        parent_of(renamed(path, name)) == parent_of(path),
        leaf_of(renamed(path, name)) == name,
{
    let to = renamed(path, name);
    lemma_last_slash(path);
    assert forall|i: int| 0 <= i < name.len() implies name[i] != '/' by {
        assert(name.contains(name[i]));
    }
    if last_slash(path) < 0 {
        lemma_last_slash_is(to, -1);
        assert(leaf_of(to) =~= name);
    } else {
        let k = last_slash(path);
        assert forall|i: int| k < i < to.len() implies to[i] != '/' by {
            assert(to[i] == name[i - k - 1]);
        }
        lemma_last_slash_is(to, k);
        assert(parent_of(to) =~= parent_of(path));
        assert(leaf_of(to) =~= name);
    }
}

/// Renaming an entry to its own name changes nothing.
pub proof fn law_rename_to_own_name(path: Seq<char>)
    ensures
        renamed(path, leaf_of(path)) == path,
{
    lemma_last_slash(path);
    assert(renamed(path, leaf_of(path)) =~= path);
}

/// An entry created under a directory has that directory as its parent and
/// the typed name as its leaf.
pub proof fn law_join_splits_back(dir: Seq<char>, name: Seq<char>)
    requires
        !name.contains('/'),
    ensures
        parent_of(joined(dir, name)) == dir,
        leaf_of(joined(dir, name)) == name,
{
    let path = joined(dir, name);
    assert forall|i: int| 0 <= i < name.len() implies name[i] != '/' by {
        assert(name.contains(name[i]));
    }
    if dir.len() == 0 {
        lemma_last_slash_is(path, -1);
        assert(parent_of(path) =~= dir);
        assert(leaf_of(path) =~= name);
    } else {
        let k = dir.len() as int;
        assert forall|i: int| k < i < path.len() implies path[i] != '/' by {
            assert(path[i] == name[i - k - 1]);
        }
        lemma_last_slash_is(path, k);
        assert(parent_of(path) =~= dir);
        assert(leaf_of(path) =~= name);
    }
}

/// A move keeps the entry's name and puts it into the directory it was dropped
/// on; it never stays where it was and never goes into its own subtree.
pub proof fn law_drop_moves_elsewhere(
    dragged_path: Seq<char>,
    dragged_kind: EntryKind,
    target_kind: EntryKind,
    target_path: Seq<char>,
)
    ensures
        drop_move(dragged_path, dragged_kind, target_kind, target_path) matches Some(to) ==> {
            &&& leaf_of(to) == leaf_of(dragged_path)
            &&& parent_of(to) == directory_of(target_kind, target_path)
            &&& to != dragged_path
            &&& (dragged_kind == EntryKind::Dir ==> !under(dragged_path, to))
        },
{
    let dir = directory_of(target_kind, target_path);
    if let Some(to) = drop_move(dragged_path, dragged_kind, target_kind, target_path) {
        let name = leaf_of(dragged_path);
        lemma_last_slash(dragged_path);
        assert(!name.contains('/')) by {
            if name.contains('/') {
                let i = choose|i: int| 0 <= i < name.len() && name[i] == '/';
                assert(dragged_path[last_slash(dragged_path) + 1 + i] == '/');
            }
        }
        law_join_splits_back(dir, name);
        if dragged_kind == EntryKind::Dir && under(dragged_path, to) {
            lemma_under_means_parent(dragged_path, to);
        }
    }
}

/// What lies below a directory has the directory, or something below it, as
/// its parent.
pub proof fn lemma_under_means_parent(dir: Seq<char>, path: Seq<char>)
    requires
        under(dir, path),
    ensures
        parent_of(path) == dir || under(dir, parent_of(path)),
{
    let q = dir.push('/');
    lemma_last_slash(path);
    assert(path[dir.len() as int] == '/') by {
        assert(q[dir.len() as int] == path.subrange(0, q.len() as int)[dir.len() as int]);
    }
    let k = last_slash(path);
    assert(k >= dir.len());
    if k == dir.len() {
        assert(parent_of(path) =~= dir) by {
            assert forall|i: int| 0 <= i < dir.len() implies dir[i] == path[i] by {
                assert(q[i] == path.subrange(0, q.len() as int)[i]);
            }
        }
    } else {
        assert forall|i: int| 0 <= i < q.len() implies q[i] == parent_of(path)[i] by {
            assert(q[i] == path.subrange(0, q.len() as int)[i]);
        }
        assert(q =~= parent_of(path).subrange(0, q.len() as int));
    }
}

/// A path lies below a directory exactly where it is the directory, a separator
/// and something more, which may be empty.
pub proof fn law_under_is_behind_a_separator(dir: &str, path: &str, below: bool)
    requires
        call_ensures(is_under, (dir, path), below),
    ensures
        below <==> exists|rest: Seq<char>| path@ == #[trigger] (dir@ + seq!['/'] + rest),
{
    let prefix = dir@.push('/');
    if below {
        let rest = path@.skip(prefix.len() as int);
        assert(path@ =~= prefix + rest);
        assert(path@ =~= dir@ + seq!['/'] + rest);
    }
    if exists|rest: Seq<char>| path@ == #[trigger] (dir@ + seq!['/'] + rest) {
        let rest = choose|rest: Seq<char>| path@ == #[trigger] (dir@ + seq!['/'] + rest);
        assert(prefix =~= path@.subrange(0, prefix.len() as int));
    }
}

/// A path is its parent, a separator and its leaf, or the leaf alone at the top
/// level; a leaf holds no separator.
pub proof fn law_path_is_parent_and_leaf(path: &str, parent: &str, leaf: &str)
    requires
        call_ensures(parent_dir, (path,), parent),
        call_ensures(leaf_name, (path,), leaf),
    ensures
        !leaf@.contains('/'),
        path@.contains('/') ==> path@ == parent@ + seq!['/'] + leaf@,
        !path@.contains('/') ==> path@ == leaf@ && parent@.len() == 0,
{
    lemma_last_slash(path@);
    let k = last_slash(path@);
    if leaf@.contains('/') {
        let i = choose|i: int| 0 <= i < leaf@.len() && leaf@[i] == '/';
        assert(path@[k + 1 + i] == '/');
    }
    if k >= 0 {
        assert(path@[k] == '/');
        assert(path@.contains('/'));
        assert(path@ =~= parent@ + seq!['/'] + leaf@);
    } else {
        if path@.contains('/') {
            let i = choose|i: int| 0 <= i < path@.len() && path@[i] == '/';
            assert(path@[i] != '/');
        }
        assert(path@ =~= leaf@);
    }
}

/// The positions of the separators of a path.
pub open spec fn separators(path: Seq<char>) -> Set<int> {
    Set::new(|i: int| 0 <= i < path.len() && path[i] == '/')
}

pub proof fn lemma_count_separators(path: Seq<char>)
    ensures
        separators(path).finite(),
        slash_count(path) == separators(path).len(),
    decreases path.len(),
{
    if path.len() == 0 {
        assert(separators(path) =~= Set::empty());
    } else {
        let rest = path.drop_last();
        lemma_count_separators(rest);
        if path.last() == '/' {
            assert(separators(path) =~= separators(rest).insert(path.len() - 1));
        } else {
            assert(separators(path) =~= separators(rest));
        }
    }
}

/// A path is as deep as it has separators.
pub proof fn law_depth_counts_separators(path: &str, depth: usize)
    requires
        call_ensures(path_depth, (path,), depth),
    ensures
        depth == separators(path@).len(),
{
    lemma_count_separators(path@);
}

proof fn lemma_ancestors_grow(path: Seq<char>)
    ensures
        ancestors(path).len() == slash_count(path),
        forall|i: int| 0 <= i < ancestors(path).len() ==> (#[trigger] ancestors(path)[i]).len()
            < path.len(),
        forall|i: int, j: int|
            0 <= i < j < ancestors(path).len() ==> (#[trigger] ancestors(path)[i]).len() < (
            #[trigger] ancestors(path)[j]).len(),
    decreases path.len(),
{
    if path.len() > 0 {
        lemma_ancestors_grow(path.drop_last());
    }
}

/// The directories above a path are exactly those that it lies below, each once,
/// the shallowest first: as many as the path has separators.
pub proof fn law_ancestors_are_the_directories_above(
    path: &str,
    dirs: Vec<String>,
    dir: Seq<char>,
)
    requires
        call_ensures(ancestor_dirs, (path,), dirs),
    ensures
        dirs@.len() == separators(path@).len(),
        forall|i: int, j: int|
            0 <= i < j < dirs@.len() ==> (#[trigger] dirs@[i])@.len() < (#[trigger] dirs@[j])@.len(),
        (exists|i: int| 0 <= i < dirs@.len() && (#[trigger] dirs@[i])@ == dir) <==> (exists|
            rest: Seq<char>,
        |
            path@ == #[trigger] (dir + seq!['/'] + rest)),
{
    let all = ancestors(path@);
    lemma_ancestors_grow(path@);
    lemma_count_separators(path@);
    lemma_ancestors_are_under(path@, dir);
    assert forall|i: int, j: int| 0 <= i < j < dirs@.len() implies (#[trigger] dirs@[i])@.len() < (
    #[trigger] dirs@[j])@.len() by {
        assert(all[i].len() < all[j].len());
    }
    let prefix = dir.push('/');
    if exists|rest: Seq<char>| path@ == #[trigger] (dir + seq!['/'] + rest) {
        let rest = choose|rest: Seq<char>| path@ == #[trigger] (dir + seq!['/'] + rest);
        assert(prefix =~= path@.subrange(0, prefix.len() as int));
        let i = choose|i: int| 0 <= i < all.len() && all[i] == dir;
        assert(dirs@[i]@ == dir);
    }
    if exists|i: int| 0 <= i < dirs@.len() && (#[trigger] dirs@[i])@ == dir {
        let i = choose|i: int| 0 <= i < dirs@.len() && (#[trigger] dirs@[i])@ == dir;
        assert(all[i] == dir);
        assert(under(dir, path@));
        let rest = path@.skip(prefix.len() as int);
        assert(path@ =~= prefix + rest);
        assert(path@ =~= dir + seq!['/'] + rest);
    }
}

/// An absolute path is the root and the relative path with one separator
/// between them, whether or not the root ends in one.
pub proof fn law_absolute_path_has_one_separator(root: &str, rel: &str, path: String)
    requires
        call_ensures(absolute_path, (root, rel), path),
    ensures
        root@.len() > 0 && root@.last() == '/' ==> path@ == root@ + rel@,
        root@.len() == 0 || root@.last() != '/' ==> path@ == root@ + seq!['/'] + rel@,
{
    assert(root@.push('/') + rel@ =~= root@ + seq!['/'] + rel@);
}

/// An entry of the root is its name, and an entry of a directory is the
/// directory, a separator and its name.
pub proof fn law_join_puts_the_name_below(parent: &str, name: &str, path: String)
    requires
        call_ensures(join_dir, (parent, name), path),
    ensures
        parent@.len() == 0 ==> path@ == name@,
        parent@.len() > 0 ==> path@ == parent@ + seq!['/'] + name@,
{
    assert(parent@.push('/') + name@ =~= parent@ + seq!['/'] + name@);
}

/// A rename changes nothing but what stands behind the last separator.
pub proof fn law_rename_changes_the_leaf(path: &str, new_name: &str, to: String, parent: &str)
    requires
        call_ensures(rename_target, (path, new_name), to),
        call_ensures(parent_dir, (path,), parent),
    ensures
        path@.contains('/') ==> to@ == parent@ + seq!['/'] + new_name@,
        !path@.contains('/') ==> to@ == new_name@,
{
    lemma_last_slash(path@);
    if last_slash(path@) >= 0 {
        assert(path@[last_slash(path@)] == '/');
        assert(parent@.push('/') + new_name@ =~= parent@ + seq!['/'] + new_name@);
    } else if path@.contains('/') {
        let i = choose|i: int| 0 <= i < path@.len() && path@[i] == '/';
        assert(path@[i] != '/');
    }
}

/// The terminal opens in a directory itself and in the directory that holds a
/// file, which for a file at the top level is the root as it is given.
pub proof fn law_terminal_opens_where_the_row_is(
    root: &str,
    path: &str,
    for_dir: String,
    for_file: String,
    own: String,
    holder: String,
    parent: &str,
)
    requires
        call_ensures(reveal_in_terminal_dir, (root, EntryKind::Dir, path), for_dir),
        call_ensures(reveal_in_terminal_dir, (root, EntryKind::File, path), for_file),
        call_ensures(parent_dir, (path,), parent),
        call_ensures(absolute_path, (root, path), own),
        call_ensures(absolute_path, (root, parent), holder),
    ensures
        for_dir@ == own@,
        path@.contains('/') ==> for_file@ == holder@,
        !path@.contains('/') ==> for_file@ == root@,
{
    lemma_last_slash(path@);
    if last_slash(path@) >= 0 {
        assert(path@[last_slash(path@)] == '/');
        assert(path@.contains('/'));
    } else if path@.contains('/') {
        let i = choose|i: int| 0 <= i < path@.len() && path@[i] == '/';
        assert(path@[i] != '/');
    }
}

/// A drop onto a directory goes into it, and a drop onto a file into the
/// directory that holds it.
pub proof fn law_drop_goes_into_a_directory(
    path: &str,
    onto_dir: &str,
    onto_file: &str,
    parent: &str,
)
    requires
        call_ensures(drop_target_dir, (EntryKind::Dir, path), onto_dir),
        call_ensures(drop_target_dir, (EntryKind::File, path), onto_file),
        call_ensures(parent_dir, (path,), parent),
    ensures
        onto_dir@ == path@,
        onto_file@ == parent@,
{
}

/// A directory's own subtree is itself and what lies below it; a file has none.
pub proof fn law_own_subtree(
    dragged_path: &str,
    dragged_kind: EntryKind,
    target_dir: &str,
    own: bool,
    below: bool,
)
    requires
        call_ensures(drops_into_own_subtree, (dragged_path, dragged_kind, target_dir), own),
        call_ensures(is_under, (dragged_path, target_dir), below),
    ensures
        dragged_kind is File ==> !own,
        dragged_kind is Dir ==> (own <==> target_dir@ == dragged_path@ || below),
{
}

/// A drop is refused exactly where the entry is there already or would land in
/// its own subtree. Otherwise the entry goes, under its own name, into the
/// directory that it was dropped on.
pub proof fn law_drop_is_a_move(
    dragged_path: &str,
    dragged_kind: EntryKind,
    target_kind: EntryKind,
    target_path: &str,
    resolved: Option<(String, String)>,
    dir: &str,
    holder: &str,
    name: &str,
    own: bool,
    landing: String,
)
    requires
        call_ensures(
            resolve_drop,
            (dragged_path, dragged_kind, target_kind, target_path),
            resolved,
        ),
        call_ensures(drop_target_dir, (target_kind, target_path), dir),
        call_ensures(parent_dir, (dragged_path,), holder),
        call_ensures(leaf_name, (dragged_path,), name),
        call_ensures(drops_into_own_subtree, (dragged_path, dragged_kind, dir), own),
        call_ensures(join_dir, (dir, name), landing),
    ensures
        resolved is None <==> holder@ == dir@ || own,
        resolved matches Some((from, to)) ==> from@ == dragged_path@ && to@ == landing@,
{
}

proof fn lemma_last_non_slash(path: Seq<char>)
    ensures
        -1 <= last_non_slash(path) < path.len(),
        last_non_slash(path) >= 0 ==> path[last_non_slash(path)] != '/',
        forall|i: int| last_non_slash(path) < i < path.len() ==> #[trigger] path[i] == '/',
    decreases path.len(),
{
    if path.len() > 0 && path.last() == '/' {
        let rest = path.drop_last();
        lemma_last_non_slash(rest);
        assert forall|i: int| last_non_slash(path) < i < path.len() implies #[trigger] path[i]
            == '/' by {
            if i < rest.len() {
                assert(rest[i] == path[i]);
            }
        }
    }
}

/// The root's label is its last segment that is not empty: it holds no
/// separator, nothing but separators follows it, and a separator or nothing
/// stands before it. A root of separators alone is its own label.
pub proof fn law_root_leaf_is_the_last_segment(root: &str, leaf: &str)
    requires
        call_ensures(root_leaf, (root,), leaf),
    ensures
        (forall|i: int| 0 <= i < root@.len() ==> #[trigger] root@[i] == '/') ==> leaf@ == root@,
        (exists|i: int| 0 <= i < root@.len() && #[trigger] root@[i] != '/') ==> {
            &&& leaf@.len() > 0
            &&& !leaf@.contains('/')
            &&& exists|from: int, to: int|
                0 <= from < to <= root@.len() && leaf@ == #[trigger] root@.subrange(from, to) && (
                from == 0 || root@[from - 1] == '/') && (forall|i: int|
                    to <= i < root@.len() ==> #[trigger] root@[i] == '/')
        },
{
    lemma_last_non_slash(root@);
    let n = last_non_slash(root@);
    if exists|i: int| 0 <= i < root@.len() && #[trigger] root@[i] != '/' {
        assert(n >= 0);
        let body = root@.take(n + 1);
        lemma_last_slash(body);
        let k = last_slash(body);
        assert(body[n] == root@[n]);
        assert(k < n);
        assert(leaf@ =~= root@.subrange(k + 1, n + 1));
        if k >= 0 {
            assert(root@[k] == body[k]);
        }
        if leaf@.contains('/') {
            let i = choose|i: int| 0 <= i < leaf@.len() && leaf@[i] == '/';
            assert(body[k + 1 + i] == '/');
        }
    } else if n >= 0 {
        assert(root@[n] == '/');
    }
}

} // verus!
