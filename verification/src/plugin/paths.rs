//! Paths of plugin files, and the rule that none leads out of the plugin directory.
use crate::text;
use crate::text::{same_text, starts_with_text};
use vstd::prelude::*;

verus! {

/// Part of a path.
#[derive(Debug, PartialEq, Eq)]
pub enum PathPart {
    Root,
    /// `..`
    Parent,
    /// `.`
    Current,
    Name(String),
}

/// Contents of [`PathPart`].
pub enum PartView {
    Root,
    Parent,
    Current,
    Name(Seq<char>),
}

impl View for PathPart {
    type V = PartView;

    open spec fn view(&self) -> PartView {
        match *self {
            PathPart::Root => PartView::Root,
            PathPart::Parent => PartView::Parent,
            PathPart::Current => PartView::Current,
            PathPart::Name(n) => PartView::Name(n@),
        }
    }
}

impl Clone for PathPart {
    fn clone(&self) -> (r: Self)
        ensures
            r == *self,
    {
        match self {
            PathPart::Root => PathPart::Root,
            PathPart::Parent => PathPart::Parent,
            PathPart::Current => PathPart::Current,
            PathPart::Name(n) => PathPart::Name(n.clone()),
        }
    }
}

/// A path by its parts.
pub type PathView = Seq<PartView>;

/// Contents of path parts.
pub open spec fn path_view(parts: Seq<PathPart>) -> PathView {
    Seq::new(parts.len(), |i: int| parts[i]@)
}

/// A path one part further: `..` drops the last name, `.` stays, the root starts over.
pub open spec fn step(path: PathView, part: PartView) -> PathView {
    match part {
        PartView::Root => seq![PartView::Root],
        PartView::Current => path,
        PartView::Parent => if path.len() > 0 && path.last() !is Root {
            path.drop_last()
        } else {
            path
        },
        PartView::Name(_) => path.push(part),
    }
}

/// A path without `.` and `..`.
pub open spec fn normalized(parts: PathView) -> PathView
    decreases parts.len(),
{
    if parts.len() == 0 {
        Seq::empty()
    } else {
        step(normalized(parts.drop_last()), parts.last())
    }
}

/// Only names, after the root where there is one.
pub open spec fn plain(path: PathView) -> bool {
    forall|i: int|
        0 <= i < path.len() ==> (#[trigger] path[i] is Name || (path[i] is Root && i == 0))
}

/// Whether a path lies in a directory.
pub open spec fn lies_in(path: PathView, dir: PathView) -> bool {
    dir.len() <= path.len() && path.take(dir.len() as int) == dir
}

/// A path relative to a directory; one that starts at the root stands for itself.
pub open spec fn joined(dir: PathView, rel: PathView) -> PathView {
    if rel.len() > 0 && rel[0] is Root {
        rel
    } else {
        dir + rel
    }
}

/// The directory that holds a path, where there is one.
pub open spec fn parent(path: PathView) -> Option<PathView> {
    if path.len() > 0 && path.last() !is Root {
        Some(path.drop_last())
    } else {
        None
    }
}

/// The path without `.` and `..`.
pub fn normalize_plugin_path(parts: &[PathPart]) -> (r: Vec<PathPart>)
    ensures
        path_view(r@) == normalized(path_view(parts@)),
{
    let mut out: Vec<PathPart> = Vec::new();
    let mut i: usize = 0;
    let ghost all = path_view(parts@);
    assert(path_view(out@) =~= normalized(all.take(0)));
    while i < parts.len()
        invariant
            i <= parts@.len(),
            all == path_view(parts@),
            path_view(out@) == normalized(all.take(i as int)),
        decreases parts@.len() - i,
    {
        let ghost before = out@;
        assert(all.take(i + 1).drop_last() =~= all.take(i as int));
        assert(all.take(i + 1).last() == parts@[i as int]@);
        match &parts[i] {
            PathPart::Root => {
                let mut start: Vec<PathPart> = Vec::new();
                start.push(PathPart::Root);
                assert(path_view(start@) =~= seq![PartView::Root]);
                out = start;
            },
            PathPart::Current => {},
            PathPart::Parent => {
                let drops = match out.last() {
                    Some(PathPart::Root) => false,
                    Some(_) => true,
                    None => false,
                };
                if drops {
                    assert(path_view(before).last() == before.last()@);
                    let _ = out.pop();
                    assert(path_view(out@) =~= path_view(before).drop_last());
                }
            },
            PathPart::Name(n) => {
                out.push(PathPart::Name(n.clone()));
                assert(path_view(out@) =~= path_view(before).push(PartView::Name(n@)));
            },
        }
        i += 1;
    }
    assert(all.take(all.len() as int) =~= all);
    out
}

fn same_part(a: &PathPart, b: &PathPart) -> (r: bool)
    ensures
        r == (a@ == b@),
{
    match (a, b) {
        (PathPart::Root, PathPart::Root) => true,
        (PathPart::Parent, PathPart::Parent) => true,
        (PathPart::Current, PathPart::Current) => true,
        (PathPart::Name(x), PathPart::Name(y)) => same_text(x.as_str(), y.as_str()),
        _ => false,
    }
}

fn is_in(path: &[PathPart], dir: &[PathPart]) -> (r: bool)
    ensures
        r == lies_in(path_view(path@), path_view(dir@)),
{
    if dir.len() > path.len() {
        return false;
    }
    let mut i: usize = 0;
    while i < dir.len()
        invariant
            i <= dir@.len() <= path@.len(),
            forall|k: int| 0 <= k < i ==> path_view(path@)[k] == #[trigger] path_view(dir@)[k],
        decreases dir@.len() - i,
    {
        if !same_part(&path[i], &dir[i]) {
            assert(path_view(path@).take(dir@.len() as int)[i as int] != path_view(dir@)[i as int]);
            return false;
        }
        i += 1;
    }
    assert(path_view(path@).take(dir@.len() as int) =~= path_view(dir@));
    true
}

fn append_parts(dir: &[PathPart], rel: &[PathPart]) -> (r: Vec<PathPart>)
    ensures
        path_view(r@) == joined(path_view(dir@), path_view(rel@)),
{
    let from_root = rel.len() > 0 && match &rel[0] {
        PathPart::Root => true,
        _ => false,
    };
    let mut out: Vec<PathPart> = Vec::new();
    if !from_root {
        let mut i: usize = 0;
        while i < dir.len()
            invariant
                i <= dir@.len(),
                out@ == dir@.take(i as int),
            decreases dir@.len() - i,
        {
            out.push(dir[i].clone());
            assert(out@ =~= dir@.take(i + 1));
            i += 1;
        }
        assert(out@ =~= dir@);
    }
    let ghost head = out@;
    let mut j: usize = 0;
    assert(out@ =~= head + rel@.take(0));
    while j < rel.len()
        invariant
            j <= rel@.len(),
            out@ == head + rel@.take(j as int),
        decreases rel@.len() - j,
    {
        out.push(rel[j].clone());
        assert(out@ =~= head + rel@.take(j + 1));
        j += 1;
    }
    assert(out@ =~= head + rel@);
    assert(path_view(out@) =~= joined(path_view(dir@), path_view(rel@)));
    out
}

/// Why an entry is refused.
pub open spec fn escapes_text(plugin: Seq<char>, entry: Seq<char>) -> Seq<char> {
    "plugin '"@ + plugin + "' entry '"@ + entry + "' escapes the plugin dir"@
}

/// The file of an entry: its path in the plugin directory without `.` and `..`, refused where it
/// leads out of that directory.
pub fn entry_path(dir: &[PathPart], plugin: &str, entry: &str, entry_parts: &[PathPart]) -> (r: Result<
    Vec<PathPart>,
    String,
>)
    ensures
        ({
            let full = normalized(joined(path_view(dir@), path_view(entry_parts@)));
            match r {
                Ok(path) => lies_in(full, path_view(dir@)) && path_view(path@) == full,
                Err(e) => !lies_in(full, path_view(dir@)) && e@ == escapes_text(plugin@, entry@),
            }
        }),
{
    let full = append_parts(dir, entry_parts);
    let path = normalize_plugin_path(full.as_slice());
    if is_in(path.as_slice(), dir) {
        Ok(path)
    } else {
        Err(crate::text::join5("plugin '", plugin, "' entry '", entry, "' escapes the plugin dir"))
    }
}

/// What an import name is relative to.
pub open spec fn import_target(root: PathView, base: PathView, name: Seq<char>, parts: PathView) -> PathView {
    if text::begins_with(name, "./"@) || text::begins_with(name, "../"@) {
        joined(
            match parent(base) {
                Some(dir) => dir,
                None => root,
            },
            parts,
        )
    } else if text::begins_with(name, "/"@) {
        parts
    } else {
        joined(root, parts)
    }
}

/// The module that an import names: `./` and `../` start at the importing module, `/` at the
/// root, any other name at the plugin directory; one that leads out of that directory is refused.
pub fn resolve_import(root: &[PathPart], base: &[PathPart], name: &str, parts: &[PathPart]) -> (r: Option<
    Vec<PathPart>,
>)
    ensures
        ({
            let full = normalized(
                import_target(path_view(root@), path_view(base@), name@, path_view(parts@)),
            );
            match r {
                Some(path) => lies_in(full, path_view(root@)) && path_view(path@) == full,
                None => !lies_in(full, path_view(root@)),
            }
        }),
{
    let candidate = if starts_with_text(name, "./") || starts_with_text(name, "../") {
        let inner = base.len() > 0 && match &base[base.len() - 1] {
            PathPart::Root => false,
            _ => true,
        };
        if inner {
            let dir = vstd::slice::slice_subrange(base, 0, base.len() - 1);
            assert(path_view(base@).last() == base@.last()@);
            assert(path_view(dir@) =~= path_view(base@).drop_last());
            append_parts(dir, parts)
        } else {
            assert(base@.len() > 0 ==> path_view(base@).last() == base@.last()@);
            append_parts(root, parts)
        }
    } else if starts_with_text(name, "/") {
        let nowhere: Vec<PathPart> = Vec::new();
        let out = append_parts(nowhere.as_slice(), parts);
        assert(path_view(out@) =~= path_view(parts@));
        out
    } else {
        append_parts(root, parts)
    };
    let path = normalize_plugin_path(candidate.as_slice());
    if is_in(path.as_slice(), root) {
        Some(path)
    } else {
        None
    }
}

/// A normalized path holds no `.` and no `..`: what is accepted below a directory names a file
/// below it by names alone.
pub proof fn law_normalized_paths_are_plain(parts: PathView)
    ensures
        plain(normalized(parts)),
    decreases parts.len(),
{
    if parts.len() > 0 {
        law_normalized_paths_are_plain(parts.drop_last());
    }
}

/// Normalizing twice changes nothing more.
pub proof fn law_normalizing_is_idempotent(parts: PathView)
    ensures
        normalized(normalized(parts)) == normalized(parts),
{
    law_normalized_paths_are_plain(parts);
    lemma_plain_stays(normalized(parts));
}

proof fn lemma_plain_stays(path: PathView)
    requires
        plain(path),
    ensures
        normalized(path) == path,
    decreases path.len(),
{
    if path.len() == 0 {
        assert(normalized(path) =~= path);
    } else {
        let init = path.drop_last();
        assert forall|i: int| 0 <= i < init.len() implies (#[trigger] init[i] is Name || (
        init[i] is Root && i == 0)) by {
            assert(path[i] == init[i]);
        }
        lemma_plain_stays(init);
        assert(path.last() == path[path.len() - 1]);
        assert(path =~= init.push(path.last()));
        if path.last() is Root {
            assert(path =~= seq![PartView::Root]);
        }
    }
}

/// An entry of names alone, below a directory of names alone, is accepted and is the directory's
/// path followed by the entry's.
pub proof fn law_plain_entries_are_accepted(dir: PathView, entry: PathView)
    requires
        plain(dir),
        forall|i: int| 0 <= i < entry.len() ==> #[trigger] entry[i] is Name,
    ensures
        normalized(joined(dir, entry)) == dir + entry,
        lies_in(dir + entry, dir),
{
    let full = dir + entry;
    if entry.len() > 0 {
        assert(entry[0] is Name);
    }
    assert forall|i: int| 0 <= i < full.len() implies (#[trigger] full[i] is Name || (
    full[i] is Root && i == 0)) by {
        if i < dir.len() {
            assert(full[i] == dir[i]);
        } else {
            assert(full[i] == entry[i - dir.len()]);
        }
    }
    lemma_plain_stays(full);
    assert(full.take(dir.len() as int) =~= dir);
}

} // verus!
