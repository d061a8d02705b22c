//! The destination tree, as the extraction sees it, and what an extraction
//! does to it.
//!
//! The tree is a map from paths to nodes; the empty path is the destination
//! root. The functions here say what the driver's operations mean: what it
//! is for a directory chain to be created and for a file to be written, and
//! what a whole run of entries leaves behind when every operation does what
//! it is asked to. On that footing the overwrite policy's consequences are
//! proved for every tree and every archive.
//!
//! A path is a place by its components alone. The tree does not know of
//! links, and a component `..` is a name like any other in it.

use vstd::prelude::*;
use crate::archive::{EntryView, stream_size, total_size};
use crate::extract::{Plan, entry_plan};
use crate::path::{components, extension_of, is_protected};

verus! {

/// What stands at one place of the tree.
pub enum Node {
    Directory,
    File(Seq<u8>),
}

/// Whether `prefix` is `path` itself or a directory above it.
pub open spec fn is_prefix(prefix: Seq<Seq<char>>, path: Seq<Seq<char>>) -> bool {
    prefix.len() <= path.len() && path.take(prefix.len() as int) == prefix
}

/// Whether the directory `path` can be created with every directory above
/// it: no file stands in the way.
pub open spec fn can_create_dirs(tree: Map<Seq<Seq<char>>, Node>, path: Seq<Seq<char>>) -> bool {
    forall|p: Seq<Seq<char>>|
        #![trigger is_prefix(p, path)]
        is_prefix(p, path) && tree.dom().contains(p) ==> tree[p] is Directory
}

/// The tree after the directory `path` was created with every directory
/// above it.
pub open spec fn create_dirs(tree: Map<Seq<Seq<char>>, Node>, path: Seq<Seq<char>>) -> Map<
    Seq<Seq<char>>,
    Node,
> {
    Map::new(
        |p: Seq<Seq<char>>| tree.dom().contains(p) || is_prefix(p, path),
        |p: Seq<Seq<char>>|
            if is_prefix(p, path) {
                Node::Directory
            } else {
                tree[p]
            },
    )
}

/// Whether a file can be created at `path`: no directory stands there.
pub open spec fn can_create_file(tree: Map<Seq<Seq<char>>, Node>, path: Seq<Seq<char>>) -> bool {
    tree.dom().contains(path) ==> tree[path] is File
}

/// Why an entry could not be extracted.
pub enum Refusal {
    /// The entry is a file, and its name has no component that could be a file's name.
    NoParent,
    /// A file stands where a directory is needed, or a directory where a file is.
    Blocked,
}

/// The tree after one entry was extracted whose bytes decode to `data`.
pub open spec fn apply_entry(
    tree: Map<Seq<Seq<char>>, Node>,
    protected: Seq<Seq<char>>,
    entry: EntryView,
    data: Seq<u8>,
) -> Result<Map<Seq<Seq<char>>, Node>, Refusal> {
    let path = components(entry.name);
    match entry_plan(path, entry.is_directory, tree.dom().contains(path), protected) {
        Plan::Skip => Ok(tree),
        Plan::CreateDirectory => if can_create_dirs(tree, path) {
            Ok(create_dirs(tree, path))
        } else {
            Err(Refusal::Blocked)
        },
        Plan::WriteFile => {
            let parent = path.drop_last();
            if can_create_dirs(tree, parent) && can_create_file(create_dirs(tree, parent), path) {
                Ok(create_dirs(tree, parent).insert(path, Node::File(data)))
            } else {
                Err(Refusal::Blocked)
            }
        },
        Plan::NoParent => Err(Refusal::NoParent),
    }
}

/// The bytes by which one entry advances the progress.
pub open spec fn bytes_of_entry(
    tree: Map<Seq<Seq<char>>, Node>,
    protected: Seq<Seq<char>>,
    entry: EntryView,
    data: Seq<u8>,
) -> nat {
    let path = components(entry.name);
    match entry_plan(path, entry.is_directory, tree.dom().contains(path), protected) {
        Plan::WriteFile => data.len(),
        _ => 0,
    }
}

/// The tree after a run of entries, each with the bytes it decodes to, was
/// extracted in order. The first refusal ends the run.
pub open spec fn extract_all(
    tree: Map<Seq<Seq<char>>, Node>,
    protected: Seq<Seq<char>>,
    items: Seq<(EntryView, Seq<u8>)>,
) -> Result<Map<Seq<Seq<char>>, Node>, Refusal>
    decreases items.len(),
{
    if items.len() == 0 {
        Ok(tree)
    } else {
        match extract_all(tree, protected, items.drop_last()) {
            Ok(before) => apply_entry(before, protected, items.last().0, items.last().1),
            Err(refusal) => Err(refusal),
        }
    }
}

/// The progress at the end of a run that met no refusal.
pub open spec fn bytes_of_all(
    tree: Map<Seq<Seq<char>>, Node>,
    protected: Seq<Seq<char>>,
    items: Seq<(EntryView, Seq<u8>)>,
) -> nat
    decreases items.len(),
{
    if items.len() == 0 {
        0
    } else {
        match extract_all(tree, protected, items.drop_last()) {
            Ok(before) => bytes_of_all(tree, protected, items.drop_last()) + bytes_of_entry(
                before,
                protected,
                items.last().0,
                items.last().1,
            ),
            Err(_) => bytes_of_all(tree, protected, items.drop_last()),
        }
    }
}

/// An entry that carries data, is no directory and whose destination does
/// not exist yet leaves a file there that holds exactly the decoded bytes.
pub proof fn lemma_new_file_is_written(
    tree: Map<Seq<Seq<char>>, Node>,
    protected: Seq<Seq<char>>,
    entry: EntryView,
    data: Seq<u8>,
)
    requires
        entry.has_stream,
        !entry.is_directory,
        !tree.dom().contains(components(entry.name)),
        apply_entry(tree, protected, entry, data) is Ok,
    ensures
        apply_entry(tree, protected, entry, data) matches Ok(after) && after.dom().contains(
            components(entry.name),
        ) && after[components(entry.name)] == Node::File(data),
{
}

/// An entry whose destination exists and whose extension is not protected
/// changes nothing at all, and adds nothing to the progress.
pub proof fn lemma_existing_is_skipped(
    tree: Map<Seq<Seq<char>>, Node>,
    protected: Seq<Seq<char>>,
    entry: EntryView,
    data: Seq<u8>,
)
    requires
        tree.dom().contains(components(entry.name)),
        !is_protected(extension_of(components(entry.name)), protected),
    ensures
        apply_entry(tree, protected, entry, data) == Ok::<Map<Seq<Seq<char>>, Node>, Refusal>(tree),
        bytes_of_entry(tree, protected, entry, data) == 0,
{
}

/// A file entry whose destination exists and whose extension is protected
/// replaces what is there by the decoded bytes.
pub proof fn lemma_protected_is_overwritten(
    tree: Map<Seq<Seq<char>>, Node>,
    protected: Seq<Seq<char>>,
    entry: EntryView,
    data: Seq<u8>,
)
    requires
        !entry.is_directory,
        tree.dom().contains(components(entry.name)),
        is_protected(extension_of(components(entry.name)), protected),
        apply_entry(tree, protected, entry, data) is Ok,
    ensures
        apply_entry(tree, protected, entry, data) matches Ok(after) && after[components(
            entry.name,
        )] == Node::File(data),
        bytes_of_entry(tree, protected, entry, data) == data.len(),
{
}

/// After a directory entry a directory exists at its destination, and the
/// progress has not moved. The one exception is a destination at which a
/// file stood before: the extraction leaves that file and the whole tree
/// as they were.
pub proof fn lemma_directory_exists_afterwards(
    tree: Map<Seq<Seq<char>>, Node>,
    protected: Seq<Seq<char>>,
    entry: EntryView,
    data: Seq<u8>,
)
    requires
        entry.is_directory,
        apply_entry(tree, protected, entry, data) is Ok,
    ensures
        ({
            let path = components(entry.name);
            let after = apply_entry(tree, protected, entry, data)->Ok_0;
            &&& after.dom().contains(path)
            &&& if tree.dom().contains(path) && tree[path] is File {
                after == tree
            } else {
                after[path] is Directory
            }
        }),
        bytes_of_entry(tree, protected, entry, data) == 0,
{
    let path = components(entry.name);
    assert(is_prefix(path, path)) by {
        assert(path.take(path.len() as int) =~= path);
    }
}

/// Whether `entry` is a file whose destination is `path` and whose extension
/// is protected: such an entry writes `path` afresh in every run.
pub open spec fn rewrites(entry: EntryView, protected: Seq<Seq<char>>, path: Seq<Seq<char>>) -> bool {
    !entry.is_directory && components(entry.name) == path && is_protected(
        extension_of(path),
        protected,
    )
}

/// Whether one of `items` writes `path` afresh in every run.
pub open spec fn rewritten(
    items: Seq<(EntryView, Seq<u8>)>,
    protected: Seq<Seq<char>>,
    path: Seq<Seq<char>>,
) -> bool {
    exists|i: int| #![trigger items[i]] 0 <= i < items.len() && rewrites(items[i].0, protected, path)
}

/// Whether `other` holds all that `tree` holds, as the same kind of node,
/// and with the same bytes wherever the extension is not protected.
pub open spec fn agrees(
    tree: Map<Seq<Seq<char>>, Node>,
    other: Map<Seq<Seq<char>>, Node>,
    protected: Seq<Seq<char>>,
) -> bool {
    forall|p: Seq<Seq<char>>|
        #![trigger tree.dom().contains(p)]
        tree.dom().contains(p) ==> {
            &&& other.dom().contains(p)
            &&& tree[p] is Directory <==> other[p] is Directory
            &&& !is_protected(extension_of(p), protected) ==> other[p] == tree[p]
        }
}

/// What one entry changes, and what it leaves alone. Nothing is ever
/// removed, nothing changes its kind, and only the entry's own destination
/// can change its bytes.
pub proof fn lemma_apply_entry_frame(
    tree: Map<Seq<Seq<char>>, Node>,
    protected: Seq<Seq<char>>,
    entry: EntryView,
    data: Seq<u8>,
)
    requires
        apply_entry(tree, protected, entry, data) is Ok,
    ensures
        ({
            let after = apply_entry(tree, protected, entry, data)->Ok_0;
            let path = components(entry.name);
            &&& after.dom().contains(path)
            &&& forall|p: Seq<Seq<char>>| tree.dom().contains(p) ==> after.dom().contains(p)
            &&& forall|p: Seq<Seq<char>>|
                tree.dom().contains(p) && p != path ==> after[p] == tree[p]
            &&& tree.dom().contains(path) ==> (after[path] is Directory <==> tree[path] is Directory)
            &&& rewrites(entry, protected, path) ==> after[path] == Node::File(data)
            &&& tree.dom().contains(path) && !rewrites(entry, protected, path) ==> after[path]
                == tree[path]
        }),
{
    let after = apply_entry(tree, protected, entry, data)->Ok_0;
    let path = components(entry.name);
    assert(is_prefix(path, path)) by {
        assert(path.take(path.len() as int) =~= path);
    }
    match entry_plan(path, entry.is_directory, tree.dom().contains(path), protected) {
        Plan::Skip => {},
        Plan::CreateDirectory => {
            assert forall|p: Seq<Seq<char>>| tree.dom().contains(p) && p != path implies after[p]
                == tree[p] by {
                if is_prefix(p, path) {
                    assert(tree[p] is Directory);
                }
            }
        },
        Plan::WriteFile => {
            let parent = path.drop_last();
            assert(!is_prefix(path, parent));
            assert forall|p: Seq<Seq<char>>| tree.dom().contains(p) && p != path implies after[p]
                == tree[p] by {
                if is_prefix(p, parent) {
                    assert(tree[p] is Directory);
                }
            }
        },
        Plan::NoParent => {},
    }
}

/// A path that some entry of a run writes afresh holds a file at the end of the run.
pub proof fn lemma_rewritten_is_file(
    tree: Map<Seq<Seq<char>>, Node>,
    protected: Seq<Seq<char>>,
    items: Seq<(EntryView, Seq<u8>)>,
    path: Seq<Seq<char>>,
)
    requires
        extract_all(tree, protected, items) is Ok,
        rewritten(items, protected, path),
    ensures
        extract_all(tree, protected, items)->Ok_0.dom().contains(path),
        extract_all(tree, protected, items)->Ok_0[path] is File,
    decreases items.len(),
{
    let i = choose|i: int| #![trigger items[i]] 0 <= i < items.len() && rewrites(items[i].0, protected, path);
    let init = items.drop_last();
    let before = extract_all(tree, protected, init)->Ok_0;
    lemma_apply_entry_frame(before, protected, items.last().0, items.last().1);
    if !rewrites(items.last().0, protected, path) {
        assert(init[i] == items[i]);
        lemma_rewritten_is_file(tree, protected, init, path);
    }
}

/// The last entry of a run decides whether a path is written afresh, unless
/// an earlier entry does.
pub proof fn lemma_rewritten_unfolds(
    items: Seq<(EntryView, Seq<u8>)>,
    protected: Seq<Seq<char>>,
    path: Seq<Seq<char>>,
)
    requires
        items.len() > 0,
    ensures
        rewritten(items, protected, path) <==> rewritten(items.drop_last(), protected, path)
            || rewrites(items.last().0, protected, path),
{
    let init = items.drop_last();
    if rewritten(items, protected, path) {
        let i = choose|i: int| #![trigger items[i]] 0 <= i < items.len() && rewrites(items[i].0, protected, path);
        if i < items.len() - 1 {
            assert(init[i] == items[i]);
        }
    }
    if rewritten(init, protected, path) {
        let i = choose|i: int| #![trigger init[i]] 0 <= i < init.len() && rewrites(init[i].0, protected, path);
        assert(items[i] == init[i]);
    }
    if rewrites(items.last().0, protected, path) {
        assert(items[items.len() - 1] == items.last());
    }
}

/// Creating a directory chain that is there already changes nothing.
pub proof fn lemma_create_dirs_again(tree: Map<Seq<Seq<char>>, Node>, path: Seq<Seq<char>>)
    requires
        forall|p: Seq<Seq<char>>|
            #![trigger is_prefix(p, path)]
            is_prefix(p, path) ==> tree.dom().contains(p) && tree[p] is Directory,
    ensures
        can_create_dirs(tree, path),
        create_dirs(tree, path) == tree,
{
    assert(create_dirs(tree, path) =~= tree);
}

/// A second run over a tree that agrees with the outcome of the first: it
/// meets no refusal, adds no path, and changes only what the run writes
/// afresh, to what the first run left there.
pub proof fn lemma_second_run(
    tree: Map<Seq<Seq<char>>, Node>,
    other: Map<Seq<Seq<char>>, Node>,
    protected: Seq<Seq<char>>,
    items: Seq<(EntryView, Seq<u8>)>,
)
    requires
        extract_all(tree, protected, items) is Ok,
        agrees(extract_all(tree, protected, items)->Ok_0, other, protected),
    ensures
        extract_all(other, protected, items) is Ok,
        forall|p: Seq<Seq<char>>|
            extract_all(other, protected, items)->Ok_0.dom().contains(p) <==> other.dom().contains(
                p,
            ),
        forall|p: Seq<Seq<char>>|
            other.dom().contains(p) ==> extract_all(other, protected, items)->Ok_0[p] == (if rewritten(
                items,
                protected,
                p,
            ) {
                extract_all(tree, protected, items)->Ok_0[p]
            } else {
                other[p]
            }),
    decreases items.len(),
{
    if items.len() == 0 {
        assert forall|p: Seq<Seq<char>>| !rewritten(items, protected, p) by {}
    } else {
        let init = items.drop_last();
        let entry = items.last().0;
        let data = items.last().1;
        let path = components(entry.name);
        let first_before = extract_all(tree, protected, init)->Ok_0;
        let first = extract_all(tree, protected, items)->Ok_0;
        lemma_apply_entry_frame(first_before, protected, entry, data);
        assert(agrees(first_before, other, protected)) by {
            assert forall|p: Seq<Seq<char>>| first_before.dom().contains(p) implies {
                &&& other.dom().contains(p)
                &&& first_before[p] is Directory <==> other[p] is Directory
                &&& !is_protected(extension_of(p), protected) ==> other[p] == first_before[p]
            } by {
                assert(first.dom().contains(p));
            }
        }
        lemma_second_run(tree, other, protected, init);
        let second_before = extract_all(other, protected, init)->Ok_0;
        assert(first.dom().contains(path));
        assert(second_before.dom().contains(path));
        assert forall|p: Seq<Seq<char>>| rewritten(init, protected, p) implies first_before.dom().contains(
            p,
        ) && first_before[p] is File by {
            lemma_rewritten_is_file(tree, protected, init, p);
        }
        assert forall|p: Seq<Seq<char>>|
            rewritten(items, protected, p) <==> rewritten(init, protected, p) || rewrites(
                entry,
                protected,
                p,
            ) by {
            lemma_rewritten_unfolds(items, protected, p);
        }
        assert(is_prefix(path, path)) by {
            assert(path.take(path.len() as int) =~= path);
        }
        if !is_protected(extension_of(path), protected) {
        } else if entry.is_directory {
            assert forall|p: Seq<Seq<char>>| #![trigger is_prefix(p, path)] is_prefix(p, path) implies second_before.dom().contains(p) && second_before[p] is Directory by {
                assert(first[p] is Directory);
                assert(first.dom().contains(p));
                if rewritten(init, protected, p) {
                    assert(first_before[p] is File);
                }
            }
            lemma_create_dirs_again(second_before, path);
        } else {
            let parent = path.drop_last();
            assert(path.len() > 0);
            assert(!is_prefix(path, parent));
            assert forall|p: Seq<Seq<char>>| #![trigger is_prefix(p, parent)] is_prefix(p, parent) implies second_before.dom().contains(p) && second_before[p] is Directory by {
                assert(first.dom().contains(p));
                assert(first[p] is Directory);
                if rewritten(init, protected, p) {
                    assert(first_before[p] is File);
                }
            }
            lemma_create_dirs_again(second_before, parent);
            assert(first[path] == Node::File(data));
        }
    }
}

/// Running an extraction a second time over what the first run left
/// behind meets no refusal and leaves the same tree: what exists is skipped,
/// and what is protected is written again with the same bytes.
pub proof fn lemma_extraction_is_idempotent(
    tree: Map<Seq<Seq<char>>, Node>,
    protected: Seq<Seq<char>>,
    items: Seq<(EntryView, Seq<u8>)>,
)
    requires
        extract_all(tree, protected, items) is Ok,
    ensures
        extract_all(extract_all(tree, protected, items)->Ok_0, protected, items) == extract_all(
            tree,
            protected,
            items,
        ),
{
    let first = extract_all(tree, protected, items)->Ok_0;
    lemma_second_run(tree, first, protected, items);
    let second = extract_all(first, protected, items)->Ok_0;
    assert forall|p: Seq<Seq<char>>| first.dom().contains(p) implies second[p] == first[p] by {}
    assert(second =~= first);
}

/// What was there before a run is there after it: nothing is removed,
/// nothing changes its kind, and whatever no entry of the run writes afresh
/// is left exactly as it was.
pub proof fn lemma_existing_persists(
    tree: Map<Seq<Seq<char>>, Node>,
    protected: Seq<Seq<char>>,
    items: Seq<(EntryView, Seq<u8>)>,
    path: Seq<Seq<char>>,
)
    requires
        extract_all(tree, protected, items) is Ok,
        tree.dom().contains(path),
    ensures
        extract_all(tree, protected, items)->Ok_0.dom().contains(path),
        extract_all(tree, protected, items)->Ok_0[path] is Directory <==> tree[path] is Directory,
        !rewritten(items, protected, path) ==> extract_all(tree, protected, items)->Ok_0[path]
            == tree[path],
    decreases items.len(),
{
    if items.len() > 0 {
        let init = items.drop_last();
        let before = extract_all(tree, protected, init)->Ok_0;
        lemma_existing_persists(tree, protected, init, path);
        lemma_apply_entry_frame(before, protected, items.last().0, items.last().1);
        lemma_rewritten_unfolds(items, protected, path);
    }
}

/// The entries of a run, without their bytes.
pub open spec fn entries_of(items: Seq<(EntryView, Seq<u8>)>) -> Seq<EntryView> {
    Seq::new(items.len(), |i: int| items[i].0)
}

/// Whether each entry decodes to as many bytes as it declares: its size if
/// it carries data, none otherwise.
pub open spec fn sizes_are_true(items: Seq<(EntryView, Seq<u8>)>) -> bool {
    forall|i: int|
        #![trigger items[i]]
        0 <= i < items.len() ==> items[i].1.len() == stream_size(items[i].0)
}

/// Where every entry decodes to as many bytes as it declares, the progress
/// never passes the archive's total: skipped entries only hold it back.
pub proof fn lemma_progress_within_total(
    tree: Map<Seq<Seq<char>>, Node>,
    protected: Seq<Seq<char>>,
    items: Seq<(EntryView, Seq<u8>)>,
)
    requires
        sizes_are_true(items),
    ensures
        bytes_of_all(tree, protected, items) <= total_size(entries_of(items)),
    decreases items.len(),
{
    if items.len() > 0 {
        let init = items.drop_last();
        assert(sizes_are_true(init)) by {
            assert forall|i: int| #![trigger init[i]] 0 <= i < init.len() implies init[i].1.len()
                == stream_size(init[i].0) by {
                assert(init[i] == items[i]);
            }
        }
        lemma_progress_within_total(tree, protected, init);
        assert(entries_of(items).drop_last() =~= entries_of(init));
        assert(entries_of(items).last() == items[items.len() - 1].0);
    }
}

} // verus!
