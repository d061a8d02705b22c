//! What a truthful driver and an `Extraction` do together.
//!
//! The driver is not part of this crate, but what is expected of it is
//! stated here: it answers each action with what the tree shows, and does
//! to the tree what the action names. Served in this way, the extraction
//! leaves behind exactly the tree that the model describes.

use vstd::prelude::*;
use crate::archive::EntryView;
use crate::extract::{ExtractActionView, ExtractEventView, ExtractPhaseView, ExtractView, extract_next};
use crate::model::{
    Node,
    apply_entry,
    bytes_of_all,
    bytes_of_entry,
    can_create_dirs,
    can_create_file,
    create_dirs,
    extract_all,
    lemma_extraction_is_idempotent,
};

verus! {

/// The bytes of a run of blocks, one after another.
pub open spec fn concat(blocks: Seq<Seq<u8>>) -> Seq<u8>
    decreases blocks.len(),
{
    if blocks.len() == 0 {
        Seq::empty()
    } else {
        blocks[0] + concat(blocks.drop_first())
    }
}

/// Whether each block is one that a read can return before the end: not
/// empty, and no longer than a buffer can be.
pub open spec fn readable(blocks: Seq<Seq<u8>>) -> bool {
    forall|i: int| 0 <= i < blocks.len() ==> 0 < (#[trigger] blocks[i]).len() <= usize::MAX
}

/// The bytes of a file; none for a directory.
pub open spec fn contents(node: Node) -> Seq<u8> {
    match node {
        Node::File(bytes) => bytes,
        Node::Directory => Seq::empty(),
    }
}

/// The state and tree after the driver has read `blocks` from the entry at
/// hand, appended each to the file at `path` and reported it, and then
/// reported the end of the entry. None if the extraction answers otherwise
/// than a driver expects.
pub open spec fn serve_blocks(
    state: ExtractView,
    tree: Map<Seq<Seq<char>>, Node>,
    path: Seq<Seq<char>>,
    blocks: Seq<Seq<u8>>,
) -> Option<(ExtractView, Map<Seq<Seq<char>>, Node>)>
    decreases blocks.len(),
{
    if blocks.len() == 0 {
        match extract_next(state, ExtractEventView::Block { len: 0 }) {
            Some((after, ExtractActionView::NextEntry)) => Some((after, tree)),
            _ => None,
        }
    } else {
        match extract_next(state, ExtractEventView::Block { len: blocks[0].len() as usize }) {
            Some((after, ExtractActionView::Progress { .. })) => serve_blocks(
                after,
                tree.insert(path, Node::File(contents(tree[path]) + blocks[0])),
                path,
                blocks.drop_first(),
            ),
            _ => None,
        }
    }
}

/// The state and tree after the driver has handed over one entry and done
/// all that it was asked to do for it, where the entry's bytes arrive in
/// `blocks`. None if an operation cannot be done on `tree`, or if the
/// extraction gives up.
pub open spec fn serve_entry(
    state: ExtractView,
    tree: Map<Seq<Seq<char>>, Node>,
    entry: EntryView,
    blocks: Seq<Seq<u8>>,
) -> Option<(ExtractView, Map<Seq<Seq<char>>, Node>)> {
    match extract_next(state, ExtractEventView::Entry(entry)) {
        Some((probing, ExtractActionView::Probe { path: probed })) => {
            match extract_next(
                probing,
                ExtractEventView::Probed { exists: tree.dom().contains(probed) },
            ) {
                Some((after, ExtractActionView::NextEntry)) => Some((after, tree)),
                Some((making, ExtractActionView::CreateDirectory { path })) => {
                    if can_create_dirs(tree, path) {
                        match extract_next(making, ExtractEventView::Completed) {
                            Some((after, ExtractActionView::NextEntry)) => Some(
                                (after, create_dirs(tree, path)),
                            ),
                            _ => None,
                        }
                    } else {
                        None
                    }
                },
                Some((creating, ExtractActionView::CreateFile { path, parent })) => {
                    if can_create_dirs(tree, parent) && can_create_file(
                        create_dirs(tree, parent),
                        path,
                    ) {
                        match extract_next(creating, ExtractEventView::Completed) {
                            Some((streaming, ExtractActionView::ReadBlock)) => serve_blocks(
                                streaming,
                                create_dirs(tree, parent).insert(path, Node::File(Seq::empty())),
                                path,
                                blocks,
                            ),
                            _ => None,
                        }
                    } else {
                        None
                    }
                },
                _ => None,
            }
        },
        _ => None,
    }
}

/// Reading a file block by block leaves the file with all the blocks'
/// bytes appended, the progress advanced by their number, and the
/// extraction ready for the next entry.
pub proof fn lemma_serve_blocks(
    state: ExtractView,
    tree: Map<Seq<Seq<char>>, Node>,
    path: Seq<Seq<char>>,
    blocks: Seq<Seq<u8>>,
)
    requires
        state.phase == ExtractPhaseView::Streaming,
        readable(blocks),
        state.uncompressed_bytes_written + concat(blocks).len() <= u64::MAX,
        tree.dom().contains(path),
    ensures
        serve_blocks(state, tree, path, blocks) == Some(
            (
                ExtractView {
                    uncompressed_bytes_written: (state.uncompressed_bytes_written + concat(
                        blocks,
                    ).len()) as u64,
                    phase: ExtractPhaseView::Idle,
                    ..state
                },
                if blocks.len() == 0 {
                    tree
                } else {
                    tree.insert(path, Node::File(contents(tree[path]) + concat(blocks)))
                },
            ),
        ),
    decreases blocks.len(),
{
    if blocks.len() > 0 {
        let rest = blocks.drop_first();
        let len = blocks[0].len() as usize;
        assert(readable(rest)) by {
            assert forall|i: int| 0 <= i < rest.len() implies 0 < (#[trigger] rest[i]).len()
                <= usize::MAX by {
                assert(rest[i] == blocks[i + 1]);
            }
        }
        let answer = extract_next(state, ExtractEventView::Block { len })->0;
        let after = answer.0;
        let grown = tree.insert(path, Node::File(contents(tree[path]) + blocks[0]));
        lemma_serve_blocks(after, grown, path, rest);
        if rest.len() > 0 {
            assert(contents(grown[path]) + concat(rest) =~= contents(tree[path]) + concat(blocks));
            assert(grown.insert(path, Node::File(contents(grown[path]) + concat(rest)))
                =~= tree.insert(path, Node::File(contents(tree[path]) + concat(blocks))));
        } else {
            assert(concat(rest) =~= Seq::<u8>::empty());
            assert(contents(tree[path]) + blocks[0] =~= contents(tree[path]) + concat(blocks));
        }
    }
}

/// An extraction served by a truthful driver does to the tree what the
/// model says of the entry, and advances the progress by the bytes that
/// the model counts. Where the model refuses the entry, the extraction is
/// not served to its end.
pub proof fn lemma_extraction_follows_model(
    state: ExtractView,
    tree: Map<Seq<Seq<char>>, Node>,
    entry: EntryView,
    blocks: Seq<Seq<u8>>,
)
    requires
        state.phase == ExtractPhaseView::Idle,
        readable(blocks),
        state.uncompressed_bytes_written + concat(blocks).len() <= u64::MAX,
    ensures
        match apply_entry(tree, state.protected_extensions, entry, concat(blocks)) {
            Ok(after) => serve_entry(state, tree, entry, blocks) == Some(
                (
                    ExtractView {
                        uncompressed_bytes_written: (state.uncompressed_bytes_written
                            + bytes_of_entry(
                            tree,
                            state.protected_extensions,
                            entry,
                            concat(blocks),
                        )) as u64,
                        ..state
                    },
                    after,
                ),
            ),
            Err(_) => serve_entry(state, tree, entry, blocks) is None,
        },
{
    match extract_next(state, ExtractEventView::Entry(entry)) {
        Some((probing, ExtractActionView::Probe { path: probed })) => {
            match extract_next(
                probing,
                ExtractEventView::Probed { exists: tree.dom().contains(probed) },
            ) {
                Some((creating, ExtractActionView::CreateFile { path, parent })) => {
                    if can_create_dirs(tree, parent) && can_create_file(
                        create_dirs(tree, parent),
                        path,
                    ) {
                        let answer = extract_next(creating, ExtractEventView::Completed)->0;
                        let streaming = answer.0;
                        let made = create_dirs(tree, parent);
                        let empty = made.insert(path, Node::File(Seq::empty()));
                        lemma_serve_blocks(streaming, empty, path, blocks);
                        if blocks.len() == 0 {
                            assert(concat(blocks) =~= Seq::<u8>::empty());
                        } else {
                            assert(Seq::<u8>::empty() + concat(blocks) =~= concat(blocks));
                            assert(empty.insert(path, Node::File(concat(blocks))) =~= made.insert(
                                path,
                                Node::File(concat(blocks)),
                            ));
                        }
                    }
                },
                _ => {},
            }
        },
        _ => {},
    }
}

/// The entries of a run, each with the bytes that its blocks make up.
pub open spec fn decoded(items: Seq<(EntryView, Seq<Seq<u8>>)>) -> Seq<(EntryView, Seq<u8>)> {
    Seq::new(items.len(), |i: int| (items[i].0, concat(items[i].1)))
}

/// Whether the blocks of every entry are such as reads return.
pub open spec fn all_readable(items: Seq<(EntryView, Seq<Seq<u8>>)>) -> bool {
    forall|i: int| #![trigger items[i]] 0 <= i < items.len() ==> readable(items[i].1)
}

/// The number of bytes that all the entries of a run decode to.
pub open spec fn bytes_in(items: Seq<(EntryView, Seq<Seq<u8>>)>) -> nat
    decreases items.len(),
{
    if items.len() == 0 {
        0
    } else {
        bytes_in(items.drop_last()) + concat(items.last().1).len()
    }
}

/// The state and tree after the driver has handed over a run of entries,
/// one after another, and done all that it was asked to do for each. None
/// if one of them could not be served to its end.
pub open spec fn serve_all(
    state: ExtractView,
    tree: Map<Seq<Seq<char>>, Node>,
    items: Seq<(EntryView, Seq<Seq<u8>>)>,
) -> Option<(ExtractView, Map<Seq<Seq<char>>, Node>)>
    decreases items.len(),
{
    if items.len() == 0 {
        Some((state, tree))
    } else {
        match serve_all(state, tree, items.drop_last()) {
            Some((before, grown)) => serve_entry(before, grown, items.last().0, items.last().1),
            None => None,
        }
    }
}

/// A whole run served by a truthful driver leaves the tree that the model
/// describes, with the progress advanced by the bytes that the model counts,
/// which are never more than the entries decode to. Where the model
/// refuses an entry, the run is not served to its end.
pub proof fn lemma_run_follows_model(
    state: ExtractView,
    tree: Map<Seq<Seq<char>>, Node>,
    items: Seq<(EntryView, Seq<Seq<u8>>)>,
)
    requires
        state.phase == ExtractPhaseView::Idle,
        all_readable(items),
        state.uncompressed_bytes_written + bytes_in(items) <= u64::MAX,
    ensures
        bytes_of_all(tree, state.protected_extensions, decoded(items)) <= bytes_in(items),
        match extract_all(tree, state.protected_extensions, decoded(items)) {
            Ok(after) => serve_all(state, tree, items) == Some(
                (
                    ExtractView {
                        uncompressed_bytes_written: (state.uncompressed_bytes_written
                            + bytes_of_all(tree, state.protected_extensions, decoded(items))) as u64,
                        ..state
                    },
                    after,
                ),
            ),
            Err(_) => serve_all(state, tree, items) is None,
        },
    decreases items.len(),
{
    if items.len() > 0 {
        let init = items.drop_last();
        let protected = state.protected_extensions;
        assert(all_readable(init)) by {
            assert forall|i: int| #![trigger init[i]] 0 <= i < init.len() implies readable(
                init[i].1,
            ) by {
                assert(init[i] == items[i]);
            }
        }
        assert(readable(items.last().1)) by {
            assert(items[items.len() - 1] == items.last());
        }
        lemma_run_follows_model(state, tree, init);
        assert(decoded(items).drop_last() =~= decoded(init));
        assert(decoded(items).last() == (items.last().0, concat(items.last().1)));
        match extract_all(tree, protected, decoded(init)) {
            Ok(before) => {
                let middle = ExtractView {
                    uncompressed_bytes_written: (state.uncompressed_bytes_written + bytes_of_all(
                        tree,
                        protected,
                        decoded(init),
                    )) as u64,
                    ..state
                };
                lemma_extraction_follows_model(middle, before, items.last().0, items.last().1);
            },
            Err(_) => {},
        }
    }
}

/// Served a second time over what the first run left behind, an extraction
/// is served to its end again and leaves the same tree.
pub proof fn lemma_second_serving_changes_nothing(
    state: ExtractView,
    again: ExtractView,
    tree: Map<Seq<Seq<char>>, Node>,
    items: Seq<(EntryView, Seq<Seq<u8>>)>,
)
    requires
        state.phase == ExtractPhaseView::Idle,
        again.phase == ExtractPhaseView::Idle,
        again.protected_extensions == state.protected_extensions,
        all_readable(items),
        state.uncompressed_bytes_written + bytes_in(items) <= u64::MAX,
        again.uncompressed_bytes_written + bytes_in(items) <= u64::MAX,
        serve_all(state, tree, items) is Some,
    ensures
        ({
            let first = serve_all(state, tree, items)->0;
            serve_all(again, first.1, items) matches Some(second) && second.1 == first.1
        }),
{
    let first = serve_all(state, tree, items)->0;
    lemma_run_follows_model(state, tree, items);
    lemma_extraction_is_idempotent(tree, state.protected_extensions, decoded(items));
    lemma_run_follows_model(again, first.1, items);
}

} // verus!
