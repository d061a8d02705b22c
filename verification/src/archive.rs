//! What an opened archive tells about itself before any entry is decoded.

use vstd::prelude::*;

verus! {

/// One item of an archive: a directory marker or a file.
#[derive(Debug, Clone, PartialEq, Eq)]
pub struct ArchiveEntry {
    /// The entry's path inside the archive, with `/` between components.
    pub name: String,
    /// Whether the entry stands for a directory.
    pub is_directory: bool,
    /// Whether the entry carries data.
    pub has_stream: bool,
    /// The number of bytes the entry decodes to.
    pub size: u64,
}

/// What an `ArchiveEntry` holds.
pub struct EntryView {
    pub name: Seq<char>,
    pub is_directory: bool,
    pub has_stream: bool,
    pub size: u64,
}

impl View for ArchiveEntry {
    type V = EntryView;

    open spec fn view(&self) -> EntryView {
        EntryView {
            name: self.name@,
            is_directory: self.is_directory,
            has_stream: self.has_stream,
            size: self.size,
        }
    }
}

/// What a list of entries holds.
pub open spec fn entries_view(entries: &Vec<ArchiveEntry>) -> Seq<EntryView> {
    Seq::new(entries@.len(), |i: int| entries@[i]@)
}

/// The bytes that an entry adds to the archive's total: its size if it
/// carries data, nothing otherwise.
pub open spec fn stream_size(entry: EntryView) -> nat {
    if entry.has_stream {
        entry.size as nat
    } else {
        0
    }
}

/// The sum of `stream_size` over `entries`.
pub open spec fn total_size(entries: Seq<EntryView>) -> nat
    decreases entries.len(),
{
    if entries.len() == 0 {
        0
    } else {
        total_size(entries.drop_last()) + stream_size(entries.last())
    }
}

/// The total never shrinks as entries are added.
pub proof fn lemma_total_size_grows(entries: Seq<EntryView>, count: int)
    requires
        0 <= count <= entries.len(),
    ensures
        total_size(entries.take(count)) <= total_size(entries),
    decreases entries.len() - count,
{
    if count < entries.len() {
        lemma_total_size_grows(entries, count + 1);
        assert(entries.take(count + 1).drop_last() =~= entries.take(count));
    } else {
        assert(entries.take(count) =~= entries);
    }
}

/// `sevenz_rust::Archive`, the index that the decoder reads from an
/// archive's header. Nothing is known of what is inside but through
/// `listed_entries`.
#[verifier::external_type_specification]
#[verifier::external_body]
pub struct ExArchive(sevenz_rust::Archive);

/// The entries that an index lists, in the order in which it lists them:
/// of each item of its `files`, the name, the two flags and the size.
pub uninterp spec fn listed_entries(index: sevenz_rust::Archive) -> Seq<EntryView>;

/// Copies out of `sevenz_rust::Archive::files`, item by item and in order,
/// what `SevenZArchiveEntry::name`, `is_directory`, `has_stream` and `size`
/// return. Not proved: that the copy is what `listed_entries` names.
#[verifier::external_body]
fn list_entries(index: &sevenz_rust::Archive) -> (entries: Vec<ArchiveEntry>)
    ensures
        entries_view(&entries) == listed_entries(*index),
{
    index.files.iter().map(|item| ArchiveEntry {
        name: item.name().to_string(),
        is_directory: item.is_directory(),
        has_stream: item.has_stream(),
        size: item.size(),
    }).collect()
}

/// An opened archive: its entries in archive order, and the number of bytes
/// they decode to together.
#[derive(Debug)]
pub struct ArchiveHandle {
    entries: Vec<ArchiveEntry>,
    total_uncompressed_size: u64,
}

impl View for ArchiveHandle {
    type V = Seq<EntryView>;

    /// The entries, in archive order.
    closed spec fn view(&self) -> Seq<EntryView> {
        entries_view(&self.entries)
    }
}

impl ArchiveHandle {
    #[verifier::type_invariant]
    spec fn well_formed(&self) -> bool {
        self.total_uncompressed_size == total_size(entries_view(&self.entries))
    }

    /// Takes the entry list of an archive and sums up, once, what its entries
    /// decode to. There is no handle for a list whose sum does not fit in 64 bits.
    pub fn open(entries: Vec<ArchiveEntry>) -> (handle: Option<ArchiveHandle>)
        ensures
            match handle {
                Some(h) => h@ == entries_view(&entries) && total_size(h@) <= u64::MAX,
                None => total_size(entries_view(&entries)) > u64::MAX,
            },
    {
        let n = entries.len();
        let mut total: u64 = 0;
        let mut i: usize = 0;
        while i < n
            invariant
                n == entries@.len(),
                i <= n,
                total == total_size(entries_view(&entries).take(i as int)),
            decreases n - i,
        {
            proof {
                assert(entries_view(&entries).take(i as int + 1).drop_last() =~= entries_view(
                    &entries,
                ).take(i as int));
            }
            if entries[i].has_stream {
                match total.checked_add(entries[i].size) {
                    Some(sum) => {
                        total = sum;
                    },
                    None => {
                        proof {
                            lemma_total_size_grows(entries_view(&entries), i as int + 1);
                        }
                        return None;
                    },
                }
            }
            i = i + 1;
        }
        assert(entries_view(&entries).take(n as int) =~= entries_view(&entries));
        Some(ArchiveHandle { entries, total_uncompressed_size: total })
    }

    /// Takes the entries that a decoder's index lists. There is no handle
    /// for an index whose sizes do not sum up within 64 bits.
    pub fn of_index(index: &sevenz_rust::Archive) -> (handle: Option<ArchiveHandle>)
        ensures
            match handle {
                Some(h) => h@ == listed_entries(*index) && total_size(h@) <= u64::MAX,
                None => total_size(listed_entries(*index)) > u64::MAX,
            },
    {
        ArchiveHandle::open(list_entries(index))
    }

    /// The number of bytes that the entries decode to together: the sum of
    /// `size` over the entries that carry data.
    pub fn total_uncompressed_size(&self) -> (total: u64)
        ensures
            total == total_size(self@),
    {
        proof {
            use_type_invariant(self);
        }
        self.total_uncompressed_size
    }

    /// The entries, in archive order.
    pub fn entries(&self) -> (entries: &Vec<ArchiveEntry>)
        ensures
            entries_view(entries) == self@,
    {
        &self.entries
    }
}

} // verus!
