//! Extracting the archive.
//!
//! An `Extraction` never decodes a byte or touches the disk. Its driver opens
//! the archive, walks the entries in the order the decoder yields them, and
//! asks before each operation what to do (`ExtractAction`); it reports what
//! came of it (`ExtractEvent`). Which entries are skipped, which overwritten,
//! in which order directories and files are made, how far the progress has
//! come and whether the archive is removed at the end are decided here.

use vstd::prelude::*;
use crate::archive::{ArchiveEntry, ArchiveHandle, EntryView, total_size};
use crate::error::{ExtractError, ExtractErrorView};
use crate::path::{EntryPath, components, extension_of, extensions_view, is_protected, parent_of};

verus! {

/// The size of the buffer through which an entry's bytes pass. Any small
/// buffer will do; nothing depends on the number.
pub const BLOCK_SIZE: usize = 1024;

/// What is to be done with one entry.
#[derive(Debug, Clone, Copy, PartialEq, Eq, Structural)]
pub enum Plan {
    /// Leave the destination as it is: read nothing, write nothing.
    Skip,
    /// Create the destination as a directory, with the directories above it.
    CreateDirectory,
    /// Create the directories above the destination, then write the
    /// entry's bytes to it, replacing what is there.
    WriteFile,
    /// Give up: the entry is a file, and its name has no component that
    /// could be a file's name.
    NoParent,
}

/// The overwrite policy. An entry whose destination exists is skipped,
/// unless its extension is protected; a protected destination is written
/// afresh every time.
pub open spec fn entry_plan(
    path: Seq<Seq<char>>,
    is_directory: bool,
    exists: bool,
    protected: Seq<Seq<char>>,
) -> Plan {
    if exists && !is_protected(extension_of(path), protected) {
        Plan::Skip
    } else if is_directory {
        Plan::CreateDirectory
    } else if parent_of(path) is None {
        Plan::NoParent
    } else {
        Plan::WriteFile
    }
}

/// Decides what is to be done with an entry whose destination is `path`,
/// given whether something `exists` there already.
pub fn plan_entry(path: &EntryPath, is_directory: bool, exists: bool, protected: &Vec<String>) -> (plan:
    Plan)
    ensures
        plan == entry_plan(path@, is_directory, exists, extensions_view(protected)),
{
    if exists && !path.has_protected_extension(protected) {
        Plan::Skip
    } else if is_directory {
        Plan::CreateDirectory
    } else if path.len() == 0 {
        Plan::NoParent
    } else {
        Plan::WriteFile
    }
}

/// Where an extraction stands.
#[derive(Debug, PartialEq, Eq)]
pub enum ExtractPhase {
    /// Waiting for the archive to be opened.
    Opening,
    /// Waiting for the decoder to yield the next entry, or to run out.
    Idle,
    /// Waiting to learn whether the destination of the entry at hand exists.
    Probing { path: EntryPath, is_directory: bool },
    /// Waiting for a directory to be created.
    MakingDirectory,
    /// Waiting for a file to be created.
    Creating,
    /// Waiting for the next block of the file at hand.
    Streaming,
    /// Waiting for the archive to be removed.
    Cleaning,
    /// Every entry was dealt with. Nothing more will happen.
    Done,
    /// The extraction failed. Nothing more will happen.
    Failed,
}

/// What an `ExtractPhase` holds.
pub enum ExtractPhaseView {
    Opening,
    Idle,
    Probing { path: Seq<Seq<char>>, is_directory: bool },
    MakingDirectory,
    Creating,
    Streaming,
    Cleaning,
    Done,
    Failed,
}

impl View for ExtractPhase {
    type V = ExtractPhaseView;

    open spec fn view(&self) -> ExtractPhaseView {
        match self {
            ExtractPhase::Opening => ExtractPhaseView::Opening,
            ExtractPhase::Idle => ExtractPhaseView::Idle,
            ExtractPhase::Probing { path, is_directory } => ExtractPhaseView::Probing {
                path: path@,
                is_directory: *is_directory,
            },
            ExtractPhase::MakingDirectory => ExtractPhaseView::MakingDirectory,
            ExtractPhase::Creating => ExtractPhaseView::Creating,
            ExtractPhase::Streaming => ExtractPhaseView::Streaming,
            ExtractPhase::Cleaning => ExtractPhaseView::Cleaning,
            ExtractPhase::Done => ExtractPhaseView::Done,
            ExtractPhase::Failed => ExtractPhaseView::Failed,
        }
    }
}

/// What the driver reports.
#[derive(Debug)]
pub enum ExtractEvent {
    /// The archive was opened; these are its entries.
    Opened(ArchiveHandle),
    /// The decoder yielded this entry.
    Entry(ArchiveEntry),
    /// The decoder has no more entries.
    EndOfArchive,
    /// Whether something exists at the path that was asked about.
    Probed { exists: bool },
    /// The operation that was asked for succeeded.
    Completed,
    /// A read from the entry at hand returned `len` bytes, and they were
    /// written to its file. A length of zero is the end of the entry.
    Block { len: usize },
    /// What was asked for failed.
    Failed { cause: String },
    /// The extraction is called off.
    Cancelled,
}

/// What an `ExtractEvent` holds.
pub enum ExtractEventView {
    Opened(Seq<EntryView>),
    Entry(EntryView),
    EndOfArchive,
    Probed { exists: bool },
    Completed,
    Block { len: usize },
    Failed { cause: Seq<char> },
    Cancelled,
}

impl View for ExtractEvent {
    type V = ExtractEventView;

    open spec fn view(&self) -> ExtractEventView {
        match self {
            ExtractEvent::Opened(handle) => ExtractEventView::Opened(handle@),
            ExtractEvent::Entry(entry) => ExtractEventView::Entry(entry@),
            ExtractEvent::EndOfArchive => ExtractEventView::EndOfArchive,
            ExtractEvent::Probed { exists } => ExtractEventView::Probed { exists: *exists },
            ExtractEvent::Completed => ExtractEventView::Completed,
            ExtractEvent::Block { len } => ExtractEventView::Block { len: *len },
            ExtractEvent::Failed { cause } => ExtractEventView::Failed { cause: cause@ },
            ExtractEvent::Cancelled => ExtractEventView::Cancelled,
        }
    }
}

/// What the driver is asked to do. Paths are relative to the destination root.
#[derive(Debug, PartialEq, Eq)]
pub enum ExtractAction {
    /// Open the archive, with the password if there is one and without
    /// decryption if there is none; answer with `Opened` or `Failed`.
    Open { credential: Option<String> },
    /// Show that `total` bytes are to come, then do as for `NextEntry`.
    Start { total: u64 },
    /// Let the decoder move on; answer with `Entry`, `EndOfArchive` or
    /// `Failed`, or with `Cancelled` to call the extraction off.
    NextEntry,
    /// Find out whether anything exists at `path`; answer with `Probed`.
    Probe { path: EntryPath },
    /// Create the directory `path` and every missing directory above it;
    /// answer with `Completed` or `Failed`.
    CreateDirectory { path: EntryPath },
    /// Create the directory `parent` and every missing directory above it,
    /// then create the file `path`, emptying it if it exists; answer with
    /// `Completed` or `Failed`.
    CreateFile { path: EntryPath, parent: EntryPath },
    /// Read the next block of the entry and write it to the file; answer
    /// with `Block` or `Failed`, or with `Cancelled` to call the extraction off.
    ReadBlock,
    /// Report that `position` of `total` bytes are written, then do as for `ReadBlock`.
    Progress { position: u64, total: u64 },
    /// Remove the archive file; answer with `Completed` or `Failed`.
    RemoveArchive,
    /// Report success.
    Finish,
    /// Give up with this error.
    Abort(ExtractError),
}

/// What an `ExtractAction` holds.
pub enum ExtractActionView {
    Open { credential: Option<Seq<char>> },
    Start { total: u64 },
    NextEntry,
    Probe { path: Seq<Seq<char>> },
    CreateDirectory { path: Seq<Seq<char>> },
    CreateFile { path: Seq<Seq<char>>, parent: Seq<Seq<char>> },
    ReadBlock,
    Progress { position: u64, total: u64 },
    RemoveArchive,
    Finish,
    Abort(ExtractErrorView),
}

impl View for ExtractAction {
    type V = ExtractActionView;

    open spec fn view(&self) -> ExtractActionView {
        match self {
            ExtractAction::Open { credential } => ExtractActionView::Open {
                credential: match credential {
                    Some(password) => Some(password@),
                    None => None,
                },
            },
            ExtractAction::Start { total } => ExtractActionView::Start { total: *total },
            ExtractAction::NextEntry => ExtractActionView::NextEntry,
            ExtractAction::Probe { path } => ExtractActionView::Probe { path: path@ },
            ExtractAction::CreateDirectory { path } => ExtractActionView::CreateDirectory {
                path: path@,
            },
            ExtractAction::CreateFile { path, parent } => ExtractActionView::CreateFile {
                path: path@,
                parent: parent@,
            },
            ExtractAction::ReadBlock => ExtractActionView::ReadBlock,
            ExtractAction::Progress { position, total } => ExtractActionView::Progress {
                position: *position,
                total: *total,
            },
            ExtractAction::RemoveArchive => ExtractActionView::RemoveArchive,
            ExtractAction::Finish => ExtractActionView::Finish,
            ExtractAction::Abort(error) => ExtractActionView::Abort(error@),
        }
    }
}

/// The state of one extraction.
#[derive(Debug)]
pub struct Extraction {
    protected_extensions: Vec<String>,
    delete_after: bool,
    total_uncompressed_size: u64,
    uncompressed_bytes_written: u64,
    phase: ExtractPhase,
}

/// What an `Extraction` holds.
pub struct ExtractView {
    /// The extensions whose files are overwritten rather than skipped.
    pub protected_extensions: Seq<Seq<char>>,
    /// Whether the archive is removed after the last entry.
    pub delete_after: bool,
    /// The bytes that all entries decode to; zero until the archive is opened.
    pub total_uncompressed_size: u64,
    /// The bytes written to files so far.
    pub uncompressed_bytes_written: u64,
    pub phase: ExtractPhaseView,
}

impl View for Extraction {
    type V = ExtractView;

    closed spec fn view(&self) -> ExtractView {
        ExtractView {
            protected_extensions: extensions_view(&self.protected_extensions),
            delete_after: self.delete_after,
            total_uncompressed_size: self.total_uncompressed_size,
            uncompressed_bytes_written: self.uncompressed_bytes_written,
            phase: self.phase@,
        }
    }
}

/// The state in which every extraction begins.
pub open spec fn extract_start(protected_extensions: Seq<Seq<char>>, delete_after: bool) -> ExtractView {
    ExtractView {
        protected_extensions,
        delete_after,
        total_uncompressed_size: 0,
        uncompressed_bytes_written: 0,
        phase: ExtractPhaseView::Opening,
    }
}

/// The state and action that follow once the destination of the entry at
/// hand has been probed.
pub open spec fn after_probe(
    state: ExtractView,
    path: Seq<Seq<char>>,
    is_directory: bool,
    exists: bool,
) -> (ExtractView, ExtractActionView) {
    match entry_plan(path, is_directory, exists, state.protected_extensions) {
        Plan::Skip => (
            ExtractView { phase: ExtractPhaseView::Idle, ..state },
            ExtractActionView::NextEntry,
        ),
        Plan::CreateDirectory => (
            ExtractView { phase: ExtractPhaseView::MakingDirectory, ..state },
            ExtractActionView::CreateDirectory { path },
        ),
        Plan::WriteFile => (
            ExtractView { phase: ExtractPhaseView::Creating, ..state },
            ExtractActionView::CreateFile { path, parent: path.drop_last() },
        ),
        Plan::NoParent => (
            ExtractView { phase: ExtractPhaseView::Failed, ..state },
            ExtractActionView::Abort(ExtractErrorView::NoParent),
        ),
    }
}

/// The state and action with which an extraction fails.
pub open spec fn failing(state: ExtractView, error: ExtractErrorView) -> Option<
    (ExtractView, ExtractActionView),
> {
    Some((ExtractView { phase: ExtractPhaseView::Failed, ..state }, ExtractActionView::Abort(error)))
}

/// The state and action with which an extraction turns to the next entry.
pub open spec fn moving_on(state: ExtractView) -> Option<(ExtractView, ExtractActionView)> {
    Some((ExtractView { phase: ExtractPhaseView::Idle, ..state }, ExtractActionView::NextEntry))
}

/// The transition function: the state and action that follow from `state`
/// on `event`, or none where `state` does not await `event`.
pub open spec fn extract_next(state: ExtractView, event: ExtractEventView) -> Option<
    (ExtractView, ExtractActionView),
> {
    match (state.phase, event) {
        (ExtractPhaseView::Opening, ExtractEventView::Opened(entries)) => {
            if total_size(entries) <= u64::MAX {
                let total = total_size(entries) as u64;
                Some(
                    (
                        ExtractView {
                            phase: ExtractPhaseView::Idle,
                            total_uncompressed_size: total,
                            ..state
                        },
                        ExtractActionView::Start { total },
                    ),
                )
            } else {
                None
            }
        },
        (ExtractPhaseView::Opening, ExtractEventView::Failed { cause }) => failing(
            state,
            ExtractErrorView::Decode(cause),
        ),
        (ExtractPhaseView::Idle, ExtractEventView::Entry(entry)) => Some(
            (
                ExtractView {
                    phase: ExtractPhaseView::Probing {
                        path: components(entry.name),
                        is_directory: entry.is_directory,
                    },
                    ..state
                },
                ExtractActionView::Probe { path: components(entry.name) },
            ),
        ),
        (ExtractPhaseView::Idle, ExtractEventView::EndOfArchive) => if state.delete_after {
            Some(
                (
                    ExtractView { phase: ExtractPhaseView::Cleaning, ..state },
                    ExtractActionView::RemoveArchive,
                ),
            )
        } else {
            Some((ExtractView { phase: ExtractPhaseView::Done, ..state }, ExtractActionView::Finish))
        },
        (ExtractPhaseView::Idle, ExtractEventView::Failed { cause }) => failing(
            state,
            ExtractErrorView::Io(cause),
        ),
        (ExtractPhaseView::Idle, ExtractEventView::Cancelled) => failing(
            state,
            ExtractErrorView::Cancelled,
        ),
        (
            ExtractPhaseView::Probing { path, is_directory },
            ExtractEventView::Probed { exists },
        ) => Some(after_probe(state, path, is_directory, exists)),
        (ExtractPhaseView::MakingDirectory, ExtractEventView::Completed) => moving_on(state),
        (ExtractPhaseView::MakingDirectory, ExtractEventView::Failed { cause }) => failing(
            state,
            ExtractErrorView::Io(cause),
        ),
        (ExtractPhaseView::Creating, ExtractEventView::Completed) => Some(
            (
                ExtractView { phase: ExtractPhaseView::Streaming, ..state },
                ExtractActionView::ReadBlock,
            ),
        ),
        (ExtractPhaseView::Creating, ExtractEventView::Failed { cause }) => failing(
            state,
            ExtractErrorView::Io(cause),
        ),
        (ExtractPhaseView::Streaming, ExtractEventView::Block { len }) => {
            if len == 0 {
                moving_on(state)
            } else if state.uncompressed_bytes_written + len <= u64::MAX {
                let position = (state.uncompressed_bytes_written + len) as u64;
                Some(
                    (
                        ExtractView { uncompressed_bytes_written: position, ..state },
                        ExtractActionView::Progress {
                            position,
                            total: state.total_uncompressed_size,
                        },
                    ),
                )
            } else {
                None
            }
        },
        (ExtractPhaseView::Streaming, ExtractEventView::Failed { cause }) => failing(
            state,
            ExtractErrorView::Io(cause),
        ),
        (ExtractPhaseView::Streaming, ExtractEventView::Cancelled) => failing(
            state,
            ExtractErrorView::Cancelled,
        ),
        (ExtractPhaseView::Cleaning, ExtractEventView::Completed) => Some(
            (ExtractView { phase: ExtractPhaseView::Done, ..state }, ExtractActionView::Finish),
        ),
        (ExtractPhaseView::Cleaning, ExtractEventView::Failed { cause }) => failing(
            state,
            ExtractErrorView::Cleanup(cause),
        ),
        _ => None,
    }
}

impl Extraction {
    /// Begins an extraction of an archive that `credential` opens, under
    /// the given policy.
    pub fn start(
        credential: Option<String>,
        protected_extensions: Vec<String>,
        delete_after: bool,
    ) -> (begun: (Extraction, ExtractAction))
        ensures
            begun.0@ == extract_start(extensions_view(&protected_extensions), delete_after),
            begun.1 == (ExtractAction::Open { credential }),
    {
        let state = Extraction {
            protected_extensions,
            delete_after,
            total_uncompressed_size: 0,
            uncompressed_bytes_written: 0,
            phase: ExtractPhase::Opening,
        };
        (state, ExtractAction::Open { credential })
    }

    /// Where the extraction stands.
    pub fn phase(&self) -> (phase: &ExtractPhase)
        ensures
            phase@ == self@.phase,
    {
        &self.phase
    }

    /// The bytes that all entries decode to; zero until the archive is opened.
    pub fn total_uncompressed_size(&self) -> (total: u64)
        ensures
            total == self@.total_uncompressed_size,
    {
        self.total_uncompressed_size
    }

    /// The bytes written to files so far.
    pub fn uncompressed_bytes_written(&self) -> (written: u64)
        ensures
            written == self@.uncompressed_bytes_written,
    {
        self.uncompressed_bytes_written
    }

    fn fail(&mut self, error: ExtractError) -> (action: Option<ExtractAction>)
        ensures
            failing(old(self)@, error@) == Some((final(self)@, action->0@)),
            action is Some,
    {
        self.phase = ExtractPhase::Failed;
        Some(ExtractAction::Abort(error))
    }

    fn move_on(&mut self) -> (action: Option<ExtractAction>)
        ensures
            moving_on(old(self)@) == Some((final(self)@, action->0@)),
            action is Some,
    {
        self.phase = ExtractPhase::Idle;
        Some(ExtractAction::NextEntry)
    }

    /// Takes an event and answers with the next action. An event that the
    /// current phase does not await changes nothing and is answered with none.
    pub fn step(&mut self, event: ExtractEvent) -> (action: Option<ExtractAction>)
        ensures
            match extract_next(old(self)@, event@) {
                Some((state, todo)) => {
                    &&& final(self)@ == state
                    &&& action matches Some(a)
                    &&& a@ == todo
                },
                None => final(self)@ == old(self)@ && action is None,
            },
    {
        match &self.phase {
            ExtractPhase::Opening => match event {
                ExtractEvent::Opened(handle) => {
                    let total = handle.total_uncompressed_size();
                    self.total_uncompressed_size = total;
                    self.phase = ExtractPhase::Idle;
                    Some(ExtractAction::Start { total })
                },
                ExtractEvent::Failed { cause } => self.fail(ExtractError::Decode(cause)),
                _ => None,
            },
            ExtractPhase::Idle => match event {
                ExtractEvent::Entry(entry) => {
                    let path = EntryPath::parse(entry.name.as_str());
                    let probe = path.duplicate();
                    self.phase = ExtractPhase::Probing { path, is_directory: entry.is_directory };
                    Some(ExtractAction::Probe { path: probe })
                },
                ExtractEvent::EndOfArchive => {
                    if self.delete_after {
                        self.phase = ExtractPhase::Cleaning;
                        Some(ExtractAction::RemoveArchive)
                    } else {
                        self.phase = ExtractPhase::Done;
                        Some(ExtractAction::Finish)
                    }
                },
                ExtractEvent::Failed { cause } => self.fail(ExtractError::Io(cause)),
                ExtractEvent::Cancelled => self.fail(ExtractError::Cancelled),
                _ => None,
            },
            ExtractPhase::Probing { path, is_directory } => match event {
                ExtractEvent::Probed { exists } => {
                    let plan = plan_entry(path, *is_directory, exists, &self.protected_extensions);
                    match plan {
                        Plan::Skip => self.move_on(),
                        Plan::CreateDirectory => {
                            let path = path.duplicate();
                            self.phase = ExtractPhase::MakingDirectory;
                            Some(ExtractAction::CreateDirectory { path })
                        },
                        Plan::WriteFile => {
                            let parent = path.parent();
                            let path = path.duplicate();
                            self.phase = ExtractPhase::Creating;
                            match parent {
                                Some(parent) => Some(ExtractAction::CreateFile { path, parent }),
                                None => None,
                            }
                        },
                        Plan::NoParent => self.fail(ExtractError::NoParent),
                    }
                },
                _ => None,
            },
            ExtractPhase::MakingDirectory => match event {
                ExtractEvent::Completed => self.move_on(),
                ExtractEvent::Failed { cause } => self.fail(ExtractError::Io(cause)),
                _ => None,
            },
            ExtractPhase::Creating => match event {
                ExtractEvent::Completed => {
                    self.phase = ExtractPhase::Streaming;
                    Some(ExtractAction::ReadBlock)
                },
                ExtractEvent::Failed { cause } => self.fail(ExtractError::Io(cause)),
                _ => None,
            },
            ExtractPhase::Streaming => match event {
                ExtractEvent::Block { len } => {
                    if len == 0 {
                        self.move_on()
                    } else {
                        match self.uncompressed_bytes_written.checked_add(len as u64) {
                            Some(position) => {
                                self.uncompressed_bytes_written = position;
                                Some(
                                    ExtractAction::Progress {
                                        position,
                                        total: self.total_uncompressed_size,
                                    },
                                )
                            },
                            None => None,
                        }
                    }
                },
                ExtractEvent::Failed { cause } => self.fail(ExtractError::Io(cause)),
                ExtractEvent::Cancelled => self.fail(ExtractError::Cancelled),
                _ => None,
            },
            ExtractPhase::Cleaning => match event {
                ExtractEvent::Completed => {
                    self.phase = ExtractPhase::Done;
                    Some(ExtractAction::Finish)
                },
                ExtractEvent::Failed { cause } => self.fail(ExtractError::Cleanup(cause)),
                _ => None,
            },
            ExtractPhase::Done => None,
            ExtractPhase::Failed => None,
        }
    }
}

/// The state after a run of events, each taken in turn. An event that is
/// not awaited is passed over.
pub open spec fn extract_run(state: ExtractView, events: Seq<ExtractEventView>) -> ExtractView
    decreases events.len(),
{
    if events.len() == 0 {
        state
    } else {
        let before = extract_run(state, events.drop_last());
        match extract_next(before, events.last()) {
            Some((after, _)) => after,
            None => before,
        }
    }
}

/// The actions that a run of events is answered with, in order.
pub open spec fn extract_actions(state: ExtractView, events: Seq<ExtractEventView>) -> Seq<
    ExtractActionView,
>
    decreases events.len(),
{
    if events.len() == 0 {
        Seq::empty()
    } else {
        let before = extract_run(state, events.drop_last());
        let asked = extract_actions(state, events.drop_last());
        match extract_next(before, events.last()) {
            Some((_, action)) => asked.push(action),
            None => asked,
        }
    }
}

/// No step lets the progress fall, and none but the opening of the archive
/// changes the total. The policy never changes.
pub proof fn lemma_progress_never_falls(state: ExtractView, event: ExtractEventView)
    ensures
        extract_next(state, event) matches Some((after, _)) ==> {
            &&& state.uncompressed_bytes_written <= after.uncompressed_bytes_written
            &&& after.protected_extensions == state.protected_extensions
            &&& after.delete_after == state.delete_after
            &&& state.phase != ExtractPhaseView::Opening ==> after.total_uncompressed_size
                == state.total_uncompressed_size
        },
{
}

/// An entry whose destination exists and whose extension is not protected
/// is passed by: the next thing asked for is the next entry, and nothing
/// of the state has moved.
pub proof fn lemma_skip_asks_for_nothing(state: ExtractView, entry: EntryView)
    requires
        state.phase == ExtractPhaseView::Idle,
        !is_protected(extension_of(components(entry.name)), state.protected_extensions),
    ensures
        extract_run(
            state,
            seq![ExtractEventView::Entry(entry), ExtractEventView::Probed { exists: true }],
        ) == state,
        extract_actions(
            state,
            seq![ExtractEventView::Entry(entry), ExtractEventView::Probed { exists: true }],
        ) == seq![
            ExtractActionView::Probe { path: components(entry.name) },
            ExtractActionView::NextEntry,
        ],
{
    let first = seq![ExtractEventView::Entry(entry)];
    let both = seq![ExtractEventView::Entry(entry), ExtractEventView::Probed { exists: true }];
    assert(both.drop_last() =~= first);
    assert(first.drop_last() =~= Seq::<ExtractEventView>::empty());
    assert(extract_run(state, first.drop_last()) == state);
    assert(extract_actions(state, first.drop_last()) =~= Seq::<ExtractActionView>::empty());
    assert(extract_actions(state, first) =~= seq![
        ExtractActionView::Probe { path: components(entry.name) },
    ]);
    assert(extract_actions(state, both) =~= seq![
        ExtractActionView::Probe { path: components(entry.name) },
        ExtractActionView::NextEntry,
    ]);
}

/// Whether an action belongs to the writing of a file.
pub open spec fn writes_file(action: ExtractActionView) -> bool {
    action is CreateFile || action is ReadBlock || action is Progress
}

/// Where an extraction stands while a directory entry is dealt with.
pub open spec fn at_directory(phase: ExtractPhaseView) -> bool {
    match phase {
        ExtractPhaseView::Probing { is_directory, .. } => is_directory,
        ExtractPhaseView::MakingDirectory => true,
        _ => false,
    }
}

/// While a directory entry is dealt with, no file is created, nothing is
/// read and no progress is reported: each answer is to create the
/// directory, to turn to the next entry, or to give up.
pub proof fn lemma_directory_reports_no_progress(state: ExtractView, event: ExtractEventView)
    requires
        at_directory(state.phase),
    ensures
        extract_next(state, event) matches Some((after, action)) ==> {
            &&& !writes_file(action)
            &&& after.uncompressed_bytes_written == state.uncompressed_bytes_written
            &&& at_directory(after.phase) || after.phase == ExtractPhaseView::Idle || after.phase
                == ExtractPhaseView::Failed
        },
{
}

/// A directory entry is met by probing its destination, as a directory.
pub proof fn lemma_directory_is_probed(state: ExtractView, entry: EntryView)
    requires
        state.phase == ExtractPhaseView::Idle,
        entry.is_directory,
    ensures
        extract_next(state, ExtractEventView::Entry(entry)) matches Some((after, action))
            && at_directory(after.phase) && action == (ExtractActionView::Probe {
            path: components(entry.name),
        }) && after.uncompressed_bytes_written == state.uncompressed_bytes_written,
{
}

/// If the archive cannot be opened, the one answer is to give up with the
/// decoder's complaint. Nothing else is ever asked for, whatever the driver
/// reports afterwards: no path is probed, no directory or file is created.
pub proof fn lemma_failed_open_touches_nothing(
    protected_extensions: Seq<Seq<char>>,
    delete_after: bool,
    cause: Seq<char>,
    events: Seq<ExtractEventView>,
)
    requires
        events.len() > 0,
        events[0] == (ExtractEventView::Failed { cause }),
    ensures
        extract_run(extract_start(protected_extensions, delete_after), events).phase
            == ExtractPhaseView::Failed,
        extract_actions(extract_start(protected_extensions, delete_after), events) == seq![
            ExtractActionView::Abort(ExtractErrorView::Decode(cause)),
        ],
    decreases events.len(),
{
    let start = extract_start(protected_extensions, delete_after);
    let init = events.drop_last();
    if events.len() == 1 {
        assert(init.len() == 0);
        assert(extract_run(start, init) == start);
        assert(extract_actions(start, init) =~= Seq::<ExtractActionView>::empty());
        assert(events.last() == events[0]);
        assert(extract_actions(start, events) =~= seq![
            ExtractActionView::Abort(ExtractErrorView::Decode(cause)),
        ]);
    } else {
        assert(init[0] == events[0]);
        lemma_failed_open_touches_nothing(protected_extensions, delete_after, cause, init);
    }
}

/// An extraction that has ended, well or badly, takes no further event:
/// nothing is retried, and nothing that was written is taken back.
pub proof fn lemma_ended_extraction_stays_ended(state: ExtractView, event: ExtractEventView)
    requires
        state.phase == ExtractPhaseView::Done || state.phase == ExtractPhaseView::Failed,
    ensures
        extract_next(state, event) is None,
{
}

} // verus!
