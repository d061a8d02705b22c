//! Fetching the archive.
//!
//! A `Download` never touches the network or the disk. It tells its driver
//! what to do next (`DownloadAction`) and is told what came of it
//! (`DownloadEvent`). The driver awaits; the order of the steps, the
//! short-circuit on an archive that is already there, and the progress
//! arithmetic are decided here.

use vstd::prelude::*;
use crate::error::{DownloadError, DownloadErrorView};

verus! {

/// Where a download stands.
#[derive(Debug, Clone, Copy, PartialEq, Eq, Structural)]
pub enum DownloadPhase {
    /// Waiting to learn whether the destination file is already there.
    Probing,
    /// Waiting for the file that was already there to be opened.
    Opening,
    /// Waiting for the response to the request.
    Requesting,
    /// Waiting for the destination file to be created.
    Creating,
    /// Waiting for the next chunk of the body, or for its end.
    Streaming,
    /// The file is there. Nothing more will happen.
    Done,
    /// The download failed. Nothing more will happen.
    Failed,
}

/// What the driver reports.
#[derive(Debug, Clone, PartialEq, Eq)]
pub enum DownloadEvent {
    /// Whether a file exists at the destination path.
    Probed { exists: bool },
    /// The response arrived, with the content length that it declares, if any.
    Responded { content_length: Option<u64> },
    /// The file operation that was asked for succeeded.
    Completed,
    /// A chunk of `len` bytes arrived and was appended to the file.
    Chunk { len: usize },
    /// The body ended.
    EndOfStream,
    /// What was asked for failed.
    Failed { cause: String },
    /// The download is called off.
    Cancelled,
}

/// What a `DownloadEvent` holds.
pub enum DownloadEventView {
    Probed { exists: bool },
    Responded { content_length: Option<u64> },
    Completed,
    Chunk { len: usize },
    EndOfStream,
    Failed { cause: Seq<char> },
    Cancelled,
}

impl View for DownloadEvent {
    type V = DownloadEventView;

    open spec fn view(&self) -> DownloadEventView {
        match self {
            DownloadEvent::Probed { exists } => DownloadEventView::Probed { exists: *exists },
            DownloadEvent::Responded { content_length } => DownloadEventView::Responded {
                content_length: *content_length,
            },
            DownloadEvent::Completed => DownloadEventView::Completed,
            DownloadEvent::Chunk { len } => DownloadEventView::Chunk { len: *len },
            DownloadEvent::EndOfStream => DownloadEventView::EndOfStream,
            DownloadEvent::Failed { cause } => DownloadEventView::Failed { cause: cause@ },
            DownloadEvent::Cancelled => DownloadEventView::Cancelled,
        }
    }
}

/// What the driver is asked to do.
#[derive(Debug, Clone, PartialEq, Eq)]
pub enum DownloadAction {
    /// Find out whether a file exists at `path`; answer with `Probed`.
    Probe { path: String },
    /// Open the file at `path` as it is; answer with `Completed` or `Failed`.
    OpenExisting { path: String },
    /// Send a GET request to `url`; answer with `Responded` or `Failed`.
    Request { url: String },
    /// Create the file at `path`, emptying it if it exists; answer with
    /// `Completed` or `Failed`.
    CreateFile { path: String },
    /// Await the next chunk and append it to the file; answer with `Chunk`,
    /// `EndOfStream` or `Failed`, or with `Cancelled` to call the download off.
    Receive,
    /// Report that `position` of `total` bytes are there, then do as for `Receive`.
    Progress { position: u64, total: u64 },
    /// Hand the file to the caller.
    Finish,
    /// Give up with this error.
    Abort(DownloadError),
}

/// What a `DownloadAction` holds.
pub enum DownloadActionView {
    Probe { path: Seq<char> },
    OpenExisting { path: Seq<char> },
    Request { url: Seq<char> },
    CreateFile { path: Seq<char> },
    Receive,
    Progress { position: u64, total: u64 },
    Finish,
    Abort(DownloadErrorView),
}

impl View for DownloadAction {
    type V = DownloadActionView;

    open spec fn view(&self) -> DownloadActionView {
        match self {
            DownloadAction::Probe { path } => DownloadActionView::Probe { path: path@ },
            DownloadAction::OpenExisting { path } => DownloadActionView::OpenExisting {
                path: path@,
            },
            DownloadAction::Request { url } => DownloadActionView::Request { url: url@ },
            DownloadAction::CreateFile { path } => DownloadActionView::CreateFile { path: path@ },
            DownloadAction::Receive => DownloadActionView::Receive,
            DownloadAction::Progress { position, total } => DownloadActionView::Progress {
                position: *position,
                total: *total,
            },
            DownloadAction::Finish => DownloadActionView::Finish,
            DownloadAction::Abort(error) => DownloadActionView::Abort(error@),
        }
    }
}

/// The part of a `DownloadState` that changes as the fetch goes on.
#[derive(Debug, Clone, Copy)]
struct Counters {
    total_size: Option<u64>,
    bytes_written: u64,
    phase: DownloadPhase,
}

/// The state of one fetch.
#[derive(Debug)]
pub struct DownloadState {
    url: String,
    destination_path: String,
    counters: Counters,
}

/// What a `DownloadState` holds.
pub struct DownloadView {
    pub url: Seq<char>,
    pub destination_path: Seq<char>,
    /// The content length that the response declared; none before it arrived.
    pub total_size: Option<u64>,
    /// The progress so far, never more than `total_size`.
    pub bytes_written: u64,
    pub phase: DownloadPhase,
}

impl View for DownloadState {
    type V = DownloadView;

    closed spec fn view(&self) -> DownloadView {
        DownloadView {
            url: self.url@,
            destination_path: self.destination_path@,
            total_size: self.counters.total_size,
            bytes_written: self.counters.bytes_written,
            phase: self.counters.phase,
        }
    }
}

/// The state in which every download begins.
pub open spec fn download_start(url: Seq<char>, destination_path: Seq<char>) -> DownloadView {
    DownloadView {
        url,
        destination_path,
        total_size: None,
        bytes_written: 0,
        phase: DownloadPhase::Probing,
    }
}

/// The progress after `len` more bytes: the sum, held at `total`.
pub open spec fn advanced(written: u64, len: usize, total: u64) -> u64 {
    if written + len <= total {
        (written + len) as u64
    } else {
        total
    }
}

/// The transition function: the state and action that follow from `state`
/// on `event`, or none where `state` does not await `event`.
pub open spec fn download_next(state: DownloadView, event: DownloadEventView) -> Option<
    (DownloadView, DownloadActionView),
> {
    match (state.phase, event) {
        (DownloadPhase::Probing, DownloadEventView::Probed { exists }) => if exists {
            Some(
                (
                    DownloadView { phase: DownloadPhase::Opening, ..state },
                    DownloadActionView::OpenExisting { path: state.destination_path },
                ),
            )
        } else {
            Some(
                (
                    DownloadView { phase: DownloadPhase::Requesting, ..state },
                    DownloadActionView::Request { url: state.url },
                ),
            )
        },
        (DownloadPhase::Opening, DownloadEventView::Completed) => Some(
            (DownloadView { phase: DownloadPhase::Done, ..state }, DownloadActionView::Finish),
        ),
        (DownloadPhase::Opening, DownloadEventView::Failed { cause }) => Some(
            (
                DownloadView { phase: DownloadPhase::Failed, ..state },
                DownloadActionView::Abort(DownloadErrorView::OpenExisting(cause)),
            ),
        ),
        (DownloadPhase::Requesting, DownloadEventView::Responded { content_length }) => {
            match content_length {
                Some(total) => Some(
                    (
                        DownloadView {
                            phase: DownloadPhase::Creating,
                            total_size: Some(total),
                            ..state
                        },
                        DownloadActionView::CreateFile { path: state.destination_path },
                    ),
                ),
                None => Some(
                    (
                        DownloadView { phase: DownloadPhase::Failed, ..state },
                        DownloadActionView::Abort(DownloadErrorView::ContentLength),
                    ),
                ),
            }
        },
        (DownloadPhase::Requesting, DownloadEventView::Failed { cause }) => Some(
            (
                DownloadView { phase: DownloadPhase::Failed, ..state },
                DownloadActionView::Abort(DownloadErrorView::Request(cause)),
            ),
        ),
        (DownloadPhase::Creating, DownloadEventView::Completed) => Some(
            (
                DownloadView { phase: DownloadPhase::Streaming, ..state },
                DownloadActionView::Receive,
            ),
        ),
        (DownloadPhase::Creating, DownloadEventView::Failed { cause }) => Some(
            (
                DownloadView { phase: DownloadPhase::Failed, ..state },
                DownloadActionView::Abort(DownloadErrorView::CreateFile(cause)),
            ),
        ),
        (DownloadPhase::Streaming, DownloadEventView::Chunk { len }) => {
            match state.total_size {
                Some(total) => {
                    let position = advanced(state.bytes_written, len, total);
                    Some(
                        (
                            DownloadView { bytes_written: position, ..state },
                            DownloadActionView::Progress { position, total },
                        ),
                    )
                },
                None => None,
            }
        },
        (DownloadPhase::Streaming, DownloadEventView::EndOfStream) => Some(
            (DownloadView { phase: DownloadPhase::Done, ..state }, DownloadActionView::Finish),
        ),
        (DownloadPhase::Streaming, DownloadEventView::Failed { cause }) => Some(
            (
                DownloadView { phase: DownloadPhase::Failed, ..state },
                DownloadActionView::Abort(DownloadErrorView::DownloadChunk(cause)),
            ),
        ),
        (DownloadPhase::Streaming, DownloadEventView::Cancelled) => Some(
            (
                DownloadView { phase: DownloadPhase::Failed, ..state },
                DownloadActionView::Abort(DownloadErrorView::Cancelled),
            ),
        ),
        _ => None,
    }
}

/// What holds of every state that a download passes through: the total is
/// known from the response on and not before, and the progress never
/// passes it.
pub open spec fn download_invariant(state: DownloadView) -> bool {
    match state.total_size {
        Some(total) => {
            &&& state.bytes_written <= total
            &&& state.phase != DownloadPhase::Probing
            &&& state.phase != DownloadPhase::Opening
            &&& state.phase != DownloadPhase::Requesting
        },
        None => {
            &&& state.bytes_written == 0
            &&& state.phase != DownloadPhase::Creating
            &&& state.phase != DownloadPhase::Streaming
        },
    }
}

impl DownloadState {
    #[verifier::type_invariant]
    spec fn well_formed(&self) -> bool {
        download_invariant(self@)
    }

    /// Begins a fetch of `url` into the file at `destination_path`.
    pub fn start(url: String, destination_path: String) -> (begun: (DownloadState, DownloadAction))
        ensures
            begun.0@ == download_start(url@, destination_path@),
            begun.1@ == (DownloadActionView::Probe { path: destination_path@ }),
    {
        let path = destination_path.clone();
        let state = DownloadState {
            url,
            destination_path,
            counters: Counters { total_size: None, bytes_written: 0, phase: DownloadPhase::Probing },
        };
        (state, DownloadAction::Probe { path })
    }

    /// Where the download stands.
    pub fn phase(&self) -> (phase: DownloadPhase)
        ensures
            phase == self@.phase,
    {
        self.counters.phase
    }

    /// The content length that the response declared; none before it arrived.
    pub fn total_size(&self) -> (total: Option<u64>)
        ensures
            total == self@.total_size,
    {
        self.counters.total_size
    }

    /// The progress so far.
    pub fn bytes_written(&self) -> (written: u64)
        ensures
            written == self@.bytes_written,
            download_invariant(self@),
    {
        proof {
            use_type_invariant(self);
        }
        self.counters.bytes_written
    }

    fn enter(&mut self, phase: DownloadPhase)
        requires
            download_invariant(DownloadView { phase, ..old(self)@ }),
        ensures
            final(self)@ == (DownloadView { phase, ..old(self)@ }),
    {
        let now = self.counters;
        self.counters = Counters { phase, ..now };
    }

    /// Takes an event and answers with the next action. An event that the
    /// current phase does not await changes nothing and is answered with none.
    pub fn step(&mut self, event: DownloadEvent) -> (action: Option<DownloadAction>)
        ensures
            match download_next(old(self)@, event@) {
                Some((state, todo)) => {
                    &&& final(self)@ == state
                    &&& action matches Some(a)
                    &&& a@ == todo
                },
                None => final(self)@ == old(self)@ && action is None,
            },
    {
        proof {
            use_type_invariant(&*self);
        }
        let now = self.counters;
        match now.phase {
            DownloadPhase::Probing => match event {
                DownloadEvent::Probed { exists } => {
                    if exists {
                        self.enter(DownloadPhase::Opening);
                        Some(DownloadAction::OpenExisting { path: self.destination_path.clone() })
                    } else {
                        self.enter(DownloadPhase::Requesting);
                        Some(DownloadAction::Request { url: self.url.clone() })
                    }
                },
                _ => None,
            },
            DownloadPhase::Opening => match event {
                DownloadEvent::Completed => {
                    self.enter(DownloadPhase::Done);
                    Some(DownloadAction::Finish)
                },
                DownloadEvent::Failed { cause } => {
                    self.enter(DownloadPhase::Failed);
                    Some(DownloadAction::Abort(DownloadError::OpenExisting(cause)))
                },
                _ => None,
            },
            DownloadPhase::Requesting => match event {
                DownloadEvent::Responded { content_length } => match content_length {
                    Some(total) => {
                        self.counters = Counters {
                            total_size: Some(total),
                            bytes_written: 0,
                            phase: DownloadPhase::Creating,
                        };
                        Some(DownloadAction::CreateFile { path: self.destination_path.clone() })
                    },
                    None => {
                        self.enter(DownloadPhase::Failed);
                        Some(DownloadAction::Abort(DownloadError::ContentLength))
                    },
                },
                DownloadEvent::Failed { cause } => {
                    self.enter(DownloadPhase::Failed);
                    Some(DownloadAction::Abort(DownloadError::Request(cause)))
                },
                _ => None,
            },
            DownloadPhase::Creating => match event {
                DownloadEvent::Completed => {
                    self.enter(DownloadPhase::Streaming);
                    Some(DownloadAction::Receive)
                },
                DownloadEvent::Failed { cause } => {
                    self.enter(DownloadPhase::Failed);
                    Some(DownloadAction::Abort(DownloadError::CreateFile(cause)))
                },
                _ => None,
            },
            DownloadPhase::Streaming => match event {
                DownloadEvent::Chunk { len } => match now.total_size {
                    Some(total) => {
                        let room: u64 = total - now.bytes_written;
                        let position: u64 = if len as u64 <= room {
                            now.bytes_written + len as u64
                        } else {
                            total
                        };
                        self.counters = Counters { bytes_written: position, ..now };
                        Some(DownloadAction::Progress { position, total })
                    },
                    None => None,
                },
                DownloadEvent::EndOfStream => {
                    self.enter(DownloadPhase::Done);
                    Some(DownloadAction::Finish)
                },
                DownloadEvent::Failed { cause } => {
                    self.enter(DownloadPhase::Failed);
                    Some(DownloadAction::Abort(DownloadError::DownloadChunk(cause)))
                },
                DownloadEvent::Cancelled => {
                    self.enter(DownloadPhase::Failed);
                    Some(DownloadAction::Abort(DownloadError::Cancelled))
                },
                _ => None,
            },
            DownloadPhase::Done => None,
            DownloadPhase::Failed => None,
        }
    }
}

/// The state after a run of events, each taken in turn. An event that is
/// not awaited is passed over.
pub open spec fn download_run(state: DownloadView, events: Seq<DownloadEventView>) -> DownloadView
    decreases events.len(),
{
    if events.len() == 0 {
        state
    } else {
        let before = download_run(state, events.drop_last());
        match download_next(before, events.last()) {
            Some((after, _)) => after,
            None => before,
        }
    }
}

/// The actions that a run of events is answered with, in order.
pub open spec fn download_actions(state: DownloadView, events: Seq<DownloadEventView>) -> Seq<
    DownloadActionView,
>
    decreases events.len(),
{
    if events.len() == 0 {
        Seq::empty()
    } else {
        let before = download_run(state, events.drop_last());
        let asked = download_actions(state, events.drop_last());
        match download_next(before, events.last()) {
            Some((_, action)) => asked.push(action),
            None => asked,
        }
    }
}

/// The number of bytes that the driver has appended to the file in a run
/// of events: the lengths of the chunks that were awaited.
pub open spec fn bytes_appended(state: DownloadView, events: Seq<DownloadEventView>) -> nat
    decreases events.len(),
{
    if events.len() == 0 {
        0
    } else {
        let before = download_run(state, events.drop_last());
        let so_far = bytes_appended(state, events.drop_last());
        match (before.phase, events.last()) {
            (DownloadPhase::Streaming, DownloadEventView::Chunk { len }) => so_far + len as nat,
            _ => so_far,
        }
    }
}

/// Whether an action sends a request or changes the file.
pub open spec fn fetches(action: DownloadActionView) -> bool {
    action is Request || action is CreateFile || action is Receive || action is Progress
}

/// No step breaks the invariant, and none lets the progress fall.
pub proof fn lemma_download_step_keeps_invariant(state: DownloadView, event: DownloadEventView)
    requires
        download_invariant(state),
    ensures
        download_next(state, event) matches Some((after, _)) ==> download_invariant(after)
            && state.bytes_written <= after.bytes_written,
{
}

/// In every state that a download can reach, the invariant holds, and the
/// progress is the number of bytes appended, held at the declared total.
pub proof fn lemma_progress_is_clamped(
    url: Seq<char>,
    destination_path: Seq<char>,
    events: Seq<DownloadEventView>,
)
    ensures
        download_invariant(download_run(download_start(url, destination_path), events)),
        download_run(download_start(url, destination_path), events).total_size matches Some(total)
            ==> download_run(download_start(url, destination_path), events).bytes_written
            == if bytes_appended(download_start(url, destination_path), events) <= total {
            bytes_appended(download_start(url, destination_path), events)
        } else {
            total as nat
        },
        download_run(download_start(url, destination_path), events).total_size is None
            ==> bytes_appended(download_start(url, destination_path), events) == 0,
    decreases events.len(),
{
    if events.len() > 0 {
        lemma_progress_is_clamped(url, destination_path, events.drop_last());
    }
}

/// A download that ended well after the driver appended exactly as many
/// bytes as the response declared has its progress at the total: the
/// file's length, the progress and the declared length are one number.
pub proof fn lemma_complete_download(
    url: Seq<char>,
    destination_path: Seq<char>,
    events: Seq<DownloadEventView>,
    total: u64,
)
    requires
        download_run(download_start(url, destination_path), events).phase == DownloadPhase::Done,
        download_run(download_start(url, destination_path), events).total_size == Some(total),
        bytes_appended(download_start(url, destination_path), events) == total,
    ensures
        download_run(download_start(url, destination_path), events).bytes_written == total,
{
    lemma_progress_is_clamped(url, destination_path, events);
}

/// Where the download stands once the file was found to be there already:
/// it is being opened, or the download has ended.
pub open spec fn reusing(state: DownloadView) -> bool {
    state.phase == DownloadPhase::Opening || state.phase == DownloadPhase::Done || state.phase
        == DownloadPhase::Failed
}

/// If the file is there when the download begins, no request is ever sent
/// and the file is never created anew or written to, whatever the driver
/// reports afterwards. The one thing asked of the driver is to open it.
pub proof fn lemma_existing_file_is_reused(
    url: Seq<char>,
    destination_path: Seq<char>,
    events: Seq<DownloadEventView>,
)
    requires
        events.len() > 0,
        events[0] == (DownloadEventView::Probed { exists: true }),
    ensures
        reusing(download_run(download_start(url, destination_path), events)),
        download_actions(download_start(url, destination_path), events).len() > 0,
        download_actions(download_start(url, destination_path), events)[0] == (
        DownloadActionView::OpenExisting { path: destination_path }),
        forall|i: int|
            0 <= i < download_actions(download_start(url, destination_path), events).len()
                ==> !fetches(
                #[trigger] download_actions(download_start(url, destination_path), events)[i],
            ),
        bytes_appended(download_start(url, destination_path), events) == 0,
    decreases events.len(),
{
    let start = download_start(url, destination_path);
    let init = events.drop_last();
    if events.len() == 1 {
        assert(init.len() == 0);
        assert(download_run(start, init) == start);
        assert(download_actions(start, init) =~= Seq::<DownloadActionView>::empty());
        assert(bytes_appended(start, init) == 0);
        assert(events.last() == events[0]);
    } else {
        assert(init[0] == events[0]);
        lemma_existing_file_is_reused(url, destination_path, init);
    }
}

/// If the response declares no content length, the download gives up at
/// once: the request is the one thing that was asked for before, no file
/// is ever created and no byte is ever written, whatever the driver
/// reports afterwards.
pub proof fn lemma_missing_length_creates_nothing(
    url: Seq<char>,
    destination_path: Seq<char>,
    events: Seq<DownloadEventView>,
)
    requires
        events.len() > 1,
        events[0] == (DownloadEventView::Probed { exists: false }),
        events[1] == (DownloadEventView::Responded { content_length: None }),
    ensures
        download_run(download_start(url, destination_path), events).phase == DownloadPhase::Failed,
        download_actions(download_start(url, destination_path), events) == seq![
            DownloadActionView::Request { url },
            DownloadActionView::Abort(DownloadErrorView::ContentLength),
        ],
        bytes_appended(download_start(url, destination_path), events) == 0,
    decreases events.len(),
{
    let start = download_start(url, destination_path);
    let init = events.drop_last();
    if events.len() == 2 {
        let first = init.drop_last();
        assert(first.len() == 0);
        assert(init.last() == events[0]);
        assert(events.last() == events[1]);
        assert(download_run(start, first) == start);
        assert(download_actions(start, first) =~= Seq::<DownloadActionView>::empty());
        assert(bytes_appended(start, first) == 0);
        assert(download_actions(start, init) =~= seq![DownloadActionView::Request { url }]);
        assert(download_run(start, init).phase == DownloadPhase::Requesting);
        assert(bytes_appended(start, init) == 0);
        assert(download_actions(start, events) =~= seq![
            DownloadActionView::Request { url },
            DownloadActionView::Abort(DownloadErrorView::ContentLength),
        ]);
    } else {
        assert(init[0] == events[0]);
        assert(init[1] == events[1]);
        lemma_missing_length_creates_nothing(url, destination_path, init);
    }
}

/// A download that has ended, well or badly, takes no further event:
/// nothing is retried.
pub proof fn lemma_ended_download_stays_ended(state: DownloadView, event: DownloadEventView)
    requires
        state.phase == DownloadPhase::Done || state.phase == DownloadPhase::Failed,
    ensures
        download_next(state, event) is None,
{
}

} // verus!
