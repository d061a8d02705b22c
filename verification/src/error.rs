//! The ways a run can fail.
//!
//! Every failure is final: nothing is retried and nothing is rolled back.
//! Where the failure came from outside (a network fault, a disk fault, a
//! decoder's complaint), the error carries the cause as text.

use vstd::prelude::*;
use vstd::string::*;

verus! {

/// The five kinds of failure, by the stage that met them.
#[derive(Debug, Clone, Copy, PartialEq, Eq, Structural)]
pub enum ErrorKind {
    /// The target directory could not be resolved.
    Locate,
    /// The archive could not be fetched or stored.
    Download,
    /// The archive could not be opened.
    Decode,
    /// An entry could not be written.
    Extract,
    /// The archive could not be removed after a successful extraction.
    Cleanup,
}

/// Why the target directory could not be resolved.
#[derive(Debug, Clone, Copy, PartialEq, Eq, Structural)]
pub enum LocateError {
    /// The package manager's own directory was not found.
    RootNotFound,
    /// The target application was not found under that directory.
    TargetNotFound,
    /// The application's directory has no parent to extract into.
    NoParent,
}

/// Why the archive could not be fetched.
#[derive(Debug, Clone, PartialEq, Eq)]
pub enum DownloadError {
    /// The request failed before a response arrived.
    Request(String),
    /// The response declared no content length.
    ContentLength,
    /// The destination file could not be created.
    CreateFile(String),
    /// A chunk could not be received or stored.
    DownloadChunk(String),
    /// The archive was already present but could not be opened.
    OpenExisting(String),
    /// The caller called the download off between two chunks.
    Cancelled,
}

/// What a `DownloadError` holds.
pub enum DownloadErrorView {
    Request(Seq<char>),
    ContentLength,
    CreateFile(Seq<char>),
    DownloadChunk(Seq<char>),
    OpenExisting(Seq<char>),
    Cancelled,
}

impl View for DownloadError {
    type V = DownloadErrorView;

    open spec fn view(&self) -> DownloadErrorView {
        match self {
            DownloadError::Request(cause) => DownloadErrorView::Request(cause@),
            DownloadError::ContentLength => DownloadErrorView::ContentLength,
            DownloadError::CreateFile(cause) => DownloadErrorView::CreateFile(cause@),
            DownloadError::DownloadChunk(cause) => DownloadErrorView::DownloadChunk(cause@),
            DownloadError::OpenExisting(cause) => DownloadErrorView::OpenExisting(cause@),
            DownloadError::Cancelled => DownloadErrorView::Cancelled,
        }
    }
}

/// Why the archive could not be extracted.
#[derive(Debug, Clone, PartialEq, Eq)]
pub enum ExtractError {
    /// The archive could not be opened: a wrong password, a damaged or cut-off file.
    Decode(String),
    /// An entry names a file that no directory can hold.
    NoParent,
    /// A directory or file could not be created, read or written.
    Io(String),
    /// Every entry was written, but the archive could not be removed.
    Cleanup(String),
    /// The caller called the extraction off between two entries or two blocks.
    Cancelled,
}

/// What an `ExtractError` holds.
pub enum ExtractErrorView {
    Decode(Seq<char>),
    NoParent,
    Io(Seq<char>),
    Cleanup(Seq<char>),
    Cancelled,
}

impl View for ExtractError {
    type V = ExtractErrorView;

    open spec fn view(&self) -> ExtractErrorView {
        match self {
            ExtractError::Decode(cause) => ExtractErrorView::Decode(cause@),
            ExtractError::NoParent => ExtractErrorView::NoParent,
            ExtractError::Io(cause) => ExtractErrorView::Io(cause@),
            ExtractError::Cleanup(cause) => ExtractErrorView::Cleanup(cause@),
            ExtractError::Cancelled => ExtractErrorView::Cancelled,
        }
    }
}

/// The single outcome of a failed run.
#[derive(Debug, Clone, PartialEq, Eq)]
pub enum Error {
    Locate(LocateError),
    Download(DownloadError),
    Extract(ExtractError),
}

/// What an `Error` holds.
pub enum ErrorView {
    Locate(LocateError),
    Download(DownloadErrorView),
    Extract(ExtractErrorView),
}

impl View for Error {
    type V = ErrorView;

    open spec fn view(&self) -> ErrorView {
        match self {
            Error::Locate(e) => ErrorView::Locate(*e),
            Error::Download(e) => ErrorView::Download(e@),
            Error::Extract(e) => ErrorView::Extract(e@),
        }
    }
}

/// The kind of an extraction failure.
pub open spec fn extract_kind(error: ExtractErrorView) -> ErrorKind {
    match error {
        ExtractErrorView::Decode(_) => ErrorKind::Decode,
        ExtractErrorView::NoParent => ErrorKind::Extract,
        ExtractErrorView::Io(_) => ErrorKind::Extract,
        ExtractErrorView::Cleanup(_) => ErrorKind::Cleanup,
        ExtractErrorView::Cancelled => ErrorKind::Extract,
    }
}

/// The kind of a failure.
pub open spec fn kind_of(error: ErrorView) -> ErrorKind {
    match error {
        ErrorView::Locate(_) => ErrorKind::Locate,
        ErrorView::Download(_) => ErrorKind::Download,
        ErrorView::Extract(e) => extract_kind(e),
    }
}

impl ExtractError {
    /// The kind of this failure.
    pub fn kind(&self) -> (kind: ErrorKind)
        ensures
            kind == extract_kind(self@),
    {
        match self {
            ExtractError::Decode(_) => ErrorKind::Decode,
            ExtractError::NoParent => ErrorKind::Extract,
            ExtractError::Io(_) => ErrorKind::Extract,
            ExtractError::Cleanup(_) => ErrorKind::Cleanup,
            ExtractError::Cancelled => ErrorKind::Extract,
        }
    }
}

impl Error {
    /// The kind of this failure.
    pub fn kind(&self) -> (kind: ErrorKind)
        ensures
            kind == kind_of(self@),
    {
        match self {
            Error::Locate(_) => ErrorKind::Locate,
            Error::Download(_) => ErrorKind::Download,
            Error::Extract(e) => e.kind(),
        }
    }
}

/// What is said of a failed search.
pub open spec fn locate_message(error: LocateError) -> Seq<char> {
    match error {
        LocateError::RootNotFound => "the package manager's directory could not be found"@,
        LocateError::TargetNotFound => "the target application could not be found"@,
        LocateError::NoParent => "the target application's directory has no parent"@,
    }
}

/// What is said of a failed download: the step that failed, then its cause.
pub open spec fn download_message(error: DownloadErrorView) -> Seq<char> {
    match error {
        DownloadErrorView::Request(cause) => "failed to download the archive: "@ + cause,
        DownloadErrorView::ContentLength => "failed to get content length"@,
        DownloadErrorView::CreateFile(cause) => "failed to create the archive file: "@ + cause,
        DownloadErrorView::DownloadChunk(cause) => "failed to download a chunk: "@ + cause,
        DownloadErrorView::OpenExisting(cause) => "failed to open the archive file: "@ + cause,
        DownloadErrorView::Cancelled => "the download was cancelled"@,
    }
}

/// What is said of a failed extraction: the step that failed, then its cause.
pub open spec fn extract_message(error: ExtractErrorView) -> Seq<char> {
    match error {
        ExtractErrorView::Decode(cause) => "failed to open the archive: "@ + cause,
        ExtractErrorView::NoParent => "no parent directory found for an entry of the archive"@,
        ExtractErrorView::Io(cause) => "failed to extract the archive: "@ + cause,
        ExtractErrorView::Cleanup(cause) => "failed to remove the archive: "@ + cause,
        ExtractErrorView::Cancelled => "the extraction was cancelled"@,
    }
}

/// What is said of a failed run.
pub open spec fn message_of(error: ErrorView) -> Seq<char> {
    match error {
        ErrorView::Locate(e) => locate_message(e),
        ErrorView::Download(e) => download_message(e),
        ErrorView::Extract(e) => extract_message(e),
    }
}

fn with_cause(what: &str, cause: &String) -> (text: String)
    ensures
        text@ == what@ + cause@,
{
    let mut text = what.to_owned();
    text.append(cause.as_str());
    text
}

impl LocateError {
    /// This failure in words.
    pub fn message(&self) -> (text: String)
        ensures
            text@ == locate_message(*self),
    {
        match self {
            LocateError::RootNotFound => "the package manager's directory could not be found".to_owned(),
            LocateError::TargetNotFound => "the target application could not be found".to_owned(),
            LocateError::NoParent => "the target application's directory has no parent".to_owned(),
        }
    }
}

impl DownloadError {
    /// This failure in words.
    pub fn message(&self) -> (text: String)
        ensures
            text@ == download_message(self@),
    {
        match self {
            DownloadError::Request(cause) => with_cause("failed to download the archive: ", cause),
            DownloadError::ContentLength => "failed to get content length".to_owned(),
            DownloadError::CreateFile(cause) => with_cause(
                "failed to create the archive file: ",
                cause,
            ),
            DownloadError::DownloadChunk(cause) => with_cause("failed to download a chunk: ", cause),
            DownloadError::OpenExisting(cause) => with_cause(
                "failed to open the archive file: ",
                cause,
            ),
            DownloadError::Cancelled => "the download was cancelled".to_owned(),
        }
    }
}

impl ExtractError {
    /// This failure in words.
    pub fn message(&self) -> (text: String)
        ensures
            text@ == extract_message(self@),
    {
        match self {
            ExtractError::Decode(cause) => with_cause("failed to open the archive: ", cause),
            ExtractError::NoParent => "no parent directory found for an entry of the archive".to_owned(),
            ExtractError::Io(cause) => with_cause("failed to extract the archive: ", cause),
            ExtractError::Cleanup(cause) => with_cause("failed to remove the archive: ", cause),
            ExtractError::Cancelled => "the extraction was cancelled".to_owned(),
        }
    }
}

impl Error {
    /// This failure in words.
    pub fn message(&self) -> (text: String)
        ensures
            text@ == message_of(self@),
    {
        match self {
            Error::Locate(e) => e.message(),
            Error::Download(e) => e.message(),
            Error::Extract(e) => e.message(),
        }
    }
}

} // verus!
