//! What a run is told before it begins.

use vstd::prelude::*;
use vstd::string::*;
use crate::path::extensions_view;

verus! {

/// The settings of one run. They are fixed when the run begins and handed
/// to each stage; nothing is read from the surroundings later.
#[derive(Debug, Clone, PartialEq, Eq)]
pub struct Config {
    /// Where the archive is fetched from.
    pub archive_url: String,
    /// Where the archive is kept on disk.
    pub archive_local_path: String,
    /// The archive's password; none if it is not encrypted.
    pub credential: Option<String>,
    /// Whether the archive is removed once it has been extracted.
    pub delete_after: bool,
    /// The extensions whose files are overwritten where they exist.
    pub protected_extensions: Vec<String>,
}

/// The one extension that is protected unless the caller says otherwise:
/// dynamic libraries, so that a fresh binary always replaces a stale one.
pub open spec fn default_protected() -> Seq<Seq<char>> {
    seq!["dll"@]
}

impl Config {
    /// The settings of a run that protects dynamic libraries and nothing else.
    pub fn new(
        archive_url: String,
        archive_local_path: String,
        credential: Option<String>,
        delete_after: bool,
    ) -> (config: Config)
        ensures
            config.archive_url == archive_url,
            config.archive_local_path == archive_local_path,
            config.credential == credential,
            config.delete_after == delete_after,
            extensions_view(&config.protected_extensions) == default_protected(),
    {
        let mut protected_extensions: Vec<String> = Vec::new();
        protected_extensions.push("dll".to_owned());
        assert(extensions_view(&protected_extensions) =~= default_protected());
        Config { archive_url, archive_local_path, credential, delete_after, protected_extensions }
    }
}

} // verus!
