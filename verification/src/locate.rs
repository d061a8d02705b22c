//! Resolving the directory to extract into.
//!
//! The search itself is the caller's: it knows the package manager and its
//! files. What it found is judged here.

use vstd::prelude::*;
use crate::error::LocateError;

verus! {

/// What the search for the target application found.
#[derive(Debug, Clone, PartialEq, Eq)]
pub enum Lookup {
    /// The package manager's own directory is not there.
    NoRoot,
    /// The package manager does not hold the application.
    NoTarget,
    /// The application is installed; `parent` is the directory above its
    /// own, if there is one.
    Target { parent: Option<String> },
}

/// What a `Lookup` holds.
pub enum LookupView {
    NoRoot,
    NoTarget,
    Target { parent: Option<Seq<char>> },
}

impl View for Lookup {
    type V = LookupView;

    open spec fn view(&self) -> LookupView {
        match self {
            Lookup::NoRoot => LookupView::NoRoot,
            Lookup::NoTarget => LookupView::NoTarget,
            Lookup::Target { parent } => LookupView::Target {
                parent: match parent {
                    Some(p) => Some(p@),
                    None => None,
                },
            },
        }
    }
}

/// The directory to extract into: the one above the application's own.
pub open spec fn resolved(lookup: LookupView) -> Result<Seq<char>, LocateError> {
    match lookup {
        LookupView::NoRoot => Err(LocateError::RootNotFound),
        LookupView::NoTarget => Err(LocateError::TargetNotFound),
        LookupView::Target { parent: None } => Err(LocateError::NoParent),
        LookupView::Target { parent: Some(p) } => Ok(p),
    }
}

/// Judges what the search found.
pub fn resolve(lookup: Lookup) -> (target: Result<String, LocateError>)
    ensures
        match target {
            Ok(path) => resolved(lookup@) == Ok::<Seq<char>, LocateError>(path@),
            Err(error) => resolved(lookup@) == Err::<Seq<char>, LocateError>(error),
        },
{
    match lookup {
        Lookup::NoRoot => Err(LocateError::RootNotFound),
        Lookup::NoTarget => Err(LocateError::TargetNotFound),
        Lookup::Target { parent } => match parent {
            None => Err(LocateError::NoParent),
            Some(p) => Ok(p),
        },
    }
}

} // verus!
