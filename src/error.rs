//! The library's error kinds.
use vstd::prelude::*;

verus! {

/// What can go wrong between reading a script and writing its build file.
#[derive(Debug, Clone, PartialEq, Eq)]
pub enum Error {
    /// A filesystem failure; `not_found` marks a missing file.
    Io { not_found: bool, message: String },
    /// The interpreter failed, with its own location and message.
    Lua(String),
    /// A transport failure while fetching a remote module.
    Http(String),
    /// Every searcher failed for the module; one diagnostic per searcher.
    ModuleNotFound { name: String, diagnostics: Vec<String> },
    /// A statement of unknown tag or malformed fields; holds the tag.
    Schema(String),
}

} // verus!
