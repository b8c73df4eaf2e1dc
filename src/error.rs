//! Errors of the transpilation pipeline.
use vstd::prelude::*;
use crate::remap::TomlItem;

verus! {

/// An error that ends a run. Each carries the offending path or value.
#[derive(Debug, PartialEq)]
pub enum CliError {
    /// No file or directory at the given path.
    FileOrDirectoryNotFound(String),
    /// A file was expected, the path names a directory.
    PathIsDirectory(String),
    /// A directory was expected, the path names a file.
    PathIsFile(String),
    /// A combination of options that does not make sense.
    RedundantParameter(String),
    /// A path that should lie below a root does not: the path and the root.
    PathNotUnderRoot(String, String),
    /// A configuration that is not valid TOML: the parser's message.
    TomlError(String),
    /// A configuration value of the wrong shape: the value, and the shape that
    /// was expected there (such as "table").
    TomlContentError(TomlItem, String),
    /// The package manifest could not be made: the reason.
    ManifestError(String),
}

} // verus!
