//! Classification of an input path into a file or a module target.
use vstd::prelude::*;
use vstd::string::*;
use crate::error::CliError;

verus! {

/// What the file system holds at a path.
#[derive(Debug, Clone, Copy, PartialEq, Eq, Structural)]
pub enum PathKind {
    /// Nothing.
    Missing,
    /// A regular file.
    File,
    /// A directory.
    Directory,
}

/// Something that can be the input or the output of a transpilation: a single
/// file, or a module directory.
#[derive(Debug, Clone)]
pub enum TranspileUnit {
    File(String),
    Module(String),
}

impl TranspileUnit {
    /// The path of the unit.
    pub open spec fn spec_path(&self) -> Seq<char> {
        match self {
            TranspileUnit::File(p) => p@,
            TranspileUnit::Module(p) => p@,
        }
    }

    pub fn path(&self) -> (r: &String)
        ensures
            r@ == self.spec_path(),
    {
        match self {
            TranspileUnit::File(path) => path,
            TranspileUnit::Module(path) => path,
        }
    }

    pub fn is_dir(&self) -> (r: bool)
        ensures
            r == (self is Module),
    {
        match self {
            TranspileUnit::File(_) => false,
            TranspileUnit::Module(_) => true,
        }
    }
}

/// `e` is the error for a path `p` that does not exist.
pub open spec fn is_not_found(e: CliError, p: Seq<char>) -> bool {
    e matches CliError::FileOrDirectoryNotFound(q) && q@ == p
}

/// Maps the input to an existing path; `kind` is what the file system holds
/// there.
pub fn to_path(input: &str, kind: PathKind) -> (r: Result<String, CliError>)
    ensures
        kind == PathKind::Missing ==> (r matches Err(e) && is_not_found(e, input@)),
        kind != PathKind::Missing ==> (r matches Ok(p) && p@ == input@),
{
    if kind == PathKind::Missing {
        return Err(CliError::FileOrDirectoryNotFound(String::from_str(input)));
    }
    Ok(String::from_str(input))
}

/// The transpile target for an input path: directories become modules and
/// files become file targets.
pub fn generate_target(input: &str, kind: PathKind) -> (r: Result<TranspileUnit, CliError>)
    ensures
        kind == PathKind::Missing ==> (r matches Err(e) && is_not_found(e, input@)),
        kind == PathKind::File ==> (r matches Ok(TranspileUnit::File(p)) && p@ == input@),
        kind == PathKind::Directory ==> (r matches Ok(TranspileUnit::Module(p)) && p@ == input@),
{
    let path = to_path(input, kind)?;
    if kind == PathKind::Directory {
        Ok(TranspileUnit::Module(path))
    } else {
        Ok(TranspileUnit::File(path))
    }
}

/// Maps the input to an existing directory.
pub fn to_dir_path_buf(input: &str, kind: PathKind) -> (r: Result<String, CliError>)
    ensures
        kind == PathKind::Missing ==> (r matches Err(e) && is_not_found(e, input@)),
        kind == PathKind::File ==> (r matches Err(CliError::PathIsFile(p)) && p@ == input@),
        kind == PathKind::Directory ==> (r matches Ok(p) && p@ == input@),
{
    let path = to_path(input, kind)?;
    if kind == PathKind::Directory {
        Ok(path)
    } else {
        Err(CliError::PathIsFile(String::from_str(input)))
    }
}

/// Maps the input to an existing file.
pub fn to_file_path_buf(input: &str, kind: PathKind) -> (r: Result<String, CliError>)
    ensures
        kind == PathKind::Missing ==> (r matches Err(e) && is_not_found(e, input@)),
        kind == PathKind::Directory ==> (r matches Err(CliError::PathIsDirectory(p)) && p@ == input@),
        kind == PathKind::File ==> (r matches Ok(p) && p@ == input@),
{
    let path = to_path(input, kind)?;
    if kind == PathKind::File {
        Ok(path)
    } else {
        Err(CliError::PathIsDirectory(String::from_str(input)))
    }
}

} // verus!
