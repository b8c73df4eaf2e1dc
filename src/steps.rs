//! The `steps` command: which trace of a transpilation to show.
use vstd::prelude::*;
use vstd::string::*;
use crate::error::CliError;
use crate::text::{string_of, push_str};
use crate::unit::{PathKind, TranspileUnit, to_file_path_buf};

verus! {

/// The name of the command.
pub fn name() -> (r: &'static str)
    ensures
        r@ == "steps"@,
{
    "steps"
}

/// A checked configuration for the `steps` command.
#[derive(Debug)]
pub struct StepsConfig {
    pub transpile_target: TranspileUnit,
    /// The file whose steps are shown: the explicit one, else the input file.
    pub target_file: Option<String>,
    pub line: Option<usize>,
    /// Show only the top-level nodes.
    pub top_only: bool,
}

impl StepsConfig {
    /// A line is known unless only the top-level nodes are shown, and a line
    /// comes with a file.
    pub open spec fn wf(&self) -> bool {
        &&& !self.top_only ==> self.line is Some
        &&& self.line is Some ==> self.target_file is Some
    }
}

/// The configuration for `steps` on `target`: `file` (with what is at its
/// path) narrows the trace to one file, `line` to one line of it, `top` to the
/// top-level nodes. A line is required unless `top` is given, and needs a
/// file: the explicit one, or the input where it is a file.
pub fn resolve_args(
    target: TranspileUnit,
    file: Option<String>,
    file_kind: PathKind,
    top: bool,
    line: Option<usize>,
) -> (r: Result<StepsConfig, CliError>)
    ensures
        file is Some && file_kind == PathKind::Missing ==> (r matches Err(
            CliError::FileOrDirectoryNotFound(p),
        ) && p@ == file->0@),
        file is Some && file_kind == PathKind::Directory ==> (r matches Err(
            CliError::PathIsDirectory(p),
        ) && p@ == file->0@),
        (file is None || file_kind == PathKind::File) ==> {
            let found = file is Some || target is File;
            match r {
                Ok(cfg) => {
                    &&& (top || line is Some)
                    &&& (line is Some ==> found)
                    &&& cfg.transpile_target == target
                    &&& cfg.line == line
                    &&& cfg.top_only == top
                    &&& match file {
                        Some(f) => cfg.target_file matches Some(p) && p@ == f@,
                        None => match target {
                            TranspileUnit::File(t) => cfg.target_file matches Some(p) && p@ == t@,
                            TranspileUnit::Module(_) => cfg.target_file is None,
                        },
                    }
                    &&& cfg.wf()
                },
                Err(e) => e is RedundantParameter && (!(top || line is Some) || (line is Some && !found)),
            }
        },
{
    let explicit_target_file = match &file {
        Some(f) => Some(to_file_path_buf(f.as_str(), file_kind)?),
        None => None,
    };
    if !top && line.is_none() {
        return Err(CliError::RedundantParameter(String::from_str("`line` is required unless `top` is given")));
    }
    let target_file = match explicit_target_file {
        Some(p) => Some(p),
        None => match &target {
            TranspileUnit::File(p) => Some(p.clone()),
            TranspileUnit::Module(_) => None,
        },
    };
    if line.is_some() && target_file.is_none() {
        return Err(
            CliError::RedundantParameter(String::from_str("`line` cannot be used without a specific target file")),
        );
    }
    Ok(StepsConfig { transpile_target: target, target_file, line, top_only: top })
}

/// The heading of each stage of a trace, in order.
pub open spec fn stage_label(i: int) -> Seq<char> {
    if i == 0 {
        "Python source"@
    } else if i == 1 {
        "Python AST"@
    } else if i == 2 {
        "Rust AST"@
    } else {
        "Rust source"@
    }
}

/// The report of one stage: its heading, a colon and a newline, its text and
/// a newline.
pub open spec fn stage_message(i: int, text: Seq<char>) -> Seq<char> {
    stage_label(i) + ":\n"@ + text + "\n"@
}

/// The reports of the four stages of a trace: the source, its syntax tree, the
/// target syntax tree and the target source.
pub fn trace_messages(trace: &Vec<String>) -> (r: Vec<String>)
    requires
        trace@.len() >= 4,
    ensures
        r@.len() == 4,
        forall|i: int| 0 <= i < 4 ==> #[trigger] r@[i]@ == stage_message(i, trace@[i]@),
{
    let mut r: Vec<String> = Vec::new();
    let mut i: usize = 0;
    while i < 4
        invariant
            i <= 4,
            trace@.len() >= 4,
            r@.len() == i,
            forall|j: int| 0 <= j < i ==> #[trigger] r@[j]@ == stage_message(j, trace@[j]@),
        decreases 4 - i,
    {
        let label = if i == 0 {
            "Python source"
        } else if i == 1 {
            "Python AST"
        } else if i == 2 {
            "Rust AST"
        } else {
            "Rust source"
        };
        let mut m: Vec<char> = Vec::new();
        push_str(&mut m, label);
        push_str(&mut m, ":\n");
        push_str(&mut m, trace[i].as_str());
        push_str(&mut m, "\n");
        assert(m@ =~= stage_message(i as int, trace@[i as int]@));
        r.push(string_of(&m));
        i = i + 1;
    }
    r
}

} // verus!
