//! The `transpile` command: from its options to a checked configuration.
use vstd::prelude::*;
use vstd::string::*;
use crate::error::CliError;
use crate::remap::{remap_candidates_of, remap_selected, select_remap_file};
use crate::unit::{PathKind, TranspileUnit};

verus! {

/// The name of the command.
pub fn name() -> (r: &'static str)
    ensures
        r@ == "transpile"@,
{
    "transpile"
}

/// The options of one run, as given, with what the file system holds where
/// they point.
#[derive(Debug)]
pub struct TranspileArgs {
    /// Number the lines of the output.
    pub lines: bool,
    /// The output file or module directory.
    pub output: Option<String>,
    pub emit_manifest: bool,
    pub omit_manifest: bool,
    /// An explicit remap file, and what is at its path.
    pub remap_file: Option<String>,
    pub remap_file_kind: PathKind,
    /// Do not look for a remap file.
    pub no_remap: bool,
    /// For each path of `remap_candidates` of the target, whether a file is
    /// there.
    pub remap_present: Vec<bool>,
}

/// A checked configuration for one run.
#[derive(Debug)]
pub struct Config {
    pub transpile_unit: TranspileUnit,
    pub line_numbers: bool,
    /// The output file or module directory.
    pub output: Option<TranspileUnit>,
    pub create_manifest: bool,
    /// Overwrite an existing manifest.
    pub overwrite_manifest: bool,
    pub remap_file: Option<String>,
}

impl Config {
    /// The output is of the input's kind, and a manifest is only made for a
    /// module written into a directory.
    pub open spec fn wf(&self) -> bool {
        &&& match self.output {
            Some(TranspileUnit::File(_)) => self.transpile_unit is File,
            Some(TranspileUnit::Module(_)) => self.transpile_unit is Module,
            None => true,
        }
        &&& self.create_manifest ==> self.transpile_unit is Module && self.output is Some
    }
}

/// The manifest options fit the run: at most one of them is given, and
/// either is given only for a module written into a directory.
pub open spec fn manifest_flags_fit(target: TranspileUnit, args: TranspileArgs) -> bool {
    &&& !(args.emit_manifest && args.omit_manifest)
    &&& (args.emit_manifest || args.omit_manifest) ==> target is Module && args.output is Some
}

/// The configuration for a run on `target` with the options `args`. The
/// output takes the kind of the input; a manifest is made where asked for,
/// and always overwrites; the remap file is chosen as `select_remap_file`
/// does. Manifest options that do not fit the run are refused.
pub fn resolve_args(target: TranspileUnit, args: &TranspileArgs) -> (r: Result<Config, CliError>)
    requires
        args.remap_present@.len() == remap_candidates_of(target).len(),
    ensures
        !manifest_flags_fit(target, *args) ==> r matches Err(CliError::RedundantParameter(_)),
        manifest_flags_fit(target, *args) ==> match r {
            Ok(cfg) => {
                &&& remap_selected(
                    target,
                    args.remap_file,
                    args.remap_file_kind,
                    args.no_remap,
                    args.remap_present@,
                    Ok(cfg.remap_file),
                )
                &&& cfg.transpile_unit == target
                &&& cfg.line_numbers == args.lines
                &&& match args.output {
                    None => cfg.output is None,
                    Some(o) => match target {
                        TranspileUnit::File(_) => cfg.output matches Some(TranspileUnit::File(p)) && p@ == o@,
                        TranspileUnit::Module(_) => cfg.output matches Some(TranspileUnit::Module(p)) && p@ == o@,
                    },
                }
                &&& cfg.create_manifest == args.emit_manifest
                &&& cfg.overwrite_manifest
                &&& cfg.wf()
            },
            Err(e) => remap_selected(
                target,
                args.remap_file,
                args.remap_file_kind,
                args.no_remap,
                args.remap_present@,
                Err(e),
            ),
        },
{
    let output: Option<TranspileUnit> = match &args.output {
        Some(out_path) => match &target {
            TranspileUnit::File(_) => Some(TranspileUnit::File(out_path.clone())),
            TranspileUnit::Module(_) => Some(TranspileUnit::Module(out_path.clone())),
        },
        None => None,
    };
    if args.emit_manifest && args.omit_manifest {
        return Err(
            CliError::RedundantParameter(
                String::from_str("`emit-manifest` and `omit-manifest` exclude each other"),
            ),
        );
    }
    if args.emit_manifest || args.omit_manifest {
        let fits: bool = match (&target, &output) {
            (TranspileUnit::Module(_), Some(_)) => true,
            _ => false,
        };
        if !fits {
            return Err(
                CliError::RedundantParameter(
                    String::from_str(
                        "the manifest options only make sense when transpiling an input module into an output directory",
                    ),
                ),
            );
        }
    }
    let remap_file = select_remap_file(
        &target,
        &args.remap_file,
        args.remap_file_kind,
        args.no_remap,
        &args.remap_present,
    )?;
    Ok(Config {
        transpile_unit: target,
        line_numbers: args.lines,
        output,
        create_manifest: args.emit_manifest,
        overwrite_manifest: true,
        remap_file,
    })
}

} // verus!
