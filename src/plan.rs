//! The output of a run as a list of file-system actions, and the plans for a
//! transpiled file and a transpiled module.
use vstd::prelude::*;
use vstd::string::*;
use crate::error::CliError;
use crate::lines::{add_line_nbs, numbered};
use crate::manifest::{create_manifest, manifest_inputs_ok, manifest_outcome, opt_view};
use crate::paths::{is_under, join, last_index_of, lemma_last_index_of, join_path, set_file_name, translate, translated, with_file_name};
use crate::tp::Config;

verus! {

/// One step of materializing output.
#[derive(Debug, PartialEq)]
pub enum Action {
    /// Report the content generated for `source` instead of writing it.
    Show { source: String, content: String },
    /// Create a directory where none exists; an existing one is kept.
    CreateDir(String),
    /// Create or truncate a file and write `content` into it.
    WriteFile { path: String, content: String },
    /// Delete a file.
    RemoveFile(String),
}

/// `a` writes `c` into the file `p`.
pub open spec fn is_write(a: Action, p: Seq<char>, c: Seq<char>) -> bool {
    a matches Action::WriteFile { path, content } && path@ == p && content@ == c
}

/// `a` deletes the file `p`.
pub open spec fn is_remove(a: Action, p: Seq<char>) -> bool {
    a matches Action::RemoveFile(path) && path@ == p
}

/// `a` creates the directory `p` if it is missing.
pub open spec fn is_create_dir(a: Action, p: Seq<char>) -> bool {
    a matches Action::CreateDir(path) && path@ == p
}

/// `a` reports `c` as the content generated for `s`.
pub open spec fn is_show(a: Action, s: Seq<char>, c: Seq<char>) -> bool {
    a matches Action::Show { source, content } && source@ == s && content@ == c
}

/// The files after one action, the file system seen as a map from paths to
/// contents (directories are not modelled).
pub open spec fn apply_action(fs: Map<Seq<char>, Seq<char>>, a: Action) -> Map<Seq<char>, Seq<char>> {
    match a {
        Action::WriteFile { path, content } => fs.insert(path@, content@),
        Action::RemoveFile(path) => fs.remove(path@),
        _ => fs,
    }
}

/// The files after the actions `acts`, in order.
pub open spec fn apply_actions(fs: Map<Seq<char>, Seq<char>>, acts: Seq<Action>) -> Map<Seq<char>, Seq<char>>
    decreases acts.len(),
{
    if acts.len() == 0 {
        fs
    } else {
        apply_action(apply_actions(fs, acts.drop_last()), acts.last())
    }
}

/// The role of a transpiled file in its module.
#[derive(Debug, Clone, Copy, PartialEq, Eq, Structural)]
pub enum FileKind {
    /// The library entry point.
    LibraryEntry,
    /// The binary entry point.
    BinaryEntry,
    /// Any other module file.
    Plain,
}

/// One file as the transpiler hands it over.
#[derive(Debug)]
pub struct TranspiledFile {
    pub source_path: String,
    pub content: String,
    pub kind: FileKind,
}

/// The content to write: numbered when line numbers are asked for.
pub open spec fn prepared(content: Seq<char>, lines: bool) -> Seq<char> {
    if lines {
        numbered(content)
    } else {
        content
    }
}

/// The output path of a file of the module at `from`, written into the module
/// at `to`: entry files take the canonical entry names, other files keep
/// their translated names.
pub open spec fn output_file_path(src: Seq<char>, from: Seq<char>, to: Seq<char>, kind: FileKind) -> Seq<char> {
    match kind {
        FileKind::LibraryEntry => with_file_name(translated(src, from, to), "lib.rs"@),
        FileKind::BinaryEntry => with_file_name(translated(src, from, to), "main.rs"@),
        FileKind::Plain => translated(src, from, to),
    }
}

/// Some file of `files` has the role `kind`.
pub open spec fn has_kind(files: Seq<TranspiledFile>, kind: FileKind) -> bool {
    exists|k: int| 0 <= k < files.len() && (#[trigger] files[k]).kind == kind
}

/// Every file of `files` lies below `root`.
pub open spec fn all_under(files: Seq<TranspiledFile>, root: Seq<char>) -> bool {
    forall|k: int| 0 <= k < files.len() ==> is_under((#[trigger] files[k]).source_path@, root)
}

/// The declared target for a role: its path where a file has that role.
pub open spec fn entry_target(files: Seq<TranspiledFile>, kind: FileKind, path: Seq<char>) -> Option<Seq<char>> {
    if has_kind(files, kind) {
        Some(path)
    } else {
        None
    }
}

/// An entry file keeps the directory of its translated path and takes the
/// canonical entry name; so it keeps its translated name only where that
/// already is the canonical one.
pub proof fn lemma_entry_renamed(src: Seq<char>, from: Seq<char>, to: Seq<char>, kind: FileKind, name: Seq<char>)
    requires
        kind == FileKind::LibraryEntry ==> name == "lib.rs"@,
        kind == FileKind::BinaryEntry ==> name == "main.rs"@,
        kind != FileKind::Plain,
    ensures
        ({
            let t = translated(src, from, to);
            let k = last_index_of(t, '/') + 1;
            let o = output_file_path(src, from, to, kind);
            &&& o.subrange(0, k) == t.subrange(0, k)
            &&& o.subrange(k, o.len() as int) == name
            &&& (o == t ==> t.subrange(k, t.len() as int) == name)
        }),
{
    let t = translated(src, from, to);
    lemma_last_index_of(t, '/');
    let k = last_index_of(t, '/') + 1;
    let o = output_file_path(src, from, to, kind);
    assert(o == t.subrange(0, k) + name);
    assert(o.subrange(0, k) =~= t.subrange(0, k));
    assert(o.subrange(k, o.len() as int) =~= name);
}

/// The content to write for `content`.
pub fn prepare_content(content: &str, lines: bool) -> (r: String)
    ensures
        r@ == prepared(content@, lines),
{
    if lines {
        add_line_nbs(content)
    } else {
        String::from_str(content)
    }
}

/// The output path of the file `source_path` of the module at `from`, in the
/// module at `to`, named after its role.
pub fn output_file(source_path: &str, from: &str, to: &str, kind: FileKind) -> (r: Result<String, CliError>)
    ensures
        is_under(source_path@, from@) ==> (r matches Ok(p) && p@ == output_file_path(source_path@, from@, to@, kind)),
        !is_under(source_path@, from@) ==> r matches Err(CliError::PathNotUnderRoot(_, _)),
{
    let translated = translate(source_path, from, to)?;
    match kind {
        FileKind::LibraryEntry => Ok(set_file_name(translated.as_str(), "lib.rs")),
        FileKind::BinaryEntry => Ok(set_file_name(translated.as_str(), "main.rs")),
        FileKind::Plain => Ok(translated),
    }
}

/// The actions for a transpiled file target: write the content into the
/// output file, or show it where no output is given.
pub fn plan_file(cfg: &Config, content: &str) -> (r: Vec<Action>)
    requires
        cfg.wf(),
        cfg.transpile_unit is File,
    ensures
        r@.len() == 1,
        match cfg.output {
            Some(out) => is_write(r@[0], out.spec_path(), prepared(content@, cfg.line_numbers)),
            None => is_show(r@[0], cfg.transpile_unit.spec_path(), prepared(content@, cfg.line_numbers)),
        },
{
    let text = prepare_content(content, cfg.line_numbers);
    let mut r: Vec<Action> = Vec::new();
    match &cfg.output {
        Some(out) => r.push(Action::WriteFile { path: out.path().clone(), content: text }),
        None => r.push(Action::Show { source: cfg.transpile_unit.path().clone(), content: text }),
    }
    r
}

/// What `plan_module` returns for the module output into `out`, with the
/// manifest part left to `manifest_outcome`.
pub open spec fn module_writes(
    acts: Seq<Action>,
    files: Seq<TranspiledFile>,
    from: Seq<char>,
    out: Seq<char>,
    lines: bool,
) -> bool {
    &&& acts.len() >= 2 + files.len()
    &&& is_create_dir(acts[0], out)
    &&& is_create_dir(acts[1], join(out, "src"@))
    &&& forall|k: int|
        0 <= k < files.len() ==> is_write(
            #[trigger] acts[2 + k],
            output_file_path(files[k].source_path@, from, out, files[k].kind),
            prepared(files[k].content@, lines),
        )
}

/// The actions for a transpiled module target. Without an output, each file
/// is shown. With an output directory: create it and its source
/// subdirectory, write each file at its translated, role-named path, then, if
/// asked for, the manifest, which declares a binary target where a file is
/// the binary entry and a library target where one is the library entry.
/// `manifest_exists` tells whether the output directory holds a manifest.
pub fn plan_module(
    cfg: &Config,
    files: &Vec<TranspiledFile>,
    manifest_exists: bool,
    deps: &Vec<(String, String)>,
) -> (r: Result<Vec<Action>, CliError>)
    requires
        cfg.wf(),
        cfg.transpile_unit is Module,
    ensures
        cfg.output is None ==> (r matches Ok(acts) && acts@.len() == files@.len() && forall|k: int|
            0 <= k < files@.len() ==> is_show(
                #[trigger] acts@[k],
                files@[k].source_path@,
                prepared(files@[k].content@, cfg.line_numbers),
            )),
        cfg.output is Some && !all_under(files@, cfg.transpile_unit.spec_path()) ==> r matches Err(
            CliError::PathNotUnderRoot(_, _),
        ),
        cfg.output is Some && all_under(files@, cfg.transpile_unit.spec_path()) && !cfg.create_manifest
            ==> (r matches Ok(acts) && acts@.len() == 2 + files@.len() && module_writes(
            acts@,
            files@,
            cfg.transpile_unit.spec_path(),
            cfg.output->0.spec_path(),
            cfg.line_numbers,
        )),
        cfg.output is Some && all_under(files@, cfg.transpile_unit.spec_path()) && cfg.create_manifest
            ==> {
            &&& r matches Ok(acts) ==> module_writes(
                acts@,
                files@,
                cfg.transpile_unit.spec_path(),
                cfg.output->0.spec_path(),
                cfg.line_numbers,
            )
            &&& manifest_inputs_ok(
                cfg.output->0.spec_path(),
                deps@,
                entry_target(files@, FileKind::BinaryEntry, "src/main.rs"@),
                entry_target(files@, FileKind::LibraryEntry, "src/lib.rs"@),
            ) ==> r is Ok
            &&& manifest_outcome(
                cfg.output->0.spec_path(),
                manifest_exists,
                cfg.overwrite_manifest,
                deps@,
                entry_target(files@, FileKind::BinaryEntry, "src/main.rs"@),
                entry_target(files@, FileKind::LibraryEntry, "src/lib.rs"@),
                match r {
                    Ok(acts) => Ok(acts@.subrange(2 + files@.len() as int, acts@.len() as int)),
                    Err(e) => Err(e),
                },
            )
        },
{
    let from = cfg.transpile_unit.path();
    let mut acts: Vec<Action> = Vec::new();
    let out = match &cfg.output {
        None => {
            let mut k: usize = 0;
            while k < files.len()
                invariant
                    k <= files@.len(),
                    acts@.len() == k,
                    forall|j: int|
                        0 <= j < k ==> is_show(
                            #[trigger] acts@[j],
                            files@[j].source_path@,
                            prepared(files@[j].content@, cfg.line_numbers),
                        ),
                decreases files@.len() - k,
            {
                let text = prepare_content(files[k].content.as_str(), cfg.line_numbers);
                acts.push(Action::Show { source: files[k].source_path.clone(), content: text });
                k = k + 1;
            }
            return Ok(acts);
        },
        Some(out) => out.path(),
    };
    acts.push(Action::CreateDir(out.clone()));
    acts.push(Action::CreateDir(join_path(out.as_str(), "src")));
    let mut has_bin: bool = false;
    let mut has_lib: bool = false;
    let mut k: usize = 0;
    while k < files.len()
        invariant
            k <= files@.len(),
            cfg.output is Some,
            from@ == cfg.transpile_unit.spec_path(),
            out@ == cfg.output->0.spec_path(),
            acts@.len() == 2 + k,
            is_create_dir(acts@[0], out@),
            is_create_dir(acts@[1], join(out@, "src"@)),
            forall|j: int| 0 <= j < k ==> is_under((#[trigger] files@[j]).source_path@, from@),
            forall|j: int|
                0 <= j < k ==> is_write(
                    #[trigger] acts@[2 + j],
                    output_file_path(files@[j].source_path@, from@, out@, files@[j].kind),
                    prepared(files@[j].content@, cfg.line_numbers),
                ),
            has_bin == has_kind(files@.subrange(0, k as int), FileKind::BinaryEntry),
            has_lib == has_kind(files@.subrange(0, k as int), FileKind::LibraryEntry),
        decreases files@.len() - k,
    {
        let path = match output_file(files[k].source_path.as_str(), from.as_str(), out.as_str(), files[k].kind) {
            Ok(p) => p,
            Err(e) => {
                assert(!all_under(files@, from@));
                return Err(e);
            },
        };
        let text = prepare_content(files[k].content.as_str(), cfg.line_numbers);
        acts.push(Action::WriteFile { path, content: text });
        proof {
            let before = files@.subrange(0, k as int);
            let after = files@.subrange(0, k + 1);
            assert(after[k as int] == files@[k as int]);
            assert forall|kind: FileKind| has_kind(after, kind) == (has_kind(before, kind) || files@[k as int].kind == kind) by {
                if has_kind(before, kind) {
                    let j = choose|j: int| 0 <= j < before.len() && (#[trigger] before[j]).kind == kind;
                    assert(after[j] == before[j]);
                }
                if has_kind(after, kind) && files@[k as int].kind != kind {
                    let j = choose|j: int| 0 <= j < after.len() && (#[trigger] after[j]).kind == kind;
                    assert(before[j] == after[j]);
                }
            }
        }
        if files[k].kind == FileKind::BinaryEntry {
            has_bin = true;
        }
        if files[k].kind == FileKind::LibraryEntry {
            has_lib = true;
        }
        k = k + 1;
    }
    assert(files@.subrange(0, files@.len() as int) =~= files@);
    if cfg.create_manifest {
        let bin: Option<String> = if has_bin { Some(String::from_str("src/main.rs")) } else { None };
        let lib: Option<String> = if has_lib { Some(String::from_str("src/lib.rs")) } else { None };
        let manifest = create_manifest(out.as_str(), manifest_exists, cfg.overwrite_manifest, deps, &bin, &lib)?;
        let ghost base = acts@;
        let mut manifest = manifest;
        let ghost mseq = manifest@;
        assert(opt_view(bin) == entry_target(files@, FileKind::BinaryEntry, "src/main.rs"@));
        assert(opt_view(lib) == entry_target(files@, FileKind::LibraryEntry, "src/lib.rs"@));
        acts.append(&mut manifest);
        assert(acts@.subrange(2 + files@.len() as int, acts@.len() as int) =~= mseq);
        assert(forall|j: int| 0 <= j < base.len() ==> acts@[j] == base[j]);
    }
    Ok(acts)
}

} // verus!
