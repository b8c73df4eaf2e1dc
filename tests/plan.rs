use serpent_cli::error::CliError;
use serpent_cli::plan::{output_file, plan_file, plan_module, prepare_content, Action, FileKind, TranspiledFile};
use serpent_cli::remap::parse_remap_config;
use serpent_cli::tp::{resolve_args, Config, TranspileArgs};
use serpent_cli::unit::{PathKind, TranspileUnit};

fn args() -> TranspileArgs {
    TranspileArgs {
        lines: false,
        output: None,
        emit_manifest: false,
        omit_manifest: false,
        remap_file: None,
        remap_file_kind: PathKind::Missing,
        no_remap: false,
        remap_present: Vec::new(),
    }
}

fn module_config(output: Option<&str>, manifest: bool) -> Config {
    Config {
        transpile_unit: TranspileUnit::Module("in/pkg".to_string()),
        line_numbers: false,
        output: output.map(|o| TranspileUnit::Module(o.to_string())),
        create_manifest: manifest,
        overwrite_manifest: true,
        remap_file: None,
    }
}

fn file(path: &str, content: &str, kind: FileKind) -> TranspiledFile {
    TranspiledFile { source_path: path.to_string(), content: content.to_string(), kind }
}

fn written_paths(acts: &[Action]) -> Vec<String> {
    acts.iter()
        .filter_map(|a| match a {
            Action::WriteFile { path, .. } => Some(path.clone()),
            _ => None,
        })
        .collect()
}

#[test]
fn file_without_output_is_shown() {
    let mut a = args();
    a.remap_present = vec![false];
    let cfg = resolve_args(TranspileUnit::File("a.py".to_string()), &a).unwrap();
    let acts = plan_file(&cfg, "fn main() {}");
    assert_eq!(
        acts,
        vec![Action::Show { source: "a.py".to_string(), content: "fn main() {}".to_string() }]
    );
}

#[test]
fn file_with_output_is_written_with_numbers() {
    let mut a = args();
    a.remap_present = vec![false];
    a.output = Some("a.rs".to_string());
    a.lines = true;
    let cfg = resolve_args(TranspileUnit::File("a.py".to_string()), &a).unwrap();
    let acts = plan_file(&cfg, "x\ny");
    assert_eq!(acts, vec![Action::WriteFile { path: "a.rs".to_string(), content: "1 x\n2 y".to_string() }]);
}

#[test]
fn library_entry_takes_canonical_name() {
    let cfg = module_config(Some("out"), false);
    let files = vec![
        file("in/pkg/__init__.py", "pub fn f() {}", FileKind::LibraryEntry),
        file("in/pkg/util.py", "pub fn g() {}", FileKind::Plain),
    ];
    let acts = plan_module(&cfg, &files, false, &Vec::new()).unwrap();
    assert_eq!(acts[0], Action::CreateDir("out".to_string()));
    assert_eq!(acts[1], Action::CreateDir("out/src".to_string()));
    let paths = written_paths(&acts);
    assert_eq!(paths, vec!["out/src/lib.rs".to_string(), "out/src/util.rs".to_string()]);
    assert!(!paths.contains(&"out/src/__init__.rs".to_string()));
    assert_eq!(acts.len(), 4);
}

#[test]
fn binary_entry_takes_canonical_name() {
    assert_eq!(output_file("in/pkg/sub/app.py", "in/pkg", "out", FileKind::BinaryEntry).unwrap(), "out/src/sub/main.rs");
    assert_eq!(output_file("in/pkg/app.py", "in/pkg", "out", FileKind::Plain).unwrap(), "out/src/app.rs");
}

#[test]
fn module_without_output_is_shown() {
    let cfg = module_config(None, false);
    let files = vec![file("in/pkg/a.py", "A", FileKind::Plain), file("in/pkg/b.py", "B", FileKind::BinaryEntry)];
    let acts = plan_module(&cfg, &files, false, &Vec::new()).unwrap();
    assert_eq!(
        acts,
        vec![
            Action::Show { source: "in/pkg/a.py".to_string(), content: "A".to_string() },
            Action::Show { source: "in/pkg/b.py".to_string(), content: "B".to_string() },
        ]
    );
}

#[test]
fn module_file_outside_the_input_is_refused() {
    let cfg = module_config(Some("out"), false);
    let files = vec![file("elsewhere/a.py", "A", FileKind::Plain)];
    assert!(matches!(plan_module(&cfg, &files, false, &Vec::new()), Err(CliError::PathNotUnderRoot(_, _))));
}

#[test]
fn manifest_lists_dependencies_from_remap_file() {
    let remap = parse_remap_config("[dependencies]\nfoo = \"1.0\"\n").unwrap();
    let cfg = module_config(Some("out/proj"), true);
    let files = vec![
        file("in/pkg/main.py", "fn main() {}", FileKind::BinaryEntry),
        file("in/pkg/lib.py", "pub fn f() {}", FileKind::LibraryEntry),
    ];
    let acts = plan_module(&cfg, &files, false, &remap.dependencies).unwrap();
    assert_eq!(acts.len(), 5);
    match &acts[4] {
        Action::WriteFile { path, content } => {
            assert_eq!(path, "out/proj/Cargo.toml");
            let lines: Vec<&str> = content.lines().collect();
            let start = lines.iter().position(|l| *l == "[dependencies]").unwrap();
            let table: Vec<&str> = lines[start + 1..]
                .iter()
                .take_while(|l| !l.starts_with('['))
                .filter(|l| !l.is_empty())
                .cloned()
                .collect();
            assert_eq!(table, vec!["foo = \"1.0\""]);
            assert!(content.contains("[[bin]]"));
            assert!(content.contains("[lib]"));
        }
        other => panic!("unexpected {:?}", other),
    }
}

#[test]
fn existing_manifest_is_replaced() {
    let cfg = module_config(Some("out/proj"), true);
    let files = vec![file("in/pkg/a.py", "A", FileKind::Plain)];
    let acts = plan_module(&cfg, &files, true, &Vec::new()).unwrap();
    assert_eq!(acts.len(), 5);
    assert_eq!(acts[3], Action::RemoveFile("out/proj/Cargo.toml".to_string()));
}

#[test]
fn omit_manifest_with_file_input_is_refused() {
    let mut a = args();
    a.remap_present = vec![false];
    a.omit_manifest = true;
    a.output = Some("out.rs".to_string());
    assert!(matches!(
        resolve_args(TranspileUnit::File("a.py".to_string()), &a),
        Err(CliError::RedundantParameter(_))
    ));
}

#[test]
fn emit_manifest_needs_a_directory_output() {
    let mut a = args();
    a.remap_present = vec![false, false];
    a.emit_manifest = true;
    assert!(matches!(
        resolve_args(TranspileUnit::Module("pkg".to_string()), &a),
        Err(CliError::RedundantParameter(_))
    ));
    a.output = Some("out".to_string());
    let cfg = resolve_args(TranspileUnit::Module("pkg".to_string()), &a).unwrap();
    assert!(cfg.create_manifest);
    assert!(cfg.overwrite_manifest);
    assert!(matches!(cfg.output, Some(TranspileUnit::Module(p)) if p == "out"));
}

#[test]
fn both_manifest_flags_are_refused() {
    let mut a = args();
    a.remap_present = vec![false, false];
    a.emit_manifest = true;
    a.omit_manifest = true;
    a.output = Some("out".to_string());
    assert!(matches!(
        resolve_args(TranspileUnit::Module("pkg".to_string()), &a),
        Err(CliError::RedundantParameter(_))
    ));
}

#[test]
fn resolve_picks_detected_remap_file() {
    let mut a = args();
    a.remap_present = vec![false, true];
    let cfg = resolve_args(TranspileUnit::Module("w/pkg".to_string()), &a).unwrap();
    assert_eq!(cfg.remap_file, Some("w/Remap.toml".to_string()));
    assert!(!cfg.create_manifest);
}

#[test]
fn prepare_content_numbers_lines_on_request() {
    assert_eq!(prepare_content("a\nb", true), "1 a\n2 b");
    assert_eq!(prepare_content("a\nb", false), "a\nb");
}
