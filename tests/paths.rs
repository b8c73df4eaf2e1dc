use serpent_cli::error::CliError;
use serpent_cli::paths::{join_path, parent, set_file_name, translate};
use serpent_cli::unit::{generate_target, to_dir_path_buf, to_file_path_buf, to_path, PathKind, TranspileUnit};

#[test]
fn translate_swaps_extension_and_reroots() {
    let r = translate("in/pkg/mod.py", "in", "out").unwrap();
    assert_eq!(r, "out/src/pkg/mod.rs");
}

#[test]
fn translate_accepts_roots_with_trailing_separator() {
    assert_eq!(translate("in/a.py", "in/", "out/").unwrap(), "out/src/a.rs");
}

#[test]
fn translate_appends_extension_where_there_is_none() {
    assert_eq!(translate("in/Makefile", "in", "out").unwrap(), "out/src/Makefile.rs");
    assert_eq!(translate("in/.hidden", "in", "out").unwrap(), "out/src/.hidden.rs");
    assert_eq!(translate("in/a.b/c", "in", "out").unwrap(), "out/src/a.b/c.rs");
}

#[test]
fn translate_replaces_only_the_last_extension() {
    assert_eq!(translate("in/x.tar.py", "in", "out").unwrap(), "out/src/x.tar.rs");
}

#[test]
fn translate_result_starts_with_root_and_ends_with_extension() {
    for p in ["m/a.py", "m/b/c.py", "m/b/c/d.py", "m/x.y.py"] {
        let r = translate(p, "m", "target/dir").unwrap();
        assert!(r.starts_with("target/dir"));
        assert!(r.ends_with(".rs"));
    }
}

#[test]
fn translate_keeps_distinct_sources_apart() {
    let inputs = ["m/a.py", "m/b.py", "m/a/b.py", "m/ab.py", "m/a.b.py"];
    let outs: Vec<String> = inputs.iter().map(|p| translate(p, "m", "o").unwrap()).collect();
    for i in 0..outs.len() {
        for j in 0..outs.len() {
            if i != j {
                assert_ne!(outs[i], outs[j]);
            }
        }
    }
}

#[test]
fn translate_refuses_a_path_outside_the_root() {
    match translate("other/a.py", "in", "out") {
        Err(CliError::PathNotUnderRoot(p, r)) => {
            assert_eq!(p, "other/a.py");
            assert_eq!(r, "in");
        }
        other => panic!("unexpected {:?}", other),
    }
    assert!(matches!(translate("input/a.py", "in", "out"), Err(CliError::PathNotUnderRoot(_, _))));
    assert!(matches!(translate("in", "in", "out"), Err(CliError::PathNotUnderRoot(_, _))));
}

#[test]
fn set_file_name_replaces_last_component() {
    assert_eq!(set_file_name("out/src/pkg/init.rs", "lib.rs"), "out/src/pkg/lib.rs");
    assert_eq!(set_file_name("x.rs", "main.rs"), "main.rs");
}

#[test]
fn join_and_parent() {
    assert_eq!(join_path("a", "b"), "a/b");
    assert_eq!(join_path("a/", "b"), "a/b");
    assert_eq!(join_path("", "b"), "b");
    assert_eq!(parent("a/b/c.py"), "a/b");
    assert_eq!(parent("c.py"), "");
    assert_eq!(parent("a/b/"), "a");
}

#[test]
fn classify_paths() {
    assert!(matches!(generate_target("m", PathKind::Directory), Ok(TranspileUnit::Module(p)) if p == "m"));
    assert!(matches!(generate_target("f.py", PathKind::File), Ok(TranspileUnit::File(p)) if p == "f.py"));
    assert!(matches!(generate_target("nope", PathKind::Missing), Err(CliError::FileOrDirectoryNotFound(p)) if p == "nope"));
    assert!(matches!(to_dir_path_buf("f.py", PathKind::File), Err(CliError::PathIsFile(p)) if p == "f.py"));
    assert!(matches!(to_file_path_buf("m", PathKind::Directory), Err(CliError::PathIsDirectory(p)) if p == "m"));
    assert_eq!(to_dir_path_buf("m", PathKind::Directory).unwrap(), "m");
    assert_eq!(to_file_path_buf("f.py", PathKind::File).unwrap(), "f.py");
    assert_eq!(to_path("x", PathKind::File).unwrap(), "x");
    assert!(to_path("x", PathKind::Missing).is_err());
}

#[test]
fn transpile_unit_accessors() {
    let f = TranspileUnit::File("a.py".to_string());
    let m = TranspileUnit::Module("pkg".to_string());
    assert_eq!(f.path(), "a.py");
    assert_eq!(m.path(), "pkg");
    assert!(!f.is_dir());
    assert!(m.is_dir());
}

#[test]
fn translate_drops_trailing_separators_of_the_file() {
    assert_eq!(translate("mod/a/", "mod", "out").unwrap(), "out/src/a.rs");
    assert_eq!(translate("mod/b/c.py//", "mod", "out").unwrap(), "out/src/b/c.rs");
    assert!(matches!(translate("mod//", "mod", "out"), Err(CliError::PathNotUnderRoot(_, _))));
    assert!(matches!(translate("mod/", "mod", "out"), Err(CliError::PathNotUnderRoot(_, _))));
}
