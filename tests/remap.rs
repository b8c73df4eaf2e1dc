use serpent_cli::error::CliError;
use serpent_cli::remap::{parse_remap_config, remap_candidates, remap_from_document, select_remap_file, TomlItem};
use serpent_cli::unit::{PathKind, TranspileUnit};

#[test]
fn reads_dependencies_and_remaps() {
    let cfg = parse_remap_config("numpy = \"ndarray\"\n\n[dependencies]\nfoo = \"1.0\"\nbar = \"0.2\"\n").unwrap();
    assert_eq!(
        cfg.dependencies,
        vec![("bar".to_string(), "0.2".to_string()), ("foo".to_string(), "1.0".to_string())]
    );
    assert_eq!(cfg.remaps, vec![("numpy".to_string(), TomlItem::Text("ndarray".to_string()))]);
}

#[test]
fn empty_dependency_table_is_accepted() {
    let cfg = parse_remap_config("[dependencies]\n").unwrap();
    assert!(cfg.dependencies.is_empty());
    assert!(cfg.remaps.is_empty());
}

#[test]
fn missing_dependencies_is_an_error() {
    match parse_remap_config("numpy = \"ndarray\"\n") {
        Err(CliError::TomlContentError(TomlItem::Table(entries), expected)) => {
            assert_eq!(entries, vec![("numpy".to_string(), TomlItem::Text("ndarray".to_string()))]);
            assert_eq!(expected, "table with a `dependencies` table");
        }
        other => panic!("unexpected {:?}", other),
    }
}

#[test]
fn dependencies_must_be_a_table() {
    match parse_remap_config("dependencies = \"foo\"\n") {
        Err(CliError::TomlContentError(v, expected)) => {
            assert_eq!(v, TomlItem::Text("foo".to_string()));
            assert_eq!(expected, "table");
        }
        other => panic!("unexpected {:?}", other),
    }
}

#[test]
fn dependency_versions_must_be_strings() {
    match parse_remap_config("[dependencies]\nfoo = 1\n") {
        Err(CliError::TomlContentError(v, expected)) => {
            assert_eq!(v, TomlItem::Other("1".to_string()));
            assert_eq!(expected, "String");
        }
        other => panic!("unexpected {:?}", other),
    }
    match parse_remap_config("[dependencies]\nfoo = { version = \"1\" }\n") {
        Err(CliError::TomlContentError(TomlItem::Table(t), expected)) => {
            assert_eq!(t, vec![("version".to_string(), TomlItem::Text("1".to_string()))]);
            assert_eq!(expected, "String");
        }
        other => panic!("unexpected {:?}", other),
    }
}

#[test]
fn malformed_toml_is_an_error() {
    assert!(matches!(parse_remap_config("[dependencies\nfoo ="), Err(CliError::TomlError(_))));
}

#[test]
fn document_that_is_not_a_table() {
    match remap_from_document(TomlItem::Text("x".to_string())) {
        Err(CliError::TomlContentError(v, e)) => {
            assert_eq!(v, TomlItem::Text("x".to_string()));
            assert_eq!(e, "table");
        }
        other => panic!("unexpected {:?}", other),
    }
}

#[test]
fn document_built_by_hand() {
    let doc = TomlItem::Table(vec![
        ("a".to_string(), TomlItem::Text("b".to_string())),
        (
            "dependencies".to_string(),
            TomlItem::Table(vec![("foo".to_string(), TomlItem::Text("1.0".to_string()))]),
        ),
        ("c".to_string(), TomlItem::Other("3".to_string())),
    ]);
    let cfg = remap_from_document(doc).unwrap();
    assert_eq!(cfg.dependencies, vec![("foo".to_string(), "1.0".to_string())]);
    assert_eq!(
        cfg.remaps,
        vec![
            ("a".to_string(), TomlItem::Text("b".to_string())),
            ("c".to_string(), TomlItem::Other("3".to_string())),
        ]
    );
}

#[test]
fn candidates_for_a_module_and_a_file() {
    let m = TranspileUnit::Module("work/pkg".to_string());
    assert_eq!(remap_candidates(&m), vec!["work/pkg/Remap.toml".to_string(), "work/Remap.toml".to_string()]);
    let f = TranspileUnit::File("work/a.py".to_string());
    assert_eq!(remap_candidates(&f), vec!["work/Remap.toml".to_string()]);
    let slash = TranspileUnit::Module("work/pkg/".to_string());
    assert_eq!(remap_candidates(&slash), vec!["work/pkg/Remap.toml".to_string(), "work/Remap.toml".to_string()]);
    let bare = TranspileUnit::File("a.py".to_string());
    assert_eq!(remap_candidates(&bare), vec!["Remap.toml".to_string()]);
}

#[test]
fn detection_order() {
    let m = TranspileUnit::Module("work/pkg".to_string());
    let explicit = Some("my.toml".to_string());
    assert_eq!(
        select_remap_file(&m, &explicit, PathKind::File, false, &vec![true, true]).unwrap(),
        Some("my.toml".to_string())
    );
    assert_eq!(
        select_remap_file(&m, &None, PathKind::Missing, false, &vec![true, true]).unwrap(),
        Some("work/pkg/Remap.toml".to_string())
    );
    assert_eq!(
        select_remap_file(&m, &None, PathKind::Missing, false, &vec![false, true]).unwrap(),
        Some("work/Remap.toml".to_string())
    );
    assert_eq!(select_remap_file(&m, &None, PathKind::Missing, false, &vec![false, false]).unwrap(), None);
}

#[test]
fn no_remap_forces_none() {
    let m = TranspileUnit::Module("work/pkg".to_string());
    assert_eq!(select_remap_file(&m, &None, PathKind::Missing, true, &vec![true, true]).unwrap(), None);
}

#[test]
fn explicit_remap_file_must_exist() {
    let f = TranspileUnit::File("a.py".to_string());
    let explicit = Some("gone.toml".to_string());
    assert!(matches!(
        select_remap_file(&f, &explicit, PathKind::Missing, false, &vec![true]),
        Err(CliError::FileOrDirectoryNotFound(p)) if p == "gone.toml"
    ));
    assert!(matches!(
        select_remap_file(&f, &explicit, PathKind::File, true, &vec![true]),
        Err(CliError::RedundantParameter(_))
    ));
}
