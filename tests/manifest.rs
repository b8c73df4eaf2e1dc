use serpent_cli::error::CliError;
use serpent_cli::manifest::{create_manifest, emit_manifest, insert_edition, manifest_path, package_name};
use serpent_cli::plan::Action;

fn deps(pairs: &[(&str, &str)]) -> Vec<(String, String)> {
    pairs.iter().map(|(k, v)| (k.to_string(), v.to_string())).collect()
}

#[test]
fn package_names() {
    assert_eq!(package_name("out/proj"), Some("proj".to_string()));
    assert_eq!(package_name("out/proj/"), Some("proj".to_string()));
    assert_eq!(package_name("proj.d"), Some("proj".to_string()));
    assert_eq!(package_name("."), None);
    assert_eq!(package_name(".."), None);
    assert_eq!(package_name(""), None);
}

#[test]
fn edition_follows_package_header() {
    assert_eq!(
        insert_edition("[package]\nname = \"x\"\n\n[dependencies]\n"),
        "[package]\nedition =\"2018\"\nname = \"x\"\n\n[dependencies]\n"
    );
    assert_eq!(insert_edition("a"), "a\n");
}

#[test]
fn manifest_content() {
    let text = emit_manifest("out/proj", &deps(&[("foo", "1.0")]), &Some("src/main.rs".to_string()), &None).unwrap();
    let lines: Vec<&str> = text.lines().collect();
    let pkg = lines.iter().position(|l| *l == "[package]").unwrap();
    assert_eq!(lines[pkg + 1], "edition =\"2018\"");
    assert!(lines.contains(&"name = \"proj\""));
    assert!(text.contains("automatically transpiled by serpent"));
    assert!(lines.contains(&"foo = \"1.0\""));
    assert!(lines.contains(&"[[bin]]"));
    assert!(lines.contains(&"name = \"main\""));
    assert!(lines.contains(&"path = \"src/main.rs\""));
    assert!(!lines.contains(&"[lib]"));
    assert_eq!(lines.iter().filter(|l| l.contains("edition")).count(), 1);
}

#[test]
fn manifest_with_both_targets() {
    let text = emit_manifest(
        "proj",
        &Vec::new(),
        &Some("src/main.rs".to_string()),
        &Some("src/lib.rs".to_string()),
    )
    .unwrap();
    assert!(text.contains("[[bin]]"));
    assert!(text.contains("[lib]"));
    assert!(text.contains("path = \"src/lib.rs\""));
    assert!(text.contains("name = \"lib\""));
}

#[test]
fn manifest_name_must_be_derivable() {
    assert!(matches!(emit_manifest("..", &Vec::new(), &None, &None), Err(CliError::ManifestError(_))));
}

#[test]
fn manifest_is_kept_without_overwrite() {
    let acts = create_manifest("out/proj", true, false, &deps(&[("foo", "1.0")]), &None, &None).unwrap();
    assert!(acts.is_empty());
}

#[test]
fn manifest_is_regenerated_with_overwrite() {
    let d = deps(&[("foo", "1.0")]);
    let first = create_manifest("out/proj", false, true, &d, &None, &None).unwrap();
    let again = create_manifest("out/proj", true, true, &d, &None, &None).unwrap();
    assert_eq!(first.len(), 1);
    assert_eq!(again.len(), 2);
    assert_eq!(again[0], Action::RemoveFile("out/proj/Cargo.toml".to_string()));
    assert_eq!(again[1], first[0]);
    match &first[0] {
        Action::WriteFile { path, .. } => assert_eq!(path, &manifest_path("out/proj")),
        other => panic!("unexpected {:?}", other),
    }
}

#[test]
fn invalid_package_names_are_manifest_errors() {
    for out in ["out/my pkg", "out/1st", "out/na\"me", ""] {
        assert!(matches!(emit_manifest(out, &Vec::new(), &None, &None), Err(CliError::ManifestError(_))), "{}", out);
    }
    assert!(emit_manifest("out/my-pkg_2", &Vec::new(), &None, &None).is_ok());
}

#[test]
fn unwritable_dependencies_are_manifest_errors() {
    for (k, v) in [("foo", "1.0\u{1}"), ("fo\no", "1.0"), ("f\"o'o", "1.0"), ("foo", "1\\0")] {
        assert!(matches!(
            emit_manifest("out/proj", &deps(&[(k, v)]), &None, &None),
            Err(CliError::ManifestError(_))
        ));
    }
    assert!(matches!(
        create_manifest("out/proj", false, true, &deps(&[("foo", "1.0\u{1}")]), &None, &None),
        Err(CliError::ManifestError(_))
    ));
}

#[test]
fn manifest_without_dependencies_has_an_empty_table() {
    let text = emit_manifest("proj", &Vec::new(), &None, &None).unwrap();
    let lines: Vec<&str> = text.lines().collect();
    let start = lines.iter().position(|l| *l == "[dependencies]").unwrap();
    assert!(lines[start + 1..].iter().take_while(|l| !l.starts_with('[')).all(|l| l.is_empty()));
}
