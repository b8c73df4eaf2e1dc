use serpent_cli::error::CliError;
use serpent_cli::logging::{log_levels, LogLevel};
use serpent_cli::steps::{name, resolve_args, trace_messages};
use serpent_cli::unit::{PathKind, TranspileUnit};

#[test]
fn command_names() {
    assert_eq!(name(), "steps");
    assert_eq!(serpent_cli::tp::name(), "transpile");
}

#[test]
fn line_needs_a_target_file() {
    let m = TranspileUnit::Module("pkg".to_string());
    assert!(matches!(resolve_args(m, None, PathKind::Missing, false, Some(3)), Err(CliError::RedundantParameter(_))));
}

#[test]
fn line_with_explicit_file() {
    let m = TranspileUnit::Module("pkg".to_string());
    let cfg = resolve_args(m, Some("pkg/a.py".to_string()), PathKind::File, false, Some(3)).unwrap();
    assert_eq!(cfg.target_file, Some("pkg/a.py".to_string()));
    assert_eq!(cfg.line, Some(3));
}

#[test]
fn file_input_is_its_own_target() {
    let f = TranspileUnit::File("a.py".to_string());
    let cfg = resolve_args(f, None, PathKind::Missing, false, Some(1)).unwrap();
    assert_eq!(cfg.target_file, Some("a.py".to_string()));
}

#[test]
fn top_without_line() {
    let m = TranspileUnit::Module("pkg".to_string());
    let cfg = resolve_args(m, None, PathKind::Missing, true, None).unwrap();
    assert!(cfg.top_only);
    assert_eq!(cfg.target_file, None);
}

#[test]
fn line_is_required_without_top() {
    let f = TranspileUnit::File("a.py".to_string());
    assert!(matches!(resolve_args(f, None, PathKind::Missing, false, None), Err(CliError::RedundantParameter(_))));
}

#[test]
fn explicit_file_must_be_a_file() {
    let m = TranspileUnit::Module("pkg".to_string());
    assert!(matches!(
        resolve_args(m, Some("pkg/sub".to_string()), PathKind::Directory, true, None),
        Err(CliError::PathIsDirectory(p)) if p == "pkg/sub"
    ));
}

#[test]
fn trace_reports() {
    let trace = vec!["src".to_string(), "ast".to_string(), "rast".to_string(), "out".to_string()];
    let m = trace_messages(&trace);
    assert_eq!(m[0], "Python source:\nsrc\n");
    assert_eq!(m[1], "Python AST:\nast\n");
    assert_eq!(m[2], "Rust AST:\nrast\n");
    assert_eq!(m[3], "Rust source:\nout\n");
}

#[test]
fn verbosity_levels() {
    assert_eq!(log_levels(0, 0), (LogLevel::Info, LogLevel::Error));
    assert_eq!(log_levels(1, 3), (LogLevel::Error, LogLevel::Error));
    assert_eq!(log_levels(2, 0), (LogLevel::Off, LogLevel::Off));
    assert_eq!(log_levels(0, 1), (LogLevel::Debug, LogLevel::Warn));
    assert_eq!(log_levels(0, 2), (LogLevel::Debug, LogLevel::Info));
    assert_eq!(log_levels(0, 3), (LogLevel::Trace, LogLevel::Info));
    assert_eq!(log_levels(0, 9), (LogLevel::Trace, LogLevel::Trace));
    assert_eq!(log_levels(5, 0), (LogLevel::Info, LogLevel::Error));
}
