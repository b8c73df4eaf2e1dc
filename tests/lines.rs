use serpent_cli::lines::add_line_nbs;

fn strip_numbers(numbered: &str, width: usize) -> String {
    numbered.split('\n').map(|l| &l[width + 1..]).collect::<Vec<_>>().join("\n")
}

#[test]
fn numbers_are_right_aligned() {
    let text: String = (1..=10).map(|i| format!("l{}", i)).collect::<Vec<_>>().join("\n");
    let out = add_line_nbs(&text);
    let lines: Vec<&str> = out.lines().collect();
    assert_eq!(lines[0], " 1 l1");
    assert_eq!(lines[8], " 9 l9");
    assert_eq!(lines[9], "10 l10");
}

#[test]
fn single_line() {
    assert_eq!(add_line_nbs("x"), "1 x");
}

#[test]
fn empty_text_stays_empty() {
    assert_eq!(add_line_nbs(""), "");
}

#[test]
fn empty_lines_and_final_newline() {
    assert_eq!(add_line_nbs("a\n\nb\n"), "1 a\n2 \n3 b\n4 ");
    assert_eq!(add_line_nbs("a\r\nb"), "1 a\r\n2 b");
}

#[test]
fn hundred_lines_use_three_digits() {
    let text: String = (0..100).map(|_| "x").collect::<Vec<_>>().join("\n");
    let out = add_line_nbs(&text);
    assert!(out.starts_with("  1 x\n  2 x"));
    assert!(out.ends_with("\n100 x"));
}

#[test]
fn numbering_is_reversible() {
    let text = "def f():\n    return 1\n\nprint(f())";
    let out = add_line_nbs(text);
    assert_eq!(strip_numbers(&out, 1), text);
    let long: String = (0..12).map(|i| format!("line {}", i)).collect::<Vec<_>>().join("\n");
    assert_eq!(strip_numbers(&add_line_nbs(&long), 2), long);
}

#[test]
fn numbering_is_reversible_with_final_newline_and_crlf() {
    for text in ["a\n", "a\r\nb\r\n", "\n", "\r", "x\n\n\n\n\n\n\n\n\n\ny"] {
        let out = add_line_nbs(text);
        let width = out.split('\n').count().to_string().len();
        assert_eq!(strip_numbers(&out, width), text);
    }
}
