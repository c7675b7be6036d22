//! Matching vulnerability patterns against source text.
use sanctifier_core::vulndb::{scan_source, VulnEntry};

fn entry(id: &str, pattern: &str) -> VulnEntry {
    VulnEntry {
        id: id.to_string(),
        name: format!("{id} name"),
        severity: "high".to_string(),
        category: "auth".to_string(),
        description: "desc".to_string(),
        recommendation: "fix it".to_string(),
        pattern: pattern.to_string(),
    }
}

#[test]
fn each_occurrence_is_one_match_with_line_and_trimmed_snippet() {
    let source = "fn a() {\n    let x = unwrap_me.unwrap();\n}\nfn b() { y.unwrap() }\n";
    let matches = scan_source(&[entry("VULN-001", r"\.unwrap\(\)")], source, "lib.rs");
    assert_eq!(matches.len(), 2);
    assert_eq!(matches[0].vuln_id, "VULN-001");
    assert_eq!(matches[0].name, "VULN-001 name");
    assert_eq!(matches[0].severity, "high");
    assert_eq!(matches[0].category, "auth");
    assert_eq!(matches[0].description, "desc");
    assert_eq!(matches[0].recommendation, "fix it");
    assert_eq!(matches[0].file, "lib.rs");
    assert_eq!(matches[0].line, 2);
    assert_eq!(matches[0].snippet, "let x = unwrap_me.unwrap();");
    assert_eq!(matches[1].line, 4);
    assert_eq!(matches[1].snippet, "fn b() { y.unwrap() }");
}

#[test]
fn invalid_patterns_are_skipped() {
    let source = "panic!(\"x\");";
    let matches = scan_source(&[entry("BAD", "(unclosed"), entry("OK", "panic!")], source, "f.rs");
    assert_eq!(matches.len(), 1);
    assert_eq!(matches[0].vuln_id, "OK");
}

#[test]
fn entries_are_reported_in_order() {
    let source = "b a b";
    let matches = scan_source(&[entry("A", "a"), entry("B", "b")], source, "f.rs");
    let ids: Vec<&str> = matches.iter().map(|m| m.vuln_id.as_str()).collect();
    assert_eq!(ids, vec!["A", "B", "B"]);
}

#[test]
fn multibyte_text_before_a_match_keeps_lines_and_snippets_whole() {
    let source = "// é ü ß\n  let ω = risky();  \nnext";
    let matches = scan_source(&[entry("R", "risky")], source, "f.rs");
    assert_eq!(matches.len(), 1);
    assert_eq!(matches[0].line, 2);
    assert_eq!(matches[0].snippet, "let ω = risky();");
}

#[test]
fn a_match_spanning_lines_takes_all_its_lines() {
    let source = "x\n  start\nend  \ny";
    let matches = scan_source(&[entry("M", r"start\nend")], source, "f.rs");
    assert_eq!(matches.len(), 1);
    assert_eq!(matches[0].line, 2);
    assert_eq!(matches[0].snippet, "start\nend");
}

#[test]
fn no_entries_no_matches() {
    assert!(scan_source(&[], "anything", "f.rs").is_empty());
}
