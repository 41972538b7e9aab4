use epigen::driver::{parse_declarations, Diagnostic};
use epigen::generator::generate;
use epigen::parser::error::{ErrorKind, Rule};

fn lines(text: &[&str]) -> Vec<String> {
    text.iter().map(|l| l.to_string()).collect()
}

#[test]
fn one_malformed_line_is_skipped_and_reported() {
    let input = lines(&[
        "fun a(x: int) returns(y: float)",
        "fun bad(x: int^abc) returns(y:int)",
        "val fun c() returns()",
    ]);
    let report = parse_declarations(&input);
    assert_eq!(report.declarations.len(), 2);
    assert_eq!(report.declarations[0].name, "a");
    assert_eq!(report.declarations[1].name, "c");
    assert_eq!(report.diagnostics.len(), 1);
    let d: &Diagnostic = &report.diagnostics[0];
    assert_eq!(d.line_index, 1);
    assert_eq!(d.line, "fun bad(x: int^abc) returns(y:int)");
    assert_eq!(d.error.kind, ErrorKind::MalformedLength);
    assert!(d.error.context.contains(&Rule::Variable));
    assert!(report.has_failures());
    assert!(!report.is_empty_input());
    let artifacts = generate("unit", &report.declarations);
    assert!(artifacts.types_text.contains("Unit__a_out;"));
    assert!(artifacts.types_text.contains("Unit__c_out;"));
    assert!(artifacts.header_text.contains("Unit__a_step("));
    assert!(artifacts.source_text.contains("Unit__c_step("));
    assert!(!artifacts.header_text.contains("bad"));
}

#[test]
fn malformed_length_diagnostic_names_the_rules() {
    let report = parse_declarations(&lines(&["fun bad(x: int^abc) returns(y:int)"]));
    assert!(report.declarations.is_empty());
    assert!(report.is_empty_input());
    assert_eq!(report.diagnostics.len(), 1);
    assert_eq!(
        report.diagnostics[0].message(),
        "cannot parse `fun bad(x: int^abc) returns(y:int)`: malformed length at character 15 in variable type in variable in argument list in function declaration"
    );
}

#[test]
fn syntax_diagnostic_text() {
    let report = parse_declarations(&lines(&["node f() returns()"]));
    assert_eq!(
        report.diagnostics[0].message(),
        "cannot parse `node f() returns()`: syntax error at character 0 in function declaration"
    );
}

#[test]
fn blank_and_single_character_lines_are_ignored() {
    let report = parse_declarations(&lines(&["", "x", " ", "\u{e9}", "fun f() returns()", ""]));
    assert_eq!(report.declarations.len(), 1);
    assert!(report.diagnostics.is_empty());
    assert!(!report.has_failures());
}

#[test]
fn two_character_line_is_looked_at() {
    let report = parse_declarations(&lines(&["  "]));
    assert!(report.declarations.is_empty());
    assert_eq!(report.diagnostics.len(), 1);
    assert_eq!(report.diagnostics[0].line_index, 0);
}

#[test]
fn no_lines_give_an_empty_report() {
    let report = parse_declarations(&Vec::new());
    assert!(report.is_empty_input());
    assert!(!report.has_failures());
}

#[test]
fn declarations_keep_line_order() {
    let a = "fun a() returns()";
    let b = "fun b(x: int) returns()";
    let c = "fun c() returns(y: float^2)";
    let forward = parse_declarations(&lines(&[a, b, c]));
    let backward = parse_declarations(&lines(&[c, b, a]));
    let names = |r: &epigen::driver::ParseReport| -> Vec<String> {
        r.declarations.iter().map(|d| d.name.clone()).collect()
    };
    assert_eq!(names(&forward), vec!["a", "b", "c"]);
    assert_eq!(names(&backward), vec!["c", "b", "a"]);
    assert_eq!(forward.declarations[0], backward.declarations[2]);
    assert_eq!(forward.declarations[1], backward.declarations[1]);
    assert_eq!(forward.declarations[2], backward.declarations[0]);
}
