use sozu::syntax::{error_report, parse_document, LineReport, ParserError};
use toml::Value;

fn error(lo: usize, desc: &str) -> ParserError {
    ParserError { lo, hi: lo + 1, desc: String::from(desc) }
}

fn entry(line: usize, desc: &str) -> LineReport {
    LineReport { line, desc: String::from(desc) }
}

#[test]
fn a_document_becomes_a_table() {
    let table = parse_document("log_level = \"info\"\n[metrics]\nport = 8125\n").unwrap();
    assert_eq!(table.len(), 2);
    assert_eq!(table["log_level"], Value::String(String::from("info")));
    match &table["metrics"] {
        Value::Table(metrics) => assert_eq!(metrics["port"], Value::Integer(8125)),
        other => panic!("not a table: {:?}", other),
    }
    assert!(parse_document("").unwrap().is_empty());
}

#[test]
fn an_error_in_the_first_line_is_reported_there() {
    let failure = parse_document("a = ?\nb = 2\n").unwrap_err();
    assert_eq!(failure.errors.len(), 1);
    assert_eq!(failure.errors[0].lo, 4);
    assert_eq!(failure.errors[0].hi, 5);
    assert_eq!(failure.errors[0].desc, "expected a value");
    assert_eq!(failure.reports, vec![entry(0, "expected a value")]);
}

#[test]
fn every_error_of_a_document_is_kept() {
    let failure = parse_document("a = 1\na = 2\na = 3\n").unwrap_err();
    assert_eq!(failure.errors.len(), 2);
    assert_eq!(failure.errors[0].lo, 6);
    assert_eq!(failure.errors[1].lo, 12);
    assert_eq!(failure.reports, error_report("a = 1\na = 2\na = 3\n", &failure.errors));
}

#[test]
fn offsets_count_the_bytes_of_lines_without_their_ends() {
    let errors = vec![error(0, "x"), error(3, "y"), error(4, "z")];
    assert_eq!(
        error_report("abc\ndef\n", &errors),
        vec![entry(0, "x"), entry(0, "y"), entry(1, "y"), entry(1, "z")]
    );
}

#[test]
fn line_ends_may_have_a_carriage_return() {
    let errors = vec![error(2, "x"), error(3, "y"), error(5, "z"), error(6, "late")];
    assert_eq!(
        error_report("ab\r\ncd\r", &errors),
        vec![entry(0, "x"), entry(1, "x"), entry(1, "y"), entry(1, "z")]
    );
    assert_eq!(error_report("\r\n\n", &vec![error(0, "x")]), vec![entry(0, "x"), entry(1, "x")]);
    assert_eq!(error_report("\r\r\n", &vec![error(1, "x")]), vec![entry(0, "x")]);
}

#[test]
fn lines_are_measured_in_bytes() {
    let errors = vec![error(4, "x"), error(5, "y")];
    assert_eq!(error_report("éé\nb", &errors), vec![entry(0, "x"), entry(1, "x"), entry(1, "y")]);
}

#[test]
fn an_empty_text_has_no_lines() {
    assert_eq!(error_report("", &vec![error(0, "x")]), vec![]);
    assert_eq!(error_report("abc", &vec![]), vec![]);
    assert_eq!(error_report("abc", &vec![error(4, "late")]), vec![]);
}

#[test]
fn the_report_agrees_with_the_lines_of_the_text() {
    let text = "one\r\n\ntwo three\n\r\nfour";
    let errors: Vec<ParserError> = (0..text.len() + 2).map(|lo| error(lo, "e")).collect();
    let mut expected = Vec::new();
    let mut offset = 0;
    for (index, line) in text.lines().enumerate() {
        for error in &errors {
            if error.lo >= offset && error.lo <= offset + line.len() {
                expected.push(entry(index, &error.desc));
            }
        }
        offset += line.len();
    }
    assert_eq!(error_report(text, &errors), expected);
}
