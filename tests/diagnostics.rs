use rust_analyzer_mcp::diagnostics::{filter_diagnostics_in_range, format_diagnostics, format_workspace_diagnostics};
use rust_analyzer_mcp::json::Json;

fn obj(pairs: Vec<(&str, Json)>) -> Json {
    Json::Object(pairs.into_iter().map(|(k, v)| (k.to_string(), v)).collect())
}

fn s(x: &str) -> Json {
    Json::Str(x.to_string())
}

fn pos(line: u64, character: u64) -> Json {
    obj(vec![("line", Json::UInt(line)), ("character", Json::UInt(character))])
}

fn range(l0: u64, l1: u64) -> Json {
    obj(vec![("start", pos(l0, 0)), ("end", pos(l1, 4))])
}

fn diag(severity: u64, line: u64, message: &str) -> Json {
    obj(vec![
        ("range", range(line, line)),
        ("severity", Json::UInt(severity)),
        ("message", s(message)),
        ("source", s("rustc")),
    ])
}

fn summary(e: u64, w: u64, i: u64, h: u64) -> Json {
    obj(vec![
        ("errors", Json::UInt(e)),
        ("warnings", Json::UInt(w)),
        ("information", Json::UInt(i)),
        ("hints", Json::UInt(h)),
    ])
}

fn member<'a>(j: &'a Json, key: &str) -> &'a Json {
    j.get(key).expect("member present")
}

#[test]
fn clean_file_reports_no_findings() {
    let out = format_diagnostics("src/lib.rs", &Json::Array(vec![]));
    assert_eq!(member(&out, "diagnostics"), &Json::Array(vec![]));
    assert_eq!(member(&out, "summary"), &summary(0, 0, 0, 0));
    assert_eq!(member(&out, "file"), &s("src/lib.rs"));
}

#[test]
fn one_syntax_error_is_counted_and_named() {
    let result = Json::Array(vec![diag(1, 2, "expected one of `;` or `}`")]);
    let out = format_diagnostics("src/broken.rs", &result);
    assert_eq!(member(&out, "summary"), &summary(1, 0, 0, 0));
    let Json::Array(items) = member(&out, "diagnostics") else { panic!("not an array") };
    assert_eq!(items.len(), 1);
    assert_eq!(
        items[0],
        obj(vec![
            ("severity", s("error")),
            ("range", range(2, 2)),
            ("message", s("expected one of `;` or `}`")),
            ("code", Json::Null),
            ("source", s("rustc")),
            ("relatedInformation", Json::Null),
        ])
    );
}

#[test]
fn every_severity_is_counted() {
    let result = Json::Array(vec![
        diag(1, 0, "a"),
        diag(2, 1, "b"),
        diag(2, 2, "c"),
        diag(3, 3, "d"),
        diag(4, 4, "e"),
        diag(9, 5, "f"),
        obj(vec![("message", s("no severity"))]),
    ]);
    let out = format_diagnostics("f.rs", &result);
    assert_eq!(member(&out, "summary"), &summary(1, 2, 1, 1));
    let Json::Array(items) = member(&out, "diagnostics") else { panic!("not an array") };
    let names: Vec<&Json> = items.iter().map(|d| member(d, "severity")).collect();
    assert_eq!(names, vec![&s("error"), &s("warning"), &s("warning"), &s("information"), &s("hint"), &s("unknown"), &s("unknown")]);
    assert_eq!(member(&items[6], "source"), &s("rust-analyzer"));
    assert_eq!(member(&items[6], "range"), &Json::Null);
}

#[test]
fn non_array_result_reports_nothing() {
    let out = format_diagnostics("f.rs", &Json::Null);
    assert_eq!(member(&out, "diagnostics"), &Json::Array(vec![]));
    assert_eq!(member(&out, "summary"), &summary(0, 0, 0, 0));
}

#[test]
fn range_filter_keeps_overlapping_lines() {
    let all = Json::Array(vec![diag(1, 1, "a"), diag(1, 5, "b"), diag(1, 9, "c"), obj(vec![("message", s("no range"))])]);
    let kept = filter_diagnostics_in_range(&all, 4, 6);
    assert_eq!(kept, Json::Array(vec![diag(1, 5, "b")]));
    let none = filter_diagnostics_in_range(&all, 20, 30);
    assert_eq!(none, Json::Array(vec![]));
    assert_eq!(filter_diagnostics_in_range(&Json::Null, 0, 9), Json::Array(vec![]));
}

#[test]
fn workspace_report_counts_per_file_and_in_total() {
    let result = obj(vec![
        ("file:///a.rs", Json::Array(vec![diag(1, 0, "x"), diag(2, 1, "y")])),
        ("file:///b.rs", Json::Array(vec![])),
        ("file:///c.rs", Json::Array(vec![diag(1, 3, "z"), diag(4, 4, "w")])),
    ]);
    let out = format_workspace_diagnostics("/ws", &result);
    assert_eq!(member(&out, "workspace"), &s("/ws"));
    let files = member(&out, "files");
    assert!(files.get("file:///b.rs").is_none());
    assert_eq!(member(member(files, "file:///a.rs"), "summary"), &summary(1, 1, 0, 0));
    assert_eq!(member(member(files, "file:///c.rs"), "summary"), &summary(1, 0, 0, 1));
    assert_eq!(
        member(&out, "summary"),
        &obj(vec![
            ("total_files", Json::UInt(2)),
            ("total_errors", Json::UInt(2)),
            ("total_warnings", Json::UInt(1)),
            ("total_information", Json::UInt(0)),
            ("total_hints", Json::UInt(1)),
        ])
    );
}

#[test]
fn workspace_report_passes_on_unexpected_results() {
    let out = format_workspace_diagnostics("/ws", &Json::Array(vec![]));
    assert_eq!(member(&out, "diagnostics"), &Json::Array(vec![]));
    assert_eq!(member(&out, "summary"), &obj(vec![("note", s("Unexpected response format from rust-analyzer"))]));
}
