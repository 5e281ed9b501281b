use slice_server::diagnostics::{
    dedup_diagnostics, plan_publication, process_diagnostics, Diagnostic, Severity,
};
use slice_server::location::{FileSpan, Location, Span};

fn span(file: &str, l1: u64, c1: u64, l2: u64, c2: u64) -> FileSpan {
    FileSpan {
        file: file.to_string(),
        span: Span { start: Location { line: l1, column: c1 }, end: Location { line: l2, column: c2 } },
    }
}

fn diag(span: Option<FileSpan>, message: &str) -> Diagnostic {
    Diagnostic { span, severity: Severity::Error, message: message.to_string() }
}

#[test]
fn duplicate_diagnostics_publish_once() {
    let raw = vec![
        diag(Some(span("/ws/a.slice", 3, 1, 3, 10)), "x"),
        diag(Some(span("/ws/a.slice", 3, 1, 3, 10)), "x"),
    ];
    let plan = plan_publication(&vec!["/ws/a.slice".to_string()], &raw);
    assert_eq!(plan.files.len(), 1);
    assert_eq!(plan.files[0].path, "/ws/a.slice");
    assert_eq!(plan.files[0].diagnostics.len(), 1);
    assert_eq!(plan.files[0].diagnostics[0].message, "x");
    assert!(plan.spanless.is_empty());
}

#[test]
fn dedup_keeps_first_occurrence_and_order() {
    let raw = vec![
        diag(Some(span("/a", 1, 1, 1, 2)), "m"),
        diag(Some(span("/a", 2, 1, 2, 2)), "m"),
        Diagnostic { span: Some(span("/a", 1, 1, 1, 2)), severity: Severity::Warning, message: "m".to_string() },
        diag(Some(span("/a", 1, 1, 1, 2)), "n"),
        diag(None, "p"),
        diag(None, "p"),
    ];
    let out = dedup_diagnostics(&raw);
    assert_eq!(out.len(), 4);
    assert_eq!(out[0].severity, Severity::Error);
    assert_eq!(out[1].span.as_ref().unwrap().span.start.line, 2);
    assert_eq!(out[2].message, "n");
    assert!(out[3].span.is_none());
}

#[test]
fn dedup_result_independent_of_order() {
    let a = || diag(Some(span("/a", 1, 1, 1, 2)), "m");
    let b = || diag(Some(span("/b", 1, 1, 1, 2)), "m");
    let first = dedup_diagnostics(&vec![a(), b(), a()]);
    let second = dedup_diagnostics(&vec![b(), a(), b(), a()]);
    assert_eq!(first.len(), 2);
    assert_eq!(second.len(), 2);
}

#[test]
fn differing_file_is_not_merged() {
    let raw = vec![diag(Some(span("/a", 1, 1, 1, 2)), "m"), diag(Some(span("/b", 1, 1, 1, 2)), "m")];
    assert_eq!(dedup_diagnostics(&raw).len(), 2);
}

#[test]
fn grouping_clears_files_without_diagnostics() {
    let files = vec!["/ws/a.slice".to_string(), "/ws/b.slice".to_string(), "/ws/a.slice".to_string()];
    let raw = vec![
        diag(Some(span("/ws/a.slice", 1, 1, 1, 5)), "first"),
        diag(None, "no span"),
        diag(Some(span("/ws/c.slice", 2, 1, 2, 5)), "other file"),
        diag(Some(span("/ws/a.slice", 4, 1, 4, 5)), "second"),
    ];
    let plan = process_diagnostics(&files, &raw);
    assert_eq!(plan.files.len(), 3);
    let find = |p: &str| plan.files.iter().find(|f| f.path == p).unwrap();
    let a = find("/ws/a.slice");
    assert_eq!(a.diagnostics.len(), 2);
    assert_eq!(a.diagnostics[0].message, "first");
    assert_eq!(a.diagnostics[1].message, "second");
    assert!(find("/ws/b.slice").diagnostics.is_empty());
    assert_eq!(find("/ws/c.slice").diagnostics.len(), 1);
    assert_eq!(plan.spanless.len(), 1);
    assert_eq!(plan.spanless[0].message, "no span");
}

#[test]
fn empty_publication() {
    let plan = plan_publication(&vec![], &vec![]);
    assert!(plan.files.is_empty());
    assert!(plan.spanless.is_empty());
}
