use slice_server::configuration_set::{CompilationOutcome, ConfigurationSet};
use slice_server::diagnostics::{plan_publication, Diagnostic, Severity};
use slice_server::json::JsonValue;
use slice_server::jump_definition::{Declaration, FileTree, Position, TypeDefinition, TypeRef};
use slice_server::location::{FileSpan, Location, Span};
use slice_server::session::{InitializeError, Session};

fn text(s: &str) -> JsonValue {
    JsonValue::String(s.to_string())
}

fn object(entries: Vec<(&str, JsonValue)>) -> JsonValue {
    JsonValue::Object(entries.into_iter().map(|(k, v)| (k.to_string(), v)).collect())
}

fn set_settings(paths: Vec<&str>, well_known: Option<bool>) -> JsonValue {
    let mut entries = vec![("paths", JsonValue::Array(paths.into_iter().map(text).collect()))];
    if let Some(b) = well_known {
        entries.push(("addWellKnownTypes", JsonValue::Bool(b)));
    }
    object(entries)
}

fn initialized(configuration: Option<JsonValue>) -> Session<()> {
    let mut entries = vec![("builtInSlicePath", text("/builtins"))];
    if let Some(c) = configuration {
        entries.push(("configuration", c));
    }
    let mut session = Session::new();
    session.update_from_initialize_params(&Some(object(entries)), Some("/ws".to_string())).unwrap();
    session
}

#[test]
fn new_session_has_one_default_set() {
    let session: Session<()> = Session::new();
    assert_eq!(session.configuration_sets.len(), 1);
    assert!(session.configuration_sets[0].slice_config.slice_search_paths.is_empty());
    assert!(session.configuration_sets[0].slice_config.include_built_in_slice_files);
}

#[test]
fn replace_with_nothing_yields_default_set() {
    let mut session: Session<()> = Session::new();
    session.update_configurations(vec![]);
    assert_eq!(session.configuration_sets.len(), 1);
    assert!(session.configuration_sets[0].slice_config.slice_search_paths.is_empty());
    assert!(session.configuration_sets[0].slice_config.include_built_in_slice_files);
}

#[test]
fn replace_keeps_given_sets() {
    let mut session: Session<()> = Session::new();
    let sets = ConfigurationSet::parse_configuration_sets(&vec![
        set_settings(vec!["a"], Some(false)),
        set_settings(vec![], None),
    ]);
    session.update_configurations(sets);
    assert_eq!(session.configuration_sets.len(), 2);
    assert_eq!(session.configuration_sets[0].slice_config.slice_search_paths, vec!["a".to_string()]);
    assert!(!session.configuration_sets[0].slice_config.include_built_in_slice_files);
    assert!(session.configuration_sets[1].slice_config.include_built_in_slice_files);
}

#[test]
fn set_settings_parse_with_defaults() {
    let sets: Vec<ConfigurationSet<()>> = ConfigurationSet::parse_configuration_sets(&vec![
        object(vec![("paths", JsonValue::Array(vec![text("x"), JsonValue::Number, text("y")]))]),
        object(vec![("paths", text("not an array")), ("addWellKnownTypes", text("no"))]),
        JsonValue::Null,
    ]);
    assert_eq!(sets.len(), 3);
    assert_eq!(sets[0].slice_config.slice_search_paths, vec!["x".to_string(), "y".to_string()]);
    assert!(sets[0].slice_config.include_built_in_slice_files);
    assert!(sets[1].slice_config.slice_search_paths.is_empty());
    assert!(sets[1].slice_config.include_built_in_slice_files);
    assert!(sets[2].slice_config.slice_search_paths.is_empty());
}

#[test]
fn configuration_change_replaces_sets() {
    let mut session = initialized(Some(JsonValue::Array(vec![set_settings(vec!["a"], None), set_settings(vec!["b"], None)])));
    assert_eq!(session.configuration_sets.len(), 2);
    let settings = object(vec![(
        "slice",
        object(vec![("configurations", JsonValue::Array(vec![set_settings(vec!["c"], Some(false))]))]),
    )]);
    session.update_configurations_from_params(&settings);
    assert_eq!(session.configuration_sets.len(), 1);
    assert_eq!(session.configuration_sets[0].slice_config.slice_search_paths, vec!["c".to_string()]);
    session.update_configurations_from_params(&object(vec![]));
    assert_eq!(session.configuration_sets.len(), 1);
    assert!(session.configuration_sets[0].slice_config.slice_search_paths.is_empty());
    assert_eq!(session.server_config.workspace_root_path, "/ws");
}

#[test]
fn initialization_sets_server_config() {
    let session = initialized(None);
    assert_eq!(session.server_config.workspace_root_path, "/ws");
    assert_eq!(session.server_config.built_in_slice_path, "/builtins");
    assert_eq!(session.configuration_sets.len(), 1);
}

#[test]
fn initialization_without_built_in_path_fails() {
    let mut session: Session<()> = Session::new();
    let r = session.update_from_initialize_params(&Some(object(vec![])), Some("/ws".to_string()));
    assert_eq!(r, Err(InitializeError::MissingBuiltInSlicePath));
    let r = session.update_from_initialize_params(&None, Some("/ws".to_string()));
    assert_eq!(r, Err(InitializeError::MissingBuiltInSlicePath));
    assert_eq!(session.server_config.workspace_root_path, "");
}

#[test]
fn initialization_without_root_fails() {
    let mut session: Session<()> = Session::new();
    let options = object(vec![("builtInSlicePath", text("/builtins"))]);
    let r = session.update_from_initialize_params(&Some(options), None);
    assert_eq!(r, Err(InitializeError::MissingWorkspaceRoot));
    assert_eq!(session.server_config.built_in_slice_path, "");
}

#[test]
fn affected_sets_follow_search_paths() {
    let session = initialized(Some(JsonValue::Array(vec![
        set_settings(vec!["a"], Some(false)),
        set_settings(vec!["b", "/elsewhere"], Some(false)),
        set_settings(vec![], Some(false)),
    ])));
    assert_eq!(session.affected_sets("/ws/a/x.slice"), vec![0, 2]);
    assert_eq!(session.affected_sets("/elsewhere/y.slice"), vec![1]);
    assert_eq!(session.affected_sets("/ws/b"), vec![1, 2]);
    assert_eq!(session.affected_sets("/ws/ab/x.slice"), vec![2]);
}

#[test]
fn untouched_file_recompiles_nothing() {
    let session = initialized(Some(JsonValue::Array(vec![set_settings(vec!["a"], Some(false))])));
    let affected = session.affected_sets("/other/z.slice");
    assert!(affected.is_empty());
    let plan = plan_publication(&vec![], &vec![]);
    assert!(plan.files.is_empty());
    assert!(plan.spanless.is_empty());
}

fn compiled_file() -> FileTree {
    FileTree {
        path: "/ws/a/x.slice".to_string(),
        declarations: vec![Declaration::Field {
            comment: None,
            type_refs: vec![TypeRef {
                span: Span { start: Location { line: 2, column: 5 }, end: Location { line: 2, column: 9 } },
                definition: TypeDefinition::Struct(FileSpan {
                    file: "/ws/a/y.slice".to_string(),
                    span: Span { start: Location { line: 1, column: 8 }, end: Location { line: 1, column: 12 } },
                }),
            }],
        }],
    }
}

#[test]
fn compilation_replaces_files_and_failure_keeps_them() {
    let mut session = initialized(None);
    let diagnostics = vec![Diagnostic { span: None, severity: Severity::Warning, message: "w".to_string() }];
    let r = session.apply_compilation(0, CompilationOutcome::Compiled { state: (), files: vec![compiled_file()], diagnostics });
    assert_eq!(r.len(), 1);
    assert_eq!(r[0].message, "w");
    assert_eq!(session.configuration_sets[0].file_paths(), vec!["/ws/a/x.slice".to_string()]);
    let r = session.apply_compilation(0, CompilationOutcome::Failed { message: "compiler crashed".to_string() });
    assert_eq!(r.len(), 1);
    assert!(r[0].span.is_none());
    assert_eq!(r[0].severity, Severity::Error);
    assert_eq!(r[0].message, "compiler crashed");
    assert_eq!(session.configuration_sets[0].file_paths(), vec!["/ws/a/x.slice".to_string()]);
}

#[test]
fn goto_definition_uses_tracking_set() {
    let mut session = initialized(None);
    let position = Position { line: 1, character: 6 };
    assert!(session.goto_definition("/ws/a/x.slice", position).is_none());
    session.apply_compilation(0, CompilationOutcome::Compiled { state: (), files: vec![compiled_file()], diagnostics: vec![] });
    let found = session.goto_definition("/ws/a/x.slice", position).unwrap();
    assert_eq!(found.file, "/ws/a/y.slice");
    assert_eq!(found.span.start, Location { line: 1, column: 8 });
    assert_eq!(session.find_tracking_set("/ws/a/x.slice"), Some(0));
    assert!(session.goto_definition("/ws/a/z.slice", position).is_none());
}
