use slice_server::slice_config::{compute_slice_options, ServerConfig, SliceConfig};

fn server() -> ServerConfig {
    ServerConfig { workspace_root_path: "/ws".to_string(), built_in_slice_path: "/builtins".to_string() }
}

#[test]
fn empty_references_with_built_ins() {
    let config = SliceConfig { slice_search_paths: vec![], include_built_in_slice_files: true };
    let options = compute_slice_options(&server(), &config);
    assert_eq!(options.references, vec!["/ws".to_string(), "/builtins".to_string()]);
}

#[test]
fn empty_references_without_built_ins() {
    let config = SliceConfig { slice_search_paths: vec![], include_built_in_slice_files: false };
    let options = compute_slice_options(&server(), &config);
    assert_eq!(options.references, vec!["/ws".to_string()]);
}

#[test]
fn default_config_searches_root_and_built_ins() {
    let options = compute_slice_options(&server(), &SliceConfig::default());
    assert_eq!(options.references, vec!["/ws".to_string(), "/builtins".to_string()]);
}

#[test]
fn relative_entries_are_joined_to_root() {
    let config = SliceConfig {
        slice_search_paths: vec!["src".to_string(), "lib/slice".to_string()],
        include_built_in_slice_files: false,
    };
    let options = compute_slice_options(&server(), &config);
    assert_eq!(options.references, vec!["/ws/src".to_string(), "/ws/lib/slice".to_string()]);
}

#[test]
fn absolute_entries_pass_through_in_order() {
    let config = SliceConfig {
        slice_search_paths: vec!["/other/b".to_string(), "a".to_string(), "/other/a".to_string()],
        include_built_in_slice_files: true,
    };
    let options = compute_slice_options(&server(), &config);
    assert_eq!(
        options.references,
        vec![
            "/other/b".to_string(),
            "/ws/a".to_string(),
            "/other/a".to_string(),
            "/builtins".to_string()
        ]
    );
}

#[test]
fn duplicate_entries_are_kept() {
    let config = SliceConfig {
        slice_search_paths: vec!["/x".to_string(), "/x".to_string()],
        include_built_in_slice_files: false,
    };
    let options = compute_slice_options(&server(), &config);
    assert_eq!(options.references, vec!["/x".to_string(), "/x".to_string()]);
}
