use csalt::paths::{
    clean_windows_path, manifest_path, resolve_path, verify_workspace, workspace_verdict,
    WorkspaceError,
};

#[test]
fn verbatim_prefix_is_removed() {
    assert_eq!(clean_windows_path(r"\\?\C:\work\proj".to_string()), r"C:\work\proj");
    assert_eq!(clean_windows_path("/home/me/proj".to_string()), "/home/me/proj");
    assert_eq!(clean_windows_path(r"\\?".to_string()), r"\\?");
}

#[test]
fn manifest_paths_resolve_against_the_project() {
    assert_eq!(resolve_path("/proj", "src/"), "/proj/src/");
    assert_eq!(resolve_path("/proj", "/abs/lib.a"), "/abs/lib.a");
}

#[test]
fn workspace_needs_a_manifest() {
    assert_eq!(workspace_verdict(true), Ok(()));
    assert_eq!(workspace_verdict(false), Err(WorkspaceError::MissingManifest));
    assert_eq!(
        verify_workspace("/definitely/not/a/project"),
        Err(WorkspaceError::MissingManifest)
    );
}

#[test]
fn manifest_is_looked_for_in_the_project_directory() {
    assert_eq!(manifest_path("/proj"), "/proj/Salt.toml");
    assert_eq!(manifest_path("/proj/"), "/proj/Salt.toml");
}
