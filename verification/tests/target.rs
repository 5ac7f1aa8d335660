use wrapper::errors::WrapperError;
use wrapper::metadata::ReleaseMetadata;
use wrapper::paths::InstallPath;
use wrapper::target::{
    determine_needs_install, get_base_install_dir, install_path_variable, push_final_install_dir,
    resolve_install_target, INSTALL_SUFFIX,
};

fn text(value: &str) -> Option<String> {
    Some(value.to_string())
}

fn demo_metadata() -> ReleaseMetadata {
    ReleaseMetadata::new("13.0".to_string(), "1.2.3".to_string()).unwrap()
}

#[test]
fn the_override_variable_is_named_after_the_release() {
    assert_eq!(install_path_variable("X"), "X_INSTALL_PATH");
    assert_eq!(install_path_variable("demo"), "demo_INSTALL_PATH");
}

#[test]
fn the_override_decides_with_a_data_directory() {
    let base = get_base_install_dir(text("/tmp/custom"), text("/home/u/.local/share")).unwrap();
    assert_eq!(base.root, "/tmp/custom");
    assert_eq!(base.segments, vec![INSTALL_SUFFIX.to_string()]);
    assert_eq!(base.to_text(), "/tmp/custom/.burrito");
}

#[test]
fn the_override_decides_without_a_data_directory() {
    let base = get_base_install_dir(text("/tmp/custom"), None).unwrap();
    assert_eq!(base.to_text(), "/tmp/custom/.burrito");
}

#[test]
fn the_data_directory_is_the_default() {
    let base = get_base_install_dir(None, text("/home/u/.local/share")).unwrap();
    assert_eq!(base.root, "/home/u/.local/share");
    assert_eq!(base.segments, vec![".burrito".to_string()]);
}

#[test]
fn an_empty_override_counts_as_unset() {
    let base = get_base_install_dir(text(""), text("/home/u/.local/share")).unwrap();
    assert_eq!(base.to_text(), "/home/u/.local/share/.burrito");
    assert_eq!(get_base_install_dir(text(""), None), Err(WrapperError::CannotComputeInstallDir));
}

#[test]
fn without_override_and_data_directory_there_is_no_base() {
    assert_eq!(get_base_install_dir(None, None), Err(WrapperError::CannotComputeInstallDir));
}

#[test]
fn the_build_gets_a_directory_named_after_release_and_versions() {
    let mut dir = InstallPath::new("/tmp/custom".to_string());
    dir.push(".burrito".to_string());
    push_final_install_dir(&mut dir, "demo", &demo_metadata());
    assert_eq!(dir.segments, vec![".burrito".to_string(), "demo_erts-13.0_1.2.3".to_string()]);
    assert_eq!(dir.to_text(), "/tmp/custom/.burrito/demo_erts-13.0_1.2.3");
}

#[test]
fn builds_of_different_versions_get_different_directories() {
    let newer = ReleaseMetadata::new("13.0".to_string(), "1.2.4".to_string()).unwrap();
    let other_runtime = ReleaseMetadata::new("13.1".to_string(), "1.2.3".to_string()).unwrap();
    let a = resolve_install_target("demo", &demo_metadata(), None, text("/d")).unwrap();
    let b = resolve_install_target("demo", &newer, None, text("/d")).unwrap();
    let c = resolve_install_target("demo", &other_runtime, None, text("/d")).unwrap();
    let again = resolve_install_target("demo", &demo_metadata(), None, text("/d")).unwrap();
    assert_ne!(a.versioned_dir, b.versioned_dir);
    assert_ne!(a.versioned_dir, c.versioned_dir);
    assert_ne!(b.versioned_dir, c.versioned_dir);
    assert_eq!(a.versioned_dir, again.versioned_dir);
    assert_eq!(a.base_dir, b.base_dir);
}

#[test]
fn both_directories_are_resolved_together() {
    let target =
        resolve_install_target("demo", &demo_metadata(), text("/tmp/custom"), text("/d")).unwrap();
    assert_eq!(target.base_dir.to_text(), "/tmp/custom/.burrito");
    assert_eq!(target.versioned_dir.to_text(), "/tmp/custom/.burrito/demo_erts-13.0_1.2.3");
    assert_eq!(
        resolve_install_target("demo", &demo_metadata(), None, None),
        Err(WrapperError::CannotComputeInstallDir)
    );
}

#[test]
fn installing_is_needed_where_the_directory_is_missing() {
    assert!(determine_needs_install(false));
    assert!(!determine_needs_install(true));
}
