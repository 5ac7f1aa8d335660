use std::collections::BTreeMap;
use wrapper::archive::{Archive, ArchiveRecord};
use wrapper::errors::WrapperError;
use wrapper::installer::{write_payload_file, FsAction, FsOutcome, Installer};
use wrapper::paths::InstallPath;

fn record(path: &str, mode: u32, content: &[u8]) -> ArchiveRecord {
    ArchiveRecord { relative_path: path.to_string(), mode_bits: mode, content: content.to_vec() }
}

fn path(root: &str, names: &[&str]) -> InstallPath {
    InstallPath {
        root: root.to_string(),
        segments: names.iter().map(|name| name.to_string()).collect(),
    }
}

fn destination() -> InstallPath {
    path("/data", &[".burrito", "demo_erts-13.0_1.2.3"])
}

/// Performs every step in memory and returns the files with their content and mode.
fn install(archive: Archive, apply_modes: bool) -> (Result<(), WrapperError>, BTreeMap<String, (Vec<u8>, Option<u32>)>, Vec<FsAction>) {
    let mut files = BTreeMap::new();
    let mut log = Vec::new();
    let mut installer = Installer::new(archive, destination(), apply_modes, false);
    while let Some(action) = installer.action() {
        match &action {
            FsAction::CreateDirs { .. } => {}
            FsAction::CreateFile { file } => {
                files.insert(file.to_text(), (Vec::new(), None));
            }
            FsAction::WriteData { file, content } => {
                files.get_mut(&file.to_text()).unwrap().0 = content.clone();
            }
            FsAction::SetMode { file, mode } => {
                files.get_mut(&file.to_text()).unwrap().1 = Some(*mode);
            }
        }
        log.push(action);
        installer.advance(FsOutcome::Done);
    }
    let result = match installer.failure() {
        Some(error) => Err(error),
        None => {
            assert!(installer.is_finished());
            Ok(())
        }
    };
    (result, files, log)
}

#[test]
fn a_record_is_written_in_four_steps() {
    let steps = write_payload_file(&record("bin/demo", 0o755, b"#!/bin/sh\necho hi"), &destination(), true, false);
    let file = path("/data", &[".burrito", "demo_erts-13.0_1.2.3", "bin", "demo"]);
    assert_eq!(
        steps,
        Ok(vec![
            FsAction::CreateDirs { dir: path("/data", &[".burrito", "demo_erts-13.0_1.2.3", "bin"]) },
            FsAction::CreateFile { file: file.clone() },
            FsAction::WriteData { file: file.clone(), content: b"#!/bin/sh\necho hi".to_vec() },
            FsAction::SetMode { file, mode: 0o755 },
        ])
    );
}

#[test]
fn without_permission_bits_the_mode_is_left_alone() {
    let steps = write_payload_file(&record("bin/demo", 0o755, b"x"), &destination(), false, false).unwrap();
    assert_eq!(steps.len(), 3);
    assert!(steps.iter().all(|step| !matches!(step, FsAction::SetMode { .. })));
}

#[test]
fn a_file_at_the_top_is_created_in_the_destination() {
    let steps = write_payload_file(&record("README", 0o644, b""), &destination(), true, false).unwrap();
    assert_eq!(steps[0], FsAction::CreateDirs { dir: destination() });
    assert_eq!(
        steps[1],
        FsAction::CreateFile { file: path("/data", &[".burrito", "demo_erts-13.0_1.2.3", "README"]) }
    );
}

#[test]
fn a_record_that_leaves_the_destination_is_refused() {
    for windows_paths in [false, true] {
        for bad in ["../escape", "/etc/passwd", "a/../../b", "", ".", "a/.."] {
            assert_eq!(
                write_payload_file(&record(bad, 0o644, b"x"), &destination(), true, windows_paths),
                Err(WrapperError::ExtractInvalidInstallDir),
                "{:?}",
                bad
            );
        }
    }
    for bad in ["..\\up", "\\abs", "a\\..\\..\\b", "C:/x", "C:", "bin/c:x"] {
        assert_eq!(
            write_payload_file(&record(bad, 0o644, b"x"), &destination(), true, true),
            Err(WrapperError::ExtractInvalidInstallDir),
            "{:?}",
            bad
        );
    }
}

#[test]
fn a_path_with_a_backslash_names_one_file_on_a_posix_host() {
    let steps = write_payload_file(&record("a\\b", 0o644, b"x"), &destination(), true, false);
    let file = path("/data", &[".burrito", "demo_erts-13.0_1.2.3", "a\\b"]);
    assert_eq!(
        steps,
        Ok(vec![
            FsAction::CreateDirs { dir: destination() },
            FsAction::CreateFile { file: file.clone() },
            FsAction::WriteData { file: file.clone(), content: b"x".to_vec() },
            FsAction::SetMode { file, mode: 0o644 },
        ])
    );
}

#[test]
fn a_path_with_a_backslash_names_a_file_in_a_directory_on_a_windows_host() {
    let steps = write_payload_file(&record("a\\b", 0o644, b"x"), &destination(), false, true);
    let file = path("/data", &[".burrito", "demo_erts-13.0_1.2.3", "a", "b"]);
    assert_eq!(
        steps,
        Ok(vec![
            FsAction::CreateDirs { dir: path("/data", &[".burrito", "demo_erts-13.0_1.2.3", "a"]) },
            FsAction::CreateFile { file: file.clone() },
            FsAction::WriteData { file, content: b"x".to_vec() },
        ])
    );
}

#[test]
fn a_record_is_written_to_the_destination_joined_with_its_path() {
    for relative in ["bin/demo", "README", "lib/demo-1.2.3/ebin/demo.app", "a\\b", "x/C:/y"] {
        let steps =
            write_payload_file(&record(relative, 0o644, b"x"), &destination(), true, false).unwrap();
        let expected = format!("{}/{}", destination().to_text(), relative);
        for step in &steps[1..] {
            match step {
                FsAction::CreateFile { file }
                | FsAction::WriteData { file, .. }
                | FsAction::SetMode { file, .. } => assert_eq!(file.to_text(), expected),
                FsAction::CreateDirs { .. } => panic!("{:?}", step),
            }
        }
        match &steps[0] {
            FsAction::CreateDirs { dir } => {
                assert!(expected.starts_with(&format!("{}/", dir.to_text())) || relative == "README");
                assert!(dir.to_text().starts_with(&destination().to_text()));
            }
            other => panic!("{:?}", other),
        }
    }
}

#[test]
fn records_are_written_in_order() {
    let archive = Archive {
        records: vec![record("bin/demo", 0o755, b"one"), record("lib/x", 0o644, b"two")],
    };
    let (result, files, log) = install(archive, true);
    assert_eq!(result, Ok(()));
    assert_eq!(log.len(), 8);
    assert_eq!(
        files.get("/data/.burrito/demo_erts-13.0_1.2.3/bin/demo"),
        Some(&(b"one".to_vec(), Some(0o755)))
    );
    assert_eq!(
        files.get("/data/.burrito/demo_erts-13.0_1.2.3/lib/x"),
        Some(&(b"two".to_vec(), Some(0o644)))
    );
    assert!(matches!(&log[3], FsAction::SetMode { mode: 0o755, .. }));
    assert!(matches!(&log[4], FsAction::CreateDirs { .. }));
}

#[test]
fn an_empty_archive_is_installed_without_a_step() {
    let installer = Installer::new(Archive { records: vec![] }, destination(), true, false);
    assert_eq!(installer.action(), None);
    assert!(installer.is_finished());
    assert_eq!(installer.failure(), None);
}

#[test]
fn a_later_record_overwrites_an_earlier_one() {
    let archive = Archive {
        records: vec![record("etc/conf", 0o644, b"first"), record("etc/conf", 0o600, b"second")],
    };
    let (result, files, log) = install(archive, true);
    assert_eq!(result, Ok(()));
    assert_eq!(log.len(), 8);
    assert_eq!(files.len(), 1);
    assert_eq!(
        files.get("/data/.burrito/demo_erts-13.0_1.2.3/etc/conf"),
        Some(&(b"second".to_vec(), Some(0o600)))
    );
}

#[test]
fn zero_mode_and_empty_content_are_written_as_given() {
    let (result, files, _) = install(Archive { records: vec![record("empty", 0, b"")] }, true);
    assert_eq!(result, Ok(()));
    assert_eq!(files.get("/data/.burrito/demo_erts-13.0_1.2.3/empty"), Some(&(Vec::new(), Some(0))));
}

#[test]
fn a_record_that_leaves_the_destination_stops_the_installation_there() {
    let archive = Archive {
        records: vec![
            record("good", 0o644, b"kept"),
            record("../bad", 0o644, b"never"),
            record("later", 0o644, b"never"),
        ],
    };
    let (result, files, log) = install(archive, true);
    assert_eq!(result, Err(WrapperError::ExtractInvalidInstallDir));
    assert_eq!(log.len(), 4);
    assert_eq!(files.len(), 1);
    assert!(files.contains_key("/data/.burrito/demo_erts-13.0_1.2.3/good"));
}

#[test]
fn a_first_record_that_leaves_the_destination_fails_at_once() {
    let installer =
        Installer::new(Archive { records: vec![record("/abs", 0o644, b"x")] }, destination(), true, false);
    assert_eq!(installer.action(), None);
    assert!(!installer.is_finished());
    assert_eq!(installer.failure(), Some(WrapperError::ExtractInvalidInstallDir));
}

fn fail_at(step: usize, cause: &str) -> (Option<WrapperError>, usize) {
    let archive = Archive {
        records: vec![record("bin/demo", 0o755, b"one"), record("lib/x", 0o644, b"two")],
    };
    let mut installer = Installer::new(archive, destination(), true, false);
    let mut performed = 0;
    while installer.action().is_some() {
        if performed == step {
            installer.advance(FsOutcome::Failed(cause.to_string()));
        } else {
            installer.advance(FsOutcome::Done);
        }
        performed += 1;
    }
    (installer.failure(), performed)
}

#[test]
fn a_failed_mkdir_ends_the_installation() {
    assert_eq!(
        fail_at(0, "permission denied"),
        (
            Some(WrapperError::ExtractMkdirFailed(
                "Could not create all install directories".to_string()
            )),
            1
        )
    );
}

#[test]
fn a_failed_create_ends_the_installation() {
    assert_eq!(
        fail_at(1, "permission denied"),
        (Some(WrapperError::ExtractFileWriteFailed("Could not create file".to_string())), 2)
    );
}

#[test]
fn a_failed_write_ends_the_installation() {
    assert_eq!(
        fail_at(2, "disk full"),
        (Some(WrapperError::ExtractFileWriteFailed("Could not write data to file".to_string())), 3)
    );
}

#[test]
fn a_failed_chmod_ends_the_installation_with_its_cause() {
    assert_eq!(
        fail_at(3, "operation not permitted"),
        (Some(WrapperError::ExtractChmodFailed("operation not permitted".to_string())), 4)
    );
}

#[test]
fn a_failure_in_a_later_record_leaves_the_earlier_ones_done() {
    assert_eq!(
        fail_at(5, "x"),
        (Some(WrapperError::ExtractFileWriteFailed("Could not create file".to_string())), 6)
    );
}

#[test]
fn the_error_of_a_step_depends_on_its_kind() {
    let file = path("/d", &["f"]);
    assert_eq!(
        FsAction::CreateDirs { dir: file.clone() }.failure("c".to_string()),
        WrapperError::ExtractMkdirFailed("Could not create all install directories".to_string())
    );
    assert_eq!(
        FsAction::CreateFile { file: file.clone() }.failure("c".to_string()),
        WrapperError::ExtractFileWriteFailed("Could not create file".to_string())
    );
    assert_eq!(
        FsAction::WriteData { file: file.clone(), content: vec![] }.failure("c".to_string()),
        WrapperError::ExtractFileWriteFailed("Could not write data to file".to_string())
    );
    assert_eq!(
        FsAction::SetMode { file, mode: 0 }.failure("c".to_string()),
        WrapperError::ExtractChmodFailed("c".to_string())
    );
}

#[test]
fn an_installation_that_is_over_takes_no_more_reports() {
    let mut installer =
        Installer::new(Archive { records: vec![record("a", 0o644, b"x")] }, destination(), false, false);
    installer.advance(FsOutcome::Failed("no".to_string()));
    let failure = installer.failure();
    assert!(failure.is_some());
    installer.advance(FsOutcome::Done);
    installer.advance(FsOutcome::Failed("again".to_string()));
    assert_eq!(installer.failure(), failure);
    assert_eq!(installer.action(), None);

    let mut finished = Installer::new(Archive { records: vec![] }, destination(), false, false);
    finished.advance(FsOutcome::Failed("late".to_string()));
    assert!(finished.is_finished());
}
