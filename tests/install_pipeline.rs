use vs_launcher::errors::{InstallError, UiError};
use vs_launcher::launcher::{contains_launcher, is_launcher_name};
use vs_launcher::pipeline::{Action, DownloadJob, InstallPipeline, Stage};
use vs_launcher::tar::{tar_args, tar_program};

fn job(extract: bool, extract_dir: Option<&str>, subfolder: Option<&str>) -> DownloadJob {
    DownloadJob {
        url: "https://example.invalid/game.tar.gz".to_string(),
        dest: "/games/v1".to_string(),
        channel: "download://job/1".to_string(),
        extract,
        extract_dir: extract_dir.map(|s| s.to_string()),
        subfolder: subfolder.map(|s| s.to_string()),
    }
}

#[test]
fn missing_launcher_after_tar_rolls_back() {
    let mut p = InstallPipeline::new(job(true, None, None));
    assert!(p.response(200).is_none());
    match p.downloaded("/games/v1/game.tar.gz".to_string(), false) {
        Action::ExtractTar { program, args, into } => {
            assert_eq!(program, "tar");
            assert_eq!(into, "/games/v1");
            assert_eq!(args[3], "/games/v1/game.tar.gz");
        }
        other => panic!("unexpected action: {:?}", other),
    }
    assert_eq!(p.stage(), Stage::ExtractingTar);
    match p.extracted() {
        Action::Verify { dir, accept_bare } => {
            assert_eq!(dir, "/games/v1");
            assert!(accept_bare);
        }
        other => panic!("unexpected action: {:?}", other),
    }
    let found = contains_launcher(&vec!["readme.txt".to_string(), "lib.so".to_string()], true);
    assert!(!found);
    match p.verified(found) {
        Action::Rollback { dir, error } => {
            assert_eq!(dir, "/games/v1");
            assert_eq!(error, InstallError::ExecutableNotFound);
        }
        other => panic!("unexpected action: {:?}", other),
    }
    assert_eq!(p.stage(), Stage::Failed);
}

#[test]
fn launcher_found_after_zip_finishes() {
    let mut p = InstallPipeline::new(job(true, Some("/games/v1"), Some("docs")));
    match p.downloaded("/games/v1/game.zip".to_string(), false) {
        Action::ExtractZip { archive, into, subfolder } => {
            assert_eq!(archive, "/games/v1/game.zip");
            assert_eq!(into, "/games/v1");
            assert_eq!(subfolder, Some("docs".to_string()));
        }
        other => panic!("unexpected action: {:?}", other),
    }
    match p.extracted() {
        Action::Verify { accept_bare, .. } => assert!(!accept_bare),
        other => panic!("unexpected action: {:?}", other),
    }
    match p.verified(true) {
        Action::Finish { channel, path } => {
            assert_eq!(channel, "download://job/1/done");
            assert_eq!(path, "/games/v1");
        }
        other => panic!("unexpected action: {:?}", other),
    }
    assert_eq!(p.stage(), Stage::Done);
}

#[test]
fn missing_launcher_after_zip_rolls_back_extract_dir() {
    let mut p = InstallPipeline::new(job(true, Some("/games/unpacked"), None));
    assert!(matches!(
        p.downloaded("/games/v1/game.zip".to_string(), false),
        Action::ExtractZip { .. }
    ));
    match p.extracted() {
        Action::Verify { dir, accept_bare } => {
            assert_eq!(dir, "/games/unpacked");
            assert!(!accept_bare);
        }
        other => panic!("unexpected action: {:?}", other),
    }
    match p.verified(false) {
        Action::Rollback { dir, error } => {
            assert_eq!(dir, "/games/unpacked");
            assert_eq!(error, InstallError::ExecutableNotFound);
        }
        other => panic!("unexpected action: {:?}", other),
    }
}

#[test]
fn no_extraction_finishes_after_download() {
    let mut p = InstallPipeline::new(job(false, None, None));
    match p.downloaded("/games/v1/game.zip".to_string(), false) {
        Action::Finish { channel, .. } => assert_eq!(channel, "download://job/1/done"),
        other => panic!("unexpected action: {:?}", other),
    }
    assert_eq!(p.stage(), Stage::Done);
}

#[test]
fn zip_without_extract_dir_fails() {
    let mut p = InstallPipeline::new(job(true, None, None));
    match p.downloaded("/games/v1/game.zip".to_string(), false) {
        Action::Abort { error } => assert_eq!(error, InstallError::MissingExtractDir),
        other => panic!("unexpected action: {:?}", other),
    }
}

#[test]
fn http_failure_aborts() {
    let mut p = InstallPipeline::new(job(true, None, None));
    match p.response(404) {
        Some(Action::Abort { error }) => assert_eq!(error, InstallError::Http(404)),
        other => panic!("unexpected action: {:?}", other),
    }
    assert_eq!(p.stage(), Stage::Failed);
}

#[test]
fn step_failures_abort_with_their_error() {
    for e in [
        InstallError::Stream,
        InstallError::Io,
        InstallError::UnsafePath,
        InstallError::ToolFailed,
        InstallError::Emit,
    ] {
        let mut p = InstallPipeline::new(job(true, None, None));
        match p.failed(e) {
            Action::Abort { error } => assert_eq!(error, e),
            other => panic!("unexpected action: {:?}", other),
        }
        assert_eq!(p.stage(), Stage::Failed);
    }
}

#[test]
fn error_kind_tags() {
    assert_eq!(InstallError::Http(500).kind_tag(), "http");
    assert_eq!(InstallError::Stream.kind_tag(), "stream");
    assert_eq!(InstallError::Io.kind_tag(), "io");
    assert_eq!(InstallError::UnsafePath.kind_tag(), "unsafe_path");
    assert_eq!(InstallError::ToolFailed.kind_tag(), "tool_failed");
    assert_eq!(InstallError::ExecutableNotFound.kind_tag(), "executable_not_found");
    assert_eq!(InstallError::Emit.kind_tag(), "emit");
    assert_eq!(InstallError::MissingExtractDir.kind_tag(), "missing_extract_dir");
    let u = InstallError::ToolFailed.to_ui_error("tar failed".to_string());
    assert_eq!(u.name, "tool_failed");
    assert_eq!(u.message, "tar failed");
}

#[test]
fn ui_error_from_text() {
    let a = UiError::from("boom".to_string());
    assert_eq!(a.name, "UNKNOWN");
    assert_eq!(a.message, "boom");
    let b = UiError::from("bang");
    assert_eq!(b.name, "UNKNOWN");
    assert_eq!(b.message, "bang");
}

#[test]
fn launcher_names() {
    assert!(is_launcher_name("Vintagestory.EXE", false));
    assert!(!is_launcher_name("vintagestory", false));
    assert!(is_launcher_name("VintageStory", true));
    assert!(!is_launcher_name("vintagestory.sh", true));
    assert!(contains_launcher(&vec!["a".to_string(), "VINTAGESTORY.exe".to_string()], false));
    assert!(!contains_launcher(&vec![], true));
}

#[test]
fn tar_command_line() {
    assert_eq!(tar_program(true), "bsdtar");
    assert_eq!(tar_program(false), "tar");
    assert_eq!(
        tar_args("/d/a.tar.gz", "/d", None),
        vec!["--strip-components", "1", "-xvf", "/d/a.tar.gz", "-C", "/d"]
    );
    assert_eq!(tar_args("/d/a.tar.gz", "/d", Some("//")).len(), 6);
    assert_eq!(tar_args("/d/a.tar.gz", "/d", Some("game/"))[6], "game/");
}

#[test]
fn tar_action_on_macos_uses_bsdtar_with_subfolder() {
    let mut p = InstallPipeline::new(job(true, None, Some("game/")));
    match p.downloaded("/games/v1/game.tar.gz".to_string(), true) {
        Action::ExtractTar { program, args, .. } => {
            assert_eq!(program, "bsdtar");
            assert_eq!(
                args,
                vec!["--strip-components", "1", "-xvf", "/games/v1/game.tar.gz", "-C", "/games/v1", "game/"]
            );
        }
        other => panic!("unexpected action: {:?}", other),
    }
}
