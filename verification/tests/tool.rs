use wasi_worker::{
    edit_manifest, install_manifest, parse_manifest, render_manifest, Cli, ManifestError, Step,
};

const PLAIN: &str = "[package]\nname = \"demo\"\nversion = \"0.1.0\"\n\n[dependencies]\nlog = \"0.4\"\n";

#[test]
fn consequent_tests() {
    test_install();
    test_deploy();
}

fn test_install() {
    // the files that `install` leaves under ./src/bin
    let files: Vec<&str> = Cli::Install.exec().iter().filter_map(|step| step.file()).collect();
    assert_eq!(files, ["./src/bin/worker.rs"]);
}

fn test_deploy() {
    // the files that `deploy` leaves under ./dist
    let files = Cli::Deploy
        .exec()
        .iter()
        .filter_map(|step| step.file())
        .filter(|path| path.starts_with("./dist/"))
        .count();
    assert_eq!(files, 2, "should have 2 files in ./dist after `wasiworker deploy`");
}

#[test]
fn steps_that_create_files() {
    assert_eq!(Step::WriteTemplate.file(), Some("./src/bin/worker.rs"));
    assert_eq!(Step::CopyWorker.file(), Some("./dist/worker.wasm"));
    assert_eq!(Step::WriteGlue.file(), Some("./dist/worker.js"));
    assert_eq!(Step::CheckPackage.file(), None);
    assert_eq!(Step::CreateBinDir.file(), None);
    assert_eq!(Step::EditManifest.file(), None);
    assert_eq!(Step::BuildWorker.file(), None);
    assert_eq!(Step::CreateDist.file(), None);
    assert_eq!(Step::ShrinkWorker.file(), None);
}

#[test]
fn install_steps() {
    assert_eq!(
        Cli::Install.exec(),
        vec![Step::CheckPackage, Step::CreateBinDir, Step::WriteTemplate, Step::EditManifest]
    );
    assert_eq!(Cli::Install.exec(), Cli::Deploy.install());
}

#[test]
fn deploy_steps() {
    assert_eq!(
        Cli::Deploy.exec(),
        vec![
            Step::CheckPackage,
            Step::BuildWorker,
            Step::CreateDist,
            Step::CopyWorker,
            Step::ShrinkWorker,
            Step::WriteGlue,
        ]
    );
    assert_eq!(Cli::Deploy.exec(), Cli::Install.deploy());
}

#[test]
fn manifest_without_targets_gets_the_worker() {
    let out = install_manifest(PLAIN).expect("edit").expect("changed");
    assert_ne!(out, PLAIN);
    assert!(out.starts_with(PLAIN.trim_end()), "{}", out);
    assert!(out.contains("[[bin]]"), "{}", out);
    assert!(out.contains("name = \"worker\""), "{}", out);
    assert!(out.contains("path = \"src/bin/worker.rs\""), "{}", out);
    assert!(out.contains("wasi-worker = \"0.5\""), "{}", out);
    assert!(out.contains("log = \"0.4\""), "{}", out);
    assert_eq!(install_manifest(&out), Ok(None));
}

#[test]
fn manifest_with_other_targets_gets_the_worker_last() {
    let text = format!("{}\n[[bin]]\nname = \"first\"\npath = \"src/main.rs\"\n", PLAIN);
    let out = install_manifest(&text).expect("edit").expect("changed");
    let first = out.find("name = \"first\"").expect("first target kept");
    let worker = out.find("name = \"worker\"").expect("worker target added");
    assert!(first < worker, "{}", out);
    assert_eq!(out.matches("[[bin]]").count(), 2);
    assert_eq!(install_manifest(&out), Ok(None));
}

#[test]
fn manifest_with_the_worker_is_left_alone() {
    let text = format!("{}\n[[bin]]\nname = \"worker\"\npath = \"elsewhere.rs\"\n", PLAIN);
    assert_eq!(install_manifest(&text), Ok(None));
    let mut doc = parse_manifest(&text).expect("parse");
    assert_eq!(edit_manifest(&mut doc), Ok(false));
    let out = render_manifest(&doc);
    assert_eq!(out.matches("[[bin]]").count(), 1);
    assert!(out.contains("wasi-worker = \"0.5\""), "{}", out);
}

#[test]
fn bin_that_is_no_list_of_tables_is_replaced() {
    let text = "bin = 3\n[package]\nname = \"demo\"\n";
    let out = install_manifest(text).expect("edit").expect("changed");
    assert!(!out.contains("bin = 3"), "{}", out);
    assert!(out.contains("name = \"worker\""), "{}", out);
    assert_eq!(install_manifest(&out), Ok(None));
}

#[test]
fn nameless_targets_do_not_count() {
    let text = "[package]\nname = \"demo\"\n\n[[bin]]\npath = \"a.rs\"\n\n[[bin]]\nname = 7\n";
    let mut doc = parse_manifest(text).expect("parse");
    assert_eq!(edit_manifest(&mut doc), Ok(true));
    assert_eq!(render_manifest(&doc).matches("[[bin]]").count(), 3);
}

#[test]
fn text_that_is_no_manifest_is_refused() {
    assert_eq!(install_manifest("[package\nname = "), Err(ManifestError::Invalid));
    assert!(matches!(parse_manifest("= ="), Err(ManifestError::Invalid)));
}

#[test]
fn dependencies_that_take_no_entry_are_reported() {
    let text = "dependencies = 3\n[package]\nname = \"demo\"\n";
    assert_eq!(install_manifest(text), Err(ManifestError::Dependencies));
    let mut doc = parse_manifest(text).expect("parse");
    assert_eq!(edit_manifest(&mut doc), Err(ManifestError::Dependencies));
    assert_eq!(render_manifest(&doc), text);
}

#[test]
fn rendering_an_untouched_manifest_gives_the_text_back() {
    let doc = parse_manifest(PLAIN).expect("parse");
    assert_eq!(render_manifest(&doc), PLAIN);
}
