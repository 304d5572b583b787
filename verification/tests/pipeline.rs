use fsva::manifest::ManifestError;
use fsva::outcome::Outcome;
use fsva::pipeline::{output_directory, output_directory_at, Action, Event, Run, RunError, Stage};
use fsva::target::VerificationTarget;

const TOP: &str = "name: \":proj:top\"\ntargets:\n  tb_sim:\n    default_tool: ghdl\n  build: {}\n";
const LIB: &str = "name: lib\ntargets:\n  a_tb: {}\n  tb_b: {}\n";
const NONE: &str = "name: plain\ntargets:\n  build: {}\n";

fn strings(items: &[&str]) -> Vec<String> {
    items.iter().map(|s| s.to_string()).collect()
}

fn begin(manifests: &[&str], compress: bool) -> (Run, Action) {
    let (mut run, action) = Run::start("/work", "_fsva", compress);
    match action {
        Action::Scan { workpath } => assert_eq!("/work", workpath),
        other => panic!("{:?}", other),
    }
    let action = run.step(Event::Scanned(strings(manifests)));
    (run, action)
}

fn exited(success: bool, stdout: &str) -> Event {
    Event::Exited { success, stdout: stdout.as_bytes().to_vec(), stderr: b"E".to_vec() }
}

fn expect_read(action: Action, expected: &str) {
    match action {
        Action::ReadManifest { file } => assert_eq!(expected, file),
        other => panic!("{:?}", other),
    }
}

fn expect_execute(action: Action, announcement_expected: &str, arguments_expected: &[&str]) {
    match action {
        Action::Execute { announcement, command, arguments } => {
            assert_eq!(announcement_expected, announcement);
            assert_eq!("fusesoc", command);
            assert_eq!(strings(arguments_expected), arguments);
        }
        other => panic!("{:?}", other),
    }
}

fn expect_report(action: Action, file_expected: &str, contents_expected: &[u8]) {
    match action {
        Action::WriteReport { file, contents } => {
            assert_eq!(file_expected, file);
            assert_eq!(contents_expected.to_vec(), contents);
        }
        other => panic!("{:?}", other),
    }
}

fn expect_error(action: Action) -> RunError {
    match action {
        Action::Stop(Err(e)) => e,
        other => panic!("{:?}", other),
    }
}

#[test]
fn run_begins_by_scanning() {
    let (run, action) = Run::start("/work", "_fsva", true);
    assert!(matches!(action, Action::Scan { .. }));
    assert_eq!(Stage::Scanning, run.stage);
    assert_eq!("/work", run.workpath);
    assert_eq!("_fsva", run.outdir);
    assert!(run.compress);
    assert!(run.manifests.is_empty());
    assert!(run.targets.is_empty());
    assert_eq!("", run.outpath);
}

#[test]
fn no_manifests_end_the_run_before_any_output() {
    let (run, action) = begin(&[], false);
    match expect_error(action) {
        RunError::NoManifests { workpath } => assert_eq!("/work", workpath),
        other => panic!("{:?}", other),
    }
    assert_eq!(Stage::Finished, run.stage);
    assert_eq!("", run.outpath);
}

#[test]
fn no_targets_end_the_run_before_any_output() {
    let (mut run, action) = begin(&["/work/a.core", "/work/b.core"], false);
    expect_read(action, "/work/a.core");
    let action = run.step(Event::ManifestRead(NONE.as_bytes().to_vec()));
    expect_read(action, "/work/b.core");
    let action = run.step(Event::ManifestRead(b"name: other\n".to_vec()));
    assert!(matches!(expect_error(action), RunError::NoTargets));
    assert_eq!(Stage::Finished, run.stage);
}

#[test]
fn whole_run_with_two_manifests() {
    let (mut run, action) = begin(&["/work/top.core", "/work/lib/lib.core"], false);
    assert_eq!(Stage::Reading, run.stage);
    expect_read(action, "/work/top.core");
    let action = run.step(Event::ManifestRead(TOP.as_bytes().to_vec()));
    assert_eq!(1, run.targets.len());
    expect_read(action, "/work/lib/lib.core");
    let action = run.step(Event::ManifestRead(LIB.as_bytes().to_vec()));
    assert_eq!(3, run.targets.len());
    assert_eq!(Stage::Creating, run.stage);
    match action {
        Action::CreateOutput { workpath, outdir } => {
            assert_eq!("/work", workpath);
            assert_eq!("_fsva", outdir);
        }
        other => panic!("{:?}", other),
    }
    let action = run.step(Event::OutputCreated("/work/_fsva/now".to_string()));
    assert_eq!(Stage::Running, run.stage);
    assert_eq!("/work/_fsva/now", run.outpath);
    expect_execute(
        action,
        "Verifying core: :proj:top, target: tb_sim",
        &[
            "--cores-root",
            ".",
            "run",
            "--target",
            "--analyze_options",
            "\\-P/usr/local/lib/ghdl/vendors -frelaxed-rules",
            "tb_sim",
            ":proj:top",
        ],
    );
    let action = run.step(exited(true, "Warning: x\nwarn"));
    assert_eq!(Stage::Reporting, run.stage);
    expect_report(
        action,
        "/work/_fsva/now/proj-top_tb_sim",
        b"***** STDERR *****\n\nE\n***** STDOUT *****\n\nWarning: x\nwarn",
    );
    let action = run.step(Event::ReportWritten);
    expect_execute(
        action,
        "Verifying core: lib, target: a_tb",
        &["--cores-root", ".", "run", "--target", "a_tb", "lib"],
    );
    let action = run.step(exited(true, ""));
    expect_report(action, "/work/_fsva/now/lib_a_tb", b"***** STDERR *****\n\nE\n***** STDOUT *****\n\n");
    let action = run.step(Event::ReportWritten);
    expect_execute(
        action,
        "Verifying core: lib, target: tb_b",
        &["--cores-root", ".", "run", "--target", "tb_b", "lib"],
    );
    let action = run.step(exited(true, "no Errors"));
    expect_report(action, "/work/_fsva/now/lib_tb_b", b"***** STDERR *****\n\nE\n***** STDOUT *****\n\nno Errors");
    let action = run.step(Event::ReportWritten);
    assert_eq!(Stage::Summarizing, run.stage);
    match action {
        Action::WriteSummary { file } => assert_eq!("/work/_fsva/now/summary", file),
        other => panic!("{:?}", other),
    }
    assert!(run.targets.iter().all(|t| t.passed));
    assert_eq!(vec![0, 0, 1], run.targets.iter().map(|t| t.number_of_errors).collect::<Vec<_>>());
    assert_eq!(vec![2, 0, 0], run.targets.iter().map(|t| t.number_of_warnings).collect::<Vec<_>>());
    let action = run.step(Event::SummaryWritten);
    assert!(matches!(action, Action::Stop(Ok(()))));
    assert_eq!(Stage::Finished, run.stage);
}

fn run_single(success: bool, stdout: &str, compress: bool) -> (Run, Action) {
    let (mut run, _) = begin(&["/work/top.core"], compress);
    let action = run.step(Event::ManifestRead(TOP.as_bytes().to_vec()));
    assert!(matches!(action, Action::CreateOutput { .. }));
    run.step(Event::OutputCreated("/work/_fsva/2024-01-01_10-00-00".to_string()));
    run.step(exited(success, stdout));
    let action = run.step(Event::ReportWritten);
    assert!(matches!(action, Action::WriteSummary { .. }));
    let action = run.step(Event::SummaryWritten);
    (run, action)
}

#[test]
fn failed_target_fails_the_run_after_the_summary() {
    let (run, action) = run_single(false, "", false);
    assert!(matches!(expect_error(action), RunError::TargetsFailed));
    assert_eq!(Stage::Finished, run.stage);
    let (_, action) = run_single(false, "", true);
    assert!(matches!(expect_error(action), RunError::TargetsFailed));
}

#[test]
fn errors_and_warnings_do_not_fail_the_run() {
    let (run, action) = run_single(true, "error error warn", false);
    assert!(matches!(action, Action::Stop(Ok(()))));
    assert_eq!(2, run.targets[0].number_of_errors);
    assert_eq!(1, run.targets[0].number_of_warnings);
}

#[test]
fn successful_run_is_packed_if_asked() {
    let (mut run, action) = run_single(true, "", true);
    assert_eq!(Stage::Archiving, run.stage);
    match action {
        Action::Archive { directory, archive, root } => {
            assert_eq!("/work/_fsva/2024-01-01_10-00-00", directory);
            assert_eq!("/work/_fsva/2024-01-01_10-00-00.tar.gz", archive);
            assert_eq!("2024-01-01_10-00-00", root);
        }
        other => panic!("{:?}", other),
    }
    assert!(matches!(run.step(Event::Archived), Action::Stop(Ok(()))));
    assert_eq!(Stage::Finished, run.stage);
}

#[test]
fn failed_archive_ends_the_run_with_the_callers_words() {
    let (mut run, _) = run_single(true, "", true);
    match expect_error(run.step(Event::Failed("disk full".to_string()))) {
        RunError::Failed(words) => assert_eq!("disk full", words),
        other => panic!("{:?}", other),
    }
    assert!(run.targets[0].passed);
}

#[test]
fn unusable_manifest_ends_the_run() {
    let (mut run, _) = begin(&["/work/a.core", "/work/b.core"], false);
    match expect_error(run.step(Event::ManifestRead(b"targets: {}\n".to_vec()))) {
        RunError::Manifest { file, error } => {
            assert_eq!("/work/a.core", file);
            assert!(matches!(error, ManifestError::MissingName));
        }
        other => panic!("{:?}", other),
    }
    assert_eq!(Stage::Finished, run.stage);
    let (mut run, _) = begin(&["/work/a.core"], false);
    match expect_error(run.step(Event::ManifestRead(b"name: [x\n".to_vec()))) {
        RunError::Manifest { file, error } => {
            assert_eq!("/work/a.core", file);
            assert!(matches!(error, ManifestError::Syntax(_)));
        }
        other => panic!("{:?}", other),
    }
}

#[test]
fn output_that_is_no_text_ends_the_run() {
    let (mut run, _) = begin(&["/work/top.core"], false);
    run.step(Event::ManifestRead(TOP.as_bytes().to_vec()));
    run.step(Event::OutputCreated("/o".to_string()));
    let action = run.step(Event::Exited { success: true, stdout: vec![0xff], stderr: vec![] });
    match expect_error(action) {
        RunError::NotText { core_name, target_name } => {
            assert_eq!(":proj:top", core_name);
            assert_eq!("tb_sim", target_name);
        }
        other => panic!("{:?}", other),
    }
    assert_eq!(Stage::Finished, run.stage);
}

#[test]
fn failure_of_the_caller_ends_the_run_at_any_stage() {
    let (mut run, _) = Run::start("/work", "_fsva", false);
    match expect_error(run.step(Event::Failed("cannot read".to_string()))) {
        RunError::Failed(words) => assert_eq!("cannot read", words),
        other => panic!("{:?}", other),
    }
    assert_eq!(Stage::Finished, run.stage);
    let (mut run, _) = begin(&["/work/top.core"], false);
    assert!(matches!(expect_error(run.step(Event::Failed("x".to_string()))), RunError::Failed(_)));
    let (mut run, _) = begin(&["/work/top.core"], false);
    run.step(Event::ManifestRead(TOP.as_bytes().to_vec()));
    run.step(Event::OutputCreated("/o".to_string()));
    assert!(matches!(expect_error(run.step(Event::Failed("x".to_string()))), RunError::Failed(_)));
}

#[test]
fn reports_out_of_turn_end_the_run() {
    let events: Vec<fn() -> Event> = vec![
        || Event::ManifestRead(TOP.as_bytes().to_vec()),
        || Event::OutputCreated("/o".to_string()),
        || Event::Exited { success: true, stdout: vec![], stderr: vec![] },
        || Event::ReportWritten,
        || Event::SummaryWritten,
        || Event::Archived,
    ];
    for event in &events {
        let (mut run, _) = Run::start("/work", "_fsva", false);
        assert!(matches!(expect_error(run.step(event())), RunError::OutOfTurn));
        assert_eq!(Stage::Finished, run.stage);
    }
    let (mut run, _) = begin(&["/work/top.core"], false);
    assert!(matches!(expect_error(run.step(Event::Scanned(strings(&["x.core"])))), RunError::OutOfTurn));
    let (mut run, _) = begin(&["/work/top.core"], false);
    run.step(Event::ManifestRead(TOP.as_bytes().to_vec()));
    assert!(matches!(expect_error(run.step(Event::ReportWritten)), RunError::OutOfTurn));
}

#[test]
fn finished_run_takes_nothing_more() {
    let (mut run, _) = begin(&[], false);
    for _ in 0..2 {
        assert!(matches!(expect_error(run.step(Event::Scanned(strings(&["a.core"])))), RunError::OutOfTurn));
        assert!(matches!(expect_error(run.step(Event::Failed("x".to_string()))), RunError::OutOfTurn));
        assert_eq!(Stage::Finished, run.stage);
    }
}

#[test]
fn run_with_warnings_succeeds_from_first_step_to_last() {
    let (mut run, mut action) = begin(&["/work/lib.core", "/work/top.core"], false);
    let outputs = ["quiet", "warn: a\nWARNING: b", "quiet too"];
    let mut ran = 0;
    let result = loop {
        let event = match action {
            Action::ReadManifest { file } => {
                Event::ManifestRead(if file.ends_with("lib.core") { LIB } else { TOP }.as_bytes().to_vec())
            }
            Action::CreateOutput { .. } => Event::OutputCreated("/work/_fsva/now".to_string()),
            Action::Execute { .. } => {
                ran += 1;
                exited(true, outputs[ran - 1])
            }
            Action::WriteReport { .. } => Event::ReportWritten,
            Action::WriteSummary { .. } => Event::SummaryWritten,
            Action::Stop(result) => break result,
            other => panic!("{:?}", other),
        };
        action = run.step(event);
    };
    assert!(result.is_ok());
    assert_eq!(3, ran);
    assert_eq!(vec![0, 2, 0], run.targets.iter().map(|t| t.number_of_warnings).collect::<Vec<_>>());
    let summary = fsva::summary::summarize(&run.targets, 5, "100.00", "0.00");
    assert!(summary.succeeded);
    assert!(summary.text.ends_with("  ERRORS:   0\n  WARNINGS: 2\n"));
}

#[test]
fn errors_in_words() {
    assert_eq!(
        "No .core files found under the workpath: \"/work\".",
        RunError::NoManifests { workpath: "/work".to_string() }.message()
    );
    assert_eq!("No verification targets found.", RunError::NoTargets.message());
    assert_eq!(
        "At least one verification target failed. Check summary for details.",
        RunError::TargetsFailed.message()
    );
    assert_eq!(
        "core name must be string, file: \"a.core\"",
        RunError::Manifest { file: "a.core".to_string(), error: ManifestError::NameNotText }.message()
    );
    assert_eq!(
        "bad",
        RunError::Manifest { file: "a.core".to_string(), error: ManifestError::Syntax("bad".to_string()) }.message()
    );
    assert_eq!(
        "Output is not valid UTF-8, core: u, target: tb",
        RunError::NotText { core_name: "u".to_string(), target_name: "tb".to_string() }.message()
    );
    assert_eq!("disk full", RunError::Failed("disk full".to_string()).message());
    assert_eq!("Event does not fit the stage of the run.", RunError::OutOfTurn.message());
}

#[test]
fn output_directory_stands_in_outdir_in_workpath() {
    assert_eq!(
        "/work/_fsva/2024-01-01_10-00-00",
        output_directory("/work", "_fsva", "2024-01-01_10-00-00")
    );
    assert_eq!("/work/a/b/s", output_directory("/work/", "a/b", "s"));
    assert_eq!("/abs/s", output_directory("/work", "/abs", "s"));
}

#[test]
fn output_directory_is_named_by_the_second() {
    assert_eq!(
        Some("/work/_fsva/1970-01-01_00-00-00".to_string()),
        output_directory_at("/work", "_fsva", 0)
    );
    assert_eq!(
        Some("/work/_fsva/2024-01-01_10-00-00".to_string()),
        output_directory_at("/work", "_fsva", 1_704_103_200)
    );
    assert_eq!(
        Some("/work/_fsva/2024-02-29_23-59-59".to_string()),
        output_directory_at("/work", "_fsva", 1_709_251_199)
    );
    assert_eq!(
        Some("out/9999-12-31_23-59-59".to_string()),
        output_directory_at("", "out", 253_402_300_799)
    );
    assert_eq!(
        Some("out/+10000-01-01_00-00-00".to_string()),
        output_directory_at("", "out", 253_402_300_800)
    );
    assert_eq!(
        Some("1969-12-31_23-59-59".to_string()),
        output_directory_at("", "", -1)
    );
}

#[test]
fn moment_without_a_date_has_no_output_directory() {
    assert_eq!(None, output_directory_at("/work", "_fsva", i64::MAX));
    assert_eq!(None, output_directory_at("/work", "_fsva", i64::MIN));
}

#[test]
fn targets_found_by_hand_are_taken() {
    let (mut run, _) = begin(&["/work/a.core", "/work/b.core"], false);
    let found = vec![VerificationTarget::declared("/work/a.core", "u", "tb_x", "")];
    expect_read(run.take_targets(Ok(found)), "/work/b.core");
    assert_eq!(1, run.cursor);
    let action = run.take_targets(Ok(Vec::new()));
    assert!(matches!(action, Action::CreateOutput { .. }));
    assert_eq!(1, run.targets.len());
    assert_eq!(Stage::Creating, run.stage);
    assert!(matches!(expect_error(run.take_targets(Ok(Vec::new()))), RunError::OutOfTurn));

    let (mut run, _) = begin(&["/work/a.core"], false);
    match expect_error(run.take_targets(Err(ManifestError::NameNotText))) {
        RunError::Manifest { file, error } => {
            assert_eq!("/work/a.core", file);
            assert!(matches!(error, ManifestError::NameNotText));
        }
        other => panic!("{:?}", other),
    }
    let (mut run, _) = begin(&["/work/a.core"], false);
    assert!(matches!(expect_error(run.take_targets(Ok(Vec::new()))), RunError::NoTargets));
}

#[test]
fn outcome_found_by_hand_is_taken() {
    let (mut run, _) = begin(&["/work/top.core"], false);
    assert!(matches!(
        expect_error(run.take_outcome(Some(Outcome { passed: true, errors: 0, warnings: 0 }), b"", b"")),
        RunError::OutOfTurn
    ));
    let (mut run, _) = begin(&["/work/top.core"], false);
    run.step(Event::ManifestRead(TOP.as_bytes().to_vec()));
    run.step(Event::OutputCreated("/o".to_string()));
    let action = run.take_outcome(Some(Outcome { passed: true, errors: 5, warnings: 6 }), b"out", b"err");
    expect_report(action, "/o/proj-top_tb_sim", b"***** STDERR *****\n\nerr\n***** STDOUT *****\n\nout");
    assert!(run.targets[0].passed);
    assert_eq!(5, run.targets[0].number_of_errors);
    assert_eq!(6, run.targets[0].number_of_warnings);
    assert_eq!(Stage::Reporting, run.stage);

    let (mut run, _) = begin(&["/work/top.core"], false);
    run.step(Event::ManifestRead(TOP.as_bytes().to_vec()));
    run.step(Event::OutputCreated("/o".to_string()));
    assert!(matches!(expect_error(run.take_outcome(None, b"", b"")), RunError::NotText { .. }));
}
