use std::path::PathBuf;

use rcontest::runner::{
    cargo_build_args, cargo_run_args, executable_search_directories, judge_sample,
    sample_test_report, ProcessOutput, ProcessStatus, RustSolution, SampleProcess, SampleResult,
};

#[test]
fn cargo_arguments_include_selected_binary() {
    let solution = RustSolution {
        root_path: PathBuf::from("."),
        target_path: PathBuf::from("target"),
        bin_name: Some("a".to_string()),
    };
    assert_eq!(
        cargo_build_args(&solution),
        ["build", "--release", "--bin", "a"]
    );
    assert_eq!(
        cargo_run_args(&solution),
        ["run", "--release", "-q", "--bin", "a"]
    );
}

#[test]
fn cargo_arguments_omit_binary_for_default_target() {
    let solution = RustSolution {
        root_path: PathBuf::from("."),
        target_path: PathBuf::from("target"),
        bin_name: None,
    };
    assert_eq!(cargo_build_args(&solution), ["build", "--release"]);
    assert_eq!(cargo_run_args(&solution), ["run", "--release", "-q"]);
}

fn finished(success: bool, stdout: &str) -> SampleProcess {
    SampleProcess::Finished {
        status: ProcessStatus {
            success,
            code: Some(if success { 0 } else { 101 }),
        },
        stdout: stdout.to_string(),
        stderr: "log".to_string(),
    }
}

fn build(success: bool) -> ProcessOutput {
    ProcessOutput {
        label: "cargo build",
        executable: PathBuf::from("cargo"),
        args: vec![],
        status: ProcessStatus {
            success,
            code: None,
        },
        stdout: String::new(),
        stderr: String::new(),
    }
}

#[test]
fn white_space_at_the_end_does_not_count() {
    assert!(matches!(
        judge_sample("3\n", finished(true, "3 \n\n")),
        SampleResult::Ac { actual, stderr } if actual == "3 \n\n" && stderr == "log"
    ));
    assert!(matches!(
        judge_sample("3", finished(true, " 3")),
        SampleResult::Wa { actual, expected, .. } if actual == " 3" && expected == "3"
    ));
}

#[test]
fn process_that_fails_is_a_runtime_error() {
    assert!(matches!(
        judge_sample("3", finished(false, "3")),
        SampleResult::Re { stderr } if stderr == "log"
    ));
    assert!(matches!(
        judge_sample("3", SampleProcess::Failed("no such file".to_string())),
        SampleResult::Re { stderr } if stderr == "no such file"
    ));
    assert!(matches!(
        judge_sample("3", SampleProcess::TimedOut),
        SampleResult::Tle
    ));
}

#[test]
fn no_sample_is_run_after_a_failed_build() {
    let report = sample_test_report(build(true), vec![SampleResult::Tle, SampleResult::Tle]);
    assert_eq!(report.cases.len(), 2);
    assert_eq!(report.cases[1].0, 1);
    let report = sample_test_report(build(false), vec![SampleResult::Tle]);
    assert_eq!(report.cases.len(), 0);
}

#[test]
fn programs_are_looked_for_in_the_path_first() {
    assert_eq!(
        executable_search_directories(&vec!["/opt/bin".to_string()], Some("/home/me".to_string())),
        vec![
            vec!["/opt/bin"],
            vec!["/home/me", ".cargo", "bin"],
            vec!["/home/me", ".local", "bin"],
            vec!["/usr/local/bin"],
            vec!["/usr/bin"],
        ]
    );
}
