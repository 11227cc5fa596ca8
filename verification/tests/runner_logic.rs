use sync_runner::log::{color_reset, module_name, timestamp_color, LogLevel};
use sync_runner::path::PathComponent;
use sync_runner::prepare::{log_dir, prepare_log_dir, LogDirStep, Program};
use sync_runner::process::ExitReport;
use sync_runner::runner::{CaseRun, CaseStage, CaseStep, CaseVerdict};
use sync_runner::runner::{all_cases, processes_succeeded, run_succeeded, select_cases, waits_for_server, CaseKind};
use sync_runner::supervise::ProcessOutcome;
use sync_runner::text::join_strings;

fn ok_exit() -> Result<ProcessOutcome, std::io::Error> {
    Ok(ProcessOutcome::Exited(ExitReport { success: true, code: Some(0) }))
}

fn names(p: &[PathComponent]) -> Vec<String> {
    p.iter()
        .map(|c| match c {
            PathComponent::Normal(s) => s.clone(),
            PathComponent::RootDir => "/".to_string(),
            _ => "?".to_string(),
        })
        .collect()
}

#[test]
fn all_cases_in_documented_order() {
    let order: Vec<&str> = all_cases().iter().map(|k| k.name()).collect();
    assert_eq!(
        order,
        vec!["default", "just_demo", "empty_file", "multiple_files", "binary_file", "long_filename", "directory_transfer", "comprehensive"]
    );
}

#[test]
fn selection_keeps_fixed_order_and_drops_repeats() {
    assert_eq!(select_cases(&vec![]), all_cases());
    let chosen = select_cases(&vec![CaseKind::BinaryFile, CaseKind::Default, CaseKind::BinaryFile]);
    assert_eq!(chosen, vec![CaseKind::Default, CaseKind::BinaryFile]);
}

#[test]
fn only_directory_transfer_may_fail() {
    assert!(run_succeeded(&vec![(CaseKind::Default, true), (CaseKind::DirectoryTransfer, false)]));
    assert!(!run_succeeded(&vec![(CaseKind::Default, false), (CaseKind::DirectoryTransfer, true)]));
    assert!(run_succeeded(&vec![]));
    assert!(CaseKind::DirectoryTransfer.expected_to_fail());
    assert!(!CaseKind::Comprehensive.expected_to_fail());
    assert!(CaseKind::Default.keeps_sandbox());
    assert!(!CaseKind::JustDemo.keeps_sandbox());
}

#[test]
fn server_waited_for_only_after_client_success() {
    assert!(waits_for_server(&ok_exit()));
    assert!(!waits_for_server(&Ok(ProcessOutcome::TimedOut)));
    assert!(!waits_for_server(&Ok(ProcessOutcome::Exited(ExitReport { success: false, code: Some(1) }))));
    assert!(!waits_for_server(&Err(std::io::Error::other("x"))));
    assert!(processes_succeeded(&ok_exit(), &Some(ok_exit())));
    assert!(!processes_succeeded(&ok_exit(), &None));
    assert!(!processes_succeeded(&ok_exit(), &Some(Ok(ProcessOutcome::TimedOut))));
}

#[test]
fn program_layout() {
    let project = vec![PathComponent::RootDir, PathComponent::Normal("proj".to_string())];
    assert_eq!(names(&Program::Server.executable(&project)), vec!["/", "proj", "test", "server_test", "server.exe"]);
    assert_eq!(names(&Program::Client.executable_dir(&project)), vec!["/", "proj", "test", "client_test"]);
    let logs = log_dir(&project, CaseKind::EmptyFile, "r7");
    assert_eq!(names(&logs), vec!["/", "proj", "logs", "empty_file", "r7"]);
    assert_eq!(names(&Program::Client.log_file(&logs)).last().unwrap(), "client.log");
}

#[test]
fn log_dir_decisions() {
    assert_eq!(prepare_log_dir(true, false), LogDirStep::NotADirectory);
    assert_eq!(prepare_log_dir(false, false), LogDirStep::Create);
    assert_eq!(prepare_log_dir(true, true), LogDirStep::Use);
}

#[test]
fn module_names_from_source_paths() {
    assert_eq!(module_name("src/runner.rs"), "runner");
    assert_eq!(module_name("src\\case\\mod.rs"), "mod");
    assert_eq!(module_name("plain"), "plain");
    assert_eq!(module_name("dir/"), "");
    assert_eq!(module_name("x.rs.txt"), "x.rs.txt");
}

#[test]
fn levels_and_colors() {
    assert!(!LogLevel::Debug.enabled(false));
    assert!(LogLevel::Debug.enabled(true));
    assert!(LogLevel::Warn.enabled(false));
    assert_eq!(LogLevel::Error.label(), "ERROR");
    assert_eq!(LogLevel::Info.color(), "\x1b[32m");
    assert_eq!(timestamp_color(), "\x1b[90m");
    assert_eq!(color_reset(), "\x1b[0m");
}

#[test]
fn joining_text() {
    let parts = vec!["a".to_string(), "".to_string(), "c".to_string()];
    assert_eq!(join_strings(&parts, ", "), "a, , c");
    assert_eq!(join_strings(&vec![], "/"), "");
}

#[test]
fn case_run_passes_only_after_every_step() {
    let (run, step) = CaseRun::start();
    assert!(matches!(step, CaseStep::Prepare));
    let (run, _) = run.on_result(true);
    let (run, _) = run.on_result(true);
    let (run, step) = run.on_result(true);
    assert!(matches!(step, CaseStep::WatchClient));
    let (run, step) = run.on_client(&ok_exit());
    assert!(matches!(step, CaseStep::WatchServer));
    let (run, step) = run.on_server(&ok_exit());
    assert!(matches!(step, CaseStep::VerifyContainment));
    let (run, step) = run.on_result(true);
    assert!(matches!(step, CaseStep::RunChecks));
    let (run, step) = run.on_result(true);
    assert!(matches!(step, CaseStep::Clean));
    let (_, step) = run.on_result(false);
    assert!(matches!(step, CaseStep::Done(CaseVerdict::Passed)));

    let (run, _) = CaseRun::start();
    let (run, _) = run.on_result(true);
    let (run, _) = run.on_result(true);
    let (run, _) = run.on_result(true);
    let (run, step) = run.on_client(&Ok(ProcessOutcome::TimedOut));
    assert!(matches!(step, CaseStep::StopServer));
    let (_, step) = run.on_server_stopped();
    assert!(matches!(step, CaseStep::Done(CaseVerdict::Failed(CaseStage::Processes))));

    let (run, _) = CaseRun::start();
    let (_, step) = run.on_result(false);
    assert!(matches!(step, CaseStep::Done(CaseVerdict::Failed(CaseStage::Prepare))));
}

#[test]
fn process_logs_shown_once_the_programs_ran() {
    assert!(!CaseStage::Prepare.shows_process_logs());
    assert!(!CaseStage::CreateRun.shows_process_logs());
    assert!(!CaseStage::StartProcesses.shows_process_logs());
    assert!(CaseStage::Processes.shows_process_logs());
    assert!(CaseStage::Containment.shows_process_logs());
    assert!(CaseStage::Checks.shows_process_logs());
}

#[test]
fn prepare_places_both_programs_and_starts_the_server() {
    let project = vec![PathComponent::RootDir, PathComponent::Normal("proj".to_string())];
    let logs = vec![PathComponent::RootDir, PathComponent::Normal("logs".to_string())];
    let (server, client, _startup, action) = sync_runner::prepare::prepare(&project, &logs);
    let text = |p: &[PathComponent]| {
        p.iter()
            .map(|c| match c {
                PathComponent::Normal(s) => s.clone(),
                _ => String::new(),
            })
            .collect::<Vec<_>>()
            .join("/")
    };
    assert_eq!(text(&server.executable), "/proj/test/server_test/server.exe");
    assert_eq!(text(&server.dir), "/proj/test/server_test");
    assert_eq!(text(&client.log), "/logs/client.log");
    assert!(matches!(action, sync_runner::prepare::StartAction::Start(Program::Server)));
}
