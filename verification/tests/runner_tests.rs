use omarchy_updater::runner::{events_for, RunStep, UpdateEvent, UpdateRun, UPDATE_SCRIPT};

fn log(s: &str) -> UpdateEvent {
    UpdateEvent::Log(s.to_string())
}

#[test]
fn start_is_announced() {
    assert_eq!(events_for(&RunStep::Starting), vec![log("Starting Omarchy update...\n")]);
}

#[test]
fn output_lines_are_logged_with_a_line_feed() {
    assert_eq!(events_for(&RunStep::OutputLine("hello".to_string())), vec![log("hello\n")]);
    assert_eq!(events_for(&RunStep::OutputLine(String::new())), vec![log("\n")]);
}

#[test]
fn spawn_failure_finishes_unsuccessfully() {
    assert_eq!(
        events_for(&RunStep::SpawnFailed("No such file or directory (os error 2)".to_string())),
        vec![
            log("Error initiating update: No such file or directory (os error 2)\n"),
            UpdateEvent::Finished(false)
        ]
    );
}

#[test]
fn successful_exit_finishes_successfully() {
    assert_eq!(
        events_for(&RunStep::Exited(true, Some(0))),
        vec![log("\n\u{2713} System update completed successfully!\n"), UpdateEvent::Finished(true)]
    );
}

#[test]
fn failed_exit_reports_its_code() {
    for code in [Some(1), Some(-3), Some(127), Some(i32::MIN), Some(i32::MAX), None] {
        let expected = format!("\n\u{26a0} Update process finished (code: {:?})\n", code);
        assert_eq!(
            events_for(&RunStep::Exited(false, code)),
            vec![UpdateEvent::Log(expected), UpdateEvent::Finished(false)]
        );
    }
}

#[test]
fn wait_failure_finishes_unsuccessfully() {
    assert_eq!(
        events_for(&RunStep::WaitFailed("interrupted".to_string())),
        vec![log("\nFailed to wait on update process: interrupted\n"), UpdateEvent::Finished(false)]
    );
}

#[test]
fn a_run_ends_with_one_finished_event() {
    let steps = vec![
        RunStep::Starting,
        RunStep::OutputLine("a".to_string()),
        RunStep::OutputLine("b".to_string()),
        RunStep::Exited(false, Some(2)),
    ];
    let events: Vec<UpdateEvent> = steps.iter().flat_map(|s| events_for(s)).collect();
    let finished: Vec<&UpdateEvent> =
        events.iter().filter(|e| matches!(e, UpdateEvent::Finished(_))).collect();
    assert_eq!(finished, vec![&UpdateEvent::Finished(false)]);
    assert_eq!(events.last(), Some(&UpdateEvent::Finished(false)));
}

#[test]
fn script_runs_the_updater_unattended() {
    assert!(UPDATE_SCRIPT.contains("export OMARCHY_UPDATE_UNATTENDED=1"));
    assert!(UPDATE_SCRIPT
        .contains("pkexec env OMARCHY_PATH=/usr/share/omarchy /usr/share/omarchy/bin/omarchy-update -y"));
}

#[test]
fn update_run_reports_nothing_after_finishing() {
    let (mut run, started) = UpdateRun::start();
    assert_eq!(started, vec![log("Starting Omarchy update...\n")]);
    assert!(!run.finished());
    assert_eq!(run.advance(&RunStep::OutputLine("x".to_string())), vec![log("x\n")]);
    assert_eq!(
        run.advance(&RunStep::Exited(true, Some(0))),
        vec![log("\n\u{2713} System update completed successfully!\n"), UpdateEvent::Finished(true)]
    );
    assert!(run.finished());
    assert!(run.advance(&RunStep::OutputLine("late".to_string())).is_empty());
    assert!(run.advance(&RunStep::WaitFailed("again".to_string())).is_empty());
}
