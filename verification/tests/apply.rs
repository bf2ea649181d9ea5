use unit_manager::apply::{apply_steps, sync_service, ApplyStep, LIVE_UNIT_DIR, SERVICE_MANAGER};
use unit_manager::change::ServiceChange;
use unit_manager::error::ManagerError;
use unit_manager::fingerprint::calculate_hash;
use unit_manager::state::StateFile;

fn change(unit: &str, new_content: &str) -> ServiceChange {
    ServiceChange {
        unit: unit.to_string(),
        old_content: Some("old".to_string()),
        new_content: new_content.to_string(),
        state_modified: false,
    }
}

#[test]
fn well_known_places() {
    assert_eq!(LIVE_UNIT_DIR, "/etc/systemd/system");
    assert_eq!(SERVICE_MANAGER, "systemctl");
}

#[test]
fn steps_are_write_reload_restart() {
    let steps = apply_steps(&change("db.service", "[Unit]\n"));
    assert_eq!(steps.len(), 3);
    match &steps[0] {
        ApplyStep::WriteUnit { unit, content } => {
            assert_eq!(unit, "db.service");
            assert_eq!(content, "[Unit]\n");
        }
        other => panic!("expected a write, got {:?}", other),
    }
    assert!(matches!(&steps[1], ApplyStep::ReloadManager));
    match &steps[2] {
        ApplyStep::RestartUnit { unit } => assert_eq!(unit, "db.service"),
        other => panic!("expected a restart, got {:?}", other),
    }
}

#[test]
fn commands_of_the_steps() {
    let steps = apply_steps(&change("db.service", "[Unit]\n"));
    assert_eq!(steps[0].command(), None);
    assert_eq!(
        steps[1].command(),
        Some(vec!["systemctl".to_string(), "daemon-reload".to_string()])
    );
    assert_eq!(
        steps[2].command(),
        Some(vec!["systemctl".to_string(), "restart".to_string(), "db.service".to_string()])
    );
}

#[test]
fn successful_commands_let_the_run_go_on() {
    for step in apply_steps(&change("db.service", "[Unit]\n")) {
        assert!(step.check_exit(true).is_ok());
    }
}

#[test]
fn failed_reload_fails_the_run() {
    assert!(matches!(
        ApplyStep::ReloadManager.check_exit(false),
        Err(ManagerError::ReloadFailed)
    ));
}

#[test]
fn failed_restart_fails_the_run_and_names_the_unit() {
    let step = ApplyStep::RestartUnit { unit: "db.service".to_string() };
    match step.check_exit(false) {
        Err(ManagerError::RestartFailed(unit)) => assert_eq!(unit, "db.service"),
        other => panic!("expected RestartFailed, got {:?}", other),
    }
}

#[test]
fn writing_is_not_judged_by_an_exit_status() {
    let step = ApplyStep::WriteUnit { unit: "db.service".to_string(), content: String::new() };
    assert!(step.check_exit(false).is_ok());
    assert!(step.check_exit(true).is_ok());
}

#[test]
fn sync_records_the_fingerprint_of_the_new_content() {
    let mut state = StateFile::new();
    sync_service(&change("db.service", "abc"), &mut state);
    assert_eq!(
        state.services.get("db.service"),
        Some(&"ba7816bf8f01cfea414140de5dae2223b00361a396177a9cb410ff61f20015ad".to_string())
    );
    assert!(state.validate_service("db.service", "abc"));
    assert!(!state.validate_service("db.service", "old"));
}

#[test]
fn sync_overwrites_what_was_recorded_for_the_unit_only() {
    let mut state = StateFile::new();
    state.record("db.service", "first");
    state.record("web.service", "web");
    sync_service(&change("db.service", "second"), &mut state);
    assert_eq!(state.services.len(), 2);
    assert_eq!(state.services.get("db.service"), Some(&calculate_hash("second")));
    assert_eq!(state.services.get("web.service"), Some(&calculate_hash("web")));
}

#[test]
fn two_changes_of_one_unit_leave_the_second_recorded() {
    let mut state = StateFile::new();
    sync_service(&change("db.service", "one"), &mut state);
    sync_service(&change("db.service", "two"), &mut state);
    assert_eq!(state.services.len(), 1);
    assert_eq!(state.services.get("db.service"), Some(&calculate_hash("two")));
}
