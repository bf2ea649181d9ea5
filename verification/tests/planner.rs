use unit_manager::change::{preview_changes, ServiceChange, ServiceConfig, ServiceSnapshot};
use unit_manager::error::ManagerError;
use unit_manager::fingerprint::calculate_hash;
use unit_manager::planner::{plan, plan_service};
use unit_manager::state::StateFile;
use unit_manager::string_map::StringMap;

fn snapshot(unit: &str, source: Option<&str>, port: &str, live: Option<&str>) -> ServiceSnapshot {
    let mut variables = StringMap::new();
    variables.insert("port".to_string(), port.to_string());
    ServiceSnapshot {
        config: ServiceConfig {
            template: "t1".to_string(),
            unit: unit.to_string(),
            variables,
        },
        template_path: "templates/t1".to_string(),
        template_source: source.map(|s| s.to_string()),
        live_content: live.map(|s| s.to_string()),
    }
}

fn state_with(unit: &str, content: &str) -> StateFile {
    let mut state = StateFile::new();
    state.record(unit, content);
    state
}

fn units(changes: &[ServiceChange]) -> Vec<&str> {
    changes.iter().map(|change| change.unit.as_str()).collect()
}

const SOURCE: &str = "port={{ port }}";

#[test]
fn analysis_of_a_unit_that_is_not_installed() {
    let change =
        preview_changes(&snapshot("db.service", Some(SOURCE), "5432", None), &StateFile::new())
            .unwrap();
    assert_eq!(change.unit, "db.service");
    assert_eq!(change.old_content, None);
    assert_eq!(change.new_content, "port=5432");
    assert!(!change.state_modified);
    assert!(change.needs_update());
}

#[test]
fn missing_unit_never_drifts_whatever_the_state_holds() {
    let state = state_with("db.service", "something that was applied earlier");
    let change =
        preview_changes(&snapshot("db.service", Some(SOURCE), "5432", None), &state).unwrap();
    assert_eq!(change.old_content, None);
    assert!(!change.state_modified);
    assert!(change.needs_update());
    for force in [false, true] {
        let changes =
            plan(&vec![snapshot("db.service", Some(SOURCE), "5432", None)], &state, force).unwrap();
        assert_eq!(units(&changes), vec!["db.service"]);
        assert_eq!(changes[0].old_content, None);
        assert!(!changes[0].state_modified);
    }
}

#[test]
fn analysis_of_an_installed_unit_that_was_never_applied() {
    let change = preview_changes(
        &snapshot("db.service", Some(SOURCE), "5432", Some("port=1")),
        &StateFile::new(),
    )
    .unwrap();
    assert_eq!(change.old_content, Some("port=1".to_string()));
    assert_eq!(change.new_content, "port=5432");
    assert!(!change.state_modified);
    assert!(change.needs_update());
}

#[test]
fn analysis_marks_drift_when_the_installed_content_is_not_the_applied_one() {
    let state = state_with("db.service", "port=1");
    let same = preview_changes(&snapshot("db.service", Some(SOURCE), "5432", Some("port=1")), &state)
        .unwrap();
    assert!(!same.state_modified);
    let edited =
        preview_changes(&snapshot("db.service", Some(SOURCE), "5432", Some("port=2")), &state)
            .unwrap();
    assert!(edited.state_modified);
    assert_eq!(edited.old_content, Some("port=2".to_string()));
    assert_eq!(edited.new_content, "port=5432");
}

#[test]
fn analysis_does_not_decide_whether_the_change_is_needed() {
    let state = state_with("db.service", "port=5432");
    let change =
        preview_changes(&snapshot("db.service", Some(SOURCE), "5432", Some("port=5432")), &state)
            .unwrap();
    assert_eq!(change.old_content, Some("port=5432".to_string()));
    assert_eq!(change.new_content, "port=5432");
    assert!(!change.state_modified);
    assert!(!change.needs_update());
}

#[test]
fn analysis_hands_on_the_failure_of_the_template() {
    let state = StateFile::new();
    let outcome = preview_changes(&snapshot("db.service", None, "5432", Some("port=1")), &state);
    match outcome {
        Err(ManagerError::TemplateNotFound(path)) => assert_eq!(path, "templates/t1"),
        other => panic!("expected TemplateNotFound, got {:?}", other),
    }
    let outcome =
        preview_changes(&snapshot("db.service", Some("{{ port"), "5432", Some("port=1")), &state);
    assert!(matches!(outcome, Err(ManagerError::Template(_))));
}

#[test]
fn needs_update_compares_the_texts_exactly() {
    let change = |old: Option<&str>, new: &str| ServiceChange {
        unit: "db.service".to_string(),
        old_content: old.map(|s| s.to_string()),
        new_content: new.to_string(),
        state_modified: false,
    };
    assert!(change(None, "").needs_update());
    assert!(change(None, "a").needs_update());
    assert!(!change(Some(""), "").needs_update());
    assert!(!change(Some("a\n"), "a\n").needs_update());
    assert!(change(Some("a\n"), "a").needs_update());
    assert!(change(Some("a"), "A").needs_update());
    assert!(change(Some("a\r\n"), "a\n").needs_update());
}

#[test]
fn decision_skips_a_unit_that_is_up_to_date() {
    let state = StateFile::new();
    let up_to_date = snapshot("db.service", Some(SOURCE), "5432", Some("port=5432"));
    assert!(matches!(plan_service(&up_to_date, &state, false), Ok(None)));
    assert!(matches!(plan_service(&up_to_date, &state, true), Ok(None)));
}

#[test]
fn decision_on_a_drifted_unit_depends_on_force() {
    let state = state_with("db.service", "port=1");
    let drifted = snapshot("db.service", Some(SOURCE), "5432", Some("port=2"));
    match plan_service(&drifted, &state, false) {
        Err(ManagerError::StateOutOfSync(unit)) => assert_eq!(unit, "db.service"),
        other => panic!("expected StateOutOfSync, got {:?}", other),
    }
    match plan_service(&drifted, &state, true) {
        Ok(Some(change)) => {
            assert!(change.state_modified);
            assert_eq!(change.new_content, "port=5432");
        }
        other => panic!("expected a change, got {:?}", other),
    }
}

#[test]
fn drift_without_a_needed_update_does_not_block() {
    // Someone edited the file so that it now holds what the declaration renders to.
    let state = state_with("db.service", "port=1");
    let edited = snapshot("db.service", Some(SOURCE), "5432", Some("port=5432"));
    assert!(matches!(plan_service(&edited, &state, false), Ok(None)));
    let changes = plan(&vec![edited], &state, false).unwrap();
    assert!(changes.is_empty());
}

#[test]
fn plan_of_nothing_is_empty() {
    let changes = plan(&Vec::new(), &StateFile::new(), false).unwrap();
    assert!(changes.is_empty());
}

#[test]
fn plan_keeps_the_order_of_the_declarations() {
    let snapshots = vec![
        snapshot("c.service", Some(SOURCE), "3", None),
        snapshot("a.service", Some(SOURCE), "1", Some("port=1")),
        snapshot("b.service", Some(SOURCE), "2", Some("port=0")),
        snapshot("d.service", Some(SOURCE), "4", None),
    ];
    let changes = plan(&snapshots, &StateFile::new(), false).unwrap();
    assert_eq!(units(&changes), vec!["c.service", "b.service", "d.service"]);
    assert_eq!(changes[0].new_content, "port=3");
    assert_eq!(changes[1].old_content, Some("port=0".to_string()));
    assert_eq!(changes[1].new_content, "port=2");
    assert_eq!(changes[2].new_content, "port=4");
}

#[test]
fn plan_is_empty_when_everything_is_up_to_date_and_stays_so() {
    let snapshots = vec![
        snapshot("a.service", Some(SOURCE), "1", Some("port=1")),
        snapshot("b.service", Some(SOURCE), "2", Some("port=2")),
    ];
    let mut state = StateFile::new();
    state.record("a.service", "port=1");
    for force in [false, true] {
        assert!(plan(&snapshots, &state, force).unwrap().is_empty());
        assert!(plan(&snapshots, &state, force).unwrap().is_empty());
    }
    assert!(plan(&snapshots, &StateFile::new(), false).unwrap().is_empty());
    // Even a state that remembers other content does not bring a change back.
    let stale = state_with("b.service", "port=0");
    assert!(plan(&snapshots, &stale, false).unwrap().is_empty());
}

#[test]
fn plan_fails_on_unforced_drift_and_succeeds_with_force() {
    let state = state_with("b.service", "port=1");
    let snapshots = || {
        vec![
            snapshot("a.service", Some(SOURCE), "1", None),
            snapshot("b.service", Some(SOURCE), "2", Some("edited by hand")),
            snapshot("c.service", Some(SOURCE), "3", None),
        ]
    };
    match plan(&snapshots(), &state, false) {
        Err(ManagerError::StateOutOfSync(unit)) => assert_eq!(unit, "b.service"),
        other => panic!("expected StateOutOfSync, got {:?}", other),
    }
    let changes = plan(&snapshots(), &state, true).unwrap();
    assert_eq!(units(&changes), vec!["a.service", "b.service", "c.service"]);
    assert!(!changes[0].state_modified);
    assert!(changes[1].state_modified);
    assert_eq!(changes[1].old_content, Some("edited by hand".to_string()));
    assert_eq!(changes[1].new_content, "port=2");
    assert!(!changes[2].state_modified);
}

#[test]
fn plan_fails_with_the_first_failure() {
    let state = state_with("b.service", "port=1");
    let snapshots = vec![
        snapshot("a.service", None, "1", None),
        snapshot("b.service", Some(SOURCE), "2", Some("edited by hand")),
    ];
    assert!(matches!(plan(&snapshots, &state, false), Err(ManagerError::TemplateNotFound(_))));
    assert!(matches!(plan(&snapshots, &state, true), Err(ManagerError::TemplateNotFound(_))));
    let snapshots = vec![
        snapshot("b.service", Some(SOURCE), "2", Some("edited by hand")),
        snapshot("a.service", None, "1", None),
    ];
    assert!(matches!(plan(&snapshots, &state, false), Err(ManagerError::StateOutOfSync(_))));
    assert!(matches!(plan(&snapshots, &state, true), Err(ManagerError::TemplateNotFound(_))));
}

#[test]
fn one_broken_template_fails_the_whole_plan() {
    let snapshots = vec![
        snapshot("a.service", Some(SOURCE), "1", None),
        snapshot("b.service", Some("{% for %}"), "2", None),
        snapshot("c.service", Some(SOURCE), "3", None),
    ];
    assert!(matches!(
        plan(&snapshots, &StateFile::new(), true),
        Err(ManagerError::Template(_))
    ));
}

#[test]
fn two_declarations_of_one_unit_are_both_planned() {
    let snapshots = vec![
        snapshot("db.service", Some(SOURCE), "1", None),
        snapshot("db.service", Some(SOURCE), "2", None),
    ];
    let changes = plan(&snapshots, &StateFile::new(), false).unwrap();
    assert_eq!(units(&changes), vec!["db.service", "db.service"]);
    assert_eq!(changes[0].new_content, "port=1");
    assert_eq!(changes[1].new_content, "port=2");
}

#[test]
fn drift_is_judged_by_the_fingerprint_of_the_installed_content() {
    let mut services = StringMap::new();
    services.insert("db.service".to_string(), calculate_hash("port=1"));
    let state = StateFile { services };
    let untouched = snapshot("db.service", Some(SOURCE), "2", Some("port=1"));
    let changes = plan(&vec![untouched], &state, false).unwrap();
    assert_eq!(changes.len(), 1);
    assert!(!changes[0].state_modified);
}
