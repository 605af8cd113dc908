use synchronik::dao::Ledger;
use synchronik::dao::LedgerError;
use synchronik::dao::Project;
use synchronik::dao::Run;

#[test]
fn dao_test_create_a_run() {
    let mut ledger = Ledger::new();
    let project = Project::new("test");
    ledger.create_project(&project).unwrap();

    let mut run = Run::default();
    run.project = project;
    ledger.create_run(&run).unwrap();
    let fetched_run = ledger.find_run(&run.run.uuid).unwrap();
    assert_eq!(run.run.uuid, fetched_run.run.uuid);
}

#[test]
fn run_round_trip_restores_lineage() {
    let mut ledger = Ledger::new();
    let project = Project::new("test");
    ledger.create_project(&project).unwrap();

    let mut run = Run::default();
    run.project = project;
    ledger.create_run(&run).unwrap();

    let fetched = ledger.find_run(&run.run.uuid).unwrap();
    assert_eq!(fetched.run.uuid, run.run.uuid);
    assert_eq!(fetched.run.num, 42);
    assert_eq!(fetched.run.status, 0);
    assert_eq!(fetched.run.log_url, "https://example.com/console.log");
    assert_eq!(fetched.project.uuid, run.project.uuid);
    assert_eq!(fetched.project.name, "test");
    assert_eq!(fetched.scm_info.uuid, run.scm_info.uuid);
    assert_eq!(fetched.scm_info.git_url, "https://example.com/some/repo.git");
    assert_eq!(fetched.scm_info.scm_ref, "main");
    assert_eq!(fetched.definition.uuid, run.definition.uuid);
    assert_eq!(fetched.definition.definition, "");
    // The stored row references the lineage rows written with it.
    assert_eq!(fetched.run.project, run.project.uuid);
    assert_eq!(fetched.run.scm_info, run.scm_info.uuid);
    assert_eq!(fetched.run.definition, run.definition.uuid);
}

#[test]
fn create_run_without_project_changes_nothing() {
    let mut ledger = Ledger::new();
    let run = Run::default();
    assert_eq!(ledger.create_run(&run), Err(LedgerError::NotFound));
    // The transaction rolled back whole: none of the three rows landed.
    assert!(matches!(
        ledger.find_run(&run.run.uuid),
        Err(LedgerError::NotFound)
    ));
    assert!(ledger.list_projects().is_empty());
}

#[test]
fn create_run_with_taken_uuid_is_refused_whole() {
    let mut ledger = Ledger::new();
    let project = Project::new("test");
    ledger.create_project(&project).unwrap();

    let mut first = Run::default();
    first.project = project.clone();
    ledger.create_run(&first).unwrap();

    let mut second = Run::default();
    second.project = project;
    second.run.uuid = first.run.uuid.clone();
    assert_eq!(ledger.create_run(&second), Err(LedgerError::Conflict));
    // The earlier run is still the one stored.
    let fetched = ledger.find_run(&first.run.uuid).unwrap();
    assert_eq!(fetched.scm_info.uuid, first.scm_info.uuid);
}

#[test]
fn find_run_unknown_uuid_is_not_found() {
    let ledger = Ledger::new();
    assert!(matches!(
        ledger.find_run("00000000-0000-0000-0000-000000000000"),
        Err(LedgerError::NotFound)
    ));
}

#[test]
fn bootstrap_is_idempotent() {
    let mut ledger = Ledger::new();
    let first = ledger.find_or_create_project("test").unwrap();
    let second = ledger.find_or_create_project("test").unwrap();
    assert_eq!(first.uuid, second.uuid);
    assert_eq!(ledger.list_projects().len(), 1);
    assert_eq!(ledger.list_projects()[0].name, "test");
}

#[test]
fn project_lookup_by_name() {
    let mut ledger = Ledger::new();
    assert!(matches!(
        ledger.project_by_name("test"),
        Err(LedgerError::NotFound)
    ));
    let project = Project::new("test");
    ledger.create_project(&project).unwrap();
    let found = ledger.project_by_name("test").unwrap();
    assert_eq!(found.uuid, project.uuid);
}

#[test]
fn duplicate_project_name_is_refused() {
    let mut ledger = Ledger::new();
    ledger.create_project(&Project::new("test")).unwrap();
    assert_eq!(
        ledger.create_project(&Project::new("test")),
        Err(LedgerError::Conflict)
    );
    assert_eq!(ledger.list_projects().len(), 1);
}

#[test]
fn fresh_rows_have_hyphenated_uuids() {
    let project = Project::new("demo");
    assert_eq!(project.uuid.len(), 36);
    let run = Run::default();
    assert_eq!(run.run.uuid.len(), 36);
    assert_eq!(run.scm_info.uuid.len(), 36);
    assert_eq!(run.definition.uuid.len(), 36);
    assert_eq!(run.project.name, "Default Project");
}
