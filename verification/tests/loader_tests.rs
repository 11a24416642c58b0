use testfixtures::{
    ensure_test_database, is_table_modified, ChecksumMap, FixtureError, FixtureSource, Loader,
    LoaderConfig, LoadRequest, LoadSession, LoadState, Location, MySql, PlanStep, PostgreSql,
    SqlParam,
};

const TODOS_SOURCE: &str =
    "- id: 1\n  description: fizz\n  created_at: 2020/01/01 01:01:01\n  updated_at: RAW=NOW()\n";

fn source(path: &str, content: &str) -> FixtureSource {
    FixtureSource { path: path.to_string(), content: content.to_string() }
}

fn todos_loader(skip_check: bool) -> Loader {
    let mut config = LoaderConfig::new();
    config.location(Location::utc());
    if skip_check {
        config.skip_test_database_check();
    }
    config.files(vec![source("fixtures/todos.yml", TODOS_SOURCE)]);
    Loader::new(config).unwrap()
}

/// Runs every queued statement successfully and commits.
fn run_to_commit(session: &mut LoadSession) {
    loop {
        match session.next_request() {
            LoadRequest::RunStep(i) => {
                assert!(i < session.plan.len());
                session.on_step_ok();
            },
            LoadRequest::Commit => {
                session.on_committed();
                return;
            },
            other => panic!("unexpected request while applying: {:?}", other),
        }
    }
}

#[test]
fn test_location() {
    let mut config = LoaderConfig::new();
    config.location(Location::utc());
    config.skip_test_database_check();
    let loader = Loader::new(config).unwrap();
    assert_eq!(loader.location, Some(Location::utc()));
}

#[test]
fn test_skip_test_database_check() {
    let mut config = LoaderConfig::new();
    config.location(Location::utc());
    config.skip_test_database_check();
    let loader = Loader::new(config).unwrap();
    assert!(loader.skip_test_database_check);
}

#[test]
fn test_files() {
    let loader = todos_loader(true);
    assert_eq!(loader.fixture_files.len(), 1);
    assert_eq!(loader.fixture_files[0].file_name, "todos.yml");
    assert_eq!(loader.fixture_files[0].path, "fixtures/todos.yml");
}

#[test]
fn missing_location_is_refused() {
    let mut config = LoaderConfig::new();
    config.files(vec![source("todos.yml", TODOS_SOURCE)]);
    let err = Loader::new(config).unwrap_err();
    assert_eq!(err.message(), "testfixtures: you need a location");
}

#[test]
fn unparsable_source_is_refused() {
    let mut config = LoaderConfig::new();
    config.location(Location::utc());
    config.files(vec![source("broken.yml", "key: value\n")]);
    let err = Loader::new(config).unwrap_err();
    assert_eq!(
        err.message(),
        "testfixtures error: could not parse fixture file 'broken.yml'"
    );
}

#[test]
fn it_returns_ok() {
    let mut loader = todos_loader(false);
    let mut session = loader.begin_load();
    assert_eq!(session.next_request(), LoadRequest::FetchDatabaseName);
    let result = session.on_database_name("test");
    assert!(result.is_ok());
    assert_eq!(session.next_request(), LoadRequest::FetchChecksums);
    session.on_checksums(&loader, &vec![None]);
    run_to_commit(&mut session);
    assert_eq!(session.state, LoadState::Committed);
    assert_eq!(session.next_request(), LoadRequest::RecordChecksums);
    session.record_checksums(&mut loader, &vec![Some(11)]);
    assert_eq!(session.next_request(), LoadRequest::Done);
}

#[test]
fn it_returns_database_check_error() {
    let mut loader = todos_loader(false);
    let mut session = loader.begin_load();
    assert_eq!(session.next_request(), LoadRequest::FetchDatabaseName);
    let result = session.on_database_name("fizz");
    let err = result.unwrap_err();
    assert_eq!(
        err.message(),
        "testfixtures error: 'fizz' does not appear to be a test database"
    );
    // The load is over before any statement was queued or run.
    assert_eq!(session.plan.len(), 0);
    assert_eq!(session.next_request(), LoadRequest::Done);
}

#[test]
fn it_returns_transaction_error() {
    let mut loader = todos_loader(true);
    let mut session = loader.begin_load();
    assert_eq!(session.next_request(), LoadRequest::FetchChecksums);
    session.on_checksums(&loader, &vec![None]);
    match session.next_request() {
        LoadRequest::RunStep(_) => {},
        other => panic!("unexpected request: {:?}", other),
    }
    let err = session.on_step_failed("Unknown column 'updated_at' in 'field list'");
    assert_eq!(
        err.message(),
        "testfixtures error: Unknown column 'updated_at' in 'field list'"
    );
    assert_eq!(session.next_request(), LoadRequest::Rollback);
    session.on_rolled_back();
    assert_eq!(session.state, LoadState::RolledBack);
    assert_eq!(session.next_request(), LoadRequest::Done);
}

/// Loading against a database named `production`, with the safety check
/// on, fails before any statement executes, naming the database.
#[test]
fn scenario_production_database_is_refused() {
    let mut loader = todos_loader(false);
    let mut session = loader.begin_load();
    assert_eq!(session.next_request(), LoadRequest::FetchDatabaseName);
    let err = session.on_database_name("production").unwrap_err();
    assert_eq!(
        err.message(),
        "testfixtures error: 'production' does not appear to be a test database"
    );
    assert_eq!(session.state, LoadState::Idle);
    assert_eq!(session.plan.len(), 0);
    assert_eq!(session.next_request(), LoadRequest::Done);
}

/// A failing statement abandons the remaining plan: after the failure
/// the session only ever asks for a rollback and then nothing, so no
/// other fixture file's statements are committed.
#[test]
fn scenario_failed_statement_rolls_back() {
    let second_file = "- id: 9\n  description: other\n";
    let mut config = LoaderConfig::new();
    config.location(Location::utc());
    config.skip_test_database_check();
    config.files(vec![
        source("todos.yml", TODOS_SOURCE),
        source("others.yml", second_file),
    ]);
    let loader = Loader::new(config).unwrap();
    let mut session = loader.begin_load();
    session.on_checksums(&loader, &vec![None, None]);
    // Both files' statements are queued...
    assert!(session.plan.len() > 4);
    // ...but the first statement fails.
    assert_eq!(session.next_request(), LoadRequest::RunStep(0));
    session.on_step_failed("constraint violation");
    assert_eq!(session.next_request(), LoadRequest::Rollback);
    session.on_rolled_back();
    assert_eq!(session.next_request(), LoadRequest::Done);
    assert_eq!(session.executed, 0);
}

/// The plan of one round: foreign keys off, the changed file's DELETE
/// then its INSERTs, foreign keys back on — in exactly that order.
#[test]
fn plan_holds_statements_in_order() {
    let loader = todos_loader(true);
    let mut session = loader.begin_load();
    session.on_checksums(&loader, &vec![None]);
    assert_eq!(session.plan.len(), 4);
    match &session.plan[0] {
        PlanStep::ForeignKeyChecks(enabled) => assert!(!enabled),
        other => panic!("unexpected step: {:?}", other),
    }
    match &session.plan[1] {
        PlanStep::Statement { sql, params } => {
            assert_eq!(sql, "DELETE FROM todos");
            assert!(params.is_empty());
        },
        other => panic!("unexpected step: {:?}", other),
    }
    match &session.plan[2] {
        PlanStep::Statement { sql, params } => {
            assert_eq!(
                sql,
                "INSERT INTO todos (id, description, created_at, updated_at) VALUES (?, ?, ?, NOW())"
            );
            assert_eq!(params.len(), 3);
        },
        other => panic!("unexpected step: {:?}", other),
    }
    match &session.plan[3] {
        PlanStep::ForeignKeyChecks(enabled) => assert!(enabled),
        other => panic!("unexpected step: {:?}", other),
    }
    assert_eq!(session.processed_tables, vec!["todos".to_string()]);
}

/// Round trip: a second load over an unmodified database skips every
/// DELETE and INSERT — its plan is empty — leaving the rows of the
/// first load untouched.
#[test]
fn round_trip_second_load_skips_unchanged_tables() {
    let mut loader = todos_loader(true);
    let mut session = loader.begin_load();
    session.on_checksums(&loader, &vec![Some(500)]);
    assert_eq!(session.plan.len(), 4);
    run_to_commit(&mut session);
    // After the commit the table's content checksum is 777.
    session.record_checksums(&mut loader, &vec![Some(777)]);
    assert_eq!(session.next_request(), LoadRequest::Done);

    // Nothing touched the database in between: the checksum is still 777.
    let mut second = loader.begin_load();
    second.on_checksums(&loader, &vec![Some(777)]);
    assert_eq!(second.plan.len(), 0);
    assert_eq!(second.processed_tables.len(), 0);
    run_to_commit(&mut second);

    // Had the table moved meanwhile, it would be reloaded.
    let mut third = loader.begin_load();
    third.on_checksums(&loader, &vec![Some(778)]);
    assert_eq!(third.plan.len(), 4);
}

/// Applying a file's compiled statements is idempotent on the table:
/// running the same load over its own outcome changes nothing.
#[test]
fn load_is_idempotent_on_table_contents() {
    let loader = todos_loader(true);
    let session_plan = {
        let mut session = loader.begin_load();
        session.on_checksums(&loader, &vec![None]);
        session.plan
    };
    // A table as the statements see it: the rows' bound parameters.
    let apply = |rows: Vec<Vec<SqlParam>>| -> Vec<Vec<SqlParam>> {
        let mut rows = rows;
        for step in &session_plan {
            if let PlanStep::Statement { sql, params } = step {
                if sql.starts_with("DELETE FROM ") {
                    rows.clear();
                } else {
                    rows.push(params.clone());
                }
            }
        }
        rows
    };
    let once = apply(vec![vec![SqlParam::Integer(99)]]);
    let twice = apply(once.clone());
    assert_eq!(once, twice);
}

/// Change detection prunes per table: only the table whose checksum
/// moved is deleted and re-inserted, in file order.
#[test]
fn only_changed_tables_are_reloaded() {
    let second_file = "- id: 9\n";
    let mut config = LoaderConfig::new();
    config.location(Location::utc());
    config.skip_test_database_check();
    config.files(vec![
        source("todos.yml", TODOS_SOURCE),
        source("others.yml", second_file),
    ]);
    let mut loader = Loader::new(config).unwrap();
    loader.tables_checksum.set("todos", 5);
    loader.tables_checksum.set("others", 7);
    let mut session = loader.begin_load();
    // todos is unchanged; others moved from 7 to 8.
    session.on_checksums(&loader, &vec![Some(5), Some(8)]);
    assert_eq!(session.processed_tables, vec!["others".to_string()]);
    assert_eq!(session.plan.len(), 4);
    match &session.plan[1] {
        PlanStep::Statement { sql, .. } => assert_eq!(sql, "DELETE FROM others"),
        other => panic!("unexpected step: {:?}", other),
    }
    match &session.plan[2] {
        PlanStep::Statement { sql, .. } => assert_eq!(sql, "INSERT INTO others (id) VALUES (?)"),
        other => panic!("unexpected step: {:?}", other),
    }
}

#[test]
fn checksum_map_stores_and_replaces() {
    let mut map = ChecksumMap::new();
    assert_eq!(map.get("todos"), None);
    map.set("todos", 5);
    map.set("users", 7);
    assert_eq!(map.get("todos"), Some(5));
    assert_eq!(map.get("users"), Some(7));
    map.set("todos", 9);
    assert_eq!(map.get("todos"), Some(9));
    assert_eq!(map.get("users"), Some(7));
}

#[test]
fn change_detection_cases() {
    // Never loaded, or recorded as the zero value: always modified.
    assert!(is_table_modified(None, Some(3)));
    assert!(is_table_modified(Some(0), Some(0)));
    // A failed checksum computation fails safe toward reloading.
    assert!(is_table_modified(Some(3), None));
    // Only a matching non-zero checksum skips.
    assert!(!is_table_modified(Some(3), Some(3)));
    assert!(is_table_modified(Some(3), Some(4)));
}

#[test]
fn test_ensure_test_database() {
    assert!(ensure_test_database("test").is_ok());
    assert!(ensure_test_database("mydb_test").is_ok());
    assert!(ensure_test_database("production").is_err());
    assert!(ensure_test_database("tes").is_err());
    assert!(ensure_test_database("").is_err());
    assert!(ensure_test_database("testing").is_err());
    let err = ensure_test_database("fizz").unwrap_err();
    assert!(matches!(err, FixtureError::DatabaseCheck { .. }));
}

/// The PostgreSQL placeholder rewrite numbers every `?` in order,
/// leaving all other text as it stands.
#[test]
fn postgres_placeholders_are_numbered() {
    assert_eq!(
        PostgreSql::numbered_placeholders("INSERT INTO todos (id, description) VALUES (?, ?)"),
        "INSERT INTO todos (id, description) VALUES ($1, $2)"
    );
    assert_eq!(
        PostgreSql::numbered_placeholders("INSERT INTO t (a, b, c) VALUES (?, NOW(), ?)"),
        "INSERT INTO t (a, b, c) VALUES ($1, NOW(), $2)"
    );
    assert_eq!(PostgreSql::numbered_placeholders("DELETE FROM todos"), "DELETE FROM todos");
    assert_eq!(
        PostgreSql::numbered_placeholders("? ? ? ? ? ? ? ? ? ? ?"),
        "$1 $2 $3 $4 $5 $6 $7 $8 $9 $10 $11"
    );
    assert_eq!(PostgreSql::numbered_placeholders(""), "");
}

#[test]
fn dialect_statement_texts() {
    assert_eq!(MySql::database_name_sql(), "SELECT DATABASE()");
    assert_eq!(MySql::checksum_sql("todos"), "CHECKSUM TABLE todos");
    assert_eq!(MySql::foreign_key_checks_sql(false), "SET FOREIGN_KEY_CHECKS = 0");
    assert_eq!(MySql::foreign_key_checks_sql(true), "SET FOREIGN_KEY_CHECKS = 1");
    assert!(MySql::table_names_sql().contains("BASE TABLE"));
    assert_eq!(PostgreSql::database_name_sql(), "SELECT current_database()");
    assert_eq!(
        PostgreSql::foreign_key_checks_sql(false),
        "SET session_replication_role = 'replica'"
    );
    assert_eq!(
        PostgreSql::foreign_key_checks_sql(true),
        "SET session_replication_role = 'origin'"
    );
    assert!(PostgreSql::checksum_sql("todos").contains("FROM todos"));
}
