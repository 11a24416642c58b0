use testfixtures::{
    compile_record, Datetime, FixtureEntry, FixtureFile, FixtureRecord, FixtureValue, SqlParam,
};

fn record(entries: Vec<(FixtureValue, FixtureValue)>) -> FixtureRecord {
    FixtureRecord {
        entries: entries
            .into_iter()
            .map(|(key, value)| FixtureEntry { key, value })
            .collect(),
    }
}

fn str_value(s: &str) -> FixtureValue {
    FixtureValue::Str(s.to_string())
}

fn fixture_file(file_name: &str, records: &Vec<FixtureRecord>) -> FixtureFile {
    FixtureFile::new(format!("fixtures/{}", file_name), file_name.to_string(), records)
}

#[test]
fn test_file_stem() {
    let file = fixture_file("test.yml", &vec![]);
    assert_eq!(file.file_stem(), "test");
}

#[test]
fn test_delete() {
    let file = fixture_file("test.yml", &vec![]);
    assert_eq!(file.delete(), "DELETE FROM test");
}

#[test]
fn file_stem_edge_cases() {
    assert_eq!(fixture_file("archive.tar.gz", &vec![]).file_stem(), "archive.tar");
    assert_eq!(fixture_file(".hidden", &vec![]).file_stem(), ".hidden");
    assert_eq!(fixture_file("plain", &vec![]).file_stem(), "plain");
}

#[test]
fn test_build_insert_sql() {
    // different columns have different types.
    let rec = record(vec![
        (str_value("id"), FixtureValue::Int(1)),
        (str_value("description"), str_value("fizz")),
        (str_value("price"), FixtureValue::Real("1.1".to_string())),
        (str_value("created_at"), str_value("2020/01/01 01:01:01")),
        (str_value("updated_at"), str_value("RAW=NOW()")),
    ]);
    let compiled = compile_record("test", &rec);
    assert_eq!(
        compiled.sql,
        "INSERT INTO test (id, description, price, created_at, updated_at) VALUES (?, ?, ?, ?, NOW())"
    );
    assert_eq!(compiled.params.len(), 4);
    if let SqlParam::Integer(param) = &compiled.params[0] {
        assert_eq!(*param, 1)
    } else {
        panic!("expected an integer parameter");
    }
    if let SqlParam::String(param) = &compiled.params[1] {
        assert_eq!(*param, "fizz".to_string())
    } else {
        panic!("expected a string parameter");
    }
    if let SqlParam::Float(param) = &compiled.params[2] {
        assert_eq!(param.parse::<f32>().unwrap(), 1.1)
    } else {
        panic!("expected a float parameter");
    }
    if let SqlParam::Datetime(param) = &compiled.params[3] {
        assert_eq!(
            *param,
            Datetime { year: 2020, month: 1, day: 1, hour: 1, minute: 1, second: 1 }
        )
    } else {
        panic!("expected a datetime parameter");
    }
}

/// A file `todos.yml` with one record compiles to `DELETE FROM todos`
/// plus one INSERT with the record's columns in order and every non-raw
/// value bound.
#[test]
fn scenario_single_record_file() {
    let source = "- id: 1\n  description: fizz\n  done: true\n  created_at: 2020/01/01 01:01:01\n";
    let file = FixtureFile::from_source("fixtures/todos.yml".to_string(), source).unwrap();
    assert_eq!(file.delete(), "DELETE FROM todos");
    assert_eq!(file.insert_sqls.len(), 1);
    let insert = &file.insert_sqls[0];
    assert_eq!(
        insert.sql,
        "INSERT INTO todos (id, description, done, created_at) VALUES (?, ?, ?, ?)"
    );
    assert_eq!(insert.params.len(), 4);
    assert_eq!(insert.params[0], SqlParam::Integer(1));
    assert_eq!(insert.params[1], SqlParam::String("fizz".to_string()));
    assert_eq!(insert.params[2], SqlParam::Boolean(true));
    assert_eq!(
        insert.params[3],
        SqlParam::Datetime(Datetime { year: 2020, month: 1, day: 1, hour: 1, minute: 1, second: 1 })
    );
}

/// A `RAW=` value is inlined literally: the column is listed, the suffix
/// stands in the VALUES list, and neither a placeholder nor a bound
/// parameter exists for it.
#[test]
fn scenario_raw_value_inlined() {
    let source = "- id: 1\n  updated_at: RAW=NOW()\n";
    let file = FixtureFile::from_source("todos.yml".to_string(), source).unwrap();
    let insert = &file.insert_sqls[0];
    assert_eq!(insert.sql, "INSERT INTO todos (id, updated_at) VALUES (?, NOW())");
    assert_eq!(insert.params.len(), 1);
    assert_eq!(insert.params[0], SqlParam::Integer(1));
}

/// An empty fixture file compiles to exactly one DELETE statement and
/// zero INSERT statements.
#[test]
fn empty_fixture_compiles_to_delete_only() {
    let file = FixtureFile::from_source("todos.yml".to_string(), "").unwrap();
    assert_eq!(file.insert_sqls.len(), 0);
    assert_eq!(file.delete(), "DELETE FROM todos");
}

/// A value of an unsupported kind drops its column entirely: no column
/// name, no placeholder, no parameter.
#[test]
fn unsupported_value_drops_column() {
    let rec = record(vec![
        (str_value("id"), FixtureValue::Int(2)),
        (str_value("tags"), FixtureValue::Unsupported),
        (str_value("name"), str_value("buzz")),
    ]);
    let compiled = compile_record("todos", &rec);
    assert_eq!(compiled.sql, "INSERT INTO todos (id, name) VALUES (?, ?)");
    assert_eq!(compiled.params.len(), 2);
}

/// An integer record key names its column by its decimal rendering.
#[test]
fn integer_key_names_column() {
    let rec = record(vec![(FixtureValue::Int(7), str_value("x"))]);
    let compiled = compile_record("t", &rec);
    assert_eq!(compiled.sql, "INSERT INTO t (7) VALUES (?)");

    let file = FixtureFile::from_source("t.yml".to_string(), "- 7: x\n").unwrap();
    assert_eq!(file.insert_sqls[0].sql, "INSERT INTO t (7) VALUES (?)");
}

#[test]
fn negative_integers_bind_directly() {
    let rec = record(vec![(str_value("delta"), FixtureValue::Int(-42))]);
    let compiled = compile_record("t", &rec);
    assert_eq!(compiled.params[0], SqlParam::Integer(-42));
}

#[test]
fn records_keep_file_order() {
    let source = "- id: 1\n- id: 2\n- id: 3\n";
    let file = FixtureFile::from_source("todos.yml".to_string(), source).unwrap();
    assert_eq!(file.insert_sqls.len(), 3);
    for (i, insert) in file.insert_sqls.iter().enumerate() {
        assert_eq!(insert.params[0], SqlParam::Integer(i as i64 + 1));
    }
}

#[test]
fn malformed_sources_are_fatal() {
    let cases = [
        // Unparsable syntax.
        "- id: [unclosed\n",
        // Top level is a mapping, not a list.
        "id: 1\n",
        // A record that is not a mapping.
        "- 5\n",
    ];
    for source in cases.iter() {
        let err = FixtureFile::from_source("bad.yml".to_string(), source).unwrap_err();
        assert_eq!(
            err.message(),
            "testfixtures error: could not parse fixture file 'bad.yml'"
        );
    }
}
