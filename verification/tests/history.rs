use dbx_core::history::{added_columns, copy_optional_text, missing_history_columns, HistoryEntry, HistoryRecord};

fn entry(execution_time_ms: u128, activity_kind: &str) -> HistoryEntry {
    HistoryEntry {
        id: "e1".to_string(),
        connection_id: "c1".to_string(),
        connection_name: "local".to_string(),
        database: "main".to_string(),
        sql: "SELECT 1".to_string(),
        executed_at: "2024-01-01T00:00:00Z".to_string(),
        execution_time_ms,
        success: false,
        error: Some("boom".to_string()),
        activity_kind: activity_kind.to_string(),
        operation: "select".to_string(),
        target: "t".to_string(),
        affected_rows: Some(-3),
        rollback_sql: None,
        details_json: Some("{}".to_string()),
    }
}

fn same_entry(a: &HistoryEntry, b: &HistoryEntry) -> bool {
    a.id == b.id
        && a.connection_id == b.connection_id
        && a.connection_name == b.connection_name
        && a.database == b.database
        && a.sql == b.sql
        && a.executed_at == b.executed_at
        && a.execution_time_ms == b.execution_time_ms
        && a.success == b.success
        && a.error == b.error
        && a.activity_kind == b.activity_kind
        && a.operation == b.operation
        && a.target == b.target
        && a.affected_rows == b.affected_rows
        && a.rollback_sql == b.rollback_sql
        && a.details_json == b.details_json
}

#[test]
fn record_takes_over_every_field() {
    let e = entry(42, "query");
    let r = HistoryRecord::from_entry(&e);
    assert_eq!(r.id, "e1");
    assert_eq!(r.sql_text, "SELECT 1");
    assert_eq!(r.execution_time_ms, 42);
    assert!(!r.success);
    assert_eq!(r.error, Some("boom".to_string()));
    assert_eq!(r.affected_rows, Some(-3));
    assert_eq!(r.rollback_sql, None);
    assert_eq!(r.details_json, Some("{}".to_string()));
}

#[test]
fn entry_reads_back_after_storing() {
    let e = entry(1234, "change");
    let back = HistoryRecord::from_entry(&e).into_entry();
    assert!(same_entry(&e, &back));
}

#[test]
fn empty_activity_kind_reads_as_query() {
    let back = HistoryRecord::from_entry(&entry(5, "")).into_entry();
    assert_eq!(back.activity_kind, "query");
}

#[test]
fn duration_beyond_i64_wraps_when_stored() {
    let e = entry(u128::from(u64::MAX), "query");
    let r = HistoryRecord::from_entry(&e);
    assert_eq!(r.execution_time_ms, -1);
    assert_eq!(r.into_entry().execution_time_ms, u128::MAX);
    let r = HistoryRecord::from_entry(&entry(i64::MAX as u128, "query"));
    assert_eq!(r.execution_time_ms, i64::MAX);
}

#[test]
fn negative_stored_duration_wraps_when_read() {
    let mut r = HistoryRecord::from_entry(&entry(0, "query"));
    r.execution_time_ms = -2;
    assert_eq!(r.into_entry().execution_time_ms, u128::MAX - 1);
}

#[test]
fn copy_optional_text_copies() {
    assert_eq!(copy_optional_text(&Some("x".to_string())), Some("x".to_string()));
    assert_eq!(copy_optional_text(&None), None);
}

#[test]
fn all_added_columns_are_missing_from_an_old_table() {
    let existing: Vec<String> = ["id", "connection_name", "database", "sql_text"].iter().map(|s| s.to_string()).collect();
    let missing = missing_history_columns(&existing);
    let names: Vec<&str> = missing.iter().map(|c| c.name.as_str()).collect();
    assert_eq!(
        names,
        vec!["activity_kind", "connection_id", "operation", "target", "affected_rows", "rollback_sql", "details_json"]
    );
    assert_eq!(
        missing[0].add_column_statement(),
        "ALTER TABLE history ADD COLUMN activity_kind TEXT NOT NULL DEFAULT 'query'"
    );
    assert_eq!(missing[4].add_column_statement(), "ALTER TABLE history ADD COLUMN affected_rows INTEGER");
}

#[test]
fn only_absent_columns_are_missing() {
    let existing: Vec<String> =
        ["id", "activity_kind", "target", "details_json"].iter().map(|s| s.to_string()).collect();
    let missing = missing_history_columns(&existing);
    let names: Vec<&str> = missing.iter().map(|c| c.name.as_str()).collect();
    assert_eq!(names, vec!["connection_id", "operation", "affected_rows", "rollback_sql"]);
    assert_eq!(missing[0].definition, "TEXT NOT NULL DEFAULT ''");
}

#[test]
fn complete_table_misses_nothing() {
    let existing: Vec<String> = added_columns().into_iter().map(|c| c.name).collect();
    assert!(missing_history_columns(&existing).is_empty());
    assert_eq!(added_columns().len(), 7);
}

#[test]
fn retention_limits() {
    assert_eq!(
        dbx_core::retention::history_retention_statement(),
        "DELETE FROM history WHERE id NOT IN (SELECT id FROM history ORDER BY executed_at DESC LIMIT 1000)"
    );
    assert_eq!(
        dbx_core::retention::ai_conversation_retention_statement(),
        "DELETE FROM ai_conversations WHERE id NOT IN (SELECT id FROM ai_conversations ORDER BY updated_at DESC LIMIT 50)"
    );
}
