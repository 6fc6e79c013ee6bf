use ramag_dbclient::approval::{
    MAX_MIGRATION_APPROVAL_ERROR_BYTES, MAX_MIGRATION_APPROVAL_PREF_BYTES,
    MAX_MIGRATION_APPROVAL_RECORDS, MigrationApprovalRecord, MigrationApprovalStatus, UtcTime,
    bounded_text, check_approval_pref_size, merge_migration_approvals, migration_sql_digest,
    normalize_approvals, push_migration_approval, record_migration_outcome_at, sort_by_recency,
    validate_text,
};
use ramag_dbclient::domain::DriverKind;

fn utc_now() -> UtcTime {
    let now = chrono::Utc::now();
    UtcTime { seconds: now.timestamp(), nanos: now.timestamp_subsec_nanos() }
}

fn sample_record(id: &str) -> MigrationApprovalRecord {
    let now = utc_now();
    MigrationApprovalRecord {
        approval_id: id.into(),
        source_connection_id: "source-id".into(),
        source_connection_name: "source".into(),
        target_connection_id: "target-id".into(),
        target_connection_name: "target".into(),
        source_schema: "public".into(),
        source_table: "source_table".into(),
        target_schema: "public".into(),
        target_table: "target_table".into(),
        driver: DriverKind::Postgres,
        statement_count: 2,
        destructive_statements: 1,
        sql_sha256: migration_sql_digest("ALTER TABLE target_table ADD COLUMN id integer;"),
        approved_at: now,
        updated_at: now,
        status: MigrationApprovalStatus::Approved,
        elapsed_ms: None,
        warning_count: 0,
        error: None,
    }
}

fn record_at(id: &str, seconds: i64) -> MigrationApprovalRecord {
    let mut record = sample_record(id);
    record.updated_at = UtcTime { seconds, nanos: 0 };
    record
}

#[test]
fn migration_digest_is_stable_without_exposing_sql() {
    let sql = "ALTER TABLE accounts ADD COLUMN active boolean;";
    let digest = migration_sql_digest(sql);
    assert_eq!(digest, migration_sql_digest(sql));
    assert_ne!(
        digest,
        migration_sql_digest("ALTER TABLE accounts DROP COLUMN active;")
    );
    assert_eq!(digest.len(), 64);
    assert_ne!(digest, sql);
    assert!(digest.bytes().all(|byte| byte.is_ascii_hexdigit()));
}

#[test]
fn digest_matches_the_published_sha256_of_abc() {
    assert_eq!(
        migration_sql_digest("abc"),
        "ba7816bf8f01cfea414140de5dae2223b00361a396177a9cb410ff61f20015ad"
    );
}

#[test]
fn parser_deduplicates_and_bounds_records() {
    let first = sample_record("first");
    let mut records = vec![first.duplicate(), first];
    records.extend(
        (0..=MAX_MIGRATION_APPROVAL_RECORDS).map(|index| sample_record(&format!("record-{index}"))),
    );

    let (parsed, adjusted) = normalize_approvals(records).expect("records should parse");
    assert!(adjusted);
    assert_eq!(parsed.len(), MAX_MIGRATION_APPROVAL_RECORDS);
    assert_eq!(
        parsed
            .iter()
            .filter(|record| record.approval_id == "first")
            .count(),
        1
    );
}

#[test]
fn parser_rejects_oversized_preference() {
    assert!(check_approval_pref_size(&"x".repeat(MAX_MIGRATION_APPROVAL_PREF_BYTES + 1)).is_err());
    assert!(check_approval_pref_size(&"x".repeat(MAX_MIGRATION_APPROVAL_PREF_BYTES)).is_ok());
}

#[test]
fn parser_rejects_invalid_script_fingerprint() {
    let mut record = sample_record("bad");
    record.sql_sha256 = "not-a-digest".into();
    let error = normalize_approvals(vec![record]).expect_err("invalid digest should fail");
    assert!(error.contains("SHA-256"));
}

#[test]
fn outcome_keeps_failure_details_bounded() {
    let mut record = sample_record("outcome");
    let now = UtcTime { seconds: 1_700_000_000, nanos: 5 };
    record.apply_outcome_at(
        MigrationApprovalStatus::Failed,
        None,
        0,
        Some(&"x".repeat(MAX_MIGRATION_APPROVAL_ERROR_BYTES + 1)),
        now,
    );
    assert_eq!(record.status, MigrationApprovalStatus::Failed);
    assert_eq!(record.updated_at, now);
    assert_eq!(record.elapsed_ms, None);
    assert_eq!(
        record.error.as_deref().map(str::len),
        Some(MAX_MIGRATION_APPROVAL_ERROR_BYTES)
    );
}

#[test]
fn bounded_text_never_splits_a_character() {
    assert_eq!(bounded_text("数据库", 7), "数据");
    assert_eq!(bounded_text("数据库", 9), "数据库");
    assert_eq!(bounded_text("abc", 0), "");
}

#[test]
fn text_fields_must_be_present_and_bounded() {
    assert_eq!(validate_text("源表名", ""), Err("源表名为空或超过 1024 bytes".to_string()));
    assert!(validate_text("源表名", &"x".repeat(1025)).is_err());
    assert!(validate_text("源表名", &"x".repeat(1024)).is_ok());
}

#[test]
fn records_are_sorted_newest_first_and_stably() {
    let sorted = sort_by_recency(vec![
        record_at("a", 10),
        record_at("b", 30),
        record_at("c", 10),
        record_at("d", 20),
    ]);
    let ids: Vec<&str> = sorted.iter().map(|r| r.approval_id.as_str()).collect();
    assert_eq!(ids, ["b", "d", "a", "c"]);
}

#[test]
fn merge_lets_current_records_win_duplicates() {
    let mut loaded_dup = record_at("same", 50);
    loaded_dup.warning_count = 9;
    let current = vec![record_at("same", 5), record_at("new", 100)];
    let merged = merge_migration_approvals(vec![loaded_dup, record_at("old", 1)], current);
    let ids: Vec<&str> = merged.iter().map(|r| r.approval_id.as_str()).collect();
    assert_eq!(ids, ["new", "same", "old"]);
    assert_eq!(merged[1].warning_count, 0);
}

#[test]
fn new_records_go_first_and_history_stays_bounded() {
    let mut records: Vec<MigrationApprovalRecord> =
        (0..MAX_MIGRATION_APPROVAL_RECORDS).map(|i| sample_record(&format!("r{i}"))).collect();
    push_migration_approval(&mut records, sample_record("fresh"));
    assert_eq!(records.len(), MAX_MIGRATION_APPROVAL_RECORDS);
    assert_eq!(records[0].approval_id, "fresh");
    assert_eq!(records.last().unwrap().approval_id, "r48");
}

#[test]
fn outcome_is_recorded_on_the_matching_record_only() {
    let mut records = vec![record_at("a", 1), record_at("b", 2)];
    let now = UtcTime { seconds: 99, nanos: 5 };
    assert!(record_migration_outcome_at(
        &mut records,
        "b",
        MigrationApprovalStatus::Executed,
        Some(42),
        3,
        None,
        now,
    ));
    assert_eq!(records[1].status, MigrationApprovalStatus::Executed);
    assert_eq!(records[1].elapsed_ms, Some(42));
    assert_eq!(records[1].warning_count, 3);
    assert_eq!(records[1].updated_at, now);
    assert_eq!(records[0].status, MigrationApprovalStatus::Approved);
    assert!(!record_migration_outcome_at(
        &mut records,
        "missing",
        MigrationApprovalStatus::Failed,
        None,
        0,
        Some("boom"),
        now,
    ));
}

#[test]
fn oversized_stored_error_is_rejected_by_validation() {
    let mut record = sample_record("long");
    record.error = Some("e".repeat(MAX_MIGRATION_APPROVAL_ERROR_BYTES + 1));
    assert_eq!(record.validate(), Err("迁移审批错误信息过长".to_string()));
    record.enforce_limits();
    assert!(record.validate().is_ok());
}
