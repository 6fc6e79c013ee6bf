use ramag_dbclient::approval::{MigrationApprovalRecord, MigrationApprovalStatus, UtcTime, migration_sql_digest};
use ramag_dbclient::domain::{DriverKind, TableMetadata};
use ramag_dbclient::migration::{
    MigrationPhase, MigrationScript, MigrationStage, MigrationStatement, summarize_stages,
};
use ramag_dbclient::migration_review::{
    LoadedTable, approval_history, approval_summary, loaded_table, current_migration_script, format_destructive_count,
    format_table_name, migration_confirmation, migration_copy_text, migration_query,
    migration_stage_review,
};

#[test]
fn postgres_migration_query_is_transactional() {
    let query = migration_query(DriverKind::Postgres, "public", "SELECT 1".into());
    assert!(query.transactional);
    assert_eq!(query.default_schema.as_deref(), Some("public"));
}

#[test]
fn mysql_migration_query_keeps_ddl_autocommit_behavior() {
    let query = migration_query(DriverKind::Mysql, "app", "SELECT 1".into());
    assert!(!query.transactional);
    assert_eq!(query.default_schema.as_deref(), Some("app"));
}

#[test]
fn copied_migration_script_keeps_the_preview_fingerprint() {
    let script = MigrationScript {
        sql: "ALTER TABLE `users` ADD COLUMN `active` BOOLEAN;".into(),
        warnings: Vec::new(),
        statement_count: 1,
        destructive_statements: 0,
        stages: Vec::new(),
    };
    let copied = migration_copy_text(&script);
    let digest = migration_sql_digest(&script.sql);
    assert!(copied.starts_with(&format!("-- Ramag migration script SHA-256: {digest}")));
    assert!(copied.ends_with(&script.sql));
}

#[test]
fn stage_review_is_shared_by_confirmation_and_copy_format() {
    let stages = vec![
        MigrationStage {
            phase: MigrationPhase::ChangeColumns,
            statement_count: 2,
            destructive_statements: 1,
        },
        MigrationStage {
            phase: MigrationPhase::AddIndexes,
            statement_count: 1,
            destructive_statements: 0,
        },
    ];
    let review = migration_stage_review(&stages);
    assert!(review.contains("1. 处理字段变化：2 条语句，包含删除或修改（1 条）"));
    assert!(review.contains("2. 恢复索引：1 条语句，无删除或修改（0 条）"));

    let script = MigrationScript {
        sql: "ALTER TABLE `users` ADD COLUMN `active` BOOLEAN;".into(),
        warnings: Vec::new(),
        statement_count: 1,
        destructive_statements: 0,
        stages,
    };
    let copied = migration_copy_text(&script);
    assert!(copied.contains("-- 迁移阶段复核"));
    assert!(copied.contains("-- 1. 处理字段变化：2 条语句，包含删除或修改（1 条）"));
}

#[test]
fn summarize_stages_preserves_dependency_order_and_destructive_counts() {
    let stages = summarize_stages(&[
        MigrationStatement {
            sql: "DROP FOREIGN KEY".into(),
            destructive: true,
            phase: MigrationPhase::DropForeignKeys,
        },
        MigrationStatement {
            sql: "DROP COLUMN".into(),
            destructive: true,
            phase: MigrationPhase::ChangeColumns,
        },
        MigrationStatement {
            sql: "ADD COLUMN".into(),
            destructive: false,
            phase: MigrationPhase::ChangeColumns,
        },
        MigrationStatement {
            sql: "ADD INDEX".into(),
            destructive: false,
            phase: MigrationPhase::AddIndexes,
        },
    ]);

    assert_eq!(
        stages.iter().map(|stage| stage.title()).collect::<Vec<_>>(),
        ["删除受影响的外键", "处理字段变化", "恢复索引"]
    );
    assert_eq!(stages[0].destructive_statements, 1);
    assert_eq!(stages[1].statement_count, 2);
    assert_eq!(stages[1].destructive_statements, 1);
    assert_eq!(stages[2].destructive_statements, 0);
}

#[test]
fn empty_stage_list_has_no_review() {
    assert_eq!(migration_stage_review(&Vec::new()), "");
}

#[test]
fn confirmation_lists_the_fingerprint_note_and_first_hints() {
    let script = MigrationScript {
        sql: "ALTER TABLE `users` DROP COLUMN `legacy`;".into(),
        warnings: vec!["a".into(), "b".into(), "c".into(), "d".into(), "e".into()],
        statement_count: 1,
        destructive_statements: 1,
        stages: Vec::new(),
    };
    let text = migration_confirmation("prod", "app", "users", DriverKind::Mysql, &script);
    assert!(text.starts_with("目标连接：prod\n目标表：app.users\n脚本 SHA-256："));
    assert!(text.contains(&migration_sql_digest(&script.sql)));
    assert!(text.contains("将执行 1 条迁移语句，其中 1 条删除或修改。"));
    assert!(text.contains("MySQL DDL 可能隐式提交"));
    assert!(text.ends_with("\n生成提示：\n- a\n- b\n- c\n- d"));
}

#[test]
fn migration_needs_both_complete_tables_of_one_driver() {
    let loaded = || {
        Some(LoadedTable {
            metadata: TableMetadata::default(),
            warnings: Vec::new(),
        })
    };
    let missing = current_migration_script(
        &None,
        &loaded(),
        DriverKind::Mysql,
        DriverKind::Mysql,
        "app",
        "a",
        "app",
        "b",
    );
    assert_eq!(missing.err().unwrap(), "两张表的元数据尚未加载，无法生成迁移 SQL");
    let partial = current_migration_script(
        &Some(LoadedTable {
            metadata: TableMetadata::default(),
            warnings: vec!["索引读取失败".into()],
        }),
        &loaded(),
        DriverKind::Mysql,
        DriverKind::Mysql,
        "app",
        "a",
        "app",
        "b",
    );
    assert!(partial.err().unwrap().contains("未完整加载"));
    let mixed = current_migration_script(
        &loaded(),
        &loaded(),
        DriverKind::Mysql,
        DriverKind::Postgres,
        "app",
        "a",
        "app",
        "b",
    );
    assert!(mixed.err().unwrap().contains("相同数据库驱动"));
    let same = current_migration_script(
        &loaded(),
        &loaded(),
        DriverKind::Mysql,
        DriverKind::Mysql,
        "app",
        "a",
        "app",
        "b",
    );
    assert_eq!(same.unwrap().statement_count, 0);
}

#[test]
fn history_lines_summarize_a_record() {
    assert_eq!(format_table_name("public", "users"), "public.users");
    assert_eq!(format_destructive_count(0), "无删除或修改");
    assert_eq!(format_destructive_count(3), "3 条删除或修改");
    let record = MigrationApprovalRecord {
        approval_id: "id".into(),
        source_connection_id: "s".into(),
        source_connection_name: "s".into(),
        target_connection_id: "t".into(),
        target_connection_name: "t".into(),
        source_schema: "public".into(),
        source_table: "a".into(),
        target_schema: "public".into(),
        target_table: "b".into(),
        driver: DriverKind::Sqlite,
        statement_count: 4,
        destructive_statements: 0,
        sql_sha256: migration_sql_digest("abc"),
        approved_at: UtcTime { seconds: 0, nanos: 0 },
        updated_at: UtcTime { seconds: 0, nanos: 0 },
        status: MigrationApprovalStatus::Approved,
        elapsed_ms: None,
        warning_count: 0,
        error: None,
    };
    assert_eq!(
        approval_summary(&record),
        "脚本指纹 ba7816bf8f01 · 4 条语句 · 无删除或修改 · 驱动 SQLite"
    );
}

fn record(id: &str, status: MigrationApprovalStatus) -> MigrationApprovalRecord {
    MigrationApprovalRecord {
        approval_id: id.into(),
        source_connection_id: "s".into(),
        source_connection_name: "s".into(),
        target_connection_id: "t".into(),
        target_connection_name: "prod".into(),
        source_schema: "public".into(),
        source_table: "a".into(),
        target_schema: "public".into(),
        target_table: "b".into(),
        driver: DriverKind::Postgres,
        statement_count: 2,
        destructive_statements: 1,
        sql_sha256: migration_sql_digest("abc"),
        approved_at: UtcTime { seconds: 10, nanos: 0 },
        updated_at: UtcTime { seconds: 20, nanos: 5 },
        status,
        elapsed_ms: None,
        warning_count: 0,
        error: None,
    }
}

#[test]
fn approval_history_lists_the_five_newest_records() {
    assert!(approval_history(&Vec::new()).is_none());
    let mut executed = record("e", MigrationApprovalStatus::Executed);
    executed.elapsed_ms = Some(42);
    executed.warning_count = 2;
    let mut failed = record("f", MigrationApprovalStatus::Failed);
    failed.error = Some("x".repeat(400));
    let mut records = vec![executed, failed];
    for i in 0..5 {
        records.push(record(&format!("r{i}"), MigrationApprovalStatus::Approved));
    }
    let history = approval_history(&records).unwrap();
    assert_eq!(history.heading, "最近审批记录（5）");
    assert_eq!(history.entries.len(), 5);
    let first = &history.entries[0];
    assert_eq!(first.status, "已执行");
    assert_eq!(first.target, "prod · public.b");
    assert_eq!(first.updated_at, UtcTime { seconds: 20, nanos: 5 });
    assert_eq!(first.summary, "脚本指纹 ba7816bf8f01 · 2 条语句 · 1 条删除或修改 · 驱动 PostgreSQL");
    assert_eq!(first.warning_note.as_deref(), Some("数据库警告 2 条"));
    assert_eq!(first.elapsed_note.as_deref(), Some("数据库耗时 42 ms"));
    assert!(first.error_note.is_none());
    let second = &history.entries[1];
    assert_eq!(second.status, "执行失败");
    let error = second.error_note.as_deref().unwrap();
    assert!(error.starts_with("错误：xxx"));
    assert!(error.len() <= "错误：".len() + 320);
    assert_eq!(history.entries[2].status, "已确认");
    assert!(history.entries[2].warning_note.is_none());
}

#[test]
fn failed_metadata_reads_become_warnings() {
    let all = loaded_table(Ok(Vec::new()), Ok(Vec::new()), Ok(Vec::new()));
    assert!(all.warnings.is_empty());
    let partial = loaded_table(Ok(Vec::new()), Err("timeout".into()), Err("denied".into()));
    assert_eq!(partial.warnings, vec!["索引加载失败：timeout", "外键加载失败：denied"]);
    assert!(partial.metadata.indexes.is_empty());
    let columns = loaded_table(Err("gone".into()), Ok(Vec::new()), Ok(Vec::new()));
    assert_eq!(columns.warnings, vec!["列加载失败：gone"]);
}
