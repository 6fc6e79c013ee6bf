use ramag_dbclient::approval::{MigrationApprovalStatus, UtcTime};
use ramag_dbclient::domain::{Column, ColumnKind, ColumnType, DriverKind, TableMetadata};
use ramag_dbclient::migration_review::LoadedTable;
use ramag_dbclient::result_panel::NoticeLevel;
use ramag_dbclient::schema_diff_dialog::{
    DiffBody, DiffConnection, ExecutionReport, MigrationPanel, SaveOutcome, SchemaDiffDialog,
    diff_warning_lines, export_database_type,
};

fn column(name: &str, position: u32) -> Column {
    Column {
        name: name.into(),
        data_type: ColumnType { kind: ColumnKind::Integer, raw_type: "int".into() },
        nullable: true,
        default_value: None,
        is_primary_key: false,
        comment: None,
        ordinal_position: Some(position),
        is_auto_increment: false,
        generation_expression: None,
        generated_storage: None,
        identity_generation: None,
    }
}

fn table(columns: Vec<Column>) -> LoadedTable {
    LoadedTable {
        metadata: TableMetadata { columns, indexes: Vec::new(), foreign_keys: Vec::new() },
        warnings: Vec::new(),
    }
}

fn connection(id: &str, production: bool) -> DiffConnection {
    DiffConnection { id: id.into(), name: format!("{id}-name"), driver: DriverKind::Mysql, production }
}

fn loaded_dialog(production: bool) -> SchemaDiffDialog {
    let (mut dialog, request) = SchemaDiffDialog::new(
        connection("src", false),
        connection("dst", production),
        "app".into(),
        "users".into(),
        "app".into(),
        "users_copy".into(),
    );
    assert_eq!(request.generation, 1);
    assert!(dialog.loading);
    assert!(dialog.finish_refresh(
        &request,
        table(vec![column("id", 1), column("age", 2)]),
        table(vec![column("id", 1)]),
    ));
    assert!(!dialog.loading);
    dialog
}

fn now() -> UtcTime {
    UtcTime { seconds: 1_700_000_000, nanos: 0 }
}

#[test]
fn stale_metadata_loads_are_dropped() {
    let (mut dialog, first) = SchemaDiffDialog::new(
        connection("src", false),
        connection("dst", false),
        "app".into(),
        "a".into(),
        "app".into(),
        "b".into(),
    );
    let second = dialog.begin_refresh().unwrap();
    assert_eq!(second.generation, 2);
    assert!(!dialog.finish_refresh(&first, table(Vec::new()), table(Vec::new())));
    assert!(dialog.source.is_none());
    assert!(dialog.finish_refresh(&second, table(Vec::new()), table(Vec::new())));
    assert!(dialog.source.is_some());
}

#[test]
fn production_targets_can_only_preview() {
    let mut dialog = loaded_dialog(true);
    assert!(dialog.request_execute().is_none());
    let notice = dialog.pending_notification.take().unwrap();
    assert_eq!(notice.level, NoticeLevel::Warning);
    assert_eq!(notice.message, "目标连接已标记为生产环境，只能预览或保存迁移 SQL");
    let save = dialog.begin_save().unwrap();
    assert_eq!(save.database_type, "mysql");
    assert_eq!(save.object, "users_to_users_copy");
    assert!(dialog.saving_migration);
}

#[test]
fn missing_metadata_or_equal_tables_are_answered_with_a_notice() {
    let (mut dialog, _) = SchemaDiffDialog::new(
        connection("src", false),
        connection("dst", false),
        "app".into(),
        "a".into(),
        "app".into(),
        "b".into(),
    );
    assert!(dialog.request_execute().is_none());
    let notice = dialog.pending_notification.take().unwrap();
    assert_eq!(notice.level, NoticeLevel::Error);
    assert_eq!(notice.message, "两张表的元数据尚未加载，无法生成迁移 SQL");

    let request = dialog.begin_refresh().unwrap();
    dialog.finish_refresh(&request, table(vec![column("id", 1)]), table(vec![column("id", 1)]));
    assert!(dialog.request_execute().is_none());
    assert_eq!(dialog.pending_notification.take().unwrap().message, "结构已一致，无需执行迁移 SQL");
    assert!(dialog.begin_save().is_none());
    assert_eq!(dialog.pending_notification.take().unwrap().message, "结构已一致，无需保存迁移 SQL");
}

#[test]
fn confirmed_migration_runs_once_and_reloads() {
    let mut dialog = loaded_dialog(false);
    let request = dialog.request_execute().unwrap();
    assert!(request.script.statement_count > 0);
    assert!(request.confirmation.starts_with("目标连接：dst-name\n目标表：app.users_copy\n"));
    let sql = request.script.sql.clone();
    let start = dialog.confirm_execution(request, "approval-1".into(), now()).unwrap();
    assert!(dialog.executing_migration);
    assert_eq!(start.generation, 1);
    assert_eq!(start.query.sql, sql);
    assert_eq!(start.query.default_schema.as_deref(), Some("app"));
    assert!(!start.query.transactional);
    assert_eq!(dialog.migration_approvals.len(), 1);
    assert_eq!(dialog.migration_approvals[0].approval_id, "approval-1");
    assert_eq!(dialog.migration_approvals[0].status, MigrationApprovalStatus::Approved);

    assert!(dialog.begin_refresh().is_none());
    assert!(dialog.request_execute().is_none());
    assert!(dialog.pending_notification.is_none());
    assert!(dialog.begin_save().is_none());

    assert!(dialog
        .finish_execution(start.generation + 1, "approval-1", start.statement_count, Ok(ExecutionReport { elapsed_ms: 5, warning_count: 0 }), now())
        .is_none());
    assert!(dialog.executing_migration);

    let reload = dialog
        .finish_execution(
            start.generation,
            "approval-1",
            2,
            Ok(ExecutionReport { elapsed_ms: 12, warning_count: 1 }),
            now(),
        )
        .unwrap();
    assert!(!dialog.executing_migration);
    assert!(dialog.loading);
    assert_eq!(reload.generation, dialog.request_generation);
    let notice = dialog.pending_notification.take().unwrap();
    assert_eq!(notice.level, NoticeLevel::Success);
    assert_eq!(notice.message, "迁移执行成功：2 条语句，耗时 12 ms，数据库返回 1 条警告；正在重新读取元数据");
    assert_eq!(dialog.migration_approvals[0].status, MigrationApprovalStatus::Executed);
    assert_eq!(dialog.migration_approvals[0].elapsed_ms, Some(12));
    assert_eq!(dialog.migration_approvals[0].warning_count, 1);
}

#[test]
fn failed_migration_is_recorded_and_reported() {
    let mut dialog = loaded_dialog(false);
    let request = dialog.request_execute().unwrap();
    let start = dialog.confirm_execution(request, "approval-2".into(), now()).unwrap();
    let reload = dialog.finish_execution(start.generation, "approval-2", 1, Err("duplicate column".into()), now());
    assert!(reload.is_none());
    assert!(!dialog.executing_migration);
    let notice = dialog.pending_notification.take().unwrap();
    assert_eq!(notice.level, NoticeLevel::Error);
    assert_eq!(notice.message, "迁移执行失败：duplicate column");
    assert_eq!(dialog.migration_approvals[0].status, MigrationApprovalStatus::Failed);
    assert_eq!(dialog.migration_approvals[0].error.as_deref(), Some("duplicate column"));
}

#[test]
fn a_changed_preview_is_not_run() {
    let mut dialog = loaded_dialog(false);
    let request = dialog.request_execute().unwrap();
    let reload = dialog.begin_refresh().unwrap();
    dialog.finish_refresh(&reload, table(vec![column("id", 1), column("age", 2)]), table(vec![column("id", 1)]));
    assert!(dialog.confirm_execution(request, "approval-3".into(), now()).is_none());
    assert!(!dialog.executing_migration);
    assert!(dialog.migration_approvals.is_empty());
    assert_eq!(
        dialog.pending_notification.take().unwrap().message,
        "迁移预览已变化，请重新打开预览并确认"
    );
}

#[test]
fn save_outcomes_are_reported() {
    let mut dialog = loaded_dialog(false);
    let save = dialog.begin_save().unwrap();
    assert!(!save.sql.is_empty());
    assert!(dialog.begin_save().is_none());
    dialog.finish_save(SaveOutcome::Cancelled);
    assert!(!dialog.saving_migration);
    assert!(dialog.pending_notification.is_none());
    dialog.begin_save().unwrap();
    dialog.finish_save(SaveOutcome::Saved { file_name: "m.sql".into() });
    assert_eq!(dialog.pending_notification.take().unwrap().message, "已保存迁移 SQL：m.sql");
    dialog.begin_save().unwrap();
    dialog.finish_save(SaveOutcome::Failed { error: "disk full".into() });
    let notice = dialog.pending_notification.take().unwrap();
    assert_eq!(notice.level, NoticeLevel::Error);
    assert_eq!(notice.message, "保存迁移 SQL 失败：disk full");
}

#[test]
fn load_warnings_are_marked_with_their_side() {
    let lines = diff_warning_lines(&vec!["索引读取失败".into()], &vec!["外键读取失败".into(), "x".into()]);
    assert_eq!(lines, vec!["源表：索引读取失败", "目标表：外键读取失败", "目标表：x"]);
    assert_eq!(export_database_type(DriverKind::Postgres), "postgresql");
    assert_eq!(export_database_type(DriverKind::Sqlite), "sqlite");
}

#[test]
fn stored_approvals_merge_and_read_failures_warn() {
    let mut dialog = loaded_dialog(false);
    dialog.finish_loading_approvals(Err("读取迁移审批记录失败：io".into()));
    let notice = dialog.pending_notification.take().unwrap();
    assert_eq!(notice.level, NoticeLevel::Warning);
    assert_eq!(notice.message, "读取迁移审批记录失败：io");
    dialog.toggle_migration();
    assert!(dialog.migration_visible);
    dialog.finish_loading_approvals(Ok(Vec::new()));
    assert!(dialog.migration_approvals.is_empty());
}

#[test]
fn view_follows_loading_sections_and_migration_panel() {
    let (mut dialog, request) = SchemaDiffDialog::new(
        connection("src", false),
        connection("dst", true),
        "app".into(),
        "users".into(),
        "app".into(),
        "users_copy".into(),
    );
    let loading = dialog.view();
    assert_eq!(loading.title, "users · users_copy");
    assert_eq!(loading.subtitle, "源：src-name / app.users · 目标：dst-name / app.users_copy");
    assert!(loading.sections.is_none());
    assert!(matches!(loading.body, DiffBody::Loading { note: "正在加载两张表的列、索引和外键…" }));
    assert!(!loading.migration_toggle_enabled);
    assert!(!loading.refresh_enabled);

    let mut partial = table(vec![column("id", 1), column("age", 2)]);
    partial.warnings.push("索引读取失败".into());
    dialog.finish_refresh(&request, partial, table(vec![column("id", 1)]));
    let view = dialog.view();
    assert!(matches!(view.body, DiffBody::Sections));
    assert!(view.sections.is_some());
    assert!(!view.copy_text.is_empty());
    assert_eq!(view.warning_lines, vec!["源表：索引读取失败"]);
    assert_eq!(view.migration_toggle_tooltip, "元数据未完整加载，无法预览迁移 SQL");
    assert!(!view.migration_toggle_enabled);
    assert!(view.copy_enabled);

    dialog.toggle_migration();
    match dialog.view().body {
        DiffBody::Migration(MigrationPanel::Failed { error }) => assert!(error.contains("未完整加载")),
        other => panic!("{other:?}"),
    }

    let again = dialog.begin_refresh().unwrap();
    dialog.finish_refresh(&again, table(vec![column("id", 1), column("age", 2)]), table(vec![column("id", 1)]));
    assert!(!dialog.migration_visible);
    let view = dialog.view();
    assert_eq!(view.migration_toggle_tooltip, "预览迁移 SQL");
    assert!(view.migration_toggle_enabled);
    dialog.toggle_migration();
    let view = dialog.view();
    assert_eq!(view.migration_toggle_tooltip, "返回结构差异");
    match view.body {
        DiffBody::Migration(MigrationPanel::Ready(panel)) => {
            assert_eq!(panel.status, "可生成迁移");
            assert!(panel.count_label.ends_with(" 条语句"));
            assert!(panel.save_enabled);
            assert!(!panel.execute_enabled);
            assert_eq!(panel.execute_tooltip, "生产连接禁止执行迁移");
            assert_eq!(panel.note, "目标连接为生产环境，只能预览或保存迁移 SQL。");
            assert!(!panel.sql.is_empty());
        }
        other => panic!("{other:?}"),
    }
}

#[test]
fn migration_panel_without_metadata_says_so() {
    let (dialog, _) = SchemaDiffDialog::new(
        connection("src", false),
        connection("dst", false),
        "app".into(),
        "a".into(),
        "app".into(),
        "b".into(),
    );
    assert!(dialog.preview_migration().is_none());
    assert!(matches!(
        dialog.migration_panel(None),
        MigrationPanel::Unavailable { note: "暂无可生成的迁移 SQL" }
    ));
}
