use ramag_dbclient::domain::{Column, ColumnKind, ColumnType, DriverKind, Index};
use ramag_dbclient::result_ops::{
    BatchDeleteProgress, CellCommitProgress, CellUpdateSqlError, CommitFailure, IdentityWhereError, MAX_BATCH_DELETE_SQL_BYTES,
    MutationOutcome, auto_commit_hint, batch_delete_notice, cell_update_sql_error_message,
    commit_outcome_notice, delete_row_follow_up, derive_row_identity, identity_strategy,
    insert_outcome_notice, insert_too_large_message, missing_table_message, dml_row_limit, guard_batch_delete_count,
    identity_where_error_message, is_decimal_number, reserve_batch_delete_sql_bytes,
    build_identity_where, build_update_sql, delete_statement, update_row_sql, parse_value_for_kind, parse_i64,
    EditorValue,
};
use ramag_dbclient::result_panel::{NoticeLevel, ResultPanel, RowIdentity};

fn column(name: &str, nullable: bool, primary: bool) -> Column {
    Column {
        name: name.into(),
        data_type: ColumnType { kind: ColumnKind::Other, raw_type: "text".into() },
        nullable,
        default_value: None,
        is_primary_key: primary,
        comment: None,
        ordinal_position: None,
        is_auto_increment: false,
        generation_expression: None,
        generated_storage: None,
        identity_generation: None,
    }
}

#[test]
fn decimal_literals_are_recognized_exactly() {
    for ok in ["1", "-1.5", "+.5", "3.", "1e10", "2.5E-3", "007"] {
        assert!(is_decimal_number(ok), "{ok}");
    }
    for bad in ["", ".", "+", "1e", "1e+", "1.2.3", "abc", " 1", "1 ", "--1", "1e5x"] {
        assert!(!is_decimal_number(bad), "{bad}");
    }
}

#[test]
fn batch_delete_reservations_stop_at_the_limit() {
    assert_eq!(reserve_batch_delete_sql_bytes(10, 20), Some(30));
    assert_eq!(
        reserve_batch_delete_sql_bytes(MAX_BATCH_DELETE_SQL_BYTES, 0),
        Some(MAX_BATCH_DELETE_SQL_BYTES)
    );
    assert_eq!(reserve_batch_delete_sql_bytes(MAX_BATCH_DELETE_SQL_BYTES, 1), None);
    assert_eq!(reserve_batch_delete_sql_bytes(usize::MAX, 1), None);
}

#[test]
fn batch_delete_notice_is_persistent_for_anomalies_or_changed_results() {
    let plain = batch_delete_notice(2, 2, 0, None, "主键", true);
    assert_eq!(plain.message, "已删除 2 行（主键匹配）");
    assert!(!plain.persistent);
    let unmatched = batch_delete_notice(3, 2, 1, None, "主键", false);
    assert_eq!(
        unmatched.message,
        "已删除 2 行（主键匹配），1 行未匹配；当前结果已变化，请重新查询核对"
    );
    assert!(unmatched.persistent);
    let anomalous = batch_delete_notice(2, 7, 0, Some(5), "唯一键", true);
    assert_eq!(
        anomalous.message,
        "已执行 2 个删除请求，共影响 7 行；其中一次 DELETE 异常影响 5 行（唯一键匹配），已停止后续删除，请重新查询核对"
    );
    assert!(anomalous.persistent);
}

#[test]
fn only_mysql_limits_single_row_writes() {
    assert_eq!(dml_row_limit(DriverKind::Mysql), " LIMIT 1");
    assert_eq!(dml_row_limit(DriverKind::Postgres), "");
    assert_eq!(dml_row_limit(DriverKind::Sqlite), "");
}

#[test]
fn row_identity_prefers_primary_key_then_not_null_unique_index() {
    let pk = derive_row_identity(&[column("id", false, true), column("email", false, false)], &[]);
    let pk = pk.unwrap();
    assert_eq!(pk.columns, vec!["id".to_string()]);
    assert_eq!(pk.label, "主键");

    let columns = [column("email", false, false), column("nick", true, false)];
    let nullable_unique = Index { name: "u_nick".into(), unique: true, primary: false, columns: vec!["nick".into()] };
    let unique = Index { name: "u_email".into(), unique: true, primary: false, columns: vec!["EMAIL".into()] };
    let found = derive_row_identity(&columns, &[nullable_unique, unique]).unwrap();
    assert_eq!(found.columns, vec!["EMAIL".to_string()]);
    assert_eq!(found.label, "唯一键");

    let none = derive_row_identity(&[column("nick", true, false)], &[]);
    assert!(none.is_none());
}

#[test]
fn write_errors_have_fixed_messages() {
    assert_eq!(
        identity_where_error_message(IdentityWhereError::MissingColumn),
        "结果集缺少定位键列，已取消操作；请重新查询该表"
    );
    assert_eq!(
        cell_update_sql_error_message(CellUpdateSqlError::TooLarge),
        "UPDATE 生成的 SQL 超过 32 MiB 安全上限，请缩短单元格内容或减少同一行修改"
    );
    assert_eq!(
        cell_update_sql_error_message(CellUpdateSqlError::Identity(IdentityWhereError::TooLarge)),
        identity_where_error_message(IdentityWhereError::TooLarge)
    );
}

#[test]
fn auto_commit_hint_only_outside_transactions() {
    assert_eq!(auto_commit_hint(true), "");
    assert_eq!(auto_commit_hint(false), "（已自动提交）");
}

#[test]
fn batch_delete_count_is_capped() {
    assert!(guard_batch_delete_count(0).is_none());
    assert!(guard_batch_delete_count(500).is_none());
    assert_eq!(
        guard_batch_delete_count(501).as_deref(),
        Some("单次批量删除最多 500 行，请减少勾选后分批执行")
    );
}

#[test]
fn batch_delete_progress_records_each_answer() {
    let mut p = BatchDeleteProgress::new();
    assert!(p.record(3, MutationOutcome::Affected(1)));
    assert!(p.record(5, MutationOutcome::Affected(0)));
    assert_eq!(p.deleted, vec![3]);
    assert_eq!(p.affected_rows, 1);
    assert_eq!(p.not_matched, 1);
    let notice = p.success_notice("主键", true, "（已自动提交）");
    assert_eq!(notice.message, "已删除 1 行（主键匹配），1 行未匹配（已自动提交）");
    assert_eq!(notice.level, NoticeLevel::Success);
    assert!(notice.autohide);

    assert!(!p.record(7, MutationOutcome::Affected(4)));
    assert_eq!(p.deleted, vec![3, 7]);
    assert_eq!(p.affected_rows, 5);
    assert_eq!(p.anomalous_affected, Some(4));
    let notice = p.success_notice("主键", true, "");
    assert_eq!(notice.level, NoticeLevel::Warning);
    assert!(!notice.autohide);

    let mut q = BatchDeleteProgress::new();
    assert!(q.record(0, MutationOutcome::Affected(1)));
    assert!(!q.record(1, MutationOutcome::Failed));
    assert!(q.failed);
    assert_eq!(q.failure_context(true), "已影响 1 行、0 行未匹配后出错");
    assert_eq!(q.failure_context(false), "已影响 1 行、0 行未匹配后出错；当前结果已变化");
}

#[test]
fn commit_notice_covers_every_outcome() {
    let empty = commit_outcome_notice(None, true, 0, 0, 0, "主键", "", 0, 0, 0);
    assert_eq!(empty.level, NoticeLevel::Warning);
    assert_eq!(empty.message, "没有可提交的单元格修改");
    assert!(empty.autohide);

    let ok = commit_outcome_notice(None, true, 3, 3, 2, "主键", "（已自动提交）", 0, 0, 2);
    assert_eq!(ok.level, NoticeLevel::Success);
    assert_eq!(ok.message, "已提交 3 项单元格修改，影响 2 行（主键匹配）（已自动提交）");
    assert!(ok.autohide);

    let changed = commit_outcome_notice(None, false, 3, 4, 2, "主键", "", 0, 1, 2);
    assert_eq!(changed.level, NoticeLevel::Warning);
    assert_eq!(
        changed.message,
        "已提交 3 / 4 项单元格修改，影响 2 行（主键匹配）；当前结果已变化，请重新查询核对；仍保留 1 项未提交修改，可修正后重试"
    );
    assert!(!changed.autohide);

    let unmatched = commit_outcome_notice(
        Some(CommitFailure::NotMatched { row_index: 4 }), true, 1, 2, 1, "主键", "", 0, 1, 1,
    );
    assert_eq!(unmatched.level, NoticeLevel::Warning);
    assert_eq!(
        unmatched.message,
        "已提交 1 项修改后，第 5 行 UPDATE 未匹配到记录（请检查定位键）；仍保留 1 项未提交修改，可修正后重试"
    );

    let anomalous = commit_outcome_notice(
        Some(CommitFailure::Anomalous { row_index: 0, affected_rows: 3 }), true, 0, 2, 3, "唯一键", "", 2, 0, 0,
    );
    assert_eq!(anomalous.level, NoticeLevel::Warning);
    assert_eq!(
        anomalous.message,
        "已提交 0 项修改后，第 1 行 UPDATE 异常影响 3 行（唯一键），该行 2 项草稿已清除，已停止后续提交，请重新查询核对"
    );

    let failed = commit_outcome_notice(
        Some(CommitFailure::Database { row_index: 1, message: "boom".into() }), true, 1, 2, 1, "主键", "", 0, 1, 1,
    );
    assert_eq!(failed.level, NoticeLevel::Error);
    assert_eq!(
        failed.message,
        "已提交 1 项修改后，第 2 行失败：boom；仍保留 1 项未提交修改，可修正后重试"
    );
    assert!(!failed.autohide);
}

#[test]
fn single_row_delete_follow_up_depends_on_rows_hit_and_result() {
    let strategy = identity_strategy(&RowIdentity { columns: vec!["id".into()], label: "主键".into() });
    assert_eq!(strategy, "按主键");
    let none = delete_row_follow_up(0, true, &strategy, "");
    assert_eq!(none.notice.message, "DELETE 未匹配到记录（请检查主键或行已被改动）");
    assert!(!none.remove_row);
    let one = delete_row_follow_up(1, true, &strategy, "（已自动提交）");
    assert_eq!(one.notice.level, NoticeLevel::Success);
    assert_eq!(one.notice.message, "已删除 1 行（按主键匹配）（已自动提交）");
    assert!(one.notice.autohide);
    assert!(one.remove_row);
    let moved = delete_row_follow_up(1, false, &strategy, "");
    assert_eq!(moved.notice.message, "已删除 1 行（按主键匹配）；当前结果已变化，请重新查询核对");
    assert!(!moved.remove_row);
    let many = delete_row_follow_up(3, false, &strategy, "");
    assert_eq!(
        many.notice.message,
        "注意：本次 DELETE 影响了 3 行（按主键），定位键可能已失效；当前结果已变化，请重新查询核对"
    );
    assert!(!many.notice.autohide);
}

#[test]
fn insert_notice_and_refusals() {
    assert_eq!(insert_outcome_notice(0, true, "").message, "INSERT 未影响任何行（请检查约束）");
    let ok = insert_outcome_notice(1, true, "（已自动提交）");
    assert_eq!(ok.level, NoticeLevel::Success);
    assert_eq!(ok.message, "已新增 1 行（已自动提交）；请重新查询查看数据库默认值和生成字段");
    let changed = insert_outcome_notice(2, false, "");
    assert_eq!(changed.level, NoticeLevel::Warning);
    assert_eq!(changed.message, "已新增 2 行；当前结果已变化，请重新查询核对");
    assert_eq!(missing_table_message("新增"), "无法识别目标表，请从表树打开单表后再新增");
    assert_eq!(insert_too_large_message(), "INSERT 生成的 SQL 超过 32 MiB 安全上限，请减少列或缩短输入");
}

#[test]
fn writes_wait_for_the_connection() {
    let mut panel = ResultPanel::new();
    assert!(panel.dml_conn("删除", false, true));
    assert!(panel.pending_notification.is_none());
    assert!(!panel.dml_conn("删除", false, false));
    assert_eq!(panel.pending_notification.take().unwrap().message, "当前未注入连接，无法删除");
    assert!(!panel.dml_conn("修改", true, true));
    let notice = panel.pending_notification.take().unwrap();
    assert_eq!(notice.level, NoticeLevel::Info);
    assert_eq!(notice.message, "事务正在切换，暂时无法修改");
    panel.dml_busy = true;
    assert!(!panel.dml_conn("新增", true, false));
    assert_eq!(panel.pending_notification.take().unwrap().message, "上一操作尚未完成，请稍候再新增");
}

#[test]
fn cell_commit_progress_stops_at_the_first_bad_row() {
    let mut p = CellCommitProgress::new();
    assert!(p.record(0, 4, Ok(1)));
    assert!(p.record(1, 7, Ok(1)));
    assert_eq!(p.succeeded, vec![0, 1]);
    assert!(!p.record(2, 9, Ok(3)));
    assert_eq!(p.anomalous, Some(2));
    assert_eq!(p.successful_rows, 3);
    assert_eq!(p.affected_rows, 5);
    assert!(matches!(p.failure, Some(CommitFailure::Anomalous { row_index: 9, affected_rows: 3 })));

    let mut q = CellCommitProgress::new();
    assert!(!q.record(0, 2, Ok(0)));
    assert!(matches!(q.failure, Some(CommitFailure::NotMatched { row_index: 2 })));
    assert_eq!(q.successful_rows, 0);

    let mut r = CellCommitProgress::new();
    assert!(!r.record(0, 1, Err("批量更新失败：锁等待超时".into())));
    match r.failure {
        Some(CommitFailure::Database { row_index, message }) => {
            assert_eq!(row_index, 1);
            assert_eq!(message, "批量更新失败：锁等待超时");
        }
        other => panic!("{other:?}"),
    }
}

fn id_identity() -> RowIdentity {
    RowIdentity { columns: vec!["id".to_string()], label: "主键".to_string() }
}

#[test]
fn grouped_update_uses_one_original_identity_where_clause() {
    let columns = vec!["id".to_string(), "status".to_string(), "note".to_string()];
    let literals = vec![Some("7".to_string()), Some("'ready'".to_string()), Some("'old'".to_string())];
    let sql = update_row_sql(
        &columns,
        &literals,
        &id_identity(),
        "`orders`",
        &[("status".to_string(), "'sent'".to_string()), ("id".to_string(), "8".to_string())],
        DriverKind::Mysql,
    )
    .expect("grouped UPDATE should fit the query budget");
    assert_eq!(sql, "UPDATE `orders` SET `status` = 'sent', `id` = 8 WHERE `id` = 7 LIMIT 1;");
}

#[test]
fn grouped_update_rejects_missing_identity_column() {
    let columns = vec!["status".to_string()];
    let literals = vec![Some("'ready'".to_string())];
    assert!(
        update_row_sql(
            &columns,
            &literals,
            &id_identity(),
            "`orders`",
            &[("status".to_string(), "'sent'".to_string())],
            DriverKind::Postgres,
        )
        .is_err()
    );
}

#[test]
fn identity_where_matches_key_columns_ignoring_ascii_case() {
    let columns = vec!["ID".to_string(), "status".to_string()];
    let literals = vec![Some("7".to_string()), None];
    assert_eq!(build_identity_where(&columns, &literals, &id_identity(), DriverKind::Mysql), Ok("`id` = 7".to_string()));
}

#[test]
fn identity_where_uses_is_null_for_a_null_key_and_joins_with_and() {
    let columns = vec!["a".to_string(), "b".to_string()];
    let literals = vec![None, Some("'x'".to_string())];
    let identity = RowIdentity { columns: vec!["a".to_string(), "b".to_string()], label: "唯一键".to_string() };
    assert_eq!(
        build_identity_where(&columns, &literals, &identity, DriverKind::Postgres),
        Ok("\"a\" IS NULL AND \"b\" = 'x'".to_string())
    );
}

#[test]
fn identity_where_refuses_a_missing_column_or_value() {
    let columns = vec!["status".to_string()];
    assert_eq!(
        build_identity_where(&columns, &[Some("1".to_string())], &id_identity(), DriverKind::Mysql),
        Err(IdentityWhereError::MissingColumn)
    );
    let columns = vec!["id".to_string()];
    assert_eq!(build_identity_where(&columns, &[], &id_identity(), DriverKind::Mysql), Err(IdentityWhereError::MissingColumn));
    assert_eq!(
        update_row_sql(&columns, &[], &id_identity(), "t", &[], DriverKind::Mysql),
        Err(CellUpdateSqlError::Identity(IdentityWhereError::MissingColumn))
    );
}

#[test]
fn identity_where_refuses_a_clause_over_the_request_limit() {
    let columns = vec!["id".to_string()];
    let huge = "9".repeat(33554432);
    assert_eq!(
        build_identity_where(&columns, &[Some(huge)], &id_identity(), DriverKind::Mysql),
        Err(IdentityWhereError::TooLarge)
    );
}

#[test]
fn update_sql_has_no_row_limit_outside_mysql() {
    let sql = build_update_sql("\"t\"", &[("v".to_string(), "1".to_string())], "\"id\" = 2", DriverKind::Postgres);
    assert_eq!(sql, Ok("UPDATE \"t\" SET \"v\" = 1 WHERE \"id\" = 2;".to_string()));
}

#[test]
fn update_sql_refuses_text_over_the_request_limit() {
    let huge = "'".to_string() + &"x".repeat(33554432) + "'";
    assert_eq!(
        build_update_sql("t", &[("v".to_string(), huge)], "id = 1", DriverKind::Sqlite),
        Err(CellUpdateSqlError::TooLarge)
    );
}

#[test]
fn delete_statement_limits_mysql_to_one_row() {
    assert_eq!(delete_statement("`t`", "`id` = 1", DriverKind::Mysql), "DELETE FROM `t` WHERE `id` = 1 LIMIT 1;");
    assert_eq!(delete_statement("\"t\"", "\"id\" = 1", DriverKind::Postgres), "DELETE FROM \"t\" WHERE \"id\" = 1;");
}

#[test]
fn editor_empty_text_is_null_default_or_required() {
    assert_eq!(parse_value_for_kind(ColumnKind::Integer, "  ", true, false, false), Ok(Some(EditorValue::Null)));
    assert_eq!(parse_value_for_kind(ColumnKind::Integer, "", false, true, false), Ok(None));
    assert_eq!(parse_value_for_kind(ColumnKind::Integer, "", false, false, false), Err("必填".to_string()));
}

#[test]
fn editor_null_word_is_null_only_where_allowed() {
    assert_eq!(parse_value_for_kind(ColumnKind::Text, " null ", true, false, false), Ok(Some(EditorValue::Null)));
    assert_eq!(parse_value_for_kind(ColumnKind::Text, "NuLl", false, true, false), Err("不可为 NULL".to_string()));
}

#[test]
fn editor_integer_reads_the_whole_i64_range() {
    assert_eq!(parse_value_for_kind(ColumnKind::Integer, " 42 ", false, false, false), Ok(Some(EditorValue::Int(42))));
    assert_eq!(
        parse_value_for_kind(ColumnKind::Integer, "-9223372036854775808", false, false, false),
        Ok(Some(EditorValue::Int(i64::MIN)))
    );
    assert_eq!(
        parse_value_for_kind(ColumnKind::Integer, "9223372036854775808", false, false, false),
        Err("不是合法整数: 9223372036854775808".to_string())
    );
    assert_eq!(parse_value_for_kind(ColumnKind::Integer, "1.5", false, false, false), Err("不是合法整数: 1.5".to_string()));
    assert_eq!(parse_i64("+7"), Some(7));
    assert_eq!(parse_i64("-"), None);
    assert_eq!(parse_i64("9223372036854775807"), Some(i64::MAX));
    assert_eq!(parse_i64("00000000000000000000000012"), Some(12));
}

#[test]
fn editor_decimal_keeps_exact_text() {
    assert_eq!(
        parse_value_for_kind(ColumnKind::Decimal, " 12345678901234567890.123 ", false, false, false),
        Ok(Some(EditorValue::Text("12345678901234567890.123".to_string())))
    );
    assert_eq!(parse_value_for_kind(ColumnKind::Decimal, "1e", false, false, false), Err("不是合法十进制数值: 1e".to_string()));
}

#[test]
fn editor_float_follows_the_callers_reading() {
    assert_eq!(parse_value_for_kind(ColumnKind::Float, "1.5", false, false, true), Ok(Some(EditorValue::Float("1.5".to_string()))));
    assert_eq!(parse_value_for_kind(ColumnKind::Float, "abc", false, false, false), Err("不是合法数值: abc".to_string()));
}

#[test]
fn editor_bool_accepts_the_listed_spellings() {
    assert_eq!(parse_value_for_kind(ColumnKind::Bool, "True", false, false, false), Ok(Some(EditorValue::Bool(true))));
    assert_eq!(parse_value_for_kind(ColumnKind::Bool, "0", false, false, false), Ok(Some(EditorValue::Bool(false))));
    assert_eq!(parse_value_for_kind(ColumnKind::Bool, "FALSE", false, false, false), Ok(Some(EditorValue::Bool(false))));
    assert_eq!(
        parse_value_for_kind(ColumnKind::Bool, "yes", false, false, false),
        Err("布尔值需 1/0/true/false: yes".to_string())
    );
}

#[test]
fn editor_other_kinds_keep_trimmed_text() {
    assert_eq!(parse_value_for_kind(ColumnKind::Other, "  hi ", false, false, false), Ok(Some(EditorValue::Text("hi".to_string()))));
}

#[test]
fn staging_a_new_cell_stops_at_the_limit() {
    let mut panel = ResultPanel::new();
    for row in 0..500 {
        panel.stage_pending_edit(ramag_dbclient::result_panel::PendingCellEdit {
            row,
            column: 0,
            original: None,
            current: Some("x".to_string()),
        });
    }
    assert!(panel.check_pending_edit_room(3, 0));
    assert!(panel.pending_notification.is_none());
    assert!(!panel.check_pending_edit_room(3, 1));
    let notice = panel.pending_notification.as_ref().expect("warning");
    assert_eq!(notice.level, NoticeLevel::Warning);
    assert_eq!(notice.message, "单次最多保留 500 项未提交单元格修改，请先提交或撤销");
    assert!(!notice.autohide);
}

fn panel_with_result(columns: &[&str]) -> ResultPanel {
    let mut panel = ResultPanel::new();
    panel.set_state(
        ramag_dbclient::result_panel::ResultState::Loaded(ramag_dbclient::result_panel::QueryResult {
            columns: columns.iter().map(|c| c.to_string()).collect(),
            affected_rows: 0,
            warnings: Vec::new(),
        }),
        None,
    );
    panel
}

#[test]
fn delete_preview_names_the_row_by_its_key_column() {
    let mut panel = panel_with_result(&["name", "ID"]);
    panel.row_identity = Some(id_identity());
    assert_eq!(panel.delete_preview(5, "x", None), None);
    panel.set_selected_cell(Some((2, 0)));
    assert_eq!(panel.delete_preview(5, "42", None), Some((2, "ID = 42".to_string())));
    assert_eq!(
        panel.delete_preview(5, "42", Some(&vec![0, 1])),
        Some((2, "ID = 42（该行当前被筛选隐藏）".to_string()))
    );
    assert_eq!(panel.delete_preview(2, "42", None), None);
}

#[test]
fn delete_preview_multi_lists_three_samples_and_the_rest() {
    let mut panel = panel_with_result(&["id", "name"]);
    for row in [6, 1, 3, 0, 9] {
        panel.toggle_row_selected(row);
    }
    assert_eq!(panel.delete_targets(7), vec![0, 1, 3, 6]);
    let previews = vec!["a".to_string(), "b".to_string(), "c".to_string()];
    assert_eq!(
        panel.delete_preview_multi(7, &previews, Some(&vec![0, 3])),
        Some((vec![0, 1, 3, 6], "将删除 4 行（其中 2 行当前被筛选隐藏）：id = a / id = b / id = c / …还有 1 行".to_string()))
    );
    assert_eq!(panel.delete_preview_multi(0, &previews, None), None);
    assert_eq!(ResultPanel::new().delete_preview_multi(7, &previews, None), None);
}

#[test]
fn deleted_rows_leave_the_result_in_order() {
    let mut rows = vec!["a", "b", "c", "d"];
    assert!(ramag_dbclient::result_ops::remove_deleted_rows(&mut rows, &vec![3, 1, 7, 1]));
    assert_eq!(rows, vec!["a", "c"]);
    assert!(!ramag_dbclient::result_ops::remove_deleted_rows(&mut rows, &vec![5]));
    assert_eq!(rows, vec!["a", "c"]);
}
