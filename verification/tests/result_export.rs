use ramag_dbclient::domain::DriverKind;
use ramag_dbclient::result_export::{ExportOutcome, shorten};
use ramag_dbclient::result_panel::{NoticeLevel, QueryResult, ResultPanel, ResultState};

fn loaded_panel() -> ResultPanel {
    let mut panel = ResultPanel::new();
    panel.set_state(
        ResultState::Loaded(QueryResult { columns: vec!["id".into()], affected_rows: 0, warnings: Vec::new() }),
        None,
    );
    panel
}

fn notice_text(panel: &mut ResultPanel) -> (NoticeLevel, String) {
    let notice = panel.pending_notification.take().unwrap();
    (notice.level, notice.message)
}

#[test]
fn export_needs_a_result_and_selected_existing_rows() {
    let mut empty = ResultPanel::new();
    assert!(empty.begin_export(3, None, None).is_none());
    assert_eq!(notice_text(&mut empty), (NoticeLevel::Warning, "无可导出的结果".to_string()));

    let mut panel = loaded_panel();
    assert!(panel.begin_export(0, None, None).is_none());
    assert_eq!(notice_text(&mut panel).1, "结果为空，无需导出");
    assert!(panel.begin_export(3, None, None).is_none());
    assert_eq!(notice_text(&mut panel).1, "未选择数据");
    panel.toggle_row_selected(7);
    assert!(panel.begin_export(3, None, None).is_none());
    assert_eq!(notice_text(&mut panel).1, "未选择有效数据");
    assert!(!panel.exporting);
}

#[test]
fn export_request_names_the_database_and_scope() {
    let mut panel = loaded_panel();
    panel.toggle_row_selected(2);
    panel.toggle_row_selected(9);
    panel.toggle_row_selected(0);
    let request = panel.begin_export(5, Some(DriverKind::Postgres), Some("appdb")).unwrap();
    assert!(panel.exporting);
    assert_eq!(request.row_indices, vec![0, 2]);
    assert_eq!(request.scope_label, "选中 2 行");
    assert_eq!(request.database_type, "postgresql");
    assert_eq!(request.database, "appdb");
    assert!(request.object.is_none());
    assert_eq!(request.extension, "jsonl");

    assert!(panel.begin_export(5, None, None).is_none());
    assert_eq!(notice_text(&mut panel), (NoticeLevel::Info, "已有导出任务正在进行".to_string()));

    panel.finish_export(ExportOutcome::Saved { file_name: "rows.jsonl".into() }, &request.scope_label);
    assert!(!panel.exporting);
    assert_eq!(notice_text(&mut panel), (NoticeLevel::Success, "已导出 rows.jsonl（选中 2 行）".to_string()));

    panel.pinned_target = Some((Some("public".into()), "users".into()));
    let pinned = panel.begin_export(5, Some(DriverKind::Redis), Some("appdb")).unwrap();
    assert_eq!(pinned.database, "public");
    assert_eq!(pinned.object.as_deref(), Some("users"));
    assert_eq!(pinned.database_type, "sql");
    panel.pending_notification = None;
    panel.finish_export(ExportOutcome::Cancelled, &pinned.scope_label);
    assert!(panel.pending_notification.is_none());

    panel.pinned_target = Some((None, "users".into()));
    let unpinned_schema = panel.begin_export(5, None, None).unwrap();
    assert_eq!(unpinned_schema.database, "query");
    panel.finish_export(
        ExportOutcome::Failed { path: "/tmp/x.jsonl".into(), error: "磁盘已满".repeat(30) },
        &unpinned_schema.scope_label,
    );
    let (level, message) = notice_text(&mut panel);
    assert_eq!(level, NoticeLevel::Error);
    assert_eq!(message.chars().count(), 81);
    assert!(message.starts_with("写入导出文件 /tmp/x.jsonl 失败：磁盘已满"));
    assert!(message.ends_with('…'));
}

#[test]
fn short_messages_are_kept_whole() {
    assert_eq!(shorten("abc", 3), "abc");
    assert_eq!(shorten("abcd", 3), "abc…");
    assert_eq!(shorten("", 0), "");
}
