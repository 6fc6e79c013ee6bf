use ramag_dbclient::designer::TableDesigner;
use ramag_dbclient::designer_view::{DesignerDdl, DesignerView};
use ramag_dbclient::domain::{Column, ColumnKind, ColumnType, DriverKind};

fn column(name: &str) -> Column {
    Column {
        name: name.into(),
        data_type: ColumnType { kind: ColumnKind::Integer, raw_type: "integer".into() },
        nullable: true,
        default_value: None,
        is_primary_key: false,
        comment: None,
        ordinal_position: None,
        is_auto_increment: false,
        generation_expression: None,
        generated_storage: None,
        identity_generation: None,
    }
}

fn designer() -> TableDesigner {
    TableDesigner::new(
        DriverKind::Postgres,
        "public".into(),
        "users".into(),
        vec![column("id"), column("age")],
        None,
        false,
        false,
    )
}

fn screen(d: &TableDesigner) -> ramag_dbclient::designer_view::DesignerScreen {
    match d.view() {
        DesignerView::Ready(s) => s,
        other => panic!("{other:?}"),
    }
}

#[test]
fn loading_and_failed_loads_replace_the_editor() {
    let loading = TableDesigner::new(DriverKind::Mysql, "app".into(), "t".into(), Vec::new(), None, true, true);
    assert!(matches!(loading.view(), DesignerView::Loading { note: "正在加载字段结构…" }));
    let mut failed = designer();
    failed.set_load_error("boom".into());
    match failed.view() {
        DesignerView::LoadFailed { title, error } => {
            assert_eq!(title, "字段结构加载失败");
            assert_eq!(error, "boom");
        }
        other => panic!("{other:?}"),
    }
}

#[test]
fn editing_offers_add_and_preview_once_fields_change() {
    let mut d = designer();
    let s = screen(&d);
    assert!(s.name_input_enabled);
    assert!(s.save_name.is_none());
    assert_eq!(s.ddl_toggle.label, "建表语句");
    assert_eq!(s.field_count_label.as_deref(), Some("2 个字段"));
    let actions = s.actions.unwrap();
    assert_eq!(actions.add_field.unwrap().label, "添加字段");
    assert!(actions.preview.is_none());
    assert!(s.review.is_none());

    d.fields[1].deleted = true;
    d.table_name = "members".into();
    let s = screen(&d);
    assert_eq!(s.field_count_label.as_deref(), Some("1 个字段"));
    let save = s.save_name.unwrap();
    assert_eq!(save.label, "保存");
    assert!(save.enabled);
    let preview = s.actions.unwrap().preview.unwrap();
    assert!(!preview.enabled);
    assert_eq!(preview.tooltip, Some("请先保存表名"));

    d.table_name = "users".into();
    let preview = screen(&d).actions.unwrap().preview.unwrap();
    assert!(preview.enabled);
    assert!(preview.tooltip.is_none());

    d.build_preview().unwrap();
    let s = screen(&d);
    assert!(!s.name_input_enabled);
    assert!(s.actions.is_none());
    let review = s.review.unwrap();
    assert!(review.sql.contains("DROP COLUMN"));
    assert!(!review.diff_copy_text.is_empty());
    assert_eq!(review.execute.label, "确认执行");
    d.back_to_edit();
    assert!(d.preview_sql.is_none());
}

#[test]
fn definition_view_and_discard_prompt() {
    let mut d = designer();
    d.toggle_ddl();
    let s = screen(&d);
    assert_eq!(s.ddl_toggle.label, "字段设计");
    assert!(s.field_count_label.is_none());
    match s.ddl.unwrap() {
        DesignerDdl::Ready { text } => assert_eq!(text, "暂无建表语句"),
        other => panic!("{other:?}"),
    }
    assert!(s.actions.unwrap().add_field.is_none());
    d.set_ddl("CREATE TABLE users ()".into());
    match screen(&d).ddl.unwrap() {
        DesignerDdl::Ready { text } => assert_eq!(text, "CREATE TABLE users ()"),
        other => panic!("{other:?}"),
    }
    d.toggle_ddl();
    d.discard_confirming = true;
    let s = screen(&d);
    let prompt = s.discard_prompt.unwrap();
    assert_eq!(prompt.title, "放弃更改？");
    assert_eq!(prompt.message, "未保存的更改将丢失。");
    assert!(s.actions.is_none());
    d.continue_editing();
    assert!(!d.discard_confirming);
}

#[test]
fn row_switches_close_the_review() {
    let mut d = designer();
    d.set_field_nullable(0, false);
    assert!(!d.fields[0].nullable);
    d.build_preview().unwrap();
    assert!(d.preview_sql.is_some());
    d.delete_field(1);
    assert!(d.fields[1].deleted);
    assert!(d.preview_sql.is_none());
    d.delete_field(9);
    assert_eq!(d.fields.len(), 2);
}
