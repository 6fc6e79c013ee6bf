use ramag_dbclient::table_properties::{DdlPanel, TablePropertiesDialog, check_ddl_query, ddl_from_row};

#[test]
fn definition_is_the_last_text_value_of_the_first_row() {
    let row = vec![Some("users".to_string()), None, Some("CREATE TABLE users (id INT)".to_string()), None];
    assert_eq!(ddl_from_row("app", "users", Some(&row)).unwrap(), "CREATE TABLE users (id INT)");
    let blank = vec![Some("CREATE TABLE x".to_string()), Some("   ".to_string())];
    assert_eq!(ddl_from_row("app", "users", Some(&blank)).unwrap_err(), "数据库未返回 app.users 的定义");
    assert_eq!(ddl_from_row("app", "users", Some(&vec![None])).unwrap_err(), "数据库未返回 app.users 的定义");
    assert_eq!(ddl_from_row("app", "users", None).unwrap_err(), "数据库未返回 app.users 的定义");
    assert_eq!(check_ddl_query("").unwrap_err(), "当前数据库类型不支持 DDL 查看");
    assert!(check_ddl_query("SHOW CREATE TABLE `users`").is_ok());
}

#[test]
fn only_the_latest_load_on_the_same_connection_counts() {
    let (mut dialog, first) = TablePropertiesDialog::new("conn".into(), "app".into(), "users".into(), false);
    assert_eq!(dialog.title(), "app.users");
    assert_eq!(dialog.subtitle(), "只读建表语句");
    assert!(matches!(dialog.ddl_panel(), DdlPanel::Loading { message: "正在读取建表语句…" }));
    let second = dialog.refresh();
    assert!(!dialog.finish_refresh(first, "conn", Ok("old".into())));
    assert!(!dialog.finish_refresh(second, "other", Ok("foreign".into())));
    assert!(dialog.finish_refresh(second, "conn", Ok("CREATE TABLE users (id INT)".into())));
    match dialog.ddl_panel() {
        DdlPanel::Ddl { text } => assert_eq!(text, "CREATE TABLE users (id INT)"),
        other => panic!("{other:?}"),
    }

    let third = dialog.refresh();
    assert!(dialog.finish_refresh(third, "conn", Err("timeout".into())));
    match dialog.ddl_panel() {
        DdlPanel::Failed { error, hint } => {
            assert_eq!(error, "加载建表语句失败：timeout");
            assert_eq!(hint, "可点击右上角刷新按钮重试");
        }
        other => panic!("{other:?}"),
    }

    let (view, _) = TablePropertiesDialog::new("conn".into(), "app".into(), "v".into(), true);
    assert_eq!(view.subtitle(), "只读视图定义");
}

#[test]
fn a_finished_load_without_definition_shows_the_empty_note() {
    let (mut dialog, generation) = TablePropertiesDialog::new("c".into(), "s".into(), "t".into(), false);
    dialog.finish_refresh(generation, "c", Ok("x".into()));
    dialog.ddl_text = None;
    assert!(matches!(dialog.ddl_panel(), DdlPanel::Empty { message: "暂无可显示的建表语句" }));
}
