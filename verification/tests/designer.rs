use ramag_dbclient::designer::{
    DefaultValueKind, FieldDiffKind, FieldSnapshot, MAX_VISIBLE_FIELD_ROWS, TableDesigner,
    default_value_kind, field_diff, format_field_diff, visible_field_rows,
};
use ramag_dbclient::domain::{
    Column, ColumnKind, ColumnType, DriverKind, GeneratedColumnStorage, IdentityGeneration,
};

const NO_CHANGES: &str = "没有检测到表结构变更";

fn column(name: &str, raw_type: &str, nullable: bool) -> Column {
    Column {
        name: name.into(),
        data_type: ColumnType {
            kind: ColumnKind::Other,
            raw_type: raw_type.into(),
        },
        nullable,
        default_value: None,
        is_primary_key: false,
        comment: None,
        ordinal_position: None,
        is_auto_increment: false,
        generation_expression: None,
        generated_storage: None,
        identity_generation: None,
    }
}

fn designer(driver: DriverKind, columns: Vec<Column>) -> TableDesigner {
    TableDesigner::new(
        driver,
        "public".into(),
        "users".into(),
        columns,
        None,
        false,
        false,
    )
}

fn designer_with_rows(driver: DriverKind, columns: Vec<Column>, has_rows: Option<bool>) -> TableDesigner {
    TableDesigner::new(
        driver,
        "public".into(),
        "users".into(),
        columns,
        has_rows,
        false,
        false,
    )
}

#[test]
fn unchanged_columns_do_not_generate_sql() {
    let designer = designer(DriverKind::Mysql, vec![column("id", "int", false)]);

    let result = designer.change_sql();

    assert_eq!(result, Err(NO_CHANGES.into()));
    assert!(!designer.has_changes());
}

#[test]
fn closing_changed_designer_requires_confirmation() {
    let mut designer = designer(DriverKind::Mysql, Vec::new());

    let unchanged_can_close = designer.allow_dialog_close();
    assert!(unchanged_can_close);

    designer.add_field();
    let changed_can_close = designer.allow_dialog_close();

    assert!(!changed_can_close);
    assert!(designer.discard_confirming);
}

#[test]
fn added_fields_receive_unique_names() {
    let mut designer = designer(
        DriverKind::Mysql,
        vec![column("new_column", "varchar(255)", true)],
    );
    designer.add_field();
    designer.add_field();

    let names = designer
        .fields
        .iter()
        .map(|field| field.name.clone())
        .collect::<Vec<_>>();

    assert_eq!(names, ["new_column", "new_column_2", "new_column_3"]);
}

#[test]
fn duplicate_field_names_are_rejected() {
    let mut designer = designer(
        DriverKind::Mysql,
        vec![
            column("first_name", "varchar(255)", true),
            column("last_name", "varchar(255)", true),
        ],
    );
    designer.fields[1].name = "first_name".into();

    let error = designer.change_sql().expect_err("重复字段名必须阻止 SQL 生成");

    assert!(error.contains("字段名 first_name 重复"));
}

#[test]
fn table_rename_uses_database_dialect() {
    for (driver, expected) in [
        (
            DriverKind::Mysql,
            "RENAME TABLE `public`.`users` TO `public`.`members`;",
        ),
        (
            DriverKind::Postgres,
            "ALTER TABLE \"public\".\"users\" RENAME TO \"members\";",
        ),
        (
            DriverKind::Sqlite,
            "ALTER TABLE \"public\".\"users\" RENAME TO \"members\";",
        ),
    ] {
        let mut designer = designer(driver, Vec::new());
        designer.table_name = "members".into();

        let sql = designer.rename_sql().expect("改表名应生成 SQL");
        assert_eq!(sql, expected);
    }
}

#[test]
fn table_name_change_is_not_included_in_field_sql() {
    let mut designer = designer(DriverKind::Mysql, Vec::new());
    designer.table_name = "members".into();

    let (field_sql, table_changed, fields_changed) = (
        designer.change_sql(),
        designer.has_table_name_change(),
        designer.has_field_changes(),
    );

    assert_eq!(field_sql, Err(NO_CHANGES.into()));
    assert!(table_changed);
    assert!(!fields_changed);
}

#[test]
fn mysql_add_column_uses_mysql_dialect() {
    let mut designer = designer(DriverKind::Mysql, Vec::new());
    designer.add_field();

    let sql = designer.change_sql().expect("新增字段应生成 SQL");

    assert_eq!(
        sql,
        "ALTER TABLE `public`.`users` ADD COLUMN `new_column` VARCHAR(255) NULL;"
    );
}

#[test]
fn sqlite_add_column_uses_sqlite_dialect() {
    let mut designer = designer(DriverKind::Sqlite, Vec::new());
    designer.add_field();

    let sql = designer.change_sql().expect("SQLite 新增字段应生成 SQL");

    assert_eq!(
        sql,
        "ALTER TABLE \"public\".\"users\" ADD COLUMN \"new_column\" VARCHAR(255) NULL;"
    );
}

#[test]
fn sqlite_rejects_in_place_type_changes() {
    let mut designer = designer(DriverKind::Sqlite, vec![column("name", "TEXT", true)]);
    designer.fields[0].data_type = "INTEGER".into();

    let error = designer.change_sql().expect_err("SQLite 类型变化必须要求重建表");
    assert!(error.contains("SQLite 字段 name 只支持重命名"));
}

#[test]
fn mysql_batches_multiple_column_changes_into_one_alter() {
    let mut designer = designer(DriverKind::Mysql, Vec::new());
    designer.add_field();
    designer.add_field();

    let sql = designer.change_sql().expect("多个字段应生成 SQL");

    assert_eq!(sql.matches("ALTER TABLE").count(), 1);
    assert_eq!(sql.matches("ADD COLUMN").count(), 2);
    assert!(sql.contains(",\n    ADD COLUMN"));
}

#[test]
fn postgres_changes_emit_separate_alter_statements() {
    let mut designer = designer(DriverKind::Postgres, vec![column("name", "text", true)]);
    designer.fields[0].nullable = false;
    designer.fields[0].comment = "显示名称".into();

    let sql = designer.change_sql().expect("修改字段应生成 SQL");

    assert_eq!(
        sql,
        "ALTER TABLE \"public\".\"users\" ALTER COLUMN \"name\" SET NOT NULL;\n\
             COMMENT ON COLUMN \"public\".\"users\".\"name\" IS '显示名称';"
    );
}

#[test]
fn default_value_semantics_choose_expected_colors() {
    let kind = |value: &str| default_value_kind(value, value.trim().parse::<f64>().is_ok());

    assert_eq!(kind("CURRENT_TIMESTAMP"), DefaultValueKind::Keyword);
    assert_eq!(kind("42.5"), DefaultValueKind::Number);
    assert_eq!(kind("'draft'"), DefaultValueKind::Text);
}

#[test]
fn many_fields_use_fixed_visible_row_count() {
    assert_eq!(visible_field_rows(14, false), MAX_VISIBLE_FIELD_ROWS);
    assert_eq!(visible_field_rows(14, true), 5);
    assert_eq!(visible_field_rows(0, false), 1);
}

fn generated_column() -> Column {
    let mut total = column("total", "INT", true);
    total.generation_expression = Some("price + 1".into());
    total.generated_storage = Some(GeneratedColumnStorage::Stored);
    total.comment = Some("computed total".into());
    total
}

#[test]
fn mysql_change_preserves_auto_increment_and_generated_column_attributes() {
    let mut id = column("id", "INT", false);
    id.is_auto_increment = true;
    id.is_primary_key = true;
    let mut designer = designer(DriverKind::Mysql, vec![id, generated_column()]);
    designer.fields[0].data_type = "BIGINT".into();
    designer.fields[0].comment = "identifier".into();
    designer.fields[1].comment = "computed total".into();

    let sql = designer.change_sql().expect("修改字段注释应生成 MySQL SQL");

    assert!(sql.contains("CHANGE COLUMN `id` `id` BIGINT NOT NULL AUTO_INCREMENT COMMENT 'identifier'"));
    assert!(!sql.contains("CHANGE COLUMN `total`"));
}

#[test]
fn mysql_change_rejects_incomplete_generated_metadata() {
    let mut total = generated_column();
    total.generated_storage = None;
    let mut designer = designer(DriverKind::Mysql, vec![total]);
    designer.fields[0].comment = "changed".into();

    let error = designer.change_sql().expect_err("生成列元数据不完整时必须拒绝 SQL");

    assert!(error.contains("生成列元数据不完整"));
}

#[test]
fn mysql_change_rejects_identity_metadata() {
    let mut id = column("id", "INT", false);
    id.identity_generation = Some(IdentityGeneration::Always);
    let mut designer = designer(DriverKind::Mysql, vec![id]);
    designer.fields[0].comment = "identifier".into();

    let error = designer.change_sql().expect_err("MySQL 不支持 IDENTITY 时必须拒绝 SQL");

    assert!(error.contains("不支持的 IDENTITY 属性"));
}

fn required_new_field(designer: &mut TableDesigner, default_value: &str) {
    designer.add_field();
    let field = designer.fields.last_mut().unwrap();
    field.nullable = false;
    field.default_value = default_value.into();
}

#[test]
fn sqlite_empty_table_allows_required_new_column() {
    let mut designer = designer_with_rows(DriverKind::Sqlite, Vec::new(), Some(false));
    required_new_field(&mut designer, "");

    let sql = designer.change_sql().expect("空 SQLite 表应允许新增必填字段");

    assert!(sql.contains("ADD COLUMN \"new_column\" VARCHAR(255) NOT NULL;"));
}

#[test]
fn sqlite_non_empty_table_rejects_required_new_column_without_default() {
    let mut designer = designer_with_rows(DriverKind::Sqlite, Vec::new(), Some(true));
    required_new_field(&mut designer, "");

    let error = designer.change_sql().expect_err("非空 SQLite 表不应生成无默认值的必填字段");

    assert!(error.contains("已有数据"));
    assert!(error.contains("默认值或允许 NULL"));
}

#[test]
fn sqlite_non_empty_table_allows_required_new_column_with_default() {
    let mut designer = designer_with_rows(DriverKind::Sqlite, Vec::new(), Some(true));
    required_new_field(&mut designer, "0");

    let sql = designer.change_sql().expect("非空 SQLite 表有默认值时应允许新增必填字段");

    assert!(sql.contains("ADD COLUMN \"new_column\" VARCHAR(255) NOT NULL DEFAULT 0;"));
}

#[test]
fn sqlite_unknown_table_state_rejects_required_new_column() {
    let mut designer = designer_with_rows(DriverKind::Sqlite, Vec::new(), None);
    required_new_field(&mut designer, "");

    let error = designer.change_sql().expect_err("未知 SQLite 表状态不应生成危险的必填字段");

    assert!(error.contains("无法确认 SQLite 表 users 是否为空"));
}

fn snapshot(name: &str, data_type: &str) -> FieldSnapshot {
    FieldSnapshot {
        name: name.into(),
        data_type: data_type.into(),
        nullable: true,
        default_value: String::new(),
        comment: String::new(),
    }
}

#[test]
fn unchanged_fields_are_context_and_changes_are_replace_pairs() {
    let original = [snapshot("id", "int"), snapshot("name", "varchar(64)")];
    let current = [snapshot("id", "int"), snapshot("email", "text")];
    let diff = field_diff(&original, &current);

    assert_eq!(
        diff.iter().map(|line| line.kind).collect::<Vec<_>>(),
        [
            FieldDiffKind::Context,
            FieldDiffKind::Removed,
            FieldDiffKind::Added,
        ]
    );
    assert!(format_field_diff(&diff).contains("- name | varchar(64)"));
    assert!(format_field_diff(&diff).contains("+ email | text"));
}

#[test]
fn matching_is_case_insensitive_and_newlines_are_compacted() {
    let original = [snapshot("UserName", "text")];
    let mut current = snapshot("username", "text");
    current.comment = "line1\nline2".into();
    let diff = field_diff(&original, &[current]);

    assert_eq!(diff.len(), 2);
    assert_eq!(diff[0].kind, FieldDiffKind::Removed);
    assert_eq!(diff[1].kind, FieldDiffKind::Added);
    assert!(diff[1].text.contains("COMMENT line1 line2"));
}

#[test]
fn preview_holds_sql_and_field_diff() {
    let mut designer = designer(DriverKind::Postgres, vec![column("name", "text", true)]);
    designer.fields[0].name = "full_name".into();
    designer.build_preview().expect("重命名应生成预览");
    assert_eq!(
        designer.preview_sql.as_deref(),
        Some("ALTER TABLE \"public\".\"users\" RENAME COLUMN \"name\" TO \"full_name\";")
    );
    let diff = designer.preview_diff.as_ref().unwrap();
    assert_eq!(diff.len(), 2);
    designer.input_changed();
    assert!(designer.preview_sql.is_none());
}

#[test]
fn deleted_loaded_field_is_dropped_in_the_dialect() {
    let mut mysql = designer(DriverKind::Mysql, vec![column("legacy", "text", true)]);
    mysql.fields[0].deleted = true;
    assert_eq!(
        mysql.change_sql().unwrap(),
        "ALTER TABLE `public`.`users` DROP COLUMN `legacy`;"
    );
    let mut pg = designer(DriverKind::Postgres, vec![column("legacy", "text", true)]);
    pg.fields[0].deleted = true;
    assert_eq!(
        pg.change_sql().unwrap(),
        "ALTER TABLE \"public\".\"users\" DROP COLUMN \"legacy\";"
    );
}

#[test]
fn field_names_and_types_are_checked() {
    let mut designer = designer(DriverKind::Postgres, Vec::new());
    designer.add_field();
    designer.fields[0].name = "   ".into();
    assert_eq!(designer.change_sql(), Err("字段名不能为空".to_string()));
    designer.fields[0].name = "a\u{7}b".into();
    assert_eq!(designer.change_sql(), Err("字段名不能包含控制字符".to_string()));
    designer.fields[0].name = "x".repeat(257);
    assert_eq!(designer.change_sql(), Err("字段名不能超过 256 字节".to_string()));
    designer.fields[0].name = "title".into();
    designer.fields[0].data_type = "text; DROP TABLE users".into();
    assert_eq!(designer.change_sql(), Err("字段 title 的类型不能包含分号".to_string()));
    designer.fields[0].data_type = "".into();
    assert_eq!(designer.change_sql(), Err("字段 title 的类型不能为空".to_string()));
}

#[test]
fn renaming_to_the_same_name_reports_no_changes() {
    let mut designer = designer(DriverKind::Redis, Vec::new());
    designer.table_name = " users ".into();
    assert_eq!(designer.rename_sql(), Err(NO_CHANGES.to_string()));
    designer.table_name = "other".into();
    assert_eq!(
        designer.rename_sql(),
        Err("当前数据库不支持表结构设计器".to_string())
    );
}

#[test]
fn execution_is_single_flight() {
    let mut designer = designer(DriverKind::Mysql, Vec::new());
    designer.add_field();
    assert!(matches!(designer.begin_execute(), Some(Ok(_))));
    assert!(designer.executing);
    assert!(designer.begin_execute().is_none());
    assert!(!designer.allow_dialog_close());
    designer.finish_execute();
    assert!(!designer.executing);
}
