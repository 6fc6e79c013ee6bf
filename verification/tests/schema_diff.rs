use ramag_dbclient::domain::{
    Column, ColumnKind, ColumnType, ForeignKey, ForeignKeyAction, GeneratedColumnStorage,
    IdentityGeneration, Index, TableMetadata,
};
use ramag_dbclient::schema_diff::{
    MetadataDiffKind, NamedMetadata, build_table_diff, diff_named, format_table_diff, section_note,
};


fn column(name: &str, raw_type: &str) -> Column {
    Column {
        name: name.into(),
        data_type: ColumnType {
            kind: ColumnKind::Other,
            raw_type: raw_type.into(),
        },
        nullable: true,
        default_value: None,
        is_primary_key: false,
        comment: None,
        ordinal_position: None,
        is_auto_increment: false,
        generation_expression: None,
        generated_storage: None,
        identity_generation: None,
    }
}

fn index(name: &str, columns: &[&str]) -> Index {
    Index {
        name: name.into(),
        unique: false,
        primary: false,
        columns: columns.iter().map(|column| (*column).into()).collect(),
    }
}

fn foreign_key(name: &str, on_delete: ForeignKeyAction) -> ForeignKey {
    ForeignKey {
        name: name.into(),
        columns: vec!["project_id".into()],
        ref_schema: "app".into(),
        ref_table: "projects".into(),
        ref_columns: vec!["id".into()],
        on_delete,
        on_update: ForeignKeyAction::NoAction,
    }
}

#[test]
fn compares_columns_indexes_and_foreign_keys_in_separate_sections() {
    let source = TableMetadata {
        columns: vec![column("id", "int")],
        indexes: vec![index("idx_old", &["id"])],
        foreign_keys: vec![],
    };
    let target = TableMetadata {
        columns: vec![column("id", "bigint"), column("email", "text")],
        indexes: vec![index("idx_new", &["email"])],
        foreign_keys: vec![],
    };

    let sections = build_table_diff(&source, &target);
    assert_eq!(
        sections
            .iter()
            .map(|section| section.title.as_str())
            .collect::<Vec<_>>(),
        ["列", "索引", "外键"]
    );
    assert_eq!(sections[0].lines.len(), 3);
    assert_eq!(sections[1].lines.len(), 2);
    assert!(format_table_diff(&sections).contains("+ email | text"));
    assert!(format_table_diff(&sections).contains("- INDEX idx_old"));
}

#[test]
fn matching_is_case_insensitive_and_copy_text_keeps_sections() {
    let source = TableMetadata {
        columns: vec![column("UserName", "text")],
        ..TableMetadata::default()
    };
    let target = TableMetadata {
        columns: vec![column("username", "text")],
        ..TableMetadata::default()
    };

    let sections = build_table_diff(&source, &target);
    assert_eq!(sections[0].lines[0].kind, MetadataDiffKind::Removed);
    assert_eq!(sections[0].lines[1].kind, MetadataDiffKind::Added);
    let text = format_table_diff(&sections);
    assert!(text.contains("- UserName | text"));
    assert!(text.contains("+ username | text"));
    assert!(text.contains("索引\n  （无对象）"));
}

#[test]
fn foreign_key_actions_are_part_of_diff_text() {
    let source = TableMetadata {
        foreign_keys: vec![foreign_key("fk_project", ForeignKeyAction::Cascade)],
        ..TableMetadata::default()
    };
    let target = TableMetadata {
        foreign_keys: vec![foreign_key("fk_project", ForeignKeyAction::NoAction)],
        ..TableMetadata::default()
    };

    let text = format_table_diff(&build_table_diff(&source, &target));
    assert!(
        text.contains("- fk_project (project_id) -> app.projects (id) | ON DELETE CASCADE")
    );
    assert!(
        text.contains("+ fk_project (project_id) -> app.projects (id) | ON DELETE NO ACTION")
    );
}

#[test]
fn column_diff_text_includes_generation_and_position_metadata() {
    let mut source = column("total", "integer");
    source.ordinal_position = Some(2);
    source.generation_expression = Some("price * 2".into());
    source.generated_storage = Some(GeneratedColumnStorage::Stored);
    let mut target = column("total", "integer");
    target.ordinal_position = Some(3);
    target.identity_generation = Some(IdentityGeneration::ByDefault);

    let text = format_table_diff(&build_table_diff(
        &TableMetadata {
            columns: vec![source],
            ..TableMetadata::default()
        },
        &TableMetadata {
            columns: vec![target],
            ..TableMetadata::default()
        },
    ));
    assert!(text.contains("GENERATED STORED AS (price * 2) | POSITION 2"));
    assert!(text.contains("IDENTITY BY DEFAULT | POSITION 3"));
}

#[test]
fn uniquely_matching_unmatched_columns_are_marked_as_rename_candidates() {
    let text = format_table_diff(&build_table_diff(
        &TableMetadata {
            columns: vec![column("email", "text")],
            ..TableMetadata::default()
        },
        &TableMetadata {
            columns: vec![column("legacy_email", "text")],
            ..TableMetadata::default()
        },
    ));

    assert!(text.contains("重命名候选：legacy_email"));
    assert!(text.contains("重命名候选：email"));
}

#[test]
fn ambiguous_column_shapes_are_not_marked_as_rename_candidates() {
    let text = format_table_diff(&build_table_diff(
        &TableMetadata {
            columns: vec![column("email", "text"), column("name", "text")],
            ..TableMetadata::default()
        },
        &TableMetadata {
            columns: vec![column("legacy_value", "text")],
            ..TableMetadata::default()
        },
    ));

    assert!(!text.contains("重命名候选"));
}

#[test]
fn a_table_compared_with_itself_is_all_context() {
    let table = TableMetadata {
        columns: vec![column("id", "bigint"), column("name", "text")],
        indexes: vec![index("idx_name", &["name"])],
        foreign_keys: vec![foreign_key("fk_project", ForeignKeyAction::Cascade)],
    };
    let sections = build_table_diff(&table, &table);
    assert_eq!(sections.len(), 3);
    assert_eq!(sections[0].lines.len(), 2);
    assert_eq!(sections[1].lines.len(), 1);
    assert_eq!(sections[2].lines.len(), 1);
    assert!(sections
        .iter()
        .all(|section| section.lines.iter().all(|line| line.kind == MetadataDiffKind::Context)));
}

#[test]
fn empty_sections_say_no_difference() {
    let table = TableMetadata { columns: vec![column("id", "bigint")], indexes: Vec::new(), foreign_keys: Vec::new() };
    let sections = build_table_diff(&table, &table);
    assert_eq!(section_note(&sections[0]), None);
    assert_eq!(section_note(&sections[1]), Some("无差异"));
}

fn named(key: &str, text: &str, signature: Option<&str>) -> NamedMetadata {
    NamedMetadata {
        key: key.to_string(),
        display_name: key.to_string(),
        text: text.to_string(),
        rename_signature: signature.map(|s| s.to_string()),
    }
}

#[test]
fn diff_line_count_is_sources_plus_changes_plus_new_targets() {
    let source = vec![named("a", "a int", None), named("b", "b int", None), named("c", "c int", None)];
    let target = vec![named("a", "a int", None), named("b", "b text", None), named("d", "d int", None)];
    let lines = diff_named(&source, &target);
    let kinds: Vec<MetadataDiffKind> = lines.iter().map(|l| l.kind).collect();
    assert_eq!(
        kinds,
        vec![
            MetadataDiffKind::Context,
            MetadataDiffKind::Removed,
            MetadataDiffKind::Added,
            MetadataDiffKind::Removed,
            MetadataDiffKind::Added,
        ]
    );
    assert_eq!(lines.len(), 3 + 1 + 1);
}

#[test]
fn a_rename_pair_reports_the_target_once() {
    let source = vec![named("old", "old int", Some("int"))];
    let target = vec![named("new", "new int", Some("int"))];
    let lines = diff_named(&source, &target);
    assert_eq!(lines.len(), 1 + 0 + 1);
    assert_eq!(lines[0].text, "old int [重命名候选：new]");
    assert_eq!(lines[1].text, "new int [重命名候选：old]");
    assert_eq!(lines.iter().filter(|l| l.kind == MetadataDiffKind::Context).count(), 0);
}
