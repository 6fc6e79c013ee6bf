use ramag_dbclient::schema_diagram::{
    DiagramBody, DiagramColumn, DiagramRelation, DiagramTable, LoadedDiagram, SchemaDiagramPanel, card_rows,
    table_card,
};

fn table(name: &str, columns: &[(&str, &str)]) -> DiagramTable {
    DiagramTable {
        name: name.into(),
        is_view: false,
        comment: None,
        columns: columns
            .iter()
            .map(|(name, raw_type)| DiagramColumn {
                name: (*name).into(),
                raw_type: (*raw_type).into(),
                nullable: true,
                primary: false,
            })
            .collect(),
        relations: Vec::new(),
        metadata_error: None,
    }
}

#[test]
fn search_matches_table_column_and_type_names_without_case() {
    let (mut panel, generation) = SchemaDiagramPanel::new("conn".into(), "app".into());
    assert!(panel.finish_refresh(
        generation,
        "conn",
        "app",
        Ok(LoadedDiagram {
            tables: vec![
                table("Users", &[("id", "INT"), ("email", "VARCHAR(255)")]),
                table("orders", &[("total", "DECIMAL(10,2)")]),
                table("Äpfel", &[("sorte", "TEXT")]),
            ],
            relations: Vec::new(),
            omitted_tables: 0,
        }),
    ));
    panel.search = "  USERS ".into();
    assert_eq!(panel.visible_tables(&panel.search_query()), vec![0]);
    panel.search = "decimal".into();
    assert_eq!(panel.visible_tables(&panel.search_query()), vec![1]);
    panel.search = "ÄPFEL".into();
    assert_eq!(panel.visible_tables(&panel.search_query()), vec![2]);
    panel.search = String::new();
    assert_eq!(panel.visible_tables(&panel.search_query()), vec![0, 1, 2]);
}

#[test]
fn stale_or_foreign_loads_are_ignored() {
    let (mut panel, first) = SchemaDiagramPanel::new("conn".into(), "app".into());
    let second = panel.begin_refresh();
    assert!(!panel.finish_refresh(first, "conn", "app", Err("old".into())));
    assert!(panel.loading);
    assert!(!panel.finish_refresh(second, "other", "app", Err("x".into())));
    assert!(panel.finish_refresh(second, "conn", "app", Err("超时".into())));
    assert!(!panel.loading);
    assert_eq!(panel.error.as_deref(), Some("超时"));
    assert!(panel.tables.is_empty());
}

fn relation(source: &str, name: &str, target: &str) -> DiagramRelation {
    DiagramRelation {
        source_table: source.into(),
        name: name.into(),
        columns: vec!["a".into(), "b".into()],
        ref_schema: "app".into(),
        ref_table: target.into(),
        ref_columns: vec!["x".into()],
    }
}

#[test]
fn table_card_lists_columns_and_relations_up_to_their_limits() {
    let mut t = table("users", &[]);
    t.is_view = true;
    t.comment = Some(String::new());
    t.columns = (0..20)
        .map(|i| DiagramColumn { name: format!("c{i}"), raw_type: "INT".into(), nullable: i == 1, primary: i == 0 })
        .collect();
    t.relations = (0..6).map(|i| relation("users", &format!("fk{i}"), "orders")).collect();
    t.metadata_error = Some("索引读取失败".into());
    let card = table_card(&t);
    assert_eq!(card.title, "users");
    assert!(card.is_view);
    assert!(card.comment.is_none());
    assert_eq!(card.columns.len(), 18);
    assert_eq!(card.columns[0].marker, "PK");
    assert_eq!(card.columns[1].marker, "");
    assert!(card.columns[1].nullable);
    assert_eq!(card.more_columns.as_deref(), Some("… 还有 2 列"));
    assert_eq!(card.metadata_note.as_deref(), Some("元数据不完整：索引读取失败"));
    assert_eq!(card.relation_heading.as_deref(), Some("外键关系 (6)"));
    assert_eq!(card.relations, vec!["fk0 → app.orders", "fk1 → app.orders", "fk2 → app.orders", "fk3 → app.orders"]);
    assert_eq!(card.more_relations.as_deref(), Some("… 还有 2 个关系"));

    let plain = table_card(&table("t", &[("id", "INT")]));
    assert!(plain.more_columns.is_none());
    assert!(plain.relation_heading.is_none());
    assert!(plain.relations.is_empty());
}

#[test]
fn overview_counts_cards_and_relation_list_follows_the_search() {
    let (mut panel, generation) = SchemaDiagramPanel::new("conn".into(), "app".into());
    let overview = panel.overview();
    assert!(matches!(overview.body, DiagramBody::Loading { note: "正在加载表、列和外键元数据…" }));
    assert!(panel.finish_refresh(
        generation,
        "conn",
        "app",
        Ok(LoadedDiagram {
            tables: vec![table("users", &[("id", "INT")]), table("orders", &[("id", "INT")])],
            relations: vec![relation("orders", "fk_user", "users"), relation("users", "fk_self", "users")],
            omitted_tables: 3,
        }),
    ));
    panel.search = "ORD".into();
    let overview = panel.overview();
    assert_eq!(overview.title, "Schema Diagram · app");
    assert_eq!(overview.visible, vec![1]);
    assert_eq!(overview.count_label, "1/2 表");
    assert_eq!(overview.omitted_label.as_deref(), Some("已省略 3 张表"));
    assert!(matches!(overview.body, DiagramBody::Cards { empty_message: None }));
    let summary = panel.relation_summary(&overview.visible);
    assert_eq!(summary.heading, "关系 (1)");
    assert_eq!(summary.lines.len(), 1);
    assert_eq!(summary.lines[0].source, "orders.fk_user");
    assert_eq!(summary.lines[0].target, "app.users (a, b) → (x)");
    assert!(summary.more.is_none());

    panel.search = "nothing".into();
    let overview = panel.overview();
    assert!(matches!(overview.body, DiagramBody::Cards { empty_message: Some("没有匹配的表或列") }));
    assert_eq!(panel.relation_summary(&overview.visible).heading, "关系 (0)");

    let next = panel.begin_refresh();
    assert!(panel.finish_refresh(next, "conn", "app", Err("超时".into())));
    match panel.overview().body {
        DiagramBody::Failed { message } => assert_eq!(message, "加载 Schema Diagram 失败：超时"),
        other => panic!("{other:?}"),
    }
}

#[test]
fn cards_fill_rows_of_four() {
    assert!(card_rows(&Vec::new()).is_empty());
    assert_eq!(card_rows(&vec![0, 1, 2, 3, 4, 5]), vec![vec![0, 1, 2, 3], vec![4, 5]]);
    assert_eq!(card_rows(&vec![7, 8, 9, 10]), vec![vec![7, 8, 9, 10]]);
}
