use ramag_dbclient::result_panel::{
    affected_result_lines, header_sort_arrow,
    PlanDisplay, PlanSource, PlanViewMode, plan_display, plan_row_view, plan_switch, plan_tree_title,
    MemoryOutcome, PendingCellEdit, RowIdentity, PlanRow, QueryResult, QueryWarning, ResultPagination, ResultPanel, ResultState,
    AlternateStatus, ResultViewMode, SortDir, TotalRows, alternate_page_label, alternate_status_text,
    format_result_page_range, pager_controls, parse_result_page, result_total_pages,
    visible_plan_indices,
};

#[test]
fn exposes_stable_result_view_order_and_labels() {
    assert_eq!(
        ResultViewMode::ALL,
        [
            ResultViewMode::Table,
            ResultViewMode::Tree,
            ResultViewMode::Text,
            ResultViewMode::Transpose,
        ]
    );
    assert_eq!(ResultViewMode::default(), ResultViewMode::Table);
    assert_eq!(ResultViewMode::Transpose.label(), "转置");
}

#[test]
fn formats_unknown_total_as_a_lower_bound_when_another_page_exists() {
    let pagination = ResultPagination {
        page: 0,
        page_size: 500,
        has_more: true,
        total: TotalRows::Unavailable,
    };
    assert_eq!(
        format_result_page_range(pagination, 0, 500),
        "1-500 of 501+"
    );
}

#[test]
fn formats_known_total_and_empty_page_without_fabricating_rows() {
    let pagination = ResultPagination {
        page: 1,
        page_size: 500,
        has_more: false,
        total: TotalRows::Known(500),
    };
    assert_eq!(format_result_page_range(pagination, 500, 0), "0-0 of 500");
}

#[test]
fn formats_counting_total_without_claiming_a_final_count() {
    let pagination = ResultPagination {
        page: 1,
        page_size: 100,
        has_more: true,
        total: TotalRows::Counting,
    };
    assert_eq!(
        format_result_page_range(pagination, 100, 100),
        "101-200 of …"
    );
}

#[test]
fn parses_one_based_page_into_zero_based_index() {
    assert_eq!(parse_result_page(" 3 ", 5).unwrap(), 2);
}

#[test]
fn rejects_page_outside_known_total() {
    assert!(parse_result_page("0", 5).is_err());
    assert!(parse_result_page("6", 5).is_err());
    assert!(parse_result_page("next", 5).is_err());
}

fn plan_row(id: usize, parent: Option<usize>, depth: usize, label: &str, has_children: bool) -> PlanRow {
    PlanRow {
        id,
        parent,
        depth,
        label: label.into(),
        detail: None,
        is_detail: false,
        has_children,
    }
}

#[test]
fn collapsed_rows_hide_only_descendants() {
    let rows = vec![
        plan_row(0, None, 0, "root", true),
        plan_row(1, Some(0), 1, "child", false),
        plan_row(2, None, 0, "sibling root", false),
    ];
    let visible = visible_plan_indices(&rows, &vec![0]);
    assert_eq!(visible, vec![0, 2]);
}

#[test]
fn clearing_table_filter_preserves_content_search() {
    let mut panel = ResultPanel::new();
    panel.column_filter = "email".into();
    panel.row_filter = "alice".into();
    panel.clear_column_filter();
    assert_eq!(panel.column_filter_entity(), "");
    assert_eq!(panel.row_filter_entity(), "alice");
    assert_eq!(panel.row_filter_text(), "alice");
}

fn loaded(columns: &[&str], warnings: Vec<QueryWarning>) -> ResultState {
    ResultState::Loaded(QueryResult {
        columns: columns.iter().map(|c| (*c).to_string()).collect(),
        affected_rows: 0,
        warnings,
    })
}

#[test]
fn new_result_resets_selection_sort_and_paging() {
    let mut panel = ResultPanel::new();
    panel.set_state(loaded(&["id"], Vec::new()), None);
    panel.toggle_row_selected(3);
    assert!(panel.toggle_sort(0).is_some());
    panel.set_pagination(Some(ResultPagination {
        page: 2,
        page_size: 100,
        has_more: true,
        total: TotalRows::Unavailable,
    }));
    panel.set_selected_cell(Some((1, 0)));
    let revision = panel.result_revision();

    panel.set_state(loaded(&["id", "email"], Vec::new()), None);
    assert!(panel.selected_rows().is_empty());
    assert_eq!(panel.sort_by(), None);
    assert_eq!(panel.pagination(), None);
    assert_eq!(panel.selected_cell(), None);
    assert_eq!(panel.result_revision(), revision + 1);
    assert_eq!(panel.column_completion_source, vec!["id".to_string(), "email".to_string()]);
}

#[test]
fn restored_state_keeps_selection_and_sort() {
    let mut panel = ResultPanel::new();
    panel.set_state(loaded(&["id"], Vec::new()), None);
    panel.toggle_row_selected(1);
    panel.toggle_sort(0);
    panel.restore_state(loaded(&["id"], Vec::new()), None);
    assert_eq!(panel.selected_rows(), &vec![1]);
    assert_eq!(panel.sort_by(), Some((0, SortDir::Asc)));
}

#[test]
fn client_warnings_are_expanded_on_a_new_result() {
    let mut panel = ResultPanel::new();
    panel.set_state(
        loaded(
            &["id"],
            vec![QueryWarning { level: "Client".into(), code: "0".into(), message: "结果已截断".into() }],
        ),
        None,
    );
    assert!(panel.warnings_expanded);
    panel.set_state(
        loaded(
            &["id"],
            vec![QueryWarning { level: "Server".into(), code: "1003".into(), message: "slow".into() }],
        ),
        None,
    );
    assert!(!panel.warnings_expanded);
}

#[test]
fn evicted_current_result_is_released_and_forgets_its_sql() {
    let mut panel = ResultPanel::new();
    panel.set_source_sql(Some("SELECT 1".into()));
    panel.set_state(
        loaded(&["id"], Vec::new()),
        Some(MemoryOutcome { current_evicted: true, warning: None }),
    );
    match panel.state() {
        ResultState::Released(message) => assert!(message.contains("512 MiB 硬上限")),
        _ => panic!("an evicted result must be released"),
    }
    assert_eq!(panel.source_sql(), None);
}

#[test]
fn memory_warning_is_added_once() {
    let warning = || QueryWarning {
        level: "Client".into(),
        code: "0".into(),
        message: "全部查询标签结果已接近 512 MiB".into(),
    };
    let mut panel = ResultPanel::new();
    panel.set_state(
        loaded(&["id"], vec![warning()]),
        Some(MemoryOutcome { current_evicted: false, warning: Some(warning()) }),
    );
    match panel.state() {
        ResultState::Loaded(result) => assert_eq!(result.warnings.len(), 1),
        _ => panic!("the result must stay loaded"),
    }
    panel.set_state(
        loaded(&["id"], Vec::new()),
        Some(MemoryOutcome { current_evicted: false, warning: Some(warning()) }),
    );
    match panel.state() {
        ResultState::Loaded(result) => assert_eq!(result.warnings.len(), 1),
        _ => panic!("the result must stay loaded"),
    }
}

#[test]
fn budget_eviction_keeps_view_mode_and_filters() {
    let mut panel = ResultPanel::new();
    panel.set_state(loaded(&["id"], Vec::new()), None);
    panel.set_view_mode(ResultViewMode::Text);
    panel.row_filter = "alice".into();
    panel.set_source_sql(Some("SELECT * FROM users".into()));
    panel.evict_result_for_budget();
    match panel.state() {
        ResultState::Released(message) => assert!(message.contains("LRU")),
        _ => panic!("the result must be released"),
    }
    assert_eq!(panel.view_mode(), ResultViewMode::Text);
    assert_eq!(panel.row_filter_entity(), "alice");
    assert_eq!(panel.source_sql(), None);
    assert!(panel.column_completion_source.is_empty());
}

#[test]
fn sort_cycles_ascending_descending_and_off() {
    let mut panel = ResultPanel::new();
    let first = panel.toggle_sort(2).unwrap();
    assert_eq!(first.previous, None);
    assert_eq!(first.current, Some((2, SortDir::Asc)));
    assert_eq!(panel.toggle_sort(2).unwrap().current, Some((2, SortDir::Desc)));
    assert_eq!(panel.toggle_sort(2).unwrap().current, None);
    assert_eq!(panel.toggle_sort(2).unwrap().current, Some((2, SortDir::Asc)));
    assert_eq!(panel.toggle_sort(4).unwrap().current, Some((4, SortDir::Asc)));
}

#[test]
fn sort_is_refused_while_a_write_runs() {
    let mut panel = ResultPanel::new();
    panel.dml_busy = true;
    assert!(panel.toggle_sort(0).is_none());
    assert_eq!(panel.sort_by(), None);
    let notice = panel.pending_notification.as_ref().unwrap();
    assert!(notice.message.contains("上一写操作尚未完成"));
}

#[test]
fn leaving_the_table_with_staged_edits_is_refused() {
    let mut panel = ResultPanel::new();
    panel.pending_cell_edits.push(PendingCellEdit {
        row: 0,
        column: 0,
        original: Some("a".into()),
        current: Some("b".into()),
    });
    panel.set_view_mode(ResultViewMode::Tree);
    assert_eq!(panel.view_mode(), ResultViewMode::Table);
    assert!(panel.pending_notification.is_some());
}

#[test]
fn toggling_a_row_twice_restores_the_selection() {
    let mut panel = ResultPanel::new();
    panel.toggle_row_selected(5);
    panel.toggle_row_selected(7);
    panel.toggle_row_selected(5);
    assert_eq!(panel.selected_rows(), &vec![7]);
    panel.toggle_tree_row(2);
    assert!(panel.tree_row_expanded(2));
    panel.toggle_tree_row(2);
    assert!(!panel.tree_row_expanded(2));
}

#[test]
fn selected_rows_stay_in_ascending_order_without_repeats() {
    let mut panel = ResultPanel::new();
    panel.toggle_row_selected(9);
    panel.toggle_row_selected(2);
    panel.toggle_row_selected(0);
    assert_eq!(panel.selected_rows(), &vec![0, 2, 9]);
    panel.toggle_visible_rows(&vec![5, 1, 5]);
    assert_eq!(panel.selected_rows(), &vec![0, 1, 2, 5, 9]);
    panel.selected_rows = vec![4, 3, 4];
    panel.toggle_row_selected(1);
    assert_eq!(panel.selected_rows(), &vec![1, 3, 4]);
}

#[test]
fn select_all_visible_rows_toggles_between_all_and_none() {
    let mut panel = ResultPanel::new();
    let visible = vec![1, 2, 3];
    panel.toggle_row_selected(2);
    assert_eq!(panel.visible_selection_summary(&visible), (1, false));
    panel.toggle_visible_rows(&visible);
    assert_eq!(panel.visible_selection_summary(&visible), (3, true));
    panel.toggle_visible_rows(&visible);
    assert_eq!(panel.visible_selection_summary(&visible), (0, false));
    assert_eq!(panel.visible_selection_summary(&Vec::new()), (0, false));
}

#[test]
fn column_width_overrides_follow_the_result_columns() {
    let mut panel = ResultPanel::new();
    panel.set_col_width_override(0, 120);
    assert_eq!(panel.col_width_override(0), None);
    panel.set_state(loaded(&["id", "email"], Vec::new()), None);
    panel.set_col_width_override(1, 240);
    assert_eq!(panel.col_width_override(1), Some(240));
    assert_eq!(panel.col_width_override(0), None);
    assert_eq!(panel.col_width_overrides.len(), 2);
}

#[test]
fn pagination_total_is_filled_only_while_paged() {
    let mut panel = ResultPanel::new();
    panel.set_pagination_total(TotalRows::Known(10));
    assert_eq!(panel.pagination(), None);
    panel.set_pagination(Some(ResultPagination {
        page: 0,
        page_size: 100,
        has_more: true,
        total: TotalRows::Counting,
    }));
    panel.set_pagination_total(TotalRows::Known(250));
    assert_eq!(panel.pagination().unwrap().total, TotalRows::Known(250));
}

#[test]
fn identity_label_defaults_to_primary_key() {
    let mut panel = ResultPanel::new();
    assert_eq!(panel.identity_label(), "主键");
    panel.row_identity = Some(RowIdentity { columns: vec!["email".into()], label: "唯一键".into() });
    assert_eq!(panel.identity_label(), "唯一键");
}

#[test]
fn inline_cell_edit_keeps_target_and_clears_on_cancel() {
    let mut panel = ResultPanel::new();
    panel.set_state(loaded(&["id", "status"], Vec::new()), None);
    panel.begin_cell_edit(0, 1, "pending".into());
    assert_eq!(panel.editing_cell, Some((0, 1)));
    assert_eq!(panel.cell_edit_input.as_deref(), Some("pending"));

    assert!(panel.cancel_inline_cell_edit());
    assert!(panel.editing_cell.is_none());
    assert!(panel.cell_edit_input.is_none());
    assert!(!panel.cancel_inline_cell_edit());
}

#[test]
fn comparison_needs_a_baseline_and_a_current_result() {
    let mut panel = ResultPanel::new();
    assert!(!panel.capture_comparison_baseline());
    panel.set_state(loaded(&["id"], Vec::new()), None);
    assert!(panel.comparison_inputs().is_none());
    assert!(panel.capture_comparison_baseline());
    assert!(panel.has_comparison_baseline());
    panel.set_state(loaded(&["id", "email"], Vec::new()), None);
    let (baseline, current) = panel.comparison_inputs().unwrap();
    assert_eq!(baseline.columns, vec!["id".to_string()]);
    assert_eq!(current.columns.len(), 2);
    panel.apply_comparison_memory(true);
    assert!(!panel.has_comparison_baseline());
    assert!(matches!(panel.state(), ResultState::Released(_)));
    assert!(!panel.clear_comparison_baseline());
}

#[test]
fn result_scope_describes_the_loaded_page() {
    let mut panel = ResultPanel::new();
    let (text, key) = panel.result_scope(120, true);
    assert_eq!(text, "已加载 120 行 · 结果已截断");
    assert!(key.truncated && key.page.is_none());
    panel.set_pagination(Some(ResultPagination {
        page: 1,
        page_size: 100,
        has_more: true,
        total: TotalRows::Known(250),
    }));
    let (text, key) = panel.result_scope(100, false);
    assert_eq!(text, "第 2 页 · 已加载 100 行 / 共 250 行");
    assert_eq!(key.page, Some(1));
    assert_eq!(key.page_size, Some(100));
}

#[test]
fn warnings_banner_lists_at_most_twenty_when_expanded() {
    let mut panel = ResultPanel::new();
    assert!(panel.warnings_banner().is_none());
    let warnings = (0..23)
        .map(|i| QueryWarning { level: "Warning".into(), code: "1265".into(), message: format!("w{i}") })
        .collect();
    panel.set_state(loaded(&["id"], warnings), None);
    panel.warnings_expanded = false;
    let collapsed = panel.warnings_banner().unwrap();
    assert_eq!(collapsed.header, "⚠ 23 条查询警告（点击展开）");
    assert!(collapsed.lines.is_empty());
    assert!(collapsed.more.is_none());
    panel.warnings_expanded = true;
    let expanded = panel.warnings_banner().unwrap();
    assert_eq!(expanded.header, "⚠ 23 条查询警告（点击收起）");
    assert_eq!(expanded.lines.len(), 20);
    assert_eq!(expanded.lines[0], "[Warning 1265] w0");
    assert_eq!(expanded.more.as_deref(), Some("…更多 3 条"));
    panel.set_state(loaded(&["id"], Vec::new()), None);
    assert!(panel.warnings_banner().is_none());
}

#[test]
fn pager_buttons_follow_the_page_and_block_while_editing() {
    let middle = ResultPagination { page: 2, page_size: 100, has_more: true, total: TotalRows::Known(1000) };
    let pager = pager_controls(middle, Some(10), 200, 100, 0, false);
    assert!(!pager.blocked);
    assert_eq!(pager.first, Some(0));
    assert_eq!(pager.previous, Some(1));
    assert_eq!(pager.next, Some(3));
    assert_eq!(pager.last, Some(9));
    assert_eq!(pager.range, "201-300 of 1000");
    let jump = pager.jump.unwrap();
    assert_eq!(jump.hint, "输入 1-10 的页码");
    assert_eq!(jump.current_page, 3);
    assert!(jump.enabled);

    let blocked = pager_controls(middle, Some(10), 200, 100, 2, false);
    assert!(blocked.blocked);
    assert!(blocked.first.is_none() && blocked.previous.is_none() && blocked.next.is_none() && blocked.last.is_none());
    assert!(!blocked.jump.unwrap().enabled);

    let first_page = ResultPagination { page: 0, page_size: 100, has_more: false, total: TotalRows::Unavailable };
    let single = pager_controls(first_page, Some(1), 0, 40, 0, false);
    assert!(single.first.is_none() && single.previous.is_none() && single.next.is_none() && single.last.is_none());
    assert!(single.jump.is_none());
    assert_eq!(single.range, "1-40 of 40");
    assert!(pager_controls(first_page, None, 0, 0, 0, true).last.is_none());
}

#[test]
fn transpose_view_follows_the_selected_row_while_it_is_shown() {
    let mut panel = ResultPanel::new();
    assert_eq!(panel.selected_transpose_row(5, &vec![]), None);
    assert_eq!(panel.selected_transpose_row(5, &vec![3, 1]), Some(3));
    panel.set_selected_cell(Some((1, 0)));
    assert_eq!(panel.selected_transpose_row(5, &vec![3, 1]), Some(1));
    assert_eq!(panel.selected_transpose_row(5, &vec![3, 4]), Some(3));
    assert_eq!(panel.selected_transpose_row(1, &vec![3, 1]), Some(3));
}

#[test]
fn total_pages_round_up_and_never_drop_below_one() {
    let page = |total| ResultPagination { page: 0, page_size: 100, has_more: false, total };
    assert_eq!(result_total_pages(page(TotalRows::Known(0))), Some(1));
    assert_eq!(result_total_pages(page(TotalRows::Known(100))), Some(1));
    assert_eq!(result_total_pages(page(TotalRows::Known(101))), Some(2));
    assert_eq!(result_total_pages(page(TotalRows::Counting)), None);
    assert_eq!(result_total_pages(ResultPagination { page: 0, page_size: 0, has_more: false, total: TotalRows::Known(5) }), None);
    assert_eq!(alternate_page_label(page(TotalRows::Known(101)), Some(2)), "第 1 / 2 页");
    assert_eq!(alternate_page_label(page(TotalRows::Unavailable), None), "第 1 页");
}

#[test]
fn alternate_status_line_counts_rows_columns_and_the_selection() {
    let mut status = AlternateStatus {
        row_filtering: false,
        shown_rows: 40,
        pre_filter_count: 40,
        truncated: false,
        total_rows: 40,
        cols_filtered: false,
        matched_col_count: 0,
    };
    assert_eq!(alternate_status_text(&status, None), "40 行");
    status.truncated = true;
    assert_eq!(alternate_status_text(&status, None), "显示 40 / 40 行（已截断）");
    status.row_filtering = true;
    status.shown_rows = 3;
    status.cols_filtered = true;
    status.matched_col_count = 2;
    assert_eq!(
        alternate_status_text(&status, Some(("email", "a@b.c"))),
        "显示 3 / 40 行 · 命中 2 列 · [email] = a@b.c"
    );
}


#[test]
fn plan_texts_count_steps_and_fold_rows() {
    let rows = vec![
        plan_step(0, None, 0, None, false, true),
        plan_step(1, Some(0), 1, Some("cost=1"), true, false),
        plan_step(2, Some(0), 20, None, false, false),
    ];
    assert_eq!(plan_tree_title(PlanSource::Postgres, &rows, false), "结构化执行计划 · PostgreSQL · 2 个步骤");
    assert_eq!(plan_tree_title(PlanSource::Mysql, &rows, true), "结构化执行计划 · MySQL · 2 个步骤（已限制显示）");
    assert_eq!(PlanSource::Mysql.label(), "MySQL");

    let open = plan_row_view(&rows[0], &vec![]);
    assert_eq!(open.text, "step0");
    assert_eq!(open.toggle, Some("收起步骤"));
    assert_eq!(plan_row_view(&rows[0], &vec![0]).toggle, Some("展开步骤"));
    let detail = plan_row_view(&rows[1], &vec![]);
    assert_eq!(detail.text, "step1  cost=1");
    assert!(detail.toggle.is_none());
    assert_eq!(plan_row_view(&rows[2], &vec![]).indent, 16);

    let raw = plan_switch(true, true);
    assert_eq!((raw.label, raw.enabled, raw.target), ("原始", true, PlanViewMode::Raw));
    let unavailable = plan_switch(false, false);
    assert_eq!(unavailable.tooltip, "当前 EXPLAIN 格式无法结构化");
    assert!(!unavailable.enabled);

    assert!(matches!(plan_display(PlanViewMode::Tree, true), PlanDisplay::Tree));
    assert!(matches!(
        plan_display(PlanViewMode::Tree, false),
        PlanDisplay::Raw { title: "当前 EXPLAIN 返回格式暂不支持结构化显示", structured_available: false }
    ));
    assert!(matches!(
        plan_display(PlanViewMode::Raw, true),
        PlanDisplay::Raw { title: "原始 EXPLAIN 结果", structured_available: true }
    ));
}

fn plan_step(id: usize, parent: Option<usize>, depth: usize, detail: Option<&str>, is_detail: bool, has_children: bool) -> PlanRow {
    PlanRow {
        id,
        parent,
        depth,
        label: format!("step{id}"),
        detail: detail.map(str::to_string),
        is_detail,
        has_children,
    }
}

#[test]
fn mode_toolbar_keeps_the_table_while_edits_are_staged() {
    let mut panel = ResultPanel::new();
    let buttons = panel.mode_buttons();
    assert_eq!(buttons.len(), 4);
    assert!(buttons[0].selected);
    assert_eq!(buttons[1].id, "result-view-mode-tree");
    assert_eq!(buttons[1].label, "树形");
    assert_eq!(buttons[1].tooltip, "按行展开字段层级");
    assert!(buttons.iter().all(|b| b.enabled));
    panel.pending_cell_edits.push(PendingCellEdit { row: 0, column: 0, original: None, current: Some("x".into()) });
    let buttons = panel.mode_buttons();
    assert!(buttons[0].enabled);
    assert!(!buttons[3].enabled);
    assert_eq!(buttons[3].tooltip, "请先提交或撤销未提交单元格修改");

    assert_eq!(header_sort_arrow(Some((2, SortDir::Asc)), 2), Some("▲"));
    assert_eq!(header_sort_arrow(Some((2, SortDir::Desc)), 2), Some("▼"));
    assert_eq!(header_sort_arrow(Some((2, SortDir::Desc)), 1), None);
    assert_eq!(header_sort_arrow(None, 0), None);
    assert_eq!(affected_result_lines(3, 12), ("✓ 3 行受影响".to_string(), "12 ms".to_string()));
}

#[test]
fn selected_cell_actions_and_comparison_need_their_inputs() {
    let mut panel = ResultPanel::new();
    assert!(panel.require_selected_cell("执行复制").is_none());
    assert_eq!(panel.pending_notification.take().unwrap().message, "请先选择一个结果单元格，再执行复制");
    assert!(panel.open_comparison().is_none());
    assert_eq!(panel.pending_notification.take().unwrap().message, "请先保存基准，并确保当前结果已执行完成");

    panel.set_state(loaded(&["ID", "email"], Vec::new()), None);
    panel.set_selected_cell(Some((0, 1)));
    assert_eq!(panel.require_selected_cell("查看值"), Some((0, 1)));
    assert!(panel.pending_notification.is_none());
    assert_eq!(panel.selected_column_name().as_deref(), Some("email"));
    panel.set_selected_cell(Some((0, 5)));
    assert!(panel.selected_column_name().is_none());

    let result = QueryResult { columns: vec!["name".into(), "ID".into()], affected_rows: 0, warnings: Vec::new() };
    assert_eq!(panel.preview_col_idx(&result), 0);
    panel.row_identity = Some(RowIdentity { columns: vec!["id".into()], label: "主键".into() });
    assert_eq!(panel.preview_col_idx(&result), 1);

    assert!(panel.capture_comparison_baseline());
    let (baseline, current) = panel.open_comparison().unwrap();
    assert_eq!(baseline.columns, current.columns);
}

fn staged(row: usize, column: usize, current: &str) -> PendingCellEdit {
    PendingCellEdit { row, column, original: Some("old".to_string()), current: Some(current.to_string()) }
}

fn staged_cells(panel: &ResultPanel) -> Vec<(usize, usize)> {
    panel.pending_cell_edits.iter().map(|e| (e.row, e.column)).collect()
}

#[test]
fn staged_edits_stay_ordered_by_row_then_column() {
    let mut panel = ResultPanel::new();
    panel.stage_pending_edit(staged(3, 1, "a"));
    panel.stage_pending_edit(staged(1, 2, "b"));
    panel.stage_pending_edit(staged(3, 0, "c"));
    panel.stage_pending_edit(staged(1, 0, "d"));
    assert_eq!(staged_cells(&panel), vec![(1, 0), (1, 2), (3, 0), (3, 1)]);
    panel.stage_pending_edit(staged(1, 2, "e"));
    assert_eq!(staged_cells(&panel), vec![(1, 0), (1, 2), (3, 0), (3, 1)]);
    assert_eq!(panel.pending_edit(1, 2).and_then(|e| e.current.clone()), Some("e".to_string()));
    assert!(panel.pending_edit(2, 2).is_none());
}

#[test]
fn unstaging_drops_only_that_cell() {
    let mut panel = ResultPanel::new();
    panel.stage_pending_edit(staged(0, 0, "a"));
    panel.stage_pending_edit(staged(0, 1, "b"));
    assert!(panel.unstage_pending_edit(0, 0));
    assert!(!panel.unstage_pending_edit(0, 0));
    assert_eq!(staged_cells(&panel), vec![(0, 1)]);
}

#[test]
fn staged_edits_group_into_one_update_per_row() {
    let mut panel = ResultPanel::new();
    panel.stage_pending_edit(staged(4, 2, "a"));
    panel.stage_pending_edit(staged(1, 0, "b"));
    panel.stage_pending_edit(staged(4, 0, "c"));
    assert_eq!(panel.pending_edit_groups(), vec![(1, vec![0]), (4, vec![1, 2])]);
    assert_eq!(ResultPanel::new().pending_edit_groups(), Vec::<(usize, Vec<usize>)>::new());
}

#[test]
fn a_new_result_hands_back_the_running_view_build_to_cancel() {
    let mut panel = ResultPanel::new();
    panel.display_view_cancel = Some(7);
    assert_eq!(panel.set_state(loaded(&["id"], Vec::new()), None), Some(7));
    assert_eq!(panel.display_view_cancel, None);
    assert_eq!(panel.set_state(loaded(&["id"], Vec::new()), None), None);
    panel.display_view_cancel = Some(9);
    let change = panel.toggle_sort(0).expect("sort change");
    assert_eq!(change.cancelled_build, Some(9));
    panel.display_view_cancel = Some(11);
    assert_eq!(panel.restore_sort(change.current), None);
    assert_eq!(panel.restore_sort(None), Some(11));
}

#[test]
fn view_changes_keep_the_loaded_result() {
    let mut panel = ResultPanel::new();
    panel.set_state(loaded(&["id", "name"], Vec::new()), None);
    panel.set_view_mode(ResultViewMode::Tree);
    panel.set_selected_cell(Some((1, 1)));
    panel.toggle_row_selected(1);
    panel.set_view_mode(ResultViewMode::Transpose);
    panel.set_view_mode(ResultViewMode::Table);
    match &panel.state {
        ResultState::Loaded(r) => assert_eq!(r.columns, vec!["id".to_string(), "name".to_string()]),
        _ => panic!("the loaded result was replaced"),
    }
    assert_eq!(panel.selected_rows(), &vec![1]);
}
