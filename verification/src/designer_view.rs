//! What the table designer shows and offers in each of its states: loading, a failed load,
//! field editing, the SQL review, the definition view and the discard prompt; and the small
//! switches between those states.

use vstd::prelude::*;

use crate::designer::{
    FieldDiffLine, SpecDiffLine, SpecField, TableDesigner, diff_lines_view, fields_view, format_field_diff,
    spec_format_field_diff, spec_row_changed,
};
use crate::text::{cat2, decimal, spec_decimal, spec_trim};

verus! {

/// A button: its label, whether it can be pressed, and why not when it says so.
#[derive(Debug)]
pub struct DesignerButton {
    pub label: &'static str,
    pub enabled: bool,
    pub tooltip: Option<&'static str>,
}

/// The SQL review under the fields.
#[derive(Debug)]
pub struct ReviewPanel {
    pub sql: String,
    pub diff: Vec<FieldDiffLine>,
    /// The field differences as text, what their copy button copies.
    pub diff_copy_text: String,
    pub back: DesignerButton,
    pub cancel: DesignerButton,
    pub execute: DesignerButton,
}

/// The row of actions while editing.
#[derive(Debug)]
pub struct EditActions {
    /// Offered in the field view only.
    pub add_field: Option<DesignerButton>,
    pub cancel: DesignerButton,
    /// Offered when some field changed, in the field view only.
    pub preview: Option<DesignerButton>,
}

/// The definition panel of the designer.
#[derive(Debug)]
pub enum DesignerDdl {
    Loading { note: &'static str },
    Failed { title: &'static str, error: String },
    Ready { text: String },
}

/// What the designer shows once its fields are loaded.
#[derive(Debug)]
pub struct DesignerScreen {
    pub name_input_enabled: bool,
    /// Offered while the name input differs from the table's name.
    pub save_name: Option<DesignerButton>,
    pub ddl_toggle: DesignerButton,
    /// The definition, in the definition view.
    pub ddl: Option<DesignerDdl>,
    /// `n 个字段`, in the field view.
    pub field_count_label: Option<String>,
    pub review: Option<ReviewPanel>,
    pub actions: Option<EditActions>,
    /// The discard prompt, while it is open.
    pub discard_prompt: Option<DiscardPrompt>,
}

/// The question asked before unsaved changes are dropped.
#[derive(Debug)]
pub struct DiscardPrompt {
    pub title: &'static str,
    pub message: &'static str,
}

/// The designer as a whole.
#[derive(Debug)]
pub enum DesignerView {
    Loading { note: &'static str },
    LoadFailed { title: &'static str, error: String },
    Ready(DesignerScreen),
}

/// Rows among the first `n` that are not marked deleted.
pub open spec fn spec_active_fields(fields: Seq<SpecField>, n: int) -> nat
    decreases n,
{
    if n <= 0 {
        0
    } else {
        spec_active_fields(fields, n - 1) + if fields[n - 1].deleted {
            0nat
        } else {
            1nat
        }
    }
}

/// Whether `b` is a button with `label`, enabled when `enabled`, without a tooltip.
pub open spec fn spec_button(b: DesignerButton, label: Seq<char>, enabled: bool) -> bool {
    b.label@ == label && b.enabled == enabled && b.tooltip is None
}

/// Whether `d` shows the definition state of `t`.
pub open spec fn spec_designer_ddl(t: TableDesigner, d: DesignerDdl) -> bool {
    if t.ddl_loading {
        d matches DesignerDdl::Loading { note } && note@ == "正在加载建表语句…"@
    } else {
        match t.ddl_error {
            Some(e) => d matches DesignerDdl::Failed { title, error } && title@ == "建表语句加载失败"@ && error@ == e@,
            None => d matches DesignerDdl::Ready { text } && text@ == match t.ddl_text {
                Some(x) => x@,
                None => "暂无建表语句"@,
            },
        }
    }
}

fn button(label: &'static str, enabled: bool) -> (b: DesignerButton)
    ensures
        spec_button(b, label@, enabled),
{
    DesignerButton { label, enabled, tooltip: None }
}

impl TableDesigner {
    /// Switches between the field view and the definition view, closing the discard prompt.
    pub fn toggle_ddl(&mut self)
        ensures
            *final(self) == (TableDesigner {
                show_ddl: !old(self).show_ddl,
                discard_confirming: false,
                ..*old(self)
            }),
    {
        self.show_ddl = !self.show_ddl;
        self.discard_confirming = false;
    }

    /// Leaves the SQL review for more editing.
    pub fn back_to_edit(&mut self)
        ensures
            *final(self) == (TableDesigner { preview_sql: None, ..*old(self) }),
    {
        self.preview_sql = None;
    }

    /// Closes the discard prompt and keeps the changes.
    pub fn continue_editing(&mut self)
        ensures
            *final(self) == (TableDesigner { discard_confirming: false, ..*old(self) }),
    {
        self.discard_confirming = false;
    }

    /// Sets whether row `index` allows `NULL`; the review and the discard prompt close.
    pub fn set_field_nullable(&mut self, index: usize, nullable: bool)
        ensures
            *final(self) == (TableDesigner {
                fields: final(self).fields,
                preview_sql: None,
                discard_confirming: false,
                ..*old(self)
            }),
            fields_view(final(self).fields@) == if index < old(self).fields@.len() {
                fields_view(old(self).fields@).update(
                    index as int,
                    SpecField { nullable, ..fields_view(old(self).fields@)[index as int] },
                )
            } else {
                fields_view(old(self).fields@)
            },
    {
        if index < self.fields.len() {
            let ghost before = fields_view(self.fields@);
            let mut field = self.fields.remove(index);
            field.nullable = nullable;
            let ghost fv = field@;
            self.fields.insert(index, field);
            assert(fields_view(self.fields@) =~= before.update(index as int, fv));
        }
        self.preview_sql = None;
        self.discard_confirming = false;
    }

    /// Marks row `index` deleted; the review and the discard prompt close.
    pub fn delete_field(&mut self, index: usize)
        ensures
            *final(self) == (TableDesigner {
                fields: final(self).fields,
                preview_sql: None,
                discard_confirming: false,
                ..*old(self)
            }),
            fields_view(final(self).fields@) == if index < old(self).fields@.len() {
                fields_view(old(self).fields@).update(
                    index as int,
                    SpecField { deleted: true, ..fields_view(old(self).fields@)[index as int] },
                )
            } else {
                fields_view(old(self).fields@)
            },
    {
        if index < self.fields.len() {
            let ghost before = fields_view(self.fields@);
            let mut field = self.fields.remove(index);
            field.deleted = true;
            let ghost fv = field@;
            self.fields.insert(index, field);
            assert(fields_view(self.fields@) =~= before.update(index as int, fv));
        }
        self.preview_sql = None;
        self.discard_confirming = false;
    }

    /// Count of rows not marked deleted.
    pub fn active_field_count(&self) -> (r: usize)
        ensures
            r == spec_active_fields(fields_view(self.fields@), self.fields@.len() as int),
    {
        let ghost fv = fields_view(self.fields@);
        let mut n: usize = 0;
        let mut i: usize = 0;
        while i < self.fields.len()
            invariant
                i <= self.fields@.len(),
                fv == fields_view(self.fields@),
                n <= i,
                n == spec_active_fields(fv, i as int),
            decreases self.fields@.len() - i,
        {
            assert(fv[i as int].deleted == self.fields@[i as int].deleted);
            if !self.fields[i].deleted {
                n = n + 1;
            }
            i = i + 1;
        }
        n
    }

    fn ddl_panel(&self) -> (d: DesignerDdl)
        ensures
            spec_designer_ddl(*self, d),
    {
        if self.ddl_loading {
            return DesignerDdl::Loading { note: "正在加载建表语句…" };
        }
        match &self.ddl_error {
            Some(e) => DesignerDdl::Failed { title: "建表语句加载失败", error: e.clone() },
            None => DesignerDdl::Ready {
                text: match &self.ddl_text {
                    Some(x) => x.clone(),
                    None => String::from_str("暂无建表语句"),
                },
            },
        }
    }

    /// What the designer shows and offers now.
    pub fn view(&self) -> (r: DesignerView)
        ensures
            self.loading ==> (r matches DesignerView::Loading { note } && note@ == "正在加载字段结构…"@),
            !self.loading && self.load_error is Some ==> (r matches DesignerView::LoadFailed { title, error }
                && title@ == "字段结构加载失败"@ && error@ == self.load_error->0@),
            !self.loading && self.load_error is None ==> (r matches DesignerView::Ready(s) && {
                let reviewing = self.preview_sql is Some;
                let executing = self.executing;
                let name_change = self.original_table@ != spec_trim(self.table_name@);
                let field_change = exists|i: int|
                    0 <= i < self.fields@.len() && spec_row_changed(#[trigger] self.fields@[i]@);
                &&& s.name_input_enabled == !(reviewing || executing || self.show_ddl)
                &&& if name_change {
                    s.save_name is Some && spec_button(
                        s.save_name->0,
                        if executing {
                            "保存中…"@
                        } else {
                            "保存"@
                        },
                        !(reviewing || executing || self.show_ddl),
                    )
                } else {
                    s.save_name is None
                }
                &&& spec_button(
                    s.ddl_toggle,
                    if self.show_ddl {
                        "字段设计"@
                    } else {
                        "建表语句"@
                    },
                    !(reviewing || executing),
                )
                &&& if self.show_ddl {
                    s.ddl is Some && spec_designer_ddl(*self, s.ddl->0) && s.field_count_label is None
                } else {
                    s.ddl is None && s.field_count_label is Some && s.field_count_label->0@ == spec_decimal(
                        spec_active_fields(fields_view(self.fields@), self.fields@.len() as int),
                    ) + " 个字段"@
                }
                &&& if reviewing && !self.discard_confirming {
                    &&& s.review is Some
                    &&& s.review->0.sql@ == self.preview_sql->0@
                    &&& diff_lines_view(s.review->0.diff@) == match self.preview_diff {
                        Some(d) => diff_lines_view(d@),
                        None => Seq::empty(),
                    }
                    &&& s.review->0.diff_copy_text@ == spec_format_field_diff(diff_lines_view(s.review->0.diff@))
                    &&& spec_button(s.review->0.back, "返回"@, !executing)
                    &&& spec_button(s.review->0.cancel, "取消"@, !executing)
                    &&& spec_button(
                        s.review->0.execute,
                        if executing {
                            "执行中…"@
                        } else {
                            "确认执行"@
                        },
                        !executing,
                    )
                } else {
                    s.review is None
                }
                &&& if !reviewing && !self.discard_confirming {
                    &&& s.actions is Some
                    &&& if self.show_ddl {
                        s.actions->0.add_field is None
                    } else {
                        s.actions->0.add_field is Some && spec_button(
                            s.actions->0.add_field->0,
                            "添加字段"@,
                            !executing,
                        )
                    }
                    &&& spec_button(s.actions->0.cancel, "取消"@, true)
                    &&& if field_change && !self.show_ddl {
                        &&& s.actions->0.preview is Some
                        &&& s.actions->0.preview->0.label@ == "预览"@
                        &&& s.actions->0.preview->0.enabled == !(executing || name_change)
                        &&& opt_view_static(s.actions->0.preview->0.tooltip) == if name_change {
                            Some("请先保存表名"@)
                        } else {
                            None
                        }
                    } else {
                        s.actions->0.preview is None
                    }
                } else {
                    s.actions is None
                }
                &&& if self.discard_confirming {
                    s.discard_prompt is Some && s.discard_prompt->0.title@ == "放弃更改？"@
                        && s.discard_prompt->0.message@ == "未保存的更改将丢失。"@
                } else {
                    s.discard_prompt is None
                }
            }),
    {
        if self.loading {
            return DesignerView::Loading { note: "正在加载字段结构…" };
        }
        if let Some(e) = &self.load_error {
            return DesignerView::LoadFailed { title: "字段结构加载失败", error: e.clone() };
        }
        let reviewing = self.preview_sql.is_some();
        let executing = self.executing;
        let name_change = self.has_table_name_change();
        let field_change = self.has_field_changes();
        let save_name = if name_change {
            Some(
                button(
                    if executing {
                        "保存中…"
                    } else {
                        "保存"
                    },
                    !(reviewing || executing || self.show_ddl),
                ),
            )
        } else {
            None
        };
        let ddl_toggle = button(
            if self.show_ddl {
                "字段设计"
            } else {
                "建表语句"
            },
            !(reviewing || executing),
        );
        let (ddl, field_count_label) = if self.show_ddl {
            (Some(self.ddl_panel()), None)
        } else {
            let n = decimal(self.active_field_count() as u64);
            (None, Some(cat2(n.as_str(), " 个字段")))
        };
        let review = match &self.preview_sql {
            Some(sql) => if !self.discard_confirming {
                let diff = match &self.preview_diff {
                    Some(d) => copy_diff(d),
                    None => Vec::new(),
                };
                let diff_copy_text = format_field_diff(diff.as_slice());
                Some(
                    ReviewPanel {
                        sql: sql.clone(),
                        diff,
                        diff_copy_text,
                        back: button("返回", !executing),
                        cancel: button("取消", !executing),
                        execute: button(
                            if executing {
                                "执行中…"
                            } else {
                                "确认执行"
                            },
                            !executing,
                        ),
                    },
                )
            } else {
                None
            },
            None => None,
        };
        let actions = if !reviewing && !self.discard_confirming {
            let add_field = if self.show_ddl {
                None
            } else {
                Some(button("添加字段", !executing))
            };
            let preview = if field_change && !self.show_ddl {
                Some(
                    DesignerButton {
                        label: "预览",
                        enabled: !(executing || name_change),
                        tooltip: if name_change {
                            Some("请先保存表名")
                        } else {
                            None
                        },
                    },
                )
            } else {
                None
            };
            Some(EditActions { add_field, cancel: button("取消", true), preview })
        } else {
            None
        };
        let discard_prompt = if self.discard_confirming {
            Some(DiscardPrompt { title: "放弃更改？", message: "未保存的更改将丢失。" })
        } else {
            None
        };
        DesignerView::Ready(
            DesignerScreen {
                name_input_enabled: !(reviewing || executing || self.show_ddl),
                save_name,
                ddl_toggle,
                ddl,
                field_count_label,
                review,
                actions,
                discard_prompt,
            },
        )
    }
}

/// A static text viewed as an optional character sequence.
pub open spec fn opt_view_static(o: Option<&'static str>) -> Option<Seq<char>> {
    match o {
        Some(s) => Some(s@),
        None => None,
    }
}

fn copy_diff(lines: &Vec<FieldDiffLine>) -> (r: Vec<FieldDiffLine>)
    ensures
        diff_lines_view(r@) == diff_lines_view(lines@),
{
    let mut out: Vec<FieldDiffLine> = Vec::new();
    let mut i: usize = 0;
    while i < lines.len()
        invariant
            i <= lines@.len(),
            diff_lines_view(out@) == diff_lines_view(lines@).take(i as int),
        decreases lines@.len() - i,
    {
        let ghost before = diff_lines_view(out@);
        let line = FieldDiffLine { kind: lines[i].kind, text: lines[i].text.clone() };
        let ghost lv = SpecDiffLine { kind: line.kind, text: line.text@ };
        assert(diff_lines_view(lines@)[i as int] == lv);
        out.push(line);
        assert(diff_lines_view(out@) =~= before.push(lv));
        assert(diff_lines_view(lines@).take(i + 1) =~= diff_lines_view(lines@).take(i as int).push(lv));
        i = i + 1;
    }
    assert(diff_lines_view(lines@).take(lines@.len() as int) =~= diff_lines_view(lines@));
    out
}

} // verus!
