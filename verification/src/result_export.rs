//! Export of selected result rows: the checks before the file dialog opens, what the
//! export is made of, and the notice once the file was written or not. The dialog, the
//! writing and the row data stay with the caller.

use vstd::prelude::*;

use crate::domain::{DriverKind, opt_view};
use crate::result_panel::{
    Notice, NoticeLevel, ResultPanel, ResultState, insert_ascending, spec_strictly_ascending,
};
use crate::schema_diff_dialog::{export_database_type, spec_export_database_type};
use crate::text::{cat3, cat4, chars_of, decimal, push_char, push_str, spec_decimal};

verus! {

/// Characters of an export error shown before it is cut short.
pub const MAX_EXPORT_ERROR_CHARS: usize = 80;

/// What an export is made of.
#[derive(Debug)]
pub struct ExportRequest {
    /// The selected rows that exist in the result, ascending and each once.
    pub row_indices: Vec<usize>,
    /// How the notice names what was exported.
    pub scope_label: String,
    pub database_type: &'static str,
    pub database: String,
    pub object: Option<String>,
    pub extension: &'static str,
}

/// How an export ended.
#[derive(Debug)]
pub enum ExportOutcome {
    Saved { file_name: String },
    Cancelled,
    Failed { path: String, error: String },
}

/// `message`, cut to its first `max` characters and an ellipsis when longer.
pub open spec fn spec_shorten(message: Seq<char>, max: nat) -> Seq<char> {
    if message.len() > max {
        message.take(max as int) + "…"@
    } else {
        message
    }
}

/// The database an export file is named after: the pinned schema, else the connection's
/// database, else `query`.
pub open spec fn spec_export_database(
    pinned: Option<(Option<String>, String)>,
    connection_database: Option<Seq<char>>,
) -> Seq<char> {
    match pinned {
        Some((Some(schema), _)) => schema@,
        _ => match connection_database {
            Some(d) => d,
            None => "query"@,
        },
    }
}

/// Cuts `message` to its first `max` characters and an ellipsis when longer.
pub fn shorten(message: &str, max: usize) -> (r: String)
    ensures
        r@ == spec_shorten(message@, max as nat),
{
    let cs = chars_of(message);
    if cs.len() <= max {
        return String::from_str(message);
    }
    let mut out = String::new();
    let mut i: usize = 0;
    while i < max
        invariant
            i <= max < cs@.len(),
            cs@ == message@,
            out@ == message@.take(i as int),
        decreases max - i,
    {
        push_char(&mut out, cs[i]);
        assert(out@ =~= message@.take(i + 1));
        i = i + 1;
    }
    push_str(&mut out, "…");
    out
}


/// Whether some selected row exists in a result of `n` rows.
pub open spec fn spec_has_existing_row(selected: Seq<usize>, n: nat) -> bool {
    exists|k: int| 0 <= k < selected.len() && selected[k] < n
}

/// The selected rows that exist in a result of `n` rows, ascending and each once.
fn sorted_existing_rows(selected: &Vec<usize>, n: usize) -> (r: Vec<usize>)
    ensures
        spec_strictly_ascending(r@),
        forall|x: usize| r@.contains(x) <==> (selected@.contains(x) && x < n),
{
    let mut out: Vec<usize> = Vec::new();
    let mut i: usize = 0;
    while i < selected.len()
        invariant
            i <= selected@.len(),
            spec_strictly_ascending(out@),
            forall|x: usize| out@.contains(x) <==> (selected@.take(i as int).contains(x) && x < n),
        decreases selected@.len() - i,
    {
        let x = selected[i];
        let ghost before = out@;
        let ghost t0 = selected@.take(i as int);
        let ghost t1 = selected@.take(i + 1);
        assert forall|y: usize| t1.contains(y) <==> (t0.contains(y) || y == x) by {
            if t1.contains(y) {
                let k = choose|k: int| 0 <= k < t1.len() && t1[k] == y;
                if k < i {
                    assert(t0[k] == y);
                }
            }
            if t0.contains(y) {
                let k = choose|k: int| 0 <= k < t0.len() && t0[k] == y;
                assert(t1[k] == y);
            }
            if y == x {
                assert(t1[i as int] == y);
            }
        }
        if x < n {
            insert_ascending(&mut out, x);
        }
        assert forall|y: usize| out@.contains(y) <==> (t1.contains(y) && y < n) by {
            assert(before.contains(y) <==> (t0.contains(y) && y < n));
        }
        i = i + 1;
    }
    assert(selected@.take(selected@.len() as int) =~= selected@);
    out
}

impl ResultPanel {
    fn warn(&mut self, level: NoticeLevel, message: &str)
        ensures
            *final(self) == (ResultPanel { pending_notification: final(self).pending_notification, ..*old(self) }),
            final(self).pending_notification is Some,
            final(self).pending_notification->0.level == level,
            final(self).pending_notification->0.message@ == message@,
            final(self).pending_notification->0.autohide,
    {
        self.pending_notification = Some(Notice { level, message: String::from_str(message), autohide: true });
    }

    /// Asks to export the selected rows of a result of `row_count` rows. Refused with a
    /// notice while an export runs, without a result, for an empty result and without a
    /// selected row that exists; otherwise the export starts and what it is made of is
    /// returned.
    pub fn begin_export(&mut self, row_count: usize, driver: Option<DriverKind>, connection_database: Option<&str>) -> (r:
        Option<ExportRequest>)
        ensures
            ({
                let refusal: Option<(NoticeLevel, Seq<char>)> = if old(self).exporting {
                    Some((NoticeLevel::Info, "已有导出任务正在进行"@))
                } else if !(old(self).state is Loaded) {
                    Some((NoticeLevel::Warning, "无可导出的结果"@))
                } else if row_count == 0 {
                    Some((NoticeLevel::Warning, "结果为空，无需导出"@))
                } else if old(self).selected_rows@.len() == 0 {
                    Some((NoticeLevel::Warning, "未选择数据"@))
                } else if !spec_has_existing_row(old(self).selected_rows@, row_count as nat) {
                    Some((NoticeLevel::Warning, "未选择有效数据"@))
                } else {
                    None
                };
                match refusal {
                    Some((level, message)) => {
                        &&& r is None
                        &&& *final(self) == (ResultPanel {
                            pending_notification: final(self).pending_notification,
                            ..*old(self)
                        })
                        &&& final(self).pending_notification is Some
                        &&& final(self).pending_notification->0.level == level
                        &&& final(self).pending_notification->0.message@ == message
                        &&& final(self).pending_notification->0.autohide
                    },
                    None => {
                        &&& r is Some
                        &&& *final(self) == (ResultPanel { exporting: true, ..*old(self) })
                        &&& spec_strictly_ascending(r->0.row_indices@)
                        &&& forall|x: usize|
                            r->0.row_indices@.contains(x) <==> (old(self).selected_rows@.contains(x) && x
                                < row_count)
                        &&& r->0.scope_label@ == "选中 "@ + spec_decimal(r->0.row_indices@.len()) + " 行"@
                        &&& r->0.database_type@ == match driver {
                            Some(d) => spec_export_database_type(d),
                            None => "sql"@,
                        }
                        &&& r->0.database@ == spec_export_database(
                            old(self).pinned_target,
                            match connection_database {
                                Some(d) => Some(d@),
                                None => None,
                            },
                        )
                        &&& opt_view(r->0.object) == match old(self).pinned_target {
                            Some((_, table)) => Some(table@),
                            None => None,
                        }
                        &&& r->0.extension@ == "jsonl"@
                    },
                }
            }),
    {
        if self.exporting {
            self.warn(NoticeLevel::Info, "已有导出任务正在进行");
            return None;
        }
        match &self.state {
            ResultState::Loaded(_) => {},
            _ => {
                self.warn(NoticeLevel::Warning, "无可导出的结果");
                return None;
            },
        }
        if row_count == 0 {
            self.warn(NoticeLevel::Warning, "结果为空，无需导出");
            return None;
        }
        if self.selected_rows.len() == 0 {
            self.warn(NoticeLevel::Warning, "未选择数据");
            return None;
        }
        let row_indices = sorted_existing_rows(&self.selected_rows, row_count);
        if row_indices.len() == 0 {
            assert(!spec_has_existing_row(self.selected_rows@, row_count as nat)) by {
                if spec_has_existing_row(self.selected_rows@, row_count as nat) {
                    let k = choose|k: int| 0 <= k < self.selected_rows@.len() && self.selected_rows@[k] < row_count;
                    assert(self.selected_rows@.contains(self.selected_rows@[k]));
                    assert(row_indices@.contains(self.selected_rows@[k]));
                }
            }
            self.warn(NoticeLevel::Warning, "未选择有效数据");
            return None;
        }
        assert(spec_has_existing_row(self.selected_rows@, row_count as nat)) by {
            assert(row_indices@.contains(row_indices@[0]));
            let k = choose|k: int| 0 <= k < self.selected_rows@.len() && self.selected_rows@[k] == row_indices@[0];
        }
        let n = decimal(row_indices.len() as u64);
        let scope_label = cat3("选中 ", n.as_str(), " 行");
        let database_type = match driver {
            Some(d) => export_database_type(d),
            None => "sql",
        };
        let database = match &self.pinned_target {
            Some((Some(schema), _)) => schema.clone(),
            _ => match connection_database {
                Some(d) => String::from_str(d),
                None => String::from_str("query"),
            },
        };
        let object = match &self.pinned_target {
            Some((_, table)) => Some(table.clone()),
            None => None,
        };
        self.exporting = true;
        Some(ExportRequest { row_indices, scope_label, database_type, database, object, extension: "jsonl" })
    }

    /// An export of `scope_label` ended: a written file and a failure are told in a notice,
    /// a failure cut to 80 characters; a cancelled dialog clears any pending notice.
    pub fn finish_export(&mut self, outcome: ExportOutcome, scope_label: &str)
        ensures
            *final(self) == (ResultPanel {
                exporting: false,
                pending_notification: final(self).pending_notification,
                ..*old(self)
            }),
            match outcome {
                ExportOutcome::Cancelled => final(self).pending_notification is None,
                ExportOutcome::Saved { file_name } => {
                    &&& final(self).pending_notification is Some
                    &&& final(self).pending_notification->0.level == NoticeLevel::Success
                    &&& final(self).pending_notification->0.message@ == "已导出 "@ + file_name@ + "（"@ + scope_label@
                        + "）"@
                    &&& final(self).pending_notification->0.autohide
                },
                ExportOutcome::Failed { path, error } => {
                    &&& final(self).pending_notification is Some
                    &&& final(self).pending_notification->0.level == NoticeLevel::Error
                    &&& final(self).pending_notification->0.message@ == spec_shorten(
                        "写入导出文件 "@ + path@ + " 失败："@ + error@,
                        MAX_EXPORT_ERROR_CHARS as nat,
                    )
                    &&& final(self).pending_notification->0.autohide
                },
            },
    {
        self.exporting = false;
        self.pending_notification = match outcome {
            ExportOutcome::Saved { file_name } => {
                let mut message = cat4("已导出 ", file_name.as_str(), "（", scope_label);
                push_str(&mut message, "）");
                Some(Notice { level: NoticeLevel::Success, message, autohide: true })
            },
            ExportOutcome::Cancelled => None,
            ExportOutcome::Failed { path, error } => {
                let mut full = cat3("写入导出文件 ", path.as_str(), " 失败：");
                push_str(&mut full, error.as_str());
                let message = shorten(full.as_str(), MAX_EXPORT_ERROR_CHARS);
                Some(Notice { level: NoticeLevel::Error, message, autohide: true })
            },
        };
    }
}

} // verus!
