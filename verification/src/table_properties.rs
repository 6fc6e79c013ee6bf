//! State of the read-only table properties dialog: which table it shows, the load of its
//! definition, the pick of that definition from the database's answer, and what the
//! dialog shows while loading, after a failure and once the definition arrived.

use vstd::prelude::*;

use crate::domain::opt_view;
use crate::text::{cat2, cat3, cat4, spec_trim, str_eq, trim};

verus! {

/// The table properties dialog, without its window.
#[derive(Debug)]
pub struct TablePropertiesDialog {
    pub connection_id: String,
    pub schema: String,
    pub table: String,
    pub is_view: bool,
    pub ddl_loading: bool,
    pub ddl_text: Option<String>,
    pub ddl_error: Option<String>,
    /// Number of the latest load; answers of older loads are dropped.
    pub request_generation: u64,
}

/// What the definition area shows.
#[derive(Debug)]
pub enum DdlPanel {
    Loading { message: &'static str },
    /// The load failed: the error, and a hint to retry.
    Failed { error: String, hint: &'static str },
    Empty { message: &'static str },
    /// The definition, shown highlighted and offered for copying.
    Ddl { text: String },
}

/// `g + 1`, wrapping to zero.
pub open spec fn spec_next_load(g: u64) -> u64 {
    if g == u64::MAX {
        0
    } else {
        (g + 1) as u64
    }
}

/// `d` after a load of the definition starts.
pub open spec fn spec_reloading(d: TablePropertiesDialog) -> TablePropertiesDialog {
    TablePropertiesDialog {
        request_generation: spec_next_load(d.request_generation),
        ddl_loading: true,
        ddl_text: None,
        ddl_error: None,
        ..d
    }
}

/// Position of the last value read as text among the first `n` of a row.
pub open spec fn spec_last_text(values: Seq<Option<String>>, n: int) -> Option<int>
    decreases n,
{
    if n <= 0 {
        None
    } else if values[n - 1] is Some {
        Some(n - 1)
    } else {
        spec_last_text(values, n - 1)
    }
}

/// The definition found in the first row of the answer: the last value read as text,
/// unless it is blank.
pub open spec fn spec_ddl_from_row(schema: Seq<char>, table: Seq<char>, row: Option<Seq<Option<String>>>) -> Result<
    Seq<char>,
    Seq<char>,
> {
    let missing = "数据库未返回 "@ + schema + "."@ + table + " 的定义"@;
    match row {
        None => Err(missing),
        Some(values) => match spec_last_text(values, values.len() as int) {
            None => Err(missing),
            Some(k) => if spec_trim(values[k]->0@).len() == 0 {
                Err(missing)
            } else {
                Ok(values[k]->0@)
            },
        },
    }
}

/// Picks the definition out of the first row of the database's answer, each value given
/// as its text when it is text or JSON.
pub fn ddl_from_row(schema: &str, table: &str, row: Option<&Vec<Option<String>>>) -> (r: Result<String, String>)
    ensures
        crate::text::res_view(r) == spec_ddl_from_row(
            schema@,
            table@,
            match row {
                Some(v) => Some(v@),
                None => None,
            },
        ),
{
    let missing = cat4("数据库未返回 ", schema, ".", table);
    let mut missing = missing;
    crate::text::push_str(&mut missing, " 的定义");
    match row {
        None => Err(missing),
        Some(values) => {
            let mut i: usize = values.len();
            while i > 0
                invariant
                    i <= values@.len(),
                    row == Some(values),
                    missing@ == "数据库未返回 "@ + schema@ + "."@ + table@ + " 的定义"@,
                    spec_last_text(values@, values@.len() as int) == spec_last_text(values@, i as int),
                decreases i,
            {
                match &values[i - 1] {
                    Some(text) => {
                        let t = trim(text.as_str());
                        if t.as_str().is_empty() {
                            return Err(missing);
                        }
                        return Ok(text.clone());
                    },
                    None => {},
                }
                i = i - 1;
            }
            Err(missing)
        },
    }
}

/// The query the database needs for a definition; empty where the dialect has none.
pub fn check_ddl_query(sql: &str) -> (r: Result<(), String>)
    ensures
        r is Ok <==> sql@.len() > 0,
        r is Err ==> r->Err_0@ == "当前数据库类型不支持 DDL 查看"@,
{
    if sql.is_empty() {
        Err(String::from_str("当前数据库类型不支持 DDL 查看"))
    } else {
        Ok(())
    }
}

impl TablePropertiesDialog {
    /// A dialog for `schema.table`; the first load of its definition starts at once and its
    /// number is returned.
    pub fn new(connection_id: String, schema: String, table: String, is_view: bool) -> (r: (
        TablePropertiesDialog,
        u64,
    ))
        ensures
            r.0 == spec_reloading(
                TablePropertiesDialog {
                    connection_id,
                    schema,
                    table,
                    is_view,
                    ddl_loading: false,
                    ddl_text: None,
                    ddl_error: None,
                    request_generation: 0,
                },
            ),
            r.1 == r.0.request_generation,
    {
        let mut dialog = TablePropertiesDialog {
            connection_id,
            schema,
            table,
            is_view,
            ddl_loading: false,
            ddl_text: None,
            ddl_error: None,
            request_generation: 0,
        };
        let generation = dialog.refresh();
        (dialog, generation)
    }

    /// Starts loading the definition again; returns the load's number.
    pub fn refresh(&mut self) -> (generation: u64)
        ensures
            *final(self) == spec_reloading(*old(self)),
            generation == final(self).request_generation,
    {
        self.request_generation = if self.request_generation == u64::MAX {
            0
        } else {
            self.request_generation + 1
        };
        self.ddl_loading = true;
        self.ddl_text = None;
        self.ddl_error = None;
        self.request_generation
    }

    /// Takes the answer of load `generation` on `connection_id`, unless a newer load or
    /// another connection has taken over; a failure is kept with what it was about.
    pub fn finish_refresh(&mut self, generation: u64, connection_id: &str, ddl: Result<String, String>) -> (applied: bool)
        ensures
            applied == (generation == old(self).request_generation && connection_id@ == old(self).connection_id@),
            !applied ==> *final(self) == *old(self),
            applied ==> match ddl {
                Ok(text) => *final(self) == (TablePropertiesDialog {
                    ddl_loading: false,
                    ddl_text: Some(text),
                    ..*old(self)
                }),
                Err(e) => *final(self) == (TablePropertiesDialog {
                    ddl_loading: false,
                    ddl_error: final(self).ddl_error,
                    ..*old(self)
                }) && opt_view(final(self).ddl_error) == Some("加载建表语句失败："@ + e@),
            },
    {
        if generation != self.request_generation || !str_eq(connection_id, self.connection_id.as_str()) {
            return false;
        }
        self.ddl_loading = false;
        match ddl {
            Ok(text) => {
                self.ddl_text = Some(text);
            },
            Err(error) => {
                self.ddl_error = Some(cat2("加载建表语句失败：", error.as_str()));
            },
        }
        true
    }

    /// The dialog's title: `schema.table`.
    pub fn title(&self) -> (r: String)
        ensures
            r@ == self.schema@ + "."@ + self.table@,
    {
        cat3(self.schema.as_str(), ".", self.table.as_str())
    }

    /// The line under the title.
    pub fn subtitle(&self) -> (r: &'static str)
        ensures
            r@ == if self.is_view {
                "只读视图定义"@
            } else {
                "只读建表语句"@
            },
    {
        if self.is_view {
            "只读视图定义"
        } else {
            "只读建表语句"
        }
    }

    /// What the definition area shows: the load, then a definition, then an error, then
    /// an empty note, in that order of precedence.
    pub fn ddl_panel(&self) -> (r: DdlPanel)
        ensures
            self.ddl_loading ==> (r matches DdlPanel::Loading { message } && message@ == "正在读取建表语句…"@),
            !self.ddl_loading ==> match self.ddl_text {
                Some(t) => r matches DdlPanel::Ddl { text } && text@ == t@,
                None => match self.ddl_error {
                    Some(e) => r matches DdlPanel::Failed { error, hint } && error@ == e@ && hint@
                        == "可点击右上角刷新按钮重试"@,
                    None => r matches DdlPanel::Empty { message } && message@ == "暂无可显示的建表语句"@,
                },
            },
    {
        if self.ddl_loading {
            return DdlPanel::Loading { message: "正在读取建表语句…" };
        }
        match &self.ddl_text {
            Some(t) => DdlPanel::Ddl { text: t.clone() },
            None => match &self.ddl_error {
                Some(e) => DdlPanel::Failed { error: e.clone(), hint: "可点击右上角刷新按钮重试" },
                None => DdlPanel::Empty { message: "暂无可显示的建表语句" },
            },
        }
    }
}

} // verus!
