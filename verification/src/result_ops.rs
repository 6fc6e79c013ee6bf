//! Rules behind writes from the result grid: how a row is located, how much SQL a batch may
//! hold, what a decimal literal looks like and what the user is told afterwards.

use vstd::prelude::*;

use crate::domain::{
    Column, ColumnKind, DriverKind, Index, SpecColumn, SpecIndex, columns_view, indexes_view, spec_quote_identifier,
};
use crate::metadata::{find_name, find_name_from, opt_index};
use crate::result_panel::{
    Notice, NoticeLevel, ResultPanel, ResultState, RowIdentity, contains_index, sorted_unique,
    spec_edit_found, spec_preview_col_idx, spec_strictly_ascending,
};
use crate::text::{
    cat2, cat3, cat4, cat5, chars_of, decimal, join, push_str, same_name, spec_decimal, spec_join,
    spec_same_name, spec_trim, spec_utf8_len, str_eq, strings_view, trim, utf8_len,
};

verus! {

/// Largest SQL text sent in one request, in bytes (32 MiB).
pub const MAX_SQL_QUERY_BYTES: usize = 33554432;

/// Largest SQL text of one batch delete, in bytes.
pub const MAX_BATCH_DELETE_SQL_BYTES: usize = MAX_SQL_QUERY_BYTES;

/// Most rows one batch delete may touch.
pub const MAX_BATCH_DELETE_ROWS: usize = 500;

/// Most cell edits that may be staged at once.
pub const MAX_PENDING_CELL_EDITS: usize = 500;

/// Warning shown when a new cell edit would pass the staging limit.
pub open spec fn spec_pending_limit_message() -> Seq<char> {
    "单次最多保留 "@ + spec_decimal(MAX_PENDING_CELL_EDITS as nat) + " 项未提交单元格修改，请先提交或撤销"@
}

impl ResultPanel {
    /// Whether cell `(row, column)` may be staged: a cell already staged always may, a new
    /// one only while fewer than the limit are staged. When not, the panel keeps a warning
    /// that stays until dismissed.
    pub fn check_pending_edit_room(&mut self, row: usize, column: usize) -> (ok: bool)
        ensures
            ok == (spec_edit_found(old(self).pending_cell_edits@, row, column)
                || old(self).pending_cell_edits@.len() < MAX_PENDING_CELL_EDITS),
            ok ==> *final(self) == *old(self),
            !ok ==> *final(self) == (ResultPanel {
                pending_notification: final(self).pending_notification,
                ..*old(self)
            }),
            !ok ==> final(self).pending_notification is Some && final(self).pending_notification->0.level
                == NoticeLevel::Warning && final(self).pending_notification->0.message@
                == spec_pending_limit_message() && !final(self).pending_notification->0.autohide,
    {
        let staged = self.pending_edit(row, column).is_some();
        if staged || self.pending_cell_edits.len() < MAX_PENDING_CELL_EDITS {
            return true;
        }
        let n = decimal(MAX_PENDING_CELL_EDITS as u64);
        let message = cat3("单次最多保留 ", n.as_str(), " 项未提交单元格修改，请先提交或撤销");
        self.pending_notification = Some(Notice { level: NoticeLevel::Warning, message, autohide: false });
        false
    }
}

/// Reserves `added` more bytes of batch-delete SQL: the new total, or `None` when it would
/// pass the limit or overflow.
pub fn reserve_batch_delete_sql_bytes(current: usize, added: usize) -> (r: Option<usize>)
    ensures
        r == if current + added <= MAX_BATCH_DELETE_SQL_BYTES {
            Some((current + added) as usize)
        } else {
            None::<usize>
        },
{
    match current.checked_add(added) {
        Some(total) => if total <= MAX_BATCH_DELETE_SQL_BYTES {
            Some(total)
        } else {
            None
        },
        None => None,
    }
}

/// Message and persistence of the notice after a batch delete.
#[derive(Debug)]
pub struct BatchDeleteNotice {
    pub message: String,
    /// Stays until dismissed: a delete touched an unexpected number of rows, or the result
    /// changed meanwhile.
    pub persistent: bool,
}

/// Message after a batch delete.
pub open spec fn spec_batch_delete_message(
    successful_requests: nat,
    affected_rows: nat,
    not_matched: nat,
    anomalous_affected: Option<u64>,
    strategy: Seq<char>,
    same_result: bool,
) -> Seq<char> {
    let base = match anomalous_affected {
        Some(a) => "已执行 "@ + spec_decimal(successful_requests) + " 个删除请求，共影响 "@ + spec_decimal(
            affected_rows,
        ) + " 行；其中一次 DELETE 异常影响 "@ + spec_decimal(a as nat) + " 行（"@ + strategy
            + "匹配），已停止后续删除，请重新查询核对"@,
        None => "已删除 "@ + spec_decimal(affected_rows) + " 行（"@ + strategy + "匹配）"@ + (
        if not_matched > 0 {
            "，"@ + spec_decimal(not_matched) + " 行未匹配"@
        } else {
            Seq::empty()
        }),
    };
    if same_result {
        base
    } else {
        base + "；当前结果已变化，请重新查询核对"@
    }
}

/// The notice shown after a batch delete succeeded.
pub fn batch_delete_notice(
    successful_requests: usize,
    affected_rows: u64,
    not_matched: usize,
    anomalous_affected: Option<u64>,
    strategy: &str,
    same_result: bool,
) -> (r: BatchDeleteNotice)
    ensures
        r.message@ == spec_batch_delete_message(
            successful_requests as nat,
            affected_rows as nat,
            not_matched as nat,
            anomalous_affected,
            strategy@,
            same_result,
        ),
        r.persistent == (anomalous_affected is Some || !same_result),
{
    let mut message = match anomalous_affected {
        Some(a) => {
            let n = decimal(successful_requests as u64);
            let rows = decimal(affected_rows);
            let an = decimal(a);
            let mut m = cat5("已执行 ", n.as_str(), " 个删除请求，共影响 ", rows.as_str(), " 行；其中一次 DELETE 异常影响 ");
            push_str(&mut m, an.as_str());
            push_str(&mut m, " 行（");
            push_str(&mut m, strategy);
            push_str(&mut m, "匹配），已停止后续删除，请重新查询核对");
            m
        },
        None => {
            let rows = decimal(affected_rows);
            let mut m = cat5("已删除 ", rows.as_str(), " 行（", strategy, "匹配）");
            if not_matched > 0 {
                let nm = decimal(not_matched as u64);
                let tail = cat3("，", nm.as_str(), " 行未匹配");
                push_str(&mut m, tail.as_str());
            }
            proof {
                assert(m@ == "已删除 "@ + spec_decimal(affected_rows as nat) + " 行（"@ + strategy@
                    + "匹配）"@ + (if not_matched > 0 {
                    "，"@ + spec_decimal(not_matched as nat) + " 行未匹配"@
                } else {
                    Seq::<char>::empty()
                }));
            }
            m
        },
    };
    if !same_result {
        push_str(&mut message, "；当前结果已变化，请重新查询核对");
    }
    BatchDeleteNotice { message, persistent: anomalous_affected.is_some() || !same_result }
}

/// Number of consecutive ASCII digits of `s` from position `i`.
pub open spec fn spec_digit_run(s: Seq<char>, i: int) -> nat
    decreases s.len() - i,
{
    if i < 0 || i >= s.len() || !('0' <= s[i] && s[i] <= '9') {
        0
    } else {
        1 + spec_digit_run(s, i + 1)
    }
}

/// Whether `c` is `+` or `-`.
pub open spec fn spec_is_sign(c: char) -> bool {
    c == '+' || c == '-'
}

/// Exponent part from position `i` to the end: `e` or `E`, an optional sign, one or more
/// digits, and nothing after.
pub open spec fn spec_exponent_ends(s: Seq<char>, i: int) -> bool {
    let j = if i + 1 < s.len() && spec_is_sign(s[i + 1]) {
        i + 2
    } else {
        i + 1
    };
    spec_digit_run(s, j) > 0 && j + spec_digit_run(s, j) == s.len()
}

/// A decimal literal: optional sign, digits with an optional fraction (at least one digit in
/// all), then an optional exponent, and nothing else.
pub open spec fn spec_is_decimal_number(s: Seq<char>) -> bool {
    let i0: int = if s.len() > 0 && spec_is_sign(s[0]) {
        1
    } else {
        0
    };
    let d1 = spec_digit_run(s, i0);
    let i1 = i0 + d1;
    let has_point = i1 < s.len() && s[i1] == '.';
    let d2: int = if has_point {
        spec_digit_run(s, i1 + 1) as int
    } else {
        0
    };
    let i2 = if has_point {
        i1 + 1 + d2
    } else {
        i1
    };
    if d1 + d2 == 0 {
        false
    } else if i2 < s.len() && (s[i2] == 'e' || s[i2] == 'E') {
        spec_exponent_ends(s, i2)
    } else {
        i2 == s.len()
    }
}

proof fn lemma_digit_run_bound(s: Seq<char>, i: int)
    requires
        0 <= i <= s.len(),
    ensures
        i + spec_digit_run(s, i) <= s.len(),
    decreases s.len() - i,
{
    if i < s.len() {
        lemma_digit_run_bound(s, i + 1);
    }
}

fn digit_run(s: &Vec<char>, i: usize) -> (r: usize)
    requires
        i <= s.len(),
    ensures
        r == spec_digit_run(s@, i as int),
        i + r <= s.len(),
    decreases s.len() - i,
{
    proof {
        lemma_digit_run_bound(s@, i as int);
    }
    if i < s.len() && '0' <= s[i] && s[i] <= '9' {
        1 + digit_run(s, i + 1)
    } else {
        0
    }
}

/// Whether text is a decimal literal that can be kept exactly for a DECIMAL column.
pub fn is_decimal_number(value: &str) -> (r: bool)
    ensures
        r == spec_is_decimal_number(value@),
{
    let s = chars_of(value);
    let i0: usize = if s.len() > 0 && (s[0] == '+' || s[0] == '-') {
        1
    } else {
        0
    };
    let d1 = digit_run(&s, i0);
    let i1 = i0 + d1;
    let has_point = i1 < s.len() && s[i1] == '.';
    let d2: usize = if has_point {
        digit_run(&s, i1 + 1)
    } else {
        0
    };
    let i2 = if has_point {
        i1 + 1 + d2
    } else {
        i1
    };
    if d1 == 0 && d2 == 0 {
        return false;
    }
    if i2 < s.len() && (s[i2] == 'e' || s[i2] == 'E') {
        let j = if i2 + 1 < s.len() && (s[i2 + 1] == '+' || s[i2 + 1] == '-') {
            i2 + 2
        } else {
            i2 + 1
        };
        let d3 = digit_run(&s, j);
        d3 > 0 && j + d3 == s.len()
    } else {
        i2 == s.len()
    }
}

// ---------------------------------------------------------------------------------------------
// Values typed into a cell editor
// ---------------------------------------------------------------------------------------------

/// Value of the decimal digits `s`, most significant first.
pub open spec fn spec_digits_value(s: Seq<char>) -> nat
    decreases s.len(),
{
    if s.len() == 0 {
        0
    } else {
        spec_digits_value(s.drop_last()) * 10 + ((s.last() as u32) - ('0' as u32)) as nat
    }
}

/// Whether every character of `s` is an ASCII digit.
pub open spec fn spec_all_digits(s: Seq<char>) -> bool {
    forall|i: int| 0 <= i < s.len() ==> '0' <= #[trigger] s[i] && s[i] <= '9'
}

/// What `str::parse::<i64>` reads from `s`: an optional sign, then one or more ASCII digits
/// whose value fits in `i64`.
pub open spec fn spec_parse_i64(s: Seq<char>) -> Option<int> {
    let negative = s.len() > 0 && s[0] == '-';
    let body = if s.len() > 0 && spec_is_sign(s[0]) {
        s.drop_first()
    } else {
        s
    };
    if body.len() == 0 || !spec_all_digits(body) {
        None
    } else if negative {
        if spec_digits_value(body) <= 0x8000_0000_0000_0000 {
            Some(-(spec_digits_value(body) as int))
        } else {
            None
        }
    } else if spec_digits_value(body) <= 0x7fff_ffff_ffff_ffff {
        Some(spec_digits_value(body) as int)
    } else {
        None
    }
}

proof fn lemma_digits_value_grows(s: Seq<char>, i: int, j: int)
    requires
        0 <= i <= j <= s.len(),
    ensures
        spec_digits_value(s.take(i)) <= spec_digits_value(s.take(j)),
    decreases j - i,
{
    if i < j {
        lemma_digits_value_grows(s, i, j - 1);
        assert(s.take(j).drop_last() =~= s.take(j - 1));
    }
}

/// Reads `text` as `str::parse::<i64>` does.
pub fn parse_i64(text: &str) -> (r: Option<i64>)
    ensures
        match r {
            Some(v) => spec_parse_i64(text@) == Some(v as int),
            None => spec_parse_i64(text@) is None,
        },
{
    let s = chars_of(text);
    let negative = s.len() > 0 && s[0] == '-';
    let start: usize = if s.len() > 0 && (s[0] == '+' || s[0] == '-') {
        1
    } else {
        0
    };
    let ghost body = if s@.len() > 0 && spec_is_sign(s@[0]) {
        s@.drop_first()
    } else {
        s@
    };
    assert(body =~= s@.skip(start as int));
    if start == s.len() {
        return None;
    }
    let limit: u128 = if negative {
        0x8000_0000_0000_0000
    } else {
        0x7fff_ffff_ffff_ffff
    };
    let mut acc: u128 = 0;
    let mut i: usize = start;
    while i < s.len()
        invariant
            start <= i <= s.len(),
            s@ == text@,
            body == s@.skip(start as int),
            body == (if s@.len() > 0 && spec_is_sign(s@[0]) {
                s@.drop_first()
            } else {
                s@
            }),
            negative == (s@.len() > 0 && s@[0] == '-'),
            limit == (if negative {
                0x8000_0000_0000_0000u128
            } else {
                0x7fff_ffff_ffff_ffffu128
            }),
            acc <= limit,
            acc == spec_digits_value(body.take(i - start)),
            spec_all_digits(body.take(i - start)),
        decreases s.len() - i,
    {
        let c = s[i];
        assert(body.take(i - start + 1).drop_last() =~= body.take(i - start));
        assert(body[i - start] == c);
        if !('0' <= c && c <= '9') {
            assert(!spec_all_digits(body));
            return None;
        }
        let d = ((c as u32) - ('0' as u32)) as u128;
        acc = acc * 10 + d;
        assert(spec_all_digits(body.take(i - start + 1)));
        if acc > limit {
            proof {
                lemma_digits_value_grows(body, i - start + 1, body.len() as int);
                assert(body.take(body.len() as int) =~= body);
            }
            return None;
        }
        i = i + 1;
    }
    assert(body.take(body.len() as int) =~= body);
    if negative {
        if acc == 0x8000_0000_0000_0000 {
            Some(i64::MIN)
        } else {
            Some(-(acc as i64))
        }
    } else {
        Some(acc as i64)
    }
}

/// A value typed into a cell editor. A float column keeps the trimmed text, which the caller
/// has already read as a float.
#[derive(Clone, Debug, PartialEq)]
pub enum EditorValue {
    Null,
    Int(i64),
    Text(String),
    Bool(bool),
    Float(String),
}

/// The model of an [`EditorValue`].
pub enum SpecEditorValue {
    Null,
    Int(int),
    Text(Seq<char>),
    Bool(bool),
    Float(Seq<char>),
}

/// The model of a parsed editor value.
pub open spec fn editor_value_view(v: EditorValue) -> SpecEditorValue {
    match v {
        EditorValue::Null => SpecEditorValue::Null,
        EditorValue::Int(i) => SpecEditorValue::Int(i as int),
        EditorValue::Text(t) => SpecEditorValue::Text(t@),
        EditorValue::Bool(b) => SpecEditorValue::Bool(b),
        EditorValue::Float(t) => SpecEditorValue::Float(t@),
    }
}

/// The model of what [`parse_value_for_kind`] returns.
pub open spec fn parsed_value_view(r: Result<Option<EditorValue>, String>) -> Result<
    Option<SpecEditorValue>,
    Seq<char>,
> {
    match r {
        Ok(Some(v)) => Ok(Some(editor_value_view(v))),
        Ok(None) => Ok(None),
        Err(e) => Err(e@),
    }
}

/// What the editor text means for a column: `Ok(Some(v))` a value to write, `Ok(None)` left
/// empty so the database default applies, `Err(message)` not acceptable. Empty text is NULL
/// where the column allows it, else the default where there is one, else required; `NULL` in
/// any ASCII case is NULL where allowed. Otherwise the column's kind decides; `float_parses`
/// is whether the trimmed text reads as a float.
pub open spec fn spec_parse_value_for_kind(
    kind: ColumnKind,
    text: Seq<char>,
    nullable: bool,
    has_default: bool,
    float_parses: bool,
) -> Result<Option<SpecEditorValue>, Seq<char>> {
    let t = spec_trim(text);
    if t.len() == 0 {
        if nullable {
            Ok(Some(SpecEditorValue::Null))
        } else if has_default {
            Ok(None)
        } else {
            Err("必填"@)
        }
    } else if spec_same_name(t, "NULL"@) {
        if nullable {
            Ok(Some(SpecEditorValue::Null))
        } else {
            Err("不可为 NULL"@)
        }
    } else {
        match kind {
            ColumnKind::Integer => match spec_parse_i64(t) {
                Some(i) => Ok(Some(SpecEditorValue::Int(i))),
                None => Err("不是合法整数: "@ + t),
            },
            ColumnKind::Decimal => if spec_is_decimal_number(t) {
                Ok(Some(SpecEditorValue::Text(t)))
            } else {
                Err("不是合法十进制数值: "@ + t)
            },
            ColumnKind::Float => if float_parses {
                Ok(Some(SpecEditorValue::Float(t)))
            } else {
                Err("不是合法数值: "@ + t)
            },
            ColumnKind::Bool => if t == "1"@ || t == "true"@ || t == "TRUE"@ || t == "True"@ {
                Ok(Some(SpecEditorValue::Bool(true)))
            } else if t == "0"@ || t == "false"@ || t == "FALSE"@ || t == "False"@ {
                Ok(Some(SpecEditorValue::Bool(false)))
            } else {
                Err("布尔值需 1/0/true/false: "@ + t)
            },
            _ => Ok(Some(SpecEditorValue::Text(t))),
        }
    }
}

/// Reads the text typed for a column of `kind`; `float_parses` is whether the trimmed text
/// reads as a float, which the caller decides.
pub fn parse_value_for_kind(kind: ColumnKind, text: &str, nullable: bool, has_default: bool, float_parses: bool) -> (r:
    Result<Option<EditorValue>, String>)
    ensures
        parsed_value_view(r) == spec_parse_value_for_kind(kind, text@, nullable, has_default, float_parses),
{
    let t = trim(text);
    if t.as_str().is_empty() {
        if nullable {
            return Ok(Some(EditorValue::Null));
        }
        if has_default {
            return Ok(None);
        }
        return Err("必填".to_string());
    }
    if same_name(t.as_str(), "NULL") {
        if nullable {
            return Ok(Some(EditorValue::Null));
        }
        return Err("不可为 NULL".to_string());
    }
    match kind {
        ColumnKind::Integer => match parse_i64(t.as_str()) {
            Some(i) => Ok(Some(EditorValue::Int(i))),
            None => Err(cat2("不是合法整数: ", t.as_str())),
        },
        ColumnKind::Decimal => if is_decimal_number(t.as_str()) {
            Ok(Some(EditorValue::Text(t)))
        } else {
            Err(cat2("不是合法十进制数值: ", t.as_str()))
        },
        ColumnKind::Float => if float_parses {
            Ok(Some(EditorValue::Float(t)))
        } else {
            Err(cat2("不是合法数值: ", t.as_str()))
        },
        ColumnKind::Bool => if str_eq(t.as_str(), "1") || str_eq(t.as_str(), "true") || str_eq(t.as_str(), "TRUE")
            || str_eq(t.as_str(), "True") {
            Ok(Some(EditorValue::Bool(true)))
        } else if str_eq(t.as_str(), "0") || str_eq(t.as_str(), "false") || str_eq(t.as_str(), "FALSE") || str_eq(
            t.as_str(),
            "False",
        ) {
            Ok(Some(EditorValue::Bool(false)))
        } else {
            Err(cat2("布尔值需 1/0/true/false: ", t.as_str()))
        },
        _ => Ok(Some(EditorValue::Text(t))),
    }
}

/// The LIMIT clause that keeps a single-row write from touching more rows: MySQL only.
pub open spec fn spec_dml_row_limit(driver: DriverKind) -> Seq<char> {
    if driver == DriverKind::Mysql {
        " LIMIT 1"@
    } else {
        Seq::empty()
    }
}

/// LIMIT clause of a single-row UPDATE or DELETE for the dialect.
pub fn dml_row_limit(driver: DriverKind) -> (r: &'static str)
    ensures
        r@ == spec_dml_row_limit(driver),
{
    match driver {
        DriverKind::Mysql => " LIMIT 1",
        _ => {
            proof {
                reveal_strlit("");
            }
            ""
        },
    }
}

/// Why a row could not be located for a write.
#[derive(Clone, Copy, Debug, PartialEq, Eq, Structural)]
pub enum IdentityWhereError {
    MissingColumn,
    TooLarge,
}

/// Message for a row that could not be located.
pub open spec fn spec_identity_where_error_message(error: IdentityWhereError) -> Seq<char> {
    match error {
        IdentityWhereError::MissingColumn => "结果集缺少定位键列，已取消操作；请重新查询该表"@,
        IdentityWhereError::TooLarge => "行定位键生成的 SQL 超过 32 MiB 安全上限，已取消操作；请用手写 SQL 处理"@,
    }
}

/// Message for a row that could not be located.
pub fn identity_where_error_message(error: IdentityWhereError) -> (r: &'static str)
    ensures
        r@ == spec_identity_where_error_message(error),
{
    match error {
        IdentityWhereError::MissingColumn => "结果集缺少定位键列，已取消操作；请重新查询该表",
        IdentityWhereError::TooLarge => "行定位键生成的 SQL 超过 32 MiB 安全上限，已取消操作；请用手写 SQL 处理",
    }
}

/// Why a cell UPDATE could not be built.
#[derive(Clone, Copy, Debug, PartialEq, Eq, Structural)]
pub enum CellUpdateSqlError {
    Identity(IdentityWhereError),
    TooLarge,
}

/// Message for a cell UPDATE that could not be built.
pub fn cell_update_sql_error_message(error: CellUpdateSqlError) -> (r: String)
    ensures
        r@ == match error {
            CellUpdateSqlError::Identity(e) => spec_identity_where_error_message(e),
            CellUpdateSqlError::TooLarge => "UPDATE 生成的 SQL 超过 "@ + spec_decimal(
                (MAX_SQL_QUERY_BYTES / 1024 / 1024) as nat,
            ) + " MiB 安全上限，请缩短单元格内容或减少同一行修改"@,
        },
{
    match error {
        CellUpdateSqlError::Identity(e) => {
            let mut s = String::new();
            push_str(&mut s, identity_where_error_message(e));
            s
        },
        CellUpdateSqlError::TooLarge => {
            let mib = decimal((MAX_SQL_QUERY_BYTES / 1024 / 1024) as u64);
            cat3("UPDATE 生成的 SQL 超过 ", mib.as_str(), " MiB 安全上限，请缩短单元格内容或减少同一行修改")
        },
    }
}

// ---------------------------------------------------------------------------------------------
// Row identity
// ---------------------------------------------------------------------------------------------

/// Names of the primary-key columns among the first `n` columns, in order.
pub open spec fn spec_pk_names(cols: Seq<SpecColumn>, n: int) -> Seq<Seq<char>>
    decreases n,
{
    if n <= 0 {
        Seq::empty()
    } else {
        spec_pk_names(cols, n - 1) + (if cols[n - 1].is_primary_key {
            seq![cols[n - 1].name]
        } else {
            Seq::empty()
        })
    }
}

/// Whether a column named `name` (without ASCII case) is NOT NULL.
pub open spec fn spec_non_nullable(cols: Seq<SpecColumn>, name: Seq<char>) -> bool {
    exists|k: int| 0 <= k && k < cols.len() && #[trigger] spec_not_null_named(cols[k], name)
}

/// Whether `c` is named `name` (without ASCII case) and NOT NULL.
pub open spec fn spec_not_null_named(c: SpecColumn, name: Seq<char>) -> bool {
    spec_same_name(c.name, name) && !c.nullable
}

/// A unique, non-primary index over NOT NULL columns only locates one row.
pub open spec fn spec_index_locates_rows(cols: Seq<SpecColumn>, idx: SpecIndex) -> bool {
    idx.unique && !idx.primary && idx.columns.len() > 0 && forall|j: int|
        0 <= j < idx.columns.len() ==> spec_non_nullable(cols, #[trigger] idx.columns[j])
}

/// First index from position `i` that locates rows.
pub open spec fn spec_first_locating_index(cols: Seq<SpecColumn>, idxs: Seq<SpecIndex>, i: int) -> Option<int>
    decreases idxs.len() - i,
{
    if i < 0 || i >= idxs.len() {
        None
    } else if spec_index_locates_rows(cols, idxs[i]) {
        Some(i)
    } else {
        spec_first_locating_index(cols, idxs, i + 1)
    }
}

/// Key that locates rows of a table: the primary key, else the first unique index over NOT
/// NULL columns; none means writes are refused.
pub open spec fn spec_row_identity(cols: Seq<SpecColumn>, idxs: Seq<SpecIndex>) -> Option<(Seq<Seq<char>>, Seq<char>)> {
    let pk = spec_pk_names(cols, cols.len() as int);
    if pk.len() > 0 {
        Some((pk, "主键"@))
    } else {
        match spec_first_locating_index(cols, idxs, 0) {
            Some(i) => Some((idxs[i].columns, "唯一键"@)),
            None => None,
        }
    }
}

fn non_nullable(columns: &[Column], name: &str) -> (r: bool)
    ensures
        r == spec_non_nullable(columns_view(columns@), name@),
{
    let ghost cv = columns_view(columns@);
    let mut k: usize = 0;
    while k < columns.len()
        invariant
            k <= columns.len(),
            cv == columns_view(columns@),
            forall|j: int| 0 <= j < k ==> !#[trigger] spec_not_null_named(cv[j], name@),
        decreases columns.len() - k,
    {
        assert(cv[k as int] == columns@[k as int]@);
        if same_name(columns[k].name.as_str(), name) && !columns[k].nullable {
            assert(spec_not_null_named(cv[k as int], name@));
            return true;
        }
        k = k + 1;
    }
    false
}

fn index_locates_rows(columns: &[Column], idx: &Index) -> (r: bool)
    ensures
        r == spec_index_locates_rows(columns_view(columns@), idx@),
{
    if !idx.unique || idx.primary || idx.columns.len() == 0 {
        return false;
    }
    let ghost names = idx@.columns;
    let mut j: usize = 0;
    while j < idx.columns.len()
        invariant
            j <= idx.columns.len(),
            names == idx@.columns,
            forall|m: int| 0 <= m < j ==> spec_non_nullable(columns_view(columns@), #[trigger] names[m]),
        decreases idx.columns.len() - j,
    {
        assert(names[j as int] == idx.columns@[j as int]@);
        if !non_nullable(columns, idx.columns[j].as_str()) {
            return false;
        }
        j = j + 1;
    }
    true
}

fn copy_names(v: &Vec<String>) -> (r: Vec<String>)
    ensures
        strings_view(r@) == strings_view(v@),
{
    let mut out: Vec<String> = Vec::new();
    let mut i: usize = 0;
    while i < v.len()
        invariant
            i <= v.len(),
            strings_view(out@) == strings_view(v@).take(i as int),
        decreases v.len() - i,
    {
        let ghost before = strings_view(out@);
        let c = v[i].clone();
        out.push(c);
        assert(strings_view(out@) =~= before.push(c@));
        assert(strings_view(v@).take(i + 1) =~= strings_view(v@).take(i as int).push(v@[i as int]@));
        i = i + 1;
    }
    assert(strings_view(v@).take(v.len() as int) =~= strings_view(v@));
    out
}

/// Derives how rows of a table are located for writes from its columns and indexes.
pub fn derive_row_identity(columns: &[Column], indexes: &[Index]) -> (r: Option<RowIdentity>)
    ensures
        match r {
            Some(i) => spec_row_identity(columns_view(columns@), indexes_view(indexes@)) == Some(
                (strings_view(i.columns@), i.label@),
            ),
            None => spec_row_identity(columns_view(columns@), indexes_view(indexes@)) is None,
        },
{
    let ghost cv = columns_view(columns@);
    let mut pk: Vec<String> = Vec::new();
    let mut k: usize = 0;
    while k < columns.len()
        invariant
            k <= columns.len(),
            cv == columns_view(columns@),
            strings_view(pk@) == spec_pk_names(cv, k as int),
        decreases columns.len() - k,
    {
        assert(cv[k as int] == columns@[k as int]@);
        let ghost before = strings_view(pk@);
        if columns[k].is_primary_key {
            let c = columns[k].name.clone();
            pk.push(c);
            assert(strings_view(pk@) =~= before.push(c@));
        }
        assert(strings_view(pk@) =~= spec_pk_names(cv, k + 1));
        k = k + 1;
    }
    if pk.len() > 0 {
        return Some(RowIdentity { columns: pk, label: String::from_str("主键") });
    }
    let ghost iv = indexes_view(indexes@);
    let mut i: usize = 0;
    while i < indexes.len()
        invariant
            i <= indexes.len(),
            iv == indexes_view(indexes@),
            cv == columns_view(columns@),
            spec_pk_names(cv, cv.len() as int).len() == 0,
            spec_first_locating_index(cv, iv, 0) == spec_first_locating_index(cv, iv, i as int),
        decreases indexes.len() - i,
    {
        assert(iv[i as int] == indexes@[i as int]@);
        if index_locates_rows(columns, &indexes[i]) {
            let names = copy_names(&indexes[i].columns);
            assert(strings_view(names@) =~= iv[i as int].columns);
            return Some(RowIdentity { columns: names, label: String::from_str("唯一键") });
        }
        i = i + 1;
    }
    None
}


// ---------------------------------------------------------------------------------------------
// Outcomes of writes
// ---------------------------------------------------------------------------------------------

/// Suffix of a write notice outside a transaction, where each statement commits at once.
pub open spec fn spec_auto_commit_hint(in_transaction: bool) -> Seq<char> {
    if in_transaction {
        Seq::empty()
    } else {
        "（已自动提交）"@
    }
}

/// Suffix of a write notice outside a transaction.
pub fn auto_commit_hint(in_transaction: bool) -> (r: &'static str)
    ensures
        r@ == spec_auto_commit_hint(in_transaction),
{
    if in_transaction {
        proof {
            reveal_strlit("");
        }
        ""
    } else {
        "（已自动提交）"
    }
}

/// Refusal of a batch delete over too many rows, if it is one.
pub fn guard_batch_delete_count(count: usize) -> (r: Option<String>)
    ensures
        count <= MAX_BATCH_DELETE_ROWS ==> r is None,
        count > MAX_BATCH_DELETE_ROWS ==> r is Some && r->0@ == "单次批量删除最多 "@ + spec_decimal(
            MAX_BATCH_DELETE_ROWS as nat,
        ) + " 行，请减少勾选后分批执行"@,
{
    if count <= MAX_BATCH_DELETE_ROWS {
        return None;
    }
    let n = decimal(MAX_BATCH_DELETE_ROWS as u64);
    Some(cat3("单次批量删除最多 ", n.as_str(), " 行，请减少勾选后分批执行"))
}

/// What the database answered to one write statement.
#[derive(Clone, Copy, Debug, PartialEq, Eq, Structural)]
pub enum MutationOutcome {
    /// Rows the statement affected.
    Affected(u64),
    Failed,
}

/// Progress of a batch delete that runs one statement per row.
#[derive(Debug)]
pub struct BatchDeleteProgress {
    /// Rows whose DELETE affected something, in order.
    pub deleted: Vec<usize>,
    pub affected_rows: u64,
    pub not_matched: usize,
    /// Rows affected by a DELETE that touched more than one row; the batch stops there.
    pub anomalous_affected: Option<u64>,
    pub failed: bool,
}

/// `a + b`, held at `u64::MAX`.
pub open spec fn spec_saturating_add_u64(a: u64, b: u64) -> u64 {
    if a + b > u64::MAX {
        u64::MAX
    } else {
        (a + b) as u64
    }
}

impl BatchDeleteProgress {
    /// Nothing run yet.
    pub fn new() -> (r: BatchDeleteProgress)
        ensures
            r.deleted@.len() == 0,
            r.affected_rows == 0,
            r.not_matched == 0,
            r.anomalous_affected is None,
            !r.failed,
    {
        BatchDeleteProgress {
            deleted: Vec::new(),
            affected_rows: 0,
            not_matched: 0,
            anomalous_affected: None,
            failed: false,
        }
    }

    /// Records the answer to the DELETE of row `ri`; returns whether the batch goes on. It
    /// stops at a failure and at a DELETE that affected several rows.
    pub fn record(&mut self, ri: usize, outcome: MutationOutcome) -> (go_on: bool)
        requires
            old(self).not_matched < usize::MAX,
        ensures
            match outcome {
                MutationOutcome::Affected(n) => if n > 0 {
                    final(self).deleted@ == old(self).deleted@.push(ri) && final(self).affected_rows
                        == spec_saturating_add_u64(old(self).affected_rows, n) && final(self).not_matched
                        == old(self).not_matched && final(self).failed == old(self).failed
                        && (n > 1 ==> final(self).anomalous_affected == Some(n) && !go_on)
                        && (n == 1 ==> final(self).anomalous_affected == old(self).anomalous_affected && go_on)
                } else {
                    final(self).deleted@ == old(self).deleted@ && final(self).affected_rows
                        == old(self).affected_rows && final(self).not_matched == old(self).not_matched + 1
                        && final(self).anomalous_affected == old(self).anomalous_affected
                        && final(self).failed == old(self).failed && go_on
                },
                MutationOutcome::Failed => final(self).deleted@ == old(self).deleted@
                    && final(self).affected_rows == old(self).affected_rows && final(self).not_matched
                    == old(self).not_matched && final(self).anomalous_affected
                    == old(self).anomalous_affected && final(self).failed && !go_on,
            },
    {
        match outcome {
            MutationOutcome::Affected(n) => {
                if n > 0 {
                    self.affected_rows = self.affected_rows.saturating_add(n);
                    self.deleted.push(ri);
                    if n > 1 {
                        self.anomalous_affected = Some(n);
                        return false;
                    }
                    true
                } else {
                    self.not_matched = self.not_matched + 1;
                    true
                }
            },
            MutationOutcome::Failed => {
                self.failed = true;
                false
            },
        }
    }

    /// Context of a failed batch delete, for the error message.
    pub fn failure_context(&self, same_result: bool) -> (r: String)
        ensures
            r@ == "已影响 "@ + spec_decimal(self.affected_rows as nat) + " 行、"@ + spec_decimal(
                self.not_matched as nat,
            ) + " 行未匹配后出错"@ + (if same_result {
                Seq::empty()
            } else {
                "；当前结果已变化"@
            }),
    {
        let a = decimal(self.affected_rows);
        let n = decimal(self.not_matched as u64);
        let mut s = cat5("已影响 ", a.as_str(), " 行、", n.as_str(), " 行未匹配后出错");
        if !same_result {
            push_str(&mut s, "；当前结果已变化");
        }
        s
    }

    /// Notice after a batch delete without failure: a warning that stays when the batch
    /// stopped on an anomaly or the result changed, else a success that hides itself.
    pub fn success_notice(&self, strategy: &str, same_result: bool, commit_hint: &str) -> (r: Notice)
        ensures
            r.message@ == spec_batch_delete_message(
                self.deleted@.len(),
                self.affected_rows as nat,
                self.not_matched as nat,
                self.anomalous_affected,
                strategy@,
                same_result,
            ) + commit_hint@,
            r.level == if self.anomalous_affected is Some || !same_result {
                NoticeLevel::Warning
            } else {
                NoticeLevel::Success
            },
            r.autohide == !(self.anomalous_affected is Some || !same_result),
    {
        let notice = batch_delete_notice(
            self.deleted.len(),
            self.affected_rows,
            self.not_matched,
            self.anomalous_affected,
            strategy,
            same_result,
        );
        let mut message = notice.message;
        push_str(&mut message, commit_hint);
        if notice.persistent {
            Notice { level: NoticeLevel::Warning, message, autohide: false }
        } else {
            Notice { level: NoticeLevel::Success, message, autohide: true }
        }
    }
}

/// Why a batch of cell updates stopped.
#[derive(Debug)]
pub enum CommitFailure {
    NotMatched { row_index: usize },
    Anomalous { row_index: usize, affected_rows: u64 },
    Database { row_index: usize, message: String },
}

/// Progress of a batch of cell updates that runs one UPDATE per row, in order.
#[derive(Debug)]
pub struct CellCommitProgress {
    /// Positions, in the batch, of the UPDATEs that changed exactly one row.
    pub succeeded: Vec<usize>,
    /// Position of the UPDATE that changed several rows; the batch stops there.
    pub anomalous: Option<usize>,
    /// UPDATEs that changed at least one row.
    pub successful_rows: usize,
    pub affected_rows: u64,
    pub failure: Option<CommitFailure>,
}

impl CellCommitProgress {
    /// Nothing run yet.
    pub fn new() -> (r: CellCommitProgress)
        ensures
            r.succeeded@.len() == 0,
            r.anomalous is None,
            r.successful_rows == 0,
            r.affected_rows == 0,
            r.failure is None,
    {
        CellCommitProgress { succeeded: Vec::new(), anomalous: None, successful_rows: 0, affected_rows: 0, failure: None }
    }

    /// Records the answer to the UPDATE at `position` of the batch, for result row
    /// `row_index`: the rows it changed, or the database's error. Returns whether the batch
    /// goes on; it stops at the first UPDATE that changed no row, several rows, or failed.
    pub fn record(&mut self, position: usize, row_index: usize, outcome: Result<u64, String>) -> (go_on: bool)
        requires
            old(self).successful_rows < usize::MAX,
        ensures
            match outcome {
                Ok(n) => if n == 0 {
                    &&& !go_on
                    &&& final(self).succeeded@ == old(self).succeeded@
                    &&& final(self).anomalous == old(self).anomalous
                    &&& final(self).successful_rows == old(self).successful_rows
                    &&& final(self).affected_rows == old(self).affected_rows
                    &&& final(self).failure matches Some(CommitFailure::NotMatched { row_index: r }) && r == row_index
                } else {
                    &&& final(self).successful_rows == old(self).successful_rows + 1
                    &&& final(self).affected_rows == spec_saturating_add_u64(old(self).affected_rows, n)
                    &&& if n > 1 {
                        &&& !go_on
                        &&& final(self).succeeded@ == old(self).succeeded@
                        &&& final(self).anomalous == Some(position)
                        &&& final(self).failure matches Some(CommitFailure::Anomalous { row_index: r, affected_rows: a })
                            && r == row_index && a == n
                    } else {
                        &&& go_on
                        &&& final(self).succeeded@ == old(self).succeeded@.push(position)
                        &&& final(self).anomalous == old(self).anomalous
                        &&& final(self).failure == old(self).failure
                    }
                },
                Err(e) => {
                    &&& !go_on
                    &&& final(self).succeeded@ == old(self).succeeded@
                    &&& final(self).anomalous == old(self).anomalous
                    &&& final(self).successful_rows == old(self).successful_rows
                    &&& final(self).affected_rows == old(self).affected_rows
                    &&& final(self).failure matches Some(CommitFailure::Database { row_index: r, message: m })
                        && r == row_index && m == e
                },
            },
    {
        match outcome {
            Ok(n) => {
                if n == 0 {
                    self.failure = Some(CommitFailure::NotMatched { row_index });
                    return false;
                }
                self.successful_rows = self.successful_rows + 1;
                self.affected_rows = self.affected_rows.saturating_add(n);
                if n > 1 {
                    self.anomalous = Some(position);
                    self.failure = Some(CommitFailure::Anomalous { row_index, affected_rows: n });
                    return false;
                }
                self.succeeded.push(position);
                true
            },
            Err(message) => {
                self.failure = Some(CommitFailure::Database { row_index, message });
                false
            },
        }
    }
}

/// Note about staged edits left after a commit.
pub open spec fn spec_remaining_note(remaining: nat) -> Seq<char> {
    if remaining > 0 {
        "；仍保留 "@ + spec_decimal(remaining) + " 项未提交修改，可修正后重试"@
    } else {
        Seq::empty()
    }
}

/// Notice after a batch of cell updates.
pub open spec fn spec_commit_notice(
    failure: Option<CommitFailure>,
    same_result: bool,
    committed: nat,
    pending: nat,
    affected: nat,
    strategy: Seq<char>,
    hint: Seq<char>,
    anomalous_edits: nat,
    remaining: nat,
    successful_rows: nat,
) -> (NoticeLevel, Seq<char>, bool) {
    let note = spec_remaining_note(remaining);
    if successful_rows == 0 && failure is None {
        (NoticeLevel::Warning, "没有可提交的单元格修改"@, true)
    } else {
        match failure {
            None => if same_result && remaining == 0 {
                (
                    NoticeLevel::Success,
                    "已提交 "@ + spec_decimal(committed) + " 项单元格修改，影响 "@ + spec_decimal(affected)
                        + " 行（"@ + strategy + "匹配）"@ + hint,
                    true,
                )
            } else {
                (
                    NoticeLevel::Warning,
                    "已提交 "@ + spec_decimal(committed) + " / "@ + spec_decimal(pending)
                        + " 项单元格修改，影响 "@ + spec_decimal(affected) + " 行（"@ + strategy
                        + "匹配）"@ + hint + "；当前结果已变化，请重新查询核对"@ + note,
                    false,
                )
            },
            Some(CommitFailure::NotMatched { row_index }) => (
                NoticeLevel::Warning,
                "已提交 "@ + spec_decimal(committed) + " 项修改后，第 "@ + spec_decimal((row_index + 1) as nat)
                    + " 行 UPDATE 未匹配到记录（请检查定位键）"@ + note,
                false,
            ),
            Some(CommitFailure::Anomalous { row_index, affected_rows }) => (
                NoticeLevel::Warning,
                "已提交 "@ + spec_decimal(committed) + " 项修改后，第 "@ + spec_decimal((row_index + 1) as nat)
                    + " 行 UPDATE 异常影响 "@ + spec_decimal(affected_rows as nat) + " 行（"@ + strategy
                    + "），该行 "@ + spec_decimal(anomalous_edits) + " 项草稿已清除，已停止后续提交，请重新查询核对"@
                    + note,
                false,
            ),
            Some(CommitFailure::Database { row_index, message }) => (
                NoticeLevel::Error,
                "已提交 "@ + spec_decimal(committed) + " 项修改后，第 "@ + spec_decimal((row_index + 1) as nat)
                    + " 行失败："@ + message@ + note,
                false,
            ),
        }
    }
}

/// The failing row index of a commit failure.
pub open spec fn spec_failure_row(failure: Option<CommitFailure>) -> int {
    match failure {
        Some(CommitFailure::NotMatched { row_index }) => row_index as int,
        Some(CommitFailure::Anomalous { row_index, .. }) => row_index as int,
        Some(CommitFailure::Database { row_index, .. }) => row_index as int,
        None => 0,
    }
}

/// Builds the notice shown after a batch of cell updates.
pub fn commit_outcome_notice(
    failure: Option<CommitFailure>,
    same_result: bool,
    committed_edits: usize,
    pending_edit_count: usize,
    affected_rows: u64,
    strategy: &str,
    commit_hint: &str,
    anomalous_edits: usize,
    remaining: usize,
    successful_rows: usize,
) -> (r: Notice)
    requires
        spec_failure_row(failure) < u64::MAX,
    ensures
        (r.level, r.message@, r.autohide) == spec_commit_notice(
            failure,
            same_result,
            committed_edits as nat,
            pending_edit_count as nat,
            affected_rows as nat,
            strategy@,
            commit_hint@,
            anomalous_edits as nat,
            remaining as nat,
            successful_rows as nat,
        ),
{
    if successful_rows == 0 && failure.is_none() {
        return Notice {
            level: NoticeLevel::Warning,
            message: String::from_str("没有可提交的单元格修改"),
            autohide: true,
        };
    }
    let note = if remaining > 0 {
        let d = decimal(remaining as u64);
        cat3("；仍保留 ", d.as_str(), " 项未提交修改，可修正后重试")
    } else {
        String::new()
    };
    let committed = decimal(committed_edits as u64);
    match failure {
        None => {
            let affected = decimal(affected_rows);
            if same_result && remaining == 0 {
                let mut m = cat5("已提交 ", committed.as_str(), " 项单元格修改，影响 ", affected.as_str(), " 行（");
                push_str(&mut m, strategy);
                push_str(&mut m, "匹配）");
                push_str(&mut m, commit_hint);
                Notice { level: NoticeLevel::Success, message: m, autohide: true }
            } else {
                let pending = decimal(pending_edit_count as u64);
                let mut m = cat5("已提交 ", committed.as_str(), " / ", pending.as_str(), " 项单元格修改，影响 ");
                push_str(&mut m, affected.as_str());
                push_str(&mut m, " 行（");
                push_str(&mut m, strategy);
                push_str(&mut m, "匹配）");
                push_str(&mut m, commit_hint);
                push_str(&mut m, "；当前结果已变化，请重新查询核对");
                push_str(&mut m, note.as_str());
                Notice { level: NoticeLevel::Warning, message: m, autohide: false }
            }
        },
        Some(CommitFailure::NotMatched { row_index }) => {
            let row = decimal(row_index as u64 + 1);
            let mut m = cat5("已提交 ", committed.as_str(), " 项修改后，第 ", row.as_str(), " 行 UPDATE 未匹配到记录（请检查定位键）");
            push_str(&mut m, note.as_str());
            Notice { level: NoticeLevel::Warning, message: m, autohide: false }
        },
        Some(CommitFailure::Anomalous { row_index, affected_rows: row_affected }) => {
            let row = decimal(row_index as u64 + 1);
            let n = decimal(row_affected);
            let ae = decimal(anomalous_edits as u64);
            let mut m = cat5("已提交 ", committed.as_str(), " 项修改后，第 ", row.as_str(), " 行 UPDATE 异常影响 ");
            push_str(&mut m, n.as_str());
            push_str(&mut m, " 行（");
            push_str(&mut m, strategy);
            push_str(&mut m, "），该行 ");
            push_str(&mut m, ae.as_str());
            push_str(&mut m, " 项草稿已清除，已停止后续提交，请重新查询核对");
            push_str(&mut m, note.as_str());
            Notice { level: NoticeLevel::Warning, message: m, autohide: false }
        },
        Some(CommitFailure::Database { row_index, message }) => {
            let row = decimal(row_index as u64 + 1);
            let mut m = cat5("已提交 ", committed.as_str(), " 项修改后，第 ", row.as_str(), " 行失败：");
            push_str(&mut m, message.as_str());
            push_str(&mut m, note.as_str());
            Notice { level: NoticeLevel::Error, message: m, autohide: false }
        },
    }
}

/// How a write names the key it located rows by: `按` and the identity's label.
pub fn identity_strategy(identity: &RowIdentity) -> (r: String)
    ensures
        r@ == "按"@ + identity.label@,
{
    cat2("按", identity.label.as_str())
}

/// What follows the DELETE of one row: the notice, and whether the row is dropped from the
/// shown result.
#[derive(Debug)]
pub struct DeleteRowFollowUp {
    pub notice: Notice,
    /// The row left the database and the result is still the one it was deleted from.
    pub remove_row: bool,
}

/// Notice after the DELETE of one row.
pub open spec fn spec_delete_row_notice(affected: nat, same_result: bool, strategy: Seq<char>, hint: Seq<char>) -> (
    NoticeLevel,
    Seq<char>,
    bool,
) {
    if affected == 0 {
        (NoticeLevel::Warning, "DELETE 未匹配到记录（请检查主键或行已被改动）"@, true)
    } else if affected > 1 {
        (
            NoticeLevel::Warning,
            "注意：本次 DELETE 影响了 "@ + spec_decimal(affected) + " 行（"@ + strategy + "），定位键可能已失效"@ + hint + (
            if same_result {
                Seq::empty()
            } else {
                "；当前结果已变化"@
            }) + "，请重新查询核对"@,
            false,
        )
    } else if !same_result {
        (
            NoticeLevel::Warning,
            "已删除 "@ + spec_decimal(affected) + " 行（"@ + strategy + "匹配）"@ + hint + "；当前结果已变化，请重新查询核对"@,
            false,
        )
    } else {
        (NoticeLevel::Success, "已删除 "@ + spec_decimal(affected) + " 行（"@ + strategy + "匹配）"@ + hint, true)
    }
}

/// What follows a DELETE of one row that affected `affected_rows` rows.
pub fn delete_row_follow_up(affected_rows: u64, same_result: bool, strategy: &str, commit_hint: &str) -> (r:
    DeleteRowFollowUp)
    ensures
        (r.notice.level, r.notice.message@, r.notice.autohide) == spec_delete_row_notice(
            affected_rows as nat,
            same_result,
            strategy@,
            commit_hint@,
        ),
        r.remove_row == (affected_rows > 0 && same_result),
{
    if affected_rows == 0 {
        return DeleteRowFollowUp {
            notice: Notice {
                level: NoticeLevel::Warning,
                message: String::from_str("DELETE 未匹配到记录（请检查主键或行已被改动）"),
                autohide: true,
            },
            remove_row: false,
        };
    }
    let n = decimal(affected_rows);
    let notice = if affected_rows > 1 {
        let mut m = cat5("注意：本次 DELETE 影响了 ", n.as_str(), " 行（", strategy, "），定位键可能已失效");
        push_str(&mut m, commit_hint);
        if !same_result {
            push_str(&mut m, "；当前结果已变化");
        }
        push_str(&mut m, "，请重新查询核对");
        Notice { level: NoticeLevel::Warning, message: m, autohide: false }
    } else if !same_result {
        let mut m = cat5("已删除 ", n.as_str(), " 行（", strategy, "匹配）");
        push_str(&mut m, commit_hint);
        push_str(&mut m, "；当前结果已变化，请重新查询核对");
        Notice { level: NoticeLevel::Warning, message: m, autohide: false }
    } else {
        let mut m = cat5("已删除 ", n.as_str(), " 行（", strategy, "匹配）");
        push_str(&mut m, commit_hint);
        Notice { level: NoticeLevel::Success, message: m, autohide: true }
    };
    DeleteRowFollowUp { notice, remove_row: same_result }
}

/// Notice after an INSERT of one row.
pub open spec fn spec_insert_notice(affected: nat, same_result: bool, hint: Seq<char>) -> (NoticeLevel, Seq<char>, bool) {
    if affected == 0 {
        (NoticeLevel::Warning, "INSERT 未影响任何行（请检查约束）"@, true)
    } else if same_result {
        (NoticeLevel::Success, "已新增 "@ + spec_decimal(affected) + " 行"@ + hint + "；请重新查询查看数据库默认值和生成字段"@, true)
    } else {
        (NoticeLevel::Warning, "已新增 "@ + spec_decimal(affected) + " 行"@ + hint + "；当前结果已变化，请重新查询核对"@, false)
    }
}

/// Notice after an INSERT that affected `affected_rows` rows.
pub fn insert_outcome_notice(affected_rows: u64, same_result: bool, commit_hint: &str) -> (r: Notice)
    ensures
        (r.level, r.message@, r.autohide) == spec_insert_notice(affected_rows as nat, same_result, commit_hint@),
{
    if affected_rows == 0 {
        return Notice {
            level: NoticeLevel::Warning,
            message: String::from_str("INSERT 未影响任何行（请检查约束）"),
            autohide: true,
        };
    }
    let n = decimal(affected_rows);
    let mut m = cat4("已新增 ", n.as_str(), " 行", commit_hint);
    if same_result {
        push_str(&mut m, "；请重新查询查看数据库默认值和生成字段");
        Notice { level: NoticeLevel::Success, message: m, autohide: true }
    } else {
        push_str(&mut m, "；当前结果已变化，请重新查询核对");
        Notice { level: NoticeLevel::Warning, message: m, autohide: false }
    }
}

/// Refusal of a write whose target table is not known.
pub fn missing_table_message(action: &str) -> (r: String)
    ensures
        r@ == "无法识别目标表，请从表树打开单表后再"@ + action@,
{
    cat2("无法识别目标表，请从表树打开单表后再", action)
}

/// Refusal of an INSERT whose SQL would pass the request limit.
pub fn insert_too_large_message() -> (r: String)
    ensures
        r@ == "INSERT 生成的 SQL 超过 "@ + spec_decimal((MAX_SQL_QUERY_BYTES / 1024 / 1024) as nat)
            + " MiB 安全上限，请减少列或缩短输入"@,
{
    let mib = decimal((MAX_SQL_QUERY_BYTES / 1024 / 1024) as u64);
    cat3("INSERT 生成的 SQL 超过 ", mib.as_str(), " MiB 安全上限，请减少列或缩短输入")
}

/// The refusal of a write to `action` while another write runs, a transaction switches or
/// no connection is there, in that order.
pub open spec fn spec_dml_block(dml_busy: bool, transaction_busy: bool, connected: bool, action: Seq<char>) -> Option<
    (NoticeLevel, Seq<char>),
> {
    if dml_busy {
        Some((NoticeLevel::Warning, "上一操作尚未完成，请稍候再"@ + action))
    } else if transaction_busy {
        Some((NoticeLevel::Info, "事务正在切换，暂时无法"@ + action))
    } else if !connected {
        Some((NoticeLevel::Warning, "当前未注入连接，无法"@ + action))
    } else {
        None
    }
}

impl ResultPanel {
    /// Whether a write to `action` may use the connection now; a refusal leaves a notice
    /// that hides itself.
    pub fn dml_conn(&mut self, action: &str, transaction_busy: bool, connected: bool) -> (ready: bool)
        ensures
            match spec_dml_block(old(self).dml_busy, transaction_busy, connected, action@) {
                None => ready && *final(self) == *old(self),
                Some((level, message)) => {
                    &&& !ready
                    &&& *final(self) == (ResultPanel {
                        pending_notification: final(self).pending_notification,
                        ..*old(self)
                    })
                    &&& final(self).pending_notification is Some
                    &&& final(self).pending_notification->0.level == level
                    &&& final(self).pending_notification->0.message@ == message
                    &&& final(self).pending_notification->0.autohide
                },
            },
    {
        let refusal = if self.dml_busy {
            Some((NoticeLevel::Warning, cat2("上一操作尚未完成，请稍候再", action)))
        } else if transaction_busy {
            Some((NoticeLevel::Info, cat2("事务正在切换，暂时无法", action)))
        } else if !connected {
            Some((NoticeLevel::Warning, cat2("当前未注入连接，无法", action)))
        } else {
            None
        };
        match refusal {
            None => true,
            Some((level, message)) => {
                self.pending_notification = Some(Notice { level, message, autohide: true });
                false
            },
        }
    }
}


// ---------------------------------------------------------------------------------------------
// Statements that write one row
// ---------------------------------------------------------------------------------------------

/// The condition on one key column: `IS NULL` for a NULL value, else equality with the
/// value's SQL literal.
pub open spec fn spec_identity_condition(driver: DriverKind, key: Seq<char>, literal: Option<Seq<char>>) -> Seq<char> {
    match literal {
        None => spec_quote_identifier(driver, key) + " IS NULL"@,
        Some(l) => spec_quote_identifier(driver, key) + " = "@ + l,
    }
}

/// Literal texts of a row, `None` for NULL.
pub open spec fn literals_view(v: Seq<Option<String>>) -> Seq<Option<Seq<char>>> {
    v.map_values(|o: Option<String>| match o {
        Some(s) => Some(s@),
        None => None,
    })
}

/// The WHERE clause over the first `k` key columns of the row identity, or the first error:
/// each key is looked up among the result columns ignoring ASCII case and must have a value;
/// conditions are joined by ` AND `; the clause may not pass the request limit in UTF-8 bytes.
pub open spec fn spec_identity_where(
    columns: Seq<Seq<char>>,
    literals: Seq<Option<Seq<char>>>,
    keys: Seq<Seq<char>>,
    driver: DriverKind,
    k: int,
) -> Result<Seq<char>, IdentityWhereError>
    decreases k,
{
    if k <= 0 {
        Ok(Seq::empty())
    } else {
        match spec_identity_where(columns, literals, keys, driver, k - 1) {
            Err(e) => Err(e),
            Ok(prev) => match find_name(columns, keys[k - 1]) {
                None => Err(IdentityWhereError::MissingColumn),
                Some(idx) => if idx >= literals.len() {
                    Err(IdentityWhereError::MissingColumn)
                } else {
                    let text = prev + (if k > 1 {
                        " AND "@
                    } else {
                        Seq::empty()
                    }) + spec_identity_condition(driver, keys[k - 1], literals[idx]);
                    if spec_utf8_len(text) > MAX_SQL_QUERY_BYTES {
                        Err(IdentityWhereError::TooLarge)
                    } else {
                        Ok(text)
                    }
                },
            },
        }
    }
}

proof fn lemma_identity_where_error_stays(
    columns: Seq<Seq<char>>,
    literals: Seq<Option<Seq<char>>>,
    keys: Seq<Seq<char>>,
    driver: DriverKind,
    k: int,
    n: int,
)
    requires
        0 <= k <= n,
        spec_identity_where(columns, literals, keys, driver, k) is Err,
    ensures
        spec_identity_where(columns, literals, keys, driver, n) == spec_identity_where(
            columns,
            literals,
            keys,
            driver,
            k,
        ),
    decreases n - k,
{
    if k < n {
        lemma_identity_where_error_stays(columns, literals, keys, driver, k, n - 1);
    }
}

fn find_name_index(names: &[String], name: &str) -> (r: Option<usize>)
    ensures
        opt_index(r) == find_name(strings_view(names@), name@),
{
    let ghost nv = strings_view(names@);
    let mut i: usize = 0;
    while i < names.len()
        invariant
            i <= names@.len(),
            nv == strings_view(names@),
            find_name_from(nv, name@, 0) == find_name_from(nv, name@, i as int),
        decreases names@.len() - i,
    {
        assert(nv[i as int] == names@[i as int]@);
        if same_name(names[i].as_str(), name) {
            return Some(i);
        }
        i = i + 1;
    }
    None
}

/// The WHERE clause that locates one row by its identity: `result_columns` are the result's
/// column names and `literals` the row's values as SQL literals, `None` for NULL.
pub fn build_identity_where(
    result_columns: &[String],
    literals: &[Option<String>],
    identity: &RowIdentity,
    driver: DriverKind,
) -> (r: Result<String, IdentityWhereError>)
    ensures
        match r {
            Ok(s) => spec_identity_where(
                strings_view(result_columns@),
                literals_view(literals@),
                strings_view(identity.columns@),
                driver,
                identity.columns@.len() as int,
            ) == Ok::<Seq<char>, IdentityWhereError>(s@),
            Err(e) => spec_identity_where(
                strings_view(result_columns@),
                literals_view(literals@),
                strings_view(identity.columns@),
                driver,
                identity.columns@.len() as int,
            ) == Err::<Seq<char>, IdentityWhereError>(e),
        },
{
    let ghost cv = strings_view(result_columns@);
    let ghost lv = literals_view(literals@);
    let ghost kv = strings_view(identity.columns@);
    let mut out = String::new();
    let mut k: usize = 0;
    while k < identity.columns.len()
        invariant
            k <= identity.columns@.len(),
            cv == strings_view(result_columns@),
            lv == literals_view(literals@),
            kv == strings_view(identity.columns@),
            spec_identity_where(cv, lv, kv, driver, k as int) == Ok::<Seq<char>, IdentityWhereError>(out@),
        decreases identity.columns@.len() - k,
    {
        let key = &identity.columns[k];
        assert(kv[k as int] == key@);
        let idx = match find_name_index(result_columns, key.as_str()) {
            Some(i) => i,
            None => {
                proof {
                    lemma_identity_where_error_stays(cv, lv, kv, driver, k + 1, kv.len() as int);
                }
                return Err(IdentityWhereError::MissingColumn);
            },
        };
        if idx >= literals.len() {
            proof {
                lemma_identity_where_error_stays(cv, lv, kv, driver, k + 1, kv.len() as int);
            }
            return Err(IdentityWhereError::MissingColumn);
        }
        let quoted = driver.quote_identifier(key.as_str());
        let condition = match &literals[idx] {
            None => cat2(quoted.as_str(), " IS NULL"),
            Some(l) => cat3(quoted.as_str(), " = ", l.as_str()),
        };
        assert(condition@ == spec_identity_condition(driver, key@, lv[idx as int]));
        if k > 0 {
            push_str(&mut out, " AND ");
        }
        push_str(&mut out, condition.as_str());
        if utf8_len(out.as_str()) > MAX_SQL_QUERY_BYTES {
            proof {
                lemma_identity_where_error_stays(cv, lv, kv, driver, k + 1, kv.len() as int);
            }
            return Err(IdentityWhereError::TooLarge);
        }
        k = k + 1;
    }
    Ok(out)
}

/// An UPDATE of one row: the assignments joined by `, `, then the WHERE clause and, for
/// MySQL, `LIMIT 1`.
pub open spec fn spec_update_text(
    table_ref: Seq<char>,
    edits: Seq<(Seq<char>, Seq<char>)>,
    where_clause: Seq<char>,
    driver: DriverKind,
) -> Seq<char> {
    "UPDATE "@ + table_ref + " SET "@ + spec_join(
        Seq::new(edits.len(), |i: int| spec_quote_identifier(driver, edits[i].0) + " = "@ + edits[i].1),
        ", "@,
    ) + " WHERE "@ + where_clause + spec_dml_row_limit(driver) + ";"@
}

/// Column names and literal texts of the edits.
pub open spec fn edits_view(edits: Seq<(String, String)>) -> Seq<(Seq<char>, Seq<char>)> {
    edits.map_values(|e: (String, String)| (e.0@, e.1@))
}

/// The UPDATE of one row that writes each `(column, literal)` edit, refused when it would
/// pass the request limit in UTF-8 bytes.
pub fn build_update_sql(table_ref: &str, edits: &[(String, String)], where_clause: &str, driver: DriverKind) -> (r:
    Result<String, CellUpdateSqlError>)
    ensures
        ({
            let sql = spec_update_text(table_ref@, edits_view(edits@), where_clause@, driver);
            if spec_utf8_len(sql) > MAX_SQL_QUERY_BYTES {
                r == Err::<String, CellUpdateSqlError>(CellUpdateSqlError::TooLarge)
            } else {
                r is Ok && r->Ok_0@ == sql
            }
        }),
{
    let ghost ev = edits_view(edits@);
    let ghost parts_spec = Seq::new(
        ev.len(),
        |i: int| spec_quote_identifier(driver, ev[i].0) + " = "@ + ev[i].1,
    );
    let mut parts: Vec<String> = Vec::new();
    let mut i: usize = 0;
    while i < edits.len()
        invariant
            i <= edits@.len(),
            ev == edits_view(edits@),
            parts_spec.len() == edits@.len(),
            parts_spec == Seq::new(ev.len(), |j: int| spec_quote_identifier(driver, ev[j].0) + " = "@ + ev[j].1),
            strings_view(parts@) == parts_spec.take(i as int),
        decreases edits@.len() - i,
    {
        let q = driver.quote_identifier(edits[i].0.as_str());
        let part = cat3(q.as_str(), " = ", edits[i].1.as_str());
        assert(ev[i as int] == (edits@[i as int].0@, edits@[i as int].1@));
        let ghost pv = part@;
        assert(pv == parts_spec[i as int]);
        let ghost before = strings_view(parts@);
        parts.push(part);
        assert(strings_view(parts@) =~= before.push(pv));
        assert(parts_spec.take(i + 1) =~= parts_spec.take(i as int).push(pv));
        i = i + 1;
    }
    assert(parts_spec.take(edits@.len() as int) =~= parts_spec);
    let assignments = join(parts.as_slice(), ", ");
    let mut sql = cat4("UPDATE ", table_ref, " SET ", assignments.as_str());
    push_str(&mut sql, " WHERE ");
    push_str(&mut sql, where_clause);
    push_str(&mut sql, dml_row_limit(driver));
    push_str(&mut sql, ";");
    if utf8_len(sql.as_str()) > MAX_SQL_QUERY_BYTES {
        return Err(CellUpdateSqlError::TooLarge);
    }
    Ok(sql)
}

/// The UPDATE of one row, located by its identity: every edit of the row shares the one
/// WHERE clause.
pub fn update_row_sql(
    result_columns: &[String],
    literals: &[Option<String>],
    identity: &RowIdentity,
    table_ref: &str,
    edits: &[(String, String)],
    driver: DriverKind,
) -> (r: Result<String, CellUpdateSqlError>)
    ensures
        match spec_identity_where(
            strings_view(result_columns@),
            literals_view(literals@),
            strings_view(identity.columns@),
            driver,
            identity.columns@.len() as int,
        ) {
            Err(e) => r == Err::<String, CellUpdateSqlError>(CellUpdateSqlError::Identity(e)),
            Ok(w) => {
                let sql = spec_update_text(table_ref@, edits_view(edits@), w, driver);
                if spec_utf8_len(sql) > MAX_SQL_QUERY_BYTES {
                    r == Err::<String, CellUpdateSqlError>(CellUpdateSqlError::TooLarge)
                } else {
                    r is Ok && r->Ok_0@ == sql
                }
            },
        },
{
    match build_identity_where(result_columns, literals, identity, driver) {
        Err(e) => Err(CellUpdateSqlError::Identity(e)),
        Ok(w) => build_update_sql(table_ref, edits, w.as_str(), driver),
    }
}

/// The DELETE of one row; for MySQL limited to one row.
pub fn delete_statement(table_ref: &str, where_clause: &str, driver: DriverKind) -> (r: String)
    ensures
        r@ == "DELETE FROM "@ + table_ref@ + " WHERE "@ + where_clause@ + spec_dml_row_limit(driver) + ";"@,
{
    let mut sql = cat4("DELETE FROM ", table_ref, " WHERE ", where_clause);
    push_str(&mut sql, dml_row_limit(driver));
    push_str(&mut sql, ";");
    sql
}

// ---------------------------------------------------------------------------------------------
// What a delete is about to remove
// ---------------------------------------------------------------------------------------------

/// Note added when a row to delete is hidden by the current filters.
pub open spec fn spec_hidden_row_note(visible: bool) -> Seq<char> {
    if visible {
        Seq::empty()
    } else {
        "（该行当前被筛选隐藏）"@
    }
}

/// Whether row `ri` is shown: there is no display order yet, or it lists the row.
pub open spec fn spec_row_shown(display_indices: Option<Seq<usize>>, ri: usize) -> bool {
    match display_indices {
        None => true,
        Some(d) => d.contains(ri),
    }
}

/// Views of an optional display order.
pub open spec fn display_view(d: Option<&Vec<usize>>) -> Option<Seq<usize>> {
    match d {
        None => None,
        Some(v) => Some(v@),
    }
}

/// The row the selected cell is on and the text that names it before it is deleted:
/// `column = value` for the preview column, noting when the row is hidden by the filters.
/// `None` without a selected cell, a loaded result, an existing row or the preview column.
pub open spec fn spec_delete_preview(
    panel: ResultPanel,
    row_count: usize,
    value_preview: Seq<char>,
    display_indices: Option<Seq<usize>>,
) -> Option<(usize, Seq<char>)> {
    match panel.selected_cell {
        None => None,
        Some((ri, _)) => match panel.state {
            ResultState::Loaded(r) => {
                let idx = spec_preview_col_idx(panel.row_identity, r.columns@);
                if ri < row_count && idx < r.columns@.len() {
                    Some(
                        (
                            ri,
                            r.columns@[idx as int]@ + " = "@ + value_preview + spec_hidden_row_note(
                                spec_row_shown(display_indices, ri),
                            ),
                        ),
                    )
                } else {
                    None
                }
            },
            _ => None,
        },
    }
}

/// The selected rows that exist among `n` rows, in selection order.
pub open spec fn spec_rows_below(selected: Seq<usize>, n: nat) -> Seq<usize>
    decreases selected.len(),
{
    if selected.len() == 0 {
        Seq::empty()
    } else {
        let prev = spec_rows_below(selected.drop_last(), n);
        if selected.last() < n {
            prev.push(selected.last())
        } else {
            prev
        }
    }
}

/// Number of the first `k` rows of `rows` that the display order does not show.
pub open spec fn spec_hidden_count(rows: Seq<usize>, display_indices: Option<Seq<usize>>, k: int) -> nat
    decreases k,
{
    if k <= 0 {
        0
    } else {
        spec_hidden_count(rows, display_indices, k - 1) + if spec_row_shown(display_indices, rows[k - 1]) {
            0nat
        } else {
            1nat
        }
    }
}

/// The samples of a multi-row delete: `column = value` for up to three rows, then how many
/// more rows there are.
pub open spec fn spec_delete_samples(column: Seq<char>, value_previews: Seq<Seq<char>>, count: nat) -> Seq<
    Seq<char>,
> {
    let shown: nat = if count < 3 {
        count
    } else {
        3
    };
    Seq::new(
        shown,
        |k: int| column + " = "@ + if k < value_previews.len() {
            value_previews[k]
        } else {
            Seq::empty()
        },
    ) + if count > 3 {
        seq!["…还有 "@ + spec_decimal((count - 3) as nat) + " 行"@]
    } else {
        Seq::empty()
    }
}

/// The existing selected rows and the summary shown before they are deleted, or `None`
/// without a loaded result or an existing selected row. `value_previews[k]` is the preview
/// column's value in the `k`-th of those rows.
pub open spec fn spec_delete_preview_multi(
    panel: ResultPanel,
    row_count: usize,
    value_previews: Seq<Seq<char>>,
    display_indices: Option<Seq<usize>>,
) -> Option<(Seq<usize>, Seq<char>)> {
    match panel.state {
        ResultState::Loaded(r) => {
            let rows = spec_rows_below(panel.selected_rows@, row_count as nat);
            if rows.len() == 0 {
                None
            } else {
                let idx = spec_preview_col_idx(panel.row_identity, r.columns@);
                let column = if idx < r.columns@.len() {
                    r.columns@[idx as int]@
                } else {
                    Seq::empty()
                };
                let hidden = spec_hidden_count(rows, display_indices, rows.len() as int);
                let note = if hidden > 0 {
                    "（其中 "@ + spec_decimal(hidden) + " 行当前被筛选隐藏）"@
                } else {
                    Seq::empty()
                };
                Some(
                    (
                        rows,
                        "将删除 "@ + spec_decimal(rows.len()) + " 行"@ + note + "："@ + spec_join(
                            spec_delete_samples(column, value_previews, rows.len()),
                            " / "@,
                        ),
                    ),
                )
            }
        },
        _ => None,
    }
}

fn row_shown(display_indices: Option<&Vec<usize>>, ri: usize) -> (r: bool)
    ensures
        r == spec_row_shown(display_view(display_indices), ri),
{
    match display_indices {
        None => true,
        Some(d) => contains_index(d, ri),
    }
}

impl ResultPanel {
    /// What the delete of the selected cell's row would remove; `value_preview` is the
    /// preview column's value in that row and `display_indices` the rows the filters show.
    pub fn delete_preview(&self, row_count: usize, value_preview: &str, display_indices: Option<&Vec<usize>>) -> (r:
        Option<(usize, String)>)
        ensures
            match r {
                Some((ri, text)) => spec_delete_preview(*self, row_count, value_preview@, display_view(display_indices))
                    == Some((ri, text@)),
                None => spec_delete_preview(*self, row_count, value_preview@, display_view(display_indices)) is None,
            },
    {
        let ri = match self.selected_cell {
            Some((ri, _)) => ri,
            None => return None,
        };
        let result = match &self.state {
            ResultState::Loaded(r) => r,
            _ => return None,
        };
        let idx = self.preview_col_idx(result);
        if ri >= row_count || idx >= result.columns.len() {
            return None;
        }
        let mut text = cat3(result.columns[idx].as_str(), " = ", value_preview);
        if !row_shown(display_indices, ri) {
            push_str(&mut text, "（该行当前被筛选隐藏）");
        } else {
            proof {
                reveal_strlit("");
            }
        }
        proof {
            assert(text@ == result.columns@[idx as int]@ + " = "@ + value_preview@ + spec_hidden_row_note(
                spec_row_shown(display_view(display_indices), ri),
            ));
        }
        Some((ri, text))
    }

    /// The selected rows that exist in a result of `row_count` rows, in selection order.
    pub fn delete_targets(&self, row_count: usize) -> (r: Vec<usize>)
        ensures
            r@ == spec_rows_below(self.selected_rows@, row_count as nat),
    {
        let mut out: Vec<usize> = Vec::new();
        let mut i: usize = 0;
        while i < self.selected_rows.len()
            invariant
                i <= self.selected_rows@.len(),
                out@ == spec_rows_below(self.selected_rows@.take(i as int), row_count as nat),
            decreases self.selected_rows@.len() - i,
        {
            assert(self.selected_rows@.take(i + 1).drop_last() =~= self.selected_rows@.take(i as int));
            let x = self.selected_rows[i];
            if x < row_count {
                out.push(x);
            }
            i = i + 1;
        }
        assert(self.selected_rows@.take(self.selected_rows@.len() as int) =~= self.selected_rows@);
        out
    }

    /// What a multi-row delete would remove: the existing selected rows and a summary with
    /// up to three samples; `value_previews[k]` is the preview column's value in the `k`-th
    /// of [`ResultPanel::delete_targets`], and `display_indices` the rows the filters show.
    pub fn delete_preview_multi(
        &self,
        row_count: usize,
        value_previews: &[String],
        display_indices: Option<&Vec<usize>>,
    ) -> (r: Option<(Vec<usize>, String)>)
        ensures
            match r {
                Some((rows, text)) => spec_delete_preview_multi(
                    *self,
                    row_count,
                    strings_view(value_previews@),
                    display_view(display_indices),
                ) == Some((rows@, text@)),
                None => spec_delete_preview_multi(
                    *self,
                    row_count,
                    strings_view(value_previews@),
                    display_view(display_indices),
                ) is None,
            },
    {
        let result = match &self.state {
            ResultState::Loaded(r) => r,
            _ => return None,
        };
        let rows = self.delete_targets(row_count);
        if rows.len() == 0 {
            return None;
        }
        let ghost dv = display_view(display_indices);
        let ghost pv = strings_view(value_previews@);
        let idx = self.preview_col_idx(result);
        let column = if idx < result.columns.len() {
            result.columns[idx].clone()
        } else {
            String::new()
        };
        let mut hidden: usize = 0;
        let mut i: usize = 0;
        while i < rows.len()
            invariant
                i <= rows@.len(),
                dv == display_view(display_indices),
                hidden == spec_hidden_count(rows@, dv, i as int),
                hidden <= i,
            decreases rows@.len() - i,
        {
            if !row_shown(display_indices, rows[i]) {
                hidden = hidden + 1;
            }
            i = i + 1;
        }
        let shown: usize = if rows.len() < 3 {
            rows.len()
        } else {
            3
        };
        let ghost samples_spec = spec_delete_samples(column@, pv, rows@.len());
        let mut samples: Vec<String> = Vec::new();
        let mut k: usize = 0;
        while k < shown
            invariant
                k <= shown,
                shown == (if rows@.len() < 3 {
                    rows@.len()
                } else {
                    3
                }),
                pv == strings_view(value_previews@),
                samples_spec == spec_delete_samples(column@, pv, rows@.len()),
                strings_view(samples@) == samples_spec.take(k as int),
            decreases shown - k,
        {
            let value = if k < value_previews.len() {
                value_previews[k].clone()
            } else {
                String::new()
            };
            let sample = cat3(column.as_str(), " = ", value.as_str());
            let ghost before = strings_view(samples@);
            samples.push(sample);
            assert(strings_view(samples@) =~= before.push(sample@));
            assert(samples_spec.take(k + 1) =~= samples_spec.take(k as int).push(samples_spec[k as int]));
            k = k + 1;
        }
        if rows.len() > 3 {
            let more = cat3("…还有 ", decimal((rows.len() - 3) as u64).as_str(), " 行");
            let ghost before = strings_view(samples@);
            samples.push(more);
            assert(strings_view(samples@) =~= before.push(more@));
        }
        assert(strings_view(samples@) =~= samples_spec);
        let mut text = cat3("将删除 ", decimal(rows.len() as u64).as_str(), " 行");
        if hidden > 0 {
            let note = cat3("（其中 ", decimal(hidden as u64).as_str(), " 行当前被筛选隐藏）");
            push_str(&mut text, note.as_str());
        }
        push_str(&mut text, "：");
        let joined = join(samples.as_slice(), " / ");
        push_str(&mut text, joined.as_str());
        Some((rows, text))
    }
}

/// The rows whose position is not in `deleted`, in their order.
pub open spec fn spec_rows_kept<T>(rows: Seq<T>, deleted: Set<usize>) -> Seq<T>
    decreases rows.len(),
{
    if rows.len() == 0 {
        Seq::empty()
    } else {
        let kept = spec_rows_kept(rows.drop_last(), deleted);
        if deleted.contains((rows.len() - 1) as usize) {
            kept
        } else {
            kept.push(rows.last())
        }
    }
}

proof fn lemma_rows_kept_untouched<T>(rows: Seq<T>, deleted: Set<usize>, m: int)
    requires
        0 <= m <= rows.len(),
        forall|e: usize| #[trigger] deleted.contains(e) ==> e >= m,
    ensures
        spec_rows_kept(rows.take(m), deleted) == rows.take(m),
    decreases m,
{
    if m > 0 {
        lemma_rows_kept_untouched(rows, deleted, m - 1);
        assert(rows.take(m).drop_last() =~= rows.take(m - 1));
        assert(rows.take(m - 1).push(rows[m - 1]) =~= rows.take(m));
    }
}

proof fn lemma_rows_kept_one_more<T>(rows: Seq<T>, deleted: Set<usize>, d: usize, n: int)
    requires
        d < n <= rows.len(),
        rows.len() <= usize::MAX,
        forall|e: usize| #[trigger] deleted.contains(e) ==> e > d,
    ensures
        d < spec_rows_kept(rows.take(n), deleted).len(),
        spec_rows_kept(rows.take(n), deleted.insert(d)) == spec_rows_kept(rows.take(n), deleted).remove(d as int),
    decreases n,
{
    let more = deleted.insert(d);
    assert(rows.take(n).drop_last() =~= rows.take(n - 1));
    assert(rows.take(n).len() == n);
    assert(((rows.take(n).len() - 1) as usize) == (n - 1) as usize);
    if n == d + 1 {
        lemma_rows_kept_untouched(rows, deleted, n);
        lemma_rows_kept_untouched(rows, more, n - 1);
        assert(more.contains(d));
        assert(spec_rows_kept(rows.take(n), more) == spec_rows_kept(rows.take(n - 1), more));
        assert(rows.take(n).remove(d as int) =~= rows.take(n - 1));
    } else {
        lemma_rows_kept_one_more(rows, deleted, d, n - 1);
        let prev = spec_rows_kept(rows.take(n - 1), deleted);
        let prev_more = spec_rows_kept(rows.take(n - 1), more);
        assert(rows.take(n).last() == rows[n - 1]);
        if !deleted.contains((n - 1) as usize) {
            assert((n - 1) as usize != d);
            assert(!more.contains((n - 1) as usize));
            assert(spec_rows_kept(rows.take(n), more) == prev_more.push(rows[n - 1]));
            assert(spec_rows_kept(rows.take(n), deleted) == prev.push(rows[n - 1]));
            assert(prev.push(rows[n - 1]).remove(d as int) =~= prev.remove(d as int).push(rows[n - 1]));
        } else {
            assert(more.contains((n - 1) as usize));
            assert(spec_rows_kept(rows.take(n), more) == prev_more);
            assert(spec_rows_kept(rows.take(n), deleted) == prev);
        }
    }
}

/// Drops from `rows` the rows at the positions in `deleted`, as after a successful delete;
/// positions past the end are ignored. Says whether any row was dropped.
pub fn remove_deleted_rows<T>(rows: &mut Vec<T>, deleted: &Vec<usize>) -> (changed: bool)
    ensures
        final(rows)@ == spec_rows_kept(old(rows)@, deleted@.to_set()),
        changed == (final(rows)@.len() != old(rows)@.len()),
{
    let ghost old_rows = rows@;
    let d = sorted_unique(deleted);
    let before = rows.len();
    let mut k: usize = d.len();
    proof {
        assert(d@.skip(d@.len() as int).to_set() =~= Set::<usize>::empty());
        assert forall|e: usize| #[trigger] Set::<usize>::empty().contains(e) ==> e >= old_rows.len() by {}
        lemma_rows_kept_untouched(old_rows, Set::<usize>::empty(), old_rows.len() as int);
        assert(old_rows.take(old_rows.len() as int) =~= old_rows);
    }
    while k > 0
        invariant
            k <= d@.len(),
            spec_strictly_ascending(d@),
            d@.to_set() == deleted@.to_set(),
            old_rows.len() <= usize::MAX,
            rows@ == spec_rows_kept(old_rows, d@.skip(k as int).to_set()),
        decreases k,
    {
        k = k - 1;
        let ri = d[k];
        let ghost later = d@.skip(k + 1).to_set();
        let ghost cur = rows@;
        proof {
            let s0 = d@.skip(k as int);
            let s1 = d@.skip(k + 1);
            assert(s0.to_set() =~= later.insert(ri)) by {
                assert forall|e: usize| s0.contains(e) implies later.insert(ri).contains(e) by {
                    let j = choose|j: int| 0 <= j < s0.len() && s0[j] == e;
                    if j > 0 {
                        assert(s1[j - 1] == e);
                    }
                }
                assert forall|e: usize| later.insert(ri).contains(e) implies s0.contains(e) by {
                    if e == ri {
                        assert(s0[0] == e);
                    } else {
                        let j = choose|j: int| 0 <= j < s1.len() && s1[j] == e;
                        assert(s0[j + 1] == e);
                    }
                }
            }
            assert forall|e: usize| #[trigger] later.contains(e) implies e > ri by {
                let j = choose|j: int| 0 <= j < s1.len() && s1[j] == e;
                assert(d@[k + 1 + j] == e);
            }
            assert(old_rows.take(old_rows.len() as int) =~= old_rows);
        }
        if ri < rows.len() {
            proof {
                if (ri as int) < old_rows.len() {
                    lemma_rows_kept_one_more(old_rows, later, ri, old_rows.len() as int);
                } else {
                    lemma_rows_kept_untouched(old_rows, later, old_rows.len() as int);
                }
            }
            rows.remove(ri);
        } else {
            proof {
                if (ri as int) < old_rows.len() {
                    lemma_rows_kept_one_more(old_rows, later, ri, old_rows.len() as int);
                } else {
                    lemma_rows_kept_untouched(old_rows, later, old_rows.len() as int);
                    assert forall|e: usize| #[trigger] later.insert(ri).contains(e) implies e >= old_rows.len() by {}
                    lemma_rows_kept_untouched(old_rows, later.insert(ri), old_rows.len() as int);
                }
            }
        }
    }
    assert(d@.skip(0) =~= d@);
    rows.len() != before
}

/// `pos` lists, in ascending order, exactly the positions of the primary-key columns among
/// the first `n`, and `names` their names in that order.
pub open spec fn spec_lists_pk_columns(cols: Seq<SpecColumn>, n: int, names: Seq<Seq<char>>, pos: Seq<int>) -> bool {
    &&& pos.len() == names.len()
    &&& forall|i: int| 0 <= i < pos.len() ==> 0 <= #[trigger] pos[i] < n && cols[pos[i]].is_primary_key && names[i] == cols[pos[i]].name
    &&& forall|a: int, b: int| 0 <= a < b < pos.len() ==> pos[a] < pos[b]
    &&& forall|j: int| 0 <= j < n && #[trigger] cols[j].is_primary_key ==> pos.contains(j)
}

proof fn lemma_pk_names_list(cols: Seq<SpecColumn>, n: int) -> (pos: Seq<int>)
    requires
        0 <= n <= cols.len(),
    ensures
        spec_lists_pk_columns(cols, n, spec_pk_names(cols, n), pos),
    decreases n,
{
    if n == 0 {
        Seq::empty()
    } else {
        let prev = lemma_pk_names_list(cols, n - 1);
        let names = spec_pk_names(cols, n);
        let before = spec_pk_names(cols, n - 1);
        if cols[n - 1].is_primary_key {
            let pos = prev.push(n - 1);
            assert(names == before + seq![cols[n - 1].name]);
            assert forall|i: int| 0 <= i < pos.len() implies 0 <= #[trigger] pos[i] < n && cols[pos[i]].is_primary_key
                && names[i] == cols[pos[i]].name by {
                if i < prev.len() {
                    assert(pos[i] == prev[i]);
                    assert(names[i] == before[i]);
                }
            }
            assert forall|a: int, b: int| 0 <= a < b < pos.len() implies pos[a] < pos[b] by {
                assert(pos[a] == prev[a]);
                if b < prev.len() {
                    assert(pos[b] == prev[b]);
                }
            }
            assert forall|j: int| 0 <= j < n && #[trigger] cols[j].is_primary_key implies pos.contains(j) by {
                if j < n - 1 {
                    let k = choose|k: int| 0 <= k < prev.len() && prev[k] == j;
                    assert(pos[k] == j);
                } else {
                    assert(pos[pos.len() - 1] == j);
                }
            }
            pos
        } else {
            assert(names =~= before);
            assert forall|j: int| 0 <= j < n && #[trigger] cols[j].is_primary_key implies prev.contains(j) by {}
            prev
        }
    }
}

/// A table with a primary key is located by the whole key: the row identity names every
/// primary-key column, in column order, and nothing else.
pub proof fn lemma_identity_is_whole_primary_key(cols: Seq<SpecColumn>, idxs: Seq<SpecIndex>)
    requires
        exists|j: int| 0 <= j < cols.len() && #[trigger] cols[j].is_primary_key,
    ensures
        spec_row_identity(cols, idxs) is Some,
        (spec_row_identity(cols, idxs)->0).1 == "主键"@,
        exists|pos: Seq<int>| spec_lists_pk_columns(cols, cols.len() as int, (spec_row_identity(cols, idxs)->0).0, pos),
{
    let pos = lemma_pk_names_list(cols, cols.len() as int);
    let names = spec_pk_names(cols, cols.len() as int);
    let j = choose|j: int| 0 <= j < cols.len() && #[trigger] cols[j].is_primary_key;
    assert(pos.contains(j));
    assert(names.len() > 0);
    assert(spec_row_identity(cols, idxs) == Some((names, "主键"@)));
    assert((spec_row_identity(cols, idxs)->0).0 == names);
    assert(spec_lists_pk_columns(cols, cols.len() as int, (spec_row_identity(cols, idxs)->0).0, pos));
}

} // verus!
