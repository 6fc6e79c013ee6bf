//! State of the query result panel: the result it shows, its view mode, selection, sort and
//! paging, and the bookkeeping that keeps derived views in step with the result.

use vstd::prelude::*;

use crate::text::{
    cat2, cat3, cat4, cat5, chars_of, contains_str, decimal, push_str, same_name, spec_contains_text,
    spec_decimal, spec_same_name, spec_trim, strings_view, trim,
};

verus! {

// ---------------------------------------------------------------------------------------------
// View mode
// ---------------------------------------------------------------------------------------------

/// How the rows of a result are rendered.
#[derive(Clone, Copy, Debug, PartialEq, Eq, Structural)]
pub enum ResultViewMode {
    Table,
    Tree,
    Text,
    Transpose,
}

impl ResultViewMode {
    /// Every mode, in the order of the mode switcher.
    pub const ALL: [ResultViewMode; 4] = [
        ResultViewMode::Table,
        ResultViewMode::Tree,
        ResultViewMode::Text,
        ResultViewMode::Transpose,
    ];

    /// Label of the mode in the switcher.
    pub open spec fn spec_label(self) -> Seq<char> {
        match self {
            ResultViewMode::Table => "表格"@,
            ResultViewMode::Tree => "树形"@,
            ResultViewMode::Text => "文本"@,
            ResultViewMode::Transpose => "转置"@,
        }
    }

    /// Short description shown next to the label.
    pub open spec fn spec_description(self) -> Seq<char> {
        match self {
            ResultViewMode::Table => "按列查看并编辑结果"@,
            ResultViewMode::Tree => "按行展开字段层级"@,
            ResultViewMode::Text => "按行查看紧凑文本"@,
            ResultViewMode::Transpose => "按字段查看当前行"@,
        }
    }

    /// Label of the mode in the switcher.
    pub fn label(self) -> (r: &'static str)
        ensures
            r@ == self.spec_label(),
    {
        match self {
            ResultViewMode::Table => "表格",
            ResultViewMode::Tree => "树形",
            ResultViewMode::Text => "文本",
            ResultViewMode::Transpose => "转置",
        }
    }

    /// Short description shown next to the label.
    pub fn description(self) -> (r: &'static str)
        ensures
            r@ == self.spec_description(),
    {
        match self {
            ResultViewMode::Table => "按列查看并编辑结果",
            ResultViewMode::Tree => "按行展开字段层级",
            ResultViewMode::Text => "按行查看紧凑文本",
            ResultViewMode::Transpose => "按字段查看当前行",
        }
    }
}

impl Default for ResultViewMode {
    fn default() -> (r: ResultViewMode)
        ensures
            r == ResultViewMode::Table,
    {
        ResultViewMode::Table
    }
}

/// Direction of a column sort.
#[derive(Clone, Copy, Debug, PartialEq, Eq, Structural)]
pub enum SortDir {
    Asc,
    Desc,
}

// ---------------------------------------------------------------------------------------------
// Paging
// ---------------------------------------------------------------------------------------------

/// What is known of the total row count of a paged query.
#[derive(Clone, Copy, Debug, PartialEq, Eq, Structural)]
pub enum TotalRows {
    Known(u64),
    Counting,
    Unavailable,
}

/// Paging position of a result.
#[derive(Clone, Copy, Debug, PartialEq, Eq, Structural)]
pub struct ResultPagination {
    /// Zero-based page index.
    pub page: usize,
    pub page_size: usize,
    /// Whether the database returned more rows than the page holds.
    pub has_more: bool,
    pub total: TotalRows,
}

/// `a + b`, held at `usize::MAX`.
pub open spec fn spec_saturating_add(a: int, b: int) -> int {
    if a + b > usize::MAX {
        usize::MAX as int
    } else {
        a + b
    }
}

/// Text of the total in the page range: the known count, an ellipsis while counting, or the
/// end of the range (with `+` and one more when another page exists).
pub open spec fn spec_total_text(p: ResultPagination, range_end: int) -> Seq<char> {
    match p.total {
        TotalRows::Known(t) => spec_decimal(t as nat),
        TotalRows::Counting => "…"@,
        TotalRows::Unavailable => if p.has_more {
            spec_decimal(spec_saturating_add(range_end, 1) as nat) + "+"@
        } else {
            spec_decimal(range_end as nat)
        },
    }
}

/// `start-end of total` for the rows of the current page; an empty page is `0-0`.
pub open spec fn spec_page_range(p: ResultPagination, row_number_offset: int, total_rows: int) -> Seq<
    char,
> {
    let start = if total_rows == 0 {
        0
    } else {
        spec_saturating_add(row_number_offset, 1)
    };
    let end = if total_rows == 0 {
        0
    } else {
        spec_saturating_add(row_number_offset, total_rows)
    };
    spec_decimal(start as nat) + "-"@ + spec_decimal(end as nat) + " of "@ + spec_total_text(p, end)
}

/// Formats the visible row interval and the strongest bound known for the total.
pub fn format_result_page_range(
    pagination: ResultPagination,
    row_number_offset: usize,
    total_rows: usize,
) -> (r: String)
    ensures
        r@ == spec_page_range(pagination, row_number_offset as int, total_rows as int),
{
    let range_start: usize = if total_rows == 0 {
        0
    } else {
        row_number_offset.saturating_add(1)
    };
    let range_end: usize = if total_rows == 0 {
        0
    } else {
        row_number_offset.saturating_add(total_rows)
    };
    let total = match pagination.total {
        TotalRows::Known(t) => decimal(t),
        TotalRows::Counting => String::from_str("…"),
        TotalRows::Unavailable => if pagination.has_more {
            let d = decimal(range_end.saturating_add(1) as u64);
            cat2(d.as_str(), "+")
        } else {
            decimal(range_end as u64)
        },
    };
    let s = decimal(range_start as u64);
    let e = decimal(range_end as u64);
    let mut out = cat4(s.as_str(), "-", e.as_str(), " of ");
    push_str(&mut out, total.as_str());
    out
}

// ---------------------------------------------------------------------------------------------
// Pager
// ---------------------------------------------------------------------------------------------

/// The page-jump prompt, offered when more than one page is known.
#[derive(Debug)]
pub struct PageJump {
    /// `输入 1-n 的页码`.
    pub hint: String,
    /// One-based number of the current page, filled in as the default.
    pub current_page: usize,
    pub total_pages: u64,
    pub enabled: bool,
}

/// The pager's buttons, each with the page it requests when enabled, and its texts.
#[derive(Debug)]
pub struct PagerControls {
    /// Paging waits while edits are staged or a write runs.
    pub blocked: bool,
    pub first: Option<usize>,
    pub previous: Option<usize>,
    pub next: Option<usize>,
    pub last: Option<usize>,
    pub range: String,
    pub jump: Option<PageJump>,
}

/// `a + 1` held at `usize::MAX`.
pub open spec fn spec_saturating_inc(a: usize) -> usize {
    if a == usize::MAX {
        a
    } else {
        (a + 1) as usize
    }
}

/// The pager for `pagination` with `total_pages` known or not, the current rows starting
/// after `row_number_offset`.
pub fn pager_controls(
    pagination: ResultPagination,
    total_pages: Option<u64>,
    row_number_offset: usize,
    total_rows: usize,
    pending_edit_count: usize,
    dml_busy: bool,
) -> (r: PagerControls)
    ensures
        r.blocked == (pending_edit_count > 0 || dml_busy),
        r.first == (if pagination.page > 0 && !r.blocked {
            Some(0usize)
        } else {
            None
        }),
        r.previous == (if pagination.page > 0 && !r.blocked {
            Some((pagination.page - 1) as usize)
        } else {
            None
        }),
        r.next == (if pagination.has_more && !r.blocked {
            Some(spec_saturating_inc(pagination.page))
        } else {
            None
        }),
        r.last == match total_pages {
            Some(pages) => if pages <= usize::MAX && pagination.page + 1 < pages && !r.blocked {
                Some((pages - 1) as usize)
            } else {
                None
            },
            None => None,
        },
        r.range@ == spec_page_range(pagination, row_number_offset as int, total_rows as int),
        match total_pages {
            Some(pages) => if pages > 1 {
                r.jump is Some && r.jump->0.hint@ == "输入 1-"@ + spec_decimal(pages as nat) + " 的页码"@
                    && r.jump->0.current_page == spec_saturating_inc(pagination.page) && r.jump->0.total_pages
                    == pages && r.jump->0.enabled == !r.blocked
            } else {
                r.jump is None
            },
            None => r.jump is None,
        },
{
    let blocked = pending_edit_count > 0 || dml_busy;
    let has_previous = pagination.page > 0;
    let first = if has_previous && !blocked {
        Some(0usize)
    } else {
        None
    };
    let previous = if has_previous && !blocked {
        Some(pagination.page - 1)
    } else {
        None
    };
    let next = if pagination.has_more && !blocked {
        Some(pagination.page.saturating_add(1))
    } else {
        None
    };
    let last = match total_pages {
        Some(pages) => if pages <= usize::MAX as u64 && pages > 0 && (pagination.page as u64) < pages - 1 && !blocked {
            Some((pages - 1) as usize)
        } else {
            None
        },
        None => None,
    };
    let jump = match total_pages {
        Some(pages) => if pages > 1 {
            let n = decimal(pages);
            Some(
                PageJump {
                    hint: cat3("输入 1-", n.as_str(), " 的页码"),
                    current_page: pagination.page.saturating_add(1),
                    total_pages: pages,
                    enabled: !blocked,
                },
            )
        } else {
            None
        },
        None => None,
    };
    PagerControls {
        blocked,
        first,
        previous,
        next,
        last,
        range: format_result_page_range(pagination, row_number_offset, total_rows),
        jump,
    }
}

/// Whether `c` is an ASCII digit.
pub open spec fn spec_is_digit(c: char) -> bool {
    '0' <= c && c <= '9'
}

/// Value of a string of decimal digits.
pub open spec fn spec_digits_value(s: Seq<char>) -> nat
    decreases s.len(),
{
    if s.len() == 0 {
        0
    } else {
        spec_digits_value(s.drop_last()) * 10 + ((s.last() as u32) - 48) as nat
    }
}

/// The text after an optional leading `+`.
pub open spec fn spec_unsigned_digits(s: Seq<char>) -> Seq<char> {
    if s.len() > 0 && s[0] == '+' {
        s.drop_first()
    } else {
        s
    }
}

/// Whether every character is an ASCII digit.
pub open spec fn spec_all_digits(s: Seq<char>) -> bool {
    forall|i: int| 0 <= i < s.len() ==> spec_is_digit(#[trigger] s[i])
}

/// Reading of an unsigned 64-bit decimal number: an optional `+`, then one or more ASCII
/// digits, with a value that fits in 64 bits (`u64::from_str`).
pub open spec fn spec_parse_u64(s: Seq<char>) -> Option<nat> {
    let digits = spec_unsigned_digits(s);
    if digits.len() == 0 || !spec_all_digits(digits) {
        None
    } else if spec_digits_value(digits) > u64::MAX {
        None
    } else {
        Some(spec_digits_value(digits))
    }
}

proof fn lemma_digits_value_grows(s: Seq<char>, i: int)
    requires
        0 <= i <= s.len(),
        forall|j: int| 0 <= j < s.len() ==> spec_is_digit(#[trigger] s[j]),
    ensures
        spec_digits_value(s.take(i)) <= spec_digits_value(s),
    decreases s.len() - i,
{
    if i < s.len() {
        lemma_digits_value_grows(s, i + 1);
        assert(s.take(i + 1).drop_last() =~= s.take(i));
    } else {
        assert(s.take(i) =~= s);
    }
}

/// Reads an unsigned 64-bit decimal number.
pub fn parse_u64(s: &str) -> (r: Option<u64>)
    ensures
        match r {
            Some(v) => spec_parse_u64(s@) == Some(v as nat),
            None => spec_parse_u64(s@) is None,
        },
{
    let cs = chars_of(s);
    let start: usize = if cs.len() > 0 && cs[0] == '+' {
        1
    } else {
        0
    };
    let ghost digits = spec_unsigned_digits(s@);
    assert(digits =~= cs@.subrange(start as int, cs@.len() as int));
    if start == cs.len() {
        return None;
    }
    let mut i: usize = start;
    while i < cs.len()
        invariant
            start <= i <= cs.len(),
            cs@ == s@,
            digits =~= cs@.subrange(start as int, cs@.len() as int),
            digits == spec_unsigned_digits(s@),
            forall|j: int| start <= j < i ==> spec_is_digit(#[trigger] cs@[j]),
        decreases cs.len() - i,
    {
        if !('0' <= cs[i] && cs[i] <= '9') {
            assert(digits[i - start] == cs@[i as int]);
            assert(!spec_is_digit(digits[i - start]));
            return None;
        }
        i = i + 1;
    }
    assert forall|j: int| 0 <= j < digits.len() implies spec_is_digit(#[trigger] digits[j]) by {
        assert(digits[j] == cs@[j + start]);
    }
    let mut value: u64 = 0;
    let mut k: usize = start;
    while k < cs.len()
        invariant
            start <= k <= cs.len(),
            cs@ == s@,
            digits =~= cs@.subrange(start as int, cs@.len() as int),
            digits == spec_unsigned_digits(s@),
            forall|j: int| 0 <= j < digits.len() ==> spec_is_digit(#[trigger] digits[j]),
            value as nat == spec_digits_value(digits.take(k - start)),
        decreases cs.len() - k,
    {
        assert(digits[k - start] == cs@[k as int]);
        assert(spec_is_digit(digits[k - start]));
        let d = (cs[k] as u32 - 48) as u64;
        assert(digits.take(k - start + 1).drop_last() =~= digits.take(k - start));
        if value > (u64::MAX - d) / 10 {
            proof {
                assert(spec_digits_value(digits.take(k - start + 1)) == value * 10 + d);
                assert(value * 10 + d > u64::MAX) by (nonlinear_arith)
                    requires
                        value > (u64::MAX - d) / 10,
                        d <= 9,
                ;
                lemma_digits_value_grows(digits, k - start + 1);
                assert(spec_digits_value(digits) > u64::MAX);
            }
            return None;
        }
        assert(value * 10 + d <= u64::MAX) by (nonlinear_arith)
            requires
                value <= (u64::MAX - d) / 10,
                d <= 9,
        ;
        value = value * 10 + d;
        k = k + 1;
    }
    assert(digits.take(digits.len() as int) =~= digits);
    Some(value)
}

/// Page index for a typed one-based page number, or the message shown for a bad entry.
pub open spec fn spec_parse_result_page(value: Seq<char>, total_pages: u64) -> Result<int, Seq<char>> {
    match spec_parse_u64(spec_trim(value)) {
        None => Err("页码必须是 1-"@ + spec_decimal(total_pages as nat) + " 的整数"@),
        Some(page) => if page == 0 || page > total_pages {
            Err("页码必须在 1-"@ + spec_decimal(total_pages as nat) + " 范围内"@)
        } else if page - 1 > usize::MAX {
            Err("页码超出当前平台可定位范围"@)
        } else {
            Ok(page - 1)
        },
    }
}

/// Reads a one-based page number typed by the user into a zero-based page index.
pub fn parse_result_page(value: &str, total_pages: u64) -> (r: Result<usize, String>)
    ensures
        match r {
            Ok(p) => spec_parse_result_page(value@, total_pages) == Ok::<int, Seq<char>>(p as int),
            Err(e) => spec_parse_result_page(value@, total_pages) == Err::<int, Seq<char>>(e@),
        },
{
    let t = trim(value);
    let total = decimal(total_pages);
    let page = match parse_u64(t.as_str()) {
        Some(p) => p,
        None => return Err(cat3("页码必须是 1-", total.as_str(), " 的整数")),
    };
    if page == 0 || page > total_pages {
        return Err(cat3("页码必须在 1-", total.as_str(), " 范围内"));
    }
    if page - 1 > usize::MAX as u64 {
        return Err(String::from_str("页码超出当前平台可定位范围"));
    }
    Ok((page - 1) as usize)
}


// ---------------------------------------------------------------------------------------------
// Results
// ---------------------------------------------------------------------------------------------

/// A warning attached to a query result.
#[derive(Debug)]
pub struct QueryWarning {
    /// Where the warning comes from, such as `Client` for limits the client applied.
    pub level: String,
    /// The code the database reported, as text.
    pub code: String,
    pub message: String,
}

/// Ghost model of a warning.
pub struct SpecWarning {
    pub level: Seq<char>,
    pub code: Seq<char>,
    pub message: Seq<char>,
}

impl View for QueryWarning {
    type V = SpecWarning;

    open spec fn view(&self) -> SpecWarning {
        SpecWarning { level: self.level@, code: self.code@, message: self.message@ }
    }
}

/// Views of warnings.
pub open spec fn warnings_view(v: Seq<QueryWarning>) -> Seq<SpecWarning> {
    v.map_values(|w: QueryWarning| w@)
}

/// The parts of a query result that the panel's state logic reads.
#[derive(Debug)]
pub struct QueryResult {
    pub columns: Vec<String>,
    pub affected_rows: u64,
    pub warnings: Vec<QueryWarning>,
}

/// Ghost model of a query result.
pub struct SpecQueryResult {
    pub columns: Seq<Seq<char>>,
    pub affected_rows: u64,
    pub warnings: Seq<SpecWarning>,
}

impl View for QueryResult {
    type V = SpecQueryResult;

    open spec fn view(&self) -> SpecQueryResult {
        SpecQueryResult {
            columns: strings_view(self.columns@),
            affected_rows: self.affected_rows,
            warnings: warnings_view(self.warnings@),
        }
    }
}

/// What the panel shows.
#[derive(Debug)]
pub enum ResultState {
    Empty,
    Running,
    Loaded(QueryResult),
    Error(String),
    /// The result data was dropped to keep memory bounded; the message says why.
    Released(String),
}

/// Ghost model of a result state.
pub enum SpecResultState {
    Empty,
    Running,
    Loaded(SpecQueryResult),
    Error(Seq<char>),
    Released(Seq<char>),
}

impl View for ResultState {
    type V = SpecResultState;

    open spec fn view(&self) -> SpecResultState {
        match self {
            ResultState::Empty => SpecResultState::Empty,
            ResultState::Running => SpecResultState::Running,
            ResultState::Loaded(r) => SpecResultState::Loaded(r@),
            ResultState::Error(e) => SpecResultState::Error(e@),
            ResultState::Released(m) => SpecResultState::Released(m@),
        }
    }
}

/// What the shared result-memory budget answered when this panel's result was registered.
#[derive(Debug)]
pub struct MemoryOutcome {
    /// The budget dropped this panel's result.
    pub current_evicted: bool,
    /// The warning to attach when the budget is nearly used up.
    pub warning: Option<QueryWarning>,
}

/// Ghost model of a memory outcome.
pub struct SpecMemoryOutcome {
    pub current_evicted: bool,
    pub warning: Option<SpecWarning>,
}

impl View for MemoryOutcome {
    type V = SpecMemoryOutcome;

    open spec fn view(&self) -> SpecMemoryOutcome {
        SpecMemoryOutcome {
            current_evicted: self.current_evicted,
            warning: match self.warning {
                Some(w) => Some(w@),
                None => None,
            },
        }
    }
}

/// Message of a result dropped because all tabs together passed the hard memory limit.
pub open spec fn spec_hard_limit_message() -> Seq<char> {
    "结果超过全部标签 512 MiB 硬上限，已释放结果数据；查询文本仍保留，可收窄后重新运行"@
}

/// Message of a result dropped to keep all tabs under the memory budget.
pub open spec fn spec_budget_eviction_message() -> Seq<char> {
    "旧结果已按 LRU 释放，以保持全部标签结果不超过 512 MiB；查询文本仍保留"@
}

/// Words that mark the shared memory warning.
pub open spec fn spec_memory_warning_marker() -> Seq<char> {
    "全部查询标签结果"@
}

/// Whether some warning already carries the shared memory warning.
pub open spec fn spec_has_memory_warning(ws: Seq<SpecWarning>) -> bool {
    exists|i: int| 0 <= i < ws.len() && spec_contains_text(#[trigger] ws[i].message, spec_memory_warning_marker())
}

/// The state to show once the memory budget has answered: released when the budget dropped
/// it, and with the shared memory warning added once to a successful result when warned.
pub open spec fn spec_account_result_memory(
    state: SpecResultState,
    memory: Option<SpecMemoryOutcome>,
) -> SpecResultState {
    match memory {
        None => state,
        Some(o) => if o.current_evicted {
            SpecResultState::Released(spec_hard_limit_message())
        } else {
            match (o.warning, state) {
                (Some(w), SpecResultState::Loaded(r)) => if spec_has_memory_warning(r.warnings) {
                    state
                } else {
                    SpecResultState::Loaded(SpecQueryResult { warnings: r.warnings.push(w), ..r })
                },
                _ => state,
            }
        },
    }
}

fn has_memory_warning(ws: &Vec<QueryWarning>) -> (r: bool)
    ensures
        r == spec_has_memory_warning(warnings_view(ws@)),
{
    let ghost wv = warnings_view(ws@);
    let mut i: usize = 0;
    while i < ws.len()
        invariant
            i <= ws.len(),
            wv == warnings_view(ws@),
            forall|k: int| 0 <= k < i ==> !spec_contains_text(#[trigger] wv[k].message, spec_memory_warning_marker()),
        decreases ws.len() - i,
    {
        assert(wv[i as int].message == ws@[i as int].message@);
        if contains_str(ws[i].message.as_str(), "全部查询标签结果") {
            return true;
        }
        i = i + 1;
    }
    false
}

/// Applies the memory budget's answer to a new result state.
pub fn account_result_memory(state: ResultState, memory: Option<MemoryOutcome>) -> (r: ResultState)
    ensures
        r@ == spec_account_result_memory(
            state@,
            match memory {
                Some(o) => Some(o@),
                None => None,
            },
        ),
{
    match memory {
        None => state,
        Some(o) => {
            if o.current_evicted {
                return ResultState::Released(
                    String::from_str(
                        "结果超过全部标签 512 MiB 硬上限，已释放结果数据；查询文本仍保留，可收窄后重新运行",
                    ),
                );
            }
            match (o.warning, state) {
                (Some(w), ResultState::Loaded(r)) => {
                    if has_memory_warning(&r.warnings) {
                        ResultState::Loaded(r)
                    } else {
                        let mut r = r;
                        let ghost before = warnings_view(r.warnings@);
                        let ghost wv = w@;
                        r.warnings.push(w);
                        assert(warnings_view(r.warnings@) =~= before.push(wv));
                        ResultState::Loaded(r)
                    }
                },
                (_, state) => state,
            }
        },
    }
}

/// Whether the warning comes from the client itself.
pub open spec fn spec_is_client_warning(w: SpecWarning) -> bool {
    w.level == "Client"@
}

/// Whether some warning comes from the client itself.
pub open spec fn spec_any_client_warning(ws: Seq<SpecWarning>) -> bool {
    exists|i: int| 0 <= i && i < ws.len() && #[trigger] spec_is_client_warning(ws[i])
}

/// Whether a result carries a warning from the client itself (a limit it applied).
pub open spec fn spec_has_client_warning(state: SpecResultState) -> bool {
    match state {
        SpecResultState::Loaded(r) => spec_any_client_warning(r.warnings),
        _ => false,
    }
}

fn has_client_warning(state: &ResultState) -> (r: bool)
    ensures
        r == spec_has_client_warning(state@),
{
    match state {
        ResultState::Loaded(result) => {
            let ghost wv = warnings_view(result.warnings@);
            let mut i: usize = 0;
            while i < result.warnings.len()
                invariant
                    i <= result.warnings.len(),
                    wv == warnings_view(result.warnings@),
                    state@ == SpecResultState::Loaded(result@),
                    forall|k: int| 0 <= k < i ==> !#[trigger] spec_is_client_warning(wv[k]),
                decreases result.warnings.len() - i,
            {
                assert(wv[i as int].level == result.warnings@[i as int].level@);
                if crate::text::str_eq(result.warnings[i].level.as_str(), "Client") {
                    assert(wv[i as int].level == "Client"@);
                    let ghost sr = result@;
                    assert(sr.warnings == wv);
                    assert(spec_is_client_warning(sr.warnings[i as int]));
                    assert(spec_any_client_warning(sr.warnings));
                    return true;
                }
                i = i + 1;
            }
            false
        },
        _ => false,
    }
}

fn copy_strings(v: &Vec<String>) -> (r: Vec<String>)
    ensures
        strings_view(r@) == strings_view(v@),
{
    let mut out: Vec<String> = Vec::new();
    let mut i: usize = 0;
    while i < v.len()
        invariant
            i <= v.len(),
            strings_view(out@) == strings_view(v@).take(i as int),
        decreases v.len() - i,
    {
        let ghost before = strings_view(out@);
        let c = v[i].clone();
        assert(c@ == v@[i as int]@);
        out.push(c);
        assert(strings_view(out@) =~= before.push(c@));
        assert(strings_view(v@).take(i + 1) =~= strings_view(v@).take(i as int).push(v@[i as int]@));
        assert(strings_view(out@) =~= strings_view(v@).take(i + 1));
        i = i + 1;
    }
    assert(strings_view(v@).take(v.len() as int) =~= strings_view(v@));
    out
}

// ---------------------------------------------------------------------------------------------
// Sets of row indexes kept in vectors
// ---------------------------------------------------------------------------------------------

/// `s` with `x` added when absent and removed when present.
pub open spec fn spec_toggled(s: Set<usize>, x: usize) -> Set<usize> {
    if s.contains(x) {
        s.remove(x)
    } else {
        s.insert(x)
    }
}

/// Toggling the same index twice gives back the set.
pub proof fn lemma_toggle_twice(s: Set<usize>, x: usize)
    ensures
        spec_toggled(spec_toggled(s, x), x) == s,
{
    assert(spec_toggled(spec_toggled(s, x), x) =~= s);
}

fn remove_all(v: &Vec<usize>, x: usize) -> (r: Vec<usize>)
    ensures
        r@.to_set() == v@.to_set().remove(x),
{
    let mut out: Vec<usize> = Vec::new();
    let mut i: usize = 0;
    while i < v.len()
        invariant
            i <= v.len(),
            forall|y: usize| #[trigger] out@.contains(y) <==> (v@.take(i as int).contains(y) && y != x),
        decreases v.len() - i,
    {
        let ghost before = out@;
        let ghost taken = v@.take(i as int);
        let ghost t1 = v@.take(i + 1);
        assert(t1 =~= taken.push(v@[i as int]));
        if v[i] != x {
            out.push(v[i]);
            assert forall|y: usize| #[trigger] out@.contains(y) <==> (t1.contains(y) && y != x) by {
                if out@.contains(y) {
                    let k = choose|k: int| 0 <= k < out@.len() && out@[k] == y;
                    if k < before.len() {
                        assert(before[k] == y);
                        assert(before.contains(y));
                        assert(taken.contains(y));
                        let m = choose|m: int| 0 <= m < taken.len() && taken[m] == y;
                        assert(t1[m] == y);
                    } else {
                        assert(y == v@[i as int]);
                        assert(t1[i as int] == y);
                    }
                }
                if t1.contains(y) && y != x {
                    let k = choose|k: int| 0 <= k < t1.len() && t1[k] == y;
                    if k < i {
                        assert(taken[k] == y);
                        assert(before.contains(y));
                        let m = choose|m: int| 0 <= m < before.len() && before[m] == y;
                        assert(out@[m] == y);
                    } else {
                        assert(out@[out@.len() - 1] == y);
                    }
                }
            }
        } else {
            assert forall|y: usize| #[trigger] out@.contains(y) <==> (t1.contains(y) && y != x) by {
                if t1.contains(y) && y != x {
                    let k = choose|k: int| 0 <= k < t1.len() && t1[k] == y;
                    assert(k < i);
                    assert(taken[k] == y);
                }
            }
        }
        i = i + 1;
    }
    assert(v@.take(v.len() as int) =~= v@);
    assert(out@.to_set() =~= v@.to_set().remove(x));
    out
}

pub(crate) fn contains_index(v: &Vec<usize>, x: usize) -> (r: bool)
    ensures
        r == v@.contains(x),
{
    let mut i: usize = 0;
    while i < v.len()
        invariant
            i <= v.len(),
            forall|k: int| 0 <= k < i ==> v@[k] != x,
        decreases v.len() - i,
    {
        if v[i] == x {
            return true;
        }
        i = i + 1;
    }
    false
}

/// Whether `v` is strictly ascending: sorted, with no value twice.
pub open spec fn spec_strictly_ascending(v: Seq<usize>) -> bool {
    forall|i: int, j: int| 0 <= i < j < v.len() ==> v[i] < v[j]
}

/// Adds `x` to a strictly ascending list at its place, unless it is already there.
#[verifier::spinoff_prover]
pub fn insert_ascending(out: &mut Vec<usize>, x: usize)
    requires
        spec_strictly_ascending(old(out)@),
    ensures
        spec_strictly_ascending(final(out)@),
        forall|y: usize| final(out)@.contains(y) <==> (old(out)@.contains(y) || y == x),
{
    let ghost before = out@;
    assert(before == old(out)@);
    let mut p: usize = 0;
    while p < out.len() && out[p] < x
        invariant
            p <= out@.len(),
            out@ == before,
            forall|k: int| 0 <= k < p ==> out@[k] < x,
        decreases out@.len() - p,
    {
        p = p + 1;
    }
    if p < out.len() && out[p] == x {
        assert(out@[p as int] == x);
        assert forall|y: usize| out@.contains(y) <==> (old(out)@.contains(y) || y == x) by {
            if y == x {
                assert(out@[p as int] == y);
            }
        }
    } else {
        out.insert(p, x);
        assert(out@ == before.insert(p as int, x));
        assert forall|a: int, b: int| 0 <= a < b < out@.len() implies out@[a] < out@[b] by {
            if p < before.len() {
                assert(before[p as int] > x);
            }
            if a < p && b < p {
                assert(out@[a] == before[a] && out@[b] == before[b]);
            } else if a < p && b == p {
            } else if a < p && b > p {
                assert(out@[b] == before[b - 1]);
                assert(before[b - 1] >= before[p as int]);
            } else if a == p {
                assert(out@[b] == before[b - 1]);
                assert(before[b - 1] >= before[p as int]);
            } else {
                assert(out@[a] == before[a - 1] && out@[b] == before[b - 1]);
            }
        }
        assert forall|y: usize| out@.contains(y) <==> (before.contains(y) || y == x) by {
            if out@.contains(y) {
                let k = choose|k: int| 0 <= k < out@.len() && out@[k] == y;
                if k < p {
                    assert(before[k] == y);
                } else if k > p {
                    assert(before[k - 1] == y);
                }
            }
            if before.contains(y) {
                let k = choose|k: int| 0 <= k < before.len() && before[k] == y;
                if k < p {
                    assert(out@[k] == y);
                } else {
                    assert(out@[k + 1] == y);
                }
            }
            if y == x {
                assert(out@[p as int] == x);
            }
        }
    }
    assert(forall|y: usize| out@.contains(y) <==> (old(out)@.contains(y) || y == x));
}

/// The values of `v` in ascending order, each once.
pub fn sorted_unique(v: &Vec<usize>) -> (r: Vec<usize>)
    ensures
        spec_strictly_ascending(r@),
        r@.to_set() == v@.to_set(),
{
    let mut out: Vec<usize> = Vec::new();
    let mut i: usize = 0;
    while i < v.len()
        invariant
            i <= v@.len(),
            spec_strictly_ascending(out@),
            forall|y: usize| out@.contains(y) <==> v@.take(i as int).contains(y),
        decreases v@.len() - i,
    {
        let ghost t0 = v@.take(i as int);
        let ghost t1 = v@.take(i + 1);
        assert forall|y: usize| t1.contains(y) <==> (t0.contains(y) || y == v@[i as int]) by {
            if t1.contains(y) {
                let k = choose|k: int| 0 <= k < t1.len() && t1[k] == y;
                if k < i {
                    assert(t0[k] == y);
                }
            }
            if t0.contains(y) {
                let k = choose|k: int| 0 <= k < t0.len() && t0[k] == y;
                assert(t1[k] == y);
            }
            if y == v@[i as int] {
                assert(t1[i as int] == y);
            }
        }
        insert_ascending(&mut out, v[i]);
        i = i + 1;
    }
    assert(v@.take(v@.len() as int) =~= v@);
    assert(out@.to_set() =~= v@.to_set());
    out
}

/// Adds `x` when absent and removes it when present; the list comes out in ascending order,
/// each value once.
pub fn toggle_member(v: &mut Vec<usize>, x: usize)
    ensures
        final(v)@.to_set() == spec_toggled(old(v)@.to_set(), x),
        spec_strictly_ascending(final(v)@),
{
    if contains_index(v, x) {
        let r = remove_all(v, x);
        *v = r;
    } else {
        let ghost before = v@;
        v.push(x);
        assert(v@.to_set() =~= before.to_set().insert(x)) by {
            assert forall|y: usize| v@.contains(y) implies before.contains(y) || y == x by {
                let k = choose|k: int| 0 <= k < v@.len() && v@[k] == y;
                if k < before.len() {
                    assert(before[k] == y);
                }
            }
            assert forall|y: usize| before.contains(y) implies v@.contains(y) by {
                let k = choose|k: int| 0 <= k < before.len() && before[k] == y;
                assert(v@[k] == y);
            }
            assert(v@[v@.len() - 1] == x);
        }
    }
    let r = sorted_unique(v);
    *v = r;
}


// ---------------------------------------------------------------------------------------------
// Query plan view state
// ---------------------------------------------------------------------------------------------

/// How a query plan is shown.
#[derive(Clone, Copy, Debug, PartialEq, Eq, Structural)]
pub enum PlanViewMode {
    Tree,
    Raw,
}

/// One row of a parsed query plan tree.
#[derive(Debug)]
pub struct PlanRow {
    pub id: usize,
    /// Index of the parent row, which comes earlier in the list.
    pub parent: Option<usize>,
    pub depth: usize,
    pub label: String,
    pub detail: Option<String>,
    pub is_detail: bool,
    pub has_children: bool,
}

/// Plan display state of the panel.
#[derive(Debug)]
pub struct PlanState {
    pub enabled: bool,
    pub view_mode: PlanViewMode,
    pub tree: Option<Vec<PlanRow>>,
    pub parse_attempted: bool,
    /// Indexes of collapsed plan rows.
    pub collapsed: Vec<usize>,
}

impl PlanState {
    /// Plan mode off, tree view, nothing parsed.
    pub fn new() -> (r: PlanState)
        ensures
            !r.enabled,
            r.view_mode == PlanViewMode::Tree,
            r.tree is None,
            !r.parse_attempted,
            r.collapsed@.len() == 0,
    {
        PlanState {
            enabled: false,
            view_mode: PlanViewMode::Tree,
            tree: None,
            parse_attempted: false,
            collapsed: Vec::new(),
        }
    }

    /// Forgets the plan of the previous result; plan mode stays as it was.
    pub fn reset_result(&mut self)
        ensures
            final(self).collapsed@.len() == 0,
            *final(self) == (PlanState {
                view_mode: PlanViewMode::Tree,
                tree: None,
                parse_attempted: false,
                collapsed: final(self).collapsed,
                ..*old(self)
            }),
    {
        self.view_mode = PlanViewMode::Tree;
        self.tree = None;
        self.parse_attempted = false;
        self.collapsed = Vec::new();
    }

    /// Collapses or expands a plan row.
    pub fn toggle_plan_node(&mut self, node_id: usize)
        ensures
            final(self).collapsed@.to_set() == spec_toggled(old(self).collapsed@.to_set(), node_id),
            final(self).enabled == old(self).enabled,
            final(self).view_mode == old(self).view_mode,
    {
        toggle_member(&mut self.collapsed, node_id);
    }
}

/// Whether row `i` is hidden: some ancestor is collapsed.
pub open spec fn spec_plan_hidden(parents: Seq<Option<usize>>, collapsed: Set<usize>, i: int) -> bool
    decreases i,
{
    if i < 0 || i >= parents.len() {
        false
    } else {
        match parents[i] {
            None => false,
            Some(p) => if p < i {
                spec_plan_hidden(parents, collapsed, p as int) || collapsed.contains(p)
            } else {
                collapsed.contains(p)
            },
        }
    }
}

/// Parent indexes of plan rows.
pub open spec fn plan_parents(rows: Seq<PlanRow>) -> Seq<Option<usize>> {
    rows.map_values(|r: PlanRow| r.parent)
}

/// Indexes of the rows that no collapsed ancestor hides, in order.
pub open spec fn spec_visible_plan_indices(parents: Seq<Option<usize>>, collapsed: Set<usize>, n: int) -> Seq<
    usize,
>
    decreases n,
{
    if n <= 0 {
        Seq::empty()
    } else {
        spec_visible_plan_indices(parents, collapsed, n - 1) + (if spec_plan_hidden(
            parents,
            collapsed,
            n - 1,
        ) {
            Seq::empty()
        } else {
            seq![(n - 1) as usize]
        })
    }
}

/// Rows of a plan tree that stay visible when the `collapsed` rows hide their descendants.
pub fn visible_plan_indices(rows: &Vec<PlanRow>, collapsed: &Vec<usize>) -> (r: Vec<usize>)
    requires
        forall|i: int| 0 <= i < rows.len() ==> match #[trigger] rows@[i].parent {
            Some(p) => p < rows.len(),
            None => true,
        },
    ensures
        r@ == spec_visible_plan_indices(plan_parents(rows@), collapsed@.to_set(), rows.len() as int),
{
    let ghost parents = plan_parents(rows@);
    let mut hidden: Vec<bool> = Vec::new();
    let mut visible: Vec<usize> = Vec::new();
    let mut i: usize = 0;
    while i < rows.len()
        invariant
            i <= rows.len(),
            parents == plan_parents(rows@),
            forall|k: int| 0 <= k < rows.len() ==> match #[trigger] rows@[k].parent {
                Some(p) => p < rows.len(),
                None => true,
            },
            hidden@.len() == i,
            forall|k: int| 0 <= k < i ==> #[trigger] hidden@[k] == spec_plan_hidden(parents, collapsed@.to_set(), k),
            visible@ == spec_visible_plan_indices(parents, collapsed@.to_set(), i as int),
        decreases rows.len() - i,
    {
        assert(parents[i as int] == rows@[i as int].parent);
        let hidden_by_parent = match rows[i].parent {
            Some(p) => {
                let above = if p < hidden.len() {
                    hidden[p]
                } else {
                    false
                };
                above || contains_index(collapsed, p)
            },
            None => false,
        };
        assert(hidden_by_parent == spec_plan_hidden(parents, collapsed@.to_set(), i as int));
        hidden.push(hidden_by_parent);
        if !hidden_by_parent {
            visible.push(i);
        }
        assert(visible@ =~= spec_visible_plan_indices(parents, collapsed@.to_set(), i + 1));
        i = i + 1;
    }
    visible
}

// ---------------------------------------------------------------------------------------------
// Panel state
// ---------------------------------------------------------------------------------------------

/// Columns that locate one row for an in-place UPDATE or DELETE.
#[derive(Debug)]
pub struct RowIdentity {
    /// Key columns, in index order for a composite key.
    pub columns: Vec<String>,
    /// How the key was found: `主键` or `唯一键`.
    pub label: String,
}

/// A cell edit staged but not yet written; `None` is SQL `NULL`.
#[derive(Debug)]
pub struct PendingCellEdit {
    pub row: usize,
    pub column: usize,
    pub original: Option<String>,
    pub current: Option<String>,
}

/// Severity of a toast shown by the panel.
#[derive(Clone, Copy, Debug, PartialEq, Eq, Structural)]
pub enum NoticeLevel {
    Info,
    Success,
    Warning,
    Error,
}

/// A toast the panel asks its window to show.
#[derive(Debug)]
pub struct Notice {
    pub level: NoticeLevel,
    pub message: String,
    pub autohide: bool,
}

/// A sort change the panel reports to its owner.
#[derive(Clone, Copy, Debug)]
pub struct SortChange {
    pub previous: Option<(usize, SortDir)>,
    pub current: Option<(usize, SortDir)>,
    /// Request number of the display-view build to cancel, if one was running.
    pub cancelled_build: Option<u64>,
}

/// The next sort after a click on column `col`: ascending, then descending, then none; a
/// click on another column starts ascending.
pub open spec fn spec_next_sort(previous: Option<(usize, SortDir)>, col: usize) -> Option<(usize, SortDir)> {
    match previous {
        Some((ci, SortDir::Asc)) if ci == col => Some((col, SortDir::Desc)),
        Some((ci, SortDir::Desc)) if ci == col => None,
        _ => Some((col, SortDir::Asc)),
    }
}

fn sort_eq(a: Option<(usize, SortDir)>, b: Option<(usize, SortDir)>) -> (r: bool)
    ensures
        r == (a == b),
{
    match (a, b) {
        (None, None) => true,
        (Some((x, dx)), Some((y, dy))) => x == y && dx == dy,
        _ => false,
    }
}

/// State of the result panel.
#[derive(Debug)]
pub struct ResultPanel {
    pub state: ResultState,
    /// SQL that produced the result.
    pub source_sql: Option<String>,
    pub source_schema: Option<String>,
    /// Result kept to compare the current one against.
    pub comparison_baseline: Option<QueryResult>,
    /// Schema (when known) and table the result was pinned to for export.
    pub pinned_target: Option<(Option<String>, String)>,
    /// Column names offered to the SQL completion.
    pub column_completion_source: Vec<String>,
    pub pending_cell_edits: Vec<PendingCellEdit>,
    pub pagination: Option<ResultPagination>,
    /// Bumped whenever the result changes; derived views compare against it.
    pub result_revision: u64,
    pub display_view_request_seq: u64,
    /// Sorted and filtered row order derived from the result.
    pub display_view_cache: Option<Vec<usize>>,
    pub display_view_build_key: Option<u64>,
    pub display_view_building: bool,
    pub display_view_error: Option<String>,
    /// Request number of a display-view build that can still be cancelled.
    pub display_view_cancel: Option<u64>,
    pub editing_cell: Option<(usize, usize)>,
    pub cell_edit_input: Option<String>,
    pub selected_cell: Option<(usize, usize)>,
    /// Selected row indexes.
    pub selected_rows: Vec<usize>,
    pub selection_revision: u64,
    pub sort_by: Option<(usize, SortDir)>,
    /// Column widths set by dragging, in pixels.
    pub col_width_overrides: Vec<Option<u32>>,
    /// Column names of a draft row being inserted.
    pub pending_insert: Option<Vec<String>>,
    pub plan: PlanState,
    /// Rows expanded in the tree view.
    pub tree_expanded_rows: Vec<usize>,
    pub warnings_expanded: bool,
    pub row_identity: Option<RowIdentity>,
    pub view_mode: ResultViewMode,
    /// A write to the database is running.
    pub dml_busy: bool,
    /// An export of selected rows is running.
    pub exporting: bool,
    pub pending_notification: Option<Notice>,
    /// Text of the column filter input.
    pub column_filter: String,
    /// Text of the row (content) filter input.
    pub row_filter: String,
    /// The grid should return to its first row and column.
    pub scroll_reset: bool,
}

/// `x + 1`, wrapping at `u64::MAX`.
pub open spec fn spec_wrapping_inc(x: u64) -> u64 {
    if x == u64::MAX {
        0
    } else {
        (x + 1) as u64
    }
}

/// The warning shown when a sort or view switch would drop staged edits.
pub open spec fn spec_pending_edits_sort_message() -> Seq<char> {
    "请先提交或撤销未提交单元格修改，再排序结果"@
}

impl ResultPanel {
    /// An empty panel in table mode.
    pub fn new() -> (r: ResultPanel)
        ensures
            r.state is Empty,
            r.source_sql is None,
            r.selected_rows@.len() == 0,
            r.sort_by is None,
            r.pagination is None,
            r.view_mode == ResultViewMode::Table,
            r.result_revision == 0,
            r.pending_cell_edits@.len() == 0,
            r.column_filter@.len() == 0,
            r.row_filter@.len() == 0,
    {
        ResultPanel {
            state: ResultState::Empty,
            source_sql: None,
            source_schema: None,
            comparison_baseline: None,
            pinned_target: None,
            column_completion_source: Vec::new(),
            pending_cell_edits: Vec::new(),
            pagination: None,
            result_revision: 0,
            display_view_request_seq: 0,
            display_view_cache: None,
            display_view_build_key: None,
            display_view_building: false,
            display_view_error: None,
            display_view_cancel: None,
            editing_cell: None,
            cell_edit_input: None,
            selected_cell: None,
            selected_rows: Vec::new(),
            selection_revision: 0,
            sort_by: None,
            col_width_overrides: Vec::new(),
            pending_insert: None,
            plan: PlanState::new(),
            tree_expanded_rows: Vec::new(),
            warnings_expanded: false,
            row_identity: None,
            view_mode: ResultViewMode::Table,
            dml_busy: false,
            exporting: false,
            pending_notification: None,
            column_filter: String::new(),
            row_filter: String::new(),
            scroll_reset: false,
        }
    }

    /// Records the SQL that produced the result.
    pub fn set_source_sql(&mut self, sql: Option<String>)
        ensures
            *final(self) == (ResultPanel { source_sql: sql, ..*old(self) }),
    {
        self.source_sql = sql;
    }

    /// Records the schema the result was read from.
    pub fn set_source_schema(&mut self, schema: Option<String>)
        ensures
            *final(self) == (ResultPanel { source_schema: schema, ..*old(self) }),
    {
        self.source_schema = schema;
    }

    /// SQL that produced the result.
    pub fn source_sql(&self) -> (r: Option<String>)
        ensures
            crate::domain::opt_view(r) == crate::domain::opt_view(self.source_sql),
    {
        crate::domain::copy_opt_text(&self.source_sql)
    }

    /// Schema the result was read from.
    pub fn source_schema(&self) -> (r: Option<String>)
        ensures
            crate::domain::opt_view(r) == crate::domain::opt_view(self.source_schema),
    {
        crate::domain::copy_opt_text(&self.source_schema)
    }

    /// Revision of the shown result.
    pub fn result_revision(&self) -> (r: u64)
        ensures
            r == self.result_revision,
    {
        self.result_revision
    }

    /// Whether a comparison baseline is kept.
    pub fn has_comparison_baseline(&self) -> (r: bool)
        ensures
            r == self.comparison_baseline is Some,
    {
        self.comparison_baseline.is_some()
    }

    /// Whether the shown result can become a comparison baseline.
    pub fn can_capture_comparison_baseline(&self) -> (r: bool)
        ensures
            r == self.state is Loaded,
    {
        match &self.state {
            ResultState::Loaded(_) => true,
            _ => false,
        }
    }

    /// Drops the inline cell editor.
    pub fn clear_cell_edit_state(&mut self)
        ensures
            *final(self) == (ResultPanel { editing_cell: None, cell_edit_input: None, ..*old(self) }),
    {
        self.cell_edit_input = None;
        self.editing_cell = None;
    }

    /// Stops a running display-view build; the caller signals the returned request, if any.
    pub fn cancel_display_view_build(&mut self) -> (r: Option<u64>)
        ensures
            r == old(self).display_view_cancel,
            *final(self) == (ResultPanel { display_view_cancel: None, ..*old(self) }),
    {
        let r = self.display_view_cancel;
        self.display_view_cancel = None;
        r
    }

    /// Drops every view derived from the result and cancels a running build.
    pub fn invalidate_display_view(&mut self) -> (cancelled: Option<u64>)
        ensures
            cancelled == old(self).display_view_cancel,
            *final(self) == (ResultPanel {
                display_view_cancel: None,
                display_view_request_seq: spec_wrapping_inc(old(self).display_view_request_seq),
                display_view_cache: None,
                display_view_build_key: None,
                display_view_building: false,
                display_view_error: None,
                ..*old(self)
            }),
    {
        let cancelled = self.cancel_display_view_build();
        self.display_view_request_seq = self.display_view_request_seq.wrapping_add(1);
        self.display_view_cache = None;
        self.display_view_build_key = None;
        self.display_view_building = false;
        self.display_view_error = None;
        cancelled
    }

    /// Marks the result as changed: its revision moves on and derived views are dropped.
    pub fn mark_result_changed(&mut self) -> (cancelled: Option<u64>)
        ensures
            cancelled == old(self).display_view_cancel,
            *final(self) == (ResultPanel {
                result_revision: spec_wrapping_inc(old(self).result_revision),
                display_view_cancel: None,
                display_view_request_seq: spec_wrapping_inc(old(self).display_view_request_seq),
                display_view_cache: None,
                display_view_build_key: None,
                display_view_building: false,
                display_view_error: None,
                ..*old(self)
            }),
    {
        self.result_revision = self.result_revision.wrapping_add(1);
        self.invalidate_display_view()
    }

    /// Forgets what tied the panel to the released result: its SQL, schema, baseline, pinned
    /// target, staged edits, editor and row identity.
    pub fn clear_released_result_context(&mut self)
        ensures
            final(self).pending_cell_edits@.len() == 0,
            *final(self) == (ResultPanel {
                source_sql: None,
                source_schema: None,
                comparison_baseline: None,
                pinned_target: None,
                pending_cell_edits: final(self).pending_cell_edits,
                editing_cell: None,
                cell_edit_input: None,
                row_identity: None,
                ..*old(self)
            }),
    {
        self.source_sql = None;
        self.source_schema = None;
        self.comparison_baseline = None;
        self.pinned_target = None;
        self.pending_cell_edits = Vec::new();
        self.clear_cell_edit_state();
        self.row_identity = None;
    }

    /// The selected row indexes.
    pub fn selected_rows(&self) -> (r: &Vec<usize>)
        ensures
            r == &self.selected_rows,
    {
        &self.selected_rows
    }

    /// Moves the selection revision on and drops what was computed from the old selection.
    pub fn mark_selection_changed(&mut self)
        ensures
            *final(self) == (ResultPanel {
                selection_revision: spec_wrapping_inc(old(self).selection_revision),
                ..*old(self)
            }),
    {
        self.selection_revision = self.selection_revision.wrapping_add(1);
    }

    /// Selects or unselects one row.
    pub fn toggle_row_selected(&mut self, ri: usize)
        ensures
            final(self).selected_rows@.to_set() == spec_toggled(old(self).selected_rows@.to_set(), ri),
            spec_strictly_ascending(final(self).selected_rows@),
            spec_view_only_change(*old(self), *final(self)),
            *final(self) == (ResultPanel {
                selected_rows: final(self).selected_rows,
                selection_revision: spec_wrapping_inc(old(self).selection_revision),
                ..*old(self)
            }),
    {
        toggle_member(&mut self.selected_rows, ri);
        self.mark_selection_changed();
    }

    /// Unselects every row.
    pub fn clear_selected_rows(&mut self)
        ensures
            final(self).selected_rows@.len() == 0,
            *final(self) == (ResultPanel {
                selected_rows: final(self).selected_rows,
                selection_revision: spec_wrapping_inc(old(self).selection_revision),
                ..*old(self)
            }),
    {
        self.selected_rows = Vec::new();
        self.mark_selection_changed();
    }

    /// Expands or collapses one row of the tree view.
    pub fn toggle_tree_row(&mut self, row_index: usize)
        ensures
            final(self).tree_expanded_rows@.to_set() == spec_toggled(
                old(self).tree_expanded_rows@.to_set(),
                row_index,
            ),
            spec_strictly_ascending(final(self).tree_expanded_rows@),
            *final(self) == (ResultPanel { tree_expanded_rows: final(self).tree_expanded_rows, ..*old(self) }),
    {
        toggle_member(&mut self.tree_expanded_rows, row_index);
    }

    /// Whether a row of the tree view is expanded.
    pub fn tree_row_expanded(&self, row_index: usize) -> (r: bool)
        ensures
            r == self.tree_expanded_rows@.contains(row_index),
    {
        contains_index(&self.tree_expanded_rows, row_index)
    }

    /// The current sort.
    pub fn sort_by(&self) -> (r: Option<(usize, SortDir)>)
        ensures
            r == self.sort_by,
    {
        self.sort_by
    }

    /// Cycles the sort of a column. Refused, with a warning, while a write runs or edits are
    /// staged; otherwise the editor and the selected cell are dropped and the change is
    /// reported.
    pub fn toggle_sort(&mut self, col_idx: usize) -> (r: Option<SortChange>)
        ensures
            old(self).dml_busy ==> r is None && final(self).sort_by == old(self).sort_by
                && final(self).pending_notification is Some
                && final(self).pending_notification.unwrap().message@
                == "上一写操作尚未完成，请稍候再排序结果"@,
            !old(self).dml_busy && old(self).pending_cell_edits@.len() > 0 ==> r is None
                && final(self).sort_by == old(self).sort_by
                && final(self).pending_notification is Some
                && final(self).pending_notification.unwrap().message@ == spec_pending_edits_sort_message(),
            !old(self).dml_busy && old(self).pending_cell_edits@.len() == 0 ==> r == Some(
                SortChange {
                    previous: old(self).sort_by,
                    current: spec_next_sort(old(self).sort_by, col_idx),
                    cancelled_build: old(self).display_view_cancel,
                },
            ) && final(self).sort_by == spec_next_sort(old(self).sort_by, col_idx)
                && final(self).editing_cell is None && final(self).selected_cell is None
                && final(self).display_view_cache is None && final(self).pending_notification
                == old(self).pending_notification,
            final(self).state == old(self).state,
            final(self).selected_rows == old(self).selected_rows,
            final(self).pending_cell_edits == old(self).pending_cell_edits,
            final(self).result_revision == old(self).result_revision,
    {
        if self.dml_busy {
            self.pending_notification = Some(
                Notice {
                    level: NoticeLevel::Warning,
                    message: String::from_str("上一写操作尚未完成，请稍候再排序结果"),
                    autohide: true,
                },
            );
            return None;
        }
        if self.pending_cell_edits.len() > 0 {
            self.pending_notification = Some(
                Notice {
                    level: NoticeLevel::Warning,
                    message: String::from_str("请先提交或撤销未提交单元格修改，再排序结果"),
                    autohide: true,
                },
            );
            return None;
        }
        let previous = self.sort_by;
        let current = match previous {
            Some((ci, SortDir::Asc)) => if ci == col_idx {
                Some((col_idx, SortDir::Desc))
            } else {
                Some((col_idx, SortDir::Asc))
            },
            Some((ci, SortDir::Desc)) => if ci == col_idx {
                None
            } else {
                Some((col_idx, SortDir::Asc))
            },
            None => Some((col_idx, SortDir::Asc)),
        };
        self.sort_by = current;
        self.clear_cell_edit_state();
        self.selected_cell = None;
        let cancelled_build = self.invalidate_display_view();
        Some(SortChange { previous, current, cancelled_build })
    }

    /// Puts back a sort remembered elsewhere; derived views are dropped only when it differs.
    pub fn restore_sort(&mut self, sort_by: Option<(usize, SortDir)>) -> (cancelled: Option<u64>)
        ensures
            cancelled == if old(self).sort_by == sort_by {
                None
            } else {
                old(self).display_view_cancel
            },
            final(self).sort_by == sort_by,
            old(self).sort_by == sort_by ==> *final(self) == *old(self),
            old(self).sort_by != sort_by ==> *final(self) == (ResultPanel {
                sort_by,
                display_view_cancel: None,
                display_view_request_seq: spec_wrapping_inc(old(self).display_view_request_seq),
                display_view_cache: None,
                display_view_build_key: None,
                display_view_building: false,
                display_view_error: None,
                ..*old(self)
            }),
            final(self).state == old(self).state,
            final(self).selected_rows == old(self).selected_rows,
    {
        if sort_eq(self.sort_by, sort_by) {
            return None;
        }
        self.sort_by = sort_by;
        self.invalidate_display_view()
    }

    /// Switches the renderer. Leaving the table with staged edits is refused with a warning;
    /// a switch never runs a query.
    pub fn set_view_mode(&mut self, mode: ResultViewMode)
        ensures
            old(self).view_mode == mode ==> *final(self) == *old(self),
            old(self).view_mode != mode && mode != ResultViewMode::Table
                && old(self).pending_cell_edits@.len() > 0 ==> final(self).view_mode == old(self).view_mode
                && final(self).pending_notification is Some
                && final(self).pending_notification.unwrap().message@
                == "请先提交或撤销未提交单元格修改，再切换结果视图"@,
            old(self).view_mode != mode && mode != ResultViewMode::Table
                && old(self).pending_cell_edits@.len() > 0 ==> *final(self) == (ResultPanel {
                pending_notification: final(self).pending_notification,
                ..*old(self)
            }),
            old(self).view_mode != mode && (mode == ResultViewMode::Table
                || old(self).pending_cell_edits@.len() == 0) ==> *final(self) == (ResultPanel {
                view_mode: mode,
                editing_cell: None,
                cell_edit_input: None,
                scroll_reset: true,
                ..*old(self)
            }),
            final(self).state == old(self).state,
            final(self).pending_cell_edits == old(self).pending_cell_edits,
            final(self).selected_rows == old(self).selected_rows,
            final(self).sort_by == old(self).sort_by,
            spec_view_only_change(*old(self), *final(self)),
    {
        if self.view_mode == mode {
            return;
        }
        if mode != ResultViewMode::Table && self.pending_cell_edits.len() > 0 {
            self.pending_notification = Some(
                Notice {
                    level: NoticeLevel::Warning,
                    message: String::from_str("请先提交或撤销未提交单元格修改，再切换结果视图"),
                    autohide: true,
                },
            );
            return;
        }
        self.view_mode = mode;
        self.clear_cell_edit_state();
        self.scroll_reset = true;
    }

    /// The current renderer.
    pub fn view_mode(&self) -> (r: ResultViewMode)
        ensures
            r == self.view_mode,
    {
        self.view_mode
    }

    /// Why the display view could not be built, if it failed.
    pub fn display_view_error(&self) -> (r: &Option<String>)
        ensures
            r == &self.display_view_error,
    {
        &self.display_view_error
    }

    /// The paging position.
    pub fn pagination(&self) -> (r: Option<ResultPagination>)
        ensures
            r == self.pagination,
    {
        self.pagination
    }

    /// Sets the paging position.
    pub fn set_pagination(&mut self, pagination: Option<ResultPagination>)
        ensures
            *final(self) == (ResultPanel { pagination, ..*old(self) }),
    {
        if self.pagination == pagination {
            return;
        }
        self.pagination = pagination;
    }

    /// Fills in the total row count while the result is still paged.
    pub fn set_pagination_total(&mut self, total: TotalRows)
        ensures
            old(self).pagination is None ==> final(self).pagination is None,
            old(self).pagination is Some ==> final(self).pagination == Some(
                ResultPagination { total, ..old(self).pagination.unwrap() },
            ),
            final(self).state == old(self).state,
    {
        match self.pagination {
            None => {},
            Some(p) => {
                if p.total == total {
                    return;
                }
                self.pagination = Some(ResultPagination { total, ..p });
            },
        }
    }

    /// Shows a result-toolbar error without starting a database request.
    pub fn notify_result_error(&mut self, message: String)
        ensures
            *final(self) == (ResultPanel {
                pending_notification: Some(Notice { level: NoticeLevel::Error, message, autohide: true }),
                ..*old(self)
            }),
    {
        self.pending_notification = Some(Notice { level: NoticeLevel::Error, message, autohide: true });
    }

    /// Shows an error about the page size.
    pub fn notify_page_size_error(&mut self, message: String)
        ensures
            *final(self) == (ResultPanel {
                pending_notification: Some(Notice { level: NoticeLevel::Error, message, autohide: true }),
                ..*old(self)
            }),
    {
        self.notify_result_error(message);
    }

    /// The selected cell as (row, column).
    pub fn selected_cell(&self) -> (r: Option<(usize, usize)>)
        ensures
            r == self.selected_cell,
    {
        self.selected_cell
    }

    /// Selects a cell, or none.
    pub fn set_selected_cell(&mut self, cell: Option<(usize, usize)>)
        ensures
            *final(self) == (ResultPanel { selected_cell: cell, ..*old(self) }),
            spec_view_only_change(*old(self), *final(self)),
    {
        self.selected_cell = cell;
    }

    /// Empties the column filter; the content search is a user condition and stays.
    pub fn clear_column_filter(&mut self)
        ensures
            final(self).column_filter@.len() == 0,
            *final(self) == (ResultPanel { column_filter: final(self).column_filter, ..*old(self) }),
    {
        self.column_filter = String::new();
    }

    /// Trimmed column filter text.
    pub fn column_filter_text(&self) -> (r: String)
        ensures
            r@ == spec_trim(self.column_filter@),
    {
        trim(self.column_filter.as_str())
    }

    /// Trimmed content filter text.
    pub fn row_filter_text(&self) -> (r: String)
        ensures
            r@ == spec_trim(self.row_filter@),
    {
        trim(self.row_filter.as_str())
    }

    /// The column filter input.
    pub fn column_filter_entity(&self) -> (r: &String)
        ensures
            r == &self.column_filter,
    {
        &self.column_filter
    }

    /// The content filter input.
    pub fn row_filter_entity(&self) -> (r: &String)
        ensures
            r == &self.row_filter,
    {
        &self.row_filter
    }

    /// What the panel shows.
    pub fn state(&self) -> (r: &ResultState)
        ensures
            r == &self.state,
    {
        &self.state
    }

    /// Opens the inline editor on a cell with its text; an editor already open is dropped.
    pub fn begin_cell_edit(&mut self, ri: usize, ci: usize, initial_text: String)
        ensures
            *final(self) == (ResultPanel {
                editing_cell: Some((ri, ci)),
                cell_edit_input: Some(initial_text),
                ..*old(self)
            }),
    {
        self.clear_cell_edit_state();
        self.editing_cell = Some((ri, ci));
        self.cell_edit_input = Some(initial_text);
    }

    /// Closes the inline editor without staging anything; returns whether one was open.
    pub fn cancel_inline_cell_edit(&mut self) -> (r: bool)
        ensures
            r == old(self).editing_cell is Some,
            r ==> *final(self) == (ResultPanel { editing_cell: None, cell_edit_input: None, ..*old(self) }),
            !r ==> *final(self) == *old(self),
    {
        if self.editing_cell.is_none() {
            return false;
        }
        self.clear_cell_edit_state();
        true
    }

    /// Replaces the editor's text, or closes the editor when there is none.
    pub fn set_cell_edit_input(&mut self, input: Option<String>)
        ensures
            match input {
                Some(t) => *final(self) == (ResultPanel { cell_edit_input: Some(t), ..*old(self) }),
                None => *final(self) == (ResultPanel { editing_cell: None, cell_edit_input: None, ..*old(self) }),
            },
    {
        match input {
            Some(t) => self.cell_edit_input = Some(t),
            None => self.clear_cell_edit_state(),
        }
    }

    /// Label of how rows are located for writes; a primary key when unknown.
    pub fn identity_label(&self) -> (r: String)
        ensures
            r@ == match self.row_identity {
                Some(i) => i.label@,
                None => "主键"@,
            },
    {
        match &self.row_identity {
            Some(i) => i.label.clone(),
            None => String::from_str("主键"),
        }
    }
}


/// Whether a state is a released one.
pub open spec fn spec_is_released(state: SpecResultState) -> bool {
    state is Released
}

/// Column names offered to completion for a state: the result's columns, or none.
pub open spec fn spec_completion_columns(state: SpecResultState) -> Seq<Seq<char>> {
    match state {
        SpecResultState::Loaded(r) => r.columns,
        _ => Seq::empty(),
    }
}

impl ResultPanel {
    /// Shows a new result. The state is first checked against the memory budget (`None` when
    /// the panel holds no budget lease); a released result also forgets the SQL and context
    /// it came from. Everything derived from the old result is reset: staged edits, paging,
    /// editor, selection, sort, column widths, draft row, plan, tree rows and row identity.
    /// Client warnings are shown expanded.
    pub fn set_state(&mut self, state: ResultState, memory: Option<MemoryOutcome>) -> (cancelled: Option<u64>)
        ensures
            cancelled == old(self).display_view_cancel,
            final(self).state@ == spec_account_result_memory(
                state@,
                match memory {
                    Some(o) => Some(o@),
                    None => None,
                },
            ),
            strings_view(final(self).column_completion_source@) == spec_completion_columns(final(self).state@),
            final(self).pending_cell_edits@.len() == 0,
            final(self).selected_rows@.len() == 0,
            final(self).col_width_overrides@.len() == 0,
            final(self).tree_expanded_rows@.len() == 0,
            final(self).plan.collapsed@.len() == 0,
            final(self).warnings_expanded == spec_has_client_warning(final(self).state@),
            *final(self) == (ResultPanel {
                state: final(self).state,
                source_sql: if spec_is_released(final(self).state@) { None } else { old(self).source_sql },
                source_schema: if spec_is_released(final(self).state@) { None } else { old(self).source_schema },
                comparison_baseline: if spec_is_released(final(self).state@) {
                    None
                } else {
                    old(self).comparison_baseline
                },
                pinned_target: if spec_is_released(final(self).state@) { None } else { old(self).pinned_target },
                column_completion_source: final(self).column_completion_source,
                pending_cell_edits: final(self).pending_cell_edits,
                pagination: None,
                result_revision: spec_wrapping_inc(old(self).result_revision),
                display_view_request_seq: spec_wrapping_inc(old(self).display_view_request_seq),
                display_view_cache: None,
                display_view_build_key: None,
                display_view_building: false,
                display_view_error: None,
                display_view_cancel: None,
                editing_cell: None,
                cell_edit_input: None,
                selected_cell: None,
                selected_rows: final(self).selected_rows,
                selection_revision: spec_wrapping_inc(old(self).selection_revision),
                sort_by: None,
                col_width_overrides: final(self).col_width_overrides,
                pending_insert: None,
                plan: PlanState {
                    view_mode: PlanViewMode::Tree,
                    tree: None,
                    parse_attempted: false,
                    collapsed: final(self).plan.collapsed,
                    ..old(self).plan
                },
                tree_expanded_rows: final(self).tree_expanded_rows,
                warnings_expanded: final(self).warnings_expanded,
                row_identity: None,
                scroll_reset: true,
                ..*old(self)
            }),
    {
        let state = account_result_memory(state, memory);
        let released = match &state {
            ResultState::Released(_) => true,
            _ => false,
        };
        if released {
            self.clear_released_result_context();
        }
        let has_client = has_client_warning(&state);
        let completion = match &state {
            ResultState::Loaded(qr) => copy_strings(&qr.columns),
            _ => Vec::new(),
        };
        proof {
            if !released {
                assert(strings_view(completion@) =~= spec_completion_columns(state@));
            }
            if released {
                assert(strings_view(completion@) =~= spec_completion_columns(state@));
            }
        }
        self.column_completion_source = completion;
        self.state = state;
        self.pending_cell_edits = Vec::new();
        self.pagination = None;
        let cancelled = self.mark_result_changed();
        self.clear_cell_edit_state();
        self.selected_cell = None;
        self.clear_selected_rows();
        self.sort_by = None;
        self.col_width_overrides = Vec::new();
        self.pending_insert = None;
        self.plan.reset_result();
        self.tree_expanded_rows = Vec::new();
        self.warnings_expanded = has_client;
        self.row_identity = None;
        self.scroll_reset = true;
        cancelled
    }

    /// Puts back a saved state without touching selection, sort or scroll position; staged
    /// edits, the editor and expanded tree rows are dropped and the revision moves on.
    pub fn restore_state(&mut self, state: ResultState, memory: Option<MemoryOutcome>) -> (cancelled: Option<u64>)
        ensures
            cancelled == old(self).display_view_cancel,
            final(self).state@ == spec_account_result_memory(
                state@,
                match memory {
                    Some(o) => Some(o@),
                    None => None,
                },
            ),
            final(self).state@ is Loaded ==> strings_view(final(self).column_completion_source@)
                == spec_completion_columns(final(self).state@),
            !(final(self).state@ is Loaded) ==> final(self).column_completion_source
                == old(self).column_completion_source,
            final(self).pending_cell_edits@.len() == 0,
            final(self).tree_expanded_rows@.len() == 0,
            *final(self) == (ResultPanel {
                state: final(self).state,
                source_sql: if spec_is_released(final(self).state@) { None } else { old(self).source_sql },
                source_schema: if spec_is_released(final(self).state@) { None } else { old(self).source_schema },
                comparison_baseline: if spec_is_released(final(self).state@) {
                    None
                } else {
                    old(self).comparison_baseline
                },
                pinned_target: if spec_is_released(final(self).state@) { None } else { old(self).pinned_target },
                column_completion_source: final(self).column_completion_source,
                pending_cell_edits: final(self).pending_cell_edits,
                result_revision: spec_wrapping_inc(old(self).result_revision),
                display_view_request_seq: spec_wrapping_inc(old(self).display_view_request_seq),
                display_view_cache: None,
                display_view_build_key: None,
                display_view_building: false,
                display_view_error: None,
                display_view_cancel: None,
                editing_cell: None,
                cell_edit_input: None,
                tree_expanded_rows: final(self).tree_expanded_rows,
                row_identity: if spec_is_released(final(self).state@) { None } else { old(self).row_identity },
                ..*old(self)
            }),
    {
        let state = account_result_memory(state, memory);
        let released = match &state {
            ResultState::Released(_) => true,
            _ => false,
        };
        if released {
            self.clear_released_result_context();
        }
        match &state {
            ResultState::Loaded(qr) => {
                let c = copy_strings(&qr.columns);
                self.column_completion_source = c;
            },
            _ => {},
        }
        self.state = state;
        self.pending_cell_edits = Vec::new();
        let cancelled = self.mark_result_changed();
        self.clear_cell_edit_state();
        self.tree_expanded_rows = Vec::new();
        cancelled
    }

    /// Releases the result to keep all tabs within the memory budget; the query text in the
    /// editor is kept elsewhere. The panel forgets everything tied to the old result.
    pub fn evict_result_for_budget(&mut self) -> (cancelled: Option<u64>)
        ensures
            cancelled == old(self).display_view_cancel,
            final(self).state@ == SpecResultState::Released(spec_budget_eviction_message()),
            final(self).pending_cell_edits@.len() == 0,
            final(self).column_completion_source@.len() == 0,
            final(self).selected_rows@.len() == 0,
            final(self).col_width_overrides@.len() == 0,
            final(self).tree_expanded_rows@.len() == 0,
            old(self).plan.enabled ==> final(self).plan.collapsed@.len() == 0,
            *final(self) == (ResultPanel {
                state: final(self).state,
                source_sql: None,
                source_schema: None,
                comparison_baseline: None,
                pinned_target: None,
                column_completion_source: final(self).column_completion_source,
                pending_cell_edits: final(self).pending_cell_edits,
                pagination: None,
                result_revision: spec_wrapping_inc(old(self).result_revision),
                display_view_request_seq: spec_wrapping_inc(old(self).display_view_request_seq),
                display_view_cache: None,
                display_view_build_key: None,
                display_view_building: false,
                display_view_error: None,
                display_view_cancel: None,
                editing_cell: None,
                cell_edit_input: None,
                selected_cell: None,
                selected_rows: final(self).selected_rows,
                selection_revision: spec_wrapping_inc(old(self).selection_revision),
                sort_by: None,
                col_width_overrides: final(self).col_width_overrides,
                pending_insert: None,
                plan: if old(self).plan.enabled {
                    PlanState {
                        view_mode: PlanViewMode::Tree,
                        tree: None,
                        parse_attempted: false,
                        collapsed: final(self).plan.collapsed,
                        ..old(self).plan
                    }
                } else {
                    old(self).plan
                },
                tree_expanded_rows: final(self).tree_expanded_rows,
                row_identity: None,
                ..*old(self)
            }),
    {
        self.state = ResultState::Released(
            String::from_str("旧结果已按 LRU 释放，以保持全部标签结果不超过 512 MiB；查询文本仍保留"),
        );
        self.pending_cell_edits = Vec::new();
        self.clear_released_result_context();
        self.column_completion_source = Vec::new();
        self.pagination = None;
        let cancelled = self.mark_result_changed();
        self.clear_cell_edit_state();
        self.selected_cell = None;
        self.clear_selected_rows();
        self.sort_by = None;
        self.col_width_overrides = Vec::new();
        self.pending_insert = None;
        self.row_identity = None;
        self.tree_expanded_rows = Vec::new();
        if self.plan.enabled {
            self.plan.reset_result();
        }
        cancelled
    }
}


/// Number of entries of `visible` that are selected.
pub open spec fn spec_visible_selected(selected: Set<usize>, visible: Seq<usize>, n: int) -> nat
    decreases n,
{
    if n <= 0 {
        0
    } else {
        spec_visible_selected(selected, visible, n - 1) + (if selected.contains(visible[n - 1]) {
            1nat
        } else {
            0nat
        })
    }
}

proof fn lemma_visible_selected_bound(selected: Set<usize>, visible: Seq<usize>, n: int)
    requires
        0 <= n,
    ensures
        spec_visible_selected(selected, visible, n) <= n,
    decreases n,
{
    if n > 0 {
        lemma_visible_selected_bound(selected, visible, n - 1);
    }
}

/// How many visible rows are selected, and whether all of them are (never for no rows).
pub fn visible_selection_count(selected: &Vec<usize>, visible: &Vec<usize>) -> (r: (usize, bool))
    ensures
        r.0 == spec_visible_selected(selected@.to_set(), visible@, visible@.len() as int),
        r.1 == (visible@.len() > 0 && r.0 == visible@.len()),
{
    let mut count: usize = 0;
    let mut i: usize = 0;
    while i < visible.len()
        invariant
            i <= visible.len(),
            count == spec_visible_selected(selected@.to_set(), visible@, i as int),
        decreases visible.len() - i,
    {
        proof {
            lemma_visible_selected_bound(selected@.to_set(), visible@, i as int);
        }
        if contains_index(selected, visible[i]) {
            count = count + 1;
        }
        i = i + 1;
    }
    (count, visible.len() > 0 && count == visible.len())
}

/// Selection after the select-all box of the visible rows is clicked: when every visible
/// row is selected they are all unselected, otherwise they are all selected.
pub open spec fn spec_toggle_visible(selected: Set<usize>, visible: Seq<usize>) -> Set<usize> {
    if visible.len() > 0 && spec_visible_selected(selected, visible, visible.len() as int) == visible.len() {
        selected.difference(visible.to_set())
    } else {
        selected.union(visible.to_set())
    }
}

fn toggle_visible_selection(selected: &mut Vec<usize>, visible: &Vec<usize>)
    ensures
        final(selected)@.to_set() == spec_toggle_visible(old(selected)@.to_set(), visible@),
        spec_strictly_ascending(final(selected)@),
{
    let (_, all) = visible_selection_count(selected, visible);
    let mut i: usize = 0;
    let ghost start = selected@.to_set();
    while i < visible.len()
        invariant
            i <= visible.len(),
            all == (visible@.len() > 0 && spec_visible_selected(start, visible@, visible@.len() as int)
                == visible@.len()),
            all ==> selected@.to_set() == start.difference(visible@.take(i as int).to_set()),
            !all ==> selected@.to_set() == start.union(visible@.take(i as int).to_set()),
        decreases visible.len() - i,
    {
        let ghost before = selected@.to_set();
        let ghost t1 = visible@.take(i + 1);
        assert(t1 =~= visible@.take(i as int).push(visible@[i as int]));
        assert(t1.to_set() =~= visible@.take(i as int).to_set().insert(visible@[i as int])) by {
            assert forall|y: usize| t1.contains(y) implies visible@.take(i as int).contains(y) || y == visible@[i as int] by {
                let k = choose|k: int| 0 <= k < t1.len() && t1[k] == y;
                if k < i {
                    assert(visible@.take(i as int)[k] == y);
                }
            }
            assert forall|y: usize| visible@.take(i as int).contains(y) implies t1.contains(y) by {
                let k = choose|k: int| 0 <= k < i && visible@.take(i as int)[k] == y;
                assert(t1[k] == y);
            }
            assert(t1[i as int] == visible@[i as int]);
        }
        if all {
            let r = remove_all(selected, visible[i]);
            *selected = r;
            assert(selected@.to_set() =~= start.difference(t1.to_set()));
        } else {
            if !contains_index(selected, visible[i]) {
                let ghost b = selected@;
                selected.push(visible[i]);
                assert(selected@.to_set() =~= b.to_set().insert(visible@[i as int])) by {
                    assert forall|y: usize| selected@.contains(y) implies b.contains(y) || y == visible@[i as int] by {
                        let k = choose|k: int| 0 <= k < selected@.len() && selected@[k] == y;
                        if k < b.len() {
                            assert(b[k] == y);
                        }
                    }
                    assert forall|y: usize| b.contains(y) implies selected@.contains(y) by {
                        let k = choose|k: int| 0 <= k < b.len() && b[k] == y;
                        assert(selected@[k] == y);
                    }
                    assert(selected@[selected@.len() - 1] == visible@[i as int]);
                }
            }
            assert(selected@.to_set() =~= start.union(t1.to_set()));
        }
        i = i + 1;
    }
    assert(visible@.take(visible.len() as int) =~= visible@);
    let r = sorted_unique(selected);
    *selected = r;
}

impl ResultPanel {
    /// Selects all visible rows, or unselects them when all are already selected.
    pub fn toggle_visible_rows(&mut self, visible: &Vec<usize>)
        ensures
            final(self).selected_rows@.to_set() == spec_toggle_visible(old(self).selected_rows@.to_set(), visible@),
            spec_strictly_ascending(final(self).selected_rows@),
            *final(self) == (ResultPanel {
                selected_rows: final(self).selected_rows,
                selection_revision: spec_wrapping_inc(old(self).selection_revision),
                ..*old(self)
            }),
    {
        toggle_visible_selection(&mut self.selected_rows, visible);
        self.mark_selection_changed();
    }

    /// How many of the visible rows are selected, and whether all of them are.
    pub fn visible_selection_summary(&self, visible: &Vec<usize>) -> (r: (usize, bool))
        ensures
            r.0 == spec_visible_selected(self.selected_rows@.to_set(), visible@, visible@.len() as int),
            r.1 == (visible@.len() > 0 && r.0 == visible@.len()),
    {
        visible_selection_count(&self.selected_rows, visible)
    }

    /// Records a dragged column width; ignored without a result or for a column it lacks.
    /// The list of widths is first sized to the result's columns.
    pub fn set_col_width_override(&mut self, col_ix: usize, width: u32)
        ensures
            match old(self).state {
                ResultState::Loaded(r) => final(self).col_width_overrides@.len() == r.columns@.len()
                    && (forall|k: int| 0 <= k < r.columns@.len() && k != col_ix ==> #[trigger] final(self).col_width_overrides@[k]
                        == if old(self).col_width_overrides@.len() == r.columns@.len() {
                        old(self).col_width_overrides@[k]
                    } else if k < old(self).col_width_overrides@.len() {
                        old(self).col_width_overrides@[k]
                    } else {
                        None
                    }) && (col_ix < r.columns@.len() ==> final(self).col_width_overrides@[col_ix as int] == Some(width)),
                _ => final(self).col_width_overrides == old(self).col_width_overrides,
            },
            *final(self) == (ResultPanel { col_width_overrides: final(self).col_width_overrides, ..*old(self) }),
    {
        let n_cols = match &self.state {
            ResultState::Loaded(r) => r.columns.len(),
            _ => return,
        };
        if self.col_width_overrides.len() != n_cols {
            let mut resized: Vec<Option<u32>> = Vec::new();
            let mut k: usize = 0;
            while k < n_cols
                invariant
                    k <= n_cols,
                    resized@.len() == k,
                    forall|j: int| 0 <= j < k ==> #[trigger] resized@[j] == if j < self.col_width_overrides@.len() {
                        self.col_width_overrides@[j]
                    } else {
                        None
                    },
                decreases n_cols - k,
            {
                let v = if k < self.col_width_overrides.len() {
                    self.col_width_overrides[k]
                } else {
                    None
                };
                resized.push(v);
                k = k + 1;
            }
            self.col_width_overrides = resized;
        }
        if col_ix < self.col_width_overrides.len() {
            self.col_width_overrides.set(col_ix, Some(width));
        }
    }

    /// The dragged width of a column, if any.
    pub fn col_width_override(&self, col_ix: usize) -> (r: Option<u32>)
        ensures
            r == if col_ix < self.col_width_overrides@.len() {
                self.col_width_overrides@[col_ix as int]
            } else {
                None
            },
    {
        if col_ix < self.col_width_overrides.len() {
            self.col_width_overrides[col_ix]
        } else {
            None
        }
    }
}


// ---------------------------------------------------------------------------------------------
// Comparison baseline
// ---------------------------------------------------------------------------------------------

fn copy_warnings(v: &Vec<QueryWarning>) -> (r: Vec<QueryWarning>)
    ensures
        warnings_view(r@) == warnings_view(v@),
{
    let mut out: Vec<QueryWarning> = Vec::new();
    let mut i: usize = 0;
    while i < v.len()
        invariant
            i <= v.len(),
            warnings_view(out@) == warnings_view(v@).take(i as int),
        decreases v.len() - i,
    {
        let ghost before = warnings_view(out@);
        let w = QueryWarning { level: v[i].level.clone(), code: v[i].code.clone(), message: v[i].message.clone() };
        out.push(w);
        assert(warnings_view(out@) =~= before.push(w@));
        assert(warnings_view(v@).take(i + 1) =~= warnings_view(v@).take(i as int).push(v@[i as int]@));
        i = i + 1;
    }
    assert(warnings_view(v@).take(v.len() as int) =~= warnings_view(v@));
    out
}

impl QueryResult {
    /// A copy of the result.
    pub fn duplicate(&self) -> (r: QueryResult)
        ensures
            r@ == self@,
    {
        QueryResult {
            columns: copy_strings(&self.columns),
            affected_rows: self.affected_rows,
            warnings: copy_warnings(&self.warnings),
        }
    }
}

/// Identity of the loaded slice of a result: its page, page size and truncation.
#[derive(Clone, Copy, Debug, PartialEq, Eq, Structural)]
pub struct ResultScopeKey {
    pub page: Option<usize>,
    pub page_size: Option<usize>,
    pub truncated: bool,
}

/// Description of the loaded slice of a result.
pub open spec fn spec_result_scope(pagination: Option<ResultPagination>, rows: nat, truncated: bool) -> (Seq<char>, ResultScopeKey) {
    match pagination {
        Some(p) => (
            "第 "@ + spec_decimal(spec_saturating_add(p.page as int, 1) as nat) + " 页 · 已加载 "@
                + spec_decimal(rows) + " 行"@ + match p.total {
                TotalRows::Counting => " / 总数统计中"@,
                TotalRows::Known(t) => " / 共 "@ + spec_decimal(t as nat) + " 行"@,
                TotalRows::Unavailable => " / 总数未知"@,
            },
            ResultScopeKey { page: Some(p.page), page_size: Some(p.page_size), truncated },
        ),
        None => (
            "已加载 "@ + spec_decimal(rows) + " 行"@ + (if truncated {
                " · 结果已截断"@
            } else {
                Seq::empty()
            }),
            ResultScopeKey { page: None, page_size: None, truncated },
        ),
    }
}

impl ResultPanel {
    /// Keeps the shown result as the comparison baseline; refused without a result.
    pub fn capture_comparison_baseline(&mut self) -> (r: bool)
        ensures
            r == old(self).state is Loaded,
            r ==> final(self).comparison_baseline is Some && final(self).comparison_baseline->0@
                == old(self).state->Loaded_0@,
            *final(self) == (ResultPanel { comparison_baseline: final(self).comparison_baseline, ..*old(self) }),
            !r ==> final(self).comparison_baseline == old(self).comparison_baseline,
    {
        let copy = match &self.state {
            ResultState::Loaded(result) => result.duplicate(),
            _ => return false,
        };
        self.comparison_baseline = Some(copy);
        true
    }

    /// Drops the comparison baseline; returns whether there was one.
    pub fn clear_comparison_baseline(&mut self) -> (r: bool)
        ensures
            r == old(self).comparison_baseline is Some,
            *final(self) == (ResultPanel { comparison_baseline: None, ..*old(self) }),
    {
        let had = self.comparison_baseline.is_some();
        self.comparison_baseline = None;
        had
    }

    /// The baseline and the shown result to compare, when both exist.
    pub fn comparison_inputs(&self) -> (r: Option<(QueryResult, QueryResult)>)
        ensures
            match r {
                Some((b, c)) => self.comparison_baseline is Some && self.state is Loaded
                    && b@ == self.comparison_baseline->0@ && c@ == self.state->Loaded_0@,
                None => self.comparison_baseline is None || !(self.state is Loaded),
            },
    {
        let baseline = match &self.comparison_baseline {
            Some(b) => b.duplicate(),
            None => return None,
        };
        match &self.state {
            ResultState::Loaded(current) => Some((baseline, current.duplicate())),
            _ => None,
        }
    }

    /// The shown result, for a comparison.
    pub fn current_comparison_snapshot(&self) -> (r: Option<QueryResult>)
        ensures
            match r {
                Some(c) => self.state is Loaded && c@ == self.state->Loaded_0@,
                None => !(self.state is Loaded),
            },
    {
        match &self.state {
            ResultState::Loaded(result) => Some(result.duplicate()),
            _ => None,
        }
    }

    /// Applies the memory budget's answer after the baseline changed: when the budget drops
    /// the result, the baseline goes too and the panel shows the release.
    pub fn apply_comparison_memory(&mut self, current_evicted: bool) -> (cancelled: Option<u64>)
        ensures
            cancelled == if current_evicted {
                old(self).display_view_cancel
            } else {
                None
            },
            !current_evicted ==> *final(self) == *old(self),
            current_evicted ==> final(self).comparison_baseline is None && final(self).state@
                == SpecResultState::Released(spec_hard_limit_message()),
    {
        if current_evicted {
            self.comparison_baseline = None;
            return self.set_state(
                ResultState::Released(
                    String::from_str(
                        "结果超过全部标签 512 MiB 硬上限，已释放结果数据；查询文本仍保留，可收窄后重新运行",
                    ),
                ),
                None,
            );
        }
        None
    }

    /// Description and key of the loaded slice of the shown result.
    pub fn result_scope(&self, rows_loaded: usize, truncated: bool) -> (r: (String, ResultScopeKey))
        ensures
            (r.0@, r.1) == spec_result_scope(self.pagination, rows_loaded as nat, truncated),
    {
        let rows = decimal(rows_loaded as u64);
        match self.pagination {
            Some(p) => {
                let page = decimal(p.page.saturating_add(1) as u64);
                let total = match p.total {
                    TotalRows::Counting => String::from_str(" / 总数统计中"),
                    TotalRows::Known(t) => {
                        let d = decimal(t);
                        cat3(" / 共 ", d.as_str(), " 行")
                    },
                    TotalRows::Unavailable => String::from_str(" / 总数未知"),
                };
                let mut s = cat5("第 ", page.as_str(), " 页 · 已加载 ", rows.as_str(), " 行");
                push_str(&mut s, total.as_str());
                (s, ResultScopeKey { page: Some(p.page), page_size: Some(p.page_size), truncated })
            },
            None => {
                let mut s = cat3("已加载 ", rows.as_str(), " 行");
                if truncated {
                    push_str(&mut s, " · 结果已截断");
                }
                (s, ResultScopeKey { page: None, page_size: None, truncated })
            },
        }
    }
}

// ---------------------------------------------------------------------------------------------
// Laws
// ---------------------------------------------------------------------------------------------

/// Clicking the same column three times walks ascending, descending, unsorted and back to
/// where an unsorted column started.
pub proof fn lemma_sort_cycle(col: usize)
    ensures
        spec_next_sort(None, col) == Some((col, SortDir::Asc)),
        spec_next_sort(Some((col, SortDir::Asc)), col) == Some((col, SortDir::Desc)),
        spec_next_sort(Some((col, SortDir::Desc)), col) == None::<(usize, SortDir)>,
        spec_next_sort(spec_next_sort(spec_next_sort(None, col), col), col) == None::<(usize, SortDir)>,
{
}

/// Clicking another column always starts an ascending sort on it.
pub proof fn lemma_sort_other_column_starts_ascending(previous: Option<(usize, SortDir)>, col: usize)
    requires
        match previous {
            Some((c, _)) => c != col,
            None => true,
        },
    ensures
        spec_next_sort(previous, col) == Some((col, SortDir::Asc)),
{
}

/// Accounting the same budget answer twice changes nothing more when its warning carries
/// the shared memory-warning marker: the warning is added at most once.
pub proof fn lemma_memory_warning_added_once(state: SpecResultState, o: SpecMemoryOutcome)
    requires
        o.warning is Some ==> spec_contains_text(o.warning->0.message, spec_memory_warning_marker()),
    ensures
        spec_account_result_memory(spec_account_result_memory(state, Some(o)), Some(o))
            == spec_account_result_memory(state, Some(o)),
{
    let once = spec_account_result_memory(state, Some(o));
    if !o.current_evicted {
        match (o.warning, state) {
            (Some(w), SpecResultState::Loaded(r)) => {
                if !spec_has_memory_warning(r.warnings) {
                    let ws = r.warnings.push(w);
                    assert(ws[ws.len() - 1] == w);
                    assert(spec_has_memory_warning(ws));
                }
            },
            _ => {},
        }
    }
}

/// A released result is released again by any budget answer that drops it, and a budget
/// answer never turns a non-result state into a result.
pub proof fn lemma_memory_accounting_keeps_non_results(state: SpecResultState, o: SpecMemoryOutcome)
    requires
        !(state is Loaded),
    ensures
        spec_account_result_memory(state, Some(o)) == if o.current_evicted {
            SpecResultState::Released(spec_hard_limit_message())
        } else {
            state
        },
{
}

/// Digits of a decimal representation read back as the number.
proof fn lemma_digits_of_decimal(n: nat)
    ensures
        spec_all_digits(spec_decimal(n)),
        spec_digits_value(spec_decimal(n)) == n,
        spec_decimal(n).len() > 0,
        spec_decimal(n)[0] != '+',
    decreases n,
{
    let c = crate::text::digit_char(n % 10);
    assert((c as u32) == n % 10 + 48);
    assert(spec_is_digit(c));
    if n < 10 {
        let d = spec_decimal(n);
        assert(d =~= seq![c]);
        assert(d.drop_last() =~= Seq::<char>::empty());
        assert(spec_digits_value(d) == spec_digits_value(d.drop_last()) * 10 + ((d.last() as u32) - 48) as nat);
    } else {
        lemma_digits_of_decimal(n / 10);
        let d = spec_decimal(n);
        let p = spec_decimal(n / 10);
        assert(d.drop_last() =~= p);
        assert(d.last() == c);
        assert(d[0] == p[0]);
        assert forall|i: int| 0 <= i < d.len() implies spec_is_digit(#[trigger] d[i]) by {
            if i < p.len() {
                assert(d[i] == p[i]);
            }
        }
    }
}

proof fn lemma_trim_decimal(n: nat)
    ensures
        spec_trim(spec_decimal(n)) == spec_decimal(n),
{
    lemma_digits_of_decimal(n);
    let d = spec_decimal(n);
    assert(!crate::text::spec_is_whitespace(d[0]));
    assert(!crate::text::spec_is_whitespace(d[d.len() - 1]));
    crate::text::lemma_trim_no_edge_whitespace(d);
}

/// The page number shown to the user reads back as the page it names: for every page
/// `1..=total_pages`, typing its number gives its zero-based index.
pub proof fn lemma_page_number_round_trip(n: u64, total_pages: u64)
    requires
        1 <= n <= total_pages,
        n - 1 <= usize::MAX,
    ensures
        spec_parse_result_page(spec_decimal(n as nat), total_pages) == Ok::<int, Seq<char>>(n - 1),
{
    lemma_trim_decimal(n as nat);
    lemma_digits_of_decimal(n as nat);
    assert(spec_unsigned_digits(spec_decimal(n as nat)) == spec_decimal(n as nat));
}

// ---------------------------------------------------------------------------------------------
// Warnings banner
// ---------------------------------------------------------------------------------------------

/// Warning lines listed in the expanded banner before the rest are summed up.
pub const MAX_VISIBLE_WARNINGS: usize = 20;

/// The banner above a result with warnings.
#[derive(Debug)]
pub struct WarningsBanner {
    /// The header, which also says whether a click expands or collapses the list.
    pub header: String,
    /// `[level code] message` for each listed warning; none while collapsed.
    pub lines: Vec<String>,
    pub more: Option<String>,
}

/// A listed warning.
pub open spec fn spec_warning_line(w: SpecWarning) -> Seq<char> {
    "["@ + w.level + " "@ + w.code + "] "@ + w.message
}

impl ResultPanel {
    /// The warnings banner of the shown result; none without a result or without warnings.
    pub fn warnings_banner(&self) -> (r: Option<WarningsBanner>)
        ensures
            match self.state@ {
                SpecResultState::Loaded(q) => if q.warnings.len() == 0 {
                    r is None
                } else {
                    let n = q.warnings.len();
                    &&& r is Some
                    &&& r->0.header@ == "⚠ "@ + spec_decimal(n) + (if self.warnings_expanded {
                        " 条查询警告（点击收起）"@
                    } else {
                        " 条查询警告（点击展开）"@
                    })
                    &&& !self.warnings_expanded ==> r->0.lines@.len() == 0 && r->0.more is None
                    &&& self.warnings_expanded ==> {
                        &&& r->0.lines@.len() == if n > MAX_VISIBLE_WARNINGS {
                            MAX_VISIBLE_WARNINGS as nat
                        } else {
                            n
                        }
                        &&& forall|i: int|
                            0 <= i < r->0.lines@.len() ==> #[trigger] r->0.lines@[i]@ == spec_warning_line(
                                q.warnings[i],
                            )
                        &&& if n > MAX_VISIBLE_WARNINGS {
                            r->0.more is Some && r->0.more->0@ == "…更多 "@ + spec_decimal(
                                (n - MAX_VISIBLE_WARNINGS) as nat,
                            ) + " 条"@
                        } else {
                            r->0.more is None
                        }
                    }
                },
                _ => r is None,
            },
    {
        let q = match &self.state {
            ResultState::Loaded(q) => q,
            _ => return None,
        };
        let n = q.warnings.len();
        if n == 0 {
            return None;
        }
        let count = decimal(n as u64);
        let header = if self.warnings_expanded {
            cat3("⚠ ", count.as_str(), " 条查询警告（点击收起）")
        } else {
            cat3("⚠ ", count.as_str(), " 条查询警告（点击展开）")
        };
        let mut lines: Vec<String> = Vec::new();
        let mut more: Option<String> = None;
        if self.warnings_expanded {
            let ghost wv = warnings_view(q.warnings@);
            let mut i: usize = 0;
            while i < n && i < MAX_VISIBLE_WARNINGS
                invariant
                    n == q.warnings@.len(),
                    wv == warnings_view(q.warnings@),
                    i <= n,
                    i <= MAX_VISIBLE_WARNINGS,
                    lines@.len() == i,
                    forall|k: int| 0 <= k < i ==> #[trigger] lines@[k]@ == spec_warning_line(wv[k]),
                decreases n - i,
            {
                let w = &q.warnings[i];
                let mut line = cat5("[", w.level.as_str(), " ", w.code.as_str(), "] ");
                push_str(&mut line, w.message.as_str());
                assert(wv[i as int] == w@);
                lines.push(line);
                i = i + 1;
            }
            if n > MAX_VISIBLE_WARNINGS {
                let d = decimal((n - MAX_VISIBLE_WARNINGS) as u64);
                more = Some(cat3("…更多 ", d.as_str(), " 条"));
            }
        }
        Some(WarningsBanner { header, lines, more })
    }
}

impl ResultPanel {
    /// The row the transpose view shows: the selected cell's row while it exists and is
    /// shown, else the first shown row.
    pub fn selected_transpose_row(&self, row_count: usize, display_indices: &Vec<usize>) -> (r: Option<usize>)
        ensures
            r == match self.selected_cell {
                Some((row, _)) => if row < row_count && display_indices@.contains(row) {
                    Some(row)
                } else if display_indices@.len() > 0 {
                    Some(display_indices@[0])
                } else {
                    None
                },
                None => if display_indices@.len() > 0 {
                    Some(display_indices@[0])
                } else {
                    None
                },
            },
    {
        if let Some((row, _)) = self.selected_cell {
            if row < row_count {
                let mut i: usize = 0;
                while i < display_indices.len()
                    invariant
                        i <= display_indices@.len(),
                        row < row_count,
                        self.selected_cell matches Some((r, _)) && r == row,
                        forall|k: int| 0 <= k < i ==> display_indices@[k] != row,
                    decreases display_indices@.len() - i,
                {
                    if display_indices[i] == row {
                        assert(display_indices@.contains(row));
                        return Some(row);
                    }
                    i = i + 1;
                }
            }
        }
        if display_indices.len() > 0 {
            Some(display_indices[0])
        } else {
            None
        }
    }
}

// ---------------------------------------------------------------------------------------------
// Status line and pager of the tree, text and transpose views
// ---------------------------------------------------------------------------------------------

/// Pages of a known total at the page size: at least one.
pub open spec fn spec_total_pages(p: ResultPagination) -> Option<u64> {
    match p.total {
        TotalRows::Known(n) => if p.page_size > 0 {
            let pages = n as int / p.page_size as int + if n as int % p.page_size as int == 0 {
                0int
            } else {
                1int
            };
            Some(if pages < 1 {
                1u64
            } else {
                pages as u64
            })
        } else {
            None
        },
        _ => None,
    }
}

/// Pages of the result when its total is known: the total divided by the page size,
/// rounded up, and at least one.
pub fn result_total_pages(pagination: ResultPagination) -> (r: Option<u64>)
    ensures
        r == spec_total_pages(pagination),
{
    match pagination.total {
        TotalRows::Known(n) => {
            if pagination.page_size == 0 {
                return None;
            }
            let size = pagination.page_size as u64;
            let q = n / size;
            assert(q <= n) by (nonlinear_arith)
                requires
                    size > 0,
                    q == n / size,
            ;
            assert(size >= 2 ==> q < n || n == 0) by (nonlinear_arith)
                requires
                    size > 0,
                    q == n / size,
            ;
            let pages = if n % size == 0 {
                q
            } else {
                q + 1
            };
            Some(if pages < 1 {
                1
            } else {
                pages
            })
        },
        _ => None,
    }
}

/// `第 p / n 页` with the total pages known, else `第 p 页`, one-based.
pub fn alternate_page_label(pagination: ResultPagination, total_pages: Option<u64>) -> (r: String)
    requires
        pagination.page < usize::MAX,
    ensures
        r@ == "第 "@ + spec_decimal((pagination.page + 1) as nat) + match total_pages {
            Some(n) => " / "@ + spec_decimal(n as nat) + " 页"@,
            None => " 页"@,
        },
{
    let page = decimal((pagination.page + 1) as u64);
    match total_pages {
        Some(n) => {
            let total = decimal(n);
            let mut s = cat4("第 ", page.as_str(), " / ", total.as_str());
            push_str(&mut s, " 页");
            s
        },
        None => cat3("第 ", page.as_str(), " 页"),
    }
}

/// What the status line of the tree, text and transpose views counts.
#[derive(Debug)]
pub struct AlternateStatus {
    /// Rows are narrowed by the row filter.
    pub row_filtering: bool,
    pub shown_rows: usize,
    /// Rows before the row filter.
    pub pre_filter_count: usize,
    pub truncated: bool,
    pub total_rows: usize,
    pub cols_filtered: bool,
    pub matched_col_count: usize,
}

/// The status line of the tree, text and transpose views; `selected` is the selected cell's
/// column name and displayed value.
pub fn alternate_status_text(status: &AlternateStatus, selected: Option<(&str, &str)>) -> (r: String)
    ensures
        r@ == (if status.row_filtering {
            "显示 "@ + spec_decimal(status.shown_rows as nat) + " / "@ + spec_decimal(status.pre_filter_count as nat)
                + " 行"@
        } else if status.truncated {
            "显示 "@ + spec_decimal(status.shown_rows as nat) + " / "@ + spec_decimal(status.total_rows as nat)
                + " 行（已截断）"@
        } else {
            spec_decimal(status.total_rows as nat) + " 行"@
        }) + (if status.cols_filtered {
            " · 命中 "@ + spec_decimal(status.matched_col_count as nat) + " 列"@
        } else {
            Seq::empty()
        }) + match selected {
            Some((name, value)) => " · ["@ + name@ + "] = "@ + value@,
            None => Seq::empty(),
        },
{
    let mut s = if status.row_filtering {
        let a = decimal(status.shown_rows as u64);
        let b = decimal(status.pre_filter_count as u64);
        let mut t = cat4("显示 ", a.as_str(), " / ", b.as_str());
        push_str(&mut t, " 行");
        t
    } else if status.truncated {
        let a = decimal(status.shown_rows as u64);
        let b = decimal(status.total_rows as u64);
        let mut t = cat4("显示 ", a.as_str(), " / ", b.as_str());
        push_str(&mut t, " 行（已截断）");
        t
    } else {
        let a = decimal(status.total_rows as u64);
        cat2(a.as_str(), " 行")
    };
    if status.cols_filtered {
        let m = decimal(status.matched_col_count as u64);
        push_str(&mut s, " · 命中 ");
        push_str(&mut s, m.as_str());
        push_str(&mut s, " 列");
    }
    match selected {
        Some((name, value)) => {
            push_str(&mut s, " · [");
            push_str(&mut s, name);
            push_str(&mut s, "] = ");
            push_str(&mut s, value);
        },
        None => {},
    }
    s
}

// ---------------------------------------------------------------------------------------------
// Execution plan texts
// ---------------------------------------------------------------------------------------------

/// The dialect an execution plan was read from.
#[derive(Clone, Copy, Debug, PartialEq, Eq, Structural)]
pub enum PlanSource {
    Mysql,
    Postgres,
}

impl PlanSource {
    /// Display name of the dialect.
    pub fn label(self) -> (r: &'static str)
        ensures
            r@ == match self {
                PlanSource::Mysql => "MySQL"@,
                PlanSource::Postgres => "PostgreSQL"@,
            },
    {
        match self {
            PlanSource::Mysql => "MySQL",
            PlanSource::Postgres => "PostgreSQL",
        }
    }
}

/// Rows among the first `n` that are steps rather than details.
pub open spec fn spec_plan_steps(rows: Seq<PlanRow>, n: int) -> nat
    decreases n,
{
    if n <= 0 {
        0
    } else {
        spec_plan_steps(rows, n - 1) + if rows[n - 1].is_detail {
            0nat
        } else {
            1nat
        }
    }
}

/// Title of the structured plan: dialect, number of steps, and whether rows were cut.
pub fn plan_tree_title(source: PlanSource, rows: &Vec<PlanRow>, truncated: bool) -> (r: String)
    ensures
        r@ == "结构化执行计划 · "@ + (match source {
            PlanSource::Mysql => "MySQL"@,
            PlanSource::Postgres => "PostgreSQL"@,
        }) + " · "@ + spec_decimal(spec_plan_steps(rows@, rows@.len() as int)) + " 个步骤"@ + (if truncated {
            "（已限制显示）"@
        } else {
            Seq::empty()
        }),
{
    let mut steps: usize = 0;
    let mut i: usize = 0;
    while i < rows.len()
        invariant
            i <= rows@.len(),
            steps <= i,
            steps == spec_plan_steps(rows@, i as int),
        decreases rows@.len() - i,
    {
        if !rows[i].is_detail {
            steps = steps + 1;
        }
        i = i + 1;
    }
    let n = decimal(steps as u64);
    let mut s = cat4("结构化执行计划 · ", source.label(), " · ", n.as_str());
    push_str(&mut s, " 个步骤");
    if truncated {
        push_str(&mut s, "（已限制显示）");
    }
    s
}

/// One row of the structured plan as shown.
#[derive(Debug)]
pub struct PlanRowView {
    /// The label, and the detail after two spaces when there is one.
    pub text: String,
    /// The tooltip of the expand / collapse toggle of a row with children.
    pub toggle: Option<&'static str>,
    /// Indentation steps: the depth, at most 16.
    pub indent: usize,
}

/// How `row` is shown while the rows in `collapsed` are folded.
pub fn plan_row_view(row: &PlanRow, collapsed: &Vec<usize>) -> (r: PlanRowView)
    ensures
        r.text@ == match row.detail {
            Some(d) => row.label@ + "  "@ + d@,
            None => row.label@,
        },
        r.toggle == if row.has_children {
            Some(
                if collapsed@.contains(row.id) {
                    "展开步骤"
                } else {
                    "收起步骤"
                },
            )
        } else {
            None::<&'static str>
        },
        r.indent == if row.depth < 16 {
            row.depth
        } else {
            16
        },
{
    let text = match &row.detail {
        Some(d) => cat3(row.label.as_str(), "  ", d.as_str()),
        None => row.label.clone(),
    };
    let toggle = if row.has_children {
        let mut folded = false;
        let mut i: usize = 0;
        while i < collapsed.len()
            invariant
                i <= collapsed@.len(),
                folded == exists|k: int| 0 <= k < i && collapsed@[k] == row.id,
            decreases collapsed@.len() - i,
        {
            if collapsed[i] == row.id {
                folded = true;
            }
            i = i + 1;
        }
        Some(
            if folded {
                "展开步骤"
            } else {
                "收起步骤"
            },
        )
    } else {
        None
    };
    PlanRowView { text, toggle, indent: if row.depth < 16 {
        row.depth
    } else {
        16
    } }
}

/// The button that switches between the structured and the raw plan.
#[derive(Debug)]
pub struct PlanSwitch {
    pub label: &'static str,
    pub tooltip: &'static str,
    pub enabled: bool,
    /// The view the button switches to.
    pub target: PlanViewMode,
}

/// The switch shown above the structured plan (`show_tree`) or the raw one.
pub fn plan_switch(structured_available: bool, show_tree: bool) -> (r: PlanSwitch)
    ensures
        show_tree ==> r.label@ == "原始"@ && r.tooltip@ == "查看原始 EXPLAIN 结果"@ && r.enabled && r.target
            == PlanViewMode::Raw,
        !show_tree ==> r.label@ == "结构化"@ && r.tooltip@ == (if structured_available {
            "查看结构化执行计划"@
        } else {
            "当前 EXPLAIN 格式无法结构化"@
        }) && r.enabled == structured_available && r.target == PlanViewMode::Tree,
{
    if show_tree {
        PlanSwitch { label: "原始", tooltip: "查看原始 EXPLAIN 结果", enabled: true, target: PlanViewMode::Raw }
    } else {
        PlanSwitch {
            label: "结构化",
            tooltip: if structured_available {
                "查看结构化执行计划"
            } else {
                "当前 EXPLAIN 格式无法结构化"
            },
            enabled: structured_available,
            target: PlanViewMode::Tree,
        }
    }
}

/// Which plan view is shown: the structured one, or the raw result with its title and
/// whether the structured view can be switched to.
#[derive(Debug)]
pub enum PlanDisplay {
    Tree,
    Raw { title: &'static str, structured_available: bool },
}

/// The plan view for `view_mode` when a structured plan could (`tree_available`) or could
/// not be read from the result.
pub fn plan_display(view_mode: PlanViewMode, tree_available: bool) -> (r: PlanDisplay)
    ensures
        view_mode == PlanViewMode::Tree && tree_available ==> r is Tree,
        view_mode == PlanViewMode::Tree && !tree_available ==> (r matches PlanDisplay::Raw {
            title,
            structured_available,
        } && title@ == "当前 EXPLAIN 返回格式暂不支持结构化显示"@ && !structured_available),
        view_mode == PlanViewMode::Raw ==> (r matches PlanDisplay::Raw { title, structured_available }
            && title@ == "原始 EXPLAIN 结果"@ && structured_available == tree_available),
{
    match view_mode {
        PlanViewMode::Tree => if tree_available {
            PlanDisplay::Tree
        } else {
            PlanDisplay::Raw { title: "当前 EXPLAIN 返回格式暂不支持结构化显示", structured_available: false }
        },
        PlanViewMode::Raw => PlanDisplay::Raw { title: "原始 EXPLAIN 结果", structured_available: tree_available },
    }
}

// ---------------------------------------------------------------------------------------------
// View-mode toolbar, column headers, write results
// ---------------------------------------------------------------------------------------------

/// Element id of a view-mode button.
pub open spec fn spec_mode_id(mode: ResultViewMode) -> Seq<char> {
    match mode {
        ResultViewMode::Table => "result-view-mode-table"@,
        ResultViewMode::Tree => "result-view-mode-tree"@,
        ResultViewMode::Text => "result-view-mode-text"@,
        ResultViewMode::Transpose => "result-view-mode-transpose"@,
    }
}

/// Element id of a view-mode button.
pub fn mode_id(mode: ResultViewMode) -> (r: &'static str)
    ensures
        r@ == spec_mode_id(mode),
{
    match mode {
        ResultViewMode::Table => "result-view-mode-table",
        ResultViewMode::Tree => "result-view-mode-tree",
        ResultViewMode::Text => "result-view-mode-text",
        ResultViewMode::Transpose => "result-view-mode-transpose",
    }
}

/// A button of the view-mode toolbar.
#[derive(Debug)]
pub struct ModeButton {
    pub mode: ResultViewMode,
    pub id: &'static str,
    pub label: &'static str,
    pub tooltip: &'static str,
    pub selected: bool,
    pub enabled: bool,
}

/// Whether `b` is the toolbar button of `mode` when `current` is shown and edits are or are
/// not staged.
pub open spec fn spec_mode_button(b: ModeButton, mode: ResultViewMode, current: ResultViewMode, pending: bool) -> bool {
    let blocked = pending && mode != ResultViewMode::Table;
    &&& b.mode == mode
    &&& b.id@ == spec_mode_id(mode)
    &&& b.label@ == mode.spec_label()
    &&& b.tooltip@ == (if blocked {
        "请先提交或撤销未提交单元格修改"@
    } else {
        mode.spec_description()
    })
    &&& b.selected == (mode == current)
    &&& b.enabled == !blocked
}

fn mode_button(mode: ResultViewMode, current: ResultViewMode, pending: bool) -> (b: ModeButton)
    ensures
        spec_mode_button(b, mode, current, pending),
{
    let blocked = pending && mode != ResultViewMode::Table;
    ModeButton {
        mode,
        id: mode_id(mode),
        label: mode.label(),
        tooltip: if blocked {
            "请先提交或撤销未提交单元格修改"
        } else {
            mode.description()
        },
        selected: mode == current,
        enabled: !blocked,
    }
}

impl ResultPanel {
    /// The view-mode buttons in their fixed order; while edits are staged only the table
    /// view can be chosen.
    pub fn mode_buttons(&self) -> (r: Vec<ModeButton>)
        ensures
            r@.len() == 4,
            spec_mode_button(r@[0], ResultViewMode::Table, self.view_mode, self.pending_cell_edits@.len() > 0),
            spec_mode_button(r@[1], ResultViewMode::Tree, self.view_mode, self.pending_cell_edits@.len() > 0),
            spec_mode_button(r@[2], ResultViewMode::Text, self.view_mode, self.pending_cell_edits@.len() > 0),
            spec_mode_button(r@[3], ResultViewMode::Transpose, self.view_mode, self.pending_cell_edits@.len() > 0),
    {
        let pending = self.pending_cell_edits.len() > 0;
        let mut r: Vec<ModeButton> = Vec::new();
        r.push(mode_button(ResultViewMode::Table, self.view_mode, pending));
        r.push(mode_button(ResultViewMode::Tree, self.view_mode, pending));
        r.push(mode_button(ResultViewMode::Text, self.view_mode, pending));
        r.push(mode_button(ResultViewMode::Transpose, self.view_mode, pending));
        r
    }
}

/// The sort arrow in the header of column `ci`.
pub fn header_sort_arrow(sort_by: Option<(usize, SortDir)>, ci: usize) -> (r: Option<&'static str>)
    ensures
        r == match sort_by {
            Some((c, SortDir::Asc)) => if c == ci {
                Some("▲")
            } else {
                None::<&'static str>
            },
            Some((c, SortDir::Desc)) => if c == ci {
                Some("▼")
            } else {
                None::<&'static str>
            },
            None => None::<&'static str>,
        },
{
    match sort_by {
        Some((c, SortDir::Asc)) => if c == ci {
            Some("▲")
        } else {
            None
        },
        Some((c, SortDir::Desc)) => if c == ci {
            Some("▼")
        } else {
            None
        },
        None => None,
    }
}

/// The two lines shown for a statement that returned no rows: rows affected, and time taken.
pub fn affected_result_lines(affected_rows: u64, elapsed_ms: u64) -> (r: (String, String))
    ensures
        r.0@ == "✓ "@ + spec_decimal(affected_rows as nat) + " 行受影响"@,
        r.1@ == spec_decimal(elapsed_ms as nat) + " ms"@,
{
    let a = decimal(affected_rows);
    let e = decimal(elapsed_ms);
    (cat3("✓ ", a.as_str(), " 行受影响"), cat2(e.as_str(), " ms"))
}

// ---------------------------------------------------------------------------------------------
// Selected cell and comparison actions
// ---------------------------------------------------------------------------------------------

/// Position of the first of `columns` named `key` up to ASCII case, among the first `n`.
pub open spec fn spec_find_column_name(columns: Seq<Seq<char>>, key: Seq<char>, n: int) -> Option<int>
    decreases n,
{
    if n <= 0 {
        None
    } else {
        match spec_find_column_name(columns, key, n - 1) {
            Some(k) => Some(k),
            None => if spec_same_name(columns[n - 1], key) {
                Some(n - 1)
            } else {
                None
            },
        }
    }
}

proof fn lemma_find_column_name_stable(columns: Seq<Seq<char>>, key: Seq<char>, n: int, m: int)
    requires
        0 <= n <= m,
        spec_find_column_name(columns, key, n) is Some,
    ensures
        spec_find_column_name(columns, key, m) == spec_find_column_name(columns, key, n),
    decreases m - n,
{
    if m > n {
        lemma_find_column_name_stable(columns, key, n, m - 1);
    }
}

/// The column shown when rows are previewed before a delete: the first key column of the
/// row identity when the result has it, else the first column.
pub open spec fn spec_preview_col_idx(identity: Option<RowIdentity>, columns: Seq<String>) -> usize {
    match identity {
        Some(id) => if id.columns@.len() > 0 {
            match spec_find_column_name(strings_view(columns), id.columns@[0]@, columns.len() as int) {
                Some(k) => k as usize,
                None => 0usize,
            }
        } else {
            0usize
        },
        None => 0usize,
    }
}

impl ResultPanel {
    /// The column shown when rows are previewed before a delete: the first key column of the
    /// row identity when the result has it, else the first column.
    pub fn preview_col_idx(&self, result: &QueryResult) -> (r: usize)
        ensures
            r == spec_preview_col_idx(self.row_identity, result.columns@),
    {
        let key = match &self.row_identity {
            Some(id) => if id.columns.len() > 0 {
                &id.columns[0]
            } else {
                return 0;
            },
            None => return 0,
        };
        let ghost cv = strings_view(result.columns@);
        let mut i: usize = 0;
        while i < result.columns.len()
            invariant
                i <= result.columns@.len(),
                cv == strings_view(result.columns@),
                self.row_identity matches Some(id) && id.columns@.len() > 0 && id.columns@[0]@ == key@,
                spec_find_column_name(cv, key@, i as int) is None,
            decreases result.columns@.len() - i,
        {
            assert(cv[i as int] == result.columns@[i as int]@);
            if same_name(result.columns[i].as_str(), key.as_str()) {
                assert(spec_find_column_name(cv, key@, i + 1) == Some(i as int));
                proof {
                    lemma_find_column_name_stable(cv, key@, i + 1, result.columns@.len() as int);
                }
                return i;
            }
            i = i + 1;
        }
        0
    }

    /// Name of the selected cell's column in the shown result, for copying.
    pub fn selected_column_name(&self) -> (r: Option<String>)
        ensures
            match (self.selected_cell, self.state@) {
                (Some((_, ci)), SpecResultState::Loaded(q)) => if ci < q.columns.len() {
                    r is Some && r->0@ == q.columns[ci as int]
                } else {
                    r is None
                },
                _ => r is None,
            },
    {
        let ci = match self.selected_cell {
            Some((_, ci)) => ci,
            None => return None,
        };
        match &self.state {
            ResultState::Loaded(q) => if ci < q.columns.len() {
                assert(strings_view(q.columns@)[ci as int] == q.columns@[ci as int]@);
                Some(q.columns[ci].clone())
            } else {
                None
            },
            _ => None,
        }
    }

    /// The selected cell for copying or viewing its value; without one a notice asks for it,
    /// naming `action`.
    pub fn require_selected_cell(&mut self, action: &str) -> (r: Option<(usize, usize)>)
        ensures
            r == old(self).selected_cell,
            old(self).selected_cell is Some ==> *final(self) == *old(self),
            old(self).selected_cell is None ==> {
                &&& *final(self) == (ResultPanel {
                    pending_notification: final(self).pending_notification,
                    ..*old(self)
                })
                &&& final(self).pending_notification is Some
                &&& final(self).pending_notification->0.level == NoticeLevel::Warning
                &&& final(self).pending_notification->0.message@ == "请先选择一个结果单元格，再"@ + action@
                &&& final(self).pending_notification->0.autohide
            },
    {
        if self.selected_cell.is_none() {
            self.pending_notification = Some(
                Notice { level: NoticeLevel::Warning, message: cat2("请先选择一个结果单元格，再", action), autohide: true },
            );
        }
        self.selected_cell
    }

    /// The baseline and the shown result to compare; without both a notice says what is
    /// missing.
    pub fn open_comparison(&mut self) -> (r: Option<(QueryResult, QueryResult)>)
        ensures
            match r {
                Some((b, c)) => {
                    &&& old(self).comparison_baseline is Some
                    &&& old(self).state is Loaded
                    &&& b@ == old(self).comparison_baseline->0@
                    &&& c@ == old(self).state->Loaded_0@
                    &&& *final(self) == *old(self)
                },
                None => {
                    &&& (old(self).comparison_baseline is None || !(old(self).state is Loaded))
                    &&& *final(self) == (ResultPanel {
                        pending_notification: final(self).pending_notification,
                        ..*old(self)
                    })
                    &&& final(self).pending_notification is Some
                    &&& final(self).pending_notification->0.level == NoticeLevel::Warning
                    &&& final(self).pending_notification->0.message@ == "请先保存基准，并确保当前结果已执行完成"@
                    &&& final(self).pending_notification->0.autohide
                },
            },
    {
        let inputs = self.comparison_inputs();
        if inputs.is_none() {
            self.pending_notification = Some(
                Notice {
                    level: NoticeLevel::Warning,
                    message: String::from_str("请先保存基准，并确保当前结果已执行完成"),
                    autohide: true,
                },
            );
        }
        inputs
    }
}

// ---------------------------------------------------------------------------------------------
// Staged cell edits, kept as a map ordered by row, then column
// ---------------------------------------------------------------------------------------------

/// Whether edit `e` belongs to a cell before `(row, column)`: an earlier row, or the same
/// row and an earlier column.
pub open spec fn spec_edit_before(e: PendingCellEdit, row: usize, column: usize) -> bool {
    e.row < row || (e.row == row && e.column < column)
}

/// Whether edit `e` belongs to cell `(row, column)`.
pub open spec fn spec_edit_at(e: PendingCellEdit, row: usize, column: usize) -> bool {
    e.row == row && e.column == column
}

/// Staged edits ordered by row, then column, with each cell once.
pub open spec fn spec_edits_ascending(v: Seq<PendingCellEdit>) -> bool {
    forall|i: int, j: int| 0 <= i < j < v.len() ==> spec_edit_before(#[trigger] v[i], #[trigger] v[j].row, v[j].column)
}

/// The first position from `i` whose edit does not belong to a cell before `(row, column)`:
/// where that cell's edit is, or would go.
pub open spec fn spec_edit_slot(v: Seq<PendingCellEdit>, row: usize, column: usize, i: int) -> int
    decreases v.len() - i,
{
    if i < 0 || i >= v.len() || !spec_edit_before(v[i], row, column) {
        i
    } else {
        spec_edit_slot(v, row, column, i + 1)
    }
}

/// Whether cell `(row, column)` has an edit at its slot.
pub open spec fn spec_edit_found(v: Seq<PendingCellEdit>, row: usize, column: usize) -> bool {
    let p = spec_edit_slot(v, row, column, 0);
    p < v.len() && spec_edit_at(v[p], row, column)
}

proof fn lemma_edit_slot(v: Seq<PendingCellEdit>, row: usize, column: usize, i: int)
    requires
        0 <= i <= v.len(),
    ensures
        i <= spec_edit_slot(v, row, column, i) <= v.len(),
        forall|k: int| i <= k < spec_edit_slot(v, row, column, i) ==> spec_edit_before(#[trigger] v[k], row, column),
        spec_edit_slot(v, row, column, i) < v.len() ==> !spec_edit_before(
            v[spec_edit_slot(v, row, column, i)],
            row,
            column,
        ),
    decreases v.len() - i,
{
    if i < v.len() && spec_edit_before(v[i], row, column) {
        lemma_edit_slot(v, row, column, i + 1);
    }
}

/// In an ascending list, the cell has an edit exactly when it is found at its slot.
proof fn lemma_edit_found(v: Seq<PendingCellEdit>, row: usize, column: usize)
    requires
        spec_edits_ascending(v),
    ensures
        spec_edit_found(v, row, column) <==> exists|k: int| 0 <= k < v.len() && spec_edit_at(#[trigger] v[k], row, column),
{
    lemma_edit_slot(v, row, column, 0);
    let p = spec_edit_slot(v, row, column, 0);
    if exists|k: int| 0 <= k < v.len() && spec_edit_at(#[trigger] v[k], row, column) {
        let k = choose|k: int| 0 <= k < v.len() && spec_edit_at(#[trigger] v[k], row, column);
        if k < p {
            assert(spec_edit_before(v[k], row, column));
        } else if k > p {
            assert(spec_edit_before(v[p], v[k].row, v[k].column));
        }
    }
}

fn edit_slot(v: &Vec<PendingCellEdit>, row: usize, column: usize) -> (p: usize)
    ensures
        p == spec_edit_slot(v@, row, column, 0),
        p <= v@.len(),
{
    proof {
        lemma_edit_slot(v@, row, column, 0);
    }
    let mut p: usize = 0;
    while p < v.len() && (v[p].row < row || (v[p].row == row && v[p].column < column))
        invariant
            p <= v@.len(),
            spec_edit_slot(v@, row, column, 0) == spec_edit_slot(v@, row, column, p as int),
        decreases v@.len() - p,
    {
        p = p + 1;
    }
    p
}

/// The staged edits grouped by row, in list order: each group holds a row and the positions
/// of its edits; consecutive edits of one row share a group.
pub open spec fn spec_row_groups(v: Seq<PendingCellEdit>) -> Seq<(usize, Seq<usize>)>
    decreases v.len(),
{
    if v.len() == 0 {
        Seq::empty()
    } else {
        let g = spec_row_groups(v.drop_last());
        let i = (v.len() - 1) as usize;
        if g.len() > 0 && g.last().0 == v.last().row {
            g.update(g.len() - 1, (g.last().0, g.last().1.push(i)))
        } else {
            g.push((v.last().row, seq![i]))
        }
    }
}

/// Rows and edit positions of a grouping.
pub open spec fn groups_view(g: Seq<(usize, Vec<usize>)>) -> Seq<(usize, Seq<usize>)> {
    g.map_values(|x: (usize, Vec<usize>)| (x.0, x.1@))
}

impl ResultPanel {
    /// The staged edit of cell `(row, column)`, looked up at the cell's slot.
    pub fn pending_edit(&self, row: usize, column: usize) -> (r: Option<&PendingCellEdit>)
        ensures
            ({
                let v = self.pending_cell_edits@;
                let p = spec_edit_slot(v, row, column, 0);
                match r {
                    Some(e) => spec_edit_found(v, row, column) && *e == v[p],
                    None => !spec_edit_found(v, row, column),
                }
            }),
            spec_edits_ascending(self.pending_cell_edits@) ==> (r is Some <==> exists|k: int|
                0 <= k < self.pending_cell_edits@.len() && spec_edit_at(#[trigger] self.pending_cell_edits@[k], row, column)),
    {
        proof {
            if spec_edits_ascending(self.pending_cell_edits@) {
                lemma_edit_found(self.pending_cell_edits@, row, column);
            }
        }
        let p = edit_slot(&self.pending_cell_edits, row, column);
        if p < self.pending_cell_edits.len() && self.pending_cell_edits[p].row == row
            && self.pending_cell_edits[p].column == column {
            Some(&self.pending_cell_edits[p])
        } else {
            None
        }
    }

    /// Stages `edit` for its cell: it replaces the cell's staged edit, or goes in at the
    /// cell's place, so the list stays ordered by row, then column.
    pub fn stage_pending_edit(&mut self, edit: PendingCellEdit)
        ensures
            ({
                let v = old(self).pending_cell_edits@;
                let p = spec_edit_slot(v, edit.row, edit.column, 0);
                final(self).pending_cell_edits@ == if spec_edit_found(v, edit.row, edit.column) {
                    v.update(p, edit)
                } else {
                    v.insert(p, edit)
                }
            }),
            spec_edits_ascending(old(self).pending_cell_edits@) ==> spec_edits_ascending(
                final(self).pending_cell_edits@,
            ),
            *final(self) == (ResultPanel { pending_cell_edits: final(self).pending_cell_edits, ..*old(self) }),
    {
        let ghost v = self.pending_cell_edits@;
        let ghost e = edit;
        proof {
            lemma_edit_slot(v, edit.row, edit.column, 0);
        }
        let p = edit_slot(&self.pending_cell_edits, edit.row, edit.column);
        if p < self.pending_cell_edits.len() && self.pending_cell_edits[p].row == edit.row
            && self.pending_cell_edits[p].column == edit.column {
            self.pending_cell_edits.set(p, edit);
            proof {
                let w = self.pending_cell_edits@;
                assert(w == v.update(p as int, e));
                if spec_edits_ascending(v) {
                    assert forall|a: int, b: int| 0 <= a < b < w.len() implies spec_edit_before(
                        #[trigger] w[a],
                        #[trigger] w[b].row,
                        w[b].column,
                    ) by {
                        assert(spec_edit_before(v[a], v[b].row, v[b].column));
                    }
                }
            }
        } else {
            self.pending_cell_edits.insert(p, edit);
            proof {
                let w = self.pending_cell_edits@;
                assert(w == v.insert(p as int, e));
                if spec_edits_ascending(v) {
                    assert forall|a: int, b: int| 0 <= a < b < w.len() implies spec_edit_before(
                        #[trigger] w[a],
                        #[trigger] w[b].row,
                        w[b].column,
                    ) by {
                        if p < v.len() {
                            assert(spec_edit_before(e, v[p as int].row, v[p as int].column));
                        }
                        if a < p && b < p {
                            assert(spec_edit_before(v[a], v[b].row, v[b].column));
                        } else if a < p && b == p {
                            assert(spec_edit_before(v[a], e.row, e.column));
                        } else if a < p && b > p {
                            assert(w[b] == v[b - 1]);
                            assert(spec_edit_before(v[a], e.row, e.column));
                            if b - 1 > p {
                                assert(spec_edit_before(v[p as int], v[b - 1].row, v[b - 1].column));
                            }
                        } else if a == p {
                            assert(w[b] == v[b - 1]);
                            if b - 1 > p {
                                assert(spec_edit_before(v[p as int], v[b - 1].row, v[b - 1].column));
                            }
                        } else {
                            assert(w[a] == v[a - 1] && w[b] == v[b - 1]);
                            assert(spec_edit_before(v[a - 1], v[b - 1].row, v[b - 1].column));
                        }
                    }
                }
            }
        }
    }

    /// Drops the staged edit of cell `(row, column)`, if any; says whether there was one.
    pub fn unstage_pending_edit(&mut self, row: usize, column: usize) -> (removed: bool)
        ensures
            ({
                let v = old(self).pending_cell_edits@;
                let p = spec_edit_slot(v, row, column, 0);
                &&& removed == spec_edit_found(v, row, column)
                &&& final(self).pending_cell_edits@ == if removed {
                    v.remove(p)
                } else {
                    v
                }
            }),
            spec_edits_ascending(old(self).pending_cell_edits@) ==> spec_edits_ascending(
                final(self).pending_cell_edits@,
            ),
            spec_edits_ascending(old(self).pending_cell_edits@) ==> (removed <==> exists|k: int|
                0 <= k < old(self).pending_cell_edits@.len() && spec_edit_at(
                    #[trigger] old(self).pending_cell_edits@[k],
                    row,
                    column,
                )),
            *final(self) == (ResultPanel { pending_cell_edits: final(self).pending_cell_edits, ..*old(self) }),
    {
        let ghost v = self.pending_cell_edits@;
        proof {
            if spec_edits_ascending(v) {
                lemma_edit_found(v, row, column);
            }
        }
        let p = edit_slot(&self.pending_cell_edits, row, column);
        if p < self.pending_cell_edits.len() && self.pending_cell_edits[p].row == row
            && self.pending_cell_edits[p].column == column {
            self.pending_cell_edits.remove(p);
            proof {
                let w = self.pending_cell_edits@;
                assert(w == v.remove(p as int));
                if spec_edits_ascending(v) {
                    assert forall|a: int, b: int| 0 <= a < b < w.len() implies spec_edit_before(
                        #[trigger] w[a],
                        #[trigger] w[b].row,
                        w[b].column,
                    ) by {
                        let a0 = if a < p { a } else { a + 1 };
                        let b0 = if b < p { b } else { b + 1 };
                        assert(w[a] == v[a0] && w[b] == v[b0]);
                        assert(spec_edit_before(v[a0], v[b0].row, v[b0].column));
                    }
                }
            }
            true
        } else {
            false
        }
    }

    /// The staged edits grouped by row, so that all edits of one row go into one UPDATE; in
    /// the ordered list the rows come out ascending.
    pub fn pending_edit_groups(&self) -> (r: Vec<(usize, Vec<usize>)>)
        ensures
            groups_view(r@) == spec_row_groups(self.pending_cell_edits@),
    {
        let ghost v = self.pending_cell_edits@;
        let mut out: Vec<(usize, Vec<usize>)> = Vec::new();
        let mut i: usize = 0;
        while i < self.pending_cell_edits.len()
            invariant
                i <= v.len(),
                v == self.pending_cell_edits@,
                groups_view(out@) == spec_row_groups(v.take(i as int)),
            decreases v.len() - i,
        {
            let row = self.pending_cell_edits[i].row;
            let ghost g = groups_view(out@);
            assert(v.take(i + 1).drop_last() =~= v.take(i as int));
            assert(v.take(i + 1).last() == v[i as int]);
            let n = out.len();
            if n > 0 && out[n - 1].0 == row {
                let mut last = out.pop().unwrap();
                last.1.push(i);
                out.push(last);
                assert(groups_view(out@) =~= g.update(g.len() - 1, (g.last().0, g.last().1.push(i))));
            } else {
                let mut positions: Vec<usize> = Vec::new();
                positions.push(i);
                assert(positions@ =~= seq![i]);
                out.push((row, positions));
                assert(groups_view(out@) =~= g.push((row, seq![i])));
            }
            i = i + 1;
        }
        assert(v.take(v.len() as int) =~= v);
        out
    }
}

/// A change to how the result is looked at: the loaded result, the staged edits and the sort
/// stay as they were.
pub open spec fn spec_view_only_change(before: ResultPanel, after: ResultPanel) -> bool {
    &&& after.state == before.state
    &&& after.pending_cell_edits == before.pending_cell_edits
    &&& after.sort_by == before.sort_by
}

/// After any run of view-only changes, such as switching the view mode, selecting a cell or
/// toggling a row's selection, the panel still holds the result, the staged edits and the
/// sort it held before the run.
pub proof fn lemma_view_changes_keep_result(panels: Seq<ResultPanel>)
    requires
        panels.len() > 0,
        forall|i: int| 0 <= i < panels.len() - 1 ==> spec_view_only_change(#[trigger] panels[i], panels[i + 1]),
    ensures
        spec_view_only_change(panels[0], panels.last()),
    decreases panels.len(),
{
    if panels.len() > 1 {
        let shorter = panels.drop_last();
        assert forall|i: int| 0 <= i < shorter.len() - 1 implies spec_view_only_change(#[trigger] shorter[i], shorter[i + 1]) by {
            assert(spec_view_only_change(panels[i], panels[i + 1]));
        }
        lemma_view_changes_keep_result(shorter);
        assert(spec_view_only_change(panels[panels.len() - 2], panels[panels.len() - 1]));
    }
}

} // verus!
