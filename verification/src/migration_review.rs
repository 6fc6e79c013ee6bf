//! What a user reviews before a schema migration runs: the stage summary, the copied script
//! with its fingerprint, the confirmation text, and how the script is sent to the database.

use vstd::prelude::*;

use crate::approval::{
    MigrationApprovalRecord, MigrationApprovalStatus, SpecApproval, UtcTime, bounded_text,
    migration_sql_digest, spec_bounded_text, spec_migration_sql_digest,
};
use crate::domain::{Column, DriverKind, ForeignKey, Index, TableMetadata, opt_view};
use crate::migration::{
    MigrationScript, MigrationStage, SpecMigrationScript, SpecStage, build_migration_script,
    spec_build_migration_script, spec_phase_title, stages_view,
};
use crate::text::{
    cat2, cat3, cat5, chars_of, decimal, join, push_str, spec_decimal, spec_join,
    string_from_chars, strings_view, spec_contains_text,
};

verus! {

/// Risk words of a stage.
pub open spec fn spec_stage_risk(destructive: nat) -> Seq<char> {
    if destructive == 0 {
        "无删除或修改"@
    } else {
        "包含删除或修改"@
    }
}

/// Review line of the stage at position `i`.
pub open spec fn spec_stage_entry(i: nat, st: SpecStage) -> Seq<char> {
    spec_decimal(i + 1) + ". "@ + spec_phase_title(st.phase) + "："@ + spec_decimal(st.statement_count)
        + " 条语句，"@ + spec_stage_risk(st.destructive_statements) + "（"@ + spec_decimal(
        st.destructive_statements,
    ) + " 条）"@
}

/// Review lines of the first `n` stages.
pub open spec fn spec_stage_entries(stages: Seq<SpecStage>, n: int) -> Seq<Seq<char>>
    decreases n,
{
    if n <= 0 {
        Seq::empty()
    } else {
        spec_stage_entries(stages, n - 1).push(spec_stage_entry((n - 1) as nat, stages[n - 1]))
    }
}

/// Lines of the stage review: a heading, then one line per stage; none without stages.
pub open spec fn spec_stage_review_lines(stages: Seq<SpecStage>) -> Seq<Seq<char>> {
    if stages.len() == 0 {
        Seq::empty()
    } else {
        seq!["迁移阶段复核："@] + spec_stage_entries(stages, stages.len() as int)
    }
}

/// The stage review shared by the confirmation and the copied script.
pub open spec fn spec_migration_stage_review(stages: Seq<SpecStage>) -> Seq<char> {
    spec_join(spec_stage_review_lines(stages), "\n"@)
}

fn stage_review_lines(stages: &Vec<MigrationStage>) -> (r: Vec<String>)
    ensures
        strings_view(r@) == spec_stage_review_lines(stages_view(stages@)),
{
    let ghost sv = stages_view(stages@);
    if stages.len() == 0 {
        let r: Vec<String> = Vec::new();
        assert(strings_view(r@) =~= Seq::<Seq<char>>::empty());
        return r;
    }
    let mut lines: Vec<String> = Vec::new();
    lines.push(String::from_str("迁移阶段复核："));
    let mut i: usize = 0;
    while i < stages.len()
        invariant
            i <= stages.len(),
            sv == stages_view(stages@),
            strings_view(lines@) == seq!["迁移阶段复核："@] + spec_stage_entries(sv, i as int),
        decreases stages.len() - i,
    {
        let st = &stages[i];
        assert(sv[i as int] == st@);
        let ghost before = strings_view(lines@);
        let number = decimal((i as u64) + 1);
        let count = decimal(st.statement_count as u64);
        let destructive = decimal(st.destructive_statements as u64);
        let risk = if st.destructive_statements == 0 {
            "无删除或修改"
        } else {
            "包含删除或修改"
        };
        let mut line = cat5(number.as_str(), ". ", st.title(), "：", count.as_str());
        push_str(&mut line, " 条语句，");
        push_str(&mut line, risk);
        push_str(&mut line, "（");
        push_str(&mut line, destructive.as_str());
        push_str(&mut line, " 条）");
        assert(line@ == spec_stage_entry(i as nat, sv[i as int]));
        lines.push(line);
        assert(strings_view(lines@) =~= before.push(line@));
        i = i + 1;
    }
    lines
}

/// Formats the ordered stages of a migration for review.
pub fn migration_stage_review(stages: &Vec<MigrationStage>) -> (r: String)
    ensures
        r@ == spec_migration_stage_review(stages_view(stages@)),
{
    let lines = stage_review_lines(stages);
    join(lines.as_slice(), "\n")
}

/// Comment lines of the stage review in the copied script.
pub open spec fn spec_stage_comments(stages: Seq<SpecStage>) -> Seq<char> {
    spec_join(spec_stage_review_lines(stages).map_values(|l: Seq<char>| "-- "@ + l), "\n"@)
}

/// Text copied for a migration: the fingerprint comment, the stage review as comments,
/// then the SQL.
pub open spec fn spec_migration_copy_text(script: SpecMigrationScript) -> Seq<char> {
    let comments = spec_stage_comments(script.stages);
    let block = if comments.len() == 0 {
        Seq::empty()
    } else {
        "-- 迁移阶段复核\n"@ + comments + "\n\n"@
    };
    "-- Ramag migration script SHA-256: "@ + spec_migration_sql_digest(script.sql) + "\n\n"@ + block
        + script.sql
}

/// The copied migration script, prefixed with the fingerprint shown in the preview.
pub fn migration_copy_text(script: &MigrationScript) -> (r: String)
    ensures
        r@ == spec_migration_copy_text(script@),
{
    let lines = stage_review_lines(&script.stages);
    let ghost lv = strings_view(lines@);
    let mut commented: Vec<String> = Vec::new();
    let mut i: usize = 0;
    while i < lines.len()
        invariant
            i <= lines.len(),
            lv == strings_view(lines@),
            strings_view(commented@) == lv.take(i as int).map_values(|l: Seq<char>| "-- "@ + l),
        decreases lines.len() - i,
    {
        let ghost before = strings_view(commented@);
        let c = cat2("-- ", lines[i].as_str());
        assert(lv[i as int] == lines@[i as int]@);
        commented.push(c);
        assert(lv.take(i + 1) =~= lv.take(i as int).push(lv[i as int]));
        assert(strings_view(commented@) =~= before.push(c@));
        assert(strings_view(commented@) =~= lv.take(i + 1).map_values(|l: Seq<char>| "-- "@ + l));
        i = i + 1;
    }
    assert(lv.take(lines.len() as int) =~= lv);
    let comments = join(commented.as_slice(), "\n");
    let digest = migration_sql_digest(script.sql.as_str());
    let mut out = cat3("-- Ramag migration script SHA-256: ", digest.as_str(), "\n\n");
    let ghost head = out@;
    if !comments.as_str().is_empty() {
        push_str(&mut out, "-- 迁移阶段复核\n");
        push_str(&mut out, comments.as_str());
        push_str(&mut out, "\n\n");
    }
    assert(out@ == head + (if comments@.len() == 0 {
        Seq::<char>::empty()
    } else {
        "-- 迁移阶段复核\n"@ + comments@ + "\n\n"@
    }));
    push_str(&mut out, script.sql.as_str());
    out
}

/// A migration ready to be sent: its SQL, the schema it runs in, and whether it runs in one
/// transaction.
#[derive(Debug)]
pub struct MigrationQuery {
    pub sql: String,
    pub default_schema: Option<String>,
    pub transactional: bool,
}

/// Whether the dialect runs a migration in one transaction: PostgreSQL and SQLite do; MySQL
/// DDL commits implicitly.
pub open spec fn spec_transactional_migration(driver: DriverKind) -> bool {
    driver == DriverKind::Postgres || driver == DriverKind::Sqlite
}

/// The query that runs a migration script in `schema`.
pub fn migration_query(driver: DriverKind, schema: &str, sql: String) -> (r: MigrationQuery)
    ensures
        r.sql == sql,
        r.default_schema is Some && r.default_schema->0@ == schema@,
        r.transactional == spec_transactional_migration(driver),
{
    let mut s = String::new();
    push_str(&mut s, schema);
    MigrationQuery {
        sql,
        default_schema: Some(s),
        transactional: driver == DriverKind::Postgres || driver == DriverKind::Sqlite,
    }
}

/// What the confirmation says about transactions for the dialect.
pub open spec fn spec_transaction_note(driver: DriverKind) -> Seq<char> {
    match driver {
        DriverKind::Postgres => "PostgreSQL 将在一个事务中执行，任一语句失败会回滚本次迁移。"@,
        DriverKind::Sqlite => "SQLite 将在一个事务中执行，任一语句失败会回滚本次迁移。"@,
        DriverKind::Mysql => "MySQL DDL 可能隐式提交；执行失败时目标表可能已经部分变更。"@,
        _ => "当前数据库驱动不支持迁移 SQL 执行。"@,
    }
}

/// What the confirmation says about transactions for the dialect.
pub fn transaction_note(driver: DriverKind) -> (r: &'static str)
    ensures
        r@ == spec_transaction_note(driver),
{
    match driver {
        DriverKind::Postgres => "PostgreSQL 将在一个事务中执行，任一语句失败会回滚本次迁移。",
        DriverKind::Sqlite => "SQLite 将在一个事务中执行，任一语句失败会回滚本次迁移。",
        DriverKind::Mysql => "MySQL DDL 可能隐式提交；执行失败时目标表可能已经部分变更。",
        _ => "当前数据库驱动不支持迁移 SQL 执行。",
    }
}

/// Generation hints listed in the confirmation: at most the first four.
pub open spec fn spec_warning_block(warnings: Seq<Seq<char>>, n: int) -> Seq<char>
    decreases n,
{
    if n <= 0 {
        Seq::empty()
    } else {
        spec_warning_block(warnings, n - 1) + "\n- "@ + warnings[n - 1]
    }
}

/// The confirmation text shown before a migration runs.
pub open spec fn spec_migration_confirmation(
    target_name: Seq<char>,
    target_schema: Seq<char>,
    target_table: Seq<char>,
    driver: DriverKind,
    script: SpecMigrationScript,
) -> Seq<char> {
    let review = spec_migration_stage_review(script.stages);
    let shown = if script.warnings.len() > 4 {
        4
    } else {
        script.warnings.len() as int
    };
    "目标连接："@ + target_name + "\n目标表："@ + target_schema + "."@ + target_table
        + "\n脚本 SHA-256："@ + spec_migration_sql_digest(script.sql) + "\n将执行 "@ + spec_decimal(
        script.statement_count,
    ) + " 条迁移语句，其中 "@ + spec_decimal(script.destructive_statements) + " 条删除或修改。\n"@
        + spec_transaction_note(driver) + "\n此操作会直接修改目标数据库。"@ + (if review.len() == 0 {
        Seq::empty()
    } else {
        "\n"@ + review
    }) + (if script.warnings.len() == 0 {
        Seq::empty()
    } else {
        "\n生成提示："@ + spec_warning_block(script.warnings, shown)
    })
}

/// Builds the confirmation text shown before a migration runs.
pub fn migration_confirmation(
    target_name: &str,
    target_schema: &str,
    target_table: &str,
    driver: DriverKind,
    script: &MigrationScript,
) -> (r: String)
    ensures
        r@ == spec_migration_confirmation(target_name@, target_schema@, target_table@, driver, script@),
{
    let digest = migration_sql_digest(script.sql.as_str());
    let count = decimal(script.statement_count as u64);
    let destructive = decimal(script.destructive_statements as u64);
    let mut s = cat5("目标连接：", target_name, "\n目标表：", target_schema, ".");
    push_str(&mut s, target_table);
    push_str(&mut s, "\n脚本 SHA-256：");
    push_str(&mut s, digest.as_str());
    push_str(&mut s, "\n将执行 ");
    push_str(&mut s, count.as_str());
    push_str(&mut s, " 条迁移语句，其中 ");
    push_str(&mut s, destructive.as_str());
    push_str(&mut s, " 条删除或修改。\n");
    push_str(&mut s, transaction_note(driver));
    push_str(&mut s, "\n此操作会直接修改目标数据库。");
    let ghost base = s@;
    let review = migration_stage_review(&script.stages);
    if !review.as_str().is_empty() {
        push_str(&mut s, "\n");
        push_str(&mut s, review.as_str());
    }
    let ghost with_review = s@;
    assert(with_review == base + (if review@.len() == 0 {
        Seq::<char>::empty()
    } else {
        "\n"@ + review@
    }));
    let ghost wv = strings_view(script.warnings@);
    if script.warnings.len() > 0 {
        push_str(&mut s, "\n生成提示：");
        let ghost hint = s@;
        let shown: usize = if script.warnings.len() > 4 {
            4
        } else {
            script.warnings.len()
        };
        let mut i: usize = 0;
        while i < shown
            invariant
                i <= shown <= script.warnings.len(),
                wv == strings_view(script.warnings@),
                s@ == hint + spec_warning_block(wv, i as int),
            decreases shown - i,
        {
            push_str(&mut s, "\n- ");
            push_str(&mut s, script.warnings[i].as_str());
            assert(wv[i as int] == script.warnings@[i as int]@);
            i = i + 1;
        }
    }
    s
}

/// Checks made before a migration script is built for saving or running: both tables
/// loaded completely and both connections of the same driver.
pub open spec fn spec_current_migration_script(
    source: Option<(crate::migration::SpecTable, nat)>,
    target: Option<(crate::migration::SpecTable, nat)>,
    source_driver: DriverKind,
    target_driver: DriverKind,
    source_schema: Seq<char>,
    source_table: Seq<char>,
    target_schema: Seq<char>,
    target_table: Seq<char>,
) -> Result<SpecMigrationScript, Seq<char>> {
    match (source, target) {
        (Some((s, sw)), Some((t, tw))) => if sw > 0 || tw > 0 {
            Err("源表或目标表的元数据未完整加载，无法执行迁移 SQL；请刷新后重试"@)
        } else if source_driver != target_driver {
            Err("源连接和目标连接必须使用相同数据库驱动，无法执行迁移 SQL"@)
        } else {
            spec_build_migration_script(
                target_driver,
                source_schema,
                source_table,
                target_schema,
                target_table,
                s,
                t,
            )
        },
        _ => Err("两张表的元数据尚未加载，无法生成迁移 SQL"@),
    }
}

/// Metadata loaded for one side of the comparison, with the warnings of the load.
#[derive(Debug)]
pub struct LoadedTable {
    pub metadata: TableMetadata,
    pub warnings: Vec<String>,
}

/// Warnings of a load whose columns, indexes or foreign keys failed, in that order.
pub open spec fn spec_load_warnings(
    columns: Result<Seq<Column>, Seq<char>>,
    indexes: Result<Seq<Index>, Seq<char>>,
    foreign_keys: Result<Seq<ForeignKey>, Seq<char>>,
) -> Seq<Seq<char>> {
    (match columns {
        Ok(_) => Seq::empty(),
        Err(e) => seq!["列加载失败："@ + e],
    }) + (match indexes {
        Ok(_) => Seq::empty(),
        Err(e) => seq!["索引加载失败："@ + e],
    }) + (match foreign_keys {
        Ok(_) => Seq::empty(),
        Err(e) => seq!["外键加载失败："@ + e],
    })
}

/// One side of the comparison from the three metadata reads: what failed is left empty and
/// named in a warning, the rest is kept.
pub fn loaded_table(
    columns: Result<Vec<Column>, String>,
    indexes: Result<Vec<Index>, String>,
    foreign_keys: Result<Vec<ForeignKey>, String>,
) -> (r: LoadedTable)
    ensures
        r.metadata.columns@ == match columns {
            Ok(v) => v@,
            Err(_) => Seq::empty(),
        },
        r.metadata.indexes@ == match indexes {
            Ok(v) => v@,
            Err(_) => Seq::empty(),
        },
        r.metadata.foreign_keys@ == match foreign_keys {
            Ok(v) => v@,
            Err(_) => Seq::empty(),
        },
        strings_view(r.warnings@) == spec_load_warnings(
            match columns {
                Ok(v) => Ok(v@),
                Err(e) => Err(e@),
            },
            match indexes {
                Ok(v) => Ok(v@),
                Err(e) => Err(e@),
            },
            match foreign_keys {
                Ok(v) => Ok(v@),
                Err(e) => Err(e@),
            },
        ),
{
    let mut warnings: Vec<String> = Vec::new();
    let columns = match columns {
        Ok(v) => v,
        Err(e) => {
            warnings.push(cat2("列加载失败：", e.as_str()));
            Vec::new()
        },
    };
    let ghost w1 = strings_view(warnings@);
    let indexes = match indexes {
        Ok(v) => v,
        Err(e) => {
            let m = cat2("索引加载失败：", e.as_str());
            let ghost mv = m@;
            warnings.push(m);
            assert(strings_view(warnings@) =~= w1.push(mv));
            Vec::new()
        },
    };
    let ghost w2 = strings_view(warnings@);
    let foreign_keys = match foreign_keys {
        Ok(v) => v,
        Err(e) => {
            let m = cat2("外键加载失败：", e.as_str());
            let ghost mv = m@;
            warnings.push(m);
            assert(strings_view(warnings@) =~= w2.push(mv));
            Vec::new()
        },
    };
    LoadedTable { metadata: TableMetadata { columns, indexes, foreign_keys }, warnings }
}

/// Rebuilds the migration script from the loaded metadata so saving and running never use
/// a stale preview.
pub fn current_migration_script(
    source: &Option<LoadedTable>,
    target: &Option<LoadedTable>,
    source_driver: DriverKind,
    target_driver: DriverKind,
    source_schema: &str,
    source_table: &str,
    target_schema: &str,
    target_table: &str,
) -> (r: Result<MigrationScript, String>)
    ensures
        crate::text::res_view(match r {
            Ok(s) => Ok::<String, String>(s.sql),
            Err(e) => Err::<String, String>(e),
        }) == match spec_current_migration_script(
            match source {
                Some(l) => Some((l.metadata@, l.warnings@.len())),
                None => None,
            },
            match target {
                Some(l) => Some((l.metadata@, l.warnings@.len())),
                None => None,
            },
            source_driver,
            target_driver,
            source_schema@,
            source_table@,
            target_schema@,
            target_table@,
        ) {
            Ok(s) => Ok::<Seq<char>, Seq<char>>(s.sql),
            Err(e) => Err::<Seq<char>, Seq<char>>(e),
        },
        r is Ok ==> spec_current_migration_script(
            match source {
                Some(l) => Some((l.metadata@, l.warnings@.len())),
                None => None,
            },
            match target {
                Some(l) => Some((l.metadata@, l.warnings@.len())),
                None => None,
            },
            source_driver,
            target_driver,
            source_schema@,
            source_table@,
            target_schema@,
            target_table@,
        ) == Ok::<SpecMigrationScript, Seq<char>>(r->Ok_0@),
{
    match (source, target) {
        (Some(s), Some(t)) => {
            if s.warnings.len() > 0 || t.warnings.len() > 0 {
                return Err(String::from_str("源表或目标表的元数据未完整加载，无法执行迁移 SQL；请刷新后重试"));
            }
            if source_driver != target_driver {
                return Err(String::from_str("源连接和目标连接必须使用相同数据库驱动，无法执行迁移 SQL"));
            }
            build_migration_script(
                target_driver,
                source_schema,
                source_table,
                target_schema,
                target_table,
                &s.metadata,
                &t.metadata,
            )
        },
        _ => Err(String::from_str("两张表的元数据尚未加载，无法生成迁移 SQL")),
    }
}

// ---------------------------------------------------------------------------------------------
// Approval history lines
// ---------------------------------------------------------------------------------------------

/// `schema.table`.
pub fn format_table_name(schema: &str, table: &str) -> (r: String)
    ensures
        r@ == schema@ + "."@ + table@,
{
    cat3(schema, ".", table)
}

/// Count of destructive statements in words.
pub open spec fn spec_format_destructive_count(count: nat) -> Seq<char> {
    if count == 0 {
        "无删除或修改"@
    } else {
        spec_decimal(count) + " 条删除或修改"@
    }
}

/// Count of destructive statements in words.
pub fn format_destructive_count(count: usize) -> (r: String)
    ensures
        r@ == spec_format_destructive_count(count as nat),
{
    if count == 0 {
        String::from_str("无删除或修改")
    } else {
        let d = decimal(count as u64);
        cat2(d.as_str(), " 条删除或修改")
    }
}

/// Display name of a driver.
pub open spec fn spec_driver_label(driver: DriverKind) -> Seq<char> {
    match driver {
        DriverKind::Mysql => "MySQL"@,
        DriverKind::Postgres => "PostgreSQL"@,
        DriverKind::Sqlite => "SQLite"@,
        DriverKind::Redis => "Redis"@,
        DriverKind::Mongodb => "MongoDB"@,
    }
}

/// Display name of a driver.
pub fn driver_label(driver: DriverKind) -> (r: &'static str)
    ensures
        r@ == spec_driver_label(driver),
{
    match driver {
        DriverKind::Mysql => "MySQL",
        DriverKind::Postgres => "PostgreSQL",
        DriverKind::Sqlite => "SQLite",
        DriverKind::Redis => "Redis",
        DriverKind::Mongodb => "MongoDB",
    }
}

/// Label of an approval status in the history.
pub open spec fn spec_approval_status_label(status: MigrationApprovalStatus) -> Seq<char> {
    match status {
        MigrationApprovalStatus::Approved => "已确认"@,
        MigrationApprovalStatus::Executed => "已执行"@,
        MigrationApprovalStatus::Failed => "执行失败"@,
    }
}

/// Label of an approval status in the history.
pub fn approval_status_label(status: MigrationApprovalStatus) -> (r: &'static str)
    ensures
        r@ == spec_approval_status_label(status),
{
    match status {
        MigrationApprovalStatus::Approved => "已确认",
        MigrationApprovalStatus::Executed => "已执行",
        MigrationApprovalStatus::Failed => "执行失败",
    }
}

/// Summary line of a record: fingerprint (first 12 characters), statements, destructive
/// count and driver.
pub open spec fn spec_approval_summary(r: SpecApproval) -> Seq<char> {
    let fingerprint = if r.sql_sha256.len() > 12 {
        r.sql_sha256.take(12)
    } else {
        r.sql_sha256
    };
    "脚本指纹 "@ + fingerprint + " · "@ + spec_decimal(r.statement_count as nat) + " 条语句 · "@
        + spec_format_destructive_count(r.destructive_statements as nat) + " · 驱动 "@ + spec_driver_label(
        r.driver,
    )
}

/// Summary line of an approval record in the history.
pub fn approval_summary(record: &MigrationApprovalRecord) -> (r: String)
    ensures
        r@ == spec_approval_summary(record@),
{
    let cs = chars_of(record.sql_sha256.as_str());
    let n: usize = if cs.len() > 12 {
        12
    } else {
        cs.len()
    };
    let mut head: Vec<char> = Vec::new();
    let mut i: usize = 0;
    while i < n
        invariant
            i <= n <= cs.len(),
            head@ == cs@.take(i as int),
        decreases n - i,
    {
        head.push(cs[i]);
        assert(cs@.take(i + 1) =~= cs@.take(i as int).push(cs@[i as int]));
        i = i + 1;
    }
    assert(cs@.take(cs.len() as int) =~= cs@);
    let fingerprint = string_from_chars(head.as_slice());
    let count = decimal(record.statement_count as u64);
    let destructive = format_destructive_count(record.destructive_statements);
    let mut s = cat5("脚本指纹 ", fingerprint.as_str(), " · ", count.as_str(), " 条语句 · ");
    push_str(&mut s, destructive.as_str());
    push_str(&mut s, " · 驱动 ");
    push_str(&mut s, driver_label(record.driver));
    s
}


/// Approval records listed in the history.
pub const MAX_LISTED_APPROVALS: usize = 5;

/// Bytes of a recorded error shown in the history.
pub const MAX_LISTED_ERROR_BYTES: usize = 320;

/// One record as the history lists it.
#[derive(Debug)]
pub struct ApprovalEntry {
    pub status: &'static str,
    /// Target connection and table.
    pub target: String,
    /// When the record last changed.
    pub updated_at: UtcTime,
    pub summary: String,
    pub warning_note: Option<String>,
    pub elapsed_note: Option<String>,
    pub error_note: Option<String>,
}

/// The approval history under the migration script: a heading and the newest records.
#[derive(Debug)]
pub struct ApprovalHistory {
    pub heading: String,
    pub entries: Vec<ApprovalEntry>,
}

/// Whether `e` lists record `r`.
pub open spec fn spec_approval_entry(r: SpecApproval, e: ApprovalEntry) -> bool {
    &&& e.status@ == spec_approval_status_label(r.status)
    &&& e.target@ == r.target_connection_name + " · "@ + r.target_schema + "."@ + r.target_table
    &&& e.updated_at == r.updated_at
    &&& e.summary@ == spec_approval_summary(r)
    &&& opt_view(e.warning_note) == (if r.warning_count > 0 {
        Some("数据库警告 "@ + spec_decimal(r.warning_count as nat) + " 条"@)
    } else {
        None
    })
    &&& opt_view(e.elapsed_note) == match r.elapsed_ms {
        Some(ms) => Some("数据库耗时 "@ + spec_decimal(ms as nat) + " ms"@),
        None => None,
    }
    &&& opt_view(e.error_note) == match r.error {
        Some(err) => Some("错误："@ + spec_bounded_text(err, MAX_LISTED_ERROR_BYTES as int)),
        None => None,
    }
}

/// The history of `records`, newest first as kept: none without records, else the first
/// five listed.
pub fn approval_history(records: &Vec<MigrationApprovalRecord>) -> (r: Option<ApprovalHistory>)
    ensures
        records@.len() == 0 ==> r is None,
        records@.len() > 0 ==> {
            let n = if records@.len() > MAX_LISTED_APPROVALS {
                MAX_LISTED_APPROVALS as int
            } else {
                records@.len() as int
            };
            &&& r is Some
            &&& r->0.heading@ == "最近审批记录（"@ + spec_decimal(n as nat) + "）"@
            &&& r->0.entries@.len() == n
            &&& forall|i: int| 0 <= i < n ==> spec_approval_entry(records@[i]@, #[trigger] r->0.entries@[i])
        },
{
    if records.len() == 0 {
        return None;
    }
    let n: usize = if records.len() > MAX_LISTED_APPROVALS {
        MAX_LISTED_APPROVALS
    } else {
        records.len()
    };
    let mut entries: Vec<ApprovalEntry> = Vec::new();
    let mut i: usize = 0;
    while i < n
        invariant
            n <= records@.len(),
            i <= n,
            entries@.len() == i,
            forall|k: int| 0 <= k < i ==> spec_approval_entry(records@[k]@, #[trigger] entries@[k]),
        decreases n - i,
    {
        let record = &records[i];
        let mut target = cat3(record.target_connection_name.as_str(), " · ", record.target_schema.as_str());
        push_str(&mut target, ".");
        push_str(&mut target, record.target_table.as_str());
        let warning_note = if record.warning_count > 0 {
            let d = decimal(record.warning_count as u64);
            Some(cat3("数据库警告 ", d.as_str(), " 条"))
        } else {
            None
        };
        let elapsed_note = match record.elapsed_ms {
            Some(ms) => {
                let d = decimal(ms);
                Some(cat3("数据库耗时 ", d.as_str(), " ms"))
            },
            None => None,
        };
        let error_note = match &record.error {
            Some(e) => {
                let b = bounded_text(e.as_str(), MAX_LISTED_ERROR_BYTES);
                Some(cat2("错误：", b.as_str()))
            },
            None => None,
        };
        entries.push(
            ApprovalEntry {
                status: approval_status_label(record.status),
                target,
                updated_at: record.updated_at,
                summary: approval_summary(record),
                warning_note,
                elapsed_note,
                error_note,
            },
        );
        i = i + 1;
    }
    let d = decimal(n as u64);
    Some(ApprovalHistory { heading: cat3("最近审批记录（", d.as_str(), "）"), entries })
}

// ---------------------------------------------------------------------------------------------
// Laws
// ---------------------------------------------------------------------------------------------

/// The copied script starts with the fingerprint shown in the preview and confirmation and
/// ends with the SQL itself, unchanged.
pub proof fn lemma_copy_text_keeps_fingerprint_and_sql(script: SpecMigrationScript)
    ensures
        ({
            let text = spec_migration_copy_text(script);
            let head = "-- Ramag migration script SHA-256: "@ + spec_migration_sql_digest(script.sql);
            &&& text.len() >= head.len() + script.sql.len()
            &&& text.take(head.len() as int) == head
            &&& text.skip(text.len() - script.sql.len()) == script.sql
        }),
{
    let comments = spec_stage_comments(script.stages);
    let block = if comments.len() == 0 {
        Seq::<char>::empty()
    } else {
        "-- 迁移阶段复核\n"@ + comments + "\n\n"@
    };
    let head = "-- Ramag migration script SHA-256: "@ + spec_migration_sql_digest(script.sql);
    let text = spec_migration_copy_text(script);
    assert(text =~= head + ("\n\n"@ + block + script.sql));
    assert(text.take(head.len() as int) =~= head);
    assert(text.skip(text.len() - script.sql.len()) =~= script.sql);
}


/// A migration runs in one transaction exactly for the dialects whose confirmation promises
/// that a failed statement rolls the migration back; for the others the confirmation warns
/// that a failure may leave the table partly changed.
pub proof fn lemma_transactional_iff_rollback_promised(driver: DriverKind)
    requires
        driver == DriverKind::Mysql || driver == DriverKind::Postgres || driver == DriverKind::Sqlite,
    ensures
        spec_transactional_migration(driver) ==> spec_contains_text(spec_transaction_note(driver), "回滚"@),
        !spec_transactional_migration(driver) ==> spec_contains_text(spec_transaction_note(driver), "部分变更"@),
{
    reveal_strlit("回滚");
    reveal_strlit("部分变更");
    reveal_strlit("PostgreSQL 将在一个事务中执行，任一语句失败会回滚本次迁移。");
    reveal_strlit("SQLite 将在一个事务中执行，任一语句失败会回滚本次迁移。");
    reveal_strlit("MySQL DDL 可能隐式提交；执行失败时目标表可能已经部分变更。");
    let note = spec_transaction_note(driver);
    let rollback = "回滚"@;
    let partial = "部分变更"@;
    if driver == DriverKind::Mysql {
        assert(note.subrange(29int, 29int + partial.len()) =~= partial);
        assert(spec_contains_text(note, partial));
    } else if driver == DriverKind::Postgres {
        assert(note.subrange(28int, 28int + rollback.len()) =~= rollback);
        assert(spec_contains_text(note, rollback));
    } else {
        assert(note.subrange(24int, 24int + rollback.len()) =~= rollback);
        assert(spec_contains_text(note, rollback));
    }
}

} // verus!
