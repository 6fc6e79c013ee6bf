//! The state behind the dialog that compares two tables and turns their difference into a
//! migration: loading both sides, the checks before a script is saved or run, the confirmed
//! run, and what the dialog tells the user afterwards. The window, the file picker and the
//! database stand outside; they hand their answers back to these methods.

use vstd::prelude::*;

use crate::approval::{
    MigrationApprovalRecord, MigrationApprovalStatus, SpecApproval, UtcTime, approvals_view,
    merge_migration_approvals, new_migration_approval, push_migration_approval,
    record_migration_outcome_at, spec_bounded_text, spec_merge_approvals, spec_migration_sql_digest,
    spec_record_outcome, spec_take_at_most, MAX_MIGRATION_APPROVAL_RECORDS,
    MAX_MIGRATION_APPROVAL_TEXT_BYTES,
};
use crate::domain::{DriverKind, opt_view};
use crate::migration::{MigrationScript, SpecMigrationScript, SpecTable, build_migration_script, spec_build_migration_script};
use crate::schema_diff::{
    MetadataDiffSection, build_table_diff, format_table_diff, sections_view, spec_build_table_diff,
    spec_format_table_diff,
};
use crate::migration_review::{
    LoadedTable, MigrationQuery, current_migration_script, migration_confirmation, migration_query,
    spec_current_migration_script, spec_migration_confirmation, spec_transactional_migration,
};
use crate::result_panel::{Notice, NoticeLevel};
use crate::text::{cat2, cat3, cat5, decimal, push_str, spec_decimal, str_eq, strings_view};

verus! {

/// The connection on one side of the comparison, as far as the dialog needs it.
#[derive(Debug)]
pub struct DiffConnection {
    pub id: String,
    pub name: String,
    pub driver: DriverKind,
    /// Marked as production: a migration may be previewed and saved there, never run.
    pub production: bool,
}

/// The comparison of two tables and the migration between them.
#[derive(Debug)]
pub struct SchemaDiffDialog {
    pub source_connection: DiffConnection,
    pub target_connection: DiffConnection,
    pub source_schema: String,
    pub source_table: String,
    pub target_schema: String,
    pub target_table: String,
    pub source: Option<LoadedTable>,
    pub target: Option<LoadedTable>,
    pub loading: bool,
    /// Counts metadata loads; an answer to an older load is dropped.
    pub request_generation: u64,
    pub error: Option<String>,
    pub migration_visible: bool,
    pub saving_migration: bool,
    pub executing_migration: bool,
    /// Counts migration runs; an answer to an older run is dropped.
    pub migration_execution_generation: u64,
    /// Approval history, newest first.
    pub migration_approvals: Vec<MigrationApprovalRecord>,
    pub pending_notification: Option<Notice>,
}

/// What a metadata load was started for; its answer counts only while all of it still holds.
#[derive(Debug)]
pub struct DiffRequest {
    pub generation: u64,
    pub source_connection_id: String,
    pub target_connection_id: String,
    pub source_schema: String,
    pub source_table: String,
    pub target_schema: String,
    pub target_table: String,
}

/// The loaded metadata of one side, as the migration builder reads it.
pub open spec fn loaded_view(o: Option<LoadedTable>) -> Option<(SpecTable, nat)> {
    match o {
        Some(l) => Some((l.metadata@, l.warnings@.len())),
        None => None,
    }
}

/// `g + 1`, wrapping to zero.
pub open spec fn spec_next_generation(g: u64) -> u64 {
    if g == u64::MAX {
        0
    } else {
        (g + 1) as u64
    }
}

/// Whether `n` is a notice of `level` that says `message`.
pub open spec fn spec_notice_is(n: Option<Notice>, level: NoticeLevel, message: Seq<char>, autohide: bool) -> bool {
    &&& n is Some
    &&& n->0.level == level
    &&& n->0.message@ == message
    &&& n->0.autohide == autohide
}

/// `b` is `a` with at most its pending notice changed.
pub open spec fn spec_only_notice_changed(a: SchemaDiffDialog, b: SchemaDiffDialog) -> bool {
    b == (SchemaDiffDialog { pending_notification: b.pending_notification, ..a })
}

/// Whether the load `q` was started by `d` as it stands.
pub open spec fn spec_request_current(d: SchemaDiffDialog, q: DiffRequest) -> bool {
    &&& q.generation == d.request_generation
    &&& q.source_connection_id@ == d.source_connection.id@
    &&& q.target_connection_id@ == d.target_connection.id@
    &&& q.source_schema@ == d.source_schema@
    &&& q.source_table@ == d.source_table@
    &&& q.target_schema@ == d.target_schema@
    &&& q.target_table@ == d.target_table@
}

/// `d` after a metadata load starts.
pub open spec fn spec_refreshing(d: SchemaDiffDialog) -> SchemaDiffDialog {
    SchemaDiffDialog {
        request_generation: spec_next_generation(d.request_generation),
        loading: true,
        error: None,
        migration_visible: false,
        ..d
    }
}

/// A migration put to the user for confirmation: the text shown, whether it deletes or
/// changes anything, the script itself and the context it was built in.
#[derive(Debug)]
pub struct ExecuteRequest {
    pub confirmation: String,
    pub destructive: bool,
    pub script: MigrationScript,
    pub generation: u64,
    pub target_connection_id: String,
    pub source_schema: String,
    pub source_table: String,
    pub target_schema: String,
    pub target_table: String,
}

/// A confirmed run: the query to send and what the dialog needs when the answer comes.
#[derive(Debug)]
pub struct ExecutionStart {
    pub generation: u64,
    pub approval_id: String,
    pub query: MigrationQuery,
    pub statement_count: usize,
    pub destructive_statements: usize,
}

/// What the database reported for a migration that ran.
#[derive(Clone, Copy, Debug)]
pub struct ExecutionReport {
    pub elapsed_ms: u64,
    pub warning_count: usize,
}

/// A script to be saved: its SQL, and the database label and object name the suggested file
/// name is made of.
#[derive(Debug)]
pub struct SaveRequest {
    pub sql: String,
    pub database_type: &'static str,
    pub object: String,
}

/// How saving a script ended.
#[derive(Debug)]
pub enum SaveOutcome {
    /// Written; the name of the file.
    Saved { file_name: String },
    Cancelled,
    Failed { error: String },
}

/// Whether the confirmation `q` still describes what `d` would run.
pub open spec fn spec_execute_current(d: SchemaDiffDialog, q: ExecuteRequest) -> bool {
    &&& q.generation == d.request_generation
    &&& q.target_connection_id@ == d.target_connection.id@
    &&& q.source_schema@ == d.source_schema@
    &&& q.source_table@ == d.source_table@
    &&& q.target_schema@ == d.target_schema@
    &&& q.target_table@ == d.target_table@
    &&& d.spec_script() is Ok
    &&& d.spec_script()->Ok_0.sql == q.script.sql@
}

/// The approval recorded when the user confirms `script` in `d`.
pub open spec fn spec_new_approval(d: SchemaDiffDialog, id: Seq<char>, script: MigrationScript, now: UtcTime) -> SpecApproval {
    SpecApproval {
        approval_id: id,
        source_connection_id: d.source_connection.id@,
        source_connection_name: spec_bounded_text(d.source_connection.name@, MAX_MIGRATION_APPROVAL_TEXT_BYTES as int),
        target_connection_id: d.target_connection.id@,
        target_connection_name: spec_bounded_text(d.target_connection.name@, MAX_MIGRATION_APPROVAL_TEXT_BYTES as int),
        source_schema: spec_bounded_text(d.source_schema@, MAX_MIGRATION_APPROVAL_TEXT_BYTES as int),
        source_table: spec_bounded_text(d.source_table@, MAX_MIGRATION_APPROVAL_TEXT_BYTES as int),
        target_schema: spec_bounded_text(d.target_schema@, MAX_MIGRATION_APPROVAL_TEXT_BYTES as int),
        target_table: spec_bounded_text(d.target_table@, MAX_MIGRATION_APPROVAL_TEXT_BYTES as int),
        driver: d.target_connection.driver,
        statement_count: script.statement_count,
        destructive_statements: script.destructive_statements,
        sql_sha256: spec_migration_sql_digest(script.sql@),
        approved_at: now,
        updated_at: now,
        status: MigrationApprovalStatus::Approved,
        elapsed_ms: None,
        warning_count: 0,
        error: None,
    }
}

/// Notice after a migration ran.
pub open spec fn spec_execution_success(statements: nat, elapsed_ms: nat, warnings: nat) -> Seq<char> {
    "迁移执行成功："@ + spec_decimal(statements) + " 条语句，耗时 "@ + spec_decimal(elapsed_ms) + " ms"@ + (
    if warnings == 0 {
        Seq::empty()
    } else {
        "，数据库返回 "@ + spec_decimal(warnings) + " 条警告"@
    }) + "；正在重新读取元数据"@
}

/// Database label of a saved script's suggested file name.
pub open spec fn spec_export_database_type(driver: DriverKind) -> Seq<char> {
    match driver {
        DriverKind::Mysql => "mysql"@,
        DriverKind::Postgres => "postgresql"@,
        DriverKind::Sqlite => "sqlite"@,
        _ => "sql"@,
    }
}

/// Database label of a saved script's suggested file name.
pub fn export_database_type(driver: DriverKind) -> (r: &'static str)
    ensures
        r@ == spec_export_database_type(driver),
{
    match driver {
        DriverKind::Mysql => "mysql",
        DriverKind::Postgres => "postgresql",
        DriverKind::Sqlite => "sqlite",
        _ => "sql",
    }
}

impl SchemaDiffDialog {
    /// The script the dialog would save or run now, or why there is none.
    pub open spec fn spec_script(self) -> Result<SpecMigrationScript, Seq<char>> {
        spec_current_migration_script(
            loaded_view(self.source),
            loaded_view(self.target),
            self.source_connection.driver,
            self.target_connection.driver,
            self.source_schema@,
            self.source_table@,
            self.target_schema@,
            self.target_table@,
        )
    }

    /// A save or a run is under way.
    pub open spec fn spec_busy(self) -> bool {
        self.saving_migration || self.executing_migration
    }

    /// A dialog for the two tables; the first metadata load starts at once and is returned.
    pub fn new(
        source_connection: DiffConnection,
        target_connection: DiffConnection,
        source_schema: String,
        source_table: String,
        target_schema: String,
        target_table: String,
    ) -> (r: (SchemaDiffDialog, DiffRequest))
        ensures
            r.0 == spec_refreshing(
                SchemaDiffDialog {
                    source_connection,
                    target_connection,
                    source_schema,
                    source_table,
                    target_schema,
                    target_table,
                    source: None,
                    target: None,
                    loading: false,
                    request_generation: 0,
                    error: None,
                    migration_visible: false,
                    saving_migration: false,
                    executing_migration: false,
                    migration_execution_generation: 0,
                    migration_approvals: r.0.migration_approvals,
                    pending_notification: None,
                },
            ),
            r.0.migration_approvals@.len() == 0,
            spec_request_current(r.0, r.1),
    {
        let mut dialog = SchemaDiffDialog {
            source_connection,
            target_connection,
            source_schema,
            source_table,
            target_schema,
            target_table,
            source: None,
            target: None,
            loading: false,
            request_generation: 0,
            error: None,
            migration_visible: false,
            saving_migration: false,
            executing_migration: false,
            migration_execution_generation: 0,
            migration_approvals: Vec::new(),
            pending_notification: None,
        };
        let request = dialog.start_refresh();
        (dialog, request)
    }

    fn start_refresh(&mut self) -> (r: DiffRequest)
        ensures
            *final(self) == spec_refreshing(*old(self)),
            spec_request_current(*final(self), r),
    {
        self.request_generation = if self.request_generation == u64::MAX {
            0
        } else {
            self.request_generation + 1
        };
        self.loading = true;
        self.error = None;
        self.migration_visible = false;
        DiffRequest {
            generation: self.request_generation,
            source_connection_id: self.source_connection.id.clone(),
            target_connection_id: self.target_connection.id.clone(),
            source_schema: self.source_schema.clone(),
            source_table: self.source_table.clone(),
            target_schema: self.target_schema.clone(),
            target_table: self.target_table.clone(),
        }
    }

    /// Starts loading both tables again; refused while a migration runs.
    pub fn begin_refresh(&mut self) -> (r: Option<DiffRequest>)
        ensures
            old(self).executing_migration ==> r is None && *final(self) == *old(self),
            !old(self).executing_migration ==> r is Some && *final(self) == spec_refreshing(*old(self))
                && spec_request_current(*final(self), r->0),
    {
        if self.executing_migration {
            return None;
        }
        Some(self.start_refresh())
    }

    /// Takes the metadata of both sides, unless the load was overtaken by another or the
    /// tables compared have changed since it started; returns whether it was taken.
    pub fn finish_refresh(&mut self, request: &DiffRequest, source: LoadedTable, target: LoadedTable) -> (applied: bool)
        ensures
            applied == spec_request_current(*old(self), *request),
            !applied ==> *final(self) == *old(self),
            applied ==> *final(self) == (SchemaDiffDialog {
                loading: false,
                source: Some(source),
                target: Some(target),
                ..*old(self)
            }),
    {
        let current = request.generation == self.request_generation && str_eq(
            request.source_connection_id.as_str(),
            self.source_connection.id.as_str(),
        ) && str_eq(request.target_connection_id.as_str(), self.target_connection.id.as_str())
            && str_eq(request.source_schema.as_str(), self.source_schema.as_str()) && str_eq(
            request.source_table.as_str(),
            self.source_table.as_str(),
        ) && str_eq(request.target_schema.as_str(), self.target_schema.as_str()) && str_eq(
            request.target_table.as_str(),
            self.target_table.as_str(),
        );
        if !current {
            return false;
        }
        self.loading = false;
        self.source = Some(source);
        self.target = Some(target);
        true
    }

    fn current_script(&self) -> (r: Result<MigrationScript, String>)
        ensures
            r is Ok ==> self.spec_script() == Ok::<SpecMigrationScript, Seq<char>>(r->Ok_0@),
            r is Err ==> self.spec_script() == Err::<SpecMigrationScript, Seq<char>>(r->Err_0@),
    {
        let r = current_migration_script(
            &self.source,
            &self.target,
            self.source_connection.driver,
            self.target_connection.driver,
            self.source_schema.as_str(),
            self.source_table.as_str(),
            self.target_schema.as_str(),
            self.target_table.as_str(),
        );
        proof {
            if r is Err {
                assert(crate::text::res_view(Err::<String, String>(r->Err_0)) == Err::<Seq<char>, Seq<char>>(
                    r->Err_0@,
                ));
            }
        }
        r
    }

    fn notify(&mut self, level: NoticeLevel, message: String)
        ensures
            spec_only_notice_changed(*old(self), *final(self)),
            spec_notice_is(final(self).pending_notification, level, message@, true),
    {
        self.pending_notification = Some(Notice { level, message, autohide: true });
    }

    /// Asks to run the migration. Nothing happens while a save or a run is under way; a
    /// production target, a script that cannot be built and an empty script are answered
    /// with a notice; otherwise the confirmation to put to the user is returned.
    pub fn request_execute(&mut self) -> (r: Option<ExecuteRequest>)
        ensures
            old(self).spec_busy() ==> r is None && *final(self) == *old(self),
            !old(self).spec_busy() && old(self).target_connection.production ==> r is None
                && spec_only_notice_changed(*old(self), *final(self)) && spec_notice_is(
                final(self).pending_notification,
                NoticeLevel::Warning,
                "目标连接已标记为生产环境，只能预览或保存迁移 SQL"@,
                true,
            ),
            !old(self).spec_busy() && !old(self).target_connection.production ==> match old(self).spec_script() {
                Err(e) => r is None && spec_only_notice_changed(*old(self), *final(self)) && spec_notice_is(
                    final(self).pending_notification,
                    NoticeLevel::Error,
                    e,
                    true,
                ),
                Ok(s) => if s.statement_count == 0 {
                    r is None && spec_only_notice_changed(*old(self), *final(self)) && spec_notice_is(
                        final(self).pending_notification,
                        NoticeLevel::Info,
                        "结构已一致，无需执行迁移 SQL"@,
                        true,
                    )
                } else {
                    &&& r is Some
                    &&& *final(self) == *old(self)
                    &&& r->0.script@ == s
                    &&& r->0.confirmation@ == spec_migration_confirmation(
                        old(self).target_connection.name@,
                        old(self).target_schema@,
                        old(self).target_table@,
                        old(self).target_connection.driver,
                        s,
                    )
                    &&& r->0.destructive == (s.destructive_statements > 0)
                    &&& spec_execute_current(*old(self), r->0)
                },
            },
    {
        if self.saving_migration || self.executing_migration {
            return None;
        }
        if self.target_connection.production {
            self.notify(NoticeLevel::Warning, String::from_str("目标连接已标记为生产环境，只能预览或保存迁移 SQL"));
            return None;
        }
        let script = match self.current_script() {
            Ok(script) => script,
            Err(error) => {
                self.notify(NoticeLevel::Error, error);
                return None;
            },
        };
        if script.statement_count == 0 {
            self.notify(NoticeLevel::Info, String::from_str("结构已一致，无需执行迁移 SQL"));
            return None;
        }
        let confirmation = migration_confirmation(
            self.target_connection.name.as_str(),
            self.target_schema.as_str(),
            self.target_table.as_str(),
            self.target_connection.driver,
            &script,
        );
        let destructive = script.destructive_statements > 0;
        Some(ExecuteRequest {
            confirmation,
            destructive,
            script,
            generation: self.request_generation,
            target_connection_id: self.target_connection.id.clone(),
            source_schema: self.source_schema.clone(),
            source_table: self.source_table.clone(),
            target_schema: self.target_schema.clone(),
            target_table: self.target_table.clone(),
        })
    }

    /// The user confirmed `request`. If the preview changed meanwhile, the run is refused
    /// with a notice; otherwise the approval is recorded at `now` in front of the history
    /// and the run starts.
    pub fn confirm_execution(&mut self, request: ExecuteRequest, approval_id: String, now: UtcTime) -> (r: Option<ExecutionStart>)
        ensures
            !spec_execute_current(*old(self), request) ==> r is None && spec_only_notice_changed(*old(self), *final(self))
                && spec_notice_is(
                final(self).pending_notification,
                NoticeLevel::Warning,
                "迁移预览已变化，请重新打开预览并确认"@,
                true,
            ),
            spec_execute_current(*old(self), request) ==> {
                &&& r is Some
                &&& *final(self) == (SchemaDiffDialog {
                    migration_approvals: final(self).migration_approvals,
                    executing_migration: true,
                    migration_execution_generation: spec_next_generation(old(self).migration_execution_generation),
                    ..*old(self)
                })
                &&& approvals_view(final(self).migration_approvals@) == spec_take_at_most(
                    seq![spec_new_approval(*old(self), approval_id@, request.script, now)] + approvals_view(
                        old(self).migration_approvals@,
                    ),
                    MAX_MIGRATION_APPROVAL_RECORDS as int,
                )
                &&& r->0.generation == final(self).migration_execution_generation
                &&& r->0.approval_id@ == approval_id@
                &&& r->0.query.sql@ == request.script.sql@
                &&& r->0.query.default_schema is Some
                &&& r->0.query.default_schema->0@ == old(self).target_schema@
                &&& r->0.query.transactional == spec_transactional_migration(old(self).target_connection.driver)
                &&& r->0.statement_count == request.script.statement_count
                &&& r->0.destructive_statements == request.script.destructive_statements
            },
    {
        let same_context = request.generation == self.request_generation && str_eq(
            request.target_connection_id.as_str(),
            self.target_connection.id.as_str(),
        ) && str_eq(request.source_schema.as_str(), self.source_schema.as_str()) && str_eq(
            request.source_table.as_str(),
            self.source_table.as_str(),
        ) && str_eq(request.target_schema.as_str(), self.target_schema.as_str()) && str_eq(
            request.target_table.as_str(),
            self.target_table.as_str(),
        );
        let same_script = if same_context {
            match self.current_script() {
                Ok(current) => str_eq(current.sql.as_str(), request.script.sql.as_str()),
                Err(_) => false,
            }
        } else {
            false
        };
        if !same_script {
            self.notify(NoticeLevel::Warning, String::from_str("迁移预览已变化，请重新打开预览并确认"));
            return None;
        }
        let record = new_migration_approval(
            approval_id.clone(),
            self.source_connection.id.clone(),
            self.source_connection.name.as_str(),
            self.target_connection.id.clone(),
            self.target_connection.name.as_str(),
            self.source_schema.as_str(),
            self.source_table.as_str(),
            self.target_schema.as_str(),
            self.target_table.as_str(),
            self.target_connection.driver,
            &request.script,
            now,
        );
        push_migration_approval(&mut self.migration_approvals, record);
        self.migration_execution_generation = if self.migration_execution_generation == u64::MAX {
            0
        } else {
            self.migration_execution_generation + 1
        };
        self.executing_migration = true;
        let statement_count = request.script.statement_count;
        let destructive_statements = request.script.destructive_statements;
        let query = migration_query(self.target_connection.driver, self.target_schema.as_str(), request.script.sql);
        Some(ExecutionStart {
            generation: self.migration_execution_generation,
            approval_id,
            query,
            statement_count,
            destructive_statements,
        })
    }

    /// The answer to run `generation` of the migration with approval `approval_id`. An answer
    /// to an older run changes nothing. Otherwise the run ends, its outcome is recorded at
    /// `now` on the approval, a notice says how it went, and after a success both tables
    /// are loaded again: the load started is returned.
    pub fn finish_execution(
        &mut self,
        generation: u64,
        approval_id: &str,
        statement_count: usize,
        result: Result<ExecutionReport, String>,
        now: UtcTime,
    ) -> (r: Option<DiffRequest>)
        ensures
            generation != old(self).migration_execution_generation ==> r is None && *final(self) == *old(self),
            generation == old(self).migration_execution_generation ==> match result {
                Ok(report) => {
                    &&& r is Some
                    &&& *final(self) == spec_refreshing(
                        SchemaDiffDialog {
                            executing_migration: false,
                            migration_approvals: final(self).migration_approvals,
                            pending_notification: final(self).pending_notification,
                            ..*old(self)
                        },
                    )
                    &&& spec_request_current(*final(self), r->0)
                    &&& approvals_view(final(self).migration_approvals@) == spec_record_outcome(
                        approvals_view(old(self).migration_approvals@),
                        approval_id@,
                        MigrationApprovalStatus::Executed,
                        Some(report.elapsed_ms),
                        report.warning_count,
                        None,
                        now,
                    )
                    &&& spec_notice_is(
                        final(self).pending_notification,
                        NoticeLevel::Success,
                        spec_execution_success(
                            statement_count as nat,
                            report.elapsed_ms as nat,
                            report.warning_count as nat,
                        ),
                        true,
                    )
                },
                Err(e) => {
                    &&& r is None
                    &&& *final(self) == (SchemaDiffDialog {
                        executing_migration: false,
                        migration_approvals: final(self).migration_approvals,
                        pending_notification: final(self).pending_notification,
                        ..*old(self)
                    })
                    &&& approvals_view(final(self).migration_approvals@) == spec_record_outcome(
                        approvals_view(old(self).migration_approvals@),
                        approval_id@,
                        MigrationApprovalStatus::Failed,
                        None,
                        0,
                        Some(e@),
                        now,
                    )
                    &&& spec_notice_is(final(self).pending_notification, NoticeLevel::Error, "迁移执行失败："@ + e@, true)
                },
            },
    {
        if generation != self.migration_execution_generation {
            return None;
        }
        self.executing_migration = false;
        match result {
            Ok(report) => {
                record_migration_outcome_at(
                    &mut self.migration_approvals,
                    approval_id,
                    MigrationApprovalStatus::Executed,
                    Some(report.elapsed_ms),
                    report.warning_count,
                    None,
                    now,
                );
                let n = decimal(statement_count as u64);
                let ms = decimal(report.elapsed_ms);
                let mut message = cat5("迁移执行成功：", n.as_str(), " 条语句，耗时 ", ms.as_str(), " ms");
                if report.warning_count > 0 {
                    let w = decimal(report.warning_count as u64);
                    push_str(&mut message, "，数据库返回 ");
                    push_str(&mut message, w.as_str());
                    push_str(&mut message, " 条警告");
                }
                push_str(&mut message, "；正在重新读取元数据");
                assert(message@ == spec_execution_success(
                    statement_count as nat,
                    report.elapsed_ms as nat,
                    report.warning_count as nat,
                ));
                let ghost before = *self;
                assert(before == (SchemaDiffDialog {
                    executing_migration: false,
                    migration_approvals: before.migration_approvals,
                    ..*old(self)
                }));
                self.notify(NoticeLevel::Success, message);
                Some(self.start_refresh())
            },
            Err(error) => {
                record_migration_outcome_at(
                    &mut self.migration_approvals,
                    approval_id,
                    MigrationApprovalStatus::Failed,
                    None,
                    0,
                    Some(error.as_str()),
                    now,
                );
                let message = cat2("迁移执行失败：", error.as_str());
                self.notify(NoticeLevel::Error, message);
                None
            },
        }
    }

    /// Asks to save the migration script. Nothing happens while a save or a run is under
    /// way; a script that cannot be built and an empty script are answered with a notice;
    /// otherwise saving starts and what to write is returned. A production target may save.
    pub fn begin_save(&mut self) -> (r: Option<SaveRequest>)
        ensures
            old(self).spec_busy() ==> r is None && *final(self) == *old(self),
            !old(self).spec_busy() ==> match old(self).spec_script() {
                Err(e) => r is None && spec_only_notice_changed(*old(self), *final(self)) && spec_notice_is(
                    final(self).pending_notification,
                    NoticeLevel::Error,
                    e,
                    true,
                ),
                Ok(s) => if s.statement_count == 0 {
                    r is None && spec_only_notice_changed(*old(self), *final(self)) && spec_notice_is(
                        final(self).pending_notification,
                        NoticeLevel::Info,
                        "结构已一致，无需保存迁移 SQL"@,
                        true,
                    )
                } else {
                    &&& r is Some
                    &&& *final(self) == (SchemaDiffDialog { saving_migration: true, ..*old(self) })
                    &&& r->0.sql@ == s.sql
                    &&& r->0.database_type@ == spec_export_database_type(old(self).target_connection.driver)
                    &&& r->0.object@ == old(self).source_table@ + "_to_"@ + old(self).target_table@
                },
            },
    {
        if self.saving_migration || self.executing_migration {
            return None;
        }
        let script = match self.current_script() {
            Ok(script) => script,
            Err(error) => {
                self.notify(NoticeLevel::Error, error);
                return None;
            },
        };
        if script.statement_count == 0 {
            self.notify(NoticeLevel::Info, String::from_str("结构已一致，无需保存迁移 SQL"));
            return None;
        }
        let object = cat3(self.source_table.as_str(), "_to_", self.target_table.as_str());
        self.saving_migration = true;
        Some(SaveRequest {
            sql: script.sql,
            database_type: export_database_type(self.target_connection.driver),
            object,
        })
    }

    /// Saving ended: a written file and a failure are told in a notice, a cancelled dialog
    /// says nothing.
    pub fn finish_save(&mut self, outcome: SaveOutcome)
        ensures
            match outcome {
                SaveOutcome::Cancelled => *final(self) == (SchemaDiffDialog { saving_migration: false, ..*old(self) }),
                SaveOutcome::Saved { file_name } => {
                    &&& *final(self) == (SchemaDiffDialog {
                        saving_migration: false,
                        pending_notification: final(self).pending_notification,
                        ..*old(self)
                    })
                    &&& spec_notice_is(
                        final(self).pending_notification,
                        NoticeLevel::Success,
                        "已保存迁移 SQL："@ + file_name@,
                        true,
                    )
                },
                SaveOutcome::Failed { error } => {
                    &&& *final(self) == (SchemaDiffDialog {
                        saving_migration: false,
                        pending_notification: final(self).pending_notification,
                        ..*old(self)
                    })
                    &&& spec_notice_is(
                        final(self).pending_notification,
                        NoticeLevel::Error,
                        "保存迁移 SQL 失败："@ + error@,
                        true,
                    )
                },
            },
    {
        self.saving_migration = false;
        match outcome {
            SaveOutcome::Cancelled => {},
            SaveOutcome::Saved { file_name } => {
                let message = cat2("已保存迁移 SQL：", file_name.as_str());
                self.notify(NoticeLevel::Success, message);
            },
            SaveOutcome::Failed { error } => {
                let message = cat2("保存迁移 SQL 失败：", error.as_str());
                self.notify(NoticeLevel::Error, message);
            },
        }
    }

    /// The stored approval history arrived: it is merged with the records made meanwhile.
    /// A failed read is told in a notice.
    pub fn finish_loading_approvals(&mut self, loaded: Result<Vec<MigrationApprovalRecord>, String>)
        ensures
            match loaded {
                Ok(records) => {
                    &&& *final(self) == (SchemaDiffDialog {
                        migration_approvals: final(self).migration_approvals,
                        ..*old(self)
                    })
                    &&& approvals_view(final(self).migration_approvals@) == spec_merge_approvals(
                        approvals_view(records@),
                        approvals_view(old(self).migration_approvals@),
                    )
                },
                Err(e) => spec_only_notice_changed(*old(self), *final(self)) && spec_notice_is(
                    final(self).pending_notification,
                    NoticeLevel::Warning,
                    e@,
                    true,
                ),
            },
    {
        match loaded {
            Ok(records) => {
                let mut current: Vec<MigrationApprovalRecord> = Vec::new();
                std::mem::swap(&mut current, &mut self.migration_approvals);
                self.migration_approvals = merge_migration_approvals(records, current);
            },
            Err(error) => {
                self.notify(NoticeLevel::Warning, error);
            },
        }
    }

    /// Shows or hides the migration preview.
    pub fn toggle_migration(&mut self)
        ensures
            *final(self) == (SchemaDiffDialog { migration_visible: !old(self).migration_visible, ..*old(self) }),
    {
        self.migration_visible = !self.migration_visible;
    }
}

/// The warnings of both loads as the dialog lists them, each marked with its side.
pub fn diff_warning_lines(source: &Vec<String>, target: &Vec<String>) -> (r: Vec<String>)
    ensures
        r@.len() == source@.len() + target@.len(),
        forall|i: int| 0 <= i < source@.len() ==> #[trigger] r@[i]@ == "源表："@ + source@[i]@,
        forall|j: int| 0 <= j < target@.len() ==> #[trigger] r@[source@.len() + j]@ == "目标表："@ + target@[j]@,
{
    let mut r: Vec<String> = Vec::new();
    let mut i: usize = 0;
    while i < source.len()
        invariant
            i <= source@.len(),
            r@.len() == i,
            forall|k: int| 0 <= k < i ==> #[trigger] r@[k]@ == "源表："@ + source@[k]@,
        decreases source@.len() - i,
    {
        r.push(cat2("源表：", source[i].as_str()));
        i = i + 1;
    }
    let mut j: usize = 0;
    while j < target.len()
        invariant
            j <= target@.len(),
            r@.len() == source@.len() + j,
            forall|k: int| 0 <= k < source@.len() ==> #[trigger] r@[k]@ == "源表："@ + source@[k]@,
            forall|k: int| 0 <= k < j ==> #[trigger] r@[source@.len() + k]@ == "目标表："@ + target@[k]@,
        decreases target@.len() - j,
    {
        r.push(cat2("目标表：", target[j].as_str()));
        assert(r@[source@.len() + j as int]@ == "目标表："@ + target@[j as int]@);
        j = j + 1;
    }
    r
}

// ---------------------------------------------------------------------------------------------
// What the dialog shows
// ---------------------------------------------------------------------------------------------

/// The migration panel: nothing to build from, why the script cannot be built, or the
/// script with its status and actions.
#[derive(Debug)]
pub enum MigrationPanel {
    Unavailable { note: &'static str },
    Failed { error: String },
    Ready(MigrationPanelView),
}

/// The migration panel of a script that could be built.
#[derive(Debug)]
pub struct MigrationPanelView {
    pub status: &'static str,
    pub count_label: String,
    pub destructive_label: Option<String>,
    pub save_enabled: bool,
    pub execute_tooltip: &'static str,
    pub execute_enabled: bool,
    pub note: &'static str,
    pub warnings: Vec<String>,
    /// The script, also what the copy button copies.
    pub sql: String,
}

/// The main area of the dialog.
#[derive(Debug)]
pub enum DiffBody {
    Migration(MigrationPanel),
    Loading { note: &'static str },
    Failed { error: String },
    /// The difference sections, listed in `DiffDialogView::sections`.
    Sections,
    Empty { note: &'static str },
}

/// Everything the dialog shows, computed from its state.
#[derive(Debug)]
pub struct DiffDialogView {
    pub title: String,
    pub subtitle: String,
    /// The differences, once both tables are loaded.
    pub sections: Option<Vec<MetadataDiffSection>>,
    /// What the copy button copies: the differences as text.
    pub copy_text: String,
    /// Warnings of both loads, each marked with its side; empty without both loads.
    pub warning_lines: Vec<String>,
    pub migration_toggle_tooltip: &'static str,
    pub migration_toggle_enabled: bool,
    pub copy_enabled: bool,
    pub refresh_enabled: bool,
    pub body: DiffBody,
}

/// Both tables are loaded, and neither load left a warning.
pub open spec fn spec_metadata_complete(d: SchemaDiffDialog) -> bool {
    match (d.source, d.target) {
        (Some(s), Some(t)) => s.warnings@.len() == 0 && t.warnings@.len() == 0,
        _ => false,
    }
}

/// The script previewed in the migration panel: none before both tables are loaded, and
/// refused while a load left a warning.
pub open spec fn spec_preview(d: SchemaDiffDialog) -> Option<Result<SpecMigrationScript, Seq<char>>> {
    match (d.source, d.target) {
        (Some(s), Some(t)) => Some(
            if s.warnings@.len() == 0 && t.warnings@.len() == 0 {
                spec_build_migration_script(
                    d.target_connection.driver,
                    d.source_schema@,
                    d.source_table@,
                    d.target_schema@,
                    d.target_table@,
                    s.metadata@,
                    t.metadata@,
                )
            } else {
                Err("源表或目标表的元数据未完整加载，无法生成迁移 SQL；请刷新后重试"@)
            },
        ),
        _ => None,
    }
}

/// Whether `panel` shows `preview` for `d`.
pub open spec fn spec_migration_panel(
    d: SchemaDiffDialog,
    preview: Option<Result<SpecMigrationScript, Seq<char>>>,
    panel: MigrationPanel,
) -> bool {
    match preview {
        None => panel matches MigrationPanel::Unavailable { note } && note@ == "暂无可生成的迁移 SQL"@,
        Some(Err(e)) => panel matches MigrationPanel::Failed { error } && error@ == e,
        Some(Ok(s)) => panel matches MigrationPanel::Ready(v) && {
            let has = s.statement_count > 0;
            &&& v.status@ == (if d.executing_migration {
                "正在执行迁移"@
            } else if has {
                "可生成迁移"@
            } else {
                "结构已一致"@
            })
            &&& v.count_label@ == spec_decimal(s.statement_count) + " 条语句"@
            &&& opt_view(v.destructive_label) == (if s.destructive_statements > 0 {
                Some("含 "@ + spec_decimal(s.destructive_statements) + " 条删除或修改语句"@)
            } else {
                None
            })
            &&& v.save_enabled == (has && !d.saving_migration && !d.executing_migration)
            &&& v.execute_tooltip@ == (if d.target_connection.production {
                "生产连接禁止执行迁移"@
            } else if d.executing_migration {
                "正在执行迁移"@
            } else {
                "确认后执行迁移 SQL"@
            })
            &&& v.execute_enabled == (has && !d.saving_migration && !d.executing_migration
                && !d.target_connection.production)
            &&& v.note@ == (if d.target_connection.production {
                "目标连接为生产环境，只能预览或保存迁移 SQL。"@
            } else if d.executing_migration {
                "正在执行迁移，完成后会自动重新读取两张表的元数据。"@
            } else {
                "执行会直接修改目标表；确认前请人工复核脚本，保存的脚本不会自动执行。"@
            })
            &&& strings_view(v.warnings@) == s.warnings
            &&& v.sql@ == s.sql
        },
    }
}

impl SchemaDiffDialog {
    /// The script the migration panel previews.
    pub fn preview_migration(&self) -> (r: Option<Result<MigrationScript, String>>)
        ensures
            match r {
                None => spec_preview(*self) is None,
                Some(Ok(s)) => spec_preview(*self) == Some(Ok::<SpecMigrationScript, Seq<char>>(s@)),
                Some(Err(e)) => spec_preview(*self) == Some(Err::<SpecMigrationScript, Seq<char>>(e@)),
            },
    {
        match (&self.source, &self.target) {
            (Some(s), Some(t)) => {
                if s.warnings.len() == 0 && t.warnings.len() == 0 {
                    Some(
                        build_migration_script(
                            self.target_connection.driver,
                            self.source_schema.as_str(),
                            self.source_table.as_str(),
                            self.target_schema.as_str(),
                            self.target_table.as_str(),
                            &s.metadata,
                            &t.metadata,
                        ),
                    )
                } else {
                    Some(Err(String::from_str("源表或目标表的元数据未完整加载，无法生成迁移 SQL；请刷新后重试")))
                }
            },
            _ => None,
        }
    }

    /// The migration panel for a previewed script.
    pub fn migration_panel(&self, preview: Option<Result<MigrationScript, String>>) -> (r: MigrationPanel)
        ensures
            spec_migration_panel(
                *self,
                match preview {
                    None => None,
                    Some(Ok(s)) => Some(Ok::<SpecMigrationScript, Seq<char>>(s@)),
                    Some(Err(e)) => Some(Err::<SpecMigrationScript, Seq<char>>(e@)),
                },
                r,
            ),
    {
        let script = match preview {
            None => return MigrationPanel::Unavailable { note: "暂无可生成的迁移 SQL" },
            Some(Err(error)) => return MigrationPanel::Failed { error },
            Some(Ok(script)) => script,
        };
        let has = script.statement_count > 0;
        let status = if self.executing_migration {
            "正在执行迁移"
        } else if has {
            "可生成迁移"
        } else {
            "结构已一致"
        };
        let n = decimal(script.statement_count as u64);
        let count_label = cat2(n.as_str(), " 条语句");
        let destructive_label = if script.destructive_statements > 0 {
            let d = decimal(script.destructive_statements as u64);
            Some(cat3("含 ", d.as_str(), " 条删除或修改语句"))
        } else {
            None
        };
        let production = self.target_connection.production;
        let execute_tooltip = if production {
            "生产连接禁止执行迁移"
        } else if self.executing_migration {
            "正在执行迁移"
        } else {
            "确认后执行迁移 SQL"
        };
        let note = if production {
            "目标连接为生产环境，只能预览或保存迁移 SQL。"
        } else if self.executing_migration {
            "正在执行迁移，完成后会自动重新读取两张表的元数据。"
        } else {
            "执行会直接修改目标表；确认前请人工复核脚本，保存的脚本不会自动执行。"
        };
        MigrationPanel::Ready(
            MigrationPanelView {
                status,
                count_label,
                destructive_label,
                save_enabled: has && !self.saving_migration && !self.executing_migration,
                execute_tooltip,
                execute_enabled: has && !self.saving_migration && !self.executing_migration && !production,
                note,
                warnings: script.warnings,
                sql: script.sql,
            },
        )
    }

    /// Everything the dialog shows: titles, differences, load warnings, which actions are
    /// offered, and the main area, which is the migration panel while it is open, else the
    /// load, its error, the differences or an empty note, in that order.
    pub fn view(&self) -> (r: DiffDialogView)
        ensures
            r.title@ == self.source_table@ + " · "@ + self.target_table@,
            r.subtitle@ == "源："@ + self.source_connection.name@ + " / "@ + self.source_schema@ + "."@
                + self.source_table@ + " · 目标："@ + self.target_connection.name@ + " / "@ + self.target_schema@
                + "."@ + self.target_table@,
            match (self.source, self.target) {
                (Some(s), Some(t)) => {
                    &&& r.sections is Some
                    &&& sections_view(r.sections->0@) == spec_build_table_diff(s.metadata@, t.metadata@)
                    &&& r.copy_text@ == spec_format_table_diff(sections_view(r.sections->0@))
                    &&& r.warning_lines@.len() == s.warnings@.len() + t.warnings@.len()
                    &&& forall|i: int|
                        0 <= i < s.warnings@.len() ==> #[trigger] r.warning_lines@[i]@ == "源表："@ + s.warnings@[i]@
                    &&& forall|j: int|
                        0 <= j < t.warnings@.len() ==> #[trigger] r.warning_lines@[s.warnings@.len() + j]@
                            == "目标表："@ + t.warnings@[j]@
                },
                _ => r.sections is None && r.copy_text@.len() == 0 && r.warning_lines@.len() == 0,
            },
            r.migration_toggle_tooltip@ == (if self.migration_visible {
                "返回结构差异"@
            } else if !spec_metadata_complete(*self) {
                "元数据未完整加载，无法预览迁移 SQL"@
            } else {
                "预览迁移 SQL"@
            }),
            r.migration_toggle_enabled == (!self.loading && !self.executing_migration && r.sections is Some
                && spec_metadata_complete(*self)),
            r.copy_enabled == (!self.loading && r.sections is Some),
            r.refresh_enabled == (!self.loading && !self.executing_migration),
            self.migration_visible ==> (r.body matches DiffBody::Migration(panel) && spec_migration_panel(
                *self,
                spec_preview(*self),
                panel,
            )),
            !self.migration_visible ==> if self.loading && r.sections is None {
                r.body matches DiffBody::Loading { note } && note@ == "正在加载两张表的列、索引和外键…"@
            } else if self.error is Some {
                r.body matches DiffBody::Failed { error } && error@ == self.error->0@
            } else if r.sections is Some {
                r.body is Sections
            } else {
                r.body matches DiffBody::Empty { note } && note@ == "暂无可比较的元数据"@
            },
    {
        let title = cat3(self.source_table.as_str(), " · ", self.target_table.as_str());
        let mut subtitle = cat5(
            "源：",
            self.source_connection.name.as_str(),
            " / ",
            self.source_schema.as_str(),
            ".",
        );
        push_str(&mut subtitle, self.source_table.as_str());
        push_str(&mut subtitle, " · 目标：");
        push_str(&mut subtitle, self.target_connection.name.as_str());
        push_str(&mut subtitle, " / ");
        push_str(&mut subtitle, self.target_schema.as_str());
        push_str(&mut subtitle, ".");
        push_str(&mut subtitle, self.target_table.as_str());
        let (sections, copy_text, warning_lines, complete) = match (&self.source, &self.target) {
            (Some(s), Some(t)) => {
                let sections = build_table_diff(&s.metadata, &t.metadata);
                let copy_text = format_table_diff(sections.as_slice());
                let lines = diff_warning_lines(&s.warnings, &t.warnings);
                (Some(sections), copy_text, lines, s.warnings.len() == 0 && t.warnings.len() == 0)
            },
            _ => (None, String::new(), Vec::new(), false),
        };
        let has_sections = sections.is_some();
        let migration_toggle_tooltip = if self.migration_visible {
            "返回结构差异"
        } else if !complete {
            "元数据未完整加载，无法预览迁移 SQL"
        } else {
            "预览迁移 SQL"
        };
        let body = if self.migration_visible {
            let preview = self.preview_migration();
            DiffBody::Migration(self.migration_panel(preview))
        } else if self.loading && !has_sections {
            DiffBody::Loading { note: "正在加载两张表的列、索引和外键…" }
        } else {
            match &self.error {
                Some(e) => DiffBody::Failed { error: e.clone() },
                None => if has_sections {
                    DiffBody::Sections
                } else {
                    DiffBody::Empty { note: "暂无可比较的元数据" }
                },
            }
        };
        DiffDialogView {
            title,
            subtitle,
            sections,
            copy_text,
            warning_lines,
            migration_toggle_tooltip,
            migration_toggle_enabled: !self.loading && !self.executing_migration && has_sections && complete,
            copy_enabled: !self.loading && has_sections,
            refresh_enabled: !self.loading && !self.executing_migration,
            body,
        }
    }
}

} // verus!
