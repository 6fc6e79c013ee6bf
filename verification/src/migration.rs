//! Read-only migration scripts that make a target table match a source table's metadata.

use vstd::prelude::*;

use crate::domain::{
    TableMetadata, Column, DriverKind, ForeignKey, ForeignKeyAction, GeneratedColumnStorage, IdentityGeneration,
    Index, SpecColumn, SpecForeignKey, SpecIndex, columns_view, foreign_keys_view, indexes_view,
    names_view, opt_view, spec_action_sql,
};
use crate::metadata::{
    column_equivalent, definition_equivalent, find_col, find_column, has_col, rename_equivalent,
    spec_column_equivalent, spec_definition_equivalent, spec_rename_equivalent,
    positions_equal, spec_positions_equal,
    generated_definition_changed, normalized_optional, spec_generated_definition_changed,
    spec_normalized_optional, non_empty, spec_non_empty, any_changed, find_fk, find_fk_by_name, find_index, find_index_by_name, foreign_key_equivalent,
    index_equivalent, spec_any_changed, spec_foreign_key_equivalent, spec_index_equivalent,
    column_names, index_names, fk_names, spec_same_names, find_name, lemma_find_name_from, spec_changed_column,
};
use crate::sql_text::{
    qualified_name, spec_qualified_name, fragment, identifier, identifiers, is_simple_identifier, spec_fragment, spec_identifier,
    spec_identifiers, spec_is_simple_identifier,
};
use crate::text::{
    same_name, spec_same_name, escape_literal, spec_escape_literal, cat2, cat3, cat4, cat5, join, lemma_prepend_assoc, lemma_prepend_empty, prepend, push_str, res_view,
    spec_join, strings_view, spec_trim, has_control, escape_literal_char,
};

verus! {

/// The dialects a migration script can be generated for.
pub open spec fn migratable(driver: DriverKind) -> bool {
    driver == DriverKind::Mysql || driver == DriverKind::Postgres || driver == DriverKind::Sqlite
}

/// Dependency-ordered step of a migration.
#[derive(Clone, Copy, Debug, PartialEq, Eq, Structural)]
pub enum MigrationPhase {
    DropForeignKeys,
    DropIndexes,
    ChangeColumns,
    AddIndexes,
    AddForeignKeys,
}

/// Title shown for a phase.
pub open spec fn spec_phase_title(phase: MigrationPhase) -> Seq<char> {
    match phase {
        MigrationPhase::DropForeignKeys => "删除受影响的外键"@,
        MigrationPhase::DropIndexes => "删除受影响的索引"@,
        MigrationPhase::ChangeColumns => "处理字段变化"@,
        MigrationPhase::AddIndexes => "恢复索引"@,
        MigrationPhase::AddForeignKeys => "恢复外键"@,
    }
}

impl MigrationPhase {
    /// Title shown for this phase.
    pub fn title(self) -> (r: &'static str)
        ensures
            r@ == spec_phase_title(self),
    {
        match self {
            MigrationPhase::DropForeignKeys => "删除受影响的外键",
            MigrationPhase::DropIndexes => "删除受影响的索引",
            MigrationPhase::ChangeColumns => "处理字段变化",
            MigrationPhase::AddIndexes => "恢复索引",
            MigrationPhase::AddForeignKeys => "恢复外键",
        }
    }
}

/// One generated statement.
#[derive(Debug)]
pub struct MigrationStatement {
    pub sql: String,
    pub destructive: bool,
    pub phase: MigrationPhase,
}

/// Ghost model of a statement.
pub struct SpecStatement {
    pub sql: Seq<char>,
    pub destructive: bool,
    pub phase: MigrationPhase,
}

impl View for MigrationStatement {
    type V = SpecStatement;

    open spec fn view(&self) -> SpecStatement {
        SpecStatement { sql: self.sql@, destructive: self.destructive, phase: self.phase }
    }
}

/// Views of statements.
pub open spec fn statements_view(v: Seq<MigrationStatement>) -> Seq<SpecStatement> {
    v.map_values(|s: MigrationStatement| s@)
}

/// A statement in ghost form.
pub open spec fn stmt(sql: Seq<char>, destructive: bool, phase: MigrationPhase) -> SpecStatement {
    SpecStatement { sql, destructive, phase }
}

/// Appends `more` to `out`, keeping the view of the list in step.
fn append_statements(out: &mut Vec<MigrationStatement>, more: Vec<MigrationStatement>)
    ensures
        statements_view(final(out)@) == statements_view(old(out)@) + statements_view(more@),
{
    let mut more = more;
    let ghost m0 = statements_view(more@);
    let ghost o0 = statements_view(out@);
    let mut rev: Vec<MigrationStatement> = Vec::new();
    while more.len() > 0
        invariant
            statements_view(more@) + statements_view(rev@).reverse() == m0,
            statements_view(out@) == o0,
        decreases more.len(),
    {
        let ghost before_more = statements_view(more@);
        let ghost before_rev = statements_view(rev@);
        let s = more.pop().unwrap();
        rev.push(s);
        assert(statements_view(rev@) == before_rev.push(s@));
        assert(before_more == statements_view(more@).push(s@));
        assert(statements_view(rev@).reverse() == seq![s@] + before_rev.reverse());
    }
    assert(statements_view(rev@).reverse() == m0);
    while rev.len() > 0
        invariant
            statements_view(out@) + statements_view(rev@).reverse() == o0 + m0,
        decreases rev.len(),
    {
        let ghost before_rev = statements_view(rev@);
        let ghost before_out = statements_view(out@);
        let s = rev.pop().unwrap();
        assert(before_rev == statements_view(rev@).push(s@));
        assert(before_rev.reverse() == seq![s@] + statements_view(rev@).reverse());
        out.push(s);
        assert(statements_view(out@) == before_out.push(s@));
    }
}

// ---------------------------------------------------------------------------------------------
// Foreign keys
// ---------------------------------------------------------------------------------------------

/// Statement that drops the target foreign key `old`.
pub open spec fn spec_fk_drop_sql(driver: DriverKind, target_name: Seq<char>, old: SpecForeignKey) -> Result<
    Seq<char>,
    Seq<char>,
> {
    match spec_identifier(driver, old.name, "外键名"@) {
        Err(e) => Err(e),
        Ok(name) => if driver == DriverKind::Mysql {
            Ok("ALTER TABLE "@ + target_name + " DROP FOREIGN KEY "@ + name + ";"@)
        } else if driver == DriverKind::Postgres {
            Ok("ALTER TABLE "@ + target_name + " DROP CONSTRAINT "@ + name + ";"@)
        } else {
            Err("SQLite 不支持原地删除或重建外键，请手工重建表"@)
        },
    }
}

/// A target foreign key that is missing from the source, defined differently there,
/// or that covers a column the migration changes.
pub open spec fn spec_fk_drop_needed(
    old: SpecForeignKey,
    source_fks: Seq<SpecForeignKey>,
    source_cols: Seq<SpecColumn>,
    target_cols: Seq<SpecColumn>,
) -> bool {
    match find_fk(source_fks, old.name) {
        None => true,
        Some(j) => !spec_foreign_key_equivalent(old, source_fks[j]) || spec_any_changed(
            old.columns,
            source_cols,
            target_cols,
        ),
    }
}

/// Drop statements for the foreign keys `olds`, in order.
pub open spec fn spec_fk_drops(
    driver: DriverKind,
    target_name: Seq<char>,
    source_cols: Seq<SpecColumn>,
    target_cols: Seq<SpecColumn>,
    source_fks: Seq<SpecForeignKey>,
    olds: Seq<SpecForeignKey>,
) -> Result<Seq<SpecStatement>, Seq<char>>
    decreases olds.len(),
{
    if olds.len() == 0 {
        Ok(Seq::empty())
    } else {
        let rest = spec_fk_drops(
            driver,
            target_name,
            source_cols,
            target_cols,
            source_fks,
            olds.drop_first(),
        );
        if spec_fk_drop_needed(olds[0], source_fks, source_cols, target_cols) {
            match spec_fk_drop_sql(driver, target_name, olds[0]) {
                Err(e) => Err(e),
                Ok(sql) => prepend(seq![stmt(sql, true, MigrationPhase::DropForeignKeys)], rest),
            }
        } else {
            rest
        }
    }
}

fn fk_drop_sql(driver: DriverKind, target_name: &str, old: &ForeignKey) -> (r: Result<
    String,
    String,
>)
    requires
        migratable(driver),
    ensures
        res_view(r) == spec_fk_drop_sql(driver, target_name@, old@),
{
    let name = identifier(driver, old.name.as_str(), "外键名")?;
    if driver == DriverKind::Mysql {
        let mut s = cat3("ALTER TABLE ", target_name, " DROP FOREIGN KEY ");
        push_str(&mut s, name.as_str());
        push_str(&mut s, ";");
        Ok(s)
    } else if driver == DriverKind::Postgres {
        let mut s = cat3("ALTER TABLE ", target_name, " DROP CONSTRAINT ");
        push_str(&mut s, name.as_str());
        push_str(&mut s, ";");
        Ok(s)
    } else {
        Err(String::from_str("SQLite 不支持原地删除或重建外键，请手工重建表"))
    }
}

/// Drops each target foreign key that the source removes or redefines, or whose columns change.
pub fn append_foreign_key_drops(
    driver: DriverKind,
    target_name: &str,
    source_columns: &[Column],
    target_columns: &[Column],
    source: &[ForeignKey],
    target: &[ForeignKey],
) -> (r: Result<Vec<MigrationStatement>, String>)
    requires
        migratable(driver),
    ensures
        match r {
            Ok(v) => spec_fk_drops(
                driver,
                target_name@,
                columns_view(source_columns@),
                columns_view(target_columns@),
                foreign_keys_view(source@),
                foreign_keys_view(target@),
            ) == Ok::<Seq<SpecStatement>, Seq<char>>(statements_view(v@)),
            Err(e) => spec_fk_drops(
                driver,
                target_name@,
                columns_view(source_columns@),
                columns_view(target_columns@),
                foreign_keys_view(source@),
                foreign_keys_view(target@),
            ) == Err::<Seq<SpecStatement>, Seq<char>>(e@),
        },
{
    let ghost sc = columns_view(source_columns@);
    let ghost tc = columns_view(target_columns@);
    let ghost sf = foreign_keys_view(source@);
    let ghost olds = foreign_keys_view(target@);
    let ghost whole = spec_fk_drops(driver, target_name@, sc, tc, sf, olds);
    let mut out: Vec<MigrationStatement> = Vec::new();
    let mut i: usize = 0;
    proof {
        assert(olds.skip(0) == olds);
        lemma_prepend_empty(whole);
    }
    while i < target.len()
        invariant
            i <= target.len(),
            migratable(driver),
            sc == columns_view(source_columns@),
            tc == columns_view(target_columns@),
            sf == foreign_keys_view(source@),
            olds == foreign_keys_view(target@),
            whole == spec_fk_drops(driver, target_name@, sc, tc, sf, olds),
            whole == prepend(
                statements_view(out@),
                spec_fk_drops(driver, target_name@, sc, tc, sf, olds.skip(i as int)),
            ),
        decreases target.len() - i,
    {
        let ghost rest = spec_fk_drops(driver, target_name@, sc, tc, sf, olds.skip(i + 1));
        assert(olds.skip(i as int).drop_first() == olds.skip(i + 1));
        assert(olds.skip(i as int)[0] == target@[i as int]@);
        let old = &target[i];
        let needed = match find_fk_by_name(source, old.name.as_str()) {
            None => true,
            Some(j) => !foreign_key_equivalent(old, &source[j]) || any_changed(
                old.columns.as_slice(),
                source_columns,
                target_columns,
            ),
        };
        if needed {
            let sql = fk_drop_sql(driver, target_name, old)?;
            let ghost before = statements_view(out@);
            let ghost st = stmt(sql@, true, MigrationPhase::DropForeignKeys);
            out.push(MigrationStatement { sql, destructive: true, phase: MigrationPhase::DropForeignKeys });
            assert(statements_view(out@) == before + seq![st]);
            proof {
                lemma_prepend_assoc(before, seq![st], rest);
            }
        }
        i = i + 1;
    }
    assert(olds.skip(target.len() as int) == Seq::<SpecForeignKey>::empty());
    assert(statements_view(out@) + Seq::<SpecStatement>::empty() == statements_view(out@));
    Ok(out)
}

/// Referential actions written after the reference; `NO ACTION` is the default and left out.
pub open spec fn spec_fk_actions(fk: SpecForeignKey) -> Seq<char> {
    (if fk.on_delete != ForeignKeyAction::NoAction {
        " ON DELETE "@ + spec_action_sql(fk.on_delete)
    } else {
        Seq::empty()
    }) + (if fk.on_update != ForeignKeyAction::NoAction {
        " ON UPDATE "@ + spec_action_sql(fk.on_update)
    } else {
        Seq::empty()
    })
}

/// Statement that adds the foreign key `fk` to the target table.
pub open spec fn spec_fk_add_sql(driver: DriverKind, target_name: Seq<char>, fk: SpecForeignKey) -> Result<
    Seq<char>,
    Seq<char>,
> {
    if fk.columns.len() == 0 || fk.columns.len() != fk.ref_columns.len() {
        Err("外键 "@ + fk.name + " 的字段数量不一致，无法生成迁移 SQL"@)
    } else {
        match spec_identifier(driver, fk.name, "外键名"@) {
            Err(e) => Err(e),
            Ok(name) => match spec_identifiers(driver, fk.columns, "外键字段"@) {
                Err(e) => Err(e),
                Ok(columns) => match spec_identifiers(driver, fk.ref_columns, "外键引用字段"@) {
                    Err(e) => Err(e),
                    Ok(ref_columns) => match spec_identifier(
                        driver,
                        fk.ref_schema,
                        "外键引用 Schema"@,
                    ) {
                        Err(e) => Err(e),
                        Ok(ref_schema) => match spec_identifier(driver, fk.ref_table, "外键引用表"@) {
                            Err(e) => Err(e),
                            Ok(ref_table) => Ok(
                                "ALTER TABLE "@ + target_name + " ADD CONSTRAINT "@ + name
                                    + " FOREIGN KEY ("@ + columns + ") REFERENCES "@ + ref_schema
                                    + "."@ + ref_table + " ("@ + ref_columns + ")"@
                                    + spec_fk_actions(fk) + ";"@,
                            ),
                        },
                    },
                },
            },
        }
    }
}

/// Builds the statement that adds a foreign key, keeping non-default actions.
pub fn foreign_key_add_sql(driver: DriverKind, target_name: &str, fk: &ForeignKey) -> (r: Result<
    String,
    String,
>)
    ensures
        res_view(r) == spec_fk_add_sql(driver, target_name@, fk@),
{
    if fk.columns.len() == 0 || fk.columns.len() != fk.ref_columns.len() {
        return Err(cat3("外键 ", fk.name.as_str(), " 的字段数量不一致，无法生成迁移 SQL"));
    }
    let name = identifier(driver, fk.name.as_str(), "外键名")?;
    let columns = identifiers(driver, fk.columns.as_slice(), "外键字段")?;
    let ref_columns = identifiers(driver, fk.ref_columns.as_slice(), "外键引用字段")?;
    let ref_schema = identifier(driver, fk.ref_schema.as_str(), "外键引用 Schema")?;
    let ref_table = identifier(driver, fk.ref_table.as_str(), "外键引用表")?;
    let mut actions = String::new();
    if fk.on_delete != ForeignKeyAction::NoAction {
        push_str(&mut actions, " ON DELETE ");
        push_str(&mut actions, fk.on_delete.as_sql());
    }
    let ghost a1 = actions@;
    if fk.on_update != ForeignKeyAction::NoAction {
        push_str(&mut actions, " ON UPDATE ");
        push_str(&mut actions, fk.on_update.as_sql());
    }
    assert(actions@ == spec_fk_actions(fk@));
    let mut s = cat3("ALTER TABLE ", target_name, " ADD CONSTRAINT ");
    push_str(&mut s, name.as_str());
    push_str(&mut s, " FOREIGN KEY (");
    push_str(&mut s, columns.as_str());
    push_str(&mut s, ") REFERENCES ");
    push_str(&mut s, ref_schema.as_str());
    push_str(&mut s, ".");
    push_str(&mut s, ref_table.as_str());
    push_str(&mut s, " (");
    push_str(&mut s, ref_columns.as_str());
    push_str(&mut s, ")");
    push_str(&mut s, actions.as_str());
    push_str(&mut s, ";");
    Ok(s)
}

/// A source foreign key that the target lacks or defines differently.
pub open spec fn spec_fk_add_needed(new: SpecForeignKey, target_fks: Seq<SpecForeignKey>) -> bool {
    match find_fk(target_fks, new.name) {
        None => true,
        Some(j) => !spec_foreign_key_equivalent(target_fks[j], new),
    }
}

/// Add statements for the foreign keys `news`, in order.
pub open spec fn spec_fk_adds(
    driver: DriverKind,
    target_name: Seq<char>,
    target_fks: Seq<SpecForeignKey>,
    news: Seq<SpecForeignKey>,
) -> Result<Seq<SpecStatement>, Seq<char>>
    decreases news.len(),
{
    if news.len() == 0 {
        Ok(Seq::empty())
    } else {
        let rest = spec_fk_adds(driver, target_name, target_fks, news.drop_first());
        if spec_fk_add_needed(news[0], target_fks) {
            if driver == DriverKind::Sqlite {
                Err("SQLite 不支持通过 ALTER TABLE 添加外键，请手工重建表"@)
            } else {
                match spec_fk_add_sql(driver, target_name, news[0]) {
                    Err(e) => Err(e),
                    Ok(sql) => prepend(seq![stmt(sql, false, MigrationPhase::AddForeignKeys)], rest),
                }
            }
        } else {
            rest
        }
    }
}

/// Adds each source foreign key that the target lacks or defines differently.
pub fn append_foreign_key_additions(
    driver: DriverKind,
    target_name: &str,
    source: &[ForeignKey],
    target: &[ForeignKey],
) -> (r: Result<Vec<MigrationStatement>, String>)
    ensures
        match r {
            Ok(v) => spec_fk_adds(
                driver,
                target_name@,
                foreign_keys_view(target@),
                foreign_keys_view(source@),
            ) == Ok::<Seq<SpecStatement>, Seq<char>>(statements_view(v@)),
            Err(e) => spec_fk_adds(
                driver,
                target_name@,
                foreign_keys_view(target@),
                foreign_keys_view(source@),
            ) == Err::<Seq<SpecStatement>, Seq<char>>(e@),
        },
{
    let ghost tf = foreign_keys_view(target@);
    let ghost news = foreign_keys_view(source@);
    let ghost whole = spec_fk_adds(driver, target_name@, tf, news);
    let mut out: Vec<MigrationStatement> = Vec::new();
    let mut i: usize = 0;
    proof {
        assert(news.skip(0) == news);
        lemma_prepend_empty(whole);
    }
    while i < source.len()
        invariant
            i <= source.len(),
            tf == foreign_keys_view(target@),
            news == foreign_keys_view(source@),
            whole == spec_fk_adds(driver, target_name@, tf, news),
            whole == prepend(
                statements_view(out@),
                spec_fk_adds(driver, target_name@, tf, news.skip(i as int)),
            ),
        decreases source.len() - i,
    {
        let ghost rest = spec_fk_adds(driver, target_name@, tf, news.skip(i + 1));
        assert(news.skip(i as int).drop_first() == news.skip(i + 1));
        assert(news.skip(i as int)[0] == source@[i as int]@);
        let new = &source[i];
        let needed = match find_fk_by_name(target, new.name.as_str()) {
            None => true,
            Some(j) => !foreign_key_equivalent(&target[j], new),
        };
        if needed {
            if driver == DriverKind::Sqlite {
                return Err(String::from_str("SQLite 不支持通过 ALTER TABLE 添加外键，请手工重建表"));
            }
            let sql = foreign_key_add_sql(driver, target_name, new)?;
            let ghost before = statements_view(out@);
            let ghost st = stmt(sql@, false, MigrationPhase::AddForeignKeys);
            out.push(MigrationStatement { sql, destructive: false, phase: MigrationPhase::AddForeignKeys });
            assert(statements_view(out@) == before + seq![st]);
            proof {
                lemma_prepend_assoc(before, seq![st], rest);
            }
        }
        i = i + 1;
    }
    assert(news.skip(source.len() as int) == Seq::<SpecForeignKey>::empty());
    assert(statements_view(out@) + Seq::<SpecStatement>::empty() == statements_view(out@));
    Ok(out)
}


// ---------------------------------------------------------------------------------------------
// Indexes
// ---------------------------------------------------------------------------------------------

/// Name of a dialect in messages about index columns.
pub open spec fn spec_index_dialect_label(driver: DriverKind) -> Seq<char> {
    if driver == DriverKind::Mysql {
        "MySQL"@
    } else if driver == DriverKind::Sqlite {
        "SQLite"@
    } else {
        "当前数据库"@
    }
}

/// One index column: a bare name is quoted; PostgreSQL also takes a checked expression.
pub open spec fn spec_index_column(driver: DriverKind, column: Seq<char>) -> Result<Seq<char>, Seq<char>> {
    if spec_is_simple_identifier(column) {
        spec_identifier(driver, column, "索引字段"@)
    } else if driver == DriverKind::Postgres {
        spec_fragment(column, "索引表达式"@)
    } else {
        Err(spec_index_dialect_label(driver) + " 索引字段 "@ + column + " 不是可安全生成的标识符"@)
    }
}

/// Each index column rendered, the first refusal winning.
pub open spec fn spec_index_column_parts(driver: DriverKind, columns: Seq<Seq<char>>) -> Result<
    Seq<Seq<char>>,
    Seq<char>,
>
    decreases columns.len(),
{
    if columns.len() == 0 {
        Ok(Seq::empty())
    } else {
        match spec_index_column(driver, columns[0]) {
            Err(e) => Err(e),
            Ok(x) => prepend(seq![x], spec_index_column_parts(driver, columns.drop_first())),
        }
    }
}

/// The column list of an index.
pub open spec fn spec_index_columns(driver: DriverKind, index: SpecIndex) -> Result<Seq<char>, Seq<char>> {
    if index.columns.len() == 0 {
        Err("索引 "@ + index.name + " 没有字段，无法生成迁移 SQL"@)
    } else {
        match spec_index_column_parts(driver, index.columns) {
            Ok(parts) => Ok(spec_join(parts, ", "@)),
            Err(e) => Err(e),
        }
    }
}

fn index_dialect_label(driver: DriverKind) -> (r: &'static str)
    ensures
        r@ == spec_index_dialect_label(driver),
{
    if driver == DriverKind::Mysql {
        "MySQL"
    } else if driver == DriverKind::Sqlite {
        "SQLite"
    } else {
        "当前数据库"
    }
}

fn index_column(driver: DriverKind, column: &str) -> (r: Result<String, String>)
    ensures
        res_view(r) == spec_index_column(driver, column@),
{
    if is_simple_identifier(column) {
        identifier(driver, column, "索引字段")
    } else if driver == DriverKind::Postgres {
        fragment(column, "索引表达式")
    } else {
        let mut e = cat3(index_dialect_label(driver), " 索引字段 ", column);
        push_str(&mut e, " 不是可安全生成的标识符");
        Err(e)
    }
}

/// Renders the column list of an index.
pub fn index_columns(driver: DriverKind, index: &Index) -> (r: Result<String, String>)
    ensures
        res_view(r) == spec_index_columns(driver, index@),
{
    if index.columns.len() == 0 {
        return Err(cat3("索引 ", index.name.as_str(), " 没有字段，无法生成迁移 SQL"));
    }
    let ghost vv = names_view(index.columns@);
    let mut out: Vec<String> = Vec::new();
    let mut i: usize = 0;
    proof {
        assert(vv.skip(0) == vv);
        lemma_prepend_empty(spec_index_column_parts(driver, vv));
    }
    while i < index.columns.len()
        invariant
            i <= index.columns.len(),
            vv == names_view(index.columns@),
            spec_index_column_parts(driver, vv) == prepend(
                strings_view(out@),
                spec_index_column_parts(driver, vv.skip(i as int)),
            ),
        decreases index.columns.len() - i,
    {
        assert(vv.skip(i as int).drop_first() == vv.skip(i + 1));
        assert(vv.skip(i as int)[0] == index.columns@[i as int]@);
        match index_column(driver, index.columns[i].as_str()) {
            Err(e) => {
                return Err(e);
            },
            Ok(x) => {
                let ghost before = strings_view(out@);
                out.push(x);
                assert(strings_view(out@) == before + seq![x@]);
                proof {
                    lemma_prepend_assoc(
                        before,
                        seq![x@],
                        spec_index_column_parts(driver, vv.skip(i + 1)),
                    );
                }
            },
        }
        i = i + 1;
    }
    assert(vv.skip(index.columns.len() as int) == Seq::<Seq<char>>::empty());
    assert(strings_view(out@) + Seq::<Seq<char>>::empty() == strings_view(out@));
    Ok(join(out.as_slice(), ", "))
}

/// Statement that drops the target index `index`.
pub open spec fn spec_index_drop_sql(
    driver: DriverKind,
    target_name: Seq<char>,
    target_schema: Seq<char>,
    index: SpecIndex,
) -> Result<Seq<char>, Seq<char>> {
    match spec_identifier(driver, index.name, "索引名"@) {
        Err(e) => Err(e),
        Ok(name) => if driver == DriverKind::Mysql {
            if index.primary {
                Ok("ALTER TABLE "@ + target_name + " DROP PRIMARY KEY;"@)
            } else {
                Ok("ALTER TABLE "@ + target_name + " DROP INDEX "@ + name + ";"@)
            }
        } else if driver == DriverKind::Postgres && index.primary {
            Ok("ALTER TABLE "@ + target_name + " DROP CONSTRAINT "@ + name + ";"@)
        } else if driver == DriverKind::Sqlite && index.primary {
            Err("SQLite 不支持迁移主键索引，请手工重建表"@)
        } else {
            match spec_identifier(driver, target_schema, "目标 Schema"@) {
                Err(e) => Err(e),
                Ok(schema) => Ok("DROP INDEX "@ + schema + "."@ + name + ";"@),
            }
        },
    }
}

fn index_drop_sql(driver: DriverKind, target_name: &str, target_schema: &str, index: &Index) -> (r: Result<
    String,
    String,
>)
    requires
        migratable(driver),
    ensures
        res_view(r) == spec_index_drop_sql(driver, target_name@, target_schema@, index@),
{
    let name = identifier(driver, index.name.as_str(), "索引名")?;
    if driver == DriverKind::Mysql {
        if index.primary {
            Ok(cat3("ALTER TABLE ", target_name, " DROP PRIMARY KEY;"))
        } else {
            let mut s = cat3("ALTER TABLE ", target_name, " DROP INDEX ");
            push_str(&mut s, name.as_str());
            push_str(&mut s, ";");
            Ok(s)
        }
    } else if driver == DriverKind::Postgres && index.primary {
        let mut s = cat3("ALTER TABLE ", target_name, " DROP CONSTRAINT ");
        push_str(&mut s, name.as_str());
        push_str(&mut s, ";");
        Ok(s)
    } else if driver == DriverKind::Sqlite && index.primary {
        Err(String::from_str("SQLite 不支持迁移主键索引，请手工重建表"))
    } else {
        let schema = identifier(driver, target_schema, "目标 Schema")?;
        let mut s = cat3("DROP INDEX ", schema.as_str(), ".");
        push_str(&mut s, name.as_str());
        push_str(&mut s, ";");
        Ok(s)
    }
}

/// Statement that adds the source index `index` to the target table.
pub open spec fn spec_index_add_sql(driver: DriverKind, target_name: Seq<char>, index: SpecIndex) -> Result<
    Seq<char>,
    Seq<char>,
> {
    match spec_identifier(driver, index.name, "索引名"@) {
        Err(e) => Err(e),
        Ok(name) => match spec_index_columns(driver, index) {
            Err(e) => Err(e),
            Ok(columns) => if driver == DriverKind::Mysql {
                if index.primary {
                    Ok("ALTER TABLE "@ + target_name + " ADD PRIMARY KEY ("@ + columns + ");"@)
                } else if index.unique {
                    Ok(
                        "ALTER TABLE "@ + target_name + " ADD UNIQUE INDEX "@ + name + " ("@ + columns
                            + ");"@,
                    )
                } else {
                    Ok("ALTER TABLE "@ + target_name + " ADD INDEX "@ + name + " ("@ + columns + ");"@)
                }
            } else if driver == DriverKind::Postgres && index.primary {
                Ok(
                    "ALTER TABLE "@ + target_name + " ADD CONSTRAINT "@ + name + " PRIMARY KEY ("@
                        + columns + ");"@,
                )
            } else if driver == DriverKind::Sqlite && index.primary {
                Err("SQLite 不支持迁移主键索引，请手工重建表"@)
            } else if index.unique {
                Ok("CREATE UNIQUE INDEX "@ + name + " ON "@ + target_name + " ("@ + columns + ");"@)
            } else {
                Ok("CREATE INDEX "@ + name + " ON "@ + target_name + " ("@ + columns + ");"@)
            },
        },
    }
}

fn index_add_sql(driver: DriverKind, target_name: &str, index: &Index) -> (r: Result<String, String>)
    requires
        migratable(driver),
    ensures
        res_view(r) == spec_index_add_sql(driver, target_name@, index@),
{
    let name = identifier(driver, index.name.as_str(), "索引名")?;
    let columns = index_columns(driver, index)?;
    if driver == DriverKind::Mysql {
        if index.primary {
            let mut s = cat3("ALTER TABLE ", target_name, " ADD PRIMARY KEY (");
            push_str(&mut s, columns.as_str());
            push_str(&mut s, ");");
            Ok(s)
        } else if index.unique {
            let mut s = cat3("ALTER TABLE ", target_name, " ADD UNIQUE INDEX ");
            push_str(&mut s, name.as_str());
            push_str(&mut s, " (");
            push_str(&mut s, columns.as_str());
            push_str(&mut s, ");");
            Ok(s)
        } else {
            let mut s = cat3("ALTER TABLE ", target_name, " ADD INDEX ");
            push_str(&mut s, name.as_str());
            push_str(&mut s, " (");
            push_str(&mut s, columns.as_str());
            push_str(&mut s, ");");
            Ok(s)
        }
    } else if driver == DriverKind::Postgres && index.primary {
        let mut s = cat3("ALTER TABLE ", target_name, " ADD CONSTRAINT ");
        push_str(&mut s, name.as_str());
        push_str(&mut s, " PRIMARY KEY (");
        push_str(&mut s, columns.as_str());
        push_str(&mut s, ");");
        Ok(s)
    } else if driver == DriverKind::Sqlite && index.primary {
        Err(String::from_str("SQLite 不支持迁移主键索引，请手工重建表"))
    } else {
        let mut s = if index.unique {
            cat2("CREATE UNIQUE INDEX ", name.as_str())
        } else {
            cat2("CREATE INDEX ", name.as_str())
        };
        push_str(&mut s, " ON ");
        push_str(&mut s, target_name);
        push_str(&mut s, " (");
        push_str(&mut s, columns.as_str());
        push_str(&mut s, ");");
        Ok(s)
    }
}

/// A target index missing from the source, defined differently there, or on a changed column.
pub open spec fn spec_index_drop_needed(
    old: SpecIndex,
    source_indexes: Seq<SpecIndex>,
    source_cols: Seq<SpecColumn>,
    target_cols: Seq<SpecColumn>,
) -> bool {
    match find_index(source_indexes, old.name) {
        None => true,
        Some(j) => !spec_index_equivalent(old, source_indexes[j]) || spec_any_changed(
            old.columns,
            source_cols,
            target_cols,
        ),
    }
}

/// Drop statements for the target indexes `olds`, in order.
pub open spec fn spec_index_drops(
    driver: DriverKind,
    target_name: Seq<char>,
    target_schema: Seq<char>,
    source_cols: Seq<SpecColumn>,
    target_cols: Seq<SpecColumn>,
    source_indexes: Seq<SpecIndex>,
    olds: Seq<SpecIndex>,
) -> Result<Seq<SpecStatement>, Seq<char>>
    decreases olds.len(),
{
    if olds.len() == 0 {
        Ok(Seq::empty())
    } else {
        let rest = spec_index_drops(
            driver,
            target_name,
            target_schema,
            source_cols,
            target_cols,
            source_indexes,
            olds.drop_first(),
        );
        if spec_index_drop_needed(olds[0], source_indexes, source_cols, target_cols) {
            match spec_index_drop_sql(driver, target_name, target_schema, olds[0]) {
                Err(e) => Err(e),
                Ok(sql) => prepend(seq![stmt(sql, true, MigrationPhase::DropIndexes)], rest),
            }
        } else {
            rest
        }
    }
}

/// Drops each target index that the source removes or redefines, or that covers a changed column.
pub fn append_index_drops(
    driver: DriverKind,
    target_name: &str,
    target_schema: &str,
    source_columns: &[Column],
    target_columns: &[Column],
    source: &[Index],
    target: &[Index],
) -> (r: Result<Vec<MigrationStatement>, String>)
    requires
        migratable(driver),
    ensures
        match r {
            Ok(v) => spec_index_drops(
                driver,
                target_name@,
                target_schema@,
                columns_view(source_columns@),
                columns_view(target_columns@),
                indexes_view(source@),
                indexes_view(target@),
            ) == Ok::<Seq<SpecStatement>, Seq<char>>(statements_view(v@)),
            Err(e) => spec_index_drops(
                driver,
                target_name@,
                target_schema@,
                columns_view(source_columns@),
                columns_view(target_columns@),
                indexes_view(source@),
                indexes_view(target@),
            ) == Err::<Seq<SpecStatement>, Seq<char>>(e@),
        },
{
    let ghost sc = columns_view(source_columns@);
    let ghost tc = columns_view(target_columns@);
    let ghost si = indexes_view(source@);
    let ghost olds = indexes_view(target@);
    let ghost whole = spec_index_drops(driver, target_name@, target_schema@, sc, tc, si, olds);
    let mut out: Vec<MigrationStatement> = Vec::new();
    let mut i: usize = 0;
    proof {
        assert(olds.skip(0) == olds);
        lemma_prepend_empty(whole);
    }
    while i < target.len()
        invariant
            i <= target.len(),
            migratable(driver),
            sc == columns_view(source_columns@),
            tc == columns_view(target_columns@),
            si == indexes_view(source@),
            olds == indexes_view(target@),
            whole == spec_index_drops(driver, target_name@, target_schema@, sc, tc, si, olds),
            whole == prepend(
                statements_view(out@),
                spec_index_drops(
                    driver,
                    target_name@,
                    target_schema@,
                    sc,
                    tc,
                    si,
                    olds.skip(i as int),
                ),
            ),
        decreases target.len() - i,
    {
        let ghost rest = spec_index_drops(
            driver,
            target_name@,
            target_schema@,
            sc,
            tc,
            si,
            olds.skip(i + 1),
        );
        assert(olds.skip(i as int).drop_first() == olds.skip(i + 1));
        assert(olds.skip(i as int)[0] == target@[i as int]@);
        let old = &target[i];
        let needed = match find_index_by_name(source, old.name.as_str()) {
            None => true,
            Some(j) => !index_equivalent(old, &source[j]) || any_changed(
                old.columns.as_slice(),
                source_columns,
                target_columns,
            ),
        };
        if needed {
            let sql = index_drop_sql(driver, target_name, target_schema, old)?;
            let ghost before = statements_view(out@);
            let ghost st = stmt(sql@, true, MigrationPhase::DropIndexes);
            out.push(MigrationStatement { sql, destructive: true, phase: MigrationPhase::DropIndexes });
            assert(statements_view(out@) == before + seq![st]);
            proof {
                lemma_prepend_assoc(before, seq![st], rest);
            }
        }
        i = i + 1;
    }
    assert(olds.skip(target.len() as int) == Seq::<SpecIndex>::empty());
    assert(statements_view(out@) + Seq::<SpecStatement>::empty() == statements_view(out@));
    Ok(out)
}

/// A source index the target lacks or defines differently, or one on a changed column.
pub open spec fn spec_index_add_needed(
    new: SpecIndex,
    target_indexes: Seq<SpecIndex>,
    source_cols: Seq<SpecColumn>,
    target_cols: Seq<SpecColumn>,
) -> bool {
    match find_index(target_indexes, new.name) {
        None => true,
        Some(j) => !spec_index_equivalent(target_indexes[j], new) || spec_any_changed(
            new.columns,
            source_cols,
            target_cols,
        ),
    }
}

/// Add statements for the source indexes `news`, in order.
pub open spec fn spec_index_adds(
    driver: DriverKind,
    target_name: Seq<char>,
    source_cols: Seq<SpecColumn>,
    target_cols: Seq<SpecColumn>,
    target_indexes: Seq<SpecIndex>,
    news: Seq<SpecIndex>,
) -> Result<Seq<SpecStatement>, Seq<char>>
    decreases news.len(),
{
    if news.len() == 0 {
        Ok(Seq::empty())
    } else {
        let rest = spec_index_adds(
            driver,
            target_name,
            source_cols,
            target_cols,
            target_indexes,
            news.drop_first(),
        );
        if spec_index_add_needed(news[0], target_indexes, source_cols, target_cols) {
            match spec_index_add_sql(driver, target_name, news[0]) {
                Err(e) => Err(e),
                Ok(sql) => prepend(seq![stmt(sql, false, MigrationPhase::AddIndexes)], rest),
            }
        } else {
            rest
        }
    }
}

/// Re-creates each source index that the target lacks, defines differently, or that covers a
/// changed column.
pub fn append_index_additions(
    driver: DriverKind,
    target_name: &str,
    source_columns: &[Column],
    target_columns: &[Column],
    source: &[Index],
    target: &[Index],
) -> (r: Result<Vec<MigrationStatement>, String>)
    requires
        migratable(driver),
    ensures
        match r {
            Ok(v) => spec_index_adds(
                driver,
                target_name@,
                columns_view(source_columns@),
                columns_view(target_columns@),
                indexes_view(target@),
                indexes_view(source@),
            ) == Ok::<Seq<SpecStatement>, Seq<char>>(statements_view(v@)),
            Err(e) => spec_index_adds(
                driver,
                target_name@,
                columns_view(source_columns@),
                columns_view(target_columns@),
                indexes_view(target@),
                indexes_view(source@),
            ) == Err::<Seq<SpecStatement>, Seq<char>>(e@),
        },
{
    let ghost sc = columns_view(source_columns@);
    let ghost tc = columns_view(target_columns@);
    let ghost ti = indexes_view(target@);
    let ghost news = indexes_view(source@);
    let ghost whole = spec_index_adds(driver, target_name@, sc, tc, ti, news);
    let mut out: Vec<MigrationStatement> = Vec::new();
    let mut i: usize = 0;
    proof {
        assert(news.skip(0) == news);
        lemma_prepend_empty(whole);
    }
    while i < source.len()
        invariant
            i <= source.len(),
            migratable(driver),
            sc == columns_view(source_columns@),
            tc == columns_view(target_columns@),
            ti == indexes_view(target@),
            news == indexes_view(source@),
            whole == spec_index_adds(driver, target_name@, sc, tc, ti, news),
            whole == prepend(
                statements_view(out@),
                spec_index_adds(driver, target_name@, sc, tc, ti, news.skip(i as int)),
            ),
        decreases source.len() - i,
    {
        let ghost rest = spec_index_adds(driver, target_name@, sc, tc, ti, news.skip(i + 1));
        assert(news.skip(i as int).drop_first() == news.skip(i + 1));
        assert(news.skip(i as int)[0] == source@[i as int]@);
        let new = &source[i];
        let needed = match find_index_by_name(target, new.name.as_str()) {
            None => true,
            Some(j) => !index_equivalent(&target[j], new) || any_changed(
                new.columns.as_slice(),
                source_columns,
                target_columns,
            ),
        };
        if needed {
            let sql = index_add_sql(driver, target_name, new)?;
            let ghost before = statements_view(out@);
            let ghost st = stmt(sql@, false, MigrationPhase::AddIndexes);
            out.push(MigrationStatement { sql, destructive: false, phase: MigrationPhase::AddIndexes });
            assert(statements_view(out@) == before + seq![st]);
            proof {
                lemma_prepend_assoc(before, seq![st], rest);
            }
        }
        i = i + 1;
    }
    assert(news.skip(source.len() as int) == Seq::<SpecIndex>::empty());
    assert(statements_view(out@) + Seq::<SpecStatement>::empty() == statements_view(out@));
    Ok(out)
}


// ---------------------------------------------------------------------------------------------
// Column definitions
// ---------------------------------------------------------------------------------------------

/// Keyword of a generated column's storage.
pub open spec fn spec_generated_storage(storage: GeneratedColumnStorage) -> Seq<char> {
    match storage {
        GeneratedColumnStorage::Virtual => "VIRTUAL"@,
        GeneratedColumnStorage::Stored => "STORED"@,
    }
}

/// Keywords of an identity mode.
pub open spec fn spec_identity_mode(mode: IdentityGeneration) -> Seq<char> {
    match mode {
        IdentityGeneration::Always => "ALWAYS"@,
        IdentityGeneration::ByDefault => "BY DEFAULT"@,
    }
}

fn generated_storage(storage: GeneratedColumnStorage) -> (r: &'static str)
    ensures
        r@ == spec_generated_storage(storage),
{
    match storage {
        GeneratedColumnStorage::Virtual => "VIRTUAL",
        GeneratedColumnStorage::Stored => "STORED",
    }
}

fn identity_mode(mode: IdentityGeneration) -> (r: &'static str)
    ensures
        r@ == spec_identity_mode(mode),
{
    match mode {
        IdentityGeneration::Always => "ALWAYS",
        IdentityGeneration::ByDefault => "BY DEFAULT",
    }
}

/// The refusal, if any, of the attribute combination of `c` in `driver` before any text is built.
pub open spec fn spec_definition_refusal(driver: DriverKind, c: SpecColumn, include_comment: bool) -> Option<
    Seq<char>,
> {
    let expression = spec_non_empty(c.generation_expression);
    if (expression is Some) != (c.generated_storage is Some) {
        Some("字段 "@ + c.name + " 的生成列元数据不完整"@)
    } else if c.generated_storage == Some(GeneratedColumnStorage::Virtual) && driver
        == DriverKind::Postgres {
        Some("PostgreSQL 字段 "@ + c.name + " 不支持 VIRTUAL 生成列"@)
    } else if c.identity_generation is Some && expression is Some {
        Some("字段 "@ + c.name + " 不能同时声明 IDENTITY 和生成表达式"@)
    } else if driver == DriverKind::Mysql && c.identity_generation is Some {
        Some("MySQL 字段 "@ + c.name + " 不能使用 PostgreSQL IDENTITY"@)
    } else if driver == DriverKind::Sqlite && (c.is_primary_key || c.is_auto_increment
        || c.identity_generation is Some) {
        Some("SQLite 新增字段 "@ + c.name + " 不能直接声明主键或自增属性"@)
    } else if driver == DriverKind::Sqlite && include_comment && spec_non_empty(c.comment) is Some {
        Some("SQLite 字段 "@ + c.name + " 不支持字段注释"@)
    } else if driver == DriverKind::Postgres && c.is_auto_increment && c.identity_generation is None {
        Some("PostgreSQL 字段 "@ + c.name + " 的自增属性缺少 IDENTITY 模式"@)
    } else if (expression is Some || c.identity_generation is Some) && spec_non_empty(
        c.default_value,
    ) is Some {
        Some("字段 "@ + c.name + " 不能同时声明默认值和自动生成属性"@)
    } else {
        None
    }
}

/// Generated-column clause of `c` in `driver`.
pub open spec fn spec_generated_clause(driver: DriverKind, c: SpecColumn) -> Result<Seq<char>, Seq<char>> {
    let expression = spec_non_empty(c.generation_expression);
    match (expression, c.generated_storage) {
        (None, None) => Ok(Seq::empty()),
        (Some(e), Some(st)) => if driver == DriverKind::Mysql || driver == DriverKind::Sqlite || (
        driver == DriverKind::Postgres && st == GeneratedColumnStorage::Stored) {
            match spec_fragment(e, "生成列表达式"@) {
                Err(err) => Err(err),
                Ok(f) => Ok(" GENERATED ALWAYS AS ("@ + f + ") "@ + spec_generated_storage(st)),
            }
        } else {
            Err("字段 "@ + c.name + " 的生成列存储方式不受当前数据库支持"@)
        },
        _ => Err("字段 "@ + c.name + " 的生成列存储方式不受当前数据库支持"@),
    }
}

/// Identity clause of `c` in `driver`.
pub open spec fn spec_identity_clause(driver: DriverKind, c: SpecColumn) -> Result<Seq<char>, Seq<char>> {
    match c.identity_generation {
        None => Ok(Seq::empty()),
        Some(m) => if driver == DriverKind::Postgres {
            Ok(" GENERATED "@ + spec_identity_mode(m) + " AS IDENTITY"@)
        } else {
            Err("字段 "@ + c.name + " 的 IDENTITY 属性不受当前数据库支持"@)
        },
    }
}

/// Default clause of `c`.
pub open spec fn spec_default_clause(c: SpecColumn) -> Result<Seq<char>, Seq<char>> {
    match spec_non_empty(c.default_value) {
        Some(v) => match spec_fragment(v, "默认值"@) {
            Err(e) => Err(e),
            Ok(f) => Ok(" DEFAULT "@ + f),
        },
        None => Ok(Seq::empty()),
    }
}

/// Comment clause of `c` (MySQL only, when asked for).
pub open spec fn spec_comment_clause(driver: DriverKind, c: SpecColumn, include_comment: bool) -> Seq<
    char,
> {
    if include_comment && driver == DriverKind::Mysql {
        match spec_non_empty(c.comment) {
            Some(v) => " COMMENT '"@ + spec_escape_literal(v) + "'"@,
            None => Seq::empty(),
        }
    } else {
        Seq::empty()
    }
}

/// Full column definition `name type [generated] [identity] NULL|NOT NULL [default] [auto] [comment]`.
pub open spec fn spec_column_definition(driver: DriverKind, c: SpecColumn, include_comment: bool) -> Result<
    Seq<char>,
    Seq<char>,
> {
    match spec_identifier(driver, c.name, "字段名"@) {
        Err(e) => Err(e),
        Ok(name) => match spec_fragment(c.raw_type, "字段类型"@) {
            Err(e) => Err(e),
            Ok(data_type) => match spec_definition_refusal(driver, c, include_comment) {
                Some(e) => Err(e),
                None => match spec_generated_clause(driver, c) {
                    Err(e) => Err(e),
                    Ok(generated) => match spec_identity_clause(driver, c) {
                        Err(e) => Err(e),
                        Ok(identity) => match spec_default_clause(c) {
                            Err(e) => Err(e),
                            Ok(default) => Ok(
                                name + " "@ + data_type + generated + identity + (if c.nullable {
                                    " NULL"@
                                } else {
                                    " NOT NULL"@
                                }) + default + (if driver == DriverKind::Mysql && c.is_auto_increment {
                                    " AUTO_INCREMENT"@
                                } else {
                                    Seq::empty()
                                }) + spec_comment_clause(driver, c, include_comment),
                            ),
                        },
                    },
                },
            },
        },
    }
}

fn definition_refusal(driver: DriverKind, c: &Column, include_comment: bool) -> (r: Option<String>)
    ensures
        opt_view(r) == spec_definition_refusal(driver, c@, include_comment),
{
    let expression = non_empty(&c.generation_expression);
    let name = c.name.as_str();
    if expression.is_some() != c.generated_storage.is_some() {
        Some(cat3("字段 ", name, " 的生成列元数据不完整"))
    } else if c.generated_storage == Some(GeneratedColumnStorage::Virtual) && driver
        == DriverKind::Postgres {
        Some(cat3("PostgreSQL 字段 ", name, " 不支持 VIRTUAL 生成列"))
    } else if c.identity_generation.is_some() && expression.is_some() {
        Some(cat3("字段 ", name, " 不能同时声明 IDENTITY 和生成表达式"))
    } else if driver == DriverKind::Mysql && c.identity_generation.is_some() {
        Some(cat3("MySQL 字段 ", name, " 不能使用 PostgreSQL IDENTITY"))
    } else if driver == DriverKind::Sqlite && (c.is_primary_key || c.is_auto_increment
        || c.identity_generation.is_some()) {
        Some(cat3("SQLite 新增字段 ", name, " 不能直接声明主键或自增属性"))
    } else if driver == DriverKind::Sqlite && include_comment && non_empty(&c.comment).is_some() {
        Some(cat3("SQLite 字段 ", name, " 不支持字段注释"))
    } else if driver == DriverKind::Postgres && c.is_auto_increment
        && c.identity_generation.is_none() {
        Some(cat3("PostgreSQL 字段 ", name, " 的自增属性缺少 IDENTITY 模式"))
    } else if (expression.is_some() || c.identity_generation.is_some()) && non_empty(
        &c.default_value,
    ).is_some() {
        Some(cat3("字段 ", name, " 不能同时声明默认值和自动生成属性"))
    } else {
        None
    }
}

fn generated_clause(driver: DriverKind, c: &Column) -> (r: Result<String, String>)
    ensures
        res_view(r) == spec_generated_clause(driver, c@),
{
    let expression = non_empty(&c.generation_expression);
    match (expression, c.generated_storage) {
        (None, None) => Ok(String::new()),
        (Some(e), Some(st)) => if driver == DriverKind::Mysql || driver == DriverKind::Sqlite || (
        driver == DriverKind::Postgres && st == GeneratedColumnStorage::Stored) {
            let f = fragment(e.as_str(), "生成列表达式")?;
            let mut s = cat3(" GENERATED ALWAYS AS (", f.as_str(), ") ");
            push_str(&mut s, generated_storage(st));
            Ok(s)
        } else {
            Err(cat3("字段 ", c.name.as_str(), " 的生成列存储方式不受当前数据库支持"))
        },
        _ => Err(cat3("字段 ", c.name.as_str(), " 的生成列存储方式不受当前数据库支持")),
    }
}

fn identity_clause(driver: DriverKind, c: &Column) -> (r: Result<String, String>)
    ensures
        res_view(r) == spec_identity_clause(driver, c@),
{
    match c.identity_generation {
        None => Ok(String::new()),
        Some(m) => if driver == DriverKind::Postgres {
            Ok(cat3(" GENERATED ", identity_mode(m), " AS IDENTITY"))
        } else {
            Err(cat3("字段 ", c.name.as_str(), " 的 IDENTITY 属性不受当前数据库支持"))
        },
    }
}

fn default_clause(c: &Column) -> (r: Result<String, String>)
    ensures
        res_view(r) == spec_default_clause(c@),
{
    match non_empty(&c.default_value) {
        Some(v) => {
            let f = fragment(v.as_str(), "默认值")?;
            Ok(cat2(" DEFAULT ", f.as_str()))
        },
        None => Ok(String::new()),
    }
}

fn comment_clause(driver: DriverKind, c: &Column, include_comment: bool) -> (r: String)
    ensures
        r@ == spec_comment_clause(driver, c@, include_comment),
{
    if include_comment && driver == DriverKind::Mysql {
        match non_empty(&c.comment) {
            Some(v) => {
                let e = escape_literal(v.as_str());
                cat3(" COMMENT '", e.as_str(), "'")
            },
            None => String::new(),
        }
    } else {
        String::new()
    }
}

/// Builds the full definition of a column for `ADD COLUMN` or MySQL `CHANGE COLUMN`.
pub fn column_definition(driver: DriverKind, c: &Column, include_comment: bool) -> (r: Result<
    String,
    String,
>)
    ensures
        res_view(r) == spec_column_definition(driver, c@, include_comment),
{
    let name = identifier(driver, c.name.as_str(), "字段名")?;
    let data_type = fragment(c.data_type.raw_type.as_str(), "字段类型")?;
    if let Some(e) = definition_refusal(driver, c, include_comment) {
        return Err(e);
    }
    let generated = generated_clause(driver, c)?;
    let identity = identity_clause(driver, c)?;
    let default = default_clause(c)?;
    let mut s = cat3(name.as_str(), " ", data_type.as_str());
    push_str(&mut s, generated.as_str());
    push_str(&mut s, identity.as_str());
    if c.nullable {
        push_str(&mut s, " NULL");
    } else {
        push_str(&mut s, " NOT NULL");
    }
    push_str(&mut s, default.as_str());
    if driver == DriverKind::Mysql && c.is_auto_increment {
        push_str(&mut s, " AUTO_INCREMENT");
    }
    let comment = comment_clause(driver, c, include_comment);
    push_str(&mut s, comment.as_str());
    Ok(s)
}

/// First source position at or after `i` of a column whose ordinal is `p`.
pub open spec fn find_ordinal_from(source: Seq<SpecColumn>, p: u32, i: int) -> Option<int>
    decreases source.len() - i,
{
    if i < 0 || i >= source.len() {
        None
    } else if source[i].ordinal_position == Some(p) {
        Some(i)
    } else {
        find_ordinal_from(source, p, i + 1)
    }
}

/// MySQL `FIRST` / `AFTER previous` clause placing `c` by its ordinal among the source columns.
pub open spec fn spec_mysql_position_clause(source: Seq<SpecColumn>, c: SpecColumn) -> Result<
    Seq<char>,
    Seq<char>,
> {
    match c.ordinal_position {
        None => Ok(Seq::empty()),
        Some(p) => if p == 0 {
            Err("字段 "@ + c.name + " 的列序号无效"@)
        } else if p == 1 {
            Ok(" FIRST"@)
        } else {
            match find_ordinal_from(source, (p - 1) as u32, 0) {
                None => Err("字段 "@ + c.name + " 的前置列序号不连续"@),
                Some(k) => match spec_identifier(DriverKind::Mysql, source[k].name, "前置字段"@) {
                    Err(e) => Err(e),
                    Ok(prev) => Ok(" AFTER "@ + prev),
                },
            }
        }
    }
}

/// Places a MySQL column after its predecessor by ordinal, or first.
pub fn mysql_position_clause(source: &[Column], c: &Column) -> (r: Result<String, String>)
    ensures
        res_view(r) == spec_mysql_position_clause(columns_view(source@), c@),
{
    match c.ordinal_position {
        None => Ok(String::new()),
        Some(p) => {
            if p == 0 {
                return Err(cat3("字段 ", c.name.as_str(), " 的列序号无效"));
            }
            if p == 1 {
                return Ok(String::from_str(" FIRST"));
            }
            let ghost sv = columns_view(source@);
            let mut i: usize = 0;
            while i < source.len()
                invariant
                    i <= source.len(),
                    sv == columns_view(source@),
                    p >= 2,
                    c.ordinal_position == Some(p),
                    find_ordinal_from(sv, (p - 1) as u32, 0) == find_ordinal_from(
                        sv,
                        (p - 1) as u32,
                        i as int,
                    ),
                decreases source.len() - i,
            {
                if source[i].ordinal_position == Some(p - 1) {
                    let prev = identifier(DriverKind::Mysql, source[i].name.as_str(), "前置字段")?;
                    return Ok(cat2(" AFTER ", prev.as_str()));
                }
                i = i + 1;
            }
            Err(cat3("字段 ", c.name.as_str(), " 的前置列序号不连续"))
        },
    }
}


/// Statements that add the source column `c` to the target table.
pub open spec fn spec_column_add_sql(
    driver: DriverKind,
    target_name: Seq<char>,
    source: Seq<SpecColumn>,
    c: SpecColumn,
) -> Result<Seq<Seq<char>>, Seq<char>> {
    if driver == DriverKind::Sqlite && spec_non_empty(c.comment) is Some {
        Err("SQLite 字段 "@ + c.name + " 不支持迁移字段注释"@)
    } else {
        match spec_column_definition(driver, c, true) {
            Err(e) => Err(e),
            Ok(definition) => if driver == DriverKind::Mysql {
                match spec_mysql_position_clause(source, c) {
                    Err(e) => Err(e),
                    Ok(position) => Ok(
                        seq![
                            "ALTER TABLE "@ + target_name + " ADD COLUMN "@ + definition + position
                                + ";"@,
                        ],
                    ),
                }
            } else {
                let add = "ALTER TABLE "@ + target_name + " ADD COLUMN "@ + definition + ";"@;
                match spec_non_empty(c.comment) {
                    None => Ok(seq![add]),
                    Some(comment) => match spec_identifier(driver, c.name, "字段名"@) {
                        Err(e) => Err(e),
                        Ok(name) => Ok(
                            seq![
                                add,
                                "COMMENT ON COLUMN "@ + target_name + "."@ + name + " IS '"@
                                    + spec_escape_literal(comment) + "';"@,
                            ],
                        ),
                    },
                }
            },
        }
    }
}

/// Views of a list of SQL texts, as a result.
pub open spec fn sqls_view(r: Result<Vec<String>, String>) -> Result<Seq<Seq<char>>, Seq<char>> {
    match r {
        Ok(v) => Ok(strings_view(v@)),
        Err(e) => Err(e@),
    }
}

/// Builds the statements that add a column, with a separate comment statement outside MySQL.
pub fn column_add_sql(driver: DriverKind, target_name: &str, source: &[Column], c: &Column) -> (r: Result<
    Vec<String>,
    String,
>)
    ensures
        sqls_view(r) == spec_column_add_sql(driver, target_name@, columns_view(source@), c@),
{
    if driver == DriverKind::Sqlite && non_empty(&c.comment).is_some() {
        return Err(cat3("SQLite 字段 ", c.name.as_str(), " 不支持迁移字段注释"));
    }
    let definition = column_definition(driver, c, true)?;
    if driver == DriverKind::Mysql {
        let position = mysql_position_clause(source, c)?;
        let mut s = cat3("ALTER TABLE ", target_name, " ADD COLUMN ");
        push_str(&mut s, definition.as_str());
        push_str(&mut s, position.as_str());
        push_str(&mut s, ";");
        let mut v: Vec<String> = Vec::new();
        v.push(s);
        assert(strings_view(v@) == seq![v@[0]@]);
        return Ok(v);
    }
    let mut add = cat3("ALTER TABLE ", target_name, " ADD COLUMN ");
    push_str(&mut add, definition.as_str());
    push_str(&mut add, ";");
    let mut v: Vec<String> = Vec::new();
    v.push(add);
    match non_empty(&c.comment) {
        None => {
            assert(strings_view(v@) == seq![v@[0]@]);
            Ok(v)
        },
        Some(comment) => {
            let name = identifier(driver, c.name.as_str(), "字段名")?;
            let mut s = cat3("COMMENT ON COLUMN ", target_name, ".");
            push_str(&mut s, name.as_str());
            push_str(&mut s, " IS '");
            let e = escape_literal(comment.as_str());
            push_str(&mut s, e.as_str());
            push_str(&mut s, "';");
            v.push(s);
            assert(strings_view(v@) == seq![v@[0]@, v@[1]@]);
            Ok(v)
        },
    }
}

/// Whether a SQLite column change needs more than a rename.
pub open spec fn spec_sqlite_definition_changed(old: SpecColumn, new: SpecColumn) -> bool {
    old.raw_type != new.raw_type || old.nullable != new.nullable || spec_normalized_optional(
        old.default_value,
    ) != spec_normalized_optional(new.default_value) || spec_normalized_optional(old.comment)
        != spec_normalized_optional(new.comment) || old.is_primary_key != new.is_primary_key
        || old.is_auto_increment != new.is_auto_increment || spec_generated_definition_changed(
        old,
        new,
    ) || old.identity_generation != new.identity_generation
}

/// PostgreSQL identity statements for a changed column named `column_name` (quoted).
pub open spec fn spec_identity_change(
    target_name: Seq<char>,
    column_name: Seq<char>,
    old: SpecColumn,
    new: SpecColumn,
) -> Result<Seq<Seq<char>>, Seq<char>> {
    if old.is_auto_increment != new.is_auto_increment && old.identity_generation
        == new.identity_generation {
        Err("PostgreSQL 列 "@ + column_name + " 的自增属性缺少可执行的 IDENTITY 模式"@)
    } else {
        let prefix = "ALTER TABLE "@ + target_name + " ALTER COLUMN "@ + column_name;
        match (old.identity_generation, new.identity_generation) {
            (None, Some(mode)) => Ok(
                seq![prefix + " ADD GENERATED "@ + spec_identity_mode(mode) + " AS IDENTITY;"@],
            ),
            (Some(_), None) => Ok(seq![prefix + " DROP IDENTITY;"@]),
            (Some(a), Some(b)) => if a != b {
                Ok(seq![prefix + " SET GENERATED "@ + spec_identity_mode(b) + ";"@])
            } else {
                Ok(Seq::empty())
            },
            (None, None) => Ok(Seq::empty()),
        }
    }
}

fn identity_change(target_name: &str, column_name: &str, old: &Column, new: &Column) -> (r: Result<
    Vec<String>,
    String,
>)
    ensures
        sqls_view(r) == spec_identity_change(target_name@, column_name@, old@, new@),
{
    if old.is_auto_increment != new.is_auto_increment && old.identity_generation
        == new.identity_generation {
        return Err(cat3("PostgreSQL 列 ", column_name, " 的自增属性缺少可执行的 IDENTITY 模式"));
    }
    let prefix = cat3("ALTER TABLE ", target_name, " ALTER COLUMN ");
    let mut v: Vec<String> = Vec::new();
    match (old.identity_generation, new.identity_generation) {
        (None, Some(mode)) => {
            let mut s = cat2(prefix.as_str(), column_name);
            push_str(&mut s, " ADD GENERATED ");
            push_str(&mut s, identity_mode(mode));
            push_str(&mut s, " AS IDENTITY;");
            v.push(s);
        },
        (Some(_), None) => {
            let mut s = cat2(prefix.as_str(), column_name);
            push_str(&mut s, " DROP IDENTITY;");
            v.push(s);
        },
        (Some(a), Some(b)) => {
            if a != b {
                let mut s = cat2(prefix.as_str(), column_name);
                push_str(&mut s, " SET GENERATED ");
                push_str(&mut s, identity_mode(b));
                push_str(&mut s, ";");
                v.push(s);
            }
        },
        (None, None) => {},
    }
    assert(v@.len() == 1 ==> strings_view(v@) == seq![v@[0]@]);
    assert(v@.len() == 0 ==> strings_view(v@) == Seq::<Seq<char>>::empty());
    Ok(v)
}

/// Whether PostgreSQL must drop the old default before adding an identity.
pub open spec fn spec_drops_default_for_identity(old: SpecColumn, new: SpecColumn) -> bool {
    old.identity_generation is None && new.identity_generation is Some && spec_non_empty(
        old.default_value,
    ) is Some
}

/// PostgreSQL statements after the rename, up to and including the identity change.
pub open spec fn spec_pg_change_head(
    target_name: Seq<char>,
    old: SpecColumn,
    new: SpecColumn,
    new_name: Seq<char>,
) -> Result<Seq<Seq<char>>, Seq<char>> {
    let prefix = "ALTER TABLE "@ + target_name + " ALTER COLUMN "@ + new_name;
    let type_part: Result<Seq<Seq<char>>, Seq<char>> = if old.raw_type != new.raw_type {
        match spec_fragment(new.raw_type, "字段类型"@) {
            Err(e) => Err(e),
            Ok(dt) => Ok(seq![prefix + " TYPE "@ + dt + ";"@]),
        }
    } else {
        Ok(Seq::empty())
    };
    let null_part: Seq<Seq<char>> = if old.nullable != new.nullable {
        seq![
            prefix + " "@ + (if new.nullable {
                "DROP NOT NULL"@
            } else {
                "SET NOT NULL"@
            }) + ";"@,
        ]
    } else {
        Seq::empty()
    };
    let drop_default: Seq<Seq<char>> = if spec_drops_default_for_identity(old, new) {
        seq![prefix + " DROP DEFAULT;"@]
    } else {
        Seq::empty()
    };
    match type_part {
        Err(e) => Err(e),
        Ok(t) => match spec_identity_change(target_name, new_name, old, new) {
            Err(e) => Err(e),
            Ok(idp) => Ok(t + null_part + drop_default + idp),
        },
    }
}

/// PostgreSQL default and comment statements of a changed column.
pub open spec fn spec_pg_change_tail(
    target_name: Seq<char>,
    old: SpecColumn,
    new: SpecColumn,
    new_name: Seq<char>,
) -> Result<Seq<Seq<char>>, Seq<char>> {
    let prefix = "ALTER TABLE "@ + target_name + " ALTER COLUMN "@ + new_name;
    let comment_part: Seq<Seq<char>> = if spec_normalized_optional(old.comment)
        != spec_normalized_optional(new.comment) {
        seq![
            "COMMENT ON COLUMN "@ + target_name + "."@ + new_name + " IS "@ + (match spec_non_empty(
                new.comment,
            ) {
                None => "NULL"@,
                Some(c) => "'"@ + spec_escape_literal(c) + "'"@,
            }) + ";"@,
        ]
    } else {
        Seq::empty()
    };
    if !spec_drops_default_for_identity(old, new) && spec_normalized_optional(old.default_value)
        != spec_normalized_optional(new.default_value) {
        match spec_non_empty(new.default_value) {
            Some(v) => match spec_fragment(v, "默认值"@) {
                Err(e) => Err(e),
                Ok(f) => Ok(seq![prefix + " SET DEFAULT "@ + f + ";"@] + comment_part),
            },
            None => Ok(seq![prefix + " DROP DEFAULT;"@] + comment_part),
        }
    } else {
        Ok(comment_part)
    }
}

/// Statements that turn the target column `old` into the source column `new`.
pub open spec fn spec_column_change_sql(
    driver: DriverKind,
    target_name: Seq<char>,
    source: Seq<SpecColumn>,
    old: SpecColumn,
    new: SpecColumn,
) -> Result<Seq<Seq<char>>, Seq<char>> {
    match spec_identifier(driver, old.name, "字段名"@) {
        Err(e) => Err(e),
        Ok(old_name) => if driver == DriverKind::Mysql {
            match spec_column_definition(driver, new, true) {
                Err(e) => Err(e),
                Ok(definition) => match spec_mysql_position_clause(source, new) {
                    Err(e) => Err(e),
                    Ok(position) => Ok(
                        seq![
                            "ALTER TABLE "@ + target_name + " CHANGE COLUMN "@ + old_name + " "@
                                + definition + position + ";"@,
                        ],
                    ),
                },
            }
        } else {
            match spec_identifier(driver, new.name, "字段名"@) {
                Err(e) => Err(e),
                Ok(new_name) => {
                    let rename: Seq<Seq<char>> = if old.name != new.name {
                        seq![
                            "ALTER TABLE "@ + target_name + " RENAME COLUMN "@ + old_name + " TO "@
                                + new_name + ";"@,
                        ]
                    } else {
                        Seq::empty()
                    };
                    if driver == DriverKind::Sqlite {
                        if spec_sqlite_definition_changed(old, new) {
                            Err(
                                "SQLite 字段 "@ + old.name
                                    + " 只支持重命名；类型、约束或默认值变化请重建表"@,
                            )
                        } else {
                            Ok(rename)
                        }
                    } else if spec_generated_definition_changed(old, new) {
                        match spec_column_add_sql(DriverKind::Postgres, target_name, Seq::empty(), new) {
                            Err(e) => Err(e),
                            Ok(add) => Ok(
                                seq!["ALTER TABLE "@ + target_name + " DROP COLUMN "@ + old_name + ";"@]
                                    + add,
                            ),
                        }
                    } else {
                        match spec_pg_change_head(target_name, old, new, new_name) {
                            Err(e) => Err(e),
                            Ok(head) => match spec_pg_change_tail(target_name, old, new, new_name) {
                                Err(e) => Err(e),
                                Ok(tail) => Ok(rename + head + tail),
                            },
                        }
                    }
                },
            }
        },
    }
}

fn push_all(v: &mut Vec<String>, more: Vec<String>)
    ensures
        strings_view(final(v)@) == strings_view(old(v)@) + strings_view(more@),
{
    let mut i: usize = 0;
    let ghost start = strings_view(v@);
    while i < more.len()
        invariant
            i <= more.len(),
            strings_view(v@) == start + strings_view(more@.take(i as int)),
        decreases more.len() - i,
    {
        let ghost before = strings_view(v@);
        v.push(more[i].clone());
        assert(strings_view(more@.take(i + 1)) == strings_view(more@.take(i as int)).push(
            more@[i as int]@,
        ));
        assert(strings_view(v@) == before.push(more@[i as int]@));
        i = i + 1;
    }
    assert(more@.take(more.len() as int) == more@);
}

fn pg_change_head(target_name: &str, old: &Column, new: &Column, new_name: &str) -> (r: Result<
    Vec<String>,
    String,
>)
    ensures
        sqls_view(r) == spec_pg_change_head(target_name@, old@, new@, new_name@),
{
    let prefix = cat4("ALTER TABLE ", target_name, " ALTER COLUMN ", new_name);
    let mut v: Vec<String> = Vec::new();
    let ghost type_part: Seq<Seq<char>> = Seq::empty();
    if old.data_type.raw_type != new.data_type.raw_type {
        let dt = fragment(new.data_type.raw_type.as_str(), "字段类型")?;
        let mut s = cat3(prefix.as_str(), " TYPE ", dt.as_str());
        push_str(&mut s, ";");
        v.push(s);
        proof {
            type_part = seq![s@];
        }
        assert(strings_view(v@) == seq![v@[0]@]);
    }
    assert(strings_view(v@) == type_part);
    let ghost null_part: Seq<Seq<char>> = Seq::empty();
    if old.nullable != new.nullable {
        let clause = if new.nullable {
            "DROP NOT NULL"
        } else {
            "SET NOT NULL"
        };
        let mut s = cat3(prefix.as_str(), " ", clause);
        push_str(&mut s, ";");
        let ghost before = strings_view(v@);
        v.push(s);
        proof {
            null_part = seq![s@];
        }
        assert(strings_view(v@) == before.push(s@));
    }
    assert(strings_view(v@) == type_part + null_part);
    let ghost dd: Seq<Seq<char>> = Seq::empty();
    if old.identity_generation.is_none() && new.identity_generation.is_some() && non_empty(
        &old.default_value,
    ).is_some() {
        let s = cat2(prefix.as_str(), " DROP DEFAULT;");
        let ghost before = strings_view(v@);
        v.push(s);
        proof {
            dd = seq![s@];
        }
        assert(strings_view(v@) == before.push(s@));
    }
    assert(strings_view(v@) == type_part + null_part + dd);
    let idp = identity_change(target_name, new_name, old, new)?;
    push_all(&mut v, idp);
    Ok(v)
}

fn pg_change_tail(target_name: &str, old: &Column, new: &Column, new_name: &str) -> (r: Result<
    Vec<String>,
    String,
>)
    ensures
        sqls_view(r) == spec_pg_change_tail(target_name@, old@, new@, new_name@),
{
    let prefix = cat4("ALTER TABLE ", target_name, " ALTER COLUMN ", new_name);
    let mut v: Vec<String> = Vec::new();
    let drops = old.identity_generation.is_none() && new.identity_generation.is_some() && non_empty(
        &old.default_value,
    ).is_some();
    let ghost dpart: Seq<Seq<char>> = Seq::empty();
    if !drops && normalized_optional(&old.default_value) != normalized_optional(&new.default_value) {
        match non_empty(&new.default_value) {
            Some(val) => {
                let f = fragment(val.as_str(), "默认值")?;
                let mut s = cat3(prefix.as_str(), " SET DEFAULT ", f.as_str());
                push_str(&mut s, ";");
                v.push(s);
                proof {
                    dpart = seq![s@];
                }
            },
            None => {
                let s = cat2(prefix.as_str(), " DROP DEFAULT;");
                v.push(s);
                proof {
                    dpart = seq![s@];
                }
            },
        }
        assert(strings_view(v@) == seq![v@[0]@]);
    }
    assert(strings_view(v@) == dpart);
    let ghost cpart: Seq<Seq<char>> = Seq::empty();
    if normalized_optional(&old.comment) != normalized_optional(&new.comment) {
        let value = match non_empty(&new.comment) {
            None => String::from_str("NULL"),
            Some(c) => {
                let e = escape_literal(c.as_str());
                cat3("'", e.as_str(), "'")
            },
        };
        let mut s = cat4("COMMENT ON COLUMN ", target_name, ".", new_name);
        push_str(&mut s, " IS ");
        push_str(&mut s, value.as_str());
        push_str(&mut s, ";");
        let ghost before = strings_view(v@);
        v.push(s);
        proof {
            cpart = seq![s@];
        }
        assert(strings_view(v@) == before.push(s@));
    }
    assert(strings_view(v@) == dpart + cpart);
    Ok(v)
}

/// Builds the statements that turn the target column `old` into the source column `new`.
pub fn column_change_sql(
    driver: DriverKind,
    target_name: &str,
    source: &[Column],
    old: &Column,
    new: &Column,
) -> (r: Result<Vec<String>, String>)
    ensures
        sqls_view(r) == spec_column_change_sql(
            driver,
            target_name@,
            columns_view(source@),
            old@,
            new@,
        ),
{
    let old_name = identifier(driver, old.name.as_str(), "字段名")?;
    if driver == DriverKind::Mysql {
        let definition = column_definition(driver, new, true)?;
        let position = mysql_position_clause(source, new)?;
        let mut s = cat4("ALTER TABLE ", target_name, " CHANGE COLUMN ", old_name.as_str());
        push_str(&mut s, " ");
        push_str(&mut s, definition.as_str());
        push_str(&mut s, position.as_str());
        push_str(&mut s, ";");
        let mut v: Vec<String> = Vec::new();
        v.push(s);
        assert(strings_view(v@) == seq![v@[0]@]);
        return Ok(v);
    }
    let new_name = identifier(driver, new.name.as_str(), "字段名")?;
    let mut v: Vec<String> = Vec::new();
    if old.name != new.name {
        let mut s = cat4("ALTER TABLE ", target_name, " RENAME COLUMN ", old_name.as_str());
        push_str(&mut s, " TO ");
        push_str(&mut s, new_name.as_str());
        push_str(&mut s, ";");
        v.push(s);
    }
    assert(v@.len() == 1 ==> strings_view(v@) == seq![v@[0]@]);
    assert(v@.len() == 0 ==> strings_view(v@) == Seq::<Seq<char>>::empty());
    if driver == DriverKind::Sqlite {
        let changed = old.data_type.raw_type != new.data_type.raw_type || old.nullable
            != new.nullable || normalized_optional(&old.default_value) != normalized_optional(
            &new.default_value,
        ) || normalized_optional(&old.comment) != normalized_optional(&new.comment)
            || old.is_primary_key != new.is_primary_key || old.is_auto_increment
            != new.is_auto_increment || generated_definition_changed(old, new)
            || old.identity_generation != new.identity_generation;
        if changed {
            return Err(
                cat3(
                    "SQLite 字段 ",
                    old.name.as_str(),
                    " 只支持重命名；类型、约束或默认值变化请重建表",
                ),
            );
        }
        return Ok(v);
    }
    if generated_definition_changed(old, new) {
        let empty: Vec<Column> = Vec::new();
        assert(columns_view(empty@) == Seq::<SpecColumn>::empty());
        let add = column_add_sql(DriverKind::Postgres, target_name, empty.as_slice(), new)?;
        let mut d = cat4("ALTER TABLE ", target_name, " DROP COLUMN ", old_name.as_str());
        push_str(&mut d, ";");
        let mut out: Vec<String> = Vec::new();
        out.push(d);
        assert(strings_view(out@) == seq![out@[0]@]);
        push_all(&mut out, add);
        return Ok(out);
    }
    let head = pg_change_head(target_name, old, new, new_name.as_str())?;
    let tail = pg_change_tail(target_name, old, new, new_name.as_str())?;
    push_all(&mut v, head);
    push_all(&mut v, tail);
    Ok(v)
}


// ---------------------------------------------------------------------------------------------
// Column changes
// ---------------------------------------------------------------------------------------------

/// A source column `source[j]` without a same-named target column that could be `old` renamed.
pub open spec fn spec_src_candidate(
    source: Seq<SpecColumn>,
    target: Seq<SpecColumn>,
    old: SpecColumn,
    j: int,
) -> bool {
    !has_col(target, source[j].name) && spec_rename_equivalent(old, source[j])
}

/// A target column `target[k]` without a same-named source column that could become `new`.
pub open spec fn spec_tgt_candidate(
    source: Seq<SpecColumn>,
    target: Seq<SpecColumn>,
    new: SpecColumn,
    k: int,
) -> bool {
    !has_col(source, target[k].name) && spec_rename_equivalent(target[k], new)
}

/// Number of source candidates for `old` among the first `n` source columns.
pub open spec fn count_src_candidates(
    source: Seq<SpecColumn>,
    target: Seq<SpecColumn>,
    old: SpecColumn,
    n: int,
) -> nat
    decreases n,
{
    if n <= 0 {
        0
    } else {
        count_src_candidates(source, target, old, n - 1) + if spec_src_candidate(
            source,
            target,
            old,
            n - 1,
        ) {
            1nat
        } else {
            0nat
        }
    }
}

/// Number of target candidates for `new` among the first `n` target columns.
pub open spec fn count_tgt_candidates(
    source: Seq<SpecColumn>,
    target: Seq<SpecColumn>,
    new: SpecColumn,
    n: int,
) -> nat
    decreases n,
{
    if n <= 0 {
        0
    } else {
        count_tgt_candidates(source, target, new, n - 1) + if spec_tgt_candidate(
            source,
            target,
            new,
            n - 1,
        ) {
            1nat
        } else {
            0nat
        }
    }
}

/// First source candidate for `old` at or after `j`.
pub open spec fn first_src_candidate_from(
    source: Seq<SpecColumn>,
    target: Seq<SpecColumn>,
    old: SpecColumn,
    j: int,
) -> Option<int>
    decreases source.len() - j,
{
    if j < 0 || j >= source.len() {
        None
    } else if spec_src_candidate(source, target, old, j) {
        Some(j)
    } else {
        first_src_candidate_from(source, target, old, j + 1)
    }
}

/// The source column that the target column `target[i]` is renamed to: both lack a same-named
/// partner, and each is the only rename candidate of the other.
pub open spec fn spec_rename_partner(source: Seq<SpecColumn>, target: Seq<SpecColumn>, i: int) -> Option<
    int,
> {
    if !has_col(source, target[i].name) && count_src_candidates(
        source,
        target,
        target[i],
        source.len() as int,
    ) == 1 {
        match first_src_candidate_from(source, target, target[i], 0) {
            Some(j) => if count_tgt_candidates(source, target, source[j], target.len() as int) == 1 {
                Some(j)
            } else {
                None
            },
            None => None,
        }
    } else {
        None
    }
}

/// Rename pairs `(target index, source index)` among the first `n` target columns, in order.
pub open spec fn spec_renames(source: Seq<SpecColumn>, target: Seq<SpecColumn>, n: int) -> Seq<
    (int, int),
>
    decreases n,
{
    if n <= 0 {
        Seq::empty()
    } else {
        spec_renames(source, target, n - 1) + match spec_rename_partner(source, target, n - 1) {
            Some(j) => seq![(n - 1, j)],
            None => Seq::empty(),
        }
    }
}

/// Rename pairs between the two column lists.
pub open spec fn spec_unique_renames(source: Seq<SpecColumn>, target: Seq<SpecColumn>) -> Seq<
    (int, int),
> {
    spec_renames(source, target, target.len() as int)
}

/// Pairs of indexes as integers.
pub open spec fn pairs_view(v: Seq<(usize, usize)>) -> Seq<(int, int)> {
    v.map_values(|p: (usize, usize)| (p.0 as int, p.1 as int))
}

proof fn lemma_count_src_bound(
    source: Seq<SpecColumn>,
    target: Seq<SpecColumn>,
    old: SpecColumn,
    n: int,
)
    requires
        n >= 0,
    ensures
        count_src_candidates(source, target, old, n) <= n,
    decreases n,
{
    if n > 0 {
        lemma_count_src_bound(source, target, old, n - 1);
    }
}

proof fn lemma_count_tgt_bound(
    source: Seq<SpecColumn>,
    target: Seq<SpecColumn>,
    new: SpecColumn,
    n: int,
)
    requires
        n >= 0,
    ensures
        count_tgt_candidates(source, target, new, n) <= n,
    decreases n,
{
    if n > 0 {
        lemma_count_tgt_bound(source, target, new, n - 1);
    }
}

proof fn lemma_first_src_none_below(
    source: Seq<SpecColumn>,
    target: Seq<SpecColumn>,
    old: SpecColumn,
    j: int,
)
    requires
        0 <= j <= source.len(),
        count_src_candidates(source, target, old, j) == 0,
    ensures
        first_src_candidate_from(source, target, old, 0) == first_src_candidate_from(
            source,
            target,
            old,
            j,
        ),
    decreases j,
{
    if j > 0 {
        lemma_first_src_none_below(source, target, old, j - 1);
    }
}

/// Finds the one-to-one rename candidates between unmatched columns.
pub fn unique_column_renames(source: &[Column], target: &[Column]) -> (r: Vec<(usize, usize)>)
    ensures
        pairs_view(r@) == spec_unique_renames(columns_view(source@), columns_view(target@)),
        forall|k: int|
            0 <= k < r@.len() ==> (#[trigger] r@[k]).0 < target.len() && r@[k].1 < source.len(),
{
    let ghost sv = columns_view(source@);
    let ghost tv = columns_view(target@);
    let mut pairs: Vec<(usize, usize)> = Vec::new();
    let mut i: usize = 0;
    while i < target.len()
        invariant
            i <= target.len(),
            sv == columns_view(source@),
            tv == columns_view(target@),
            pairs_view(pairs@) == spec_renames(sv, tv, i as int),
            forall|k: int|
                0 <= k < pairs@.len() ==> (#[trigger] pairs@[k]).0 < target.len() && pairs@[k].1
                    < source.len(),
        decreases target.len() - i,
    {
        let old = &target[i];
        let ghost before = pairs_view(pairs@);
        if find_column(source, old.name.as_str()).is_none() {
            let mut count: usize = 0;
            let mut first: usize = 0;
            let mut j: usize = 0;
            while j < source.len()
                invariant
                    j <= source.len(),
                    i < target.len(),
                    sv == columns_view(source@),
                    tv == columns_view(target@),
                    count == count_src_candidates(sv, tv, tv[i as int], j as int),
                    count > 0 ==> first < j && first_src_candidate_from(sv, tv, tv[i as int], 0)
                        == Some(first as int),
                    count == 0 ==> first_src_candidate_from(sv, tv, tv[i as int], 0)
                        == first_src_candidate_from(sv, tv, tv[i as int], j as int),
                decreases source.len() - j,
            {
                proof {
                    lemma_count_src_bound(sv, tv, tv[i as int], j as int);
                }
                if find_column(target, source[j].name.as_str()).is_none() && rename_equivalent(
                    &target[i],
                    &source[j],
                ) {
                    if count == 0 {
                        first = j;
                    }
                    count = count + 1;
                }
                j = j + 1;
            }
            if count == 1 {
                let mut tcount: usize = 0;
                let mut k: usize = 0;
                while k < target.len()
                    invariant
                        k <= target.len(),
                        first < source.len(),
                        sv == columns_view(source@),
                        tv == columns_view(target@),
                        tcount == count_tgt_candidates(sv, tv, sv[first as int], k as int),
                    decreases target.len() - k,
                {
                    proof {
                        lemma_count_tgt_bound(sv, tv, sv[first as int], k as int);
                    }
                    if find_column(source, target[k].name.as_str()).is_none() && rename_equivalent(
                        &target[k],
                        &source[first],
                    ) {
                        tcount = tcount + 1;
                    }
                    k = k + 1;
                }
                if tcount == 1 {
                    pairs.push((i, first));
                    assert(pairs_view(pairs@) == before.push((i as int, first as int)));
                }
            }
        }
        assert(pairs_view(pairs@) == spec_renames(sv, tv, i + 1));
        i = i + 1;
    }
    pairs
}

/// Whether a rename pair involves a target column named `name` (ASCII case ignored).
pub open spec fn renamed_old(
    target: Seq<SpecColumn>,
    pairs: Seq<(int, int)>,
    name: Seq<char>,
) -> bool {
    exists|p: int| 0 <= p < pairs.len() && spec_same_name(target[#[trigger] pairs[p].0].name, name)
}

/// Whether a rename pair involves a source column named `name` (ASCII case ignored).
pub open spec fn renamed_new(
    source: Seq<SpecColumn>,
    pairs: Seq<(int, int)>,
    name: Seq<char>,
) -> bool {
    exists|p: int| 0 <= p < pairs.len() && spec_same_name(source[#[trigger] pairs[p].1].name, name)
}

/// Statements of a list of SQL texts, all of one kind.
pub open spec fn as_statements(sqls: Seq<Seq<char>>, destructive: bool) -> Seq<SpecStatement> {
    sqls.map_values(|s: Seq<char>| stmt(s, destructive, MigrationPhase::ChangeColumns))
}

/// Change statements for the rename pairs `pairs`, in order.
pub open spec fn spec_rename_changes(
    driver: DriverKind,
    target_name: Seq<char>,
    source: Seq<SpecColumn>,
    target: Seq<SpecColumn>,
    pairs: Seq<(int, int)>,
) -> Result<Seq<SpecStatement>, Seq<char>>
    decreases pairs.len(),
{
    if pairs.len() == 0 {
        Ok(Seq::empty())
    } else {
        match spec_column_change_sql(
            driver,
            target_name,
            source,
            target[pairs[0].0],
            source[pairs[0].1],
        ) {
            Err(e) => Err(e),
            Ok(sqls) => prepend(
                as_statements(sqls, true),
                spec_rename_changes(driver, target_name, source, target, pairs.drop_first()),
            ),
        }
    }
}

/// Drop statements for the target columns from `k` on that the source neither keeps nor renames.
pub open spec fn spec_column_drops(
    driver: DriverKind,
    target_name: Seq<char>,
    source: Seq<SpecColumn>,
    target: Seq<SpecColumn>,
    pairs: Seq<(int, int)>,
    k: int,
) -> Result<Seq<SpecStatement>, Seq<char>>
    decreases target.len() - k,
{
    if k < 0 || k >= target.len() {
        Ok(Seq::empty())
    } else {
        let rest = spec_column_drops(driver, target_name, source, target, pairs, k + 1);
        let old = target[k];
        if !has_col(source, old.name) && !renamed_old(target, pairs, old.name) {
            match spec_identifier(driver, old.name, "字段名"@) {
                Err(e) => Err(e),
                Ok(name) => prepend(
                    seq![
                        stmt(
                            "ALTER TABLE "@ + target_name + " DROP COLUMN "@ + name + ";"@,
                            true,
                            MigrationPhase::ChangeColumns,
                        ),
                    ],
                    rest,
                ),
            }
        } else {
            rest
        }
    }
}

/// Add and change statements for the source columns from `k` on.
pub open spec fn spec_column_updates(
    driver: DriverKind,
    target_name: Seq<char>,
    source: Seq<SpecColumn>,
    target: Seq<SpecColumn>,
    pairs: Seq<(int, int)>,
    k: int,
) -> Result<Seq<SpecStatement>, Seq<char>>
    decreases source.len() - k,
{
    if k < 0 || k >= source.len() {
        Ok(Seq::empty())
    } else {
        let rest = spec_column_updates(driver, target_name, source, target, pairs, k + 1);
        let new = source[k];
        match find_col(target, new.name) {
            None => if renamed_new(source, pairs, new.name) {
                rest
            } else {
                match spec_column_add_sql(driver, target_name, source, new) {
                    Err(e) => Err(e),
                    Ok(sqls) => prepend(as_statements(sqls, false), rest),
                }
            },
            Some(i) => {
                let old = target[i];
                if spec_column_equivalent(old, new) || (driver == DriverKind::Sqlite
                    && spec_definition_equivalent(old, new)) {
                    rest
                } else {
                    match spec_column_change_sql(driver, target_name, source, old, new) {
                        Err(e) => Err(e),
                        Ok(sqls) => prepend(as_statements(sqls, true), rest),
                    }
                }
            },
        }
    }
}

/// All column statements: renames first, then drops, then additions and changes.
pub open spec fn spec_column_changes(
    driver: DriverKind,
    target_name: Seq<char>,
    source: Seq<SpecColumn>,
    target: Seq<SpecColumn>,
) -> Result<Seq<SpecStatement>, Seq<char>> {
    let pairs = spec_unique_renames(source, target);
    match spec_rename_changes(driver, target_name, source, target, pairs) {
        Err(e) => Err(e),
        Ok(a) => match spec_column_drops(driver, target_name, source, target, pairs, 0) {
            Err(e) => Err(e),
            Ok(b) => prepend(a + b, spec_column_updates(driver, target_name, source, target, pairs, 0)),
        },
    }
}

fn to_statements(sqls: Vec<String>, destructive: bool) -> (r: Vec<MigrationStatement>)
    ensures
        statements_view(r@) == as_statements(strings_view(sqls@), destructive),
{
    let mut out: Vec<MigrationStatement> = Vec::new();
    let mut i: usize = 0;
    while i < sqls.len()
        invariant
            i <= sqls.len(),
            statements_view(out@) == as_statements(strings_view(sqls@.take(i as int)), destructive),
        decreases sqls.len() - i,
    {
        let ghost before = statements_view(out@);
        out.push(
            MigrationStatement {
                sql: sqls[i].clone(),
                destructive,
                phase: MigrationPhase::ChangeColumns,
            },
        );
        assert(strings_view(sqls@.take(i + 1)) == strings_view(sqls@.take(i as int)).push(
            sqls@[i as int]@,
        ));
        assert(statements_view(out@) == before.push(
            stmt(sqls@[i as int]@, destructive, MigrationPhase::ChangeColumns),
        ));
        i = i + 1;
    }
    assert(sqls@.take(sqls.len() as int) == sqls@);
    out
}

fn is_renamed_old(target: &[Column], pairs: &[(usize, usize)], name: &str) -> (r: bool)
    requires
        forall|k: int| 0 <= k < pairs@.len() ==> (#[trigger] pairs@[k]).0 < target.len(),
    ensures
        r == renamed_old(columns_view(target@), pairs_view(pairs@), name@),
{
    let mut p: usize = 0;
    while p < pairs.len()
        invariant
            p <= pairs.len(),
            forall|k: int| 0 <= k < pairs@.len() ==> (#[trigger] pairs@[k]).0 < target.len(),
            forall|q: int|
                0 <= q < p ==> !spec_same_name(
                    columns_view(target@)[#[trigger] pairs_view(pairs@)[q].0].name,
                    name@,
                ),
        decreases pairs.len() - p,
    {
        if same_name(target[pairs[p].0].name.as_str(), name) {
            assert(spec_same_name(
                columns_view(target@)[pairs_view(pairs@)[p as int].0].name,
                name@,
            ));
            return true;
        }
        p = p + 1;
    }
    false
}

fn is_renamed_new(source: &[Column], pairs: &[(usize, usize)], name: &str) -> (r: bool)
    requires
        forall|k: int| 0 <= k < pairs@.len() ==> (#[trigger] pairs@[k]).1 < source.len(),
    ensures
        r == renamed_new(columns_view(source@), pairs_view(pairs@), name@),
{
    let mut p: usize = 0;
    while p < pairs.len()
        invariant
            p <= pairs.len(),
            forall|k: int| 0 <= k < pairs@.len() ==> (#[trigger] pairs@[k]).1 < source.len(),
            forall|q: int|
                0 <= q < p ==> !spec_same_name(
                    columns_view(source@)[#[trigger] pairs_view(pairs@)[q].1].name,
                    name@,
                ),
        decreases pairs.len() - p,
    {
        if same_name(source[pairs[p].1].name.as_str(), name) {
            assert(spec_same_name(
                columns_view(source@)[pairs_view(pairs@)[p as int].1].name,
                name@,
            ));
            return true;
        }
        p = p + 1;
    }
    false
}

/// Column statements: rename candidates first, then drops, then additions and changes.
pub fn append_column_changes(
    driver: DriverKind,
    target_name: &str,
    source: &[Column],
    target: &[Column],
) -> (r: Result<Vec<MigrationStatement>, String>)
    ensures
        match r {
            Ok(v) => spec_column_changes(
                driver,
                target_name@,
                columns_view(source@),
                columns_view(target@),
            ) == Ok::<Seq<SpecStatement>, Seq<char>>(statements_view(v@)),
            Err(e) => spec_column_changes(
                driver,
                target_name@,
                columns_view(source@),
                columns_view(target@),
            ) == Err::<Seq<SpecStatement>, Seq<char>>(e@),
        },
{
    let ghost sv = columns_view(source@);
    let ghost tv = columns_view(target@);
    let renames = unique_column_renames(source, target);
    let ghost pv = pairs_view(renames@);
    // renames
    let ghost whole_a = spec_rename_changes(driver, target_name@, sv, tv, pv);
    let mut out: Vec<MigrationStatement> = Vec::new();
    let mut p: usize = 0;
    proof {
        assert(pv.skip(0) == pv);
        lemma_prepend_empty(whole_a);
    }
    while p < renames.len()
        invariant
            p <= renames.len(),
            sv == columns_view(source@),
            tv == columns_view(target@),
            pv == pairs_view(renames@),
            forall|k: int|
                0 <= k < renames@.len() ==> (#[trigger] renames@[k]).0 < target.len()
                    && renames@[k].1 < source.len(),
            whole_a == spec_rename_changes(driver, target_name@, sv, tv, pv),
            pv == spec_unique_renames(sv, tv),
            whole_a == prepend(
                statements_view(out@),
                spec_rename_changes(driver, target_name@, sv, tv, pv.skip(p as int)),
            ),
        decreases renames.len() - p,
    {
        let ghost rest = spec_rename_changes(driver, target_name@, sv, tv, pv.skip(p + 1));
        assert(pv.skip(p as int).drop_first() == pv.skip(p + 1));
        assert(pv.skip(p as int)[0] == pv[p as int]);
        let (oi, ni) = renames[p];
        let sqls = column_change_sql(driver, target_name, source, &target[oi], &source[ni])?;
        let ghost before = statements_view(out@);
        let st = to_statements(sqls, true);
        let ghost added = statements_view(st@);
        append_statements(&mut out, st);
        proof {
            lemma_prepend_assoc(before, added, rest);
        }
        p = p + 1;
    }
    assert(pv.skip(renames.len() as int) == Seq::<(int, int)>::empty());
    assert(statements_view(out@) + Seq::<SpecStatement>::empty() == statements_view(out@));
    assert(whole_a == Ok::<Seq<SpecStatement>, Seq<char>>(statements_view(out@)));
    let ghost a = statements_view(out@);
    // drops
    let ghost whole_b = spec_column_drops(driver, target_name@, sv, tv, pv, 0);
    let mut drops: Vec<MigrationStatement> = Vec::new();
    let mut k: usize = 0;
    proof {
        lemma_prepend_empty(whole_b);
    }
    while k < target.len()
        invariant
            k <= target.len(),
            sv == columns_view(source@),
            tv == columns_view(target@),
            pv == pairs_view(renames@),
            forall|q: int|
                0 <= q < renames@.len() ==> (#[trigger] renames@[q]).0 < target.len()
                    && renames@[q].1 < source.len(),
            whole_b == spec_column_drops(driver, target_name@, sv, tv, pv, 0),
            pv == spec_unique_renames(sv, tv),
            whole_a == spec_rename_changes(driver, target_name@, sv, tv, pv),
            whole_a == Ok::<Seq<SpecStatement>, Seq<char>>(a),
            whole_b == prepend(
                statements_view(drops@),
                spec_column_drops(driver, target_name@, sv, tv, pv, k as int),
            ),
        decreases target.len() - k,
    {
        let ghost rest = spec_column_drops(driver, target_name@, sv, tv, pv, k + 1);
        let old = &target[k];
        if find_column(source, old.name.as_str()).is_none() && !is_renamed_old(
            target,
            renames.as_slice(),
            old.name.as_str(),
        ) {
            let name = identifier(driver, old.name.as_str(), "字段名")?;
            let mut s = cat4("ALTER TABLE ", target_name, " DROP COLUMN ", name.as_str());
            push_str(&mut s, ";");
            let ghost before = statements_view(drops@);
            let ghost st = stmt(s@, true, MigrationPhase::ChangeColumns);
            drops.push(MigrationStatement { sql: s, destructive: true, phase: MigrationPhase::ChangeColumns });
            assert(statements_view(drops@) == before + seq![st]);
            proof {
                lemma_prepend_assoc(before, seq![st], rest);
            }
        }
        k = k + 1;
    }
    assert(statements_view(drops@) + Seq::<SpecStatement>::empty() == statements_view(drops@));
    let ghost b = statements_view(drops@);
    append_statements(&mut out, drops);
    // additions and changes
    let ghost whole_c = spec_column_updates(driver, target_name@, sv, tv, pv, 0);
    let mut ups: Vec<MigrationStatement> = Vec::new();
    let mut k: usize = 0;
    proof {
        lemma_prepend_empty(whole_c);
    }
    while k < source.len()
        invariant
            k <= source.len(),
            sv == columns_view(source@),
            tv == columns_view(target@),
            pv == pairs_view(renames@),
            forall|q: int|
                0 <= q < renames@.len() ==> (#[trigger] renames@[q]).0 < target.len()
                    && renames@[q].1 < source.len(),
            whole_c == spec_column_updates(driver, target_name@, sv, tv, pv, 0),
            pv == spec_unique_renames(sv, tv),
            whole_a == spec_rename_changes(driver, target_name@, sv, tv, pv),
            whole_a == Ok::<Seq<SpecStatement>, Seq<char>>(a),
            whole_b == spec_column_drops(driver, target_name@, sv, tv, pv, 0),
            whole_b == Ok::<Seq<SpecStatement>, Seq<char>>(b),
            whole_c == prepend(
                statements_view(ups@),
                spec_column_updates(driver, target_name@, sv, tv, pv, k as int),
            ),
        decreases source.len() - k,
    {
        let ghost rest = spec_column_updates(driver, target_name@, sv, tv, pv, k + 1);
        let new = &source[k];
        let ghost before = statements_view(ups@);
        match find_column(target, new.name.as_str()) {
            None => {
                if !is_renamed_new(source, renames.as_slice(), new.name.as_str()) {
                    let sqls = column_add_sql(driver, target_name, source, new)?;
                    let st = to_statements(sqls, false);
                    let ghost added = statements_view(st@);
                    append_statements(&mut ups, st);
                    proof {
                        lemma_prepend_assoc(before, added, rest);
                    }
                }
            },
            Some(i) => {
                let old = &target[i];
                if !(column_equivalent(old, new) || (driver == DriverKind::Sqlite
                    && definition_equivalent(old, new))) {
                    let sqls = column_change_sql(driver, target_name, source, old, new)?;
                    let st = to_statements(sqls, true);
                    let ghost added = statements_view(st@);
                    append_statements(&mut ups, st);
                    proof {
                        lemma_prepend_assoc(before, added, rest);
                    }
                }
            },
        }
        k = k + 1;
    }
    assert(statements_view(ups@) + Seq::<SpecStatement>::empty() == statements_view(ups@));
    let ghost c = statements_view(ups@);
    append_statements(&mut out, ups);
    assert(statements_view(out@) == a + b + c);
    Ok(out)
}


// ---------------------------------------------------------------------------------------------
// Column-level findings used for warnings
// ---------------------------------------------------------------------------------------------

/// A source column that is new or defined differently in the target.
pub open spec fn new_col_changed(target: Seq<SpecColumn>, new: SpecColumn) -> bool {
    match find_col(target, new.name) {
        None => true,
        Some(i) => !spec_column_equivalent(target[i], new),
    }
}

/// A target column that the source lacks.
pub open spec fn old_col_dropped(source: Seq<SpecColumn>, old: SpecColumn) -> bool {
    !has_col(source, old.name)
}

/// A kept column whose known position moves.
pub open spec fn new_col_reordered(target: Seq<SpecColumn>, new: SpecColumn) -> bool {
    match find_col(target, new.name) {
        None => false,
        Some(i) => !spec_positions_equal(target[i], new),
    }
}

/// A kept column whose generation changes, or a new generated column.
pub open spec fn new_col_generated_changed(target: Seq<SpecColumn>, new: SpecColumn) -> bool {
    match find_col(target, new.name) {
        None => new.generation_expression is Some || new.generated_storage is Some,
        Some(i) => spec_generated_definition_changed(target[i], new),
    }
}

/// A dropped generated column.
pub open spec fn old_col_generated(source: Seq<SpecColumn>, old: SpecColumn) -> bool {
    !has_col(source, old.name) && (old.generation_expression is Some || old.generated_storage is Some)
}

/// A kept column whose generation changes.
pub open spec fn new_col_rebuilt(target: Seq<SpecColumn>, new: SpecColumn) -> bool {
    match find_col(target, new.name) {
        None => false,
        Some(i) => spec_generated_definition_changed(target[i], new),
    }
}

/// A kept column whose auto-increment or identity changes, or a new auto-generated column.
pub open spec fn new_col_auto_changed(target: Seq<SpecColumn>, new: SpecColumn) -> bool {
    match find_col(target, new.name) {
        None => new.is_auto_increment || new.identity_generation is Some,
        Some(i) => target[i].is_auto_increment != new.is_auto_increment || target[i].identity_generation
            != new.identity_generation,
    }
}

/// A dropped auto-generated column.
pub open spec fn old_col_auto(source: Seq<SpecColumn>, old: SpecColumn) -> bool {
    !has_col(source, old.name) && (old.is_auto_increment || old.identity_generation is Some)
}

/// Whether any column is added, dropped, or changed in definition or position.
#[verifier::opaque]
pub open spec fn spec_has_column_changes(source: Seq<SpecColumn>, target: Seq<SpecColumn>) -> bool {
    (exists|j: int| 0 <= j < source.len() && new_col_changed(target, #[trigger] source[j])) || (
    exists|k: int| 0 <= k < target.len() && old_col_dropped(source, #[trigger] target[k]))
}

/// Whether a kept column changes its known position.
#[verifier::opaque]
pub open spec fn spec_has_column_order_changes(source: Seq<SpecColumn>, target: Seq<SpecColumn>) -> bool {
    exists|j: int| 0 <= j < source.len() && new_col_reordered(target, #[trigger] source[j])
}

/// Whether any generated column is added, dropped or changed.
#[verifier::opaque]
pub open spec fn spec_has_generated_column_changes(
    source: Seq<SpecColumn>,
    target: Seq<SpecColumn>,
) -> bool {
    (exists|j: int| 0 <= j < source.len() && new_col_generated_changed(target, #[trigger] source[j]))
        || (exists|k: int| 0 <= k < target.len() && old_col_generated(source, #[trigger] target[k]))
}

/// Whether a kept column's generation changes (PostgreSQL rebuilds it).
#[verifier::opaque]
pub open spec fn spec_has_generated_column_rebuilds(
    source: Seq<SpecColumn>,
    target: Seq<SpecColumn>,
) -> bool {
    exists|j: int| 0 <= j < source.len() && new_col_rebuilt(target, #[trigger] source[j])
}

/// Whether any auto-increment or identity attribute is added, dropped or changed.
#[verifier::opaque]
pub open spec fn spec_has_auto_generation_changes(
    source: Seq<SpecColumn>,
    target: Seq<SpecColumn>,
) -> bool {
    (exists|j: int| 0 <= j < source.len() && new_col_auto_changed(target, #[trigger] source[j])) || (
    exists|k: int| 0 <= k < target.len() && old_col_auto(source, #[trigger] target[k]))
}

/// Whether some column lacks an ordinal position.
#[verifier::opaque]
pub open spec fn spec_has_incomplete_column_metadata(
    source: Seq<SpecColumn>,
    target: Seq<SpecColumn>,
) -> bool {
    (exists|j: int| 0 <= j < source.len() && (#[trigger] source[j]).ordinal_position is None) || (
    exists|k: int| 0 <= k < target.len() && (#[trigger] target[k]).ordinal_position is None)
}

/// Which per-column finding to look for.
#[derive(Clone, Copy, PartialEq, Eq, Structural)]
enum Finding {
    Changed,
    Reordered,
    Generated,
    Rebuilt,
    Auto,
    Incomplete,
}

/// The finding for a source column.
spec fn new_finding(f: Finding, target: Seq<SpecColumn>, new: SpecColumn) -> bool {
    match f {
        Finding::Changed => new_col_changed(target, new),
        Finding::Reordered => new_col_reordered(target, new),
        Finding::Generated => new_col_generated_changed(target, new),
        Finding::Rebuilt => new_col_rebuilt(target, new),
        Finding::Auto => new_col_auto_changed(target, new),
        Finding::Incomplete => new.ordinal_position is None,
    }
}

/// The finding for a target column.
spec fn old_finding(f: Finding, source: Seq<SpecColumn>, old: SpecColumn) -> bool {
    match f {
        Finding::Changed => old_col_dropped(source, old),
        Finding::Reordered => false,
        Finding::Generated => old_col_generated(source, old),
        Finding::Rebuilt => false,
        Finding::Auto => old_col_auto(source, old),
        Finding::Incomplete => old.ordinal_position is None,
    }
}

fn new_finding_exec(f: Finding, target: &[Column], new: &Column) -> (r: bool)
    ensures
        r == new_finding(f, columns_view(target@), new@),
{
    match f {
        Finding::Incomplete => new.ordinal_position.is_none(),
        _ => match find_column(target, new.name.as_str()) {
            None => match f {
                Finding::Changed => true,
                Finding::Generated => new.generation_expression.is_some()
                    || new.generated_storage.is_some(),
                Finding::Auto => new.is_auto_increment || new.identity_generation.is_some(),
                _ => false,
            },
            Some(i) => {
                let old = &target[i];
                match f {
                    Finding::Changed => !column_equivalent(old, new),
                    Finding::Reordered => !positions_equal(old, new),
                    Finding::Generated => generated_definition_changed(old, new),
                    Finding::Rebuilt => generated_definition_changed(old, new),
                    _ => old.is_auto_increment != new.is_auto_increment || old.identity_generation
                        != new.identity_generation,
                }
            },
        },
    }
}

fn old_finding_exec(f: Finding, source: &[Column], old: &Column) -> (r: bool)
    ensures
        r == old_finding(f, columns_view(source@), old@),
{
    match f {
        Finding::Incomplete => old.ordinal_position.is_none(),
        Finding::Reordered => false,
        Finding::Rebuilt => false,
        _ => {
            if find_column(source, old.name.as_str()).is_some() {
                false
            } else {
                match f {
                    Finding::Changed => true,
                    Finding::Generated => old.generation_expression.is_some()
                        || old.generated_storage.is_some(),
                    _ => old.is_auto_increment || old.identity_generation.is_some(),
                }
            }
        },
    }
}

fn any_finding(f: Finding, source: &[Column], target: &[Column]) -> (r: bool)
    ensures
        r == ((exists|j: int|
            0 <= j < source.len() && new_finding(
                f,
                columns_view(target@),
                #[trigger] columns_view(source@)[j],
            )) || (exists|k: int|
            0 <= k < target.len() && old_finding(
                f,
                columns_view(source@),
                #[trigger] columns_view(target@)[k],
            ))),
{
    let ghost sv = columns_view(source@);
    let ghost tv = columns_view(target@);
    let mut j: usize = 0;
    while j < source.len()
        invariant
            j <= source.len(),
            sv == columns_view(source@),
            tv == columns_view(target@),
            forall|q: int| 0 <= q < j ==> !new_finding(f, tv, #[trigger] sv[q]),
        decreases source.len() - j,
    {
        if new_finding_exec(f, target, &source[j]) {
            assert(new_finding(f, tv, sv[j as int]));
            return true;
        }
        j = j + 1;
    }
    let mut k: usize = 0;
    while k < target.len()
        invariant
            k <= target.len(),
            sv == columns_view(source@),
            tv == columns_view(target@),
            forall|q: int| 0 <= q < source.len() ==> !new_finding(f, tv, #[trigger] sv[q]),
            forall|q: int| 0 <= q < k ==> !old_finding(f, sv, #[trigger] tv[q]),
        decreases target.len() - k,
    {
        if old_finding_exec(f, source, &target[k]) {
            assert(old_finding(f, sv, tv[k as int]));
            return true;
        }
        k = k + 1;
    }
    false
}

/// Whether any column is added, dropped, or changed in definition or position.
pub fn has_column_changes(source: &[Column], target: &[Column]) -> (r: bool)
    ensures
        r == spec_has_column_changes(columns_view(source@), columns_view(target@)),
{
    proof {
        reveal(spec_has_column_changes);
    }
    any_finding(Finding::Changed, source, target)
}

/// Whether a kept column changes its known position.
pub fn has_column_order_changes(source: &[Column], target: &[Column]) -> (r: bool)
    ensures
        r == spec_has_column_order_changes(columns_view(source@), columns_view(target@)),
{
    proof {
        reveal(spec_has_column_order_changes);
    }
    any_finding(Finding::Reordered, source, target)
}

/// Whether any generated column is added, dropped or changed.
pub fn has_generated_column_changes(source: &[Column], target: &[Column]) -> (r: bool)
    ensures
        r == spec_has_generated_column_changes(columns_view(source@), columns_view(target@)),
{
    proof {
        reveal(spec_has_generated_column_changes);
    }
    any_finding(Finding::Generated, source, target)
}

/// Whether a kept generated column changes its generation.
pub fn has_generated_column_rebuilds(source: &[Column], target: &[Column]) -> (r: bool)
    ensures
        r == spec_has_generated_column_rebuilds(columns_view(source@), columns_view(target@)),
{
    proof {
        reveal(spec_has_generated_column_rebuilds);
    }
    any_finding(Finding::Rebuilt, source, target)
}

/// Whether any auto-increment or identity attribute is added, dropped or changed.
pub fn has_auto_generation_changes(source: &[Column], target: &[Column]) -> (r: bool)
    ensures
        r == spec_has_auto_generation_changes(columns_view(source@), columns_view(target@)),
{
    proof {
        reveal(spec_has_auto_generation_changes);
    }
    any_finding(Finding::Auto, source, target)
}

/// Whether some column lacks an ordinal position.
pub fn has_incomplete_column_metadata(source: &[Column], target: &[Column]) -> (r: bool)
    ensures
        r == spec_has_incomplete_column_metadata(columns_view(source@), columns_view(target@)),
{
    proof {
        reveal(spec_has_incomplete_column_metadata);
    }
    any_finding(Finding::Incomplete, source, target)
}


// ---------------------------------------------------------------------------------------------
// Stages, script text and the whole migration
// ---------------------------------------------------------------------------------------------

/// A run of consecutive statements of one phase.
#[derive(Clone, Copy, Debug, PartialEq, Eq)]
pub struct MigrationStage {
    pub phase: MigrationPhase,
    pub statement_count: usize,
    pub destructive_statements: usize,
}

impl MigrationStage {
    /// Title of the stage's phase.
    pub fn title(&self) -> (r: &'static str)
        ensures
            r@ == spec_phase_title(self.phase),
    {
        self.phase.title()
    }
}

/// Ghost model of a stage.
pub struct SpecStage {
    pub phase: MigrationPhase,
    pub statement_count: nat,
    pub destructive_statements: nat,
}

impl View for MigrationStage {
    type V = SpecStage;

    open spec fn view(&self) -> SpecStage {
        SpecStage {
            phase: self.phase,
            statement_count: self.statement_count as nat,
            destructive_statements: self.destructive_statements as nat,
        }
    }
}

/// Views of stages.
pub open spec fn stages_view(v: Seq<MigrationStage>) -> Seq<SpecStage> {
    v.map_values(|s: MigrationStage| s@)
}

/// 1 for a destructive statement, else 0.
pub open spec fn destructive_weight(st: SpecStatement) -> nat {
    if st.destructive {
        1
    } else {
        0
    }
}

/// Stages of `statements`: consecutive statements of one phase form one stage, which counts
/// them and the destructive ones among them.
pub open spec fn spec_summarize_stages(statements: Seq<SpecStatement>) -> Seq<SpecStage>
    decreases statements.len(),
{
    if statements.len() == 0 {
        Seq::empty()
    } else {
        let prev = spec_summarize_stages(statements.drop_last());
        let st = statements.last();
        if prev.len() > 0 && prev.last().phase == st.phase {
            prev.update(
                prev.len() - 1,
                SpecStage {
                    phase: st.phase,
                    statement_count: prev.last().statement_count + 1,
                    destructive_statements: prev.last().destructive_statements + destructive_weight(
                        st,
                    ),
                },
            )
        } else {
            prev.push(
                SpecStage {
                    phase: st.phase,
                    statement_count: 1,
                    destructive_statements: destructive_weight(st),
                },
            )
        }
    }
}

/// Sum of the statement counts of `stages`.
pub open spec fn total_statements(stages: Seq<SpecStage>) -> nat
    decreases stages.len(),
{
    if stages.len() == 0 {
        0
    } else {
        total_statements(stages.drop_last()) + stages.last().statement_count
    }
}

/// Sum of the destructive counts of `stages`.
pub open spec fn total_destructive(stages: Seq<SpecStage>) -> nat
    decreases stages.len(),
{
    if stages.len() == 0 {
        0
    } else {
        total_destructive(stages.drop_last()) + stages.last().destructive_statements
    }
}

/// Number of destructive statements.
pub open spec fn count_destructive(statements: Seq<SpecStatement>) -> nat
    decreases statements.len(),
{
    if statements.len() == 0 {
        0
    } else {
        count_destructive(statements.drop_last()) + destructive_weight(statements.last())
    }
}

proof fn lemma_totals_update(stages: Seq<SpecStage>, s: SpecStage)
    requires
        stages.len() > 0,
    ensures
        total_statements(stages.update(stages.len() - 1, s)) == total_statements(stages.drop_last())
            + s.statement_count,
        total_destructive(stages.update(stages.len() - 1, s)) == total_destructive(
            stages.drop_last(),
        ) + s.destructive_statements,
{
    let u = stages.update(stages.len() - 1, s);
    assert(u.drop_last() == stages.drop_last());
}

proof fn lemma_totals_push(stages: Seq<SpecStage>, s: SpecStage)
    ensures
        total_statements(stages.push(s)) == total_statements(stages) + s.statement_count,
        total_destructive(stages.push(s)) == total_destructive(stages) + s.destructive_statements,
{
    assert(stages.push(s).drop_last() == stages);
}

/// Summarising keeps every statement and every destructive statement.
pub proof fn lemma_summarize_stages_totals(statements: Seq<SpecStatement>)
    ensures
        total_statements(spec_summarize_stages(statements)) == statements.len(),
        total_destructive(spec_summarize_stages(statements)) == count_destructive(statements),
    decreases statements.len(),
{
    if statements.len() > 0 {
        let prev = spec_summarize_stages(statements.drop_last());
        lemma_summarize_stages_totals(statements.drop_last());
        let st = statements.last();
        if prev.len() > 0 && prev.last().phase == st.phase {
            let s = SpecStage {
                phase: st.phase,
                statement_count: prev.last().statement_count + 1,
                destructive_statements: prev.last().destructive_statements + destructive_weight(st),
            };
            lemma_totals_update(prev, s);
            assert(prev == prev.drop_last().push(prev.last()));
            lemma_totals_push(prev.drop_last(), prev.last());
        } else {
            let s = SpecStage {
                phase: st.phase,
                statement_count: 1,
                destructive_statements: destructive_weight(st),
            };
            lemma_totals_push(prev, s);
        }
    }
}

/// Every stage holds at least one statement, and neighbouring stages have different phases.
pub open spec fn stages_well_formed(stages: Seq<SpecStage>) -> bool {
    &&& forall|k: int| 0 <= k < stages.len() ==> (#[trigger] stages[k]).statement_count >= 1
    &&& forall|i: int, j: int|
        #![trigger stages[i], stages[j]]
        0 <= i && j == i + 1 && j < stages.len() ==> stages[i].phase != stages[j].phase
}

proof fn lemma_well_formed_update(prev: Seq<SpecStage>, s: SpecStage)
    requires
        stages_well_formed(prev),
        prev.len() > 0,
        s.phase == prev.last().phase,
        s.statement_count >= 1,
    ensures
        stages_well_formed(prev.update(prev.len() - 1, s)),
{
    let r = prev.update(prev.len() - 1, s);
    assert forall|k: int| 0 <= k < r.len() implies (#[trigger] r[k]).statement_count >= 1 by {
        if k < prev.len() - 1 {
            assert(r[k] == prev[k]);
        }
    }
    assert forall|i: int, j: int| 0 <= i && j == i + 1 && j < r.len() implies #[trigger] r[i].phase
        != #[trigger] r[j].phase by {
        assert(r[i] == prev[i]);
        assert(r[j].phase == prev[j].phase);
        assert(prev[i].phase != prev[j].phase);
    }
}

proof fn lemma_well_formed_push(prev: Seq<SpecStage>, s: SpecStage)
    requires
        stages_well_formed(prev),
        prev.len() > 0 ==> s.phase != prev.last().phase,
        s.statement_count >= 1,
    ensures
        stages_well_formed(prev.push(s)),
{
    let r = prev.push(s);
    assert forall|k: int| 0 <= k < r.len() implies (#[trigger] r[k]).statement_count >= 1 by {
        if k < prev.len() {
            assert(r[k] == prev[k]);
        }
    }
    assert forall|i: int, j: int| 0 <= i && j == i + 1 && j < r.len() implies #[trigger] r[i].phase
        != #[trigger] r[j].phase by {
        assert(r[i] == prev[i]);
        if j < prev.len() {
            assert(r[j] == prev[j]);
            assert(prev[i].phase != prev[j].phase);
        }
    }
}

/// Every stage holds at least one statement, and neighbouring stages have different phases.
pub proof fn lemma_summarize_stages_shape(statements: Seq<SpecStatement>)
    ensures
        stages_well_formed(spec_summarize_stages(statements)),
    decreases statements.len(),
{
    if statements.len() > 0 {
        let prev = spec_summarize_stages(statements.drop_last());
        lemma_summarize_stages_shape(statements.drop_last());
        let st = statements.last();
        if prev.len() > 0 && prev.last().phase == st.phase {
            lemma_well_formed_update(
                prev,
                SpecStage {
                    phase: st.phase,
                    statement_count: prev.last().statement_count + 1,
                    destructive_statements: prev.last().destructive_statements + destructive_weight(
                        st,
                    ),
                },
            );
        } else {
            lemma_well_formed_push(
                prev,
                SpecStage {
                    phase: st.phase,
                    statement_count: 1,
                    destructive_statements: destructive_weight(st),
                },
            );
        }
    }
}

/// Groups consecutive statements of one phase into stages.
pub fn summarize_stages(statements: &[MigrationStatement]) -> (r: Vec<MigrationStage>)
    ensures
        stages_view(r@) == spec_summarize_stages(statements_view(statements@)),
{
    let ghost sv = statements_view(statements@);
    let mut stages: Vec<MigrationStage> = Vec::new();
    let mut i: usize = 0;
    while i < statements.len()
        invariant
            i <= statements.len(),
            sv == statements_view(statements@),
            stages_view(stages@) == spec_summarize_stages(sv.take(i as int)),
            forall|k: int|
                0 <= k < stages@.len() ==> (#[trigger] stages@[k]).statement_count <= i
                    && stages@[k].destructive_statements <= i,
        decreases statements.len() - i,
    {
        let st = &statements[i];
        let d: usize = if st.destructive {
            1
        } else {
            0
        };
        assert(sv.take(i + 1).drop_last() == sv.take(i as int));
        assert(sv.take(i + 1).last() == st@);
        let n = stages.len();
        if n > 0 && stages[n - 1].phase == st.phase {
            let last = stages[n - 1];
            let updated = MigrationStage {
                phase: st.phase,
                statement_count: last.statement_count + 1,
                destructive_statements: last.destructive_statements + d,
            };
            stages.set(n - 1, updated);
        } else {
            stages.push(
                MigrationStage { phase: st.phase, statement_count: 1, destructive_statements: d },
            );
        }
        assert(stages_view(stages@) == spec_summarize_stages(sv.take(i + 1)));
        i = i + 1;
    }
    assert(sv.take(statements.len() as int) == sv);
    stages
}

/// The statements' SQL texts.
pub open spec fn statement_sqls(statements: Seq<SpecStatement>) -> Seq<Seq<char>> {
    statements.map_values(|s: SpecStatement| s.sql)
}

/// The statements, each on a new line.
pub open spec fn spec_statement_lines(sqls: Seq<Seq<char>>) -> Seq<char>
    decreases sqls.len(),
{
    if sqls.len() == 0 {
        Seq::empty()
    } else {
        spec_statement_lines(sqls.drop_last()) + "\n"@ + sqls.last()
    }
}

/// The script: a header naming both tables, the statements, and a closing line.
pub open spec fn spec_format_script(
    driver: DriverKind,
    source_name: Seq<char>,
    target_name: Seq<char>,
    sqls: Seq<Seq<char>>,
) -> Seq<char> {
    "-- Ramag migration preview\n-- Make target "@ + target_name + " match source "@ + source_name
        + ".\n-- Review this script before execution; Ramag runs it only after explicit confirmation.\n"@
        + spec_statement_lines(sqls) + if sqls.len() == 0 {
        "\n-- No schema changes detected.\n"@
    } else if driver == DriverKind::Mysql {
        "\n"@
    } else {
        Seq::empty()
    }
}

/// Formats the script text for review.
pub fn format_script(
    driver: DriverKind,
    source_name: &str,
    target_name: &str,
    statements: &[MigrationStatement],
) -> (r: String)
    ensures
        r@ == spec_format_script(
            driver,
            source_name@,
            target_name@,
            statement_sqls(statements_view(statements@)),
        ),
{
    let ghost sqls = statement_sqls(statements_view(statements@));
    let mut out = cat5(
        "-- Ramag migration preview\n-- Make target ",
        target_name,
        " match source ",
        source_name,
        ".\n-- Review this script before execution; Ramag runs it only after explicit confirmation.\n",
    );
    let ghost header = out@;
    let mut i: usize = 0;
    while i < statements.len()
        invariant
            i <= statements.len(),
            sqls == statement_sqls(statements_view(statements@)),
            out@ == header + spec_statement_lines(sqls.take(i as int)),
        decreases statements.len() - i,
    {
        push_str(&mut out, "\n");
        push_str(&mut out, statements[i].sql.as_str());
        assert(sqls.take(i + 1).drop_last() == sqls.take(i as int));
        i = i + 1;
    }
    assert(sqls.take(statements.len() as int) == sqls);
    if statements.len() == 0 {
        push_str(&mut out, "\n-- No schema changes detected.\n");
    } else if driver == DriverKind::Mysql {
        push_str(&mut out, "\n");
    }
    out
}

/// A generated migration: the script, review warnings, and statement counts per stage.
#[derive(Debug)]
pub struct MigrationScript {
    pub sql: String,
    pub warnings: Vec<String>,
    pub statement_count: usize,
    pub destructive_statements: usize,
    pub stages: Vec<MigrationStage>,
}

/// Ghost model of a migration.
pub struct SpecMigrationScript {
    pub sql: Seq<char>,
    pub warnings: Seq<Seq<char>>,
    pub statement_count: nat,
    pub destructive_statements: nat,
    pub stages: Seq<SpecStage>,
}

impl View for MigrationScript {
    type V = SpecMigrationScript;

    open spec fn view(&self) -> SpecMigrationScript {
        SpecMigrationScript {
            sql: self.sql@,
            warnings: strings_view(self.warnings@),
            statement_count: self.statement_count as nat,
            destructive_statements: self.destructive_statements as nat,
            stages: stages_view(self.stages@),
        }
    }
}

/// Ghost model of a table's metadata.
pub struct SpecTable {
    pub columns: Seq<SpecColumn>,
    pub indexes: Seq<SpecIndex>,
    pub foreign_keys: Seq<SpecForeignKey>,
}

impl View for TableMetadata {
    type V = SpecTable;

    open spec fn view(&self) -> SpecTable {
        SpecTable {
            columns: columns_view(self.columns@),
            indexes: indexes_view(self.indexes@),
            foreign_keys: foreign_keys_view(self.foreign_keys@),
        }
    }
}

/// All statements in dependency order: foreign-key drops, index drops, column changes,
/// index re-creation, foreign-key re-creation; the first refusal wins.
pub open spec fn spec_migration_statements(
    driver: DriverKind,
    target_name: Seq<char>,
    target_schema: Seq<char>,
    source: SpecTable,
    target: SpecTable,
) -> Result<Seq<SpecStatement>, Seq<char>> {
    match spec_fk_drops(
        driver,
        target_name,
        source.columns,
        target.columns,
        source.foreign_keys,
        target.foreign_keys,
    ) {
        Err(e) => Err(e),
        Ok(a) => match spec_index_drops(
            driver,
            target_name,
            target_schema,
            source.columns,
            target.columns,
            source.indexes,
            target.indexes,
        ) {
            Err(e) => Err(e),
            Ok(b) => match spec_column_changes(driver, target_name, source.columns, target.columns) {
                Err(e) => Err(e),
                Ok(c) => match spec_index_adds(
                    driver,
                    target_name,
                    source.columns,
                    target.columns,
                    target.indexes,
                    source.indexes,
                ) {
                    Err(e) => Err(e),
                    Ok(d) => match spec_fk_adds(
                        driver,
                        target_name,
                        target.foreign_keys,
                        source.foreign_keys,
                    ) {
                        Err(e) => Err(e),
                        Ok(f) => Ok(a + b + c + d + f),
                    },
                },
            },
        },
    }
}

/// Whether a source index is unique without being the primary key.
#[verifier::opaque]
pub open spec fn spec_has_plain_unique_index(indexes: Seq<SpecIndex>) -> bool {
    exists|k: int| 0 <= k < indexes.len() && (#[trigger] indexes[k]).unique && !indexes[k].primary
}

/// Review warnings about the migration.
pub open spec fn spec_migration_warnings(
    driver: DriverKind,
    source: SpecTable,
    target: SpecTable,
    statement_count: nat,
) -> Seq<Seq<char>> {
    let sc = source.columns;
    let tc = target.columns;
    let w1: Seq<Seq<char>> = if spec_has_column_changes(sc, tc)
        && spec_has_incomplete_column_metadata(sc, tc) {
        seq!["列顺序元数据不完整（缺少数据库列序号），迁移不会根据缺失信息推断，执行前请人工复核"@]
    } else {
        Seq::empty()
    };
    let w2: Seq<Seq<char>> = if driver == DriverKind::Postgres && spec_has_column_order_changes(
        sc,
        tc,
    ) {
        seq!["PostgreSQL 不支持直接调整现有列顺序，脚本不会自动重排，执行前请人工复核"@]
    } else {
        Seq::empty()
    };
    let w3: Seq<Seq<char>> = if driver == DriverKind::Postgres
        && spec_has_generated_column_rebuilds(sc, tc) {
        seq!["生成列表达式变化会删除并重建目标列，可能丢失该列现有值，执行前请人工复核"@]
    } else if spec_has_generated_column_changes(sc, tc) {
        seq!["生成列属性变化会写入迁移 SQL，执行前请人工复核"@]
    } else {
        Seq::empty()
    };
    let w4: Seq<Seq<char>> = if spec_has_auto_generation_changes(sc, tc) {
        seq!["自增或 IDENTITY 属性发生变化，迁移会显式写入新的生成规则，请确认序列行为"@]
    } else {
        Seq::empty()
    };
    let w5: Seq<Seq<char>> = if spec_has_plain_unique_index(source.indexes) {
        seq!["唯一索引与唯一约束在当前元数据中无法区分，PostgreSQL 将按唯一索引生成"@]
    } else {
        Seq::empty()
    };
    let w6: Seq<Seq<char>> = if driver == DriverKind::Mysql && statement_count > 0 {
        seq!["MySQL DDL 可能隐式提交；执行失败时目标表可能已部分变更，请先人工复核"@]
    } else {
        Seq::empty()
    };
    w1 + w2 + w3 + w4 + w5 + w6
}

/// The migration that makes the target table match the source table, or why none is generated.
pub open spec fn spec_build_migration_script(
    driver: DriverKind,
    source_schema: Seq<char>,
    source_table: Seq<char>,
    target_schema: Seq<char>,
    target_table: Seq<char>,
    source: SpecTable,
    target: SpecTable,
) -> Result<SpecMigrationScript, Seq<char>> {
    if !migratable(driver) {
        Err("当前数据库不支持生成表结构迁移 SQL"@)
    } else {
        match spec_qualified_name(driver, source_schema, source_table) {
            Err(e) => Err(e),
            Ok(source_name) => match spec_qualified_name(driver, target_schema, target_table) {
                Err(e) => Err(e),
                Ok(target_name) => match spec_migration_statements(
                    driver,
                    target_name,
                    target_schema,
                    source,
                    target,
                ) {
                    Err(e) => Err(e),
                    Ok(statements) => Ok(
                        SpecMigrationScript {
                            sql: spec_format_script(
                                driver,
                                source_name,
                                target_name,
                                statement_sqls(statements),
                            ),
                            warnings: spec_migration_warnings(
                                driver,
                                source,
                                target,
                                statements.len(),
                            ),
                            statement_count: statements.len(),
                            destructive_statements: count_destructive(statements),
                            stages: spec_summarize_stages(statements),
                        },
                    ),
                },
            },
        }
    }
}

fn count_destructive_statements(statements: &[MigrationStatement]) -> (r: usize)
    ensures
        r == count_destructive(statements_view(statements@)),
{
    let ghost sv = statements_view(statements@);
    let mut n: usize = 0;
    let mut i: usize = 0;
    while i < statements.len()
        invariant
            i <= statements.len(),
            sv == statements_view(statements@),
            n == count_destructive(sv.take(i as int)),
            n <= i,
        decreases statements.len() - i,
    {
        assert(sv.take(i + 1).drop_last() == sv.take(i as int));
        if statements[i].destructive {
            n = n + 1;
        }
        i = i + 1;
    }
    assert(sv.take(statements.len() as int) == sv);
    n
}

fn has_plain_unique_index(indexes: &[Index]) -> (r: bool)
    ensures
        r == spec_has_plain_unique_index(indexes_view(indexes@)),
{
    proof {
        reveal(spec_has_plain_unique_index);
    }
    let mut k: usize = 0;
    while k < indexes.len()
        invariant
            k <= indexes.len(),
            forall|q: int|
                0 <= q < k ==> !((#[trigger] indexes_view(indexes@)[q]).unique && !indexes_view(
                    indexes@,
                )[q].primary),
        decreases indexes.len() - k,
    {
        if indexes[k].unique && !indexes[k].primary {
            assert(indexes_view(indexes@)[k as int].unique);
            proof {
                reveal(spec_has_plain_unique_index);
            }
            return true;
        }
        k = k + 1;
    }
    false
}

fn migration_statements(
    driver: DriverKind,
    target_name: &str,
    target_schema: &str,
    source: &TableMetadata,
    target: &TableMetadata,
) -> (r: Result<Vec<MigrationStatement>, String>)
    requires
        migratable(driver),
    ensures
        match r {
            Ok(v) => spec_migration_statements(driver, target_name@, target_schema@, source@, target@)
                == Ok::<Seq<SpecStatement>, Seq<char>>(statements_view(v@)),
            Err(e) => spec_migration_statements(
                driver,
                target_name@,
                target_schema@,
                source@,
                target@,
            ) == Err::<Seq<SpecStatement>, Seq<char>>(e@),
        },
{
    let sc = source.columns.as_slice();
    let tc = target.columns.as_slice();
    let mut statements = append_foreign_key_drops(
        driver,
        target_name,
        sc,
        tc,
        source.foreign_keys.as_slice(),
        target.foreign_keys.as_slice(),
    )?;
    let ghost a = statements_view(statements@);
    let b = append_index_drops(
        driver,
        target_name,
        target_schema,
        sc,
        tc,
        source.indexes.as_slice(),
        target.indexes.as_slice(),
    )?;
    let ghost bv = statements_view(b@);
    append_statements(&mut statements, b);
    let c = append_column_changes(driver, target_name, sc, tc)?;
    let ghost cv = statements_view(c@);
    append_statements(&mut statements, c);
    let d = append_index_additions(
        driver,
        target_name,
        sc,
        tc,
        source.indexes.as_slice(),
        target.indexes.as_slice(),
    )?;
    let ghost dv = statements_view(d@);
    append_statements(&mut statements, d);
    let f = append_foreign_key_additions(
        driver,
        target_name,
        source.foreign_keys.as_slice(),
        target.foreign_keys.as_slice(),
    )?;
    let ghost fv = statements_view(f@);
    append_statements(&mut statements, f);
    assert(statements_view(statements@) == a + bv + cv + dv + fv);
    Ok(statements)
}

fn migration_warnings(
    driver: DriverKind,
    source: &TableMetadata,
    target: &TableMetadata,
    statement_count: usize,
) -> (r: Vec<String>)
    ensures
        strings_view(r@) == spec_migration_warnings(driver, source@, target@, statement_count as nat),
{
    let sc = source.columns.as_slice();
    let tc = target.columns.as_slice();
    let mut warnings: Vec<String> = Vec::new();
    let ghost w0: Seq<Seq<char>> = Seq::empty();
    if has_column_changes(sc, tc) && has_incomplete_column_metadata(sc, tc) {
        warnings.push(
            String::from_str(
                "列顺序元数据不完整（缺少数据库列序号），迁移不会根据缺失信息推断，执行前请人工复核",
            ),
        );
        assert(strings_view(warnings@) == seq![warnings@[0]@]);
    }
    let ghost w1 = strings_view(warnings@);
    if driver == DriverKind::Postgres && has_column_order_changes(sc, tc) {
        let w = String::from_str(
            "PostgreSQL 不支持直接调整现有列顺序，脚本不会自动重排，执行前请人工复核",
        );
        warnings.push(w);
        assert(strings_view(warnings@) == w1.push(w@));
    }
    let ghost w2 = strings_view(warnings@);
    if driver == DriverKind::Postgres && has_generated_column_rebuilds(sc, tc) {
        let w = String::from_str(
            "生成列表达式变化会删除并重建目标列，可能丢失该列现有值，执行前请人工复核",
        );
        warnings.push(w);
        assert(strings_view(warnings@) == w2.push(w@));
    } else if has_generated_column_changes(sc, tc) {
        let w = String::from_str("生成列属性变化会写入迁移 SQL，执行前请人工复核");
        warnings.push(w);
        assert(strings_view(warnings@) == w2.push(w@));
    }
    let ghost w3 = strings_view(warnings@);
    if has_auto_generation_changes(sc, tc) {
        let w = String::from_str(
            "自增或 IDENTITY 属性发生变化，迁移会显式写入新的生成规则，请确认序列行为",
        );
        warnings.push(w);
        assert(strings_view(warnings@) == w3.push(w@));
    }
    let ghost w4 = strings_view(warnings@);
    if has_plain_unique_index(source.indexes.as_slice()) {
        let w = String::from_str(
            "唯一索引与唯一约束在当前元数据中无法区分，PostgreSQL 将按唯一索引生成",
        );
        warnings.push(w);
        assert(strings_view(warnings@) == w4.push(w@));
    }
    let ghost w5 = strings_view(warnings@);
    if driver == DriverKind::Mysql && statement_count > 0 {
        let w = String::from_str(
            "MySQL DDL 可能隐式提交；执行失败时目标表可能已部分变更，请先人工复核",
        );
        warnings.push(w);
        assert(strings_view(warnings@) == w5.push(w@));
    }
    warnings
}

/// Builds the SQL that makes the target table match the source table. Only metadata is read;
/// nothing is executed.
pub fn build_migration_script(
    driver: DriverKind,
    source_schema: &str,
    source_table: &str,
    target_schema: &str,
    target_table: &str,
    source: &TableMetadata,
    target: &TableMetadata,
) -> (r: Result<MigrationScript, String>)
    ensures
        match r {
            Ok(script) => spec_build_migration_script(
                driver,
                source_schema@,
                source_table@,
                target_schema@,
                target_table@,
                source@,
                target@,
            ) == Ok::<SpecMigrationScript, Seq<char>>(script@),
            Err(e) => spec_build_migration_script(
                driver,
                source_schema@,
                source_table@,
                target_schema@,
                target_table@,
                source@,
                target@,
            ) == Err::<SpecMigrationScript, Seq<char>>(e@),
        },
{
    if !(driver == DriverKind::Mysql || driver == DriverKind::Postgres || driver
        == DriverKind::Sqlite) {
        return Err(String::from_str("当前数据库不支持生成表结构迁移 SQL"));
    }
    let source_name = qualified_name(driver, source_schema, source_table)?;
    let target_name = qualified_name(driver, target_schema, target_table)?;
    let statements = migration_statements(driver, target_name.as_str(), target_schema, source, target)?;
    let warnings = migration_warnings(driver, source, target, statements.len());
    let destructive_statements = count_destructive_statements(statements.as_slice());
    let sql = format_script(driver, source_name.as_str(), target_name.as_str(), statements.as_slice());
    let stages = summarize_stages(statements.as_slice());
    Ok(
        MigrationScript {
            statement_count: statements.len(),
            destructive_statements,
            stages,
            sql,
            warnings,
        },
    )
}


// ---------------------------------------------------------------------------------------------
// Laws
// ---------------------------------------------------------------------------------------------

/// Names pairwise different up to ASCII case.
pub open spec fn spec_distinct_names(names: Seq<Seq<char>>) -> bool {
    forall|i: int, j: int|
        0 <= i < names.len() && 0 <= j < names.len() && i != j ==> !spec_same_name(
            #[trigger] names[i],
            #[trigger] names[j],
        )
}

/// Whether a table's columns, indexes and foreign keys each have distinct names.
pub open spec fn spec_table_names_distinct(t: SpecTable) -> bool {
    &&& spec_distinct_names(column_names(t.columns))
    &&& spec_distinct_names(index_names(t.indexes))
    &&& spec_distinct_names(fk_names(t.foreign_keys))
}

proof fn lemma_same_name_refl(a: Seq<char>)
    ensures
        spec_same_name(a, a),
{
}

proof fn lemma_same_names_refl(a: Seq<Seq<char>>)
    ensures
        spec_same_names(a, a),
{
    assert forall|i: int| 0 <= i < a.len() implies spec_same_name(#[trigger] a[i], a[i]) by {
        lemma_same_name_refl(a[i]);
    }
}

proof fn lemma_find_own_name(names: Seq<Seq<char>>, k: int)
    requires
        0 <= k < names.len(),
    ensures
        find_name(names, names[k]) is Some,
        spec_distinct_names(names) ==> find_name(names, names[k]) == Some(k),
{
    lemma_find_name_from(names, names[k], 0);
    lemma_same_name_refl(names[k]);
    if find_name(names, names[k]) is None {
        assert(!spec_same_name(names[k], names[k]));
    }
    let m = find_name(names, names[k])->0;
    if spec_distinct_names(names) && m != k {
        assert(!spec_same_name(names[m], names[k]));
    }
}

proof fn lemma_no_column_changed(names: Seq<Seq<char>>, cols: Seq<SpecColumn>)
    ensures
        !spec_any_changed(names, cols, cols),
{
    assert forall|k: int| 0 <= k < names.len() implies !spec_changed_column(#[trigger] names[k], cols, cols) by {
    }
}

proof fn lemma_fk_drops_none(
    driver: DriverKind,
    target_name: Seq<char>,
    cols: Seq<SpecColumn>,
    fks: Seq<SpecForeignKey>,
    m: int,
)
    requires
        0 <= m <= fks.len(),
        spec_distinct_names(fk_names(fks)),
    ensures
        spec_fk_drops(driver, target_name, cols, cols, fks, fks.skip(m)) == Ok::<Seq<SpecStatement>, Seq<char>>(
            Seq::empty(),
        ),
    decreases fks.len() - m,
{
    if m < fks.len() {
        let olds = fks.skip(m);
        assert(olds.drop_first() =~= fks.skip(m + 1));
        assert(olds[0] == fks[m]);
        assert(fk_names(fks)[m] == fks[m].name);
        lemma_find_own_name(fk_names(fks), m);
        lemma_same_names_refl(fks[m].columns);
        lemma_same_names_refl(fks[m].ref_columns);
        lemma_same_name_refl(fks[m].ref_schema);
        lemma_same_name_refl(fks[m].ref_table);
        lemma_no_column_changed(fks[m].columns, cols);
        lemma_fk_drops_none(driver, target_name, cols, fks, m + 1);
    } else {
        assert(fks.skip(m) =~= Seq::<SpecForeignKey>::empty());
    }
}

proof fn lemma_fk_adds_none(driver: DriverKind, target_name: Seq<char>, fks: Seq<SpecForeignKey>, m: int)
    requires
        0 <= m <= fks.len(),
        spec_distinct_names(fk_names(fks)),
    ensures
        spec_fk_adds(driver, target_name, fks, fks.skip(m)) == Ok::<Seq<SpecStatement>, Seq<char>>(
            Seq::empty(),
        ),
    decreases fks.len() - m,
{
    if m < fks.len() {
        let news = fks.skip(m);
        assert(news.drop_first() =~= fks.skip(m + 1));
        assert(news[0] == fks[m]);
        assert(fk_names(fks)[m] == fks[m].name);
        lemma_find_own_name(fk_names(fks), m);
        lemma_same_names_refl(fks[m].columns);
        lemma_same_names_refl(fks[m].ref_columns);
        lemma_same_name_refl(fks[m].ref_schema);
        lemma_same_name_refl(fks[m].ref_table);
        lemma_fk_adds_none(driver, target_name, fks, m + 1);
    } else {
        assert(fks.skip(m) =~= Seq::<SpecForeignKey>::empty());
    }
}

proof fn lemma_index_drops_none(
    driver: DriverKind,
    target_name: Seq<char>,
    target_schema: Seq<char>,
    cols: Seq<SpecColumn>,
    idx: Seq<SpecIndex>,
    m: int,
)
    requires
        0 <= m <= idx.len(),
        spec_distinct_names(index_names(idx)),
    ensures
        spec_index_drops(driver, target_name, target_schema, cols, cols, idx, idx.skip(m)) == Ok::<
            Seq<SpecStatement>,
            Seq<char>,
        >(Seq::empty()),
    decreases idx.len() - m,
{
    if m < idx.len() {
        let olds = idx.skip(m);
        assert(olds.drop_first() =~= idx.skip(m + 1));
        assert(olds[0] == idx[m]);
        assert(index_names(idx)[m] == idx[m].name);
        lemma_find_own_name(index_names(idx), m);
        lemma_same_names_refl(idx[m].columns);
        lemma_no_column_changed(idx[m].columns, cols);
        lemma_index_drops_none(driver, target_name, target_schema, cols, idx, m + 1);
    } else {
        assert(idx.skip(m) =~= Seq::<SpecIndex>::empty());
    }
}

proof fn lemma_index_adds_none(
    driver: DriverKind,
    target_name: Seq<char>,
    cols: Seq<SpecColumn>,
    idx: Seq<SpecIndex>,
    m: int,
)
    requires
        0 <= m <= idx.len(),
        spec_distinct_names(index_names(idx)),
    ensures
        spec_index_adds(driver, target_name, cols, cols, idx, idx.skip(m)) == Ok::<
            Seq<SpecStatement>,
            Seq<char>,
        >(Seq::empty()),
    decreases idx.len() - m,
{
    if m < idx.len() {
        let news = idx.skip(m);
        assert(news.drop_first() =~= idx.skip(m + 1));
        assert(news[0] == idx[m]);
        assert(index_names(idx)[m] == idx[m].name);
        lemma_find_own_name(index_names(idx), m);
        lemma_same_names_refl(idx[m].columns);
        lemma_no_column_changed(idx[m].columns, cols);
        lemma_index_adds_none(driver, target_name, cols, idx, m + 1);
    } else {
        assert(idx.skip(m) =~= Seq::<SpecIndex>::empty());
    }
}

proof fn lemma_no_renames(cols: Seq<SpecColumn>, n: int)
    requires
        0 <= n <= cols.len(),
    ensures
        spec_renames(cols, cols, n) == Seq::<(int, int)>::empty(),
    decreases n,
{
    if n > 0 {
        lemma_no_renames(cols, n - 1);
        assert(column_names(cols)[n - 1] == cols[n - 1].name);
        lemma_find_own_name(column_names(cols), n - 1);
        assert(spec_renames(cols, cols, n - 1) + Seq::<(int, int)>::empty() =~= Seq::<(int, int)>::empty());
    }
}

proof fn lemma_no_column_drops(
    driver: DriverKind,
    target_name: Seq<char>,
    cols: Seq<SpecColumn>,
    pairs: Seq<(int, int)>,
    k: int,
)
    requires
        0 <= k <= cols.len(),
    ensures
        spec_column_drops(driver, target_name, cols, cols, pairs, k) == Ok::<Seq<SpecStatement>, Seq<char>>(
            Seq::empty(),
        ),
    decreases cols.len() - k,
{
    if k < cols.len() {
        assert(column_names(cols)[k] == cols[k].name);
        lemma_find_own_name(column_names(cols), k);
        lemma_no_column_drops(driver, target_name, cols, pairs, k + 1);
    }
}

proof fn lemma_no_column_updates(
    driver: DriverKind,
    target_name: Seq<char>,
    cols: Seq<SpecColumn>,
    pairs: Seq<(int, int)>,
    k: int,
)
    requires
        0 <= k <= cols.len(),
        spec_distinct_names(column_names(cols)),
    ensures
        spec_column_updates(driver, target_name, cols, cols, pairs, k) == Ok::<Seq<SpecStatement>, Seq<char>>(
            Seq::empty(),
        ),
    decreases cols.len() - k,
{
    if k < cols.len() {
        assert(column_names(cols)[k] == cols[k].name);
        lemma_find_own_name(column_names(cols), k);
        lemma_no_column_updates(driver, target_name, cols, pairs, k + 1);
    }
}

/// Comparing a table with itself needs no statement: when its columns, indexes and foreign
/// keys each have distinct names, the migration is empty.
pub proof fn lemma_unchanged_table_needs_no_statements(
    driver: DriverKind,
    target_name: Seq<char>,
    target_schema: Seq<char>,
    t: SpecTable,
)
    requires
        spec_table_names_distinct(t),
    ensures
        spec_migration_statements(driver, target_name, target_schema, t, t) == Ok::<
            Seq<SpecStatement>,
            Seq<char>,
        >(Seq::empty()),
{
    assert(t.foreign_keys.skip(0) =~= t.foreign_keys);
    assert(t.indexes.skip(0) =~= t.indexes);
    lemma_fk_drops_none(driver, target_name, t.columns, t.foreign_keys, 0);
    lemma_index_drops_none(driver, target_name, target_schema, t.columns, t.indexes, 0);
    lemma_no_renames(t.columns, t.columns.len() as int);
    let pairs = spec_unique_renames(t.columns, t.columns);
    lemma_no_column_drops(driver, target_name, t.columns, pairs, 0);
    lemma_no_column_updates(driver, target_name, t.columns, pairs, 0);
    assert(Seq::<SpecStatement>::empty() + Seq::<SpecStatement>::empty() + Seq::<SpecStatement>::empty()
        =~= Seq::<SpecStatement>::empty());
    lemma_index_adds_none(driver, target_name, t.columns, t.indexes, 0);
    lemma_fk_adds_none(driver, target_name, t.foreign_keys, 0);
    assert(Seq::<SpecStatement>::empty() + Seq::<SpecStatement>::empty() + Seq::<SpecStatement>::empty()
        + Seq::<SpecStatement>::empty() + Seq::<SpecStatement>::empty() =~= Seq::<SpecStatement>::empty());
}

/// A name that can be quoted for a migration: non-empty once trimmed, with no control
/// character.
pub open spec fn spec_usable_name(name: Seq<char>) -> bool {
    spec_trim(name).len() > 0 && !has_control(spec_trim(name))
}

/// A migration generated from a table to itself succeeds for every supported dialect and
/// usable names: it has no statement, none destructive, no stage, and its text is the header
/// followed by the note that no schema change was detected.
pub proof fn lemma_unchanged_table_script_is_empty(
    driver: DriverKind,
    source_schema: Seq<char>,
    source_table: Seq<char>,
    target_schema: Seq<char>,
    target_table: Seq<char>,
    t: SpecTable,
)
    requires
        migratable(driver),
        spec_usable_name(source_schema),
        spec_usable_name(source_table),
        spec_usable_name(target_schema),
        spec_usable_name(target_table),
        spec_table_names_distinct(t),
    ensures
        ({
            let r = spec_build_migration_script(
                driver,
                source_schema,
                source_table,
                target_schema,
                target_table,
                t,
                t,
            );
            let source_name = spec_qualified_name(driver, source_schema, source_table)->Ok_0;
            let target_name = spec_qualified_name(driver, target_schema, target_table)->Ok_0;
            &&& r is Ok
            &&& r->Ok_0.statement_count == 0
            &&& r->Ok_0.destructive_statements == 0
            &&& r->Ok_0.stages == Seq::<SpecStage>::empty()
            &&& r->Ok_0.sql == "-- Ramag migration preview\n-- Make target "@ + target_name
                + " match source "@ + source_name
                + ".\n-- Review this script before execution; Ramag runs it only after explicit confirmation.\n"@
                + "\n-- No schema changes detected.\n"@
        }),
{
    let target_name = spec_qualified_name(driver, target_schema, target_table)->Ok_0;
    lemma_unchanged_table_needs_no_statements(driver, target_name, target_schema, t);
    let none = Seq::<SpecStatement>::empty();
    assert(statement_sqls(none) =~= Seq::<Seq<char>>::empty());
    assert(spec_statement_lines(Seq::<Seq<char>>::empty()) == Seq::<char>::empty());
    assert(spec_summarize_stages(none) == Seq::<SpecStage>::empty());
}


/// Target column `i` and source column `j` may be treated as one renamed column: neither
/// has a same-named partner, their definitions match apart from the name, and each is the
/// other's only such candidate.
pub open spec fn spec_unambiguous_rename(source: Seq<SpecColumn>, target: Seq<SpecColumn>, i: int, j: int) -> bool {
    &&& 0 <= i < target.len()
    &&& 0 <= j < source.len()
    &&& !has_col(source, target[i].name)
    &&& !has_col(target, source[j].name)
    &&& spec_rename_equivalent(target[i], source[j])
    &&& count_src_candidates(source, target, target[i], source.len() as int) == 1
    &&& count_tgt_candidates(source, target, source[j], target.len() as int) == 1
}

proof fn lemma_first_src_is_candidate(source: Seq<SpecColumn>, target: Seq<SpecColumn>, old: SpecColumn, j: int)
    requires
        0 <= j,
        first_src_candidate_from(source, target, old, j) is Some,
    ensures
        ({
            let k = first_src_candidate_from(source, target, old, j)->0;
            j <= k < source.len() && spec_src_candidate(source, target, old, k)
        }),
    decreases source.len() - j,
{
    if j < source.len() && !spec_src_candidate(source, target, old, j) {
        lemma_first_src_is_candidate(source, target, old, j + 1);
    }
}

proof fn lemma_renames_unambiguous_prefix(source: Seq<SpecColumn>, target: Seq<SpecColumn>, n: int)
    requires
        0 <= n <= target.len(),
    ensures
        forall|p: int|
            0 <= p < spec_renames(source, target, n).len() ==> spec_unambiguous_rename(
                source,
                target,
                (#[trigger] spec_renames(source, target, n)[p]).0,
                spec_renames(source, target, n)[p].1,
            ) && spec_renames(source, target, n)[p].0 < n,
    decreases n,
{
    if n > 0 {
        lemma_renames_unambiguous_prefix(source, target, n - 1);
        let i = n - 1;
        match spec_rename_partner(source, target, i) {
            Some(j) => {
                lemma_first_src_is_candidate(source, target, target[i], 0);
                assert(spec_unambiguous_rename(source, target, i, j));
                let before = spec_renames(source, target, n - 1);
                assert forall|p: int| 0 <= p < spec_renames(source, target, n).len() implies spec_unambiguous_rename(
                    source,
                    target,
                    (#[trigger] spec_renames(source, target, n)[p]).0,
                    spec_renames(source, target, n)[p].1,
                ) && spec_renames(source, target, n)[p].0 < n by {
                    if p < before.len() {
                        assert(spec_renames(source, target, n)[p] == before[p]);
                    } else {
                        assert(spec_renames(source, target, n)[p] == (i, j));
                    }
                }
            },
            None => {
                assert(spec_renames(source, target, n) =~= spec_renames(source, target, n - 1));
            },
        }
    }
}

/// A column is only ever taken as renamed when the pairing is unambiguous: every rename pair
/// joins a target column and a source column that both lack a same-named partner, match in
/// definition apart from the name, and are each other's only candidate. Any other unmatched
/// column is dropped or added instead.
pub proof fn lemma_renames_are_unambiguous(source: Seq<SpecColumn>, target: Seq<SpecColumn>)
    ensures
        forall|p: int|
            0 <= p < spec_unique_renames(source, target).len() ==> spec_unambiguous_rename(
                source,
                target,
                (#[trigger] spec_unique_renames(source, target)[p]).0,
                spec_unique_renames(source, target)[p].1,
            ),
{
    lemma_renames_unambiguous_prefix(source, target, target.len() as int);
}

/// What the body of an SQL string literal reads as: a doubled single quote is one quote; a
/// lone single quote means the literal is broken (`None`).
pub open spec fn spec_unquote(q: Seq<char>) -> Option<Seq<char>>
    decreases q.len(),
{
    if q.len() == 0 {
        Some(Seq::empty())
    } else if q.last() == '\'' {
        if q.len() >= 2 && q[q.len() - 2] == '\'' {
            match spec_unquote(q.subrange(0, q.len() - 2)) {
                Some(r) => Some(r.push('\'')),
                None => None,
            }
        } else {
            None
        }
    } else {
        match spec_unquote(q.drop_last()) {
            Some(r) => Some(r.push(q.last())),
            None => None,
        }
    }
}

/// An escaped text reads back as the text itself.
pub proof fn lemma_escape_literal_reads_back(v: Seq<char>)
    ensures
        spec_unquote(spec_escape_literal(v)) == Some(v),
    decreases v.len(),
{
    if v.len() > 0 {
        lemma_escape_literal_reads_back(v.drop_last());
        let e = spec_escape_literal(v.drop_last());
        let q = spec_escape_literal(v);
        let c = v.last();
        assert(q == e + escape_literal_char(c));
        if c == '\'' {
            assert(q.subrange(0, q.len() - 2) =~= e);
            assert(q.last() == '\'');
            assert(q[q.len() - 2] == '\'');
        } else {
            assert(q.drop_last() =~= e);
            assert(q.last() == c);
        }
        assert(v.drop_last().push(c) =~= v);
    }
}

/// Whether `definition` is `head` followed by the comment literal with body `q`.
pub open spec fn spec_comment_split(definition: Seq<char>, head: Seq<char>, q: Seq<char>) -> bool {
    definition == head + " COMMENT '"@ + q + "'"@
}

/// Every MySQL column definition that carries a comment ends with a well-formed string
/// literal that reads back as the trimmed comment: each single quote of the comment is
/// doubled and no lone quote is left.
pub proof fn lemma_mysql_comment_literal(c: SpecColumn, comment: Seq<char>)
    requires
        c.comment == Some(comment),
        spec_trim(comment).len() > 0,
        spec_column_definition(DriverKind::Mysql, c, true) is Ok,
    ensures
        exists|head: Seq<char>, q: Seq<char>|
            #[trigger] spec_comment_split(spec_column_definition(DriverKind::Mysql, c, true)->Ok_0, head, q)
                && spec_unquote(q) == Some(spec_trim(comment)),
{
    let driver = DriverKind::Mysql;
    let name = spec_identifier(driver, c.name, "字段名"@)->Ok_0;
    let data_type = spec_fragment(c.raw_type, "字段类型"@)->Ok_0;
    let generated = spec_generated_clause(driver, c)->Ok_0;
    let identity = spec_identity_clause(driver, c)->Ok_0;
    let default = spec_default_clause(c)->Ok_0;
    let head = name + " "@ + data_type + generated + identity + (if c.nullable {
        " NULL"@
    } else {
        " NOT NULL"@
    }) + default + (if c.is_auto_increment {
        " AUTO_INCREMENT"@
    } else {
        Seq::empty()
    });
    let q = spec_escape_literal(spec_trim(comment));
    assert(spec_comment_clause(driver, c, true) == " COMMENT '"@ + q + "'"@);
    assert(spec_column_definition(driver, c, true)->Ok_0 == head + spec_comment_clause(driver, c, true));
    assert(spec_column_definition(driver, c, true)->Ok_0 == head + " COMMENT '"@ + q + "'"@) by {
        assert(head + (" COMMENT '"@ + q + "'"@) =~= head + " COMMENT '"@ + q + "'"@);
    }
    lemma_escape_literal_reads_back(spec_trim(comment));
    assert(spec_comment_split(spec_column_definition(driver, c, true)->Ok_0, head, q));
}

} // verus!
