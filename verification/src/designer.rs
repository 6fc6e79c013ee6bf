//! Table designer: field drafts edited against loaded columns, and the ALTER TABLE SQL they need.

use vstd::prelude::*;

use crate::domain::{
    Column, DriverKind, GeneratedColumnStorage, SpecColumn, columns_view, opt_view, spec_quote_identifier,
};
use crate::metadata::{non_empty, spec_non_empty};
use crate::migration::spec_generated_storage;
use vstd::relations::injective_on;
use vstd::set_lib::{lemma_int_range, lemma_len_subset, lemma_map_size, set_int_range};
use crate::text::{string_from_chars, lemma_decimal_injective, lemma_decimal_nonempty, spec_decimal, decimal,
    any_control, append_strings, cat2, cat3, cat4, cat5, chars_of, contains_text, contains_char, escape_literal, has_control, join,
    push_str, spec_ascii_lowercase, spec_escape_literal, spec_join, spec_trim, spec_utf8_len,
    strings_view, to_ascii_lowercase, trim, utf8_len, compact, spec_compact, same_name, spec_same_name,
};

verus! {

/// Longest identifier accepted, in UTF-8 bytes.
pub const MAX_CONNECTION_IDENTIFIER_BYTES: usize = 256;

/// Error when the draft matches the loaded table.
pub open spec fn no_changes() -> Seq<char> {
    "没有检测到表结构变更"@
}

/// One field row of the designer.
#[derive(Debug)]
pub struct FieldDraft {
    pub name: String,
    pub data_type: String,
    pub nullable: bool,
    pub default_value: String,
    pub comment: String,
    pub original: Option<Column>,
    pub deleted: bool,
}

/// Ghost model of a field row.
pub struct SpecField {
    pub name: Seq<char>,
    pub data_type: Seq<char>,
    pub nullable: bool,
    pub default_value: Seq<char>,
    pub comment: Seq<char>,
    pub original: Option<SpecColumn>,
    pub deleted: bool,
}

/// Optional column viewed.
pub open spec fn opt_col_view(o: Option<Column>) -> Option<SpecColumn> {
    match o {
        Some(c) => Some(c@),
        None => None,
    }
}

impl View for FieldDraft {
    type V = SpecField;

    open spec fn view(&self) -> SpecField {
        SpecField {
            name: self.name@,
            data_type: self.data_type@,
            nullable: self.nullable,
            default_value: self.default_value@,
            comment: self.comment@,
            original: opt_col_view(self.original),
            deleted: self.deleted,
        }
    }
}

/// Views of field rows.
pub open spec fn fields_view(v: Seq<FieldDraft>) -> Seq<SpecField> {
    v.map_values(|f: FieldDraft| f@)
}

/// Optional text, a missing value read as empty.
pub open spec fn or_empty(o: Option<Seq<char>>) -> Seq<char> {
    match o {
        Some(v) => v,
        None => Seq::empty(),
    }
}

fn or_empty_exec(o: &Option<String>) -> (r: String)
    ensures
        r@ == or_empty(opt_view(*o)),
{
    match o {
        Some(v) => v.clone(),
        None => String::new(),
    }
}

/// Checks an identifier typed into the designer.
pub open spec fn spec_validate_identifier(label: Seq<char>, value: Seq<char>) -> Option<Seq<char>> {
    if value.len() == 0 {
        Some(label + "不能为空"@)
    } else if spec_utf8_len(value) > MAX_CONNECTION_IDENTIFIER_BYTES {
        Some(label + "不能超过 256 字节"@)
    } else if has_control(value) {
        Some(label + "不能包含控制字符"@)
    } else {
        None
    }
}

/// Rejects an empty identifier, one longer than the byte limit, or one with control characters.
pub fn validate_identifier(label: &str, value: &str) -> (r: Result<(), String>)
    ensures
        match r {
            Ok(()) => spec_validate_identifier(label@, value@) is None,
            Err(e) => spec_validate_identifier(label@, value@) == Some(e@),
        },
{
    let cs = chars_of(value);
    if cs.len() == 0 {
        return Err(cat2(label, "不能为空"));
    }
    if utf8_len(value) > MAX_CONNECTION_IDENTIFIER_BYTES {
        return Err(cat2(label, "不能超过 256 字节"));
    }
    if any_control(cs.as_slice()) {
        return Err(cat2(label, "不能包含控制字符"));
    }
    Ok(())
}

/// Whether the trimmed values of a kept field differ from its loaded column.
pub open spec fn spec_field_changed(
    f: SpecField,
    original: SpecColumn,
    name: Seq<char>,
    data_type: Seq<char>,
    default_value: Seq<char>,
    comment: Seq<char>,
) -> bool {
    original.name != name || original.raw_type != data_type || original.nullable != f.nullable
        || or_empty(original.default_value) != default_value || or_empty(original.comment)
        != comment
}

fn field_changed(
    f: &FieldDraft,
    original: &Column,
    name: &str,
    data_type: &str,
    default_value: &str,
    comment: &str,
) -> (r: bool)
    ensures
        r == spec_field_changed(f@, original@, name@, data_type@, default_value@, comment@),
{
    let d = or_empty_exec(&original.default_value);
    let c = or_empty_exec(&original.comment);
    !crate::text::str_eq(original.name.as_str(), name) || !crate::text::str_eq(
        original.data_type.raw_type.as_str(),
        data_type,
    ) || original.nullable != f.nullable || !crate::text::str_eq(d.as_str(), default_value)
        || !crate::text::str_eq(c.as_str(), comment)
}

/// MySQL attributes of a loaded column that `CHANGE COLUMN` must replay.
pub struct SpecMysqlAttributes {
    pub generated_clause: Seq<char>,
    pub generated: bool,
    pub auto_increment: bool,
}

/// Generated clause and auto-increment flag of the loaded column; identity and incomplete
/// generation metadata are refused.
pub open spec fn spec_mysql_attributes(original: Option<SpecColumn>) -> Result<
    SpecMysqlAttributes,
    Seq<char>,
> {
    match original {
        None => Ok(SpecMysqlAttributes { generated_clause: Seq::empty(), generated: false, auto_increment: false }),
        Some(o) => if o.identity_generation is Some {
            Err(
                "MySQL 字段 "@ + o.name + " 包含不支持的 IDENTITY 属性，无法安全生成 CHANGE COLUMN"@,
            )
        } else {
            let expression = spec_non_empty(o.generation_expression);
            if (expression is Some) != (o.generated_storage is Some) {
                Err(
                    "MySQL 字段 "@ + o.name
                        + " 的生成列元数据不完整，无法安全生成 CHANGE COLUMN"@,
                )
            } else {
                Ok(
                    SpecMysqlAttributes {
                        generated_clause: match (expression, o.generated_storage) {
                            (Some(e), Some(st)) => " GENERATED ALWAYS AS ("@ + e + ") "@
                                + spec_generated_storage(st),
                            _ => Seq::empty(),
                        },
                        generated: expression is Some,
                        auto_increment: o.is_auto_increment,
                    },
                )
            }
        },
    }
}

struct MysqlAttributes {
    generated_clause: String,
    generated: bool,
    auto_increment: bool,
}

fn mysql_attributes(original: &Option<Column>) -> (r: Result<MysqlAttributes, String>)
    ensures
        match r {
            Ok(a) => spec_mysql_attributes(opt_col_view(*original)) == Ok::<
                SpecMysqlAttributes,
                Seq<char>,
            >(
                SpecMysqlAttributes {
                    generated_clause: a.generated_clause@,
                    generated: a.generated,
                    auto_increment: a.auto_increment,
                },
            ),
            Err(e) => spec_mysql_attributes(opt_col_view(*original)) == Err::<
                SpecMysqlAttributes,
                Seq<char>,
            >(e@),
        },
{
    match original {
        None => Ok(MysqlAttributes { generated_clause: String::new(), generated: false, auto_increment: false }),
        Some(o) => {
            if o.identity_generation.is_some() {
                return Err(
                    cat3(
                        "MySQL 字段 ",
                        o.name.as_str(),
                        " 包含不支持的 IDENTITY 属性，无法安全生成 CHANGE COLUMN",
                    ),
                );
            }
            let expression = non_empty(&o.generation_expression);
            if expression.is_some() != o.generated_storage.is_some() {
                return Err(
                    cat3(
                        "MySQL 字段 ",
                        o.name.as_str(),
                        " 的生成列元数据不完整，无法安全生成 CHANGE COLUMN",
                    ),
                );
            }
            let generated = expression.is_some();
            let generated_clause = match (expression, o.generated_storage) {
                (Some(e), Some(st)) => {
                    let storage = match st {
                        GeneratedColumnStorage::Virtual => "VIRTUAL",
                        GeneratedColumnStorage::Stored => "STORED",
                    };
                    let mut s = cat3(" GENERATED ALWAYS AS (", e.as_str(), ") ");
                    push_str(&mut s, storage);
                    s
                },
                _ => String::new(),
            };
            Ok(MysqlAttributes { generated_clause, generated, auto_increment: o.is_auto_increment })
        },
    }
}

/// MySQL column definition of a field, replaying the loaded column's generated clause and
/// auto-increment flag.
pub open spec fn spec_mysql_definition(
    driver: DriverKind,
    name: Seq<char>,
    data_type: Seq<char>,
    nullable: bool,
    default_value: Seq<char>,
    comment: Seq<char>,
    original: Option<SpecColumn>,
) -> Result<Seq<char>, Seq<char>> {
    match spec_mysql_attributes(original) {
        Err(e) => Err(e),
        Ok(a) => if a.generated && spec_trim(default_value).len() > 0 {
            Err(
                "MySQL 字段 "@ + name
                    + " 同时包含生成表达式和默认值，无法安全生成 CHANGE COLUMN"@,
            )
        } else if a.generated && a.auto_increment {
            Err(
                "MySQL 字段 "@ + name
                    + " 同时包含生成表达式和 AUTO_INCREMENT，无法安全生成 CHANGE COLUMN"@,
            )
        } else {
            Ok(
                spec_quote_identifier(driver, name) + " "@ + data_type + a.generated_clause + (
                if nullable {
                    " NULL"@
                } else {
                    " NOT NULL"@
                }) + (if a.generated || default_value.len() == 0 {
                    Seq::empty()
                } else {
                    " DEFAULT "@ + default_value
                }) + (if a.auto_increment {
                    " AUTO_INCREMENT"@
                } else {
                    Seq::empty()
                }) + (if comment.len() == 0 {
                    Seq::empty()
                } else {
                    " COMMENT '"@ + spec_escape_literal(comment) + "'"@
                }),
            )
        },
    }
}

/// Builds the MySQL definition of a field.
pub fn mysql_definition(
    driver: DriverKind,
    name: &str,
    data_type: &str,
    nullable: bool,
    default_value: &str,
    comment: &str,
    original: &Option<Column>,
) -> (r: Result<String, String>)
    ensures
        crate::text::res_view(r) == spec_mysql_definition(
            driver,
            name@,
            data_type@,
            nullable,
            default_value@,
            comment@,
            opt_col_view(*original),
        ),
{
    let attributes = mysql_attributes(original)?;
    let td = trim(default_value);
    if attributes.generated && !td.as_str().is_empty() {
        return Err(
            cat3(
                "MySQL 字段 ",
                name,
                " 同时包含生成表达式和默认值，无法安全生成 CHANGE COLUMN",
            ),
        );
    }
    if attributes.generated && attributes.auto_increment {
        return Err(
            cat3(
                "MySQL 字段 ",
                name,
                " 同时包含生成表达式和 AUTO_INCREMENT，无法安全生成 CHANGE COLUMN",
            ),
        );
    }
    let q = driver.quote_identifier(name);
    let mut s = cat4(q.as_str(), " ", data_type, attributes.generated_clause.as_str());
    let ghost p0 = s@;
    if nullable {
        push_str(&mut s, " NULL");
    } else {
        push_str(&mut s, " NOT NULL");
    }
    let ghost p1 = s@;
    if !(attributes.generated || default_value.is_empty()) {
        push_str(&mut s, " DEFAULT ");
        push_str(&mut s, default_value);
    }
    let ghost p2 = s@;
    assert(p2 == p1 + (if attributes.generated || default_value@.len() == 0 {
        Seq::<char>::empty()
    } else {
        " DEFAULT "@ + default_value@
    }));
    if attributes.auto_increment {
        push_str(&mut s, " AUTO_INCREMENT");
    }
    let ghost p3 = s@;
    if !comment.is_empty() {
        push_str(&mut s, " COMMENT '");
        let e = escape_literal(comment);
        push_str(&mut s, e.as_str());
        push_str(&mut s, "'");
    }
    assert(s@ == p3 + (if comment@.len() == 0 {
        Seq::<char>::empty()
    } else {
        " COMMENT '"@ + spec_escape_literal(comment@) + "'"@
    }));
    Ok(s)
}


// ---------------------------------------------------------------------------------------------
// Field SQL per dialect
// ---------------------------------------------------------------------------------------------

/// MySQL clauses of one kept field: `ADD COLUMN` for a new field, `CHANGE COLUMN` for a
/// changed one. The definition is checked even when the field is unchanged.
pub open spec fn spec_mysql_field_clauses(
    driver: DriverKind,
    f: SpecField,
    name: Seq<char>,
    data_type: Seq<char>,
    default_value: Seq<char>,
    comment: Seq<char>,
) -> Result<Seq<Seq<char>>, Seq<char>> {
    match spec_mysql_definition(driver, name, data_type, f.nullable, default_value, comment, f.original) {
        Err(e) => Err(e),
        Ok(definition) => match f.original {
            None => Ok(seq!["ADD COLUMN "@ + definition]),
            Some(o) => if spec_field_changed(f, o, name, data_type, default_value, comment) {
                Ok(seq!["CHANGE COLUMN "@ + spec_quote_identifier(driver, o.name) + " "@ + definition])
            } else {
                Ok(Seq::empty())
            },
        },
    }
}

/// PostgreSQL statements of one kept field.
pub open spec fn spec_postgres_field_sql(
    driver: DriverKind,
    f: SpecField,
    table: Seq<char>,
    name: Seq<char>,
    data_type: Seq<char>,
    default_value: Seq<char>,
    comment: Seq<char>,
) -> Seq<Seq<char>> {
    let qname = spec_quote_identifier(driver, name);
    match f.original {
        None => seq![
            "ALTER TABLE "@ + table + " ADD COLUMN "@ + qname + " "@ + data_type + (if f.nullable {
                Seq::empty()
            } else {
                " NOT NULL"@
            }) + (if default_value.len() == 0 {
                Seq::empty()
            } else {
                " DEFAULT "@ + default_value
            }) + ";"@,
        ] + (if comment.len() == 0 {
            Seq::empty()
        } else {
            seq![
                "COMMENT ON COLUMN "@ + table + "."@ + qname + " IS '"@ + spec_escape_literal(comment)
                    + "';"@,
            ]
        }),
        Some(o) => {
            let prefix = "ALTER TABLE "@ + table + " ALTER COLUMN "@ + qname;
            (if o.name != name {
                seq![
                    "ALTER TABLE "@ + table + " RENAME COLUMN "@ + spec_quote_identifier(driver, o.name)
                        + " TO "@ + qname + ";"@,
                ]
            } else {
                Seq::empty()
            }) + (if o.raw_type != data_type {
                seq![prefix + " TYPE "@ + data_type + ";"@]
            } else {
                Seq::empty()
            }) + (if o.nullable != f.nullable {
                seq![
                    prefix + " "@ + (if f.nullable {
                        "DROP NOT NULL"@
                    } else {
                        "SET NOT NULL"@
                    }) + ";"@,
                ]
            } else {
                Seq::empty()
            }) + (if or_empty(o.default_value) != default_value {
                seq![
                    if default_value.len() == 0 {
                        prefix + " DROP DEFAULT;"@
                    } else {
                        prefix + " SET DEFAULT "@ + default_value + ";"@
                    },
                ]
            } else {
                Seq::empty()
            }) + (if or_empty(o.comment) != comment {
                seq![
                    "COMMENT ON COLUMN "@ + table + "."@ + qname + " IS "@ + (if comment.len() == 0 {
                        "NULL"@
                    } else {
                        "'"@ + spec_escape_literal(comment) + "'"@
                    }) + ";"@,
                ]
            } else {
                Seq::empty()
            })
        },
    }
}

/// SQLite statements of one kept field: a new column, or a rename; any other change, a
/// comment, or a required new column on a table that may hold rows is refused.
pub open spec fn spec_sqlite_field_sql(
    driver: DriverKind,
    f: SpecField,
    table: Seq<char>,
    table_label: Seq<char>,
    table_has_rows: Option<bool>,
    name: Seq<char>,
    data_type: Seq<char>,
    default_value: Seq<char>,
    comment: Seq<char>,
) -> Result<Seq<Seq<char>>, Seq<char>> {
    let qname = spec_quote_identifier(driver, name);
    if comment.len() > 0 {
        Err("SQLite 不支持字段注释，请在 DDL 或查询编辑器中维护注释信息"@)
    } else {
        match f.original {
            None => if !f.nullable && default_value.len() == 0 && table_has_rows != Some(false) {
                if table_has_rows == Some(true) {
                    Err(
                        "SQLite 表 "@ + table_label + " 已有数据，新增必填字段 "@ + name
                            + " 需要默认值或允许 NULL"@,
                    )
                } else {
                    Err(
                        "无法确认 SQLite 表 "@ + table_label + " 是否为空，新增必填字段 "@ + name
                            + " 需要默认值或允许 NULL"@,
                    )
                }
            } else {
                Ok(
                    seq![
                        "ALTER TABLE "@ + table + " ADD COLUMN "@ + qname + " "@ + data_type + (
                        if f.nullable {
                            " NULL"@
                        } else {
                            " NOT NULL"@
                        }) + (if default_value.len() == 0 {
                            Seq::empty()
                        } else {
                            " DEFAULT "@ + default_value
                        }) + ";"@,
                    ],
                )
            },
            Some(o) => if o.raw_type != data_type || o.nullable != f.nullable || or_empty(
                o.default_value,
            ) != default_value || or_empty(o.comment) != comment || o.is_primary_key
                || o.is_auto_increment || o.generation_expression is Some || o.generated_storage is Some
                || o.identity_generation is Some {
                Err(
                    "SQLite 字段 "@ + o.name
                        + " 只支持重命名；类型、约束或默认值变化请使用重建表 SQL"@,
                )
            } else if o.name != name {
                Ok(
                    seq![
                        "ALTER TABLE "@ + table + " RENAME COLUMN "@ + spec_quote_identifier(
                            driver,
                            o.name,
                        ) + " TO "@ + qname + ";"@,
                    ],
                )
            } else {
                Ok(Seq::empty())
            },
        }
    }
}

/// Accumulated output while walking the field rows.
#[verifier::ext_equal]
pub struct DesignState {
    pub statements: Seq<Seq<char>>,
    pub clauses: Seq<Seq<char>>,
    pub names: Seq<Seq<char>>,
}

/// The effect of one field row on the accumulated output.
pub open spec fn spec_field_step(
    driver: DriverKind,
    qualified: Seq<char>,
    table_label: Seq<char>,
    table_has_rows: Option<bool>,
    st: DesignState,
    f: SpecField,
) -> Result<DesignState, Seq<char>> {
    let name = spec_trim(f.name);
    let data_type = spec_trim(f.data_type);
    let default_value = spec_trim(f.default_value);
    let comment = spec_trim(f.comment);
    if f.deleted {
        match f.original {
            Some(o) => {
                let column = spec_quote_identifier(driver, o.name);
                if driver == DriverKind::Mysql {
                    Ok(DesignState { clauses: st.clauses.push("DROP COLUMN "@ + column), ..st })
                } else {
                    Ok(
                        DesignState {
                            statements: st.statements.push(
                                "ALTER TABLE "@ + qualified + " DROP COLUMN "@ + column + ";"@,
                            ),
                            ..st
                        },
                    )
                }
            },
            None => Ok(st),
        }
    } else {
        match spec_validate_identifier("字段名"@, name) {
            Some(e) => Err(e),
            None => if st.names.contains(spec_ascii_lowercase(name)) {
                Err("字段名 "@ + name + " 重复，请修改后再预览"@)
            } else if data_type.len() == 0 {
                Err("字段 "@ + name + " 的类型不能为空"@)
            } else if data_type.contains(';') {
                Err("字段 "@ + name + " 的类型不能包含分号"@)
            } else if default_value.contains(';') {
                Err("字段 "@ + name + " 的默认值不能包含分号"@)
            } else {
                let names = st.names.push(spec_ascii_lowercase(name));
                if driver == DriverKind::Mysql {
                    match spec_mysql_field_clauses(driver, f, name, data_type, default_value, comment) {
                        Err(e) => Err(e),
                        Ok(cl) => Ok(DesignState { clauses: st.clauses + cl, names, ..st }),
                    }
                } else if driver == DriverKind::Postgres {
                    Ok(
                        DesignState {
                            statements: st.statements + spec_postgres_field_sql(
                                driver,
                                f,
                                qualified,
                                name,
                                data_type,
                                default_value,
                                comment,
                            ),
                            names,
                            ..st
                        },
                    )
                } else if driver == DriverKind::Sqlite {
                    match spec_sqlite_field_sql(
                        driver,
                        f,
                        qualified,
                        table_label,
                        table_has_rows,
                        name,
                        data_type,
                        default_value,
                        comment,
                    ) {
                        Err(e) => Err(e),
                        Ok(v) => Ok(DesignState { statements: st.statements + v, names, ..st }),
                    }
                } else {
                    Err("当前数据库不支持表结构设计器"@)
                }
            },
        }
    }
}

/// The accumulated output after the first `n` field rows.
pub open spec fn spec_design_prefix(
    driver: DriverKind,
    qualified: Seq<char>,
    table_label: Seq<char>,
    table_has_rows: Option<bool>,
    fields: Seq<SpecField>,
    n: int,
) -> Result<DesignState, Seq<char>>
    decreases n,
{
    if n <= 0 {
        Ok(DesignState { statements: Seq::empty(), clauses: Seq::empty(), names: Seq::empty() })
    } else {
        match spec_design_prefix(driver, qualified, table_label, table_has_rows, fields, n - 1) {
            Err(e) => Err(e),
            Ok(st) => spec_field_step(driver, qualified, table_label, table_has_rows, st, fields[n - 1]),
        }
    }
}

/// The field SQL of the designer: MySQL clauses go into one `ALTER TABLE`, other dialects get
/// one statement per change; nothing to do is an error.
pub open spec fn spec_change_sql(
    driver: DriverKind,
    schema: Seq<char>,
    original_table: Seq<char>,
    table_has_rows: Option<bool>,
    fields: Seq<SpecField>,
) -> Result<Seq<char>, Seq<char>> {
    let qualified = spec_quote_identifier(driver, schema) + "."@ + spec_quote_identifier(
        driver,
        original_table,
    );
    match spec_design_prefix(
        driver,
        qualified,
        original_table,
        table_has_rows,
        fields,
        fields.len() as int,
    ) {
        Err(e) => Err(e),
        Ok(st) => {
            let statements = if st.clauses.len() > 0 {
                st.statements.push(
                    "ALTER TABLE "@ + qualified + " "@ + spec_join(st.clauses, ",\n    "@) + ";"@,
                )
            } else {
                st.statements
            };
            if statements.len() == 0 {
                Err(no_changes())
            } else {
                Ok(spec_join(statements, "\n"@))
            }
        },
    }
}

/// The `RENAME` statement of the table, or why there is none.
pub open spec fn spec_rename_sql(
    driver: DriverKind,
    schema: Seq<char>,
    original_table: Seq<char>,
    table_name: Seq<char>,
) -> Result<Seq<char>, Seq<char>> {
    let table = spec_trim(table_name);
    match spec_validate_identifier("表名"@, table) {
        Some(e) => Err(e),
        None => if original_table == table {
            Err(no_changes())
        } else {
            let s = spec_quote_identifier(driver, schema);
            let old = spec_quote_identifier(driver, original_table);
            let new = spec_quote_identifier(driver, table);
            if driver == DriverKind::Mysql {
                Ok("RENAME TABLE "@ + s + "."@ + old + " TO "@ + s + "."@ + new + ";"@)
            } else if driver == DriverKind::Postgres || driver == DriverKind::Sqlite {
                Ok("ALTER TABLE "@ + s + "."@ + old + " RENAME TO "@ + new + ";"@)
            } else {
                Err("当前数据库不支持表结构设计器"@)
            }
        },
    }
}

proof fn lemma_design_prefix_err(
    driver: DriverKind,
    qualified: Seq<char>,
    table_label: Seq<char>,
    table_has_rows: Option<bool>,
    fields: Seq<SpecField>,
    k: int,
    n: int,
)
    requires
        0 <= k <= n,
        spec_design_prefix(driver, qualified, table_label, table_has_rows, fields, k) is Err,
    ensures
        spec_design_prefix(driver, qualified, table_label, table_has_rows, fields, n)
            == spec_design_prefix(driver, qualified, table_label, table_has_rows, fields, k),
    decreases n - k,
{
    if n > k {
        lemma_design_prefix_err(driver, qualified, table_label, table_has_rows, fields, k, n - 1);
    }
}


fn mysql_field_clauses(
    driver: DriverKind,
    f: &FieldDraft,
    name: &str,
    data_type: &str,
    default_value: &str,
    comment: &str,
) -> (r: Result<Vec<String>, String>)
    ensures
        match r {
            Ok(v) => spec_mysql_field_clauses(driver, f@, name@, data_type@, default_value@, comment@)
                == Ok::<Seq<Seq<char>>, Seq<char>>(strings_view(v@)),
            Err(e) => spec_mysql_field_clauses(driver, f@, name@, data_type@, default_value@, comment@)
                == Err::<Seq<Seq<char>>, Seq<char>>(e@),
        },
{
    let definition = match mysql_definition(
        driver,
        name,
        data_type,
        f.nullable,
        default_value,
        comment,
        &f.original,
    ) {
        Ok(d) => d,
        Err(e) => return Err(e),
    };
    let mut out: Vec<String> = Vec::new();
    match &f.original {
        None => {
            out.push(cat2("ADD COLUMN ", definition.as_str()));
            assert(strings_view(out@) =~= seq!["ADD COLUMN "@ + definition@]);
        },
        Some(o) => {
            if field_changed(f, o, name, data_type, default_value, comment) {
                let q = driver.quote_identifier(o.name.as_str());
                out.push(cat4("CHANGE COLUMN ", q.as_str(), " ", definition.as_str()));
                assert(strings_view(out@) =~= seq![
                    "CHANGE COLUMN "@ + q@ + " "@ + definition@,
                ]);
            } else {
                assert(strings_view(out@) =~= Seq::<Seq<char>>::empty());
            }
        },
    }
    Ok(out)
}

#[verifier::rlimit(40)]
#[verifier::spinoff_prover]
fn postgres_field_sql(
    driver: DriverKind,
    f: &FieldDraft,
    table: &str,
    name: &str,
    data_type: &str,
    default_value: &str,
    comment: &str,
) -> (r: Vec<String>)
    ensures
        strings_view(r@) == spec_postgres_field_sql(
            driver,
            f@,
            table@,
            name@,
            data_type@,
            default_value@,
            comment@,
        ),
{
    let qname = driver.quote_identifier(name);
    let mut out: Vec<String> = Vec::new();
    match &f.original {
        None => {
            let mut s = cat5("ALTER TABLE ", table, " ADD COLUMN ", qname.as_str(), " ");
            push_str(&mut s, data_type);
            let ghost s0 = s@;
            if !f.nullable {
                push_str(&mut s, " NOT NULL");
            }
            let ghost s1 = s@;
            assert(s1 == s0 + (if f.nullable {
                Seq::<char>::empty()
            } else {
                " NOT NULL"@
            }));
            if !default_value.is_empty() {
                push_str(&mut s, " DEFAULT ");
                push_str(&mut s, default_value);
            }
            assert(s@ == s1 + (if default_value@.len() == 0 {
                Seq::<char>::empty()
            } else {
                " DEFAULT "@ + default_value@
            }));
            push_str(&mut s, ";");
            out.push(s);
            let ghost first = strings_view(out@);
            if !comment.is_empty() {
                let e = escape_literal(comment);
                let mut c = cat5("COMMENT ON COLUMN ", table, ".", qname.as_str(), " IS '");
                push_str(&mut c, e.as_str());
                push_str(&mut c, "';");
                out.push(c);
                assert(strings_view(out@) =~= first + seq![c@]);
            } else {
                assert(strings_view(out@) =~= first + Seq::<Seq<char>>::empty());
            }
        },
        Some(o) => {
            let prefix = cat4("ALTER TABLE ", table, " ALTER COLUMN ", qname.as_str());
            let ghost v0 = strings_view(out@);
            if !crate::text::str_eq(o.name.as_str(), name) {
                let q = driver.quote_identifier(o.name.as_str());
                let mut s = cat4("ALTER TABLE ", table, " RENAME COLUMN ", q.as_str());
                push_str(&mut s, " TO ");
                push_str(&mut s, qname.as_str());
                push_str(&mut s, ";");
                out.push(s);
            }
            let ghost v1 = strings_view(out@);
            assert(v1 =~= v0 + (if o.name@ != name@ {
                seq![
                    "ALTER TABLE "@ + table@ + " RENAME COLUMN "@ + spec_quote_identifier(
                        driver,
                        o.name@,
                    ) + " TO "@ + qname@ + ";"@,
                ]
            } else {
                Seq::<Seq<char>>::empty()
            }));
            if !crate::text::str_eq(o.data_type.raw_type.as_str(), data_type) {
                let s = cat4(prefix.as_str(), " TYPE ", data_type, ";");
                out.push(s);
            }
            let ghost v2 = strings_view(out@);
            assert(v2 =~= v1 + (if o.data_type.raw_type@ != data_type@ {
                seq![prefix@ + " TYPE "@ + data_type@ + ";"@]
            } else {
                Seq::<Seq<char>>::empty()
            }));
            if o.nullable != f.nullable {
                let s = if f.nullable {
                    cat4(prefix.as_str(), " ", "DROP NOT NULL", ";")
                } else {
                    cat4(prefix.as_str(), " ", "SET NOT NULL", ";")
                };
                out.push(s);
            }
            let ghost v3 = strings_view(out@);
            assert(v3 =~= v2 + (if o.nullable != f.nullable {
                seq![
                    prefix@ + " "@ + (if f.nullable {
                        "DROP NOT NULL"@
                    } else {
                        "SET NOT NULL"@
                    }) + ";"@,
                ]
            } else {
                Seq::<Seq<char>>::empty()
            }));
            let d = or_empty_exec(&o.default_value);
            if !crate::text::str_eq(d.as_str(), default_value) {
                let s = if default_value.is_empty() {
                    cat2(prefix.as_str(), " DROP DEFAULT;")
                } else {
                    cat4(prefix.as_str(), " SET DEFAULT ", default_value, ";")
                };
                out.push(s);
            }
            let ghost v4 = strings_view(out@);
            assert(v4 =~= v3 + (if or_empty(opt_view(o.default_value)) != default_value@ {
                seq![
                    if default_value@.len() == 0 {
                        prefix@ + " DROP DEFAULT;"@
                    } else {
                        prefix@ + " SET DEFAULT "@ + default_value@ + ";"@
                    },
                ]
            } else {
                Seq::<Seq<char>>::empty()
            }));
            let c = or_empty_exec(&o.comment);
            if !crate::text::str_eq(c.as_str(), comment) {
                let mut s = cat5("COMMENT ON COLUMN ", table, ".", qname.as_str(), " IS ");
                let inner = if comment.is_empty() {
                    String::from_str("NULL")
                } else {
                    let e = escape_literal(comment);
                    cat3("'", e.as_str(), "'")
                };
                push_str(&mut s, inner.as_str());
                push_str(&mut s, ";");
                out.push(s);
            }
            assert(strings_view(out@) =~= v4 + (if or_empty(opt_view(o.comment)) != comment@ {
                seq![
                    "COMMENT ON COLUMN "@ + table@ + "."@ + qname@ + " IS "@ + (if comment@.len()
                        == 0 {
                        "NULL"@
                    } else {
                        "'"@ + spec_escape_literal(comment@) + "'"@
                    }) + ";"@,
                ]
            } else {
                Seq::<Seq<char>>::empty()
            }));
        },
    }
    out
}

fn sqlite_field_sql(
    driver: DriverKind,
    f: &FieldDraft,
    table: &str,
    table_label: &str,
    table_has_rows: Option<bool>,
    name: &str,
    data_type: &str,
    default_value: &str,
    comment: &str,
) -> (r: Result<Vec<String>, String>)
    ensures
        match r {
            Ok(v) => spec_sqlite_field_sql(
                driver,
                f@,
                table@,
                table_label@,
                table_has_rows,
                name@,
                data_type@,
                default_value@,
                comment@,
            ) == Ok::<Seq<Seq<char>>, Seq<char>>(strings_view(v@)),
            Err(e) => spec_sqlite_field_sql(
                driver,
                f@,
                table@,
                table_label@,
                table_has_rows,
                name@,
                data_type@,
                default_value@,
                comment@,
            ) == Err::<Seq<Seq<char>>, Seq<char>>(e@),
        },
{
    if !comment.is_empty() {
        return Err(String::from_str("SQLite 不支持字段注释，请在 DDL 或查询编辑器中维护注释信息"));
    }
    let qname = driver.quote_identifier(name);
    let mut out: Vec<String> = Vec::new();
    match &f.original {
        None => {
            let unsafe_required = match table_has_rows {
                Some(false) => false,
                _ => !f.nullable && default_value.is_empty(),
            };
            if unsafe_required {
                let mut e = match table_has_rows {
                    Some(true) => cat3("SQLite 表 ", table_label, " 已有数据，新增必填字段 "),
                    _ => cat3("无法确认 SQLite 表 ", table_label, " 是否为空，新增必填字段 "),
                };
                push_str(&mut e, name);
                push_str(&mut e, " 需要默认值或允许 NULL");
                return Err(e);
            }
            let mut s = cat5("ALTER TABLE ", table, " ADD COLUMN ", qname.as_str(), " ");
            push_str(&mut s, data_type);
            let ghost s0 = s@;
            if f.nullable {
                push_str(&mut s, " NULL");
            } else {
                push_str(&mut s, " NOT NULL");
            }
            let ghost s1 = s@;
            assert(s1 == s0 + (if f.nullable {
                " NULL"@
            } else {
                " NOT NULL"@
            }));
            if !default_value.is_empty() {
                push_str(&mut s, " DEFAULT ");
                push_str(&mut s, default_value);
            }
            assert(s@ == s1 + (if default_value@.len() == 0 {
                Seq::<char>::empty()
            } else {
                " DEFAULT "@ + default_value@
            }));
            push_str(&mut s, ";");
            out.push(s);
            assert(strings_view(out@) =~= seq![s@]);
            Ok(out)
        },
        Some(o) => {
            let d = or_empty_exec(&o.default_value);
            let c = or_empty_exec(&o.comment);
            let definition_changed = !crate::text::str_eq(o.data_type.raw_type.as_str(), data_type)
                || o.nullable != f.nullable || !crate::text::str_eq(d.as_str(), default_value)
                || !crate::text::str_eq(c.as_str(), comment) || o.is_primary_key
                || o.is_auto_increment || o.generation_expression.is_some()
                || o.generated_storage.is_some() || o.identity_generation.is_some();
            if definition_changed {
                return Err(
                    cat3(
                        "SQLite 字段 ",
                        o.name.as_str(),
                        " 只支持重命名；类型、约束或默认值变化请使用重建表 SQL",
                    ),
                );
            }
            if !crate::text::str_eq(o.name.as_str(), name) {
                let q = driver.quote_identifier(o.name.as_str());
                let mut s = cat4("ALTER TABLE ", table, " RENAME COLUMN ", q.as_str());
                push_str(&mut s, " TO ");
                push_str(&mut s, qname.as_str());
                push_str(&mut s, ";");
                out.push(s);
                assert(strings_view(out@) =~= seq![s@]);
            } else {
                assert(strings_view(out@) =~= Seq::<Seq<char>>::empty());
            }
            Ok(out)
        },
    }
}


/// The accumulated output held by three lists of texts.
pub open spec fn design_state(statements: Seq<String>, clauses: Seq<String>, names: Seq<String>) -> DesignState {
    DesignState {
        statements: strings_view(statements),
        clauses: strings_view(clauses),
        names: strings_view(names),
    }
}

fn field_step(
    driver: DriverKind,
    qualified: &str,
    table_label: &str,
    table_has_rows: Option<bool>,
    statements: &mut Vec<String>,
    clauses: &mut Vec<String>,
    names: &mut Vec<String>,
    f: &FieldDraft,
) -> (r: Result<(), String>)
    ensures
        match r {
            Ok(()) => spec_field_step(
                driver,
                qualified@,
                table_label@,
                table_has_rows,
                design_state(old(statements)@, old(clauses)@, old(names)@),
                f@,
            ) == Ok::<DesignState, Seq<char>>(
                design_state(final(statements)@, final(clauses)@, final(names)@),
            ),
            Err(e) => spec_field_step(
                driver,
                qualified@,
                table_label@,
                table_has_rows,
                design_state(old(statements)@, old(clauses)@, old(names)@),
                f@,
            ) == Err::<DesignState, Seq<char>>(e@),
        },
{
    let ghost st = design_state(statements@, clauses@, names@);
    if f.deleted {
        match &f.original {
            Some(o) => {
                let column = driver.quote_identifier(o.name.as_str());
                if driver == DriverKind::Mysql {
                    clauses.push(cat2("DROP COLUMN ", column.as_str()));
                    assert(strings_view(clauses@) =~= st.clauses.push("DROP COLUMN "@ + column@));
                } else {
                    statements.push(cat5("ALTER TABLE ", qualified, " DROP COLUMN ", column.as_str(), ";"));
                    assert(strings_view(statements@) =~= st.statements.push(
                        "ALTER TABLE "@ + qualified@ + " DROP COLUMN "@ + column@ + ";"@,
                    ));
                }
            },
            None => {},
        }
        return Ok(());
    }
    let name = trim(f.name.as_str());
    let data_type = trim(f.data_type.as_str());
    let default_value = trim(f.default_value.as_str());
    let comment = trim(f.comment.as_str());
    match validate_identifier("字段名", name.as_str()) {
        Err(e) => return Err(e),
        Ok(()) => {},
    }
    let lower = to_ascii_lowercase(name.as_str());
    if contains_text(names.as_slice(), lower.as_str()) {
        return Err(cat3("字段名 ", name.as_str(), " 重复，请修改后再预览"));
    }
    if data_type.as_str().is_empty() {
        return Err(cat3("字段 ", name.as_str(), " 的类型不能为空"));
    }
    if contains_char(data_type.as_str(), ';') {
        return Err(cat3("字段 ", name.as_str(), " 的类型不能包含分号"));
    }
    if contains_char(default_value.as_str(), ';') {
        return Err(cat3("字段 ", name.as_str(), " 的默认值不能包含分号"));
    }
    names.push(lower);
    assert(strings_view(names@) =~= st.names.push(spec_ascii_lowercase(spec_trim(f.name@))));
    match driver {
        DriverKind::Mysql => {
            let cl = mysql_field_clauses(
                driver,
                f,
                name.as_str(),
                data_type.as_str(),
                default_value.as_str(),
                comment.as_str(),
            )?;
            append_strings(clauses, cl);
            Ok(())
        },
        DriverKind::Postgres => {
            let v = postgres_field_sql(
                driver,
                f,
                qualified,
                name.as_str(),
                data_type.as_str(),
                default_value.as_str(),
                comment.as_str(),
            );
            append_strings(statements, v);
            Ok(())
        },
        DriverKind::Sqlite => {
            let v = sqlite_field_sql(
                driver,
                f,
                qualified,
                table_label,
                table_has_rows,
                name.as_str(),
                data_type.as_str(),
                default_value.as_str(),
                comment.as_str(),
            )?;
            append_strings(statements, v);
            Ok(())
        },
        _ => Err(String::from_str("当前数据库不支持表结构设计器")),
    }
}

// ---------------------------------------------------------------------------------------------
// Field-level diff shown next to the SQL preview
// ---------------------------------------------------------------------------------------------

/// Kind of one line of the field diff.
#[derive(Clone, Copy, Debug, PartialEq, Eq, Structural)]
pub enum FieldDiffKind {
    Context,
    Added,
    Removed,
}

/// Marker written in front of a diff line.
pub open spec fn spec_diff_prefix(kind: FieldDiffKind) -> Seq<char> {
    match kind {
        FieldDiffKind::Context => " "@,
        FieldDiffKind::Added => "+"@,
        FieldDiffKind::Removed => "-"@,
    }
}

impl FieldDiffKind {
    /// Marker written in front of a diff line.
    pub fn prefix(self) -> (r: &'static str)
        ensures
            r@ == spec_diff_prefix(self),
    {
        match self {
            FieldDiffKind::Context => " ",
            FieldDiffKind::Added => "+",
            FieldDiffKind::Removed => "-",
        }
    }
}

/// The compared attributes of one field.
#[derive(Debug)]
pub struct FieldSnapshot {
    pub name: String,
    pub data_type: String,
    pub nullable: bool,
    pub default_value: String,
    pub comment: String,
}

/// Ghost model of a field snapshot.
pub struct SpecSnapshot {
    pub name: Seq<char>,
    pub data_type: Seq<char>,
    pub nullable: bool,
    pub default_value: Seq<char>,
    pub comment: Seq<char>,
}

impl View for FieldSnapshot {
    type V = SpecSnapshot;

    open spec fn view(&self) -> SpecSnapshot {
        SpecSnapshot {
            name: self.name@,
            data_type: self.data_type@,
            nullable: self.nullable,
            default_value: self.default_value@,
            comment: self.comment@,
        }
    }
}

/// One line of the field diff.
#[derive(Debug)]
pub struct FieldDiffLine {
    pub kind: FieldDiffKind,
    pub text: String,
}

/// Ghost model of a diff line.
pub struct SpecDiffLine {
    pub kind: FieldDiffKind,
    pub text: Seq<char>,
}

/// Views of snapshots.
pub open spec fn snapshots_view(v: Seq<FieldSnapshot>) -> Seq<SpecSnapshot> {
    v.map_values(|s: FieldSnapshot| s@)
}

/// Views of diff lines.
pub open spec fn diff_lines_view(v: Seq<FieldDiffLine>) -> Seq<SpecDiffLine> {
    v.map_values(|l: FieldDiffLine| SpecDiffLine { kind: l.kind, text: l.text@ })
}

/// `label` followed by the one-line value, or by `-` when the value is empty.
pub open spec fn spec_labelled(label: Seq<char>, value: Seq<char>) -> Seq<char> {
    if value.len() == 0 {
        label + " -"@
    } else {
        label + " "@ + spec_compact(value)
    }
}

/// One-line text of a snapshot: name, type, nullability, default and comment.
pub open spec fn spec_display_text(s: SpecSnapshot) -> Seq<char> {
    spec_compact(s.name) + " | "@ + spec_compact(s.data_type) + " | "@ + (if s.nullable {
        "NULL"@
    } else {
        "NOT NULL"@
    }) + " | "@ + spec_labelled("DEFAULT"@, s.default_value) + " | "@ + spec_labelled(
        "COMMENT"@,
        s.comment,
    )
}

fn labelled(label: &str, value: &str) -> (r: String)
    ensures
        r@ == spec_labelled(label@, value@),
{
    if value.is_empty() {
        cat2(label, " -")
    } else {
        let c = compact(value);
        cat3(label, " ", c.as_str())
    }
}

impl FieldSnapshot {
    /// Snapshot of a loaded column, a missing default or comment read as empty.
    pub fn from_column(column: &Column) -> (r: FieldSnapshot)
        ensures
            r@ == (SpecSnapshot {
                name: column@.name,
                data_type: column@.raw_type,
                nullable: column@.nullable,
                default_value: or_empty(column@.default_value),
                comment: or_empty(column@.comment),
            }),
    {
        FieldSnapshot {
            name: column.name.clone(),
            data_type: column.data_type.raw_type.clone(),
            nullable: column.nullable,
            default_value: or_empty_exec(&column.default_value),
            comment: or_empty_exec(&column.comment),
        }
    }

    /// One-line text of the snapshot.
    pub fn display_text(&self) -> (r: String)
        ensures
            r@ == spec_display_text(self@),
    {
        let name = compact(self.name.as_str());
        let data_type = compact(self.data_type.as_str());
        let nullable = if self.nullable {
            "NULL"
        } else {
            "NOT NULL"
        };
        let default = labelled("DEFAULT", self.default_value.as_str());
        let comment = labelled("COMMENT", self.comment.as_str());
        let mut s = cat5(name.as_str(), " | ", data_type.as_str(), " | ", nullable);
        push_str(&mut s, " | ");
        push_str(&mut s, default.as_str());
        push_str(&mut s, " | ");
        push_str(&mut s, comment.as_str());
        s
    }
}

fn snapshot_eq(a: &FieldSnapshot, b: &FieldSnapshot) -> (r: bool)
    ensures
        r == (a@ == b@),
{
    crate::text::str_eq(a.name.as_str(), b.name.as_str()) && crate::text::str_eq(
        a.data_type.as_str(),
        b.data_type.as_str(),
    ) && a.nullable == b.nullable && crate::text::str_eq(
        a.default_value.as_str(),
        b.default_value.as_str(),
    ) && crate::text::str_eq(a.comment.as_str(), b.comment.as_str())
}

/// First snapshot at or after `i` whose name equals `name` without ASCII case.
pub open spec fn spec_find_same_from(v: Seq<SpecSnapshot>, name: Seq<char>, i: int) -> Option<int>
    decreases v.len() - i,
{
    if i < 0 || i >= v.len() {
        None
    } else if spec_same_name(v[i].name, name) {
        Some(i)
    } else {
        spec_find_same_from(v, name, i + 1)
    }
}

/// Whether some snapshot is named `name` without ASCII case.
pub open spec fn spec_any_same(v: Seq<SpecSnapshot>, name: Seq<char>) -> bool {
    exists|k: int| 0 <= k < v.len() && spec_same_name(#[trigger] v[k].name, name)
}

/// Lines for one original field: context when unchanged, a removed/added pair when changed,
/// removed when no current field has its name.
pub open spec fn spec_old_entry(old: SpecSnapshot, current: Seq<SpecSnapshot>) -> Seq<SpecDiffLine> {
    let removed = SpecDiffLine { kind: FieldDiffKind::Removed, text: spec_display_text(old) };
    match spec_find_same_from(current, old.name, 0) {
        Some(j) => if current[j] == old {
            seq![SpecDiffLine { kind: FieldDiffKind::Context, text: spec_display_text(old) }]
        } else {
            seq![removed, SpecDiffLine { kind: FieldDiffKind::Added, text: spec_display_text(current[j]) }]
        },
        None => seq![removed],
    }
}

/// Lines for the first `n` original fields.
pub open spec fn spec_old_lines(original: Seq<SpecSnapshot>, current: Seq<SpecSnapshot>, n: int) -> Seq<
    SpecDiffLine,
>
    decreases n,
{
    if n <= 0 {
        Seq::empty()
    } else {
        spec_old_lines(original, current, n - 1) + spec_old_entry(original[n - 1], current)
    }
}

/// Added lines for the first `n` current fields whose name no original field has.
pub open spec fn spec_new_lines(original: Seq<SpecSnapshot>, current: Seq<SpecSnapshot>, n: int) -> Seq<
    SpecDiffLine,
>
    decreases n,
{
    if n <= 0 {
        Seq::empty()
    } else {
        spec_new_lines(original, current, n - 1) + (if spec_any_same(original, current[n - 1].name) {
            Seq::empty()
        } else {
            seq![SpecDiffLine { kind: FieldDiffKind::Added, text: spec_display_text(current[n - 1]) }]
        })
    }
}

/// Field diff: original fields in order, then the fields that are new by name.
pub open spec fn spec_field_diff(original: Seq<SpecSnapshot>, current: Seq<SpecSnapshot>) -> Seq<
    SpecDiffLine,
> {
    spec_old_lines(original, current, original.len() as int) + spec_new_lines(
        original,
        current,
        current.len() as int,
    )
}

fn find_same(v: &[FieldSnapshot], name: &str) -> (r: Option<usize>)
    ensures
        opt_usize(r) == spec_find_same_from(snapshots_view(v@), name@, 0),
        match r {
            Some(j) => j < v.len(),
            None => true,
        },
{
    let ghost sv = snapshots_view(v@);
    let mut i: usize = 0;
    while i < v.len()
        invariant
            i <= v.len(),
            sv == snapshots_view(v@),
            spec_find_same_from(sv, name@, 0) == spec_find_same_from(sv, name@, i as int),
        decreases v.len() - i,
    {
        if same_name(v[i].name.as_str(), name) {
            assert(sv[i as int].name == v@[i as int].name@);
            return Some(i);
        }
        assert(sv[i as int].name == v@[i as int].name@);
        i = i + 1;
    }
    None
}

/// Optional index as an integer.
pub open spec fn opt_usize(r: Option<usize>) -> Option<int> {
    match r {
        Some(i) => Some(i as int),
        None => None,
    }
}

fn any_same(v: &[FieldSnapshot], name: &str) -> (r: bool)
    ensures
        r == spec_any_same(snapshots_view(v@), name@),
{
    let ghost sv = snapshots_view(v@);
    let mut i: usize = 0;
    while i < v.len()
        invariant
            i <= v.len(),
            sv == snapshots_view(v@),
            forall|k: int| 0 <= k < i ==> !spec_same_name(#[trigger] sv[k].name, name@),
        decreases v.len() - i,
    {
        if same_name(v[i].name.as_str(), name) {
            assert(sv[i as int].name == v@[i as int].name@);
            return true;
        }
        assert(sv[i as int].name == v@[i as int].name@);
        i = i + 1;
    }
    false
}

fn push_line(lines: &mut Vec<FieldDiffLine>, kind: FieldDiffKind, text: String)
    ensures
        diff_lines_view(final(lines)@) == diff_lines_view(old(lines)@).push(
            SpecDiffLine { kind, text: text@ },
        ),
{
    let ghost before = diff_lines_view(lines@);
    lines.push(FieldDiffLine { kind, text });
    assert(diff_lines_view(lines@) =~= before.push(SpecDiffLine { kind, text: text@ }));
}

/// Diff of the original fields against the current ones, matched by name without ASCII case;
/// a changed field shows as removed then added.
pub fn field_diff(original: &[FieldSnapshot], current: &[FieldSnapshot]) -> (r: Vec<FieldDiffLine>)
    ensures
        diff_lines_view(r@) == spec_field_diff(snapshots_view(original@), snapshots_view(current@)),
{
    let ghost ov = snapshots_view(original@);
    let ghost cv = snapshots_view(current@);
    let mut lines: Vec<FieldDiffLine> = Vec::new();
    let mut i: usize = 0;
    while i < original.len()
        invariant
            i <= original.len(),
            ov == snapshots_view(original@),
            cv == snapshots_view(current@),
            diff_lines_view(lines@) == spec_old_lines(ov, cv, i as int),
        decreases original.len() - i,
    {
        let old = &original[i];
        assert(ov[i as int] == old@);
        let ghost before = diff_lines_view(lines@);
        match find_same(current, old.name.as_str()) {
            Some(j) => {
                assert(cv[j as int] == current@[j as int]@);
                if snapshot_eq(&current[j], old) {
                    push_line(&mut lines, FieldDiffKind::Context, old.display_text());
                } else {
                    push_line(&mut lines, FieldDiffKind::Removed, old.display_text());
                    push_line(&mut lines, FieldDiffKind::Added, current[j].display_text());
                }
            },
            None => {
                push_line(&mut lines, FieldDiffKind::Removed, old.display_text());
            },
        }
        assert(diff_lines_view(lines@) =~= before + spec_old_entry(ov[i as int], cv));
        i = i + 1;
    }
    let ghost old_part = diff_lines_view(lines@);
    let mut k: usize = 0;
    while k < current.len()
        invariant
            k <= current.len(),
            ov == snapshots_view(original@),
            cv == snapshots_view(current@),
            old_part == spec_old_lines(ov, cv, ov.len() as int),
            diff_lines_view(lines@) == old_part + spec_new_lines(ov, cv, k as int),
        decreases current.len() - k,
    {
        let new = &current[k];
        assert(cv[k as int] == new@);
        let ghost before = diff_lines_view(lines@);
        if !any_same(original, new.name.as_str()) {
            push_line(&mut lines, FieldDiffKind::Added, new.display_text());
            assert(diff_lines_view(lines@) =~= old_part + spec_new_lines(ov, cv, k + 1));
        } else {
            assert(diff_lines_view(lines@) =~= old_part + spec_new_lines(ov, cv, k + 1));
        }
        k = k + 1;
    }
    lines
}

/// Copy text of a diff line: its marker, a space and its text.
pub open spec fn spec_diff_line_text(l: SpecDiffLine) -> Seq<char> {
    spec_diff_prefix(l.kind) + " "@ + l.text
}

/// The copy text of a diff: one marked line per entry.
pub open spec fn spec_format_field_diff(lines: Seq<SpecDiffLine>) -> Seq<char> {
    spec_join(lines.map_values(|l: SpecDiffLine| spec_diff_line_text(l)), "\n"@)
}

/// Formats the diff for copying, one marked line per entry.
pub fn format_field_diff(lines: &[FieldDiffLine]) -> (r: String)
    ensures
        r@ == spec_format_field_diff(diff_lines_view(lines@)),
{
    let mut parts: Vec<String> = Vec::new();
    let mut i: usize = 0;
    while i < lines.len()
        invariant
            i <= lines.len(),
            strings_view(parts@) == diff_lines_view(lines@).take(i as int).map_values(
                |l: SpecDiffLine| spec_diff_line_text(l),
            ),
        decreases lines.len() - i,
    {
        let ghost before = strings_view(parts@);
        let t = cat3(lines[i].kind.prefix(), " ", lines[i].text.as_str());
        assert(diff_lines_view(lines@)[i as int] == SpecDiffLine {
            kind: lines@[i as int].kind,
            text: lines@[i as int].text@,
        });
        assert(t@ == spec_diff_line_text(diff_lines_view(lines@)[i as int]));
        parts.push(t);
        let ghost dl = diff_lines_view(lines@);
        assert(dl.take(i + 1) =~= dl.take(i as int).push(dl[i as int]));
        assert(strings_view(parts@) =~= before.push(t@));
        assert(strings_view(parts@) =~= diff_lines_view(lines@).take(i + 1).map_values(
            |l: SpecDiffLine| spec_diff_line_text(l),
        ));
        i = i + 1;
    }
    assert(diff_lines_view(lines@).take(lines.len() as int) =~= diff_lines_view(lines@));
    join(parts.as_slice(), "\n")
}

/// Snapshots of the loaded columns of the first `n` rows, deleted rows included.
pub open spec fn spec_original_snapshots(fields: Seq<SpecField>, n: int) -> Seq<SpecSnapshot>
    decreases n,
{
    if n <= 0 {
        Seq::empty()
    } else {
        spec_original_snapshots(fields, n - 1) + match fields[n - 1].original {
            Some(c) => seq![
                SpecSnapshot {
                    name: c.name,
                    data_type: c.raw_type,
                    nullable: c.nullable,
                    default_value: or_empty(c.default_value),
                    comment: or_empty(c.comment),
                },
            ],
            None => Seq::empty(),
        }
    }
}

/// Trimmed snapshots of the first `n` rows that are kept.
pub open spec fn spec_current_snapshots(fields: Seq<SpecField>, n: int) -> Seq<SpecSnapshot>
    decreases n,
{
    if n <= 0 {
        Seq::empty()
    } else {
        spec_current_snapshots(fields, n - 1) + (if fields[n - 1].deleted {
            Seq::empty()
        } else {
            seq![
                SpecSnapshot {
                    name: spec_trim(fields[n - 1].name),
                    data_type: spec_trim(fields[n - 1].data_type),
                    nullable: fields[n - 1].nullable,
                    default_value: spec_trim(fields[n - 1].default_value),
                    comment: spec_trim(fields[n - 1].comment),
                },
            ]
        })
    }
}

/// Field diff of the designer rows: loaded columns against the kept, trimmed rows.
pub open spec fn spec_build_field_diff(fields: Seq<SpecField>) -> Seq<SpecDiffLine> {
    spec_field_diff(
        spec_original_snapshots(fields, fields.len() as int),
        spec_current_snapshots(fields, fields.len() as int),
    )
}

/// Builds the field diff of the designer rows.
pub fn build_field_diff(fields: &[FieldDraft]) -> (r: Vec<FieldDiffLine>)
    ensures
        diff_lines_view(r@) == spec_build_field_diff(fields_view(fields@)),
{
    let ghost fv = fields_view(fields@);
    let mut original: Vec<FieldSnapshot> = Vec::new();
    let mut current: Vec<FieldSnapshot> = Vec::new();
    let mut i: usize = 0;
    while i < fields.len()
        invariant
            i <= fields.len(),
            fv == fields_view(fields@),
            snapshots_view(original@) == spec_original_snapshots(fv, i as int),
            snapshots_view(current@) == spec_current_snapshots(fv, i as int),
        decreases fields.len() - i,
    {
        let f = &fields[i];
        assert(fv[i as int] == f@);
        let ghost o0 = snapshots_view(original@);
        let ghost c0 = snapshots_view(current@);
        match &f.original {
            Some(c) => {
                let snap = FieldSnapshot::from_column(c);
                original.push(snap);
                assert(snapshots_view(original@) =~= spec_original_snapshots(fv, i + 1));
            },
            None => {
                assert(snapshots_view(original@) =~= spec_original_snapshots(fv, i + 1));
            },
        }
        if !f.deleted {
            let snap = FieldSnapshot {
                name: trim(f.name.as_str()),
                data_type: trim(f.data_type.as_str()),
                nullable: f.nullable,
                default_value: trim(f.default_value.as_str()),
                comment: trim(f.comment.as_str()),
            };
            current.push(snap);
            assert(snapshots_view(current@) =~= spec_current_snapshots(fv, i + 1));
        } else {
            assert(snapshots_view(current@) =~= spec_current_snapshots(fv, i + 1));
        }
        i = i + 1;
    }
    field_diff(original.as_slice(), current.as_slice())
}

// ---------------------------------------------------------------------------------------------
// Names proposed for new fields
// ---------------------------------------------------------------------------------------------

/// The `k`-th name proposed for a new field: `new_column`, then `new_column_2`, `new_column_3`, ...
pub open spec fn spec_field_candidate(k: int) -> Seq<char> {
    if k <= 1 {
        "new_column"@
    } else {
        "new_column_"@ + spec_decimal(k as nat)
    }
}

/// Names in use: the trimmed, ASCII-lowercased names of the first `n` kept rows.
pub open spec fn spec_used_names(fields: Seq<SpecField>, n: int) -> Seq<Seq<char>>
    decreases n,
{
    if n <= 0 {
        Seq::empty()
    } else {
        spec_used_names(fields, n - 1) + (if fields[n - 1].deleted {
            Seq::empty()
        } else {
            seq![spec_ascii_lowercase(spec_trim(fields[n - 1].name))]
        })
    }
}

proof fn lemma_used_names_len(fields: Seq<SpecField>, n: int)
    requires
        0 <= n,
    ensures
        spec_used_names(fields, n).len() <= n,
    decreases n,
{
    if n > 0 {
        lemma_used_names_len(fields, n - 1);
    }
}

/// Distinct indexes give distinct proposed names.
pub proof fn lemma_field_candidate_injective(i: int, j: int)
    requires
        1 <= i,
        1 <= j,
        spec_field_candidate(i) == spec_field_candidate(j),
    ensures
        i == j,
{
    reveal_strlit("new_column");
    reveal_strlit("new_column_");
    if i >= 2 && j >= 2 {
        let p = "new_column_"@;
        assert(spec_field_candidate(i).subrange(11, spec_field_candidate(i).len() as int)
            =~= spec_decimal(i as nat));
        assert(spec_field_candidate(j).subrange(11, spec_field_candidate(j).len() as int)
            =~= spec_decimal(j as nat));
        lemma_decimal_injective(i as nat, j as nat);
    } else if i >= 2 {
        lemma_decimal_nonempty(i as nat);
        assert(spec_field_candidate(i).len() > 11);
    } else if j >= 2 {
        lemma_decimal_nonempty(j as nat);
        assert(spec_field_candidate(j).len() > 11);
    }
}

/// Among the first `used.len() + 1` proposed names at least one is not in `used`.
pub proof fn lemma_free_candidate(used: Seq<Seq<char>>)
    ensures
        exists|k: int| 1 <= k <= used.len() + 1 && !used.contains(#[trigger] spec_field_candidate(k)),
{
    if forall|k: int| 1 <= k <= used.len() + 1 ==> used.contains(#[trigger] spec_field_candidate(k)) {
        let r = set_int_range(1, used.len() as int + 2);
        let f = |k: int| spec_field_candidate(k);
        let y = r.map(f);
        lemma_int_range(1, used.len() as int + 2);
        assert forall|a: int, b: int| r.contains(a) && r.contains(b) && #[trigger] f(a) == #[trigger] f(b) implies a == b by {
            lemma_field_candidate_injective(a, b);
        }
        assert(injective_on(f, r));
        lemma_map_size(r, y, f);
        assert forall|v: Seq<char>| y.contains(v) implies used.to_set().contains(v) by {
            let k = choose|k: int| r.contains(k) && f(k) == v;
            assert(used.contains(spec_field_candidate(k)));
        }
        used.lemma_cardinality_of_set();
        lemma_len_subset(y, used.to_set());
        assert(false);
    }
}

/// State of a table designer: the loaded table, the edited field rows and the dialog flags.
#[derive(Debug)]
pub struct TableDesigner {
    pub driver: DriverKind,
    pub schema: String,
    pub original_table: String,
    /// Text of the table name input.
    pub table_name: String,
    pub fields: Vec<FieldDraft>,
    pub loading: bool,
    pub load_error: Option<String>,
    pub show_ddl: bool,
    pub ddl_loading: bool,
    pub ddl_text: Option<String>,
    pub ddl_error: Option<String>,
    /// Whether the SQLite table holds rows; `None` while unknown.
    pub table_has_rows: Option<bool>,
    pub preview_sql: Option<String>,
    pub preview_diff: Option<Vec<FieldDiffLine>>,
    pub discard_confirming: bool,
    pub executing: bool,
}

impl TableDesigner {
    /// The field SQL of the current draft.
    pub open spec fn spec_field_sql(&self) -> Result<Seq<char>, Seq<char>> {
        spec_change_sql(
            self.driver,
            self.schema@,
            self.original_table@,
            self.table_has_rows,
            fields_view(self.fields@),
        )
    }

    /// ALTER TABLE SQL for the field changes, or why none can be generated.
    pub fn change_sql(&self) -> (r: Result<String, String>)
        ensures
            crate::text::res_view(r) == self.spec_field_sql(),
    {
        let qs = self.driver.quote_identifier(self.schema.as_str());
        let qt = self.driver.quote_identifier(self.original_table.as_str());
        let qualified = cat3(qs.as_str(), ".", qt.as_str());
        let ghost fv = fields_view(self.fields@);
        let mut statements: Vec<String> = Vec::new();
        let mut clauses: Vec<String> = Vec::new();
        let mut names: Vec<String> = Vec::new();
        assert(design_state(statements@, clauses@, names@) =~= DesignState {
            statements: Seq::empty(),
            clauses: Seq::empty(),
            names: Seq::empty(),
        });
        let mut i: usize = 0;
        while i < self.fields.len()
            invariant
                i <= self.fields.len(),
                fv == fields_view(self.fields@),
                qualified@ == spec_quote_identifier(self.driver, self.schema@) + "."@
                    + spec_quote_identifier(self.driver, self.original_table@),
                spec_design_prefix(
                    self.driver,
                    qualified@,
                    self.original_table@,
                    self.table_has_rows,
                    fv,
                    i as int,
                ) == Ok::<DesignState, Seq<char>>(design_state(statements@, clauses@, names@)),
            decreases self.fields.len() - i,
        {
            let r = field_step(
                self.driver,
                qualified.as_str(),
                self.original_table.as_str(),
                self.table_has_rows,
                &mut statements,
                &mut clauses,
                &mut names,
                &self.fields[i],
            );
            assert(fv[i as int] == self.fields@[i as int]@);
            match r {
                Err(e) => {
                    assert(spec_design_prefix(
                        self.driver,
                        qualified@,
                        self.original_table@,
                        self.table_has_rows,
                        fv,
                        i + 1,
                    ) == Err::<DesignState, Seq<char>>(e@));
                    proof {
                        lemma_design_prefix_err(
                            self.driver,
                            qualified@,
                            self.original_table@,
                            self.table_has_rows,
                            fv,
                            i + 1,
                            fv.len() as int,
                        );
                    }
                    return Err(e);
                },
                Ok(()) => {},
            }
            i = i + 1;
        }
        if clauses.len() > 0 {
            let body = join(clauses.as_slice(), ",\n    ");
            let st = cat5("ALTER TABLE ", qualified.as_str(), " ", body.as_str(), ";");
            let ghost before = strings_view(statements@);
            statements.push(st);
            assert(strings_view(statements@) =~= before.push(st@));
        }
        if statements.len() == 0 {
            Err(String::from_str("没有检测到表结构变更"))
        } else {
            Ok(join(statements.as_slice(), "\n"))
        }
    }

    /// The `RENAME` statement for the table name input.
    pub fn rename_sql(&self) -> (r: Result<String, String>)
        ensures
            crate::text::res_view(r) == spec_rename_sql(
                self.driver,
                self.schema@,
                self.original_table@,
                self.table_name@,
            ),
    {
        let table = trim(self.table_name.as_str());
        validate_identifier("表名", table.as_str())?;
        if crate::text::str_eq(self.original_table.as_str(), table.as_str()) {
            return Err(String::from_str("没有检测到表结构变更"));
        }
        let schema = self.driver.quote_identifier(self.schema.as_str());
        let old = self.driver.quote_identifier(self.original_table.as_str());
        let new = self.driver.quote_identifier(table.as_str());
        match self.driver {
            DriverKind::Mysql => {
                let mut s = cat5("RENAME TABLE ", schema.as_str(), ".", old.as_str(), " TO ");
                push_str(&mut s, schema.as_str());
                push_str(&mut s, ".");
                push_str(&mut s, new.as_str());
                push_str(&mut s, ";");
                Ok(s)
            },
            DriverKind::Postgres | DriverKind::Sqlite => {
                let mut s = cat5("ALTER TABLE ", schema.as_str(), ".", old.as_str(), " RENAME TO ");
                push_str(&mut s, new.as_str());
                push_str(&mut s, ";");
                Ok(s)
            },
            _ => Err(String::from_str("当前数据库不支持表结构设计器")),
        }
    }
}


/// A field row for a loaded column, its inputs filled from the column.
pub open spec fn spec_field_from_column(c: SpecColumn) -> SpecField {
    SpecField {
        name: c.name,
        data_type: c.raw_type,
        nullable: c.nullable,
        default_value: or_empty(c.default_value),
        comment: or_empty(c.comment),
        original: Some(c),
        deleted: false,
    }
}

/// Rows for loaded columns, in order.
pub open spec fn spec_fields_from_columns(columns: Seq<SpecColumn>) -> Seq<SpecField> {
    columns.map_values(|c: SpecColumn| spec_field_from_column(c))
}

/// A new, unsaved field row.
pub open spec fn spec_new_field(name: Seq<char>, data_type: Seq<char>, nullable: bool) -> SpecField {
    SpecField {
        name,
        data_type,
        nullable,
        default_value: Seq::empty(),
        comment: Seq::empty(),
        original: None,
        deleted: false,
    }
}

impl FieldDraft {
    /// A field row for a loaded column.
    pub fn from_column(column: Column) -> (r: FieldDraft)
        ensures
            r@ == spec_field_from_column(column@),
    {
        let name = column.name.clone();
        let data_type = column.data_type.raw_type.clone();
        let default_value = or_empty_exec(&column.default_value);
        let comment = or_empty_exec(&column.comment);
        FieldDraft {
            name,
            data_type,
            nullable: column.nullable,
            default_value,
            comment,
            original: Some(column),
            deleted: false,
        }
    }

    /// A new field row with empty default and comment.
    pub fn new_field(name: String, data_type: String, nullable: bool) -> (r: FieldDraft)
        ensures
            r@ == spec_new_field(name@, data_type@, nullable),
    {
        FieldDraft {
            name,
            data_type,
            nullable,
            default_value: String::new(),
            comment: String::new(),
            original: None,
            deleted: false,
        }
    }
}

/// Whether a row differs from what was loaded: a new kept row, a deleted loaded row, or a
/// loaded row whose trimmed inputs changed.
pub open spec fn spec_row_changed(f: SpecField) -> bool {
    match f.original {
        None => !f.deleted,
        Some(o) => f.deleted || spec_field_changed(
            f,
            o,
            spec_trim(f.name),
            spec_trim(f.data_type),
            spec_trim(f.default_value),
            spec_trim(f.comment),
        ),
    }
}

/// Rows shown for `active` fields: at least one, at most eight, or five while the SQL
/// preview is open.
pub open spec fn spec_visible_field_rows(active: int, reviewing: bool) -> int {
    let max = if reviewing {
        5int
    } else {
        8int
    };
    if active < 1 {
        1
    } else if active > max {
        max
    } else {
        active
    }
}

/// Number of field rows shown without scrolling.
pub fn visible_field_rows(active_fields: usize, reviewing: bool) -> (r: usize)
    ensures
        r == spec_visible_field_rows(active_fields as int, reviewing),
{
    let max: usize = if reviewing {
        MAX_VISIBLE_FIELD_ROWS - 3
    } else {
        MAX_VISIBLE_FIELD_ROWS
    };
    if active_fields < 1 {
        1
    } else if active_fields > max {
        max
    } else {
        active_fields
    }
}

/// Most field rows shown without scrolling.
pub const MAX_VISIBLE_FIELD_ROWS: usize = 8;

/// How a default value is coloured in the field editor.
#[derive(Clone, Copy, Debug, PartialEq, Eq, Structural)]
pub enum DefaultValueKind {
    Keyword,
    Number,
    Text,
    Constant,
}

/// Keywords coloured as such when they are the whole default value.
pub open spec fn spec_is_default_keyword(upper: Seq<char>) -> bool {
    upper == "NULL"@ || upper == "TRUE"@ || upper == "FALSE"@ || upper == "CURRENT_DATE"@ || upper
        == "CURRENT_TIME"@ || upper == "CURRENT_TIMESTAMP"@ || (upper.len() >= 18 && upper.take(18)
        == "CURRENT_TIMESTAMP("@)
}

/// ASCII upper-case of a character.
pub open spec fn spec_ascii_upper(c: char) -> char {
    if 'a' <= c && c <= 'z' {
        ((c as u32) - 32) as char
    } else {
        c
    }
}

/// ASCII upper-case of a text.
pub open spec fn spec_ascii_uppercase(s: Seq<char>) -> Seq<char> {
    s.map_values(|c: char| spec_ascii_upper(c))
}

/// Kind of a default value; `parses_as_number` tells whether the trimmed value reads as a
/// floating-point number.
pub open spec fn spec_default_value_kind(value: Seq<char>, parses_as_number: bool) -> DefaultValueKind {
    let v = spec_trim(value);
    if v.len() == 0 {
        DefaultValueKind::Constant
    } else if parses_as_number {
        DefaultValueKind::Number
    } else if (v[0] == '\'' && v.last() == '\'') || (v[0] == '"' && v.last() == '"') {
        DefaultValueKind::Text
    } else if spec_is_default_keyword(spec_ascii_uppercase(v)) {
        DefaultValueKind::Keyword
    } else {
        DefaultValueKind::Constant
    }
}

fn to_ascii_uppercase_chars(s: &[char]) -> (r: Vec<char>)
    ensures
        r@ == spec_ascii_uppercase(s@),
{
    let mut out: Vec<char> = Vec::new();
    let mut i: usize = 0;
    while i < s.len()
        invariant
            i <= s.len(),
            out@ == spec_ascii_uppercase(s@.take(i as int)),
        decreases s.len() - i,
    {
        let c = s[i];
        let u = if 'a' <= c && c <= 'z' {
            ((c as u32) - 32) as u8 as char
        } else {
            c
        };
        assert(u == spec_ascii_upper(c)) by {
            if 'a' <= c && c <= 'z' {
                assert((c as u32) - 32 < 256);
            }
        }
        out.push(u);
        assert(spec_ascii_uppercase(s@.take(i + 1)) =~= spec_ascii_uppercase(s@.take(i as int)).push(u));
        i = i + 1;
    }
    assert(s@.take(s.len() as int) =~= s@);
    out
}

/// Colour class of a default value in the field editor. Whether the value reads as a
/// floating-point number is decided by the caller.
pub fn default_value_kind(value: &str, parses_as_number: bool) -> (r: DefaultValueKind)
    ensures
        r == spec_default_value_kind(value@, parses_as_number),
{
    let t = trim(value);
    let v = chars_of(t.as_str());
    if v.len() == 0 {
        return DefaultValueKind::Constant;
    }
    if parses_as_number {
        return DefaultValueKind::Number;
    }
    let first = v[0];
    let last = v[v.len() - 1];
    if (first == '\'' && last == '\'') || (first == '"' && last == '"') {
        return DefaultValueKind::Text;
    }
    let upper = to_ascii_uppercase_chars(v.as_slice());
    let u = string_from_chars(upper.as_slice());
    let starts = crate::text::starts_with_chars(upper.as_slice(), "CURRENT_TIMESTAMP(");
    proof {
        reveal_strlit("CURRENT_TIMESTAMP(");
    }
    if crate::text::str_eq(u.as_str(), "NULL") || crate::text::str_eq(u.as_str(), "TRUE")
        || crate::text::str_eq(u.as_str(), "FALSE") || crate::text::str_eq(u.as_str(), "CURRENT_DATE")
        || crate::text::str_eq(u.as_str(), "CURRENT_TIME") || crate::text::str_eq(
        u.as_str(),
        "CURRENT_TIMESTAMP",
    ) || starts {
        DefaultValueKind::Keyword
    } else {
        DefaultValueKind::Constant
    }
}

impl TableDesigner {
    /// A designer for the columns of `table`.
    pub fn new(
        driver: DriverKind,
        schema: String,
        table: String,
        columns: Vec<Column>,
        table_has_rows: Option<bool>,
        loading: bool,
        ddl_loading: bool,
    ) -> (r: TableDesigner)
        ensures
            r.driver == driver,
            r.schema@ == schema@,
            r.original_table@ == table@,
            r.table_name@ == table@,
            fields_view(r.fields@) == spec_fields_from_columns(columns_view(columns@)),
            r.table_has_rows == table_has_rows,
            r.loading == loading,
            r.ddl_loading == ddl_loading,
            r.load_error is None,
            !r.show_ddl,
            r.ddl_text is None,
            r.ddl_error is None,
            r.preview_sql is None,
            r.preview_diff is None,
            !r.discard_confirming,
            !r.executing,
    {
        let table_name = table.clone();
        let fields = fields_from_columns(&columns);
        TableDesigner {
            driver,
            schema,
            original_table: table,
            table_name,
            fields,
            loading,
            load_error: None,
            show_ddl: false,
            ddl_loading,
            ddl_text: None,
            ddl_error: None,
            table_has_rows,
            preview_sql: None,
            preview_diff: None,
            discard_confirming: false,
            executing: false,
        }
    }

    /// Whether the table name input differs from the loaded table name.
    pub fn has_table_name_change(&self) -> (r: bool)
        ensures
            r == (self.original_table@ != spec_trim(self.table_name@)),
    {
        let t = trim(self.table_name.as_str());
        !crate::text::str_eq(self.original_table.as_str(), t.as_str())
    }

    /// Whether some field row differs from what was loaded.
    pub fn has_field_changes(&self) -> (r: bool)
        ensures
            r == (exists|i: int| 0 <= i < self.fields.len() && spec_row_changed(#[trigger] self.fields@[i]@)),
    {
        let mut i: usize = 0;
        while i < self.fields.len()
            invariant
                i <= self.fields.len(),
                forall|j: int| 0 <= j < i ==> !spec_row_changed(#[trigger] self.fields@[j]@),
            decreases self.fields.len() - i,
        {
            let f = &self.fields[i];
            let changed = match &f.original {
                None => !f.deleted,
                Some(o) => if f.deleted {
                    true
                } else {
                    let name = trim(f.name.as_str());
                    let data_type = trim(f.data_type.as_str());
                    let default_value = trim(f.default_value.as_str());
                    let comment = trim(f.comment.as_str());
                    field_changed(
                        f,
                        o,
                        name.as_str(),
                        data_type.as_str(),
                        default_value.as_str(),
                        comment.as_str(),
                    )
                },
            };
            if changed {
                assert(spec_row_changed(self.fields@[i as int]@));
                return true;
            }
            i = i + 1;
        }
        false
    }

    /// Whether the table name or any field row changed.
    pub fn has_changes(&self) -> (r: bool)
        ensures
            r == ((self.original_table@ != spec_trim(self.table_name@)) || exists|i: int|
                0 <= i < self.fields.len() && spec_row_changed(#[trigger] self.fields@[i]@)),
    {
        self.has_table_name_change() || self.has_field_changes()
    }

    /// Trimmed, lowercased names of the kept rows.
    fn used_names(&self) -> (r: Vec<String>)
        ensures
            strings_view(r@) == spec_used_names(fields_view(self.fields@), self.fields.len() as int),
    {
        let ghost fv = fields_view(self.fields@);
        let mut used: Vec<String> = Vec::new();
        let mut i: usize = 0;
        while i < self.fields.len()
            invariant
                i <= self.fields.len(),
                fv == fields_view(self.fields@),
                strings_view(used@) == spec_used_names(fv, i as int),
            decreases self.fields.len() - i,
        {
            let f = &self.fields[i];
            assert(fv[i as int] == f@);
            let ghost before = strings_view(used@);
            if !f.deleted {
                let t = trim(f.name.as_str());
                let l = to_ascii_lowercase(t.as_str());
                used.push(l);
            }
            assert(strings_view(used@) =~= spec_used_names(fv, i + 1));
            i = i + 1;
        }
        used
    }

    /// The first proposed name that no kept row uses (trimmed, without ASCII case).
    pub fn next_field_name(&self) -> (r: String)
        requires
            self.fields.len() < usize::MAX,
        ensures
            ({
                let used = spec_used_names(fields_view(self.fields@), self.fields.len() as int);
                exists|k: int|
                    1 <= k && r@ == spec_field_candidate(k) && !used.contains(r@) && forall|j: int|
                        1 <= j < k ==> used.contains(#[trigger] spec_field_candidate(j))
            }),
    {
        let used = self.used_names();
        let ghost uv = strings_view(used@);
        proof {
            lemma_used_names_len(fields_view(self.fields@), self.fields.len() as int);
        }
        let m = used.len();
        let mut index: usize = 1;
        loop
            invariant
                1 <= index <= m + 1,
                m == used.len(),
                m < usize::MAX,
                uv == strings_view(used@),
                uv == spec_used_names(fields_view(self.fields@), self.fields.len() as int),
                forall|j: int| 1 <= j < index ==> uv.contains(#[trigger] spec_field_candidate(j)),
            decreases m + 1 - index,
        {
            let candidate = if index == 1 {
                String::from_str("new_column")
            } else {
                let d = decimal(index as u64);
                cat2("new_column_", d.as_str())
            };
            assert(candidate@ == spec_field_candidate(index as int));
            if !contains_text(used.as_slice(), candidate.as_str()) {
                return candidate;
            }
            if index > m {
                proof {
                    lemma_free_candidate(uv);
                    let k = choose|k: int| 1 <= k <= uv.len() + 1 && !uv.contains(#[trigger] spec_field_candidate(k));
                    assert(uv.contains(spec_field_candidate(k)));
                }
                return candidate;
            }
            index = index + 1;
        }
    }

    /// Appends a new nullable `VARCHAR(255)` field with the next free name and drops the
    /// preview.
    pub fn add_field(&mut self)
        requires
            old(self).fields.len() < usize::MAX,
        ensures
            ({
                let used = spec_used_names(fields_view(old(self).fields@), old(self).fields.len() as int);
                exists|k: int|
                    1 <= k && final(self).fields@.len() == old(self).fields@.len() + 1
                        && fields_view(final(self).fields@) == fields_view(old(self).fields@).push(
                        spec_new_field(spec_field_candidate(k), "VARCHAR(255)"@, true),
                    ) && !used.contains(spec_field_candidate(k)) && forall|j: int|
                        1 <= j < k ==> used.contains(#[trigger] spec_field_candidate(j))
            }),
            final(self).preview_sql is None,
            final(self).preview_diff is None,
            !final(self).discard_confirming,
            final(self).table_name == old(self).table_name,
            final(self).original_table == old(self).original_table,
            final(self).executing == old(self).executing,
    {
        let name = self.next_field_name();
        let ghost before = fields_view(self.fields@);
        let field = FieldDraft::new_field(name, String::from_str("VARCHAR(255)"), true);
        self.fields.push(field);
        assert(fields_view(self.fields@) =~= before.push(field@));
        self.preview_sql = None;
        self.preview_diff = None;
        self.discard_confirming = false;
    }

    /// An input was edited: the preview and a pending discard confirmation are dropped.
    pub fn input_changed(&mut self)
        ensures
            final(self).preview_sql is None,
            final(self).preview_diff is None,
            !final(self).discard_confirming,
            final(self).fields == old(self).fields,
            final(self).table_name == old(self).table_name,
            final(self).original_table == old(self).original_table,
            final(self).executing == old(self).executing,
    {
        self.preview_sql = None;
        self.preview_diff = None;
        self.discard_confirming = false;
    }

    /// Replaces the rows with freshly loaded columns.
    pub fn set_columns(&mut self, columns: Vec<Column>)
        ensures
            fields_view(final(self).fields@) == spec_fields_from_columns(columns_view(columns@)),
            !final(self).loading,
            final(self).load_error is None,
            final(self).preview_sql is None,
            final(self).preview_diff is None,
            !final(self).discard_confirming,
            final(self).table_name == old(self).table_name,
            final(self).original_table == old(self).original_table,
            final(self).executing == old(self).executing,
    {
        self.fields = fields_from_columns(&columns);
        self.loading = false;
        self.load_error = None;
        self.preview_sql = None;
        self.preview_diff = None;
        self.discard_confirming = false;
    }

    /// Stores the loaded DDL text.
    pub fn set_ddl(&mut self, ddl: String)
        ensures
            !final(self).ddl_loading,
            final(self).ddl_text == Some(ddl),
            final(self).ddl_error is None,
            final(self).fields == old(self).fields,
            final(self).preview_sql == old(self).preview_sql,
    {
        self.ddl_loading = false;
        self.ddl_text = Some(ddl);
        self.ddl_error = None;
    }

    /// Records that loading the DDL failed.
    pub fn set_ddl_error(&mut self, error: String)
        ensures
            !final(self).ddl_loading,
            final(self).ddl_error == Some(error),
            final(self).ddl_text == old(self).ddl_text,
            final(self).fields == old(self).fields,
    {
        self.ddl_loading = false;
        self.ddl_error = Some(error);
    }

    /// Records that loading the columns failed.
    pub fn set_load_error(&mut self, error: String)
        ensures
            !final(self).loading,
            final(self).load_error == Some(error),
            final(self).fields == old(self).fields,
    {
        self.loading = false;
        self.load_error = Some(error);
    }

    /// Stores whether the SQLite table holds rows and drops a preview built without it.
    pub fn set_table_has_rows(&mut self, has_rows: bool)
        ensures
            final(self).table_has_rows == Some(has_rows),
            final(self).preview_sql is None,
            final(self).preview_diff is None,
            !final(self).discard_confirming,
            final(self).fields == old(self).fields,
    {
        self.table_has_rows = Some(has_rows);
        self.preview_sql = None;
        self.preview_diff = None;
        self.discard_confirming = false;
    }

    /// Builds the SQL preview and the field diff; on an error nothing changes.
    pub fn build_preview(&mut self) -> (r: Result<(), String>)
        ensures
            match r {
                Ok(()) => old(self).spec_field_sql() is Ok && final(self).preview_sql.is_some()
                    && final(self).preview_sql.unwrap()@ == old(self).spec_field_sql()->Ok_0
                    && final(self).preview_diff.is_some() && diff_lines_view(
                    final(self).preview_diff.unwrap()@,
                ) == spec_build_field_diff(fields_view(old(self).fields@))
                    && !final(self).discard_confirming,
                Err(e) => old(self).spec_field_sql() == Err::<Seq<char>, Seq<char>>(e@)
                    && *final(self) == *old(self),
            },
            final(self).fields == old(self).fields,
    {
        let sql = self.change_sql()?;
        self.preview_diff = Some(build_field_diff(self.fields.as_slice()));
        self.preview_sql = Some(sql);
        self.discard_confirming = false;
        Ok(())
    }

    /// Settles a rename request: on success the new name becomes the loaded one, the preview
    /// is dropped and the DDL is reloaded.
    pub fn finish_rename(&mut self, success: bool, new_table: String)
        ensures
            !final(self).executing,
            success ==> final(self).original_table == new_table && final(self).preview_sql is None
                && final(self).preview_diff is None && final(self).ddl_loading
                && final(self).ddl_text is None && final(self).ddl_error is None,
            !success ==> final(self).original_table == old(self).original_table
                && final(self).preview_sql == old(self).preview_sql && final(self).ddl_loading
                == old(self).ddl_loading && final(self).ddl_text == old(self).ddl_text,
            final(self).fields == old(self).fields,
            final(self).table_name == old(self).table_name,
    {
        self.executing = false;
        if success {
            self.original_table = new_table;
            self.preview_sql = None;
            self.preview_diff = None;
            self.ddl_loading = true;
            self.ddl_text = None;
            self.ddl_error = None;
        }
    }

    /// Whether the dialog may close now; with unsaved changes it shows the discard
    /// confirmation instead.
    pub fn allow_dialog_close(&mut self) -> (r: bool)
        ensures
            r == (!old(self).executing && !((old(self).original_table@ != spec_trim(
                old(self).table_name@,
            )) || exists|i: int|
                0 <= i < old(self).fields.len() && spec_row_changed(#[trigger] old(self).fields@[i]@))),
            final(self).discard_confirming == (old(self).discard_confirming || (!old(self).executing
                && !r)),
            final(self).fields == old(self).fields,
            final(self).executing == old(self).executing,
    {
        if self.executing {
            return false;
        }
        if !self.has_changes() {
            return true;
        }
        self.discard_confirming = true;
        false
    }

    /// Starts executing the field SQL: regenerates it and marks the designer busy. Nothing
    /// happens while busy; an error leaves the designer as it was.
    pub fn begin_execute(&mut self) -> (r: Option<Result<String, String>>)
        ensures
            old(self).executing ==> r is None && *final(self) == *old(self),
            !old(self).executing ==> r is Some && crate::text::res_view(r.unwrap())
                == old(self).spec_field_sql() && final(self).executing == r.unwrap() is Ok,
            final(self).fields == old(self).fields,
            final(self).original_table == old(self).original_table,
            final(self).preview_sql == old(self).preview_sql,
    {
        if self.executing {
            return None;
        }
        let r = self.change_sql();
        if r.is_ok() {
            self.executing = true;
        }
        Some(r)
    }

    /// Settles an execution that the caller did not complete.
    pub fn finish_execute(&mut self)
        ensures
            !final(self).executing,
            final(self).fields == old(self).fields,
            final(self).original_table == old(self).original_table,
    {
        self.executing = false;
    }

    /// Starts renaming the table: builds the statement and marks the designer busy. Nothing
    /// happens while busy; an error leaves the designer as it was.
    pub fn begin_rename(&mut self) -> (r: Option<Result<String, String>>)
        ensures
            old(self).executing ==> r is None && *final(self) == *old(self),
            !old(self).executing ==> r is Some && crate::text::res_view(r.unwrap()) == spec_rename_sql(
                old(self).driver,
                old(self).schema@,
                old(self).original_table@,
                old(self).table_name@,
            ) && final(self).executing == r.unwrap() is Ok,
            final(self).fields == old(self).fields,
            final(self).original_table == old(self).original_table,
    {
        if self.executing {
            return None;
        }
        let r = self.rename_sql();
        if r.is_ok() {
            self.executing = true;
        }
        Some(r)
    }
}

fn fields_from_columns(columns: &Vec<Column>) -> (r: Vec<FieldDraft>)
    ensures
        fields_view(r@) == spec_fields_from_columns(columns_view(columns@)),
{
    let mut fields: Vec<FieldDraft> = Vec::new();
    let mut i: usize = 0;
    while i < columns.len()
        invariant
            i <= columns.len(),
            fields_view(fields@) == columns_view(columns@).take(i as int).map_values(
                |c: SpecColumn| spec_field_from_column(c),
            ),
        decreases columns.len() - i,
    {
        let c = columns[i].duplicate();
        let ghost before = fields_view(fields@);
        let f = FieldDraft::from_column(c);
        fields.push(f);
        assert(columns_view(columns@).take(i + 1) =~= columns_view(columns@).take(i as int).push(
            columns@[i as int]@,
        ));
        assert(fields_view(fields@) =~= before.push(f@));
        assert(fields_view(fields@) =~= columns_view(columns@).take(i + 1).map_values(
            |c: SpecColumn| spec_field_from_column(c),
        ));
        i = i + 1;
    }
    assert(columns_view(columns@).take(columns.len() as int) =~= columns_view(columns@));
    fields
}


// ---------------------------------------------------------------------------------------------
// Laws
// ---------------------------------------------------------------------------------------------

/// Whether the loaded column's name, type, default and comment carry no surrounding white
/// space, as the designer's inputs show them trimmed.
pub open spec fn spec_column_trimmed(c: SpecColumn) -> bool {
    spec_trim(c.name) == c.name && spec_trim(c.raw_type) == c.raw_type && spec_trim(
        or_empty(c.default_value),
    ) == or_empty(c.default_value) && spec_trim(or_empty(c.comment)) == or_empty(c.comment)
}

/// A row freshly loaded from a column is not a change, as long as the column's texts carry
/// no surrounding white space.
pub proof fn lemma_loaded_row_unchanged(c: SpecColumn)
    requires
        spec_column_trimmed(c),
    ensures
        !spec_row_changed(spec_field_from_column(c)),
{
}

/// A designer opened on such columns has nothing to confirm on close: no row is a change,
/// and the name input still holds the loaded table name.
pub proof fn lemma_fresh_designer_has_no_changes(columns: Seq<SpecColumn>, table: Seq<char>)
    requires
        forall|i: int| 0 <= i < columns.len() ==> spec_column_trimmed(#[trigger] columns[i]),
        spec_trim(table) == table,
    ensures
        forall|i: int| 0 <= i < columns.len() ==> !spec_row_changed(
            #[trigger] spec_fields_from_columns(columns)[i],
        ),
        !(table != spec_trim(table)),
{
    assert forall|i: int| 0 <= i < columns.len() implies !spec_row_changed(
        #[trigger] spec_fields_from_columns(columns)[i],
    ) by {
        lemma_loaded_row_unchanged(columns[i]);
    }
}

/// The field SQL does not depend on the table name input: renaming the table is its own
/// statement.
pub proof fn lemma_field_sql_ignores_table_name(d: TableDesigner, name: String)
    ensures
        (TableDesigner { table_name: name, ..d }).spec_field_sql() == d.spec_field_sql(),
{
}

proof fn lemma_mysql_prefix_has_no_statements(
    qualified: Seq<char>,
    table_label: Seq<char>,
    table_has_rows: Option<bool>,
    fields: Seq<SpecField>,
    n: int,
)
    ensures
        spec_design_prefix(DriverKind::Mysql, qualified, table_label, table_has_rows, fields, n) is Ok
            ==> spec_design_prefix(DriverKind::Mysql, qualified, table_label, table_has_rows, fields, n)->Ok_0.statements.len() == 0,
    decreases n,
{
    if n > 0 {
        lemma_mysql_prefix_has_no_statements(qualified, table_label, table_has_rows, fields, n - 1);
    }
}

/// MySQL field changes always come out as one `ALTER TABLE` with comma-separated clauses.
pub proof fn lemma_mysql_changes_share_one_alter(
    schema: Seq<char>,
    original_table: Seq<char>,
    table_has_rows: Option<bool>,
    fields: Seq<SpecField>,
)
    requires
        spec_change_sql(DriverKind::Mysql, schema, original_table, table_has_rows, fields) is Ok,
    ensures
        exists|clauses: Seq<Seq<char>>|
            clauses.len() > 0 && #[trigger] spec_change_sql(DriverKind::Mysql, schema, original_table, table_has_rows, fields)
                == Ok::<Seq<char>, Seq<char>>(
                "ALTER TABLE "@ + spec_quote_identifier(DriverKind::Mysql, schema) + "."@
                    + spec_quote_identifier(DriverKind::Mysql, original_table) + " "@ + spec_join(
                    clauses,
                    ",\n    "@,
                ) + ";"@,
            ),
{
    let qualified = spec_quote_identifier(DriverKind::Mysql, schema) + "."@ + spec_quote_identifier(
        DriverKind::Mysql,
        original_table,
    );
    lemma_mysql_prefix_has_no_statements(qualified, original_table, table_has_rows, fields, fields.len() as int);
    let st = spec_design_prefix(DriverKind::Mysql, qualified, original_table, table_has_rows, fields, fields.len() as int)->Ok_0;
    let stmt = "ALTER TABLE "@ + qualified + " "@ + spec_join(st.clauses, ",\n    "@) + ";"@;
    assert(st.statements.push(stmt) =~= seq![stmt]);
    assert(spec_join(seq![stmt], "\n"@) == stmt);
    assert("ALTER TABLE "@ + qualified + " "@ =~= "ALTER TABLE "@ + spec_quote_identifier(DriverKind::Mysql, schema) + "."@
        + spec_quote_identifier(DriverKind::Mysql, original_table) + " "@);
}

/// How a statement changes a column's nullability: `Some(true)` when it ends by dropping
/// NOT NULL, `Some(false)` when it ends by setting NOT NULL, `None` otherwise.
pub open spec fn spec_nullability_effect(s: Seq<char>) -> Option<bool> {
    let drop = " DROP NOT NULL;"@;
    let set = " SET NOT NULL;"@;
    if s.len() >= drop.len() && s.skip(s.len() - drop.len()) == drop {
        Some(true)
    } else if s.len() >= set.len() && s.skip(s.len() - set.len()) == set {
        Some(false)
    } else {
        None
    }
}

/// When a loaded PostgreSQL field becomes nullable or required, the statements include an
/// `ALTER COLUMN` of that column that leaves it nullable exactly when the field now is.
pub proof fn lemma_postgres_nullability_follows_field(
    driver: DriverKind,
    f: SpecField,
    table: Seq<char>,
    name: Seq<char>,
    data_type: Seq<char>,
    default_value: Seq<char>,
    comment: Seq<char>,
)
    requires
        f.original matches Some(o) && o.nullable != f.nullable,
    ensures
        ({
            let out = spec_postgres_field_sql(driver, f, table, name, data_type, default_value, comment);
            let column = "ALTER TABLE "@ + table + " ALTER COLUMN "@ + spec_quote_identifier(driver, name) + " "@;
            exists|i: int|
                0 <= i < out.len() && (#[trigger] out[i]).len() >= column.len() && out[i].take(column.len() as int)
                    == column && spec_nullability_effect(out[i]) == Some(f.nullable)
        }),
{
    reveal_strlit(" DROP NOT NULL;");
    reveal_strlit(" SET NOT NULL;");
    reveal_strlit("DROP NOT NULL");
    reveal_strlit("SET NOT NULL");
    reveal_strlit(" ");
    reveal_strlit(";");
    let o = f.original->0;
    let out = spec_postgres_field_sql(driver, f, table, name, data_type, default_value, comment);
    let qname = spec_quote_identifier(driver, name);
    let prefix = "ALTER TABLE "@ + table + " ALTER COLUMN "@ + qname;
    let column = "ALTER TABLE "@ + table + " ALTER COLUMN "@ + qname + " "@;
    let rename: Seq<Seq<char>> = if o.name != name {
        seq!["ALTER TABLE "@ + table + " RENAME COLUMN "@ + spec_quote_identifier(driver, o.name) + " TO "@ + qname + ";"@]
    } else {
        Seq::empty()
    };
    let retype: Seq<Seq<char>> = if o.raw_type != data_type {
        seq![prefix + " TYPE "@ + data_type + ";"@]
    } else {
        Seq::empty()
    };
    let kw = if f.nullable {
        "DROP NOT NULL"@
    } else {
        "SET NOT NULL"@
    };
    let s = prefix + " "@ + kw + ";"@;
    let i = rename.len() + retype.len();
    assert(out[i as int] == s);
    assert(s =~= column + kw + ";"@);
    assert(s.take(column.len() as int) =~= column);
    if f.nullable {
        assert(s.skip(s.len() - 15) =~= " DROP NOT NULL;"@);
    } else {
        assert(s.skip(s.len() - 14) =~= " SET NOT NULL;"@);
        assert(s[s.len() - 14] == ' ');
        let last = s.skip(s.len() - 15);
        assert(last[1] == ' ');
        assert(" DROP NOT NULL;"@[1] == 'D');
    }
}

} // verus!
