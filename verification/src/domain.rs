//! Database metadata entities that the schema tools read.

use vstd::prelude::*;

use crate::text::{chars_of, map_concat, push_char};

verus! {

/// Database engine a connection talks to.
#[derive(Clone, Copy, Debug, PartialEq, Eq, Structural)]
pub enum DriverKind {
    Mysql,
    Postgres,
    Sqlite,
    Redis,
    Mongodb,
}

/// Broad value category of a column type.
#[derive(Clone, Copy, Debug, PartialEq, Eq, Structural)]
pub enum ColumnKind {
    Integer,
    Decimal,
    Float,
    Bool,
    Text,
    Other,
}

/// A column type: its category and the database's own spelling.
#[derive(Clone, Debug)]
pub struct ColumnType {
    pub kind: ColumnKind,
    pub raw_type: String,
}

/// How a generated column keeps its value.
#[derive(Clone, Copy, Debug, PartialEq, Eq, Structural)]
pub enum GeneratedColumnStorage {
    Virtual,
    Stored,
}

/// PostgreSQL identity column mode.
#[derive(Clone, Copy, Debug, PartialEq, Eq, Structural)]
pub enum IdentityGeneration {
    Always,
    ByDefault,
}

/// Referential action of a foreign key.
#[derive(Clone, Copy, Debug, PartialEq, Eq, Structural)]
pub enum ForeignKeyAction {
    NoAction,
    Restrict,
    Cascade,
    SetNull,
    SetDefault,
}

/// Column metadata as a database reports it.
#[derive(Clone, Debug)]
pub struct Column {
    pub name: String,
    pub data_type: ColumnType,
    pub nullable: bool,
    pub default_value: Option<String>,
    pub is_primary_key: bool,
    pub comment: Option<String>,
    pub ordinal_position: Option<u32>,
    pub is_auto_increment: bool,
    pub generation_expression: Option<String>,
    pub generated_storage: Option<GeneratedColumnStorage>,
    pub identity_generation: Option<IdentityGeneration>,
}

/// Index metadata.
#[derive(Clone, Debug)]
pub struct Index {
    pub name: String,
    pub unique: bool,
    pub primary: bool,
    pub columns: Vec<String>,
}

/// Foreign key metadata.
#[derive(Clone, Debug)]
pub struct ForeignKey {
    pub name: String,
    pub columns: Vec<String>,
    pub ref_schema: String,
    pub ref_table: String,
    pub ref_columns: Vec<String>,
    pub on_delete: ForeignKeyAction,
    pub on_update: ForeignKeyAction,
}

/// The metadata of one table.
#[derive(Clone, Debug)]
pub struct TableMetadata {
    pub columns: Vec<Column>,
    pub indexes: Vec<Index>,
    pub foreign_keys: Vec<ForeignKey>,
}

/// Optional text viewed as an optional character sequence.
pub open spec fn opt_view(o: Option<String>) -> Option<Seq<char>> {
    match o {
        Some(s) => Some(s@),
        None => None,
    }
}

/// Views of a list of names.
pub open spec fn names_view(v: Seq<String>) -> Seq<Seq<char>> {
    v.map_values(|s: String| s@)
}

/// Ghost model of a column, over character sequences.
pub struct SpecColumn {
    pub name: Seq<char>,
    pub kind: ColumnKind,
    pub raw_type: Seq<char>,
    pub nullable: bool,
    pub default_value: Option<Seq<char>>,
    pub is_primary_key: bool,
    pub comment: Option<Seq<char>>,
    pub ordinal_position: Option<u32>,
    pub is_auto_increment: bool,
    pub generation_expression: Option<Seq<char>>,
    pub generated_storage: Option<GeneratedColumnStorage>,
    pub identity_generation: Option<IdentityGeneration>,
}

impl View for Column {
    type V = SpecColumn;

    open spec fn view(&self) -> SpecColumn {
        SpecColumn {
            name: self.name@,
            kind: self.data_type.kind,
            raw_type: self.data_type.raw_type@,
            nullable: self.nullable,
            default_value: opt_view(self.default_value),
            is_primary_key: self.is_primary_key,
            comment: opt_view(self.comment),
            ordinal_position: self.ordinal_position,
            is_auto_increment: self.is_auto_increment,
            generation_expression: opt_view(self.generation_expression),
            generated_storage: self.generated_storage,
            identity_generation: self.identity_generation,
        }
    }
}

/// Ghost model of an index.
pub struct SpecIndex {
    pub name: Seq<char>,
    pub unique: bool,
    pub primary: bool,
    pub columns: Seq<Seq<char>>,
}

impl View for Index {
    type V = SpecIndex;

    open spec fn view(&self) -> SpecIndex {
        SpecIndex {
            name: self.name@,
            unique: self.unique,
            primary: self.primary,
            columns: names_view(self.columns@),
        }
    }
}

/// Ghost model of a foreign key.
pub struct SpecForeignKey {
    pub name: Seq<char>,
    pub columns: Seq<Seq<char>>,
    pub ref_schema: Seq<char>,
    pub ref_table: Seq<char>,
    pub ref_columns: Seq<Seq<char>>,
    pub on_delete: ForeignKeyAction,
    pub on_update: ForeignKeyAction,
}

impl View for ForeignKey {
    type V = SpecForeignKey;

    open spec fn view(&self) -> SpecForeignKey {
        SpecForeignKey {
            name: self.name@,
            columns: names_view(self.columns@),
            ref_schema: self.ref_schema@,
            ref_table: self.ref_table@,
            ref_columns: names_view(self.ref_columns@),
            on_delete: self.on_delete,
            on_update: self.on_update,
        }
    }
}

/// Views of a list of columns.
pub open spec fn columns_view(v: Seq<Column>) -> Seq<SpecColumn> {
    v.map_values(|c: Column| c@)
}

/// Views of a list of indexes.
pub open spec fn indexes_view(v: Seq<Index>) -> Seq<SpecIndex> {
    v.map_values(|i: Index| i@)
}

/// Views of a list of foreign keys.
pub open spec fn foreign_keys_view(v: Seq<ForeignKey>) -> Seq<SpecForeignKey> {
    v.map_values(|f: ForeignKey| f@)
}

/// Identifier quote character of a dialect.
pub open spec fn quote_of(driver: DriverKind) -> char {
    if driver == DriverKind::Mysql {
        '`'
    } else {
        '"'
    }
}

/// One identifier character, with the quote character doubled.
pub open spec fn quote_step(q: char, c: char) -> Seq<char> {
    if c == q {
        seq![q, q]
    } else {
        seq![c]
    }
}

/// `name` quoted as an identifier of the dialect.
pub open spec fn spec_quote_identifier(driver: DriverKind, name: Seq<char>) -> Seq<char> {
    let q = quote_of(driver);
    seq![q] + map_concat(name, |c: char| quote_step(q, c)) + seq![q]
}

impl DriverKind {
    /// Quotes `name` as an identifier: backticks for MySQL, double quotes otherwise,
    /// with an embedded quote character doubled.
    pub fn quote_identifier(self, name: &str) -> (r: String)
        ensures
            r@ == spec_quote_identifier(self, name@),
    {
        let q = if self == DriverKind::Mysql {
            '`'
        } else {
            '"'
        };
        let cs = chars_of(name);
        let mut out = String::new();
        push_char(&mut out, q);
        let mut i: usize = 0;
        while i < cs.len()
            invariant
                i <= cs.len(),
                cs@ == name@,
                q == quote_of(self),
                out@ == seq![q] + map_concat(cs@.take(i as int), |c: char| quote_step(q, c)),
            decreases cs.len() - i,
        {
            let c = cs[i];
            if c == q {
                push_char(&mut out, q);
            }
            push_char(&mut out, c);
            assert(cs@.take(i + 1).drop_last() == cs@.take(i as int));
            i = i + 1;
        }
        assert(cs@.take(cs.len() as int) == cs@);
        push_char(&mut out, q);
        out
    }
}

/// SQL spelling of a referential action.
pub open spec fn spec_action_sql(action: ForeignKeyAction) -> Seq<char> {
    match action {
        ForeignKeyAction::NoAction => "NO ACTION"@,
        ForeignKeyAction::Restrict => "RESTRICT"@,
        ForeignKeyAction::Cascade => "CASCADE"@,
        ForeignKeyAction::SetNull => "SET NULL"@,
        ForeignKeyAction::SetDefault => "SET DEFAULT"@,
    }
}

impl ForeignKeyAction {
    /// The SQL words of this action.
    pub fn as_sql(self) -> (r: &'static str)
        ensures
            r@ == spec_action_sql(self),
    {
        match self {
            ForeignKeyAction::NoAction => "NO ACTION",
            ForeignKeyAction::Restrict => "RESTRICT",
            ForeignKeyAction::Cascade => "CASCADE",
            ForeignKeyAction::SetNull => "SET NULL",
            ForeignKeyAction::SetDefault => "SET DEFAULT",
        }
    }
}


/// Copy of an optional text.
pub fn copy_opt_text(o: &Option<String>) -> (r: Option<String>)
    ensures
        opt_view(r) == opt_view(*o),
{
    match o {
        Some(s) => Some(s.clone()),
        None => None,
    }
}

impl Column {
    /// A copy of the column with the same metadata.
    pub fn duplicate(&self) -> (r: Column)
        ensures
            r@ == self@,
    {
        Column {
            name: self.name.clone(),
            data_type: ColumnType { kind: self.data_type.kind, raw_type: self.data_type.raw_type.clone() },
            nullable: self.nullable,
            default_value: copy_opt_text(&self.default_value),
            is_primary_key: self.is_primary_key,
            comment: copy_opt_text(&self.comment),
            ordinal_position: self.ordinal_position,
            is_auto_increment: self.is_auto_increment,
            generation_expression: copy_opt_text(&self.generation_expression),
            generated_storage: self.generated_storage,
            identity_generation: self.identity_generation,
        }
    }
}


impl Default for TableMetadata {
    fn default() -> (r: TableMetadata)
        ensures
            r.columns@.len() == 0,
            r.indexes@.len() == 0,
            r.foreign_keys@.len() == 0,
    {
        TableMetadata { columns: Vec::new(), indexes: Vec::new(), foreign_keys: Vec::new() }
    }
}

} // verus!
