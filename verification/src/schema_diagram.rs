//! State of the read-only schema diagram: the loaded tables and relations, the refresh that
//! fills them, the search that narrows the visible table cards, and what each card and the
//! relation list say.

use vstd::prelude::*;

use crate::domain::opt_view;
use crate::text::{
    cat2, cat3, cat4, cat5, contains_str, decimal, join, push_str, spec_contains_text, spec_decimal, spec_join,
    spec_trim, str_eq, strings_view, trim,
};

verus! {

/// Unicode lower case of a text (`str::to_lowercase`).
pub uninterp spec fn spec_to_lowercase(s: Seq<char>) -> Seq<char>;

/// Unicode lower case of `s` (`str::to_lowercase`); the result is named, not described.
#[verifier::external_body]
fn to_lowercase(s: &str) -> (r: String)
    ensures
        r@ == spec_to_lowercase(s@),
{
    s.to_lowercase()
}

/// A column shown on a table card.
#[derive(Debug)]
pub struct DiagramColumn {
    pub name: String,
    pub raw_type: String,
    pub nullable: bool,
    pub primary: bool,
}

/// A foreign key drawn between two tables.
#[derive(Debug)]
pub struct DiagramRelation {
    pub source_table: String,
    pub name: String,
    pub columns: Vec<String>,
    pub ref_schema: String,
    pub ref_table: String,
    pub ref_columns: Vec<String>,
}

/// A table card.
#[derive(Debug)]
pub struct DiagramTable {
    pub name: String,
    pub is_view: bool,
    pub comment: Option<String>,
    pub columns: Vec<DiagramColumn>,
    pub relations: Vec<DiagramRelation>,
    /// Why the table's columns could not be read, if they could not.
    pub metadata_error: Option<String>,
}

/// What one load of the schema produced.
#[derive(Debug)]
pub struct LoadedDiagram {
    pub tables: Vec<DiagramTable>,
    pub relations: Vec<DiagramRelation>,
    /// Tables left out beyond the table limit.
    pub omitted_tables: usize,
}

/// State of a schema diagram panel.
#[derive(Debug)]
pub struct SchemaDiagramPanel {
    pub connection_id: String,
    pub schema: String,
    /// Text of the search input.
    pub search: String,
    pub tables: Vec<DiagramTable>,
    pub relations: Vec<DiagramRelation>,
    pub omitted_tables: usize,
    pub loading: bool,
    pub error: Option<String>,
    /// Number of the latest load; answers of older loads are ignored.
    pub request_generation: u64,
}

/// Whether a column matches the lowercased query by name or raw type.
pub open spec fn spec_column_matches(c: DiagramColumn, query: Seq<char>) -> bool {
    spec_contains_text(spec_to_lowercase(c.name@), query) || spec_contains_text(
        spec_to_lowercase(c.raw_type@),
        query,
    )
}

/// Whether a table card stays visible for the lowercased query: no query, or a match on the
/// table name, a column name or a column type.
pub open spec fn spec_table_matches(t: DiagramTable, query: Seq<char>) -> bool {
    query.len() == 0 || spec_contains_text(spec_to_lowercase(t.name@), query) || exists|k: int|
        0 <= k && k < t.columns@.len() && #[trigger] spec_column_matches(t.columns@[k], query)
}

/// Positions among the first `n` tables that stay visible, in order.
pub open spec fn spec_visible_tables(tables: Seq<DiagramTable>, query: Seq<char>, n: int) -> Seq<usize>
    decreases n,
{
    if n <= 0 {
        Seq::empty()
    } else {
        spec_visible_tables(tables, query, n - 1) + (if spec_table_matches(tables[n - 1], query) {
            seq![(n - 1) as usize]
        } else {
            Seq::empty()
        })
    }
}

fn table_matches(t: &DiagramTable, query: &str) -> (r: bool)
    ensures
        r == spec_table_matches(*t, query@),
{
    if query.is_empty() {
        return true;
    }
    let name = to_lowercase(t.name.as_str());
    if contains_str(name.as_str(), query) {
        return true;
    }
    let mut k: usize = 0;
    while k < t.columns.len()
        invariant
            k <= t.columns.len(),
            forall|j: int| 0 <= j < k ==> !#[trigger] spec_column_matches(t.columns@[j], query@),
        decreases t.columns.len() - k,
    {
        let c = &t.columns[k];
        let n = to_lowercase(c.name.as_str());
        let ty = to_lowercase(c.raw_type.as_str());
        if contains_str(n.as_str(), query) || contains_str(ty.as_str(), query) {
            assert(spec_column_matches(t.columns@[k as int], query@));
            return true;
        }
        k = k + 1;
    }
    false
}

impl SchemaDiagramPanel {
    /// A panel for `schema` on a connection, its first load started; returns the load's
    /// request number with it.
    pub fn new(connection_id: String, schema: String) -> (r: (SchemaDiagramPanel, u64))
        ensures
            r.0.connection_id == connection_id,
            r.0.schema == schema,
            r.0.search@.len() == 0,
            r.0.tables@.len() == 0,
            r.0.relations@.len() == 0,
            r.0.omitted_tables == 0,
            r.0.loading,
            r.0.error is None,
            r.0.request_generation == 1,
            r.1 == 1,
    {
        let mut panel = SchemaDiagramPanel {
            connection_id,
            schema,
            search: String::new(),
            tables: Vec::new(),
            relations: Vec::new(),
            omitted_tables: 0,
            loading: false,
            error: None,
            request_generation: 0,
        };
        let generation = panel.begin_refresh();
        (panel, generation)
    }

    /// Starts a new load: its request number supersedes older ones.
    pub fn begin_refresh(&mut self) -> (generation: u64)
        ensures
            generation == final(self).request_generation,
            final(self).request_generation == if old(self).request_generation == u64::MAX {
                0
            } else {
                (old(self).request_generation + 1) as u64
            },
            *final(self) == (SchemaDiagramPanel {
                request_generation: final(self).request_generation,
                loading: true,
                error: None,
                ..*old(self)
            }),
    {
        self.request_generation = self.request_generation.wrapping_add(1);
        self.loading = true;
        self.error = None;
        self.request_generation
    }

    /// Applies the answer of a load, unless a newer load started or the panel moved to
    /// another connection or schema meanwhile; returns whether it was applied. A failed load
    /// empties the diagram and keeps the error.
    pub fn finish_refresh(
        &mut self,
        generation: u64,
        connection_id: &str,
        schema: &str,
        result: Result<LoadedDiagram, String>,
    ) -> (applied: bool)
        ensures
            applied == (old(self).request_generation == generation && old(self).connection_id@
                == connection_id@ && old(self).schema@ == schema@),
            !applied ==> *final(self) == *old(self),
            applied ==> !final(self).loading && final(self).connection_id == old(self).connection_id
                && final(self).schema == old(self).schema && final(self).search == old(self).search
                && final(self).request_generation == old(self).request_generation
                && match result {
                Ok(loaded) => final(self).tables == loaded.tables && final(self).relations
                    == loaded.relations && final(self).omitted_tables == loaded.omitted_tables
                    && final(self).error == old(self).error,
                Err(e) => final(self).tables@.len() == 0 && final(self).relations@.len() == 0
                    && final(self).omitted_tables == 0 && final(self).error == Some(e),
            },
    {
        if self.request_generation != generation || !crate::text::str_eq(
            self.connection_id.as_str(),
            connection_id,
        ) || !crate::text::str_eq(self.schema.as_str(), schema) {
            return false;
        }
        self.loading = false;
        match result {
            Ok(loaded) => {
                self.tables = loaded.tables;
                self.relations = loaded.relations;
                self.omitted_tables = loaded.omitted_tables;
            },
            Err(error) => {
                self.tables = Vec::new();
                self.relations = Vec::new();
                self.omitted_tables = 0;
                self.error = Some(error);
            },
        }
        true
    }

    /// The search text, trimmed and lowercased.
    pub fn search_query(&self) -> (r: String)
        ensures
            r@ == spec_to_lowercase(spec_trim(self.search@)),
    {
        let t = trim(self.search.as_str());
        to_lowercase(t.as_str())
    }

    /// Positions of the table cards that match a lowercased query, in order.
    pub fn visible_tables(&self, query: &str) -> (r: Vec<usize>)
        ensures
            r@ == spec_visible_tables(self.tables@, query@, self.tables@.len() as int),
    {
        let mut out: Vec<usize> = Vec::new();
        let mut i: usize = 0;
        while i < self.tables.len()
            invariant
                i <= self.tables.len(),
                out@ == spec_visible_tables(self.tables@, query@, i as int),
            decreases self.tables.len() - i,
        {
            let ghost before = out@;
            if table_matches(&self.tables[i], query) {
                out.push(i);
            }
            assert(out@ =~= spec_visible_tables(self.tables@, query@, i + 1));
            i = i + 1;
        }
        out
    }
}

// ---------------------------------------------------------------------------------------------
// What the cards and the relation list say
// ---------------------------------------------------------------------------------------------

/// Columns listed on a card before the rest are summed up.
pub const MAX_VISIBLE_COLUMNS: usize = 18;

/// Foreign keys listed on a card before the rest are summed up.
pub const MAX_CARD_RELATIONS: usize = 4;

/// Relations listed under the grid before the rest are summed up.
pub const MAX_SUMMARY_RELATIONS: usize = 64;

/// Cards per row of the grid.
pub const GRID_COLUMNS: usize = 4;

/// A column line on a table card.
#[derive(Debug)]
pub struct CardColumn {
    /// `PK` on a primary-key column, else empty.
    pub marker: &'static str,
    pub name: String,
    pub raw_type: String,
    /// Shown with a question mark.
    pub nullable: bool,
}

/// What a table card shows, top to bottom.
#[derive(Debug)]
pub struct TableCard {
    pub title: String,
    pub is_view: bool,
    /// The comment, when there is a non-empty one.
    pub comment: Option<String>,
    pub columns: Vec<CardColumn>,
    pub more_columns: Option<String>,
    pub metadata_note: Option<String>,
    pub relation_heading: Option<String>,
    pub relations: Vec<String>,
    pub more_relations: Option<String>,
}

/// `min(a, b)`.
pub open spec fn spec_min(a: int, b: int) -> int {
    if a < b {
        a
    } else {
        b
    }
}

/// The line "… 还有 n {unit}" when `total` exceeds `limit`.
pub open spec fn spec_more_line(total: nat, limit: nat, unit: Seq<char>) -> Option<Seq<char>> {
    if total > limit {
        Some("… 还有 "@ + spec_decimal((total - limit) as nat) + unit)
    } else {
        None
    }
}

/// A foreign key line on a card.
pub open spec fn spec_card_relation(r: DiagramRelation) -> Seq<char> {
    r.name@ + " → "@ + r.ref_schema@ + "."@ + r.ref_table@
}

/// Whether `card` is what the card of `t` shows.
pub open spec fn spec_table_card(t: DiagramTable, card: TableCard) -> bool {
    let nc = t.columns@.len();
    let nr = t.relations@.len();
    &&& card.title@ == t.name@
    &&& card.is_view == t.is_view
    &&& opt_view(card.comment) == match t.comment {
        Some(c) => if c@.len() > 0 {
            Some(c@)
        } else {
            None
        },
        None => None,
    }
    &&& card.columns@.len() == spec_min(nc as int, MAX_VISIBLE_COLUMNS as int)
    &&& forall|i: int|
        0 <= i < card.columns@.len() ==> {
            let c = #[trigger] card.columns@[i];
            let d = t.columns@[i];
            &&& c.marker@ == (if d.primary {
                "PK"@
            } else {
                Seq::empty()
            })
            &&& c.name@ == d.name@
            &&& c.raw_type@ == d.raw_type@
            &&& c.nullable == d.nullable
        }
    &&& opt_view(card.more_columns) == spec_more_line(nc, MAX_VISIBLE_COLUMNS as nat, " 列"@)
    &&& opt_view(card.metadata_note) == match t.metadata_error {
        Some(e) => Some("元数据不完整："@ + e@),
        None => None,
    }
    &&& opt_view(card.relation_heading) == if nr > 0 {
        Some("外键关系 ("@ + spec_decimal(nr) + ")"@)
    } else {
        None
    }
    &&& card.relations@.len() == spec_min(nr as int, MAX_CARD_RELATIONS as int)
    &&& forall|i: int|
        0 <= i < card.relations@.len() ==> #[trigger] card.relations@[i]@ == spec_card_relation(t.relations@[i])
    &&& opt_view(card.more_relations) == spec_more_line(nr, MAX_CARD_RELATIONS as nat, " 个关系"@)
}

fn more_line(total: usize, limit: usize, unit: &str) -> (r: Option<String>)
    ensures
        opt_view(r) == spec_more_line(total as nat, limit as nat, unit@),
{
    if total > limit {
        let d = decimal((total - limit) as u64);
        Some(cat3("… 还有 ", d.as_str(), unit))
    } else {
        None
    }
}

/// What the card of `table` shows.
pub fn table_card(table: &DiagramTable) -> (card: TableCard)
    ensures
        spec_table_card(*table, card),
{
    let comment = match &table.comment {
        Some(c) => if !c.as_str().is_empty() {
            Some(c.clone())
        } else {
            None
        },
        None => None,
    };
    let mut columns: Vec<CardColumn> = Vec::new();
    let mut i: usize = 0;
    while i < table.columns.len() && i < MAX_VISIBLE_COLUMNS
        invariant
            i <= table.columns@.len(),
            i <= MAX_VISIBLE_COLUMNS,
            columns@.len() == i,
            forall|k: int|
                0 <= k < i ==> {
                    let c = #[trigger] columns@[k];
                    let d = table.columns@[k];
                    &&& c.marker@ == (if d.primary {
                        "PK"@
                    } else {
                        Seq::empty()
                    })
                    &&& c.name@ == d.name@
                    &&& c.raw_type@ == d.raw_type@
                    &&& c.nullable == d.nullable
                },
        decreases table.columns@.len() - i,
    {
        let d = &table.columns[i];
        let marker = if d.primary {
            "PK"
        } else {
            proof {
                reveal_strlit("");
            }
            ""
        };
        columns.push(CardColumn { marker, name: d.name.clone(), raw_type: d.raw_type.clone(), nullable: d.nullable });
        i = i + 1;
    }
    let metadata_note = match &table.metadata_error {
        Some(e) => Some(cat2("元数据不完整：", e.as_str())),
        None => None,
    };
    let nr = table.relations.len();
    let relation_heading = if nr > 0 {
        let d = decimal(nr as u64);
        Some(cat3("外键关系 (", d.as_str(), ")"))
    } else {
        None
    };
    let mut relations: Vec<String> = Vec::new();
    let mut j: usize = 0;
    while j < nr && j < MAX_CARD_RELATIONS
        invariant
            nr == table.relations@.len(),
            j <= nr,
            j <= MAX_CARD_RELATIONS,
            relations@.len() == j,
            forall|k: int| 0 <= k < j ==> #[trigger] relations@[k]@ == spec_card_relation(table.relations@[k]),
        decreases nr - j,
    {
        let r = &table.relations[j];
        let mut line = cat5(r.name.as_str(), " → ", r.ref_schema.as_str(), ".", r.ref_table.as_str());
        relations.push(line);
        j = j + 1;
    }
    TableCard {
        title: table.name.clone(),
        is_view: table.is_view,
        comment,
        columns,
        more_columns: more_line(table.columns.len(), MAX_VISIBLE_COLUMNS, " 列"),
        metadata_note,
        relation_heading,
        relations,
        more_relations: more_line(nr, MAX_CARD_RELATIONS, " 个关系"),
    }
}

/// A line of the relation list: the foreign key and what it references.
#[derive(Debug)]
pub struct RelationLine {
    pub source: String,
    pub target: String,
}

/// The relation list under the grid.
#[derive(Debug)]
pub struct RelationSummary {
    pub heading: String,
    pub lines: Vec<RelationLine>,
    pub more: Option<String>,
}

/// Name of the `k`-th visible table, if the position is a table.
pub open spec fn spec_visible_name(tables: Seq<DiagramTable>, visible: Seq<usize>, k: int) -> Option<Seq<char>> {
    if 0 <= k < visible.len() && visible[k] < tables.len() {
        Some(tables[visible[k] as int].name@)
    } else {
        None
    }
}

/// Whether a visible table is named `name`.
pub open spec fn spec_shows_table(tables: Seq<DiagramTable>, visible: Seq<usize>, name: Seq<char>) -> bool {
    exists|k: int| 0 <= k < visible.len() && #[trigger] spec_visible_name(tables, visible, k) == Some(name)
}

/// Positions among the first `n` relations whose source table is visible, in order.
pub open spec fn spec_visible_relations(
    relations: Seq<DiagramRelation>,
    tables: Seq<DiagramTable>,
    visible: Seq<usize>,
    n: int,
) -> Seq<int>
    decreases n,
{
    if n <= 0 {
        Seq::empty()
    } else {
        spec_visible_relations(relations, tables, visible, n - 1) + (if spec_shows_table(
            tables,
            visible,
            relations[n - 1].source_table@,
        ) {
            seq![n - 1]
        } else {
            Seq::empty()
        })
    }
}

/// The two halves of a relation line.
pub open spec fn spec_relation_line(r: DiagramRelation) -> (Seq<char>, Seq<char>) {
    (
        r.source_table@ + "."@ + r.name@,
        r.ref_schema@ + "."@ + r.ref_table@ + " ("@ + spec_join(strings_view(r.columns@), ", "@) + ") → ("@
            + spec_join(strings_view(r.ref_columns@), ", "@) + ")"@,
    )
}

impl SchemaDiagramPanel {
    fn shows_table(&self, visible: &Vec<usize>, name: &str) -> (r: bool)
        ensures
            r == spec_shows_table(self.tables@, visible@, name@),
    {
        let mut k: usize = 0;
        while k < visible.len()
            invariant
                k <= visible@.len(),
                forall|j: int| 0 <= j < k ==> #[trigger] spec_visible_name(self.tables@, visible@, j) != Some(name@),
            decreases visible@.len() - k,
        {
            let t = visible[k];
            if t < self.tables.len() && str_eq(self.tables[t].name.as_str(), name) {
                assert(spec_visible_name(self.tables@, visible@, k as int) == Some(name@));
                return true;
            }
            assert(spec_visible_name(self.tables@, visible@, k as int) != Some(name@));
            k = k + 1;
        }
        false
    }

    /// The relation list for the visible cards: relations whose source table is shown, the
    /// first 64 of them spelled out.
    pub fn relation_summary(&self, visible: &Vec<usize>) -> (r: RelationSummary)
        ensures
            ({
                let shown = spec_visible_relations(self.relations@, self.tables@, visible@, self.relations@.len() as int);
                &&& r.heading@ == "关系 ("@ + spec_decimal(shown.len()) + ")"@
                &&& r.lines@.len() == spec_min(shown.len() as int, MAX_SUMMARY_RELATIONS as int)
                &&& forall|i: int|
                    0 <= i < r.lines@.len() ==> (#[trigger] r.lines@[i]).source@ == spec_relation_line(
                        self.relations@[shown[i]],
                    ).0 && r.lines@[i].target@ == spec_relation_line(self.relations@[shown[i]]).1
                &&& opt_view(r.more) == spec_more_line(shown.len(), MAX_SUMMARY_RELATIONS as nat, " 个关系"@)
            }),
    {
        let ghost rels = self.relations@;
        let mut lines: Vec<RelationLine> = Vec::new();
        let mut count: usize = 0;
        let mut i: usize = 0;
        while i < self.relations.len()
            invariant
                i <= self.relations@.len(),
                count <= i,
                rels == self.relations@,
                count == spec_visible_relations(rels, self.tables@, visible@, i as int).len(),
                lines@.len() == spec_min(count as int, MAX_SUMMARY_RELATIONS as int),
                forall|k: int|
                    0 <= k < lines@.len() ==> (#[trigger] lines@[k]).source@ == spec_relation_line(
                        rels[spec_visible_relations(rels, self.tables@, visible@, i as int)[k]],
                    ).0 && lines@[k].target@ == spec_relation_line(
                        rels[spec_visible_relations(rels, self.tables@, visible@, i as int)[k]],
                    ).1,
                forall|k: int|
                    0 <= k < spec_visible_relations(rels, self.tables@, visible@, i as int).len() ==> 0
                        <= #[trigger] spec_visible_relations(rels, self.tables@, visible@, i as int)[k] < i,
            decreases self.relations@.len() - i,
        {
            let ghost before = spec_visible_relations(rels, self.tables@, visible@, i as int);
            let ghost after = spec_visible_relations(rels, self.tables@, visible@, i + 1);
            let r = &self.relations[i];
            if self.shows_table(visible, r.source_table.as_str()) {
                assert(after == before.push(i as int));
                if lines.len() < MAX_SUMMARY_RELATIONS {
                    let source = cat3(r.source_table.as_str(), ".", r.name.as_str());
                    let cols = join(r.columns.as_slice(), ", ");
                    let refs = join(r.ref_columns.as_slice(), ", ");
                    let mut target = cat5(r.ref_schema.as_str(), ".", r.ref_table.as_str(), " (", cols.as_str());
                    push_str(&mut target, ") → (");
                    push_str(&mut target, refs.as_str());
                    push_str(&mut target, ")");
                    lines.push(RelationLine { source, target });
                }
                count = count + 1;
            } else {
                assert(after == before);
            }
            i = i + 1;
        }
        let d = decimal(count as u64);
        RelationSummary {
            heading: cat3("关系 (", d.as_str(), ")"),
            lines,
            more: more_line(count, MAX_SUMMARY_RELATIONS, " 个关系"),
        }
    }
}

/// What the main area of the panel shows.
#[derive(Debug)]
pub enum DiagramBody {
    /// The load failed; the message, with a retry offered beside it.
    Failed { message: String },
    /// The first load is running.
    Loading { note: &'static str },
    /// The card grid; with a message in place of the cards when none is shown.
    Cards { empty_message: Option<&'static str> },
}

/// The panel's toolbar texts, the cards to show and the main area.
#[derive(Debug)]
pub struct DiagramOverview {
    pub title: String,
    /// Positions of the cards shown, in order.
    pub visible: Vec<usize>,
    pub count_label: String,
    pub omitted_label: Option<String>,
    pub body: DiagramBody,
}

impl SchemaDiagramPanel {
    /// The cards that match the search, and what the toolbar and the main area say.
    pub fn overview(&self) -> (r: DiagramOverview)
        ensures
            ({
                let query = spec_to_lowercase(spec_trim(self.search@));
                let shown = spec_visible_tables(self.tables@, query, self.tables@.len() as int);
                &&& r.title@ == "Schema Diagram · "@ + self.schema@
                &&& r.visible@ == shown
                &&& r.count_label@ == spec_decimal(shown.len()) + "/"@ + spec_decimal(self.tables@.len()) + " 表"@
                &&& opt_view(r.omitted_label) == if self.omitted_tables > 0 {
                    Some("已省略 "@ + spec_decimal(self.omitted_tables as nat) + " 张表"@)
                } else {
                    None
                }
                &&& match self.error {
                    Some(e) => r.body matches DiagramBody::Failed { message } && message@ == "加载 Schema Diagram 失败："@
                        + e@,
                    None => if self.loading && self.tables@.len() == 0 {
                        r.body matches DiagramBody::Loading { note } && note@ == "正在加载表、列和外键元数据…"@
                    } else {
                        r.body matches DiagramBody::Cards { empty_message } && if shown.len() == 0 && !self.loading {
                            empty_message is Some && empty_message->0@ == if query.len() == 0 {
                                "该 Schema 没有可展示的表"@
                            } else {
                                "没有匹配的表或列"@
                            }
                        } else {
                            empty_message is None
                        }
                    },
                }
            }),
    {
        let query = self.search_query();
        let visible = self.visible_tables(query.as_str());
        let shown = decimal(visible.len() as u64);
        let total = decimal(self.tables.len() as u64);
        let count_label = cat4(shown.as_str(), "/", total.as_str(), " 表");
        let omitted_label = if self.omitted_tables > 0 {
            let d = decimal(self.omitted_tables as u64);
            Some(cat3("已省略 ", d.as_str(), " 张表"))
        } else {
            None
        };
        let body = match &self.error {
            Some(e) => DiagramBody::Failed { message: cat2("加载 Schema Diagram 失败：", e.as_str()) },
            None => if self.loading && self.tables.len() == 0 {
                DiagramBody::Loading { note: "正在加载表、列和外键元数据…" }
            } else if visible.len() == 0 && !self.loading {
                DiagramBody::Cards {
                    empty_message: Some(
                        if query.as_str().is_empty() {
                            "该 Schema 没有可展示的表"
                        } else {
                            "没有匹配的表或列"
                        },
                    ),
                }
            } else {
                DiagramBody::Cards { empty_message: None }
            },
        };
        DiagramOverview {
            title: cat2("Schema Diagram · ", self.schema.as_str()),
            visible,
            count_label,
            omitted_label,
            body,
        }
    }
}

/// The visible cards cut into grid rows of `GRID_COLUMNS`, in order: as few rows as hold
/// them all, each full but the last.
pub fn card_rows(visible: &Vec<usize>) -> (rows: Vec<Vec<usize>>)
    ensures
        rows@.len() * GRID_COLUMNS >= visible@.len(),
        rows@.len() > 0 ==> (rows@.len() - 1) * GRID_COLUMNS < visible@.len(),
        forall|r: int|
            0 <= r < rows@.len() ==> (#[trigger] rows@[r])@ == visible@.subrange(
                r * GRID_COLUMNS as int,
                spec_min(r * GRID_COLUMNS as int + GRID_COLUMNS as int, visible@.len() as int),
            ),
{
    let mut rows: Vec<Vec<usize>> = Vec::new();
    let mut start: usize = 0;
    while start < visible.len()
        invariant
            start <= visible@.len(),
            rows@.len() * GRID_COLUMNS >= start,
            rows@.len() > 0 ==> (rows@.len() - 1) * GRID_COLUMNS < start,
            start < visible@.len() ==> start == rows@.len() * GRID_COLUMNS,
            forall|r: int|
                0 <= r < rows@.len() ==> (#[trigger] rows@[r])@ == visible@.subrange(
                    r * GRID_COLUMNS as int,
                    spec_min(r * GRID_COLUMNS as int + GRID_COLUMNS as int, visible@.len() as int),
                ),
        decreases visible@.len() - start,
    {
        let end = if visible.len() - start < GRID_COLUMNS {
            visible.len()
        } else {
            start + GRID_COLUMNS
        };
        let mut row: Vec<usize> = Vec::new();
        let mut k: usize = start;
        while k < end
            invariant
                start <= k <= end <= visible@.len(),
                row@ == visible@.subrange(start as int, k as int),
            decreases end - k,
        {
            row.push(visible[k]);
            assert(row@ =~= visible@.subrange(start as int, k + 1));
            k = k + 1;
        }
        rows.push(row);
        start = end;
    }
    rows
}
} // verus!
