//! Line-oriented comparison of two tables' columns, indexes and foreign keys.

use vstd::prelude::*;

use crate::domain::{
    Column, ForeignKey, IdentityGeneration, Index, SpecColumn, SpecForeignKey, SpecIndex,
    GeneratedColumnStorage, TableMetadata, columns_view, foreign_keys_view, indexes_view,
    names_view, spec_action_sql,
};
use crate::metadata::{spec_non_empty, non_empty};
use crate::migration::{SpecTable, spec_generated_storage, spec_identity_mode};
use crate::text::{
    cat2, cat3, compact, decimal, join, push_str, spec_compact, spec_decimal, spec_join,
    spec_ascii_lowercase, strings_view, to_ascii_lowercase,
};

verus! {

/// Kind of a diff line.
#[derive(Clone, Copy, Debug, PartialEq, Eq, Structural)]
pub enum MetadataDiffKind {
    Context,
    Added,
    Removed,
}

/// Prefix character of a diff line kind.
pub open spec fn spec_diff_prefix(kind: MetadataDiffKind) -> Seq<char> {
    match kind {
        MetadataDiffKind::Context => " "@,
        MetadataDiffKind::Added => "+"@,
        MetadataDiffKind::Removed => "-"@,
    }
}

impl MetadataDiffKind {
    /// The one-character prefix of lines of this kind.
    pub fn prefix(self) -> (r: &'static str)
        ensures
            r@ == spec_diff_prefix(self),
    {
        match self {
            MetadataDiffKind::Context => " ",
            MetadataDiffKind::Added => "+",
            MetadataDiffKind::Removed => "-",
        }
    }
}

/// One line of a metadata diff.
#[derive(Debug)]
pub struct MetadataDiffLine {
    pub kind: MetadataDiffKind,
    pub text: String,
}

/// Ghost model of a diff line.
pub struct SpecDiffLine {
    pub kind: MetadataDiffKind,
    pub text: Seq<char>,
}

impl View for MetadataDiffLine {
    type V = SpecDiffLine;

    open spec fn view(&self) -> SpecDiffLine {
        SpecDiffLine { kind: self.kind, text: self.text@ }
    }
}

/// Views of diff lines.
pub open spec fn lines_view(v: Seq<MetadataDiffLine>) -> Seq<SpecDiffLine> {
    v.map_values(|l: MetadataDiffLine| l@)
}

/// A titled group of diff lines.
#[derive(Debug)]
pub struct MetadataDiffSection {
    pub title: String,
    pub lines: Vec<MetadataDiffLine>,
}

/// Ghost model of a section.
pub struct SpecDiffSection {
    pub title: Seq<char>,
    pub lines: Seq<SpecDiffLine>,
}

impl View for MetadataDiffSection {
    type V = SpecDiffSection;

    open spec fn view(&self) -> SpecDiffSection {
        SpecDiffSection { title: self.title@, lines: lines_view(self.lines@) }
    }
}

/// Views of sections.
pub open spec fn sections_view(v: Seq<MetadataDiffSection>) -> Seq<SpecDiffSection> {
    v.map_values(|s: MetadataDiffSection| s@)
}

/// A named object rendered for comparison.
pub struct NamedMetadata {
    pub key: String,
    pub display_name: String,
    pub text: String,
    pub rename_signature: Option<String>,
}

/// Ghost model of a named object.
pub struct SpecNamed {
    pub key: Seq<char>,
    pub display_name: Seq<char>,
    pub text: Seq<char>,
    pub rename_signature: Option<Seq<char>>,
}

impl View for NamedMetadata {
    type V = SpecNamed;

    open spec fn view(&self) -> SpecNamed {
        SpecNamed {
            key: self.key@,
            display_name: self.display_name@,
            text: self.text@,
            rename_signature: crate::domain::opt_view(self.rename_signature),
        }
    }
}

/// Views of named objects.
pub open spec fn named_view(v: Seq<NamedMetadata>) -> Seq<SpecNamed> {
    v.map_values(|n: NamedMetadata| n@)
}

// ---------------------------------------------------------------------------------------------
// Rendering of objects
// ---------------------------------------------------------------------------------------------

/// Optional text compacted, or `-` when missing or blank.
pub open spec fn spec_compact_or_dash(o: Option<Seq<char>>) -> Seq<char> {
    match spec_non_empty(o) {
        Some(_) => spec_compact(o.unwrap()),
        None => "-"@,
    }
}

fn compact_or_dash(o: &Option<String>) -> (r: String)
    ensures
        r@ == spec_compact_or_dash(crate::domain::opt_view(*o)),
{
    match non_empty(o) {
        Some(_) => {
            let v = o.as_ref().unwrap();
            compact(v.as_str())
        },
        None => String::from_str("-"),
    }
}

/// Generation attribute of a column as shown in a diff.
pub open spec fn spec_column_generation_text(c: SpecColumn) -> Seq<char> {
    match c.identity_generation {
        Some(mode) => "IDENTITY "@ + spec_identity_mode(mode),
        None => match c.generated_storage {
            Some(storage) => "GENERATED "@ + spec_generated_storage(storage) + " AS ("@ + (
            match c.generation_expression {
                Some(e) => spec_compact(e),
                None => "-"@,
            }) + ")"@,
            None => if c.is_auto_increment {
                "AUTO_INCREMENT"@
            } else {
                "GENERATED -"@
            },
        },
    }
}

fn column_generation_text(c: &Column) -> (r: String)
    ensures
        r@ == spec_column_generation_text(c@),
{
    if let Some(mode) = c.identity_generation {
        let m = match mode {
            IdentityGeneration::Always => "ALWAYS",
            IdentityGeneration::ByDefault => "BY DEFAULT",
        };
        return cat2("IDENTITY ", m);
    }
    if let Some(storage) = c.generated_storage {
        let st = match storage {
            GeneratedColumnStorage::Virtual => "VIRTUAL",
            GeneratedColumnStorage::Stored => "STORED",
        };
        let expression = match &c.generation_expression {
            Some(e) => compact(e.as_str()),
            None => String::from_str("-"),
        };
        let mut s = cat3("GENERATED ", st, " AS (");
        push_str(&mut s, expression.as_str());
        push_str(&mut s, ")");
        return s;
    }
    if c.is_auto_increment {
        String::from_str("AUTO_INCREMENT")
    } else {
        String::from_str("GENERATED -")
    }
}

/// Definition of a column as shown in a diff; also its rename signature.
pub open spec fn spec_column_definition_text(c: SpecColumn) -> Seq<char> {
    spec_compact(c.raw_type) + " | "@ + (if c.nullable {
        "NULL"@
    } else {
        "NOT NULL"@
    }) + (if c.is_primary_key {
        " PRIMARY KEY"@
    } else {
        Seq::empty()
    }) + " | DEFAULT "@ + spec_compact_or_dash(c.default_value) + " | COMMENT "@
        + spec_compact_or_dash(c.comment) + " | "@ + spec_column_generation_text(c) + " | "@ + (
    match c.ordinal_position {
        None => "POSITION -"@,
        Some(p) => "POSITION "@ + spec_decimal(p as nat),
    })
}

fn column_definition_text(c: &Column) -> (r: String)
    ensures
        r@ == spec_column_definition_text(c@),
{
    let mut s = compact(c.data_type.raw_type.as_str());
    push_str(&mut s, " | ");
    if c.nullable {
        push_str(&mut s, "NULL");
    } else {
        push_str(&mut s, "NOT NULL");
    }
    if c.is_primary_key {
        push_str(&mut s, " PRIMARY KEY");
    }
    push_str(&mut s, " | DEFAULT ");
    let d = compact_or_dash(&c.default_value);
    push_str(&mut s, d.as_str());
    push_str(&mut s, " | COMMENT ");
    let cm = compact_or_dash(&c.comment);
    push_str(&mut s, cm.as_str());
    push_str(&mut s, " | ");
    let g = column_generation_text(c);
    push_str(&mut s, g.as_str());
    push_str(&mut s, " | ");
    match c.ordinal_position {
        None => push_str(&mut s, "POSITION -"),
        Some(p) => {
            push_str(&mut s, "POSITION ");
            let n = decimal(p as u64);
            push_str(&mut s, n.as_str());
        },
    }
    s
}

/// A column as a named object: keyed by its lower-cased name, with its definition as the
/// rename signature.
pub open spec fn spec_column_entry(c: SpecColumn) -> SpecNamed {
    SpecNamed {
        key: spec_ascii_lowercase(c.name),
        display_name: spec_compact(c.name),
        text: spec_compact(c.name) + " | "@ + spec_column_definition_text(c),
        rename_signature: Some(spec_column_definition_text(c)),
    }
}

fn column_entry(c: &Column) -> (r: NamedMetadata)
    ensures
        r@ == spec_column_entry(c@),
{
    let definition = column_definition_text(c);
    let name = compact(c.name.as_str());
    let text = cat3(name.as_str(), " | ", definition.as_str());
    NamedMetadata {
        key: to_ascii_lowercase(c.name.as_str()),
        display_name: name,
        text,
        rename_signature: Some(definition),
    }
}

/// Each name compacted.
pub open spec fn spec_compact_all(names: Seq<Seq<char>>) -> Seq<Seq<char>> {
    names.map_values(|n: Seq<char>| spec_compact(n))
}

fn compact_join(names: &[String]) -> (r: String)
    ensures
        r@ == spec_join(spec_compact_all(names_view(names@)), ", "@),
{
    let mut parts: Vec<String> = Vec::new();
    let mut i: usize = 0;
    while i < names.len()
        invariant
            i <= names.len(),
            strings_view(parts@) == spec_compact_all(names_view(names@.take(i as int))),
        decreases names.len() - i,
    {
        let ghost before = strings_view(parts@);
        let c = compact(names[i].as_str());
        parts.push(c);
        assert(strings_view(parts@) == before.push(c@));
        assert(names_view(names@.take(i + 1)) == names_view(names@.take(i as int)).push(
            names@[i as int]@,
        ));
        i = i + 1;
    }
    assert(names@.take(names.len() as int) == names@);
    join(parts.as_slice(), ", ")
}

/// An index as a named object.
pub open spec fn spec_index_entry(index: SpecIndex) -> SpecNamed {
    SpecNamed {
        key: spec_ascii_lowercase(index.name),
        display_name: spec_compact(index.name),
        text: (if index.primary {
            "PRIMARY"@
        } else if index.unique {
            "UNIQUE"@
        } else {
            "INDEX"@
        }) + " "@ + spec_compact(index.name) + " ("@ + spec_join(
            spec_compact_all(index.columns),
            ", "@,
        ) + ")"@,
        rename_signature: None,
    }
}

fn index_entry(index: &Index) -> (r: NamedMetadata)
    ensures
        r@ == spec_index_entry(index@),
{
    let kind = if index.primary {
        "PRIMARY"
    } else if index.unique {
        "UNIQUE"
    } else {
        "INDEX"
    };
    let name = compact(index.name.as_str());
    let mut text = cat3(kind, " ", name.as_str());
    push_str(&mut text, " (");
    let cols = compact_join(index.columns.as_slice());
    push_str(&mut text, cols.as_str());
    push_str(&mut text, ")");
    NamedMetadata {
        key: to_ascii_lowercase(index.name.as_str()),
        display_name: name,
        text,
        rename_signature: None,
    }
}

/// A foreign key as a named object.
pub open spec fn spec_foreign_key_entry(fk: SpecForeignKey) -> SpecNamed {
    SpecNamed {
        key: spec_ascii_lowercase(fk.name),
        display_name: spec_compact(fk.name),
        text: spec_compact(fk.name) + " ("@ + spec_join(spec_compact_all(fk.columns), ", "@)
            + ") -> "@ + spec_compact(fk.ref_schema) + "."@ + spec_compact(fk.ref_table) + " ("@
            + spec_join(spec_compact_all(fk.ref_columns), ", "@) + ") | ON DELETE "@
            + spec_action_sql(fk.on_delete) + " | ON UPDATE "@ + spec_action_sql(fk.on_update),
        rename_signature: None,
    }
}

fn foreign_key_entry(fk: &ForeignKey) -> (r: NamedMetadata)
    ensures
        r@ == spec_foreign_key_entry(fk@),
{
    let name = compact(fk.name.as_str());
    let mut text = cat2(name.as_str(), " (");
    let cols = compact_join(fk.columns.as_slice());
    push_str(&mut text, cols.as_str());
    push_str(&mut text, ") -> ");
    let rs = compact(fk.ref_schema.as_str());
    push_str(&mut text, rs.as_str());
    push_str(&mut text, ".");
    let rt = compact(fk.ref_table.as_str());
    push_str(&mut text, rt.as_str());
    push_str(&mut text, " (");
    let rc = compact_join(fk.ref_columns.as_slice());
    push_str(&mut text, rc.as_str());
    push_str(&mut text, ") | ON DELETE ");
    push_str(&mut text, fk.on_delete.as_sql());
    push_str(&mut text, " | ON UPDATE ");
    push_str(&mut text, fk.on_update.as_sql());
    NamedMetadata {
        key: to_ascii_lowercase(fk.name.as_str()),
        display_name: name,
        text,
        rename_signature: None,
    }
}


// ---------------------------------------------------------------------------------------------
// Matching by name
// ---------------------------------------------------------------------------------------------

/// A diff line in ghost form.
pub open spec fn line(kind: MetadataDiffKind, text: Seq<char>) -> SpecDiffLine {
    SpecDiffLine { kind, text }
}

/// First position at or after `i` whose key is exactly `key`.
pub open spec fn find_key_from(v: Seq<SpecNamed>, key: Seq<char>, i: int) -> Option<int>
    decreases v.len() - i,
{
    if i < 0 || i >= v.len() {
        None
    } else if v[i].key == key {
        Some(i)
    } else {
        find_key_from(v, key, i + 1)
    }
}

/// Whether some object has exactly the key `key`.
pub open spec fn key_in(v: Seq<SpecNamed>, key: Seq<char>) -> bool {
    exists|i: int| 0 <= i < v.len() && (#[trigger] v[i]).key == key
}

/// A source object without a same-key target object and with the given rename signature.
pub open spec fn source_candidate(
    source: Seq<SpecNamed>,
    target: Seq<SpecNamed>,
    sig: Option<Seq<char>>,
    c: int,
) -> bool {
    !key_in(target, source[c].key) && source[c].rename_signature is Some
        && source[c].rename_signature == sig
}

/// Number of source candidates with signature `sig` among the first `n`.
pub open spec fn count_source_candidates(
    source: Seq<SpecNamed>,
    target: Seq<SpecNamed>,
    sig: Option<Seq<char>>,
    n: int,
) -> nat
    decreases n,
{
    if n <= 0 {
        0
    } else {
        count_source_candidates(source, target, sig, n - 1) + if source_candidate(
            source,
            target,
            sig,
            n - 1,
        ) {
            1nat
        } else {
            0nat
        }
    }
}

/// An unmatched target object without a same-key source object, sharing `old`'s signature.
pub open spec fn target_candidate(
    source: Seq<SpecNamed>,
    target: Seq<SpecNamed>,
    matched: Seq<bool>,
    old: SpecNamed,
    t: int,
) -> bool {
    !matched[t] && !key_in(source, target[t].key) && old.rename_signature is Some
        && old.rename_signature == target[t].rename_signature
}

/// Number of target candidates among the first `n`.
pub open spec fn count_target_candidates(
    source: Seq<SpecNamed>,
    target: Seq<SpecNamed>,
    matched: Seq<bool>,
    old: SpecNamed,
    n: int,
) -> nat
    decreases n,
{
    if n <= 0 {
        0
    } else {
        count_target_candidates(source, target, matched, old, n - 1) + if target_candidate(
            source,
            target,
            matched,
            old,
            n - 1,
        ) {
            1nat
        } else {
            0nat
        }
    }
}

/// First target candidate at or after `t`.
pub open spec fn first_target_candidate_from(
    source: Seq<SpecNamed>,
    target: Seq<SpecNamed>,
    matched: Seq<bool>,
    old: SpecNamed,
    t: int,
) -> Option<int>
    decreases target.len() - t,
{
    if t < 0 || t >= target.len() {
        None
    } else if target_candidate(source, target, matched, old, t) {
        Some(t)
    } else {
        first_target_candidate_from(source, target, matched, old, t + 1)
    }
}

/// Lines so far and which target objects already serve as rename partners.
pub struct DiffState {
    pub lines: Seq<SpecDiffLine>,
    pub matched: Seq<bool>,
}

/// The lines for one source object `old`.
pub open spec fn diff_step(
    source: Seq<SpecNamed>,
    target: Seq<SpecNamed>,
    st: DiffState,
    old: SpecNamed,
) -> DiffState {
    match find_key_from(target, old.key, 0) {
        Some(i) => if target[i].text == old.text {
            DiffState {
                lines: st.lines.push(line(MetadataDiffKind::Context, old.text)),
                matched: st.matched,
            }
        } else {
            DiffState {
                lines: st.lines + seq![
                    line(MetadataDiffKind::Removed, old.text),
                    line(MetadataDiffKind::Added, target[i].text),
                ],
                matched: st.matched,
            }
        },
        None => if count_source_candidates(
            source,
            target,
            old.rename_signature,
            source.len() as int,
        ) == 1 && count_target_candidates(source, target, st.matched, old, target.len() as int)
            == 1 {
            let t = first_target_candidate_from(source, target, st.matched, old, 0).unwrap();
            DiffState {
                lines: st.lines + seq![
                    line(
                        MetadataDiffKind::Removed,
                        old.text + " [重命名候选："@ + target[t].display_name + "]"@,
                    ),
                    line(
                        MetadataDiffKind::Added,
                        target[t].text + " [重命名候选："@ + old.display_name + "]"@,
                    ),
                ],
                matched: st.matched.update(t, true),
            }
        } else {
            DiffState {
                lines: st.lines.push(line(MetadataDiffKind::Removed, old.text)),
                matched: st.matched,
            }
        },
    }
}

/// The state after the first `n` source objects.
pub open spec fn diff_prefix(source: Seq<SpecNamed>, target: Seq<SpecNamed>, n: int) -> DiffState
    decreases n,
{
    if n <= 0 {
        DiffState { lines: Seq::empty(), matched: Seq::new(target.len(), |i: int| false) }
    } else {
        diff_step(source, target, diff_prefix(source, target, n - 1), source[n - 1])
    }
}

/// Added lines for the first `n` target objects that neither match a source key nor were
/// taken as rename partners.
pub open spec fn diff_tail(
    source: Seq<SpecNamed>,
    target: Seq<SpecNamed>,
    matched: Seq<bool>,
    n: int,
) -> Seq<SpecDiffLine>
    decreases n,
{
    if n <= 0 {
        Seq::empty()
    } else {
        diff_tail(source, target, matched, n - 1) + if !matched[n - 1] && !key_in(
            source,
            target[n - 1].key,
        ) {
            seq![line(MetadataDiffKind::Added, target[n - 1].text)]
        } else {
            Seq::empty()
        }
    }
}

/// Diff of two lists of named objects: objects are matched by key; an unchanged object is
/// context, a changed one is removed then added; an unmatched source object whose rename
/// signature pairs it one-to-one with an unmatched target object is marked as a rename
/// candidate on both lines; remaining target objects are added at the end.
pub open spec fn spec_diff_named(source: Seq<SpecNamed>, target: Seq<SpecNamed>) -> Seq<SpecDiffLine> {
    let st = diff_prefix(source, target, source.len() as int);
    st.lines + diff_tail(source, target, st.matched, target.len() as int)
}

fn opt_str_eq(a: &Option<String>, b: &Option<String>) -> (r: bool)
    ensures
        r == (crate::domain::opt_view(*a) == crate::domain::opt_view(*b)),
{
    match (a, b) {
        (Some(x), Some(y)) => crate::text::str_eq(x.as_str(), y.as_str()),
        (None, None) => true,
        _ => false,
    }
}

fn find_key(v: &[NamedMetadata], key: &String) -> (r: Option<usize>)
    ensures
        crate::metadata::opt_index(r) == find_key_from(named_view(v@), key@, 0),
        r matches Some(i) ==> i < v.len(),
        r is None <==> !key_in(named_view(v@), key@),
{
    let ghost nv = named_view(v@);
    let mut i: usize = 0;
    while i < v.len()
        invariant
            i <= v.len(),
            nv == named_view(v@),
            find_key_from(nv, key@, 0) == find_key_from(nv, key@, i as int),
            forall|j: int| 0 <= j < i ==> (#[trigger] nv[j]).key != key@,
        decreases v.len() - i,
    {
        if v[i].key == *key {
            assert(nv[i as int].key == key@);
            return Some(i);
        }
        i = i + 1;
    }
    None
}

/// Compares two lists of named objects into diff lines.
pub fn diff_named(source: &[NamedMetadata], target: &[NamedMetadata]) -> (r: Vec<MetadataDiffLine>)
    ensures
        lines_view(r@) == spec_diff_named(named_view(source@), named_view(target@)),
{
    let ghost sv = named_view(source@);
    let ghost tv = named_view(target@);
    let mut lines: Vec<MetadataDiffLine> = Vec::new();
    let mut matched: Vec<bool> = Vec::new();
    let mut t: usize = 0;
    while t < target.len()
        invariant
            t <= target.len(),
            matched@ == Seq::new(t as nat, |i: int| false),
        decreases target.len() - t,
    {
        matched.push(false);
        t = t + 1;
    }
    let mut s: usize = 0;
    while s < source.len()
        invariant
            s <= source.len(),
            sv == named_view(source@),
            tv == named_view(target@),
            lines_view(lines@) == diff_prefix(sv, tv, s as int).lines,
            matched@ == diff_prefix(sv, tv, s as int).matched,
            matched@.len() == target.len(),
        decreases source.len() - s,
    {
        let old = &source[s];
        let ghost st = diff_prefix(sv, tv, s as int);
        let ghost before = lines_view(lines@);
        match find_key(target, &old.key) {
            Some(i) => {
                if target[i].text == old.text {
                    lines.push(MetadataDiffLine { kind: MetadataDiffKind::Context, text: old.text.clone() });
                    assert(lines_view(lines@) == before.push(line(MetadataDiffKind::Context, old.text@)));
                } else {
                    lines.push(MetadataDiffLine { kind: MetadataDiffKind::Removed, text: old.text.clone() });
                    lines.push(MetadataDiffLine { kind: MetadataDiffKind::Added, text: target[i].text.clone() });
                    assert(lines_view(lines@) == before + seq![
                        line(MetadataDiffKind::Removed, old.text@),
                        line(MetadataDiffKind::Added, target@[i as int].text@),
                    ]);
                }
            },
            None => {
                // source candidates sharing the rename signature
                let mut sc: usize = 0;
                let mut c: usize = 0;
                while c < source.len()
                    invariant
                        c <= source.len(),
                        s < source.len(),
                        sv == named_view(source@),
                        tv == named_view(target@),
                        sc == count_source_candidates(sv, tv, sv[s as int].rename_signature, c as int),
                        sc <= c,
                    decreases source.len() - c,
                {
                    let cand = &source[c];
                    if find_key(target, &cand.key).is_none() && cand.rename_signature.is_some()
                        && opt_str_eq(&cand.rename_signature, &source[s].rename_signature) {
                        sc = sc + 1;
                    }
                    c = c + 1;
                }
                let mut tc: usize = 0;
                let mut first: usize = 0;
                if sc == 1 {
                    let mut k: usize = 0;
                    while k < target.len()
                        invariant
                            k <= target.len(),
                            s < source.len(),
                            sv == named_view(source@),
                            tv == named_view(target@),
                            matched@.len() == target.len(),
                            tc == count_target_candidates(sv, tv, matched@, sv[s as int], k as int),
                            tc <= k,
                            tc > 0 ==> first < k && first_target_candidate_from(
                                sv,
                                tv,
                                matched@,
                                sv[s as int],
                                0,
                            ) == Some(first as int),
                            tc == 0 ==> first_target_candidate_from(sv, tv, matched@, sv[s as int], 0)
                                == first_target_candidate_from(
                                sv,
                                tv,
                                matched@,
                                sv[s as int],
                                k as int,
                            ),
                        decreases target.len() - k,
                    {
                        if !matched[k] && find_key(source, &target[k].key).is_none()
                            && source[s].rename_signature.is_some() && opt_str_eq(
                            &source[s].rename_signature,
                            &target[k].rename_signature,
                        ) {
                            if tc == 0 {
                                first = k;
                            }
                            tc = tc + 1;
                        }
                        k = k + 1;
                    }
                }
                if sc == 1 && tc == 1 {
                    let mut a = old.text.clone();
                    push_str(&mut a, " [重命名候选：");
                    push_str(&mut a, target[first].display_name.as_str());
                    push_str(&mut a, "]");
                    let mut b = target[first].text.clone();
                    push_str(&mut b, " [重命名候选：");
                    push_str(&mut b, old.display_name.as_str());
                    push_str(&mut b, "]");
                    let ghost la = line(MetadataDiffKind::Removed, a@);
                    let ghost lb = line(MetadataDiffKind::Added, b@);
                    lines.push(MetadataDiffLine { kind: MetadataDiffKind::Removed, text: a });
                    lines.push(MetadataDiffLine { kind: MetadataDiffKind::Added, text: b });
                    matched.set(first, true);
                    assert(lines_view(lines@) == before + seq![la, lb]);
                } else {
                    lines.push(MetadataDiffLine { kind: MetadataDiffKind::Removed, text: old.text.clone() });
                    assert(lines_view(lines@) == before.push(line(MetadataDiffKind::Removed, old.text@)));
                }
            },
        }
        s = s + 1;
    }
    let ghost st = diff_prefix(sv, tv, source.len() as int);
    let ghost head = lines_view(lines@);
    let mut t: usize = 0;
    while t < target.len()
        invariant
            t <= target.len(),
            sv == named_view(source@),
            tv == named_view(target@),
            matched@ == st.matched,
            matched@.len() == target.len(),
            lines_view(lines@) == head + diff_tail(sv, tv, st.matched, t as int),
        decreases target.len() - t,
    {
        let ghost before = lines_view(lines@);
        if !matched[t] && find_key(source, &target[t].key).is_none() {
            lines.push(MetadataDiffLine { kind: MetadataDiffKind::Added, text: target[t].text.clone() });
            assert(lines_view(lines@) == before.push(line(MetadataDiffKind::Added, target@[t as int].text@)));
        }
        t = t + 1;
    }
    lines
}


// ---------------------------------------------------------------------------------------------
// Whole-table diff
// ---------------------------------------------------------------------------------------------

/// Objects rendered from a list of columns.
pub open spec fn spec_column_entries(v: Seq<SpecColumn>) -> Seq<SpecNamed> {
    v.map_values(|c: SpecColumn| spec_column_entry(c))
}

/// Objects rendered from a list of indexes.
pub open spec fn spec_index_entries(v: Seq<SpecIndex>) -> Seq<SpecNamed> {
    v.map_values(|c: SpecIndex| spec_index_entry(c))
}

/// Objects rendered from a list of foreign keys.
pub open spec fn spec_fk_entries(v: Seq<SpecForeignKey>) -> Seq<SpecNamed> {
    v.map_values(|c: SpecForeignKey| spec_foreign_key_entry(c))
}

/// The three sections of a table diff: columns, indexes, foreign keys.
pub open spec fn spec_build_table_diff(source: SpecTable, target: SpecTable) -> Seq<SpecDiffSection> {
    seq![
        SpecDiffSection {
            title: "列"@,
            lines: spec_diff_named(
                spec_column_entries(source.columns),
                spec_column_entries(target.columns),
            ),
        },
        SpecDiffSection {
            title: "索引"@,
            lines: spec_diff_named(
                spec_index_entries(source.indexes),
                spec_index_entries(target.indexes),
            ),
        },
        SpecDiffSection {
            title: "外键"@,
            lines: spec_diff_named(
                spec_fk_entries(source.foreign_keys),
                spec_fk_entries(target.foreign_keys),
            ),
        },
    ]
}

fn column_entries(v: &[Column]) -> (r: Vec<NamedMetadata>)
    ensures
        named_view(r@) == spec_column_entries(columns_view(v@)),
{
    let mut out: Vec<NamedMetadata> = Vec::new();
    let mut i: usize = 0;
    while i < v.len()
        invariant
            i <= v.len(),
            named_view(out@) == spec_column_entries(columns_view(v@.take(i as int))),
        decreases v.len() - i,
    {
        let ghost before = named_view(out@);
        let e = column_entry(&v[i]);
        out.push(e);
        assert(named_view(out@) == before.push(e@));
        assert(columns_view(v@.take(i + 1)) == columns_view(v@.take(i as int)).push(v@[i as int]@));
        i = i + 1;
    }
    assert(v@.take(v.len() as int) == v@);
    out
}

fn index_entries(v: &[Index]) -> (r: Vec<NamedMetadata>)
    ensures
        named_view(r@) == spec_index_entries(indexes_view(v@)),
{
    let mut out: Vec<NamedMetadata> = Vec::new();
    let mut i: usize = 0;
    while i < v.len()
        invariant
            i <= v.len(),
            named_view(out@) == spec_index_entries(indexes_view(v@.take(i as int))),
        decreases v.len() - i,
    {
        let ghost before = named_view(out@);
        let e = index_entry(&v[i]);
        out.push(e);
        assert(named_view(out@) == before.push(e@));
        assert(indexes_view(v@.take(i + 1)) == indexes_view(v@.take(i as int)).push(v@[i as int]@));
        i = i + 1;
    }
    assert(v@.take(v.len() as int) == v@);
    out
}

fn fk_entries(v: &[ForeignKey]) -> (r: Vec<NamedMetadata>)
    ensures
        named_view(r@) == spec_fk_entries(foreign_keys_view(v@)),
{
    let mut out: Vec<NamedMetadata> = Vec::new();
    let mut i: usize = 0;
    while i < v.len()
        invariant
            i <= v.len(),
            named_view(out@) == spec_fk_entries(foreign_keys_view(v@.take(i as int))),
        decreases v.len() - i,
    {
        let ghost before = named_view(out@);
        let e = foreign_key_entry(&v[i]);
        out.push(e);
        assert(named_view(out@) == before.push(e@));
        assert(foreign_keys_view(v@.take(i + 1)) == foreign_keys_view(v@.take(i as int)).push(
            v@[i as int]@,
        ));
        i = i + 1;
    }
    assert(v@.take(v.len() as int) == v@);
    out
}

/// Compares two tables by object name; a changed object shows as removed, then added.
pub fn build_table_diff(source: &TableMetadata, target: &TableMetadata) -> (r: Vec<
    MetadataDiffSection,
>)
    ensures
        sections_view(r@) == spec_build_table_diff(source@, target@),
{
    let sc = column_entries(source.columns.as_slice());
    let tc = column_entries(target.columns.as_slice());
    let si = index_entries(source.indexes.as_slice());
    let ti = index_entries(target.indexes.as_slice());
    let sf = fk_entries(source.foreign_keys.as_slice());
    let tf = fk_entries(target.foreign_keys.as_slice());
    let mut out: Vec<MetadataDiffSection> = Vec::new();
    out.push(
        MetadataDiffSection {
            title: String::from_str("列"),
            lines: diff_named(sc.as_slice(), tc.as_slice()),
        },
    );
    out.push(
        MetadataDiffSection {
            title: String::from_str("索引"),
            lines: diff_named(si.as_slice(), ti.as_slice()),
        },
    );
    out.push(
        MetadataDiffSection {
            title: String::from_str("外键"),
            lines: diff_named(sf.as_slice(), tf.as_slice()),
        },
    );
    assert(sections_view(out@) == seq![out@[0]@, out@[1]@, out@[2]@]);
    out
}

/// Text of the lines of one section.
pub open spec fn spec_lines_text(lines: Seq<SpecDiffLine>) -> Seq<char>
    decreases lines.len(),
{
    if lines.len() == 0 {
        Seq::empty()
    } else {
        spec_lines_text(lines.drop_last()) + spec_diff_prefix(lines.last().kind) + " "@
            + lines.last().text + "\n"@
    }
}

/// Text of one section: its title, then its lines or a placeholder.
pub open spec fn spec_section_text(section: SpecDiffSection) -> Seq<char> {
    section.title + "\n"@ + if section.lines.len() == 0 {
        "  （无对象）\n"@
    } else {
        spec_lines_text(section.lines)
    }
}

/// Text of all sections, separated by blank lines.
pub open spec fn spec_sections_text(sections: Seq<SpecDiffSection>) -> Seq<char>
    decreases sections.len(),
{
    if sections.len() == 0 {
        Seq::empty()
    } else {
        spec_sections_text(sections.drop_last()) + (if sections.len() > 1 {
            "\n"@
        } else {
            Seq::empty()
        }) + spec_section_text(sections.last())
    }
}

/// `s` without its trailing line feeds.
pub open spec fn spec_trim_end_newlines(s: Seq<char>) -> Seq<char>
    decreases s.len(),
{
    if s.len() > 0 && s.last() == '\n' {
        spec_trim_end_newlines(s.drop_last())
    } else {
        s
    }
}

/// Copyable unified diff text: grouped by section, each line with its `+`/`-`/space prefix.
pub open spec fn spec_format_table_diff(sections: Seq<SpecDiffSection>) -> Seq<char> {
    spec_trim_end_newlines(spec_sections_text(sections))
}

fn trim_end_newlines(s: &str) -> (r: String)
    ensures
        r@ == spec_trim_end_newlines(s@),
{
    let cs = crate::text::chars_of(s);
    let mut n = cs.len();
    assert(cs@.take(cs.len() as int) == cs@);
    while n > 0 && cs[n - 1] == '\n'
        invariant
            n <= cs.len(),
            cs@ == s@,
            spec_trim_end_newlines(s@) == spec_trim_end_newlines(cs@.take(n as int)),
        decreases n,
    {
        assert(cs@.take(n as int).drop_last() == cs@.take(n - 1));
        n = n - 1;
    }
    assert(cs@.take(cs.len() as int) == cs@);
    let mut out: Vec<char> = Vec::new();
    let mut i: usize = 0;
    while i < n
        invariant
            i <= n <= cs.len(),
            out@ == cs@.take(i as int),
        decreases n - i,
    {
        out.push(cs[i]);
        assert(cs@.take(i + 1) == cs@.take(i as int).push(cs@[i as int]));
        i = i + 1;
    }
    crate::text::string_from_chars(out.as_slice())
}

/// Formats sections as copyable diff text.
pub fn format_table_diff(sections: &[MetadataDiffSection]) -> (r: String)
    ensures
        r@ == spec_format_table_diff(sections_view(sections@)),
{
    let ghost sv = sections_view(sections@);
    let mut output = String::new();
    let mut i: usize = 0;
    while i < sections.len()
        invariant
            i <= sections.len(),
            sv == sections_view(sections@),
            output@ == spec_sections_text(sv.take(i as int)),
        decreases sections.len() - i,
    {
        let section = &sections[i];
        if i > 0 {
            push_str(&mut output, "\n");
        }
        push_str(&mut output, section.title.as_str());
        push_str(&mut output, "\n");
        if section.lines.len() == 0 {
            push_str(&mut output, "  （无对象）\n");
        } else {
            let ghost base = output@;
            let ghost lv = lines_view(section.lines@);
            let mut j: usize = 0;
            while j < section.lines.len()
                invariant
                    j <= section.lines.len(),
                    lv == lines_view(section.lines@),
                    output@ == base + spec_lines_text(lv.take(j as int)),
                decreases section.lines.len() - j,
            {
                let l = &section.lines[j];
                push_str(&mut output, l.kind.prefix());
                push_str(&mut output, " ");
                push_str(&mut output, l.text.as_str());
                push_str(&mut output, "\n");
                assert(lv.take(j + 1).drop_last() == lv.take(j as int));
                j = j + 1;
            }
            assert(lv.take(section.lines.len() as int) == lv);
        }
        assert(sv.take(i + 1).drop_last() == sv.take(i as int));
        i = i + 1;
    }
    assert(sv.take(sections.len() as int) == sv);
    trim_end_newlines(output.as_str())
}


/// The note shown in place of a section's lines when it has none.
pub fn section_note(section: &MetadataDiffSection) -> (r: Option<&'static str>)
    ensures
        section.lines@.len() == 0 ==> r == Some("无差异"),
        section.lines@.len() > 0 ==> r is None,
{
    if section.lines.len() == 0 {
        Some("无差异")
    } else {
        None
    }
}

// ---------------------------------------------------------------------------------------------
// Laws
// ---------------------------------------------------------------------------------------------

/// No two objects share a key.
pub open spec fn spec_keys_distinct(v: Seq<SpecNamed>) -> bool {
    forall|i: int, j: int| 0 <= i < j < v.len() ==> (#[trigger] v[i]).key != (#[trigger] v[j]).key
}

/// The lines of `v` compared with itself: each object once, as context.
pub open spec fn spec_context_lines(v: Seq<SpecNamed>, n: int) -> Seq<SpecDiffLine> {
    Seq::new(n as nat, |k: int| line(MetadataDiffKind::Context, v[k].text))
}

proof fn lemma_find_own_key(v: Seq<SpecNamed>, i: int, j: int)
    requires
        spec_keys_distinct(v),
        0 <= j <= i < v.len(),
    ensures
        find_key_from(v, v[i].key, j) == Some(i),
    decreases i - j,
{
    if j < i {
        assert(v[j].key != v[i].key);
        lemma_find_own_key(v, i, j + 1);
    }
}

proof fn lemma_self_prefix(v: Seq<SpecNamed>, n: int)
    requires
        spec_keys_distinct(v),
        0 <= n <= v.len(),
    ensures
        diff_prefix(v, v, n).lines == spec_context_lines(v, n),
        diff_prefix(v, v, n).matched == Seq::new(v.len(), |i: int| false),
    decreases n,
{
    if n > 0 {
        lemma_self_prefix(v, n - 1);
        lemma_find_own_key(v, n - 1, 0);
        assert(spec_context_lines(v, n) =~= spec_context_lines(v, n - 1).push(
            line(MetadataDiffKind::Context, v[n - 1].text),
        ));
    } else {
        assert(spec_context_lines(v, 0) =~= Seq::<SpecDiffLine>::empty());
    }
}

proof fn lemma_self_tail(v: Seq<SpecNamed>, matched: Seq<bool>, n: int)
    requires
        0 <= n <= v.len(),
    ensures
        diff_tail(v, v, matched, n) == Seq::<SpecDiffLine>::empty(),
    decreases n,
{
    if n > 0 {
        lemma_self_tail(v, matched, n - 1);
        assert(key_in(v, v[n - 1].key));
    }
}

/// Objects with distinct keys compared with themselves give one context line each, in
/// order, and nothing added, removed or offered as a rename.
pub proof fn lemma_self_diff_is_context(v: Seq<SpecNamed>)
    requires
        spec_keys_distinct(v),
    ensures
        spec_diff_named(v, v) == spec_context_lines(v, v.len() as int),
{
    lemma_self_prefix(v, v.len() as int);
    let st = diff_prefix(v, v, v.len() as int);
    lemma_self_tail(v, st.matched, v.len() as int);
    assert(spec_diff_named(v, v) =~= spec_context_lines(v, v.len() as int));
}

/// A table compared with itself shows no difference: every line of every section is
/// context, provided no two columns, indexes or foreign keys share a name up to ASCII case.
pub proof fn lemma_table_self_diff_has_no_changes(t: SpecTable)
    requires
        spec_keys_distinct(spec_column_entries(t.columns)),
        spec_keys_distinct(spec_index_entries(t.indexes)),
        spec_keys_distinct(spec_fk_entries(t.foreign_keys)),
    ensures
        forall|s: int, k: int|
            0 <= s < spec_build_table_diff(t, t).len() && 0 <= k < spec_build_table_diff(t, t)[s].lines.len()
                ==> (#[trigger] spec_build_table_diff(t, t)[s].lines[k]).kind == MetadataDiffKind::Context,
{
    lemma_self_diff_is_context(spec_column_entries(t.columns));
    lemma_self_diff_is_context(spec_index_entries(t.indexes));
    lemma_self_diff_is_context(spec_fk_entries(t.foreign_keys));
}

// ---------------------------------------------------------------------------------------------
// How many lines a diff has
// ---------------------------------------------------------------------------------------------

/// Number of the first `n` source objects whose first same-key target object has other text.
pub open spec fn spec_changed_count(source: Seq<SpecNamed>, target: Seq<SpecNamed>, n: int) -> nat
    decreases n,
{
    if n <= 0 {
        0
    } else {
        spec_changed_count(source, target, n - 1) + match find_key_from(target, source[n - 1].key, 0) {
            Some(i) => if target[i].text != source[n - 1].text {
                1nat
            } else {
                0nat
            },
            None => 0nat,
        }
    }
}

/// Number of the first `n` source objects whose first same-key target object has the same text.
pub open spec fn spec_unchanged_count(source: Seq<SpecNamed>, target: Seq<SpecNamed>, n: int) -> nat
    decreases n,
{
    if n <= 0 {
        0
    } else {
        spec_unchanged_count(source, target, n - 1) + match find_key_from(target, source[n - 1].key, 0) {
            Some(i) => if target[i].text == source[n - 1].text {
                1nat
            } else {
                0nat
            },
            None => 0nat,
        }
    }
}

/// Number of the first `m` target objects whose key no source object has.
pub open spec fn spec_new_count(source: Seq<SpecNamed>, target: Seq<SpecNamed>, m: int) -> nat
    decreases m,
{
    if m <= 0 {
        0
    } else {
        spec_new_count(source, target, m - 1) + if !key_in(source, target[m - 1].key) {
            1nat
        } else {
            0nat
        }
    }
}

/// Number of lines of `kind`.
pub open spec fn spec_kind_count(lines: Seq<SpecDiffLine>, kind: MetadataDiffKind) -> nat
    decreases lines.len(),
{
    if lines.len() == 0 {
        0
    } else {
        spec_kind_count(lines.drop_last(), kind) + if lines.last().kind == kind {
            1nat
        } else {
            0nat
        }
    }
}

/// Number of `true` among the first `n` flags.
pub open spec fn spec_true_count(flags: Seq<bool>, n: int) -> nat
    decreases n,
{
    if n <= 0 {
        0
    } else {
        spec_true_count(flags, n - 1) + if flags[n - 1] {
            1nat
        } else {
            0nat
        }
    }
}

proof fn lemma_kind_count_short(a: SpecDiffLine, b: SpecDiffLine, kind: MetadataDiffKind)
    ensures
        spec_kind_count(seq![a], kind) == if a.kind == kind {
            1nat
        } else {
            0nat
        },
        spec_kind_count(seq![a, b], kind) == (if a.kind == kind {
            1nat
        } else {
            0nat
        }) + (if b.kind == kind {
            1nat
        } else {
            0nat
        }),
{
    assert(seq![a].drop_last() =~= Seq::<SpecDiffLine>::empty());
    assert(seq![a, b].drop_last() =~= seq![a]);
    assert(spec_kind_count(Seq::<SpecDiffLine>::empty(), kind) == 0);
    assert(spec_kind_count(seq![a], kind) == spec_kind_count(Seq::<SpecDiffLine>::empty(), kind) + if a.kind == kind {
        1nat
    } else {
        0nat
    });
}

proof fn lemma_kind_count_concat(a: Seq<SpecDiffLine>, b: Seq<SpecDiffLine>, kind: MetadataDiffKind)
    ensures
        spec_kind_count(a + b, kind) == spec_kind_count(a, kind) + spec_kind_count(b, kind),
    decreases b.len(),
{
    if b.len() == 0 {
        assert(a + b =~= a);
    } else {
        lemma_kind_count_concat(a, b.drop_last(), kind);
        assert((a + b).drop_last() =~= a + b.drop_last());
        assert((a + b).last() == b.last());
    }
}

proof fn lemma_true_count_set(flags: Seq<bool>, t: int, n: int)
    requires
        0 <= t < flags.len(),
        !flags[t],
        0 <= n <= flags.len(),
    ensures
        spec_true_count(flags.update(t, true), n) == spec_true_count(flags, n) + if t < n {
            1nat
        } else {
            0nat
        },
    decreases n,
{
    if n > 0 {
        lemma_true_count_set(flags, t, n - 1);
    }
}

proof fn lemma_find_key_found(v: Seq<SpecNamed>, key: Seq<char>, j: int)
    requires
        0 <= j,
    ensures
        find_key_from(v, key, j) matches Some(i) ==> j <= i < v.len() && v[i].key == key,
        find_key_from(v, key, j) is None ==> forall|k: int| j <= k < v.len() ==> (#[trigger] v[k]).key != key,
    decreases v.len() - j,
{
    if j < v.len() && v[j].key != key {
        lemma_find_key_found(v, key, j + 1);
    }
}

proof fn lemma_candidate_exists(
    source: Seq<SpecNamed>,
    target: Seq<SpecNamed>,
    matched: Seq<bool>,
    old: SpecNamed,
    n: int,
)
    requires
        count_target_candidates(source, target, matched, old, n) > 0,
    ensures
        exists|k: int| 0 <= k < n && target_candidate(source, target, matched, old, k),
    decreases n,
{
    if n > 0 && !target_candidate(source, target, matched, old, n - 1) {
        lemma_candidate_exists(source, target, matched, old, n - 1);
    }
}

proof fn lemma_first_candidate(
    source: Seq<SpecNamed>,
    target: Seq<SpecNamed>,
    matched: Seq<bool>,
    old: SpecNamed,
    i: int,
)
    requires
        0 <= i,
        exists|k: int| i <= k < target.len() && target_candidate(source, target, matched, old, k),
    ensures
        first_target_candidate_from(source, target, matched, old, i) matches Some(k) && i <= k < target.len()
            && target_candidate(source, target, matched, old, k),
    decreases target.len() - i,
{
    if i < target.len() && !target_candidate(source, target, matched, old, i) {
        let k = choose|k: int| i <= k < target.len() && target_candidate(source, target, matched, old, k);
        assert(k != i);
        lemma_first_candidate(source, target, matched, old, i + 1);
    }
}

proof fn lemma_prefix_counts(source: Seq<SpecNamed>, target: Seq<SpecNamed>, n: int)
    requires
        0 <= n <= source.len(),
    ensures
        ({
            let st = diff_prefix(source, target, n);
            &&& st.matched.len() == target.len()
            &&& forall|t: int| 0 <= t < target.len() && #[trigger] st.matched[t] ==> !key_in(source, target[t].key)
            &&& st.lines.len() == n + spec_changed_count(source, target, n) + spec_true_count(
                st.matched,
                target.len() as int,
            )
            &&& spec_kind_count(st.lines, MetadataDiffKind::Context) == spec_unchanged_count(source, target, n)
        }),
    decreases n,
{
    let tl = target.len() as int;
    if n == 0 {
        let st = diff_prefix(source, target, 0);
        assert(spec_true_count(st.matched, tl) == 0) by {
            lemma_no_true(st.matched, tl);
        }
    } else {
        lemma_prefix_counts(source, target, n - 1);
        let prev = diff_prefix(source, target, n - 1);
        let old = source[n - 1];
        let st = diff_prefix(source, target, n);
        lemma_find_key_found(target, old.key, 0);
        match find_key_from(target, old.key, 0) {
            Some(i) => {
                if target[i].text == old.text {
                    lemma_kind_count_concat(prev.lines, seq![line(MetadataDiffKind::Context, old.text)], MetadataDiffKind::Context);
                    assert(prev.lines.push(line(MetadataDiffKind::Context, old.text)) =~= prev.lines + seq![line(MetadataDiffKind::Context, old.text)]);
                    lemma_kind_count_short(line(MetadataDiffKind::Context, old.text), line(MetadataDiffKind::Context, old.text), MetadataDiffKind::Context);
                } else {
                    let two = seq![line(MetadataDiffKind::Removed, old.text), line(MetadataDiffKind::Added, target[i].text)];
                    lemma_kind_count_concat(prev.lines, two, MetadataDiffKind::Context);
                    lemma_kind_count_short(two[0], two[1], MetadataDiffKind::Context);
                    assert(two =~= seq![two[0], two[1]]);
                }
            },
            None => {
                assert(!key_in(target, old.key));
                if count_source_candidates(source, target, old.rename_signature, source.len() as int) == 1
                    && count_target_candidates(source, target, prev.matched, old, tl) == 1 {
                    lemma_candidate_exists(source, target, prev.matched, old, tl);
                    lemma_first_candidate(source, target, prev.matched, old, 0);
                    let t = first_target_candidate_from(source, target, prev.matched, old, 0).unwrap();
                    lemma_true_count_set(prev.matched, t, tl);
                    let two = seq![
                        line(MetadataDiffKind::Removed, old.text + " [重命名候选："@ + target[t].display_name + "]"@),
                        line(MetadataDiffKind::Added, target[t].text + " [重命名候选："@ + old.display_name + "]"@),
                    ];
                    lemma_kind_count_concat(prev.lines, two, MetadataDiffKind::Context);
                    lemma_kind_count_short(two[0], two[1], MetadataDiffKind::Context);
                    assert(two =~= seq![two[0], two[1]]);
                    assert forall|u: int| 0 <= u < tl && #[trigger] st.matched[u] implies !key_in(source, target[u].key) by {
                        if u != t {
                            assert(prev.matched[u]);
                        }
                    }
                } else {
                    let one = seq![line(MetadataDiffKind::Removed, old.text)];
                    assert(prev.lines.push(line(MetadataDiffKind::Removed, old.text)) =~= prev.lines + one);
                    lemma_kind_count_concat(prev.lines, one, MetadataDiffKind::Context);
                    lemma_kind_count_short(one[0], one[0], MetadataDiffKind::Context);
                    assert(one =~= seq![one[0]]);
                }
            },
        }
    }
}

proof fn lemma_no_true(flags: Seq<bool>, n: int)
    requires
        n <= flags.len(),
        forall|i: int| 0 <= i < flags.len() ==> !(#[trigger] flags[i]),
    ensures
        spec_true_count(flags, n) == 0,
    decreases n,
{
    if n > 0 {
        lemma_no_true(flags, n - 1);
    }
}

proof fn lemma_tail_counts(source: Seq<SpecNamed>, target: Seq<SpecNamed>, matched: Seq<bool>, m: int)
    requires
        0 <= m <= target.len(),
        matched.len() == target.len(),
        forall|t: int| 0 <= t < target.len() && #[trigger] matched[t] ==> !key_in(source, target[t].key),
    ensures
        diff_tail(source, target, matched, m).len() + spec_true_count(matched, m) == spec_new_count(source, target, m),
        spec_kind_count(diff_tail(source, target, matched, m), MetadataDiffKind::Context) == 0,
    decreases m,
{
    if m > 0 {
        lemma_tail_counts(source, target, matched, m - 1);
        let prev = diff_tail(source, target, matched, m - 1);
        if !matched[m - 1] && !key_in(source, target[m - 1].key) {
            let one = seq![line(MetadataDiffKind::Added, target[m - 1].text)];
            lemma_kind_count_concat(prev, one, MetadataDiffKind::Context);
            lemma_kind_count_short(one[0], one[0], MetadataDiffKind::Context);
            assert(one =~= seq![one[0]]);
        } else {
            assert(prev + Seq::<SpecDiffLine>::empty() =~= prev);
        }
    }
}

/// How many lines a diff has: one per source object, one more for each object whose text
/// changed, and one for each target object whose key no source object has (a rename pairs
/// such a target object with a removed source object and reports it once). The context
/// lines are exactly the objects whose first same-key target object has the same text.
pub proof fn lemma_diff_named_line_counts(source: Seq<SpecNamed>, target: Seq<SpecNamed>)
    ensures
        spec_diff_named(source, target).len() == source.len() + spec_changed_count(
            source,
            target,
            source.len() as int,
        ) + spec_new_count(source, target, target.len() as int),
        spec_kind_count(spec_diff_named(source, target), MetadataDiffKind::Context) == spec_unchanged_count(
            source,
            target,
            source.len() as int,
        ),
{
    let st = diff_prefix(source, target, source.len() as int);
    lemma_prefix_counts(source, target, source.len() as int);
    lemma_tail_counts(source, target, st.matched, target.len() as int);
    lemma_kind_count_concat(st.lines, diff_tail(source, target, st.matched, target.len() as int), MetadataDiffKind::Context);
}

/// The lines the `k`-th source object adds to a diff.
pub open spec fn spec_object_lines(source: Seq<SpecNamed>, target: Seq<SpecNamed>, k: int) -> Seq<SpecDiffLine> {
    let before = diff_prefix(source, target, k).lines;
    diff_prefix(source, target, k + 1).lines.skip(before.len() as int)
}

/// What each source object contributes to a diff, in source order, before the added target
/// objects: an object whose first same-key target object has the same text gives one
/// context line; one with other text gives its removed line and the target's added line; one
/// without a same-key target object gives a removed line, followed by an added line when it
/// was paired with a renamed target object. The lines after the last source object's are all
/// added lines.
pub proof fn lemma_diff_named_structure(source: Seq<SpecNamed>, target: Seq<SpecNamed>)
    ensures
        forall|k: int|
            0 <= k < source.len() ==> {
                let before = diff_prefix(source, target, k).lines;
                let lines = #[trigger] spec_object_lines(source, target, k);
                &&& diff_prefix(source, target, k + 1).lines == before + lines
                &&& match find_key_from(target, source[k].key, 0) {
                    Some(i) => if target[i].text == source[k].text {
                        lines == seq![line(MetadataDiffKind::Context, source[k].text)]
                    } else {
                        lines == seq![
                            line(MetadataDiffKind::Removed, source[k].text),
                            line(MetadataDiffKind::Added, target[i].text),
                        ]
                    },
                    None => (lines.len() == 1 || lines.len() == 2) && lines[0].kind == MetadataDiffKind::Removed
                        && (lines.len() == 2 ==> lines[1].kind == MetadataDiffKind::Added),
                }
            },
        ({
            let st = diff_prefix(source, target, source.len() as int);
            let tail = spec_diff_named(source, target).skip(st.lines.len() as int);
            &&& spec_diff_named(source, target) == st.lines + tail
            &&& forall|j: int| 0 <= j < tail.len() ==> (#[trigger] tail[j]).kind == MetadataDiffKind::Added
        }),
{
    assert forall|k: int| 0 <= k < source.len() implies {
        let before = diff_prefix(source, target, k).lines;
        let lines = #[trigger] spec_object_lines(source, target, k);
        &&& diff_prefix(source, target, k + 1).lines == before + lines
        &&& match find_key_from(target, source[k].key, 0) {
            Some(i) => if target[i].text == source[k].text {
                lines == seq![line(MetadataDiffKind::Context, source[k].text)]
            } else {
                lines == seq![
                    line(MetadataDiffKind::Removed, source[k].text),
                    line(MetadataDiffKind::Added, target[i].text),
                ]
            },
            None => (lines.len() == 1 || lines.len() == 2) && lines[0].kind == MetadataDiffKind::Removed
                && (lines.len() == 2 ==> lines[1].kind == MetadataDiffKind::Added),
        }
    } by {
        let prev = diff_prefix(source, target, k);
        let next = diff_prefix(source, target, k + 1);
        let old = source[k];
        let before = prev.lines;
        let lines = spec_object_lines(source, target, k);
        match find_key_from(target, old.key, 0) {
            Some(i) => {
                if target[i].text == old.text {
                    let add = seq![line(MetadataDiffKind::Context, old.text)];
                    assert(next.lines =~= before + add);
                    assert(lines =~= add);
                } else {
                    let add = seq![line(MetadataDiffKind::Removed, old.text), line(MetadataDiffKind::Added, target[i].text)];
                    assert(next.lines =~= before + add);
                    assert(lines =~= add);
                }
            },
            None => {
                if count_source_candidates(source, target, old.rename_signature, source.len() as int) == 1
                    && count_target_candidates(source, target, prev.matched, old, target.len() as int) == 1 {
                    let t = first_target_candidate_from(source, target, prev.matched, old, 0).unwrap();
                    let add = seq![
                        line(MetadataDiffKind::Removed, old.text + " [重命名候选："@ + target[t].display_name + "]"@),
                        line(MetadataDiffKind::Added, target[t].text + " [重命名候选："@ + old.display_name + "]"@),
                    ];
                    assert(next.lines =~= before + add);
                    assert(lines =~= add);
                } else {
                    let add = seq![line(MetadataDiffKind::Removed, old.text)];
                    assert(next.lines =~= before + add);
                    assert(lines =~= add);
                }
            },
        }
    }
    let st = diff_prefix(source, target, source.len() as int);
    let tail_spec = diff_tail(source, target, st.matched, target.len() as int);
    assert(spec_diff_named(source, target).skip(st.lines.len() as int) =~= tail_spec);
    lemma_tail_all_added(source, target, st.matched, target.len() as int);
}

proof fn lemma_tail_all_added(source: Seq<SpecNamed>, target: Seq<SpecNamed>, matched: Seq<bool>, m: int)
    ensures
        forall|j: int| 0 <= j < diff_tail(source, target, matched, m).len() ==> (#[trigger] diff_tail(
            source,
            target,
            matched,
            m,
        )[j]).kind == MetadataDiffKind::Added,
    decreases m,
{
    if m > 0 {
        lemma_tail_all_added(source, target, matched, m - 1);
        let prev = diff_tail(source, target, matched, m - 1);
        let cur = diff_tail(source, target, matched, m);
        assert forall|j: int| 0 <= j < cur.len() implies (#[trigger] cur[j]).kind == MetadataDiffKind::Added by {
            if j < prev.len() {
                assert(cur[j] == prev[j]);
            }
        }
    }
}

/// `tail` holds one added line per index of `idx`, in order: the text of that target object.
/// The indices ascend, lie below `m`, and are exactly the target objects below `m` whose key
/// no source object has and which are not marked in `partners`.
pub open spec fn spec_added_in_order(
    tail: Seq<SpecDiffLine>,
    source: Seq<SpecNamed>,
    target: Seq<SpecNamed>,
    partners: Seq<bool>,
    idx: Seq<int>,
    m: int,
) -> bool {
    &&& idx.len() == tail.len()
    &&& forall|j: int| 0 <= j < idx.len() ==> 0 <= #[trigger] idx[j] < m && tail[j] == line(MetadataDiffKind::Added, target[idx[j]].text)
    &&& forall|a: int, b: int| 0 <= a < b < idx.len() ==> idx[a] < idx[b]
    &&& forall|t: int| 0 <= t < m ==> (idx.contains(t) <==> (!partners[t] && !key_in(source, target[t].key)))
}

/// Whether the `k`-th source object, which has no same-key target object, was paired with
/// target object `t` as a rename: its two lines name the pair.
pub open spec fn spec_renamed_to(source: Seq<SpecNamed>, target: Seq<SpecNamed>, k: int, t: int) -> bool {
    let lines = spec_object_lines(source, target, k);
    &&& 0 <= k < source.len()
    &&& !key_in(target, source[k].key)
    &&& lines.len() == 2
    &&& lines[1] == line(
        MetadataDiffKind::Added,
        target[t].text + " [重命名候选："@ + source[k].display_name + "]"@,
    )
}

proof fn lemma_tail_in_order(source: Seq<SpecNamed>, target: Seq<SpecNamed>, matched: Seq<bool>, m: int) -> (idx:
    Seq<int>)
    requires
        0 <= m <= target.len(),
    ensures
        spec_added_in_order(diff_tail(source, target, matched, m), source, target, matched, idx, m),
    decreases m,
{
    if m <= 0 {
        Seq::empty()
    } else {
        let prev_idx = lemma_tail_in_order(source, target, matched, m - 1);
        let prev = diff_tail(source, target, matched, m - 1);
        let tail = diff_tail(source, target, matched, m);
        if !matched[m - 1] && !key_in(source, target[m - 1].key) {
            let idx = prev_idx.push(m - 1);
            assert forall|j: int| 0 <= j < idx.len() implies 0 <= #[trigger] idx[j] < m && tail[j] == line(
                MetadataDiffKind::Added,
                target[idx[j]].text,
            ) by {
                if j < prev_idx.len() {
                    assert(idx[j] == prev_idx[j]);
                    assert(tail[j] == prev[j]);
                }
            }
            assert forall|a: int, b: int| 0 <= a < b < idx.len() implies idx[a] < idx[b] by {
                if b < prev_idx.len() {
                    assert(idx[a] == prev_idx[a] && idx[b] == prev_idx[b]);
                } else {
                    assert(idx[a] == prev_idx[a]);
                }
            }
            assert forall|t: int| 0 <= t < m implies (idx.contains(t) <==> (!matched[t] && !key_in(
                source,
                target[t].key,
            ))) by {
                if t < m - 1 {
                    if idx.contains(t) {
                        let j = choose|j: int| 0 <= j < idx.len() && idx[j] == t;
                        if j < prev_idx.len() {
                            assert(prev_idx[j] == t);
                        }
                    }
                    if prev_idx.contains(t) {
                        let j = choose|j: int| 0 <= j < prev_idx.len() && prev_idx[j] == t;
                        assert(idx[j] == t);
                    }
                } else {
                    assert(idx[idx.len() - 1] == t);
                }
            }
            idx
        } else {
            assert(tail =~= prev);
            assert forall|t: int| 0 <= t < m implies (prev_idx.contains(t) <==> (!matched[t] && !key_in(
                source,
                target[t].key,
            ))) by {
                if t == m - 1 && prev_idx.contains(t) {
                    let j = choose|j: int| 0 <= j < prev_idx.len() && prev_idx[j] == t;
                }
            }
            prev_idx
        }
    }
}

proof fn lemma_partners_renamed(source: Seq<SpecNamed>, target: Seq<SpecNamed>, n: int)
    requires
        0 <= n <= source.len(),
    ensures
        ({
            let st = diff_prefix(source, target, n);
            &&& st.matched.len() == target.len()
            &&& forall|t: int| 0 <= t < target.len() && #[trigger] st.matched[t] ==> exists|k: int|
                0 <= k < n && spec_renamed_to(source, target, k, t)
        }),
    decreases n,
{
    lemma_prefix_counts(source, target, n);
    if n == 0 {
        let st = diff_prefix(source, target, 0);
        assert forall|t: int| 0 <= t < target.len() implies !#[trigger] st.matched[t] by {}
    }
    if n > 0 {
        lemma_partners_renamed(source, target, n - 1);
        lemma_prefix_counts(source, target, n - 1);
        lemma_diff_named_structure(source, target);
        let prev = diff_prefix(source, target, n - 1);
        let st = diff_prefix(source, target, n);
        let old = source[n - 1];
        let k = n - 1;
        lemma_find_key_found(target, old.key, 0);
        assert forall|t: int| 0 <= t < target.len() && #[trigger] st.matched[t] implies exists|j: int|
            0 <= j < n && spec_renamed_to(source, target, j, t) by {
            if prev.matched[t] {
                let j = choose|j: int| 0 <= j < n - 1 && spec_renamed_to(source, target, j, t);
                assert(spec_renamed_to(source, target, j, t));
            } else {
                // Only a rename step marks a new partner.
                match find_key_from(target, old.key, 0) {
                    Some(i) => {
                        assert(st.matched == prev.matched);
                    },
                    None => {
                        assert(!key_in(target, old.key));
                        if count_source_candidates(source, target, old.rename_signature, source.len() as int) == 1
                            && count_target_candidates(source, target, prev.matched, old, target.len() as int) == 1 {
                            lemma_candidate_exists(source, target, prev.matched, old, target.len() as int);
                            lemma_first_candidate(source, target, prev.matched, old, 0);
                            let u = first_target_candidate_from(source, target, prev.matched, old, 0).unwrap();
                            assert(st.matched == prev.matched.update(u, true));
                            assert(0 <= u < prev.matched.len());
                            assert(t == u);
                            let add = seq![
                                line(MetadataDiffKind::Removed, old.text + " [重命名候选："@ + target[u].display_name + "]"@),
                                line(MetadataDiffKind::Added, target[u].text + " [重命名候选："@ + old.display_name + "]"@),
                            ];
                            assert(st.lines =~= prev.lines + add);
                            assert(spec_object_lines(source, target, k) =~= add);
                            assert(spec_renamed_to(source, target, k, t));
                        } else {
                            assert(st.matched == prev.matched);
                        }
                    },
                }
            }
        }
    }
}

/// The lines after the source objects' lines are one added line per target object whose key
/// no source object has and which no rename took as its partner, in target order, with that
/// object's text. A target object taken as a partner was named by the rename lines of a
/// source object that has no same-key target object.
pub proof fn lemma_diff_named_added_targets(source: Seq<SpecNamed>, target: Seq<SpecNamed>)
    ensures
        ({
            let st = diff_prefix(source, target, source.len() as int);
            let tail = spec_diff_named(source, target).skip(st.lines.len() as int);
            &&& spec_diff_named(source, target) == st.lines + tail
            &&& exists|idx: Seq<int>| spec_added_in_order(tail, source, target, st.matched, idx, target.len() as int)
            &&& forall|t: int| 0 <= t < target.len() && #[trigger] st.matched[t] ==> exists|k: int|
                0 <= k < source.len() && spec_renamed_to(source, target, k, t)
        }),
{
    let st = diff_prefix(source, target, source.len() as int);
    lemma_prefix_counts(source, target, source.len() as int);
    let tail_spec = diff_tail(source, target, st.matched, target.len() as int);
    assert(spec_diff_named(source, target).skip(st.lines.len() as int) =~= tail_spec);
    let idx = lemma_tail_in_order(source, target, st.matched, target.len() as int);
    assert(spec_added_in_order(tail_spec, source, target, st.matched, idx, target.len() as int));
    lemma_partners_renamed(source, target, source.len() as int);
}

/// The kind of an index: primary key, unique, or plain.
pub open spec fn spec_index_kind(index: SpecIndex) -> int {
    if index.primary {
        0
    } else if index.unique {
        1
    } else {
        2
    }
}

/// Two indexes of different kinds (primary key, unique, plain) never read the same in a
/// diff, so a change of kind under one name shows as a removed and an added line.
pub proof fn lemma_index_kind_shows_in_diff(a: SpecIndex, b: SpecIndex)
    requires
        spec_index_kind(a) != spec_index_kind(b),
    ensures
        spec_index_entry(a).text != spec_index_entry(b).text,
        spec_index_entry(a).key == spec_index_entry(b).key ==> spec_diff_named(
            seq![spec_index_entry(a)],
            seq![spec_index_entry(b)],
        ) == seq![
            line(MetadataDiffKind::Removed, spec_index_entry(a).text),
            line(MetadataDiffKind::Added, spec_index_entry(b).text),
        ],
{
    reveal_strlit("PRIMARY");
    reveal_strlit("UNIQUE");
    reveal_strlit("INDEX");
    let ta = spec_index_entry(a).text;
    let tb = spec_index_entry(b).text;
    assert(ta[0] != tb[0]);
    let ea = spec_index_entry(a);
    let eb = spec_index_entry(b);
    if ea.key == eb.key {
        let source = seq![ea];
        let target = seq![eb];
        assert(find_key_from(target, ea.key, 0) == Some(0int));
        assert(source.drop_last() =~= Seq::<SpecNamed>::empty());
        assert(key_in(source, eb.key)) by {
            assert(source[0].key == eb.key);
        }
        let st0 = diff_prefix(source, target, 0);
        assert(st0.lines == Seq::<SpecDiffLine>::empty());
        assert(source[0] == ea);
        assert(target[0] == eb);
        assert(target[0].text != ea.text);
        let st = diff_prefix(source, target, 1);
        assert(st == diff_step(source, target, st0, ea));
        assert(st.lines == st0.lines + seq![line(MetadataDiffKind::Removed, ta), line(MetadataDiffKind::Added, tb)]);
        assert(st.lines =~= seq![line(MetadataDiffKind::Removed, ta), line(MetadataDiffKind::Added, tb)]);
        assert(key_in(source, target[0].key));
        assert(diff_tail(source, target, st.matched, 0) == Seq::<SpecDiffLine>::empty());
        assert(diff_tail(source, target, st.matched, 1) =~= Seq::<SpecDiffLine>::empty());
        assert(spec_diff_named(source, target) =~= st.lines);
    }
}

} // verus!
