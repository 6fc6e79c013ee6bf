//! Comparisons of column, index and foreign-key metadata by name and by definition.

use vstd::prelude::*;

use crate::domain::{
    Column, ForeignKey, Index, SpecColumn, SpecForeignKey, SpecIndex, columns_view,
    foreign_keys_view, indexes_view, names_view, opt_view,
};
use crate::text::{
    same_name, spec_same_name, spec_trim, trim,
};

verus! {

/// An optional index as an optional integer.
pub open spec fn opt_index(r: Option<usize>) -> Option<int> {
    match r {
        Some(i) => Some(i as int),
        None => None,
    }
}

/// First position at or after `i` whose name equals `name` up to ASCII case.
pub open spec fn find_name_from(names: Seq<Seq<char>>, name: Seq<char>, i: int) -> Option<int>
    decreases names.len() - i,
{
    if i < 0 || i >= names.len() {
        None
    } else if spec_same_name(names[i], name) {
        Some(i)
    } else {
        find_name_from(names, name, i + 1)
    }
}

/// First position whose name equals `name` up to ASCII case.
pub open spec fn find_name(names: Seq<Seq<char>>, name: Seq<char>) -> Option<int> {
    find_name_from(names, name, 0)
}

/// A found position lies in range and matches; no earlier position matches.
pub proof fn lemma_find_name_from(names: Seq<Seq<char>>, name: Seq<char>, i: int)
    requires
        0 <= i,
    ensures
        find_name_from(names, name, i) matches Some(k) ==> i <= k < names.len() && spec_same_name(
            names[k],
            name,
        ) && forall|j: int| i <= j < k ==> !spec_same_name(#[trigger] names[j], name),
        find_name_from(names, name, i) is None ==> forall|j: int|
            i <= j < names.len() ==> !spec_same_name(#[trigger] names[j], name),
    decreases names.len() - i,
{
    if i < names.len() && !spec_same_name(names[i], name) {
        lemma_find_name_from(names, name, i + 1);
    }
}

/// Names of columns.
pub open spec fn column_names(cols: Seq<SpecColumn>) -> Seq<Seq<char>> {
    cols.map_values(|c: SpecColumn| c.name)
}

/// Names of indexes.
pub open spec fn index_names(v: Seq<SpecIndex>) -> Seq<Seq<char>> {
    v.map_values(|c: SpecIndex| c.name)
}

/// Names of foreign keys.
pub open spec fn fk_names(v: Seq<SpecForeignKey>) -> Seq<Seq<char>> {
    v.map_values(|c: SpecForeignKey| c.name)
}

/// Position of the first column named `name` (ASCII case ignored).
pub open spec fn find_col(cols: Seq<SpecColumn>, name: Seq<char>) -> Option<int> {
    find_name(column_names(cols), name)
}

/// Position of the first index named `name` (ASCII case ignored).
pub open spec fn find_index(v: Seq<SpecIndex>, name: Seq<char>) -> Option<int> {
    find_name(index_names(v), name)
}

/// Position of the first foreign key named `name` (ASCII case ignored).
pub open spec fn find_fk(v: Seq<SpecForeignKey>, name: Seq<char>) -> Option<int> {
    find_name(fk_names(v), name)
}

/// Whether a column named `name` exists (ASCII case ignored).
pub open spec fn has_col(cols: Seq<SpecColumn>, name: Seq<char>) -> bool {
    find_col(cols, name) is Some
}

/// Finds the first column named `name`, ignoring ASCII case.
pub fn find_column(cols: &[Column], name: &str) -> (r: Option<usize>)
    ensures
        opt_index(r) == find_col(columns_view(cols@), name@),
        r matches Some(i) ==> i < cols.len(),
{
    let ghost names = column_names(columns_view(cols@));
    let mut i: usize = 0;
    while i < cols.len()
        invariant
            i <= cols.len(),
            names == column_names(columns_view(cols@)),
            find_name_from(names, name@, 0) == find_name_from(names, name@, i as int),
        decreases cols.len() - i,
    {
        if same_name(cols[i].name.as_str(), name) {
            return Some(i);
        }
        i = i + 1;
    }
    None
}

/// Finds the first index named `name`, ignoring ASCII case.
pub fn find_index_by_name(v: &[Index], name: &str) -> (r: Option<usize>)
    ensures
        opt_index(r) == find_index(indexes_view(v@), name@),
        r matches Some(i) ==> i < v.len(),
{
    let ghost names = index_names(indexes_view(v@));
    let mut i: usize = 0;
    while i < v.len()
        invariant
            i <= v.len(),
            names == index_names(indexes_view(v@)),
            find_name_from(names, name@, 0) == find_name_from(names, name@, i as int),
        decreases v.len() - i,
    {
        if same_name(v[i].name.as_str(), name) {
            return Some(i);
        }
        i = i + 1;
    }
    None
}

/// Finds the first foreign key named `name`, ignoring ASCII case.
pub fn find_fk_by_name(v: &[ForeignKey], name: &str) -> (r: Option<usize>)
    ensures
        opt_index(r) == find_fk(foreign_keys_view(v@), name@),
        r matches Some(i) ==> i < v.len(),
{
    let ghost names = fk_names(foreign_keys_view(v@));
    let mut i: usize = 0;
    while i < v.len()
        invariant
            i <= v.len(),
            names == fk_names(foreign_keys_view(v@)),
            find_name_from(names, name@, 0) == find_name_from(names, name@, i as int),
        decreases v.len() - i,
    {
        if same_name(v[i].name.as_str(), name) {
            return Some(i);
        }
        i = i + 1;
    }
    None
}

/// Trimmed optional text; a missing value counts as empty.
pub open spec fn spec_normalized_optional(o: Option<Seq<char>>) -> Seq<char> {
    match o {
        Some(v) => spec_trim(v),
        None => Seq::empty(),
    }
}

/// Trimmed optional text, `None` when missing or blank.
pub open spec fn spec_non_empty(o: Option<Seq<char>>) -> Option<Seq<char>> {
    match o {
        Some(v) => if spec_trim(v).len() > 0 {
            Some(spec_trim(v))
        } else {
            None
        },
        None => None,
    }
}

/// Trims optional text, a missing value giving the empty text.
pub fn normalized_optional(o: &Option<String>) -> (r: String)
    ensures
        r@ == spec_normalized_optional(opt_view(*o)),
{
    match o {
        Some(v) => trim(v.as_str()),
        None => String::new(),
    }
}

/// Trims optional text and drops it when blank.
pub fn non_empty(o: &Option<String>) -> (r: Option<String>)
    ensures
        opt_view(r) == spec_non_empty(opt_view(*o)),
{
    match o {
        Some(v) => {
            let t = trim(v.as_str());
            if !t.as_str().is_empty() {
                Some(t)
            } else {
                None
            }
        },
        None => None,
    }
}

/// Whether generation expression or storage differ.
pub open spec fn spec_generated_definition_changed(left: SpecColumn, right: SpecColumn) -> bool {
    spec_normalized_optional(left.generation_expression) != spec_normalized_optional(
        right.generation_expression,
    ) || left.generated_storage != right.generated_storage
}

/// Whether two columns have the same definition, their names aside.
pub open spec fn spec_definition_equivalent_without_name(left: SpecColumn, right: SpecColumn) -> bool {
    &&& left.raw_type == right.raw_type
    &&& left.nullable == right.nullable
    &&& spec_normalized_optional(left.default_value) == spec_normalized_optional(right.default_value)
    &&& spec_normalized_optional(left.comment) == spec_normalized_optional(right.comment)
    &&& left.is_auto_increment == right.is_auto_increment
    &&& spec_normalized_optional(left.generation_expression) == spec_normalized_optional(
        right.generation_expression,
    )
    &&& left.generated_storage == right.generated_storage
    &&& left.identity_generation == right.identity_generation
}

/// Same exact name and same definition.
pub open spec fn spec_definition_equivalent(left: SpecColumn, right: SpecColumn) -> bool {
    left.name == right.name && spec_definition_equivalent_without_name(left, right)
}

/// Positions agree, or one of them is unknown.
pub open spec fn spec_positions_equal(left: SpecColumn, right: SpecColumn) -> bool {
    match (left.ordinal_position, right.ordinal_position) {
        (Some(l), Some(r)) => l == r,
        _ => true,
    }
}

/// Same definition and compatible positions.
pub open spec fn spec_column_equivalent(left: SpecColumn, right: SpecColumn) -> bool {
    spec_definition_equivalent(left, right) && spec_positions_equal(left, right)
}

/// Candidates for a rename: same definition and primary-key flag, and the same known position.
pub open spec fn spec_rename_equivalent(left: SpecColumn, right: SpecColumn) -> bool {
    &&& spec_definition_equivalent_without_name(left, right)
    &&& left.is_primary_key == right.is_primary_key
    &&& left.ordinal_position is Some
    &&& right.ordinal_position is Some
    &&& left.ordinal_position == right.ordinal_position
}

/// Whether generation expression or storage differ.
pub fn generated_definition_changed(left: &Column, right: &Column) -> (r: bool)
    ensures
        r == spec_generated_definition_changed(left@, right@),
{
    normalized_optional(&left.generation_expression) != normalized_optional(
        &right.generation_expression,
    ) || left.generated_storage != right.generated_storage
}

/// Whether two columns have the same definition, their names aside.
pub fn definition_equivalent_without_name(left: &Column, right: &Column) -> (r: bool)
    ensures
        r == spec_definition_equivalent_without_name(left@, right@),
{
    left.data_type.raw_type == right.data_type.raw_type && left.nullable == right.nullable
        && normalized_optional(&left.default_value) == normalized_optional(&right.default_value)
        && normalized_optional(&left.comment) == normalized_optional(&right.comment)
        && left.is_auto_increment == right.is_auto_increment && normalized_optional(
        &left.generation_expression,
    ) == normalized_optional(&right.generation_expression) && left.generated_storage
        == right.generated_storage && left.identity_generation == right.identity_generation
}

/// Same exact name and same definition.
pub fn definition_equivalent(left: &Column, right: &Column) -> (r: bool)
    ensures
        r == spec_definition_equivalent(left@, right@),
{
    left.name == right.name && definition_equivalent_without_name(left, right)
}

/// Positions agree, or one is unknown.
pub fn positions_equal(left: &Column, right: &Column) -> (r: bool)
    ensures
        r == spec_positions_equal(left@, right@),
{
    match (left.ordinal_position, right.ordinal_position) {
        (Some(l), Some(r)) => l == r,
        _ => true,
    }
}

/// Same definition and compatible positions.
pub fn column_equivalent(left: &Column, right: &Column) -> (r: bool)
    ensures
        r == spec_column_equivalent(left@, right@),
{
    definition_equivalent(left, right) && positions_equal(left, right)
}

/// Rename candidates: same definition, primary-key flag and known position.
pub fn rename_equivalent(left: &Column, right: &Column) -> (r: bool)
    ensures
        r == spec_rename_equivalent(left@, right@),
{
    definition_equivalent_without_name(left, right) && left.is_primary_key == right.is_primary_key
        && match (left.ordinal_position, right.ordinal_position) {
        (Some(l), Some(r)) => l == r,
        _ => false,
    }
}

/// A column of the target whose definition the source changes or drops.
pub open spec fn spec_changed_column(
    name: Seq<char>,
    source: Seq<SpecColumn>,
    target: Seq<SpecColumn>,
) -> bool {
    match find_col(target, name) {
        None => false,
        Some(i) => match find_col(source, name) {
            None => true,
            Some(j) => !spec_definition_equivalent(target[i], source[j]),
        },
    }
}

/// Whether the target column `name` is dropped or redefined by the source.
pub fn changed_column(name: &str, source: &[Column], target: &[Column]) -> (r: bool)
    ensures
        r == spec_changed_column(name@, columns_view(source@), columns_view(target@)),
{
    match find_column(target, name) {
        None => false,
        Some(i) => match find_column(source, name) {
            None => true,
            Some(j) => !definition_equivalent(&target[i], &source[j]),
        },
    }
}

/// Whether some name of `names` is a changed column.
pub open spec fn spec_any_changed(
    names: Seq<Seq<char>>,
    source: Seq<SpecColumn>,
    target: Seq<SpecColumn>,
) -> bool {
    exists|k: int| 0 <= k < names.len() && spec_changed_column(#[trigger] names[k], source, target)
}

/// Whether some of `names` is a changed column.
pub fn any_changed(names: &[String], source: &[Column], target: &[Column]) -> (r: bool)
    ensures
        r == spec_any_changed(names_view(names@), columns_view(source@), columns_view(target@)),
{
    let ghost nv = names_view(names@);
    let mut i: usize = 0;
    while i < names.len()
        invariant
            i <= names.len(),
            nv == names_view(names@),
            forall|k: int|
                0 <= k < i ==> !spec_changed_column(
                    #[trigger] nv[k],
                    columns_view(source@),
                    columns_view(target@),
                ),
        decreases names.len() - i,
    {
        if changed_column(names[i].as_str(), source, target) {
            assert(spec_changed_column(nv[i as int], columns_view(source@), columns_view(target@)));
            return true;
        }
        i = i + 1;
    }
    false
}

/// Equal length and pairwise equal up to ASCII case.
pub open spec fn spec_same_names(left: Seq<Seq<char>>, right: Seq<Seq<char>>) -> bool {
    left.len() == right.len() && forall|i: int|
        0 <= i < left.len() ==> spec_same_name(#[trigger] left[i], right[i])
}

/// Pairwise ASCII case-insensitive equality of two name lists.
pub fn same_names(left: &[String], right: &[String]) -> (r: bool)
    ensures
        r == spec_same_names(names_view(left@), names_view(right@)),
{
    if left.len() != right.len() {
        return false;
    }
    let mut i: usize = 0;
    while i < left.len()
        invariant
            i <= left.len() == right.len(),
            forall|k: int|
                0 <= k < i ==> spec_same_name(#[trigger] names_view(left@)[k], names_view(right@)[k]),
        decreases left.len() - i,
    {
        if !same_name(left[i].as_str(), right[i].as_str()) {
            assert(!spec_same_name(names_view(left@)[i as int], names_view(right@)[i as int]));
            return false;
        }
        i = i + 1;
    }
    true
}

/// Same kind and the same columns.
pub open spec fn spec_index_equivalent(left: SpecIndex, right: SpecIndex) -> bool {
    left.primary == right.primary && left.unique == right.unique && spec_same_names(
        left.columns,
        right.columns,
    )
}

/// Same kind and the same columns.
pub fn index_equivalent(left: &Index, right: &Index) -> (r: bool)
    ensures
        r == spec_index_equivalent(left@, right@),
{
    left.primary == right.primary && left.unique == right.unique && same_names(
        left.columns.as_slice(),
        right.columns.as_slice(),
    )
}

/// Same columns, referenced table and columns, and actions.
pub open spec fn spec_foreign_key_equivalent(left: SpecForeignKey, right: SpecForeignKey) -> bool {
    &&& spec_same_names(left.columns, right.columns)
    &&& spec_same_name(left.ref_schema, right.ref_schema)
    &&& spec_same_name(left.ref_table, right.ref_table)
    &&& spec_same_names(left.ref_columns, right.ref_columns)
    &&& left.on_delete == right.on_delete
    &&& left.on_update == right.on_update
}

/// Same columns, referenced table and columns, and actions.
pub fn foreign_key_equivalent(left: &ForeignKey, right: &ForeignKey) -> (r: bool)
    ensures
        r == spec_foreign_key_equivalent(left@, right@),
{
    same_names(left.columns.as_slice(), right.columns.as_slice()) && same_name(
        left.ref_schema.as_str(),
        right.ref_schema.as_str(),
    ) && same_name(left.ref_table.as_str(), right.ref_table.as_str()) && same_names(
        left.ref_columns.as_slice(),
        right.ref_columns.as_slice(),
    ) && left.on_delete == right.on_delete && left.on_update == right.on_update
}

} // verus!
