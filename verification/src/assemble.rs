//! Grouping of flat query rows into the catalog -> schema -> table -> column
//! forest.
//!
//! The schema-level rows always provide the catalog/schema skeleton; table or
//! column rows are then placed into their (catalog, schema) bucket.  Groups
//! keep the first-occurrence order of their key, and a bucket keeps the row
//! order of the query result, so assembly is deterministic.  Keys are
//! compared by their character content.

use vstd::prelude::*;

use crate::schemas::{
    Catalog, CatalogView, ColumnRow, ColumnSchema, DbSchema, DbSchemaView, SchemaRow, TableRow,
    TableSchema, TableSchemaView, db_schemas_view, forest_view, lemma_db_schemas_view_push,
    lemma_forest_view_push, lemma_table_schemas_view_push, table_schemas_view,
};

verus! {

// ---------------------------------------------------------------------------
// Key comparison and first-occurrence deduplication
// ---------------------------------------------------------------------------

/// Does `s` hold a string with the same characters as `x`?
pub open spec fn contains_str(s: Seq<String>, x: String) -> bool {
    exists|i: int| 0 <= i < s.len() && s[i]@ == x@
}

/// The distinct strings of `s`, each kept at its first occurrence.
pub open spec fn dedup_str(s: Seq<String>) -> Seq<String>
    decreases s.len(),
{
    if s.len() == 0 {
        Seq::empty()
    } else {
        let prev = dedup_str(s.drop_last());
        if contains_str(prev, s.last()) {
            prev
        } else {
            prev.push(s.last())
        }
    }
}

/// Character-content equality of two string pairs.
pub open spec fn pair_eqv(a: (String, String), b: (String, String)) -> bool {
    a.0@ == b.0@ && a.1@ == b.1@
}

/// Does `s` hold a pair with the same characters as `x`?
pub open spec fn contains_pair(s: Seq<(String, String)>, x: (String, String)) -> bool {
    exists|i: int| 0 <= i < s.len() && pair_eqv(s[i], x)
}

/// The distinct pairs of `s`, each kept at its first occurrence.
pub open spec fn dedup_pair(s: Seq<(String, String)>) -> Seq<(String, String)>
    decreases s.len(),
{
    if s.len() == 0 {
        Seq::empty()
    } else {
        let prev = dedup_pair(s.drop_last());
        if contains_pair(prev, s.last()) {
            prev
        } else {
            prev.push(s.last())
        }
    }
}

pub proof fn lemma_dedup_str_push(s: Seq<String>, x: String)
    ensures
        dedup_str(s.push(x)) == if contains_str(dedup_str(s), x) {
            dedup_str(s)
        } else {
            dedup_str(s).push(x)
        },
{
    assert(s.push(x).drop_last() =~= s);
    assert(s.push(x).last() == x);
}

pub proof fn lemma_dedup_pair_push(s: Seq<(String, String)>, x: (String, String))
    ensures
        dedup_pair(s.push(x)) == if contains_pair(dedup_pair(s), x) {
            dedup_pair(s)
        } else {
            dedup_pair(s).push(x)
        },
{
    assert(s.push(x).drop_last() =~= s);
    assert(s.push(x).last() == x);
}

// ---------------------------------------------------------------------------
// Buckets: the rows of one group key, in row order
// ---------------------------------------------------------------------------

/// Does schema row `r` belong to catalog `cat`?
pub open spec fn schema_row_matches(r: SchemaRow, cat: String) -> bool {
    r.catalog_name@ == cat@
}

/// The schema rows of catalog `cat`, in row order.
pub open spec fn schema_rows_in(rows: Seq<SchemaRow>, cat: String) -> Seq<SchemaRow>
    decreases rows.len(),
{
    if rows.len() == 0 {
        Seq::empty()
    } else {
        let prev = schema_rows_in(rows.drop_last(), cat);
        if schema_row_matches(rows.last(), cat) {
            prev.push(rows.last())
        } else {
            prev
        }
    }
}

/// Does table row `r` belong to (catalog, schema)?
pub open spec fn table_row_matches(r: TableRow, cat: String, sch: String) -> bool {
    r.table_catalog@ == cat@ && r.table_schema@ == sch@
}

/// The table rows of (catalog, schema), in row order.
pub open spec fn table_rows_in(rows: Seq<TableRow>, cat: String, sch: String) -> Seq<TableRow>
    decreases rows.len(),
{
    if rows.len() == 0 {
        Seq::empty()
    } else {
        let prev = table_rows_in(rows.drop_last(), cat, sch);
        if table_row_matches(rows.last(), cat, sch) {
            prev.push(rows.last())
        } else {
            prev
        }
    }
}

/// Does column row `r` belong to (catalog, schema)?
pub open spec fn column_row_matches(r: ColumnRow, cat: String, sch: String) -> bool {
    r.table_catalog@ == cat@ && r.table_schema@ == sch@
}

/// The column rows of (catalog, schema), in row order.
pub open spec fn column_rows_in(rows: Seq<ColumnRow>, cat: String, sch: String) -> Seq<ColumnRow>
    decreases rows.len(),
{
    if rows.len() == 0 {
        Seq::empty()
    } else {
        let prev = column_rows_in(rows.drop_last(), cat, sch);
        if column_row_matches(rows.last(), cat, sch) {
            prev.push(rows.last())
        } else {
            prev
        }
    }
}

/// Does column row `r` belong to the table (catalog, schema, name, type)?
pub open spec fn column_row_matches_table(
    r: ColumnRow,
    cat: String,
    sch: String,
    name: String,
    ty: String,
) -> bool {
    r.table_catalog@ == cat@ && r.table_schema@ == sch@ && r.table_name@ == name@
        && r.table_type@ == ty@
}

/// The column rows of one (catalog, schema, table name, table type), in row
/// order.
pub open spec fn column_rows_of_table(
    rows: Seq<ColumnRow>,
    cat: String,
    sch: String,
    name: String,
    ty: String,
) -> Seq<ColumnRow>
    decreases rows.len(),
{
    if rows.len() == 0 {
        Seq::empty()
    } else {
        let prev = column_rows_of_table(rows.drop_last(), cat, sch, name, ty);
        if column_row_matches_table(rows.last(), cat, sch, name, ty) {
            prev.push(rows.last())
        } else {
            prev
        }
    }
}

pub proof fn lemma_schema_rows_in_push(rows: Seq<SchemaRow>, cat: String, x: SchemaRow)
    ensures
        schema_rows_in(rows.push(x), cat) == if schema_row_matches(x, cat) {
            schema_rows_in(rows, cat).push(x)
        } else {
            schema_rows_in(rows, cat)
        },
{
    assert(rows.push(x).drop_last() =~= rows);
    assert(rows.push(x).last() == x);
}

pub proof fn lemma_table_rows_in_push(rows: Seq<TableRow>, cat: String, sch: String, x: TableRow)
    ensures
        table_rows_in(rows.push(x), cat, sch) == if table_row_matches(x, cat, sch) {
            table_rows_in(rows, cat, sch).push(x)
        } else {
            table_rows_in(rows, cat, sch)
        },
{
    assert(rows.push(x).drop_last() =~= rows);
    assert(rows.push(x).last() == x);
}

pub proof fn lemma_column_rows_in_push(rows: Seq<ColumnRow>, cat: String, sch: String, x: ColumnRow)
    ensures
        column_rows_in(rows.push(x), cat, sch) == if column_row_matches(x, cat, sch) {
            column_rows_in(rows, cat, sch).push(x)
        } else {
            column_rows_in(rows, cat, sch)
        },
{
    assert(rows.push(x).drop_last() =~= rows);
    assert(rows.push(x).last() == x);
}

pub proof fn lemma_column_rows_of_table_push(
    rows: Seq<ColumnRow>,
    cat: String,
    sch: String,
    name: String,
    ty: String,
    x: ColumnRow,
)
    ensures
        column_rows_of_table(rows.push(x), cat, sch, name, ty) == if column_row_matches_table(
            x,
            cat,
            sch,
            name,
            ty,
        ) {
            column_rows_of_table(rows, cat, sch, name, ty).push(x)
        } else {
            column_rows_of_table(rows, cat, sch, name, ty)
        },
{
    assert(rows.push(x).drop_last() =~= rows);
    assert(rows.push(x).last() == x);
}

// ---------------------------------------------------------------------------
// Per-row entity views and their sequence maps
// ---------------------------------------------------------------------------

/// The catalog names of the schema rows, in row order.
pub open spec fn catalog_keys(rows: Seq<SchemaRow>) -> Seq<String> {
    rows.map_values(|r: SchemaRow| r.catalog_name)
}

pub proof fn lemma_catalog_keys_push(rows: Seq<SchemaRow>, x: SchemaRow)
    ensures
        catalog_keys(rows.push(x)) =~= catalog_keys(rows).push(x.catalog_name),
{
}

/// The (table name, table type) pair a column row belongs to.
pub open spec fn column_pair_of_row(r: ColumnRow) -> (String, String) {
    (r.table_name, r.table_type)
}

/// The table identities of the column rows, in row order.
pub open spec fn column_pairs(rows: Seq<ColumnRow>) -> Seq<(String, String)> {
    rows.map_values(|r: ColumnRow| column_pair_of_row(r))
}

pub proof fn lemma_column_pairs_push(rows: Seq<ColumnRow>, x: ColumnRow)
    ensures
        column_pairs(rows.push(x)) =~= column_pairs(rows).push(column_pair_of_row(x)),
{
}

/// The column entity a column row maps to.  Descriptors the backend does not
/// supply stay `None`; the external nullability convention is 3-valued and
/// inverted with respect to a boolean reading: 0 means nullable, 1 means
/// not-nullable.
pub open spec fn column_schema_of_row(r: ColumnRow) -> ColumnSchema {
    ColumnSchema {
        column_name: r.column_name,
        ordinal_position: Some(r.ordinal_position as i32),
        remarks: Some(r.remarks),
        xdbc_data_type: None,
        xdbc_type_name: Some(r.xdbc_type_name),
        xdbc_column_size: match r.xdbc_column_size {
            Some(v) => Some(v as i32),
            None => None,
        },
        xdbc_decimal_digits: match r.xdbc_decimal_digits {
            Some(v) => Some(v as i16),
            None => None,
        },
        xdbc_num_prec_radix: match r.xdbc_num_prec_radix {
            Some(v) => Some(v as i16),
            None => None,
        },
        xdbc_nullable: Some(if r.xdbc_nullable { 0i16 } else { 1i16 }),
        xdbc_column_def: Some(r.xdbc_column_def),
        xdbc_sql_data_type: None,
        xdbc_datetime_sub: match r.xdbc_datetime_sub {
            Some(v) => Some(v as i16),
            None => None,
        },
        xdbc_char_octet_length: match r.xdbc_char_octet_length {
            Some(v) => Some(v as i32),
            None => None,
        },
        xdbc_is_nullable: Some(r.xdbc_is_nullable),
        xdbc_scope_catalog: None,
        xdbc_scope_schema: None,
        xdbc_scope_table: None,
        xdbc_is_autoincrement: None,
        xdbc_is_generatedcolumn: Some(r.xdbc_is_generatedcolumn),
    }
}

/// The column entities of a sequence of column rows.
pub open spec fn column_schemas_of_rows(rows: Seq<ColumnRow>) -> Seq<ColumnSchema> {
    rows.map_values(|r: ColumnRow| column_schema_of_row(r))
}

pub proof fn lemma_column_schemas_of_rows_push(rows: Seq<ColumnRow>, x: ColumnRow)
    ensures
        column_schemas_of_rows(rows.push(x)) =~= column_schemas_of_rows(rows).push(
            column_schema_of_row(x),
        ),
{
}

/// A table built from a table row: columns not traversed.
pub open spec fn table_view_of_row(r: TableRow) -> TableSchemaView {
    TableSchemaView { name: r.table_name, ty: r.table_type, columns: None, constraints: None }
}

/// The tables of a sequence of table rows, columns not traversed.
pub open spec fn table_views_of_rows(rows: Seq<TableRow>) -> Seq<TableSchemaView> {
    rows.map_values(|r: TableRow| table_view_of_row(r))
}

pub proof fn lemma_table_views_of_rows_push(rows: Seq<TableRow>, x: TableRow)
    ensures
        table_views_of_rows(rows.push(x)) =~= table_views_of_rows(rows).push(table_view_of_row(x)),
{
}

/// A table of the column-level result: its identity is a deduplicated
/// (name, type) pair, its columns the rows of that table in row order.
pub open spec fn table_with_columns_view(
    crows: Seq<ColumnRow>,
    cat: String,
    sch: String,
    nt: (String, String),
) -> TableSchemaView {
    TableSchemaView {
        name: nt.0,
        ty: nt.1,
        columns: Some(column_schemas_of_rows(column_rows_of_table(crows, cat, sch, nt.0, nt.1))),
        constraints: None,
    }
}

/// The tables of the distinct pairs `pairs`, with their columns.
pub open spec fn tables_with_columns_views(
    pairs: Seq<(String, String)>,
    crows: Seq<ColumnRow>,
    cat: String,
    sch: String,
) -> Seq<TableSchemaView> {
    pairs.map_values(|nt: (String, String)| table_with_columns_view(crows, cat, sch, nt))
}

pub proof fn lemma_tables_with_columns_views_push(
    pairs: Seq<(String, String)>,
    crows: Seq<ColumnRow>,
    cat: String,
    sch: String,
    nt: (String, String),
)
    ensures
        tables_with_columns_views(pairs.push(nt), crows, cat, sch) =~= tables_with_columns_views(
            pairs,
            crows,
            cat,
            sch,
        ).push(table_with_columns_view(crows, cat, sch, nt)),
{
}

/// A schema whose tables were not traversed.
pub open spec fn schema_only_view(r: SchemaRow) -> DbSchemaView {
    DbSchemaView { name: Some(r.schema_name), tables: None }
}

/// The schemas of a bucket of schema rows, tables not traversed.
pub open spec fn schema_only_views(rows: Seq<SchemaRow>) -> Seq<DbSchemaView> {
    rows.map_values(|r: SchemaRow| schema_only_view(r))
}

pub proof fn lemma_schema_only_views_push(rows: Seq<SchemaRow>, x: SchemaRow)
    ensures
        schema_only_views(rows.push(x)) =~= schema_only_views(rows).push(schema_only_view(x)),
{
}

/// A schema whose tables come from the table-level rows of its bucket.
pub open spec fn schema_with_tables_view(
    trows: Seq<TableRow>,
    cat: String,
    r: SchemaRow,
) -> DbSchemaView {
    DbSchemaView {
        name: Some(r.schema_name),
        tables: Some(table_views_of_rows(table_rows_in(trows, cat, r.schema_name))),
    }
}

/// The schemas of a bucket of schema rows, with each schema's table bucket.
pub open spec fn schemas_with_tables_views(
    rows: Seq<SchemaRow>,
    trows: Seq<TableRow>,
    cat: String,
) -> Seq<DbSchemaView> {
    rows.map_values(|r: SchemaRow| schema_with_tables_view(trows, cat, r))
}

pub proof fn lemma_schemas_with_tables_views_push(
    rows: Seq<SchemaRow>,
    trows: Seq<TableRow>,
    cat: String,
    x: SchemaRow,
)
    ensures
        schemas_with_tables_views(rows.push(x), trows, cat) =~= schemas_with_tables_views(
            rows,
            trows,
            cat,
        ).push(schema_with_tables_view(trows, cat, x)),
{
}

/// The distinct table identities of a (catalog, schema) bucket.
pub open spec fn distinct_pairs_in(
    crows: Seq<ColumnRow>,
    cat: String,
    sch: String,
) -> Seq<(String, String)> {
    dedup_pair(column_pairs(column_rows_in(crows, cat, sch)))
}

/// A schema whose tables come from the column-level rows of its bucket.
pub open spec fn schema_with_columns_view(
    crows: Seq<ColumnRow>,
    cat: String,
    r: SchemaRow,
) -> DbSchemaView {
    DbSchemaView {
        name: Some(r.schema_name),
        tables: Some(
            tables_with_columns_views(
                distinct_pairs_in(crows, cat, r.schema_name),
                crows,
                cat,
                r.schema_name,
            ),
        ),
    }
}

/// The schemas of a bucket of schema rows, with tables and columns.
pub open spec fn schemas_with_columns_views(
    rows: Seq<SchemaRow>,
    crows: Seq<ColumnRow>,
    cat: String,
) -> Seq<DbSchemaView> {
    rows.map_values(|r: SchemaRow| schema_with_columns_view(crows, cat, r))
}

pub proof fn lemma_schemas_with_columns_views_push(
    rows: Seq<SchemaRow>,
    crows: Seq<ColumnRow>,
    cat: String,
    x: SchemaRow,
)
    ensures
        schemas_with_columns_views(rows.push(x), crows, cat) =~= schemas_with_columns_views(
            rows,
            crows,
            cat,
        ).push(schema_with_columns_view(crows, cat, x)),
{
}

// ---------------------------------------------------------------------------
// The four assembly shapes, one per depth
// ---------------------------------------------------------------------------

/// A catalog whose schemas were not traversed.
pub open spec fn catalog_only_view(cat: String) -> CatalogView {
    CatalogView { name: Some(cat), schemas: None }
}

/// A catalog with its schema bucket, tables not traversed.
pub open spec fn catalog_schemas_view(srows: Seq<SchemaRow>, cat: String) -> CatalogView {
    CatalogView { name: Some(cat), schemas: Some(schema_only_views(schema_rows_in(srows, cat))) }
}

/// A catalog with its schema bucket and each schema's tables.
pub open spec fn catalog_tables_view(
    srows: Seq<SchemaRow>,
    trows: Seq<TableRow>,
    cat: String,
) -> CatalogView {
    CatalogView {
        name: Some(cat),
        schemas: Some(schemas_with_tables_views(schema_rows_in(srows, cat), trows, cat)),
    }
}

/// A catalog with its schema bucket, tables and columns.
pub open spec fn catalog_columns_view(
    srows: Seq<SchemaRow>,
    crows: Seq<ColumnRow>,
    cat: String,
) -> CatalogView {
    CatalogView {
        name: Some(cat),
        schemas: Some(schemas_with_columns_views(schema_rows_in(srows, cat), crows, cat)),
    }
}

/// Depth Catalogs: the distinct catalogs of the schema rows, schemas not
/// traversed.
pub open spec fn assemble_catalogs_spec(srows: Seq<SchemaRow>) -> Seq<CatalogView> {
    dedup_str(catalog_keys(srows)).map_values(|cat: String| catalog_only_view(cat))
}

/// Depth Schemas: schema rows grouped by catalog, tables not traversed.
pub open spec fn assemble_schemas_spec(srows: Seq<SchemaRow>) -> Seq<CatalogView> {
    dedup_str(catalog_keys(srows)).map_values(|cat: String| catalog_schemas_view(srows, cat))
}

/// Depth Tables: the schema skeleton with each schema's table bucket,
/// columns not traversed.
pub open spec fn assemble_tables_spec(
    srows: Seq<SchemaRow>,
    trows: Seq<TableRow>,
) -> Seq<CatalogView> {
    dedup_str(catalog_keys(srows)).map_values(|cat: String| catalog_tables_view(srows, trows, cat))
}

/// Depth Columns (and All): the schema skeleton with the tables and columns
/// of the joined column-level query.
pub open spec fn assemble_columns_spec(
    srows: Seq<SchemaRow>,
    crows: Seq<ColumnRow>,
) -> Seq<CatalogView> {
    dedup_str(catalog_keys(srows)).map_values(|cat: String| catalog_columns_view(srows, crows, cat))
}

// ---------------------------------------------------------------------------
// Executable assembly
// ---------------------------------------------------------------------------

/// Does `keys` hold a string with the same characters as `x`?
fn vec_contains_str(keys: &Vec<String>, x: &String) -> (b: bool)
    ensures
        b == contains_str(keys@, *x),
{
    let mut i: usize = 0;
    while i < keys.len()
        invariant
            i <= keys@.len(),
            forall|j: int| 0 <= j < i ==> keys@[j]@ != x@,
        decreases keys@.len() - i,
    {
        if keys[i] == *x {
            return true;
        }
        i += 1;
    }
    false
}

/// Does `keys` hold a pair with the same characters as `x`?
fn vec_contains_pair(keys: &Vec<(String, String)>, x: &(String, String)) -> (b: bool)
    ensures
        b == contains_pair(keys@, *x),
{
    let mut i: usize = 0;
    while i < keys.len()
        invariant
            i <= keys@.len(),
            forall|j: int| 0 <= j < i ==> !pair_eqv(keys@[j], *x),
        decreases keys@.len() - i,
    {
        if keys[i].0 == x.0 && keys[i].1 == x.1 {
            return true;
        }
        i += 1;
    }
    false
}

/// The distinct catalog names of the schema rows, in first-occurrence order.
fn distinct_catalog_names(srows: &Vec<SchemaRow>) -> (keys: Vec<String>)
    ensures
        keys@ == dedup_str(catalog_keys(srows@)),
{
    let mut keys: Vec<String> = Vec::new();
    let mut i: usize = 0;
    while i < srows.len()
        invariant
            i <= srows@.len(),
            keys@ == dedup_str(catalog_keys(srows@.subrange(0, i as int))),
        decreases srows@.len() - i,
    {
        let hit = vec_contains_str(&keys, &srows[i].catalog_name);
        if !hit {
            keys.push(srows[i].catalog_name.clone());
        }
        proof {
            let prefix = srows@.subrange(0, i as int);
            assert(srows@.subrange(0, i + 1) =~= prefix.push(srows@[i as int]));
            lemma_catalog_keys_push(prefix, srows@[i as int]);
            lemma_dedup_str_push(catalog_keys(prefix), srows@[i as int].catalog_name);
        }
        i += 1;
    }
    proof {
        assert(srows@.subrange(0, srows@.len() as int) =~= srows@);
    }
    keys
}

/// Depth Catalogs: one catalog per distinct catalog name; schemas absent.
pub fn assemble_catalogs(srows: &Vec<SchemaRow>) -> (cats: Vec<Catalog>)
    ensures
        forest_view(cats@) == assemble_catalogs_spec(srows@),
{
    let keys = distinct_catalog_names(srows);
    let mut cats: Vec<Catalog> = Vec::new();
    let mut i: usize = 0;
    while i < keys.len()
        invariant
            i <= keys@.len(),
            keys@ == dedup_str(catalog_keys(srows@)),
            cats@.len() == i,
            assemble_catalogs_spec(srows@).len() == keys@.len(),
            forest_view(cats@) =~= assemble_catalogs_spec(srows@).subrange(0, i as int),
        decreases keys@.len() - i,
    {
        let ghost prev = cats@;
        cats.push(Catalog { catalog_name: Some(keys[i].clone()), catalog_db_schemas: None });
        proof {
            let sp = assemble_catalogs_spec(srows@);
            lemma_forest_view_push(prev, cats@[i as int]);
            assert(sp[i as int] == catalog_only_view(keys@[i as int]));
            assert(cats@[i as int]@ == catalog_only_view(keys@[i as int]));
            assert(forest_view(cats@) =~= sp.subrange(0, i + 1));
        }
        i += 1;
    }
    proof {
        let sp = assemble_catalogs_spec(srows@);
        assert(sp.subrange(0, sp.len() as int) =~= sp);
    }
    cats
}

/// The schemas of catalog `cat`, tables not traversed.
fn schemas_only_for(srows: &Vec<SchemaRow>, cat: &String) -> (ss: Vec<DbSchema>)
    ensures
        db_schemas_view(ss@) == schema_only_views(schema_rows_in(srows@, *cat)),
{
    let mut ss: Vec<DbSchema> = Vec::new();
    let mut i: usize = 0;
    while i < srows.len()
        invariant
            i <= srows@.len(),
            db_schemas_view(ss@) =~= schema_only_views(
                schema_rows_in(srows@.subrange(0, i as int), *cat),
            ),
        decreases srows@.len() - i,
    {
        let ghost prev = ss@;
        let matched = srows[i].catalog_name == *cat;
        if matched {
            ss.push(
                DbSchema {
                    db_schema_name: Some(srows[i].schema_name.clone()),
                    db_schema_tables: None,
                },
            );
        }
        proof {
            let prefix = srows@.subrange(0, i as int);
            let row = srows@[i as int];
            assert(srows@.subrange(0, i + 1) =~= prefix.push(row));
            lemma_schema_rows_in_push(prefix, *cat, row);
            if matched {
                lemma_db_schemas_view_push(prev, ss@[ss@.len() - 1]);
                lemma_schema_only_views_push(schema_rows_in(prefix, *cat), row);
                assert(ss@[ss@.len() - 1]@ == schema_only_view(row));
            }
            assert(db_schemas_view(ss@) =~= schema_only_views(
                schema_rows_in(srows@.subrange(0, i + 1), *cat),
            ));
        }
        i += 1;
    }
    proof {
        assert(srows@.subrange(0, srows@.len() as int) =~= srows@);
    }
    ss
}

/// Depth Schemas: schema rows grouped by catalog; tables absent.
pub fn assemble_schemas(srows: &Vec<SchemaRow>) -> (cats: Vec<Catalog>)
    ensures
        forest_view(cats@) == assemble_schemas_spec(srows@),
{
    let keys = distinct_catalog_names(srows);
    let mut cats: Vec<Catalog> = Vec::new();
    let mut i: usize = 0;
    while i < keys.len()
        invariant
            i <= keys@.len(),
            keys@ == dedup_str(catalog_keys(srows@)),
            cats@.len() == i,
            assemble_schemas_spec(srows@).len() == keys@.len(),
            forest_view(cats@) =~= assemble_schemas_spec(srows@).subrange(0, i as int),
        decreases keys@.len() - i,
    {
        let ghost prev = cats@;
        let ss = schemas_only_for(srows, &keys[i]);
        cats.push(Catalog { catalog_name: Some(keys[i].clone()), catalog_db_schemas: Some(ss) });
        proof {
            let sp = assemble_schemas_spec(srows@);
            lemma_forest_view_push(prev, cats@[i as int]);
            assert(sp[i as int] == catalog_schemas_view(srows@, keys@[i as int]));
            assert(cats@[i as int]@ == catalog_schemas_view(srows@, keys@[i as int]));
            assert(forest_view(cats@) =~= sp.subrange(0, i + 1));
        }
        i += 1;
    }
    proof {
        let sp = assemble_schemas_spec(srows@);
        assert(sp.subrange(0, sp.len() as int) =~= sp);
    }
    cats
}

/// The tables of (catalog, schema), columns not traversed.
fn tables_for(trows: &Vec<TableRow>, cat: &String, sch: &String) -> (ts: Vec<TableSchema>)
    ensures
        table_schemas_view(ts@) == table_views_of_rows(table_rows_in(trows@, *cat, *sch)),
{
    let mut ts: Vec<TableSchema> = Vec::new();
    let mut i: usize = 0;
    while i < trows.len()
        invariant
            i <= trows@.len(),
            table_schemas_view(ts@) =~= table_views_of_rows(
                table_rows_in(trows@.subrange(0, i as int), *cat, *sch),
            ),
        decreases trows@.len() - i,
    {
        let ghost prev = ts@;
        let matched = trows[i].table_catalog == *cat && trows[i].table_schema == *sch;
        if matched {
            ts.push(
                TableSchema {
                    table_name: trows[i].table_name.clone(),
                    table_type: trows[i].table_type.clone(),
                    table_columns: None,
                    table_constraints: None,
                },
            );
        }
        proof {
            let prefix = trows@.subrange(0, i as int);
            let row = trows@[i as int];
            assert(trows@.subrange(0, i + 1) =~= prefix.push(row));
            lemma_table_rows_in_push(prefix, *cat, *sch, row);
            if matched {
                lemma_table_schemas_view_push(prev, ts@[ts@.len() - 1]);
                lemma_table_views_of_rows_push(table_rows_in(prefix, *cat, *sch), row);
                assert(ts@[ts@.len() - 1]@ == table_view_of_row(row));
            }
            assert(table_schemas_view(ts@) =~= table_views_of_rows(
                table_rows_in(trows@.subrange(0, i + 1), *cat, *sch),
            ));
        }
        i += 1;
    }
    proof {
        assert(trows@.subrange(0, trows@.len() as int) =~= trows@);
    }
    ts
}

/// The schemas of catalog `cat`, each with its table bucket.
fn schemas_with_tables_for(
    srows: &Vec<SchemaRow>,
    trows: &Vec<TableRow>,
    cat: &String,
) -> (ss: Vec<DbSchema>)
    ensures
        db_schemas_view(ss@) == schemas_with_tables_views(
            schema_rows_in(srows@, *cat),
            trows@,
            *cat,
        ),
{
    let mut ss: Vec<DbSchema> = Vec::new();
    let mut i: usize = 0;
    while i < srows.len()
        invariant
            i <= srows@.len(),
            db_schemas_view(ss@) =~= schemas_with_tables_views(
                schema_rows_in(srows@.subrange(0, i as int), *cat),
                trows@,
                *cat,
            ),
        decreases srows@.len() - i,
    {
        let ghost prev = ss@;
        let matched = srows[i].catalog_name == *cat;
        if matched {
            let ts = tables_for(trows, cat, &srows[i].schema_name);
            ss.push(
                DbSchema {
                    db_schema_name: Some(srows[i].schema_name.clone()),
                    db_schema_tables: Some(ts),
                },
            );
        }
        proof {
            let prefix = srows@.subrange(0, i as int);
            let row = srows@[i as int];
            assert(srows@.subrange(0, i + 1) =~= prefix.push(row));
            lemma_schema_rows_in_push(prefix, *cat, row);
            if matched {
                lemma_db_schemas_view_push(prev, ss@[ss@.len() - 1]);
                lemma_schemas_with_tables_views_push(
                    schema_rows_in(prefix, *cat),
                    trows@,
                    *cat,
                    row,
                );
                assert(ss@[ss@.len() - 1]@ == schema_with_tables_view(trows@, *cat, row));
            }
            assert(db_schemas_view(ss@) =~= schemas_with_tables_views(
                schema_rows_in(srows@.subrange(0, i + 1), *cat),
                trows@,
                *cat,
            ));
        }
        i += 1;
    }
    proof {
        assert(srows@.subrange(0, srows@.len() as int) =~= srows@);
    }
    ss
}

/// Depth Tables: the schema skeleton with each schema's tables; columns
/// absent.
pub fn assemble_tables(srows: &Vec<SchemaRow>, trows: &Vec<TableRow>) -> (cats: Vec<Catalog>)
    ensures
        forest_view(cats@) == assemble_tables_spec(srows@, trows@),
{
    let keys = distinct_catalog_names(srows);
    let mut cats: Vec<Catalog> = Vec::new();
    let mut i: usize = 0;
    while i < keys.len()
        invariant
            i <= keys@.len(),
            keys@ == dedup_str(catalog_keys(srows@)),
            cats@.len() == i,
            assemble_tables_spec(srows@, trows@).len() == keys@.len(),
            forest_view(cats@) =~= assemble_tables_spec(srows@, trows@).subrange(0, i as int),
        decreases keys@.len() - i,
    {
        let ghost prev = cats@;
        let ss = schemas_with_tables_for(srows, trows, &keys[i]);
        cats.push(Catalog { catalog_name: Some(keys[i].clone()), catalog_db_schemas: Some(ss) });
        proof {
            let sp = assemble_tables_spec(srows@, trows@);
            lemma_forest_view_push(prev, cats@[i as int]);
            assert(sp[i as int] == catalog_tables_view(srows@, trows@, keys@[i as int]));
            assert(cats@[i as int]@ == catalog_tables_view(srows@, trows@, keys@[i as int]));
            assert(forest_view(cats@) =~= sp.subrange(0, i + 1));
        }
        i += 1;
    }
    proof {
        let sp = assemble_tables_spec(srows@, trows@);
        assert(sp.subrange(0, sp.len() as int) =~= sp);
    }
    cats
}

/// The distinct (table name, table type) pairs of a (catalog, schema)
/// bucket, in first-occurrence order.
fn distinct_table_pairs(
    crows: &Vec<ColumnRow>,
    cat: &String,
    sch: &String,
) -> (pairs: Vec<(String, String)>)
    ensures
        pairs@ == distinct_pairs_in(crows@, *cat, *sch),
{
    let mut pairs: Vec<(String, String)> = Vec::new();
    let mut i: usize = 0;
    while i < crows.len()
        invariant
            i <= crows@.len(),
            pairs@ == distinct_pairs_in(crows@.subrange(0, i as int), *cat, *sch),
        decreases crows@.len() - i,
    {
        let matched = crows[i].table_catalog == *cat && crows[i].table_schema == *sch;
        if matched {
            let pair = (crows[i].table_name.clone(), crows[i].table_type.clone());
            let hit = vec_contains_pair(&pairs, &pair);
            if !hit {
                pairs.push(pair);
            }
        }
        proof {
            let prefix = crows@.subrange(0, i as int);
            let row = crows@[i as int];
            assert(crows@.subrange(0, i + 1) =~= prefix.push(row));
            lemma_column_rows_in_push(prefix, *cat, *sch, row);
            if matched {
                lemma_column_pairs_push(column_rows_in(prefix, *cat, *sch), row);
                lemma_dedup_pair_push(
                    column_pairs(column_rows_in(prefix, *cat, *sch)),
                    column_pair_of_row(row),
                );
            }
        }
        i += 1;
    }
    proof {
        assert(crows@.subrange(0, crows@.len() as int) =~= crows@);
    }
    pairs
}

/// The column entities of one table, in row order.
fn columns_for(
    crows: &Vec<ColumnRow>,
    cat: &String,
    sch: &String,
    name: &String,
    ty: &String,
) -> (cols: Vec<ColumnSchema>)
    ensures
        cols@ == column_schemas_of_rows(column_rows_of_table(crows@, *cat, *sch, *name, *ty)),
{
    let mut cols: Vec<ColumnSchema> = Vec::new();
    let mut i: usize = 0;
    while i < crows.len()
        invariant
            i <= crows@.len(),
            cols@ =~= column_schemas_of_rows(
                column_rows_of_table(crows@.subrange(0, i as int), *cat, *sch, *name, *ty),
            ),
        decreases crows@.len() - i,
    {
        let matched = crows[i].table_catalog == *cat && crows[i].table_schema == *sch
            && crows[i].table_name == *name && crows[i].table_type == *ty;
        if matched {
            let c = column_schema_from_row(&crows[i]);
            cols.push(c);
        }
        proof {
            let prefix = crows@.subrange(0, i as int);
            let row = crows@[i as int];
            assert(crows@.subrange(0, i + 1) =~= prefix.push(row));
            lemma_column_rows_of_table_push(prefix, *cat, *sch, *name, *ty, row);
            if matched {
                lemma_column_schemas_of_rows_push(
                    column_rows_of_table(prefix, *cat, *sch, *name, *ty),
                    row,
                );
            }
            assert(cols@ =~= column_schemas_of_rows(
                column_rows_of_table(crows@.subrange(0, i + 1), *cat, *sch, *name, *ty),
            ));
        }
        i += 1;
    }
    proof {
        assert(crows@.subrange(0, crows@.len() as int) =~= crows@);
    }
    cols
}

/// The column entity of one column row.
fn column_schema_from_row(r: &ColumnRow) -> (c: ColumnSchema)
    ensures
        c == column_schema_of_row(*r),
{
    ColumnSchema {
        column_name: r.column_name.clone(),
        ordinal_position: Some(#[verifier::truncate] (r.ordinal_position as i32)),
        remarks: Some(r.remarks.clone()),
        xdbc_data_type: None,
        xdbc_type_name: Some(r.xdbc_type_name.clone()),
        xdbc_column_size: match r.xdbc_column_size {
            Some(v) => Some(#[verifier::truncate] (v as i32)),
            None => None,
        },
        xdbc_decimal_digits: match r.xdbc_decimal_digits {
            Some(v) => Some(#[verifier::truncate] (v as i16)),
            None => None,
        },
        xdbc_num_prec_radix: match r.xdbc_num_prec_radix {
            Some(v) => Some(#[verifier::truncate] (v as i16)),
            None => None,
        },
        xdbc_nullable: Some(if r.xdbc_nullable { 0 } else { 1 }),
        xdbc_column_def: Some(r.xdbc_column_def.clone()),
        xdbc_sql_data_type: None,
        xdbc_datetime_sub: match r.xdbc_datetime_sub {
            Some(v) => Some(#[verifier::truncate] (v as i16)),
            None => None,
        },
        xdbc_char_octet_length: match r.xdbc_char_octet_length {
            Some(v) => Some(#[verifier::truncate] (v as i32)),
            None => None,
        },
        xdbc_is_nullable: Some(r.xdbc_is_nullable.clone()),
        xdbc_scope_catalog: None,
        xdbc_scope_schema: None,
        xdbc_scope_table: None,
        xdbc_is_autoincrement: None,
        xdbc_is_generatedcolumn: Some(r.xdbc_is_generatedcolumn),
    }
}

/// The tables of (catalog, schema) from the column-level rows, each with its
/// columns.
fn tables_from_columns(crows: &Vec<ColumnRow>, cat: &String, sch: &String) -> (ts: Vec<TableSchema>)
    ensures
        table_schemas_view(ts@) == tables_with_columns_views(
            distinct_pairs_in(crows@, *cat, *sch),
            crows@,
            *cat,
            *sch,
        ),
{
    let pairs = distinct_table_pairs(crows, cat, sch);
    let mut ts: Vec<TableSchema> = Vec::new();
    let mut i: usize = 0;
    while i < pairs.len()
        invariant
            i <= pairs@.len(),
            pairs@ == distinct_pairs_in(crows@, *cat, *sch),
            table_schemas_view(ts@) =~= tables_with_columns_views(
                pairs@.subrange(0, i as int),
                crows@,
                *cat,
                *sch,
            ),
        decreases pairs@.len() - i,
    {
        let ghost prev = ts@;
        let cols = columns_for(crows, cat, sch, &pairs[i].0, &pairs[i].1);
        ts.push(
            TableSchema {
                table_name: pairs[i].0.clone(),
                table_type: pairs[i].1.clone(),
                table_columns: Some(cols),
                table_constraints: None,
            },
        );
        proof {
            let pr = pairs@.subrange(0, i as int);
            assert(pairs@.subrange(0, i + 1) =~= pr.push(pairs@[i as int]));
            lemma_table_schemas_view_push(prev, ts@[ts@.len() - 1]);
            lemma_tables_with_columns_views_push(pr, crows@, *cat, *sch, pairs@[i as int]);
            assert(ts@[ts@.len() - 1]@ == table_with_columns_view(
                crows@,
                *cat,
                *sch,
                pairs@[i as int],
            ));
            assert(table_schemas_view(ts@) =~= tables_with_columns_views(
                pairs@.subrange(0, i + 1),
                crows@,
                *cat,
                *sch,
            ));
        }
        i += 1;
    }
    proof {
        assert(pairs@.subrange(0, pairs@.len() as int) =~= pairs@);
    }
    ts
}

/// The schemas of catalog `cat`, each with its tables and columns.
fn schemas_with_columns_for(
    srows: &Vec<SchemaRow>,
    crows: &Vec<ColumnRow>,
    cat: &String,
) -> (ss: Vec<DbSchema>)
    ensures
        db_schemas_view(ss@) == schemas_with_columns_views(
            schema_rows_in(srows@, *cat),
            crows@,
            *cat,
        ),
{
    let mut ss: Vec<DbSchema> = Vec::new();
    let mut i: usize = 0;
    while i < srows.len()
        invariant
            i <= srows@.len(),
            db_schemas_view(ss@) =~= schemas_with_columns_views(
                schema_rows_in(srows@.subrange(0, i as int), *cat),
                crows@,
                *cat,
            ),
        decreases srows@.len() - i,
    {
        let ghost prev = ss@;
        let matched = srows[i].catalog_name == *cat;
        if matched {
            let ts = tables_from_columns(crows, cat, &srows[i].schema_name);
            ss.push(
                DbSchema {
                    db_schema_name: Some(srows[i].schema_name.clone()),
                    db_schema_tables: Some(ts),
                },
            );
        }
        proof {
            let prefix = srows@.subrange(0, i as int);
            let row = srows@[i as int];
            assert(srows@.subrange(0, i + 1) =~= prefix.push(row));
            lemma_schema_rows_in_push(prefix, *cat, row);
            if matched {
                lemma_db_schemas_view_push(prev, ss@[ss@.len() - 1]);
                lemma_schemas_with_columns_views_push(
                    schema_rows_in(prefix, *cat),
                    crows@,
                    *cat,
                    row,
                );
                assert(ss@[ss@.len() - 1]@ == schema_with_columns_view(crows@, *cat, row));
            }
            assert(db_schemas_view(ss@) =~= schemas_with_columns_views(
                schema_rows_in(srows@.subrange(0, i + 1), *cat),
                crows@,
                *cat,
            ));
        }
        i += 1;
    }
    proof {
        assert(srows@.subrange(0, srows@.len() as int) =~= srows@);
    }
    ss
}

/// Depth Columns and All: the schema skeleton with the tables and columns of
/// the joined column-level query.
pub fn assemble_columns(srows: &Vec<SchemaRow>, crows: &Vec<ColumnRow>) -> (cats: Vec<Catalog>)
    ensures
        forest_view(cats@) == assemble_columns_spec(srows@, crows@),
{
    let keys = distinct_catalog_names(srows);
    let mut cats: Vec<Catalog> = Vec::new();
    let mut i: usize = 0;
    while i < keys.len()
        invariant
            i <= keys@.len(),
            keys@ == dedup_str(catalog_keys(srows@)),
            cats@.len() == i,
            assemble_columns_spec(srows@, crows@).len() == keys@.len(),
            forest_view(cats@) =~= assemble_columns_spec(srows@, crows@).subrange(0, i as int),
        decreases keys@.len() - i,
    {
        let ghost prev = cats@;
        let ss = schemas_with_columns_for(srows, crows, &keys[i]);
        cats.push(Catalog { catalog_name: Some(keys[i].clone()), catalog_db_schemas: Some(ss) });
        proof {
            let sp = assemble_columns_spec(srows@, crows@);
            lemma_forest_view_push(prev, cats@[i as int]);
            assert(sp[i as int] == catalog_columns_view(srows@, crows@, keys@[i as int]));
            assert(cats@[i as int]@ == catalog_columns_view(srows@, crows@, keys@[i as int]));
            assert(forest_view(cats@) =~= sp.subrange(0, i + 1));
        }
        i += 1;
    }
    proof {
        let sp = assemble_columns_spec(srows@, crows@);
        assert(sp.subrange(0, sp.len() as int) =~= sp);
    }
    cats
}

} // verus!
