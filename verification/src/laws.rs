//! Depth monotonicity: assembling at a shallow depth yields exactly the
//! deep assembly with everything below that depth forced absent.
//!
//! The statement needs the row sets of the two depths to describe the same
//! backend state; where both assemblies read the same rows nothing is
//! assumed, and between the table-level and column-level queries the
//! assumption is that the table rows are the distinct table identities of
//! the column rows, in first-occurrence order.

use vstd::prelude::*;

use crate::assemble::{
    assemble_catalogs_spec, assemble_columns_spec, assemble_schemas_spec, assemble_tables_spec,
    catalog_columns_view, catalog_keys, catalog_only_view, catalog_schemas_view,
    catalog_tables_view, column_pair_of_row, column_pairs, column_rows_in, contains_pair,
    dedup_pair, dedup_str, distinct_pairs_in, pair_eqv, schema_only_view, schema_only_views,
    schema_rows_in, schema_with_columns_view, schema_with_tables_view, schemas_with_columns_views,
    schemas_with_tables_views, table_rows_in, table_row_matches, column_row_matches,
    table_view_of_row, table_views_of_rows, table_with_columns_view, tables_with_columns_views,
};
use crate::depth::ObjectDepth;
use crate::objects::assembled_at;
use crate::schemas::{CatalogView, ColumnRow, DbSchemaView, SchemaRow, TableRow, TableSchemaView};

verus! {

// ---------------------------------------------------------------------------
// Truncation: forcing the levels below a depth absent
// ---------------------------------------------------------------------------

/// A table with its column level forced absent.
pub open spec fn truncate_table(t: TableSchemaView) -> TableSchemaView {
    TableSchemaView { name: t.name, ty: t.ty, columns: None, constraints: None }
}

/// The tables of a schema with their column level forced absent.
pub open spec fn truncate_tables(ts: Seq<TableSchemaView>) -> Seq<TableSchemaView> {
    ts.map_values(|t: TableSchemaView| truncate_table(t))
}

/// A schema with everything below `level` forced absent.
pub open spec fn truncate_schema(s: DbSchemaView, level: int) -> DbSchemaView {
    DbSchemaView {
        name: s.name,
        tables: if level >= 3 {
            match s.tables {
                Some(ts) => Some(
                    if level >= 4 {
                        ts
                    } else {
                        truncate_tables(ts)
                    },
                ),
                None => None,
            }
        } else {
            None
        },
    }
}

/// The schemas of a catalog with everything below `level` forced absent.
pub open spec fn truncate_schemas(ss: Seq<DbSchemaView>, level: int) -> Seq<DbSchemaView> {
    ss.map_values(|s: DbSchemaView| truncate_schema(s, level))
}

/// A catalog with everything below `level` forced absent.
pub open spec fn truncate_catalog(c: CatalogView, level: int) -> CatalogView {
    CatalogView {
        name: c.name,
        schemas: if level >= 2 {
            match c.schemas {
                Some(ss) => Some(truncate_schemas(ss, level)),
                None => None,
            }
        } else {
            None
        },
    }
}

/// A forest with everything below `level` forced absent.
pub open spec fn truncate_forest(cats: Seq<CatalogView>, level: int) -> Seq<CatalogView> {
    cats.map_values(|c: CatalogView| truncate_catalog(c, level))
}

// ---------------------------------------------------------------------------
// The consistency relation between table-level and column-level rows
// ---------------------------------------------------------------------------

/// The identity of a table row.
pub open spec fn row_tuple(t: TableRow) -> (String, String, String, String) {
    (t.table_catalog, t.table_schema, t.table_name, t.table_type)
}

/// The identities of the table rows, in row order.
pub open spec fn table_tuples(ts: Seq<TableRow>) -> Seq<(String, String, String, String)> {
    ts.map_values(|t: TableRow| row_tuple(t))
}

/// The table identity a column row belongs to.
pub open spec fn col_tuple(c: ColumnRow) -> (String, String, String, String) {
    (c.table_catalog, c.table_schema, c.table_name, c.table_type)
}

/// The table identities of the column rows, in row order.
pub open spec fn col_tuples(cs: Seq<ColumnRow>) -> Seq<(String, String, String, String)> {
    cs.map_values(|c: ColumnRow| col_tuple(c))
}

/// Character-content equality of two table identities.
pub open spec fn tuple_eqv(
    a: (String, String, String, String),
    b: (String, String, String, String),
) -> bool {
    a.0@ == b.0@ && a.1@ == b.1@ && a.2@ == b.2@ && a.3@ == b.3@
}

/// Does `s` hold an identity with the same characters as `x`?
pub open spec fn contains_tuple(
    s: Seq<(String, String, String, String)>,
    x: (String, String, String, String),
) -> bool {
    exists|i: int| 0 <= i < s.len() && tuple_eqv(s[i], x)
}

/// The distinct identities of `s`, each kept at its first occurrence.
pub open spec fn dedup_tuple(s: Seq<(String, String, String, String)>) -> Seq<
    (String, String, String, String),
>
    decreases s.len(),
{
    if s.len() == 0 {
        Seq::empty()
    } else {
        let prev = dedup_tuple(s.drop_last());
        if contains_tuple(prev, s.last()) {
            prev
        } else {
            prev.push(s.last())
        }
    }
}

/// The table rows describe the same backend state as the column rows:
/// they are the distinct table identities of the column rows, in
/// first-occurrence order.
pub open spec fn rows_consistent(trows: Seq<TableRow>, crows: Seq<ColumnRow>) -> bool {
    table_tuples(trows) == dedup_tuple(col_tuples(crows))
}

/// Does the identity belong to (catalog, schema)?
pub open spec fn tuple_matches(x: (String, String, String, String), cat: String, sch: String) -> bool {
    x.0@ == cat@ && x.1@ == sch@
}

/// The identities of one (catalog, schema), in order.
pub open spec fn filter_tuples(
    s: Seq<(String, String, String, String)>,
    cat: String,
    sch: String,
) -> Seq<(String, String, String, String)>
    decreases s.len(),
{
    if s.len() == 0 {
        Seq::empty()
    } else {
        let prev = filter_tuples(s.drop_last(), cat, sch);
        if tuple_matches(s.last(), cat, sch) {
            prev.push(s.last())
        } else {
            prev
        }
    }
}

/// The (name, type) part of an identity.
pub open spec fn pair_of(x: (String, String, String, String)) -> (String, String) {
    (x.2, x.3)
}

/// The (name, type) parts of a sequence of identities.
pub open spec fn pairs_of(s: Seq<(String, String, String, String)>) -> Seq<(String, String)> {
    s.map_values(|x: (String, String, String, String)| pair_of(x))
}

proof fn lemma_dedup_tuple_push(s: Seq<(String, String, String, String)>, x: (String, String, String, String))
    ensures
        dedup_tuple(s.push(x)) == if contains_tuple(dedup_tuple(s), x) {
            dedup_tuple(s)
        } else {
            dedup_tuple(s).push(x)
        },
{
    assert(s.push(x).drop_last() =~= s);
    assert(s.push(x).last() == x);
}

proof fn lemma_filter_tuples_push(
    s: Seq<(String, String, String, String)>,
    cat: String,
    sch: String,
    x: (String, String, String, String),
)
    ensures
        filter_tuples(s.push(x), cat, sch) == if tuple_matches(x, cat, sch) {
            filter_tuples(s, cat, sch).push(x)
        } else {
            filter_tuples(s, cat, sch)
        },
{
    assert(s.push(x).drop_last() =~= s);
    assert(s.push(x).last() == x);
}

/// Membership over a push splits into the old part and the new element.
proof fn lemma_contains_tuple_push(
    s: Seq<(String, String, String, String)>,
    y: (String, String, String, String),
    x: (String, String, String, String),
)
    ensures
        contains_tuple(s.push(y), x) == (contains_tuple(s, x) || tuple_eqv(y, x)),
{
    if contains_tuple(s, x) {
        let i = choose|i: int| 0 <= i < s.len() && tuple_eqv(s[i], x);
        assert(tuple_eqv(s.push(y)[i], x));
    }
    if tuple_eqv(y, x) {
        assert(tuple_eqv(s.push(y)[s.len() as int], x));
    }
    if contains_tuple(s.push(y), x) {
        let i = choose|i: int| 0 <= i < s.push(y).len() && tuple_eqv(s.push(y)[i], x);
        if i < s.len() {
            assert(tuple_eqv(s[i], x));
        } else {
            assert(tuple_eqv(y, x));
        }
    }
}

/// Deduplication keeps exactly the identities that occur.
proof fn lemma_dedup_tuple_contains(
    s: Seq<(String, String, String, String)>,
    x: (String, String, String, String),
)
    ensures
        contains_tuple(dedup_tuple(s), x) == contains_tuple(s, x),
    decreases s.len(),
{
    if s.len() > 0 {
        let prev = dedup_tuple(s.drop_last());
        lemma_dedup_tuple_contains(s.drop_last(), x);
        assert(s.drop_last().push(s.last()) =~= s);
        lemma_contains_tuple_push(s.drop_last(), s.last(), x);
        if contains_tuple(prev, s.last()) {
            // the last element is already represented in prev
            if tuple_eqv(s.last(), x) {
                let i = choose|i: int| 0 <= i < prev.len() && tuple_eqv(prev[i], s.last());
                assert(tuple_eqv(prev[i], x));
            }
        } else {
            lemma_contains_tuple_push(prev, s.last(), x);
        }
    }
}

/// Filtering keeps exactly the matching identities that occur.
proof fn lemma_filter_tuples_contains(
    s: Seq<(String, String, String, String)>,
    cat: String,
    sch: String,
    x: (String, String, String, String),
)
    requires
        tuple_matches(x, cat, sch),
    ensures
        contains_tuple(filter_tuples(s, cat, sch), x) == contains_tuple(s, x),
    decreases s.len(),
{
    if s.len() > 0 {
        lemma_filter_tuples_contains(s.drop_last(), cat, sch, x);
        assert(s.drop_last().push(s.last()) =~= s);
        lemma_contains_tuple_push(s.drop_last(), s.last(), x);
        if tuple_matches(s.last(), cat, sch) {
            lemma_contains_tuple_push(filter_tuples(s.drop_last(), cat, sch), s.last(), x);
        } else {
            // an element of another bucket cannot stand for x
            assert(!tuple_eqv(s.last(), x));
        }
    }
}

/// Filtering a bucket commutes with deduplication.
proof fn lemma_filter_dedup_tuples(
    s: Seq<(String, String, String, String)>,
    cat: String,
    sch: String,
)
    ensures
        filter_tuples(dedup_tuple(s), cat, sch) == dedup_tuple(filter_tuples(s, cat, sch)),
    decreases s.len(),
{
    if s.len() > 0 {
        let rest = s.drop_last();
        let x = s.last();
        lemma_filter_dedup_tuples(rest, cat, sch);
        assert(rest.push(x) =~= s);
        if contains_tuple(dedup_tuple(rest), x) {
            lemma_dedup_tuple_contains(rest, x);
            if tuple_matches(x, cat, sch) {
                lemma_filter_tuples_contains(rest, cat, sch, x);
                lemma_dedup_tuple_contains(filter_tuples(rest, cat, sch), x);
                lemma_filter_tuples_push(rest, cat, sch, x);
                lemma_dedup_tuple_push(filter_tuples(rest, cat, sch), x);
            } else {
                lemma_filter_tuples_push(rest, cat, sch, x);
            }
        } else {
            lemma_dedup_tuple_contains(rest, x);
            lemma_filter_tuples_push(dedup_tuple(rest), cat, sch, x);
            if tuple_matches(x, cat, sch) {
                lemma_filter_tuples_contains(rest, cat, sch, x);
                lemma_dedup_tuple_contains(filter_tuples(rest, cat, sch), x);
                lemma_filter_tuples_push(rest, cat, sch, x);
                lemma_dedup_tuple_push(filter_tuples(rest, cat, sch), x);
            } else {
                lemma_filter_tuples_push(rest, cat, sch, x);
            }
        }
    }
}

/// Within one bucket, identity equality is (name, type) equality.
proof fn lemma_pairs_contains(
    s: Seq<(String, String, String, String)>,
    cat: String,
    sch: String,
    x: (String, String, String, String),
)
    requires
        tuple_matches(x, cat, sch),
        forall|i: int| 0 <= i < s.len() ==> tuple_matches(#[trigger] s[i], cat, sch),
    ensures
        contains_pair(pairs_of(s), pair_of(x)) == contains_tuple(s, x),
{
    if contains_tuple(s, x) {
        let i = choose|i: int| 0 <= i < s.len() && tuple_eqv(s[i], x);
        assert(pair_eqv(pairs_of(s)[i], pair_of(x)));
    }
    if contains_pair(pairs_of(s), pair_of(x)) {
        let i = choose|i: int|
            0 <= i < pairs_of(s).len() && pair_eqv(pairs_of(s)[i], pair_of(x));
        assert(tuple_eqv(s[i], x));
    }
}

proof fn lemma_pairs_of_push(
    s: Seq<(String, String, String, String)>,
    x: (String, String, String, String),
)
    ensures
        pairs_of(s.push(x)) =~= pairs_of(s).push(pair_of(x)),
{
}

/// Within one bucket, projecting to (name, type) commutes with
/// deduplication.
proof fn lemma_pairs_of_dedup(s: Seq<(String, String, String, String)>, cat: String, sch: String)
    requires
        forall|i: int| 0 <= i < s.len() ==> tuple_matches(#[trigger] s[i], cat, sch),
    ensures
        pairs_of(dedup_tuple(s)) == dedup_pair(pairs_of(s)),
    decreases s.len(),
{
    if s.len() == 0 {
        assert(pairs_of(dedup_tuple(s)) =~= dedup_pair(pairs_of(s)));
    } else {
        let rest = s.drop_last();
        let x = s.last();
        assert(forall|i: int| 0 <= i < rest.len() ==> tuple_matches(#[trigger] rest[i], cat, sch));
        lemma_pairs_of_dedup(rest, cat, sch);
        assert(rest.push(x) =~= s);
        assert(pairs_of(rest).push(pair_of(x)) =~= pairs_of(s)) by {
            lemma_pairs_of_push(rest, x);
        }
        lemma_dedup_pair_push_here(pairs_of(rest), pair_of(x));
        // dedup keeps only occurring identities, so membership transfers
        assert(forall|i: int|
            0 <= i < dedup_tuple(rest).len() ==> tuple_matches(
                #[trigger] dedup_tuple(rest)[i],
                cat,
                sch,
            )) by {
            lemma_dedup_tuple_elements(rest, cat, sch);
        }
        lemma_pairs_contains(dedup_tuple(rest), cat, sch, x);
        lemma_pairs_of_dedup_helper(rest, x);
        if contains_tuple(dedup_tuple(rest), x) {
        } else {
            lemma_pairs_of_push(dedup_tuple(rest), x);
        }
    }
}

/// `dedup_pair` over a push, restated here to keep the proof local.
proof fn lemma_dedup_pair_push_here(s: Seq<(String, String)>, x: (String, String))
    ensures
        dedup_pair(s.push(x)) == if contains_pair(dedup_pair(s), x) {
            dedup_pair(s)
        } else {
            dedup_pair(s).push(x)
        },
{
    assert(s.push(x).drop_last() =~= s);
    assert(s.push(x).last() == x);
}

/// Pair membership in the deduplicated projection equals pair membership
/// in the projection.
proof fn lemma_pairs_of_dedup_helper(
    rest: Seq<(String, String, String, String)>,
    x: (String, String, String, String),
)
    ensures
        contains_pair(dedup_pair(pairs_of(rest)), pair_of(x)) == contains_pair(
            pairs_of(rest),
            pair_of(x),
        ),
    decreases rest.len(),
{
    lemma_dedup_pair_contains(pairs_of(rest), pair_of(x));
}

/// Deduplication of pairs keeps exactly the pairs that occur.
proof fn lemma_dedup_pair_contains(s: Seq<(String, String)>, x: (String, String))
    ensures
        contains_pair(dedup_pair(s), x) == contains_pair(s, x),
    decreases s.len(),
{
    if s.len() > 0 {
        let prev = dedup_pair(s.drop_last());
        lemma_dedup_pair_contains(s.drop_last(), x);
        assert(s.drop_last().push(s.last()) =~= s);
        lemma_contains_pair_push(s.drop_last(), s.last(), x);
        if contains_pair(prev, s.last()) {
            if pair_eqv(s.last(), x) {
                let i = choose|i: int| 0 <= i < prev.len() && pair_eqv(prev[i], s.last());
                assert(pair_eqv(prev[i], x));
            }
        } else {
            lemma_contains_pair_push(prev, s.last(), x);
        }
    }
}

proof fn lemma_contains_pair_push(
    s: Seq<(String, String)>,
    y: (String, String),
    x: (String, String),
)
    ensures
        contains_pair(s.push(y), x) == (contains_pair(s, x) || pair_eqv(y, x)),
{
    if contains_pair(s, x) {
        let i = choose|i: int| 0 <= i < s.len() && pair_eqv(s[i], x);
        assert(pair_eqv(s.push(y)[i], x));
    }
    if pair_eqv(y, x) {
        assert(pair_eqv(s.push(y)[s.len() as int], x));
    }
    if contains_pair(s.push(y), x) {
        let i = choose|i: int| 0 <= i < s.push(y).len() && pair_eqv(s.push(y)[i], x);
        if i < s.len() {
            assert(pair_eqv(s[i], x));
        } else {
            assert(pair_eqv(y, x));
        }
    }
}

/// Every identity the deduplicated bucket keeps matches the bucket key.
proof fn lemma_dedup_tuple_elements(
    s: Seq<(String, String, String, String)>,
    cat: String,
    sch: String,
)
    requires
        forall|i: int| 0 <= i < s.len() ==> tuple_matches(#[trigger] s[i], cat, sch),
    ensures
        forall|i: int|
            0 <= i < dedup_tuple(s).len() ==> tuple_matches(#[trigger] dedup_tuple(s)[i], cat, sch),
    decreases s.len(),
{
    if s.len() > 0 {
        let rest = s.drop_last();
        assert(forall|i: int| 0 <= i < rest.len() ==> tuple_matches(#[trigger] rest[i], cat, sch));
        lemma_dedup_tuple_elements(rest, cat, sch);
        let prev = dedup_tuple(rest);
        assert(tuple_matches(s[s.len() - 1], cat, sch));
        assert forall|i: int| 0 <= i < dedup_tuple(s).len() implies tuple_matches(
            #[trigger] dedup_tuple(s)[i],
            cat,
            sch,
        ) by {
            if !contains_tuple(prev, s.last()) && i == prev.len() {
                assert(dedup_tuple(s)[i] == s.last());
            } else {
                assert(dedup_tuple(s)[i] == prev[i]);
            }
        }
    }
}

/// Every identity a filtered bucket holds matches the bucket key.
proof fn lemma_filter_tuples_elements(
    s: Seq<(String, String, String, String)>,
    cat: String,
    sch: String,
)
    ensures
        forall|i: int|
            0 <= i < filter_tuples(s, cat, sch).len() ==> tuple_matches(
                #[trigger] filter_tuples(s, cat, sch)[i],
                cat,
                sch,
            ),
    decreases s.len(),
{
    if s.len() > 0 {
        let rest = s.drop_last();
        lemma_filter_tuples_elements(rest, cat, sch);
        let prev = filter_tuples(rest, cat, sch);
        assert forall|i: int| 0 <= i < filter_tuples(s, cat, sch).len() implies tuple_matches(
            #[trigger] filter_tuples(s, cat, sch)[i],
            cat,
            sch,
        ) by {
            if tuple_matches(s.last(), cat, sch) && i == prev.len() {
                assert(filter_tuples(s, cat, sch)[i] == s.last());
            } else {
                assert(filter_tuples(s, cat, sch)[i] == prev[i]);
            }
        }
    }
}

// ---------------------------------------------------------------------------
// Truncating to catalogs or schemas
// ---------------------------------------------------------------------------

/// Truncating any assembly to the catalog level leaves the distinct
/// catalogs alone.
proof fn lemma_truncate_to_catalogs(
    depth: ObjectDepth,
    srows: Seq<SchemaRow>,
    trows: Seq<TableRow>,
    crows: Seq<ColumnRow>,
)
    ensures
        truncate_forest(assembled_at(depth, srows, trows, crows), 1) == assemble_catalogs_spec(
            srows,
        ),
{
    let cats = assembled_at(depth, srows, trows, crows);
    let keys = dedup_str(catalog_keys(srows));
    assert forall|i: int| 0 <= i < keys.len() implies truncate_forest(cats, 1)[i]
        == assemble_catalogs_spec(srows)[i] by {
        assert(truncate_forest(cats, 1)[i] == truncate_catalog(cats[i], 1));
        assert(assemble_catalogs_spec(srows)[i] == catalog_only_view(keys[i]));
    }
    assert(truncate_forest(cats, 1) =~= assemble_catalogs_spec(srows));
}

/// Truncating the table-level or column-level assembly to the schema
/// level yields the schema-level assembly.
proof fn lemma_truncate_to_schemas(
    depth: ObjectDepth,
    srows: Seq<SchemaRow>,
    trows: Seq<TableRow>,
    crows: Seq<ColumnRow>,
)
    requires
        depth.level() >= 3,
    ensures
        truncate_forest(assembled_at(depth, srows, trows, crows), 2) == assemble_schemas_spec(
            srows,
        ),
{
    let cats = assembled_at(depth, srows, trows, crows);
    let keys = dedup_str(catalog_keys(srows));
    assert forall|i: int| 0 <= i < keys.len() implies truncate_forest(cats, 2)[i]
        == assemble_schemas_spec(srows)[i] by {
        let cat = keys[i];
        let bucket = schema_rows_in(srows, cat);
        assert(truncate_forest(cats, 2)[i] == truncate_catalog(cats[i], 2));
        assert(assemble_schemas_spec(srows)[i] == catalog_schemas_view(srows, cat));
        match depth {
            ObjectDepth::Tables => {
                assert(cats[i] == catalog_tables_view(srows, trows, cat));
                assert forall|j: int| 0 <= j < bucket.len() implies truncate_schemas(
                    schemas_with_tables_views(bucket, trows, cat),
                    2,
                )[j] == schema_only_views(bucket)[j] by {
                    assert(schemas_with_tables_views(bucket, trows, cat)[j]
                        == schema_with_tables_view(trows, cat, bucket[j]));
                    assert(schema_only_views(bucket)[j] == schema_only_view(bucket[j]));
                }
                assert(truncate_schemas(schemas_with_tables_views(bucket, trows, cat), 2)
                    =~= schema_only_views(bucket));
                assert(truncate_catalog(cats[i], 2) =~~= catalog_schemas_view(srows, cat));
            },
            _ => {
                assert(cats[i] == catalog_columns_view(srows, crows, cat));
                assert forall|j: int| 0 <= j < bucket.len() implies truncate_schemas(
                    schemas_with_columns_views(bucket, crows, cat),
                    2,
                )[j] == schema_only_views(bucket)[j] by {
                    assert(schemas_with_columns_views(bucket, crows, cat)[j]
                        == schema_with_columns_view(crows, cat, bucket[j]));
                    assert(schema_only_views(bucket)[j] == schema_only_view(bucket[j]));
                }
                assert(truncate_schemas(schemas_with_columns_views(bucket, crows, cat), 2)
                    =~= schema_only_views(bucket));
                assert(truncate_catalog(cats[i], 2) =~~= catalog_schemas_view(srows, cat));
            },
        }
    }
    assert(truncate_forest(cats, 2) =~= assemble_schemas_spec(srows));
}

// ---------------------------------------------------------------------------
// Truncating the column-level assembly to tables
// ---------------------------------------------------------------------------

proof fn lemma_table_tuples_push(ts: Seq<TableRow>, x: TableRow)
    ensures
        table_tuples(ts.push(x)) =~= table_tuples(ts).push(row_tuple(x)),
{
}

proof fn lemma_col_tuples_push(cs: Seq<ColumnRow>, x: ColumnRow)
    ensures
        col_tuples(cs.push(x)) =~= col_tuples(cs).push(col_tuple(x)),
{
}

/// The identities of a table-row bucket are the filtered identities.
proof fn lemma_table_bucket_tuples(trows: Seq<TableRow>, cat: String, sch: String)
    ensures
        table_tuples(table_rows_in(trows, cat, sch)) == filter_tuples(
            table_tuples(trows),
            cat,
            sch,
        ),
    decreases trows.len(),
{
    if trows.len() > 0 {
        let rest = trows.drop_last();
        let x = trows.last();
        lemma_table_bucket_tuples(rest, cat, sch);
        assert(rest.push(x) =~= trows);
        lemma_table_tuples_push(rest, x);
        lemma_filter_tuples_push(table_tuples(rest), cat, sch, row_tuple(x));
        if table_row_matches(x, cat, sch) {
            lemma_table_tuples_push(table_rows_in(rest, cat, sch), x);
        }
    }
}

/// The identities of a column-row bucket are the filtered identities.
proof fn lemma_col_bucket_tuples(crows: Seq<ColumnRow>, cat: String, sch: String)
    ensures
        col_tuples(column_rows_in(crows, cat, sch)) == filter_tuples(col_tuples(crows), cat, sch),
    decreases crows.len(),
{
    if crows.len() > 0 {
        let rest = crows.drop_last();
        let x = crows.last();
        lemma_col_bucket_tuples(rest, cat, sch);
        assert(rest.push(x) =~= crows);
        lemma_col_tuples_push(rest, x);
        lemma_filter_tuples_push(col_tuples(rest), cat, sch, col_tuple(x));
        if column_row_matches(x, cat, sch) {
            lemma_col_tuples_push(column_rows_in(rest, cat, sch), x);
        }
    }
}

/// Under row consistency, the distinct (name, type) pairs a schema's
/// column rows yield are exactly the (name, type) projections of its
/// table-row bucket, in the same order.
proof fn lemma_bucket_pairs(
    trows: Seq<TableRow>,
    crows: Seq<ColumnRow>,
    cat: String,
    sch: String,
)
    requires
        rows_consistent(trows, crows),
    ensures
        pairs_of(table_tuples(table_rows_in(trows, cat, sch))) == distinct_pairs_in(
            crows,
            cat,
            sch,
        ),
{
    let ct = col_tuples(crows);
    lemma_table_bucket_tuples(trows, cat, sch);
    lemma_filter_dedup_tuples(ct, cat, sch);
    assert(pairs_of(table_tuples(table_rows_in(trows, cat, sch))) == pairs_of(
        dedup_tuple(filter_tuples(ct, cat, sch)),
    ));
    lemma_filter_tuples_elements(ct, cat, sch);
    lemma_pairs_of_dedup(filter_tuples(ct, cat, sch), cat, sch);
    lemma_col_bucket_tuples(crows, cat, sch);
    assert(pairs_of(col_tuples(column_rows_in(crows, cat, sch))) =~= column_pairs(
        column_rows_in(crows, cat, sch),
    ));
}

/// Truncating the column-level assembly to the table level yields the
/// table-level assembly, provided the two row sets describe the same
/// backend state.
proof fn lemma_truncate_to_tables(
    srows: Seq<SchemaRow>,
    trows: Seq<TableRow>,
    crows: Seq<ColumnRow>,
)
    requires
        rows_consistent(trows, crows),
    ensures
        truncate_forest(assemble_columns_spec(srows, crows), 3) == assemble_tables_spec(
            srows,
            trows,
        ),
{
    let cats = assemble_columns_spec(srows, crows);
    let keys = dedup_str(catalog_keys(srows));
    assert forall|i: int| 0 <= i < keys.len() implies truncate_forest(cats, 3)[i]
        == assemble_tables_spec(srows, trows)[i] by {
        let cat = keys[i];
        let bucket = schema_rows_in(srows, cat);
        assert(cats[i] == catalog_columns_view(srows, crows, cat));
        assert(truncate_forest(cats, 3)[i] == truncate_catalog(cats[i], 3));
        assert(assemble_tables_spec(srows, trows)[i] == catalog_tables_view(srows, trows, cat));
        assert forall|j: int| 0 <= j < bucket.len() implies truncate_schemas(
            schemas_with_columns_views(bucket, crows, cat),
            3,
        )[j] == schemas_with_tables_views(bucket, trows, cat)[j] by {
            let r = bucket[j];
            let sch = r.schema_name;
            assert(schemas_with_columns_views(bucket, crows, cat)[j] == schema_with_columns_view(
                crows,
                cat,
                r,
            ));
            assert(schemas_with_tables_views(bucket, trows, cat)[j] == schema_with_tables_view(
                trows,
                cat,
                r,
            ));
            lemma_bucket_pairs(trows, crows, cat, sch);
            let pairs = distinct_pairs_in(crows, cat, sch);
            let tb = table_rows_in(trows, cat, sch);
            assert(pairs_of(table_tuples(tb)) == pairs);
            assert(pairs.len() == tb.len());
            assert forall|k: int| 0 <= k < pairs.len() implies truncate_tables(
                tables_with_columns_views(pairs, crows, cat, sch),
            )[k] == table_views_of_rows(tb)[k] by {
                assert(tables_with_columns_views(pairs, crows, cat, sch)[k]
                    == table_with_columns_view(crows, cat, sch, pairs[k]));
                assert(table_views_of_rows(tb)[k] == table_view_of_row(tb[k]));
                assert(pairs[k] == pairs_of(table_tuples(tb))[k]);
                assert(pairs_of(table_tuples(tb))[k] == pair_of(table_tuples(tb)[k]));
                assert(table_tuples(tb)[k] == row_tuple(tb[k]));
            }
            assert(truncate_tables(tables_with_columns_views(pairs, crows, cat, sch))
                =~= table_views_of_rows(tb));
            assert(truncate_schemas(schemas_with_columns_views(bucket, crows, cat), 3)[j]
                =~~= schemas_with_tables_views(bucket, trows, cat)[j]);
        }
        assert(truncate_schemas(schemas_with_columns_views(bucket, crows, cat), 3)
            =~= schemas_with_tables_views(bucket, trows, cat));
        assert(truncate_forest(cats, 3)[i] =~~= assemble_tables_spec(srows, trows)[i]);
    }
    assert(truncate_forest(cats, 3) =~= assemble_tables_spec(srows, trows));
}

// ---------------------------------------------------------------------------
// The law
// ---------------------------------------------------------------------------

/// Depth monotonicity: for depths d1 below d2, the record assembled at d1
/// is exactly the record assembled at d2 with every level below d1 forced
/// absent.  Between the table-level and column-level queries this needs
/// [`rows_consistent`]: the table rows are the distinct table identities
/// of the column rows.  Where both depths read only the schema-level rows
/// nothing is assumed.
pub proof fn lemma_depth_monotonic(
    d1: ObjectDepth,
    d2: ObjectDepth,
    srows: Seq<SchemaRow>,
    trows: Seq<TableRow>,
    crows: Seq<ColumnRow>,
)
    requires
        d1.level() < d2.level(),
        d1 is Tables ==> rows_consistent(trows, crows),
    ensures
        truncate_forest(assembled_at(d2, srows, trows, crows), d1.level()) == assembled_at(
            d1,
            srows,
            trows,
            crows,
        ),
{
    if d1 is Catalogs {
        lemma_truncate_to_catalogs(d2, srows, trows, crows);
    } else if d1 is Schemas {
        lemma_truncate_to_schemas(d2, srows, trows, crows);
    } else {
        lemma_truncate_to_tables(srows, trows, crows);
    }
}

/// The same law at the record level: a record built at a shallow depth
/// decodes to exactly the truncation of what a record built at a deeper
/// depth decodes to.
pub proof fn lemma_records_depth_monotonic(
    d1: ObjectDepth,
    d2: ObjectDepth,
    srows: Seq<SchemaRow>,
    trows: Seq<TableRow>,
    crows: Seq<ColumnRow>,
    shallow: crate::record::ObjectsRecord,
    deep: crate::record::ObjectsRecord,
)
    requires
        d1.level() < d2.level(),
        d1 is Tables ==> rows_consistent(trows, crows),
        crate::record::decode_objects(shallow) == assembled_at(d1, srows, trows, crows),
        crate::record::decode_objects(deep) == assembled_at(d2, srows, trows, crows),
    ensures
        crate::record::decode_objects(shallow) == truncate_forest(
            crate::record::decode_objects(deep),
            d1.level(),
        ),
{
    lemma_depth_monotonic(d1, d2, srows, trows, crows);
}

} // verus!
