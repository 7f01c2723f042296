//! The nested columnar record a discovery call returns.
//!
//! The record's shape is fixed by the external contract: every level is
//! present whatever the requested depth.  A level that was traversed is a
//! list column built from an offset buffer (length = parent count + 1,
//! non-decreasing, first offset 0, last offset = flattened child count)
//! over a flattened child array; a level that was not traversed is a null
//! list sized to the parent cardinality, never a zero-length array and
//! never an error.

use vstd::prelude::*;

use crate::schemas::{
    Catalog, CatalogView, ColumnSchema, DbSchema, DbSchemaView, TableSchema, TableSchemaView,
    db_schemas_view, forest_view, lemma_db_schemas_view_concat, lemma_table_schemas_view_concat,
    table_schemas_view,
};

verus! {

/// One list column: a per-parent offset buffer and validity.  Parent row `i`
/// holds the children at flattened indices `offsets[i] .. offsets[i+1]`; a
/// row whose validity is false is a null list and holds no children.
pub struct ListColumn {
    pub offsets: Vec<usize>,
    pub validity: Vec<bool>,
}

/// The discovery result as one columnar record: a string column per name
/// field, a list column per nesting level, and the flattened child arrays.
pub struct ObjectsRecord {
    pub catalog_name: Vec<Option<String>>,
    pub catalog_db_schemas: ListColumn,
    pub db_schema_name: Vec<Option<String>>,
    pub db_schema_tables: ListColumn,
    pub table_name: Vec<String>,
    pub table_type: Vec<String>,
    pub table_columns: ListColumn,
    pub table_constraints: ListColumn,
    pub column_data: Vec<ColumnSchema>,
}

/// Offset-buffer well-formedness of one list column over `parent` rows and
/// `children` flattened rows.
pub open spec fn list_column_wf(lc: ListColumn, parent: int, children: int) -> bool {
    &&& lc.offsets@.len() == parent + 1
    &&& lc.validity@.len() == parent
    &&& lc.offsets@[0] == 0
    &&& lc.offsets@[parent] == children
    &&& forall|i: int| 0 <= i < parent ==> #[trigger] lc.offsets@[i] <= lc.offsets@[i + 1]
    &&& forall|i: int|
        0 <= i < parent && !lc.validity@[i] ==> #[trigger] lc.offsets@[i + 1] == lc.offsets@[i]
}

/// Offset-buffer well-formedness of the whole record: every list column's
/// offsets slice its child array, and the constraint level is always empty.
pub open spec fn record_wf(r: ObjectsRecord) -> bool {
    &&& list_column_wf(r.catalog_db_schemas, r.catalog_name@.len() as int, r.db_schema_name@.len() as int)
    &&& list_column_wf(r.db_schema_tables, r.db_schema_name@.len() as int, r.table_name@.len() as int)
    &&& r.table_type@.len() == r.table_name@.len()
    &&& list_column_wf(r.table_columns, r.table_name@.len() as int, r.column_data@.len() as int)
    &&& list_column_wf(r.table_constraints, r.table_name@.len() as int, 0)
}

// ---------------------------------------------------------------------------
// Decoding: the forest a well-formed record denotes
// ---------------------------------------------------------------------------

/// The table at flattened table row `k`.
pub open spec fn record_table_view(r: ObjectsRecord, k: int) -> TableSchemaView {
    TableSchemaView {
        name: r.table_name@[k],
        ty: r.table_type@[k],
        columns: if r.table_columns.validity@[k] {
            Some(
                Seq::new(
                    (r.table_columns.offsets@[k + 1] - r.table_columns.offsets@[k]) as nat,
                    |m: int| r.column_data@[r.table_columns.offsets@[k] + m],
                ),
            )
        } else {
            None
        },
        constraints: if r.table_constraints.validity@[k] {
            Some(Seq::empty())
        } else {
            None
        },
    }
}

/// The schema at flattened schema row `k`.
pub open spec fn record_schema_view(r: ObjectsRecord, k: int) -> DbSchemaView {
    DbSchemaView {
        name: r.db_schema_name@[k],
        tables: if r.db_schema_tables.validity@[k] {
            Some(
                Seq::new(
                    (r.db_schema_tables.offsets@[k + 1] - r.db_schema_tables.offsets@[k]) as nat,
                    |m: int| record_table_view(r, r.db_schema_tables.offsets@[k] + m),
                ),
            )
        } else {
            None
        },
    }
}

/// The forest the record denotes: decoding reads each level back through
/// its offset buffer, a false validity bit giving an absent level.
pub open spec fn decode_objects(r: ObjectsRecord) -> Seq<CatalogView> {
    Seq::new(
        r.catalog_name@.len(),
        |i: int| CatalogView {
            name: r.catalog_name@[i],
            schemas: if r.catalog_db_schemas.validity@[i] {
                Some(
                    Seq::new(
                        (r.catalog_db_schemas.offsets@[i + 1]
                            - r.catalog_db_schemas.offsets@[i]) as nat,
                        |j: int| record_schema_view(r, r.catalog_db_schemas.offsets@[i] + j),
                    ),
                )
            } else {
                None
            },
        },
    )
}

// ---------------------------------------------------------------------------
// Encodability: constraints are out of scope, so the encoder only accepts
// forests whose constraint lists are absent or empty
// ---------------------------------------------------------------------------

/// No table of the sequence carries constraint entries.
pub open spec fn tables_encodable(ts: Seq<TableSchemaView>) -> bool {
    forall|i: int|
        0 <= i < ts.len() ==> (#[trigger] ts[i].constraints matches Some(xs) ==> xs.len() == 0)
}

/// No table of any schema carries constraint entries.
pub open spec fn schemas_encodable(ss: Seq<DbSchemaView>) -> bool {
    forall|i: int|
        0 <= i < ss.len() ==> (#[trigger] ss[i].tables matches Some(ts) ==> tables_encodable(ts))
}

/// No table anywhere in the forest carries constraint entries.
pub open spec fn forest_encodable(cats: Seq<CatalogView>) -> bool {
    forall|i: int|
        0 <= i < cats.len() ==> (#[trigger] cats[i].schemas matches Some(ss) ==> schemas_encodable(
            ss,
        ))
}

// ---------------------------------------------------------------------------
// Per-level encoding relations
// ---------------------------------------------------------------------------

/// Parent row `i` of the catalog level is encoded: its name is in the name
/// column, its validity bit says whether schemas were traversed, and its
/// offset range slices exactly its children out of the flattened child
/// sequence.
pub open spec fn cat_slot_ok(
    c: CatalogView,
    names: Seq<Option<String>>,
    offsets: Seq<usize>,
    validity: Seq<bool>,
    children: Seq<DbSchemaView>,
    i: int,
) -> bool {
    &&& names[i] == c.name
    &&& validity[i] == (c.schemas is Some)
    &&& offsets[i] <= offsets[i + 1] <= children.len()
    &&& match c.schemas {
        Some(ss) => offsets[i + 1] == offsets[i] + ss.len() && children.subrange(
            offsets[i] as int,
            offsets[i + 1] as int,
        ) == ss,
        None => offsets[i + 1] == offsets[i],
    }
}

/// The whole catalog level is encoded over the flattened schema views.
pub open spec fn cat_level_encodes(
    cats: Seq<CatalogView>,
    names: Seq<Option<String>>,
    offsets: Seq<usize>,
    validity: Seq<bool>,
    children: Seq<DbSchemaView>,
) -> bool {
    &&& names.len() == cats.len()
    &&& offsets.len() == cats.len() + 1
    &&& validity.len() == cats.len()
    &&& offsets[0] == 0
    &&& offsets[cats.len() as int] == children.len()
    &&& forall|i: int|
        0 <= i < cats.len() ==> #[trigger] cat_slot_ok(cats[i], names, offsets, validity, children, i)
}

/// Schema row `k` is encoded, as [`cat_slot_ok`] one level down.
pub open spec fn schema_slot_ok(
    s: DbSchemaView,
    names: Seq<Option<String>>,
    offsets: Seq<usize>,
    validity: Seq<bool>,
    children: Seq<TableSchemaView>,
    k: int,
) -> bool {
    &&& names[k] == s.name
    &&& validity[k] == (s.tables is Some)
    &&& offsets[k] <= offsets[k + 1] <= children.len()
    &&& match s.tables {
        Some(ts) => offsets[k + 1] == offsets[k] + ts.len() && children.subrange(
            offsets[k] as int,
            offsets[k + 1] as int,
        ) == ts,
        None => offsets[k + 1] == offsets[k],
    }
}

/// The whole schema level is encoded over the flattened table views.
pub open spec fn schema_level_encodes(
    ss: Seq<DbSchemaView>,
    names: Seq<Option<String>>,
    offsets: Seq<usize>,
    validity: Seq<bool>,
    children: Seq<TableSchemaView>,
) -> bool {
    &&& names.len() == ss.len()
    &&& offsets.len() == ss.len() + 1
    &&& validity.len() == ss.len()
    &&& offsets[0] == 0
    &&& offsets[ss.len() as int] == children.len()
    &&& forall|k: int|
        0 <= k < ss.len() ==> #[trigger] schema_slot_ok(ss[k], names, offsets, validity, children, k)
}

/// Table row `k` is encoded: name and type columns, the column list sliced
/// by its offset range, and an always-empty constraint range.
pub open spec fn table_slot_ok(
    t: TableSchemaView,
    names: Seq<String>,
    types: Seq<String>,
    col_offsets: Seq<usize>,
    col_validity: Seq<bool>,
    con_offsets: Seq<usize>,
    con_validity: Seq<bool>,
    cols: Seq<ColumnSchema>,
    k: int,
) -> bool {
    &&& names[k] == t.name
    &&& types[k] == t.ty
    &&& col_validity[k] == (t.columns is Some)
    &&& col_offsets[k] <= col_offsets[k + 1] <= cols.len()
    &&& match t.columns {
        Some(cs) => col_offsets[k + 1] == col_offsets[k] + cs.len() && cols.subrange(
            col_offsets[k] as int,
            col_offsets[k + 1] as int,
        ) == cs,
        None => col_offsets[k + 1] == col_offsets[k],
    }
    &&& con_validity[k] == (t.constraints is Some)
    &&& con_offsets[k + 1] == con_offsets[k]
}

/// The whole table level is encoded over the flattened column entities.
pub open spec fn table_level_encodes(
    ts: Seq<TableSchemaView>,
    names: Seq<String>,
    types: Seq<String>,
    col_offsets: Seq<usize>,
    col_validity: Seq<bool>,
    con_offsets: Seq<usize>,
    con_validity: Seq<bool>,
    cols: Seq<ColumnSchema>,
) -> bool {
    &&& names.len() == ts.len()
    &&& types.len() == ts.len()
    &&& col_offsets.len() == ts.len() + 1
    &&& col_validity.len() == ts.len()
    &&& con_offsets.len() == ts.len() + 1
    &&& con_validity.len() == ts.len()
    &&& col_offsets[0] == 0
    &&& col_offsets[ts.len() as int] == cols.len()
    &&& con_offsets[0] == 0
    &&& con_offsets[ts.len() as int] == 0
    &&& forall|k: int|
        0 <= k < ts.len() ==> #[trigger] table_slot_ok(
            ts[k],
            names,
            types,
            col_offsets,
            col_validity,
            con_offsets,
            con_validity,
            cols,
            k,
        )
}

// ---------------------------------------------------------------------------
// Level-by-level encoding
// ---------------------------------------------------------------------------

/// Splits the catalog level off the forest: name column, offset buffer and
/// validity over the catalogs, and the flattened schemas.
fn split_catalogs(cats: Vec<Catalog>) -> (out: (Vec<Option<String>>, Vec<usize>, Vec<bool>, Vec<
    DbSchema,
>))
    ensures
        cat_level_encodes(forest_view(cats@), out.0@, out.1@, out.2@, db_schemas_view(out.3@)),
        forest_encodable(forest_view(cats@)) ==> schemas_encodable(db_schemas_view(out.3@)),
{
    let ghost orig = cats@;
    let mut rest = cats;
    let mut names: Vec<Option<String>> = Vec::new();
    let mut offsets: Vec<usize> = Vec::new();
    let mut validity: Vec<bool> = Vec::new();
    let mut flat: Vec<DbSchema> = Vec::new();
    offsets.push(0);
    let n = rest.len();
    let mut i: usize = 0;
    while i < n
        invariant
            i <= n,
            n == orig.len(),
            rest@ =~= orig.subrange(i as int, n as int),
            names@.len() == i,
            offsets@.len() == i + 1,
            validity@.len() == i,
            offsets@[0] == 0,
            offsets@[i as int] == flat@.len(),
            forall|k: int|
                0 <= k < i ==> #[trigger] cat_slot_ok(
                    forest_view(orig)[k],
                    names@,
                    offsets@,
                    validity@,
                    db_schemas_view(flat@),
                    k,
                ),
            forest_encodable(forest_view(orig)) ==> schemas_encodable(db_schemas_view(flat@)),
        decreases n - i,
    {
        let c = rest.remove(0);
        proof {
            assert(orig.subrange(i as int, n as int)[0] == orig[i as int]);
            assert(rest@ =~= orig.subrange(i + 1, n as int));
        }
        let ghost flat_before = flat@;
        let ghost names_before = names@;
        let ghost offsets_before = offsets@;
        let ghost validity_before = validity@;
        match &c.catalog_name {
            Some(s) => {
                let copy = s.clone();
                names.push(Some(copy));
            },
            None => {
                names.push(None);
            },
        }
        match c.catalog_db_schemas {
            None => {
                validity.push(false);
                let last = flat.len();
                offsets.push(last);
            },
            Some(mut ss) => {
                validity.push(true);
                proof {
                    lemma_db_schemas_view_concat(flat@, ss@);
                }
                flat.append(&mut ss);
                let last = flat.len();
                offsets.push(last);
            },
        }
        proof {
            let cv = forest_view(orig)[i as int];
            assert(cv == c@);
            assert(names@[i as int] == cv.name);
            // the slots already placed see the same slices after the append
            assert forall|k: int| 0 <= k < i implies #[trigger] cat_slot_ok(
                forest_view(orig)[k],
                names@,
                offsets@,
                validity@,
                db_schemas_view(flat@),
                k,
            ) by {
                assert(cat_slot_ok(
                    forest_view(orig)[k],
                    names_before,
                    offsets_before,
                    validity_before,
                    db_schemas_view(flat_before),
                    k,
                ));
                let o1 = offsets_before[k] as int;
                let o2 = offsets_before[k + 1] as int;
                assert(db_schemas_view(flat@).subrange(o1, o2) =~= db_schemas_view(
                    flat_before,
                ).subrange(o1, o2));
            }
            // the new slot is encoded
            assert(cat_slot_ok(
                forest_view(orig)[i as int],
                names@,
                offsets@,
                validity@,
                db_schemas_view(flat@),
                i as int,
            )) by {
                match cv.schemas {
                    Some(ssv) => {
                        assert(db_schemas_view(flat@) =~= db_schemas_view(flat_before) + ssv);
                        assert(db_schemas_view(flat@).subrange(
                            flat_before.len() as int,
                            db_schemas_view(flat@).len() as int,
                        ) =~= ssv);
                    },
                    None => {},
                }
            }
            // appended schemas of an encodable forest are encodable
            if forest_encodable(forest_view(orig)) {
                assert forall|k: int| 0 <= k < db_schemas_view(flat@).len() implies (
                #[trigger] db_schemas_view(flat@)[k].tables matches Some(ts) ==> tables_encodable(
                    ts,
                )) by {
                    if k < flat_before.len() {
                        assert(db_schemas_view(flat_before)[k] == db_schemas_view(flat@)[k]);
                    } else {
                        assert(cv.schemas matches Some(ssv) ==> schemas_encodable(ssv));
                        match cv.schemas {
                            Some(ssv) => {
                                assert(db_schemas_view(flat@)[k] == ssv[k - flat_before.len()]);
                            },
                            None => {},
                        }
                    }
                }
            }
        }
        i += 1;
    }
    proof {
        assert(forest_view(orig).len() == n);
        assert(cat_level_encodes(
            forest_view(orig),
            names@,
            offsets@,
            validity@,
            db_schemas_view(flat@),
        ));
    }
    (names, offsets, validity, flat)
}

/// Splits the schema level: name column, offset buffer and validity over
/// the flattened schemas, and the flattened tables.
fn split_schemas(schemas: Vec<DbSchema>) -> (out: (Vec<Option<String>>, Vec<usize>, Vec<bool>, Vec<
    TableSchema,
>))
    ensures
        schema_level_encodes(
            db_schemas_view(schemas@),
            out.0@,
            out.1@,
            out.2@,
            table_schemas_view(out.3@),
        ),
        schemas_encodable(db_schemas_view(schemas@)) ==> tables_encodable(
            table_schemas_view(out.3@),
        ),
{
    let ghost orig = schemas@;
    let mut rest = schemas;
    let mut names: Vec<Option<String>> = Vec::new();
    let mut offsets: Vec<usize> = Vec::new();
    let mut validity: Vec<bool> = Vec::new();
    let mut flat: Vec<TableSchema> = Vec::new();
    offsets.push(0);
    let n = rest.len();
    let mut i: usize = 0;
    while i < n
        invariant
            i <= n,
            n == orig.len(),
            rest@ =~= orig.subrange(i as int, n as int),
            names@.len() == i,
            offsets@.len() == i + 1,
            validity@.len() == i,
            offsets@[0] == 0,
            offsets@[i as int] == flat@.len(),
            forall|k: int|
                0 <= k < i ==> #[trigger] schema_slot_ok(
                    db_schemas_view(orig)[k],
                    names@,
                    offsets@,
                    validity@,
                    table_schemas_view(flat@),
                    k,
                ),
            schemas_encodable(db_schemas_view(orig)) ==> tables_encodable(
                table_schemas_view(flat@),
            ),
        decreases n - i,
    {
        let s = rest.remove(0);
        proof {
            assert(orig.subrange(i as int, n as int)[0] == orig[i as int]);
            assert(rest@ =~= orig.subrange(i + 1, n as int));
        }
        let ghost flat_before = flat@;
        let ghost names_before = names@;
        let ghost offsets_before = offsets@;
        let ghost validity_before = validity@;
        match &s.db_schema_name {
            Some(name) => {
                let copy = name.clone();
                names.push(Some(copy));
            },
            None => {
                names.push(None);
            },
        }
        match s.db_schema_tables {
            None => {
                validity.push(false);
                let last = flat.len();
                offsets.push(last);
            },
            Some(mut ts) => {
                validity.push(true);
                proof {
                    lemma_table_schemas_view_concat(flat@, ts@);
                }
                flat.append(&mut ts);
                let last = flat.len();
                offsets.push(last);
            },
        }
        proof {
            let sv = db_schemas_view(orig)[i as int];
            assert(sv == s@);
            assert(names@[i as int] == sv.name);
            assert forall|k: int| 0 <= k < i implies #[trigger] schema_slot_ok(
                db_schemas_view(orig)[k],
                names@,
                offsets@,
                validity@,
                table_schemas_view(flat@),
                k,
            ) by {
                assert(schema_slot_ok(
                    db_schemas_view(orig)[k],
                    names_before,
                    offsets_before,
                    validity_before,
                    table_schemas_view(flat_before),
                    k,
                ));
                let o1 = offsets_before[k] as int;
                let o2 = offsets_before[k + 1] as int;
                assert(table_schemas_view(flat@).subrange(o1, o2) =~= table_schemas_view(
                    flat_before,
                ).subrange(o1, o2));
            }
            assert(schema_slot_ok(
                db_schemas_view(orig)[i as int],
                names@,
                offsets@,
                validity@,
                table_schemas_view(flat@),
                i as int,
            )) by {
                match sv.tables {
                    Some(tsv) => {
                        assert(table_schemas_view(flat@) =~= table_schemas_view(flat_before)
                            + tsv);
                        assert(table_schemas_view(flat@).subrange(
                            flat_before.len() as int,
                            table_schemas_view(flat@).len() as int,
                        ) =~= tsv);
                    },
                    None => {},
                }
            }
            if schemas_encodable(db_schemas_view(orig)) {
                assert forall|k: int| 0 <= k < table_schemas_view(flat@).len() implies (
                #[trigger] table_schemas_view(flat@)[k].constraints matches Some(xs)
                    ==> xs.len() == 0) by {
                    if k < flat_before.len() {
                        assert(table_schemas_view(flat_before)[k] == table_schemas_view(flat@)[k]);
                    } else {
                        assert(sv.tables matches Some(tsv) ==> tables_encodable(tsv));
                        match sv.tables {
                            Some(tsv) => {
                                assert(table_schemas_view(flat@)[k] == tsv[k - flat_before.len()]);
                            },
                            None => {},
                        }
                    }
                }
            }
        }
        i += 1;
    }
    proof {
        assert(db_schemas_view(orig).len() == n);
        assert(schema_level_encodes(
            db_schemas_view(orig),
            names@,
            offsets@,
            validity@,
            table_schemas_view(flat@),
        ));
    }
    (names, offsets, validity, flat)
}

/// Splits the table level: name and type columns, the column list's offset
/// buffer and validity, the always-empty constraint list, and the flattened
/// column entities.
fn split_tables(tables: Vec<TableSchema>) -> (out: (
    Vec<String>,
    Vec<String>,
    Vec<usize>,
    Vec<bool>,
    Vec<usize>,
    Vec<bool>,
    Vec<ColumnSchema>,
))
    ensures
        table_level_encodes(
            table_schemas_view(tables@),
            out.0@,
            out.1@,
            out.2@,
            out.3@,
            out.4@,
            out.5@,
            out.6@,
        ),
{
    let ghost orig = tables@;
    let mut rest = tables;
    let mut names: Vec<String> = Vec::new();
    let mut types: Vec<String> = Vec::new();
    let mut col_offsets: Vec<usize> = Vec::new();
    let mut col_validity: Vec<bool> = Vec::new();
    let mut con_offsets: Vec<usize> = Vec::new();
    let mut con_validity: Vec<bool> = Vec::new();
    let mut cols: Vec<ColumnSchema> = Vec::new();
    col_offsets.push(0);
    con_offsets.push(0);
    let n = rest.len();
    let mut i: usize = 0;
    while i < n
        invariant
            i <= n,
            n == orig.len(),
            rest@ =~= orig.subrange(i as int, n as int),
            names@.len() == i,
            types@.len() == i,
            col_offsets@.len() == i + 1,
            col_validity@.len() == i,
            con_offsets@.len() == i + 1,
            con_validity@.len() == i,
            col_offsets@[0] == 0,
            col_offsets@[i as int] == cols@.len(),
            con_offsets@[0] == 0,
            con_offsets@[i as int] == 0,
            forall|k: int|
                0 <= k < i ==> #[trigger] table_slot_ok(
                    table_schemas_view(orig)[k],
                    names@,
                    types@,
                    col_offsets@,
                    col_validity@,
                    con_offsets@,
                    con_validity@,
                    cols@,
                    k,
                ),
        decreases n - i,
    {
        let t = rest.remove(0);
        proof {
            assert(orig.subrange(i as int, n as int)[0] == orig[i as int]);
            assert(rest@ =~= orig.subrange(i + 1, n as int));
        }
        let ghost cols_before = cols@;
        let ghost names_before = names@;
        let ghost types_before = types@;
        let ghost col_offsets_before = col_offsets@;
        let ghost col_validity_before = col_validity@;
        let ghost con_offsets_before = con_offsets@;
        let ghost con_validity_before = con_validity@;
        names.push(t.table_name.clone());
        types.push(t.table_type.clone());
        match t.table_columns {
            None => {
                col_validity.push(false);
                let last = cols.len();
                col_offsets.push(last);
            },
            Some(mut cs) => {
                col_validity.push(true);
                cols.append(&mut cs);
                let last = cols.len();
                col_offsets.push(last);
            },
        }
        match &t.table_constraints {
            None => {
                con_validity.push(false);
            },
            Some(_) => {
                con_validity.push(true);
            },
        }
        con_offsets.push(0);
        proof {
            let tv = table_schemas_view(orig)[i as int];
            assert(tv == t@);
            assert forall|k: int| 0 <= k < i implies #[trigger] table_slot_ok(
                table_schemas_view(orig)[k],
                names@,
                types@,
                col_offsets@,
                col_validity@,
                con_offsets@,
                con_validity@,
                cols@,
                k,
            ) by {
                assert(table_slot_ok(
                    table_schemas_view(orig)[k],
                    names_before,
                    types_before,
                    col_offsets_before,
                    col_validity_before,
                    con_offsets_before,
                    con_validity_before,
                    cols_before,
                    k,
                ));
                let o1 = col_offsets_before[k] as int;
                let o2 = col_offsets_before[k + 1] as int;
                assert(cols@.subrange(o1, o2) =~= cols_before.subrange(o1, o2));
            }
            assert(table_slot_ok(
                table_schemas_view(orig)[i as int],
                names@,
                types@,
                col_offsets@,
                col_validity@,
                con_offsets@,
                con_validity@,
                cols@,
                i as int,
            )) by {
                match tv.columns {
                    Some(csv) => {
                        assert(cols@ =~= cols_before + csv);
                        assert(cols@.subrange(cols_before.len() as int, cols@.len() as int)
                            =~= csv);
                    },
                    None => {},
                }
            }
        }
        i += 1;
    }
    proof {
        assert(table_schemas_view(orig).len() == n);
        assert(table_level_encodes(
            table_schemas_view(orig),
            names@,
            types@,
            col_offsets@,
            col_validity@,
            con_offsets@,
            con_validity@,
            cols@,
        ));
    }
    (names, types, col_offsets, col_validity, con_offsets, con_validity, cols)
}

/// Well-formedness of the record follows from the three level relations.
#[verifier::rlimit(60)]
proof fn lemma_wf_from_levels(
    cats: Seq<CatalogView>,
    flat_s: Seq<DbSchemaView>,
    flat_t: Seq<TableSchemaView>,
    r: ObjectsRecord,
)
    requires
        cat_level_encodes(
            cats,
            r.catalog_name@,
            r.catalog_db_schemas.offsets@,
            r.catalog_db_schemas.validity@,
            flat_s,
        ),
        schema_level_encodes(
            flat_s,
            r.db_schema_name@,
            r.db_schema_tables.offsets@,
            r.db_schema_tables.validity@,
            flat_t,
        ),
        table_level_encodes(
            flat_t,
            r.table_name@,
            r.table_type@,
            r.table_columns.offsets@,
            r.table_columns.validity@,
            r.table_constraints.offsets@,
            r.table_constraints.validity@,
            r.column_data@,
        ),
    ensures
        record_wf(r),
{
    assert forall|i: int| 0 <= i < cats.len() implies #[trigger] r.catalog_db_schemas.offsets@[i]
        <= r.catalog_db_schemas.offsets@[i + 1] && (!r.catalog_db_schemas.validity@[i]
        ==> r.catalog_db_schemas.offsets@[i + 1] == r.catalog_db_schemas.offsets@[i]) by {
        assert(cat_slot_ok(
            cats[i],
            r.catalog_name@,
            r.catalog_db_schemas.offsets@,
            r.catalog_db_schemas.validity@,
            flat_s,
            i,
        ));
    }
    assert forall|k: int| 0 <= k < flat_s.len() implies #[trigger] r.db_schema_tables.offsets@[k]
        <= r.db_schema_tables.offsets@[k + 1] && (!r.db_schema_tables.validity@[k]
        ==> r.db_schema_tables.offsets@[k + 1] == r.db_schema_tables.offsets@[k]) by {
        assert(schema_slot_ok(
            flat_s[k],
            r.db_schema_name@,
            r.db_schema_tables.offsets@,
            r.db_schema_tables.validity@,
            flat_t,
            k,
        ));
    }
    assert forall|k: int| 0 <= k < flat_t.len() implies #[trigger] r.table_columns.offsets@[k]
        <= r.table_columns.offsets@[k + 1] && (!r.table_columns.validity@[k]
        ==> r.table_columns.offsets@[k + 1] == r.table_columns.offsets@[k])
        && r.table_constraints.offsets@[k + 1] == r.table_constraints.offsets@[k] by {
        assert(table_slot_ok(
            flat_t[k],
            r.table_name@,
            r.table_type@,
            r.table_columns.offsets@,
            r.table_columns.validity@,
            r.table_constraints.offsets@,
            r.table_constraints.validity@,
            r.column_data@,
            k,
        ));
    }
    assert forall|k: int| 0 <= k < flat_t.len() implies #[trigger] r.table_constraints.offsets@[k]
        == r.table_constraints.offsets@[k + 1] by {
        assert(table_slot_ok(
            flat_t[k],
            r.table_name@,
            r.table_type@,
            r.table_columns.offsets@,
            r.table_columns.validity@,
            r.table_constraints.offsets@,
            r.table_constraints.validity@,
            r.column_data@,
            k,
        ));
    }
    assert(list_column_wf(
        r.catalog_db_schemas,
        r.catalog_name@.len() as int,
        r.db_schema_name@.len() as int,
    ));
    assert(list_column_wf(
        r.db_schema_tables,
        r.db_schema_name@.len() as int,
        r.table_name@.len() as int,
    ));
    assert(list_column_wf(r.table_columns, r.table_name@.len() as int, r.column_data@.len() as int));
    assert(list_column_wf(r.table_constraints, r.table_name@.len() as int, 0));
}

/// Each flattened table row decodes to the table it came from.
proof fn lemma_tables_decode(flat_t: Seq<TableSchemaView>, r: ObjectsRecord)
    requires
        table_level_encodes(
            flat_t,
            r.table_name@,
            r.table_type@,
            r.table_columns.offsets@,
            r.table_columns.validity@,
            r.table_constraints.offsets@,
            r.table_constraints.validity@,
            r.column_data@,
        ),
        tables_encodable(flat_t),
    ensures
        forall|k: int| 0 <= k < flat_t.len() ==> #[trigger] record_table_view(r, k) == flat_t[k],
{
    assert forall|k: int| 0 <= k < flat_t.len() implies #[trigger] record_table_view(r, k)
        == flat_t[k] by {
        assert(table_slot_ok(
            flat_t[k],
            r.table_name@,
            r.table_type@,
            r.table_columns.offsets@,
            r.table_columns.validity@,
            r.table_constraints.offsets@,
            r.table_constraints.validity@,
            r.column_data@,
            k,
        ));
        let t = flat_t[k];
        match t.columns {
            Some(cs) => {
                let o1 = r.table_columns.offsets@[k] as int;
                let o2 = r.table_columns.offsets@[k + 1] as int;
                assert(cs == r.column_data@.subrange(o1, o2));
                assert(Seq::new((o2 - o1) as nat, |m: int| r.column_data@[o1 + m]) =~= cs);
            },
            None => {},
        }
        match t.constraints {
            Some(xs) => {
                assert(xs.len() == 0);
                assert(xs =~= Seq::<crate::schemas::ConstraintSchemaView>::empty());
            },
            None => {},
        }
        assert(record_table_view(r, k) =~~= t);
    }
}

/// Each flattened schema row decodes to the schema it came from.
proof fn lemma_schemas_decode(
    flat_s: Seq<DbSchemaView>,
    flat_t: Seq<TableSchemaView>,
    r: ObjectsRecord,
)
    requires
        schema_level_encodes(
            flat_s,
            r.db_schema_name@,
            r.db_schema_tables.offsets@,
            r.db_schema_tables.validity@,
            flat_t,
        ),
        forall|k: int| 0 <= k < flat_t.len() ==> #[trigger] record_table_view(r, k) == flat_t[k],
    ensures
        forall|k: int| 0 <= k < flat_s.len() ==> #[trigger] record_schema_view(r, k) == flat_s[k],
{
    assert forall|k: int| 0 <= k < flat_s.len() implies #[trigger] record_schema_view(r, k)
        == flat_s[k] by {
        assert(schema_slot_ok(
            flat_s[k],
            r.db_schema_name@,
            r.db_schema_tables.offsets@,
            r.db_schema_tables.validity@,
            flat_t,
            k,
        ));
        let s = flat_s[k];
        match s.tables {
            Some(ts) => {
                let o1 = r.db_schema_tables.offsets@[k] as int;
                let o2 = r.db_schema_tables.offsets@[k + 1] as int;
                assert(ts == flat_t.subrange(o1, o2));
                assert forall|m: int| 0 <= m < o2 - o1 implies record_table_view(r, o1 + m)
                    == ts[m] by {
                    assert(ts[m] == flat_t[o1 + m]);
                }
                assert(Seq::new((o2 - o1) as nat, |m: int| record_table_view(r, o1 + m)) =~= ts);
            },
            None => {},
        }
        assert(record_schema_view(r, k) =~~= s);
    }
}

/// A record whose three levels each encode their slice of the flattened
/// children is well-formed and decodes back to the forest it was built
/// from: the round trip over the offset buffers loses nothing.
pub proof fn lemma_record_decodes(
    cats: Seq<CatalogView>,
    flat_s: Seq<DbSchemaView>,
    flat_t: Seq<TableSchemaView>,
    r: ObjectsRecord,
)
    requires
        cat_level_encodes(
            cats,
            r.catalog_name@,
            r.catalog_db_schemas.offsets@,
            r.catalog_db_schemas.validity@,
            flat_s,
        ),
        schema_level_encodes(
            flat_s,
            r.db_schema_name@,
            r.db_schema_tables.offsets@,
            r.db_schema_tables.validity@,
            flat_t,
        ),
        table_level_encodes(
            flat_t,
            r.table_name@,
            r.table_type@,
            r.table_columns.offsets@,
            r.table_columns.validity@,
            r.table_constraints.offsets@,
            r.table_constraints.validity@,
            r.column_data@,
        ),
        tables_encodable(flat_t),
    ensures
        record_wf(r),
        decode_objects(r) == cats,
{
    lemma_wf_from_levels(cats, flat_s, flat_t, r);
    lemma_tables_decode(flat_t, r);
    lemma_schemas_decode(flat_s, flat_t, r);
    assert forall|i: int| 0 <= i < cats.len() implies decode_objects(r)[i] == cats[i] by {
        assert(cat_slot_ok(
            cats[i],
            r.catalog_name@,
            r.catalog_db_schemas.offsets@,
            r.catalog_db_schemas.validity@,
            flat_s,
            i,
        ));
        let c = cats[i];
        match c.schemas {
            Some(ss) => {
                let o1 = r.catalog_db_schemas.offsets@[i] as int;
                let o2 = r.catalog_db_schemas.offsets@[i + 1] as int;
                assert(ss == flat_s.subrange(o1, o2));
                assert forall|j: int| 0 <= j < o2 - o1 implies record_schema_view(r, o1 + j)
                    == ss[j] by {
                    assert(ss[j] == flat_s[o1 + j]);
                }
                assert(Seq::new((o2 - o1) as nat, |j: int| record_schema_view(r, o1 + j)) =~= ss);
            },
            None => {},
        }
        assert(decode_objects(r)[i] =~~= c);
    }
    assert(decode_objects(r) =~= cats);
}

/// Null-list against empty-list at the top level of a well-formed record
/// that decodes to a forest: a level that was fetched and found empty is a
/// valid row whose offsets do not advance, while a level that was never
/// fetched is a null row — and a null row holds no children either.
pub proof fn lemma_null_vs_empty(cats: Seq<CatalogView>, r: ObjectsRecord, i: int)
    requires
        record_wf(r),
        decode_objects(r) == cats,
        0 <= i < cats.len(),
    ensures
        r.catalog_db_schemas.validity@[i] == (cats[i].schemas is Some),
        cats[i].schemas matches Some(ss) ==> r.catalog_db_schemas.offsets@[i + 1]
            == r.catalog_db_schemas.offsets@[i] + ss.len(),
        cats[i].schemas is None ==> r.catalog_db_schemas.offsets@[i + 1]
            == r.catalog_db_schemas.offsets@[i],
{
    assert(decode_objects(r)[i] == cats[i]);
}

/// The same distinction one level down, from well-formedness alone: a
/// schema row's table list is absent exactly when its validity bit is
/// false, and then its offsets do not advance; a present list's offsets
/// advance by exactly its length.
pub proof fn lemma_null_vs_empty_schema(r: ObjectsRecord, k: int)
    requires
        record_wf(r),
        0 <= k < r.db_schema_name@.len(),
    ensures
        r.db_schema_tables.validity@[k] == (record_schema_view(r, k).tables is Some),
        record_schema_view(r, k).tables matches Some(ts) ==> r.db_schema_tables.offsets@[k + 1]
            == r.db_schema_tables.offsets@[k] + ts.len(),
        record_schema_view(r, k).tables is None ==> r.db_schema_tables.offsets@[k + 1]
            == r.db_schema_tables.offsets@[k],
{
}

/// And at the table level: a table row's column list is absent exactly
/// when its validity bit is false.
pub proof fn lemma_null_vs_empty_table(r: ObjectsRecord, k: int)
    requires
        record_wf(r),
        0 <= k < r.table_name@.len(),
    ensures
        r.table_columns.validity@[k] == (record_table_view(r, k).columns is Some),
        record_table_view(r, k).columns matches Some(cs) ==> r.table_columns.offsets@[k + 1]
            == r.table_columns.offsets@[k] + cs.len(),
        record_table_view(r, k).columns is None ==> r.table_columns.offsets@[k + 1]
            == r.table_columns.offsets@[k],
{
}

/// Encodes the forest into the fixed nested columnar record.
///
/// The record is well-formed — every offset buffer has length parent count
/// + 1, is non-decreasing, starts at 0 and ends at the flattened child
/// count — and decoding it yields exactly the forest that was encoded.  A
/// level the forest holds as `Some` of an empty sequence becomes a valid
/// row whose offsets do not advance; a level held as `None` becomes a null
/// row.
pub fn encode_objects(cats: Vec<Catalog>) -> (r: ObjectsRecord)
    requires
        forest_encodable(forest_view(cats@)),
    ensures
        record_wf(r),
        decode_objects(r) == forest_view(cats@),
{
    let ghost forest = forest_view(cats@);
    let (cat_names, cat_offsets, cat_validity, flat_schemas) = split_catalogs(cats);
    let ghost gs = db_schemas_view(flat_schemas@);
    let (sch_names, sch_offsets, sch_validity, flat_tables) = split_schemas(flat_schemas);
    let ghost gt = table_schemas_view(flat_tables@);
    let (tab_names, tab_types, col_offsets, col_validity, con_offsets, con_validity, col_data) =
        split_tables(flat_tables);
    let r = ObjectsRecord {
        catalog_name: cat_names,
        catalog_db_schemas: ListColumn { offsets: cat_offsets, validity: cat_validity },
        db_schema_name: sch_names,
        db_schema_tables: ListColumn { offsets: sch_offsets, validity: sch_validity },
        table_name: tab_names,
        table_type: tab_types,
        table_columns: ListColumn { offsets: col_offsets, validity: col_validity },
        table_constraints: ListColumn { offsets: con_offsets, validity: con_validity },
        column_data: col_data,
    };
    proof {
        lemma_record_decodes(forest, gs, gt, r);
    }
    r
}

} // verus!
