//! The discovery pipeline: plan the queries for a depth, group the rows
//! the caller fetched, and encode the forest as the nested columnar
//! record.
//!
//! Query execution is the caller's: the planner says what to run, the
//! assembler and encoder are pure functions of the returned rows, so a
//! discovery call is `plan`, then one execution per planned query, then
//! `build`.

use vstd::prelude::*;

use crate::assemble::{
    assemble_catalogs, assemble_catalogs_spec, assemble_columns, assemble_columns_spec,
    assemble_schemas, assemble_schemas_spec, assemble_tables, assemble_tables_spec,
    catalog_columns_view, catalog_only_view, catalog_schemas_view, catalog_tables_view,
    dedup_str, catalog_keys,
};
use crate::depth::ObjectDepth;
use crate::plan::{
    PlannedQuery, column_query_params, column_query_sql, params_view, plan_column_query,
    plan_schema_query, plan_table_query, schema_query_params, schema_query_sql,
    table_query_params, table_query_sql,
};
use crate::record::{
    ObjectsRecord, decode_objects, encode_objects, forest_encodable, record_wf,
    schemas_encodable, tables_encodable,
};
use crate::schemas::{CatalogView, ColumnRow, SchemaRow, TableRow, forest_view};

verus! {

/// The queries one discovery call needs: the schema-level query always,
/// the table-level query only at depth Tables, and the joined column-level
/// query — which supersedes the table-level one — at depth Columns or All.
pub struct QueryPlan {
    pub schema_query: Option<PlannedQuery>,
    pub table_query: Option<PlannedQuery>,
    pub column_query: Option<PlannedQuery>,
}

/// The filters of one discovery call.  Every filter is an SQL LIKE
/// pattern; an absent filter matches everything.
pub struct GetObjectsBuilder {
    pub catalog_filter: Option<String>,
    pub schema_filter: Option<String>,
    pub table_filter: Option<String>,
    pub table_type_filter: Option<Vec<String>>,
    pub column_filter: Option<String>,
}

/// The forest a discovery call at the given depth assembles from the rows
/// its planned queries return.
pub open spec fn assembled_at(
    depth: ObjectDepth,
    srows: Seq<SchemaRow>,
    trows: Seq<TableRow>,
    crows: Seq<ColumnRow>,
) -> Seq<CatalogView> {
    match depth {
        ObjectDepth::Catalogs => assemble_catalogs_spec(srows),
        ObjectDepth::Schemas => assemble_schemas_spec(srows),
        ObjectDepth::Tables => assemble_tables_spec(srows, trows),
        ObjectDepth::Columns => assemble_columns_spec(srows, crows),
        ObjectDepth::All => assemble_columns_spec(srows, crows),
    }
}

/// Every forest the assembler produces carries no constraint entries, so
/// the encoder accepts it.
pub proof fn lemma_assembled_encodable(
    depth: ObjectDepth,
    srows: Seq<SchemaRow>,
    trows: Seq<TableRow>,
    crows: Seq<ColumnRow>,
)
    ensures
        forest_encodable(assembled_at(depth, srows, trows, crows)),
{
    let cats = assembled_at(depth, srows, trows, crows);
    assert forall|i: int| 0 <= i < cats.len() implies (#[trigger] cats[i].schemas matches Some(ss)
        ==> schemas_encodable(ss)) by {
        let keys = dedup_str(catalog_keys(srows));
        match depth {
            ObjectDepth::Catalogs => {
                assert(cats[i] == catalog_only_view(keys[i]));
            },
            ObjectDepth::Schemas => {
                assert(cats[i] == catalog_schemas_view(srows, keys[i]));
                match cats[i].schemas {
                    Some(ss) => {
                        assert forall|j: int| 0 <= j < ss.len() implies (#[trigger] ss[j].tables
                            matches Some(ts) ==> tables_encodable(ts)) by {}
                    },
                    None => {},
                }
            },
            ObjectDepth::Tables => {
                assert(cats[i] == catalog_tables_view(srows, trows, keys[i]));
                match cats[i].schemas {
                    Some(ss) => {
                        assert forall|j: int| 0 <= j < ss.len() implies (#[trigger] ss[j].tables
                            matches Some(ts) ==> tables_encodable(ts)) by {
                            match ss[j].tables {
                                Some(ts) => {
                                    assert forall|k: int| 0 <= k < ts.len() implies (
                                    #[trigger] ts[k].constraints matches Some(xs) ==> xs.len()
                                        == 0) by {}
                                },
                                None => {},
                            }
                        }
                    },
                    None => {},
                }
            },
            _ => {
                assert(cats[i] == catalog_columns_view(srows, crows, keys[i]));
                match cats[i].schemas {
                    Some(ss) => {
                        assert forall|j: int| 0 <= j < ss.len() implies (#[trigger] ss[j].tables
                            matches Some(ts) ==> tables_encodable(ts)) by {
                            match ss[j].tables {
                                Some(ts) => {
                                    assert forall|k: int| 0 <= k < ts.len() implies (
                                    #[trigger] ts[k].constraints matches Some(xs) ==> xs.len()
                                        == 0) by {}
                                },
                                None => {},
                            }
                        }
                    },
                    None => {},
                }
            },
        }
    }
}

impl GetObjectsBuilder {
    /// A builder over the given filters.
    pub fn new(
        catalog_filter: Option<String>,
        schema_filter: Option<String>,
        table_filter: Option<String>,
        table_type_filter: Option<Vec<String>>,
        column_filter: Option<String>,
    ) -> (b: GetObjectsBuilder)
        ensures
            b.catalog_filter == catalog_filter,
            b.schema_filter == schema_filter,
            b.table_filter == table_filter,
            b.table_type_filter == table_type_filter,
            b.column_filter == column_filter,
    {
        GetObjectsBuilder {
            catalog_filter,
            schema_filter,
            table_filter,
            table_type_filter,
            column_filter,
        }
    }

    /// Plans the queries of one discovery call at the given depth.
    ///
    /// The schema-level query always runs; at depth Catalogs only the
    /// catalog filter applies to it.  The table-level query runs only at
    /// depth Tables, with the catalog, schema, table and table-type
    /// filters.  At depth Columns or All a single joined column-level
    /// query replaces it, carrying the column filter too.
    pub fn plan(&self, depth: &ObjectDepth) -> (p: QueryPlan)
        ensures
            p.schema_query matches Some(q) && q.sql@ == schema_query_sql(
                self.catalog_filter is Some,
                !(*depth is Catalogs) && self.schema_filter is Some,
            ) && params_view(q.params@) == schema_query_params(
                self.catalog_filter,
                if *depth is Catalogs {
                    None
                } else {
                    self.schema_filter
                },
            ),
            (p.table_query is Some) == (*depth is Tables),
            p.table_query matches Some(q) ==> q.sql@ == table_query_sql(
                self.catalog_filter is Some,
                self.schema_filter is Some,
                self.table_filter is Some,
                match self.table_type_filter {
                    Some(v) => Some(v@.len()),
                    None => None,
                },
            ) && params_view(q.params@) == table_query_params(
                self.catalog_filter,
                self.schema_filter,
                self.table_filter,
                match self.table_type_filter {
                    Some(v) => Some(v@),
                    None => None,
                },
            ),
            (p.column_query is Some) == (*depth is Columns || *depth is All),
            p.column_query matches Some(q) ==> q.sql@ == column_query_sql(
                self.catalog_filter is Some,
                self.schema_filter is Some,
                self.table_filter is Some,
                self.column_filter is Some,
                match self.table_type_filter {
                    Some(v) => Some(v@.len()),
                    None => None,
                },
            ) && params_view(q.params@) == column_query_params(
                self.catalog_filter,
                self.schema_filter,
                self.table_filter,
                self.column_filter,
                match self.table_type_filter {
                    Some(v) => Some(v@),
                    None => None,
                },
            ),
    {
        let schema_query = match depth {
            ObjectDepth::Catalogs => {
                let no_schema: Option<String> = None;
                Some(plan_schema_query(&self.catalog_filter, &no_schema))
            },
            _ => Some(plan_schema_query(&self.catalog_filter, &self.schema_filter)),
        };
        let table_query = match depth {
            ObjectDepth::Tables => Some(
                plan_table_query(
                    &self.catalog_filter,
                    &self.schema_filter,
                    &self.table_filter,
                    &self.table_type_filter,
                ),
            ),
            _ => None,
        };
        let column_query = match depth {
            ObjectDepth::Columns | ObjectDepth::All => Some(
                plan_column_query(
                    &self.catalog_filter,
                    &self.schema_filter,
                    &self.table_filter,
                    &self.column_filter,
                    &self.table_type_filter,
                ),
            ),
            _ => None,
        };
        QueryPlan { schema_query, table_query, column_query }
    }
}

impl GetObjectsBuilder {
    /// Groups the fetched rows by depth and encodes the forest as the
    /// nested columnar record.  Rows of queries the depth does not plan
    /// are ignored.  The record is well-formed and decodes to exactly the
    /// assembled forest.
    pub fn build(
        &self,
        depth: &ObjectDepth,
        srows: &Vec<SchemaRow>,
        trows: &Vec<TableRow>,
        crows: &Vec<ColumnRow>,
    ) -> (r: ObjectsRecord)
        ensures
            record_wf(r),
            decode_objects(r) == assembled_at(*depth, srows@, trows@, crows@),
    {
        let cats = match depth {
            ObjectDepth::Catalogs => assemble_catalogs(srows),
            ObjectDepth::Schemas => assemble_schemas(srows),
            ObjectDepth::Tables => assemble_tables(srows, trows),
            ObjectDepth::Columns | ObjectDepth::All => assemble_columns(srows, crows),
        };
        proof {
            lemma_assembled_encodable(*depth, srows@, trows@, crows@);
            assert(forest_view(cats@) == assembled_at(*depth, srows@, trows@, crows@));
        }
        encode_objects(cats)
    }
}

} // verus!
