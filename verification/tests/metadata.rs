use adbc_clickhouse::assemble::{assemble_catalogs, assemble_columns, assemble_schemas, assemble_tables};
use adbc_clickhouse::depth::ObjectDepth;
use adbc_clickhouse::objects::GetObjectsBuilder;
use adbc_clickhouse::plan::decimal_string;
use adbc_clickhouse::schemas::{ColumnRow, SchemaRow, TableRow};

fn schema_row(cat: &str, sch: &str) -> SchemaRow {
    SchemaRow { catalog_name: cat.to_string(), schema_name: sch.to_string() }
}

fn table_row(cat: &str, sch: &str, name: &str, ty: &str) -> TableRow {
    TableRow {
        table_catalog: cat.to_string(),
        table_schema: sch.to_string(),
        table_name: name.to_string(),
        table_type: ty.to_string(),
    }
}

fn column_row(cat: &str, sch: &str, table: &str, ty: &str, col: &str, ordinal: u64) -> ColumnRow {
    ColumnRow {
        table_catalog: cat.to_string(),
        table_schema: sch.to_string(),
        table_name: table.to_string(),
        table_type: ty.to_string(),
        column_name: col.to_string(),
        ordinal_position: ordinal,
        remarks: String::new(),
        xdbc_type_name: "String".to_string(),
        xdbc_column_size: None,
        xdbc_decimal_digits: None,
        xdbc_num_prec_radix: None,
        xdbc_nullable: true,
        xdbc_column_def: String::new(),
        xdbc_datetime_sub: None,
        xdbc_char_octet_length: None,
        xdbc_is_nullable: "YES".to_string(),
        xdbc_is_generatedcolumn: false,
    }
}

fn all_filters_empty() -> GetObjectsBuilder {
    GetObjectsBuilder::new(None, None, None, None, None)
}

#[test]
fn schema_depth_plans_one_query_with_catalog_pattern() {
    // depth = Schemas, catalog filter "def%", no schema filter:
    // exactly one schema-level query, no table or column query
    let b = GetObjectsBuilder::new(Some("def%".to_string()), None, None, None, None);
    let plan = b.plan(&ObjectDepth::Schemas);
    let sq = plan.schema_query.expect("schema query must be planned");
    assert!(plan.table_query.is_none());
    assert!(plan.column_query.is_none());
    assert!(sq.sql.contains("INFORMATION_SCHEMA.SCHEMATA"));
    assert!(sq.sql.contains("WHERE s.catalog_name LIKE {catalog_filter:String}"));
    // the pattern is bound, never inlined
    assert!(!sq.sql.contains("def%"));
    assert_eq!(sq.params.len(), 1);
    assert_eq!(sq.params[0].0, "catalog_filter");
    assert_eq!(sq.params[0].1, "def%");
}

#[test]
fn schema_depth_result_has_schemas_but_null_tables() {
    let b = all_filters_empty();
    let srows = vec![schema_row("def", "s1"), schema_row("def", "s2")];
    let r = b.build(&ObjectDepth::Schemas, &srows, &vec![], &vec![]);
    assert_eq!(r.catalog_name, vec![Some("def".to_string())]);
    // catalog_db_schemas populated for the one catalog
    assert_eq!(r.catalog_db_schemas.validity, vec![true]);
    assert_eq!(r.catalog_db_schemas.offsets, vec![0, 2]);
    assert_eq!(r.db_schema_name, vec![Some("s1".to_string()), Some("s2".to_string())]);
    // every db_schema_tables entry is a null list
    assert_eq!(r.db_schema_tables.validity, vec![false, false]);
    assert_eq!(r.db_schema_tables.offsets, vec![0, 0, 0]);
    assert!(r.table_name.is_empty());
}

#[test]
fn catalogs_depth_plans_catalog_filter_only() {
    let b = GetObjectsBuilder::new(
        Some("d%".to_string()),
        Some("ignored%".to_string()),
        None,
        None,
        None,
    );
    let plan = b.plan(&ObjectDepth::Catalogs);
    let sq = plan.schema_query.expect("schema query must be planned");
    // at catalog depth the schema filter does not apply
    assert!(!sq.sql.contains("schema_filter"));
    assert_eq!(sq.params.len(), 1);
    assert_eq!(sq.params[0].0, "catalog_filter");
}

#[test]
fn tables_depth_plans_schema_and_table_queries() {
    let b = all_filters_empty();
    let plan = b.plan(&ObjectDepth::Tables);
    assert!(plan.schema_query.is_some());
    assert!(plan.table_query.is_some());
    assert!(plan.column_query.is_none());
    let tq = plan.table_query.unwrap();
    assert!(tq.sql.contains("INFORMATION_SCHEMA.TABLES"));
    // no filter, no WHERE part
    assert!(!tq.sql.contains("WHERE"));
    assert!(tq.params.is_empty());
}

#[test]
fn columns_depth_binds_table_type_in_clause() {
    // depth = Columns with a one-element table-type filter: the joined
    // column query carries an IN predicate over a bound parameter
    let b = GetObjectsBuilder::new(
        None,
        None,
        None,
        Some(vec!["BASE TABLE".to_string()]),
        None,
    );
    let plan = b.plan(&ObjectDepth::Columns);
    assert!(plan.table_query.is_none());
    let cq = plan.column_query.expect("column query must be planned");
    assert!(cq.sql.contains("t.table_type IN ({table_type_filter_0:String})"));
    // the literal never appears in the query text
    assert!(!cq.sql.contains("BASE TABLE"));
    assert_eq!(cq.params.len(), 1);
    assert_eq!(cq.params[0].0, "table_type_filter_0");
    assert_eq!(cq.params[0].1, "BASE TABLE");
}

#[test]
fn filtered_out_table_types_never_appear() {
    // the backend applies the bound IN predicate, so only BASE TABLE rows
    // come back; a VIEW named like everything else is absent
    let b = GetObjectsBuilder::new(
        None,
        None,
        None,
        Some(vec!["BASE TABLE".to_string()]),
        None,
    );
    let srows = vec![schema_row("def", "s1")];
    let crows = vec![column_row("def", "s1", "t1", "BASE TABLE", "c1", 1)];
    let r = b.build(&ObjectDepth::Columns, &srows, &vec![], &crows);
    assert_eq!(r.table_name, vec!["t1".to_string()]);
    assert_eq!(r.table_type, vec!["BASE TABLE".to_string()]);
}

#[test]
fn multi_element_type_filter_numbers_parameters() {
    let b = GetObjectsBuilder::new(
        None,
        None,
        None,
        Some(vec!["BASE TABLE".to_string(), "VIEW".to_string()]),
        None,
    );
    let plan = b.plan(&ObjectDepth::Tables);
    let tq = plan.table_query.unwrap();
    assert!(tq.sql.contains(
        "t.table_type IN ({table_type_filter_0:String},{table_type_filter_1:String})"
    ));
    assert_eq!(tq.params[0].0, "table_type_filter_0");
    assert_eq!(tq.params[0].1, "BASE TABLE");
    assert_eq!(tq.params[1].0, "table_type_filter_1");
    assert_eq!(tq.params[1].1, "VIEW");
}

#[test]
fn empty_type_filter_matches_no_row() {
    let b = GetObjectsBuilder::new(None, None, None, Some(vec![]), None);
    let plan = b.plan(&ObjectDepth::Tables);
    let tq = plan.table_query.unwrap();
    assert!(tq.sql.contains("WHERE 1 = 0"));
    assert!(tq.params.is_empty());
}

#[test]
fn predicates_join_with_and() {
    let b = GetObjectsBuilder::new(
        Some("a".to_string()),
        Some("b".to_string()),
        Some("c".to_string()),
        None,
        Some("d".to_string()),
    );
    let plan = b.plan(&ObjectDepth::All);
    let cq = plan.column_query.unwrap();
    assert!(cq.sql.contains(
        "WHERE c.table_catalog LIKE {catalog_filter:String} AND c.table_schema LIKE \
         {schema_filter:String} AND c.table_name LIKE {table_filter:String} AND \
         c.column_name LIKE {column_filter:String}"
    ));
    assert_eq!(cq.params.len(), 4);
}

#[test]
fn catalogs_are_grouped_in_first_occurrence_order() {
    let srows = vec![
        schema_row("b", "s1"),
        schema_row("a", "s1"),
        schema_row("b", "s2"),
        schema_row("a", "s2"),
    ];
    let cats = assemble_catalogs(&srows);
    assert_eq!(cats.len(), 2);
    assert_eq!(cats[0].catalog_name, Some("b".to_string()));
    assert_eq!(cats[1].catalog_name, Some("a".to_string()));
    // catalogs-only depth leaves schemas untraversed
    assert!(cats[0].catalog_db_schemas.is_none());
    assert!(cats[1].catalog_db_schemas.is_none());

    let with_schemas = assemble_schemas(&srows);
    let b_schemas = with_schemas[0].catalog_db_schemas.as_ref().unwrap();
    assert_eq!(b_schemas.len(), 2);
    assert_eq!(b_schemas[0].db_schema_name, Some("s1".to_string()));
    assert_eq!(b_schemas[1].db_schema_name, Some("s2".to_string()));
}

#[test]
fn tables_attach_to_their_schema_bucket() {
    let srows = vec![schema_row("def", "s1"), schema_row("def", "s2")];
    let trows = vec![
        table_row("def", "s2", "t2", "VIEW"),
        table_row("def", "s1", "t1", "BASE TABLE"),
    ];
    let cats = assemble_tables(&srows, &trows);
    assert_eq!(cats.len(), 1);
    let schemas = cats[0].catalog_db_schemas.as_ref().unwrap();
    assert_eq!(schemas.len(), 2);
    let s1_tables = schemas[0].db_schema_tables.as_ref().unwrap();
    assert_eq!(s1_tables.len(), 1);
    assert_eq!(s1_tables[0].table_name, "t1");
    assert_eq!(s1_tables[0].table_type, "BASE TABLE");
    // tables depth leaves columns untraversed
    assert!(s1_tables[0].table_columns.is_none());
    let s2_tables = schemas[1].db_schema_tables.as_ref().unwrap();
    assert_eq!(s2_tables[0].table_name, "t2");
}

#[test]
fn schema_with_no_tables_gets_empty_list_not_null() {
    // fetched-and-empty differs from not-fetched
    let srows = vec![schema_row("def", "s1")];
    let cats = assemble_tables(&srows, &vec![]);
    let schemas = cats[0].catalog_db_schemas.as_ref().unwrap();
    let tables = schemas[0].db_schema_tables.as_ref().unwrap();
    assert!(tables.is_empty());

    let b = all_filters_empty();
    let r = b.build(&ObjectDepth::Tables, &srows, &vec![], &vec![]);
    // the encoded record keeps the same distinction: a valid row whose
    // offsets do not advance
    assert_eq!(r.db_schema_tables.validity, vec![true]);
    assert_eq!(r.db_schema_tables.offsets, vec![0, 0]);
}

#[test]
fn encoding_zero_catalogs_yields_zero_zero_offsets() {
    let b = all_filters_empty();
    let r = b.build(&ObjectDepth::Columns, &vec![], &vec![], &vec![]);
    assert!(r.catalog_name.is_empty());
    assert_eq!(r.catalog_db_schemas.offsets, vec![0]);
    assert_eq!(r.db_schema_tables.offsets, vec![0]);
    assert_eq!(r.table_columns.offsets, vec![0]);
}

#[test]
fn columns_group_by_table_and_keep_row_order() {
    let srows = vec![schema_row("def", "s1")];
    let crows = vec![
        column_row("def", "s1", "t1", "BASE TABLE", "a", 1),
        column_row("def", "s1", "t2", "BASE TABLE", "x", 1),
        column_row("def", "s1", "t1", "BASE TABLE", "b", 2),
    ];
    let cats = assemble_columns(&srows, &crows);
    let schemas = cats[0].catalog_db_schemas.as_ref().unwrap();
    let tables = schemas[0].db_schema_tables.as_ref().unwrap();
    assert_eq!(tables.len(), 2);
    assert_eq!(tables[0].table_name, "t1");
    assert_eq!(tables[1].table_name, "t2");
    let t1_cols = tables[0].table_columns.as_ref().unwrap();
    assert_eq!(t1_cols.len(), 2);
    assert_eq!(t1_cols[0].column_name, "a");
    assert_eq!(t1_cols[1].column_name, "b");
    assert_eq!(t1_cols[0].ordinal_position, Some(1));
    // constraints are out of scope and never populated
    assert!(tables[0].table_constraints.is_none());
}

#[test]
fn nullability_keeps_the_inverted_convention() {
    let srows = vec![schema_row("def", "s1")];
    let mut nullable_row = column_row("def", "s1", "t1", "BASE TABLE", "a", 1);
    nullable_row.xdbc_nullable = true;
    let mut not_nullable_row = column_row("def", "s1", "t1", "BASE TABLE", "b", 2);
    not_nullable_row.xdbc_nullable = false;
    let cats = assemble_columns(&srows, &vec![nullable_row, not_nullable_row]);
    let schemas = cats[0].catalog_db_schemas.as_ref().unwrap();
    let cols = schemas[0].db_schema_tables.as_ref().unwrap()[0].table_columns.as_ref().unwrap();
    // 0 means nullable, 1 means not-nullable
    assert_eq!(cols[0].xdbc_nullable, Some(0));
    assert_eq!(cols[1].xdbc_nullable, Some(1));
    // descriptors the backend does not supply stay absent
    assert!(cols[0].xdbc_data_type.is_none());
    assert!(cols[0].xdbc_scope_catalog.is_none());
    assert!(cols[0].xdbc_is_autoincrement.is_none());
}

#[test]
fn offset_buffers_recompute_to_the_counts_used_to_build() {
    // round trip over the offsets: parent and child counts recomputed
    // from the buffers equal the counts that built the record
    let srows = vec![schema_row("def", "s1"), schema_row("def", "s2"), schema_row("other", "s3")];
    let crows = vec![
        column_row("def", "s1", "t1", "BASE TABLE", "a", 1),
        column_row("def", "s1", "t1", "BASE TABLE", "b", 2),
        column_row("def", "s1", "t2", "VIEW", "c", 1),
        column_row("other", "s3", "t3", "BASE TABLE", "d", 1),
    ];
    let b = all_filters_empty();
    let r = b.build(&ObjectDepth::All, &srows, &vec![], &crows);

    // catalog level: 2 catalogs, 3 schemas
    assert_eq!(r.catalog_db_schemas.offsets.len(), r.catalog_name.len() + 1);
    assert_eq!(r.catalog_db_schemas.offsets.first(), Some(&0));
    assert_eq!(r.catalog_db_schemas.offsets.last(), Some(&r.db_schema_name.len()));
    for w in r.catalog_db_schemas.offsets.windows(2) {
        assert!(w[0] <= w[1]);
    }
    // schema level: 3 schemas, 3 tables
    assert_eq!(r.db_schema_tables.offsets.len(), r.db_schema_name.len() + 1);
    assert_eq!(r.db_schema_tables.offsets.last(), Some(&r.table_name.len()));
    for w in r.db_schema_tables.offsets.windows(2) {
        assert!(w[0] <= w[1]);
    }
    // table level: 3 tables, 4 columns
    assert_eq!(r.table_columns.offsets.len(), r.table_name.len() + 1);
    assert_eq!(r.table_columns.offsets.last(), Some(&r.column_data.len()));
    for w in r.table_columns.offsets.windows(2) {
        assert!(w[0] <= w[1]);
    }
    assert_eq!(r.catalog_name.len(), 2);
    assert_eq!(r.db_schema_name.len(), 3);
    assert_eq!(r.table_name.len(), 3);
    assert_eq!(r.column_data.len(), 4);
    // constraint lists are always empty
    assert_eq!(r.table_constraints.offsets, vec![0, 0, 0, 0]);
    assert_eq!(r.table_constraints.validity, vec![false, false, false]);
    // concrete slices
    assert_eq!(r.catalog_db_schemas.offsets, vec![0, 2, 3]);
    assert_eq!(r.db_schema_tables.offsets, vec![0, 2, 2, 3]);
    assert_eq!(r.table_columns.offsets, vec![0, 2, 3, 4]);
    // the middle schema was fetched and has zero tables
    assert_eq!(r.db_schema_tables.validity, vec![true, true, true]);
}

#[test]
fn shallow_assembly_equals_truncated_deep_assembly() {
    // depth monotonicity on a concrete state: assembling at Schemas gives
    // the Tables assembly with the table level forced absent
    let srows = vec![schema_row("def", "s1"), schema_row("def", "s2")];
    let trows = vec![table_row("def", "s1", "t1", "BASE TABLE")];
    let shallow = assemble_schemas(&srows);
    let deep = assemble_tables(&srows, &trows);
    assert_eq!(shallow.len(), deep.len());
    for (s, d) in shallow.iter().zip(deep.iter()) {
        assert_eq!(s.catalog_name, d.catalog_name);
        let ss = s.catalog_db_schemas.as_ref().unwrap();
        let ds = d.catalog_db_schemas.as_ref().unwrap();
        assert_eq!(ss.len(), ds.len());
        for (a, b) in ss.iter().zip(ds.iter()) {
            assert_eq!(a.db_schema_name, b.db_schema_name);
            // forcing the deep field absent recovers the shallow record
            assert!(a.db_schema_tables.is_none());
            assert!(b.db_schema_tables.is_some());
        }
    }
}

#[test]
fn tables_assembly_equals_truncated_columns_assembly() {
    // the same, one level down, with consistent row sets
    let srows = vec![schema_row("def", "s1")];
    let crows = vec![
        column_row("def", "s1", "t1", "BASE TABLE", "a", 1),
        column_row("def", "s1", "t1", "BASE TABLE", "b", 2),
        column_row("def", "s1", "t2", "VIEW", "c", 1),
    ];
    // the distinct table identities of the column rows, in order
    let trows = vec![
        table_row("def", "s1", "t1", "BASE TABLE"),
        table_row("def", "s1", "t2", "VIEW"),
    ];
    let shallow = assemble_tables(&srows, &trows);
    let deep = assemble_columns(&srows, &crows);
    let st = shallow[0].catalog_db_schemas.as_ref().unwrap()[0].db_schema_tables.as_ref().unwrap();
    let dt = deep[0].catalog_db_schemas.as_ref().unwrap()[0].db_schema_tables.as_ref().unwrap();
    assert_eq!(st.len(), dt.len());
    for (a, b) in st.iter().zip(dt.iter()) {
        assert_eq!(a.table_name, b.table_name);
        assert_eq!(a.table_type, b.table_type);
        assert!(a.table_columns.is_none());
        assert!(b.table_columns.is_some());
    }
}

#[test]
fn decimal_strings_render_exactly() {
    assert_eq!(decimal_string(0), "0");
    assert_eq!(decimal_string(7), "7");
    assert_eq!(decimal_string(10), "10");
    assert_eq!(decimal_string(12345), "12345");
}
