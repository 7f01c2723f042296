//! The nested entities produced by a discovery call, the flat rows the
//! backend's information-schema views return, and the mathematical views
//! of both.
//!
//! Depth strictly controls which optional fields are populated: an absent
//! (`None`) sequence means "this level was not traversed", while an empty
//! sequence means "traversed, zero children found".  The two are never
//! interchangeable.

use vstd::prelude::*;

verus! {

/// One catalog.  `catalog_db_schemas` is `None` iff the requested depth
/// stopped at catalogs.
pub struct Catalog {
    pub catalog_name: Option<String>,
    pub catalog_db_schemas: Option<Vec<DbSchema>>,
}

/// One database schema.  `db_schema_tables` is `None` iff the requested
/// depth stopped at or above schemas.
pub struct DbSchema {
    pub db_schema_name: Option<String>,
    pub db_schema_tables: Option<Vec<TableSchema>>,
}

/// One table.  `table_columns` is `None` iff the requested depth stopped at
/// or above tables; `table_constraints` is always absent in this core.
pub struct TableSchema {
    pub table_name: String,
    pub table_type: String,
    pub table_columns: Option<Vec<ColumnSchema>>,
    pub table_constraints: Option<Vec<ConstraintSchema>>,
}

/// One column, with the fixed set of descriptor fields of the external
/// column-metadata contract.  Descriptors that the backend does not supply
/// stay `None`, never zero or empty.
pub struct ColumnSchema {
    pub column_name: String,
    pub ordinal_position: Option<i32>,
    pub remarks: Option<String>,
    pub xdbc_data_type: Option<i16>,
    pub xdbc_type_name: Option<String>,
    pub xdbc_column_size: Option<i32>,
    pub xdbc_decimal_digits: Option<i16>,
    pub xdbc_num_prec_radix: Option<i16>,
    pub xdbc_nullable: Option<i16>,
    pub xdbc_column_def: Option<String>,
    pub xdbc_sql_data_type: Option<i16>,
    pub xdbc_datetime_sub: Option<i16>,
    pub xdbc_char_octet_length: Option<i32>,
    pub xdbc_is_nullable: Option<String>,
    pub xdbc_scope_catalog: Option<String>,
    pub xdbc_scope_schema: Option<String>,
    pub xdbc_scope_table: Option<String>,
    pub xdbc_is_autoincrement: Option<bool>,
    pub xdbc_is_generatedcolumn: Option<bool>,
}

/// One table constraint.  Constraints are out of scope for this core: the
/// assembler never populates them, and the encoder requires them absent.
pub struct ConstraintSchema {
    pub constraint_name: Option<String>,
    pub constraint_type: String,
    pub constraint_column_names: Option<Vec<String>>,
    pub constraint_column_usage: Option<Vec<UsageSchema>>,
}

/// One foreign-key usage entry of a constraint.
pub struct UsageSchema {
    pub fk_catalog: Option<String>,
    pub fk_db_schema: Option<String>,
    pub fk_table: String,
    pub fk_column_name: String,
}

/// A row of the schema-level query: one (catalog, schema) name pair.
pub struct SchemaRow {
    pub catalog_name: String,
    pub schema_name: String,
}

/// A row of the table-level query.
pub struct TableRow {
    pub table_catalog: String,
    pub table_schema: String,
    pub table_name: String,
    pub table_type: String,
}

/// A row of the joined column-level query.
pub struct ColumnRow {
    pub table_catalog: String,
    pub table_schema: String,
    pub table_name: String,
    pub table_type: String,
    pub column_name: String,
    pub ordinal_position: u64,
    pub remarks: String,
    pub xdbc_type_name: String,
    pub xdbc_column_size: Option<u64>,
    pub xdbc_decimal_digits: Option<u64>,
    pub xdbc_num_prec_radix: Option<u64>,
    pub xdbc_nullable: bool,
    pub xdbc_column_def: String,
    pub xdbc_datetime_sub: Option<u64>,
    pub xdbc_char_octet_length: Option<u64>,
    pub xdbc_is_nullable: String,
    pub xdbc_is_generatedcolumn: bool,
}

/// Mathematical view of a [`Catalog`]: the nested vectors become sequences.
#[verifier::ext_equal]
pub struct CatalogView {
    pub name: Option<String>,
    pub schemas: Option<Seq<DbSchemaView>>,
}

/// Mathematical view of a [`DbSchema`].
#[verifier::ext_equal]
pub struct DbSchemaView {
    pub name: Option<String>,
    pub tables: Option<Seq<TableSchemaView>>,
}

/// Mathematical view of a [`TableSchema`].  Columns need no view of their
/// own: a [`ColumnSchema`] holds only plain values.
#[verifier::ext_equal]
pub struct TableSchemaView {
    pub name: String,
    pub ty: String,
    pub columns: Option<Seq<ColumnSchema>>,
    pub constraints: Option<Seq<ConstraintSchemaView>>,
}

/// Mathematical view of a [`ConstraintSchema`].
#[verifier::ext_equal]
pub struct ConstraintSchemaView {
    pub name: Option<String>,
    pub ty: String,
    pub column_names: Option<Seq<String>>,
    pub column_usage: Option<Seq<UsageSchema>>,
}

/// The views of a sequence of constraints.
pub open spec fn constraints_view(cs: Seq<ConstraintSchema>) -> Seq<ConstraintSchemaView> {
    cs.map_values(|c: ConstraintSchema| c@)
}

/// The views of a sequence of tables.
pub open spec fn table_schemas_view(ts: Seq<TableSchema>) -> Seq<TableSchemaView> {
    ts.map_values(|t: TableSchema| t@)
}

/// The views of a sequence of schemas.
pub open spec fn db_schemas_view(ss: Seq<DbSchema>) -> Seq<DbSchemaView> {
    ss.map_values(|s: DbSchema| s@)
}

impl View for ConstraintSchema {
    type V = ConstraintSchemaView;

    open spec fn view(&self) -> ConstraintSchemaView {
        ConstraintSchemaView {
            name: self.constraint_name,
            ty: self.constraint_type,
            column_names: match self.constraint_column_names {
                Some(ns) => Some(ns@),
                None => None,
            },
            column_usage: match self.constraint_column_usage {
                Some(us) => Some(us@),
                None => None,
            },
        }
    }
}

impl View for TableSchema {
    type V = TableSchemaView;

    open spec fn view(&self) -> TableSchemaView {
        TableSchemaView {
            name: self.table_name,
            ty: self.table_type,
            columns: match self.table_columns {
                Some(cs) => Some(cs@),
                None => None,
            },
            constraints: match self.table_constraints {
                Some(cs) => Some(constraints_view(cs@)),
                None => None,
            },
        }
    }
}

impl View for DbSchema {
    type V = DbSchemaView;

    open spec fn view(&self) -> DbSchemaView {
        DbSchemaView {
            name: self.db_schema_name,
            tables: match self.db_schema_tables {
                Some(ts) => Some(table_schemas_view(ts@)),
                None => None,
            },
        }
    }
}

impl View for Catalog {
    type V = CatalogView;

    open spec fn view(&self) -> CatalogView {
        CatalogView {
            name: self.catalog_name,
            schemas: match self.catalog_db_schemas {
                Some(ss) => Some(db_schemas_view(ss@)),
                None => None,
            },
        }
    }
}

/// The views of a whole forest.
pub open spec fn forest_view(cats: Seq<Catalog>) -> Seq<CatalogView> {
    cats.map_values(|c: Catalog| c@)
}

pub proof fn lemma_table_schemas_view_push(ts: Seq<TableSchema>, x: TableSchema)
    ensures
        table_schemas_view(ts.push(x)) =~= table_schemas_view(ts).push(x@),
{
}

pub proof fn lemma_db_schemas_view_push(ss: Seq<DbSchema>, x: DbSchema)
    ensures
        db_schemas_view(ss.push(x)) =~= db_schemas_view(ss).push(x@),
{
}

pub proof fn lemma_forest_view_push(cats: Seq<Catalog>, x: Catalog)
    ensures
        forest_view(cats.push(x)) =~= forest_view(cats).push(x@),
{
}

pub proof fn lemma_db_schemas_view_concat(a: Seq<DbSchema>, b: Seq<DbSchema>)
    ensures
        db_schemas_view(a + b) =~= db_schemas_view(a) + db_schemas_view(b),
{
}

pub proof fn lemma_table_schemas_view_concat(a: Seq<TableSchema>, b: Seq<TableSchema>)
    ensures
        table_schemas_view(a + b) =~= table_schemas_view(a) + table_schemas_view(b),
{
}

} // verus!
