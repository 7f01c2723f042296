//! The metadata query planner.
//!
//! For a requested depth and optional name filters it emits the SQL text
//! and named bound parameters of each query the discovery call needs.
//! Every filter becomes a LIKE predicate bound by name — filter values are
//! never concatenated into the query text — and an absent filter omits its
//! predicate entirely.  A table-type filter becomes one IN-clause parameter
//! per element; an empty set supplied explicitly yields a predicate that
//! matches no row.  The planner itself never fails: it produces valid SQL
//! for any combination of filters.

use vstd::prelude::*;
use vstd::string::StrSliceExecFns;
use vstd::string::StringExecFns;

verus! {

/// One planned query: its SQL text and its named bound parameters.
pub struct PlannedQuery {
    pub sql: String,
    pub params: Vec<(String, String)>,
}

/// The (name view, value) pairs of a parameter list.
pub open spec fn params_view(ps: Seq<(String, String)>) -> Seq<(Seq<char>, String)> {
    ps.map_values(|p: (String, String)| (p.0@, p.1))
}

// ---------------------------------------------------------------------------
// Decimal rendering, for the numbered IN-clause parameter names
// ---------------------------------------------------------------------------

/// The decimal digit character of `d` (for `d` under 10).
pub open spec fn dec_digit(d: nat) -> char {
    if d == 0 {
        '0'
    } else if d == 1 {
        '1'
    } else if d == 2 {
        '2'
    } else if d == 3 {
        '3'
    } else if d == 4 {
        '4'
    } else if d == 5 {
        '5'
    } else if d == 6 {
        '6'
    } else if d == 7 {
        '7'
    } else if d == 8 {
        '8'
    } else {
        '9'
    }
}

/// The decimal representation of `n`, most significant digit first.
pub open spec fn dec_rep(n: nat) -> Seq<char>
    decreases n,
{
    if n < 10 {
        seq![dec_digit(n)]
    } else {
        dec_rep(n / 10).push(dec_digit(n % 10))
    }
}

/// The one-character string of a decimal digit.
fn digit_str(d: usize) -> (s: String)
    requires
        d < 10,
    ensures
        s@ =~= seq![dec_digit(d as nat)],
{
    let s: &str = if d == 0 {
        "0"
    } else if d == 1 {
        "1"
    } else if d == 2 {
        "2"
    } else if d == 3 {
        "3"
    } else if d == 4 {
        "4"
    } else if d == 5 {
        "5"
    } else if d == 6 {
        "6"
    } else if d == 7 {
        "7"
    } else if d == 8 {
        "8"
    } else {
        "9"
    };
    proof {
        reveal_strlit("0");
        reveal_strlit("1");
        reveal_strlit("2");
        reveal_strlit("3");
        reveal_strlit("4");
        reveal_strlit("5");
        reveal_strlit("6");
        reveal_strlit("7");
        reveal_strlit("8");
        reveal_strlit("9");
    }
    s.to_owned()
}

/// The decimal text of `n`.
pub fn decimal_string(n: usize) -> (s: String)
    ensures
        s@ == dec_rep(n as nat),
    decreases n,
{
    if n < 10 {
        digit_str(n)
    } else {
        let mut s = decimal_string(n / 10);
        let d = digit_str(n % 10);
        s.append(d.as_str());
        proof {
            assert(s@ =~= dec_rep((n / 10) as nat).push(dec_digit((n % 10) as nat)));
        }
        s
    }
}

// ---------------------------------------------------------------------------
// The three query shapes
// ---------------------------------------------------------------------------

/// The schema-level base query against the SCHEMATA system view.
pub open spec fn schema_base_sql() -> Seq<char> {
    "SELECT\n    s.catalog_name,\n    s.schema_name\nFROM\n    INFORMATION_SCHEMA.SCHEMATA s"@
}

/// The table-level base query against the TABLES system view.
pub open spec fn table_base_sql() -> Seq<char> {
    "SELECT\n    t.table_catalog,\n    t.table_schema,\n    t.table_name,\n    t.table_type\nFROM\n    INFORMATION_SCHEMA.TABLES t"@
}

/// The joined column-level base query against the COLUMNS system view,
/// carrying the table type so that one query serves both levels.
pub open spec fn column_base_sql() -> Seq<char> {
    "SELECT\n    c.table_catalog,\n    c.table_schema,\n    c.table_name,\n    t.table_type,\n    c.column_name,\n    c.ordinal_position,\n    c.column_comment as remarks,\n    c.data_type as xdbc_type_name,\n    c.character_maximum_length as xdbc_column_size,\n    c.numeric_scale as xdbc_decimal_digits,\n    c.numeric_precision_radix as xdbc_num_prec_radix,\n    c.is_nullable::bool as xdbc_nullable,\n    c.column_default as xdbc_column_def,\n    c.datetime_precision as xdbc_datetime_sub,\n    c.character_octet_length as xdbc_char_octet_length,\n    CASE c.is_nullable\n        WHEN 1 THEN 'YES'\n        ELSE 'NO'\n    END as xdbc_is_nullable,\n    (countSubstrings(c.extra, 'GENERATED') > 0)::bool as xdbc_is_generatedcolumn\nFROM\n    INFORMATION_SCHEMA.COLUMNS c\nJOIN INFORMATION_SCHEMA.TABLES t ON\n    c.table_catalog = t.table_catalog AND c.table_schema = t.table_schema AND c.table_name = t.table_name"@
}

/// The numbered IN-clause placeholder of element `i`.
pub open spec fn in_ident(i: nat) -> Seq<char> {
    "{table_type_filter_"@ + dec_rep(i) + ":String}"@
}

/// The comma-separated placeholders of an `n`-element IN clause.
pub open spec fn in_idents(n: nat) -> Seq<char>
    decreases n,
{
    if n == 0 {
        Seq::empty()
    } else if n == 1 {
        in_ident(0)
    } else {
        in_idents((n - 1) as nat) + ","@ + in_ident((n - 1) as nat)
    }
}

/// The table-type predicate of a supplied filter of `n` elements: an IN
/// clause over one bound parameter per element, or a predicate matching no
/// row when the set is empty.
pub open spec fn type_pred(alias: Seq<char>, n: nat) -> Seq<char> {
    if n == 0 {
        "1 = 0"@
    } else {
        alias + ".table_type IN ("@ + in_idents(n) + ")"@
    }
}

/// The numbered parameters of a table-type filter, in element order.
pub open spec fn type_params(tts: Seq<String>) -> Seq<(Seq<char>, String)> {
    Seq::new(tts.len(), |i: int| ("table_type_filter_"@ + dec_rep(i as nat), tts[i]))
}

// ---------------------------------------------------------------------------
// Predicate joining
// ---------------------------------------------------------------------------

/// Predicates joined with " AND ", in order.
pub open spec fn and_join(preds: Seq<Seq<char>>) -> Seq<char>
    decreases preds.len(),
{
    if preds.len() == 0 {
        Seq::empty()
    } else if preds.len() == 1 {
        preds[0]
    } else {
        and_join(preds.drop_last()) + " AND "@ + preds.last()
    }
}

/// The base query, with a WHERE part when any predicate is present.
pub open spec fn with_where(base: Seq<char>, preds: Seq<Seq<char>>) -> Seq<char> {
    if preds.len() == 0 {
        base
    } else {
        base + "\nWHERE "@ + and_join(preds)
    }
}

/// The texts of a predicate list.
pub open spec fn preds_view(ps: Seq<String>) -> Seq<Seq<char>> {
    ps.map_values(|p: String| p@)
}

/// A predicate list of zero or one entries, by presence.
pub open spec fn maybe_pred(p: Seq<char>, present: bool) -> Seq<Seq<char>> {
    if present {
        seq![p]
    } else {
        Seq::empty()
    }
}

/// A parameter list of zero or one entries, by presence of the filter.
pub open spec fn maybe_param(name: Seq<char>, v: Option<String>) -> Seq<(Seq<char>, String)> {
    match v {
        Some(s) => seq![(name, s)],
        None => Seq::empty(),
    }
}

proof fn lemma_and_join_push(preds: Seq<Seq<char>>, x: Seq<char>)
    ensures
        and_join(preds.push(x)) == if preds.len() == 0 {
            x
        } else {
            and_join(preds) + " AND "@ + x
        },
{
    assert(preds.push(x).drop_last() =~= preds);
    assert(preds.push(x).last() == x);
}

proof fn lemma_preds_view_push(ps: Seq<String>, x: String)
    ensures
        preds_view(ps.push(x)) =~= preds_view(ps).push(x@),
{
}

proof fn lemma_params_view_push(ps: Seq<(String, String)>, x: (String, String))
    ensures
        params_view(ps.push(x)) =~= params_view(ps).push((x.0@, x.1)),
{
}

/// Renders a base query and its predicate list into one planned query.
fn render_query(base: String, preds: Vec<String>, params: Vec<(String, String)>) -> (q:
    PlannedQuery)
    ensures
        q.sql@ == with_where(base@, preds_view(preds@)),
        q.params == params,
{
    let ghost base0 = base@;
    let mut sql = base;
    if preds.len() > 0 {
        sql.append("\nWHERE ");
        let mut i: usize = 0;
        while i < preds.len()
            invariant
                i <= preds@.len(),
                sql@ == base0 + "\nWHERE "@ + and_join(preds_view(preds@.subrange(0, i as int))),
            decreases preds@.len() - i,
        {
            if i > 0 {
                sql.append(" AND ");
            }
            sql.append(preds[i].as_str());
            proof {
                let prefix = preds@.subrange(0, i as int);
                assert(preds@.subrange(0, i + 1) =~= prefix.push(preds@[i as int]));
                lemma_preds_view_push(prefix, preds@[i as int]);
                lemma_and_join_push(preds_view(prefix), preds@[i as int]@);
                assert(preds_view(prefix).len() == i);
            }
            i += 1;
        }
        proof {
            assert(preds@.subrange(0, preds@.len() as int) =~= preds@);
            assert(preds_view(preds@).len() == preds@.len());
        }
    }
    PlannedQuery { sql, params }
}

// ---------------------------------------------------------------------------
// The LIKE predicates of each query shape
// ---------------------------------------------------------------------------

/// Schema-level catalog predicate.
pub open spec fn schema_cat_pred() -> Seq<char> {
    "s.catalog_name LIKE {catalog_filter:String}"@
}

/// Schema-level schema predicate.
pub open spec fn schema_sch_pred() -> Seq<char> {
    "s.schema_name LIKE {schema_filter:String}"@
}

/// Table-level catalog predicate.
pub open spec fn table_cat_pred() -> Seq<char> {
    "t.table_catalog LIKE {catalog_filter:String}"@
}

/// Table-level schema predicate.
pub open spec fn table_sch_pred() -> Seq<char> {
    "t.table_schema LIKE {schema_filter:String}"@
}

/// Table-level table-name predicate.
pub open spec fn table_tab_pred() -> Seq<char> {
    "t.table_name LIKE {table_filter:String}"@
}

/// Column-level catalog predicate.
pub open spec fn column_cat_pred() -> Seq<char> {
    "c.table_catalog LIKE {catalog_filter:String}"@
}

/// Column-level schema predicate.
pub open spec fn column_sch_pred() -> Seq<char> {
    "c.table_schema LIKE {schema_filter:String}"@
}

/// Column-level table-name predicate.
pub open spec fn column_tab_pred() -> Seq<char> {
    "c.table_name LIKE {table_filter:String}"@
}

/// Column-level column-name predicate.
pub open spec fn column_col_pred() -> Seq<char> {
    "c.column_name LIKE {column_filter:String}"@
}

/// The table-type predicate over the joined alias `t`.
pub open spec fn table_type_pred(n: nat) -> Seq<char> {
    type_pred("t"@, n)
}

// ---------------------------------------------------------------------------
// The planned SQL and parameters of each query shape
// ---------------------------------------------------------------------------

/// The schema-level query text for the given filter presence.
pub open spec fn schema_query_sql(has_cat: bool, has_sch: bool) -> Seq<char> {
    with_where(
        schema_base_sql(),
        maybe_pred(schema_cat_pred(), has_cat) + maybe_pred(schema_sch_pred(), has_sch),
    )
}

/// The schema-level query parameters.
pub open spec fn schema_query_params(cat: Option<String>, sch: Option<String>) -> Seq<
    (Seq<char>, String),
> {
    maybe_param("catalog_filter"@, cat) + maybe_param("schema_filter"@, sch)
}

/// The table-level query text: LIKE predicates for the present filters in
/// catalog, schema, table order, then the table-type predicate when that
/// filter was supplied.
pub open spec fn table_query_sql(
    has_cat: bool,
    has_sch: bool,
    has_tab: bool,
    tt: Option<nat>,
) -> Seq<char> {
    with_where(
        table_base_sql(),
        maybe_pred(table_cat_pred(), has_cat) + maybe_pred(table_sch_pred(), has_sch) + maybe_pred(
            table_tab_pred(),
            has_tab,
        ) + match tt {
            Some(n) => seq![table_type_pred(n)],
            None => Seq::empty(),
        },
    )
}

/// The table-level query parameters.
pub open spec fn table_query_params(
    cat: Option<String>,
    sch: Option<String>,
    tab: Option<String>,
    tt: Option<Seq<String>>,
) -> Seq<(Seq<char>, String)> {
    maybe_param("catalog_filter"@, cat) + maybe_param("schema_filter"@, sch) + maybe_param(
        "table_filter"@,
        tab,
    ) + match tt {
        Some(v) => type_params(v),
        None => Seq::empty(),
    }
}

/// The column-level query text: LIKE predicates for the present filters in
/// catalog, schema, table, column order, then the table-type predicate when
/// that filter was supplied.
pub open spec fn column_query_sql(
    has_cat: bool,
    has_sch: bool,
    has_tab: bool,
    has_col: bool,
    tt: Option<nat>,
) -> Seq<char> {
    with_where(
        column_base_sql(),
        maybe_pred(column_cat_pred(), has_cat) + maybe_pred(column_sch_pred(), has_sch)
            + maybe_pred(column_tab_pred(), has_tab) + maybe_pred(column_col_pred(), has_col)
            + match tt {
            Some(n) => seq![table_type_pred(n)],
            None => Seq::empty(),
        },
    )
}

// ---------------------------------------------------------------------------
// Building the planned queries
// ---------------------------------------------------------------------------

/// The schema-level base query text.
fn schema_base_string() -> (s: String)
    ensures
        s@ == schema_base_sql(),
{
    "SELECT\n    s.catalog_name,\n    s.schema_name\nFROM\n    INFORMATION_SCHEMA.SCHEMATA s".to_owned()
}

/// The table-level base query text.
fn table_base_string() -> (s: String)
    ensures
        s@ == table_base_sql(),
{
    "SELECT\n    t.table_catalog,\n    t.table_schema,\n    t.table_name,\n    t.table_type\nFROM\n    INFORMATION_SCHEMA.TABLES t".to_owned()
}

/// The column-level base query text.
fn column_base_string() -> (s: String)
    ensures
        s@ == column_base_sql(),
{
    "SELECT\n    c.table_catalog,\n    c.table_schema,\n    c.table_name,\n    t.table_type,\n    c.column_name,\n    c.ordinal_position,\n    c.column_comment as remarks,\n    c.data_type as xdbc_type_name,\n    c.character_maximum_length as xdbc_column_size,\n    c.numeric_scale as xdbc_decimal_digits,\n    c.numeric_precision_radix as xdbc_num_prec_radix,\n    c.is_nullable::bool as xdbc_nullable,\n    c.column_default as xdbc_column_def,\n    c.datetime_precision as xdbc_datetime_sub,\n    c.character_octet_length as xdbc_char_octet_length,\n    CASE c.is_nullable\n        WHEN 1 THEN 'YES'\n        ELSE 'NO'\n    END as xdbc_is_nullable,\n    (countSubstrings(c.extra, 'GENERATED') > 0)::bool as xdbc_is_generatedcolumn\nFROM\n    INFORMATION_SCHEMA.COLUMNS c\nJOIN INFORMATION_SCHEMA.TABLES t ON\n    c.table_catalog = t.table_catalog AND c.table_schema = t.table_schema AND c.table_name = t.table_name".to_owned()
}

/// The numbered IN-clause placeholder text of element `i`.
fn in_ident_string(i: usize) -> (s: String)
    ensures
        s@ == in_ident(i as nat),
{
    let mut s = "{table_type_filter_".to_owned();
    let d = decimal_string(i);
    s.append(d.as_str());
    s.append(":String}");
    proof {
        assert(s@ =~= in_ident(i as nat));
    }
    s
}

/// The table-type predicate and its numbered parameters; the parameters
/// are appended to `params`.
fn push_type_filter(tts: &Vec<String>, preds: &mut Vec<String>, params: &mut Vec<(String, String)>)
    ensures
        preds_view(final(preds)@) =~= preds_view(old(preds)@).push(table_type_pred(tts@.len())),
        params_view(final(params)@) =~= params_view(old(params)@) + type_params(tts@),
{
    let ghost params0 = params_view(params@);
    if tts.len() == 0 {
        preds.push("1 = 0".to_owned());
        proof {
            assert(params_view(params@) =~= params0 + type_params(tts@));
        }
        return ;
    }
    let mut idents = String::new();
    let mut i: usize = 0;
    while i < tts.len()
        invariant
            i <= tts@.len(),
            idents@ == in_idents(i as nat),
            params_view(params@) =~= params0 + type_params(tts@).subrange(0, i as int),
        decreases tts@.len() - i,
    {
        if i > 0 {
            idents.append(",");
        }
        let ident = in_ident_string(i);
        idents.append(ident.as_str());
        let mut name = "table_type_filter_".to_owned();
        let d = decimal_string(i);
        name.append(d.as_str());
        let ghost params_before = params@;
        params.push((name, tts[i].clone()));
        proof {
            lemma_params_view_push(params_before, params@[params@.len() - 1]);
            if i == 0 {
                assert(idents@ =~= in_idents(1));
            } else {
                assert(idents@ =~= in_idents((i + 1) as nat));
            }
            assert(type_params(tts@)[i as int] == (
                "table_type_filter_"@ + dec_rep(i as nat),
                tts@[i as int],
            ));
            assert(type_params(tts@).subrange(0, i + 1) =~= type_params(tts@).subrange(
                0,
                i as int,
            ).push(type_params(tts@)[i as int]));
            assert(params_view(params@) =~= params0 + type_params(tts@).subrange(0, i + 1));
        }
        i += 1;
    }
    let mut pred = "t".to_owned();
    pred.append(".table_type IN (");
    pred.append(idents.as_str());
    pred.append(")");
    preds.push(pred);
    proof {
        assert(type_params(tts@).subrange(0, tts@.len() as int) =~= type_params(tts@));
        assert(pred@ =~= table_type_pred(tts@.len()));
    }
}

/// Plans the schema-level query for the given filters.
pub fn plan_schema_query(cat: &Option<String>, sch: &Option<String>) -> (q: PlannedQuery)
    ensures
        q.sql@ == schema_query_sql(cat is Some, sch is Some),
        params_view(q.params@) == schema_query_params(*cat, *sch),
{
    let mut preds: Vec<String> = Vec::new();
    let mut params: Vec<(String, String)> = Vec::new();
    if let Some(c) = cat {
        preds.push("s.catalog_name LIKE {catalog_filter:String}".to_owned());
        params.push(("catalog_filter".to_owned(), c.clone()));
    }
    if let Some(s) = sch {
        preds.push("s.schema_name LIKE {schema_filter:String}".to_owned());
        params.push(("schema_filter".to_owned(), s.clone()));
    }
    proof {
        assert(preds_view(preds@) =~= maybe_pred(schema_cat_pred(), cat is Some) + maybe_pred(
            schema_sch_pred(),
            sch is Some,
        ));
        assert(params_view(params@) =~= schema_query_params(*cat, *sch));
    }
    let base = schema_base_string();
    render_query(base, preds, params)
}

/// Plans the table-level query for the given filters.
pub fn plan_table_query(
    cat: &Option<String>,
    sch: &Option<String>,
    tab: &Option<String>,
    tt: &Option<Vec<String>>,
) -> (q: PlannedQuery)
    ensures
        q.sql@ == table_query_sql(
            cat is Some,
            sch is Some,
            tab is Some,
            match *tt {
                Some(v) => Some(v@.len()),
                None => None,
            },
        ),
        params_view(q.params@) == table_query_params(
            *cat,
            *sch,
            *tab,
            match *tt {
                Some(v) => Some(v@),
                None => None,
            },
        ),
{
    let mut preds: Vec<String> = Vec::new();
    let mut params: Vec<(String, String)> = Vec::new();
    if let Some(c) = cat {
        preds.push("t.table_catalog LIKE {catalog_filter:String}".to_owned());
        params.push(("catalog_filter".to_owned(), c.clone()));
    }
    if let Some(s) = sch {
        preds.push("t.table_schema LIKE {schema_filter:String}".to_owned());
        params.push(("schema_filter".to_owned(), s.clone()));
    }
    if let Some(t) = tab {
        preds.push("t.table_name LIKE {table_filter:String}".to_owned());
        params.push(("table_filter".to_owned(), t.clone()));
    }
    let ghost like_preds = preds_view(preds@);
    let ghost like_params = params_view(params@);
    proof {
        assert(like_preds =~= maybe_pred(table_cat_pred(), cat is Some) + maybe_pred(
            table_sch_pred(),
            sch is Some,
        ) + maybe_pred(table_tab_pred(), tab is Some));
        assert(like_params =~= maybe_param("catalog_filter"@, *cat) + maybe_param(
            "schema_filter"@,
            *sch,
        ) + maybe_param("table_filter"@, *tab));
    }
    if let Some(tts) = tt {
        push_type_filter(tts, &mut preds, &mut params);
        proof {
            assert(preds_view(preds@) =~= like_preds + seq![
                table_type_pred(tts@.len()),
            ]);
            assert(params_view(params@) =~= like_params + type_params(tts@));
        }
    }
    let base = table_base_string();
    render_query(base, preds, params)
}

/// Plans the joined column-level query for the given filters.
pub fn plan_column_query(
    cat: &Option<String>,
    sch: &Option<String>,
    tab: &Option<String>,
    col: &Option<String>,
    tt: &Option<Vec<String>>,
) -> (q: PlannedQuery)
    ensures
        q.sql@ == column_query_sql(
            cat is Some,
            sch is Some,
            tab is Some,
            col is Some,
            match *tt {
                Some(v) => Some(v@.len()),
                None => None,
            },
        ),
        params_view(q.params@) == column_query_params(
            *cat,
            *sch,
            *tab,
            *col,
            match *tt {
                Some(v) => Some(v@),
                None => None,
            },
        ),
{
    let mut preds: Vec<String> = Vec::new();
    let mut params: Vec<(String, String)> = Vec::new();
    if let Some(c) = cat {
        preds.push("c.table_catalog LIKE {catalog_filter:String}".to_owned());
        params.push(("catalog_filter".to_owned(), c.clone()));
    }
    if let Some(s) = sch {
        preds.push("c.table_schema LIKE {schema_filter:String}".to_owned());
        params.push(("schema_filter".to_owned(), s.clone()));
    }
    if let Some(t) = tab {
        preds.push("c.table_name LIKE {table_filter:String}".to_owned());
        params.push(("table_filter".to_owned(), t.clone()));
    }
    if let Some(c) = col {
        preds.push("c.column_name LIKE {column_filter:String}".to_owned());
        params.push(("column_filter".to_owned(), c.clone()));
    }
    let ghost like_preds = preds_view(preds@);
    let ghost like_params = params_view(params@);
    proof {
        assert(like_preds =~= maybe_pred(column_cat_pred(), cat is Some) + maybe_pred(
            column_sch_pred(),
            sch is Some,
        ) + maybe_pred(column_tab_pred(), tab is Some) + maybe_pred(
            column_col_pred(),
            col is Some,
        ));
        assert(like_params =~= maybe_param("catalog_filter"@, *cat) + maybe_param(
            "schema_filter"@,
            *sch,
        ) + maybe_param("table_filter"@, *tab) + maybe_param("column_filter"@, *col));
    }
    if let Some(tts) = tt {
        push_type_filter(tts, &mut preds, &mut params);
        proof {
            assert(preds_view(preds@) =~= like_preds + seq![
                table_type_pred(tts@.len()),
            ]);
            assert(params_view(params@) =~= like_params + type_params(tts@));
        }
    }
    let base = column_base_string();
    render_query(base, preds, params)
}

/// The column-level query parameters.
pub open spec fn column_query_params(
    cat: Option<String>,
    sch: Option<String>,
    tab: Option<String>,
    col: Option<String>,
    tt: Option<Seq<String>>,
) -> Seq<(Seq<char>, String)> {
    maybe_param("catalog_filter"@, cat) + maybe_param("schema_filter"@, sch) + maybe_param(
        "table_filter"@,
        tab,
    ) + maybe_param("column_filter"@, col) + match tt {
        Some(v) => type_params(v),
        None => Seq::empty(),
    }
}

} // verus!
