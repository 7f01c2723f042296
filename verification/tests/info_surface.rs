use adbc_clickhouse::database::{
    ClickhouseDatabase, DbOptionKey, DbOptionValue, table_type_names,
};
use adbc_clickhouse::driver::ClickhouseDriver;
use adbc_clickhouse::error::Status;
use adbc_clickhouse::info::{GetInfoBuilder, InfoEntry, InfoRecord, InfoValue, build_standard_info};
use adbc_clickhouse::statement::{StatementState, UpdateAction};

/// Reads one union row back out of the record.
fn decode_row(r: &InfoRecord, i: usize) -> (u32, InfoValue) {
    let o = r.value_offset[i];
    let value = match r.type_id[i] {
        0 => InfoValue::StringValue(r.string_values[o].clone()),
        1 => InfoValue::BoolValue(r.bool_values[o]),
        2 => InfoValue::Int64Value(r.int64_values[o]),
        3 => InfoValue::Int32Bitmask(r.int32_values[o]),
        4 => InfoValue::StringList(r.string_list_values[o].clone()),
        _ => InfoValue::Int32ToInt32ListMap(r.int32_map_values[o].clone()),
    };
    (r.info_name[i], value)
}

#[test]
fn two_typed_entries_encode_as_tagged_union_rows() {
    // (code 1, "Vendor") then (code 2, 110): row 0 selects the string
    // variant, row 1 the int64 variant
    let mut b = GetInfoBuilder::new();
    b.set_string(1, "Vendor".to_string());
    b.set_number(2, 110);
    let r = b.finish();
    assert_eq!(r.info_name, vec![1, 2]);
    assert_eq!(r.type_id, vec![0, 2]);
    assert_eq!(r.value_offset, vec![0, 0]);
    assert_eq!(r.string_values, vec!["Vendor".to_string()]);
    assert_eq!(r.int64_values, vec![110]);
    assert!(r.bool_values.is_empty());
    assert!(r.int32_values.is_empty());
}

#[test]
fn union_round_trip_returns_exact_pairs() {
    let entries = vec![
        (10u32, InfoValue::StringValue("a".to_string())),
        (11, InfoValue::Int64Value(-7)),
        (12, InfoValue::StringValue("b".to_string())),
        (13, InfoValue::Int64Value(42)),
    ];
    let mut b = GetInfoBuilder::new();
    b.set_string(10, "a".to_string());
    b.set_number(11, -7);
    b.set_string(12, "b".to_string());
    b.set_number(13, 42);
    let r = b.finish();
    assert_eq!(r.info_name.len(), 4);
    // variants pack densely in append order: the second string lands at
    // offset 1 of the string array
    assert_eq!(r.value_offset, vec![0, 0, 1, 1]);
    for (i, (code, value)) in entries.iter().enumerate() {
        let (got_code, got_value) = decode_row(&r, i);
        assert_eq!(got_code, *code);
        match (got_value, value) {
            (InfoValue::StringValue(a), InfoValue::StringValue(b)) => assert_eq!(&a, b),
            (InfoValue::Int64Value(a), InfoValue::Int64Value(b)) => assert_eq!(&a, b),
            _ => panic!("wrong variant decoded"),
        }
    }
}

#[test]
fn empty_info_input_yields_zero_row_record() {
    let b = GetInfoBuilder::new();
    let r = b.finish();
    assert!(r.info_name.is_empty());
    assert!(r.type_id.is_empty());
    assert!(r.value_offset.is_empty());
    assert!(r.string_values.is_empty());
    assert!(r.int64_values.is_empty());
}

#[test]
fn builder_collects_entries_in_order() {
    let mut b = GetInfoBuilder::new();
    b.set_string(0, "x".to_string());
    b.set_number(103, 1_001_000);
    assert_eq!(b.entries.len(), 2);
    assert_eq!(b.entries[0].info_name, 0);
    assert_eq!(b.entries[1].info_name, 103);
    match &b.entries[1].info_value {
        InfoValue::Int64Value(v) => assert_eq!(*v, 1_001_000),
        _ => panic!("wrong variant"),
    }
}

fn entry_string(e: &InfoEntry) -> &str {
    match &e.info_value {
        InfoValue::StringValue(s) => s.as_str(),
        _ => panic!("expected a string value"),
    }
}

#[test]
fn default_info_covers_all_supported_codes() {
    let entries = build_standard_info(None, "24.1", "0.1.0", "57.3.1", 1_001_000);
    let codes: Vec<u32> = entries.iter().map(|e| e.info_name).collect();
    assert_eq!(codes, vec![0, 1, 100, 101, 102, 103]);
    assert_eq!(entry_string(&entries[0]), "Clickhouse");
    assert_eq!(entry_string(&entries[1]), "24.1");
    assert_eq!(entry_string(&entries[2]), "ADBC Clickhouse Driver - Rust");
    assert_eq!(entry_string(&entries[3]), "0.1.0");
    assert_eq!(entry_string(&entries[4]), "57.3.1");
    match &entries[5].info_value {
        InfoValue::Int64Value(v) => assert_eq!(*v, 1_001_000),
        _ => panic!("expected an int64 value"),
    }
}

#[test]
fn requested_info_keeps_order_and_drops_unsupported_and_repeats() {
    let requested = vec![101u32, 0, 999, 101, 3];
    let entries = build_standard_info(Some(&requested), "v", "d", "a", 1_001_000);
    let codes: Vec<u32> = entries.iter().map(|e| e.info_name).collect();
    assert_eq!(codes, vec![101, 0]);
    assert_eq!(entry_string(&entries[0]), "d");
    assert_eq!(entry_string(&entries[1]), "Clickhouse");
}

#[test]
fn table_types_are_the_fixed_five() {
    let names = table_type_names();
    assert_eq!(
        names,
        vec![
            "BASE TABLE".to_string(),
            "LOCAL TEMPORARY".to_string(),
            "VIEW".to_string(),
            "SYSTEM VIEW".to_string(),
            "FOREIGN TABLE".to_string(),
        ]
    );
}

#[test]
fn database_options_set_and_read_back() {
    let mut db = ClickhouseDatabase::empty();
    assert!(db
        .set_option(DbOptionKey::Uri, DbOptionValue::Text("tcp://localhost:9000".to_string()))
        .is_ok());
    assert!(db
        .set_option(DbOptionKey::Username, DbOptionValue::Text("user".to_string()))
        .is_ok());
    assert_eq!(db.get_option_string(&DbOptionKey::Uri).unwrap(), "tcp://localhost:9000");
    assert_eq!(db.get_option_string(&DbOptionKey::Username).unwrap(), "user");
    // password never set: the read is rejected as not found
    let err = db.get_option_string(&DbOptionKey::Password).unwrap_err();
    assert_eq!(err.status, Status::NotFound);
}

#[test]
fn non_string_option_value_is_invalid_arguments() {
    let mut db = ClickhouseDatabase::empty();
    let err = db.set_option(DbOptionKey::Uri, DbOptionValue::Int(1)).unwrap_err();
    assert_eq!(err.status, Status::InvalidArguments);
    let err = db.set_option(DbOptionKey::Password, DbOptionValue::Double).unwrap_err();
    assert_eq!(err.status, Status::InvalidArguments);
    // nothing was stored
    assert_eq!(db.get_option_string(&DbOptionKey::Uri).unwrap_err().status, Status::NotFound);
}

#[test]
fn unknown_option_key_is_not_found() {
    let mut db = ClickhouseDatabase::empty();
    let err = db
        .set_option(
            DbOptionKey::Other("adbc.custom".to_string()),
            DbOptionValue::Text("x".to_string()),
        )
        .unwrap_err();
    assert_eq!(err.status, Status::NotFound);
    let err = db.get_option_bytes(&DbOptionKey::Uri).unwrap_err();
    assert_eq!(err.status, Status::NotFound);
    let err = db.get_option_int(&DbOptionKey::Uri).unwrap_err();
    assert_eq!(err.status, Status::NotFound);
}

#[test]
fn driver_applies_initial_options_in_order() {
    let mut driver = ClickhouseDriver::new();
    let db = driver
        .new_database_with_opts(vec![
            (DbOptionKey::Uri, DbOptionValue::Text("u1".to_string())),
            (DbOptionKey::Uri, DbOptionValue::Text("u2".to_string())),
            (DbOptionKey::Password, DbOptionValue::Text("SECRET-REDACTED".to_string())),
        ])
        .unwrap();
    assert_eq!(db.uri, Some("u2".to_string()));
    assert_eq!(db.password, Some("SECRET-REDACTED".to_string()));
    assert_eq!(db.username, None);

    let err = driver
        .new_database_with_opts(vec![(DbOptionKey::Uri, DbOptionValue::Int(5))])
        .unwrap_err();
    assert_eq!(err.status, Status::InvalidArguments);
}

#[test]
fn statement_state_decides_update_action_by_priority() {
    let mut st = StatementState::new();
    assert_eq!(st.update_action(), UpdateAction::Nothing);
    // a bound batch without an ingest target still does nothing
    st.has_bound_batch = true;
    assert_eq!(st.update_action(), UpdateAction::Nothing);
    st.set_ingest_target_table("t".to_string());
    assert_eq!(st.update_action(), UpdateAction::InsertBatch);
    st.has_bound_reader = true;
    st.has_bound_batch = false;
    assert_eq!(st.update_action(), UpdateAction::InsertStream);
    // a SQL text takes priority over everything
    st.set_sql_query("SELECT 1".to_string());
    assert_eq!(st.update_action(), UpdateAction::RunSql);
}

#[test]
fn querying_without_sql_is_invalid_state() {
    let mut st = StatementState::new();
    let err = st.query_to_execute().unwrap_err();
    assert_eq!(err.status, Status::InvalidState);
    let err = st.get_ingest_target_table().unwrap_err();
    assert_eq!(err.status, Status::NotFound);
    st.set_sql_query("SELECT 1".to_string());
    assert_eq!(st.query_to_execute().unwrap(), "SELECT 1");
}
