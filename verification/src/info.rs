//! The typed-union info encoder.
//!
//! A flat sequence of (numeric code, typed value) pairs becomes one record
//! with a code column and a type-tagged union column: a discriminant per
//! row and one densely packed backing array per variant.  Each row's value
//! offset is its index within its own variant's array, counted in append
//! order over the rows that use that variant.  Entries are never reordered.

use vstd::prelude::*;

verus! {

/// A typed info value: exactly one variant per entry.
pub enum InfoValue {
    StringValue(String),
    BoolValue(bool),
    Int64Value(i64),
    Int32Bitmask(i32),
    StringList(Vec<String>),
    Int32ToInt32ListMap(Vec<(i32, Vec<i32>)>),
}

/// One info pair: a numeric code and its typed value.
pub struct InfoEntry {
    pub info_name: u32,
    pub info_value: InfoValue,
}

/// The union discriminant of a value, in the fixed external order of the
/// variants.
pub open spec fn tag_of(v: InfoValue) -> u8 {
    match v {
        InfoValue::StringValue(_) => 0,
        InfoValue::BoolValue(_) => 1,
        InfoValue::Int64Value(_) => 2,
        InfoValue::Int32Bitmask(_) => 3,
        InfoValue::StringList(_) => 4,
        InfoValue::Int32ToInt32ListMap(_) => 5,
    }
}

/// The info result as one columnar record: the code column, the union
/// discriminant and per-row value offset, and one densely packed backing
/// array per variant.
pub struct InfoRecord {
    pub info_name: Vec<u32>,
    pub type_id: Vec<u8>,
    pub value_offset: Vec<usize>,
    pub string_values: Vec<String>,
    pub bool_values: Vec<bool>,
    pub int64_values: Vec<i64>,
    pub int32_values: Vec<i32>,
    pub string_list_values: Vec<Vec<String>>,
    pub int32_map_values: Vec<Vec<(i32, Vec<i32>)>>,
}

/// How many of the first `upto` discriminants equal `t`.
pub open spec fn count_tag(tags: Seq<u8>, upto: int, t: u8) -> int
    decreases upto,
{
    if upto <= 0 {
        0
    } else {
        count_tag(tags, upto - 1, t) + if tags[upto - 1] == t {
            1int
        } else {
            0int
        }
    }
}

pub proof fn lemma_count_tag_push(tags: Seq<u8>, upto: int, t: u8, x: u8)
    requires
        0 <= upto <= tags.len(),
    ensures
        count_tag(tags.push(x), upto, t) == count_tag(tags, upto, t),
    decreases upto,
{
    if upto > 0 {
        lemma_count_tag_push(tags, upto - 1, t, x);
    }
}

pub proof fn lemma_count_tag_mono(tags: Seq<u8>, a: int, b: int, t: u8)
    requires
        0 <= a <= b,
    ensures
        count_tag(tags, a, t) <= count_tag(tags, b, t),
    decreases b - a,
{
    if a < b {
        lemma_count_tag_mono(tags, a, b - 1, t);
    }
}

/// The length of the backing array a row's value lives in.
pub open spec fn variant_len(r: InfoRecord, t: u8) -> int {
    if t == 0 {
        r.string_values@.len() as int
    } else if t == 1 {
        r.bool_values@.len() as int
    } else if t == 2 {
        r.int64_values@.len() as int
    } else if t == 3 {
        r.int32_values@.len() as int
    } else if t == 4 {
        r.string_list_values@.len() as int
    } else {
        r.int32_map_values@.len() as int
    }
}

/// Union well-formedness: every row's discriminant is one of the six
/// variants, its value offset is the count of earlier rows of the same
/// variant (dense packing in append order), and each backing array holds
/// exactly the rows of its variant.
pub open spec fn info_record_wf(r: InfoRecord) -> bool {
    let n = r.info_name@.len() as int;
    &&& r.type_id@.len() == n
    &&& r.value_offset@.len() == n
    &&& forall|i: int|
        0 <= i < n ==> #[trigger] r.type_id@[i] <= 5 && r.value_offset@[i] == count_tag(
            r.type_id@,
            i,
            r.type_id@[i],
        )
    &&& variant_len(r, 0) == count_tag(r.type_id@, n, 0)
    &&& variant_len(r, 1) == count_tag(r.type_id@, n, 1)
    &&& variant_len(r, 2) == count_tag(r.type_id@, n, 2)
    &&& variant_len(r, 3) == count_tag(r.type_id@, n, 3)
    &&& variant_len(r, 4) == count_tag(r.type_id@, n, 4)
    &&& variant_len(r, 5) == count_tag(r.type_id@, n, 5)
    &&& forall|i: int| 0 <= i < n ==> #[trigger] r.value_offset@[i] < variant_len(r, r.type_id@[i])
}

/// The entry row `i` decodes to: the code and the value read back from the
/// row's variant array at the row's value offset.
pub open spec fn decode_info_entry(r: InfoRecord, i: int) -> InfoEntry {
    let t = r.type_id@[i];
    let o = r.value_offset@[i] as int;
    InfoEntry {
        info_name: r.info_name@[i],
        info_value: if t == 0 {
            InfoValue::StringValue(r.string_values@[o])
        } else if t == 1 {
            InfoValue::BoolValue(r.bool_values@[o])
        } else if t == 2 {
            InfoValue::Int64Value(r.int64_values@[o])
        } else if t == 3 {
            InfoValue::Int32Bitmask(r.int32_values@[o])
        } else if t == 4 {
            InfoValue::StringList(r.string_list_values@[o])
        } else {
            InfoValue::Int32ToInt32ListMap(r.int32_map_values@[o])
        },
    }
}

/// The entries a record denotes, in row order.
pub open spec fn decode_info(r: InfoRecord) -> Seq<InfoEntry> {
    Seq::new(r.info_name@.len(), |i: int| decode_info_entry(r, i))
}

/// Collects info pairs and encodes them as one typed-union record.
pub struct GetInfoBuilder {
    pub entries: Vec<InfoEntry>,
}

impl GetInfoBuilder {
    /// An empty builder.
    pub fn new() -> (b: GetInfoBuilder)
        ensures
            b.entries@ =~= Seq::<InfoEntry>::empty(),
    {
        GetInfoBuilder { entries: Vec::new() }
    }

    /// Appends a string-valued pair.
    pub fn set_string(&mut self, code: u32, value: String)
        ensures
            final(self).entries@ == old(self).entries@.push(
                InfoEntry { info_name: code, info_value: InfoValue::StringValue(value) },
            ),
    {
        self.entries.push(InfoEntry { info_name: code, info_value: InfoValue::StringValue(value) });
    }

    /// Appends an int64-valued pair.
    pub fn set_number(&mut self, code: u32, number: i64)
        ensures
            final(self).entries@ == old(self).entries@.push(
                InfoEntry { info_name: code, info_value: InfoValue::Int64Value(number) },
            ),
    {
        self.entries.push(
            InfoEntry { info_name: code, info_value: InfoValue::Int64Value(number) },
        );
    }

    /// Encodes the collected entries into the union record.  The record is
    /// well-formed, and decoding each row through the union yields back
    /// exactly the pairs that were set, in order: encoding never reorders
    /// or drops an entry, and an empty input gives a zero-row record.
    pub fn finish(self) -> (r: InfoRecord)
        ensures
            info_record_wf(r),
            decode_info(r) == self.entries@,
            r.info_name@.len() == self.entries@.len(),
    {
        let ghost orig = self.entries@;
        let mut rest = self.entries;
        let mut info_name: Vec<u32> = Vec::new();
        let mut type_id: Vec<u8> = Vec::new();
        let mut value_offset: Vec<usize> = Vec::new();
        let mut string_values: Vec<String> = Vec::new();
        let mut bool_values: Vec<bool> = Vec::new();
        let mut int64_values: Vec<i64> = Vec::new();
        let mut int32_values: Vec<i32> = Vec::new();
        let mut string_list_values: Vec<Vec<String>> = Vec::new();
        let mut int32_map_values: Vec<Vec<(i32, Vec<i32>)>> = Vec::new();
        let n = rest.len();
        let mut i: usize = 0;
        while i < n
            invariant
                i <= n,
                n == orig.len(),
                rest@ =~= orig.subrange(i as int, n as int),
                info_name@.len() == i,
                type_id@.len() == i,
                value_offset@.len() == i,
                string_values@.len() == count_tag(type_id@, i as int, 0),
                bool_values@.len() == count_tag(type_id@, i as int, 1),
                int64_values@.len() == count_tag(type_id@, i as int, 2),
                int32_values@.len() == count_tag(type_id@, i as int, 3),
                string_list_values@.len() == count_tag(type_id@, i as int, 4),
                int32_map_values@.len() == count_tag(type_id@, i as int, 5),
                forall|j: int|
                    0 <= j < i ==> #[trigger] type_id@[j] <= 5 && value_offset@[j] == count_tag(
                        type_id@,
                        j,
                        type_id@[j],
                    ),
                forall|j: int|
                    0 <= j < i ==> #[trigger] decode_info_entry(
                        (InfoRecord {
                            info_name,
                            type_id,
                            value_offset,
                            string_values,
                            bool_values,
                            int64_values,
                            int32_values,
                            string_list_values,
                            int32_map_values,
                        }),
                        j,
                    ) == orig[j],
            decreases n - i,
        {
            let e = rest.remove(0);
            proof {
                assert(orig.subrange(i as int, n as int)[0] == orig[i as int]);
                assert(rest@ =~= orig.subrange(i + 1, n as int));
            }
            let ghost tags_before = type_id@;
            let ghost rec_before = (InfoRecord {
                info_name,
                type_id,
                value_offset,
                string_values,
                bool_values,
                int64_values,
                int32_values,
                string_list_values,
                int32_map_values,
            });
            info_name.push(e.info_name);
            match e.info_value {
                InfoValue::StringValue(v) => {
                    type_id.push(0);
                    value_offset.push(string_values.len());
                    string_values.push(v);
                },
                InfoValue::BoolValue(v) => {
                    type_id.push(1);
                    value_offset.push(bool_values.len());
                    bool_values.push(v);
                },
                InfoValue::Int64Value(v) => {
                    type_id.push(2);
                    value_offset.push(int64_values.len());
                    int64_values.push(v);
                },
                InfoValue::Int32Bitmask(v) => {
                    type_id.push(3);
                    value_offset.push(int32_values.len());
                    int32_values.push(v);
                },
                InfoValue::StringList(v) => {
                    type_id.push(4);
                    value_offset.push(string_list_values.len());
                    string_list_values.push(v);
                },
                InfoValue::Int32ToInt32ListMap(v) => {
                    type_id.push(5);
                    value_offset.push(int32_map_values.len());
                    int32_map_values.push(v);
                },
            }
            proof {
                let rec = (InfoRecord {
                    info_name,
                    type_id,
                    value_offset,
                    string_values,
                    bool_values,
                    int64_values,
                    int32_values,
                    string_list_values,
                    int32_map_values,
                });
                let t = tag_of(orig[i as int].info_value);
                assert(type_id@ =~= tags_before.push(t));
                assert forall|u: u8| u <= 5 implies count_tag(type_id@, i as int, u) == count_tag(
                    tags_before,
                    i as int,
                    u,
                ) by {
                    lemma_count_tag_push(tags_before, i as int, u, t);
                }
                assert forall|j: int| 0 <= j < i implies #[trigger] value_offset@[j] == count_tag(
                    type_id@,
                    j,
                    type_id@[j],
                ) by {
                    lemma_count_tag_push(tags_before, j, type_id@[j], t);
                }
                assert(value_offset@[i as int] == count_tag(type_id@, i as int, t));
                assert forall|j: int| 0 <= j < i implies #[trigger] decode_info_entry(rec, j)
                    == orig[j] by {
                    assert(decode_info_entry(rec_before, j) == orig[j]);
                    let tj = tags_before[j];
                    assert(count_tag(tags_before, j + 1, tj) == count_tag(tags_before, j, tj) + 1);
                    lemma_count_tag_push(tags_before, j + 1, tj, t);
                    lemma_count_tag_mono(tags_before, j + 1, i as int, tj);
                    assert(rec_before.value_offset@[j] < variant_len(rec_before, tj));
                }
                assert(decode_info_entry(rec, i as int) == orig[i as int]);
            }
            i += 1;
        }
        let r = InfoRecord {
            info_name,
            type_id,
            value_offset,
            string_values,
            bool_values,
            int64_values,
            int32_values,
            string_list_values,
            int32_map_values,
        };
        proof {
            assert forall|j: int| 0 <= j < n implies #[trigger] r.value_offset@[j] < variant_len(
                r,
                r.type_id@[j],
            ) by {
                let tj = r.type_id@[j];
                assert(count_tag(r.type_id@, j + 1, tj) == count_tag(r.type_id@, j, tj) + 1);
                lemma_count_tag_mono(r.type_id@, j + 1, n as int, tj);
            }
            assert(info_record_wf(r));
            assert(decode_info(r) =~= orig);
        }
        r
    }
}

// ---------------------------------------------------------------------------
// The standard driver info pairs
// ---------------------------------------------------------------------------

/// The info codes this driver can answer: vendor name (0), vendor version
/// (1), driver name (100), driver version (101), driver arrow version (102)
/// and driver ADBC version (103), as the external contract numbers them.
pub open spec fn supported_info_code(c: u32) -> bool {
    c == 0 || c == 1 || c == 100 || c == 101 || c == 102 || c == 103
}

/// The supported codes of a requested sequence, first occurrences kept, in
/// request order.
pub open spec fn selected_codes(req: Seq<u32>) -> Seq<u32>
    decreases req.len(),
{
    if req.len() == 0 {
        Seq::empty()
    } else {
        let prev = selected_codes(req.drop_last());
        if supported_info_code(req.last()) && !prev.contains(req.last()) {
            prev.push(req.last())
        } else {
            prev
        }
    }
}

pub proof fn lemma_selected_codes_push(req: Seq<u32>, x: u32)
    ensures
        selected_codes(req.push(x)) == if supported_info_code(x) && !selected_codes(req).contains(
            x,
        ) {
            selected_codes(req).push(x)
        } else {
            selected_codes(req)
        },
{
    assert(req.push(x).drop_last() =~= req);
    assert(req.push(x).last() == x);
}

/// All supported codes, in ascending order: the set answered when the
/// caller requests none in particular.
pub open spec fn default_info_codes() -> Seq<u32> {
    seq![0u32, 1u32, 100u32, 101u32, 102u32, 103u32]
}

/// The codes a request selects: the supported ones of an explicit request
/// in request order without repetition, or all supported ones.
pub open spec fn requested_codes(req: Option<Seq<u32>>) -> Seq<u32> {
    match req {
        Some(rs) => selected_codes(rs),
        None => default_info_codes(),
    }
}

/// The value owed for a supported code: the vendor name is "Clickhouse",
/// the driver name is "ADBC Clickhouse Driver - Rust", versions and the
/// numeric ADBC version come from the caller.
pub open spec fn standard_entry_ok(
    e: InfoEntry,
    code: u32,
    vendor_version: Seq<char>,
    driver_version: Seq<char>,
    arrow_version: Seq<char>,
    adbc_version: i64,
) -> bool {
    &&& e.info_name == code
    &&& if code == 0 {
        e.info_value matches InfoValue::StringValue(s) && s@ == "Clickhouse"@
    } else if code == 1 {
        e.info_value matches InfoValue::StringValue(s) && s@ == vendor_version
    } else if code == 100 {
        e.info_value matches InfoValue::StringValue(s) && s@ == "ADBC Clickhouse Driver - Rust"@
    } else if code == 101 {
        e.info_value matches InfoValue::StringValue(s) && s@ == driver_version
    } else if code == 102 {
        e.info_value matches InfoValue::StringValue(s) && s@ == arrow_version
    } else if code == 103 {
        e.info_value matches InfoValue::Int64Value(v) && v == adbc_version
    } else {
        false
    }
}

/// The entry owed for one supported code.
fn standard_entry(
    code: u32,
    vendor_version: &str,
    driver_version: &str,
    arrow_version: &str,
    adbc_version: i64,
) -> (e: InfoEntry)
    requires
        supported_info_code(code),
    ensures
        standard_entry_ok(e, code, vendor_version@, driver_version@, arrow_version@, adbc_version),
{
    if code == 0 {
        InfoEntry { info_name: code, info_value: InfoValue::StringValue("Clickhouse".to_owned()) }
    } else if code == 1 {
        InfoEntry { info_name: code, info_value: InfoValue::StringValue(vendor_version.to_owned()) }
    } else if code == 100 {
        InfoEntry {
            info_name: code,
            info_value: InfoValue::StringValue("ADBC Clickhouse Driver - Rust".to_owned()),
        }
    } else if code == 101 {
        InfoEntry { info_name: code, info_value: InfoValue::StringValue(driver_version.to_owned()) }
    } else if code == 102 {
        InfoEntry { info_name: code, info_value: InfoValue::StringValue(arrow_version.to_owned()) }
    } else {
        InfoEntry { info_name: code, info_value: InfoValue::Int64Value(adbc_version) }
    }
}

/// Does `codes` hold `x`?
fn vec_contains_u32(codes: &Vec<u32>, x: u32) -> (b: bool)
    ensures
        b == codes@.contains(x),
{
    let mut i: usize = 0;
    while i < codes.len()
        invariant
            i <= codes@.len(),
            forall|j: int| 0 <= j < i ==> codes@[j] != x,
        decreases codes@.len() - i,
    {
        if codes[i] == x {
            return true;
        }
        i += 1;
    }
    false
}

/// The standard info pairs of this driver, in the order the codes were
/// requested (or ascending code order when none were), one entry per
/// selected code, unsupported and repeated codes dropped.
pub fn build_standard_info(
    requested: Option<&Vec<u32>>,
    vendor_version: &str,
    driver_version: &str,
    arrow_version: &str,
    adbc_version: i64,
) -> (entries: Vec<InfoEntry>)
    ensures
        ({
            let codes = requested_codes(
                match requested {
                    Some(v) => Some(v@),
                    None => None,
                },
            );
            &&& entries@.len() == codes.len()
            &&& forall|i: int|
                0 <= i < codes.len() ==> #[trigger] standard_entry_ok(
                    entries@[i],
                    codes[i],
                    vendor_version@,
                    driver_version@,
                    arrow_version@,
                    adbc_version,
                )
        }),
{
    let mut codes: Vec<u32> = Vec::new();
    match requested {
        None => {
            codes.push(0);
            codes.push(1);
            codes.push(100);
            codes.push(101);
            codes.push(102);
            codes.push(103);
            proof {
                assert(codes@ =~= default_info_codes());
                assert(forall|j: int|
                    0 <= j < codes@.len() ==> supported_info_code(#[trigger] codes@[j]));
            }
        },
        Some(req) => {
            let mut i: usize = 0;
            while i < req.len()
                invariant
                    i <= req@.len(),
                    codes@ == selected_codes(req@.subrange(0, i as int)),
                decreases req@.len() - i,
            {
                let c = req[i];
                if c == 0 || c == 1 || c == 100 || c == 101 || c == 102 || c == 103 {
                    let hit = vec_contains_u32(&codes, c);
                    if !hit {
                        codes.push(c);
                    }
                }
                proof {
                    let prefix = req@.subrange(0, i as int);
                    assert(req@.subrange(0, i + 1) =~= prefix.push(req@[i as int]));
                    lemma_selected_codes_push(prefix, req@[i as int]);
                }
                i += 1;
            }
            proof {
                assert(req@.subrange(0, req@.len() as int) =~= req@);
                assert forall|j: int| 0 <= j < codes@.len() implies supported_info_code(
                    #[trigger] codes@[j],
                ) by {
                    lemma_selected_codes_supported(req@, j);
                }
            }
        },
    }
    let mut entries: Vec<InfoEntry> = Vec::new();
    let mut i: usize = 0;
    while i < codes.len()
        invariant
            i <= codes@.len(),
            entries@.len() == i,
            forall|j: int| 0 <= j < codes@.len() ==> supported_info_code(#[trigger] codes@[j]),
            forall|j: int|
                0 <= j < i ==> #[trigger] standard_entry_ok(
                    entries@[j],
                    codes@[j],
                    vendor_version@,
                    driver_version@,
                    arrow_version@,
                    adbc_version,
                ),
        decreases codes@.len() - i,
    {
        let e = standard_entry(codes[i], vendor_version, driver_version, arrow_version,
            adbc_version);
        entries.push(e);
        i += 1;
    }
    entries
}

/// Every code `selected_codes` keeps satisfies the support test.
proof fn lemma_selected_codes_supported(req: Seq<u32>, j: int)
    requires
        0 <= j < selected_codes(req).len(),
    ensures
        supported_info_code(selected_codes(req)[j]),
    decreases req.len(),
{
    if req.len() > 0 {
        let prev = selected_codes(req.drop_last());
        if supported_info_code(req.last()) && !prev.contains(req.last()) {
            if j < prev.len() {
                lemma_selected_codes_supported(req.drop_last(), j);
            }
        } else {
            lemma_selected_codes_supported(req.drop_last(), j);
        }
    }
}

impl Default for GetInfoBuilder {
    /// An empty builder.
    fn default() -> (b: GetInfoBuilder)
        ensures
            b.entries@ =~= Seq::<InfoEntry>::empty(),
    {
        GetInfoBuilder::new()
    }
}

} // verus!
