//! The query desk: what is asked of the database, what is kept of its answers,
//! and how rows of cells become JSON.
use vstd::prelude::*;

use crate::json;
use crate::json::Json;
use crate::json::JsonFloat;
use crate::json::JsonView;
use crate::sql;
use crate::text;

pub use crate::insights::InsightCard;
pub use crate::insights::InsightsResponse;
pub use crate::schema::ColumnInfo;
pub use crate::schema::EnrichedColumn;
pub use crate::schema::EnrichedSchema;
pub use crate::schema::EnrichedTable;
pub use crate::schema::SearchResult;
pub use crate::schema::TableSchemaInfo;

verus! {

// ---------------------------------------------------------------------------
// Query history
// ---------------------------------------------------------------------------

/// One query that was asked, and how it went.
#[derive(Debug)]
pub struct DbHistoryEntry {
    pub timestamp: u64,
    pub sql: String,
    pub row_count: usize,
    pub elapsed_ms: u64,
    pub success: bool,
    pub error_category: Option<String>,
    pub cache_hit: bool,
    pub model: Option<String>,
    pub session_id: Option<String>,
    pub tool_name: Option<String>,
}

/// What a history entry holds.
pub struct HistoryView {
    pub timestamp: u64,
    pub sql: Seq<char>,
    pub row_count: usize,
    pub elapsed_ms: u64,
    pub success: bool,
    pub error_category: Option<Seq<char>>,
    pub cache_hit: bool,
    pub model: Option<Seq<char>>,
    pub session_id: Option<Seq<char>>,
    pub tool_name: Option<Seq<char>>,
}

impl View for DbHistoryEntry {
    type V = HistoryView;

    open spec fn view(&self) -> HistoryView {
        HistoryView {
            timestamp: self.timestamp,
            sql: self.sql@,
            row_count: self.row_count,
            elapsed_ms: self.elapsed_ms,
            success: self.success,
            error_category: json::opt_text(self.error_category),
            cache_hit: self.cache_hit,
            model: json::opt_text(self.model),
            session_id: json::opt_text(self.session_id),
            tool_name: json::opt_text(self.tool_name),
        }
    }
}

impl Clone for DbHistoryEntry {
    fn clone(&self) -> (r: DbHistoryEntry)
        ensures
            r@ == self@,
    {
        DbHistoryEntry {
            timestamp: self.timestamp,
            sql: self.sql.clone(),
            row_count: self.row_count,
            elapsed_ms: self.elapsed_ms,
            success: self.success,
            error_category: text::copy_option(&self.error_category),
            cache_hit: self.cache_hit,
            model: text::copy_option(&self.model),
            session_id: text::copy_option(&self.session_id),
            tool_name: text::copy_option(&self.tool_name),
        }
    }
}

/// The most entries that the history keeps.
pub const HISTORY_KEPT: usize = 200;

/// The most entries that a listing of the history shows.
pub const HISTORY_LISTED: usize = 50;

/// The entry of a query that no model, session or tool is known for.
pub open spec fn entry(
    now: u64,
    query: Seq<char>,
    row_count: usize,
    elapsed_ms: u64,
    success: bool,
    category: Option<Seq<char>>,
    cache_hit: bool,
) -> HistoryView {
    HistoryView {
        timestamp: now,
        sql: query,
        row_count,
        elapsed_ms,
        success,
        error_category: category,
        cache_hit,
        model: None,
        session_id: None,
        tool_name: None,
    }
}

/// The history with one more entry: the oldest goes when it grows too long.
pub open spec fn recorded(h: Seq<HistoryView>, e: HistoryView) -> Seq<HistoryView> {
    if h.len() + 1 > HISTORY_KEPT {
        h.push(e).skip(1)
    } else {
        h.push(e)
    }
}

/// The newest entries of a history, the newest first.
pub open spec fn listed(h: Seq<HistoryView>) -> Seq<HistoryView> {
    Seq::new(
        if h.len() < HISTORY_LISTED {
            h.len()
        } else {
            HISTORY_LISTED as nat
        },
        |i: int| h[h.len() - 1 - i],
    )
}

/// The history after all of `es`, one by one.
pub open spec fn recorded_all(es: Seq<HistoryView>) -> Seq<HistoryView>
    decreases es.len(),
{
    if es.len() == 0 {
        Seq::empty()
    } else {
        recorded(recorded_all(es.drop_last()), es.last())
    }
}

/// However many queries were asked, the history holds the newest of them, in
/// the order in which they were asked, up to its limit.
pub proof fn law_history_keeps_the_newest(es: Seq<HistoryView>)
    ensures
        es.len() <= HISTORY_KEPT ==> recorded_all(es) == es,
        es.len() > HISTORY_KEPT ==> recorded_all(es) == es.skip(es.len() - HISTORY_KEPT),
    decreases es.len(),
{
    if es.len() == 0 {
        assert(recorded_all(es) == es);
    } else {
        let front = es.drop_last();
        law_history_keeps_the_newest(front);
        assert(front.push(es.last()) == es);
        if front.len() >= HISTORY_KEPT {
            if front.len() == HISTORY_KEPT {
                assert(front.skip(0) == front);
            }
            let kept = front.skip(front.len() - HISTORY_KEPT);
            assert(kept.push(es.last()).skip(1) == es.skip(es.len() - HISTORY_KEPT));
        }
    }
}

// ---------------------------------------------------------------------------
// What users thought of an answer
// ---------------------------------------------------------------------------

/// What a user thought of an answer.
#[derive(Debug)]
pub struct FeedbackEntry {
    pub id: usize,
    pub session_id: String,
    pub question: String,
    pub sql: String,
    pub rating: String,
    pub comment: String,
}

/// What a feedback entry holds.
pub struct FeedbackView {
    pub id: usize,
    pub session_id: Seq<char>,
    pub question: Seq<char>,
    pub sql: Seq<char>,
    pub rating: Seq<char>,
    pub comment: Seq<char>,
}

impl View for FeedbackEntry {
    type V = FeedbackView;

    open spec fn view(&self) -> FeedbackView {
        FeedbackView {
            id: self.id,
            session_id: self.session_id@,
            question: self.question@,
            sql: self.sql@,
            rating: self.rating@,
            comment: self.comment@,
        }
    }
}

impl Clone for FeedbackEntry {
    fn clone(&self) -> (r: FeedbackEntry)
        ensures
            r@ == self@,
    {
        FeedbackEntry {
            id: self.id,
            session_id: self.session_id.clone(),
            question: self.question.clone(),
            sql: self.sql.clone(),
            rating: self.rating.clone(),
            comment: self.comment.clone(),
        }
    }
}

// ---------------------------------------------------------------------------
// Cells and rows
// ---------------------------------------------------------------------------

/// One value that the engine handed out.
#[derive(Debug)]
pub enum Cell {
    Null,
    Boolean(bool),
    TinyInt(i8),
    SmallInt(i16),
    Int(i32),
    BigInt(i64),
    HugeInt(i128),
    /// A float of either width; none where it is no finite number.
    Real(Option<JsonFloat>),
    /// Text, by its bytes.
    Text(Vec<u8>),
    /// A blob, by its length.
    Blob(usize),
    Timestamp(i64),
    Date32(i32),
    Time64(i64),
    /// A decimal, by its text.
    Decimal(String),
    Other,
}

/// The JSON value of a float.
pub open spec fn real_value(f: Option<JsonFloat>) -> JsonView {
    match f {
        Some(x) => JsonView::Float { text: x.text@, plain: x.plain@ },
        None => JsonView::Null,
    }
}

/// The JSON value of a cell in a query's result.
pub open spec fn cell_value(c: Cell) -> JsonView {
    match c {
        Cell::Null => JsonView::Null,
        Cell::Boolean(b) => JsonView::Bool(b),
        Cell::TinyInt(v) => JsonView::Int(v as i64),
        Cell::SmallInt(v) => JsonView::Int(v as i64),
        Cell::Int(v) => JsonView::Int(v as i64),
        Cell::BigInt(v) => JsonView::Int(v),
        Cell::HugeInt(v) => JsonView::Str(text::dec_int(v as int)),
        Cell::Real(f) => real_value(f),
        Cell::Text(b) => JsonView::Str(text::lossy_text(b@)),
        Cell::Blob(n) => JsonView::Str("<blob len="@ + text::dec(n as nat) + ">"@),
        Cell::Timestamp(t) => JsonView::Str(text::dec_int(t as int)),
        Cell::Date32(d) => JsonView::Str(text::dec_int(d as int)),
        Cell::Time64(t) => JsonView::Str(text::dec_int(t as int)),
        Cell::Decimal(s) => JsonView::Str(s@),
        Cell::Other => JsonView::Str("<unsupported type>"@),
    }
}

/// The JSON value of a cell in a table's sample rows.
pub open spec fn sample_value(c: Cell) -> JsonView {
    match c {
        Cell::Null => JsonView::Null,
        Cell::Boolean(b) => JsonView::Bool(b),
        Cell::Int(v) => JsonView::Int(v as i64),
        Cell::BigInt(v) => JsonView::Int(v),
        Cell::Real(f) => real_value(f),
        Cell::Text(b) => JsonView::Str(text::lossy_text(b@)),
        _ => JsonView::Str("<val>"@),
    }
}

fn real_json(f: Option<JsonFloat>) -> (r: Json)
    ensures
        r@ == real_value(f),
{
    match f {
        Some(x) => Json::Float(x),
        None => Json::Null,
    }
}

/// The JSON value of a cell in a query's result.
pub fn cell_json(c: Cell) -> (r: Json)
    ensures
        r@ == cell_value(c),
        c matches Cell::TinyInt(v) ==> (r matches Json::Int(n) && n as int == v as int),
        c matches Cell::SmallInt(v) ==> (r matches Json::Int(n) && n as int == v as int),
        c matches Cell::Int(v) ==> (r matches Json::Int(n) && n as int == v as int),
        c matches Cell::BigInt(v) ==> (r matches Json::Int(n) && n as int == v as int),
{
    match c {
        Cell::Null => Json::Null,
        Cell::Boolean(b) => Json::Bool(b),
        Cell::TinyInt(v) => Json::Int(v as i64),
        Cell::SmallInt(v) => Json::Int(v as i64),
        Cell::Int(v) => Json::Int(v as i64),
        Cell::BigInt(v) => Json::Int(v),
        Cell::HugeInt(v) => Json::Str(text::int_text(v)),
        Cell::Real(f) => real_json(f),
        Cell::Text(b) => Json::Str(text::from_bytes_lossy(&b)),
        Cell::Blob(n) => {
            let mut s = "<blob len=".to_owned();
            s.append(text::nat_text(n as u128).as_str());
            s.append(">");
            Json::Str(s)
        },
        Cell::Timestamp(t) => Json::Str(text::int_text(t as i128)),
        Cell::Date32(d) => Json::Str(text::int_text(d as i128)),
        Cell::Time64(t) => Json::Str(text::int_text(t as i128)),
        Cell::Decimal(s) => Json::Str(s),
        Cell::Other => Json::Str("<unsupported type>".to_owned()),
    }
}

/// The JSON value of a cell in a table's sample rows.
pub fn sample_json(c: Cell) -> (r: Json)
    ensures
        r@ == sample_value(c),
{
    match c {
        Cell::Null => Json::Null,
        Cell::Boolean(b) => Json::Bool(b),
        Cell::Int(v) => Json::Int(v as i64),
        Cell::BigInt(v) => Json::Int(v),
        Cell::Real(f) => real_json(f),
        Cell::Text(b) => Json::Str(text::from_bytes_lossy(&b)),
        _ => Json::Str("<val>".to_owned()),
    }
}

/// The JSON values of a row of a query's result.
pub open spec fn row_values(cells: Seq<Cell>) -> Seq<JsonView> {
    Seq::new(cells.len(), |i: int| cell_value(cells[i]))
}

/// The JSON values of a sample row.
pub open spec fn sample_values(cells: Seq<Cell>) -> Seq<JsonView> {
    Seq::new(cells.len(), |i: int| sample_value(cells[i]))
}

/// The pairs of a row: the first `n` columns, each with its value or null, with
/// the keys in order; a later column takes the place of an earlier one of the
/// same name.
pub open spec fn row_pairs(
    names: Seq<Seq<char>>,
    values: Seq<JsonView>,
    n: nat,
) -> Seq<(Seq<char>, JsonView)>
    decreases n,
{
    if n == 0 {
        Seq::empty()
    } else {
        json::put(
            row_pairs(names, values, (n - 1) as nat),
            names[n - 1],
            if n - 1 < values.len() {
                values[n - 1]
            } else {
                JsonView::Null
            },
        )
    }
}

/// The object of a row.
pub open spec fn row_object(names: Seq<Seq<char>>, values: Seq<JsonView>) -> JsonView {
    JsonView::Object(row_pairs(names, values, names.len()))
}

/// The rows as objects.
pub open spec fn row_objects(names: Seq<Seq<char>>, rows: Seq<Seq<JsonView>>) -> Seq<JsonView> {
    Seq::new(rows.len(), |i: int| row_object(names, rows[i]))
}

/// The row that says that a result was cut.
pub open spec fn notice(max_rows: nat) -> JsonView {
    JsonView::Object(
        seq![
            (
                "_notice"@,
                JsonView::Str(
                    "Result capped at "@ + text::dec(max_rows)
                        + " rows. Add explicit LIMIT or aggregate for complete data."@,
                ),
            ),
        ],
    )
}

/// A query's result: its rows as objects, and a notice where it was cut.
pub open spec fn result_rows(
    names: Seq<Seq<char>>,
    rows: Seq<Seq<JsonView>>,
    capped: bool,
    max_rows: nat,
) -> Seq<JsonView> {
    if capped {
        row_objects(names, rows).push(notice(max_rows))
    } else {
        row_objects(names, rows)
    }
}

/// What the rows of a batch hold.
pub open spec fn batch_rows(rows: Seq<Vec<Json>>) -> Seq<Seq<JsonView>> {
    Seq::new(rows.len(), |i: int| text::views(rows[i]@))
}

/// The object of a row.
fn assemble_row(names: &Vec<String>, values: &Vec<Json>) -> (r: Json)
    ensures
        r@ == row_object(text::views(names@), text::views(values@)),
{
    broadcast use json::group_json_views;

    let ghost ns = text::views(names@);
    let ghost vs = text::views(values@);
    let mut pairs: Vec<(String, Json)> = Vec::new();
    let mut i: usize = 0;
    proof {
        assert(json::pair_views(pairs@) == Seq::<(Seq<char>, JsonView)>::empty());
    }
    while i < names.len()
        invariant
            ns == text::views(names@),
            vs == text::views(values@),
            i <= names@.len(),
            json::pair_views(pairs@) == row_pairs(ns, vs, i as nat),
        decreases names@.len() - i,
    {
        let value = if i < values.len() {
            values[i].copy()
        } else {
            Json::Null
        };
        proof {
            assert(ns[i as int] == names@[i as int]@);
        }
        json::put_pair(&mut pairs, names[i].clone(), value);
        i = i + 1;
    }
    Json::Object(pairs)
}

/// The rows as objects.
pub fn assemble_rows(names: &Vec<String>, rows: &Vec<Vec<Json>>) -> (r: Vec<Json>)
    ensures
        text::views(r@) == row_objects(text::views(names@), batch_rows(rows@)),
{
    let ghost ns = text::views(names@);
    let mut out: Vec<Json> = Vec::new();
    let mut i: usize = 0;
    while i < rows.len()
        invariant
            ns == text::views(names@),
            i <= rows@.len(),
            text::views(out@) == row_objects(ns, batch_rows(rows@)).take(i as int),
        decreases rows@.len() - i,
    {
        let row = assemble_row(names, &rows[i]);
        let ghost before = out@;
        out.push(row);
        proof {
            assert(text::views(out@) == text::views(before).push(row@));
            assert(row_objects(ns, batch_rows(rows@)).take(i + 1) == row_objects(
                ns,
                batch_rows(rows@),
            ).take(i as int).push(row@));
        }
        i = i + 1;
    }
    proof {
        assert(row_objects(ns, batch_rows(rows@)).take(rows@.len() as int) == row_objects(
            ns,
            batch_rows(rows@),
        ));
    }
    out
}

proof fn lemma_row_pairs(names: Seq<Seq<char>>, values: Seq<JsonView>, n: nat, i: int)
    requires
        n <= names.len(),
        0 <= i < n,
        forall|k: int| i < k < n ==> names[k] != names[i],
    ensures
        json::in_order(row_pairs(names, values, n)),
        json::member(row_pairs(names, values, n), names[i]) == Some(
            if i < values.len() {
                values[i]
            } else {
                JsonView::Null
            },
        ),
    decreases n,
{
    let front = row_pairs(names, values, (n - 1) as nat);
    let v = if n - 1 < values.len() {
        values[n - 1]
    } else {
        JsonView::Null
    };
    lemma_row_in_order(names, values, (n - 1) as nat);
    json::law_put_sets_one_key(front, names[n - 1], v, names[i]);
    if i < n - 1 {
        lemma_row_pairs(names, values, (n - 1) as nat, i);
    }
}

proof fn lemma_row_in_order(names: Seq<Seq<char>>, values: Seq<JsonView>, n: nat)
    ensures
        json::in_order(row_pairs(names, values, n)),
    decreases n,
{
    if n > 0 {
        lemma_row_in_order(names, values, (n - 1) as nat);
        json::law_put_sets_one_key(
            row_pairs(names, values, (n - 1) as nat),
            names[n - 1],
            if n - 1 < values.len() {
                values[n - 1]
            } else {
                JsonView::Null
            },
            names[n - 1],
        );
    }
}

/// A row holds under each column name the value of the last column of that
/// name, or null where the row has no such value, and its keys stand in order.
pub proof fn law_row_holds_its_columns(names: Seq<Seq<char>>, values: Seq<JsonView>, i: int)
    requires
        0 <= i < names.len(),
        forall|k: int| i < k < names.len() ==> names[k] != names[i],
    ensures
        json::in_order(row_pairs(names, values, names.len())),
        row_object(names, values).get(names[i]) == Some(
            if i < values.len() {
                values[i]
            } else {
                JsonView::Null
            },
        ),
{
    lemma_row_pairs(names, values, names.len(), i);
}

// ---------------------------------------------------------------------------
// Collecting rows under a cap
// ---------------------------------------------------------------------------

/// Rows as they come from the engine, up to a cap.
#[derive(Debug)]
pub struct RowCollector {
    pub max_rows: usize,
    pub rows: Vec<Vec<Json>>,
    pub capped: bool,
}

/// What a collector holds.
#[verifier::ext_equal]
pub struct CollectorView {
    pub max_rows: nat,
    pub rows: Seq<Seq<JsonView>>,
    pub capped: bool,
}

impl View for RowCollector {
    type V = CollectorView;

    open spec fn view(&self) -> CollectorView {
        CollectorView {
            max_rows: self.max_rows as nat,
            rows: batch_rows(self.rows@),
            capped: self.capped,
        }
    }
}

/// A collector that has seen no row.
pub open spec fn fresh_collector(max_rows: nat) -> CollectorView {
    CollectorView { max_rows, rows: Seq::empty(), capped: false }
}

/// A collector that was offered one more row: it takes the row while there is
/// room, else it notes that the result was cut.
pub open spec fn offered(c: CollectorView, values: Seq<JsonView>) -> CollectorView {
    if c.rows.len() >= c.max_rows {
        CollectorView { capped: true, ..c }
    } else {
        CollectorView { rows: c.rows.push(values), ..c }
    }
}

impl RowCollector {
    /// A collector for at most `max_rows` rows.
    pub fn new(max_rows: usize) -> (r: RowCollector)
        ensures
            r@ == fresh_collector(max_rows as nat),
    {
        let r = RowCollector { max_rows, rows: Vec::new(), capped: false };
        proof {
            assert(r@ =~= fresh_collector(max_rows as nat));
        }
        r
    }

    /// Offers the cells of one more row. The result says whether the engine
    /// need be asked for more.
    pub fn offer(&mut self, cells: Vec<Cell>) -> (more: bool)
        ensures
            final(self)@ == offered(old(self)@, row_values(cells@)),
            more == (old(self)@.rows.len() < old(self)@.max_rows),
    {
        if self.rows.len() >= self.max_rows {
            self.capped = true;
            return false;
        }
        let ghost want = row_values(cells@);
        let ghost before = self.rows@;
        let mut values: Vec<Json> = Vec::new();
        let ghost total = cells@;
        for c in it: cells
            invariant
                it.seq() == total,
                want == row_values(total),
                text::views(values@) == want.take(it.index() as int),
        {
            let ghost prior = values@;
            let j = cell_json(c);
            values.push(j);
            proof {
                assert(text::views(values@) == text::views(prior).push(j@));
                assert(want.take(it.index() as int + 1) == want.take(it.index() as int).push(j@));
            }
        }
        proof {
            assert(want.take(want.len() as int) == want);
        }
        self.rows.push(values);
        proof {
            assert(batch_rows(self.rows@) == batch_rows(before).push(want));
        }
        true
    }
}

/// A collector that was offered all of `rows`, one by one.
pub open spec fn offered_all(max_rows: nat, rows: Seq<Seq<JsonView>>) -> CollectorView
    decreases rows.len(),
{
    if rows.len() == 0 {
        fresh_collector(max_rows)
    } else {
        offered(offered_all(max_rows, rows.drop_last()), rows.last())
    }
}

/// A collector keeps the first rows up to its cap, as they came, and notes a
/// cut exactly when there were more.
pub proof fn law_cap_keeps_the_first_rows(max_rows: nat, rows: Seq<Seq<JsonView>>)
    ensures
        offered_all(max_rows, rows).max_rows == max_rows,
        offered_all(max_rows, rows).capped <==> rows.len() > max_rows,
        rows.len() <= max_rows ==> offered_all(max_rows, rows).rows == rows,
        rows.len() > max_rows ==> offered_all(max_rows, rows).rows == rows.take(max_rows as int),
    decreases rows.len(),
{
    if rows.len() > 0 {
        let front = rows.drop_last();
        law_cap_keeps_the_first_rows(max_rows, front);
        assert(front.push(rows.last()) == rows);
        if rows.len() > max_rows {
            assert(front.take(max_rows as int) == rows.take(max_rows as int));
        }
    } else {
        assert(offered_all(max_rows, rows).rows == rows);
    }
}

// ---------------------------------------------------------------------------
// The result cache
// ---------------------------------------------------------------------------

/// `moka::sync::Cache`, of whose inside only the named contents are known.
#[verifier::external_type_specification]
#[verifier::external_body]
#[verifier::reject_recursive_types(K)]
#[verifier::reject_recursive_types(V)]
#[verifier::reject_recursive_types(S)]
pub struct ExCache<K, V, S>(moka::sync::Cache<K, V, S>);

/// For each key of a result cache, the rows that were last put under it. The
/// cache itself may have dropped them since.
pub uninterp spec fn cached_rows(c: moka::sync::Cache<String, Vec<Json>>) -> Map<
    Seq<char>,
    Seq<JsonView>,
>;

/// The limits that a result cache was made with: the most entries that it keeps,
/// and for how many seconds after they were put.
pub uninterp spec fn cache_limits(c: moka::sync::Cache<String, Vec<Json>>) -> (u64, u64);

/// The contents of a new cache.
pub open spec fn nothing_kept() -> Map<Seq<char>, Seq<JsonView>> {
    Map::empty()
}

/// The longest time to live, in seconds, that a cache takes: a thousand years.
pub const LONGEST_TTL_SECS: u64 = 31_536_000_000;

/// `moka::sync::Cache::builder` with a capacity and a time to live: the cache is
/// empty and made with these limits. A time to live beyond a thousand years would
/// panic. When the cache drops an entry is not claimed.
#[verifier::external_body]
fn new_cache(capacity: u64, ttl_secs: u64) -> (r: moka::sync::Cache<String, Vec<Json>>)
    requires
        ttl_secs <= LONGEST_TTL_SECS,
    ensures
        cached_rows(r) == nothing_kept(),
        cache_limits(r) == (capacity, ttl_secs),
{
    moka::sync::Cache::builder().max_capacity(capacity).time_to_live(
        std::time::Duration::from_secs(ttl_secs),
    ).build()
}

/// What was found for a key, if anything, is what was kept under it.
pub open spec fn was_kept(
    kept: Map<Seq<char>, Seq<JsonView>>,
    key: Seq<char>,
    found: Option<Seq<JsonView>>,
) -> bool {
    found matches Some(rows) ==> kept.contains_key(key) && kept[key] == rows
}

/// `moka::sync::Cache::get`: what comes back is what was last put under the
/// key. Nothing may come back at any time, for an entry can expire or make
/// room for others.
#[verifier::external_body]
fn cache_get(c: &moka::sync::Cache<String, Vec<Json>>, key: &str) -> (r: Option<Vec<Json>>)
    ensures
        was_kept(cached_rows(*c), key@, json::opt_rows(r)),
{
    c.get(key)
}

/// `moka::sync::Cache::insert`: the rows are what was last put under the key, and
/// the limits stay.
#[verifier::external_body]
fn cache_put(c: &mut moka::sync::Cache<String, Vec<Json>>, key: String, rows: Vec<Json>)
    ensures
        cached_rows(*final(c)) == cached_rows(*old(c)).insert(key@, text::views(rows@)),
        cache_limits(*final(c)) == cache_limits(*old(c)),
{
    c.insert(key, rows)
}

/// `std::time::SystemTime::now` as whole seconds since the Unix epoch. Nothing
/// is claimed of the time.
#[verifier::external_body]
pub(crate) fn unix_now() -> u64 {
    std::time::SystemTime::now().duration_since(std::time::UNIX_EPOCH).map(|d| d.as_secs()).unwrap_or(
        0,
    )
}

// ---------------------------------------------------------------------------
// Asking the database
// ---------------------------------------------------------------------------

/// The state of the query desk.
pub struct DbContext {
    cache: moka::sync::Cache<String, Vec<Json>>,
    history: Vec<DbHistoryEntry>,
    feedback: Vec<FeedbackEntry>,
    lifetime_query_count: usize,
    row_cap: usize,
}

/// What the query desk holds.
#[verifier::ext_equal]
pub struct DbView {
    /// The rows last kept for each key.
    pub cache: Map<Seq<char>, Seq<JsonView>>,
    /// The most results that the cache keeps, and for how many seconds.
    pub cache_limits: (u64, u64),
    pub history: Seq<HistoryView>,
    pub feedback: Seq<FeedbackView>,
    pub lifetime: int,
    pub row_cap: nat,
}

impl View for DbContext {
    type V = DbView;

    closed spec fn view(&self) -> DbView {
        DbView {
            cache: cached_rows(self.cache),
            cache_limits: cache_limits(self.cache),
            history: text::views(self.history@),
            feedback: text::views(self.feedback@),
            lifetime: self.lifetime_query_count as int,
            row_cap: self.row_cap as nat,
        }
    }
}

/// A query that the database is to run.
#[derive(Debug)]
pub struct PendingQuery {
    pub query: String,
    pub max_rows: usize,
    pub cache_key: String,
}

/// What comes of asking for a query.
#[derive(Debug)]
pub enum QueryStart {
    /// The guard refused it, for this reason.
    Rejected(String),
    /// Its rows were at hand.
    Cached(Vec<Json>),
    /// The database is to run it.
    Run(PendingQuery),
}

/// What the database made of a query.
#[derive(Debug)]
pub enum EngineReply {
    Rows { columns: Vec<String>, batch: RowCollector },
    /// The engine failed, with this message.
    Failed(String),
    /// The task that ran the query was lost, with this message.
    Lost(String),
}

/// The rows or the error of a query.
pub open spec fn rows_outcome(r: Result<Vec<Json>, String>) -> Result<Seq<JsonView>, Seq<char>> {
    match r {
        Ok(v) => Ok(text::views(v@)),
        Err(e) => Err(e@),
    }
}

/// One more query asked for, with the counter's wrap at the machine's limit.
pub open spec fn counted(n: int) -> int {
    if n == usize::MAX {
        0
    } else {
        n + 1
    }
}

impl DbView {
    /// The desk with one more entry in its history.
    pub open spec fn with_entry(self, e: HistoryView) -> DbView {
        DbView { history: recorded(self.history, e), ..self }
    }

    /// The desk with one more query counted.
    pub open spec fn with_count(self) -> DbView {
        DbView { lifetime: counted(self.lifetime), ..self }
    }

    /// The most rows that a query may bring.
    pub open spec fn cap_for(self, max_rows: Option<usize>) -> nat {
        match max_rows {
            Some(n) => n as nat,
            None => self.row_cap,
        }
    }

    /// The history is within its limit.
    pub open spec fn bounded(self) -> bool {
        self.history.len() <= HISTORY_KEPT
    }
}

/// The key under which a query's rows are kept: the query without the blanks at
/// its ends, and the cap.
pub open spec fn cache_key(query: Seq<char>, max_rows: nat) -> Seq<char> {
    text::trim(query) + "|"@ + text::dec(max_rows)
}

/// The query is to run under the cap, for the key that belongs to both.
pub open spec fn awaits(p: PendingQuery, query: Seq<char>, max_rows: nat) -> bool {
    &&& p.query@ == query
    &&& p.max_rows == max_rows
    &&& p.cache_key@ == cache_key(query, max_rows)
}

/// What asking for a query did, where `found` is what the cache gave.
pub open spec fn started(
    before: DbView,
    after: DbView,
    query: Seq<char>,
    max_rows: Option<usize>,
    now: u64,
    found: Option<Seq<JsonView>>,
    r: QueryStart,
) -> bool {
    let cap = before.cap_for(max_rows);
    match sql::sql_verdict(query) {
        Err(reason) => {
            &&& r matches QueryStart::Rejected(why) && why@ == "SQL rejected: "@ + reason
            &&& after == before.with_count().with_entry(
                entry(now, query, 0, 0, false, Some("validation"@), false),
            )
        },
        Ok(()) => match found {
            Some(rows) => {
                &&& r matches QueryStart::Cached(v) && text::views(v@) == rows
                &&& after == before.with_count().with_entry(
                    entry(now, query, rows.len() as usize, 0, true, Some("cache_hit"@), true),
                )
            },
            None => {
                &&& r matches QueryStart::Run(p) && awaits(p, query, cap)
                &&& after == before.with_count()
            },
        },
    }
}

/// What the database's reply to a query comes to.
pub open spec fn reply_outcome(p: PendingQuery, reply: EngineReply) -> Result<
    Seq<JsonView>,
    Seq<char>,
> {
    match reply {
        EngineReply::Rows { columns, batch } => Ok(
            result_rows(text::views(columns@), batch@.rows, batch.capped, p.max_rows as nat),
        ),
        EngineReply::Failed(m) => Err(m@),
        EngineReply::Lost(m) => Err(m@),
    }
}

/// What the desk holds after the database's reply to a query: rows are kept for
/// the next time, and the history tells how it went.
pub open spec fn settled(
    before: DbView,
    p: PendingQuery,
    reply: EngineReply,
    elapsed_ms: u64,
    now: u64,
) -> DbView {
    match reply {
        EngineReply::Rows { .. } => {
            let rows = reply_outcome(p, reply)->Ok_0;
            DbView {
                cache: before.cache.insert(p.cache_key@, rows),
                ..before.with_entry(
                    entry(now, p.query@, rows.len() as usize, elapsed_ms, true, None, false),
                )
            }
        },
        EngineReply::Failed(m) => before.with_entry(
            entry(now, p.query@, 0, elapsed_ms, false, Some(sql::error_category(m@)), false),
        ),
        EngineReply::Lost(_) => before.with_entry(
            entry(now, p.query@, 0, elapsed_ms, false, Some("spawn_failure"@), false),
        ),
    }
}

/// A copy of some rows.
pub fn copy_rows(rows: &Vec<Json>) -> (r: Vec<Json>)
    ensures
        text::views(r@) == text::views(rows@),
{
    let mut out: Vec<Json> = Vec::new();
    let mut i: usize = 0;
    while i < rows.len()
        invariant
            i <= rows@.len(),
            text::views(out@) == text::views(rows@).take(i as int),
        decreases rows@.len() - i,
    {
        let c = rows[i].copy();
        let ghost before = out@;
        out.push(c);
        proof {
            assert(text::views(out@) == text::views(before).push(c@));
            assert(text::views(rows@).take(i + 1) == text::views(rows@).take(i as int).push(c@));
        }
        i = i + 1;
    }
    proof {
        assert(text::views(rows@).take(rows@.len() as int) == text::views(rows@));
    }
    out
}

/// The row that says that a result was cut.
fn notice_row(max_rows: usize) -> (r: Json)
    ensures
        r@ == notice(max_rows as nat),
{
    broadcast use json::group_json_views;

    let mut s = "Result capped at ".to_owned();
    s.append(text::nat_text(max_rows as u128).as_str());
    s.append(" rows. Add explicit LIMIT or aggregate for complete data.");
    let mut pairs: Vec<(String, Json)> = Vec::new();
    pairs.push(("_notice".to_owned(), Json::Str(s)));
    proof {
        assert(json::pair_views(pairs@) == notice(max_rows as nat)->Object_0);
    }
    Json::Object(pairs)
}

impl DbContext {
    /// An idle query desk. `cache_ttl_secs` beyond a thousand years is more
    /// than the cache can take.
    pub fn new(cache_max: u64, cache_ttl_secs: u64, row_cap: usize) -> (r: DbContext)
        requires
            cache_ttl_secs <= LONGEST_TTL_SECS,
        ensures
            r@ == (DbView {
                cache: nothing_kept(),
                cache_limits: (cache_max, cache_ttl_secs),
                history: Seq::empty(),
                feedback: Seq::empty(),
                lifetime: 0,
                row_cap: row_cap as nat,
            }),
    {
        let r = DbContext {
            cache: new_cache(cache_max, cache_ttl_secs),
            history: Vec::new(),
            feedback: Vec::new(),
            lifetime_query_count: 0,
            row_cap,
        };
        proof {
            assert(text::views(r.history@) == Seq::<HistoryView>::empty());
            assert(text::views(r.feedback@) == Seq::<FeedbackView>::empty());
        }
        r
    }

    /// Puts a query on record; the oldest goes when there are too many.
    fn record_history(
        &mut self,
        now: u64,
        query: &str,
        row_count: usize,
        elapsed_ms: u64,
        success: bool,
        error_category: Option<String>,
        cache_hit: bool,
    )
        requires
            old(self)@.bounded(),
        ensures
            final(self)@ == old(self)@.with_entry(
                entry(
                    now,
                    query@,
                    row_count,
                    elapsed_ms,
                    success,
                    json::opt_text(error_category),
                    cache_hit,
                ),
            ),
            final(self)@.bounded(),
    {
        let ghost before = text::views(self.history@);
        let e = DbHistoryEntry {
            timestamp: now,
            sql: query.to_owned(),
            row_count,
            elapsed_ms,
            success,
            error_category,
            cache_hit,
            model: None,
            session_id: None,
            tool_name: None,
        };
        let ghost ev = e@;
        self.history.push(e);
        proof {
            assert(text::views(self.history@) == before.push(ev));
        }
        if self.history.len() > HISTORY_KEPT {
            self.history.remove(0);
            proof {
                assert(text::views(self.history@) == before.push(ev).skip(1));
            }
        }
    }

    /// Asks for a query at the time `now`, where `found` is what the cache has
    /// for it: counts it, and refuses it, answers it or lets it run.
    pub fn start_query(
        &mut self,
        query: String,
        max_rows_opt: Option<usize>,
        found: Option<Vec<Json>>,
        now: u64,
    ) -> (r: QueryStart)
        requires
            old(self)@.bounded(),
        ensures
            started(
                old(self)@,
                final(self)@,
                query@,
                max_rows_opt,
                now,
                json::opt_rows(found),
                r,
            ),
            final(self)@.bounded(),
    {
        self.lifetime_query_count = self.lifetime_query_count.wrapping_add(1);
        match DbContext::validate_sql(query.as_str()) {
            Err(reason) => {
                self.record_history(
                    now,
                    query.as_str(),
                    0,
                    0,
                    false,
                    Some("validation".to_owned()),
                    false,
                );
                QueryStart::Rejected(text::plus("SQL rejected: ".to_owned(), reason.as_str()))
            },
            Ok(()) => match found {
                Some(rows) => {
                    self.record_history(
                        now,
                        query.as_str(),
                        rows.len(),
                        0,
                        true,
                        Some("cache_hit".to_owned()),
                        true,
                    );
                    QueryStart::Cached(rows)
                },
                None => {
                    let max_rows: usize = self.max_rows_for(max_rows_opt);
                    let cache_key = DbContext::key_for(query.as_str(), max_rows);
                    QueryStart::Run(PendingQuery { query, max_rows, cache_key })
                },
            },
        }
    }

    fn max_rows_for(&self, max_rows_opt: Option<usize>) -> (r: usize)
        ensures
            r == self@.cap_for(max_rows_opt),
    {
        match max_rows_opt {
            Some(n) => n,
            None => self.row_cap,
        }
    }

    fn key_for(query: &str, max_rows: usize) -> (r: String)
        ensures
            r@ == cache_key(query@, max_rows as nat),
    {
        let mut key = text::trim_white(query);
        key.append("|");
        key.append(text::nat_text(max_rows as u128).as_str());
        key
    }

    /// Asks for a query: counts it, and refuses it, answers it with the rows
    /// that were last kept for it, or lets the database run it.
    pub fn run_sql(&mut self, query: String, max_rows_opt: Option<usize>) -> (r: QueryStart)
        requires
            old(self)@.bounded(),
        ensures
            exists|now: u64, found: Option<Seq<JsonView>>|
                #![trigger started(old(self)@, final(self)@, query@, max_rows_opt, now, found, r)]
                started(old(self)@, final(self)@, query@, max_rows_opt, now, found, r) && was_kept(
                    old(self)@.cache,
                    cache_key(query@, old(self)@.cap_for(max_rows_opt)),
                    found,
                ),
            final(self)@.bounded(),
    {
        let now: u64 = unix_now();
        let key = DbContext::key_for(query.as_str(), self.max_rows_for(max_rows_opt));
        let found = cache_get(&self.cache, key.as_str());
        self.start_query(query, max_rows_opt, found, now)
    }

    /// Takes the database's reply to a query at the time `now`: the rows or the
    /// error, with the rows kept for the next time.
    pub fn settle_query(
        &mut self,
        pending: PendingQuery,
        reply: EngineReply,
        elapsed_ms: u64,
        now: u64,
    ) -> (r: Result<Vec<Json>, String>)
        requires
            old(self)@.bounded(),
        ensures
            rows_outcome(r) == reply_outcome(pending, reply),
            final(self)@ == settled(old(self)@, pending, reply, elapsed_ms, now),
            final(self)@.bounded(),
    {
        match reply {
            EngineReply::Rows { columns, batch } => {
                let mut rows = assemble_rows(&columns, &batch.rows);
                let ghost plain = text::views(rows@);
                if batch.capped {
                    let row = notice_row(pending.max_rows);
                    rows.push(row);
                    proof {
                        assert(text::views(rows@) == plain.push(row@));
                    }
                }
                cache_put(&mut self.cache, pending.cache_key.clone(), copy_rows(&rows));
                self.record_history(
                    now,
                    pending.query.as_str(),
                    rows.len(),
                    elapsed_ms,
                    true,
                    None,
                    false,
                );
                Ok(rows)
            },
            EngineReply::Failed(m) => {
                let category = DbContext::classify_sql_error(m.as_str());
                self.record_history(
                    now,
                    pending.query.as_str(),
                    0,
                    elapsed_ms,
                    false,
                    Some(category),
                    false,
                );
                Err(m)
            },
            EngineReply::Lost(m) => {
                self.record_history(
                    now,
                    pending.query.as_str(),
                    0,
                    elapsed_ms,
                    false,
                    Some("spawn_failure".to_owned()),
                    false,
                );
                Err(m)
            },
        }
    }

    /// Takes the database's reply to a query: the rows or the error, with the
    /// rows kept for the next time.
    pub fn finish_sql(
        &mut self,
        pending: PendingQuery,
        reply: EngineReply,
        elapsed_ms: u64,
    ) -> (r: Result<Vec<Json>, String>)
        requires
            old(self)@.bounded(),
        ensures
            rows_outcome(r) == reply_outcome(pending, reply),
            exists|now: u64|
                final(self)@ == #[trigger] settled(old(self)@, pending, reply, elapsed_ms, now),
            final(self)@.bounded(),
    {
        let now: u64 = unix_now();
        self.settle_query(pending, reply, elapsed_ms, now)
    }

    /// How many queries were ever asked for.
    pub fn get_lifetime_query_count(&self) -> (r: usize)
        ensures
            r == self@.lifetime,
    {
        self.lifetime_query_count
    }

    /// The newest queries, the newest first.
    pub fn list_history(&self) -> (r: Vec<DbHistoryEntry>)
        ensures
            text::views(r@) == listed(self@.history),
    {
        let ghost want = listed(self@.history);
        let n: usize = self.history.len();
        let mut out: Vec<DbHistoryEntry> = Vec::new();
        let mut i: usize = 0;
        while i < n && i < HISTORY_LISTED
            invariant
                n == self.history@.len(),
                want == listed(text::views(self.history@)),
                i <= n,
                i <= HISTORY_LISTED,
                text::views(out@) == want.take(i as int),
            decreases n - i,
        {
            let e = self.history[n - 1 - i].clone();
            let ghost before = out@;
            out.push(e);
            proof {
                assert(text::views(out@) == text::views(before).push(e@));
                assert(want.take(i + 1) == want.take(i as int).push(e@));
            }
            i = i + 1;
        }
        proof {
            assert(want.take(i as int) == want);
        }
        out
    }

    /// Keeps what a user thought of an answer, under the next number.
    pub fn record_feedback(
        &mut self,
        session_id: &str,
        question: &str,
        sql_text: &str,
        rating: &str,
        comment: &str,
    ) -> (id: usize)
        requires
            old(self)@.feedback.len() < usize::MAX,
        ensures
            id == old(self)@.feedback.len() + 1,
            final(self)@ == (DbView {
                feedback: old(self)@.feedback.push(
                    FeedbackView {
                        id,
                        session_id: session_id@,
                        question: question@,
                        sql: sql_text@,
                        rating: rating@,
                        comment: comment@,
                    },
                ),
                ..old(self)@
            }),
    {
        let ghost before = text::views(self.feedback@);
        let id: usize = self.feedback.len() + 1;
        let e = FeedbackEntry {
            id,
            session_id: session_id.to_owned(),
            question: question.to_owned(),
            sql: sql_text.to_owned(),
            rating: rating.to_owned(),
            comment: comment.to_owned(),
        };
        let ghost ev = e@;
        self.feedback.push(e);
        proof {
            assert(text::views(self.feedback@) == before.push(ev));
        }
        id
    }

    /// What users thought of the answers, in the order in which they told.
    pub fn list_feedback(&self) -> (r: Vec<FeedbackEntry>)
        ensures
            text::views(r@) == self@.feedback,
    {
        let mut out: Vec<FeedbackEntry> = Vec::new();
        let mut i: usize = 0;
        while i < self.feedback.len()
            invariant
                i <= self.feedback@.len(),
                text::views(out@) == text::views(self.feedback@).take(i as int),
            decreases self.feedback@.len() - i,
        {
            let e = self.feedback[i].clone();
            let ghost before = out@;
            out.push(e);
            proof {
                assert(text::views(out@) == text::views(before).push(e@));
                assert(text::views(self.feedback@).take(i + 1) == text::views(
                    self.feedback@,
                ).take(i as int).push(e@));
            }
            i = i + 1;
        }
        proof {
            assert(text::views(self.feedback@).take(i as int) == text::views(self.feedback@));
        }
        out
    }
}

/// Rows that the database gave for a query answer the same query under the same
/// cap, whatever blanks stand round it: where the cache has anything for it, it
/// has those rows.
pub proof fn law_kept_rows_answer_again(
    before: DbView,
    p: PendingQuery,
    query: Seq<char>,
    again: Seq<char>,
    max_rows: nat,
    reply: EngineReply,
    elapsed_ms: u64,
    now: u64,
)
    requires
        awaits(p, query, max_rows),
        text::trim(again) == text::trim(query),
        reply is Rows,
    ensures
        settled(before, p, reply, elapsed_ms, now).cache.contains_key(cache_key(again, max_rows)),
        settled(before, p, reply, elapsed_ms, now).cache[cache_key(again, max_rows)]
            == reply_outcome(p, reply)->Ok_0,
{
}

/// Two queries under the same key are the same but for the blanks round them,
/// and so are their caps.
pub proof fn law_keys_tell_queries_apart(q1: Seq<char>, n1: nat, q2: Seq<char>, n2: nat)
    requires
        cache_key(q1, n1) == cache_key(q2, n2),
    ensures
        text::trim(q1) == text::trim(q2),
        n1 == n2,
{
    let k = cache_key(q1, n1);
    let t1 = text::trim(q1);
    let t2 = text::trim(q2);
    let d1 = text::dec(n1);
    let d2 = text::dec(n2);
    reveal_strlit("|");
    text::lemma_dec_digits(n1);
    text::lemma_dec_digits(n2);
    assert(k[t1.len() as int] == '|');
    assert(k[t2.len() as int] == '|');
    if t1.len() < t2.len() {
        assert(k.len() == t2.len() + 1 + d2.len());
        assert(k[t2.len() as int] == d1[t2.len() - t1.len() - 1]);
    }
    if t2.len() < t1.len() {
        assert(k.len() == t1.len() + 1 + d1.len());
        assert(k[t1.len() as int] == d2[t1.len() - t2.len() - 1]);
    }
    assert(k.take(t1.len() as int) == t1);
    assert(k.take(t2.len() as int) == t2);
    assert(k.skip(t1.len() as int + 1) == d1);
    assert(k.skip(t2.len() as int + 1) == d2);
}

/// Every query counts, whatever comes of it. One that the guard refuses never
/// runs, is never answered from the cache, and is on record as a failure.
pub proof fn law_refused_queries_never_run(
    before: DbView,
    after: DbView,
    query: Seq<char>,
    max_rows: Option<usize>,
    now: u64,
    found: Option<Seq<JsonView>>,
    r: QueryStart,
)
    requires
        started(before, after, query, max_rows, now, found, r),
    ensures
        after.lifetime == counted(before.lifetime),
        after.cache == before.cache,
        sql::sql_verdict(query) is Err ==> r is Rejected && after.history.len() > 0
            && after.history.last().sql == query && !after.history.last().success,
        sql::sql_verdict(query) is Ok ==> !(r is Rejected),
{
}

proof fn lemma_put_flat(p: Seq<(Seq<char>, JsonView)>, key: Seq<char>, value: JsonView)
    requires
        json::scalar(value),
        forall|k: int| 0 <= k < p.len() ==> json::scalar((#[trigger] p[k]).1),
    ensures
        forall|k: int|
            0 <= k < json::put(p, key, value).len() ==> json::scalar(
                (#[trigger] json::put(p, key, value)[k]).1,
            ),
    decreases p.len(),
{
    let q = json::put(p, key, value);
    if p.len() > 0 && p[0].0 != key && !json::precedes(key, p[0].0) {
        let rest = p.skip(1);
        assert forall|k: int| 0 <= k < rest.len() implies json::scalar((#[trigger] rest[k]).1) by {
            assert(rest[k] == p[k + 1]);
        }
        lemma_put_flat(rest, key, value);
        let tail = json::put(rest, key, value);
        assert forall|k: int| 0 <= k < q.len() implies json::scalar((#[trigger] q[k]).1) by {
            if k > 0 {
                assert(q[k] == tail[k - 1]);
            } else {
                assert(q[0] == p[0]);
            }
        }
    } else if p.len() > 0 && p[0].0 != key {
        assert forall|k: int| 0 <= k < q.len() implies json::scalar((#[trigger] q[k]).1) by {
            if k > 0 {
                assert(q[k] == p[k - 1]);
            }
        }
    }
}

proof fn lemma_row_flat(names: Seq<Seq<char>>, values: Seq<JsonView>, n: nat)
    requires
        forall|k: int| 0 <= k < values.len() ==> json::scalar(#[trigger] values[k]),
    ensures
        forall|k: int|
            0 <= k < row_pairs(names, values, n).len() ==> json::scalar(
                (#[trigger] row_pairs(names, values, n)[k]).1,
            ),
    decreases n,
{
    if n > 0 {
        lemma_row_flat(names, values, (n - 1) as nat);
        lemma_put_flat(
            row_pairs(names, values, (n - 1) as nat),
            names[n - 1],
            if n - 1 < values.len() {
                values[n - 1]
            } else {
                JsonView::Null
            },
        );
    }
}

/// A cell is never an array or an object, so the rows of a result are objects
/// of plain values.
pub proof fn law_results_are_flat(
    names: Seq<Seq<char>>,
    cells: Seq<Seq<Cell>>,
    capped: bool,
    max_rows: nat,
)
    ensures
        json::flat_rows(
            result_rows(
                names,
                Seq::new(cells.len(), |i: int| row_values(cells[i])),
                capped,
                max_rows,
            ),
        ),
{
    let rows = Seq::new(cells.len(), |i: int| row_values(cells[i]));
    let result = result_rows(names, rows, capped, max_rows);
    assert forall|i: int| 0 <= i < result.len() implies (#[trigger] result[i] matches JsonView::Object(
        p,
    ) && forall|k: int| 0 <= k < p.len() ==> json::scalar((#[trigger] p[k]).1)) by {
        if i < rows.len() {
            lemma_row_flat(names, rows[i], names.len());
            assert(result[i] == row_object(names, rows[i]));
        }
    }
}

// ---------------------------------------------------------------------------
// What the desk is for
// ---------------------------------------------------------------------------

/// A cell keeps its value: an integer of up to 64 bits is that integer, a wider
/// one, a date and a time are their decimal text, a truth is that truth, and text
/// is its text; what is no number at all is null.
pub proof fn law_cells_keep_their_value(c: Cell)
    ensures
        c is Null ==> cell_value(c) == JsonView::Null,
        c matches Cell::Boolean(b) ==> cell_value(c) == JsonView::Bool(b),
        c matches Cell::TinyInt(v) ==> (cell_value(c) matches JsonView::Int(n) && n as int
            == v as int),
        c matches Cell::SmallInt(v) ==> (cell_value(c) matches JsonView::Int(n) && n as int
            == v as int),
        c matches Cell::Int(v) ==> (cell_value(c) matches JsonView::Int(n) && n as int == v as int),
        c matches Cell::BigInt(v) ==> (cell_value(c) matches JsonView::Int(n) && n as int
            == v as int),
        c matches Cell::HugeInt(v) ==> cell_value(c) == JsonView::Str(text::dec_int(v as int)),
        c matches Cell::Timestamp(v) ==> cell_value(c) == JsonView::Str(text::dec_int(v as int)),
        c matches Cell::Date32(v) ==> cell_value(c) == JsonView::Str(text::dec_int(v as int)),
        c matches Cell::Time64(v) ==> cell_value(c) == JsonView::Str(text::dec_int(v as int)),
        c matches Cell::Real(Some(x)) ==> (cell_value(c) matches JsonView::Float { text, plain }
            && text == x.text@ && plain == x.plain@),
        c matches Cell::Real(None) ==> cell_value(c) == JsonView::Null,
        c matches Cell::Text(b) ==> cell_value(c) == JsonView::Str(text::lossy_text(b@)),
        c matches Cell::Decimal(s) ==> cell_value(c) == JsonView::Str(s@),
        c is Other ==> cell_value(c) == JsonView::Str("<unsupported type>"@),
        c matches Cell::Blob(n) ==> (cell_value(c) matches JsonView::Str(s) && text::contains(
            s,
            "len="@ + text::dec(n as nat) + ">"@,
        )),
{
    if let Cell::Blob(n) = c {
        reveal_strlit("<blob len=");
        reveal_strlit("len=");
        reveal_strlit(">");
        let d = text::dec(n as nat);
        let s = "<blob len="@ + d + ">"@;
        let nothing = Seq::<char>::empty();
        let front = seq!['<', 'b', 'l', 'o', 'b', ' '];
        assert("<blob len="@ =~= front + "len="@);
        assert(s =~= front + ("len="@ + d + ">"@) + nothing);
        text::lemma_middle(front, "len="@ + d + ">"@, nothing);
    }
}

/// A cell of a sample keeps its value wherever a sample shows it: in each case it
/// is what the cell is in a result.
pub proof fn law_samples_keep_their_value(c: Cell)
    ensures
        c is Null || c is Boolean || c is Int || c is BigInt || c is Real || c is Text
            ==> sample_value(c) == cell_value(c),
        c is TinyInt || c is SmallInt || c is HugeInt || c is Blob || c is Timestamp || c is Date32
            || c is Time64 || c is Decimal || c is Other ==> sample_value(c) == JsonView::Str(
            "<val>"@,
        ),
        c matches Cell::Int(v) ==> (sample_value(c) matches JsonView::Int(n) && n as int
            == v as int),
        c matches Cell::BigInt(v) ==> (sample_value(c) matches JsonView::Int(n) && n as int
            == v as int),
{
}

proof fn lemma_row_has_no_more(
    names: Seq<Seq<char>>,
    values: Seq<JsonView>,
    n: nat,
    key: Seq<char>,
)
    requires
        n <= names.len(),
        forall|k: int| 0 <= k < n ==> #[trigger] names[k] != key,
    ensures
        json::member(row_pairs(names, values, n), key) is None,
    decreases n,
{
    if n > 0 {
        let front = row_pairs(names, values, (n - 1) as nat);
        let v = if n - 1 < values.len() {
            values[n - 1]
        } else {
            JsonView::Null
        };
        lemma_row_has_no_more(names, values, (n - 1) as nat, key);
        lemma_row_in_order(names, values, (n - 1) as nat);
        json::law_put_sets_one_key(front, names[n - 1], v, key);
    }
}

/// A result holds every row in its place, and in each row every column with its
/// value and no other; where it was cut, one row more says so and names the cap.
pub proof fn law_results_hold_every_row(
    names: Seq<Seq<char>>,
    rows: Seq<Seq<JsonView>>,
    capped: bool,
    max_rows: nat,
    i: int,
    j: int,
    other: Seq<char>,
)
    ensures
        result_rows(names, rows, capped, max_rows).len() == rows.len() + (if capped {
            1nat
        } else {
            0nat
        }),
        0 <= i < rows.len() && 0 <= j < names.len() && (forall|k: int|
            j < k < names.len() ==> #[trigger] names[k] != names[j]) ==> result_rows(
            names,
            rows,
            capped,
            max_rows,
        )[i].get(names[j]) == Some(
            if j < rows[i].len() {
                rows[i][j]
            } else {
                JsonView::Null
            },
        ),
        0 <= i < rows.len() && (forall|k: int| 0 <= k < names.len() ==> #[trigger] names[k] != other)
            ==> result_rows(names, rows, capped, max_rows)[i].get(other) is None,
        capped ==> (result_rows(names, rows, capped, max_rows).last().get("_notice"@) matches Some(
            JsonView::Str(s),
        ) && text::contains(s, text::dec(max_rows))),
{
    if 0 <= i < rows.len() {
        if 0 <= j < names.len() && (forall|k: int|
            j < k < names.len() ==> #[trigger] names[k] != names[j]) {
            law_row_holds_its_columns(names, rows[i], j);
        }
        if forall|k: int| 0 <= k < names.len() ==> #[trigger] names[k] != other {
            lemma_row_has_no_more(names, rows[i], names.len(), other);
        }
    }
    if capped {
        json::law_objects_hold_their_pairs(notice(max_rows)->Object_0, 0, "_notice"@);
        text::lemma_middle(
            "Result capped at "@,
            text::dec(max_rows),
            " rows. Add explicit LIMIT or aggregate for complete data."@,
        );
    }
}

/// The cells of a row become its values one by one, in their order.
pub proof fn law_rows_keep_their_cells(cells: Seq<Cell>, i: int)
    ensures
        row_values(cells).len() == cells.len(),
        sample_values(cells).len() == cells.len(),
        0 <= i < cells.len() ==> row_values(cells)[i] == cell_value(cells[i]),
        0 <= i < cells.len() ==> sample_values(cells)[i] == sample_value(cells[i]),
        0 <= i < cells.len() && (cells[i] matches Cell::Int(v)) ==> (row_values(
            cells,
        )[i] matches JsonView::Int(n) && n as int == cells[i]->Int_0 as int),
{
}

/// The history ends with the newest query and holds at most two hundred; its
/// listing shows at most fifty, the newest first.
pub proof fn law_history_is_listed_from_its_end(
    h: Seq<HistoryView>,
    e: HistoryView,
    es: Seq<HistoryView>,
    i: int,
)
    ensures
        recorded(h, e).len() > 0 && recorded(h, e).last() == e,
        h.len() < 200 ==> recorded(h, e) == h.push(e),
        h.len() == 200 ==> recorded(h, e).len() == 200 && (0 <= i < 199 ==> recorded(h, e)[i]
            == h[i + 1]),
        recorded_all(es).len() == (if es.len() < 200 {
            es.len()
        } else {
            200nat
        }),
        listed(h).len() == (if h.len() < 50 {
            h.len()
        } else {
            50nat
        }),
        0 <= i < listed(h).len() ==> listed(h)[i] == h[h.len() - 1 - i],
{
    law_history_keeps_the_newest(es);
}

/// A query that the guard lets through is answered with what the cache had for it,
/// or runs as it was asked, under the cap that was asked for or else the desk's
/// own; one that it refuses is told the guard's reason. Each counts once, answers
/// and refusals are on record, and nothing else changes.
pub proof fn law_queries_are_answered_or_run(
    before: DbView,
    after: DbView,
    query: Seq<char>,
    max_rows: Option<usize>,
    now: u64,
    found: Option<Seq<JsonView>>,
    r: QueryStart,
)
    requires
        started(before, after, query, max_rows, now, found, r),
    ensures
        0 <= before.lifetime < usize::MAX ==> after.lifetime == before.lifetime + 1,
        after.cache == before.cache,
        after.cache_limits == before.cache_limits,
        after.feedback == before.feedback,
        after.row_cap == before.row_cap,
        sql::sql_verdict(query) matches Err(reason) ==> {
            &&& r matches QueryStart::Rejected(why) && why@ == "SQL rejected: "@ + reason
            &&& after.history.last().sql == query
            &&& after.history.last().timestamp == now
            &&& !after.history.last().success
            &&& !after.history.last().cache_hit
            &&& after.history.last().row_count == 0
            &&& after.history.last().error_category == Some("validation"@)
        },
        sql::sql_verdict(query) is Ok ==> (found matches Some(rows) ==> {
            &&& r matches QueryStart::Cached(v) && text::views(v@) == rows
            &&& after.history.last().sql == query
            &&& after.history.last().timestamp == now
            &&& after.history.last().success
            &&& after.history.last().cache_hit
            &&& rows.len() <= usize::MAX ==> after.history.last().row_count == rows.len()
        }),
        sql::sql_verdict(query) is Ok && found is None ==> {
            &&& r matches QueryStart::Run(p) && p.query@ == query && p.max_rows as int
                == match max_rows {
                Some(n) => n as int,
                None => before.row_cap as int,
            }
            &&& after.history == before.history
        },
{
}

/// What the database gave comes back and is kept for the next time under the
/// query's own key; a failure comes back as it is, keeps nothing, and is on record
/// with its category. Either way the query is on record with its time.
pub proof fn law_replies_are_kept_and_recorded(
    before: DbView,
    p: PendingQuery,
    reply: EngineReply,
    elapsed_ms: u64,
    now: u64,
    other: Seq<char>,
)
    ensures
        ({
            let after = settled(before, p, reply, elapsed_ms, now);
            let e = after.history.last();
            &&& e.sql == p.query@
            &&& e.timestamp == now
            &&& e.elapsed_ms == elapsed_ms
            &&& !e.cache_hit
            &&& e.success <==> reply is Rows
            &&& after.lifetime == before.lifetime
            &&& after.row_cap == before.row_cap
            &&& after.feedback == before.feedback
            &&& after.cache_limits == before.cache_limits
            &&& other != p.cache_key@ ==> (after.cache.contains_key(other)
                <==> before.cache.contains_key(other)) && after.cache[other] == before.cache[other]
        }),
        reply matches EngineReply::Rows { columns, batch } ==> ({
            let after = settled(before, p, reply, elapsed_ms, now);
            let rows = result_rows(
                text::views(columns@),
                batch@.rows,
                batch.capped,
                p.max_rows as nat,
            );
            &&& reply_outcome(p, reply) == Ok::<Seq<JsonView>, Seq<char>>(rows)
            &&& after.cache.contains_key(p.cache_key@)
            &&& after.cache[p.cache_key@] == rows
            &&& after.history.last().error_category is None
            &&& rows.len() <= usize::MAX ==> after.history.last().row_count == rows.len()
        }),
        reply matches EngineReply::Failed(m) ==> ({
            let after = settled(before, p, reply, elapsed_ms, now);
            &&& reply_outcome(p, reply) == Err::<Seq<JsonView>, Seq<char>>(m@)
            &&& after.cache == before.cache
            &&& after.history.last().row_count == 0
            &&& after.history.last().error_category == Some(sql::error_category(m@))
        }),
        reply matches EngineReply::Lost(m) ==> ({
            let after = settled(before, p, reply, elapsed_ms, now);
            &&& reply_outcome(p, reply) == Err::<Seq<JsonView>, Seq<char>>(m@)
            &&& after.cache == before.cache
            &&& after.history.last().row_count == 0
            &&& after.history.last().error_category == Some("spawn_failure"@)
        }),
{
}

/// A collector takes a row as it is while it has fewer than its cap, and notes a
/// cut exactly when it takes none; a new one holds nothing, and a new desk keeps
/// nothing.
pub proof fn law_collectors_take_while_there_is_room(
    c: CollectorView,
    values: Seq<JsonView>,
    max_rows: nat,
    key: Seq<char>,
)
    ensures
        c.rows.len() < c.max_rows ==> offered(c, values).rows.len() == c.rows.len() + 1 && offered(
            c,
            values,
        ).rows.last() == values && offered(c, values).rows.drop_last() == c.rows && offered(
            c,
            values,
        ).capped == c.capped,
        c.rows.len() >= c.max_rows ==> offered(c, values).rows == c.rows && offered(
            c,
            values,
        ).capped,
        offered(c, values).max_rows == c.max_rows,
        fresh_collector(max_rows).max_rows == max_rows,
        fresh_collector(max_rows).rows.len() == 0,
        !fresh_collector(max_rows).capped,
        !nothing_kept().contains_key(key),
{
    assert(c.rows.push(values).drop_last() =~= c.rows);
}

/// What the cache gives for a key is what was last kept under that key, or nothing;
/// a key goes by the query without the blanks round it, and by the cap.
pub proof fn law_only_kept_rows_are_found(
    kept: Map<Seq<char>, Seq<JsonView>>,
    key: Seq<char>,
    rows: Seq<JsonView>,
    query: Seq<char>,
    max_rows: nat,
)
    ensures
        was_kept(kept, key, None),
        was_kept(kept, key, Some(rows)) <==> kept.contains_key(key) && kept[key] == rows,
        text::begins(cache_key(query, max_rows), text::trim(query)),
        text::ends(cache_key(query, max_rows), text::dec(max_rows)),
{
    let t = text::trim(query);
    let d = text::dec(max_rows);
    let k = cache_key(query, max_rows);
    assert(k.take(t.len() as int) =~= t);
    assert(k.skip(k.len() - d.len()) =~= d);
}

/// What is said of a history entry and of what a user thought is said of their
/// fields.
pub proof fn law_entries_carry_what_is_said_of_them(e: DbHistoryEntry, f: FeedbackEntry)
    ensures
        e@.timestamp == e.timestamp,
        e@.sql == e.sql@,
        e@.row_count == e.row_count,
        e@.elapsed_ms == e.elapsed_ms,
        e@.success == e.success,
        e@.cache_hit == e.cache_hit,
        e.error_category matches Some(s) ==> e@.error_category == Some(s@),
        e.error_category is None ==> e@.error_category is None,
        f@.id == f.id,
        f@.session_id == f.session_id@,
        f@.question == f.question@,
        f@.sql == f.sql@,
        f@.rating == f.rating@,
        f@.comment == f.comment@,
{
}

}
