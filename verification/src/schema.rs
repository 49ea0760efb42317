//! The catalogue of tables: which questions to ask of it, how the answers make
//! an enriched schema, and how that reads in a prompt.
use vstd::prelude::*;

use crate::db;
use crate::db::Cell;
use crate::db::DbContext;
use crate::json;
use crate::json::Json;
use crate::json::JsonView;
use crate::text;

verus! {

// ---------------------------------------------------------------------------
// Questions to the catalogue
// ---------------------------------------------------------------------------

/// A query with one parameter.
#[derive(Debug)]
pub struct BoundQuery {
    pub sql: String,
    pub param: String,
}

/// What a query with one parameter holds.
pub struct BoundView {
    pub sql: Seq<char>,
    pub param: Seq<char>,
}

impl View for BoundQuery {
    type V = BoundView;

    open spec fn view(&self) -> BoundView {
        BoundView { sql: self.sql@, param: self.param@ }
    }
}

/// The query for the tables whose names match a pattern, at most a hundred; any
/// name will do where there is none.
pub open spec fn tables_asked(pattern: Option<Seq<char>>) -> BoundView {
    BoundView {
        sql: "SELECT table_name FROM information_schema.tables WHERE table_schema='main'"@
            + " AND table_name LIKE ? ORDER BY table_name LIMIT 100;"@,
        param: text::or_text(pattern, "%"@),
    }
}

/// The query for the tables whose names hold a keyword, at most thirty.
pub open spec fn tables_searched(keyword: Seq<char>) -> BoundView {
    BoundView {
        sql: "SELECT table_name FROM information_schema.tables WHERE table_schema='main'"@
            + " AND lower(table_name) LIKE ? ORDER BY table_name LIMIT 30;"@,
        param: "%"@ + text::lowercase(keyword) + "%"@,
    }
}

/// The query for the columns whose names hold a keyword, at most fifty.
pub open spec fn columns_searched(keyword: Seq<char>) -> BoundView {
    BoundView {
        sql: "SELECT table_name, column_name FROM information_schema.columns WHERE table_schema='main'"@
            + " AND lower(column_name) LIKE ? ORDER BY table_name, column_name LIMIT 50;"@,
        param: "%"@ + text::lowercase(keyword) + "%"@,
    }
}

/// The query for the columns of a table.
pub open spec fn columns_asked(table: Seq<char>) -> BoundView {
    BoundView {
        sql: "SELECT column_name, data_type, is_nullable FROM information_schema.columns WHERE table_schema='main'"@
            + " AND table_name=? ORDER BY ordinal_position;"@,
        param: table,
    }
}

/// A name between double quotes, with those in it doubled, as SQL writes the
/// name of a table or a column.
pub open spec fn ident(name: Seq<char>) -> Seq<char> {
    "\""@ + text::replace(name, '"', "\"\""@) + "\""@
}

/// The query for three rows of a table.
pub open spec fn rows_sampled(table: Seq<char>) -> Seq<char> {
    "SELECT * FROM "@ + ident(table) + " LIMIT 3;"@
}

/// The query for three values of a column.
pub open spec fn values_sampled(table: Seq<char>, column: Seq<char>) -> Seq<char> {
    "SELECT DISTINCT "@ + ident(column) + " FROM "@ + ident(table) + " LIMIT 3;"@
}

/// The query for the earliest and the latest value of a column.
pub open spec fn range_asked(table: Seq<char>, column: Seq<char>) -> Seq<char> {
    "SELECT MIN(\""@ + column + "\")::VARCHAR, MAX(\""@ + column + "\")::VARCHAR FROM "@ + ident(
        table,
    ) + ";"@
}

fn quote_ident(name: &str) -> (r: String)
    ensures
        r@ == ident(name@),
{
    let mut s = "\"".to_owned();
    s.append(text::replace_char(name, '"', "\"\"").as_str());
    s.append("\"");
    s
}

/// A name in SQL is read back as it was, whatever quotes it holds, unless a
/// double quote follows.
pub proof fn law_ident_reads_back(name: Seq<char>, rest: Seq<char>)
    requires
        rest.len() > 0 ==> rest[0] != '"',
    ensures
        ident(name)[0] == '"',
        text::read_quoted((ident(name) + rest).skip(1), '"') == Some((name, rest)),
{
    reveal_strlit("\"");
    reveal_strlit("\"\"");
    assert("\"\""@ =~= seq!['"', '"']);
    assert(ident(name) =~= text::quoted(name, '"'));
    text::law_quoted_reads_back(name, '"', rest);
}

/// One column of a table.
#[derive(Debug)]
pub struct ColumnInfo {
    pub name: String,
    pub data_type: String,
    pub is_nullable: String,
}

/// What a search of the catalogue found.
#[derive(Debug)]
pub struct SearchResult {
    pub matched_tables: Vec<String>,
    /// Table and column.
    pub matched_columns: Vec<(String, String)>,
}

/// A table's columns and some of its rows.
#[derive(Debug)]
pub struct TableSchemaInfo {
    pub table_name: String,
    pub columns: Vec<ColumnInfo>,
    pub sample_rows: Vec<Json>,
    pub total_rows: Option<i64>,
}

/// What sample rows of cells hold.
pub open spec fn sampled(rows: Seq<Vec<Cell>>) -> Seq<Seq<JsonView>> {
    Seq::new(rows.len(), |i: int| db::sample_values(rows[i]@))
}

impl DbContext {
    /// The query for the tables whose names match a pattern.
    pub fn list_tables(pattern_opt: Option<String>) -> (r: BoundQuery)
        ensures
            r@ == tables_asked(json::opt_text(pattern_opt)),
    {
        let param = match pattern_opt {
            Some(p) => p,
            None => "%".to_owned(),
        };
        BoundQuery {
            sql: text::plus(
                "SELECT table_name FROM information_schema.tables WHERE table_schema='main'".to_owned(),
                " AND table_name LIKE ? ORDER BY table_name LIMIT 100;",
            ),
            param,
        }
    }

    /// The queries for the tables and for the columns whose names hold a
    /// keyword, whatever its case.
    pub fn search_tables(keyword: &str) -> (r: (BoundQuery, BoundQuery))
        ensures
            r.0@ == tables_searched(keyword@),
            r.1@ == columns_searched(keyword@),
    {
        let mut pattern = "%".to_owned();
        pattern.append(text::to_lower(keyword).as_str());
        pattern.append("%");
        (
            BoundQuery {
                sql: text::plus(
                    "SELECT table_name FROM information_schema.tables WHERE table_schema='main'".to_owned(),
                    " AND lower(table_name) LIKE ? ORDER BY table_name LIMIT 30;",
                ),
                param: pattern.clone(),
            },
            BoundQuery {
                sql: text::plus(
                    "SELECT table_name, column_name FROM information_schema.columns WHERE table_schema='main'".to_owned(),
                    " AND lower(column_name) LIKE ? ORDER BY table_name, column_name LIMIT 50;",
                ),
                param: pattern,
            },
        )
    }

    /// The query for the columns of a table.
    pub fn get_columns_from_info(table_name: &str) -> (r: BoundQuery)
        ensures
            r@ == columns_asked(table_name@),
    {
        BoundQuery {
            sql: text::plus(
                "SELECT column_name, data_type, is_nullable FROM information_schema.columns WHERE table_schema='main'".to_owned(),
                " AND table_name=? ORDER BY ordinal_position;",
            ),
            param: table_name.to_owned(),
        }
    }

    /// The query for three rows of a table.
    pub fn sample_rows_query(table_name: &str) -> (r: String)
        ensures
            r@ == rows_sampled(table_name@),
    {
        let mut s = "SELECT * FROM ".to_owned();
        s.append(quote_ident(table_name).as_str());
        s.append(" LIMIT 3;");
        s
    }

    /// The sample rows of a table as objects.
    pub fn get_sample_rows_json(names: &Vec<String>, rows: Vec<Vec<Cell>>) -> (r: Vec<Json>)
        ensures
            text::views(r@) == db::row_objects(text::views(names@), sampled(rows@)),
    {
        let ghost want = sampled(rows@);
        let ghost all = rows@;
        let mut values: Vec<Vec<Json>> = Vec::new();
        for cells in it: rows
            invariant
                it.seq() == all,
                want == sampled(all),
                db::batch_rows(values@) == want.take(it.index() as int),
        {
            let ghost row = db::sample_values(cells@);
            let ghost total = cells@;
            let mut out: Vec<Json> = Vec::new();
            for c in inner: cells
                invariant
                    inner.seq() == total,
                    row == db::sample_values(total),
                    text::views(out@) == row.take(inner.index() as int),
            {
                let ghost prior = out@;
                let j = db::sample_json(c);
                out.push(j);
                proof {
                    assert(text::views(out@) == text::views(prior).push(j@));
                    assert(row.take(inner.index() as int + 1) == row.take(
                        inner.index() as int,
                    ).push(j@));
                }
            }
            proof {
                assert(row.take(row.len() as int) == row);
            }
            let ghost before = values@;
            values.push(out);
            proof {
                assert(db::batch_rows(values@) == db::batch_rows(before).push(row));
                assert(want.take(it.index() as int + 1) == want.take(it.index() as int).push(row));
            }
        }
        proof {
            assert(want.take(want.len() as int) == want);
        }
        db::assemble_rows(names, &values)
    }

    /// What is known of a table: its columns and its sample rows, without a
    /// count.
    pub fn describe_table(
        table_name: String,
        columns: Vec<ColumnInfo>,
        names: &Vec<String>,
        rows: Vec<Vec<Cell>>,
    ) -> (r: TableSchemaInfo)
        ensures
            r.table_name == table_name,
            r.columns == columns,
            text::views(r.sample_rows@) == db::row_objects(text::views(names@), sampled(rows@)),
            r.total_rows is None,
    {
        TableSchemaInfo {
            table_name,
            columns,
            sample_rows: DbContext::get_sample_rows_json(names, rows),
            total_rows: None,
        }
    }

    /// The query that explains a query, and the most rows that it may bring.
    pub fn explain_query(query: &str) -> (r: (String, Option<usize>))
        ensures
            r.0@ == "EXPLAIN "@ + query@,
            r.1 == Some(20usize),
    {
        (text::plus("EXPLAIN ".to_owned(), query), Some(20))
    }
}

// ---------------------------------------------------------------------------
// Numbers for people
// ---------------------------------------------------------------------------

/// The first `n` digits of `d`, with a comma before each group of three that
/// counts from the end.
pub open spec fn comma_digits(d: Seq<char>, n: nat) -> Seq<char>
    decreases n,
{
    if n == 0 {
        Seq::empty()
    } else {
        comma_digits(d, (n - 1) as nat) + (if n > 1 && (d.len() - (n - 1)) % 3 == 0 {
            seq![',', d[n - 1]]
        } else {
            seq![d[n - 1]]
        })
    }
}

/// A number with commas between the thousands; a question mark for a negative
/// one.
pub open spec fn comma_number(n: int) -> Seq<char> {
    if n < 0 {
        "?"@
    } else {
        comma_digits(text::dec(n as nat), text::dec(n as nat).len())
    }
}

impl DbContext {
    /// A number with commas between the thousands; a question mark for a
    /// negative one.
    pub fn format_num_comma(n: i64) -> (r: String)
        ensures
            r@ == comma_number(n as int),
    {
        if n < 0 {
            return "?".to_owned();
        }
        let digits = text::nat_text(n as u128);
        let s = text::chars_of(digits.as_str());
        let len: usize = s.len();
        let mut out = String::new();
        let mut i: usize = 0;
        while i < len
            invariant
                len == s@.len(),
                i <= len,
                out@ == comma_digits(s@, i as nat),
            decreases len - i,
        {
            let ghost before = out@;
            if i > 0 && (len - i) % 3 == 0 {
                out.push(',');
                out.push(s[i]);
                proof {
                    assert(out@ == before + seq![',', s@[i as int]]);
                }
            } else {
                out.push(s[i]);
                proof {
                    assert(out@ == before + seq![s@[i as int]]);
                }
            }
            i = i + 1;
        }
        out
    }
}

proof fn lemma_commas_out(d: Seq<char>, n: nat)
    requires
        n <= d.len(),
        text::all_digits(d),
    ensures
        text::replace(comma_digits(d, n), ',', Seq::empty()) == d.take(n as int),
    decreases n,
{
    if n > 0 {
        lemma_commas_out(d, (n - 1) as nat);
        let c = d[n - 1];
        let front = comma_digits(d, (n - 1) as nat);
        let whole = comma_digits(d, n);
        let nothing = Seq::<char>::empty();
        assert('0' <= c <= '9');
        assert(whole.last() == c);
        if n > 1 && (d.len() - (n - 1)) % 3 == 0 {
            let mid = whole.drop_last();
            assert(mid.last() == ',');
            assert(mid.drop_last() == front);
            assert(text::replace(mid, ',', nothing) == d.take(n - 1) + nothing);
            assert(d.take(n - 1) + nothing == d.take(n - 1));
        } else {
            assert(whole.drop_last() == front);
        }
        assert(d.take(n - 1) + seq![c] == d.take(n as int));
    } else {
        assert(d.take(0) == comma_digits(d, 0));
    }
}

/// Without its commas, a number that is not negative reads as in plain decimal.
pub proof fn law_commas_only_separate(n: nat)
    ensures
        text::replace(comma_number(n as int), ',', Seq::empty()) == text::dec(n),
{
    let d = text::dec(n);
    text::lemma_dec_digits(n);
    lemma_commas_out(d, d.len());
    assert(d.take(d.len() as int) == d);
}

// ---------------------------------------------------------------------------
// The enriched schema
// ---------------------------------------------------------------------------

/// A column and what its name tells of it.
#[derive(Debug)]
pub struct EnrichedColumn {
    pub name: String,
    pub data_type: String,
    pub is_nullable: bool,
    pub is_fk_candidate: bool,
    pub referenced_table: Option<String>,
    pub sample_values: Vec<String>,
}

/// A table with its size, its columns and the dates it spans.
#[derive(Debug)]
pub struct EnrichedTable {
    pub table_name: String,
    pub row_count: i64,
    pub column_count: usize,
    pub columns: Vec<EnrichedColumn>,
    pub date_range: Option<(String, String)>,
}

/// The tables that matter, and how they refer to each other.
#[derive(Debug)]
pub struct EnrichedSchema {
    pub tables: Vec<EnrichedTable>,
    pub total_tables: usize,
    /// Table, column, and the table that the column refers to.
    pub fk_relationships: Vec<(String, String, String)>,
}

/// What an enriched column holds.
#[verifier::ext_equal]
pub struct ColumnView {
    pub name: Seq<char>,
    pub data_type: Seq<char>,
    pub is_nullable: bool,
    pub is_fk_candidate: bool,
    pub referenced_table: Option<Seq<char>>,
    pub sample_values: Seq<Seq<char>>,
}

impl View for EnrichedColumn {
    type V = ColumnView;

    open spec fn view(&self) -> ColumnView {
        ColumnView {
            name: self.name@,
            data_type: self.data_type@,
            is_nullable: self.is_nullable,
            is_fk_candidate: self.is_fk_candidate,
            referenced_table: json::opt_text(self.referenced_table),
            sample_values: text::views(self.sample_values@),
        }
    }
}

/// What two optional texts hold.
pub open spec fn opt_range(o: Option<(String, String)>) -> Option<(Seq<char>, Seq<char>)> {
    match o {
        Some((a, b)) => Some((a@, b@)),
        None => None,
    }
}

/// What an enriched table holds.
#[verifier::ext_equal]
pub struct TableView {
    pub table_name: Seq<char>,
    pub row_count: i64,
    pub column_count: nat,
    pub columns: Seq<ColumnView>,
    pub date_range: Option<(Seq<char>, Seq<char>)>,
}

impl View for EnrichedTable {
    type V = TableView;

    open spec fn view(&self) -> TableView {
        TableView {
            table_name: self.table_name@,
            row_count: self.row_count,
            column_count: self.column_count as nat,
            columns: text::views(self.columns@),
            date_range: opt_range(self.date_range),
        }
    }
}

/// A reference from a column of a table to another table.
pub type Link = (Seq<char>, Seq<char>, Seq<char>);

/// What references hold.
pub open spec fn link_views(v: Seq<(String, String, String)>) -> Seq<Link> {
    Seq::new(v.len(), |i: int| (v[i].0@, v[i].1@, v[i].2@))
}

/// What an enriched schema holds.
#[verifier::ext_equal]
pub struct SchemaView {
    pub tables: Seq<TableView>,
    pub total_tables: nat,
    pub fk_relationships: Seq<Link>,
}

impl View for EnrichedSchema {
    type V = SchemaView;

    open spec fn view(&self) -> SchemaView {
        SchemaView {
            tables: text::views(self.tables@),
            total_tables: self.total_tables as nat,
            fk_relationships: link_views(self.fk_relationships@),
        }
    }
}

/// The name of a column marks it as a reference to another table.
pub open spec fn refers(column: Seq<char>) -> bool {
    text::ends(column, "_id"@) || text::contains(column, "_id_"@) || text::ends(column, "_code"@)
}

/// The table that such a name points to: what stands before the last `_id`, or
/// else before the `_code` at its end.
pub open spec fn pointed_to(column: Seq<char>) -> Seq<char> {
    match text::find_last(column, "_id"@) {
        Some(i) => column.take(i),
        None => text::trim_end(column, "_code"@),
    }
}

/// The table that a column refers to, if its name marks it as a reference.
pub open spec fn reference_of(column: Seq<char>) -> Option<Seq<char>> {
    if refers(column) {
        Some(pointed_to(column))
    } else {
        None
    }
}

/// The values of the column are worth a sample.
pub open spec fn worth_sampling(column: Seq<char>) -> bool {
    refers(column) || text::contains(column, "name"@) || text::contains(column, "type"@)
}

/// The column holds dates or times, by its name.
pub open spec fn dated(column: Seq<char>) -> bool {
    text::contains(column, "date"@) || text::contains(column, "_at"@) || text::contains(
        column,
        "time"@,
    )
}

/// A column as the catalogue has it, with a sample of its values.
#[derive(Debug)]
pub struct RawColumn {
    pub name: String,
    pub data_type: String,
    pub is_nullable: String,
    pub samples: Vec<String>,
}

/// A table as the catalogue has it, with the dates it spans.
#[derive(Debug)]
pub struct RawTable {
    pub name: String,
    pub columns: Vec<RawColumn>,
    pub date_range: Option<(String, String)>,
}

/// The column that a raw column makes.
pub open spec fn enriched_column(c: RawColumn) -> ColumnView {
    ColumnView {
        name: c.name@,
        data_type: c.data_type@,
        is_nullable: c.is_nullable@ == "YES"@,
        is_fk_candidate: refers(c.name@),
        referenced_table: reference_of(c.name@),
        sample_values: if worth_sampling(c.name@) {
            text::views(c.samples@)
        } else {
            Seq::empty()
        },
    }
}

/// The columns that raw columns make.
pub open spec fn enriched_columns(cs: Seq<RawColumn>) -> Seq<ColumnView> {
    Seq::new(cs.len(), |i: int| enriched_column(cs[i]))
}

/// What a catalogue of tables and their sizes holds.
pub open spec fn catalog_view(v: Seq<(String, i64)>) -> Seq<(Seq<char>, i64)> {
    Seq::new(v.len(), |i: int| (v[i].0@, v[i].1))
}

/// The names in a catalogue.
pub open spec fn catalog_names(c: Seq<(Seq<char>, i64)>) -> Seq<Seq<char>> {
    Seq::new(c.len(), |i: int| c[i].0)
}

/// The size that a catalogue has for a table: the last one that it names, or
/// minus one.
pub open spec fn size_of_table(c: Seq<(Seq<char>, i64)>, table: Seq<char>) -> i64
    decreases c.len(),
{
    if c.len() == 0 {
        (-1) as i64
    } else if c.last().0 == table {
        c.last().1
    } else {
        size_of_table(c.drop_last(), table)
    }
}

/// The names of `wanted`, in their order, that are among `known`.
pub open spec fn known_ones(wanted: Seq<Seq<char>>, known: Seq<Seq<char>>) -> Seq<Seq<char>>
    decreases wanted.len(),
{
    if wanted.len() == 0 {
        Seq::empty()
    } else if text::among(known, wanted.last()) {
        known_ones(wanted.drop_last(), known).push(wanted.last())
    } else {
        known_ones(wanted.drop_last(), known)
    }
}

/// The tables to look at: all of the catalogue, or those of the filter that the
/// catalogue has.
pub open spec fn targets(filter: Seq<Seq<char>>, c: Seq<(Seq<char>, i64)>) -> Seq<Seq<char>> {
    if filter.len() == 0 {
        catalog_names(c)
    } else {
        known_ones(filter, catalog_names(c))
    }
}

/// The references among the first `n` columns of a table to tables looked at.
pub open spec fn table_links(t: RawTable, targets: Seq<Seq<char>>, n: nat) -> Seq<Link>
    decreases n,
{
    if n == 0 {
        Seq::empty()
    } else {
        let front = table_links(t, targets, (n - 1) as nat);
        let column = t.columns@[n - 1].name@;
        match reference_of(column) {
            Some(to) => if text::among(targets, to) {
                front.push((t.name@, column, to))
            } else {
                front
            },
            None => front,
        }
    }
}

/// The references among the first `n` tables.
pub open spec fn all_links(ts: Seq<RawTable>, targets: Seq<Seq<char>>, n: nat) -> Seq<Link>
    decreases n,
{
    if n == 0 {
        Seq::empty()
    } else {
        all_links(ts, targets, (n - 1) as nat) + table_links(
            ts[n - 1],
            targets,
            ts[n - 1].columns@.len(),
        )
    }
}

/// The table that a raw table makes.
pub open spec fn enriched_table(t: RawTable, c: Seq<(Seq<char>, i64)>) -> TableView {
    TableView {
        table_name: t.name@,
        row_count: size_of_table(c, t.name@),
        column_count: t.columns@.len(),
        columns: enriched_columns(t.columns@),
        date_range: opt_range(t.date_range),
    }
}

/// The schema that a catalogue and the raw tables make.
pub open spec fn enriched_schema(
    filter: Seq<Seq<char>>,
    c: Seq<(Seq<char>, i64)>,
    ts: Seq<RawTable>,
) -> SchemaView {
    SchemaView {
        tables: Seq::new(ts.len(), |i: int| enriched_table(ts[i], c)),
        total_tables: targets(filter, c).len(),
        fk_relationships: all_links(ts, targets(filter, c), ts.len()),
    }
}

fn is_reference(column: &str) -> (r: bool)
    ensures
        r == refers(column@),
{
    text::ends_with(column, "_id") || text::has(column, "_id_") || text::ends_with(column, "_code")
}

/// The table that a column refers to, if its name marks it as a reference.
pub fn referenced_table(column: &str) -> (r: Option<String>)
    ensures
        json::opt_text(r) == reference_of(column@),
{
    if !is_reference(column) {
        return None;
    }
    let v = text::chars_of(column);
    let p = text::chars_of("_id");
    match text::rfind(&v, &p) {
        Some(i) => {
            let s = text::string_of(&v, 0, i);
            proof {
                assert(s@ == column@.take(i as int));
            }
            Some(s)
        },
        None => Some(text::trim_end_matches(column, "_code")),
    }
}

fn sampling_pays(column: &str) -> (r: bool)
    ensures
        r == worth_sampling(column@),
{
    is_reference(column) || text::has(column, "name") || text::has(column, "type")
}

fn holds_dates(column: &str) -> (r: bool)
    ensures
        r == dated(column@),
{
    text::has(column, "date") || text::has(column, "_at") || text::has(column, "time")
}

fn enrich_column(c: RawColumn) -> (r: EnrichedColumn)
    ensures
        r@ == enriched_column(c),
{
    let is_fk_candidate = is_reference(c.name.as_str());
    let referenced_table = referenced_table(c.name.as_str());
    let sample_values = if sampling_pays(c.name.as_str()) {
        c.samples
    } else {
        let none: Vec<String> = Vec::new();
        proof {
            assert(text::views(none@) == Seq::<Seq<char>>::empty());
        }
        none
    };
    EnrichedColumn {
        is_nullable: text::same(c.is_nullable.as_str(), "YES"),
        name: c.name,
        data_type: c.data_type,
        is_fk_candidate,
        referenced_table,
        sample_values,
    }
}

fn size_in(catalog: &Vec<(String, i64)>, table: &str) -> (r: i64)
    ensures
        r == size_of_table(catalog_view(catalog@), table@),
{
    let ghost all = catalog_view(catalog@);
    let mut n: usize = catalog.len();
    proof {
        assert(all.take(all.len() as int) == all);
    }
    while n > 0
        invariant
            all == catalog_view(catalog@),
            n <= catalog@.len(),
            size_of_table(all, table@) == size_of_table(all.take(n as int), table@),
        decreases n,
    {
        proof {
            assert(all.take(n as int).drop_last() == all.take(n - 1));
            assert(all.take(n as int).last() == (catalog@[n - 1].0@, catalog@[n - 1].1));
        }
        if text::same(catalog[n - 1].0.as_str(), table) {
            return catalog[n - 1].1;
        }
        n = n - 1;
    }
    -1
}

/// The first column, if any, that holds dates or times.
pub open spec fn first_dated(cs: Seq<Seq<char>>, i: int) -> Option<Seq<char>>
    decreases cs.len() - i,
{
    if i < 0 || i >= cs.len() {
        None
    } else if dated(cs[i]) {
        Some(cs[i])
    } else {
        first_dated(cs, i + 1)
    }
}

impl DbContext {
    /// The query for the tables of the warehouse and their estimated sizes, the
    /// largest first.
    pub fn catalog_query() -> (r: String)
        ensures
            r@
                == "SELECT table_name, estimated_size FROM duckdb_tables() WHERE schema_name='main' AND estimated_size >= 0 ORDER BY estimated_size DESC;"@,
    {
        "SELECT table_name, estimated_size FROM duckdb_tables() WHERE schema_name='main' AND estimated_size >= 0 ORDER BY estimated_size DESC;".to_owned()
    }

    /// The tables to look at: all of the catalogue, or those of the filter that
    /// the catalogue has.
    pub fn target_tables(filter: &Vec<String>, catalog: &Vec<(String, i64)>) -> (r: Vec<String>)
        ensures
            text::views(r@) == targets(text::views(filter@), catalog_view(catalog@)),
    {
        let ghost c = catalog_view(catalog@);
        let mut names: Vec<String> = Vec::new();
        let mut i: usize = 0;
        while i < catalog.len()
            invariant
                c == catalog_view(catalog@),
                i <= catalog@.len(),
                text::views(names@) == catalog_names(c).take(i as int),
            decreases catalog@.len() - i,
        {
            let ghost before = names@;
            let n = catalog[i].0.clone();
            names.push(n);
            proof {
                assert(text::views(names@) == text::views(before).push(n@));
                assert(catalog_names(c).take(i + 1) == catalog_names(c).take(i as int).push(n@));
            }
            i = i + 1;
        }
        proof {
            assert(catalog_names(c).take(i as int) == catalog_names(c));
        }
        if filter.len() == 0 {
            return names;
        }
        let ghost f = text::views(filter@);
        let mut out: Vec<String> = Vec::new();
        let mut k: usize = 0;
        proof {
            assert(text::views(out@) == known_ones(f.take(0), catalog_names(c)));
        }
        while k < filter.len()
            invariant
                f == text::views(filter@),
                k <= filter@.len(),
                text::views(names@) == catalog_names(c),
                text::views(out@) == known_ones(f.take(k as int), catalog_names(c)),
            decreases filter@.len() - k,
        {
            proof {
                assert(f.take(k + 1).drop_last() == f.take(k as int));
                assert(f.take(k + 1).last() == filter@[k as int]@);
            }
            if text::is_among(&names, filter[k].as_str()) {
                let ghost before = out@;
                let n = filter[k].clone();
                out.push(n);
                proof {
                    assert(text::views(out@) == text::views(before).push(n@));
                }
            }
            k = k + 1;
        }
        proof {
            assert(f.take(k as int) == f);
        }
        out
    }

    /// The query for a sample of a column's values, where its name makes that
    /// worth while.
    pub fn sample_values_query(table: &str, column: &str) -> (r: Option<String>)
        ensures
            json::opt_text(r) == if worth_sampling(column@) {
                Some(values_sampled(table@, column@))
            } else {
                None
            },
    {
        if !sampling_pays(column) {
            return None;
        }
        let mut s = "SELECT DISTINCT ".to_owned();
        s.append(quote_ident(column).as_str());
        s.append(" FROM ");
        s.append(quote_ident(table).as_str());
        s.append(" LIMIT 3;");
        Some(s)
    }

    /// The query for the dates that a table spans, by its first column that
    /// holds dates or times.
    pub fn date_range_query(table: &str, columns: &Vec<String>) -> (r: Option<String>)
        ensures
            json::opt_text(r) == match first_dated(text::views(columns@), 0) {
                Some(c) => Some(range_asked(table@, c)),
                None => None,
            },
    {
        let ghost all = text::views(columns@);
        let mut i: usize = 0;
        while i < columns.len()
            invariant
                all == text::views(columns@),
                i <= columns@.len(),
                first_dated(all, 0) == first_dated(all, i as int),
            decreases columns@.len() - i,
        {
            proof {
                assert(all[i as int] == columns@[i as int]@);
            }
            if holds_dates(columns[i].as_str()) {
                let mut s = "SELECT MIN(\"".to_owned();
                s.append(columns[i].as_str());
                s.append("\")::VARCHAR, MAX(\"");
                s.append(columns[i].as_str());
                s.append("\")::VARCHAR FROM ");
                s.append(quote_ident(table).as_str());
                s.append(";");
                return Some(s);
            }
            i = i + 1;
        }
        None
    }

    /// The schema that a catalogue and the raw tables make.
    pub fn build_enriched_schema(
        filter: &Vec<String>,
        catalog: &Vec<(String, i64)>,
        raw: Vec<RawTable>,
    ) -> (r: EnrichedSchema)
        ensures
            r@ == enriched_schema(text::views(filter@), catalog_view(catalog@), raw@),
    {
        let target = DbContext::target_tables(filter, catalog);
        let ghost c = catalog_view(catalog@);
        let ghost goal = text::views(target@);
        let ghost all = raw@;
        let ghost want = enriched_schema(text::views(filter@), c, all);
        let mut tables: Vec<EnrichedTable> = Vec::new();
        let mut links: Vec<(String, String, String)> = Vec::new();
        proof {
            assert(link_views(links@) == Seq::<Link>::empty());
        }
        for t in it: raw
            invariant
                it.seq() == all,
                c == catalog_view(catalog@),
                goal == text::views(target@),
                want.tables == Seq::new(all.len(), |i: int| enriched_table(all[i], c)),
                text::views(tables@) == want.tables.take(it.index() as int),
                link_views(links@) == all_links(all, goal, it.index() as nat),
        {
            let ghost k = it.index() as int;
            proof {
                assert(all[k] == t);
            }
            let count: i64 = size_in(catalog, t.name.as_str());
            let mut found = links_of(&t, &target);
            let ghost prior = links@;
            let ghost fresh = found@;
            links.append(&mut found);
            proof {
                assert(link_views(links@) == link_views(prior) + link_views(fresh));
            }
            let ghost raw_columns = t.columns@;
            let name = t.name;
            let date_range = t.date_range;
            let column_count: usize = t.columns.len();
            let columns = enrich_columns(t.columns);
            let table = EnrichedTable {
                table_name: name,
                row_count: count,
                column_count,
                columns,
                date_range,
            };
            let ghost before = tables@;
            tables.push(table);
            proof {
                assert(table@ =~= enriched_table(all[k], c));
                assert(text::views(tables@) == text::views(before).push(table@));
                assert(want.tables.take(k + 1) == want.tables.take(k).push(table@));
            }
        }
        let r = EnrichedSchema { total_tables: target.len(), tables, fk_relationships: links };
        proof {
            assert(want.tables.take(all.len() as int) == want.tables);
            assert(r@ =~= want);
        }
        r
    }
}

fn enrich_columns(cs: Vec<RawColumn>) -> (r: Vec<EnrichedColumn>)
    ensures
        text::views(r@) == enriched_columns(cs@),
{
    let ghost all = cs@;
    let ghost want = enriched_columns(all);
    let mut out: Vec<EnrichedColumn> = Vec::new();
    for c in it: cs
        invariant
            it.seq() == all,
            want == enriched_columns(all),
            text::views(out@) == want.take(it.index() as int),
    {
        let ghost k = it.index() as int;
        let ghost before = out@;
        let e = enrich_column(c);
        out.push(e);
        proof {
            assert(text::views(out@) == text::views(before).push(e@));
            assert(want.take(k + 1) == want.take(k).push(e@));
        }
    }
    proof {
        assert(want.take(all.len() as int) == want);
    }
    out
}

fn links_of(t: &RawTable, target: &Vec<String>) -> (r: Vec<(String, String, String)>)
    ensures
        link_views(r@) == table_links(*t, text::views(target@), t.columns@.len()),
{
    let ghost goal = text::views(target@);
    let mut out: Vec<(String, String, String)> = Vec::new();
    let mut i: usize = 0;
    proof {
        assert(link_views(out@) == Seq::<Link>::empty());
    }
    while i < t.columns.len()
        invariant
            goal == text::views(target@),
            i <= t.columns@.len(),
            link_views(out@) == table_links(*t, goal, i as nat),
        decreases t.columns@.len() - i,
    {
        match referenced_table(t.columns[i].name.as_str()) {
            Some(to) => {
                if text::is_among(target, to.as_str()) {
                    let ghost before = out@;
                    let ghost link = (t.name@, t.columns@[i as int].name@, to@);
                    out.push((t.name.clone(), t.columns[i].name.clone(), to));
                    proof {
                        assert(link_views(out@) == link_views(before).push(link));
                    }
                }
            },
            None => {},
        }
        i = i + 1;
    }
    out
}

proof fn lemma_known_ones(wanted: Seq<Seq<char>>, known: Seq<Seq<char>>)
    ensures
        forall|s: Seq<char>|
            #[trigger] text::among(known_ones(wanted, known), s) <==> text::among(wanted, s)
                && text::among(known, s),
    decreases wanted.len(),
{
    if wanted.len() > 0 {
        let front = wanted.drop_last();
        let last = wanted.last();
        let kept = known_ones(front, known);
        let all = known_ones(wanted, known);
        lemma_known_ones(front, known);
        assert forall|s: Seq<char>| #[trigger] text::among(all, s) implies text::among(wanted, s)
            && text::among(known, s) by {
            let i = choose|i: int| 0 <= i < all.len() && #[trigger] all[i] == s;
            if i < kept.len() {
                assert(kept[i] == s);
                assert(text::among(kept, s));
                let j = choose|j: int| 0 <= j < front.len() && #[trigger] front[j] == s;
                assert(wanted[j] == s);
            } else {
                assert(wanted[wanted.len() - 1] == s);
            }
        }
        assert forall|s: Seq<char>|
            text::among(wanted, s) && text::among(known, s) implies #[trigger] text::among(
            all,
            s,
        ) by {
            let j = choose|j: int| 0 <= j < wanted.len() && #[trigger] wanted[j] == s;
            if j < front.len() {
                assert(front[j] == s);
                assert(text::among(front, s));
                assert(text::among(kept, s));
                let i = choose|i: int| 0 <= i < kept.len() && #[trigger] kept[i] == s;
                assert(all[i] == s);
            } else {
                assert(all[all.len() - 1] == s);
            }
        }
    }
}

/// With a filter, exactly the tables are looked at that both the filter and the
/// catalogue name.
pub proof fn law_filter_selects(filter: Seq<Seq<char>>, c: Seq<(Seq<char>, i64)>, table: Seq<char>)
    requires
        filter.len() > 0,
    ensures
        text::among(targets(filter, c), table) <==> text::among(filter, table) && text::among(
            catalog_names(c),
            table,
        ),
{
    lemma_known_ones(filter, catalog_names(c));
}

/// Every relationship in a schema leads from a column whose name marks it as a
/// reference to a table that was looked at.
pub proof fn law_relationships_lead_to_known_tables(
    ts: Seq<RawTable>,
    goal: Seq<Seq<char>>,
    n: nat,
    i: int,
)
    requires
        n <= ts.len(),
        0 <= i < all_links(ts, goal, n).len(),
    ensures
        ({
            let l = all_links(ts, goal, n)[i];
            text::among(goal, l.2) && reference_of(l.1) == Some(l.2)
        }),
    decreases n,
{
    if n > 0 {
        let front = all_links(ts, goal, (n - 1) as nat);
        let t = ts[n - 1];
        if i < front.len() {
            law_relationships_lead_to_known_tables(ts, goal, (n - 1) as nat, i);
        } else {
            lemma_table_links(t, goal, t.columns@.len(), i - front.len());
        }
    }
}

proof fn lemma_table_links(t: RawTable, goal: Seq<Seq<char>>, n: nat, i: int)
    requires
        n <= t.columns@.len(),
        0 <= i < table_links(t, goal, n).len(),
    ensures
        ({
            let l = table_links(t, goal, n)[i];
            text::among(goal, l.2) && reference_of(l.1) == Some(l.2)
        }),
    decreases n,
{
    if n > 0 {
        let front = table_links(t, goal, (n - 1) as nat);
        if i < front.len() {
            lemma_table_links(t, goal, (n - 1) as nat, i);
        }
    }
}

// ---------------------------------------------------------------------------
// What the catalogue is for
// ---------------------------------------------------------------------------

/// Tables are listed by the pattern, any where there is none, and searched for the
/// keyword in lower case anywhere in their names or in those of their columns; the
/// columns of a table are those of that table, in their order.
pub proof fn law_the_catalogue_is_asked(x: Seq<char>)
    ensures
        tables_asked(Some(x)).param == x,
        tables_asked(None).param == "%"@,
        tables_searched(x).param == "%"@ + text::lowercase(x) + "%"@,
        columns_searched(x).param == "%"@ + text::lowercase(x) + "%"@,
        columns_asked(x).param == x,
        text::begins(
            tables_asked(Some(x)).sql,
            "SELECT table_name FROM information_schema.tables WHERE table_schema='main'"@,
        ),
        text::ends(
            tables_asked(Some(x)).sql,
            " AND table_name LIKE ? ORDER BY table_name LIMIT 100;"@,
        ),
        text::begins(
            tables_searched(x).sql,
            "SELECT table_name FROM information_schema.tables WHERE table_schema='main'"@,
        ),
        text::ends(
            tables_searched(x).sql,
            " AND lower(table_name) LIKE ? ORDER BY table_name LIMIT 30;"@,
        ),
        text::begins(
            columns_searched(x).sql,
            "SELECT table_name, column_name FROM information_schema.columns WHERE table_schema='main'"@,
        ),
        text::ends(
            columns_searched(x).sql,
            " AND lower(column_name) LIKE ? ORDER BY table_name, column_name LIMIT 50;"@,
        ),
        text::begins(
            columns_asked(x).sql,
            "SELECT column_name, data_type, is_nullable FROM information_schema.columns WHERE table_schema='main'"@,
        ),
        text::ends(columns_asked(x).sql, " AND table_name=? ORDER BY ordinal_position;"@),
{
    lemma_two_halves(
        "SELECT table_name FROM information_schema.tables WHERE table_schema='main'"@,
        " AND table_name LIKE ? ORDER BY table_name LIMIT 100;"@,
    );
    lemma_two_halves(
        "SELECT table_name FROM information_schema.tables WHERE table_schema='main'"@,
        " AND lower(table_name) LIKE ? ORDER BY table_name LIMIT 30;"@,
    );
    lemma_two_halves(
        "SELECT table_name, column_name FROM information_schema.columns WHERE table_schema='main'"@,
        " AND lower(column_name) LIKE ? ORDER BY table_name, column_name LIMIT 50;"@,
    );
    lemma_two_halves(
        "SELECT column_name, data_type, is_nullable FROM information_schema.columns WHERE table_schema='main'"@,
        " AND table_name=? ORDER BY ordinal_position;"@,
    );
}

proof fn lemma_two_halves(a: Seq<char>, b: Seq<char>)
    ensures
        text::begins(a + b, a),
        text::ends(a + b, b),
{
    assert((a + b).take(a.len() as int) =~= a);
    assert((a + b).skip(a.len() as int) =~= b);
}

/// Samples are of the table, three at a time, and of the column that is meant; a
/// range runs from the least to the greatest value of that column.
pub proof fn law_samples_are_of_what_is_named(table: Seq<char>, column: Seq<char>)
    ensures
        text::begins(rows_sampled(table), "SELECT * FROM "@ + ident(table)),
        text::ends(rows_sampled(table), " LIMIT 3;"@),
        text::begins(
            values_sampled(table, column),
            "SELECT DISTINCT "@ + ident(column) + " FROM "@ + ident(table),
        ),
        text::ends(values_sampled(table, column), " LIMIT 3;"@),
        text::begins(range_asked(table, column), "SELECT MIN(\""@ + column),
        text::contains(
            range_asked(table, column),
            "\")::VARCHAR, MAX(\""@ + column + "\")::VARCHAR FROM "@,
        ),
        text::ends(range_asked(table, column), ident(table) + ";"@),
{
    lemma_two_halves("SELECT * FROM "@ + ident(table), " LIMIT 3;"@);
    lemma_two_halves(
        "SELECT DISTINCT "@ + ident(column) + " FROM "@ + ident(table),
        " LIMIT 3;"@,
    );
    let a = "SELECT MIN(\""@ + column;
    let b = "\")::VARCHAR, MAX(\""@ + column + "\")::VARCHAR FROM "@;
    let c = ident(table) + ";"@;
    let q = range_asked(table, column);
    assert(q =~= a + b + c);
    text::lemma_middle(a, b, c);
    lemma_two_halves(a + b, c);
    lemma_two_halves(a, b + c);
    assert(a + b + c =~= a + (b + c));
}

proof fn lemma_commas_ignore_what_follows(d: Seq<char>, e: Seq<char>, n: nat)
    requires
        n <= d.len(),
        e.len() == d.len() + 3,
        e.take(d.len() as int) == d,
    ensures
        comma_digits(e, n) == comma_digits(d, n),
    decreases n,
{
    if n > 0 {
        lemma_commas_ignore_what_follows(d, e, (n - 1) as nat);
        assert(e[n - 1] == e.take(d.len() as int)[n - 1]);
        let x: int = d.len() - (n - 1);
        assert(e.len() - (n - 1) == x + 3);
        assert((x + 3) % 3 == x % 3);
    }
}

/// Thousands are set apart: a number below a thousand is in plain decimal, and any
/// other is that of its thousands, a comma, and its last three digits. A negative
/// one is a question mark.
pub proof fn law_thousands_are_set_apart(n: nat, less: int)
    ensures
        n < 1000 ==> comma_number(n as int) == text::dec(n),
        n >= 1000 ==> comma_number(n as int) == comma_number((n / 1000) as int) + seq![
            ',',
            (48 + n / 100 % 10) as u8 as char,
            (48 + n / 10 % 10) as u8 as char,
            (48 + n % 10) as u8 as char,
        ],
        less < 0 ==> comma_number(less) == "?"@,
{
    let e = text::dec(n);
    if n < 1000 {
        reveal_with_fuel(text::dec, 4);
        reveal_with_fuel(comma_digits, 4);
        assert(e.len() <= 3);
        assert(comma_digits(e, e.len()) =~= e);
    } else {
        let d = text::dec(n / 1000);
        let x = text::digit((n / 100 % 10) as int);
        let y = text::digit((n / 10 % 10) as int);
        let z = text::digit((n % 10) as int);
        assert(n / 10 / 10 == n / 100 && n / 100 / 10 == n / 1000);
        assert(text::dec(n) == text::dec(n / 10).push(z));
        assert(text::dec(n / 10) == text::dec(n / 100).push(y));
        assert(text::dec(n / 100) == text::dec(n / 1000).push(x));
        assert(e =~= d.push(x).push(y).push(z));
        text::lemma_dec_digits(n / 1000);
        let k = d.len();
        assert(e.take(k as int) =~= d);
        lemma_commas_ignore_what_follows(d, e, k);
        assert(comma_digits(e, k + 1) == comma_digits(e, k) + seq![',', x]);
        assert(comma_digits(e, k + 2) == comma_digits(e, k + 1) + seq![y]);
        assert(comma_digits(e, k + 3) == comma_digits(e, k + 2) + seq![z]);
        assert(comma_digits(e, k + 3) =~= comma_digits(d, k) + seq![',', x, y, z]);
        assert(x == (48 + n / 100 % 10) as u8 as char);
        assert(y == (48 + n / 10 % 10) as u8 as char);
        assert(z == (48 + n % 10) as u8 as char);
    }
}

/// A column whose name ends in `_id` refers to the table that stands before it, and
/// one that ends in `_code` to the one before that; a column whose name has neither
/// mark, nor an `_id_` inside, refers to none.
pub proof fn law_names_point_to_tables(table: Seq<char>, column: Seq<char>)
    ensures
        reference_of(table + "_id"@) == Some(table),
        !text::contains(table + "_code"@, "_id"@) && !text::ends(table, "_code"@) ==> reference_of(
            table + "_code"@,
        ) == Some(table),
        !text::ends(column, "_id"@) && !text::contains(column, "_id_"@) && !text::ends(
            column,
            "_code"@,
        ) ==> reference_of(column) is None,
        text::ends(column, "_id"@) || text::contains(column, "_id_"@) || text::ends(
            column,
            "_code"@,
        ) ==> reference_of(column) is Some,
{
    reveal_strlit("_id");
    reveal_strlit("_code");
    let c = table + "_id"@;
    lemma_two_halves(table, "_id"@);
    assert(c.subrange(table.len() as int, (table.len() + 3) as int) =~= "_id"@);
    assert(text::last_at(c, "_id"@, table.len() as int));
    text::lemma_last_unique(c, "_id"@, table.len() as int);
    assert(text::occurs_at(c, "_id"@, table.len() as int));
    assert(c.take(table.len() as int) =~= table);
    let k = table + "_code"@;
    lemma_two_halves(table, "_code"@);
    if !text::contains(k, "_id"@) && !text::ends(table, "_code"@) {
        text::law_trimmed_end_is_gone(table, "_code"@);
        assert(text::trim_end(table, "_code"@) == table);
    }
}

/// A column comes out with its own name and type, nullable exactly where the
/// catalogue says `YES`, with the table that its name points to, and with its sample
/// where it refers to a table or its name speaks of a name or a type.
pub proof fn law_columns_are_enriched(c: RawColumn)
    ensures
        enriched_column(c).name == c.name@,
        enriched_column(c).data_type == c.data_type@,
        enriched_column(c).is_nullable <==> c.is_nullable@ == "YES"@,
        enriched_column(c).is_fk_candidate <==> enriched_column(c).referenced_table is Some,
        enriched_column(c).referenced_table == reference_of(c.name@),
        enriched_column(c).is_fk_candidate || text::contains(c.name@, "name"@) || text::contains(
            c.name@,
            "type"@,
        ) ==> enriched_column(c).sample_values == text::views(c.samples@),
        !enriched_column(c).is_fk_candidate && !text::contains(c.name@, "name"@) && !text::contains(
            c.name@,
            "type"@,
        ) ==> enriched_column(c).sample_values.len() == 0,
{
}

/// The size of a table is the one that the catalogue names last for it, and minus
/// one where it names none.
pub proof fn law_sizes_are_those_of_the_catalogue(
    c: Seq<(Seq<char>, i64)>,
    table: Seq<char>,
    other: Seq<char>,
    n: i64,
)
    ensures
        size_of_table(c.push((table, n)), table) == n,
        other != table ==> size_of_table(c.push((other, n)), table) == size_of_table(c, table),
        size_of_table(Seq::empty(), table) == -1,
{
    assert(c.push((table, n)).drop_last() =~= c);
    assert(c.push((other, n)).drop_last() =~= c);
}

/// A table comes out with its own name, its size in the catalogue, all of its
/// columns in their order, and its own range of dates.
pub proof fn law_tables_are_enriched(t: RawTable, c: Seq<(Seq<char>, i64)>, i: int)
    ensures
        enriched_table(t, c).table_name == t.name@,
        enriched_table(t, c).row_count == size_of_table(c, t.name@),
        enriched_table(t, c).column_count == t.columns@.len(),
        enriched_table(t, c).columns.len() == t.columns@.len(),
        0 <= i < t.columns@.len() ==> enriched_table(t, c).columns[i] == enriched_column(
            t.columns@[i],
        ),
        t.date_range matches Some((a, b)) ==> enriched_table(t, c).date_range == Some((a@, b@)),
        t.date_range is None ==> enriched_table(t, c).date_range is None,
{
}

/// Without a filter all tables of the catalogue are looked at, in its order; with
/// one, those that the catalogue has, in the order of the filter. The schema has
/// every table that was read, in order, and counts those looked at.
pub proof fn law_schemas_have_every_table(
    filter: Seq<Seq<char>>,
    one: Seq<char>,
    c: Seq<(Seq<char>, i64)>,
    ts: Seq<RawTable>,
    i: int,
)
    ensures
        targets(Seq::empty(), c).len() == c.len(),
        0 <= i < c.len() ==> targets(Seq::empty(), c)[i] == c[i].0,
        filter.len() > 0 && text::among(catalog_names(c), one) ==> targets(filter.push(one), c)
            == targets(filter, c).push(one),
        filter.len() > 0 && !text::among(catalog_names(c), one) ==> targets(filter.push(one), c)
            == targets(filter, c),
        enriched_schema(filter, c, ts).tables.len() == ts.len(),
        0 <= i < ts.len() ==> enriched_schema(filter, c, ts).tables[i] == enriched_table(ts[i], c),
        enriched_schema(filter, c, ts).total_tables == targets(filter, c).len(),
        enriched_schema(filter, c, ts).fk_relationships == all_links(
            ts,
            targets(filter, c),
            ts.len(),
        ),
{
    assert(filter.push(one).drop_last() =~= filter);
}

proof fn lemma_link_in_table(t: RawTable, goal: Seq<Seq<char>>, n: nat, j: int) -> (at: int)
    requires
        0 <= j < n <= t.columns@.len(),
        reference_of(t.columns@[j].name@) is Some,
        text::among(goal, reference_of(t.columns@[j].name@)->0),
    ensures
        0 <= at < table_links(t, goal, n).len(),
        table_links(t, goal, n)[at] == (
            t.name@,
            t.columns@[j].name@,
            reference_of(t.columns@[j].name@)->0,
        ),
    decreases n,
{
    if j == n - 1 {
        table_links(t, goal, n).len() - 1
    } else {
        lemma_link_in_table(t, goal, (n - 1) as nat, j)
    }
}

/// Every column that refers to a table looked at is among the relationships, with
/// its table, its name, and the table that it refers to.
pub proof fn law_every_relationship_is_listed(
    ts: Seq<RawTable>,
    goal: Seq<Seq<char>>,
    n: nat,
    k: int,
    j: int,
) -> (at: int)
    requires
        0 <= k < n <= ts.len(),
        0 <= j < ts[k].columns@.len(),
        reference_of(ts[k].columns@[j].name@) is Some,
        text::among(goal, reference_of(ts[k].columns@[j].name@)->0),
    ensures
        0 <= at < all_links(ts, goal, n).len(),
        all_links(ts, goal, n)[at] == (
            ts[k].name@,
            ts[k].columns@[j].name@,
            reference_of(ts[k].columns@[j].name@)->0,
        ),
    decreases n,
{
    let front = all_links(ts, goal, (n - 1) as nat);
    if k == n - 1 {
        let at = lemma_link_in_table(ts[k], goal, ts[k].columns@.len(), j);
        front.len() + at
    } else {
        law_every_relationship_is_listed(ts, goal, (n - 1) as nat, k, j)
    }
}

/// The dates of a table are those of its first column whose name speaks of a date or
/// a time, or holds `_at`; a table without such a column has none.
pub proof fn law_dates_are_of_the_first_dated_column(cs: Seq<Seq<char>>, i: int, j: int)
    requires
        0 <= i <= cs.len(),
    ensures
        first_dated(cs, i) is None ==> (i <= j < cs.len() ==> !text::contains(cs[j], "date"@)
            && !text::contains(cs[j], "_at"@) && !text::contains(cs[j], "time"@)),
        i <= j < cs.len() && (text::contains(cs[j], "date"@) || text::contains(cs[j], "_at"@)
            || text::contains(cs[j], "time"@)) && (forall|k: int|
            i <= k < j ==> !text::contains(#[trigger] cs[k], "date"@) && !text::contains(
                cs[k],
                "_at"@,
            ) && !text::contains(cs[k], "time"@)) ==> first_dated(cs, i) == Some(cs[j]),
    decreases cs.len() - i,
{
    if i < cs.len() {
        law_dates_are_of_the_first_dated_column(cs, i + 1, j);
    }
}

/// Sample rows come out one for each row, each cell as a sample shows it, under its
/// column's name.
pub proof fn law_sample_rows_keep_their_cells(
    names: Seq<Seq<char>>,
    rows: Seq<Vec<Cell>>,
    i: int,
    j: int,
)
    requires
        0 <= i < rows.len(),
        0 <= j < names.len(),
        j < rows[i]@.len(),
        forall|k: int| j < k < names.len() ==> #[trigger] names[k] != names[j],
    ensures
        db::row_objects(names, sampled(rows)).len() == rows.len(),
        db::row_objects(names, sampled(rows))[i].get(names[j]) == Some(
            db::sample_value(rows[i]@[j]),
        ),
{
    db::law_row_holds_its_columns(names, db::sample_values(rows[i]@), j);
}

/// A column whose name holds `_id_` refers to the table that stands before the last
/// `_id` in it.
pub proof fn law_names_point_past_what_follows(table: Seq<char>, rest: Seq<char>)
    requires
        text::last_at(table + "_id_"@ + rest, "_id"@, table.len() as int),
    ensures
        reference_of(table + "_id_"@ + rest) == Some(table),
{
    let c = table + "_id_"@ + rest;
    text::lemma_middle(table, "_id_"@, rest);
    text::lemma_last_unique(c, "_id"@, table.len() as int);
    assert(text::occurs_at(c, "_id"@, table.len() as int));
    assert(c.take(table.len() as int) =~= table);
}

}
