//! What becomes of the database's reply to a tool.
use vstd::prelude::*;

use crate::agent::Agent;
use crate::db;
use crate::db::DbContext;
use crate::json;
use crate::json::Json;
use crate::json::JsonView;
use crate::sql;
use crate::text;
use crate::tools;
use crate::tools::Style;
use crate::tools::StyleView;
use crate::tools::ToolPlan;

verus! {

// ---------------------------------------------------------------------------
// Comma-separated values
// ---------------------------------------------------------------------------

/// The text cannot stand among comma-separated values as it is.
pub open spec fn needs_quotes(s: Seq<char>) -> bool {
    s.contains(',') || s.contains('"') || s.contains('\n')
}

/// A text among comma-separated values: between double quotes, with those in it
/// doubled, where it needs them.
pub open spec fn csv_cell(s: Seq<char>) -> Seq<char> {
    if needs_quotes(s) {
        "\""@ + text::replace(s, '"', "\"\""@) + "\""@
    } else {
        s
    }
}

/// A row's value among comma-separated values; empty where it has none.
pub open spec fn csv_value(row: JsonView, key: Seq<char>) -> Seq<char> {
    match row.get(key) {
        Some(v) => csv_cell(json::bare_text(v)),
        None => Seq::empty(),
    }
}

/// A row's values.
pub open spec fn csv_values(row: JsonView, keys: Seq<Seq<char>>) -> Seq<Seq<char>> {
    Seq::new(keys.len(), |i: int| csv_value(row, keys[i]))
}

/// The lines of the rows, each on a new line.
pub open spec fn csv_lines(rows: Seq<JsonView>, keys: Seq<Seq<char>>) -> Seq<Seq<char>> {
    Seq::new(rows.len(), |i: int| "\n"@ + text::join(csv_values(rows[i], keys), ","@))
}

/// Rows as comma-separated values, with the columns of the first row.
pub open spec fn csv_text(rows: Seq<JsonView>) -> Seq<char> {
    if rows.len() == 0 {
        "No rows returned"@
    } else {
        let keys = rows[0].keys();
        text::join(keys, ","@) + text::concat(csv_lines(rows, keys))
    }
}

/// A reader of comma-separated values gets each value back: one without quotes
/// holds no comma, quote or line break, and one with quotes reads as it was,
/// whatever it holds, before a comma or a line break.
pub proof fn law_csv_cell_reads_back(s: Seq<char>, rest: Seq<char>)
    requires
        rest.len() > 0 ==> rest[0] == ',' || rest[0] == '\n',
    ensures
        !needs_quotes(s) ==> csv_cell(s) == s,
        needs_quotes(s) ==> csv_cell(s)[0] == '"' && text::read_quoted(
            (csv_cell(s) + rest).skip(1),
            '"',
        ) == Some((s, rest)),
{
    if needs_quotes(s) {
        reveal_strlit("\"");
        reveal_strlit("\"\"");
        assert("\"\""@ =~= seq!['"', '"']);
        assert(csv_cell(s) =~= text::quoted(s, '"'));
        text::law_quoted_reads_back(s, '"', rest);
    }
}

fn has_char(s: &str, c: char) -> (r: bool)
    ensures
        r == s@.contains(c),
{
    let v = text::chars_of(s);
    let mut i: usize = 0;
    while i < v.len()
        invariant
            v@ == s@,
            i <= v@.len(),
            forall|k: int| 0 <= k < i ==> s@[k] != c,
        decreases v@.len() - i,
    {
        if v[i] == c {
            proof {
                assert(s@[i as int] == c);
            }
            return true;
        }
        i = i + 1;
    }
    false
}

/// A text among comma-separated values.
pub fn quote_cell(s: &str) -> (r: String)
    ensures
        r@ == csv_cell(s@),
{
    if has_char(s, ',') || has_char(s, '"') || has_char(s, '\n') {
        let mut q = "\"".to_owned();
        q.append(text::replace_char(s, '"', "\"\"").as_str());
        q.append("\"");
        q
    } else {
        s.to_owned()
    }
}

fn line_of_values(row: &Json, keys: &Vec<String>) -> (r: String)
    ensures
        r@ == "\n"@ + text::join(csv_values(row@, text::views(keys@)), ","@),
{
    let ghost want = csv_values(row@, text::views(keys@));
    let mut parts: Vec<String> = Vec::new();
    let mut i: usize = 0;
    while i < keys.len()
        invariant
            want == csv_values(row@, text::views(keys@)),
            i <= keys@.len(),
            text::views(parts@) == want.take(i as int),
        decreases keys@.len() - i,
    {
        let cell = match row.get(keys[i].as_str()) {
            Some(v) => quote_cell(json::bare(v).as_str()),
            None => String::new(),
        };
        let ghost before = parts@;
        parts.push(cell);
        proof {
            assert(text::views(parts@) == text::views(before).push(cell@));
            assert(want[i as int] == cell@);
            assert(want.take(i + 1) == want.take(i as int).push(cell@));
        }
        i = i + 1;
    }
    proof {
        assert(want.take(i as int) == want);
    }
    text::plus("\n".to_owned(), text::join_with(&parts, ",").as_str())
}

/// Rows as comma-separated values, with the columns of the first row.
pub fn rows_to_csv(rows: &Vec<Json>) -> (r: String)
    ensures
        r@ == csv_text(text::views(rows@)),
{
    if rows.len() == 0 {
        return "No rows returned".to_owned();
    }
    proof {
        assert(text::views(rows@)[0] == rows@[0]@);
    }
    let keys = rows[0].keys();
    let mut s = text::join_with(&keys, ",");
    let ghost head = s@;
    let ghost lines = csv_lines(text::views(rows@), text::views(keys@));
    let mut i: usize = 0;
    proof {
        text::lemma_concat_all(lines);
        assert(head + Seq::<char>::empty() == head);
    }
    while i < rows.len()
        invariant
            lines == csv_lines(text::views(rows@), text::views(keys@)),
            i <= rows@.len(),
            s@ == head + text::concat(lines.take(i as int)),
        decreases rows@.len() - i,
    {
        let line = line_of_values(&rows[i], &keys);
        proof {
            text::lemma_concat_next(lines, i as int);
            assert(lines[i as int] == line@);
            assert(head + (text::concat(lines.take(i as int)) + line@) == head + text::concat(
                lines.take(i as int),
            ) + line@);
        }
        s.append(line.as_str());
        i = i + 1;
    }
    s
}

// ---------------------------------------------------------------------------
// The reply in words
// ---------------------------------------------------------------------------

/// What the database replied to a tool.
#[derive(Debug)]
pub enum DbReply {
    Rows(Vec<Json>),
    Names(Vec<String>),
    /// A result that is text already.
    Text(String),
    Failed(String),
    Nothing,
}

/// What a reply holds.
pub enum ReplyView {
    Rows(Seq<JsonView>),
    Names(Seq<Seq<char>>),
    Text(Seq<char>),
    Failed(Seq<char>),
    Nothing,
}

impl View for DbReply {
    type V = ReplyView;

    open spec fn view(&self) -> ReplyView {
        match self {
            DbReply::Rows(v) => ReplyView::Rows(text::views(v@)),
            DbReply::Names(v) => ReplyView::Names(text::views(v@)),
            DbReply::Text(s) => ReplyView::Text(s@),
            DbReply::Failed(e) => ReplyView::Failed(e@),
            DbReply::Nothing => ReplyView::Nothing,
        }
    }
}

/// What stands before an error, by what was to become of the reply.
pub open spec fn error_label(style: StyleView) -> Seq<char> {
    match style {
        StyleView::Query => "SQL Error: "@,
        StyleView::Listing => "List Error: "@,
        StyleView::Search => "Search Error: "@,
        StyleView::Description => "Describe Error: "@,
        StyleView::Plan => "Explain Error: "@,
        StyleView::Chart { .. } => "Chart Query Error: "@,
        _ => "Error: "@,
    }
}

/// Rows for a chart, with its kind and its title.
pub open spec fn chart_json(
    chart_type: Seq<char>,
    title: Seq<char>,
    rows: Seq<JsonView>,
) -> JsonView {
    JsonView::Object(
        seq![
            ("chart_type"@, JsonView::Str(chart_type)),
            ("data_rows"@, JsonView::Array(rows)),
            ("title"@, JsonView::Str(title)),
        ],
    )
}

/// Names as a JSON array.
pub open spec fn names_json(names: Seq<Seq<char>>) -> JsonView {
    JsonView::Array(Seq::new(names.len(), |i: int| JsonView::Str(names[i])))
}

/// Rows in words, by what is to become of them.
pub open spec fn rows_text(style: StyleView, rows: Seq<JsonView>) -> Seq<char> {
    match style {
        StyleView::Chart { chart_type, title } => json::json_pretty(
            chart_json(chart_type, title, rows),
        ),
        StyleView::Csv => csv_text(rows),
        _ => json::json_pretty(JsonView::Array(rows)),
    }
}

/// The reply in words.
pub open spec fn reply_text(style: StyleView, reply: ReplyView) -> Seq<char> {
    match reply {
        ReplyView::Rows(rows) => rows_text(style, rows),
        ReplyView::Names(names) => json::json_pretty(names_json(names)),
        ReplyView::Text(s) => s,
        ReplyView::Failed(e) => error_label(style) + e,
        ReplyView::Nothing => Seq::empty(),
    }
}

/// The style keeps rows as a JSON array.
pub open spec fn plain_rows(style: StyleView) -> bool {
    !(style is Chart) && !(style is Csv)
}

fn label_of(style: &Style) -> (r: String)
    ensures
        r@ == error_label(style@),
{
    match style {
        Style::Query => "SQL Error: ".to_owned(),
        Style::Listing => "List Error: ".to_owned(),
        Style::Search => "Search Error: ".to_owned(),
        Style::Description => "Describe Error: ".to_owned(),
        Style::Plan => "Explain Error: ".to_owned(),
        Style::Chart { .. } => "Chart Query Error: ".to_owned(),
        _ => "Error: ".to_owned(),
    }
}

fn rows_in_words(style: &Style, rows: Vec<Json>) -> (r: String)
    ensures
        r@ == rows_text(style@, text::views(rows@)),
        plain_rows(style@) && json::flat_rows(text::views(rows@)) ==> json::reads_as(
            r@,
            rows@.len(),
        ),
{
    broadcast use json::group_json_views;

    match style {
        Style::Chart { chart_type, title } => {
            let mut p: Vec<(String, Json)> = Vec::new();
            let ghost data = text::views(rows@);
            p.push(("chart_type".to_owned(), Json::Str(chart_type.clone())));
            p.push(("data_rows".to_owned(), Json::Array(rows)));
            p.push(("title".to_owned(), Json::Str(title.clone())));
            proof {
                assert(json::pair_views(p@) =~= chart_json(
                    chart_type@,
                    title@,
                    data,
                )->Object_0);
            }
            Json::Object(p).to_pretty()
        },
        Style::Csv => rows_to_csv(&rows),
        _ => Json::Array(rows).to_pretty(),
    }
}

fn names_in_words(names: &Vec<String>) -> (r: String)
    ensures
        r@ == json::json_pretty(names_json(text::views(names@))),
{
    broadcast use json::group_json_views;

    let ghost want = names_json(text::views(names@))->Array_0;
    let mut v: Vec<Json> = Vec::new();
    let mut i: usize = 0;
    while i < names.len()
        invariant
            want == names_json(text::views(names@))->Array_0,
            i <= names@.len(),
            text::views(v@) == want.take(i as int),
        decreases names@.len() - i,
    {
        let j = Json::Str(names[i].clone());
        let ghost before = v@;
        v.push(j);
        proof {
            assert(text::views(v@) == text::views(before).push(j@));
            assert(want.take(i + 1) == want.take(i as int).push(j@));
        }
        i = i + 1;
    }
    proof {
        assert(want.take(i as int) == want);
    }
    Json::Array(v).to_pretty()
}

/// The reply in words.
pub fn reply_in_words(style: &Style, reply: DbReply) -> (r: String)
    ensures
        r@ == reply_text(style@, reply@),
        plain_rows(style@) ==> (reply@ matches ReplyView::Rows(rows) ==> (json::flat_rows(rows)
            ==> json::reads_as(r@, rows.len()))),
{
    match reply {
        DbReply::Rows(rows) => rows_in_words(style, rows),
        DbReply::Names(names) => names_in_words(&names),
        DbReply::Text(s) => s,
        DbReply::Failed(e) => text::plus(label_of(style), e.as_str()),
        DbReply::Nothing => String::new(),
    }
}

// ---------------------------------------------------------------------------
// Asking once more
// ---------------------------------------------------------------------------

/// What comes of the reply to a tool.
#[derive(Debug)]
pub enum ToolStep {
    /// The tool is done, with this result.
    Done(String),
    /// The query is asked once more with a column mended.
    Retry { error: String, fixed_query: String },
}

/// What a step holds.
pub enum StepView {
    Done(Seq<char>),
    Retry { error: Seq<char>, fixed_query: Seq<char> },
}

impl View for ToolStep {
    type V = StepView;

    open spec fn view(&self) -> StepView {
        match self {
            ToolStep::Done(s) => StepView::Done(s@),
            ToolStep::Retry { error, fixed_query } => StepView::Retry {
                error: error@,
                fixed_query: fixed_query@,
            },
        }
    }
}

/// The query that an error lets mend, where that comes to an end.
pub open spec fn mended(query: Seq<char>, error: Seq<char>) -> Option<Seq<char>> {
    if sql::fixable(query, error) {
        sql::fixed_sql(query, error)
    } else {
        None
    }
}

/// What comes of the reply to a planned tool: the model's own query is asked
/// once more where its error lets it be mended; all else is done.
pub open spec fn tool_step(plan: tools::PlanView, reply: ReplyView) -> StepView {
    if plan.style is Unknown {
        StepView::Done("Tool `"@ + plan.param_str + "` not supported."@)
    } else {
        match (plan.style, reply) {
            (StyleView::Query, ReplyView::Failed(e)) => match mended(plan.param_str, e) {
                Some(f) => StepView::Retry { error: e, fixed_query: f },
                None => StepView::Done(reply_text(plan.style, reply)),
            },
            _ => StepView::Done(reply_text(plan.style, reply)),
        }
    }
}

/// The result of a query that was asked once more.
pub open spec fn retry_text(error: Seq<char>, fixed: Seq<char>, reply: ReplyView) -> Seq<char> {
    match reply {
        ReplyView::Failed(e2) => "SQL Error (original): "@ + error + "\nAuto-fix attempt ("@ + fixed
            + "): "@ + e2,
        _ => "[Auto-corrected column name and retried successfully]\n"@ + reply_text(
            StyleView::Query,
            reply,
        ),
    }
}

// ---------------------------------------------------------------------------
// The result
// ---------------------------------------------------------------------------

/// The result of a tool.
#[derive(Debug)]
pub struct ToolResult {
    pub reasoning: String,
    pub param_str: String,
    pub result_str: String,
    pub elapsed_ms: u64,
    pub row_count: usize,
}

/// What a tool's result holds.
pub struct ResultView {
    pub reasoning: Seq<char>,
    pub param_str: Seq<char>,
    pub result_str: Seq<char>,
    pub elapsed_ms: u64,
    pub row_count: nat,
}

impl View for ToolResult {
    type V = ResultView;

    open spec fn view(&self) -> ResultView {
        ResultView {
            reasoning: self.reasoning@,
            param_str: self.param_str@,
            result_str: self.result_str@,
            elapsed_ms: self.elapsed_ms,
            row_count: self.row_count as nat,
        }
    }
}

/// How many rows a result tells of, where `rows` is what it reads as.
pub open spec fn rows_told(rows: Option<Seq<JsonView>>) -> nat {
    match rows {
        Some(v) => v.len(),
        None => 0,
    }
}

/// The result of a tool.
pub open spec fn tool_result(
    plan: tools::PlanView,
    result: Seq<char>,
    elapsed_ms: u64,
) -> ResultView {
    ResultView {
        reasoning: plan.reasoning,
        param_str: plan.param_str,
        result_str: result,
        elapsed_ms,
        row_count: rows_told(json::json_rows(result)),
    }
}

/// How many rows a result tells of, where `parsed` is what it reads as.
pub fn count_rows(parsed: &Option<Vec<Json>>) -> (r: usize)
    ensures
        r == rows_told(json::opt_rows(*parsed)),
{
    match parsed {
        Some(v) => v.len(),
        None => 0,
    }
}

impl Agent {
    /// What comes of the reply to a planned tool.
    pub fn tool_reply(plan: &ToolPlan, reply: DbReply) -> (r: ToolStep)
        ensures
            r@ == tool_step(plan@, reply@),
            plain_rows(plan@.style) && !(plan@.style is Unknown) ==> (reply@ matches ReplyView::Rows(
                rows,
            ) ==> (json::flat_rows(rows) ==> (r matches ToolStep::Done(s) && json::reads_as(
                s@,
                rows.len(),
            )))),
    {
        if let Style::Unknown = &plan.style {
            let mut s = "Tool `".to_owned();
            s.append(plan.param_str.as_str());
            s.append("` not supported.");
            return ToolStep::Done(s);
        }
        if let Style::Query = &plan.style {
            if let DbReply::Failed(e) = &reply {
                if let Some(f) = DbContext::mend_sql(plan.param_str.as_str(), e.as_str()) {
                    return ToolStep::Retry { error: e.clone(), fixed_query: f };
                }
            }
        }
        ToolStep::Done(reply_in_words(&plan.style, reply))
    }

    /// The result of a query that was asked once more.
    pub fn retry_reply(error: &str, fixed_query: &str, reply: DbReply) -> (r: String)
        ensures
            r@ == retry_text(error@, fixed_query@, reply@),
    {
        match reply {
            DbReply::Failed(e2) => {
                let mut s = "SQL Error (original): ".to_owned();
                s.append(error);
                s.append("\nAuto-fix attempt (");
                s.append(fixed_query);
                s.append("): ");
                s.append(e2.as_str());
                s
            },
            other => {
                let mut s = "[Auto-corrected column name and retried successfully]\n".to_owned();
                s.append(reply_in_words(&Style::Query, other).as_str());
                s
            },
        }
    }

    /// The result of a tool. A result that is an array of flat rows tells how
    /// many they are.
    pub fn finish_tool(plan: &ToolPlan, result_str: String, elapsed_ms: u64) -> (r: ToolResult)
        ensures
            r@ == tool_result(plan@, result_str@, elapsed_ms),
            r.result_str@ == result_str@,
            r.elapsed_ms == elapsed_ms,
    {
        let parsed = Json::rows_from_text(result_str.as_str());
        ToolResult {
            reasoning: plan.reasoning.clone(),
            param_str: plan.param_str.clone(),
            row_count: count_rows(&parsed),
            result_str,
            elapsed_ms,
        }
    }
}

/// A result that reads as an array of `n` elements tells of `n` rows.
pub proof fn law_row_count_is_told(plan: tools::PlanView, result: Seq<char>, ms: u64, n: nat)
    requires
        json::reads_as(result, n),
    ensures
        tool_result(plan, result, ms).row_count == n,
{
}

/// A refused or failed query of the model's own is asked again at most once:
/// what comes of the second reply is a result, and it tells of the first error
/// where the second failed too.
pub proof fn law_errors_are_told(error: Seq<char>, fixed: Seq<char>, e2: Seq<char>)
    ensures
        text::contains(retry_text(error, fixed, ReplyView::Failed(e2)), error),
        text::contains(retry_text(error, fixed, ReplyView::Failed(e2)), e2),
{
    let s = retry_text(error, fixed, ReplyView::Failed(e2));
    let a = "SQL Error (original): "@.len() as int;
    assert(s.subrange(a, a + error.len()) =~= error);
    assert(text::occurs_at(s, error, a));
    let b = s.len() - e2.len();
    assert(s.subrange(b, b + e2.len()) =~= e2);
    assert(text::occurs_at(s, e2, b));
}

/// A reply is told as it is: rows as the JSON array of those rows, each in its
/// place, names as the JSON array of those names, text as that text, and an error
/// behind what failed.
pub proof fn law_replies_are_told_as_they_are(
    style: StyleView,
    rows: Seq<JsonView>,
    names: Seq<Seq<char>>,
    s: Seq<char>,
    i: int,
)
    ensures
        !(style is Chart) && !(style is Csv) ==> reply_text(style, ReplyView::Rows(rows))
            == json::json_pretty(JsonView::Array(rows)),
        style is Csv ==> reply_text(style, ReplyView::Rows(rows)) == csv_text(rows),
        reply_text(style, ReplyView::Text(s)) == s,
        reply_text(style, ReplyView::Names(names)) == json::json_pretty(names_json(names)),
        names_json(names) matches JsonView::Array(v) && v.len() == names.len(),
        0 <= i < names.len() ==> names_json(names).nth(i) == JsonView::Str(names[i]),
        reply_text(style, ReplyView::Nothing).len() == 0,
        text::ends(reply_text(style, ReplyView::Failed(s)), s),
        style is Query ==> reply_text(style, ReplyView::Failed(s)) == "SQL Error: "@ + s,
        style is Listing ==> reply_text(style, ReplyView::Failed(s)) == "List Error: "@ + s,
        style is Search ==> reply_text(style, ReplyView::Failed(s)) == "Search Error: "@ + s,
        style is Description ==> reply_text(style, ReplyView::Failed(s)) == "Describe Error: "@ + s,
        style is Plan ==> reply_text(style, ReplyView::Failed(s)) == "Explain Error: "@ + s,
        style is Chart ==> reply_text(style, ReplyView::Failed(s)) == "Chart Query Error: "@ + s,
        style is Rows || style is Csv ==> reply_text(style, ReplyView::Failed(s)) == "Error: "@ + s,
{
    let label = error_label(style);
    text::law_beginnings_and_ends(s, s);
    assert(text::begins(s + label, s));
}

/// A chart carries its kind, its title and its rows.
pub proof fn law_charts_carry_their_rows(
    chart_type: Seq<char>,
    title: Seq<char>,
    rows: Seq<JsonView>,
)
    ensures
        chart_json(chart_type, title, rows).str_at("chart_type"@) == Some(chart_type),
        chart_json(chart_type, title, rows).str_at("title"@) == Some(title),
        chart_json(chart_type, title, rows).get("data_rows"@) == Some(JsonView::Array(rows)),
        rows_text(StyleView::Chart { chart_type, title }, rows) == json::json_pretty(
            chart_json(chart_type, title, rows),
        ),
{
    reveal_strlit("chart_type");
    reveal_strlit("data_rows");
    reveal_strlit("title");
    assert("chart_type"@.len() == 10 && "data_rows"@.len() == 9 && "title"@.len() == 5);
    let p = chart_json(chart_type, title, rows)->Object_0;
    json::law_objects_hold_their_pairs(p, 0, "chart_type"@);
    json::law_objects_hold_their_pairs(p, 1, "data_rows"@);
    json::law_objects_hold_their_pairs(p, 2, "title"@);
}

/// A download has the names of the columns and then one line for each row, with its
/// values under the columns of the first row, in their order; without rows it says
/// so. A value stands as it is unless it holds a comma, a quote or a line break.
pub proof fn law_downloads_have_a_line_for_each_row(
    rows: Seq<JsonView>,
    row: JsonView,
    keys: Seq<Seq<char>>,
    i: int,
    s: Seq<char>,
)
    ensures
        csv_text(Seq::empty()) == "No rows returned"@,
        csv_text(seq![row]) == text::join(row.keys(), ","@) + "\n"@ + text::join(
            csv_values(row, row.keys()),
            ","@,
        ),
        rows.len() > 0 ==> csv_text(rows.push(row)) == csv_text(rows) + "\n"@ + text::join(
            csv_values(row, rows[0].keys()),
            ","@,
        ),
        csv_values(row, keys).len() == keys.len(),
        0 <= i < keys.len() ==> (row.get(keys[i]) matches Some(v) ==> csv_values(row, keys)[i]
            == csv_cell(json::bare_text(v))),
        0 <= i < keys.len() && row.get(keys[i]) is None ==> csv_values(row, keys)[i].len() == 0,
        !s.contains(',') && !s.contains('"') && !s.contains('\n') ==> csv_cell(s) == s,
        s.contains(',') || s.contains('"') || s.contains('\n') ==> csv_cell(s) == text::quoted(
            s,
            '"',
        ),
{
    let one = seq![row];
    let ks = row.keys();
    let line = "\n"@ + text::join(csv_values(row, ks), ","@);
    let nothing = Seq::<Seq<char>>::empty();
    assert(csv_lines(one, ks) =~= seq![line]);
    text::law_joining_joins(nothing, nothing, line, ","@);
    assert(csv_text(one) =~= text::join(ks, ","@) + "\n"@ + text::join(
        csv_values(row, ks),
        ","@,
    ));
    if rows.len() > 0 {
        let all = rows.push(row);
        let k = rows[0].keys();
        let last = "\n"@ + text::join(csv_values(row, k), ","@);
        assert(all[0] == rows[0]);
        assert(csv_lines(all, k) =~= csv_lines(rows, k).push(last));
        assert(csv_lines(rows, k).push(last).drop_last() =~= csv_lines(rows, k));
        assert(csv_text(all) =~= csv_text(rows) + "\n"@ + text::join(csv_values(row, k), ","@));
    }
    reveal_strlit("\"");
    reveal_strlit("\"\"");
    assert("\"\""@ =~= seq!['"', '"']);
    if needs_quotes(s) {
        assert(csv_cell(s) =~= text::quoted(s, '"'));
    }
}

/// Only a failed query of the model's own is asked once more, with its column
/// mended, and only where its error lets it be; everything else is done with its
/// reply. A tool that does not exist is told so by its name.
pub proof fn law_only_own_queries_are_mended(plan: tools::PlanView, reply: ReplyView, e: Seq<char>)
    ensures
        plan.style is Unknown ==> (tool_step(plan, reply) matches StepView::Done(s)
            && text::contains(s, plan.param_str)),
        !(plan.style is Unknown) && (!(plan.style is Query) || !(reply is Failed)) ==> tool_step(
            plan,
            reply,
        ) == StepView::Done(reply_text(plan.style, reply)),
        plan.style is Query && reply == ReplyView::Failed(e) ==> ({
            let fixed = if sql::fixable(plan.param_str, e) {
                sql::fixed_sql(plan.param_str, e)
            } else {
                None
            };
            &&& fixed matches Some(f) ==> tool_step(plan, reply) == (StepView::Retry {
                error: e,
                fixed_query: f,
            })
            &&& fixed is None ==> tool_step(plan, reply) == StepView::Done("SQL Error: "@ + e)
        }),
{
    text::lemma_middle("Tool `"@, plan.param_str, "` not supported."@);
}

/// A query that was mended gives its own rows behind a note that it was mended;
/// where it failed again, both errors and the mended query are told.
pub proof fn law_mended_queries_give_their_rows(
    error: Seq<char>,
    fixed: Seq<char>,
    rows: Seq<JsonView>,
    e2: Seq<char>,
)
    ensures
        retry_text(error, fixed, ReplyView::Rows(rows))
            == "[Auto-corrected column name and retried successfully]\n"@ + json::json_pretty(
            JsonView::Array(rows),
        ),
        text::contains(retry_text(error, fixed, ReplyView::Failed(e2)), fixed),
        text::ends(retry_text(error, fixed, ReplyView::Failed(e2)), e2),
        text::begins(
            retry_text(error, fixed, ReplyView::Failed(e2)),
            "SQL Error (original): "@ + error,
        ),
{
    let a = "SQL Error (original): "@;
    let b = "\nAuto-fix attempt ("@;
    let c = "): "@;
    let s = a + error + b + fixed + c + e2;
    assert(s =~= (a + error + b) + fixed + (c + e2));
    text::lemma_middle(a + error + b, fixed, c + e2);
    text::law_beginnings_and_ends(s, e2);
    assert(text::begins(e2 + (a + error + b + fixed + c), e2));
    text::law_beginnings_and_ends(s, a + error);
    assert(s =~= (a + error) + (b + fixed + c + e2));
}

/// A tool's result is what the tool gave, with the plan's reason and parameters,
/// its time, and as many rows as it reads as, none where it reads as none.
pub proof fn law_results_are_what_the_tool_gave(
    plan: tools::PlanView,
    result: Seq<char>,
    ms: u64,
)
    ensures
        tool_result(plan, result, ms).result_str == result,
        tool_result(plan, result, ms).reasoning == plan.reasoning,
        tool_result(plan, result, ms).param_str == plan.param_str,
        tool_result(plan, result, ms).elapsed_ms == ms,
        json::json_rows(result) matches Some(rows) ==> tool_result(plan, result, ms).row_count
            == rows.len(),
        json::json_rows(result) is None ==> tool_result(plan, result, ms).row_count == 0,
{
}

/// What is said of a tool's result and of a reply is said of their fields.
pub proof fn law_results_carry_what_is_said_of_them(
    r: ToolResult,
    rows: Vec<Json>,
    s: String,
    i: int,
)
    ensures
        r@.reasoning == r.reasoning@,
        r@.param_str == r.param_str@,
        r@.result_str == r.result_str@,
        r@.elapsed_ms == r.elapsed_ms,
        r@.row_count == r.row_count,
        DbReply::Rows(rows)@ matches ReplyView::Rows(v) && v.len() == rows@.len() && (0 <= i
            < rows@.len() ==> v[i] == rows@[i]@),
        DbReply::Text(s)@ == ReplyView::Text(s@),
        DbReply::Failed(s)@ == ReplyView::Failed(s@),
        ToolStep::Done(s)@ == StepView::Done(s@),
{
}

}
