//! The tools that the model may call: what each asks of the database, and what
//! becomes of the reply.
use vstd::prelude::*;

use crate::agent::Agent;
use crate::db::DbContext;
use crate::json;
use crate::json::Json;
use crate::json::JsonView;
use crate::text;
use crate::tool_sql;

verus! {

// ---------------------------------------------------------------------------
// Before a tool runs
// ---------------------------------------------------------------------------

/// What is shown of a tool before it runs: why it runs, and what it runs on.
pub open spec fn start_fields(name: Seq<char>, args: JsonView) -> (Seq<char>, Seq<char>) {
    if name == "run_sql"@ {
        (
            args.str_or("reasoning"@, "Executing query"@),
            args.str_or("query"@, ""@),
        )
    } else if name == "list_tables"@ {
        (
            "Listing tables matching '"@ + args.str_or("pattern"@, "%"@) + "'"@,
            args.str_or("pattern"@, "%"@),
        )
    } else if name == "search_tables"@ {
        (
            "Searching tables matching '"@ + args.str_or("keyword"@, ""@) + "'"@,
            args.str_or("keyword"@, ""@),
        )
    } else if name == "describe_table"@ {
        (
            "Inspecting table `"@ + args.str_or("table_name"@, ""@) + "`"@,
            args.str_or("table_name"@, ""@),
        )
    } else if name == "explain_query"@ {
        (
            "Checking query plan for SQL"@,
            args.str_or("query"@, ""@),
        )
    } else if name == "generate_chart"@ {
        (
            "Generating "@ + args.str_or("chart_type"@, "bar"@) + " chart: '"@ + args.str_or("title"@, "NBA Stat Chart"@) + "'"@,
            args.str_or("sql_query"@, ""@),
        )
    } else if name == "compare_players"@ {
        (
            "Comparing "@ + args.str_or("player1"@, ""@) + " vs "@ + args.str_or("player2"@, ""@),
            json::json_text(args),
        )
    } else if name == "compare_teams"@ {
        (
            "Comparing "@ + args.str_or("team1"@, ""@) + " vs "@ + args.str_or("team2"@, ""@),
            json::json_text(args),
        )
    } else if name == "find_streaks"@ {
        (
            "Finding "@ + args.str_or("streak_type"@, "points"@) + " streaks for "@ + args.str_or("player_name"@, ""@),
            json::json_text(args),
        )
    } else if name == "get_player_profile"@ {
        (
            "Building profile for "@ + args.str_or("player_name"@, ""@),
            args.str_or("player_name"@, ""@),
        )
    } else if name == "rank_performance"@ {
        (
            "Ranking "@ + args.str_or("stat_name"@, ""@) + " across NBA history"@,
            json::json_text(args),
        )
    } else if name == "find_leaders"@ {
        (
            "Finding "@ + args.str_or("stat_name"@, ""@) + " leaders"@,
            json::json_text(args),
        )
    } else if name == "get_game_summary"@ {
        (
            "Summarizing game "@ + args.str_or("game_id"@, "unknown"@),
            json::json_text(args),
        )
    } else if name == "get_head_to_head"@ {
        (
            "H2H: "@ + args.str_or("team1"@, ""@) + " vs "@ + args.str_or("team2"@, ""@),
            json::json_text(args),
        )
    } else if name == "check_data_coverage"@ {
        (
            "Checking "@ + args.str_or("entity_type"@, ""@) + " coverage"@,
            json::json_text(args),
        )
    } else if name == "export_query_result"@ {
        (
            "Exporting query result"@,
            json::json_text(args),
        )
    } else if name == "era_adjusted_compare"@ {
        (
            "Era-adjusted compare: "@ + args.str_or("player1"@, ""@) + " vs "@ + args.str_or("player2"@, ""@),
            json::json_text(args),
        )
    } else if name == "game_reconstruction"@ {
        (
            "Reconstructing game "@ + args.str_or("game_id"@, "unknown"@),
            json::json_text(args),
        )
    } else if name == "expand_player_profile"@ {
        (
            "Full profile for "@ + args.str_or("player_name"@, ""@),
            args.str_or("player_name"@, ""@),
        )
    } else {
        ("Running "@ + name, json::json_text(args))
    }
}

/// What is shown of a tool before it runs: why it runs, and what it runs on.
pub fn args_to_tool_start_fields(name: &str, args: &Json) -> (r: (String, String))
    ensures
        (r.0@, r.1@) == start_fields(name@, args@),
{
    if text::same(name, "run_sql") {
        (args.text_or("reasoning", "Executing query"), args.text_or("query", ""))
    } else if text::same(name, "list_tables") {
        let mut s = "Listing tables matching '".to_owned();
        s.append(args.text_or("pattern", "%").as_str());
        s.append("'");
        (s, args.text_or("pattern", "%"))
    } else if text::same(name, "search_tables") {
        let mut s = "Searching tables matching '".to_owned();
        s.append(args.text_or("keyword", "").as_str());
        s.append("'");
        (s, args.text_or("keyword", ""))
    } else if text::same(name, "describe_table") {
        let mut s = "Inspecting table `".to_owned();
        s.append(args.text_or("table_name", "").as_str());
        s.append("`");
        (s, args.text_or("table_name", ""))
    } else if text::same(name, "explain_query") {
        ("Checking query plan for SQL".to_owned(), args.text_or("query", ""))
    } else if text::same(name, "generate_chart") {
        let mut s = "Generating ".to_owned();
        s.append(args.text_or("chart_type", "bar").as_str());
        s.append(" chart: '");
        s.append(args.text_or("title", "NBA Stat Chart").as_str());
        s.append("'");
        (s, args.text_or("sql_query", ""))
    } else if text::same(name, "compare_players") {
        let mut s = "Comparing ".to_owned();
        s.append(args.text_or("player1", "").as_str());
        s.append(" vs ");
        s.append(args.text_or("player2", "").as_str());
        (s, args.to_text())
    } else if text::same(name, "compare_teams") {
        let mut s = "Comparing ".to_owned();
        s.append(args.text_or("team1", "").as_str());
        s.append(" vs ");
        s.append(args.text_or("team2", "").as_str());
        (s, args.to_text())
    } else if text::same(name, "find_streaks") {
        let mut s = "Finding ".to_owned();
        s.append(args.text_or("streak_type", "points").as_str());
        s.append(" streaks for ");
        s.append(args.text_or("player_name", "").as_str());
        (s, args.to_text())
    } else if text::same(name, "get_player_profile") {
        let mut s = "Building profile for ".to_owned();
        s.append(args.text_or("player_name", "").as_str());
        (s, args.text_or("player_name", ""))
    } else if text::same(name, "rank_performance") {
        let mut s = "Ranking ".to_owned();
        s.append(args.text_or("stat_name", "").as_str());
        s.append(" across NBA history");
        (s, args.to_text())
    } else if text::same(name, "find_leaders") {
        let mut s = "Finding ".to_owned();
        s.append(args.text_or("stat_name", "").as_str());
        s.append(" leaders");
        (s, args.to_text())
    } else if text::same(name, "get_game_summary") {
        let mut s = "Summarizing game ".to_owned();
        s.append(args.text_or("game_id", "unknown").as_str());
        (s, args.to_text())
    } else if text::same(name, "get_head_to_head") {
        let mut s = "H2H: ".to_owned();
        s.append(args.text_or("team1", "").as_str());
        s.append(" vs ");
        s.append(args.text_or("team2", "").as_str());
        (s, args.to_text())
    } else if text::same(name, "check_data_coverage") {
        let mut s = "Checking ".to_owned();
        s.append(args.text_or("entity_type", "").as_str());
        s.append(" coverage");
        (s, args.to_text())
    } else if text::same(name, "export_query_result") {
        ("Exporting query result".to_owned(), args.to_text())
    } else if text::same(name, "era_adjusted_compare") {
        let mut s = "Era-adjusted compare: ".to_owned();
        s.append(args.text_or("player1", "").as_str());
        s.append(" vs ");
        s.append(args.text_or("player2", "").as_str());
        (s, args.to_text())
    } else if text::same(name, "game_reconstruction") {
        let mut s = "Reconstructing game ".to_owned();
        s.append(args.text_or("game_id", "unknown").as_str());
        (s, args.to_text())
    } else if text::same(name, "expand_player_profile") {
        let mut s = "Full profile for ".to_owned();
        s.append(args.text_or("player_name", "").as_str());
        (s, args.text_or("player_name", ""))
    } else {
        (text::plus("Running ".to_owned(), name), args.to_text())
    }
}

// ---------------------------------------------------------------------------
// What a tool asks of the database
// ---------------------------------------------------------------------------

/// What is asked of the database.
#[derive(Debug)]
pub enum DbRequest {
    Sql { query: String, max_rows: Option<usize> },
    ListTables { pattern: Option<String> },
    SearchTables { keyword: String },
    DescribeTable { table_name: String },
    Nothing,
}

/// What a request holds.
pub enum RequestView {
    Sql { query: Seq<char>, max_rows: Option<usize> },
    ListTables { pattern: Option<Seq<char>> },
    SearchTables { keyword: Seq<char> },
    DescribeTable { table_name: Seq<char> },
    Nothing,
}

impl View for DbRequest {
    type V = RequestView;

    open spec fn view(&self) -> RequestView {
        match self {
            DbRequest::Sql { query, max_rows } => RequestView::Sql {
                query: query@,
                max_rows: *max_rows,
            },
            DbRequest::ListTables { pattern } => RequestView::ListTables {
                pattern: json::opt_text(*pattern),
            },
            DbRequest::SearchTables { keyword } => RequestView::SearchTables { keyword: keyword@ },
            DbRequest::DescribeTable { table_name } => RequestView::DescribeTable {
                table_name: table_name@,
            },
            DbRequest::Nothing => RequestView::Nothing,
        }
    }
}

/// What becomes of the database's reply.
#[derive(Debug)]
pub enum Style {
    /// The rows of the model's own query, which may be mended and asked again.
    Query,
    /// Names of tables.
    Listing,
    /// What a search found.
    Search,
    /// What a table is like.
    Description,
    /// The plan of a query.
    Plan,
    /// Rows for a chart.
    Chart { chart_type: String, title: String },
    /// Rows.
    Rows,
    /// Rows as comma-separated values.
    Csv,
    /// The tool does not exist.
    Unknown,
}

/// What a style holds.
pub enum StyleView {
    Query,
    Listing,
    Search,
    Description,
    Plan,
    Chart { chart_type: Seq<char>, title: Seq<char> },
    Rows,
    Csv,
    Unknown,
}

impl View for Style {
    type V = StyleView;

    open spec fn view(&self) -> StyleView {
        match self {
            Style::Query => StyleView::Query,
            Style::Listing => StyleView::Listing,
            Style::Search => StyleView::Search,
            Style::Description => StyleView::Description,
            Style::Plan => StyleView::Plan,
            Style::Chart { chart_type, title } => StyleView::Chart {
                chart_type: chart_type@,
                title: title@,
            },
            Style::Rows => StyleView::Rows,
            Style::Csv => StyleView::Csv,
            Style::Unknown => StyleView::Unknown,
        }
    }
}

/// What a tool is about to do.
#[derive(Debug)]
pub struct ToolPlan {
    pub reasoning: String,
    pub param_str: String,
    pub request: DbRequest,
    pub style: Style,
}

/// What a plan holds.
pub struct PlanView {
    pub reasoning: Seq<char>,
    pub param_str: Seq<char>,
    pub request: RequestView,
    pub style: StyleView,
}

impl View for ToolPlan {
    type V = PlanView;

    open spec fn view(&self) -> PlanView {
        PlanView {
            reasoning: self.reasoning@,
            param_str: self.param_str@,
            request: self.request@,
            style: self.style@,
        }
    }
}

/// A plan that asks a query for rows and shows the query.
pub open spec fn sql_plan(reasoning: Seq<char>, query: Seq<char>, max_rows: usize) -> PlanView {
    PlanView {
        reasoning,
        param_str: query,
        request: RequestView::Sql { query, max_rows: Some(max_rows) },
        style: StyleView::Rows,
    }
}

fn plan_sql(reasoning: String, query: String, max_rows: usize) -> (r: ToolPlan)
    ensures
        r@ == sql_plan(reasoning@, query@, max_rows),
{
    ToolPlan {
        reasoning,
        param_str: query.clone(),
        request: DbRequest::Sql { query, max_rows: Some(max_rows) },
        style: Style::Rows,
    }
}

/// The condition on a season that the arguments name, behind `before`.
pub open spec fn season_filter(args: JsonView, before: Seq<char>) -> Seq<char> {
    tool_sql::condition(before, args.str_at("season"@), Seq::empty())
}

fn filter_on_season(args: &Json, before: &str) -> (r: String)
    ensures
        r@ == season_filter(args@, before@),
{
    proof {
        reveal_strlit("");
        assert(""@ =~= Seq::<char>::empty());
    }
    tool_sql::condition_on(before, &args.text_at("season"), "")
}

/// The condition that picks a game by its number, or else by its date.
pub open spec fn game_filter(args: JsonView, by_id: Seq<char>, by_date: Seq<char>) -> Seq<char> {
    let game_id = args.str_or("game_id"@, ""@);
    let game_date = args.str_or("game_date"@, ""@);
    if game_id.len() > 0 {
        by_id + tool_sql::literal(game_id) + " "@
    } else if game_date.len() > 0 {
        by_date + tool_sql::literal(game_date) + " "@
    } else {
        Seq::empty()
    }
}

fn filter_on_game(args: &Json, by_id: &str, by_date: &str) -> (r: String)
    ensures
        r@ == game_filter(args@, by_id@, by_date@),
{
    let game_id = args.text_or("game_id", "");
    let game_date = args.text_or("game_date", "");
    if !game_id.as_str().is_empty() {
        let mut s = by_id.to_owned();
        s.append(tool_sql::quote_literal(game_id.as_str()).as_str());
        s.append(" ");
        s
    } else if !game_date.as_str().is_empty() {
        let mut s = by_date.to_owned();
        s.append(tool_sql::quote_literal(game_date.as_str()).as_str());
        s.append(" ");
        s
    } else {
        String::new()
    }
}

/// The model's own query.
pub open spec fn run_sql_plan(args: JsonView) -> PlanView {
    PlanView {
        reasoning: args.str_or("reasoning"@, "Executing query"@),
        param_str: args.str_or("query"@, ""@),
        request: RequestView::Sql { query: args.str_or("query"@, ""@), max_rows: None },
        style: StyleView::Query,
    }
}

fn run_sql_planned(args: &Json) -> (r: ToolPlan)
    ensures
        r@ == run_sql_plan(args@),
{
    let query = args.text_or("query", "");
    ToolPlan {
        reasoning: args.text_or("reasoning", "Executing query"),
        param_str: query.clone(),
        request: DbRequest::Sql { query, max_rows: None },
        style: Style::Query,
    }
}

/// The names of tables that match a pattern.
pub open spec fn list_tables_plan(args: JsonView) -> PlanView {
    let shown = text::or_text(args.str_at("pattern"@), "%"@);
    PlanView {
        reasoning: "Listing tables matching '"@ + shown + "'"@,
        param_str: shown,
        request: RequestView::ListTables { pattern: args.str_at("pattern"@) },
        style: StyleView::Listing,
    }
}

fn list_tables_planned(args: &Json) -> (r: ToolPlan)
    ensures
        r@ == list_tables_plan(args@),
{
    let pattern = args.text_at("pattern");
    let shown = match &pattern {
        Some(p) => p.clone(),
        None => "%".to_owned(),
    };
    let mut reasoning = "Listing tables matching '".to_owned();
    reasoning.append(shown.as_str());
    reasoning.append("'");
    ToolPlan {
        reasoning,
        param_str: shown,
        request: DbRequest::ListTables { pattern },
        style: Style::Listing,
    }
}

/// The tables and columns whose names hold a keyword.
pub open spec fn search_tables_plan(args: JsonView) -> PlanView {
    let keyword = args.str_or("keyword"@, ""@);
    PlanView {
        reasoning: "Searching tables matching '"@ + keyword + "'"@,
        param_str: keyword,
        request: RequestView::SearchTables { keyword },
        style: StyleView::Search,
    }
}

fn search_tables_planned(args: &Json) -> (r: ToolPlan)
    ensures
        r@ == search_tables_plan(args@),
{
    let keyword = args.text_or("keyword", "");
    let mut reasoning = "Searching tables matching '".to_owned();
    reasoning.append(keyword.as_str());
    reasoning.append("'");
    ToolPlan {
        reasoning,
        param_str: keyword.clone(),
        request: DbRequest::SearchTables { keyword },
        style: Style::Search,
    }
}

/// What a table is like.
pub open spec fn describe_table_plan(args: JsonView) -> PlanView {
    let table_name = args.str_or("table_name"@, ""@);
    PlanView {
        reasoning: "Inspecting table `"@ + table_name + "`"@,
        param_str: table_name,
        request: RequestView::DescribeTable { table_name },
        style: StyleView::Description,
    }
}

fn describe_table_planned(args: &Json) -> (r: ToolPlan)
    ensures
        r@ == describe_table_plan(args@),
{
    let table_name = args.text_or("table_name", "");
    let mut reasoning = "Inspecting table `".to_owned();
    reasoning.append(table_name.as_str());
    reasoning.append("`");
    ToolPlan {
        reasoning,
        param_str: table_name.clone(),
        request: DbRequest::DescribeTable { table_name },
        style: Style::Description,
    }
}

/// The plan of a query.
pub open spec fn explain_query_plan(args: JsonView) -> PlanView {
    let query = args.str_or("query"@, ""@);
    PlanView {
        reasoning: "Checking query plan for SQL"@,
        param_str: query,
        request: RequestView::Sql { query: "EXPLAIN "@ + query, max_rows: Some(20) },
        style: StyleView::Plan,
    }
}

fn explain_query_planned(args: &Json) -> (r: ToolPlan)
    ensures
        r@ == explain_query_plan(args@),
{
    let query = args.text_or("query", "");
    let (explained, max_rows) = DbContext::explain_query(query.as_str());
    ToolPlan {
        reasoning: "Checking query plan for SQL".to_owned(),
        param_str: query,
        request: DbRequest::Sql { query: explained, max_rows },
        style: Style::Plan,
    }
}

/// Rows for a chart.
pub open spec fn generate_chart_plan(args: JsonView) -> PlanView {
    let chart_type = args.str_or("chart_type"@, "bar"@);
    let title = args.str_or("title"@, "NBA Stat Chart"@);
    let query = args.str_or("sql_query"@, ""@);
    PlanView {
        reasoning: "Generating "@ + chart_type + " chart: '"@ + title + "'"@,
        param_str: query,
        request: RequestView::Sql { query, max_rows: Some(30) },
        style: StyleView::Chart { chart_type, title },
    }
}

fn generate_chart_planned(args: &Json) -> (r: ToolPlan)
    ensures
        r@ == generate_chart_plan(args@),
{
    let chart_type = args.text_or("chart_type", "bar");
    let title = args.text_or("title", "NBA Stat Chart");
    let query = args.text_or("sql_query", "");
    let mut reasoning = "Generating ".to_owned();
    reasoning.append(chart_type.as_str());
    reasoning.append(" chart: '");
    reasoning.append(title.as_str());
    reasoning.append("'");
    ToolPlan {
        reasoning,
        param_str: query.clone(),
        request: DbRequest::Sql { query, max_rows: Some(30) },
        style: Style::Chart { chart_type, title },
    }
}

/// Two players side by side.
pub open spec fn compare_players_plan(args: JsonView) -> PlanView {
    let one = args.str_or("player1"@, ""@);
    let other = args.str_or("player2"@, ""@);
    sql_plan(
        "Comparing "@ + one + " vs "@ + other,
        tool_sql::players_compared(one, other, season_filter(args, " AND season_id = "@)),
        100,
    )
}

fn compare_players_planned(args: &Json) -> (r: ToolPlan)
    ensures
        r@ == compare_players_plan(args@),
{
    let one = args.text_or("player1", "");
    let other = args.text_or("player2", "");
    let filter = filter_on_season(args, " AND season_id = ");
    let mut reasoning = "Comparing ".to_owned();
    reasoning.append(one.as_str());
    reasoning.append(" vs ");
    reasoning.append(other.as_str());
    let query = tool_sql::players_compared_query(one.as_str(), other.as_str(), filter.as_str());
    plan_sql(reasoning, query, 100)
}

/// Two teams side by side.
pub open spec fn compare_teams_plan(args: JsonView) -> PlanView {
    let one = args.str_or("team1"@, ""@);
    let other = args.str_or("team2"@, ""@);
    sql_plan(
        "Comparing "@ + one + " vs "@ + other,
        tool_sql::teams_compared(one, other, season_filter(args, " AND season_id = "@)),
        100,
    )
}

fn compare_teams_planned(args: &Json) -> (r: ToolPlan)
    ensures
        r@ == compare_teams_plan(args@),
{
    let one = args.text_or("team1", "");
    let other = args.text_or("team2", "");
    let filter = filter_on_season(args, " AND season_id = ");
    let mut reasoning = "Comparing ".to_owned();
    reasoning.append(one.as_str());
    reasoning.append(" vs ");
    reasoning.append(other.as_str());
    let query = tool_sql::teams_compared_query(one.as_str(), other.as_str(), filter.as_str());
    plan_sql(reasoning, query, 100)
}

/// The threshold of a streak where none is given.
pub open spec fn streak_least(kind: Seq<char>) -> int {
    if kind == "30pt"@ || kind == "points"@ {
        30
    } else if kind == "10ast"@ || kind == "assists"@ || kind == "rebounds"@ {
        10
    } else {
        0
    }
}

/// The column that a streak counts.
pub open spec fn streak_column(kind: Seq<char>) -> Seq<char> {
    if kind == "30pt"@ || kind == "points"@ {
        "pts"@
    } else if kind == "10ast"@ || kind == "assists"@ {
        "ast"@
    } else if kind == "rebounds"@ {
        "reb"@
    } else if kind == "wins"@ {
        "wl"@
    } else {
        "pts"@
    }
}

fn least_of_streak(kind: &str) -> (r: i64)
    ensures
        r == streak_least(kind@),
{
    if text::same(kind, "30pt") || text::same(kind, "points") {
        30
    } else if text::same(kind, "10ast") || text::same(kind, "assists") || text::same(
        kind,
        "rebounds",
    ) {
        10
    } else {
        0
    }
}

fn column_of_streak(kind: &str) -> (r: String)
    ensures
        r@ == streak_column(kind@),
{
    if text::same(kind, "30pt") || text::same(kind, "points") {
        "pts".to_owned()
    } else if text::same(kind, "10ast") || text::same(kind, "assists") {
        "ast".to_owned()
    } else if text::same(kind, "rebounds") {
        "reb".to_owned()
    } else if text::same(kind, "wins") {
        "wl".to_owned()
    } else {
        "pts".to_owned()
    }
}

/// A player's longest streaks.
pub open spec fn find_streaks_plan(args: JsonView) -> PlanView {
    let player = args.str_or("player_name"@, ""@);
    let kind = args.str_or("streak_type"@, "points"@);
    let least = match args.at("min_value"@).signed() {
        Some(n) => n as int,
        None => streak_least(kind),
    };
    sql_plan(
        "Finding "@ + kind + " streaks for "@ + player + " (min "@ + text::dec_int(least)
            + ")"@,
        if kind == "wins"@ {
            tool_sql::win_streaks(player)
        } else {
            tool_sql::streaks(streak_column(kind), text::dec_int(least), player)
        },
        20,
    )
}

fn find_streaks_planned(args: &Json) -> (r: ToolPlan)
    ensures
        r@ == find_streaks_plan(args@),
{
    let player = args.text_or("player_name", "");
    let kind = args.text_or("streak_type", "points");
    let least: i64 = match args.at("min_value").as_int() {
        Some(n) => n,
        None => least_of_streak(kind.as_str()),
    };
    let threshold = text::int_text(least as i128);
    let mut reasoning = "Finding ".to_owned();
    reasoning.append(kind.as_str());
    reasoning.append(" streaks for ");
    reasoning.append(player.as_str());
    reasoning.append(" (min ");
    reasoning.append(threshold.as_str());
    reasoning.append(")");
    let query = if text::same(kind.as_str(), "wins") {
        tool_sql::win_streaks_query(player.as_str())
    } else {
        let column = column_of_streak(kind.as_str());
        tool_sql::streaks_query(column.as_str(), threshold.as_str(), player.as_str())
    };
    plan_sql(reasoning, query, 20)
}

/// A player's career and best seasons.
pub open spec fn get_player_profile_plan(args: JsonView) -> PlanView {
    let player = args.str_or("player_name"@, ""@);
    sql_plan("Building profile for "@ + player, tool_sql::profile(player), 20)
}

fn get_player_profile_planned(args: &Json) -> (r: ToolPlan)
    ensures
        r@ == get_player_profile_plan(args@),
{
    let player = args.text_or("player_name", "");
    let reasoning = text::plus("Building profile for ".to_owned(), player.as_str());
    plan_sql(reasoning, tool_sql::profile_query(player.as_str()), 20)
}

/// The column that a figure is ranked by.
pub open spec fn rank_column(stat: Seq<char>) -> Seq<char> {
    if stat == "rebounds"@ {
        "total_reb"@
    } else if stat == "assists"@ {
        "total_ast"@
    } else {
        "total_pts"@
    }
}

/// The games among which a figure is ranked.
pub open spec fn rank_filter(scope: Seq<char>, context: Seq<char>) -> Seq<char> {
    if scope == "franchise"@ {
        "WHERE team_name = "@ + tool_sql::literal(context) + " "@
    } else if scope == "season"@ {
        "WHERE season_id = "@ + tool_sql::literal(context) + " "@
    } else if scope == "career"@ {
        "WHERE player_name = "@ + tool_sql::literal(context) + " "@
    } else {
        Seq::empty()
    }
}

fn column_to_rank(stat: &str) -> (r: String)
    ensures
        r@ == rank_column(stat@),
{
    if text::same(stat, "rebounds") {
        "total_reb".to_owned()
    } else if text::same(stat, "assists") {
        "total_ast".to_owned()
    } else {
        "total_pts".to_owned()
    }
}

fn filter_of_rank(scope: &str, context: &str) -> (r: String)
    ensures
        r@ == rank_filter(scope@, context@),
{
    let mut s = if text::same(scope, "franchise") {
        "WHERE team_name = ".to_owned()
    } else if text::same(scope, "season") {
        "WHERE season_id = ".to_owned()
    } else if text::same(scope, "career") {
        "WHERE player_name = ".to_owned()
    } else {
        return String::new();
    };
    s.append(tool_sql::quote_literal(context).as_str());
    s.append(" ");
    s
}

/// Where a figure stands among all.
pub open spec fn rank_performance_plan(args: JsonView) -> PlanView {
    let stat = args.str_or("stat_name"@, "points"@);
    let value = text::or_text(args.at("value"@).float_display(), "0"@);
    let scope = args.str_or("scope"@, "nba_history"@);
    let context = args.str_or("context"@, ""@);
    sql_plan(
        "Ranking "@ + stat + " = "@ + value + " in "@ + scope + " ("@ + context + ")"@,
        tool_sql::ranked(rank_column(stat), "DESC"@, rank_filter(scope, context), value),
        20,
    )
}

fn rank_performance_planned(args: &Json) -> (r: ToolPlan)
    ensures
        r@ == rank_performance_plan(args@),
{
    let stat = args.text_or("stat_name", "points");
    let value = match args.at("value").float_display() {
        Some(v) => v,
        None => "0".to_owned(),
    };
    let scope = args.text_or("scope", "nba_history");
    let context = args.text_or("context", "");
    let mut reasoning = "Ranking ".to_owned();
    reasoning.append(stat.as_str());
    reasoning.append(" = ");
    reasoning.append(value.as_str());
    reasoning.append(" in ");
    reasoning.append(scope.as_str());
    reasoning.append(" (");
    reasoning.append(context.as_str());
    reasoning.append(")");
    let column = column_to_rank(stat.as_str());
    let filter = filter_of_rank(scope.as_str(), context.as_str());
    let query = tool_sql::ranked_query(
        column.as_str(),
        "DESC",
        filter.as_str(),
        value.as_str(),
    );
    plan_sql(reasoning, query, 20)
}

/// The column of a figure, and what its average is called.
pub open spec fn leader_column(stat: Seq<char>) -> (Seq<char>, Seq<char>) {
    if stat == "rebounds"@ {
        ("reb"@, "rpg"@)
    } else if stat == "assists"@ {
        ("ast"@, "apg"@)
    } else if stat == "threes"@ {
        ("fg3m"@, "\"3pg\""@)
    } else if stat == "steals"@ {
        ("stl"@, "spg"@)
    } else if stat == "blocks"@ {
        ("blk"@, "bpg"@)
    } else {
        ("pts"@, "ppg"@)
    }
}

fn column_to_lead(stat: &str) -> (r: (String, String))
    ensures
        (r.0@, r.1@) == leader_column(stat@),
{
    if text::same(stat, "rebounds") {
        ("reb".to_owned(), "rpg".to_owned())
    } else if text::same(stat, "assists") {
        ("ast".to_owned(), "apg".to_owned())
    } else if text::same(stat, "threes") {
        ("fg3m".to_owned(), "\"3pg\"".to_owned())
    } else if text::same(stat, "steals") {
        ("stl".to_owned(), "spg".to_owned())
    } else if text::same(stat, "blocks") {
        ("blk".to_owned(), "bpg".to_owned())
    } else {
        ("pts".to_owned(), "ppg".to_owned())
    }
}

/// The players who lead in a figure.
pub open spec fn find_leaders_plan(args: JsonView) -> PlanView {
    let stat = args.str_or("stat_name"@, "points"@);
    let limit = match args.at("limit"@).unsigned() {
        Some(n) => n as usize,
        None => 10,
    };
    sql_plan(
        "Finding "@ + stat + " leaders"@,
        tool_sql::leaders(
            leader_column(stat).0,
            leader_column(stat).1,
            season_filter(args, " AND season_id = "@),
            text::dec(limit as nat),
        ),
        limit,
    )
}

fn find_leaders_planned(args: &Json) -> (r: ToolPlan)
    ensures
        r@ == find_leaders_plan(args@),
{
    let stat = args.text_or("stat_name", "points");
    let limit: usize = match args.at("limit").as_uint() {
        Some(n) => n as usize,
        None => 10,
    };
    let mut reasoning = "Finding ".to_owned();
    reasoning.append(stat.as_str());
    reasoning.append(" leaders");
    let filter = filter_on_season(args, " AND season_id = ");
    let (column, label) = column_to_lead(stat.as_str());
    let query = tool_sql::leaders_query(
        column.as_str(),
        label.as_str(),
        filter.as_str(),
        text::nat_text(limit as u128).as_str(),
    );
    plan_sql(reasoning, query, limit)
}

/// The score of a game.
pub open spec fn get_game_summary_plan(args: JsonView) -> PlanView {
    sql_plan(
        "Summarizing game "@ + args.str_or("game_id"@, ""@) + " "@ + args.str_or("game_date"@, ""@),
        tool_sql::game_summarised(
            game_filter(args, "WHERE g.game_id = "@, "WHERE g.game_date = "@),
        ),
        10,
    )
}

fn get_game_summary_planned(args: &Json) -> (r: ToolPlan)
    ensures
        r@ == get_game_summary_plan(args@),
{
    let mut reasoning = "Summarizing game ".to_owned();
    reasoning.append(args.text_or("game_id", "").as_str());
    reasoning.append(" ");
    reasoning.append(args.text_or("game_date", "").as_str());
    let filter = filter_on_game(args, "WHERE g.game_id = ", "WHERE g.game_date = ");
    plan_sql(reasoning, tool_sql::game_summarised_query(filter.as_str()), 10)
}

/// The games between two teams.
pub open spec fn get_head_to_head_plan(args: JsonView) -> PlanView {
    let one = args.str_or("team1"@, ""@);
    let other = args.str_or("team2"@, ""@);
    sql_plan(
        "H2H: "@ + one + " vs "@ + other,
        tool_sql::head_to_head(one, other, season_filter(args, " AND g.season_id = "@)),
        20,
    )
}

fn get_head_to_head_planned(args: &Json) -> (r: ToolPlan)
    ensures
        r@ == get_head_to_head_plan(args@),
{
    let one = args.text_or("team1", "");
    let other = args.text_or("team2", "");
    let filter = filter_on_season(args, " AND g.season_id = ");
    let mut reasoning = "H2H: ".to_owned();
    reasoning.append(one.as_str());
    reasoning.append(" vs ");
    reasoning.append(other.as_str());
    let query = tool_sql::head_to_head_query(one.as_str(), other.as_str(), filter.as_str());
    plan_sql(reasoning, query, 20)
}

/// How much is known of something.
pub open spec fn check_data_coverage_plan(args: JsonView) -> PlanView {
    let kind = args.str_or("entity_type"@, "player"@);
    let name = args.str_or("entity_name"@, ""@);
    sql_plan(
        "Checking "@ + kind + " coverage for "@ + name,
        if kind == "player"@ {
            tool_sql::player_covered(name)
        } else if kind == "team"@ {
            tool_sql::team_covered(name)
        } else if kind == "season"@ {
            tool_sql::season_covered(name)
        } else if kind == "table"@ {
            tool_sql::table_covered(name)
        } else {
            "SELECT 'unknown' as table_name, 0 as row_count"@
        },
        10,
    )
}

fn check_data_coverage_planned(args: &Json) -> (r: ToolPlan)
    ensures
        r@ == check_data_coverage_plan(args@),
{
    let kind = args.text_or("entity_type", "player");
    let name = args.text_or("entity_name", "");
    let mut reasoning = "Checking ".to_owned();
    reasoning.append(kind.as_str());
    reasoning.append(" coverage for ");
    reasoning.append(name.as_str());
    let query = if text::same(kind.as_str(), "player") {
        tool_sql::player_covered_query(name.as_str())
    } else if text::same(kind.as_str(), "team") {
        tool_sql::team_covered_query(name.as_str())
    } else if text::same(kind.as_str(), "season") {
        tool_sql::season_covered_query(name.as_str())
    } else if text::same(kind.as_str(), "table") {
        tool_sql::table_covered_query(name.as_str())
    } else {
        "SELECT 'unknown' as table_name, 0 as row_count".to_owned()
    };
    plan_sql(reasoning, query, 10)
}

/// The rows of a query, for download.
pub open spec fn export_query_result_plan(args: JsonView) -> PlanView {
    let query = args.str_or("query"@, ""@);
    let format = args.str_or("format"@, "csv"@);
    PlanView {
        reasoning: "Exporting query result as "@ + format,
        param_str: query,
        request: RequestView::Sql { query, max_rows: Some(500) },
        style: if format == "csv"@ {
            StyleView::Csv
        } else {
            StyleView::Rows
        },
    }
}

fn export_query_result_planned(args: &Json) -> (r: ToolPlan)
    ensures
        r@ == export_query_result_plan(args@),
{
    let query = args.text_or("query", "");
    let format = args.text_or("format", "csv");
    ToolPlan {
        reasoning: text::plus("Exporting query result as ".to_owned(), format.as_str()),
        param_str: query.clone(),
        request: DbRequest::Sql { query, max_rows: Some(500) },
        style: if text::same(format.as_str(), "csv") {
            Style::Csv
        } else {
            Style::Rows
        },
    }
}

/// Two players against the league of their seasons.
pub open spec fn era_adjusted_compare_plan(args: JsonView) -> PlanView {
    let one = args.str_or("player1"@, ""@);
    let other = args.str_or("player2"@, ""@);
    let metric = args.str_or("metric"@, "points_per_game"@);
    sql_plan(
        "Era-adjusted compare: "@ + one + " vs "@ + other + " ("@ + metric + ")"@,
        tool_sql::eras_compared(one, other),
        100,
    )
}

fn era_adjusted_compare_planned(args: &Json) -> (r: ToolPlan)
    ensures
        r@ == era_adjusted_compare_plan(args@),
{
    let one = args.text_or("player1", "");
    let other = args.text_or("player2", "");
    let metric = args.text_or("metric", "points_per_game");
    let mut reasoning = "Era-adjusted compare: ".to_owned();
    reasoning.append(one.as_str());
    reasoning.append(" vs ");
    reasoning.append(other.as_str());
    reasoning.append(" (");
    reasoning.append(metric.as_str());
    reasoning.append(")");
    plan_sql(reasoning, tool_sql::eras_compared_query(one.as_str(), other.as_str()), 100)
}

/// The course of a game.
pub open spec fn game_reconstruction_plan(args: JsonView) -> PlanView {
    sql_plan(
        "Reconstructing game "@ + args.str_or("game_id"@, ""@) + " "@ + args.str_or("game_date"@, ""@),
        tool_sql::game_replayed(
            game_filter(args, "WHERE pbp.game_id = "@, "WHERE pbp.game_date = "@),
        ),
        200,
    )
}

fn game_reconstruction_planned(args: &Json) -> (r: ToolPlan)
    ensures
        r@ == game_reconstruction_plan(args@),
{
    let mut reasoning = "Reconstructing game ".to_owned();
    reasoning.append(args.text_or("game_id", "").as_str());
    reasoning.append(" ");
    reasoning.append(args.text_or("game_date", "").as_str());
    let filter = filter_on_game(args, "WHERE pbp.game_id = ", "WHERE pbp.game_date = ");
    plan_sql(reasoning, tool_sql::game_replayed_query(filter.as_str()), 200)
}

/// A player's career, best seasons and playoffs.
pub open spec fn expand_player_profile_plan(args: JsonView) -> PlanView {
    let player = args.str_or("player_name"@, ""@);
    sql_plan("Full profile for "@ + player, tool_sql::profile_in_full(player), 30)
}

fn expand_player_profile_planned(args: &Json) -> (r: ToolPlan)
    ensures
        r@ == expand_player_profile_plan(args@),
{
    let player = args.text_or("player_name", "");
    let reasoning = text::plus("Full profile for ".to_owned(), player.as_str());
    plan_sql(reasoning, tool_sql::profile_in_full_query(player.as_str()), 30)
}

/// What the tool `name` is about to do with the arguments.
pub open spec fn tool_plan(name: Seq<char>, args: JsonView) -> PlanView {
    if name == "run_sql"@ {
        run_sql_plan(args)
    } else if name == "list_tables"@ {
        list_tables_plan(args)
    } else if name == "search_tables"@ {
        search_tables_plan(args)
    } else if name == "describe_table"@ {
        describe_table_plan(args)
    } else if name == "explain_query"@ {
        explain_query_plan(args)
    } else if name == "generate_chart"@ {
        generate_chart_plan(args)
    } else if name == "compare_players"@ {
        compare_players_plan(args)
    } else if name == "compare_teams"@ {
        compare_teams_plan(args)
    } else if name == "find_streaks"@ {
        find_streaks_plan(args)
    } else if name == "get_player_profile"@ {
        get_player_profile_plan(args)
    } else if name == "rank_performance"@ {
        rank_performance_plan(args)
    } else if name == "find_leaders"@ {
        find_leaders_plan(args)
    } else if name == "get_game_summary"@ {
        get_game_summary_plan(args)
    } else if name == "get_head_to_head"@ {
        get_head_to_head_plan(args)
    } else if name == "check_data_coverage"@ {
        check_data_coverage_plan(args)
    } else if name == "export_query_result"@ {
        export_query_result_plan(args)
    } else if name == "era_adjusted_compare"@ {
        era_adjusted_compare_plan(args)
    } else if name == "game_reconstruction"@ {
        game_reconstruction_plan(args)
    } else if name == "expand_player_profile"@ {
        expand_player_profile_plan(args)
    } else {
        PlanView {
            reasoning: "Unknown tool"@,
            param_str: name,
            request: RequestView::Nothing,
            style: StyleView::Unknown,
        }
    }
}

impl Agent {
    /// What the tool `name` is about to do with the arguments.
    pub fn plan_tool(name: &str, args: &Json) -> (r: ToolPlan)
        ensures
            r@ == tool_plan(name@, args@),
    {
        if text::same(name, "run_sql") {
            run_sql_planned(args)
        } else if text::same(name, "list_tables") {
            list_tables_planned(args)
        } else if text::same(name, "search_tables") {
            search_tables_planned(args)
        } else if text::same(name, "describe_table") {
            describe_table_planned(args)
        } else if text::same(name, "explain_query") {
            explain_query_planned(args)
        } else if text::same(name, "generate_chart") {
            generate_chart_planned(args)
        } else if text::same(name, "compare_players") {
            compare_players_planned(args)
        } else if text::same(name, "compare_teams") {
            compare_teams_planned(args)
        } else if text::same(name, "find_streaks") {
            find_streaks_planned(args)
        } else if text::same(name, "get_player_profile") {
            get_player_profile_planned(args)
        } else if text::same(name, "rank_performance") {
            rank_performance_planned(args)
        } else if text::same(name, "find_leaders") {
            find_leaders_planned(args)
        } else if text::same(name, "get_game_summary") {
            get_game_summary_planned(args)
        } else if text::same(name, "get_head_to_head") {
            get_head_to_head_planned(args)
        } else if text::same(name, "check_data_coverage") {
            check_data_coverage_planned(args)
        } else if text::same(name, "export_query_result") {
            export_query_result_planned(args)
        } else if text::same(name, "era_adjusted_compare") {
            era_adjusted_compare_planned(args)
        } else if text::same(name, "game_reconstruction") {
            game_reconstruction_planned(args)
        } else if text::same(name, "expand_player_profile") {
            expand_player_profile_planned(args)
        } else {
            ToolPlan {
                reasoning: "Unknown tool".to_owned(),
                param_str: name.to_owned(),
                request: DbRequest::Nothing,
                style: Style::Unknown,
            }
        }
    }

    /// Doubles the single quotes in a text, so that it can stand between single
    /// quotes in SQL.
    pub fn sql_safe(s: &str) -> (r: String)
        ensures
            r@ == text::replace(s@, '\'', "''"@),
            tool_sql::literal(s@) == "'"@ + r@ + "'"@,
    {
        text::replace_char(s, '\'', "''")
    }
}

/// A tool is announced as it is planned: those that explore the warehouse show
/// the same reason and the same parameters, those that look at given players or
/// teams show the same reason.
pub proof fn law_announced_as_planned(name: Seq<char>, args: JsonView)
    ensures
        name == "run_sql"@ || name == "list_tables"@ || name == "search_tables"@ || name
            == "describe_table"@ || name == "explain_query"@ || name == "generate_chart"@ ==> (
        start_fields(name, args) == (
            tool_plan(name, args).reasoning,
            tool_plan(name, args).param_str,
        )),
        name == "compare_players"@ || name == "compare_teams"@ || name == "get_player_profile"@
            || name == "get_head_to_head"@ || name == "expand_player_profile"@ ==> start_fields(
            name,
            args,
        ).0 == tool_plan(name, args).reasoning,
{
    reveal_strlit("get_player_profile");
    reveal_strlit("get_head_to_head");
    reveal_strlit("expand_player_profile");
    reveal_strlit("find_streaks");
    reveal_strlit("rank_performance");
    reveal_strlit("find_leaders");
    reveal_strlit("get_game_summary");
    reveal_strlit("check_data_coverage");
    reveal_strlit("export_query_result");
    reveal_strlit("era_adjusted_compare");
    reveal_strlit("game_reconstruction");
    assert("get_head_to_head"@[0] != "rank_performance"@[0]);
    assert("get_head_to_head"@[4] != "get_game_summary"@[4]);
}

// ---------------------------------------------------------------------------
// What the tools are for
// ---------------------------------------------------------------------------

/// The names of the tools differ in their lengths, or else in a character.
pub proof fn lemma_names_of_tools()
    ensures
        "run_sql"@.len() == 7,
        "list_tables"@.len() == 11,
        "search_tables"@.len() == 13,
        "describe_table"@.len() == 14,
        "explain_query"@.len() == 13,
        "generate_chart"@.len() == 14,
        "compare_players"@.len() == 15,
        "compare_teams"@.len() == 13,
        "find_streaks"@.len() == 12,
        "get_player_profile"@.len() == 18,
        "rank_performance"@.len() == 16,
        "find_leaders"@.len() == 12,
        "get_game_summary"@.len() == 16,
        "get_head_to_head"@.len() == 16,
        "check_data_coverage"@.len() == 19,
        "export_query_result"@.len() == 19,
        "era_adjusted_compare"@.len() == 20,
        "game_reconstruction"@.len() == 19,
        "expand_player_profile"@.len() == 21,
        "search_tables"@[0] != "explain_query"@[0],
        "search_tables"@[0] != "compare_teams"@[0],
        "describe_table"@[0] != "generate_chart"@[0],
        "explain_query"@[0] != "compare_teams"@[0],
        "find_streaks"@[5] != "find_leaders"@[5],
        "rank_performance"@[0] != "get_game_summary"@[0],
        "rank_performance"@[0] != "get_head_to_head"@[0],
        "get_game_summary"@[4] != "get_head_to_head"@[4],
        "check_data_coverage"@[0] != "export_query_result"@[0],
        "check_data_coverage"@[0] != "game_reconstruction"@[0],
        "export_query_result"@[0] != "game_reconstruction"@[0],
{
    reveal_strlit("run_sql");
    reveal_strlit("list_tables");
    reveal_strlit("search_tables");
    reveal_strlit("describe_table");
    reveal_strlit("explain_query");
    reveal_strlit("generate_chart");
    reveal_strlit("compare_players");
    reveal_strlit("compare_teams");
    reveal_strlit("find_streaks");
    reveal_strlit("get_player_profile");
    reveal_strlit("rank_performance");
    reveal_strlit("find_leaders");
    reveal_strlit("get_game_summary");
    reveal_strlit("get_head_to_head");
    reveal_strlit("check_data_coverage");
    reveal_strlit("export_query_result");
    reveal_strlit("era_adjusted_compare");
    reveal_strlit("game_reconstruction");
    reveal_strlit("expand_player_profile");
}

/// A query of the model's own, or for a chart or a download, is asked as the model
/// wrote it, each under its own cap; its plan is asked for with the query behind
/// `EXPLAIN`.
pub proof fn law_own_queries_are_asked_as_written(args: JsonView, q: Seq<char>)
    ensures
        args.str_at("query"@) == Some(q) ==> {
            &&& tool_plan("run_sql"@, args).request matches RequestView::Sql { query, max_rows }
                && query == q && max_rows is None
            &&& tool_plan("run_sql"@, args).param_str == q
            &&& tool_plan("run_sql"@, args).style is Query
            &&& tool_plan("explain_query"@, args).request matches RequestView::Sql {
                query,
                max_rows,
            } && query == "EXPLAIN "@ + q && max_rows == Some(20usize)
            &&& tool_plan("explain_query"@, args).param_str == q
            &&& tool_plan("explain_query"@, args).style is Plan
            &&& tool_plan("export_query_result"@, args).request matches RequestView::Sql {
                query,
                max_rows,
            } && query == q && max_rows == Some(500usize)
            &&& tool_plan("export_query_result"@, args).param_str == q
        },
        args.str_at("reasoning"@) matches Some(why) ==> tool_plan("run_sql"@, args).reasoning
            == why,
        args.str_at("format"@) is None || args.str_at("format"@) == Some("csv"@) ==> tool_plan(
            "export_query_result"@,
            args,
        ).style is Csv,
        args.str_at("format"@) matches Some(f) ==> (f != "csv"@ ==> tool_plan(
            "export_query_result"@,
            args,
        ).style is Rows),
        args.str_at("sql_query"@) == Some(q) ==> {
            &&& tool_plan("generate_chart"@, args).request matches RequestView::Sql {
                query,
                max_rows,
            } && query == q && max_rows == Some(30usize)
            &&& tool_plan("generate_chart"@, args).param_str == q
        },
        ({
            let style = tool_plan("generate_chart"@, args).style;
            &&& style is Chart
            &&& args.str_at("chart_type"@) matches Some(t) ==> style->chart_type == t
            &&& args.str_at("chart_type"@) is None ==> style->chart_type == "bar"@
            &&& args.str_at("title"@) matches Some(t) ==> style->title == t
            &&& args.str_at("title"@) is None ==> style->title == "NBA Stat Chart"@
        }),
{
    lemma_names_of_tools();
}

/// Tables are listed by the model's pattern, searched for its keyword, and
/// described by the name it gives; a tool that does not exist asks nothing and
/// says so.
pub proof fn law_tables_are_looked_up_as_asked(args: JsonView, x: Seq<char>, name: Seq<char>)
    ensures
        tool_plan("list_tables"@, args).request matches RequestView::ListTables { pattern }
            && pattern == args.str_at("pattern"@),
        tool_plan("list_tables"@, args).style is Listing,
        args.str_at("keyword"@) == Some(x) ==> (tool_plan(
            "search_tables"@,
            args,
        ).request matches RequestView::SearchTables { keyword } && keyword == x),
        tool_plan("search_tables"@, args).style is Search,
        args.str_at("table_name"@) == Some(x) ==> (tool_plan(
            "describe_table"@,
            args,
        ).request matches RequestView::DescribeTable { table_name } && table_name == x),
        tool_plan("describe_table"@, args).style is Description,
        name != "run_sql"@ && name != "list_tables"@ && name != "search_tables"@
            && name != "describe_table"@ && name != "explain_query"@ && name != "generate_chart"@
            && name != "compare_players"@ && name != "compare_teams"@ && name != "find_streaks"@
            && name != "get_player_profile"@ && name != "rank_performance"@
            && name != "find_leaders"@ && name != "get_game_summary"@
            && name != "get_head_to_head"@ && name != "check_data_coverage"@
            && name != "export_query_result"@ && name != "era_adjusted_compare"@
            && name != "game_reconstruction"@
            && name != "expand_player_profile"@ ==> tool_plan(name, args).request is Nothing
            && tool_plan(
            name,
            args,
        ).style is Unknown && tool_plan(name, args).param_str == name,
{
    lemma_names_of_tools();
}

/// A season that the model names is the condition, as SQL writes the text; without
/// one there is no condition.
pub proof fn law_seasons_filter(args: JsonView, before: Seq<char>)
    ensures
        args.str_at("season"@) matches Some(x) ==> season_filter(args, before) == before
            + tool_sql::literal(x),
        args.str_at("season"@) is None ==> season_filter(args, before).len() == 0,
        forall|x: Seq<char>, behind: Seq<char>|
            #![trigger tool_sql::condition(before, Some(x), behind)]
            tool_sql::condition(before, Some(x), behind) == before + tool_sql::literal(x) + behind,
{
    if args.str_at("season"@) is Some {
        let x = args.str_at("season"@)->0;
        assert(before + tool_sql::literal(x) + Seq::<char>::empty() =~= before + tool_sql::literal(
            x,
        ));
    }
}

/// A game is picked by its number where the model gives one, else by its date, else
/// not at all.
pub proof fn law_games_are_picked_by_number_or_date(
    args: JsonView,
    by_id: Seq<char>,
    by_date: Seq<char>,
)
    ensures
        ({
            let id = args.str_or("game_id"@, ""@);
            let date = args.str_or("game_date"@, ""@);
            &&& id.len() > 0 ==> game_filter(args, by_id, by_date) == by_id + tool_sql::literal(id)
                + " "@
            &&& id.len() == 0 && date.len() > 0 ==> game_filter(args, by_id, by_date) == by_date
                + tool_sql::literal(date) + " "@
            &&& id.len() == 0 && date.len() == 0 ==> game_filter(args, by_id, by_date).len() == 0
        }),
{
}

/// The plan asks this query for rows, at most so many, and shows it.
pub open spec fn asks_for(p: PlanView, query: Seq<char>, max_rows: usize) -> bool {
    &&& p.request matches RequestView::Sql { query: q, max_rows: n } && q == query && n == Some(
        max_rows,
    )
    &&& p.param_str == query
    &&& p.style is Rows
}

/// Two players are compared with each other, in the order in which the model names
/// them, in the season that it names, and so across eras.
pub proof fn law_comparisons_compare_the_two(args: JsonView, one: Seq<char>, other: Seq<char>)
    requires
        args.str_or("player1"@, ""@) == one,
        args.str_or("player2"@, ""@) == other,
    ensures
        asks_for(
            tool_plan("compare_players"@, args),
            tool_sql::players_compared(
                one,
                other,
                season_filter(args, " AND season_id = "@),
            ),
            100,
        ),
        asks_for(
            tool_plan("era_adjusted_compare"@, args),
            tool_sql::eras_compared(one, other),
            100,
        ),
{
    lemma_names_of_tools();
}

/// Two teams are compared with each other, and looked up against each other, in the
/// order in which the model names them, in the season that it names.
pub proof fn law_teams_meet_each_other(args: JsonView, one: Seq<char>, other: Seq<char>)
    requires
        args.str_or("team1"@, ""@) == one,
        args.str_or("team2"@, ""@) == other,
    ensures
        asks_for(
            tool_plan("compare_teams"@, args),
            tool_sql::teams_compared(
                one,
                other,
                season_filter(args, " AND season_id = "@),
            ),
            100,
        ),
        asks_for(
            tool_plan("get_head_to_head"@, args),
            tool_sql::head_to_head(
                one,
                other,
                season_filter(args, " AND g.season_id = "@),
            ),
            20,
        ),
{
    lemma_names_of_tools();
}

/// A player is profiled by the name that the model gives.
pub proof fn law_profiles_are_of_the_player(args: JsonView, player: Seq<char>)
    requires
        args.str_or("player_name"@, ""@) == player,
    ensures
        asks_for(
            tool_plan("get_player_profile"@, args),
            tool_sql::profile(player),
            20,
        ),
        asks_for(
            tool_plan("expand_player_profile"@, args),
            tool_sql::profile_in_full(player),
            30,
        ),
{
    lemma_names_of_tools();
}

/// A game is summarised, and told play by play, by its number or its date.
pub proof fn law_games_are_those_picked(args: JsonView)
    ensures
        asks_for(
            tool_plan("get_game_summary"@, args),
            tool_sql::game_summarised(
                game_filter(args, "WHERE g.game_id = "@, "WHERE g.game_date = "@),
            ),
            10,
        ),
        asks_for(
            tool_plan("game_reconstruction"@, args),
            tool_sql::game_replayed(
                game_filter(args, "WHERE pbp.game_id = "@, "WHERE pbp.game_date = "@),
            ),
            200,
        ),
{
    lemma_names_of_tools();
}

proof fn lemma_stats()
    ensures
        "rebounds"@.len() == 8,
        "assists"@.len() == 7,
        "threes"@.len() == 6,
        "steals"@.len() == 6,
        "blocks"@.len() == 6,
        "points"@.len() == 6,
        "threes"@[0] != "steals"@[0],
        "threes"@[0] != "blocks"@[0],
        "threes"@[0] != "points"@[0],
        "steals"@[0] != "blocks"@[0],
        "steals"@[0] != "points"@[0],
        "blocks"@[0] != "points"@[0],
        "wins"@.len() == 4,
        "30pt"@.len() == 4,
        "wins"@[0] != "30pt"@[0],
        "10ast"@.len() == 5,
{
    reveal_strlit("rebounds");
    reveal_strlit("assists");
    reveal_strlit("threes");
    reveal_strlit("steals");
    reveal_strlit("blocks");
    reveal_strlit("points");
    reveal_strlit("wins");
    reveal_strlit("30pt");
    reveal_strlit("10ast");
}

/// The query averages the column under this label and puts the highest first.
pub open spec fn leads_by(query: Seq<char>, column: Seq<char>, label: Seq<char>) -> bool {
    &&& text::begins(query, "SELECT player_name, ROUND(AVG("@ + column + "),1) as "@ + label)
    &&& text::contains(query, " ORDER BY "@ + label + " DESC LIMIT "@)
}

proof fn lemma_leads_by(column: Seq<char>, label: Seq<char>, filter: Seq<char>, limit: Seq<char>)
    ensures
        leads_by(tool_sql::leaders(column, label, filter, limit), column, label),
        text::contains(tool_sql::leaders(column, label, filter, limit), " DESC LIMIT "@ + limit),
        text::contains(
            tool_sql::leaders(column, label, filter, limit),
            " FROM player_game_stats WHERE 1=1"@ + filter,
        ),
{
    let q = tool_sql::leaders(column, label, filter, limit);
    tool_sql::law_leaders_asks(column, label, filter, limit);
    lemma_parts_of_end(q, " ORDER BY "@, label, " DESC LIMIT "@, limit);
}

proof fn lemma_parts_of_end(q: Seq<char>, a: Seq<char>, b: Seq<char>, c: Seq<char>, d: Seq<char>)
    requires
        text::ends(q, a + b + c + d),
    ensures
        text::contains(q, a + b + c),
        text::contains(q, c + d),
{
    let tail = a + b + c + d;
    let front = q.take(q.len() - tail.len());
    assert(q =~= front + tail);
    assert(text::contains(q, a + b + c)) by {
        let f = a + b + c;
        assert(front + (f + d) =~= front + f + d);
        text::lemma_middle(front, f, d);
    }
    assert(text::contains(q, c + d)) by {
        let g = c + d;
        let before = front + (a + b);
        assert(tail =~= (a + b) + g);
        assert(front + ((a + b) + g) =~= before + g + Seq::<char>::empty());
        text::lemma_middle(before, g, Seq::empty());
    }
}

/// Leaders lead in what they are asked for: each figure by the average of its own
/// column under its own label, points where no other figure is named, in the season
/// that the model names and as many as it asks for, ten where it does not say.
pub proof fn law_leaders_lead_in_their_figure(args: JsonView)
    ensures
        ({
            let p = tool_plan("find_leaders"@, args);
            let stat = args.str_at("stat_name"@);
            let query = p.request->query;
            &&& p.request is Sql
            &&& p.param_str == query
            &&& p.style is Rows
            &&& stat == Some("rebounds"@) ==> leads_by(query, "reb"@, "rpg"@)
            &&& stat == Some("assists"@) ==> leads_by(query, "ast"@, "apg"@)
            &&& stat == Some("threes"@) ==> leads_by(query, "fg3m"@, "\"3pg\""@)
            &&& stat == Some("steals"@) ==> leads_by(query, "stl"@, "spg"@)
            &&& stat == Some("blocks"@) ==> leads_by(query, "blk"@, "bpg"@)
            &&& stat != Some("rebounds"@) && stat != Some("assists"@) && stat != Some("threes"@)
                && stat != Some("steals"@) && stat != Some("blocks"@) ==> leads_by(
                query,
                "pts"@,
                "ppg"@,
            )
            &&& args.str_at("season"@) matches Some(x) ==> text::contains(
                query,
                " FROM player_game_stats WHERE 1=1"@ + (" AND season_id = "@ + tool_sql::literal(
                    x,
                )),
            )
        }),
        args.at("limit"@).unsigned() matches Some(n) ==> (n <= usize::MAX ==> {
            let p = tool_plan("find_leaders"@, args);
            &&& p.request->max_rows == Some(n as usize)
            &&& text::contains(p.request->query, " DESC LIMIT "@ + text::dec(n as nat))
        }),
        args.at("limit"@).unsigned() is None ==> ({
            let p = tool_plan("find_leaders"@, args);
            &&& p.request->max_rows == Some(10usize)
            &&& text::contains(p.request->query, " DESC LIMIT "@ + text::dec(10))
        }),
{
    lemma_names_of_tools();
    lemma_stats();
    let stat = args.str_or("stat_name"@, "points"@);
    let filter = season_filter(args, " AND season_id = "@);
    let limit = match args.at("limit"@).unsigned() {
        Some(n) => n as usize,
        None => 10,
    };
    law_seasons_filter(args, " AND season_id = "@);
    lemma_leads_by(leader_column(stat).0, leader_column(stat).1, filter, text::dec(limit as nat));
}

/// A figure is ranked by the total of its own column, points where no other is
/// named, the highest first, among the games of the scope, and against the value.
pub proof fn law_rankings_rank_their_figure(args: JsonView)
    ensures
        ({
            let p = tool_plan("rank_performance"@, args);
            let stat = args.str_at("stat_name"@);
            let column = if stat == Some("rebounds"@) {
                "total_reb"@
            } else if stat == Some("assists"@) {
                "total_ast"@
            } else {
                "total_pts"@
            };
            let scope = args.str_or("scope"@, "nba_history"@);
            let named = tool_sql::literal(args.str_or("context"@, ""@));
            let among = if scope == "franchise"@ {
                "WHERE team_name = "@ + named + " "@
            } else if scope == "season"@ {
                "WHERE season_id = "@ + named + " "@
            } else if scope == "career"@ {
                "WHERE player_name = "@ + named + " "@
            } else {
                Seq::empty()
            };
            let value = match args.at("value"@).float_display() {
                Some(v) => v,
                None => "0"@,
            };
            let query = p.request->query;
            &&& p.request is Sql
            &&& p.request->max_rows == Some(20usize)
            &&& p.param_str == query
            &&& p.style is Rows
            &&& text::contains(query, ", SUM("@ + column + ") as stat_val"@)
            &&& text::contains(
                query,
                ", ROW_NUMBER() OVER (ORDER BY SUM("@ + column + ") "@ + "DESC"@ + ") as rank"@,
            )
            &&& text::contains(
                query,
                " FROM player_game_stats "@ + among + " GROUP BY player_name )"@,
            )
            &&& text::contains(query, " SELECT * FROM ranked WHERE stat_val <= "@ + value)
        }),
{
    lemma_names_of_tools();
    lemma_stats();
    let stat = args.str_or("stat_name"@, "points"@);
    let value = text::or_text(args.at("value"@).float_display(), "0"@);
    let scope = args.str_or("scope"@, "nba_history"@);
    let context = args.str_or("context"@, ""@);
    tool_sql::law_ranked_asks(rank_column(stat), "DESC"@, rank_filter(scope, context), value);
}

/// Streaks are of the figure that they are named after, of the player, and from the
/// value that the model gives on; where it gives none, from thirty points, or ten
/// assists or rebounds. Winning streaks are of games won.
pub proof fn law_streaks_are_of_their_figure(args: JsonView)
    ensures
        ({
            let p = tool_plan("find_streaks"@, args);
            let kind = args.str_or("streak_type"@, "points"@);
            let player = args.str_or("player_name"@, ""@);
            let query = p.request->query;
            let given = args.at("min_value"@).signed();
            &&& p.request is Sql
            &&& p.request->max_rows == Some(20usize)
            &&& p.param_str == query
            &&& p.style is Rows
            &&& text::contains(
                query,
                " FROM player_game_stats WHERE player_name = "@ + tool_sql::literal(player),
            )
            &&& kind == "wins"@ ==> text::contains(
                query,
                ", CASE WHEN team_score > opp_score THEN 1 ELSE 0 END as won"@,
            )
            &&& kind == "points"@ || kind == "30pt"@ ==> counts_from(
                query,
                "pts"@,
                match given {
                    Some(n) => n as int,
                    None => 30,
                },
            )
            &&& kind == "assists"@ || kind == "10ast"@ ==> counts_from(
                query,
                "ast"@,
                match given {
                    Some(n) => n as int,
                    None => 10,
                },
            )
            &&& kind == "rebounds"@ ==> counts_from(
                query,
                "reb"@,
                match given {
                    Some(n) => n as int,
                    None => 10,
                },
            )
            &&& kind != "wins"@ && kind != "points"@ && kind != "30pt"@ && kind != "assists"@
                && kind != "10ast"@ && kind != "rebounds"@ ==> counts_from(
                query,
                "pts"@,
                match given {
                    Some(n) => n as int,
                    None => 0,
                },
            )
        }),
{
    lemma_names_of_tools();
    lemma_stats();
    let kind = args.str_or("streak_type"@, "points"@);
    let player = args.str_or("player_name"@, ""@);
    let least = match args.at("min_value"@).signed() {
        Some(n) => n as int,
        None => streak_least(kind),
    };
    tool_sql::law_win_streaks_asks(player);
    tool_sql::law_streaks_asks(streak_column(kind), text::dec_int(least), player);
}

/// The query counts a game where the column reaches the value.
pub open spec fn counts_from(query: Seq<char>, column: Seq<char>, least: int) -> bool {
    text::contains(
        query,
        ", CASE WHEN "@ + column + " >= "@ + text::dec_int(least) + " THEN 1 ELSE 0 END as above"@,
    )
}

proof fn lemma_kinds()
    ensures
        "player"@.len() == 6,
        "team"@.len() == 4,
        "season"@.len() == 6,
        "table"@.len() == 5,
        "player"@[0] != "season"@[0],
{
    reveal_strlit("player");
    reveal_strlit("team");
    reveal_strlit("season");
    reveal_strlit("table");
}

/// What is known of something is looked up where it is kept: a player, which is
/// what is meant where nothing else is, a team, a season and a table each by its
/// own query, with the name that the model gives.
pub proof fn law_coverage_is_of_what_is_named(args: JsonView, name: Seq<char>)
    requires
        args.str_or("entity_name"@, ""@) == name,
    ensures
        ({
            let p = tool_plan("check_data_coverage"@, args);
            let kind = args.str_at("entity_type"@);
            let query = p.request->query;
            &&& p.request is Sql
            &&& p.request->max_rows == Some(10usize)
            &&& p.param_str == query
            &&& p.style is Rows
            &&& kind == Some("player"@) || kind is None ==> text::contains(
                query,
                " FROM player_game_stats WHERE player_name = "@ + tool_sql::literal(name),
            )
            &&& kind == Some("team"@) ==> text::ends(
                query,
                " FROM fact_team_game_stats WHERE team_name = "@ + tool_sql::literal(name),
            )
            &&& kind == Some("season"@) ==> text::ends(
                query,
                " FROM game WHERE season_id = "@ + tool_sql::literal(name),
            )
            &&& kind == Some("table"@) ==> text::ends(
                query,
                " FROM duckdb_tables() WHERE schema_name = 'main' AND table_name = "@
                    + tool_sql::literal(name),
            )
            &&& kind is Some && kind != Some("player"@) && kind != Some("team"@) && kind != Some(
                "season"@,
            ) && kind != Some("table"@) ==> query
                == "SELECT 'unknown' as table_name, 0 as row_count"@
        }),
{
    lemma_names_of_tools();
    lemma_kinds();
    tool_sql::law_player_covered_asks(name);
    tool_sql::law_team_covered_asks(name);
    tool_sql::law_season_covered_asks(name);
    tool_sql::law_table_covered_asks(name);
}

/// Before it runs, a tool shows what it runs on: a query, a pattern, a keyword, a
/// table or a player as the model gave it, and otherwise all that it was given.
pub proof fn law_tools_show_what_they_run_on(args: JsonView, name: Seq<char>)
    ensures
        start_fields("run_sql"@, args).1 == args.str_or("query"@, ""@),
        start_fields("explain_query"@, args).1 == args.str_or("query"@, ""@),
        start_fields("list_tables"@, args).1 == args.str_or("pattern"@, "%"@),
        start_fields("search_tables"@, args).1 == args.str_or("keyword"@, ""@),
        start_fields("describe_table"@, args).1 == args.str_or("table_name"@, ""@),
        start_fields("generate_chart"@, args).1 == args.str_or("sql_query"@, ""@),
        start_fields("get_player_profile"@, args).1 == args.str_or("player_name"@, ""@),
        start_fields("expand_player_profile"@, args).1 == args.str_or("player_name"@, ""@),
        name != "run_sql"@ && name != "explain_query"@ && name != "list_tables"@
            && name != "search_tables"@ && name != "describe_table"@ && name != "generate_chart"@
            && name != "get_player_profile"@
            && name != "expand_player_profile"@ ==> start_fields(name, args).1 == json::json_text(args),
{
    lemma_names_of_tools();
}

proof fn lemma_two_named(a: Seq<char>, x: Seq<char>, b: Seq<char>, y: Seq<char>)
    ensures
        text::contains(a + x + b + y, x + b + y),
{
    let f = x + b + y;
    assert(a + x + b + y =~= a + f + Seq::<char>::empty());
    text::lemma_middle(a, f, Seq::empty());
}

/// Before it runs, a tool says why: the model's own reason for a query of its own,
/// and otherwise what it is about, those who are compared in their order.
pub proof fn law_tools_say_why_they_run(args: JsonView, name: Seq<char>)
    ensures
        args.str_at("reasoning"@) matches Some(why) ==> start_fields("run_sql"@, args).0 == why,
        args.str_at("reasoning"@) is None ==> start_fields("run_sql"@, args).0
            == "Executing query"@,
        start_fields("generate_chart"@, args).0 == "Generating "@ + args.str_or(
            "chart_type"@,
            "bar"@,
        ) + " chart: '"@ + args.str_or("title"@, "NBA Stat Chart"@) + "'"@,
        start_fields("explain_query"@, args).0 == "Checking query plan for SQL"@,
        start_fields("export_query_result"@, args).0 == "Exporting query result"@,
        name != "run_sql"@ && name != "list_tables"@ && name != "search_tables"@
            && name != "describe_table"@ && name != "explain_query"@ && name != "generate_chart"@
            && name != "compare_players"@ && name != "compare_teams"@ && name != "find_streaks"@
            && name != "get_player_profile"@ && name != "rank_performance"@
            && name != "find_leaders"@ && name != "get_game_summary"@
            && name != "get_head_to_head"@ && name != "check_data_coverage"@
            && name != "export_query_result"@ && name != "era_adjusted_compare"@
            && name != "game_reconstruction"@
            && name != "expand_player_profile"@ ==> start_fields(name, args).0 == "Running "@ + name,
        start_fields("list_tables"@, args).0 == "Listing tables matching '"@ + args.str_or(
            "pattern"@,
            "%"@,
        ) + "'"@,
        start_fields("search_tables"@, args).0 == "Searching tables matching '"@ + args.str_or(
            "keyword"@,
            ""@,
        ) + "'"@,
        start_fields("describe_table"@, args).0 == "Inspecting table `"@ + args.str_or(
            "table_name"@,
            ""@,
        ) + "`"@,
        text::contains(
            start_fields("compare_players"@, args).0,
            args.str_or("player1"@, ""@) + " vs "@ + args.str_or("player2"@, ""@),
        ),
        text::contains(
            start_fields("compare_teams"@, args).0,
            args.str_or("team1"@, ""@) + " vs "@ + args.str_or("team2"@, ""@),
        ),
        text::contains(
            start_fields("get_head_to_head"@, args).0,
            args.str_or("team1"@, ""@) + " vs "@ + args.str_or("team2"@, ""@),
        ),
        text::contains(
            start_fields("era_adjusted_compare"@, args).0,
            args.str_or("player1"@, ""@) + " vs "@ + args.str_or("player2"@, ""@),
        ),
        text::contains(
            start_fields("find_streaks"@, args).0,
            args.str_or("streak_type"@, "points"@) + " streaks for "@ + args.str_or(
                "player_name"@,
                ""@,
            ),
        ),
        text::ends(start_fields("get_player_profile"@, args).0, args.str_or("player_name"@, ""@)),
        text::ends(
            start_fields("expand_player_profile"@, args).0,
            args.str_or("player_name"@, ""@),
        ),
        text::ends(start_fields("get_game_summary"@, args).0, args.str_or("game_id"@, "unknown"@)),
        text::ends(
            start_fields("game_reconstruction"@, args).0,
            args.str_or("game_id"@, "unknown"@),
        ),
        start_fields("find_leaders"@, args).0 == "Finding "@ + args.str_or("stat_name"@, ""@)
            + " leaders"@,
        start_fields("rank_performance"@, args).0 == "Ranking "@ + args.str_or("stat_name"@, ""@)
            + " across NBA history"@,
        start_fields("check_data_coverage"@, args).0 == "Checking "@ + args.str_or(
            "entity_type"@,
            ""@,
        ) + " coverage"@,
{
    lemma_names_of_tools();
    let p1 = args.str_or("player1"@, ""@);
    let p2 = args.str_or("player2"@, ""@);
    let t1 = args.str_or("team1"@, ""@);
    let t2 = args.str_or("team2"@, ""@);
    let who = args.str_or("player_name"@, ""@);
    let game = args.str_or("game_id"@, "unknown"@);
    lemma_two_named("Comparing "@, p1, " vs "@, p2);
    lemma_two_named("Comparing "@, t1, " vs "@, t2);
    lemma_two_named("H2H: "@, t1, " vs "@, t2);
    lemma_two_named("Era-adjusted compare: "@, p1, " vs "@, p2);
    lemma_two_named("Finding "@, args.str_or("streak_type"@, "points"@), " streaks for "@, who);
    text::law_beginnings_and_ends(who, who);
    text::law_beginnings_and_ends(game, game);
    assert(text::begins(who + "Building profile for "@, who));
    assert(text::begins(who + "Full profile for "@, who));
    assert(text::begins(game + "Summarizing game "@, game));
    assert(text::begins(game + "Reconstructing game "@, game));
}

/// A plan says what it is about: whom or what it looks for, from which value on, in
/// which scope, and in what form.
pub proof fn law_plans_say_what_they_do(args: JsonView)
    ensures
        ({
            let kind = args.str_or("streak_type"@, "points"@);
            let least = match args.at("min_value"@).signed() {
                Some(n) => n as int,
                None => streak_least(kind),
            };
            tool_plan("find_streaks"@, args).reasoning == "Finding "@ + kind + " streaks for "@
                + args.str_or("player_name"@, ""@) + " (min "@ + text::dec_int(least) + ")"@
        }),
        tool_plan("find_leaders"@, args).reasoning == "Finding "@ + args.str_or(
            "stat_name"@,
            "points"@,
        ) + " leaders"@,
        tool_plan("rank_performance"@, args).reasoning == "Ranking "@ + args.str_or(
            "stat_name"@,
            "points"@,
        ) + " = "@ + text::or_text(args.at("value"@).float_display(), "0"@) + " in "@ + args.str_or(
            "scope"@,
            "nba_history"@,
        ) + " ("@ + args.str_or("context"@, ""@) + ")"@,
        text::contains(
            tool_plan("check_data_coverage"@, args).reasoning,
            args.str_or("entity_type"@, "player"@) + " coverage for "@ + args.str_or(
                "entity_name"@,
                ""@,
            ),
        ),
        tool_plan("export_query_result"@, args).reasoning == "Exporting query result as "@
            + args.str_or("format"@, "csv"@),
        text::contains(
            tool_plan("get_game_summary"@, args).reasoning,
            args.str_or("game_id"@, ""@) + " "@ + args.str_or("game_date"@, ""@),
        ),
        text::contains(
            tool_plan("game_reconstruction"@, args).reasoning,
            args.str_or("game_id"@, ""@) + " "@ + args.str_or("game_date"@, ""@),
        ),
        tool_plan("era_adjusted_compare"@, args).reasoning == "Era-adjusted compare: "@
            + args.str_or("player1"@, ""@) + " vs "@ + args.str_or("player2"@, ""@) + " ("@
            + args.str_or("metric"@, "points_per_game"@) + ")"@,
{
    lemma_names_of_tools();
    lemma_two_named(
        "Checking "@,
        args.str_or("entity_type"@, "player"@),
        " coverage for "@,
        args.str_or("entity_name"@, ""@),
    );
    let id = args.str_or("game_id"@, ""@);
    let date = args.str_or("game_date"@, ""@);
    lemma_two_named("Summarizing game "@, id, " "@, date);
    lemma_two_named("Reconstructing game "@, id, " "@, date);
}

/// What is said of a plan is said of its fields: what it asks for is what it carries.
pub proof fn law_plans_carry_what_is_said_of_them(p: ToolPlan)
    ensures
        p@.reasoning == p.reasoning@,
        p@.param_str == p.param_str@,
        p.request matches DbRequest::Sql { query, max_rows } ==> (p@.request matches RequestView::Sql {
            query: q,
            max_rows: n,
        } && q == query@ && n == max_rows),
        p.request matches DbRequest::SearchTables { keyword } ==> (
        p@.request matches RequestView::SearchTables { keyword: k } && k == keyword@),
        p.request matches DbRequest::DescribeTable { table_name } ==> (
        p@.request matches RequestView::DescribeTable { table_name: t } && t == table_name@),
        p.request is Nothing ==> p@.request is Nothing,
        p.style is Query <==> p@.style is Query,
        p.style is Csv <==> p@.style is Csv,
        p.style is Rows <==> p@.style is Rows,
        p.style matches Style::Chart { chart_type, title } ==> (p@.style matches StyleView::Chart {
            chart_type: c,
            title: t,
        } && c == chart_type@ && t == title@),
{
}

}
