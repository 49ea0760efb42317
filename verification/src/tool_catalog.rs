//! The tools as the model sees them.
use vstd::prelude::*;

use crate::agent::Agent;
use crate::json;
use crate::json::Json;
use crate::json::JsonView;
use crate::text;
use crate::tools;

verus! {

/// A parameter of a tool.
#[derive(Debug)]
pub struct ParamSpec {
    pub name: String,
    pub kind: String,
    pub description: String,
    pub required: bool,
}

/// What a parameter holds.
pub struct ParamView {
    pub name: Seq<char>,
    pub kind: Seq<char>,
    pub description: Seq<char>,
    pub required: bool,
}

impl View for ParamSpec {
    type V = ParamView;

    open spec fn view(&self) -> ParamView {
        ParamView {
            name: self.name@,
            kind: self.kind@,
            description: self.description@,
            required: self.required,
        }
    }
}

/// A tool and its parameters.
#[derive(Debug)]
pub struct ToolSpec {
    pub name: String,
    pub description: String,
    pub params: Vec<ParamSpec>,
}

/// What a tool's description holds.
#[verifier::ext_equal]
pub struct ToolSpecView {
    pub name: Seq<char>,
    pub description: Seq<char>,
    pub params: Seq<ParamView>,
}

impl View for ToolSpec {
    type V = ToolSpecView;

    open spec fn view(&self) -> ToolSpecView {
        ToolSpecView {
            name: self.name@,
            description: self.description@,
            params: text::views(self.params@),
        }
    }
}

/// A tool without parameters.
pub open spec fn tool(name: Seq<char>, description: Seq<char>) -> ToolSpecView {
    ToolSpecView { name, description, params: Seq::empty() }
}

impl ToolSpecView {
    /// The tool with one more parameter.
    pub open spec fn param(
        self,
        name: Seq<char>,
        kind: Seq<char>,
        description: Seq<char>,
        required: bool,
    ) -> ToolSpecView {
        ToolSpecView {
            params: self.params.push(ParamView { name, kind, description, required }),
            ..self
        }
    }
}

impl ToolSpec {
    fn named(name: &str, description: &str) -> (r: ToolSpec)
        ensures
            r@ == tool(name@, description@),
    {
        let r = ToolSpec {
            name: name.to_owned(),
            description: description.to_owned(),
            params: Vec::new(),
        };
        proof {
            assert(r@ =~= tool(name@, description@));
        }
        r
    }

    fn param(self, name: &str, kind: &str, description: &str, required: bool) -> (r: ToolSpec)
        ensures
            r@ == self@.param(name@, kind@, description@, required),
    {
        let ghost before = self@;
        let mut params = self.params;
        let p = ParamSpec {
            name: name.to_owned(),
            kind: kind.to_owned(),
            description: description.to_owned(),
            required,
        };
        let ghost pv = p@;
        params.push(p);
        let r = ToolSpec { name: self.name, description: self.description, params };
        proof {
            assert(text::views(r.params@) =~= before.params.push(pv));
        }
        r
    }
}

// ---------------------------------------------------------------------------
// The catalogue
// ---------------------------------------------------------------------------

/// The tool `run_sql`.
pub open spec fn run_sql_tool() -> ToolSpecView {
    tool("run_sql"@, "Execute DuckDB SQL query and return JSON results."@)
        .param("reasoning"@, "string"@, "Reasoning for running this query."@, true)
        .param("query"@, "string"@, "Valid DuckDB SQL query."@, true)
}

fn describe_run_sql() -> (r: ToolSpec)
    ensures
        r@ == run_sql_tool(),
{
    ToolSpec::named("run_sql", "Execute DuckDB SQL query and return JSON results.")
        .param("reasoning", "string", "Reasoning for running this query.", true)
        .param("query", "string", "Valid DuckDB SQL query.", true)
}

/// The tool `list_tables`.
pub open spec fn list_tables_tool() -> ToolSpecView {
    tool("list_tables"@, "List table names matching a LIKE pattern."@)
        .param("pattern"@, "string"@, "LIKE pattern (e.g., 'agg_%' or '%clutch%')."@, false)
}

fn describe_list_tables() -> (r: ToolSpec)
    ensures
        r@ == list_tables_tool(),
{
    ToolSpec::named("list_tables", "List table names matching a LIKE pattern.")
        .param("pattern", "string", "LIKE pattern (e.g., 'agg_%' or '%clutch%').", false)
}

/// The tool `search_tables`.
pub open spec fn search_tables_tool() -> ToolSpecView {
    tool("search_tables"@, "Search across all 588 table and column names for keywords."@)
        .param("keyword"@, "string"@, "Keyword to search for."@, true)
}

fn describe_search_tables() -> (r: ToolSpec)
    ensures
        r@ == search_tables_tool(),
{
    ToolSpec::named("search_tables", "Search across all 588 table and column names for keywords.")
        .param("keyword", "string", "Keyword to search for.", true)
}

/// The tool `describe_table`.
pub open spec fn describe_table_tool() -> ToolSpecView {
    tool("describe_table"@, "Inspect a single table: columns, types, sample rows."@)
        .param("table_name"@, "string"@, "Table to describe."@, true)
}

fn describe_describe_table() -> (r: ToolSpec)
    ensures
        r@ == describe_table_tool(),
{
    ToolSpec::named("describe_table", "Inspect a single table: columns, types, sample rows.")
        .param("table_name", "string", "Table to describe.", true)
}

/// The tool `explain_query`.
pub open spec fn explain_query_tool() -> ToolSpecView {
    tool("explain_query"@, "Return DuckDB's EXPLAIN plan for a query."@)
        .param("query"@, "string"@, "SQL query to explain."@, true)
}

fn describe_explain_query() -> (r: ToolSpec)
    ensures
        r@ == explain_query_tool(),
{
    ToolSpec::named("explain_query", "Return DuckDB's EXPLAIN plan for a query.")
        .param("query", "string", "SQL query to explain.", true)
}

/// The tool `generate_chart`.
pub open spec fn generate_chart_tool() -> ToolSpecView {
    tool("generate_chart"@, "Run a query and return a chart JSON spec for the frontend."@)
        .param("chart_type"@, "string"@, "One of: bar, line, pie, scatter."@, true)
        .param("title"@, "string"@, "Chart title."@, true)
        .param("sql_query"@, "string"@, "SQL to source chart data."@, true)
}

fn describe_generate_chart() -> (r: ToolSpec)
    ensures
        r@ == generate_chart_tool(),
{
    ToolSpec::named("generate_chart", "Run a query and return a chart JSON spec for the frontend.")
        .param("chart_type", "string", "One of: bar, line, pie, scatter.", true)
        .param("title", "string", "Chart title.", true)
        .param("sql_query", "string", "SQL to source chart data.", true)
}

/// The tool `compare_players`.
pub open spec fn compare_players_tool() -> ToolSpecView {
    tool("compare_players"@, "Compare two players: career totals, per-game stats, shooting splits, and awards."@)
        .param("player1"@, "string"@, "First player name."@, true)
        .param("player2"@, "string"@, "Second player name."@, true)
        .param("season"@, "string"@, "Optional season filter (e.g. '2023-24')."@, false)
}

fn describe_compare_players() -> (r: ToolSpec)
    ensures
        r@ == compare_players_tool(),
{
    ToolSpec::named("compare_players", "Compare two players: career totals, per-game stats, shooting splits, and awards.")
        .param("player1", "string", "First player name.", true)
        .param("player2", "string", "Second player name.", true)
        .param("season", "string", "Optional season filter (e.g. '2023-24').", false)
}

/// The tool `compare_teams`.
pub open spec fn compare_teams_tool() -> ToolSpecView {
    tool("compare_teams"@, "Compare two teams: season records, offensive/defensive ratings, head-to-head."@)
        .param("team1"@, "string"@, "First team name or abbreviation."@, true)
        .param("team2"@, "string"@, "Second team name or abbreviation."@, true)
        .param("season"@, "string"@, "Optional season filter."@, false)
}

fn describe_compare_teams() -> (r: ToolSpec)
    ensures
        r@ == compare_teams_tool(),
{
    ToolSpec::named("compare_teams", "Compare two teams: season records, offensive/defensive ratings, head-to-head.")
        .param("team1", "string", "First team name or abbreviation.", true)
        .param("team2", "string", "Second team name or abbreviation.", true)
        .param("season", "string", "Optional season filter.", false)
}

/// The tool `find_streaks`.
pub open spec fn find_streaks_tool() -> ToolSpecView {
    tool("find_streaks"@, "Find scoring/assist/rebound/win streaks for a player using gaps-and-islands SQL."@)
        .param("player_name"@, "string"@, "Player name."@, true)
        .param("streak_type"@, "string"@, "Type: 'points', 'assists', 'rebounds', 'wins', '30pt', '10ast'."@, true)
        .param("min_value"@, "integer"@, "Minimum threshold (e.g. 30 for 30-point streaks)."@, false)
}

fn describe_find_streaks() -> (r: ToolSpec)
    ensures
        r@ == find_streaks_tool(),
{
    ToolSpec::named("find_streaks", "Find scoring/assist/rebound/win streaks for a player using gaps-and-islands SQL.")
        .param("player_name", "string", "Player name.", true)
        .param("streak_type", "string", "Type: 'points', 'assists', 'rebounds', 'wins', '30pt', '10ast'.", true)
        .param("min_value", "integer", "Minimum threshold (e.g. 30 for 30-point streaks).", false)
}

/// The tool `get_player_profile`.
pub open spec fn get_player_profile_tool() -> ToolSpecView {
    tool("get_player_profile"@, "Generate a comprehensive player profile: career summary, best seasons, career highs, awards."@)
        .param("player_name"@, "string"@, "Player name."@, true)
}

fn describe_get_player_profile() -> (r: ToolSpec)
    ensures
        r@ == get_player_profile_tool(),
{
    ToolSpec::named("get_player_profile", "Generate a comprehensive player profile: career summary, best seasons, career highs, awards.")
        .param("player_name", "string", "Player name.", true)
}

/// The tool `rank_performance`.
pub open spec fn rank_performance_tool() -> ToolSpecView {
    tool("rank_performance"@, "Rank a stat within NBA history, a franchise, a season, or a player's career. Returns rank and surrounding entries."@)
        .param("stat_name"@, "string"@, "Stat to rank (e.g. 'points', 'rebounds', 'assists')."@, true)
        .param("value"@, "number"@, "The value to rank."@, true)
        .param("scope"@, "string"@, "Scope: 'nba_history', 'franchise', 'season', 'career'."@, true)
        .param("context"@, "string"@, "Team name, season, or player name depending on scope."@, false)
}

fn describe_rank_performance() -> (r: ToolSpec)
    ensures
        r@ == rank_performance_tool(),
{
    ToolSpec::named("rank_performance", "Rank a stat within NBA history, a franchise, a season, or a player's career. Returns rank and surrounding entries.")
        .param("stat_name", "string", "Stat to rank (e.g. 'points', 'rebounds', 'assists').", true)
        .param("value", "number", "The value to rank.", true)
        .param("scope", "string", "Scope: 'nba_history', 'franchise', 'season', 'career'.", true)
        .param("context", "string", "Team name, season, or player name depending on scope.", false)
}

/// The tool `find_leaders`.
pub open spec fn find_leaders_tool() -> ToolSpecView {
    tool("find_leaders"@, "Find statistical leaders for a given stat. Returns top N players sorted by the stat."@)
        .param("stat_name"@, "string"@, "Stat to rank (e.g. 'points', 'rebounds', 'assists', 'threes')."@, true)
        .param("season"@, "string"@, "Optional season filter (e.g. '2023-24')."@, false)
        .param("limit"@, "integer"@, "Number of leaders to return (default 10)."@, false)
}

fn describe_find_leaders() -> (r: ToolSpec)
    ensures
        r@ == find_leaders_tool(),
{
    ToolSpec::named("find_leaders", "Find statistical leaders for a given stat. Returns top N players sorted by the stat.")
        .param("stat_name", "string", "Stat to rank (e.g. 'points', 'rebounds', 'assists', 'threes').", true)
        .param("season", "string", "Optional season filter (e.g. '2023-24').", false)
        .param("limit", "integer", "Number of leaders to return (default 10).", false)
}

/// The tool `get_game_summary`.
pub open spec fn get_game_summary_tool() -> ToolSpecView {
    tool("get_game_summary"@, "Get a full game summary: box score, key stats, and notable performances."@)
        .param("game_id"@, "string"@, "Game ID to look up."@, false)
        .param("game_date"@, "string"@, "Game date (YYYY-MM-DD) if game_id is unknown."@, false)
}

fn describe_get_game_summary() -> (r: ToolSpec)
    ensures
        r@ == get_game_summary_tool(),
{
    ToolSpec::named("get_game_summary", "Get a full game summary: box score, key stats, and notable performances.")
        .param("game_id", "string", "Game ID to look up.", false)
        .param("game_date", "string", "Game date (YYYY-MM-DD) if game_id is unknown.", false)
}

/// The tool `get_head_to_head`.
pub open spec fn get_head_to_head_tool() -> ToolSpecView {
    tool("get_head_to_head"@, "Full head-to-head explorer: overall record, home/away splits, average margin, series results."@)
        .param("team1"@, "string"@, "First team name or abbreviation."@, true)
        .param("team2"@, "string"@, "Second team name or abbreviation."@, true)
        .param("season"@, "string"@, "Optional season filter."@, false)
}

fn describe_get_head_to_head() -> (r: ToolSpec)
    ensures
        r@ == get_head_to_head_tool(),
{
    ToolSpec::named("get_head_to_head", "Full head-to-head explorer: overall record, home/away splits, average margin, series results.")
        .param("team1", "string", "First team name or abbreviation.", true)
        .param("team2", "string", "Second team name or abbreviation.", true)
        .param("season", "string", "Optional season filter.", false)
}

/// The tool `check_data_coverage`.
pub open spec fn check_data_coverage_tool() -> ToolSpecView {
    tool("check_data_coverage"@, "Check data completeness: season coverage, missing values, table freshness for a given entity."@)
        .param("entity_type"@, "string"@, "Type: 'player', 'team', 'season', 'table'."@, true)
        .param("entity_name"@, "string"@, "Name or ID of the entity to check."@, false)
}

fn describe_check_data_coverage() -> (r: ToolSpec)
    ensures
        r@ == check_data_coverage_tool(),
{
    ToolSpec::named("check_data_coverage", "Check data completeness: season coverage, missing values, table freshness for a given entity.")
        .param("entity_type", "string", "Type: 'player', 'team', 'season', 'table'.", true)
        .param("entity_name", "string", "Name or ID of the entity to check.", false)
}

/// The tool `export_query_result`.
pub open spec fn export_query_result_tool() -> ToolSpecView {
    tool("export_query_result"@, "Execute a query and return results in CSV or JSON format for download."@)
        .param("query"@, "string"@, "SQL query to execute."@, true)
        .param("format"@, "string"@, "Output format: 'csv' or 'json'."@, true)
        .param("filename"@, "string"@, "Suggested filename for download."@, false)
}

fn describe_export_query_result() -> (r: ToolSpec)
    ensures
        r@ == export_query_result_tool(),
{
    ToolSpec::named("export_query_result", "Execute a query and return results in CSV or JSON format for download.")
        .param("query", "string", "SQL query to execute.", true)
        .param("format", "string", "Output format: 'csv' or 'json'.", true)
        .param("filename", "string", "Suggested filename for download.", false)
}

/// The tool `era_adjusted_compare`.
pub open spec fn era_adjusted_compare_tool() -> ToolSpecView {
    tool("era_adjusted_compare"@, "Compare players across eras using league-relative metrics: points vs league avg, pace-adjusted stats, percentile within season."@)
        .param("player1"@, "string"@, "First player name."@, true)
        .param("player2"@, "string"@, "Second player name."@, true)
        .param("metric"@, "string"@, "Metric to compare (default: 'points_per_game')."@, false)
}

fn describe_era_adjusted_compare() -> (r: ToolSpec)
    ensures
        r@ == era_adjusted_compare_tool(),
{
    ToolSpec::named("era_adjusted_compare", "Compare players across eras using league-relative metrics: points vs league avg, pace-adjusted stats, percentile within season.")
        .param("player1", "string", "First player name.", true)
        .param("player2", "string", "Second player name.", true)
        .param("metric", "string", "Metric to compare (default: 'points_per_game').", false)
}

/// The tool `game_reconstruction`.
pub open spec fn game_reconstruction_tool() -> ToolSpecView {
    tool("game_reconstruction"@, "Reconstruct a game: lead changes, ties, scoring runs, largest lead, key turning points."@)
        .param("game_id"@, "string"@, "Game ID."@, false)
        .param("game_date"@, "string"@, "Game date if game_id unknown."@, false)
}

fn describe_game_reconstruction() -> (r: ToolSpec)
    ensures
        r@ == game_reconstruction_tool(),
{
    ToolSpec::named("game_reconstruction", "Reconstruct a game: lead changes, ties, scoring runs, largest lead, key turning points.")
        .param("game_id", "string", "Game ID.", false)
        .param("game_date", "string", "Game date if game_id unknown.", false)
}

/// The tool `expand_player_profile`.
pub open spec fn expand_player_profile_tool() -> ToolSpecView {
    tool("expand_player_profile"@, "Full player profile: career highs, playoff performance, team history, awards, shooting splits, similar players."@)
        .param("player_name"@, "string"@, "Player name."@, true)
}

fn describe_expand_player_profile() -> (r: ToolSpec)
    ensures
        r@ == expand_player_profile_tool(),
{
    ToolSpec::named("expand_player_profile", "Full player profile: career highs, playoff performance, team history, awards, shooting splits, similar players.")
        .param("player_name", "string", "Player name.", true)
}

/// The tools, in the order in which the model sees them.
pub open spec fn catalog() -> Seq<ToolSpecView> {
    seq![
        run_sql_tool(),
        list_tables_tool(),
        search_tables_tool(),
        describe_table_tool(),
        explain_query_tool(),
        generate_chart_tool(),
        compare_players_tool(),
        compare_teams_tool(),
        find_streaks_tool(),
        get_player_profile_tool(),
        rank_performance_tool(),
        find_leaders_tool(),
        get_game_summary_tool(),
        get_head_to_head_tool(),
        check_data_coverage_tool(),
        export_query_result_tool(),
        era_adjusted_compare_tool(),
        game_reconstruction_tool(),
        expand_player_profile_tool(),
    ]
}

/// The tools, in the order in which the model sees them.
pub fn tool_specs() -> (r: Vec<ToolSpec>)
    ensures
        text::views(r@) == catalog(),
{
    let mut v: Vec<ToolSpec> = Vec::new();
    v.push(describe_run_sql());
    v.push(describe_list_tables());
    v.push(describe_search_tables());
    v.push(describe_describe_table());
    v.push(describe_explain_query());
    v.push(describe_generate_chart());
    v.push(describe_compare_players());
    v.push(describe_compare_teams());
    v.push(describe_find_streaks());
    v.push(describe_get_player_profile());
    v.push(describe_rank_performance());
    v.push(describe_find_leaders());
    v.push(describe_get_game_summary());
    v.push(describe_get_head_to_head());
    v.push(describe_check_data_coverage());
    v.push(describe_export_query_result());
    v.push(describe_era_adjusted_compare());
    v.push(describe_game_reconstruction());
    v.push(describe_expand_player_profile());
    proof {
        assert(text::views(v@) =~= catalog());
    }
    v
}

// ---------------------------------------------------------------------------
// The catalogue as JSON
// ---------------------------------------------------------------------------

/// A parameter as JSON.
pub open spec fn param_json(p: ParamView) -> JsonView {
    JsonView::Object(
        seq![
            ("description"@, JsonView::Str(p.description)),
            ("type"@, JsonView::Str(p.kind)),
        ],
    )
}

/// The first `n` parameters as the pairs of an object, with the keys in order.
pub open spec fn param_pairs(ps: Seq<ParamView>, n: nat) -> Seq<(Seq<char>, JsonView)>
    decreases n,
{
    if n == 0 {
        Seq::empty()
    } else {
        json::put(param_pairs(ps, (n - 1) as nat), ps[n - 1].name, param_json(ps[n - 1]))
    }
}

/// The names of the parameters among the first `n` that must be given.
pub open spec fn required_names(ps: Seq<ParamView>, n: nat) -> Seq<JsonView>
    decreases n,
{
    if n == 0 {
        Seq::empty()
    } else if ps[n - 1].required {
        required_names(ps, (n - 1) as nat).push(JsonView::Str(ps[n - 1].name))
    } else {
        required_names(ps, (n - 1) as nat)
    }
}

/// The parameters of a tool as JSON; a tool that needs none names none.
pub open spec fn params_json(ps: Seq<ParamView>) -> JsonView {
    let needed = required_names(ps, ps.len());
    JsonView::Object(
        seq![("properties"@, JsonView::Object(param_pairs(ps, ps.len())))] + (if needed.len() > 0 {
            seq![("required"@, JsonView::Array(needed))]
        } else {
            Seq::empty()
        }) + seq![("type"@, JsonView::Str("object"@))],
    )
}

/// A tool as JSON.
pub open spec fn tool_json(t: ToolSpecView) -> JsonView {
    JsonView::Object(
        seq![
            (
                "function"@,
                JsonView::Object(
                    seq![
                        ("description"@, JsonView::Str(t.description)),
                        ("name"@, JsonView::Str(t.name)),
                        ("parameters"@, params_json(t.params)),
                    ],
                ),
            ),
            ("type"@, JsonView::Str("function"@)),
        ],
    )
}

/// The catalogue as JSON.
pub open spec fn catalog_json() -> JsonView {
    JsonView::Array(Seq::new(catalog().len(), |i: int| tool_json(catalog()[i])))
}

fn json_of_param(p: &ParamSpec) -> (r: Json)
    ensures
        r@ == param_json(p@),
{
    broadcast use json::group_json_views;

    let mut v: Vec<(String, Json)> = Vec::new();
    v.push(("description".to_owned(), Json::Str(p.description.clone())));
    v.push(("type".to_owned(), Json::Str(p.kind.clone())));
    proof {
        assert(json::pair_views(v@) =~= param_json(p@)->Object_0);
    }
    Json::Object(v)
}

fn json_of_params(ps: &Vec<ParamSpec>) -> (r: Json)
    ensures
        r@ == params_json(text::views(ps@)),
{
    broadcast use json::group_json_views;

    let ghost all = text::views(ps@);
    let mut pairs: Vec<(String, Json)> = Vec::new();
    let mut needed: Vec<Json> = Vec::new();
    let mut i: usize = 0;
    proof {
        assert(json::pair_views(pairs@) =~= param_pairs(all, 0));
        assert(text::views(needed@) =~= required_names(all, 0));
    }
    while i < ps.len()
        invariant
            all == text::views(ps@),
            i <= ps@.len(),
            json::pair_views(pairs@) == param_pairs(all, i as nat),
            text::views(needed@) == required_names(all, i as nat),
        decreases ps@.len() - i,
    {
        proof {
            assert(all[i as int] == ps@[i as int]@);
        }
        json::put_pair(&mut pairs, ps[i].name.clone(), json_of_param(&ps[i]));
        if ps[i].required {
            let j = Json::Str(ps[i].name.clone());
            let ghost before = needed@;
            needed.push(j);
            proof {
                assert(text::views(needed@) =~= text::views(before).push(j@));
            }
        }
        i = i + 1;
    }
    let ghost names = text::views(needed@);
    let ghost inner = json::pair_views(pairs@);
    let mut v: Vec<(String, Json)> = Vec::new();
    v.push(("properties".to_owned(), Json::Object(pairs)));
    if needed.len() > 0 {
        v.push(("required".to_owned(), Json::Array(needed)));
    }
    v.push(("type".to_owned(), Json::Str("object".to_owned())));
    proof {
        assert(json::pair_views(v@) =~= params_json(all)->Object_0);
    }
    Json::Object(v)
}

fn json_of_tool(t: &ToolSpec) -> (r: Json)
    ensures
        r@ == tool_json(t@),
{
    broadcast use json::group_json_views;

    let mut inner: Vec<(String, Json)> = Vec::new();
    inner.push(("description".to_owned(), Json::Str(t.description.clone())));
    inner.push(("name".to_owned(), Json::Str(t.name.clone())));
    inner.push(("parameters".to_owned(), json_of_params(&t.params)));
    proof {
        assert(json::pair_views(inner@) =~= tool_json(t@)->Object_0[0].1->Object_0);
    }
    let mut v: Vec<(String, Json)> = Vec::new();
    v.push(("function".to_owned(), Json::Object(inner)));
    v.push(("type".to_owned(), Json::Str("function".to_owned())));
    proof {
        assert(json::pair_views(v@) =~= tool_json(t@)->Object_0);
    }
    Json::Object(v)
}

impl Agent {
    /// The catalogue of tools as JSON.
    pub fn get_tools_json() -> (r: Json)
        ensures
            r@ == catalog_json(),
    {
        broadcast use json::group_json_views;

        let specs = tool_specs();
        let ghost want = catalog_json()->Array_0;
        let mut v: Vec<Json> = Vec::new();
        let mut i: usize = 0;
        while i < specs.len()
            invariant
                text::views(specs@) == catalog(),
                want == catalog_json()->Array_0,
                i <= specs@.len(),
                text::views(v@) == want.take(i as int),
            decreases specs@.len() - i,
        {
            proof {
                assert(text::views(specs@)[i as int] == specs@[i as int]@);
            }
            let j = json_of_tool(&specs[i]);
            let ghost before = v@;
            v.push(j);
            proof {
                assert(text::views(v@) == text::views(before).push(j@));
                assert(want[i as int] == j@);
                assert(want.take(i + 1) == want.take(i as int).push(j@));
            }
            i = i + 1;
        }
        proof {
            assert(want.take(i as int) == want);
        }
        Json::Array(v)
    }
}

/// Every tool in the catalogue is one that the agent knows.
pub proof fn law_listed_tools_exist(i: int, args: JsonView)
    requires
        0 <= i < catalog().len(),
    ensures
        !(tools::tool_plan(catalog()[i].name, args).style is Unknown),
{
}

/// Every tool that the agent knows is in the catalogue.
pub proof fn law_known_tools_are_listed(name: Seq<char>, args: JsonView)
    requires
        !(tools::tool_plan(name, args).style is Unknown),
    ensures
        exists|i: int| 0 <= i < catalog().len() && (#[trigger] catalog()[i]).name == name,
{
    let c = catalog();
    assert(c.len() == 19);
    if forall|i: int| 0 <= i < c.len() ==> (#[trigger] c[i]).name != name {
        assert(c[0].name != name);
        assert(c[1].name != name);
        assert(c[2].name != name);
        assert(c[3].name != name);
        assert(c[4].name != name);
        assert(c[5].name != name);
        assert(c[6].name != name);
        assert(c[7].name != name);
        assert(c[8].name != name);
        assert(c[9].name != name);
        assert(c[10].name != name);
        assert(c[11].name != name);
        assert(c[12].name != name);
        assert(c[13].name != name);
        assert(c[14].name != name);
        assert(c[15].name != name);
        assert(c[16].name != name);
        assert(c[17].name != name);
        assert(c[18].name != name);
        assert(false);
    }
}

/// The names in the catalogue differ.
pub proof fn law_tool_names_differ(i: int, j: int)
    requires
        0 <= i < j < catalog().len(),
    ensures
        catalog()[i].name != catalog()[j].name,
{
    reveal_strlit("run_sql");
    reveal_strlit("list_tables");
    reveal_strlit("search_tables");
    reveal_strlit("describe_table");
    reveal_strlit("explain_query");
    reveal_strlit("generate_chart");
    reveal_strlit("compare_players");
    reveal_strlit("compare_teams");
    reveal_strlit("find_streaks");
    reveal_strlit("get_player_profile");
    reveal_strlit("rank_performance");
    reveal_strlit("find_leaders");
    reveal_strlit("get_game_summary");
    reveal_strlit("get_head_to_head");
    reveal_strlit("check_data_coverage");
    reveal_strlit("export_query_result");
    reveal_strlit("era_adjusted_compare");
    reveal_strlit("game_reconstruction");
    reveal_strlit("expand_player_profile");
    assert("run_sql"@.len() == 7);
    assert("list_tables"@.len() == 11);
    assert("search_tables"@.len() == 13);
    assert("describe_table"@.len() == 14);
    assert("explain_query"@.len() == 13);
    assert("generate_chart"@.len() == 14);
    assert("compare_players"@.len() == 15);
    assert("compare_teams"@.len() == 13);
    assert("find_streaks"@.len() == 12);
    assert("get_player_profile"@.len() == 18);
    assert("rank_performance"@.len() == 16);
    assert("find_leaders"@.len() == 12);
    assert("get_game_summary"@.len() == 16);
    assert("get_head_to_head"@.len() == 16);
    assert("check_data_coverage"@.len() == 19);
    assert("export_query_result"@.len() == 19);
    assert("era_adjusted_compare"@.len() == 20);
    assert("game_reconstruction"@.len() == 19);
    assert("expand_player_profile"@.len() == 21);
    assert("search_tables"@[0] != "explain_query"@[0]);
    assert("search_tables"@[0] != "compare_teams"@[0]);
    assert("describe_table"@[0] != "generate_chart"@[0]);
    assert("explain_query"@[0] != "compare_teams"@[0]);
    assert("find_streaks"@[5] != "find_leaders"@[5]);
    assert("rank_performance"@[0] != "get_game_summary"@[0]);
    assert("rank_performance"@[0] != "get_head_to_head"@[0]);
    assert("get_game_summary"@[4] != "get_head_to_head"@[4]);
    assert("check_data_coverage"@[0] != "export_query_result"@[0]);
    assert("check_data_coverage"@[0] != "game_reconstruction"@[0]);
    assert("export_query_result"@[0] != "game_reconstruction"@[0]);
}

proof fn lemma_pairs_hold_params(ps: Seq<ParamView>, n: nat, k: int)
    requires
        n <= ps.len(),
        k < n,
    ensures
        json::in_order(param_pairs(ps, n)),
        0 <= k ==> json::member(param_pairs(ps, n), ps[k].name) is Some,
    decreases n,
{
    if n > 0 {
        let front = param_pairs(ps, (n - 1) as nat);
        lemma_pairs_hold_params(ps, (n - 1) as nat, if k < n - 1 { k } else { -1 });
        if 0 <= k {
            json::law_put_sets_one_key(front, ps[n - 1].name, param_json(ps[n - 1]), ps[k].name);
        } else {
            json::law_put_sets_one_key(
                front,
                ps[n - 1].name,
                param_json(ps[n - 1]),
                ps[n - 1].name,
            );
        }
    }
}

proof fn lemma_required_is_param(ps: Seq<ParamView>, n: nat, i: int)
    requires
        n <= ps.len(),
        0 <= i < required_names(ps, n).len(),
    ensures
        exists|k: int|
            0 <= k < n && required_names(ps, n)[i] == JsonView::Str((#[trigger] ps[k]).name),
    decreases n,
{
    if n > 0 {
        let front = required_names(ps, (n - 1) as nat);
        if i < front.len() {
            lemma_required_is_param(ps, (n - 1) as nat, i);
        } else {
            assert(required_names(ps, n)[i] == JsonView::Str(ps[n - 1].name));
        }
    }
}

proof fn lemma_params_read(ps: Seq<ParamView>)
    ensures
        params_json(ps).at("properties"@) == JsonView::Object(param_pairs(ps, ps.len())),
        params_json(ps).at("required"@) == if required_names(ps, ps.len()).len() > 0 {
            JsonView::Array(required_names(ps, ps.len()))
        } else {
            JsonView::Null
        },
{
    reveal_strlit("properties");
    reveal_strlit("required");
    reveal_strlit("type");
    assert("properties"@.len() == 10);
    assert("required"@.len() == 8);
    assert("type"@.len() == 4);
    let needed = required_names(ps, ps.len());
    let p = params_json(ps)->Object_0;
    if needed.len() > 0 {
        assert(p.len() == 3);
        assert(p.drop_last().len() == 2);
        assert(p.drop_last().drop_last().len() == 1);
        assert(p.drop_last().drop_last().drop_last().len() == 0);
        reveal_with_fuel(json::member, 4);
    } else {
        assert(p.len() == 2);
        assert(p.drop_last().len() == 1);
        assert(p.drop_last().drop_last().len() == 0);
        reveal_with_fuel(json::member, 3);
    }
}

proof fn lemma_tool_reads(t: ToolSpecView)
    ensures
        tool_json(t).at("function"@).at("name"@) == JsonView::Str(t.name),
        tool_json(t).at("function"@).at("parameters"@) == params_json(t.params),
{
    reveal_strlit("function");
    reveal_strlit("type");
    reveal_strlit("description");
    reveal_strlit("name");
    reveal_strlit("parameters");
    assert("function"@.len() == 8);
    assert("type"@.len() == 4);
    assert("description"@.len() == 11);
    assert("name"@.len() == 4);
    assert("parameters"@.len() == 10);
    let p = tool_json(t)->Object_0;
    assert(p.drop_last().len() == 1);
    let f = p[0].1->Object_0;
    assert(f.len() == 3);
    assert(f.drop_last().len() == 2);
    reveal_with_fuel(json::member, 3);
    assert(tool_json(t).at("function"@) == p[0].1);
}

/// The catalogue as the model gets it: each entry carries the name of its tool,
/// and every name that it requires is one of its properties.
pub proof fn law_required_names_are_properties(i: int, k: int)
    requires
        0 <= i < catalog().len(),
    ensures
        ({
            let f = catalog_json().nth(i).at("function"@);
            let p = f.at("parameters"@);
            &&& f.at("name"@) == JsonView::Str(catalog()[i].name)
            &&& p.at("required"@) matches JsonView::Array(needed) ==> (0 <= k < needed.len() ==> (
            needed[k] matches JsonView::Str(name) && p.at("properties"@).get(name) is Some))
        }),
{
    let t = catalog()[i];
    lemma_tool_reads(t);
    lemma_params_read(t.params);
    let needed = required_names(t.params, t.params.len());
    if 0 <= k < needed.len() {
        lemma_required_is_param(t.params, t.params.len(), k);
        let m = choose|m: int|
            0 <= m < t.params.len() && needed[k] == JsonView::Str((#[trigger] t.params[m]).name);
        lemma_pairs_hold_params(t.params, t.params.len(), m);
    }
}

/// A tool in the catalogue is never announced as one that merely runs, unless it
/// is the model's own query, for which the model gives the reason itself.
pub proof fn law_listed_tools_are_announced(i: int, args: JsonView)
    requires
        0 < i < catalog().len(),
    ensures
        tools::start_fields(catalog()[i].name, args).0 != "Running "@ + catalog()[i].name,
{
    let name = catalog()[i].name;
    let why = tools::start_fields(name, args).0;
    reveal_strlit("Running ");
    reveal_strlit("Listing tables matching '");
    reveal_strlit("Searching tables matching '");
    reveal_strlit("Inspecting table `");
    reveal_strlit("Checking query plan for SQL");
    reveal_strlit("Generating ");
    reveal_strlit("Comparing ");
    reveal_strlit("Finding ");
    reveal_strlit("Building profile for ");
    reveal_strlit("Ranking ");
    reveal_strlit("Summarizing game ");
    reveal_strlit("H2H: ");
    reveal_strlit("Checking ");
    reveal_strlit("Exporting query result");
    reveal_strlit("Era-adjusted compare: ");
    reveal_strlit("Reconstructing game ");
    reveal_strlit("Full profile for ");
    assert("Listing tables matching '"@.len() == 25 && "Listing tables matching '"@[0] == 'L');
    assert("Searching tables matching '"@.len() == 27 && "Searching tables matching '"@[0] == 'S');
    assert("Inspecting table `"@.len() == 18 && "Inspecting table `"@[0] == 'I');
    assert("Checking query plan for SQL"@.len() == 27 && "Checking query plan for SQL"@[0] == 'C');
    assert("Generating "@.len() == 11 && "Generating "@[0] == 'G');
    assert("Comparing "@.len() == 10 && "Comparing "@[0] == 'C');
    assert("Finding "@.len() == 8 && "Finding "@[0] == 'F');
    assert("Building profile for "@.len() == 21 && "Building profile for "@[0] == 'B');
    assert("Ranking "@.len() == 8 && "Ranking "@[1] == 'a');
    assert("Summarizing game "@.len() == 17 && "Summarizing game "@[0] == 'S');
    assert("H2H: "@.len() == 5 && "H2H: "@[0] == 'H');
    assert("Checking "@.len() == 9 && "Checking "@[0] == 'C');
    assert("Exporting query result"@.len() == 22 && "Exporting query result"@[0] == 'E');
    assert("Era-adjusted compare: "@.len() == 22 && "Era-adjusted compare: "@[0] == 'E');
    assert("Reconstructing game "@.len() == 20 && "Reconstructing game "@[1] == 'e');
    assert("Full profile for "@.len() == 17 && "Full profile for "@[0] == 'F');
    law_tool_names_differ(0, i);
    law_listed_tools_exist(i, args);
    assert(("Running "@ + name)[1] == 'u');
    assert(("Running "@ + name)[0] == 'R');
    assert(why[0] != 'R' || why[1] != 'u');
}

/// The two sets of arguments have the same under every parameter.
pub open spec fn same_arguments(ps: Seq<ParamView>, a: JsonView, b: JsonView) -> bool {
    forall|k: int| 0 <= k < ps.len() ==> a.at((#[trigger] ps[k]).name) == b.at(ps[k].name)
}

/// The tool asks the same of the database, tells it in the same way, and gives the
/// same reason.
spec fn same_plan(name: Seq<char>, a: JsonView, b: JsonView) -> bool {
    let p = tools::tool_plan(name, a);
    let q = tools::tool_plan(name, b);
    p.request == q.request && p.style == q.style && p.reasoning == q.reasoning
}

/// A tool goes by the parameters that the catalogue gives it and by nothing else:
/// arguments that agree under these ask the same of the database and are told in the
/// same way.
pub proof fn law_tools_go_by_their_parameters(i: int, a: JsonView, b: JsonView)
    requires
        0 <= i < catalog().len(),
        same_arguments(catalog()[i].params, a, b),
    ensures
        tools::tool_plan(catalog()[i].name, a).request == tools::tool_plan(
            catalog()[i].name,
            b,
        ).request,
        tools::tool_plan(catalog()[i].name, a).style == tools::tool_plan(
            catalog()[i].name,
            b,
        ).style,
        tools::tool_plan(catalog()[i].name, a).reasoning == tools::tool_plan(
            catalog()[i].name,
            b,
        ).reasoning,
{
    if i == 0 {
        lemma_run_sql_goes_by(a, b);
    }
    if i == 1 {
        lemma_list_tables_goes_by(a, b);
    }
    if i == 2 {
        lemma_search_tables_goes_by(a, b);
    }
    if i == 3 {
        lemma_describe_table_goes_by(a, b);
    }
    if i == 4 {
        lemma_explain_query_goes_by(a, b);
    }
    if i == 5 {
        lemma_generate_chart_goes_by(a, b);
    }
    if i == 6 {
        lemma_compare_players_goes_by(a, b);
    }
    if i == 7 {
        lemma_compare_teams_goes_by(a, b);
    }
    if i == 8 {
        lemma_find_streaks_goes_by(a, b);
    }
    if i == 9 {
        lemma_get_player_profile_goes_by(a, b);
    }
    if i == 10 {
        lemma_rank_performance_goes_by(a, b);
    }
    if i == 11 {
        lemma_find_leaders_goes_by(a, b);
    }
    if i == 12 {
        lemma_get_game_summary_goes_by(a, b);
    }
    if i == 13 {
        lemma_get_head_to_head_goes_by(a, b);
    }
    if i == 14 {
        lemma_check_data_coverage_goes_by(a, b);
    }
    if i == 15 {
        lemma_export_query_result_goes_by(a, b);
    }
    if i == 16 {
        lemma_era_adjusted_compare_goes_by(a, b);
    }
    if i == 17 {
        lemma_game_reconstruction_goes_by(a, b);
    }
    if i == 18 {
        lemma_expand_player_profile_goes_by(a, b);
    }
}

proof fn lemma_run_sql_goes_by(a: JsonView, b: JsonView)
    requires
        same_arguments(run_sql_tool().params, a, b),
    ensures
        same_plan(run_sql_tool().name, a, b),
{
    tools::lemma_names_of_tools();
    let ps = run_sql_tool().params;
    assert(ps[0].name == "reasoning"@);
    assert(ps[1].name == "query"@);
}

proof fn lemma_list_tables_goes_by(a: JsonView, b: JsonView)
    requires
        same_arguments(list_tables_tool().params, a, b),
    ensures
        same_plan(list_tables_tool().name, a, b),
{
    tools::lemma_names_of_tools();
    let ps = list_tables_tool().params;
    assert(ps[0].name == "pattern"@);
}

proof fn lemma_search_tables_goes_by(a: JsonView, b: JsonView)
    requires
        same_arguments(search_tables_tool().params, a, b),
    ensures
        same_plan(search_tables_tool().name, a, b),
{
    tools::lemma_names_of_tools();
    let ps = search_tables_tool().params;
    assert(ps[0].name == "keyword"@);
}

proof fn lemma_describe_table_goes_by(a: JsonView, b: JsonView)
    requires
        same_arguments(describe_table_tool().params, a, b),
    ensures
        same_plan(describe_table_tool().name, a, b),
{
    tools::lemma_names_of_tools();
    let ps = describe_table_tool().params;
    assert(ps[0].name == "table_name"@);
}

proof fn lemma_explain_query_goes_by(a: JsonView, b: JsonView)
    requires
        same_arguments(explain_query_tool().params, a, b),
    ensures
        same_plan(explain_query_tool().name, a, b),
{
    tools::lemma_names_of_tools();
    let ps = explain_query_tool().params;
    assert(ps[0].name == "query"@);
}

proof fn lemma_generate_chart_goes_by(a: JsonView, b: JsonView)
    requires
        same_arguments(generate_chart_tool().params, a, b),
    ensures
        same_plan(generate_chart_tool().name, a, b),
{
    tools::lemma_names_of_tools();
    let ps = generate_chart_tool().params;
    assert(ps[0].name == "chart_type"@);
    assert(ps[1].name == "title"@);
    assert(ps[2].name == "sql_query"@);
}

proof fn lemma_compare_players_goes_by(a: JsonView, b: JsonView)
    requires
        same_arguments(compare_players_tool().params, a, b),
    ensures
        same_plan(compare_players_tool().name, a, b),
{
    tools::lemma_names_of_tools();
    let ps = compare_players_tool().params;
    assert(ps[0].name == "player1"@);
    assert(ps[1].name == "player2"@);
    assert(ps[2].name == "season"@);
}

proof fn lemma_compare_teams_goes_by(a: JsonView, b: JsonView)
    requires
        same_arguments(compare_teams_tool().params, a, b),
    ensures
        same_plan(compare_teams_tool().name, a, b),
{
    tools::lemma_names_of_tools();
    let ps = compare_teams_tool().params;
    assert(ps[0].name == "team1"@);
    assert(ps[1].name == "team2"@);
    assert(ps[2].name == "season"@);
}

proof fn lemma_find_streaks_goes_by(a: JsonView, b: JsonView)
    requires
        same_arguments(find_streaks_tool().params, a, b),
    ensures
        same_plan(find_streaks_tool().name, a, b),
{
    tools::lemma_names_of_tools();
    let ps = find_streaks_tool().params;
    assert(ps[0].name == "player_name"@);
    assert(ps[1].name == "streak_type"@);
    assert(ps[2].name == "min_value"@);
}

proof fn lemma_get_player_profile_goes_by(a: JsonView, b: JsonView)
    requires
        same_arguments(get_player_profile_tool().params, a, b),
    ensures
        same_plan(get_player_profile_tool().name, a, b),
{
    tools::lemma_names_of_tools();
    let ps = get_player_profile_tool().params;
    assert(ps[0].name == "player_name"@);
}

proof fn lemma_rank_performance_goes_by(a: JsonView, b: JsonView)
    requires
        same_arguments(rank_performance_tool().params, a, b),
    ensures
        same_plan(rank_performance_tool().name, a, b),
{
    tools::lemma_names_of_tools();
    let ps = rank_performance_tool().params;
    assert(ps[0].name == "stat_name"@);
    assert(ps[1].name == "value"@);
    assert(ps[2].name == "scope"@);
    assert(ps[3].name == "context"@);
}

proof fn lemma_find_leaders_goes_by(a: JsonView, b: JsonView)
    requires
        same_arguments(find_leaders_tool().params, a, b),
    ensures
        same_plan(find_leaders_tool().name, a, b),
{
    tools::lemma_names_of_tools();
    let ps = find_leaders_tool().params;
    assert(ps[0].name == "stat_name"@);
    assert(ps[1].name == "season"@);
    assert(ps[2].name == "limit"@);
}

proof fn lemma_get_game_summary_goes_by(a: JsonView, b: JsonView)
    requires
        same_arguments(get_game_summary_tool().params, a, b),
    ensures
        same_plan(get_game_summary_tool().name, a, b),
{
    tools::lemma_names_of_tools();
    let ps = get_game_summary_tool().params;
    assert(ps[0].name == "game_id"@);
    assert(ps[1].name == "game_date"@);
}

proof fn lemma_get_head_to_head_goes_by(a: JsonView, b: JsonView)
    requires
        same_arguments(get_head_to_head_tool().params, a, b),
    ensures
        same_plan(get_head_to_head_tool().name, a, b),
{
    tools::lemma_names_of_tools();
    let ps = get_head_to_head_tool().params;
    assert(ps[0].name == "team1"@);
    assert(ps[1].name == "team2"@);
    assert(ps[2].name == "season"@);
}

proof fn lemma_check_data_coverage_goes_by(a: JsonView, b: JsonView)
    requires
        same_arguments(check_data_coverage_tool().params, a, b),
    ensures
        same_plan(check_data_coverage_tool().name, a, b),
{
    tools::lemma_names_of_tools();
    let ps = check_data_coverage_tool().params;
    assert(ps[0].name == "entity_type"@);
    assert(ps[1].name == "entity_name"@);
}

proof fn lemma_export_query_result_goes_by(a: JsonView, b: JsonView)
    requires
        same_arguments(export_query_result_tool().params, a, b),
    ensures
        same_plan(export_query_result_tool().name, a, b),
{
    tools::lemma_names_of_tools();
    let ps = export_query_result_tool().params;
    assert(ps[0].name == "query"@);
    assert(ps[1].name == "format"@);
    assert(ps[2].name == "filename"@);
}

proof fn lemma_era_adjusted_compare_goes_by(a: JsonView, b: JsonView)
    requires
        same_arguments(era_adjusted_compare_tool().params, a, b),
    ensures
        same_plan(era_adjusted_compare_tool().name, a, b),
{
    tools::lemma_names_of_tools();
    let ps = era_adjusted_compare_tool().params;
    assert(ps[0].name == "player1"@);
    assert(ps[1].name == "player2"@);
    assert(ps[2].name == "metric"@);
}

proof fn lemma_game_reconstruction_goes_by(a: JsonView, b: JsonView)
    requires
        same_arguments(game_reconstruction_tool().params, a, b),
    ensures
        same_plan(game_reconstruction_tool().name, a, b),
{
    tools::lemma_names_of_tools();
    let ps = game_reconstruction_tool().params;
    assert(ps[0].name == "game_id"@);
    assert(ps[1].name == "game_date"@);
}

proof fn lemma_expand_player_profile_goes_by(a: JsonView, b: JsonView)
    requires
        same_arguments(expand_player_profile_tool().params, a, b),
    ensures
        same_plan(expand_player_profile_tool().name, a, b),
{
    tools::lemma_names_of_tools();
    let ps = expand_player_profile_tool().params;
    assert(ps[0].name == "player_name"@);
}

proof fn lemma_param_read(ps: Seq<ParamView>, n: nat, k: int)
    requires
        0 <= k < n <= ps.len(),
        forall|j: int| k < j < n ==> (#[trigger] ps[j]).name != ps[k].name,
    ensures
        json::member(param_pairs(ps, n), ps[k].name) == Some(param_json(ps[k])),
    decreases n,
{
    let front = param_pairs(ps, (n - 1) as nat);
    lemma_pairs_hold_params(ps, (n - 1) as nat, -1);
    json::law_put_sets_one_key(front, ps[n - 1].name, param_json(ps[n - 1]), ps[k].name);
    if k < n - 1 {
        lemma_param_read(ps, (n - 1) as nat, k);
    }
}

proof fn lemma_required_listed(ps: Seq<ParamView>, n: nat, k: int) -> (at: int)
    requires
        0 <= k < n <= ps.len(),
        ps[k].required,
    ensures
        0 <= at < required_names(ps, n).len(),
        required_names(ps, n)[at] == JsonView::Str(ps[k].name),
    decreases n,
{
    if k == n - 1 {
        required_names(ps, n).len() - 1
    } else {
        lemma_required_listed(ps, (n - 1) as nat, k)
    }
}

proof fn lemma_listed_required(ps: Seq<ParamView>, n: nat, at: int) -> (k: int)
    requires
        n <= ps.len(),
        0 <= at < required_names(ps, n).len(),
    ensures
        0 <= k < n,
        ps[k].required,
        required_names(ps, n)[at] == JsonView::Str(ps[k].name),
    decreases n,
{
    if at < required_names(ps, (n - 1) as nat).len() {
        lemma_listed_required(ps, (n - 1) as nat, at)
    } else {
        n - 1
    }
}

/// A tool as the model gets it carries its name and its description, and each of its
/// parameters with its type and its description; what must be given is listed, and
/// nothing else is.
pub proof fn law_tools_are_shown_as_they_are(t: ToolSpecView, k: int)
    requires
        forall|a: int, b: int|
            0 <= a < b < t.params.len() ==> (#[trigger] t.params[a]).name != (
            #[trigger] t.params[b]).name,
        0 <= k < t.params.len(),
    ensures
        ({
            let f = tool_json(t).at("function"@);
            let p = f.at("parameters"@);
            let one = p.at("properties"@).at(t.params[k].name);
            &&& tool_json(t).str_at("type"@) == Some("function"@)
            &&& f.str_at("name"@) == Some(t.name)
            &&& f.str_at("description"@) == Some(t.description)
            &&& one.str_at("type"@) == Some(t.params[k].kind)
            &&& one.str_at("description"@) == Some(t.params[k].description)
            &&& t.params[k].required <==> (p.at("required"@) matches JsonView::Array(v) && v.contains(
                JsonView::Str(t.params[k].name),
            ))
        }),
{
    lemma_tool_reads(t);
    lemma_params_read(t.params);
    reveal_strlit("function");
    reveal_strlit("type");
    reveal_strlit("description");
    reveal_strlit("name");
    reveal_strlit("parameters");
    assert("function"@.len() == 8 && "type"@.len() == 4 && "description"@.len() == 11);
    assert("name"@.len() == 4 && "parameters"@.len() == 10);
    let p = tool_json(t)->Object_0;
    json::law_objects_hold_their_pairs(p, 0, "function"@);
    json::law_objects_hold_their_pairs(p, 1, "type"@);
    let f = p[0].1->Object_0;
    json::law_objects_hold_their_pairs(f, 0, "description"@);
    json::law_objects_hold_their_pairs(f, 1, "name"@);
    let ps = t.params;
    lemma_param_read(ps, ps.len(), k);
    let one = param_json(ps[k])->Object_0;
    json::law_objects_hold_their_pairs(one, 0, "description"@);
    json::law_objects_hold_their_pairs(one, 1, "type"@);
    let needed = required_names(ps, ps.len());
    if ps[k].required {
        let at = lemma_required_listed(ps, ps.len(), k);
        assert(needed.contains(needed[at]));
    }
    if needed.contains(JsonView::Str(ps[k].name)) {
        let at = choose|at: int|
            0 <= at < needed.len() && needed[at] == JsonView::Str(ps[k].name);
        let m = lemma_listed_required(ps, ps.len(), at);
        assert(ps[m].name == ps[k].name);
        if m < k {
            assert(ps[m].name != ps[k].name);
        }
        if k < m {
            assert(ps[k].name != ps[m].name);
        }
    }
}

/// The parameter is of the type that it is read as, and must be given unless the tool
/// does without it.
pub open spec fn plainly_announced(p: ParamView) -> bool {
    &&& p.kind == if p.name == "min_value"@ || p.name == "limit"@ {
        "integer"@
    } else if p.name == "value"@ {
        "number"@
    } else {
        "string"@
    }
    &&& p.required <==> p.name != "pattern"@ && p.name != "season"@ && p.name != "min_value"@
        && p.name != "context"@ && p.name != "limit"@ && p.name != "game_id"@
        && p.name != "game_date"@ && p.name != "entity_name"@ && p.name != "filename"@
        && p.name != "metric"@
}

proof fn lemma_names_of_parameters()
    ensures
        "reasoning"@.len() == 9,
        "query"@.len() == 5,
        "pattern"@.len() == 7,
        "keyword"@.len() == 7,
        "table_name"@.len() == 10,
        "chart_type"@.len() == 10,
        "title"@.len() == 5,
        "sql_query"@.len() == 9,
        "player1"@.len() == 7,
        "player2"@.len() == 7,
        "season"@.len() == 6,
        "team1"@.len() == 5,
        "team2"@.len() == 5,
        "player_name"@.len() == 11,
        "streak_type"@.len() == 11,
        "min_value"@.len() == 9,
        "stat_name"@.len() == 9,
        "value"@.len() == 5,
        "scope"@.len() == 5,
        "context"@.len() == 7,
        "limit"@.len() == 5,
        "game_id"@.len() == 7,
        "game_date"@.len() == 9,
        "entity_type"@.len() == 11,
        "entity_name"@.len() == 11,
        "format"@.len() == 6,
        "filename"@.len() == 8,
        "metric"@.len() == 6,
        "reasoning"@[0] != "min_value"@[0],
        "reasoning"@[0] != "game_date"@[0],
        "query"@[0] != "value"@[0],
        "query"@[0] != "limit"@[0],
        "pattern"@[0] != "keyword"@[0],
        "pattern"@[1] != "player1"@[1],
        "pattern"@[1] != "player2"@[1],
        "pattern"@[0] != "context"@[0],
        "pattern"@[0] != "game_id"@[0],
        "keyword"@[0] != "context"@[0],
        "keyword"@[0] != "game_id"@[0],
        "title"@[0] != "value"@[0],
        "title"@[0] != "limit"@[0],
        "sql_query"@[0] != "min_value"@[0],
        "sql_query"@[0] != "game_date"@[0],
        "player1"@[0] != "context"@[0],
        "player1"@[0] != "game_id"@[0],
        "player2"@[0] != "context"@[0],
        "player2"@[0] != "game_id"@[0],
        "season"@[0] != "format"@[0],
        "season"@[0] != "metric"@[0],
        "team1"@[0] != "value"@[0],
        "team1"@[0] != "limit"@[0],
        "team2"@[0] != "value"@[0],
        "team2"@[0] != "limit"@[0],
        "player_name"@[0] != "entity_name"@[0],
        "streak_type"@[0] != "entity_name"@[0],
        "min_value"@[0] != "stat_name"@[0],
        "min_value"@[0] != "game_date"@[0],
        "stat_name"@[0] != "game_date"@[0],
        "value"@[0] != "scope"@[0],
        "value"@[0] != "limit"@[0],
        "scope"@[0] != "limit"@[0],
        "context"@[0] != "game_id"@[0],
        "entity_type"@[7] != "entity_name"@[7],
        "format"@[0] != "metric"@[0],
{
    reveal_strlit("reasoning");
    reveal_strlit("query");
    reveal_strlit("pattern");
    reveal_strlit("keyword");
    reveal_strlit("table_name");
    reveal_strlit("chart_type");
    reveal_strlit("title");
    reveal_strlit("sql_query");
    reveal_strlit("player1");
    reveal_strlit("player2");
    reveal_strlit("season");
    reveal_strlit("team1");
    reveal_strlit("team2");
    reveal_strlit("player_name");
    reveal_strlit("streak_type");
    reveal_strlit("min_value");
    reveal_strlit("stat_name");
    reveal_strlit("value");
    reveal_strlit("scope");
    reveal_strlit("context");
    reveal_strlit("limit");
    reveal_strlit("game_id");
    reveal_strlit("game_date");
    reveal_strlit("entity_type");
    reveal_strlit("entity_name");
    reveal_strlit("format");
    reveal_strlit("filename");
    reveal_strlit("metric");
}

/// Numbers are announced as numbers and everything else as text; a pattern, a season, a
/// least value, a context, a limit, a game's number and date, the name of what is
/// looked up, a file's name and a metric may be left out, and nothing else may.
pub proof fn law_parameters_are_announced(i: int, k: int)
    requires
        0 <= i < catalog().len(),
        0 <= k < catalog()[i].params.len(),
    ensures
        plainly_announced(catalog()[i].params[k]),
{
    if i == 0 {
        lemma_run_sql_announced(k);
    }
    if i == 1 {
        lemma_list_tables_announced(k);
    }
    if i == 2 {
        lemma_search_tables_announced(k);
    }
    if i == 3 {
        lemma_describe_table_announced(k);
    }
    if i == 4 {
        lemma_explain_query_announced(k);
    }
    if i == 5 {
        lemma_generate_chart_announced(k);
    }
    if i == 6 {
        lemma_compare_players_announced(k);
    }
    if i == 7 {
        lemma_compare_teams_announced(k);
    }
    if i == 8 {
        lemma_find_streaks_announced(k);
    }
    if i == 9 {
        lemma_get_player_profile_announced(k);
    }
    if i == 10 {
        lemma_rank_performance_announced(k);
    }
    if i == 11 {
        lemma_find_leaders_announced(k);
    }
    if i == 12 {
        lemma_get_game_summary_announced(k);
    }
    if i == 13 {
        lemma_get_head_to_head_announced(k);
    }
    if i == 14 {
        lemma_check_data_coverage_announced(k);
    }
    if i == 15 {
        lemma_export_query_result_announced(k);
    }
    if i == 16 {
        lemma_era_adjusted_compare_announced(k);
    }
    if i == 17 {
        lemma_game_reconstruction_announced(k);
    }
    if i == 18 {
        lemma_expand_player_profile_announced(k);
    }
}

proof fn lemma_run_sql_announced(k: int)
    requires
        0 <= k < run_sql_tool().params.len(),
    ensures
        plainly_announced(run_sql_tool().params[k]),
{
    lemma_names_of_parameters();
    let ps = run_sql_tool().params;
    assert(ps.len() == 2);
    if k == 0 {
        assert(ps[k].name == "reasoning"@);
    }
    if k == 1 {
        assert(ps[k].name == "query"@);
    }
}

proof fn lemma_list_tables_announced(k: int)
    requires
        0 <= k < list_tables_tool().params.len(),
    ensures
        plainly_announced(list_tables_tool().params[k]),
{
    lemma_names_of_parameters();
    let ps = list_tables_tool().params;
    assert(ps.len() == 1);
    if k == 0 {
        assert(ps[k].name == "pattern"@);
    }
}

proof fn lemma_search_tables_announced(k: int)
    requires
        0 <= k < search_tables_tool().params.len(),
    ensures
        plainly_announced(search_tables_tool().params[k]),
{
    lemma_names_of_parameters();
    let ps = search_tables_tool().params;
    assert(ps.len() == 1);
    if k == 0 {
        assert(ps[k].name == "keyword"@);
    }
}

proof fn lemma_describe_table_announced(k: int)
    requires
        0 <= k < describe_table_tool().params.len(),
    ensures
        plainly_announced(describe_table_tool().params[k]),
{
    lemma_names_of_parameters();
    let ps = describe_table_tool().params;
    assert(ps.len() == 1);
    if k == 0 {
        assert(ps[k].name == "table_name"@);
    }
}

proof fn lemma_explain_query_announced(k: int)
    requires
        0 <= k < explain_query_tool().params.len(),
    ensures
        plainly_announced(explain_query_tool().params[k]),
{
    lemma_names_of_parameters();
    let ps = explain_query_tool().params;
    assert(ps.len() == 1);
    if k == 0 {
        assert(ps[k].name == "query"@);
    }
}

proof fn lemma_generate_chart_announced(k: int)
    requires
        0 <= k < generate_chart_tool().params.len(),
    ensures
        plainly_announced(generate_chart_tool().params[k]),
{
    lemma_names_of_parameters();
    let ps = generate_chart_tool().params;
    assert(ps.len() == 3);
    if k == 0 {
        assert(ps[k].name == "chart_type"@);
    }
    if k == 1 {
        assert(ps[k].name == "title"@);
    }
    if k == 2 {
        assert(ps[k].name == "sql_query"@);
    }
}

proof fn lemma_compare_players_announced(k: int)
    requires
        0 <= k < compare_players_tool().params.len(),
    ensures
        plainly_announced(compare_players_tool().params[k]),
{
    lemma_names_of_parameters();
    let ps = compare_players_tool().params;
    assert(ps.len() == 3);
    if k == 0 {
        assert(ps[k].name == "player1"@);
    }
    if k == 1 {
        assert(ps[k].name == "player2"@);
    }
    if k == 2 {
        assert(ps[k].name == "season"@);
    }
}

proof fn lemma_compare_teams_announced(k: int)
    requires
        0 <= k < compare_teams_tool().params.len(),
    ensures
        plainly_announced(compare_teams_tool().params[k]),
{
    lemma_names_of_parameters();
    let ps = compare_teams_tool().params;
    assert(ps.len() == 3);
    if k == 0 {
        assert(ps[k].name == "team1"@);
    }
    if k == 1 {
        assert(ps[k].name == "team2"@);
    }
    if k == 2 {
        assert(ps[k].name == "season"@);
    }
}

proof fn lemma_find_streaks_announced(k: int)
    requires
        0 <= k < find_streaks_tool().params.len(),
    ensures
        plainly_announced(find_streaks_tool().params[k]),
{
    lemma_names_of_parameters();
    let ps = find_streaks_tool().params;
    assert(ps.len() == 3);
    if k == 0 {
        assert(ps[k].name == "player_name"@);
    }
    if k == 1 {
        assert(ps[k].name == "streak_type"@);
    }
    if k == 2 {
        assert(ps[k].name == "min_value"@);
    }
}

proof fn lemma_get_player_profile_announced(k: int)
    requires
        0 <= k < get_player_profile_tool().params.len(),
    ensures
        plainly_announced(get_player_profile_tool().params[k]),
{
    lemma_names_of_parameters();
    let ps = get_player_profile_tool().params;
    assert(ps.len() == 1);
    if k == 0 {
        assert(ps[k].name == "player_name"@);
    }
}

proof fn lemma_rank_performance_announced(k: int)
    requires
        0 <= k < rank_performance_tool().params.len(),
    ensures
        plainly_announced(rank_performance_tool().params[k]),
{
    lemma_names_of_parameters();
    let ps = rank_performance_tool().params;
    assert(ps.len() == 4);
    if k == 0 {
        assert(ps[k].name == "stat_name"@);
    }
    if k == 1 {
        assert(ps[k].name == "value"@);
    }
    if k == 2 {
        assert(ps[k].name == "scope"@);
    }
    if k == 3 {
        assert(ps[k].name == "context"@);
    }
}

proof fn lemma_find_leaders_announced(k: int)
    requires
        0 <= k < find_leaders_tool().params.len(),
    ensures
        plainly_announced(find_leaders_tool().params[k]),
{
    lemma_names_of_parameters();
    let ps = find_leaders_tool().params;
    assert(ps.len() == 3);
    if k == 0 {
        assert(ps[k].name == "stat_name"@);
    }
    if k == 1 {
        assert(ps[k].name == "season"@);
    }
    if k == 2 {
        assert(ps[k].name == "limit"@);
    }
}

proof fn lemma_get_game_summary_announced(k: int)
    requires
        0 <= k < get_game_summary_tool().params.len(),
    ensures
        plainly_announced(get_game_summary_tool().params[k]),
{
    lemma_names_of_parameters();
    let ps = get_game_summary_tool().params;
    assert(ps.len() == 2);
    if k == 0 {
        assert(ps[k].name == "game_id"@);
    }
    if k == 1 {
        assert(ps[k].name == "game_date"@);
    }
}

proof fn lemma_get_head_to_head_announced(k: int)
    requires
        0 <= k < get_head_to_head_tool().params.len(),
    ensures
        plainly_announced(get_head_to_head_tool().params[k]),
{
    lemma_names_of_parameters();
    let ps = get_head_to_head_tool().params;
    assert(ps.len() == 3);
    if k == 0 {
        assert(ps[k].name == "team1"@);
    }
    if k == 1 {
        assert(ps[k].name == "team2"@);
    }
    if k == 2 {
        assert(ps[k].name == "season"@);
    }
}

proof fn lemma_check_data_coverage_announced(k: int)
    requires
        0 <= k < check_data_coverage_tool().params.len(),
    ensures
        plainly_announced(check_data_coverage_tool().params[k]),
{
    lemma_names_of_parameters();
    let ps = check_data_coverage_tool().params;
    assert(ps.len() == 2);
    if k == 0 {
        assert(ps[k].name == "entity_type"@);
    }
    if k == 1 {
        assert(ps[k].name == "entity_name"@);
    }
}

proof fn lemma_export_query_result_announced(k: int)
    requires
        0 <= k < export_query_result_tool().params.len(),
    ensures
        plainly_announced(export_query_result_tool().params[k]),
{
    lemma_names_of_parameters();
    let ps = export_query_result_tool().params;
    assert(ps.len() == 3);
    if k == 0 {
        assert(ps[k].name == "query"@);
    }
    if k == 1 {
        assert(ps[k].name == "format"@);
    }
    if k == 2 {
        assert(ps[k].name == "filename"@);
    }
}

proof fn lemma_era_adjusted_compare_announced(k: int)
    requires
        0 <= k < era_adjusted_compare_tool().params.len(),
    ensures
        plainly_announced(era_adjusted_compare_tool().params[k]),
{
    lemma_names_of_parameters();
    let ps = era_adjusted_compare_tool().params;
    assert(ps.len() == 3);
    if k == 0 {
        assert(ps[k].name == "player1"@);
    }
    if k == 1 {
        assert(ps[k].name == "player2"@);
    }
    if k == 2 {
        assert(ps[k].name == "metric"@);
    }
}

proof fn lemma_game_reconstruction_announced(k: int)
    requires
        0 <= k < game_reconstruction_tool().params.len(),
    ensures
        plainly_announced(game_reconstruction_tool().params[k]),
{
    lemma_names_of_parameters();
    let ps = game_reconstruction_tool().params;
    assert(ps.len() == 2);
    if k == 0 {
        assert(ps[k].name == "game_id"@);
    }
    if k == 1 {
        assert(ps[k].name == "game_date"@);
    }
}

proof fn lemma_expand_player_profile_announced(k: int)
    requires
        0 <= k < expand_player_profile_tool().params.len(),
    ensures
        plainly_announced(expand_player_profile_tool().params[k]),
{
    lemma_names_of_parameters();
    let ps = expand_player_profile_tool().params;
    assert(ps.len() == 1);
    if k == 0 {
        assert(ps[k].name == "player_name"@);
    }
}

}
