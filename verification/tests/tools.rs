use nba_agent::agent::{args_to_tool_start_fields, Agent, ToolResult};
use nba_agent::db::{Cell, DbContext, EngineReply, QueryStart, RowCollector};
use nba_agent::json::Json;
use nba_agent::tool_catalog::tool_specs;
use nba_agent::tool_reply::{count_rows, quote_cell, rows_to_csv, DbReply, ToolStep};
use nba_agent::tool_sql::quote_literal;
use nba_agent::tools::DbRequest;

fn args(text: &str) -> Json {
    Json::from_text(text).unwrap()
}

#[test]
fn test_tool_start_fields_run_sql() {
    let (r, p) = args_to_tool_start_fields("run_sql", &args(r#"{"reasoning": "why", "query": "SELECT 1"}"#));
    assert_eq!(r, "why");
    assert_eq!(p, "SELECT 1");
}

#[test]
fn test_tool_start_fields_list_tables() {
    let (r, p) = args_to_tool_start_fields("list_tables", &args(r#"{"pattern": "game%"}"#));
    assert!(r.contains("game%"), "{}", r);
    assert_eq!(p, "game%");
}

#[test]
fn test_tool_start_fields_search_tables() {
    let (r, p) = args_to_tool_start_fields("search_tables", &args(r#"{"keyword": "player"}"#));
    assert!(r.contains("player"));
    assert_eq!(p, "player");
}

#[test]
fn test_tool_start_fields_describe_table() {
    let (r, p) = args_to_tool_start_fields("describe_table", &args(r#"{"table_name": "game"}"#));
    assert!(r.contains("game"));
    assert_eq!(p, "game");
}

#[test]
fn test_tool_start_fields_explain_query() {
    let (r, _) = args_to_tool_start_fields("explain_query", &args(r#"{"query": "SELECT 1"}"#));
    assert!(r.contains("query plan"));
}

#[test]
fn test_tool_start_fields_generate_chart() {
    let (r, p) = args_to_tool_start_fields(
        "generate_chart",
        &args(r#"{"chart_type": "pie", "title": "Pts", "sql_query": "SELECT 1"}"#),
    );
    assert!(r.contains("pie") && r.contains("Pts"));
    assert_eq!(p, "SELECT 1");
}

#[test]
fn test_tool_start_fields_compare_players() {
    let (r, p) = args_to_tool_start_fields("compare_players", &args(r#"{"player1": "A", "player2": "B"}"#));
    assert!(r.contains("A vs B"));
    assert!(p.contains("player1"));
}

#[test]
fn test_tool_start_fields_compare_teams() {
    let (r, p) = args_to_tool_start_fields("compare_teams", &args(r#"{"team1": "X", "team2": "Y"}"#));
    assert!(r.contains("X vs Y"));
    assert!(p.contains("team1"));
}

#[test]
fn test_tool_start_fields_find_streaks() {
    let (r, p) = args_to_tool_start_fields("find_streaks", &args(r#"{"player_name": "P", "streak_type": "points"}"#));
    assert!(r.contains("points") && r.contains("P"));
    assert!(p.contains("streak_type"));
}

#[test]
fn test_tool_start_fields_get_player_profile() {
    let (r, p) = args_to_tool_start_fields("get_player_profile", &args(r#"{"player_name": "Curry"}"#));
    assert!(r.contains("Curry"));
    assert_eq!(p, "Curry");
}

#[test]
fn test_tool_start_fields_rank_performance() {
    let (r, p) = args_to_tool_start_fields("rank_performance", &args(r#"{"stat_name": "points"}"#));
    assert!(r.contains("points"));
    assert!(p.contains("stat_name"));
}

#[test]
fn test_tool_start_fields_find_leaders() {
    let (r, p) = args_to_tool_start_fields("find_leaders", &args(r#"{"stat_name": "rebounds"}"#));
    assert!(r.contains("rebounds"));
    assert!(p.contains("stat_name"));
}

#[test]
fn test_tool_start_fields_get_game_summary() {
    let (r, p) = args_to_tool_start_fields("get_game_summary", &args(r#"{"game_id": "0022200001"}"#));
    assert!(r.contains("0022200001"));
    assert!(p.contains("game_id"));
}

#[test]
fn test_tool_start_fields_get_head_to_head() {
    let (r, p) = args_to_tool_start_fields("get_head_to_head", &args(r#"{"team1": "LAL", "team2": "BOS"}"#));
    assert!(r.contains("LAL") && r.contains("BOS"));
    assert!(p.contains("team1"));
}

#[test]
fn test_tool_start_fields_check_data_coverage() {
    let (r, p) = args_to_tool_start_fields("check_data_coverage", &args(r#"{"entity_type": "player"}"#));
    assert!(r.contains("player"));
    assert!(p.contains("entity_type"));
}

#[test]
fn test_tool_start_fields_export_query_result() {
    let (r, p) = args_to_tool_start_fields("export_query_result", &args(r#"{"format": "csv"}"#));
    assert!(r.contains("Exporting query result"));
    assert!(p.contains("csv"));
}

#[test]
fn test_tool_start_fields_era_adjusted_compare() {
    let (r, _) = args_to_tool_start_fields("era_adjusted_compare", &args(r#"{"player1": "A", "player2": "B"}"#));
    assert!(r.contains("A vs B"));
}

#[test]
fn test_tool_start_fields_game_reconstruction() {
    let (r, _) = args_to_tool_start_fields("game_reconstruction", &args(r#"{"game_id": "0022200001"}"#));
    assert!(r.contains("0022200001"));
}

#[test]
fn test_tool_start_fields_expand_player_profile() {
    let (r, p) = args_to_tool_start_fields("expand_player_profile", &args(r#"{"player_name": "KD"}"#));
    assert!(r.contains("KD"));
    assert_eq!(p, "KD");
}

#[test]
fn test_tool_start_fields_unknown() {
    let (r, p) = args_to_tool_start_fields("mystery", &args(r#"{"a": 1}"#));
    assert!(r.contains("mystery"));
    assert!(p.contains("a"));
}

#[test]
fn test_tool_start_fields_defaults_on_missing_args() {
    let (r, p) = args_to_tool_start_fields("run_sql", &args(r#"{}"#));
    assert_eq!(r, "Executing query");
    assert_eq!(p, "");
}

/// What a scripted warehouse gives for a request that reaches it.
enum Found {
    Table(&'static [&'static str], Vec<Vec<Cell>>),
    Names(&'static [&'static str]),
    Text(&'static str),
    Error(&'static str),
}

fn t(s: &str) -> Cell {
    Cell::Text(s.as_bytes().to_vec())
}

fn asked(db: &mut DbContext, query: String, max_rows: Option<usize>, found: Found) -> DbReply {
    let pending = match db.run_sql(query, max_rows) {
        QueryStart::Rejected(e) => return DbReply::Failed(e),
        QueryStart::Cached(rows) => return DbReply::Rows(rows),
        QueryStart::Run(p) => p,
    };
    let reply = match found {
        Found::Table(columns, rows) => {
            let mut batch = RowCollector::new(pending.max_rows);
            for r in rows {
                if !batch.offer(r) {
                    break;
                }
            }
            EngineReply::Rows { columns: columns.iter().map(|c| c.to_string()).collect(), batch }
        }
        Found::Error(e) => EngineReply::Failed(e.to_string()),
        _ => panic!("a query gives a table"),
    };
    match db.finish_sql(pending, reply, 1) {
        Ok(rows) => DbReply::Rows(rows),
        Err(e) => DbReply::Failed(e),
    }
}

fn execute(name: &str, a: &Json, mut found: Vec<Found>) -> ToolResult {
    let mut db = DbContext::new(200, 60, 50);
    let plan = Agent::plan_tool(name, a);
    found.reverse();
    let mut next = || found.pop().expect("a scripted reply");
    let reply = match &plan.request {
        DbRequest::Sql { query, max_rows } => {
            let f = if DbContext::validate_sql(query).is_ok() { next() } else { Found::Error("") };
            asked(&mut db, query.clone(), *max_rows, f)
        }
        DbRequest::Nothing => DbReply::Nothing,
        _ => match next() {
            Found::Names(v) => DbReply::Names(v.iter().map(|s| s.to_string()).collect()),
            Found::Text(s) => DbReply::Text(s.to_string()),
            Found::Error(e) => DbReply::Failed(e.to_string()),
            Found::Table(..) => panic!("only a query gives a table"),
        },
    };
    let result = match Agent::tool_reply(&plan, reply) {
        ToolStep::Done(s) => s,
        ToolStep::Retry { error, fixed_query } => {
            let f = if DbContext::validate_sql(&fixed_query).is_ok() { next() } else { Found::Error("") };
            let second = asked(&mut db, fixed_query.clone(), None, f);
            Agent::retry_reply(&error, &fixed_query, second)
        }
    };
    Agent::finish_tool(&plan, result, 3)
}

fn no_error(r: &ToolResult) -> bool {
    !r.result_str.starts_with("Error") && !r.result_str.starts_with("Tool `")
}

#[test]
fn test_tool_run_sql() {
    let r = execute(
        "run_sql",
        &args(r#"{"query": "SELECT COUNT(*) as n FROM player"}"#),
        vec![Found::Table(&["n"], vec![vec![Cell::BigInt(4831)]])],
    );
    assert!(no_error(&r), "run_sql failed: {}", r.result_str);
    assert!(r.row_count > 0, "run_sql should return rows");
}

#[test]
fn test_tool_run_sql_rejects_destructive() {
    let r = execute(
        "run_sql",
        &args(r#"{"query": "DROP TABLE player"}"#),
        vec![],
    );
    assert!(r.result_str.contains("rejected"), "destructive SQL must be rejected, got: {}", r.result_str);
}

#[test]
fn test_tool_list_tables() {
    let r = execute(
        "list_tables",
        &args(r#"{}"#),
        vec![Found::Names(&["game", "player"])],
    );
    assert!(no_error(&r), "list_tables failed: {}", r.result_str);
    assert!(r.row_count > 0);
}

#[test]
fn test_tool_search_tables() {
    let r = execute(
        "search_tables",
        &args(r#"{"keyword": "player"}"#),
        vec![Found::Text("{}")],
    );
    assert!(no_error(&r), "search_tables failed: {}", r.result_str);
}

#[test]
fn test_tool_describe_table() {
    let r = execute(
        "describe_table",
        &args(r#"{"table_name": "game"}"#),
        vec![Found::Text("{\"columns\": [{\"name\": \"game_id\"}]}")],
    );
    assert!(no_error(&r), "describe_table failed: {}", r.result_str);
    assert!(r.result_str.contains("game_id"), "describe_table should list game_id");
}

#[test]
fn test_tool_explain_query() {
    let r = execute(
        "explain_query",
        &args(r#"{"query": "SELECT * FROM game LIMIT 1"}"#),
        vec![Found::Table(&["explain_value"], vec![vec![t("SEQ_SCAN")]])],
    );
    assert!(no_error(&r), "explain_query failed: {}", r.result_str);
}

#[test]
fn test_tool_generate_chart() {
    let r = execute(
        "generate_chart",
        &args(r#"{"chart_type": "bar", "title": "Test", "sql_query": "SELECT team_name_home, pts_home FROM game LIMIT 5"}"#),
        vec![Found::Table(&["team_name_home", "pts_home"], vec![vec![t("Lakers"), Cell::Int(99)]])],
    );
    assert!(no_error(&r), "generate_chart failed: {}", r.result_str);
    assert_eq!(r.reasoning, "Generating bar chart: 'Test'");
    assert!(r.result_str.starts_with("{\n  \"chart_type\": \"bar\",\n  \"data_rows\": ["));
    assert_eq!(r.row_count, 0);
}

#[test]
fn test_tool_compare_players() {
    let r = execute(
        "compare_players",
        &args(r#"{"player1": "LeBron James", "player2": "Michael Jordan"}"#),
        vec![Found::Table(&["player_name"], vec![vec![t("LeBron James")], vec![t("Michael Jordan")]])],
    );
    assert!(no_error(&r), "compare_players failed: {}", r.result_str);
    assert!(r.row_count >= 2, "compare_players should return both players, got {} rows", r.row_count);
    assert!(r.result_str.contains("LeBron James"), "missing LeBron (player table join)");
}

#[test]
fn test_tool_compare_players_season_filter() {
    let r = execute(
        "compare_players",
        &args(r#"{"player1": "LeBron James", "player2": "Michael Jordan", "season": "2022-23"}"#),
        vec![Found::Table(&["player_name"], vec![vec![t("LeBron James")]])],
    );
    assert!(no_error(&r), "compare_players season failed: {}", r.result_str);
    assert!(r.row_count > 0 || r.result_str.contains("LeBron"), "season filter should still find LeBron");
    assert!(r.param_str.contains(" AND season_id = '2022-23'"));
}

#[test]
fn test_tool_compare_teams() {
    let r = execute(
        "compare_teams",
        &args(r#"{"team1": "Lakers", "team2": "Celtics", "season": "2022-23"}"#),
        vec![Found::Table(&["team_name"], vec![vec![t("Lakers")]])],
    );
    assert!(no_error(&r), "compare_teams failed: {}", r.result_str);
    assert!(r.row_count > 0, "compare_teams should return rows");
}

#[test]
fn test_tool_find_streaks() {
    let r = execute(
        "find_streaks",
        &args(r#"{"player_name": "LeBron James", "streak_type": "points", "min_value": 30}"#),
        vec![Found::Table(&["streak_start", "streak_length"], vec![vec![t("2006"), Cell::BigInt(10)]])],
    );
    assert!(no_error(&r), "find_streaks failed: {}", r.result_str);
    assert!(r.row_count > 0, "find_streaks should find 30pt streaks");
    assert!(r.result_str.contains("\"streak_length\""), "streak result should have streak_length");
    assert_eq!(r.reasoning, "Finding points streaks for LeBron James (min 30)");
}

#[test]
fn test_tool_find_streaks_wins() {
    let r = execute(
        "find_streaks",
        &args(r#"{"player_name": "LeBron James", "streak_type": "wins"}"#),
        vec![Found::Table(&["streak_length"], vec![vec![Cell::BigInt(27)]])],
    );
    assert!(no_error(&r), "find_streaks wins failed: {}", r.result_str);
    assert!(r.row_count > 0, "find_streaks wins should return rows");
    assert!(r.param_str.contains("team_score > opp_score"));
    assert_eq!(r.reasoning, "Finding wins streaks for LeBron James (min 0)");
}

#[test]
fn test_tool_get_player_profile() {
    let r = execute(
        "get_player_profile",
        &args(r#"{"player_name": "Stephen Curry"}"#),
        vec![Found::Table(&["player_name"], vec![vec![t("Stephen Curry")]])],
    );
    assert!(no_error(&r), "get_player_profile failed: {}", r.result_str);
    assert!(r.row_count > 0);
    assert!(r.result_str.contains("Stephen Curry"));
}

#[test]
fn test_tool_rank_performance_season() {
    let r = execute(
        "rank_performance",
        &args(r#"{"stat_name": "points", "value": 2500, "scope": "season", "context": "2022-23"}"#),
        vec![Found::Table(&["player_name"], vec![])],
    );
    assert!(no_error(&r), "rank_performance failed: {}", r.result_str);
    assert_eq!(r.reasoning, "Ranking points = 2500 in season (2022-23)");
    assert!(r.param_str.contains("WHERE season_id = '2022-23' "));
    assert!(r.param_str.contains("stat_val <= 2500 ORDER BY rank"));
}

#[test]
fn test_tool_find_leaders() {
    let r = execute(
        "find_leaders",
        &args(r#"{"stat_name": "points", "season": "2022-23", "limit": 5}"#),
        vec![Found::Table(&["player_name"], (0..5).map(|i| vec![Cell::Int(i)]).collect())],
    );
    assert!(no_error(&r), "find_leaders failed: {}", r.result_str);
    assert!(r.row_count == 5, "find_leaders limit 5, got {}", r.row_count);
    assert!(r.param_str.ends_with("ORDER BY ppg DESC LIMIT 5"));
}

#[test]
fn test_tool_find_leaders_no_season() {
    let r = execute(
        "find_leaders",
        &args(r#"{"stat_name": "points", "limit": 10}"#),
        vec![Found::Table(&["player_name"], (0..10).map(|i| vec![Cell::Int(i)]).collect())],
    );
    assert!(no_error(&r), "find_leaders (no season) failed: {}", r.result_str);
    assert!(r.row_count == 10, "find_leaders limit 10, got {}", r.row_count);
}

#[test]
fn test_tool_find_leaders_threes() {
    let r = execute(
        "find_leaders",
        &args(r#"{"stat_name": "threes", "limit": 3}"#),
        vec![Found::Table(&["player_name"], vec![vec![t("A")]])],
    );
    assert!(no_error(&r), "find_leaders threes failed: {}", r.result_str);
    assert!(r.row_count > 0);
}

#[test]
fn test_tool_get_game_summary() {
    let r = execute(
        "get_game_summary",
        &args(r#"{"game_id": "0022200001"}"#),
        vec![Found::Table(&["game_id"], vec![vec![t("0022200001")]])],
    );
    assert!(no_error(&r), "get_game_summary failed: {}", r.result_str);
    assert!(r.row_count > 0, "get_game_summary should find game 0022200001");
    assert!(r.result_str.contains("0022200001"));
}

#[test]
fn test_tool_get_game_summary_by_date() {
    let r = execute(
        "get_game_summary",
        &args(r#"{"game_date": "2022-10-18"}"#),
        vec![Found::Table(&["game_id"], vec![])],
    );
    assert!(no_error(&r), "get_game_summary by date failed: {}", r.result_str);
    assert!(r.param_str.contains("WHERE g.game_date = '2022-10-18' ORDER BY"));
}

#[test]
fn test_tool_get_head_to_head() {
    let r = execute(
        "get_head_to_head",
        &args(r#"{"team1": "Lakers", "team2": "Celtics"}"#),
        vec![Found::Table(&["home_team"], vec![vec![t("Lakers")], vec![t("Celtics")]])],
    );
    assert!(no_error(&r), "get_head_to_head failed: {}", r.result_str);
    assert!(r.row_count >= 2, "h2h should return record + recent games, got {} rows", r.row_count);
}

#[test]
fn test_tool_check_data_coverage_team() {
    let r = execute(
        "check_data_coverage",
        &args(r#"{"entity_type": "team", "entity_name": "Lakers"}"#),
        vec![Found::Table(&["table_name"], vec![vec![t("fact_team_game_stats")]])],
    );
    assert!(no_error(&r), "coverage team failed: {}", r.result_str);
    assert!(r.row_count > 0);
    assert!(r.result_str.contains("fact_team_game_stats"));
    assert!(r.param_str.contains("fact_team_game_stats"));
}

#[test]
fn test_tool_check_data_coverage_player() {
    let r = execute(
        "check_data_coverage",
        &args(r#"{"entity_type": "player", "entity_name": "LeBron James"}"#),
        vec![Found::Table(&["table_name"], vec![vec![t("player_game_stats")]])],
    );
    assert!(no_error(&r), "coverage player failed: {}", r.result_str);
    assert!(r.row_count > 0);
}

#[test]
fn test_tool_check_data_coverage_season() {
    let r = execute(
        "check_data_coverage",
        &args(r#"{"entity_type": "season", "entity_name": "22022"}"#),
        vec![Found::Table(&["table_name"], vec![vec![t("game")]])],
    );
    assert!(no_error(&r), "coverage season failed: {}", r.result_str);
    assert!(r.row_count > 0);
}

#[test]
fn test_tool_export_query_result_csv() {
    let r = execute(
        "export_query_result",
        &args(r#"{"query": "SELECT game_id, pts_home, pts_away FROM game LIMIT 3", "format": "csv"}"#),
        vec![Found::Table(&["game_id", "pts_home", "pts_away"], vec![vec![t("1"), Cell::Int(2), Cell::Int(3)]])],
    );
    assert!(no_error(&r), "export csv failed: {}", r.result_str);
    assert!(r.result_str.contains("game_id"), "CSV should have header");
    assert_eq!(r.result_str, "game_id,pts_away,pts_home\n1,3,2");
}

#[test]
fn test_tool_export_query_result_json() {
    let r = execute(
        "export_query_result",
        &args(r#"{"query": "SELECT game_id FROM game LIMIT 2", "format": "json"}"#),
        vec![Found::Table(&["game_id"], vec![vec![t("1")]])],
    );
    assert!(no_error(&r), "export json failed: {}", r.result_str);
}

#[test]
fn test_tool_era_adjusted_compare() {
    let r = execute(
        "era_adjusted_compare",
        &args(r#"{"player1": "LeBron James", "player2": "Kareem Abdul-Jabbar"}"#),
        vec![Found::Table(&["era_ratio"], vec![vec![Cell::Int(1)]])],
    );
    assert!(no_error(&r), "era_adjusted_compare failed: {}", r.result_str);
    assert!(r.row_count > 0, "era_adjusted_compare should return rows");
    assert!(r.result_str.contains("era_ratio"), "should compute era_ratio");
}

#[test]
fn test_tool_game_reconstruction() {
    let r = execute(
        "game_reconstruction",
        &args(r#"{"game_id": "0022200001"}"#),
        vec![Found::Table(&["player1_name"], vec![vec![t("A")]])],
    );
    assert!(no_error(&r), "game_reconstruction failed: {}", r.result_str);
    assert!(r.row_count > 0, "game_reconstruction should find play-by-play for 0022200001");
    assert!(r.result_str.contains("player1_name") || r.row_count > 0);
    assert!(r.param_str.contains("WHERE pbp.game_id = '0022200001' ORDER BY pbp.period"));
}

#[test]
fn test_tool_expand_player_profile() {
    let r = execute(
        "expand_player_profile",
        &args(r#"{"player_name": "LeBron James"}"#),
        vec![Found::Table(&["section"], ["career", "best_season", "best_season", "best_season", "best_season", "best_season"].iter().map(|s| vec![t(s)]).collect())],
    );
    assert!(no_error(&r), "expand_player_profile failed: {}", r.result_str);
    assert!(r.row_count >= 6, "expand should return career + 5 best seasons, got {}", r.row_count);
    assert!(r.result_str.contains("career") && r.result_str.contains("best_season"));
}

#[test]
fn test_tool_expand_player_profile_playoffs() {
    let r = execute(
        "expand_player_profile",
        &args(r#"{"player_name": "Michael Jordan"}"#),
        vec![Found::Table(&["section"], vec![vec![t("playoff")]])],
    );
    assert!(no_error(&r), "expand MJ failed: {}", r.result_str);
    assert!(r.result_str.contains("playoff"), "MJ should have playoff section");
}

#[test]
fn test_tool_unknown() {
    let r = execute(
        "not_a_tool",
        &args(r#"{}"#),
        vec![],
    );
    assert!(r.result_str.contains("not supported"), "unknown tool: {}", r.result_str);
    assert_eq!(r.result_str, "Tool `not_a_tool` not supported.");
    assert_eq!((r.reasoning.as_str(), r.param_str.as_str()), ("Unknown tool", "not_a_tool"));
}

#[test]
fn test_tool_sql_injection_safe() {
    let r = execute(
        "compare_players",
        &args(r#"{"player1": "Robert'); DROP TABLE player; --", "player2": "Michael Jordan"}"#),
        vec![Found::Table(&["player_name"], vec![])],
    );
    assert!(
        no_error(&r) || r.result_str.contains("rejected") || r.result_str.contains("Error"),
        "injection attempt produced unexpected result: {}",
        r.result_str
        );
    assert!(r.param_str.contains("IN ('Robert''); DROP TABLE player; --', 'Michael Jordan')"));
}

#[test]
fn test_tool_missing_required_args() {
    let r = execute(
        "compare_players",
        &args(r#"{}"#),
        vec![Found::Table(&["player_name"], vec![])],
    );
    assert!(!r.result_str.is_empty());
}

#[test]
fn test_tool_bad_table_describe() {
    let r = execute(
        "describe_table",
        &args(r#"{"table_name": "no_such_table_xyz"}"#),
        vec![Found::Error("Catalog Error: Table with name no_such_table_xyz does not exist!")],
    );
    assert!(r.result_str.contains("Error"), "bad table should error, got: {}", r.result_str);
}

#[test]
fn test_tool_rank_performance_career() {
    let r = execute(
        "rank_performance",
        &args(r#"{"stat_name": "points", "value": 30000, "scope": "career", "context": "LeBron James"}"#),
        vec![Found::Table(&["player_name"], vec![])],
    );
    assert!(no_error(&r), "rank career failed: {}", r.result_str);
    assert!(r.param_str.contains("WHERE player_name = 'LeBron James' "));
}

#[test]
fn test_tool_rank_performance_franchise() {
    let r = execute(
        "rank_performance",
        &args(r#"{"stat_name": "points", "value": 1000, "scope": "franchise", "context": "Lakers"}"#),
        vec![Found::Table(&["player_name"], vec![])],
    );
    assert!(no_error(&r), "rank franchise failed: {}", r.result_str);
    assert!(r.param_str.contains("WHERE team_name = 'Lakers' "));
}

#[test]
fn test_tool_result_serializable() {
    let r = execute(
        "list_tables",
        &args(r#"null"#),
        vec![Found::Names(&["game"])],
    );
    assert!(no_error(&r), "list_tables with null args failed: {}", r.result_str);
}

#[test]
fn test_run_sql_auto_fix_retry_success() {
    let e = "Binder Error: Referenced column \"player_name\" not found in FROM clause!\nCandidate bindings: \"first_name\"\n";
    let r = execute(
        "run_sql",
        &args(r#"{"query": "SELECT player_name FROM player LIMIT 1"}"#),
        vec![Found::Error(e), Found::Table(&["first_name"], vec![vec![t("LeBron")]])],
    );
    assert!(
        r.result_str.contains("Auto-corrected") || r.result_str.contains("SQL Error"),
        "expected auto-fix path result, got: {}",
        r.result_str
    );
    assert_eq!(
        r.result_str,
        "[Auto-corrected column name and retried successfully]\n[\n  {\n    \"first_name\": \"LeBron\"\n  }\n]"
    );
    assert_eq!(r.param_str, "SELECT player_name FROM player LIMIT 1");
    assert_eq!((r.row_count, r.elapsed_ms), (0, 3));
}

#[test]
fn test_run_sql_no_fix_no_candidates() {
    let r = execute(
        "run_sql",
        &args(r#"{"query": "SELECT zzz_not_a_col FROM player LIMIT 1"}"#),
        vec![Found::Error("Binder Error: no such column")],
    );
    assert!(!r.result_str.is_empty(), "should return a result");
    assert_eq!(r.result_str, "SQL Error: Binder Error: no such column");
}

#[test]
fn test_run_sql_auto_fix_retry_still_fails() {
    let r = execute("run_sql", &args(r#"{"query": "SELECT player_name FROM"}"#), vec![]);
    assert!(r.result_str.contains("Error"), "got: {}", r.result_str);
    let e = "Referenced column \"a\" not found\nCandidate bindings: \"b\"";
    let r = execute(
        "run_sql",
        &args(r#"{"query": "SELECT a FROM t"}"#),
        vec![Found::Error(e), Found::Error("worse")],
    );
    assert_eq!(
        r.result_str,
        format!("SQL Error (original): {}\nAuto-fix attempt (SELECT b FROM t): worse", e)
    );
}

#[test]
fn errors_carry_the_label_of_their_tool() {
    let cases = [
        ("list_tables", "List Error: x"),
        ("search_tables", "Search Error: x"),
        ("describe_table", "Describe Error: x"),
    ];
    for (name, want) in cases {
        assert_eq!(execute(name, &args("{}"), vec![Found::Error("x")]).result_str, want);
    }
    let chart = args(r#"{"sql_query": "SELECT 1"}"#);
    let r = execute("generate_chart", &chart, vec![Found::Error("x")]);
    assert_eq!(r.result_str, "Chart Query Error: x");
    let q = args(r#"{"query": "SELECT 1"}"#);
    assert_eq!(execute("explain_query", &q, vec![Found::Error("x")]).result_str, "Explain Error: x");
    assert_eq!(execute("export_query_result", &q, vec![Found::Error("x")]).result_str, "Error: x");
    assert_eq!(execute("explain_query", &q, vec![Found::Error("x")]).param_str, "SELECT 1");
}

#[test]
fn plans_ask_for_so_many_rows() {
    let rows = |name: &str, a: &str| match Agent::plan_tool(name, &args(a)).request {
        DbRequest::Sql { max_rows, .. } => max_rows,
        _ => panic!("a query"),
    };
    assert_eq!(rows("run_sql", "{}"), None);
    assert_eq!(rows("explain_query", "{}"), Some(20));
    assert_eq!(rows("generate_chart", "{}"), Some(30));
    assert_eq!(rows("compare_players", "{}"), Some(100));
    assert_eq!(rows("compare_teams", "{}"), Some(100));
    assert_eq!(rows("find_streaks", "{}"), Some(20));
    assert_eq!(rows("get_player_profile", "{}"), Some(20));
    assert_eq!(rows("rank_performance", "{}"), Some(20));
    assert_eq!(rows("find_leaders", "{}"), Some(10));
    assert_eq!(rows("find_leaders", r#"{"limit": 3}"#), Some(3));
    assert_eq!(rows("get_game_summary", "{}"), Some(10));
    assert_eq!(rows("get_head_to_head", "{}"), Some(20));
    assert_eq!(rows("check_data_coverage", "{}"), Some(10));
    assert_eq!(rows("export_query_result", "{}"), Some(500));
    assert_eq!(rows("era_adjusted_compare", "{}"), Some(100));
    assert_eq!(rows("game_reconstruction", "{}"), Some(200));
    assert_eq!(rows("expand_player_profile", "{}"), Some(30));
}

#[test]
fn every_planned_query_is_a_read() {
    for spec in tool_specs() {
        let a = args(r#"{"query": "SELECT 1", "sql_query": "SELECT 1", "player_name": "O'Neal", "value": 1.5}"#);
        let plan = Agent::plan_tool(&spec.name, &a);
        if let DbRequest::Sql { query, .. } = &plan.request {
            assert!(DbContext::validate_sql(query).is_ok(), "{}: {}", spec.name, query);
        }
    }
}

#[test]
fn plans_fill_in_what_is_missing() {
    let p = Agent::plan_tool("rank_performance", &args("{}"));
    assert_eq!(p.reasoning, "Ranking points = 0 in nba_history ()");
    assert!(p.param_str.contains("FROM player_game_stats  GROUP BY"));
    let p = Agent::plan_tool("rank_performance", &args(r#"{"value": 2.5, "stat_name": "assists"}"#));
    assert!(p.param_str.contains("SUM(total_ast)") && p.param_str.contains("stat_val <= 2.5 "));
    let p = Agent::plan_tool("find_streaks", &args(r#"{"streak_type": "10ast", "player_name": "A"}"#));
    assert_eq!(p.reasoning, "Finding 10ast streaks for A (min 10)");
    assert!(p.param_str.contains("CASE WHEN ast >= 10 THEN"));
    let p = Agent::plan_tool("find_leaders", &args(r#"{"stat_name": "threes", "season": "a'b"}"#));
    assert!(p.param_str.contains("ROUND(AVG(fg3m),1) as \"3pg\""));
    assert!(p.param_str.contains("WHERE 1=1 AND season_id = 'a''b' GROUP BY"));
    let p = Agent::plan_tool("check_data_coverage", &args(r#"{"entity_type": "moon"}"#));
    assert_eq!(p.param_str, "SELECT 'unknown' as table_name, 0 as row_count");
    let p = Agent::plan_tool("check_data_coverage", &args(r#"{"entity_type": "table", "entity_name": "o'clock"}"#));
    assert_eq!(
        p.param_str,
        "SELECT table_name, estimated_size as row_count, column_count FROM duckdb_tables() WHERE schema_name = 'main' AND table_name = 'o''clock'"
    );
    assert!(DbContext::validate_sql(&p.param_str).is_ok());
    let p = Agent::plan_tool("find_streaks", &args(r#"{"player_name": "A", "min_value": 25}"#));
    assert_eq!(
        p.param_str,
        "WITH game_flags AS ( SELECT game_id, game_date, pts, CASE WHEN pts >= 25 THEN 1 ELSE 0 END as above FROM player_game_stats WHERE player_name = 'A' ), streak_groups AS ( SELECT *, SUM(CASE WHEN above = 0 THEN 1 ELSE 0 END) OVER (ORDER BY game_date) as grp FROM game_flags ) SELECT MIN(game_date) as streak_start, MAX(game_date) as streak_end, COUNT(*) as streak_length, MIN(pts) as min_val, MAX(pts) as max_val FROM streak_groups WHERE above = 1 GROUP BY grp ORDER BY streak_length DESC LIMIT 10"
    );
    let p = Agent::plan_tool("find_streaks", &args(r#"{"player_name": "A", "streak_type": "wins"}"#));
    assert!(p.param_str.contains("as grp FROM game_flags ) SELECT"));
    assert!(p.param_str.contains("FROM streak_groups WHERE won = 1 GROUP BY grp"));
    assert!(DbContext::validate_sql(&p.param_str).is_ok());
    let p = Agent::plan_tool("get_head_to_head", &args(r#"{"team1": "A", "team2": "B", "season": "S"}"#));
    assert!(p.param_str.contains(
        "WHERE ((ht.team_name = 'A' AND at.team_name = 'B') OR (ht.team_name = 'B' AND at.team_name = 'A')) AND g.season_id = 'S' ORDER BY"
    ));
    let p = Agent::plan_tool("era_adjusted_compare", &args(r#"{"player1": "A", "player2": "B"}"#));
    assert_eq!(p.reasoning, "Era-adjusted compare: A vs B (points_per_game)");
}

#[test]
fn strings_in_sql_are_quoted() {
    assert_eq!(quote_literal("O'Neal"), "'O''Neal'");
    assert_eq!(Agent::sql_safe("''"), "''''");
    assert_eq!(quote_literal(""), "''");
}

#[test]
fn rows_become_comma_separated_values() {
    let rows = Json::rows_from_text(
        "[{\"b\":\"x,y\",\"a\":1},{\"a\":null,\"c\":2},{\"b\":\"p\"}]",
    )
    .unwrap();
    assert_eq!(rows_to_csv(&rows), "a,b\n1,\"x,y\"\nnull,\n,p");
    assert_eq!(rows_to_csv(&vec![]), "No rows returned");
    assert_eq!(rows_to_csv(&vec![Json::Int(1)]), "\n");
    assert_eq!(quote_cell("plain"), "plain");
    assert_eq!(quote_cell("a\"b"), "\"a\"\"b\"");
    assert_eq!(quote_cell("a\nb"), "\"a\nb\"");
}

#[test]
fn results_tell_how_many_rows_they_hold() {
    assert_eq!(count_rows(&Json::rows_from_text("[1, 2, 3]")), 3);
    assert_eq!(count_rows(&Json::rows_from_text("{}")), 0);
    assert_eq!(count_rows(&Json::rows_from_text("SQL Error: x")), 0);
}

#[test]
fn the_catalogue_is_what_the_model_sees() {
    let tools = Agent::get_tools_json();
    let specs = tool_specs();
    assert_eq!(specs.len(), 19);
    for (i, s) in specs.iter().enumerate() {
        assert!(specs[..i].iter().all(|t| t.name != s.name));
        assert_ne!(args_to_tool_start_fields(&s.name, &Json::Null).0, format!("Running {}", s.name));
    }
    let needed = tools.nth(0).at("function").at("parameters").at("required");
    assert_eq!(needed.to_text(), "[\"reasoning\",\"query\"]");
    assert_eq!(
        tools.nth(0).to_text(),
        "{\"function\":{\"description\":\"Execute DuckDB SQL query and return JSON results.\",\"name\":\"run_sql\",\"parameters\":{\"properties\":{\"query\":{\"description\":\"Valid DuckDB SQL query.\",\"type\":\"string\"},\"reasoning\":{\"description\":\"Reasoning for running this query.\",\"type\":\"string\"}},\"required\":[\"reasoning\",\"query\"],\"type\":\"object\"}},\"type\":\"function\"}"
    );
    assert_eq!(
        tools.nth(1).at("function").at("parameters").to_text(),
        "{\"properties\":{\"pattern\":{\"description\":\"LIKE pattern (e.g., 'agg_%' or '%clutch%').\",\"type\":\"string\"}},\"type\":\"object\"}"
    );
    assert_eq!(tools.nth(18).at("function").text_at("name").unwrap(), "expand_player_profile");
    assert_eq!(tools.nth(19).to_text(), "null");
}
