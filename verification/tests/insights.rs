use nba_agent::db::{DbContext, InsightCard, InsightsResponse};
use nba_agent::insights::value_on_card;
use nba_agent::json::Json;

fn rows(text: &str) -> Result<Vec<Json>, String> {
    Ok(Json::rows_from_text(text).unwrap())
}

fn response(cards: Vec<InsightCard>) -> InsightsResponse {
    InsightsResponse {
        total_queries: cards.len(),
        cards,
        generated_at: "2024-01-01".to_string(),
        successful: 0,
        total_tables: 10,
    }
}

#[test]
fn test_format_insights_for_prompt_successful_cards() {
    let insights = response(vec![InsightCard {
        id: "1".into(),
        title: "Games".into(),
        value: "50000".into(),
        subtitle: "total rows".into(),
        category: "volume".into(),
        error: None,
    }]);
    let out = DbContext::format_insights_for_prompt(&insights);
    assert!(out.contains("Games: 50000 (total rows)"));
}

#[test]
fn test_format_insights_for_prompt_all_fail() {
    let insights = response(vec![InsightCard {
        id: "1".into(),
        title: "Games".into(),
        value: "—".into(),
        subtitle: "error".into(),
        category: "volume".into(),
        error: Some("failed".into()),
    }]);
    let out = DbContext::format_insights_for_prompt(&insights);
    assert!(!out.contains("Games"));
}

#[test]
fn test_format_insights_for_prompt_empty() {
    let out = DbContext::format_insights_for_prompt(&response(vec![]));
    assert_eq!(out, "Database Insights (pre-computed):\n");
}

#[test]
fn test_format_metrics_for_prompt() {
    let s = DbContext::format_metrics_for_prompt();
    assert!(s.contains("points_per_game"), "metrics prompt should list canonical metrics");
    assert!(s.contains("true_shooting_percentage"));
}

#[test]
fn test_build_state_generates_insights() {
    let found = vec![
        rows("[{\"val\":65000}]"),
        rows("[{\"val\":\"many\"}]"),
        rows("[]"),
        rows("[{\"min_s\":\"21946\",\"max_s\":\"22022\"}]"),
        Err("boom".to_string()),
        rows("[{\"table_name\":\"play_by_play\",\"estimated_size\":13592899}]"),
        rows("[{\"val\":588}]"),
    ];
    let r = DbContext::insights_at(&found, &rows("[{\"val\":588}]"), 1700000000);
    assert!(r.total_tables > 0, "Should find tables in DB");
    assert_eq!(r.total_tables, 588);
    assert_eq!((r.total_queries, r.successful), (7, 5));
    assert_eq!(r.generated_at, "1700000000");
    let values: Vec<&str> = r.cards.iter().map(|c| c.value.as_str()).collect();
    assert_eq!(
        values,
        vec!["65,000", "many", "—", "21946 – 22022", "—", "play_by_play (13,592,899 rows)", "588"]
    );
    assert_eq!(r.cards[2].error.as_deref(), Some("No rows returned"));
    assert_eq!(r.cards[4].error.as_deref(), Some("Query failed: boom"));
    assert_eq!(r.cards[0].id, "total_games");
    assert_eq!(r.cards[3].subtitle, "NBA seasons in database");
    assert_eq!(r.cards[5].category, "meta");
    let now = DbContext::generate_insights(&found, &Err("x".to_string()));
    assert_eq!(now.total_tables, 0);
    assert!(now.generated_at.parse::<u64>().unwrap() > 1_700_000_000);
}

#[test]
fn card_queries_are_reads() {
    let qs = DbContext::insight_queries();
    assert_eq!(qs.len(), 7);
    for q in &qs {
        assert!(DbContext::validate_sql(&q.query).is_ok(), "{}", q.query);
    }
    assert_eq!(qs[6].query, DbContext::count_tables_query());
}

#[test]
fn values_come_from_the_first_known_key() {
    let v = |t: &str| value_on_card(&Json::from_text(t).unwrap());
    assert_eq!(v("{\"name\":\"LeBron\",\"total_pts\":1}"), "LeBron");
    assert_eq!(v("{\"games\":2,\"total_threes\":1234}"), "1,234");
    assert_eq!(v("{\"games\":1.5}"), "1.5");
    assert_eq!(v("{\"table_name\":\"t\"}"), "t ( rows)");
    assert_eq!(v("{\"table_name\":\"t\",\"estimated_size\":\"x\"}"), "t (0 rows)");
    assert_eq!(v("{\"min_s\":1}"), "1 – ");
    assert_eq!(v("{\"b\":1,\"a\":[]}"), "{\"a\":[],\"b\":1}");
    assert_eq!(v("{\"val\":null}"), "null");
    assert_eq!(v("{\"val\":-5}"), "?");
}
