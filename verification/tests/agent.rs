use nba_agent::agent::{Agent, ChatMessage};
use nba_agent::chat::{json_of_message, message};
use nba_agent::db::{DbContext, InsightsResponse};
use nba_agent::json::Json;
use nba_agent::{build_state, AppState};

fn agent() -> Agent {
    Agent::new("SCHEMA".to_string(), "BRIEF".to_string(), "m".to_string(), None, 12)
}

fn make_msg(role: &str, content: &str) -> ChatMessage {
    message(role, content)
}

fn make_system() -> ChatMessage {
    make_msg("system", "You are a helpful assistant.")
}

fn make_user(n: usize) -> ChatMessage {
    make_msg("user", &format!("Question {}", n))
}

fn make_assistant(n: usize) -> ChatMessage {
    make_msg("assistant", &format!("Answer {}", n))
}

fn said(m: &ChatMessage) -> String {
    m.content.as_ref().unwrap().as_text().unwrap()
}

fn rows(text: &str) -> Vec<Json> {
    Json::rows_from_text(text).unwrap()
}

#[test]
fn test_trim_sliding_window_short_unchanged() {
    let mut msgs = vec![make_msg("system", "sys")];
    for i in 0..5 {
        msgs.push(make_msg("user", &format!("u{}", i)));
    }
    Agent::trim_sliding_window(&mut msgs);
    assert_eq!(msgs.len(), 6);
    assert_eq!(msgs[0].role, "system");
}

#[test]
fn test_trim_sliding_window_caps_at_20() {
    let mut msgs = vec![make_msg("system", "sys")];
    for i in 0..30 {
        msgs.push(make_msg("user", &format!("u{}", i)));
    }
    Agent::trim_sliding_window(&mut msgs);
    assert_eq!(msgs.len(), 20);
    assert_eq!(msgs[0].role, "system");
}

#[test]
fn test_trim_sliding_window_edges() {
    let msg = |role: &str| make_msg(role, "x");
    let mut v = Vec::new();
    Agent::trim_sliding_window(&mut v);
    assert!(v.is_empty());
    let mut v = vec![msg("system"), msg("user")];
    Agent::trim_sliding_window(&mut v);
    assert_eq!(v.len(), 2);
    let mut v = vec![msg("system")];
    for _ in 0..40 {
        v.push(msg("user"));
    }
    Agent::trim_sliding_window(&mut v);
    assert_eq!(v.len(), 20, "system + 19 kept");
    assert_eq!(v[0].role, "system");
}

#[test]
fn test_trim_noop_when_under_window() {
    let mut msgs = vec![make_system(), make_user(1), make_assistant(1)];
    let original_len = msgs.len();
    Agent::trim_sliding_window(&mut msgs);
    assert_eq!(msgs.len(), original_len, "Should not trim when under window");
    assert_eq!(msgs[0].role, "system", "System message stays at index 0");
}

#[test]
fn test_trim_noop_at_window_boundary() {
    let mut msgs = vec![make_system()];
    for i in 1..=19 {
        msgs.push(make_user(i));
    }
    assert_eq!(msgs.len(), 20);
    Agent::trim_sliding_window(&mut msgs);
    assert_eq!(msgs.len(), 20, "Should not trim exactly at window size");
    assert_eq!(msgs[0].role, "system");
}

#[test]
fn test_trim_drops_oldest_when_over_window() {
    let mut msgs = vec![make_system()];
    for i in 1..=25 {
        msgs.push(make_user(i));
    }
    assert_eq!(msgs.len(), 26);
    Agent::trim_sliding_window(&mut msgs);
    assert_eq!(msgs.len(), 20, "Should trim to exactly MAX_WINDOW");
    assert_eq!(msgs[0].role, "system", "System message still at index 0");
    let first_content = said(&msgs[1]);
    assert!(!first_content.contains("Question 1"), "Oldest messages should be dropped");
    let last_content = said(msgs.last().unwrap());
    assert!(last_content.contains("Question 25"), "Most recent message should survive");
}

#[test]
fn test_trim_keeps_system_prompt_always() {
    let mut msgs = vec![make_system()];
    for i in 1..=30 {
        msgs.push(make_user(i));
    }
    Agent::trim_sliding_window(&mut msgs);
    assert_eq!(msgs[0].role, "system", "System must stay at index 0");
    assert!(said(&msgs[0]).contains("helpful assistant"), "System content must be intact");
}

#[test]
fn test_trim_large_session() {
    let mut msgs = vec![make_system()];
    for i in 1..=100 {
        msgs.push(if i % 2 == 0 { make_assistant(i) } else { make_user(i) });
    }
    Agent::trim_sliding_window(&mut msgs);
    assert_eq!(msgs.len(), 20, "Should trim to window size");
    assert_eq!(msgs[0].role, "system");
    assert!(said(&msgs[19]).contains("100") || said(&msgs[19]).contains("99"));
}

#[test]
fn test_trim_multiple_calls_idempotent() {
    let mut msgs = vec![make_system()];
    for i in 1..=30 {
        msgs.push(make_user(i));
    }
    Agent::trim_sliding_window(&mut msgs);
    let len_after_first = msgs.len();
    Agent::trim_sliding_window(&mut msgs);
    assert_eq!(msgs.len(), len_after_first, "Second trim should be no-op");
}

#[test]
fn test_chat_message_user() {
    let msg = ChatMessage {
        role: "user".into(),
        content: Some(Json::Str("hello".into())),
        tool_calls: None,
        tool_call_id: None,
        name: None,
    };
    let json = json_of_message(&msg).to_text();
    assert!(json.contains("user"));
    assert!(json.contains("hello"));
}

#[test]
fn test_chat_message_tool() {
    let msg = ChatMessage {
        role: "tool".into(),
        content: Some(Json::Str("result".into())),
        tool_calls: None,
        tool_call_id: Some("call_1".into()),
        name: Some("run_sql".into()),
    };
    let json = json_of_message(&msg).to_text();
    assert!(json.contains("tool"));
    assert!(json.contains("call_1"));
    assert_eq!(
        json,
        "{\"content\":\"result\",\"name\":\"run_sql\",\"role\":\"tool\",\"tool_call_id\":\"call_1\"}"
    );
}

#[test]
fn test_chat_message_skips_none() {
    let msg = ChatMessage {
        role: "user".into(),
        content: Some(Json::Str("hi".into())),
        tool_calls: None,
        tool_call_id: None,
        name: None,
    };
    let json = json_of_message(&msg).to_text();
    assert!(!json.contains("tool_call_id"));
    assert!(!json.contains("tool_calls"));
    assert!(!json.contains("\"name\""));
}

#[test]
fn test_markdown_table_basic() {
    let rows = rows("[{\"Name\": \"LeBron\", \"PTS\": 30}, {\"Name\": \"KD\", \"PTS\": 28}]");
    let mut md = String::new();
    Agent::append_markdown_table(&mut md, &rows);
    assert!(md.contains("LeBron"));
    assert!(md.contains("KD"));
    assert!(md.contains("Name"));
    assert_eq!(md, "| Name | PTS | \n| --- | --- |\n| LeBron | 30 | \n| KD | 28 | \n\n");
}

#[test]
fn test_markdown_table_empty() {
    let mut md = String::new();
    Agent::append_markdown_table(&mut md, &vec![]);
    assert!(md.is_empty());
    Agent::append_markdown_table(&mut md, &rows("[{}, {\"a\": 1}]"));
    Agent::append_markdown_table(&mut md, &rows("[1]"));
    assert!(md.is_empty());
}

#[test]
fn test_markdown_table_null_values() {
    let rows = rows("[{\"Name\": null, \"PTS\": 30}]");
    let mut md = String::new();
    Agent::append_markdown_table(&mut md, &rows);
    assert!(md.contains("—"));
    assert!(md.contains("30"));
}

#[test]
fn test_markdown_table_capped() {
    let rows: Vec<Json> = (0..25).map(|i| Json::Object(vec![("N".to_string(), Json::Int(i))])).collect();
    let mut md = String::new();
    Agent::append_markdown_table(&mut md, &rows);
    assert!(md.contains("5 more rows"));
    assert!(md.contains("| 19 | ") && !md.contains("| 20 | "));
}

#[test]
fn coverage_gap_agent_and_handlers_test_session_count_empty() {
    assert_eq!(agent().session_count(), 0);
}

#[test]
fn coverage_gap_e2e_test_session_count_empty() {
    assert_eq!(agent().session_count(), 0, "Session count should be empty");
}

#[test]
fn test_export_session_markdown_nonexistent() {
    assert!(agent().export_session_markdown("nope").is_none());
}

#[test]
fn test_export_session_markdown_missing() {
    assert!(agent().export_session_markdown("missing-session").is_none());
}

#[test]
fn test_export_session_markdown_missing_session() {
    let result = agent().export_session_markdown("nonexistent-session");
    assert!(result.is_none(), "Should return None for missing session");
}

#[test]
fn coverage_gap_agent_and_handlers_test_reset_session_no_panic() {
    agent().reset_session("any");
}

#[test]
fn coverage_gap_e2e_test_reset_session_no_panic() {
    agent().reset_session("any-session-id");
}

#[test]
fn test_reset_session_missing() {
    agent().reset_session("nonexistent");
}

fn hi() -> Vec<(String, Vec<ChatMessage>)> {
    vec![("s1".to_string(), vec![message("user", "hi")])]
}

#[test]
fn test_agent_load_sessions_legacy_format() {
    let mut a = agent();
    a.load_sessions(None, Some(hi()));
    assert_eq!(a.session_count(), 1);
    let md = a.export_session_markdown("s1");
    assert!(md.is_some() && md.unwrap().contains("hi"));
}

#[test]
fn test_agent_load_sessions_array_format() {
    let mut a = agent();
    a.load_sessions(Some(hi()), None);
    assert_eq!(a.session_count(), 1);
    assert!(!a.is_dirty());
}

#[test]
fn test_agent_load_sessions_corrupt() {
    let mut a = agent();
    a.load_sessions(None, None);
    assert_eq!(a.session_count(), 0);
}

#[test]
fn test_agent_load_sessions_missing_file() {
    assert_eq!(agent().session_count(), 0);
    assert!(agent().saved().is_empty());
}

#[test]
fn test_export_markdown_tool_messages() {
    let call = Json::from_text(
        r#"[{"id":"c1","type":"function","function":{"name":"run_sql","arguments":"{}"}}]"#,
    );
    let tool = |content: &str| ChatMessage {
        role: "tool".to_string(),
        content: Some(Json::Str(content.to_string())),
        tool_calls: None,
        tool_call_id: Some("c1".to_string()),
        name: Some("run_sql".to_string()),
    };
    let mut thinking = message("assistant", "thinking...");
    thinking.tool_calls = call;
    let session = vec![
        message("user", "q"),
        thinking,
        tool("[{\"player\":\"A\",\"pts\":30}]"),
        tool("\"just a string\""),
        tool("not json at all"),
        message("assistant", "Final answer here"),
    ];
    let mut a = agent();
    a.load_sessions(Some(vec![("md-sess".to_string(), session)]), None);
    let md = a.export_session_markdown("md-sess").expect("session should load");
    assert!(md.contains("Final answer here"), "answer should render");
    assert!(md.contains("run_sql"), "tool name should render");
    assert!(md.contains("| player"), "table header expected");
    assert!(md.contains("just a string"), "non-object JSON should render as code");
    assert!(md.contains("not json at all"), "non-JSON should render as raw block");
    assert_eq!(
        md,
        "# NBA Data Analysis Report\n\n**Session:** `md-sess` | **Messages:** 6\n\n---\n\n\
         ## 🏀 Question\n\nq\n\n## 🤖 Answer\n\nthinking...\n\n\
         ### 🔧 Tool: `run_sql`\n\n| player | pts | \n| --- | --- |\n| A | 30 | \n\n\
         ### 🔧 Tool: `run_sql`\n\n```\n\"just a string\"\n```\n\n\
         ### 🔧 Tool: `run_sql`\n\n```\nnot json at all\n```\n\n\
         ## 🤖 Answer\n\nFinal answer here\n\n---\n\n*Generated by NBA Database Agent*\n"
    );
}

#[test]
fn reports_skip_what_was_not_said() {
    let mut quiet = message("assistant", "");
    let mut nameless = message("tool", "[1]");
    nameless.content = Some(Json::Str("[1]".to_string()));
    let mut empty = message("user", "x");
    empty.content = None;
    quiet.content = Some(Json::Int(1));
    let md = Agent::session_markdown("s", &vec![message("system", "hidden"), quiet, nameless, empty]);
    assert_eq!(
        md,
        "# NBA Data Analysis Report\n\n**Session:** `s` | **Messages:** 4\n\n---\n\n\
         ### 🔧 Tool: `unknown`\n\n```json\n[1]\n```\n\n---\n\n*Generated by NBA Database Agent*\n"
    );
}

#[test]
fn sessions_are_stored_and_reset() {
    let mut a = agent();
    a.store_session("s".to_string(), vec![message("user", "one")]);
    a.store_session("other".to_string(), vec![message("user", "two")]);
    assert!(a.is_dirty());
    a.mark_saved();
    assert!(!a.is_dirty());
    assert_eq!(said(&a.session("s").unwrap()[0]), "one");
    a.reset_session("s");
    assert!(a.session("s").is_none());
    assert_eq!(said(&a.session("other").unwrap()[0]), "two");
}

#[test]
fn sessions_survive_a_restart() {
    let mut a = agent();
    a.store_session("s".to_string(), vec![message("user", "one"), message("assistant", "1")]);
    a.store_session("t".to_string(), vec![message("user", "two")]);
    let mut b = agent();
    b.load_sessions(Some(a.saved()), None);
    assert_eq!(said(&b.session("s").unwrap()[1]), "1");
    assert_eq!(said(&b.session("t").unwrap()[0]), "two");
    assert!(b.session("u").is_none());
}

#[test]
fn sessions_are_listed_and_counted_once() {
    let mut a = agent();
    assert_eq!(a.session_count(), 0);
    for i in 0..3 {
        a.store_session("s".to_string(), vec![message("user", &format!("{}", i))]);
    }
    assert_eq!(a.session_count(), 1);
    let listed = a.saved();
    assert_eq!(listed.len(), 1);
    assert_eq!(said(&listed[0].1[0]), "2");
    a.store_session("t".to_string(), vec![message("user", "3")]);
    assert_eq!(a.session_count(), 2);
    a.reset_session("s");
    assert_eq!(a.session_count(), 1);
}

#[test]
fn only_what_is_found_is_reported() {
    let found = vec![message("user", "q")];
    let report = Agent::session_markdown("s", &found);
    assert_eq!(Agent::report_of("s", &Some(found)), Some(report));
    assert_eq!(Agent::report_of("s", &None), None);
}

#[test]
fn the_prompt_ends_with_what_is_known() {
    let p = agent().get_system_prompt();
    assert!(p.starts_with("You are an expert Data Agent and NBA Analyst with direct access to a 588-table DuckDB warehouse.\nYour task"));
    assert!(p.contains("6. `generate_chart(chart_type, title, sql_query)` - Create chart visualization.\n\nBEST PRACTICES:\n"));
    assert!(p.contains("after your main answer.\n\nBRIEF\n\nSCHEMA\n\nCanonical Metrics:\n"));
}

fn state() -> AppState {
    let insights = InsightsResponse {
        cards: vec![],
        generated_at: "0".to_string(),
        total_queries: 0,
        successful: 0,
        total_tables: 3,
    };
    build_state(agent(), DbContext::new(200, 60, 50), insights)
}

#[test]
fn test_build_state() {
    let s = state();
    assert!(s.started_at.elapsed() < std::time::Duration::from_secs(30));
}

#[test]
fn test_stats_handler_session_count() {
    let mut s = state();
    let _ = s.db.start_query("DROP TABLE x".to_string(), None, None, 1);
    let _ = s.db.start_query("SELECT 1".to_string(), None, Some(vec![Json::Null]), 2);
    let stats = s.stats();
    assert!(stats.total_queries >= 1, "stats should count the tool query; got {}", stats.total_queries);
    assert_eq!((stats.total_queries, stats.successful_queries, stats.cache_hits, stats.db_tables), (2, 1, 1, 3));
    assert!(stats.uptime_secs < 30);
}
