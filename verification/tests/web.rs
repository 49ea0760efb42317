use nba_agent::web::{
    agent_config, allowed_origins, constant_time_eq, content_disposition, db_config, env_config,
    health, sanitize_filename_part, test_query_response,
};
use nba_agent::ApiAuth;
use nba_agent::json::Json;

fn s(x: &str) -> Option<String> {
    Some(x.to_string())
}

#[test]
fn test_sanitize_filename_part() {
    assert_eq!(sanitize_filename_part("abcdefgh", 8), "abcdefgh");
    assert_eq!(sanitize_filename_part("abcdef", 8), "abcdef");
    assert_eq!(sanitize_filename_part("aaaaaaaé", 8), "aaaaaaa_");
    assert_eq!(sanitize_filename_part("aa\r\nbb", 8), "aa__bb");
    assert_eq!(sanitize_filename_part("", 8), "session");
    assert_eq!(sanitize_filename_part("漢字", 8), "__");
}

#[test]
fn test_sanitize_filename_part_via_helper() {
    assert_eq!(sanitize_filename_part("abc漢字-def_", 8), "abc__-de");
}

#[test]
fn test_constant_time_eq() {
    assert!(constant_time_eq(b"abc", b"abc"));
    assert!(!constant_time_eq(b"abc", b"abd"));
    assert!(!constant_time_eq(b"abc", b"abcd"));
    assert!(constant_time_eq(b"", b""));
}

#[test]
fn test_env_config_defaults() {
    let c = env_config(None, None, None, None);
    assert_eq!(c.db_path, "../data/nba-data.duckdb");
    assert_eq!(c.bind_addr, "0.0.0.0");
    assert_eq!(c.port, 3000);
    assert_eq!(c.sessions_path, "data/sessions.json");
}

#[test]
fn test_env_config_overrides() {
    let c = env_config(s("x.duckdb"), s("127.0.0.1"), s("9999"), s("s.json"));
    assert_eq!(c.db_path, "x.duckdb");
    assert_eq!(c.bind_addr, "127.0.0.1");
    assert_eq!(c.port, 9999);
    assert_eq!(c.sessions_path, "s.json");
}

#[test]
fn test_env_config_bad_port_falls_back() {
    let c = env_config(None, None, s("not-a-number"), None);
    assert_eq!(c.port, 3000);
    assert_eq!(env_config(None, None, s("65536"), None).port, 3000);
    assert_eq!(env_config(None, None, s("+80"), None).port, 80);
    assert_eq!(env_config(None, None, s(""), None).port, 3000);
    assert_eq!(env_config(None, None, s("-1"), None).port, 3000);
}

#[test]
fn test_auth_requires_token() {
    let auth = ApiAuth::from_env(s("sekret"));
    assert!(auth.is_enabled());
    assert!(!auth.authorize("/api/stats", None));
    assert!(!auth.authorize("/api/stats", Some("Bearer wrong")));
    assert!(auth.authorize("/api/stats", Some("Bearer sekret")));
    assert!(auth.authorize("/api/health", None));
}

#[test]
fn test_auth_disabled_passthrough() {
    let auth = ApiAuth::from_env(None);
    assert!(!auth.is_enabled());
    assert!(auth.authorize("/api/stats", None));
    assert!(!ApiAuth::from_env(s("")).is_enabled());
}

#[test]
fn test_auth_same_length_wrong_token() {
    let auth = ApiAuth::from_env(s("sekret"));
    assert!(!auth.authorize("/api/stats", Some("Bearer sekrrt")));
    assert!(!auth.authorize("/api/stats", Some("bearer sekret")));
    assert!(!auth.authorize("/api/stats", Some("sekret")));
    assert!(!auth.authorize("/api/healthz", Some("Bearer")));
}

#[test]
fn reports_are_offered_under_a_safe_name() {
    assert_eq!(
        content_disposition("a\"b\r\nc-very-long"),
        "attachment; filename=\"nba-report-a_b__c-v.md\""
    );
    assert_eq!(content_disposition(""), "attachment; filename=\"nba-report-session.md\"");
}

#[test]
fn settings_have_defaults() {
    let d = db_config(None, None, None, None);
    assert_eq!((d.memory_limit.as_str(), d.cache_max, d.cache_ttl_secs, d.row_cap), ("2GB", 200, 60, 50));
    let d = db_config(s("4GB"), s("7"), s("x"), s("0"));
    assert_eq!((d.memory_limit.as_str(), d.cache_max, d.cache_ttl_secs, d.row_cap), ("4GB", 7, 60, 0));
    let a = agent_config(None, s("k2"), None, None, s(""), None).unwrap();
    assert_eq!(a.api_key, "k2");
    assert_eq!(a.base_url, "https://openrouter.ai/api/v1/chat/completions");
    assert_eq!(a.model, "qwen/qwen3.7-flash");
    assert_eq!(a.fallback_model, None);
    assert_eq!(a.max_iterations, 12);
    let a = agent_config(s("k1"), s("k2"), s("u"), s("m"), s("f"), s("4")).unwrap();
    assert_eq!((a.api_key.as_str(), a.base_url.as_str(), a.model.as_str()), ("k1", "u", "m"));
    assert_eq!(a.fallback_model, s("f"));
    assert_eq!(a.max_iterations, 4);
    assert_eq!(
        agent_config(None, None, None, None, None, None).unwrap_err(),
        "Neither OPENROUTER_API_KEY nor OPENAI_API_KEY set"
    );
    assert_eq!(allowed_origins(None), None);
    assert_eq!(allowed_origins(s("")), None);
    assert_eq!(
        allowed_origins(s(" https://a , https://b")),
        Some(vec!["https://a".to_string(), "https://b".to_string()])
    );
}

#[test]
fn health_and_test_query() {
    assert_eq!(health(&Ok(vec![])), ("ok".to_string(), "connected".to_string()));
    assert_eq!(health(&Err("x".to_string())), ("ok".to_string(), "error".to_string()));
    let r = test_query_response(Ok(vec![Json::Int(1), Json::Int(2)]));
    assert_eq!((r.rows.len(), r.row_count), (2, 2));
    let r = test_query_response(Err("boom".to_string()));
    assert_eq!((r.rows[0].to_text().as_str(), r.row_count), ("{\"error\":\"boom\"}", 0));
    assert!(r.query.ends_with("FROM game LIMIT 5;"));
}
