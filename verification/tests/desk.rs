use nba_agent::db::{
    cell_json, sample_json, Cell, DbContext, EngineReply, PendingQuery, QueryStart, RowCollector,
};
use nba_agent::json::{Json, JsonFloat};

fn desk() -> DbContext {
    DbContext::new(200, 60, 50)
}

fn strings(v: &[&str]) -> Vec<String> {
    v.iter().map(|s| s.to_string()).collect()
}

fn rows_reply(max_rows: usize, columns: &[&str], rows: Vec<Vec<Cell>>) -> EngineReply {
    let mut batch = RowCollector::new(max_rows);
    for r in rows {
        if !batch.offer(r) {
            return EngineReply::Rows { columns: strings(columns), batch };
        }
    }
    EngineReply::Rows { columns: strings(columns), batch }
}

fn ask(
    db: &mut DbContext,
    query: &str,
    max_rows: Option<usize>,
    engine: impl Fn(&PendingQuery) -> EngineReply,
) -> Result<Vec<Json>, String> {
    match db.run_sql(query.to_string(), max_rows) {
        QueryStart::Rejected(e) => Err(e),
        QueryStart::Cached(rows) => Ok(rows),
        QueryStart::Run(p) => {
            let reply = engine(&p);
            db.finish_sql(p, reply, 7)
        }
    }
}

fn one(v: i32) -> impl Fn(&PendingQuery) -> EngineReply {
    move |p| rows_reply(p.max_rows, &["v"], vec![vec![Cell::Int(v)]])
}

#[test]
fn test_run_sql_select_one() {
    let mut db = desk();
    let rows = ask(&mut db, "SELECT 1 as test_val;", Some(1), |p| {
        rows_reply(p.max_rows, &["test_val"], vec![vec![Cell::Int(1)]])
    })
    .unwrap();
    assert_eq!(rows.len(), 1);
    assert_eq!(rows[0].get("test_val").unwrap().as_int(), Some(1));
}

#[test]
fn test_db_context_read_only() {
    let mut db = desk();
    let rows = ask(&mut db, "SELECT 1 as test_val;", Some(1), |p| {
        rows_reply(p.max_rows, &["test_val"], vec![vec![Cell::Int(1)]])
    })
    .unwrap();
    assert_eq!(rows.len(), 1);
    assert_eq!(rows[0].get("test_val").unwrap().as_int(), Some(1));
    assert!(ask(&mut db, "DROP TABLE player", None, one(1)).unwrap_err().contains("rejected"));
}

#[test]
fn test_run_sql_caps_at_50_by_default() {
    let mut db = desk();
    let rows = ask(&mut db, "SELECT * FROM game;", None, |p| {
        let all = (0..70).map(|i| vec![Cell::Int(i)]).collect();
        rows_reply(p.max_rows, &["n"], all)
    })
    .unwrap();
    assert!(rows.len() <= 51, "Should cap at ~50 rows; got {}", rows.len());
    assert_eq!(rows.len(), 51);
    assert_eq!(rows[49].get("n").unwrap().as_int(), Some(49));
    assert_eq!(
        rows[50].text_at("_notice").unwrap(),
        "Result capped at 50 rows. Add explicit LIMIT or aggregate for complete data."
    );
}

#[test]
fn test_run_sql_explicit_limit_3() {
    let mut db = desk();
    let rows = ask(&mut db, "SELECT * FROM game LIMIT 3;", Some(3), |p| {
        let all = (0..3).map(|i| vec![Cell::Int(i)]).collect();
        rows_reply(p.max_rows, &["n"], all)
    })
    .unwrap();
    assert_eq!(rows.len(), 3, "LIMIT 3 should return exactly 3 rows");
}

#[test]
fn test_run_sql_empty_result() {
    let mut db = desk();
    let q = "SELECT * FROM game WHERE game_id = 'nonexistent_game_xyz';";
    let rows = ask(&mut db, q, None, |p| rows_reply(p.max_rows, &["game_id"], vec![])).unwrap();
    assert!(rows.is_empty(), "Expected empty result");
}

#[test]
fn test_null_values_in_results() {
    let mut db = desk();
    let rows = ask(
        &mut db,
        "SELECT first_name, last_name, rosterstatus FROM common_player_info LIMIT 5;",
        Some(5),
        |p| {
            rows_reply(
                p.max_rows,
                &["first_name", "last_name", "rosterstatus"],
                vec![vec![Cell::Text(b"LeBron".to_vec()), Cell::Null]],
            )
        },
    )
    .unwrap();
    assert!(!rows.is_empty());
    assert_eq!(
        rows[0].to_text(),
        "{\"first_name\":\"LeBron\",\"last_name\":null,\"rosterstatus\":null}"
    );
}

#[test]
fn test_count_query_returns_integer() {
    let mut db = desk();
    let rows = ask(&mut db, "SELECT COUNT(*) as n FROM game;", Some(1), |p| {
        rows_reply(p.max_rows, &["n"], vec![vec![Cell::BigInt(65_000)]])
    })
    .unwrap();
    assert_eq!(rows[0].get("n").unwrap().as_int(), Some(65_000));
}

#[test]
fn test_run_sql_caching_same_query() {
    let mut db = desk();
    let q = "SELECT COUNT(*) FROM player;";
    let first = ask(&mut db, q, Some(1), one(5)).unwrap();
    let second = ask(&mut db, "  SELECT COUNT(*) FROM player;\n", Some(1), one(6)).unwrap();
    assert_eq!(first[0].to_text(), "{\"v\":5}");
    assert_eq!(second[0].to_text(), "{\"v\":5}");
    let h = db.list_history();
    assert!(h[0].cache_hit && h[0].success && h[0].row_count == 1 && h[0].elapsed_ms == 0);
    assert_eq!(h[0].error_category.as_deref(), Some("cache_hit"));
    assert!(!h[1].cache_hit && h[1].success && h[1].elapsed_ms == 7);
    assert_eq!(h[1].error_category, None);
}

#[test]
fn test_run_sql_different_max_rows_different_keys() {
    let mut db = desk();
    let r1 = ask(&mut db, "SELECT * FROM player;", Some(5), one(5));
    let r2 = ask(&mut db, "SELECT * FROM player;", Some(10), one(10));
    assert_eq!(r1.unwrap()[0].to_text(), "{\"v\":5}");
    assert_eq!(r2.unwrap()[0].to_text(), "{\"v\":10}");
}

#[test]
fn test_query_cache_different_keys_for_same_query() {
    let mut db = desk();
    let q = "SELECT COUNT(*) FROM player;";
    let r1 = ask(&mut db, q, Some(1), one(1)).unwrap();
    let r2 = ask(&mut db, q, Some(1), one(2)).unwrap();
    assert_eq!(r1.len(), r2.len());
    assert!(ask(&mut db, q, Some(2), one(3)).is_ok());
}

#[test]
fn test_list_history_empty() {
    assert!(desk().list_history().is_empty());
}

#[test]
fn test_history_trim_and_cache_hit() {
    let mut db = desk();
    let q = "SELECT COUNT(*) FROM player";
    ask(&mut db, q, Some(5), one(1)).unwrap();
    ask(&mut db, q, Some(5), one(1)).unwrap();
    let hits = db.get_lifetime_query_count();
    assert!(hits >= 2, "two executions should be counted, got {}", hits);
    for i in 0..205 {
        let _ = ask(&mut db, &format!("SELECT {} as v", i), Some(1), one(1));
    }
    let hist = db.list_history();
    assert_eq!(hist.len(), 50, "list_history should cap at 50, got {}", hist.len());
    assert_eq!(hist[0].sql, "SELECT 204 as v");
    assert_eq!(hist[49].sql, "SELECT 155 as v");
    assert_eq!(db.get_lifetime_query_count(), 207);
}

#[test]
fn test_history_error_categories() {
    let mut db = desk();
    let fail = |m: &str| {
        let m = m.to_string();
        move |_: &PendingQuery| EngineReply::Failed(m.clone())
    };
    let e = "Binder Error: Referenced column \"nope\" not found\nCandidate bindings: \"name\"";
    let _ = ask(&mut db, "SELECT nope FROM player LIMIT 1", Some(1), fail(e));
    let e = "Catalog Error: Table with name no_such_table does not exist!";
    let _ = ask(&mut db, "SELECT * FROM no_such_table", Some(1), fail(e));
    let _ = ask(&mut db, "SELECT * FROM player WHERE player_id IN ()", Some(1), one(1));
    let hist = db.list_history();
    let cats: Vec<&str> =
        hist.iter().filter(|h| !h.success).map(|h| h.error_category.as_deref().unwrap_or("")).collect();
    assert!(cats.iter().any(|c| *c == "column_not_found"), "expected column_not_found, got {:?}", cats);
    assert!(cats.iter().any(|c| *c == "table_not_found"), "expected table_not_found, got {:?}", cats);
    assert!(cats.iter().any(|c| *c == "validation"), "expected validation, got {:?}", cats);
}

#[test]
fn test_feedback_round_trip() {
    let mut db = desk();
    let id = db.record_feedback("s1", "question?", "SELECT 1", "helpful", "nice");
    assert!(id >= 1);
    let list = db.list_feedback();
    assert!(list.iter().any(|f| f.session_id == "s1" && f.rating == "helpful"));
    assert_eq!(db.record_feedback("s2", "q", "SELECT 2", "bad", ""), 2);
    assert_eq!(db.list_feedback().len(), 2);
}

#[test]
fn lost_tasks_and_failures_are_on_record() {
    let mut db = desk();
    let e = ask(&mut db, "SELECT 1", None, |_| EngineReply::Lost("cancelled".to_string()));
    assert_eq!(e.unwrap_err(), "cancelled");
    assert_eq!(db.list_history()[0].error_category.as_deref(), Some("spawn_failure"));
    assert_eq!(ask(&mut db, "", None, one(1)).unwrap_err(), "SQL rejected: Empty query");
    let h = &db.list_history()[0];
    assert_eq!((h.sql.as_str(), h.row_count, h.elapsed_ms, h.success), ("", 0, 0, false));
    assert_eq!(h.error_category.as_deref(), Some("validation"));
    assert!(h.timestamp > 1_700_000_000);
    assert_eq!(db.get_lifetime_query_count(), 2);
}

#[test]
fn asking_at_a_moment_is_exact() {
    let mut db = desk();
    let r = db.start_query(" SELECT 1 ".to_string(), None, None, 42);
    match r {
        QueryStart::Run(p) => {
            assert_eq!((p.query.as_str(), p.max_rows, p.cache_key.as_str()), (" SELECT 1 ", 50, "SELECT 1|50"));
            let reply = rows_reply(50, &["b", "a", "b"], vec![vec![Cell::Int(1), Cell::Int(2), Cell::Int(3)]]);
            let rows = db.settle_query(p, reply, 9, 43).unwrap();
            assert_eq!(rows[0].to_text(), "{\"a\":2,\"b\":3}");
        }
        _ => panic!("the query should run"),
    }
    let h = db.list_history();
    assert_eq!((h[0].timestamp, h[0].elapsed_ms, h[0].row_count), (43, 9, 1));
    match db.start_query("SELECT 1".to_string(), None, Some(vec![Json::Null]), 44) {
        QueryStart::Cached(rows) => assert_eq!(rows.len(), 1),
        _ => panic!("the rows were at hand"),
    }
}

#[test]
fn cells_become_json() {
    let f = || JsonFloat { text: "1.5".to_string(), plain: "1.5".to_string() };
    let cases = vec![
        (Cell::Null, "null"),
        (Cell::Boolean(true), "true"),
        (Cell::TinyInt(-1), "-1"),
        (Cell::SmallInt(2), "2"),
        (Cell::Int(3), "3"),
        (Cell::BigInt(i64::MIN), "-9223372036854775808"),
        (Cell::HugeInt(170141183460469231731687303715884105727), "\"170141183460469231731687303715884105727\""),
        (Cell::HugeInt(i128::MIN), "\"-170141183460469231731687303715884105728\""),
        (Cell::Real(Some(f())), "1.5"),
        (Cell::Real(None), "null"),
        (Cell::Text("é".as_bytes().to_vec()), "\"é\""),
        (Cell::Text(vec![0x61, 0xff, 0x62]), "\"a\u{fffd}b\""),
        (Cell::Blob(12), "\"<blob len=12>\""),
        (Cell::Timestamp(5), "\"5\""),
        (Cell::Date32(-6), "\"-6\""),
        (Cell::Time64(7), "\"7\""),
        (Cell::Decimal("1.20".to_string()), "\"1.20\""),
        (Cell::Other, "\"<unsupported type>\""),
    ];
    for (c, want) in cases {
        assert_eq!(cell_json(c).to_text(), want);
    }
    assert_eq!(sample_json(Cell::TinyInt(1)).to_text(), "\"<val>\"");
    assert_eq!(sample_json(Cell::BigInt(1)).to_text(), "1");
    assert_eq!(sample_json(Cell::Date32(1)).to_text(), "\"<val>\"");
    assert_eq!(sample_json(Cell::Real(Some(f()))).to_text(), "1.5");
}

#[test]
fn collectors_keep_the_first_rows() {
    let mut c = RowCollector::new(2);
    assert!(c.offer(vec![Cell::Int(1)]));
    assert!(c.offer(vec![Cell::Int(2)]));
    assert!(!c.capped);
    assert!(!c.offer(vec![Cell::Int(3)]));
    assert!(c.capped);
    assert_eq!(c.rows.len(), 2);
    let mut none = RowCollector::new(0);
    assert!(!none.offer(vec![]));
    assert!(none.capped && none.rows.is_empty());
}
