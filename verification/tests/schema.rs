use nba_agent::db::{
    Cell, ColumnInfo, DbContext, EnrichedColumn, EnrichedSchema, EnrichedTable,
};
use nba_agent::prompt::{agent_table_names, key_table_names};
use nba_agent::schema::{referenced_table, RawColumn, RawTable};

fn col(name: &str, nullable: &str, samples: &[&str]) -> RawColumn {
    RawColumn {
        name: name.to_string(),
        data_type: "VARCHAR".to_string(),
        is_nullable: nullable.to_string(),
        samples: samples.iter().map(|s| s.to_string()).collect(),
    }
}

fn info(name: &str) -> ColumnInfo {
    ColumnInfo { name: name.to_string(), data_type: "VARCHAR".to_string(), is_nullable: "YES".to_string() }
}

fn table(name: &str, rows: i64) -> EnrichedTable {
    EnrichedTable {
        table_name: name.to_string(),
        row_count: rows,
        column_count: 0,
        columns: vec![],
        date_range: None,
    }
}

#[test]
fn test_list_tables_with_pattern() {
    let q = DbContext::list_tables(Some("player%".to_string()));
    assert_eq!(q.param, "player%");
    assert!(q.sql.contains("table_name LIKE ?") && q.sql.contains("LIMIT 100"));
}

#[test]
fn test_list_tables_returns_all() {
    assert_eq!(DbContext::list_tables(None).param, "%");
}

#[test]
fn test_search_tables_finds_clutch() {
    let (t, c) = DbContext::search_tables("CLUTCH");
    assert_eq!((t.param.as_str(), c.param.as_str()), ("%clutch%", "%clutch%"));
    assert!(t.sql.contains("lower(table_name) LIKE ?") && t.sql.contains("LIMIT 30"));
    assert!(c.sql.contains("lower(column_name) LIKE ?") && c.sql.contains("LIMIT 50"));
}

#[test]
fn test_describe_table_player() {
    let q = DbContext::get_columns_from_info("player");
    assert_eq!(q.param, "player");
    assert!(q.sql.contains("ORDER BY ordinal_position"));
    let names = vec!["player_id".to_string(), "n".to_string()];
    let d = DbContext::describe_table(
        "player".to_string(),
        vec![info("player_id"), info("n")],
        &names,
        vec![vec![Cell::Text(b"7".to_vec()), Cell::SmallInt(3)], vec![]],
    );
    assert_eq!(d.table_name, "player");
    assert!(!d.columns.is_empty(), "player table should have columns");
    assert!(d.columns.iter().any(|c| c.name.to_lowercase().contains("id")));
    assert_eq!(d.sample_rows[0].to_text(), "{\"n\":\"<val>\",\"player_id\":\"7\"}");
    assert_eq!(d.sample_rows[1].to_text(), "{\"n\":null,\"player_id\":null}");
    assert_eq!(d.total_rows, None);
}

#[test]
fn test_explain_query() {
    let (q, n) = DbContext::explain_query("SELECT * FROM player LIMIT 5;");
    assert_eq!(q, "EXPLAIN SELECT * FROM player LIMIT 5;");
    assert_eq!(n, Some(20));
    assert!(DbContext::validate_sql(&q).is_ok());
}

#[test]
fn test_explain_query_invalid_sql() {
    let (q, _) = DbContext::explain_query("SELECTZZZ BROKEN SQL!!!");
    assert!(DbContext::validate_sql(&q).is_err(), "EXPLAIN of invalid SQL should error");
}

#[test]
fn test_schema_summary_mentions_key_tables() {
    let ts = vec![
        ("player".to_string(), vec![info("a"), info("b")]),
        ("team".to_string(), vec![]),
        ("game".to_string(), vec![info("c")]),
    ];
    let summary = DbContext::get_schema_summary(&ts);
    assert!(summary.contains("player"), "Schema summary should mention player table");
    assert!(summary.contains("team"), "Schema summary should mention team table");
    assert!(summary.contains("game"), "Schema summary should mention game table");
    assert_eq!(
        summary,
        "Core Database Schema (Key Entities):\n\
         \n• Table `player` (2 columns):\n  a: VARCHAR, b: VARCHAR\n\
         \n• Table `team` (0 columns):\n  \n\
         \n• Table `game` (1 columns):\n  c: VARCHAR\n\
         \nNote: Over 580 total tables exist. Use `list_tables`, `search_tables`, or `describe_table` to explore schema elements."
    );
    assert_eq!(key_table_names().len(), 8);
    assert_eq!(agent_table_names().len(), 21);
    assert_eq!(agent_table_names()[20], "series_post");
}

#[test]
fn names_in_queries_are_quoted() {
    assert_eq!(DbContext::sample_rows_query("a\"b"), "SELECT * FROM \"a\"\"b\" LIMIT 3;");
    assert_eq!(
        DbContext::sample_values_query("t\"", "team_id").unwrap(),
        "SELECT DISTINCT \"team_id\" FROM \"t\"\"\" LIMIT 3;"
    );
    assert_eq!(DbContext::sample_values_query("t", "points"), None);
    assert!(DbContext::sample_values_query("t", "first_name").is_some());
    assert!(DbContext::sample_values_query("t", "event_type").is_some());
    let cols: Vec<String> = ["id", "updated_at", "game_date"].iter().map(|s| s.to_string()).collect();
    assert_eq!(
        DbContext::date_range_query("g\"", &cols).unwrap(),
        "SELECT MIN(\"updated_at\")::VARCHAR, MAX(\"updated_at\")::VARCHAR FROM \"g\"\"\";"
    );
    assert_eq!(DbContext::date_range_query("g", &vec!["id".to_string()]), None);
    assert!(DbContext::catalog_query().contains("ORDER BY estimated_size DESC"));
}

#[test]
fn references_are_read_from_names() {
    assert_eq!(referenced_table("team_id").as_deref(), Some("team"));
    assert_eq!(referenced_table("team_id_home").as_deref(), Some("team"));
    assert_eq!(referenced_table("a_id_b_id").as_deref(), Some("a_id_b"));
    assert_eq!(referenced_table("country_code").as_deref(), Some("country"));
    assert_eq!(referenced_table("x_code_code").as_deref(), Some("x"));
    assert_eq!(referenced_table("identity"), None);
    assert_eq!(referenced_table("points"), None);
}

#[test]
fn schemas_are_assembled() {
    let catalog = vec![("game".to_string(), 10), ("team".to_string(), 3), ("other".to_string(), 1)];
    let filter: Vec<String> = ["team", "missing", "game"].iter().map(|s| s.to_string()).collect();
    assert_eq!(DbContext::target_tables(&filter, &catalog), vec!["team", "game"]);
    assert_eq!(DbContext::target_tables(&vec![], &catalog), vec!["game", "team", "other"]);
    let raw = vec![RawTable {
        name: "game".to_string(),
        columns: vec![
            col("team_id", "YES", &["1", "2"]),
            col("coach_id", "NO", &[]),
            col("pts", "NO", &["9"]),
        ],
        date_range: Some(("a".to_string(), "b".to_string())),
    }];
    let s = DbContext::build_enriched_schema(&filter, &catalog, raw);
    assert_eq!(s.total_tables, 2);
    assert_eq!(s.tables.len(), 1);
    let t = &s.tables[0];
    assert_eq!((t.row_count, t.column_count), (10, 3));
    assert!(t.columns[0].is_nullable && t.columns[0].is_fk_candidate);
    assert_eq!(t.columns[0].sample_values, vec!["1", "2"]);
    assert_eq!(t.columns[1].referenced_table.as_deref(), Some("coach"));
    assert!(t.columns[2].sample_values.is_empty() && !t.columns[2].is_fk_candidate);
    assert_eq!(
        s.fk_relationships,
        vec![("game".to_string(), "team_id".to_string(), "team".to_string())]
    );
    let s = DbContext::build_enriched_schema(
        &vec![],
        &vec![],
        vec![RawTable { name: "x".to_string(), columns: vec![], date_range: None }],
    );
    assert_eq!(s.tables[0].row_count, -1);
}

#[test]
fn numbers_have_commas() {
    assert_eq!(DbContext::format_num_comma(-1), "?");
    assert_eq!(DbContext::format_num_comma(0), "0");
    assert_eq!(DbContext::format_num_comma(999), "999");
    assert_eq!(DbContext::format_num_comma(1000), "1,000");
    assert_eq!(DbContext::format_num_comma(65432), "65,432");
    assert_eq!(DbContext::format_num_comma(1234567), "1,234,567");
    assert_eq!(DbContext::format_num_comma(i64::MAX), "9,223,372,036,854,775,807");
}

#[test]
fn schemas_read_largest_first() {
    let mut big = table("big", 1500);
    big.column_count = 2;
    big.date_range = Some(("2020".to_string(), "2024".to_string()));
    big.columns = vec![
        EnrichedColumn {
            name: "team_id".to_string(),
            data_type: "INTEGER".to_string(),
            is_nullable: true,
            is_fk_candidate: true,
            referenced_table: Some("team".to_string()),
            sample_values: vec!["1".to_string(), "2".to_string()],
        },
        EnrichedColumn {
            name: "pts".to_string(),
            data_type: "DOUBLE".to_string(),
            is_nullable: false,
            is_fk_candidate: false,
            referenced_table: None,
            sample_values: vec![],
        },
    ];
    let s = EnrichedSchema {
        tables: vec![table("empty", 0), table("a", 7), big, table("b", 7)],
        total_tables: 4,
        fk_relationships: vec![("big".to_string(), "team_id".to_string(), "team".to_string())],
    };
    assert_eq!(
        DbContext::format_enriched_schema(&s),
        "Database Overview: 4 tables\n\n\
         Largest tables by row count:\n  • `big` — 1,500 rows, 2 cols\n  • `a` — 7 rows, 0 cols\n  • `b` — 7 rows, 0 cols\n  • `empty` — 0 rows, 0 cols\n\
         \nKey foreign key relationships (JOIN paths):\n  • `big.team_id` → `team`\n\
         \n--- Key Table Schemas (top 20 by row count) ---\n\
         \nTable `big` (1,500 rows, 2 columns):\n  Date range: 2020 → 2024\n  - team_id: INTEGER NULL? [FK→team] e.g.(1, 2)\n  - pts: DOUBLE\n\
         \nTable `a` (7 rows, 0 columns):\n\
         \nTable `b` (7 rows, 0 columns):\n"
    );
    let many = EnrichedSchema {
        tables: (1..=30).map(|i| table(&format!("t{}", i), i)).collect(),
        total_tables: 30,
        fk_relationships: (0..25).map(|i| ("f".to_string(), format!("c{}_id", i), "t".to_string())).collect(),
    };
    let out = DbContext::format_enriched_schema(&many);
    assert_eq!(out.matches(" rows, 0 cols").count(), 15);
    assert_eq!(out.matches("\nTable `").count(), 20);
    assert_eq!(out.matches("` → `").count(), 20);
    assert!(out.contains("Table `t11`") && !out.contains("Table `t10`"));
}
