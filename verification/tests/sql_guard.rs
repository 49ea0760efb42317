use nba_agent::db::DbContext;
use nba_agent::sql::{
    extract_between, judge_pragma, judge_statements, read_repair, refusal, rename_all, renamed,
    replace_sql_ident, replace_sql_ident_ast, replace_sql_ident_heuristic, SqlStatement,
};

#[test]
fn test_validate_sql_pragma_readonly_allowed() {
    assert!(DbContext::validate_sql("PRAGMA table_info('player')").is_ok());
    assert!(DbContext::validate_sql("PRAGMA database_list").is_ok());
    assert!(DbContext::validate_sql("PRAGMA show_tables").is_ok());
}

#[test]
fn test_validate_sql_pragma_write_rejected() {
    let r = DbContext::validate_sql("PRAGMA enable_profiling");
    assert!(r.is_err(), "write pragma must be rejected");
    assert!(r.unwrap_err().contains("not allowed"));
}

#[test]
fn test_validate_sql_dml_rejected() {
    for q in [
        "INSERT INTO player VALUES (1)",
        "UPDATE player SET first_name = 'x'",
        "DELETE FROM player",
        "MERGE INTO player USING game ON true WHEN MATCHED THEN DELETE",
    ] {
        assert!(DbContext::validate_sql(q).is_err(), "should reject: {}", q);
    }
}

#[test]
fn test_validate_sql_empty_and_parse_error() {
    assert!(DbContext::validate_sql("").is_err());
    assert!(DbContext::validate_sql("   ").is_err());
    assert!(DbContext::validate_sql("SELECT FROM WHERE").is_err(), "parse error branch");
}

#[test]
fn test_validate_sql_allowed_reads() {
    assert!(DbContext::validate_sql("SELECT * FROM player").is_ok());
    assert!(DbContext::validate_sql("WITH x AS (SELECT 1) SELECT * FROM x").is_ok());
    assert!(DbContext::validate_sql("EXPLAIN SELECT 1").is_ok());
    assert!(DbContext::validate_sql("SHOW TABLES").is_ok());
    assert!(DbContext::validate_sql("DESCRIBE player").is_ok());
}

#[test]
fn test_heuristic_replacement_unparseable_sql() {
    let fixed = DbContext::auto_fix_sql(
        "SELECT player_name FROM",
        "Binder Error: Referenced column \"player_name\" not found in FROM clause!\n\
         Candidate bindings: \"first_name\", \"full_name\"\n\
         LINE 1: SELECT player_name FROM",
    );
    assert!(fixed.is_some(), "heuristic should fix unparseable SQL");
    let out = fixed.unwrap();
    assert!(out.contains("first_name"), "heuristic should swap identifier, got: {}", out);
}

#[test]
fn test_heuristic_quoted_string_preserved() {
    let fixed = DbContext::auto_fix_sql(
        "SELECT player_name FROM t WHERE note = 'player_name literal'",
        "Binder Error: Referenced column \"player_name\" not found\nCandidate bindings: \"first_name\"",
    );
    if let Some(out) = fixed {
        assert!(out.contains("'player_name literal'"), "literal must survive: {}", out);
    }
}

#[test]
fn test_replace_sql_ident_heuristic_word_boundaries() {
    let fixed = DbContext::auto_fix_sql(
        "SELECT player_id FROM players WHERE player_name = 'x'",
        "Binder Error: Referenced column \"player_id\" not found in FROM clause!\n\
         Candidate bindings: \"pid\", \"player_name\"\n\
         LINE 1: SELECT player_id FROM players",
    );
    assert!(fixed.is_some() || fixed.is_none());
    assert_eq!(fixed.unwrap(), "SELECT pid FROM players WHERE player_name = 'x'");
}

#[test]
fn test_replace_sql_ident_ast_and_heuristic() {
    let sql = "SELECT player_name FROM players WHERE note = 'player_name is fine'";
    let fixed = DbContext::auto_fix_sql(
        sql,
        "Binder Error: Referenced column \"player_name\" not found in FROM clause!\n\
         Candidate bindings: \"full_name\", \"first_name\"\n\
         LINE 1: SELECT player_name FROM players",
    );
    assert!(fixed.is_some());
    let out = fixed.unwrap();
    assert!(
        !out.contains("'player_name is fine'") || out.contains("player_name"),
        "quoted literal must survive: {}",
        out
    );
    assert_eq!(out, "SELECT full_name FROM players WHERE note = 'player_name is fine'");
}

#[test]
fn test_auto_fix_sql_heuristic_fallback() {
    let bad_sql = "SELECT player_name FROM WHERE";
    let err = "Binder Error: Referenced column \"player_name\" not found in FROM clause!\n\
               Candidate bindings: \"full_name\", \"first_name\"\n\
               LINE 1: SELECT player_name FROM WHERE";
    let fixed = DbContext::auto_fix_sql(bad_sql, err);
    assert!(fixed.is_some(), "heuristic should still return a fix");
    assert!(fixed.unwrap().contains("full_name"), "should swap player_name -> full_name");
}

#[test]
fn test_auto_fix_sql_no_candidates_returns_none() {
    let err = "Binder Error: something unrelated happened";
    let fixed = DbContext::auto_fix_sql("SELECT 1", err);
    assert!(fixed.is_none());
}

#[test]
fn refusals_name_the_reason() {
    assert_eq!(DbContext::validate_sql("  \n ").unwrap_err(), "Empty query");
    assert_eq!(DbContext::validate_sql(";").unwrap_err(), "Empty query after parsing");
    assert_eq!(
        DbContext::validate_sql("pragma Enable_Profiling").unwrap_err(),
        "PRAGMA write statements are not allowed"
    );
    assert_eq!(
        DbContext::validate_sql("DROP TABLE player").unwrap_err(),
        "DDL statements are not allowed on this read-only agent"
    );
    assert_eq!(
        DbContext::validate_sql("SELECT 1; DELETE FROM player").unwrap_err(),
        "DML write statements are not allowed on this read-only agent"
    );
    assert_eq!(
        DbContext::validate_sql("SET x = 1").unwrap_err(),
        "unsupported statements are not allowed on this read-only agent"
    );
    assert!(DbContext::validate_sql("SELEC 1").unwrap_err().starts_with("SQL parse error: "));
}

#[test]
fn a_with_that_writes_is_a_write() {
    for q in [
        "WITH x AS (SELECT 1) INSERT INTO game SELECT * FROM x",
        "WITH x AS (SELECT 1) UPDATE game SET a = 1",
        "WITH x AS (SELECT 1) DELETE FROM game",
        "WITH x AS (DELETE FROM player) SELECT * FROM x",
        "WITH x AS (WITH y AS (UPDATE player SET a = 1) SELECT 1) SELECT * FROM x",
        "(WITH x AS (SELECT 1) INSERT INTO game SELECT * FROM x)",
    ] {
        assert_eq!(
            DbContext::validate_sql(q).unwrap_err(),
            "DML write statements are not allowed on this read-only agent",
            "{}",
            q
        );
    }
    assert!(DbContext::validate_sql("WITH x AS (SELECT 1) SELECT * FROM x").is_ok());
}

#[test]
fn what_is_there_can_be_shown() {
    for q in ["SHOW TABLES", "SHOW DATABASES", "SHOW search_path", "SHOW ALL TABLES", "DESCRIBE game", "EXPLAIN SELECT 1"] {
        assert!(DbContext::validate_sql(q).is_ok(), "{}", q);
    }
}

#[test]
fn keywords_in_strings_and_comments_are_no_statements() {
    assert!(DbContext::validate_sql("SELECT 'DROP TABLE player; INSERT'").is_ok());
    assert!(DbContext::validate_sql("SELECT 1 -- DELETE FROM player").is_ok());
    assert!(DbContext::validate_sql("/* UPDATE */ SELECT 1").is_ok());
}

#[test]
fn statements_are_judged_in_order() {
    assert!(judge_statements(&Ok(vec![
        SqlStatement::Query(vec![]),
        SqlStatement::Other("ShowTables { .. }".to_string()),
    ]))
    .is_ok());
    let inner = vec!["Delete(..)".to_string(), "Drop { .. }".to_string()];
    assert_eq!(
        judge_statements(&Ok(vec![SqlStatement::Query(vec![]), SqlStatement::Query(inner)])).unwrap_err(),
        "DML write statements are not allowed on this read-only agent"
    );
    assert_eq!(judge_statements(&Ok(vec![])).unwrap_err(), "Empty query after parsing");
    assert_eq!(
        judge_statements(&Err("nope".to_string())).unwrap_err(),
        "SQL parse error: nope"
    );
    let v = vec![
        SqlStatement::Explain,
        SqlStatement::Other("Insert(..)".to_string()),
        SqlStatement::Other("Drop { .. }".to_string()),
    ];
    assert_eq!(
        judge_statements(&Ok(v)).unwrap_err(),
        "DML write statements are not allowed on this read-only agent"
    );
    assert_eq!(refusal("Truncate"), "DDL");
    assert_eq!(refusal("Merge { .. }"), "DML write");
    assert_eq!(refusal("Grant"), "unsupported");
    assert_eq!(refusal("Insert(Insert { v: \"Create\" })"), "DML write");
    assert_eq!(refusal("Prepare { statement: Delete(..) }"), "DML write");
    assert_eq!(refusal("Grant { actions: [Create] }"), "DDL");
    assert_eq!(
        DbContext::validate_sql("PREPARE p AS DELETE FROM player").unwrap_err(),
        "DML write statements are not allowed on this read-only agent"
    );
    assert_eq!(
        DbContext::validate_sql("INSERT INTO t VALUES ('Create')").unwrap_err(),
        "DML write statements are not allowed on this read-only agent"
    );
}

#[test]
fn pragmas_are_judged_by_their_name_and_stand_alone() {
    assert!(judge_pragma("SELECT 1").is_none());
    assert!(judge_pragma("PRAGMA TABLE_INFO('X')").unwrap().is_ok());
    assert!(judge_pragma("PRAGMA COLUMNS").unwrap().is_ok());
    assert!(judge_pragma("PRAGMA MEMORY_LIMIT='1GB'").unwrap().is_err());
    for q in [
        "pragma table_info ( \"my \"\"table\"\"; tables\" ) ; ",
        "PRAGMA\n\ttable_info(main.player);",
        "PRAGMA Show_Tables()",
        "PRAGMA table_info('it''s; here')",
        "PRAGMA TABLES --x",
        "PRAGMA database_list; -- DROP TABLE player",
        "PRAGMA /* what */ table_info(/* of */ 'player') /* ; */ ; ;",
        "PRAGMA database_list -- one\n-- two\n;",
        "PRAGMA main.table_info('player')",
        "PRAGMA table_info('player', \"x\", 1)",
        "PRAGMA table_info(\u{e9}quipe)",
    ] {
        assert!(DbContext::validate_sql(q).is_ok(), "{}", q);
    }
    for q in [
        "PRAGMA database_list; DROP TABLE player",
        "PRAGMA database_list; PRAGMA enable_profiling",
        "PRAGMA enable_profiling; -- TABLES",
        "PRAGMA memory_limit='TABLES'",
        "PRAGMA enable_profiling('TABLE_INFO')",
        "PRAGMA database_list /* ' */; DROP TABLE player --'",
        "PRAGMA table_info('x",
        "PRAGMA table_info('x') DROP",
        "PRAGMA database_list -- x\n; DROP TABLE player",
        "PRAGMA database_list -- x\r; DROP TABLE player",
        "PRAGMA database_list /* x */ ; DROP TABLE player",
        "PRAGMA database_list /* /* */ -- */ ; DROP TABLE player",
        "PRAGMA database_list /* x",
        "PRAGMA tables.enable_profiling",
        "PRAGMA table_info('x' 'y')",
        "PRAGMA table_info($$'$$); DROP TABLE player --')",
        "PRAGMATABLES",
        "PRAGMA",
    ] {
        assert_eq!(
            DbContext::validate_sql(q).unwrap_err(),
            "PRAGMA write statements are not allowed",
            "{}",
            q
        );
    }
}

#[test]
fn engine_errors_have_categories() {
    assert_eq!(DbContext::classify_sql_error("x Candidate bindings: y"), "column_not_found");
    assert_eq!(DbContext::classify_sql_error("Table x does not exist!"), "table_not_found");
    assert_eq!(DbContext::classify_sql_error("Syntax error at end"), "syntax_error");
    assert_eq!(DbContext::classify_sql_error("Type mismatch here"), "type_mismatch");
    assert_eq!(DbContext::classify_sql_error("out of memory"), "execution_error");
    assert_eq!(
        DbContext::classify_sql_error("does not exist; Candidate bindings: a"),
        "column_not_found"
    );
}

#[test]
fn text_between_two_marks() {
    assert_eq!(extract_between("a[b]c", "[", "]"), Some("b"));
    assert_eq!(extract_between("é[ü]ß", "[", "]"), Some("ü"));
    assert_eq!(extract_between("a[]c", "[", "]"), Some(""));
    assert_eq!(extract_between("a]b[c", "[", "]"), None);
    assert_eq!(extract_between("abc", "[", "]"), None);
}

#[test]
fn repairs_are_read_from_the_error() {
    let e = "Referenced column \"a\" not found\nCandidate bindings: , \"\" , \"b\", \"c\"\nLINE 1";
    assert_eq!(read_repair(e), Some(("a".to_string(), "b".to_string())));
    assert_eq!(read_repair("Referenced column \"a\" not found"), None);
    assert_eq!(read_repair("Candidate bindings: \"b\""), None);
    assert_eq!(read_repair("Referenced column \"a\" not found\nCandidate bindings: , \n\"b\""), None);
}

#[test]
fn words_are_replaced_whole_and_outside_quotes() {
    assert_eq!(replace_sql_ident_heuristic("id id_x xid (id)", "id", "no"), "no id_x xid (no)");
    assert_eq!(replace_sql_ident_heuristic("'id' id", "id", "no"), "'id' no");
    assert_eq!(replace_sql_ident_heuristic("'it''s id' id", "id", "no"), "'it''s id' no");
    assert_eq!(replace_sql_ident_heuristic("id 'id", "id", "no"), "no 'id");
    assert_eq!(replace_sql_ident_heuristic("Id", "id", "no"), "Id");
    assert_eq!(replace_sql_ident_heuristic("é id", "id", "no"), "é no");
    assert_eq!(replace_sql_ident_heuristic("éidß idé", "id", "ñ"), "éñß ñé");
    assert_eq!(
        replace_sql_ident_heuristic("SELECT a FROM WHERE n = 'é'", "a", "b"),
        "SELECT b FROM WHERE n = 'é'"
    );
    assert_eq!(replace_sql_ident_heuristic("abc", "", "no"), "abc");
    assert_eq!(replace_sql_ident_heuristic("SELECT 1", "absent", "no"), "SELECT 1");
}

#[test]
fn columns_are_replaced_in_the_tree() {
    assert_eq!(
        replace_sql_ident_ast("select p.ID, id as x from t; select 2", "id", "no").unwrap(),
        "SELECT p.no, no AS x FROM t; SELECT 2"
    );
    assert_eq!(replace_sql_ident_ast("SELECT FROM WHERE", "id", "no"), None);
    assert_eq!(replace_sql_ident("SELECT id FROM id", "id", "no"), "SELECT no FROM id");
    assert_eq!(renamed("ID", "id", "no"), "no");
    assert_eq!(renamed("idx", "id", "no"), "idx");
    let all = vec!["p".to_string(), "ID".to_string(), "é".to_string()];
    assert_eq!(rename_all(&all, "id", "no"), vec!["p", "no", "é"]);
    assert_eq!(
        replace_sql_ident_ast("SELECT id, 'id é' FROM t WHERE (id + x.id) > id", "id", "no").unwrap(),
        "SELECT no, 'id é' FROM t WHERE (no + x.no) > no"
    );
    assert_eq!(
        replace_sql_ident_ast("SELECT a, b FROM t WHERE c = d ORDER BY e", "zz", "no").unwrap(),
        "SELECT a, b FROM t WHERE c = d ORDER BY e"
    );
}

#[test]
fn mending_ends_for_every_query() {
    let e = "Referenced column \"\" not found\nCandidate bindings: \"b\"";
    assert_eq!(DbContext::mend_sql("SELECT FROM WHERE (", e), None);
    assert_eq!(DbContext::mend_sql("abc", e), Some("abc".to_string()));
    assert_eq!(DbContext::mend_sql("SELECT a", e), Some("SELECT a".to_string()));
    assert_eq!(DbContext::mend_sql("SELECT 1", "other error"), None);
    let e = "Referenced column \"a\" not found\nCandidate bindings: \"b\"";
    assert_eq!(DbContext::mend_sql("SELECT a", e), Some("SELECT b".to_string()));
}
