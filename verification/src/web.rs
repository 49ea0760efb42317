//! What the server decides at its edge: settings, bearer tokens, file names and
//! figures about itself.
use vstd::prelude::*;

use crate::agent::Agent;
use crate::db;
use crate::db::DbContext;
use crate::db::DbHistoryEntry;
use crate::db::HistoryView;
use crate::insights::InsightsResponse;
use crate::json;
use crate::json::Json;
use crate::json::JsonView;
use crate::limit;
use crate::text;

verus! {

// ---------------------------------------------------------------------------
// Bearer tokens
// ---------------------------------------------------------------------------

/// The token that requests must bear, if any.
#[derive(Debug)]
pub struct ApiAuth {
    pub key: Option<String>,
}

/// A setting that is there and not empty.
pub open spec fn filled(value: Option<Seq<char>>) -> Option<Seq<char>> {
    match value {
        Some(s) => if s.len() > 0 {
            Some(s)
        } else {
            None
        },
        None => None,
    }
}

/// A setting that is there and not empty.
pub fn fill(value: Option<String>) -> (r: Option<String>)
    ensures
        json::opt_text(r) == filled(json::opt_text(value)),
{
    match value {
        Some(s) => if s.as_str().is_empty() {
            None
        } else {
            Some(s)
        },
        None => None,
    }
}

/// A request to `path` with this authorization may pass, where requests must
/// bear `key`: the health check always may, others with the key as their bearer
/// token. Without a key every request may pass.
pub open spec fn may_pass(
    key: Option<Seq<char>>,
    path: Seq<char>,
    authorization: Option<Seq<char>>,
) -> bool {
    match key {
        None => true,
        Some(k) => path == "/api/health"@ || authorization == Some("Bearer "@ + k),
    }
}

impl ApiAuth {
    /// The token that the setting names; none where it is missing or empty.
    pub fn from_env(value: Option<String>) -> (r: ApiAuth)
        ensures
            json::opt_text(r.key) == filled(json::opt_text(value)),
    {
        ApiAuth { key: fill(value) }
    }

    /// Requests must bear a token.
    pub fn is_enabled(&self) -> (r: bool)
        ensures
            r == self.key is Some,
    {
        self.key.is_some()
    }

    /// Whether a request to `path` with this authorization may pass.
    pub fn authorize(&self, path: &str, authorization: Option<&str>) -> (r: bool)
        ensures
            r == may_pass(
                json::opt_text(self.key),
                path@,
                match authorization {
                    Some(s) => Some(s@),
                    None => None,
                },
            ),
    {
        let key = match &self.key {
            Some(k) => k,
            None => {
                return true;
            },
        };
        if text::same(path, "/api/health") {
            return true;
        }
        match authorization {
            None => false,
            Some(a) => match text::strip_prefix(a, "Bearer ") {
                Some(token) => {
                    proof {
                        lemma_bytes_tell(token@, key@);
                        assert(a@ =~= "Bearer "@ + token@);
                        if a@ == "Bearer "@ + key@ {
                            assert(a@.skip("Bearer "@.len() as int) =~= key@);
                            assert(a@.skip("Bearer "@.len() as int) =~= token@);
                        }
                    }
                    constant_time_eq(token.as_str().as_bytes(), key.as_str().as_bytes())
                },
                None => {
                    proof {
                        if a@ == "Bearer "@ + key@ {
                            assert(a@.take("Bearer "@.len() as int) =~= "Bearer "@);
                        }
                    }
                    false
                },
            },
        }
    }
}

proof fn lemma_bytes_tell(a: Seq<char>, b: Seq<char>)
    ensures
        vstd::utf8::encode_utf8(a) == vstd::utf8::encode_utf8(b) <==> a == b,
{
    broadcast use vstd::utf8::encode_utf8_decode_utf8;

    assert(vstd::utf8::decode_utf8(vstd::utf8::encode_utf8(a)) == a);
    assert(vstd::utf8::decode_utf8(vstd::utf8::encode_utf8(b)) == b);
}

/// Whether two byte strings are the same, at a pace that depends on their
/// lengths alone.
pub fn constant_time_eq(a: &[u8], b: &[u8]) -> (r: bool)
    ensures
        r == (a@ == b@),
{
    if a.len() != b.len() {
        return false;
    }
    let mut diff: u8 = 0;
    let mut i: usize = 0;
    while i < a.len()
        invariant
            a@.len() == b@.len(),
            i <= a@.len(),
            diff == 0 <==> forall|k: int| 0 <= k < i ==> a@[k] == b@[k],
        decreases a@.len() - i,
    {
        let x: u8 = a[i];
        let y: u8 = b[i];
        proof {
            assert((diff | (x ^ y)) == 0 <==> diff == 0 && x == y) by (bit_vector);
        }
        diff = diff | (x ^ y);
        i = i + 1;
    }
    proof {
        if diff == 0 {
            assert(a@ =~= b@);
        }
    }
    diff == 0
}

// ---------------------------------------------------------------------------
// File names
// ---------------------------------------------------------------------------

/// The character may stand in a file name.
pub open spec fn safe_char(c: char) -> bool {
    text::is_alnum(c) || c == '-' || c == '_'
}

/// A text as part of a file name: its first characters, each that may not stand
/// there as an underscore; `session` where there is none.
pub open spec fn filename_part(s: Seq<char>, max_chars: nat) -> Seq<char> {
    let n = if s.len() < max_chars {
        s.len()
    } else {
        max_chars
    };
    if n == 0 {
        "session"@
    } else {
        Seq::new(
            n,
            |i: int|
                if safe_char(s[i]) {
                    s[i]
                } else {
                    '_'
                },
        )
    }
}

/// A text as part of a file name.
pub fn sanitize_filename_part(s: &str, max_chars: usize) -> (r: String)
    ensures
        r@ == filename_part(s@, max_chars as nat),
{
    let v = text::chars_of(s);
    let mut out = String::new();
    let mut i: usize = 0;
    while i < v.len() && i < max_chars
        invariant
            v@ == s@,
            i <= v@.len(),
            i <= max_chars,
            out@.len() == i,
            forall|k: int|
                0 <= k < i ==> #[trigger] out@[k] == if safe_char(s@[k]) {
                    s@[k]
                } else {
                    '_'
                },
        decreases v@.len() - i,
    {
        let c: char = v[i];
        if text::alnum(c) || c == '-' || c == '_' {
            out.push(c);
        } else {
            out.push('_');
        }
        i = i + 1;
    }
    if i == 0 {
        return "session".to_owned();
    }
    proof {
        assert(out@ =~= filename_part(s@, max_chars as nat));
    }
    out
}

/// Whatever a session is called, the part of a file name that it makes is not
/// empty, holds nothing but letters, digits, dashes and underscores, and is no
/// longer than asked, but for the stand-in of a session without a name.
pub proof fn law_filename_part_is_safe(s: Seq<char>, max_chars: nat)
    ensures
        filename_part(s, max_chars).len() > 0,
        forall|i: int|
            0 <= i < filename_part(s, max_chars).len() ==> safe_char(
                #[trigger] filename_part(s, max_chars)[i],
            ),
        s.len() > 0 && max_chars > 0 ==> filename_part(s, max_chars).len() <= max_chars,
{
    reveal_strlit("session");
}

/// How the report of a session is offered for download.
pub open spec fn disposition(session: Seq<char>) -> Seq<char> {
    "attachment; filename=\"nba-report-"@ + filename_part(session, 8) + ".md\""@
}

/// How the report of a session is offered for download.
pub fn content_disposition(session: &str) -> (r: String)
    ensures
        r@ == disposition(session@),
{
    let mut s = "attachment; filename=\"nba-report-".to_owned();
    s.append(sanitize_filename_part(session, 8).as_str());
    s.append(".md\"");
    s
}

// ---------------------------------------------------------------------------
// Settings
// ---------------------------------------------------------------------------

/// A setting, or what stands in for it.
pub open spec fn setting(value: Option<Seq<char>>, other: Seq<char>) -> Seq<char> {
    text::or_text(value, other)
}

/// A setting that is a number up to `max`, or what stands in for it.
pub open spec fn number_setting(value: Option<Seq<char>>, other: nat, max: nat) -> nat {
    match value {
        Some(s) => match text::number(s, max) {
            Some(n) => n,
            None => other,
        },
        None => other,
    }
}

/// A setting, or what stands in for it.
pub fn setting_or(value: Option<String>, other: &str) -> (r: String)
    ensures
        r@ == setting(json::opt_text(value), other@),
{
    match value {
        Some(s) => s,
        None => other.to_owned(),
    }
}

/// A setting that is a number up to `max`, or what stands in for it.
pub fn number_setting_or(value: &Option<String>, other: u64, max: u64) -> (r: u64)
    requires
        other <= max,
    ensures
        r as nat == number_setting(json::opt_text(*value), other as nat, max as nat),
        r <= max,
{
    match value {
        Some(s) => match text::parse_number(s.as_str(), max) {
            Some(n) => n,
            None => other,
        },
        None => other,
    }
}

/// Where the server listens and what it reads.
#[derive(Debug)]
pub struct ServerConfig {
    pub db_path: String,
    pub bind_addr: String,
    pub port: u16,
    pub sessions_path: String,
}

/// Where the server listens and what it reads, by its settings.
pub fn env_config(
    db_path: Option<String>,
    bind_addr: Option<String>,
    port: Option<String>,
    sessions_path: Option<String>,
) -> (r: ServerConfig)
    ensures
        r.db_path@ == setting(json::opt_text(db_path), "../data/nba-data.duckdb"@),
        r.bind_addr@ == setting(json::opt_text(bind_addr), "0.0.0.0"@),
        r.port as nat == number_setting(json::opt_text(port), 3000, 65535),
        r.sessions_path@ == setting(json::opt_text(sessions_path), "data/sessions.json"@),
{
    ServerConfig {
        db_path: setting_or(db_path, "../data/nba-data.duckdb"),
        bind_addr: setting_or(bind_addr, "0.0.0.0"),
        port: number_setting_or(&port, 3000, 65535) as u16,
        sessions_path: setting_or(sessions_path, "data/sessions.json"),
    }
}

/// How much of the query desk's answers is kept, and for how long.
#[derive(Debug)]
pub struct DbConfig {
    pub memory_limit: String,
    pub cache_max: u64,
    pub cache_ttl_secs: u64,
    pub row_cap: usize,
}

/// The settings of the query desk.
pub fn db_config(
    memory_limit: Option<String>,
    cache_max: Option<String>,
    cache_ttl_secs: Option<String>,
    row_cap: Option<String>,
) -> (r: DbConfig)
    ensures
        r.memory_limit@ == setting(json::opt_text(memory_limit), "2GB"@),
        r.cache_max as nat == number_setting(
            json::opt_text(cache_max),
            200,
            u64::MAX as nat,
        ),
        r.cache_ttl_secs as nat == number_setting(
            json::opt_text(cache_ttl_secs),
            60,
            u64::MAX as nat,
        ),
        r.row_cap as nat == number_setting(json::opt_text(row_cap), 50, usize::MAX as nat),
{
    DbConfig {
        memory_limit: setting_or(memory_limit, "2GB"),
        cache_max: number_setting_or(&cache_max, 200, u64::MAX),
        cache_ttl_secs: number_setting_or(&cache_ttl_secs, 60, u64::MAX),
        row_cap: number_setting_or(&row_cap, 50, usize::MAX as u64) as usize,
    }
}

/// Which models the agent asks, where, and how often.
#[derive(Debug)]
pub struct AgentConfig {
    pub api_key: String,
    pub base_url: String,
    pub model: String,
    pub fallback_model: Option<String>,
    pub max_iterations: usize,
}

/// The key for the models: the first, or else the second.
pub open spec fn first_key(a: Option<Seq<char>>, b: Option<Seq<char>>) -> Option<Seq<char>> {
    match a {
        Some(k) => Some(k),
        None => b,
    }
}

/// The settings of the agent; an error where there is no key for the models.
pub fn agent_config(
    openrouter_key: Option<String>,
    openai_key: Option<String>,
    base_url: Option<String>,
    model: Option<String>,
    fallback_model: Option<String>,
    max_iterations: Option<String>,
) -> (r: Result<AgentConfig, String>)
    ensures
        match r {
            Ok(c) => {
                &&& first_key(json::opt_text(openrouter_key), json::opt_text(openai_key)) == Some(
                    c.api_key@,
                )
                &&& c.base_url@ == setting(
                    json::opt_text(base_url),
                    "https://openrouter.ai/api/v1/chat/completions"@,
                )
                &&& c.model@ == setting(json::opt_text(model), "qwen/qwen3.7-flash"@)
                &&& json::opt_text(c.fallback_model) == filled(json::opt_text(fallback_model))
                &&& c.max_iterations as nat == number_setting(
                    json::opt_text(max_iterations),
                    12,
                    usize::MAX as nat,
                )
            },
            Err(e) => {
                &&& first_key(json::opt_text(openrouter_key), json::opt_text(openai_key)) is None
                &&& e@ == "Neither OPENROUTER_API_KEY nor OPENAI_API_KEY set"@
            },
        },
{
    let api_key = match openrouter_key {
        Some(k) => k,
        None => match openai_key {
            Some(k) => k,
            None => {
                return Err("Neither OPENROUTER_API_KEY nor OPENAI_API_KEY set".to_owned());
            },
        },
    };
    Ok(
        AgentConfig {
            api_key,
            base_url: setting_or(base_url, "https://openrouter.ai/api/v1/chat/completions"),
            model: setting_or(model, "qwen/qwen3.7-flash"),
            fallback_model: fill(fallback_model),
            max_iterations: number_setting_or(&max_iterations, 12, usize::MAX as u64) as usize,
        },
    )
}

/// The pieces without the blanks round them.
pub open spec fn trimmed(pieces: Seq<Seq<char>>) -> Seq<Seq<char>> {
    Seq::new(pieces.len(), |i: int| text::trim(pieces[i]))
}

/// The origins that a list with commas names; none where there is no list, and
/// then every origin will do.
pub fn allowed_origins(list: Option<String>) -> (r: Option<Vec<String>>)
    ensures
        match (r, filled(json::opt_text(list))) {
            (Some(v), Some(s)) => text::views(v@) == trimmed(text::split(s, ',')),
            (None, None) => true,
            _ => false,
        },
{
    match fill(list) {
        None => None,
        Some(s) => {
            let pieces = text::split_on(s.as_str(), ',');
            let ghost want = trimmed(text::views(pieces@));
            let mut out: Vec<String> = Vec::new();
            let mut i: usize = 0;
            while i < pieces.len()
                invariant
                    want == trimmed(text::views(pieces@)),
                    i <= pieces@.len(),
                    text::views(out@) == want.take(i as int),
                decreases pieces@.len() - i,
            {
                let t = text::trim_white(pieces[i].as_str());
                let ghost before = out@;
                out.push(t);
                proof {
                    assert(text::views(out@) == text::views(before).push(t@));
                    assert(want.take(i + 1) == want.take(i as int).push(t@));
                }
                i = i + 1;
            }
            proof {
                assert(want.take(i as int) == want);
            }
            Some(out)
        },
    }
}

// ---------------------------------------------------------------------------
// What the server tells of itself
// ---------------------------------------------------------------------------

/// The state that requests share.
pub struct AppState {
    pub agent: Agent,
    pub db: DbContext,
    pub insights: InsightsResponse,
    pub started_at: std::time::Instant,
}

/// Figures about the server.
#[derive(Debug)]
pub struct StatsResponse {
    pub uptime_secs: u64,
    pub total_queries: usize,
    pub successful_queries: usize,
    pub cache_hits: usize,
    pub db_tables: usize,
}

/// How many of the entries were answered.
pub open spec fn successes(h: Seq<HistoryView>) -> nat
    decreases h.len(),
{
    if h.len() == 0 {
        0
    } else {
        successes(h.drop_last()) + (if h.last().success {
            1nat
        } else {
            0nat
        })
    }
}

/// How many of the entries were answered from the cache.
pub open spec fn hits(h: Seq<HistoryView>) -> nat
    decreases h.len(),
{
    if h.len() == 0 {
        0
    } else {
        hits(h.drop_last()) + (if h.last().cache_hit {
            1nat
        } else {
            0nat
        })
    }
}

/// How many of the entries were answered, and how many of those from the cache.
pub fn count_entries(h: &Vec<DbHistoryEntry>) -> (r: (usize, usize))
    ensures
        r.0 as nat == successes(text::views(h@)),
        r.1 as nat == hits(text::views(h@)),
{
    let ghost all = text::views(h@);
    let mut ok: usize = 0;
    let mut hit: usize = 0;
    let mut i: usize = 0;
    proof {
        assert(all.take(0).len() == 0);
    }
    while i < h.len()
        invariant
            all == text::views(h@),
            i <= h@.len(),
            ok <= i,
            hit <= i,
            ok as nat == successes(all.take(i as int)),
            hit as nat == hits(all.take(i as int)),
        decreases h@.len() - i,
    {
        proof {
            assert(all.take(i + 1).drop_last() == all.take(i as int));
            assert(all.take(i + 1).last() == h@[i as int]@);
        }
        if h[i].success {
            ok = ok + 1;
        }
        if h[i].cache_hit {
            hit = hit + 1;
        }
        i = i + 1;
    }
    proof {
        assert(all.take(i as int) == all);
    }
    (ok, hit)
}

/// `std::time::Instant::elapsed`, in whole seconds. Nothing is claimed of the
/// time.
#[verifier::external_body]
fn seconds_since(start: &std::time::Instant) -> u64 {
    start.elapsed().as_secs()
}

/// The state that requests share, from now on.
pub fn build_state(agent: Agent, desk: DbContext, figures: InsightsResponse) -> (r: AppState)
    ensures
        r.agent == agent,
        r.db == desk,
        r.insights == figures,
{
    AppState { agent, db: desk, insights: figures, started_at: limit::clock() }
}

impl AppState {
    /// Figures about the server: those of the listed queries, the number of all
    /// queries ever asked for, and the number of tables.
    pub fn stats(&self) -> (r: StatsResponse)
        ensures
            r.total_queries == self.db@.lifetime,
            r.successful_queries as nat == successes(db::listed(self.db@.history)),
            r.cache_hits as nat == hits(db::listed(self.db@.history)),
            r.db_tables == self.insights.total_tables,
    {
        let history = self.db.list_history();
        let (ok, hit) = count_entries(&history);
        StatsResponse {
            uptime_secs: seconds_since(&self.started_at),
            total_queries: self.db.get_lifetime_query_count(),
            successful_queries: ok,
            cache_hits: hit,
            db_tables: self.insights.total_tables,
        }
    }
}

/// What the health check says of the database.
pub open spec fn database_status(connected: bool) -> Seq<char> {
    if connected {
        "connected"@
    } else {
        "error"@
    }
}

/// The query of the health check.
pub fn health_query() -> (r: (String, Option<usize>))
    ensures
        r.0@ == "SELECT 1;"@,
        r.1 == Some(1usize),
{
    ("SELECT 1;".to_owned(), Some(1))
}

/// What the health check says of the server and of the database.
pub fn health(outcome: &Result<Vec<Json>, String>) -> (r: (String, String))
    ensures
        r.0@ == "ok"@,
        r.1@ == database_status(*outcome is Ok),
{
    let database = match outcome {
        Ok(_) => "connected".to_owned(),
        Err(_) => "error".to_owned(),
    };
    ("ok".to_owned(), database)
}

/// The outcome of the fixed query that shows that the database answers.
#[derive(Debug)]
pub struct TestQueryResponse {
    pub query: String,
    pub rows: Vec<Json>,
    pub row_count: usize,
}

/// The fixed query that shows that the database answers.
pub open spec fn test_query_text() -> Seq<char> {
    "SELECT game_id, game_date, season_id, team_id_home, team_id_away FROM game LIMIT 5;"@
}

/// The fixed query that shows that the database answers, and its cap.
pub fn test_query() -> (r: (String, Option<usize>))
    ensures
        r.0@ == test_query_text(),
        r.1 == Some(5usize),
{
    (
        "SELECT game_id, game_date, season_id, team_id_home, team_id_away FROM game LIMIT 5;".to_owned(),
        Some(5),
    )
}

/// A row that tells of an error.
pub open spec fn error_row(e: Seq<char>) -> JsonView {
    JsonView::Object(seq![("error"@, JsonView::Str(e))])
}

/// The outcome of the fixed query: its rows and how many they are, or a row that
/// tells of the error, which does not count.
pub fn test_query_response(outcome: Result<Vec<Json>, String>) -> (r: TestQueryResponse)
    ensures
        r.query@ == test_query_text(),
        match db::rows_outcome(outcome) {
            Ok(rows) => text::views(r.rows@) == rows && r.row_count == rows.len(),
            Err(e) => text::views(r.rows@) == seq![error_row(e)] && r.row_count == 0,
        },
{
    broadcast use json::group_json_views;

    let (query, _) = test_query();
    match outcome {
        Ok(rows) => {
            let row_count: usize = rows.len();
            TestQueryResponse { query, rows, row_count }
        },
        Err(e) => {
            let ghost ev = e@;
            let mut p: Vec<(String, Json)> = Vec::new();
            p.push(("error".to_owned(), Json::Str(e)));
            proof {
                assert(json::pair_views(p@) =~= error_row(ev)->Object_0);
            }
            let mut rows: Vec<Json> = Vec::new();
            rows.push(Json::Object(p));
            proof {
                assert(text::views(rows@) =~= seq![error_row(ev)]);
            }
            TestQueryResponse { query, rows, row_count: 0 }
        },
    }
}

/// What a client is told whose turn failed.
pub fn chat_error(e: &str) -> (r: String)
    ensures
        r@ == "Agent error: "@ + e@,
{
    text::plus("Agent error: ".to_owned(), e)
}

// ---------------------------------------------------------------------------
// What the edge is for
// ---------------------------------------------------------------------------

/// Where a key is set, a request passes with exactly that key as its bearer token,
/// and without one only to the health check; where none is set, every request
/// passes. An empty setting sets no key.
pub proof fn law_keys_open(key: Seq<char>, path: Seq<char>, token: Seq<char>, said: Seq<char>)
    ensures
        may_pass(None, path, Some(said)),
        may_pass(None, path, None),
        may_pass(Some(key), "/api/health"@, None),
        path != "/api/health"@ ==> !may_pass(Some(key), path, None),
        path != "/api/health"@ ==> (may_pass(Some(key), path, Some("Bearer "@ + token)) <==> token
            == key),
        path != "/api/health"@ && !text::begins(said, "Bearer "@) ==> !may_pass(
            Some(key),
            path,
            Some(said),
        ),
        filled(Some(key)) == (if key.len() > 0 {
            Some(key)
        } else {
            None
        }),
        filled(None) is None,
{
    let b = "Bearer "@;
    if b + token == b + key {
        assert((b + token).skip(b.len() as int) =~= token);
        assert((b + key).skip(b.len() as int) =~= key);
    }
    if said == b + key {
        assert(said.take(b.len() as int) =~= b);
    }
}

/// The part of a file name keeps each letter, digit, dash and underscore in its
/// place and puts an underscore in the place of any other character; it is as long
/// as the text, up to what is asked.
pub proof fn law_filename_part_keeps_what_is_safe(s: Seq<char>, max_chars: nat, i: int)
    requires
        s.len() > 0,
        max_chars > 0,
    ensures
        filename_part(s, max_chars).len() == (if s.len() < max_chars {
            s.len()
        } else {
            max_chars
        }),
        0 <= i < filename_part(s, max_chars).len() ==> filename_part(s, max_chars)[i] == (if (
        'a' <= s[i] <= 'z') || ('A' <= s[i] <= 'Z') || ('0' <= s[i] <= '9') || s[i] == '-' || s[i]
            == '_' {
            s[i]
        } else {
            '_'
        }),
        disposition(s) == "attachment; filename=\"nba-report-"@ + filename_part(s, 8) + ".md\""@,
{
}

/// A setting that is there holds; a number in decimal is that number where it is
/// not too large; without a setting, or with one that is no such number, what stands
/// in for it holds. Of two keys the first that is there is taken.
pub proof fn law_settings_hold(
    s: Seq<char>,
    other: Seq<char>,
    n: nat,
    instead: nat,
    max: nat,
    a: Option<Seq<char>>,
    b: Option<Seq<char>>,
)
    ensures
        setting(Some(s), other) == s,
        setting(None, other) == other,
        n <= max ==> number_setting(Some(text::dec(n)), instead, max) == n,
        n > max ==> number_setting(Some(text::dec(n)), instead, max) == instead,
        number_setting(None, instead, max) == instead,
        s.len() > 0 && s[0] != '+' && !text::all_digits(s) ==> number_setting(
            Some(s),
            instead,
            max,
        ) == instead,
        a is Some ==> first_key(a, b) == a,
        a is None ==> first_key(a, b) == b,
{
    text::lemma_dec_digits(n);
    assert('0' <= text::dec(n)[0] <= '9');
}

/// The answered entries are those that succeeded, and the hits those that came from
/// the cache; each counts once.
pub proof fn law_entries_are_counted(h: Seq<HistoryView>)
    ensures
        successes(h) == h.filter(|e: HistoryView| e.success).len(),
        hits(h) == h.filter(|e: HistoryView| e.cache_hit).len(),
    decreases h.len(),
{
    reveal(Seq::filter);
    if h.len() > 0 {
        law_entries_are_counted(h.drop_last());
    }
}

/// Each origin is a piece of the list without the blanks round it; a row that tells
/// of an error carries it; and the database is called connected exactly when it
/// answered.
pub proof fn law_what_the_server_tells(pieces: Seq<Seq<char>>, i: int, e: Seq<char>)
    ensures
        trimmed(pieces).len() == pieces.len(),
        0 <= i < pieces.len() ==> trimmed(pieces)[i] == text::trim(pieces[i]),
        error_row(e).str_at("error"@) == Some(e),
        database_status(true) == "connected"@,
        database_status(false) == "error"@,
{
    json::law_objects_hold_their_pairs(error_row(e)->Object_0, 0, "error"@);
}

}
