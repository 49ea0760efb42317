//! The agent: what it remembers of its conversations, what it tells the model,
//! and how a conversation reads as a report.
use vstd::prelude::*;

use crate::chat;
use crate::chat::MessageView;
use crate::db::DbContext;
use crate::insights;
use crate::json;
use crate::json::Json;
use crate::json::JsonView;
use crate::text;

pub use crate::chat::ChatCompletion;
pub use crate::chat::ChatMessage;
pub use crate::tool_reply::ToolResult;
pub use crate::tools::args_to_tool_start_fields;
pub use crate::turn::AgentStreamEvent;
pub use crate::turn::ChatStep;
pub use crate::turn::ConversationTrace;
pub use crate::turn::ToolCallStep;

verus! {

// ---------------------------------------------------------------------------
// The session store
// ---------------------------------------------------------------------------

/// The most sessions that are remembered.
pub const SESSIONS_MAX_CAPACITY: u64 = 500;

/// How long a session is remembered after it was last stored or read, in
/// seconds.
pub const SESSIONS_TTL_SECS: u64 = 1800;

/// How long changes wait before they are written to disk, in seconds.
pub const SAVE_DEBOUNCE_SECS: u64 = 5;

/// For each session, the messages that were last stored, unless it was reset
/// since. The store itself may have dropped them.
pub uninterp spec fn stored(c: moka::sync::Cache<String, Vec<ChatMessage>>) -> Map<
    Seq<char>,
    Seq<MessageView>,
>;

/// The limits that a store was made with: the most sessions that it keeps, and
/// for how many seconds after they were last put or read.
pub uninterp spec fn store_limits(c: moka::sync::Cache<String, Vec<ChatMessage>>) -> (u64, u64);

/// The contents of a new store.
pub open spec fn nothing_stored() -> Map<Seq<char>, Seq<MessageView>> {
    Map::empty()
}

/// What messages that may be missing hold.
pub open spec fn opt_messages(o: Option<Vec<ChatMessage>>) -> Option<Seq<MessageView>> {
    match o {
        Some(v) => Some(text::views(v@)),
        None => None,
    }
}

/// What was found for a session, if anything, is what was stored for it.
pub open spec fn was_stored(
    kept: Map<Seq<char>, Seq<MessageView>>,
    id: Seq<char>,
    found: Option<Seq<MessageView>>,
) -> bool {
    found matches Some(ms) ==> kept.contains_key(id) && kept[id] == ms
}

/// `moka::sync::Cache::builder` with a capacity and a time to idle: the store is
/// empty and made with these limits. A time to idle beyond a thousand years would
/// panic. That a session is dropped once it has not been stored or read for that
/// time is not claimed.
#[verifier::external_body]
fn new_store(capacity: u64, idle_secs: u64) -> (r: moka::sync::Cache<String, Vec<ChatMessage>>)
    requires
        idle_secs <= crate::db::LONGEST_TTL_SECS,
    ensures
        stored(r) == nothing_stored(),
        store_limits(r) == (capacity, idle_secs),
{
    moka::sync::Cache::builder().max_capacity(capacity).time_to_idle(
        std::time::Duration::from_secs(idle_secs),
    ).build()
}

/// `moka::sync::Cache::get`: what comes back is what was last stored for the
/// session. Nothing may come back at any time, for an entry can expire or make
/// room for others.
#[verifier::external_body]
fn store_get(c: &moka::sync::Cache<String, Vec<ChatMessage>>, id: &str) -> (r: Option<
    Vec<ChatMessage>,
>)
    ensures
        was_stored(stored(*c), id@, opt_messages(r)),
{
    c.get(id)
}

/// `moka::sync::Cache::insert`: the messages are what was last stored for the
/// session, and the limits stay.
#[verifier::external_body]
fn store_put(
    c: &mut moka::sync::Cache<String, Vec<ChatMessage>>,
    id: String,
    messages: Vec<ChatMessage>,
)
    ensures
        stored(*final(c)) == stored(*old(c)).insert(id@, text::views(messages@)),
        store_limits(*final(c)) == store_limits(*old(c)),
{
    c.insert(id, messages)
}

/// `moka::sync::Cache::invalidate`: nothing is stored for the session any more,
/// and the limits stay.
#[verifier::external_body]
fn store_drop(c: &mut moka::sync::Cache<String, Vec<ChatMessage>>, id: &str)
    ensures
        stored(*final(c)) == stored(*old(c)).remove(id@),
        store_limits(*final(c)) == store_limits(*old(c)),
{
    c.invalidate(id)
}

/// Every listed session has what was stored for it.
pub open spec fn all_stored(
    kept: Map<Seq<char>, Seq<MessageView>>,
    listed: Seq<(String, Vec<ChatMessage>)>,
) -> bool {
    forall|i: int|
        0 <= i < listed.len() ==> kept.contains_key((#[trigger] listed[i]).0@) && kept[listed[i].0@]
            == text::views(listed[i].1@)
}

/// No session is listed twice.
pub open spec fn listed_once(listed: Seq<(String, Vec<ChatMessage>)>) -> bool {
    forall|i: int, j: int|
        0 <= i < j < listed.len() ==> (#[trigger] listed[i]).0@ != (#[trigger] listed[j]).0@
}

/// `moka::sync::Cache::iter`: each session that is listed has what was last
/// stored for it, and none is listed twice. Which of them are still there, and in
/// what order they come, is the store's own affair.
#[verifier::external_body]
fn store_list(c: &moka::sync::Cache<String, Vec<ChatMessage>>) -> (r: Vec<
    (String, Vec<ChatMessage>),
>)
    ensures
        all_stored(stored(*c), r@),
        listed_once(r@),
{
    c.iter().map(|kv| (kv.0.as_str().to_owned(), kv.1)).collect()
}

proof fn lemma_no_more_listed_than_stored(
    kept: Map<Seq<char>, Seq<MessageView>>,
    listed: Seq<(String, Vec<ChatMessage>)>,
)
    requires
        all_stored(kept, listed),
        listed_once(listed),
    ensures
        kept.dom().finite() ==> listed.len() <= kept.dom().len(),
{
    let ids = Seq::new(listed.len(), |i: int| listed[i].0@);
    assert(ids.no_duplicates());
    ids.unique_seq_to_set();
    if kept.dom().finite() {
        assert(ids.to_set().subset_of(kept.dom()));
        vstd::set_lib::lemma_len_subset(ids.to_set(), kept.dom());
    }
}

// ---------------------------------------------------------------------------
// The agent
// ---------------------------------------------------------------------------

/// The agent's settings and its sessions.
pub struct Agent {
    schema_summary: String,
    insights_brief: String,
    sessions: moka::sync::Cache<String, Vec<ChatMessage>>,
    model: String,
    fallback_model: Option<String>,
    max_iterations: usize,
    dirty: bool,
}

/// What the agent holds.
#[verifier::ext_equal]
pub struct AgentView {
    pub schema_summary: Seq<char>,
    pub insights_brief: Seq<char>,
    pub sessions: Map<Seq<char>, Seq<MessageView>>,
    /// The most sessions that are remembered, and for how many seconds after they
    /// were last stored or read.
    pub session_limits: (u64, u64),
    pub model: Seq<char>,
    pub fallback_model: Option<Seq<char>>,
    pub max_iterations: nat,
    /// There are sessions that were not written to disk yet.
    pub dirty: bool,
}

impl View for Agent {
    type V = AgentView;

    closed spec fn view(&self) -> AgentView {
        AgentView {
            schema_summary: self.schema_summary@,
            insights_brief: self.insights_brief@,
            sessions: stored(self.sessions),
            session_limits: store_limits(self.sessions),
            model: self.model@,
            fallback_model: json::opt_text(self.fallback_model),
            max_iterations: self.max_iterations as nat,
            dirty: self.dirty,
        }
    }
}

/// Sessions that were saved, put back one by one.
pub open spec fn restored(
    kept: Map<Seq<char>, Seq<MessageView>>,
    saved: Seq<(String, Vec<ChatMessage>)>,
) -> Map<Seq<char>, Seq<MessageView>>
    decreases saved.len(),
{
    if saved.len() == 0 {
        kept
    } else {
        restored(kept, saved.drop_last()).insert(
            saved.last().0@,
            text::views(saved.last().1@),
        )
    }
}

/// The sessions that a file holds: as a list of pairs where it reads so, else
/// as an object where it reads so, else none.
pub open spec fn saved_sessions(
    pairs: Option<Vec<(String, Vec<ChatMessage>)>>,
    legacy: Option<Vec<(String, Vec<ChatMessage>)>>,
) -> Seq<(String, Vec<ChatMessage>)> {
    match pairs {
        Some(v) => v@,
        None => match legacy {
            Some(v) => v@,
            None => Seq::empty(),
        },
    }
}

/// What the model is told first.
pub open spec fn system_prompt(brief: Seq<char>, summary: Seq<char>, metrics: Seq<char>) -> Seq<
    char,
> {
    "You are an expert Data Agent and NBA Analyst with direct access to a 588-table DuckDB warehouse.\nYour task is to answer natural language questions about NBA stats, games, teams, and players with exact, verified data.\n\nAVAILABLE TOOLS:\n1. `run_sql(reasoning, query)` - Execute DuckDB SQL and get JSON output (capped to 50 rows).\n2. `list_tables(pattern)` - List table names matching a pattern.\n3. `search_tables(keyword)` - Search table & column names for keywords.\n4. `describe_table(table_name)` - Inspect column names, types, and sample rows.\n5. `explain_query(query)` - Check SQL syntax via EXPLAIN.\n6. `generate_chart(chart_type, title, sql_query)` - Create chart visualization.\n\nBEST PRACTICES:\n• Use schema context (row counts, FK→arrows, sample values) for accurate JOINs.\n• FK columns (ending in _id) reference the same-named table.\n• If a query fails, read 'Candidate bindings' for correct column names.\n• End your response with 2-3 follow-up questions the user might ask next.\nFormat each as: SUGGESTED: <question> on its own line after your main answer.\n\n"@
        + brief + "\n\n"@ + summary + "\n\n"@ + metrics
}

impl Agent {
    /// An agent that remembers no session yet, and at most so many of them, each
    /// until it was left alone for so long.
    pub fn new(
        schema_summary: String,
        insights_brief: String,
        model: String,
        fallback_model: Option<String>,
        max_iterations: usize,
    ) -> (r: Agent)
        ensures
            r@ == (AgentView {
                schema_summary: schema_summary@,
                insights_brief: insights_brief@,
                sessions: nothing_stored(),
                session_limits: (SESSIONS_MAX_CAPACITY, SESSIONS_TTL_SECS),
                model: model@,
                fallback_model: json::opt_text(fallback_model),
                max_iterations: max_iterations as nat,
                dirty: false,
            }),
            r@.session_limits == (500u64, 1800u64),
    {
        Agent {
            schema_summary,
            insights_brief,
            sessions: new_store(SESSIONS_MAX_CAPACITY, SESSIONS_TTL_SECS),
            model,
            fallback_model,
            max_iterations,
            dirty: false,
        }
    }

    /// Puts back the sessions of a file, where `pairs` is what it holds as a
    /// list of pairs and `legacy` is what it holds as an object.
    pub fn load_sessions(
        &mut self,
        pairs: Option<Vec<(String, Vec<ChatMessage>)>>,
        legacy: Option<Vec<(String, Vec<ChatMessage>)>>,
    )
        ensures
            final(self)@ == (AgentView {
                sessions: restored(old(self)@.sessions, saved_sessions(pairs, legacy)),
                ..old(self)@
            }),
    {
        let ghost all = saved_sessions(pairs, legacy);
        let ghost kept = stored(self.sessions);
        let ghost start = self@;
        let saved: Vec<(String, Vec<ChatMessage>)> = match pairs {
            Some(v) => v,
            None => match legacy {
                Some(v) => v,
                None => Vec::new(),
            },
        };
        proof {
            assert(saved@ == all);
            assert(all.take(0).len() == 0);
        }
        for kv in it: saved
            invariant
                it.seq() == all,
                self@ == (AgentView {
                    sessions: restored(kept, all.take(it.index() as int)),
                    ..start
                }),
        {
            proof {
                let k = it.index() as int;
                assert(all.take(k + 1).drop_last() == all.take(k));
                assert(all.take(k + 1).last() == kv);
            }
            store_put(&mut self.sessions, kv.0, kv.1);
        }
        proof {
            assert(all.take(all.len() as int) == all);
        }
    }

    /// The sessions that are still there, each once and with its messages.
    pub fn saved(&self) -> (r: Vec<(String, Vec<ChatMessage>)>)
        ensures
            all_stored(self@.sessions, r@),
            listed_once(r@),
    {
        store_list(&self.sessions)
    }

    /// Forgets a session.
    pub fn reset_session(&mut self, session_id: &str)
        ensures
            final(self)@ == (AgentView {
                sessions: old(self)@.sessions.remove(session_id@),
                ..old(self)@
            }),
    {
        store_drop(&mut self.sessions, session_id);
    }

    /// How many sessions are still there: as many as a list of them names, so no
    /// more than there are sessions with messages stored.
    pub fn session_count(&self) -> (r: usize)
        ensures
            exists|l: Seq<(String, Vec<ChatMessage>)>|
                all_stored(self@.sessions, l) && #[trigger] listed_once(l) && r == l.len(),
            self@.sessions.dom().finite() ==> r <= self@.sessions.dom().len(),
    {
        let listed = self.saved();
        proof {
            lemma_no_more_listed_than_stored(self@.sessions, listed@);
        }
        listed.len()
    }

    /// The messages of a session that is still there.
    pub fn session(&self, session_id: &str) -> (r: Option<Vec<ChatMessage>>)
        ensures
            was_stored(self@.sessions, session_id@, opt_messages(r)),
    {
        store_get(&self.sessions, session_id)
    }

    /// Stores the messages of a session, to be written to disk.
    pub fn store_session(&mut self, session_id: String, messages: Vec<ChatMessage>)
        ensures
            final(self)@ == (AgentView {
                sessions: old(self)@.sessions.insert(session_id@, text::views(messages@)),
                dirty: true,
                ..old(self)@
            }),
    {
        store_put(&mut self.sessions, session_id, messages);
        self.mark_dirty();
    }

    /// Notes that there are sessions to be written to disk.
    fn mark_dirty(&mut self)
        ensures
            final(self)@ == (AgentView { dirty: true, ..old(self)@ }),
    {
        self.dirty = true;
    }

    /// There are sessions that were not written to disk yet.
    pub fn is_dirty(&self) -> (r: bool)
        ensures
            r == self@.dirty,
    {
        self.dirty
    }

    /// Notes that all sessions were written to disk.
    pub fn mark_saved(&mut self)
        ensures
            final(self)@ == (AgentView { dirty: false, ..old(self)@ }),
    {
        self.dirty = false;
    }

    /// How often a turn may go to the model.
    pub fn max_iterations(&self) -> (r: usize)
        ensures
            r == self@.max_iterations,
    {
        self.max_iterations
    }

    /// The agent's model, and the one to fall back on.
    pub fn models(&self) -> (r: (String, Option<String>))
        ensures
            r.0@ == self@.model,
            json::opt_text(r.1) == self@.fallback_model,
    {
        (self.model.clone(), text::copy_option(&self.fallback_model))
    }

    /// What the model is told first.
    pub fn get_system_prompt(&self) -> (r: String)
        ensures
            r@ == system_prompt(
                self@.insights_brief,
                self@.schema_summary,
                insights::metrics_text(),
            ),
    {
        let mut s = "You are an expert Data Agent and NBA Analyst with direct access to a 588-table DuckDB warehouse.\nYour task is to answer natural language questions about NBA stats, games, teams, and players with exact, verified data.\n\nAVAILABLE TOOLS:\n1. `run_sql(reasoning, query)` - Execute DuckDB SQL and get JSON output (capped to 50 rows).\n2. `list_tables(pattern)` - List table names matching a pattern.\n3. `search_tables(keyword)` - Search table & column names for keywords.\n4. `describe_table(table_name)` - Inspect column names, types, and sample rows.\n5. `explain_query(query)` - Check SQL syntax via EXPLAIN.\n6. `generate_chart(chart_type, title, sql_query)` - Create chart visualization.\n\nBEST PRACTICES:\n• Use schema context (row counts, FK→arrows, sample values) for accurate JOINs.\n• FK columns (ending in _id) reference the same-named table.\n• If a query fails, read 'Candidate bindings' for correct column names.\n• End your response with 2-3 follow-up questions the user might ask next.\nFormat each as: SUGGESTED: <question> on its own line after your main answer.\n\n".to_owned();
        s.append(self.insights_brief.as_str());
        s.append("\n\n");
        s.append(self.schema_summary.as_str());
        s.append("\n\n");
        s.append(DbContext::format_metrics_for_prompt().as_str());
        s
    }

    /// Cuts a conversation to its window: its first message and the newest.
    pub fn trim_sliding_window(messages: &mut Vec<ChatMessage>)
        ensures
            final(messages)@ == chat::window(old(messages)@),
    {
        chat::trim_window(messages)
    }

    /// The message that a reply becomes.
    pub fn completion_to_assistant_message(c: &ChatCompletion) -> (r: ChatMessage)
        ensures
            r@ == chat::reply_message(c@),
    {
        chat::message_of_reply(c)
    }
}

/// What was stored for a session is what is found for it afterwards, if
/// anything is, until it is stored again or reset; a reset session is not
/// found, and no other session is touched.
pub proof fn law_sessions_are_kept_apart(
    kept: Map<Seq<char>, Seq<MessageView>>,
    id: Seq<char>,
    ms: Seq<MessageView>,
    other: Seq<char>,
    found: Option<Seq<MessageView>>,
)
    ensures
        was_stored(kept.insert(id, ms), id, found) ==> found is None || found == Some(ms),
        was_stored(kept.remove(id), id, found) ==> found is None,
        other != id ==> (was_stored(kept.insert(id, ms), other, found) <==> was_stored(
            kept,
            other,
            found,
        )),
        other != id ==> (was_stored(kept.remove(id), other, found) <==> was_stored(
            kept,
            other,
            found,
        )),
{
}

/// The list names the session.
pub open spec fn lists(listed: Seq<(String, Vec<ChatMessage>)>, id: Seq<char>) -> bool {
    exists|i: int| 0 <= i < listed.len() && (#[trigger] listed[i]).0@ == id
}

/// Sessions survive a restart: an agent that puts back what another listed has
/// the listed sessions, each as the other stored it, and no others.
pub proof fn law_sessions_survive_a_restart(
    kept: Map<Seq<char>, Seq<MessageView>>,
    listed: Seq<(String, Vec<ChatMessage>)>,
    id: Seq<char>,
)
    requires
        all_stored(kept, listed),
    ensures
        restored(nothing_stored(), listed).contains_key(id) <==> lists(listed, id),
        lists(listed, id) ==> kept.contains_key(id) && restored(nothing_stored(), listed)[id]
            == kept[id],
    decreases listed.len(),
{
    if listed.len() > 0 {
        let front = listed.drop_last();
        assert forall|i: int| 0 <= i < front.len() implies kept.contains_key(
            (#[trigger] front[i]).0@,
        ) && kept[front[i].0@] == text::views(front[i].1@) by {
            assert(front[i] == listed[i]);
        }
        law_sessions_survive_a_restart(kept, front, id);
        assert(listed[listed.len() - 1] == listed.last());
        if lists(front, id) {
            let i = choose|i: int| 0 <= i < front.len() && (#[trigger] front[i]).0@ == id;
            assert(listed[i].0@ == id);
        }
        if lists(listed, id) && listed.last().0@ != id {
            let i = choose|i: int| 0 <= i < listed.len() && (#[trigger] listed[i]).0@ == id;
            assert(front[i].0@ == id);
        }
    }
}

// ---------------------------------------------------------------------------
// A table in Markdown
// ---------------------------------------------------------------------------

/// The most rows that a table in Markdown shows.
pub const TABLE_ROWS: usize = 20;

/// A value in a table's cell.
pub open spec fn cell_text(row: JsonView, key: Seq<char>) -> Seq<char> {
    match row.get(key) {
        Some(v) => if v is Null {
            "—"@
        } else {
            json::bare_text(v)
        },
        None => "—"@,
    }
}

/// The names of the columns, each with its bar.
pub open spec fn header_cells(keys: Seq<Seq<char>>) -> Seq<Seq<char>> {
    Seq::new(keys.len(), |i: int| keys[i] + " | "@)
}

/// The dashes under the columns.
pub open spec fn dashes(n: nat) -> Seq<Seq<char>> {
    Seq::new(n, |i: int| " --- |"@)
}

/// The values of a row, each with its bar.
pub open spec fn row_cells(row: JsonView, keys: Seq<Seq<char>>) -> Seq<Seq<char>> {
    Seq::new(keys.len(), |i: int| cell_text(row, keys[i]) + " | "@)
}

/// The line of a row.
pub open spec fn row_line(row: JsonView, keys: Seq<Seq<char>>) -> Seq<char> {
    "| "@ + text::concat(row_cells(row, keys)) + "\n"@
}

/// The lines of the rows that are shown.
pub open spec fn row_lines(rows: Seq<JsonView>, keys: Seq<Seq<char>>) -> Seq<Seq<char>> {
    Seq::new(
        if rows.len() < TABLE_ROWS {
            rows.len()
        } else {
            TABLE_ROWS as nat
        },
        |i: int| row_line(rows[i], keys),
    )
}

/// What is said of the rows that are not shown.
pub open spec fn rows_left(n: nat) -> Seq<char> {
    if n > TABLE_ROWS {
        "\n*...and "@ + text::dec((n - TABLE_ROWS) as nat) + " more rows*\n\n"@
    } else {
        Seq::empty()
    }
}

/// Rows as a table in Markdown, with the columns of the first row.
pub open spec fn table_text(rows: Seq<JsonView>) -> Seq<char> {
    if rows.len() == 0 || rows[0].keys().len() == 0 {
        Seq::empty()
    } else {
        let keys = rows[0].keys();
        "| "@ + text::concat(header_cells(keys)) + "\n"@ + "|"@ + text::concat(dashes(keys.len()))
            + "\n"@ + text::concat(row_lines(rows, keys)) + rows_left(rows.len()) + "\n"@
    }
}

fn cell_of(row: &Json, key: &str) -> (r: String)
    ensures
        r@ == cell_text(row@, key@),
{
    match row.get(key) {
        Some(v) => match v {
            Json::Null => "—".to_owned(),
            _ => json::bare(v),
        },
        None => "—".to_owned(),
    }
}

fn header_of(keys: &Vec<String>) -> (r: String)
    ensures
        r@ == "| "@ + text::concat(header_cells(text::views(keys@))) + "\n"@ + "|"@ + text::concat(
            dashes(keys@.len()),
        ) + "\n"@,
{
    let mut names = String::new();
    let mut lines = String::new();
    let ghost cells = header_cells(text::views(keys@));
    let ghost rule = dashes(keys@.len());
    let mut i: usize = 0;
    proof {
        text::lemma_concat_all(cells);
        text::lemma_concat_all(rule);
    }
    while i < keys.len()
        invariant
            cells == header_cells(text::views(keys@)),
            rule == dashes(keys@.len()),
            i <= keys@.len(),
            names@ == text::concat(cells.take(i as int)),
            lines@ == text::concat(rule.take(i as int)),
        decreases keys@.len() - i,
    {
        let mut c = keys[i].clone();
        c.append(" | ");
        names.append(c.as_str());
        lines.append(" --- |");
        proof {
            text::lemma_concat_next(cells, i as int);
            text::lemma_concat_next(rule, i as int);
        }
        i = i + 1;
    }
    let mut s = "| ".to_owned();
    s.append(names.as_str());
    s.append("\n");
    s.append("|");
    s.append(lines.as_str());
    s.append("\n");
    s
}

fn line_of_row(row: &Json, keys: &Vec<String>) -> (r: String)
    ensures
        r@ == row_line(row@, text::views(keys@)),
{
    let mut body = String::new();
    let ghost cells = row_cells(row@, text::views(keys@));
    let mut i: usize = 0;
    proof {
        text::lemma_concat_all(cells);
    }
    while i < keys.len()
        invariant
            cells == row_cells(row@, text::views(keys@)),
            i <= keys@.len(),
            body@ == text::concat(cells.take(i as int)),
        decreases keys@.len() - i,
    {
        let mut c = cell_of(row, keys[i].as_str());
        c.append(" | ");
        body.append(c.as_str());
        proof {
            text::lemma_concat_next(cells, i as int);
        }
        i = i + 1;
    }
    let mut s = "| ".to_owned();
    s.append(body.as_str());
    s.append("\n");
    s
}

fn lines_of_rows(rows: &Vec<Json>, keys: &Vec<String>) -> (r: String)
    ensures
        r@ == text::concat(row_lines(text::views(rows@), text::views(keys@))),
{
    let ghost lines = row_lines(text::views(rows@), text::views(keys@));
    let mut s = String::new();
    let mut i: usize = 0;
    proof {
        text::lemma_concat_all(lines);
    }
    while i < rows.len() && i < TABLE_ROWS
        invariant
            lines == row_lines(text::views(rows@), text::views(keys@)),
            i <= rows@.len(),
            i <= TABLE_ROWS,
            s@ == text::concat(lines.take(i as int)),
        decreases rows@.len() - i,
    {
        let line = line_of_row(&rows[i], keys);
        proof {
            text::lemma_concat_next(lines, i as int);
            assert(lines[i as int] == row_line(text::views(rows@)[i as int], text::views(keys@)));
        }
        s.append(line.as_str());
        i = i + 1;
    }
    proof {
        assert(lines.len() == i);
        text::lemma_concat_all(lines);
    }
    s
}

impl Agent {
    /// Appends rows to a report, as a table in Markdown with the columns of the
    /// first row.
    pub fn append_markdown_table(md: &mut String, rows: &Vec<Json>)
        ensures
            final(md)@ == old(md)@ + table_text(text::views(rows@)),
    {
        let ghost before = md@;
        if rows.len() == 0 {
            proof {
                assert(before + Seq::<char>::empty() == before);
            }
            return;
        }
        proof {
            assert(text::views(rows@)[0] == rows@[0]@);
        }
        let keys = rows[0].keys();
        if keys.len() == 0 {
            proof {
                assert(before + Seq::<char>::empty() == before);
            }
            return;
        }
        let mut s = header_of(&keys);
        s.append(lines_of_rows(rows, &keys).as_str());
        let left = if rows.len() > TABLE_ROWS {
            let mut m = "\n*...and ".to_owned();
            m.append(text::nat_text((rows.len() - TABLE_ROWS) as u128).as_str());
            m.append(" more rows*\n\n");
            m
        } else {
            String::new()
        };
        s.append(left.as_str());
        s.append("\n");
        md.append(s.as_str());
    }
}

// ---------------------------------------------------------------------------
// A session as a report
// ---------------------------------------------------------------------------

/// The text that a message's content holds; empty where it is no string.
pub open spec fn spoken(content: JsonView) -> Seq<char> {
    match content.string() {
        Some(s) => s,
        None => ""@,
    }
}

/// A tool's result in a report, where `rows` is what it reads as.
pub open spec fn result_text(s: Seq<char>, rows: Option<Seq<JsonView>>) -> Seq<char> {
    match rows {
        Some(rows) => if rows.len() > 0 && rows[0] is Object {
            table_text(rows)
        } else {
            "```json\n"@ + s + "\n```\n\n"@
        },
        None => "```\n"@ + s + "\n```\n\n"@,
    }
}

/// A message in a report.
pub open spec fn message_text(m: MessageView) -> Seq<char> {
    match m.content {
        None => Seq::empty(),
        Some(c) => {
            let s = spoken(c);
            if m.role == "user"@ {
                "## 🏀 Question\n\n"@ + s + "\n\n"@
            } else if m.role == "assistant"@ {
                if s.len() > 0 {
                    "## 🤖 Answer\n\n"@ + s + "\n\n"@
                } else {
                    Seq::empty()
                }
            } else if m.role == "tool"@ {
                "### 🔧 Tool: `"@ + text::or_text(m.name, "unknown"@) + "`\n\n"@ + result_text(
                    s,
                    json::json_rows(s),
                )
            } else {
                Seq::empty()
            }
        },
    }
}

/// The messages in a report.
pub open spec fn message_texts(ms: Seq<MessageView>) -> Seq<Seq<char>> {
    Seq::new(ms.len(), |i: int| message_text(ms[i]))
}

/// A session as a report.
pub open spec fn session_text(id: Seq<char>, ms: Seq<MessageView>) -> Seq<char> {
    "# NBA Data Analysis Report\n\n"@ + "**Session:** `"@ + id + "` | **Messages:** "@ + text::dec(
        ms.len(),
    ) + "\n\n"@ + "---\n\n"@ + text::concat(message_texts(ms))
        + "---\n\n*Generated by NBA Database Agent*\n"@
}

/// A tool's result in a report, where `parsed` is what it reads as.
pub fn text_of_result(s: &str, parsed: &Option<Vec<Json>>) -> (r: String)
    ensures
        r@ == result_text(s@, json::opt_rows(*parsed)),
{
    match parsed {
        Some(rows) => {
            if rows.len() > 0 {
                proof {
                    assert(text::views(rows@)[0] == rows@[0]@);
                }
                if let Json::Object(_) = &rows[0] {
                    let mut t = String::new();
                    Agent::append_markdown_table(&mut t, rows);
                    proof {
                        assert(Seq::<char>::empty() + table_text(text::views(rows@)) == table_text(
                            text::views(rows@),
                        ));
                    }
                    return t;
                }
            }
            let mut t = "```json\n".to_owned();
            t.append(s);
            t.append("\n```\n\n");
            t
        },
        None => {
            let mut t = "```\n".to_owned();
            t.append(s);
            t.append("\n```\n\n");
            t
        },
    }
}

fn text_of_message(m: &ChatMessage) -> (r: String)
    ensures
        r@ == message_text(m@),
{
    match &m.content {
        None => String::new(),
        Some(c) => {
            let s = match c.as_text() {
                Some(s) => s,
                None => "".to_owned(),
            };
            if text::same(m.role.as_str(), "user") {
                let mut t = "## 🏀 Question\n\n".to_owned();
                t.append(s.as_str());
                t.append("\n\n");
                t
            } else if text::same(m.role.as_str(), "assistant") {
                if s.as_str().is_empty() {
                    return String::new();
                }
                let mut t = "## 🤖 Answer\n\n".to_owned();
                t.append(s.as_str());
                t.append("\n\n");
                t
            } else if text::same(m.role.as_str(), "tool") {
                let name = match &m.name {
                    Some(n) => n.clone(),
                    None => "unknown".to_owned(),
                };
                let mut t = "### 🔧 Tool: `".to_owned();
                t.append(name.as_str());
                t.append("`\n\n");
                let parsed = Json::rows_from_text(s.as_str());
                t.append(text_of_result(s.as_str(), &parsed).as_str());
                t
            } else {
                String::new()
            }
        },
    }
}

impl Agent {
    /// A session as a report.
    pub fn session_markdown(session_id: &str, messages: &Vec<ChatMessage>) -> (r: String)
        ensures
            r@ == session_text(session_id@, text::views(messages@)),
    {
        let mut md = "# NBA Data Analysis Report\n\n".to_owned();
        md.append("**Session:** `");
        md.append(session_id);
        md.append("` | **Messages:** ");
        md.append(text::nat_text(messages.len() as u128).as_str());
        md.append("\n\n");
        md.append("---\n\n");
        let ghost head = md@;
        let ghost parts = message_texts(text::views(messages@));
        let mut i: usize = 0;
        proof {
            text::lemma_concat_all(parts);
            assert(head + Seq::<char>::empty() == head);
        }
        while i < messages.len()
            invariant
                parts == message_texts(text::views(messages@)),
                i <= messages@.len(),
                md@ == head + text::concat(parts.take(i as int)),
            decreases messages@.len() - i,
        {
            let part = text_of_message(&messages[i]);
            proof {
                text::lemma_concat_next(parts, i as int);
                assert(head + (text::concat(parts.take(i as int)) + part@) == head + text::concat(
                    parts.take(i as int),
                ) + part@);
            }
            md.append(part.as_str());
            i = i + 1;
        }
        md.append("---\n\n*Generated by NBA Database Agent*\n");
        md
    }

    /// The report of a session of which `found` is still there; none where
    /// nothing is.
    pub fn report_of(session_id: &str, found: &Option<Vec<ChatMessage>>) -> (r: Option<String>)
        ensures
            json::opt_text(r) == match *found {
                Some(messages) => Some(session_text(session_id@, text::views(messages@))),
                None => None,
            },
    {
        match found {
            Some(messages) => Some(Agent::session_markdown(session_id, messages)),
            None => None,
        }
    }

    /// A session that is still there, as a report; none where it is not.
    pub fn export_session_markdown(&self, session_id: &str) -> (r: Option<String>)
        ensures
            r matches Some(md) ==> self@.sessions.contains_key(session_id@) && md@ == session_text(
                session_id@,
                self@.sessions[session_id@],
            ),
    {
        Agent::report_of(session_id, &self.session(session_id))
    }
}

// ---------------------------------------------------------------------------
// What the agent tells
// ---------------------------------------------------------------------------

proof fn lemma_within(before: Seq<char>, s: Seq<char>, behind: Seq<char>, p: Seq<char>)
    requires
        text::contains(s, p),
    ensures
        text::contains(before + s + behind, p),
{
    let i = choose|i: int| text::occurs_at(s, p, i);
    let a = s.take(i);
    let b = s.skip(i + p.len());
    assert(s =~= a + p + b) by {
        assert(s.subrange(i, i + p.len()) == p);
        assert(s =~= a + s.subrange(i, i + p.len()) + b);
    }
    assert(before + s + behind =~= (before + a) + p + (b + behind));
    text::lemma_middle(before + a, p, b + behind);
}

/// The model is told the figures, the schema and the metrics, each in full and in
/// this order, at the end of what it is told.
pub proof fn law_prompts_hold_what_is_known(
    brief: Seq<char>,
    summary: Seq<char>,
    metrics: Seq<char>,
)
    ensures
        text::ends(
            system_prompt(brief, summary, metrics),
            brief + "\n\n"@ + summary + "\n\n"@ + metrics,
        ),
        text::contains(system_prompt(brief, summary, metrics), brief),
        text::contains(system_prompt(brief, summary, metrics), summary),
        text::contains(system_prompt(brief, summary, metrics), metrics),
        system_prompt(brief, summary, metrics).len() > brief.len() + summary.len() + metrics.len(),
{
    let all = system_prompt(brief, summary, metrics);
    let gap = "\n\n"@;
    let tail = brief + gap + summary + gap + metrics;
    let head = all.take(all.len() - tail.len());
    reveal_strlit("\n\n");
    assert(all =~= head + tail);
    assert((head + tail).skip(head.len() as int) =~= tail);
    assert(all =~= head + brief + (gap + summary + gap + metrics));
    text::lemma_middle(head, brief, gap + summary + gap + metrics);
    assert(all =~= (head + brief + gap) + summary + (gap + metrics));
    text::lemma_middle(head + brief + gap, summary, gap + metrics);
    assert(all =~= (head + brief + gap + summary + gap) + metrics + Seq::<char>::empty());
    text::lemma_middle(head + brief + gap + summary + gap, metrics, Seq::empty());
}

/// Sessions that were saved are put back one by one, a later one in the place of an
/// earlier one of the same name; a file is read as a list of pairs where it reads so,
/// else as an object, else as nothing. A new store has none.
pub proof fn law_saved_sessions_are_put_back(
    kept: Map<Seq<char>, Seq<MessageView>>,
    saved: Seq<(String, Vec<ChatMessage>)>,
    one: (String, Vec<ChatMessage>),
    other: Seq<char>,
    pairs: Option<Vec<(String, Vec<ChatMessage>)>>,
    legacy: Option<Vec<(String, Vec<ChatMessage>)>>,
)
    ensures
        restored(kept, saved.push(one)).contains_key(one.0@),
        restored(kept, saved.push(one))[one.0@] == text::views(one.1@),
        other != one.0@ ==> (restored(kept, saved.push(one)).contains_key(other) <==> restored(
            kept,
            saved,
        ).contains_key(other)),
        other != one.0@ ==> restored(kept, saved.push(one))[other] == restored(kept, saved)[other],
        restored(kept, Seq::empty()) == kept,
        pairs matches Some(v) ==> saved_sessions(pairs, legacy) == v@,
        pairs is None ==> (legacy matches Some(v) ==> saved_sessions(pairs, legacy) == v@),
        pairs is None && legacy is None ==> saved_sessions(pairs, legacy).len() == 0,
        !nothing_stored().contains_key(other),
{
    assert(saved.push(one).drop_last() =~= saved);
}

/// What was stored and found again is what was stored: nothing else can be found.
pub proof fn law_only_what_was_stored_is_found(
    kept: Map<Seq<char>, Seq<MessageView>>,
    id: Seq<char>,
    ms: Seq<MessageView>,
)
    ensures
        was_stored(kept, id, None),
        was_stored(kept, id, Some(ms)) <==> kept.contains_key(id) && kept[id] == ms,
{
}

/// A table in Markdown has a line for each of the first twenty rows, with its value
/// under every column, a dash where it has none, and says how many rows are left.
pub proof fn law_tables_show_their_rows(
    rows: Seq<JsonView>,
    row: JsonView,
    keys: Seq<Seq<char>>,
    i: int,
    n: nat,
)
    ensures
        0 <= i < rows.len() && i < 20 && rows[0].keys().len() > 0 ==> text::contains(
            table_text(rows),
            row_line(rows[i], rows[0].keys()),
        ),
        0 <= i < keys.len() ==> text::contains(row_line(row, keys), cell_text(row, keys[i]) + " | "@),
        0 <= i < keys.len() ==> (row.get(keys[i]) matches Some(v) ==> (!(v is Null) ==> cell_text(
            row,
            keys[i],
        ) == json::bare_text(v))),
        0 <= i < keys.len() ==> (row.get(keys[i]) is None || row.get(keys[i]) == Some(
            JsonView::Null,
        ) ==> cell_text(row, keys[i]) == "—"@),
        rows.len() > 0 && 0 <= i < rows[0].keys().len() ==> text::contains(
            table_text(rows),
            rows[0].keys()[i] + " | "@,
        ),
        n <= 20 ==> rows_left(n).len() == 0,
        n > 20 ==> text::contains(
            rows_left(n),
            "\n*...and "@ + text::dec((n - 20) as nat) + " more rows*"@,
        ),
        rows.len() > 0 && rows[0].keys().len() > 0 ==> text::contains(
            table_text(rows),
            rows_left(rows.len()),
        ),
        rows.len() == 0 ==> table_text(rows).len() == 0,
        row_lines(rows, keys).len() == (if rows.len() < 20 {
            rows.len()
        } else {
            20nat
        }),
{
    let bar = "| "@;
    let end = "\n"@;
    if 0 <= i < keys.len() {
        let cells = row_cells(row, keys);
        text::law_pieces_stand_in_the_whole(cells, bar, i);
        lemma_within(bar, text::concat(cells), end, cells[i]);
    }
    if rows.len() > 0 && rows[0].keys().len() > 0 {
        let ks = rows[0].keys();
        let names = header_cells(ks);
        let lines = row_lines(rows, ks);
        let rule = end + "|"@ + text::concat(dashes(ks.len())) + end;
        let left = rows_left(rows.len());
        let body = text::concat(lines);
        let all = table_text(rows);
        assert(all =~= bar + text::concat(names) + (rule + body + left + end));
        if 0 <= i < ks.len() {
            text::law_pieces_stand_in_the_whole(names, bar, i);
            lemma_within(bar, text::concat(names), rule + body + left + end, names[i]);
        }
        if 0 <= i < rows.len() && i < 20 {
            text::law_pieces_stand_in_the_whole(lines, bar, i);
            assert(lines[i] == row_line(rows[i], ks));
            let before = bar + text::concat(names) + rule;
            lemma_within(before, body, left + end, lines[i]);
            assert(all =~= before + body + (left + end));
        }
        let before = bar + text::concat(names) + rule + body;
        assert(all =~= before + left + end);
        text::lemma_middle(before, left, end);
    }
    if n > 20 {
        reveal_strlit(" more rows*\n\n");
        reveal_strlit(" more rows*");
        let f = "\n*...and "@ + text::dec((n - 20) as nat) + " more rows*"@;
        let gap = seq!['\n', '\n'];
        assert(" more rows*\n\n"@ =~= " more rows*"@ + gap);
        assert(rows_left(n) =~= Seq::<char>::empty() + f + gap);
        text::lemma_middle(Seq::empty(), f, gap);
    }
}

proof fn lemma_roles()
    ensures
        "user"@.len() == 4,
        "tool"@.len() == 4,
        "assistant"@.len() == 9,
        "user"@[0] != "tool"@[0],
{
    reveal_strlit("user");
    reveal_strlit("tool");
    reveal_strlit("assistant");
}

/// A report tells what was said: a question and an answer in their own words, a
/// tool's result under the tool's name, as a table where it reads as rows and else
/// as it is; what the model was told first is not told.
pub proof fn law_reports_tell_what_was_said(m: MessageView, s: Seq<char>, rows: Seq<JsonView>)
    requires
        m.content == Some(JsonView::Str(s)),
    ensures
        m.role == "user"@ ==> message_text(m) == "## 🏀 Question\n\n"@ + s + "\n\n"@,
        m.role == "assistant"@ && s.len() > 0 ==> message_text(m) == "## 🤖 Answer\n\n"@ + s
            + "\n\n"@,
        m.role == "assistant"@ && s.len() == 0 ==> message_text(m).len() == 0,
        m.role == "tool"@ ==> (m.name matches Some(n) ==> message_text(m) == "### 🔧 Tool: `"@ + n
            + "`\n\n"@ + result_text(s, json::json_rows(s))),
        m.role != "user"@ && m.role != "assistant"@ && m.role != "tool"@ ==> message_text(m).len()
            == 0,
        rows.len() > 0 && rows[0] is Object ==> result_text(s, Some(rows)) == table_text(rows),
        rows.len() == 0 || !(rows[0] is Object) ==> text::contains(result_text(s, Some(rows)), s),
        text::contains(result_text(s, None), s),
        m.role == "tool"@ && m.name is None ==> message_text(m) == "### 🔧 Tool: `"@ + "unknown"@
            + "`\n\n"@ + result_text(s, json::json_rows(s)),
        message_text((MessageView { content: None, ..m })).len() == 0,
{
    lemma_roles();
    text::lemma_middle("```json\n"@, s, "\n```\n\n"@);
    text::lemma_middle("```\n"@, s, "\n```\n\n"@);
}

/// A report names its session, counts its messages, and tells every one of them.
pub proof fn law_reports_tell_every_message(id: Seq<char>, ms: Seq<MessageView>, i: int)
    ensures
        text::contains(
            session_text(id, ms),
            "**Session:** `"@ + id + "` | **Messages:** "@ + text::dec(ms.len()),
        ),
        0 <= i < ms.len() ==> text::contains(session_text(id, ms), message_text(ms[i])),
        text::begins(session_text(id, ms), "# NBA Data Analysis Report\n\n"@),
{
    let title = "# NBA Data Analysis Report\n\n"@;
    let who = "**Session:** `"@ + id + "` | **Messages:** "@ + text::dec(ms.len());
    let gap = "\n\n"@ + "---\n\n"@;
    let parts = message_texts(ms);
    let body = text::concat(parts);
    let end = "---\n\n*Generated by NBA Database Agent*\n"@;
    let all = session_text(id, ms);
    assert(all =~= title + who + (gap + body + end));
    text::lemma_middle(title, who, gap + body + end);
    assert(all =~= title + (who + gap + body + end));
    text::law_beginnings_and_ends(all, title);
    if 0 <= i < ms.len() {
        text::law_pieces_stand_in_the_whole(parts, gap, i);
        lemma_within(title + who + gap, body, end, parts[i]);
        assert(all =~= (title + who + gap) + body + end);
    }
}

}
