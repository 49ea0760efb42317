//! Insight cards: the figures about the warehouse that are computed when the
//! server starts.
use vstd::prelude::*;

use crate::db;
use crate::db::DbContext;
use crate::json;
use crate::json::Json;
use crate::json::JsonView;
use crate::schema;
use crate::text;

verus! {

/// One figure about the warehouse.
#[derive(Debug)]
pub struct InsightCard {
    pub id: String,
    pub title: String,
    pub value: String,
    pub subtitle: String,
    pub category: String,
    pub error: Option<String>,
}

/// The figures about the warehouse.
#[derive(Debug)]
pub struct InsightsResponse {
    pub cards: Vec<InsightCard>,
    pub generated_at: String,
    pub total_queries: usize,
    pub successful: usize,
    pub total_tables: usize,
}

/// What a card holds.
pub struct CardView {
    pub id: Seq<char>,
    pub title: Seq<char>,
    pub value: Seq<char>,
    pub subtitle: Seq<char>,
    pub category: Seq<char>,
    pub error: Option<Seq<char>>,
}

impl View for InsightCard {
    type V = CardView;

    open spec fn view(&self) -> CardView {
        CardView {
            id: self.id@,
            title: self.title@,
            value: self.value@,
            subtitle: self.subtitle@,
            category: self.category@,
            error: json::opt_text(self.error),
        }
    }
}

/// What the figures hold.
#[verifier::ext_equal]
pub struct InsightsView {
    pub cards: Seq<CardView>,
    pub generated_at: Seq<char>,
    pub total_queries: nat,
    pub successful: nat,
    pub total_tables: nat,
}

impl View for InsightsResponse {
    type V = InsightsView;

    open spec fn view(&self) -> InsightsView {
        InsightsView {
            cards: text::views(self.cards@),
            generated_at: self.generated_at@,
            total_queries: self.total_queries as nat,
            successful: self.successful as nat,
            total_tables: self.total_tables as nat,
        }
    }
}

/// The query behind a card, and how the card is labelled.
#[derive(Debug)]
pub struct CardQuery {
    pub id: String,
    pub title: String,
    pub category: String,
    pub query: String,
    pub subtitle: String,
}

/// What a card's query holds.
pub struct CardQueryView {
    pub id: Seq<char>,
    pub title: Seq<char>,
    pub category: Seq<char>,
    pub query: Seq<char>,
    pub subtitle: Seq<char>,
}

impl View for CardQuery {
    type V = CardQueryView;

    open spec fn view(&self) -> CardQueryView {
        CardQueryView {
            id: self.id@,
            title: self.title@,
            category: self.category@,
            query: self.query@,
            subtitle: self.subtitle@,
        }
    }
}

/// The query behind a card.
pub open spec fn card_query(
    id: Seq<char>,
    title: Seq<char>,
    category: Seq<char>,
    query: Seq<char>,
    subtitle: Seq<char>,
) -> CardQueryView {
    CardQueryView { id, title, category, query, subtitle }
}

/// The query that counts the tables of the warehouse.
pub open spec fn count_query() -> Seq<char> {
    "SELECT COUNT(*) as val FROM information_schema.tables WHERE table_schema='main';"@
}

/// The queries behind the cards, in the order of the cards.
pub open spec fn card_queries() -> Seq<CardQueryView> {
    seq![
        card_query(
            "total_games"@,
            "Total Games"@,
            "stats"@,
            "SELECT COUNT(*) as val FROM game;"@,
            "All-time NBA games in database"@,
        ),
        card_query(
            "total_players"@,
            "Total Players"@,
            "stats"@,
            "SELECT COUNT(*) as val FROM player;"@,
            "Unique players tracked"@,
        ),
        card_query(
            "total_teams"@,
            "Total Teams"@,
            "stats"@,
            "SELECT COUNT(*) as val FROM team;"@,
            "Franchises and teams"@,
        ),
        card_query(
            "season_range"@,
            "Season Coverage"@,
            "range"@,
            "SELECT MIN(season_id) as min_s, MAX(season_id) as max_s FROM game;"@,
            "NBA seasons in database"@,
        ),
        card_query(
            "recent_season"@,
            "Most Recent Season"@,
            "range"@,
            "SELECT MAX(season_id) as val FROM game;"@,
            "Latest NBA season"@,
        ),
        card_query(
            "largest_table"@,
            "Largest Table"@,
            "meta"@,
            "SELECT table_name, estimated_size FROM duckdb_tables() WHERE schema_name='main' AND estimated_size >= 0 ORDER BY estimated_size DESC LIMIT 1;"@,
            "Table with most rows"@,
        ),
        card_query(
            "total_tables"@,
            "Database Tables"@,
            "meta"@,
            count_query(),
            "Total analytical tables"@,
        ),
    ]
}

fn query_for(id: &str, title: &str, category: &str, query: &str, subtitle: &str) -> (r: CardQuery)
    ensures
        r@ == card_query(id@, title@, category@, query@, subtitle@),
{
    CardQuery {
        id: id.to_owned(),
        title: title.to_owned(),
        category: category.to_owned(),
        query: query.to_owned(),
        subtitle: subtitle.to_owned(),
    }
}

impl DbContext {
    /// The queries behind the cards, in the order of the cards. Each is asked
    /// for one row.
    pub fn insight_queries() -> (r: Vec<CardQuery>)
        ensures
            text::views(r@) == card_queries(),
    {
        let mut v: Vec<CardQuery> = Vec::new();
        v.push(
            query_for(
                "total_games",
                "Total Games",
                "stats",
                "SELECT COUNT(*) as val FROM game;",
                "All-time NBA games in database",
            ),
        );
        v.push(
            query_for(
                "total_players",
                "Total Players",
                "stats",
                "SELECT COUNT(*) as val FROM player;",
                "Unique players tracked",
            ),
        );
        v.push(
            query_for(
                "total_teams",
                "Total Teams",
                "stats",
                "SELECT COUNT(*) as val FROM team;",
                "Franchises and teams",
            ),
        );
        v.push(
            query_for(
                "season_range",
                "Season Coverage",
                "range",
                "SELECT MIN(season_id) as min_s, MAX(season_id) as max_s FROM game;",
                "NBA seasons in database",
            ),
        );
        v.push(
            query_for(
                "recent_season",
                "Most Recent Season",
                "range",
                "SELECT MAX(season_id) as val FROM game;",
                "Latest NBA season",
            ),
        );
        v.push(
            query_for(
                "largest_table",
                "Largest Table",
                "meta",
                "SELECT table_name, estimated_size FROM duckdb_tables() WHERE schema_name='main' AND estimated_size >= 0 ORDER BY estimated_size DESC LIMIT 1;",
                "Table with most rows",
            ),
        );
        v.push(
            query_for(
                "total_tables",
                "Database Tables",
                "meta",
                "SELECT COUNT(*) as val FROM information_schema.tables WHERE table_schema='main';",
                "Total analytical tables",
            ),
        );
        proof {
            assert(text::views(v@) =~= card_queries());
        }
        v
    }

    /// The query that counts the tables of the warehouse.
    pub fn count_tables_query() -> (r: String)
        ensures
            r@ == count_query(),
    {
        "SELECT COUNT(*) as val FROM information_schema.tables WHERE table_schema='main';".to_owned()
    }
}

// ---------------------------------------------------------------------------
// The value on a card
// ---------------------------------------------------------------------------

/// A number with commas where the value is an integer, else the value's text.
pub open spec fn figure(v: JsonView) -> Seq<char> {
    match v.signed() {
        Some(n) => schema::comma_number(n as int),
        None => json::bare_text(v),
    }
}

/// The first of the keys' values that the row has.
pub open spec fn first_of(row: JsonView, a: Seq<char>, b: Seq<char>, c: Seq<char>) -> Option<
    JsonView,
> {
    match row.get(a) {
        Some(v) => Some(v),
        None => match row.get(b) {
            Some(v) => Some(v),
            None => row.get(c),
        },
    }
}

/// The size of the table that a row tells of.
pub open spec fn size_text(row: JsonView) -> Seq<char> {
    match row.get("estimated_size"@) {
        Some(e) => schema::comma_number(
            match e.signed() {
                Some(n) => n as int,
                None => 0,
            },
        ),
        None => Seq::empty(),
    }
}

/// The upper end of the range that a row tells of.
pub open spec fn upper_text(row: JsonView) -> Seq<char> {
    match row.get("max_s"@) {
        Some(m) => json::bare_text(m),
        None => Seq::empty(),
    }
}

/// The value that a row puts on a card.
pub open spec fn card_value(row: JsonView) -> Seq<char> {
    if let Some(v) = row.get("val"@) {
        figure(v)
    } else if let Some(v) = row.get("name"@) {
        json::bare_text(v)
    } else if let Some(v) = first_of(row, "total_pts"@, "total_threes"@, "games"@) {
        figure(v)
    } else if let Some(v) = row.get("table_name"@) {
        json::bare_text(v) + " ("@ + size_text(row) + " rows)"@
    } else if let Some(v) = row.get("min_s"@) {
        json::bare_text(v) + " – "@ + upper_text(row)
    } else {
        json::json_text(row)
    }
}

/// The card that a query's outcome makes.
pub open spec fn card(q: CardQueryView, outcome: Result<Seq<JsonView>, Seq<char>>) -> CardView {
    let blank = CardView {
        id: q.id,
        title: q.title,
        value: "—"@,
        subtitle: q.subtitle,
        category: q.category,
        error: None,
    };
    match outcome {
        Ok(rows) => if rows.len() > 0 {
            CardView { value: card_value(rows[0]), ..blank }
        } else {
            CardView { error: Some("No rows returned"@), ..blank }
        },
        Err(e) => CardView { error: Some("Query failed: "@ + e), ..blank },
    }
}

fn figure_of(v: &Json) -> (r: String)
    ensures
        r@ == figure(v@),
{
    match v.as_int() {
        Some(n) => DbContext::format_num_comma(n),
        None => json::bare(v),
    }
}

fn size_of_row(row: &Json) -> (r: String)
    ensures
        r@ == size_text(row@),
{
    match row.get("estimated_size") {
        Some(e) => {
            let n: i64 = match e.as_int() {
                Some(n) => n,
                None => 0,
            };
            DbContext::format_num_comma(n)
        },
        None => String::new(),
    }
}

/// The value that a row puts on a card.
pub fn value_on_card(row: &Json) -> (r: String)
    ensures
        r@ == card_value(row@),
{
    if let Some(v) = row.get("val") {
        return figure_of(v);
    }
    if let Some(v) = row.get("name") {
        return json::bare(v);
    }
    if let Some(v) = row.get("total_pts") {
        return figure_of(v);
    }
    if let Some(v) = row.get("total_threes") {
        return figure_of(v);
    }
    if let Some(v) = row.get("games") {
        return figure_of(v);
    }
    if let Some(v) = row.get("table_name") {
        let mut s = json::bare(v);
        s.append(" (");
        s.append(size_of_row(row).as_str());
        s.append(" rows)");
        return s;
    }
    if let Some(v) = row.get("min_s") {
        let mut s = json::bare(v);
        s.append(" – ");
        let upper = match row.get("max_s") {
            Some(m) => json::bare(m),
            None => String::new(),
        };
        s.append(upper.as_str());
        return s;
    }
    row.to_text()
}

impl DbContext {
    /// The card that a query's outcome makes.
    pub fn insight_card(q: &CardQuery, outcome: &Result<Vec<Json>, String>) -> (r: InsightCard)
        ensures
            r@ == card(q@, db::rows_outcome(*outcome)),
    {
        let mut value = "—".to_owned();
        let mut error: Option<String> = None;
        match outcome {
            Ok(rows) => {
                if rows.len() > 0 {
                    proof {
                        assert(text::views(rows@)[0] == rows@[0]@);
                    }
                    value = value_on_card(&rows[0]);
                } else {
                    error = Some("No rows returned".to_owned());
                }
            },
            Err(e) => {
                error = Some(text::plus("Query failed: ".to_owned(), e.as_str()));
            },
        }
        InsightCard {
            id: q.id.clone(),
            title: q.title.clone(),
            value,
            subtitle: q.subtitle.clone(),
            category: q.category.clone(),
            error,
        }
    }
}

// ---------------------------------------------------------------------------
// All cards
// ---------------------------------------------------------------------------

/// The outcomes of queries.
pub open spec fn outcomes(v: Seq<Result<Vec<Json>, String>>) -> Seq<
    Result<Seq<JsonView>, Seq<char>>,
> {
    Seq::new(v.len(), |i: int| db::rows_outcome(v[i]))
}

/// The cards that the outcomes make.
pub open spec fn cards(v: Seq<Result<Seq<JsonView>, Seq<char>>>) -> Seq<CardView> {
    Seq::new(v.len(), |i: int| card(card_queries()[i], v[i]))
}

/// How many of the cards carry no error.
pub open spec fn without_error(cs: Seq<CardView>) -> nat
    decreases cs.len(),
{
    if cs.len() == 0 {
        0
    } else {
        without_error(cs.drop_last()) + (if cs.last().error is None {
            1nat
        } else {
            0nat
        })
    }
}

/// How many tables the outcome of the counting query tells of; none where it
/// does not tell.
pub open spec fn table_count(outcome: Result<Seq<JsonView>, Seq<char>>) -> usize {
    match outcome {
        Ok(rows) => if rows.len() > 0 {
            match rows[0].at("val"@).signed() {
                Some(n) => n as usize,
                None => 0,
            }
        } else {
            0
        },
        Err(_) => 0,
    }
}

/// The figures that the outcomes make at the time `now`.
pub open spec fn insights(
    v: Seq<Result<Seq<JsonView>, Seq<char>>>,
    counted: Result<Seq<JsonView>, Seq<char>>,
    now: u64,
) -> InsightsView {
    InsightsView {
        cards: cards(v),
        generated_at: text::dec(now as nat),
        total_queries: v.len(),
        successful: without_error(cards(v)),
        total_tables: table_count(counted) as nat,
    }
}

impl DbContext {
    /// How many tables the outcome of the counting query tells of; none where
    /// it does not tell.
    pub fn count_tables(outcome: &Result<Vec<Json>, String>) -> (r: usize)
        ensures
            r == table_count(db::rows_outcome(*outcome)),
    {
        match outcome {
            Ok(rows) => {
                if rows.len() == 0 {
                    return 0;
                }
                proof {
                    assert(text::views(rows@)[0] == rows@[0]@);
                }
                match rows[0].get("val") {
                    Some(v) => match v.as_int() {
                        Some(n) => n as usize,
                        None => 0,
                    },
                    None => 0,
                }
            },
            Err(_) => 0,
        }
    }

    /// The figures that the outcomes of the card queries make at the time
    /// `now`, where `counted` is the outcome of the counting query.
    pub fn insights_at(
        found: &Vec<Result<Vec<Json>, String>>,
        counted: &Result<Vec<Json>, String>,
        now: u64,
    ) -> (r: InsightsResponse)
        requires
            found@.len() == card_queries().len(),
        ensures
            r@ == insights(outcomes(found@), db::rows_outcome(*counted), now),
    {
        let queries = DbContext::insight_queries();
        let ghost want = cards(outcomes(found@));
        let mut made: Vec<InsightCard> = Vec::new();
        let mut successful: usize = 0;
        let mut i: usize = 0;
        proof {
            assert(want.take(0).len() == 0);
        }
        while i < found.len()
            invariant
                want == cards(outcomes(found@)),
                text::views(queries@) == card_queries(),
                found@.len() == card_queries().len(),
                i <= found@.len(),
                text::views(made@) == want.take(i as int),
                successful == without_error(want.take(i as int)),
                successful <= i,
            decreases found@.len() - i,
        {
            proof {
                assert(text::views(queries@)[i as int] == queries@[i as int]@);
            }
            let c = DbContext::insight_card(&queries[i], &found[i]);
            let ghost before = made@;
            proof {
                assert(want[i as int] == c@);
                assert(want.take(i + 1).drop_last() == want.take(i as int));
                assert(want.take(i + 1) == want.take(i as int).push(c@));
            }
            if c.error.is_none() {
                successful = successful + 1;
            }
            made.push(c);
            proof {
                assert(text::views(made@) == text::views(before).push(c@));
            }
            i = i + 1;
        }
        proof {
            assert(want.take(i as int) == want);
        }
        InsightsResponse {
            cards: made,
            generated_at: text::nat_text(now as u128),
            total_queries: found.len(),
            successful,
            total_tables: DbContext::count_tables(counted),
        }
    }

    /// The figures that the outcomes of the card queries make now, where
    /// `counted` is the outcome of the counting query.
    pub fn generate_insights(
        found: &Vec<Result<Vec<Json>, String>>,
        counted: &Result<Vec<Json>, String>,
    ) -> (r: InsightsResponse)
        requires
            found@.len() == card_queries().len(),
        ensures
            exists|now: u64|
                r@ == #[trigger] insights(outcomes(found@), db::rows_outcome(*counted), now),
    {
        let now: u64 = db::unix_now();
        DbContext::insights_at(found, counted, now)
    }
}

/// One card's failure does not touch another card.
pub proof fn law_failures_stay_apart(
    a: Seq<Result<Seq<JsonView>, Seq<char>>>,
    b: Seq<Result<Seq<JsonView>, Seq<char>>>,
    i: int,
)
    requires
        a.len() == b.len(),
        0 <= i < a.len(),
        a[i] == b[i],
    ensures
        cards(a)[i] == cards(b)[i],
{
}

// ---------------------------------------------------------------------------
// The cards in the prompt
// ---------------------------------------------------------------------------

/// The line of a card in the prompt; nothing for a card without a value.
pub open spec fn card_line(c: CardView) -> Seq<char> {
    if c.error is None && c.value != "—"@ {
        "  • "@ + c.title + ": "@ + c.value + " ("@ + c.subtitle + ")\n"@
    } else {
        Seq::empty()
    }
}

/// The lines of the cards.
pub open spec fn card_lines(cs: Seq<CardView>) -> Seq<Seq<char>> {
    Seq::new(cs.len(), |i: int| card_line(cs[i]))
}

/// The cards as the prompt tells them.
pub open spec fn insights_text(cs: Seq<CardView>) -> Seq<char> {
    "Database Insights (pre-computed):\n"@ + text::concat(card_lines(cs))
}

fn line_of_card(c: &InsightCard) -> (r: String)
    ensures
        r@ == card_line(c@),
{
    if c.error.is_none() && !text::same(c.value.as_str(), "—") {
        let mut s = "  • ".to_owned();
        s.append(c.title.as_str());
        s.append(": ");
        s.append(c.value.as_str());
        s.append(" (");
        s.append(c.subtitle.as_str());
        s.append(")\n");
        s
    } else {
        String::new()
    }
}

impl DbContext {
    /// The cards that carry a value, as the prompt tells them.
    pub fn format_insights_for_prompt(insights: &InsightsResponse) -> (r: String)
        ensures
            r@ == insights_text(insights@.cards),
    {
        let mut s = "Database Insights (pre-computed):\n".to_owned();
        let ghost head = s@;
        let ghost lines = card_lines(insights@.cards);
        let mut i: usize = 0;
        proof {
            text::lemma_concat_all(lines);
            assert(head + Seq::<char>::empty() == head);
        }
        while i < insights.cards.len()
            invariant
                lines == card_lines(text::views(insights.cards@)),
                i <= insights.cards@.len(),
                s@ == head + text::concat(lines.take(i as int)),
            decreases insights.cards@.len() - i,
        {
            let line = line_of_card(&insights.cards[i]);
            proof {
                text::lemma_concat_next(lines, i as int);
                assert(head + (text::concat(lines.take(i as int)) + line@) == head + text::concat(
                    lines.take(i as int),
                ) + line@);
            }
            s.append(line.as_str());
            i = i + 1;
        }
        s
    }

    /// The canonical metrics, as the prompt tells them.
    pub fn format_metrics_for_prompt() -> (r: String)
        ensures
            r@ == metrics_text(),
    {
        let mut s = "Canonical Metrics:\n".to_owned();
        s.append("  • points_per_game: AVG(pts)\n");
        s.append("  • rebounds_per_game: AVG(reb)\n");
        s.append("  • assists_per_game: AVG(ast)\n");
        s.append("  • true_shooting_percentage: SUM(pts) / (2 * (SUM(fga) + 0.44 * SUM(fta)))\n");
        s
    }
}

/// The canonical metrics, as the prompt tells them.
pub open spec fn metrics_text() -> Seq<char> {
    "Canonical Metrics:\n"@
        + "  • points_per_game: AVG(pts)\n"@
        + "  • rebounds_per_game: AVG(reb)\n"@
        + "  • assists_per_game: AVG(ast)\n"@
        + "  • true_shooting_percentage: SUM(pts) / (2 * (SUM(fga) + 0.44 * SUM(fta)))\n"@
}

// ---------------------------------------------------------------------------
// What the cards are for
// ---------------------------------------------------------------------------

/// Each card is about what its title says: the games, the players and the teams are
/// each counted in their own table, the seasons run from the first to the last, and
/// the largest table is the one with the most rows.
pub proof fn law_cards_are_about_their_titles(v: Seq<Result<Seq<JsonView>, Seq<char>>>)
    requires
        v.len() == 7,
    ensures
        card_queries().len() == 7,
        cards(v).len() == 7,
        cards(v)[0].id == "total_games"@ && cards(v)[0].title == "Total Games"@
            && card_queries()[0].query == "SELECT COUNT(*) as val FROM game;"@,
        cards(v)[1].id == "total_players"@ && cards(v)[1].title == "Total Players"@
            && card_queries()[1].query == "SELECT COUNT(*) as val FROM player;"@,
        cards(v)[2].id == "total_teams"@ && cards(v)[2].title == "Total Teams"@
            && card_queries()[2].query == "SELECT COUNT(*) as val FROM team;"@,
        cards(v)[3].id == "season_range"@ && cards(v)[3].title == "Season Coverage"@
            && card_queries()[3].query
            == "SELECT MIN(season_id) as min_s, MAX(season_id) as max_s FROM game;"@,
        cards(v)[4].id == "recent_season"@ && cards(v)[4].title == "Most Recent Season"@
            && card_queries()[4].query == "SELECT MAX(season_id) as val FROM game;"@,
        cards(v)[5].id == "largest_table"@ && cards(v)[5].title == "Largest Table"@
            && card_queries()[5].query
            == "SELECT table_name, estimated_size FROM duckdb_tables() WHERE schema_name='main' AND estimated_size >= 0 ORDER BY estimated_size DESC LIMIT 1;"@,
        cards(v)[6].id == "total_tables"@ && cards(v)[6].title == "Database Tables"@
            && card_queries()[6].query
            == "SELECT COUNT(*) as val FROM information_schema.tables WHERE table_schema='main';"@,
        count_query()
            == "SELECT COUNT(*) as val FROM information_schema.tables WHERE table_schema='main';"@,
{
}

/// A card is labelled as its query is, and shows the value of the first row; a query
/// without rows and one that failed show no value, and each says so.
pub proof fn law_cards_show_the_first_row(
    q: CardQueryView,
    rows: Seq<JsonView>,
    e: Seq<char>,
    outcome: Result<Seq<JsonView>, Seq<char>>,
)
    ensures
        card(q, outcome).id == q.id,
        card(q, outcome).title == q.title,
        card(q, outcome).subtitle == q.subtitle,
        card(q, outcome).category == q.category,
        rows.len() > 0 ==> card(q, Ok(rows)).value == card_value(rows[0]) && card(
            q,
            Ok(rows),
        ).error is None,
        rows.len() == 0 ==> card(q, Ok(rows)).value == "—"@ && card(q, Ok(rows)).error == Some(
            "No rows returned"@,
        ),
        card(q, Err(e)).value == "—"@,
        card(q, Err(e)).error == Some("Query failed: "@ + e),
{
}

/// A row that tells a number shows that number with its thousands set apart, and one
/// that tells anything else shows it without quotes; one that tells of a table shows
/// its name and its size, one that tells of a range its two ends in their order, and
/// any other row itself.
pub proof fn law_values_are_those_of_the_row(row: JsonView, v: JsonView)
    ensures
        ({
            let shown = match v.signed() {
                Some(n) => schema::comma_number(n as int),
                None => json::bare_text(v),
            };
            let plain = row.get("val"@) is None && row.get("name"@) is None;
            let nothing = plain && row.get("total_pts"@) is None && row.get("total_threes"@) is None
                && row.get("games"@) is None;
            &&& row.get("val"@) == Some(v) ==> card_value(row) == shown
            &&& row.get("val"@) is None && row.get("name"@) == Some(v) ==> card_value(row)
                == json::bare_text(v)
            &&& plain && row.get("total_pts"@) == Some(v) ==> card_value(row) == shown
            &&& plain && row.get("total_pts"@) is None && row.get("total_threes"@) == Some(v)
                ==> card_value(row) == shown
            &&& plain && row.get("total_pts"@) is None && row.get("total_threes"@) is None
                && row.get("games"@) == Some(v) ==> card_value(row) == shown
            &&& nothing && row.get("table_name"@) == Some(v) ==> card_value(row) == json::bare_text(
                v,
            ) + " ("@ + (match row.get("estimated_size"@) {
                Some(e) => schema::comma_number(
                    match e.signed() {
                        Some(n) => n as int,
                        None => 0,
                    },
                ),
                None => Seq::empty(),
            }) + " rows)"@
            &&& nothing && row.get("table_name"@) is None && row.get("min_s"@) == Some(v)
                ==> card_value(row) == json::bare_text(v) + " – "@ + (match row.get("max_s"@) {
                Some(w) => json::bare_text(w),
                None => Seq::empty(),
            })
            &&& nothing && row.get("table_name"@) is None && row.get("min_s"@) is None
                ==> card_value(row) == json::json_text(row)
        }),
{
}

proof fn lemma_answered(v: Seq<Result<Seq<JsonView>, Seq<char>>>, cs: Seq<CardView>)
    requires
        cs.len() == v.len(),
        forall|i: int|
            0 <= i < v.len() ==> ((#[trigger] cs[i]).error is None <==> v[i] is Ok && v[i]->Ok_0.len()
                > 0),
    ensures
        without_error(cs) == v.filter(
            |o: Result<Seq<JsonView>, Seq<char>>| o is Ok && o->Ok_0.len() > 0,
        ).len(),
    decreases v.len(),
{
    reveal(Seq::filter);
    if v.len() > 0 {
        let f = cs.drop_last();
        let g = v.drop_last();
        assert forall|i: int| 0 <= i < g.len() implies ((#[trigger] f[i]).error is None <==> g[i] is Ok
            && g[i]->Ok_0.len() > 0) by {
            assert(f[i] == cs[i] && g[i] == v[i]);
        }
        lemma_answered(g, f);
        assert(cs[cs.len() - 1] == cs.last());
    }
}

/// The figures have one card for each query, in their order; as many succeeded as
/// queries gave rows; the tables are as many as the counting query says; and the
/// time is the one at hand, in decimal.
pub proof fn law_figures_add_up(
    v: Seq<Result<Seq<JsonView>, Seq<char>>>,
    counted: Result<Seq<JsonView>, Seq<char>>,
    now: u64,
    i: int,
)
    ensures
        insights(v, counted, now).cards.len() == v.len(),
        0 <= i < v.len() ==> insights(v, counted, now).cards[i] == card(card_queries()[i], v[i]),
        insights(v, counted, now).total_queries == v.len(),
        insights(v, counted, now).successful == v.filter(
            |o: Result<Seq<JsonView>, Seq<char>>| o is Ok && o->Ok_0.len() > 0,
        ).len(),
        insights(v, counted, now).generated_at == text::dec(now as nat),
        counted matches Ok(rows) ==> (rows.len() > 0 ==> (rows[0].at("val"@).signed() matches Some(
            n,
        ) ==> (0 <= n <= usize::MAX ==> insights(v, counted, now).total_tables == n))),
        counted is Err || counted->Ok_0.len() == 0 || counted->Ok_0[0].at("val"@).signed() is None
            ==> insights(v, counted, now).total_tables == 0,
{
    let cs = cards(v);
    assert forall|k: int| 0 <= k < v.len() implies ((#[trigger] cs[k]).error is None <==> v[k] is Ok
        && v[k]->Ok_0.len() > 0) by {
        assert(cs[k] == card(card_queries()[k], v[k]));
    }
    lemma_answered(v, cs);
}

/// The prompt tells every card that carries a value, with its title, its value and
/// what it is about, and none that does not.
pub proof fn law_prompts_tell_the_cards(cs: Seq<CardView>, c: CardView, i: int)
    ensures
        0 <= i < cs.len() && cs[i].error is None && cs[i].value != "—"@ ==> text::contains(
            insights_text(cs),
            cs[i].title + ": "@ + cs[i].value + " ("@ + cs[i].subtitle + ")\n"@,
        ),
        c.error is Some || c.value == "—"@ ==> insights_text(cs.push(c)) == insights_text(cs),
        text::begins(insights_text(cs), "Database Insights (pre-computed):\n"@),
{
    let head = "Database Insights (pre-computed):\n"@;
    let all = insights_text(cs);
    text::law_beginnings_and_ends(all, head);
    if 0 <= i < cs.len() && cs[i].error is None && cs[i].value != "—"@ {
        let f = cs[i].title + ": "@ + cs[i].value + " ("@ + cs[i].subtitle + ")\n"@;
        let line = card_line(cs[i]);
        assert(line =~= "  • "@ + f);
        let lines = card_lines(cs);
        let a = lines.take(i);
        let b = lines.skip(i + 1);
        assert(lines =~= a + seq![line] + b);
        text::law_joining_joins(a, seq![line], line, head);
        text::law_joining_joins(a + seq![line], b, line, head);
        let before = head + text::concat(a) + "  • "@;
        assert(all =~= before + f + text::concat(b));
        text::lemma_middle(before, f, text::concat(b));
    }
    if c.error is Some || c.value == "—"@ {
        let more = card_lines(cs.push(c));
        assert(more =~= card_lines(cs).push(Seq::empty()));
        assert(more.drop_last() =~= card_lines(cs));
        assert(text::concat(more) =~= text::concat(card_lines(cs)));
    }
}

/// The metrics are each defined by their own columns.
pub proof fn law_metrics_are_defined()
    ensures
        text::contains(metrics_text(), "  • points_per_game: AVG(pts)\n"@),
        text::contains(metrics_text(), "  • rebounds_per_game: AVG(reb)\n"@),
        text::contains(metrics_text(), "  • assists_per_game: AVG(ast)\n"@),
        text::ends(
            metrics_text(),
            "  • true_shooting_percentage: SUM(pts) / (2 * (SUM(fga) + 0.44 * SUM(fta)))\n"@,
        ),
{
    broadcast use text::lemma_concat_push;

    let none = Seq::<Seq<char>>::empty();
    let parts = none
        .push("Canonical Metrics:\n"@)
        .push("  • points_per_game: AVG(pts)\n"@)
        .push("  • rebounds_per_game: AVG(reb)\n"@)
        .push("  • assists_per_game: AVG(ast)\n"@)
        .push("  • true_shooting_percentage: SUM(pts) / (2 * (SUM(fga) + 0.44 * SUM(fta)))\n"@);
    assert(metrics_text() == text::concat(parts));
    text::lemma_run(parts, 1, 2);
    assert(parts.subrange(1, 2) =~= none.push(parts[1]));
    text::lemma_run(parts, 2, 3);
    assert(parts.subrange(2, 3) =~= none.push(parts[2]));
    text::lemma_run(parts, 3, 4);
    assert(parts.subrange(3, 4) =~= none.push(parts[3]));
    text::lemma_run(parts, 4, 5);
    assert(parts.subrange(4, 5) =~= none.push(parts[4]));
}

}
